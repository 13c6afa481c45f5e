//! Command-line settings shared by the load generators.

use vstd::prelude::*;
use crate::text::{chars_of, find_char, first_index, str_eq, trim, trim_bounds};

verus! {

/// Settings of one load-test run.
pub struct BenchArgs {
    /// Test ID to run (e.g. rest-read, graphql-mutation).
    pub test: String,
    /// Test duration in seconds.
    pub duration: u64,
    /// Number of virtual users (concurrent tasks).
    pub vus: u64,
    /// Base URL of the server; a comma-separated list for several targets.
    pub base_url: String,
    /// Basic auth credentials (user:pass).
    pub auth: String,
    /// Warmup duration in seconds (metrics are discarded during warmup).
    pub warmup: u64,
    /// Test mode: "standard" for a fixed VU count, "ramp" for progressive scaling.
    pub mode: String,
    /// Starting VU count for ramp mode.
    pub start_vus: u64,
    /// Number of VUs added at each ramp step.
    pub step_vus: u64,
    /// Seconds between ramp steps.
    pub step_interval: u64,
    /// Maximum VU count for ramp mode.
    pub max_vus: u64,
    /// URL results are posted to.
    pub report_url: String,
    /// File where the current phase (seeding/warming/running/cleaning) is written.
    pub status_file: Option<String>,
}

/// `s` split at its first `sep`: the part before and the part after it; without a
/// `sep`, all of `s` and nothing.
pub open spec fn split_once(s: Seq<char>, sep: char) -> (Seq<char>, Seq<char>) {
    match first_index(s, sep) {
        Some(k) => (s.take(k), s.skip(k + 1)),
        None => (s, Seq::empty()),
    }
}

/// The part of `s` before its first `sep`, or all of `s`.
pub open spec fn first_field(s: Seq<char>, sep: char) -> Seq<char> {
    match first_index(s, sep) {
        Some(k) => s.take(k),
        None => s,
    }
}

/// Splitting at the first separator loses nothing: the user part, the separator and
/// the password part give back the credentials, and the user part holds no separator.
pub proof fn lemma_split_once_rejoins(s: Seq<char>, sep: char)
    ensures
        first_index(s, sep) is Some ==> split_once(s, sep).0 + seq![sep] + split_once(s, sep).1 == s,
        first_index(s, sep) is None ==> split_once(s, sep).0 == s && split_once(s, sep).1.len() == 0,
        forall|i: int| 0 <= i < split_once(s, sep).0.len() ==> split_once(s, sep).0[i] != sep,
{
    if exists|k: int| 0 <= k < s.len() && s[k] == sep {
        let k0 = choose|k: int| 0 <= k < s.len() && s[k] == sep;
        lemma_first_occurrence_exists(s, sep, k0);
        let k = choose|k: int| 0 <= k < s.len() && s[k] == sep && forall|j: int| 0 <= j < k ==> s[j] != sep;
        assert(s.take(k) + seq![sep] + s.skip(k + 1) =~= s);
    }
}

proof fn lemma_first_occurrence_exists(s: Seq<char>, sep: char, k0: int)
    requires
        0 <= k0 < s.len(),
        s[k0] == sep,
    ensures
        exists|k: int| 0 <= k < s.len() && s[k] == sep && forall|j: int| 0 <= j < k ==> s[j] != sep,
    decreases k0,
{
    if exists|j: int| 0 <= j < k0 && s[j] == sep {
        let j = choose|j: int| 0 <= j < k0 && s[j] == sep;
        lemma_first_occurrence_exists(s, sep, j);
    }
}

impl BenchArgs {
    /// The user and password of the `user:pass` credentials; without a colon the
    /// whole string is the user and the password is empty.
    pub fn auth_parts(&self) -> (r: (&str, &str))
        ensures
            r.0@ == split_once(self.auth@, ':').0,
            r.1@ == split_once(self.auth@, ':').1,
    {
        let s = self.auth.as_str();
        let v = chars_of(s);
        match find_char(&v, ':') {
            Some(k) => {
                assert(k < v.len());
                let user = s.substring_char(0, k);
                let pass = s.substring_char(k + 1, v.len());
                proof {
                    assert(s@.subrange(0, k as int) =~= s@.take(k as int));
                    assert(s@.subrange(k + 1, v.len() as int) =~= s@.skip(k + 1));
                }
                (user, pass)
            },
            None => {
                let empty = "";
                proof {
                    reveal_strlit("");
                }
                (s, empty)
            },
        }
    }

    /// The first URL of the comma-separated `base_url` list, trimmed of white space.
    pub fn primary_url(&self) -> (r: &str)
        ensures
            r@ == trim(first_field(self.base_url@, ',')),
    {
        let s = self.base_url.as_str();
        let v = chars_of(s);
        let end = match find_char(&v, ',') {
            Some(k) => k,
            None => v.len(),
        };
        let field = s.substring_char(0, end);
        proof {
            assert(s@.subrange(0, end as int) =~= first_field(s@, ','));
        }
        let fv = chars_of(field);
        let (a, b) = trim_bounds(&fv);
        field.substring_char(a, b)
    }

    /// Whether the test runs in ramp mode.
    pub fn is_ramp(&self) -> (r: bool)
        ensures
            r == (self.mode@ == "ramp"@),
    {
        str_eq(self.mode.as_str(), "ramp")
    }
}

} // verus!
