//! The blob-retrieval load generator: the large article it reads back and its address.

use vstd::prelude::*;
use crate::text::{push_str, str_eq};

verus! {

/// Times the filler sentence is repeated in the blob article.
pub const BLOB_REPEATS: u64 = 2700;

/// The filler sentence of the blob article.
pub open spec fn blob_phrase() -> Seq<char> {
    "Lorem ipsum dolor sit amet, consectetur adipiscing elit. "@
}

/// `s` repeated `n` times.
pub open spec fn repeat(s: Seq<char>, n: nat) -> Seq<char>
    decreases n,
{
    if n == 0 {
        Seq::empty()
    } else {
        repeat(s, (n - 1) as nat) + s
    }
}

proof fn lemma_repeat_len(s: Seq<char>, n: nat)
    ensures
        repeat(s, n).len() == n * s.len(),
    decreases n,
{
    if n > 0 {
        lemma_repeat_len(s, (n - 1) as nat);
        assert(n * s.len() == (n - 1) * s.len() + s.len()) by (nonlinear_arith);
    } else {
        assert(n * s.len() == 0) by (nonlinear_arith)
            requires
                n == 0,
        ;
    }
}

/// The content of the blob article: the filler sentence `BLOB_REPEATS` times, 153,900
/// characters (ASCII, so as many bytes), a little over 150 KiB.
pub fn blob_content() -> (r: String)
    ensures
        r@ == repeat(blob_phrase(), BLOB_REPEATS as nat),
        r@.len() == 153_900,
{
    let phrase = "Lorem ipsum dolor sit amet, consectetur adipiscing elit. ";
    let mut r = String::new();
    for i in 0..BLOB_REPEATS
        invariant
            phrase@ == blob_phrase(),
            r@ == repeat(blob_phrase(), i as nat),
    {
        push_str(&mut r, phrase);
    }
    proof {
        reveal_strlit("Lorem ipsum dolor sit amet, consectetur adipiscing elit. ");
        lemma_repeat_len(blob_phrase(), BLOB_REPEATS as nat);
    }
    r
}

/// Whether `test` names the blob test, `blob-retrieval`.
pub fn is_blob_test(test: &str) -> (r: bool)
    ensures
        r == (test@ == "blob-retrieval"@),
{
    str_eq(test, "blob-retrieval")
}

/// The address of the blob article `id`.
pub fn blob_url(base: &str, id: &str) -> (r: String)
    ensures
        r@ == base@ + "/app-benchmarks/BlobData/"@ + id@,
{
    let mut url = String::from_str(base);
    push_str(&mut url, "/app-benchmarks/BlobData/");
    push_str(&mut url, id);
    url
}

} // verus!
