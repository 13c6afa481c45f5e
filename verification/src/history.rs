//! Run history of one test: its stored runs, newest first.

use vstd::prelude::*;
use crate::runner_resource::RunRecord;
use crate::text::str_eq;

verus! {

/// Byte-wise lexicographic "less than", the order of `str::cmp`.
pub open spec fn lex_less(a: Seq<u8>, b: Seq<u8>) -> bool
    decreases a.len(),
{
    if b.len() == 0 {
        false
    } else if a.len() == 0 {
        true
    } else if a[0] < b[0] {
        true
    } else if a[0] > b[0] {
        false
    } else {
        lex_less(a.drop_first(), b.drop_first())
    }
}

/// No timestamp comes before itself.
pub proof fn lemma_lex_irreflexive(a: Seq<u8>)
    ensures
        !lex_less(a, a),
    decreases a.len(),
{
    if a.len() > 0 {
        lemma_lex_irreflexive(a.drop_first());
    }
}

/// The order of timestamps is transitive.
pub proof fn lemma_lex_transitive(a: Seq<u8>, b: Seq<u8>, c: Seq<u8>)
    requires
        lex_less(a, b),
        lex_less(b, c),
    ensures
        lex_less(a, c),
    decreases a.len(),
{
    if a.len() > 0 && b.len() > 0 && c.len() > 0 && a[0] == b[0] && b[0] == c[0] {
        lemma_lex_transitive(a.drop_first(), b.drop_first(), c.drop_first());
    }
}

/// Any two different timestamps are ordered one way or the other.
pub proof fn lemma_lex_total(a: Seq<u8>, b: Seq<u8>)
    ensures
        lex_less(a, b) || lex_less(b, a) || a == b,
    decreases a.len(),
{
    if a.len() == 0 && b.len() == 0 {
        assert(a =~= b);
    } else if a.len() > 0 && b.len() > 0 && a[0] == b[0] {
        lemma_lex_total(a.drop_first(), b.drop_first());
        if a.drop_first() == b.drop_first() {
            assert forall|k: int| 0 <= k < a.len() implies a[k] == b[k] by {
                if k > 0 {
                    assert(a[k] == a.drop_first()[k - 1]);
                    assert(b[k] == b.drop_first()[k - 1]);
                }
            }
            assert(a =~= b);
        }
    }
}

/// The key runs are ordered by: the timestamp's bytes, or nothing when absent.
pub open spec fn run_key(r: RunRecord) -> Seq<u8> {
    match r.timestamp {
        Some(t) => vstd::utf8::encode_utf8(t@),
        None => Seq::empty(),
    }
}

/// Record `r` belongs to the test named `name`.
pub open spec fn is_run_of(r: RunRecord, name: Seq<char>) -> bool {
    r.test_name matches Some(n) && n@ == name
}

/// Run `i` is listed before run `j`: a later timestamp first; equal timestamps keep
/// their stored order.
pub open spec fn listed_before(rows: Seq<RunRecord>, i: int, j: int) -> bool {
    ||| lex_less(run_key(rows[j]), run_key(rows[i]))
    ||| (run_key(rows[i]) == run_key(rows[j]) && i < j)
}

/// `a` comes strictly before `b` in byte-wise order.
fn bytes_less(a: &[u8], b: &[u8]) -> (r: bool)
    ensures
        r == lex_less(a@, b@),
{
    let mut i: usize = 0;
    proof {
        assert(a@.skip(0) =~= a@);
        assert(b@.skip(0) =~= b@);
    }
    while i < a.len() && i < b.len() && a[i] == b[i]
        invariant
            i <= a@.len(),
            i <= b@.len(),
            lex_less(a@, b@) == lex_less(a@.skip(i as int), b@.skip(i as int)),
        decreases a.len() - i,
    {
        proof {
            assert(a@.skip(i as int).drop_first() =~= a@.skip(i + 1));
            assert(b@.skip(i as int).drop_first() =~= b@.skip(i + 1));
        }
        i = i + 1;
    }
    if i == b.len() {
        false
    } else if i == a.len() {
        true
    } else {
        a[i] < b[i]
    }
}

/// The timestamp bytes of a record.
fn key_bytes(r: &RunRecord) -> (k: &[u8])
    ensures
        k@ == run_key(*r),
{
    match &r.timestamp {
        Some(t) => t.as_str().as_bytes(),
        None => {
            let e: &[u8] = &[];
            assert(e@ =~= Seq::<u8>::empty());
            e
        },
    }
}

/// The positions in `rows` of the runs of `test_name`, newest first; runs with equal
/// timestamps keep their stored order.
pub fn history_runs(rows: &Vec<RunRecord>, test_name: &str) -> (r: Vec<usize>)
    ensures
        forall|k: int| 0 <= k < r@.len() ==> r@[k] < rows@.len() && is_run_of(rows@[r@[k] as int], test_name@),
        forall|i: int| 0 <= i < rows@.len() && is_run_of(#[trigger] rows@[i], test_name@) ==> r@.contains(i as usize),
        forall|a: int, b: int| 0 <= a < b < r@.len() ==> listed_before(rows@, r@[a] as int, r@[b] as int),
{
    let mut out: Vec<usize> = Vec::new();
    for i in 0..rows.len()
        invariant
            forall|k: int| 0 <= k < out@.len() ==> out@[k] < i && is_run_of(rows@[out@[k] as int], test_name@),
            forall|j: int| 0 <= j < i && is_run_of(#[trigger] rows@[j], test_name@) ==> out@.contains(j as usize),
            forall|a: int, b: int| 0 <= a < b < out@.len() ==> listed_before(rows@, out@[a] as int, out@[b] as int),
    {
        let matches = match &rows[i].test_name {
            Some(n) => str_eq(n.as_str(), test_name),
            None => false,
        };
        if matches {
            let key = key_bytes(&rows[i]);
            let mut p: usize = 0;
            while p < out.len() && !bytes_less(key_bytes(&rows[out[p]]), key)
                invariant
                    p <= out@.len(),
                    i < rows@.len(),
                    key@ == run_key(rows@[i as int]),
                    forall|k: int| 0 <= k < out@.len() ==> out@[k] < i,
                    forall|a: int| 0 <= a < p ==> !lex_less(run_key(rows@[out@[a] as int]), key@),
                decreases out.len() - p,
            {
                p = p + 1;
            }
            let ghost before = out@;
            proof {
                assert forall|b: int| p <= b < before.len() implies lex_less(
                    run_key(rows@[before[b] as int]),
                    key@,
                ) by {
                    if b > p {
                        assert(listed_before(rows@, before[p as int] as int, before[b] as int));
                        lemma_listed_key_order(rows@, before[p as int] as int, before[b] as int);
                        if run_key(rows@[before[b] as int]) != run_key(rows@[before[p as int] as int]) {
                            lemma_lex_transitive(
                                run_key(rows@[before[b] as int]),
                                run_key(rows@[before[p as int] as int]),
                                key@,
                            );
                        }
                    }
                }
            }
            out.insert(p, i);
            proof {
                assert forall|a: int, b: int| 0 <= a < b < out@.len() implies listed_before(
                    rows@,
                    out@[a] as int,
                    out@[b] as int,
                ) by {
                    if a < p && b == p {
                        lemma_lex_total(run_key(rows@[before[a] as int]), key@);
                    } else if a == p {
                        assert(lex_less(run_key(rows@[before[b - 1] as int]), key@));
                    } else if a < p && b > p {
                        assert(listed_before(rows@, before[a] as int, before[b - 1] as int));
                    } else if a > p {
                        assert(listed_before(rows@, before[a - 1] as int, before[b - 1] as int));
                    }
                }
                assert forall|j: int| 0 <= j < i + 1 && is_run_of(#[trigger] rows@[j], test_name@) implies out@.contains(
                    j as usize,
                ) by {
                    if j < i {
                        let k = choose|k: int| 0 <= k < before.len() && before[k] == j as usize;
                        if k < p {
                            assert(out@[k] == j as usize);
                        } else {
                            assert(out@[k + 1] == j as usize);
                        }
                    } else {
                        assert(out@[p as int] == i);
                    }
                }
            }
        }
    }
    out
}

/// When run `i` is listed before run `j`, `j`'s key is not greater.
proof fn lemma_listed_key_order(rows: Seq<RunRecord>, i: int, j: int)
    requires
        listed_before(rows, i, j),
    ensures
        lex_less(run_key(rows[j]), run_key(rows[i])) || run_key(rows[j]) == run_key(rows[i]),
{
}

} // verus!
