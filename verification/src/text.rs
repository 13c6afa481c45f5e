//! Text helpers shared by the load generators: character access, string building,
//! searching, trimming and decimal formatting.

use vstd::prelude::*;

verus! {

/// `String::push` of std, which vstd leaves without a specification. Claimed, as std
/// documents it: the character is appended to the end of the string.
pub assume_specification[ String::push ](s: &mut String, ch: char)
    ensures
        final(s)@ == old(s)@.push(ch),
;

/// The characters of `s`, in order.
pub fn chars_of(s: &str) -> (v: Vec<char>)
    ensures
        v@ == s@,
{
    let mut v: Vec<char> = Vec::new();
    for c in it: s.chars()
        invariant
            v@ == it.seq().take(it.index() as int),
    {
        v.push(c);
    }
    v
}

/// A string holding the characters of `v`.
pub fn string_from_chars(v: &[char]) -> (s: String)
    ensures
        s@ == v@,
{
    let mut s = String::new();
    for i in 0..v.len()
        invariant
            s@ == v@.take(i as int),
    {
        s.push(v[i]);
        proof {
            assert(v@.take(i + 1) =~= v@.take(i as int).push(v@[i as int]));
        }
    }
    proof {
        assert(v@.take(v@.len() as int) =~= v@);
    }
    s
}

/// Appends `t` to `s`.
pub fn push_str(s: &mut String, t: &str)
    ensures
        final(s)@ == old(s)@ + t@,
{
    s.append(t);
}

/// Whether `a` and `b` hold the same characters.
pub fn str_eq(a: &str, b: &str) -> (r: bool)
    ensures
        r == (a@ == b@),
{
    let va = chars_of(a);
    let vb = chars_of(b);
    if va.len() != vb.len() {
        return false;
    }
    for i in 0..va.len()
        invariant
            va@ == a@,
            vb@ == b@,
            va.len() == vb.len(),
            forall|j: int| 0 <= j < i ==> va@[j] == vb@[j],
    {
        if va[i] != vb[i] {
            return false;
        }
    }
    proof {
        assert(va@ =~= vb@);
    }
    true
}

/// The index of the first occurrence of `c` in `s`, if any.
pub open spec fn first_index(s: Seq<char>, c: char) -> Option<int> {
    if exists|k: int| 0 <= k < s.len() && s[k] == c {
        Some(choose|k: int| 0 <= k < s.len() && s[k] == c && forall|j: int| 0 <= j < k ==> s[j] != c)
    } else {
        None
    }
}

proof fn lemma_first_index(s: Seq<char>, c: char, k: int)
    requires
        0 <= k < s.len(),
        s[k] == c,
        forall|j: int| 0 <= j < k ==> s[j] != c,
    ensures
        first_index(s, c) == Some(k),
{
    let p = |k: int| 0 <= k < s.len() && s[k] == c && forall|j: int| 0 <= j < k ==> s[j] != c;
    assert(p(k));
    let k2 = choose|k: int| 0 <= k < s.len() && s[k] == c && forall|j: int| 0 <= j < k ==> s[j] != c;
    assert(p(k2));
    if k2 < k {
        assert(s[k2] != c);
    }
    if k < k2 {
        assert(s[k] != c);
    }
}

/// Position of the first `c` in `v`, found by a scan.
pub fn find_char(v: &[char], c: char) -> (r: Option<usize>)
    ensures
        match r {
            Some(k) => {
                &&& first_index(v@, c) == Some(k as int)
                &&& k < v@.len()
                &&& v@[k as int] == c
                &&& forall|j: int| 0 <= j < k ==> v@[j] != c
            },
            None => first_index(v@, c) is None && forall|j: int| 0 <= j < v@.len() ==> v@[j] != c,
        },
{
    for i in 0..v.len()
        invariant
            forall|j: int| 0 <= j < i ==> v@[j] != c,
    {
        if v[i] == c {
            proof {
                lemma_first_index(v@, c, i as int);
            }
            return Some(i);
        }
    }
    None
}

/// Unicode `White_Space`, the set `char::is_whitespace` tests for.
pub open spec fn is_whitespace(c: char) -> bool {
    let u = c as u32;
    ||| 0x09 <= u <= 0x0d
    ||| u == 0x20
    ||| u == 0x85
    ||| u == 0xa0
    ||| u == 0x1680
    ||| 0x2000 <= u <= 0x200a
    ||| u == 0x2028
    ||| u == 0x2029
    ||| u == 0x202f
    ||| u == 0x205f
    ||| u == 0x3000
}

/// Whether `c` is Unicode white space.
pub fn char_is_whitespace(c: char) -> (r: bool)
    ensures
        r == is_whitespace(c),
{
    let u = c as u32;
    (0x09 <= u && u <= 0x0d) || u == 0x20 || u == 0x85 || u == 0xa0 || u == 0x1680 || (0x2000 <= u
        && u <= 0x200a) || u == 0x2028 || u == 0x2029 || u == 0x202f || u == 0x205f || u == 0x3000
}

/// `s` without its leading white space.
pub open spec fn trim_start(s: Seq<char>) -> Seq<char>
    decreases s.len(),
{
    if s.len() > 0 && is_whitespace(s[0]) {
        trim_start(s.drop_first())
    } else {
        s
    }
}

/// `s` without its trailing white space.
pub open spec fn trim_end(s: Seq<char>) -> Seq<char>
    decreases s.len(),
{
    if s.len() > 0 && is_whitespace(s.last()) {
        trim_end(s.drop_last())
    } else {
        s
    }
}

/// `s` without leading and trailing white space, as `str::trim` gives it.
pub open spec fn trim(s: Seq<char>) -> Seq<char> {
    trim_end(trim_start(s))
}

proof fn lemma_trim_start(s: Seq<char>, a: int)
    requires
        0 <= a <= s.len(),
        forall|j: int| 0 <= j < a ==> is_whitespace(s[j]),
        a == s.len() || !is_whitespace(s[a]),
    ensures
        trim_start(s) == s.skip(a),
    decreases a,
{
    if a == 0 {
        assert(s.skip(0) =~= s);
    } else {
        assert(s.drop_first().skip(a - 1) =~= s.skip(a));
        lemma_trim_start(s.drop_first(), a - 1);
    }
}

proof fn lemma_trim_end(s: Seq<char>, b: int)
    requires
        0 <= b <= s.len(),
        forall|j: int| b <= j < s.len() ==> is_whitespace(s[j]),
        b == 0 || !is_whitespace(s[b - 1]),
    ensures
        trim_end(s) == s.take(b),
    decreases s.len() - b,
{
    if b == s.len() {
        assert(s.take(b) =~= s);
    } else {
        assert(s.drop_last().take(b) =~= s.take(b));
        lemma_trim_end(s.drop_last(), b);
    }
}

/// The bounds `(a, b)` such that `v[a..b]` is `v` trimmed of white space.
pub fn trim_bounds(v: &[char]) -> (r: (usize, usize))
    ensures
        r.0 <= r.1 <= v@.len(),
        v@.subrange(r.0 as int, r.1 as int) == trim(v@),
{
    let n = v.len();
    let mut a: usize = 0;
    while a < n && char_is_whitespace(v[a])
        invariant
            a <= n == v@.len(),
            forall|j: int| 0 <= j < a ==> is_whitespace(v@[j]),
        decreases n - a,
    {
        a = a + 1;
    }
    let mut b: usize = n;
    while b > a && char_is_whitespace(v[b - 1])
        invariant
            a <= b <= n == v@.len(),
            forall|j: int| b <= j < n ==> is_whitespace(v@[j]),
        decreases b - a,
    {
        b = b - 1;
    }
    proof {
        lemma_trim_start(v@, a as int);
        let t = v@.skip(a as int);
        lemma_trim_end(t, (b - a) as int);
        assert(t.take((b - a) as int) =~= v@.subrange(a as int, b as int));
    }
    (a, b)
}

/// The decimal digit character for `d`.
pub open spec fn digit_char(d: nat) -> char {
    (d + 48) as char
}

/// The decimal representation of `n`, without leading zeros.
pub open spec fn decimal(n: nat) -> Seq<char>
    decreases n,
{
    if n < 10 {
        seq![digit_char(n)]
    } else {
        decimal(n / 10).push(digit_char(n % 10))
    }
}

proof fn lemma_decimal_len(n: nat)
    ensures
        decimal(n).len() >= 1,
        n >= 10 ==> decimal(n).len() >= 2,
        forall|i: int| 0 <= i < decimal(n).len() ==> 48 <= #[trigger] (decimal(n)[i] as u32) <= 57,
    decreases n,
{
    if n >= 10 {
        lemma_decimal_len(n / 10);
    }
}

/// Different numbers have different decimal representations.
pub proof fn lemma_decimal_injective(a: nat, b: nat)
    requires
        decimal(a) == decimal(b),
    ensures
        a == b,
    decreases a,
{
    lemma_decimal_len(a);
    lemma_decimal_len(b);
    if a >= 10 && b >= 10 {
        assert(decimal(a).drop_last() =~= decimal(a / 10));
        assert(decimal(b).drop_last() =~= decimal(b / 10));
        lemma_decimal_injective(a / 10, b / 10);
        assert(decimal(a).last() == digit_char(a % 10));
        assert(decimal(b).last() == digit_char(b % 10));
        assert(a % 10 == b % 10);
    } else if a < 10 && b < 10 {
        assert(decimal(a)[0] == digit_char(a));
        assert(decimal(b)[0] == digit_char(b));
    }
}

/// `n` in decimal, as `u64::to_string` writes it.
pub fn u64_to_decimal(n: u64) -> (s: String)
    ensures
        s@ == decimal(n as nat),
    decreases n,
{
    if n < 10 {
        let mut s = String::new();
        s.push(char_of_digit(n));
        proof {
            assert(s@ =~= seq![digit_char(n as nat)]);
        }
        s
    } else {
        let mut s = u64_to_decimal(n / 10);
        s.push(char_of_digit(n % 10));
        s
    }
}

/// The character of the decimal digit `d`.
fn char_of_digit(d: u64) -> (c: char)
    requires
        d < 10,
    ensures
        c == digit_char(d as nat),
{
    if d == 0 {
        '0'
    } else if d == 1 {
        '1'
    } else if d == 2 {
        '2'
    } else if d == 3 {
        '3'
    } else if d == 4 {
        '4'
    } else if d == 5 {
        '5'
    } else if d == 6 {
        '6'
    } else if d == 7 {
        '7'
    } else if d == 8 {
        '8'
    } else {
        '9'
    }
}

/// The first position at or after `start` where `c` occurs in `v`, if any.
pub fn find_char_from(v: &[char], start: usize, c: char) -> (r: Option<usize>)
    requires
        start <= v@.len(),
    ensures
        match r {
            Some(k) => {
                &&& start <= k < v@.len()
                &&& v@[k as int] == c
                &&& forall|j: int| start <= j < k ==> v@[j] != c
                &&& first_index(v@.skip(start as int), c) == Some(k - start)
            },
            None => {
                &&& forall|j: int| start <= j < v@.len() ==> v@[j] != c
                &&& first_index(v@.skip(start as int), c) is None
            },
        },
{
    let mut i = start;
    while i < v.len()
        invariant
            start <= i <= v@.len(),
            forall|j: int| start <= j < i ==> v@[j] != c,
        decreases v.len() - i,
    {
        if v[i] == c {
            proof {
                lemma_first_index(v@.skip(start as int), c, i - start);
            }
            return Some(i);
        }
        i = i + 1;
    }
    proof {
        let t = v@.skip(start as int);
        assert(forall|k: int| 0 <= k < t.len() ==> t[k] != c);
    }
    None
}

/// A string holding `v[a..b]`.
pub fn string_from_range(v: &[char], a: usize, b: usize) -> (s: String)
    requires
        a <= b <= v@.len(),
    ensures
        s@ == v@.subrange(a as int, b as int),
{
    let mut s = String::new();
    let mut i = a;
    while i < b
        invariant
            a <= i <= b <= v@.len(),
            s@ == v@.subrange(a as int, i as int),
        decreases b - i,
    {
        s.push(v[i]);
        proof {
            assert(v@.subrange(a as int, i + 1) =~= v@.subrange(a as int, i as int).push(v@[i as int]));
        }
        i = i + 1;
    }
    s
}

/// `s` split at every `sep`, as `str::split` yields the fields.
#[verifier::opaque]
pub open spec fn split_fields(s: Seq<char>, sep: char) -> Seq<Seq<char>>
    decreases s.len(),
{
    match first_index(s, sep) {
        Some(k) => if 0 <= k < s.len() {
            seq![s.take(k)] + split_fields(s.skip(k + 1), sep)
        } else {
            seq![s]
        },
        None => seq![s],
    }
}

/// The fields of a list, each trimmed of white space, with the empty ones left out.
#[verifier::opaque]
pub open spec fn trimmed_nonempty(fields: Seq<Seq<char>>) -> Seq<Seq<char>>
    decreases fields.len(),
{
    if fields.len() == 0 {
        Seq::empty()
    } else if trim(fields[0]).len() > 0 {
        seq![trim(fields[0])] + trimmed_nonempty(fields.drop_first())
    } else {
        trimmed_nonempty(fields.drop_first())
    }
}

/// The views of a vector of strings.
pub open spec fn views(v: Seq<String>) -> Seq<Seq<char>> {
    v.map_values(|s: String| s@)
}

/// `x` as a one-element list when non-empty, else the empty list.
pub open spec fn keep_nonempty(x: Seq<char>) -> Seq<Seq<char>> {
    if x.len() > 0 {
        seq![x]
    } else {
        Seq::empty()
    }
}

proof fn lemma_split_step(rest: Seq<char>, k: int)
    requires
        0 <= k < rest.len(),
        rest[k] == ',',
        forall|j: int| 0 <= j < k ==> rest[j] != ',',
    ensures
        trimmed_nonempty(split_fields(rest, ',')) == keep_nonempty(trim(rest.take(k)))
            + trimmed_nonempty(split_fields(rest.skip(k + 1), ',')),
{
    reveal(split_fields);
    reveal(trimmed_nonempty);
    lemma_first_index(rest, ',', k);
    let fs = split_fields(rest, ',');
    assert(fs == seq![rest.take(k)] + split_fields(rest.skip(k + 1), ','));
    assert(fs.drop_first() =~= split_fields(rest.skip(k + 1), ','));
    if trim(rest.take(k)).len() > 0 {
        assert(keep_nonempty(trim(rest.take(k))) + trimmed_nonempty(fs.drop_first()) =~= seq![
            trim(rest.take(k)),
        ] + trimmed_nonempty(fs.drop_first()));
    } else {
        assert(keep_nonempty(trim(rest.take(k))) + trimmed_nonempty(fs.drop_first()) =~= trimmed_nonempty(
            fs.drop_first(),
        ));
    }
}

proof fn lemma_split_last(rest: Seq<char>)
    requires
        forall|j: int| 0 <= j < rest.len() ==> rest[j] != ',',
    ensures
        trimmed_nonempty(split_fields(rest, ',')) == keep_nonempty(trim(rest)),
{
    reveal(split_fields);
    reveal(trimmed_nonempty);
    assert(first_index(rest, ',') is None);
    let fs = split_fields(rest, ',');
    assert(fs == seq![rest]);
    assert(fs.drop_first() =~= Seq::<Seq<char>>::empty());
    assert(trimmed_nonempty(fs.drop_first()) == Seq::<Seq<char>>::empty());
    if trim(rest).len() > 0 {
        assert(trimmed_nonempty(fs) =~= seq![trim(rest)]);
    }
}

/// Appends `v[a..b]` trimmed of white space to `out`, unless nothing is left of it.
fn push_trimmed(out: &mut Vec<String>, v: &[char], a: usize, b: usize)
    requires
        a <= b <= v@.len(),
    ensures
        views(final(out)@) == views(old(out)@) + keep_nonempty(trim(v@.subrange(a as int, b as int))),
{
    let field = string_from_range(v, a, b);
    let fv = chars_of(field.as_str());
    let (x, y) = trim_bounds(&fv);
    if x < y {
        out.push(string_from_range(&fv, x, y));
        proof {
            assert(views(out@) =~= views(old(out)@).push(trim(v@.subrange(a as int, b as int))));
        }
    } else {
        proof {
            assert(views(out@) =~= views(old(out)@) + Seq::<Seq<char>>::empty());
        }
    }
}

/// The non-empty, trimmed entries of the comma-separated list `s`.
#[verifier::rlimit(30)]
pub fn split_list(s: &str) -> (r: Vec<String>)
    ensures
        views(r@) == trimmed_nonempty(split_fields(s@, ',')),
{
    let v = chars_of(s);
    let mut out: Vec<String> = Vec::new();
    let mut pos: usize = 0;
    proof {
        assert(v@.skip(0) =~= v@);
        assert(views(out@) + trimmed_nonempty(split_fields(v@, ',')) =~= trimmed_nonempty(
            split_fields(v@, ','),
        ));
    }
    loop
        invariant
            v@ == s@,
            pos <= v@.len(),
            views(out@) + trimmed_nonempty(split_fields(v@.skip(pos as int), ',')) == trimmed_nonempty(
                split_fields(v@, ','),
            ),
        decreases v@.len() - pos,
    {
        let ghost rest = v@.skip(pos as int);
        let ghost out0 = views(out@);
        let found = find_char_from(&v, pos, ',');
        let end = match found {
            Some(k) => k,
            None => v.len(),
        };
        push_trimmed(&mut out, &v, pos, end);
        proof {
            assert(v@.subrange(pos as int, end as int) =~= rest.take(end - pos));
        }
        if end == v.len() {
            proof {
                assert(rest.take(end - pos) =~= rest);
                lemma_split_last(rest);
                assert(views(out@) + Seq::<Seq<char>>::empty() =~= views(out@));
            }
            return out;
        }
        proof {
            let k = end - pos;
            assert(rest.skip(k + 1) =~= v@.skip(end + 1));
            lemma_split_step(rest, k);
            assert(views(out@) + trimmed_nonempty(split_fields(rest.skip(k + 1), ',')) =~= out0 + (
            keep_nonempty(trim(rest.take(k))) + trimmed_nonempty(split_fields(rest.skip(k + 1), ','))));
        }
        pos = end + 1;
    }
}

} // verus!
