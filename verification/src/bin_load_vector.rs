//! The vector load generator: which test a name selects, the topics its articles
//! and searches are about, its addresses and the query encoding.

use vstd::prelude::*;
use crate::text::{push_str, str_eq, string_from_chars};

verus! {

/// Bytes that stay as they are in a query parameter: letters, digits and `-_.~`.
pub open spec fn is_unreserved(b: u8) -> bool {
    ||| 65 <= b <= 90
    ||| 97 <= b <= 122
    ||| 48 <= b <= 57
    ||| b == 45
    ||| b == 95
    ||| b == 46
    ||| b == 126
}

/// The upper-case hexadecimal digit for `d`.
pub open spec fn hex_digit(d: u8) -> char {
    if d < 10 {
        (d + 48) as char
    } else {
        (d + 55) as char
    }
}

/// The encoding of one byte: itself when unreserved, else `%` and two upper-case hex digits.
pub open spec fn encode_byte(b: u8) -> Seq<char> {
    if is_unreserved(b) {
        seq![b as char]
    } else {
        seq!['%', hex_digit(b / 16), hex_digit(b % 16)]
    }
}

/// Percent-encoding of a byte sequence.
pub open spec fn percent_encode(bytes: Seq<u8>) -> Seq<char>
    decreases bytes.len(),
{
    if bytes.len() == 0 {
        Seq::empty()
    } else {
        percent_encode(bytes.drop_last()) + encode_byte(bytes.last())
    }
}

/// The value of a hexadecimal digit character, in either case.
pub open spec fn hex_value(c: char) -> int {
    let u = c as u32;
    if 48 <= u <= 57 {
        u - 48
    } else if 65 <= u <= 70 {
        u - 55
    } else if 97 <= u <= 102 {
        u - 87
    } else {
        0
    }
}

/// Percent-decoding, as a server reads a query parameter: `%` and two hex digits give
/// one byte, any other character its own code.
pub open spec fn percent_decode(s: Seq<char>) -> Seq<u8>
    decreases s.len(),
{
    if s.len() == 0 {
        Seq::empty()
    } else if s[0] == '%' && s.len() >= 3 {
        seq![(hex_value(s[1]) * 16 + hex_value(s[2])) as u8] + percent_decode(s.skip(3))
    } else {
        seq![s[0] as u8] + percent_decode(s.skip(1))
    }
}

proof fn lemma_encode_prepend(x: u8, rest: Seq<u8>)
    ensures
        percent_encode(seq![x] + rest) == encode_byte(x) + percent_encode(rest),
    decreases rest.len(),
{
    let t = seq![x] + rest;
    if rest.len() == 0 {
        assert(t.drop_last() =~= Seq::<u8>::empty());
        assert(percent_encode(Seq::<u8>::empty()) == Seq::<char>::empty());
        assert(encode_byte(x) + Seq::<char>::empty() =~= encode_byte(x));
        assert(Seq::<char>::empty() + encode_byte(x) =~= encode_byte(x));
    } else {
        assert(t.drop_last() =~= seq![x] + rest.drop_last());
        assert(t.last() == rest.last());
        lemma_encode_prepend(x, rest.drop_last());
        assert(encode_byte(x) + percent_encode(rest.drop_last()) + encode_byte(rest.last()) =~= encode_byte(x)
            + (percent_encode(rest.drop_last()) + encode_byte(rest.last())));
    }
}

proof fn lemma_decode_byte(x: u8, r: Seq<char>)
    ensures
        percent_decode(encode_byte(x) + r) == seq![x] + percent_decode(r),
{
    let s = encode_byte(x) + r;
    if is_unreserved(x) {
        assert(s[0] == x as char);
        assert(s.skip(1) =~= r);
        assert(x != 37);
        assert((x as char) as u8 == x);
    } else {
        let hi = x / 16;
        let lo = x % 16;
        assert(s[0] == '%');
        assert(s[1] == hex_digit(hi));
        assert(s[2] == hex_digit(lo));
        assert(s.skip(3) =~= r);
        assert(hex_value(hex_digit(hi)) == hi);
        assert(hex_value(hex_digit(lo)) == lo);
        assert(hi * 16 + lo == x);
    }
}

/// Nothing is lost in a search query: decoding the percent-encoded bytes gives them back.
pub proof fn lemma_percent_roundtrip(b: Seq<u8>)
    ensures
        percent_decode(percent_encode(b)) == b,
    decreases b.len(),
{
    if b.len() > 0 {
        let rest = b.skip(1);
        assert(b =~= seq![b[0]] + rest);
        lemma_encode_prepend(b[0], rest);
        lemma_decode_byte(b[0], percent_encode(rest));
        lemma_percent_roundtrip(rest);
    } else {
        assert(percent_encode(b) == Seq::<char>::empty());
    }
}

fn hex_char(d: u8) -> (c: char)
    requires
        d < 16,
    ensures
        c == hex_digit(d),
{
    if d < 10 {
        (d + 48) as char
    } else {
        (d + 55) as char
    }
}

/// Percent-encodes the UTF-8 bytes of `s` for use in a query parameter.
pub fn urlencoding(s: String) -> (r: String)
    ensures
        r@ == percent_encode(vstd::utf8::encode_utf8(s@)),
{
    let bytes = s.as_str().as_bytes();
    let mut out: Vec<char> = Vec::new();
    for i in 0..bytes.len()
        invariant
            bytes@ == vstd::utf8::encode_utf8(s@),
            out@ == percent_encode(bytes@.take(i as int)),
    {
        let b = bytes[i];
        proof {
            assert(bytes@.take(i + 1).drop_last() =~= bytes@.take(i as int));
        }
        if (65 <= b && b <= 90) || (97 <= b && b <= 122) || (48 <= b && b <= 57) || b == 45 || b == 95
            || b == 46 || b == 126 {
            out.push(b as char);
            proof {
                assert(out@ =~= percent_encode(bytes@.take(i as int)) + encode_byte(b));
            }
        } else {
            out.push('%');
            out.push(hex_char(b / 16));
            out.push(hex_char(b % 16));
            proof {
                assert(out@ =~= percent_encode(bytes@.take(i as int)) + encode_byte(b));
            }
        }
    }
    proof {
        assert(bytes@.take(bytes@.len() as int) =~= bytes@);
    }
    string_from_chars(&out)
}

/// Records seeded before the search test.
pub const SEARCH_SEED_RECORDS: u64 = 50;

/// The topics articles are written about and searches look for, in order.
pub open spec fn sample_topics() -> Seq<Seq<char>> {
    seq![
        "technology innovation artificial intelligence"@,
        "climate change renewable energy sustainability"@,
        "space exploration mars colonization"@,
        "quantum computing breakthroughs"@,
        "biotechnology gene editing crispr"@,
        "ocean conservation marine biology"@,
        "autonomous vehicles self driving cars"@,
        "blockchain decentralized finance"@,
        "neuroscience brain computer interfaces"@,
        "cybersecurity threat detection"@
    ]
}

/// The topic of the `i`-th article or search: the topics are taken in turn.
pub fn sample_topic(i: u64) -> (t: &'static str)
    ensures
        t@ == sample_topics()[(i % 10) as int],
{
    match i % 10 {
        0 => "technology innovation artificial intelligence",
        1 => "climate change renewable energy sustainability",
        2 => "space exploration mars colonization",
        3 => "quantum computing breakthroughs",
        4 => "biotechnology gene editing crispr",
        5 => "ocean conservation marine biology",
        6 => "autonomous vehicles self driving cars",
        7 => "blockchain decentralized finance",
        8 => "neuroscience brain computer interfaces",
        _ => "cybersecurity threat detection",
    }
}

/// The topics are ten different ones, taken in turn: two articles (or searches) get the
/// same topic exactly when their positions are the same modulo ten, so every topic is
/// written about and searched for, one after another.
pub proof fn lemma_topics_in_turn(i: nat, j: nat)
    ensures
        sample_topics().len() == 10,
        sample_topics()[(i % 10) as int] == sample_topics()[(j % 10) as int] <==> i % 10 == j % 10,
{
    reveal_strlit("technology innovation artificial intelligence");
    reveal_strlit("climate change renewable energy sustainability");
    reveal_strlit("space exploration mars colonization");
    reveal_strlit("quantum computing breakthroughs");
    reveal_strlit("biotechnology gene editing crispr");
    reveal_strlit("ocean conservation marine biology");
    reveal_strlit("autonomous vehicles self driving cars");
    reveal_strlit("blockchain decentralized finance");
    reveal_strlit("neuroscience brain computer interfaces");
    reveal_strlit("cybersecurity threat detection");
    let a = (i % 10) as int;
    let b = (j % 10) as int;
    if a != b {
        let ta = sample_topics()[a];
        let tb = sample_topics()[b];
        // Topics that share a first letter differ in their second.
        assert(ta[0] != tb[0] || ta[1] != tb[1]);
    }
}

/// The article table a vector test name selects: `vector-embed` writes articles to be
/// embedded, `vector-search` searches seeded ones.
pub open spec fn vector_table_spec(test: Seq<char>) -> Option<Seq<char>> {
    if test == "vector-embed"@ {
        Some("EmbedArticle"@)
    } else if test == "vector-search"@ {
        Some("SearchArticle"@)
    } else {
        None
    }
}

/// The article table of the vector test named `test`, if any.
pub fn vector_table(test: &str) -> (r: Option<&'static str>)
    ensures
        match r {
            Some(t) => vector_table_spec(test@) == Some(t@),
            None => vector_table_spec(test@) is None,
        },
{
    if str_eq(test, "vector-embed") {
        Some("EmbedArticle")
    } else if str_eq(test, "vector-search") {
        Some("SearchArticle")
    } else {
        None
    }
}

/// `{base}/app-benchmarks/{table}/`, or with the route between the app and the table.
pub open spec fn article_url_spec(base: Seq<char>, route: Seq<char>, table: Seq<char>) -> Seq<char> {
    if route.len() == 0 {
        base + "/app-benchmarks/"@ + table + "/"@
    } else {
        base + "/app-benchmarks/"@ + route + "/"@ + table + "/"@
    }
}

/// The collection address of an article table.
pub fn article_url(base: &str, route: &str, table: &str) -> (r: String)
    ensures
        r@ == article_url_spec(base@, route@, table@),
{
    let mut url = String::from_str(base);
    push_str(&mut url, "/app-benchmarks/");
    if !route.is_empty() {
        push_str(&mut url, route);
        push_str(&mut url, "/");
    }
    push_str(&mut url, table);
    push_str(&mut url, "/");
    proof {
        if route@.len() != 0 {
            assert(url@ =~= article_url_spec(base@, route@, table@));
        }
    }
    url
}

/// The search address: the collection with the JSON query text percent-encoded in
/// the `query` parameter.
pub fn search_url(base: &str, route: &str, table: &str, query_json: String) -> (r: String)
    ensures
        r@ == article_url_spec(base@, route@, table@) + "?query="@ + percent_encode(
            vstd::utf8::encode_utf8(query_json@),
        ),
{
    let mut url = article_url(base, route, table);
    push_str(&mut url, "?query=");
    let q = urlencoding(query_json);
    push_str(&mut url, q.as_str());
    url
}

} // verus!
