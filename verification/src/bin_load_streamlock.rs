//! The varied-token ingress harness: synthetic JWT-shaped tokens, the client-side
//! shard a token falls in, and how a response status is classified.

use vstd::prelude::*;
use base64::Engine;
use crate::text::{decimal, lemma_decimal_injective, push_str, u64_to_decimal};

verus! {

/// The character of a six-bit value in the URL-safe base64 alphabet: `A`-`Z`, `a`-`z`,
/// `0`-`9`, `-`, `_`.
pub open spec fn base64_url_char(v: nat) -> char {
    if v < 26 {
        (65 + v) as char
    } else if v < 52 {
        (71 + v) as char
    } else if v < 62 {
        (v - 4) as char
    } else if v == 62 {
        '-'
    } else {
        '_'
    }
}

/// Base64 of `bytes` in the URL-safe alphabet without padding (RFC 4648, section 5):
/// every three bytes give four characters; a final one or two bytes give two or three.
pub open spec fn base64_url_no_pad(b: Seq<u8>) -> Seq<char>
    decreases b.len(),
{
    if b.len() == 0 {
        Seq::empty()
    } else if b.len() == 1 {
        seq![base64_url_char((b[0] / 4) as nat), base64_url_char(((b[0] % 4) * 16) as nat)]
    } else if b.len() == 2 {
        seq![
            base64_url_char((b[0] / 4) as nat),
            base64_url_char(((b[0] % 4) * 16 + b[1] / 16) as nat),
            base64_url_char(((b[1] % 16) * 4) as nat),
        ]
    } else {
        seq![
            base64_url_char((b[0] / 4) as nat),
            base64_url_char(((b[0] % 4) * 16 + b[1] / 16) as nat),
            base64_url_char(((b[1] % 16) * 4 + b[2] / 64) as nat),
            base64_url_char((b[2] % 64) as nat),
        ] + base64_url_no_pad(b.skip(3))
    }
}

/// `URL_SAFE_NO_PAD.encode(bytes)` of the base64 crate. Claimed: the result is the
/// URL-safe base64 of the bytes without padding, as `base64_url_no_pad` states it.
#[verifier::external_body]
fn encode_url_safe_no_pad(bytes: &[u8]) -> (s: String)
    ensures
        s@ == base64_url_no_pad(bytes@),
{
    base64::engine::general_purpose::URL_SAFE_NO_PAD.encode(bytes)
}

/// The token header before encoding.
pub open spec fn token_header_json() -> Seq<char> {
    "{\"alg\":\"HS256\"}"@
}

/// The token payload before encoding: a unique `jti` for token `i` and a far-future expiry.
pub open spec fn token_payload_json(i: nat) -> Seq<char> {
    "{\"jti\":\"bench-tok-"@ + decimal(i) + "\",\"exp\":9999999999}"@
}

/// The payload of token `i`.
pub fn token_payload(i: usize) -> (s: String)
    ensures
        s@ == token_payload_json(i as nat),
{
    let mut s = String::from_str("{\"jti\":\"bench-tok-");
    let digits = u64_to_decimal(i as u64);
    push_str(&mut s, digits.as_str());
    push_str(&mut s, "\",\"exp\":9999999999}");
    s
}

/// Every token carries its own `jti`: different token numbers give different payloads.
pub proof fn lemma_payloads_distinct(i: nat, j: nat)
    requires
        i != j,
    ensures
        token_payload_json(i) != token_payload_json(j),
{
    if token_payload_json(i) == token_payload_json(j) {
        let p = "{\"jti\":\"bench-tok-"@;
        let x = token_payload_json(i);
        let di = decimal(i);
        let dj = decimal(j);
        assert(x.subrange(p.len() as int, (p.len() + di.len()) as int) =~= di);
        assert(token_payload_json(j).subrange(p.len() as int, (p.len() + dj.len()) as int) =~= dj);
        let sfx = "\",\"exp\":9999999999}"@;
        assert(x.len() == p.len() + di.len() + sfx.len());
        assert(token_payload_json(j).len() == p.len() + dj.len() + sfx.len());
        assert(di.len() == dj.len());
        lemma_decimal_injective(i, j);
    }
}

/// A JWT-shaped token from its encoded header and payload: `header.payload.sig`.
pub fn assemble_token(header: &str, payload: &str) -> (s: String)
    ensures
        s@ == header@ + "."@ + payload@ + ".sig"@,
{
    let mut s = String::from_str(header);
    push_str(&mut s, ".");
    push_str(&mut s, payload);
    push_str(&mut s, ".sig");
    s
}

/// Token `i`: base64 of the header and of the payload, joined, with a constant
/// signature (the server does not verify it).
pub fn synth_token(i: usize) -> (s: String)
    ensures
        s@ == base64_url_no_pad(vstd::utf8::encode_utf8(token_header_json())) + "."@
            + base64_url_no_pad(vstd::utf8::encode_utf8(token_payload_json(i as nat))) + ".sig"@,
{
    let header_json = "{\"alg\":\"HS256\"}";
    let header = encode_url_safe_no_pad(header_json.as_bytes());
    let payload_json = token_payload(i);
    let payload = encode_url_safe_no_pad(payload_json.as_str().as_bytes());
    assemble_token(header.as_str(), payload.as_str())
}

/// The FNV-1a offset basis.
pub const FNV_OFFSET: u64 = 0xcbf2_9ce4_8422_2325;

/// The FNV-1a prime.
pub const FNV_PRIME: u64 = 0x0000_0100_0000_01b3;

/// The 64-bit FNV-1a hash of `bytes`.
pub open spec fn fnv1a(bytes: Seq<u8>) -> u64
    decreases bytes.len(),
{
    if bytes.len() == 0 {
        FNV_OFFSET
    } else {
        vstd::wrapping::u64_specs::wrapping_mul(
            fnv1a(bytes.drop_last()) ^ (bytes.last() as u64),
            FNV_PRIME,
        )
    }
}

/// The client-side shard of `token` among `shards`: its FNV-1a hash modulo `shards`.
pub fn token_shard(token: &str, shards: usize) -> (r: usize)
    requires
        shards > 0,
    ensures
        r == (fnv1a(vstd::utf8::encode_utf8(token@)) as usize) % shards,
        r < shards,
{
    let bytes = token.as_bytes();
    let mut h: u64 = FNV_OFFSET;
    for i in 0..bytes.len()
        invariant
            bytes@ == vstd::utf8::encode_utf8(token@),
            h == fnv1a(bytes@.take(i as int)),
    {
        proof {
            assert(bytes@.take(i + 1).drop_last() =~= bytes@.take(i as int));
        }
        h = h ^ (bytes[i] as u64);
        h = h.wrapping_mul(FNV_PRIME);
    }
    proof {
        assert(bytes@.take(bytes@.len() as int) =~= bytes@);
    }
    (h as usize) % shards
}

/// How a response status is counted.
pub enum StatusClass {
    Success,
    RateLimited,
    Other,
}

/// 2xx is a success, 429 is rate limiting, anything else is other.
pub fn classify_status(code: u16) -> (c: StatusClass)
    ensures
        c is Success <==> 200 <= code <= 299,
        c is RateLimited <==> code == 429,
        c is Other <==> !(200 <= code <= 299) && code != 429,
{
    if 200 <= code && code <= 299 {
        StatusClass::Success
    } else if code == 429 {
        StatusClass::RateLimited
    } else {
        StatusClass::Other
    }
}

} // verus!
