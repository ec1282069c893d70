//! Request signing: HMAC-SHA256 over the exact query-string bytes,
//! rendered as lower-case hex, exactly as the venue checks it.

use vstd::prelude::*;
use vstd::string::StringSliceAdditionalSpecFns;
use crate::strutil::push_char;

verus! {

/// The 32-byte HMAC-SHA256 tag of a message under a key; it depends on
/// the key and message bytes alone.
pub uninterp spec fn hmac_sha256_of(key: Seq<u8>, msg: Seq<u8>) -> Seq<u8>;

/// Relies on hmac's Hmac<Sha256> (new_from_slice, update, finalize):
/// the tag is a function of key and message, 32 bytes long.
#[verifier::external_body]
fn hmac_sha256(key: &[u8], msg: &[u8]) -> (r: Vec<u8>)
    ensures
        r@ == hmac_sha256_of(key@, msg@),
        r@.len() == 32,
{
    let mut mac = <hmac::Hmac<sha2::Sha256> as hmac::Mac>::new_from_slice(key).unwrap();
    hmac::Mac::update(&mut mac, msg);
    hmac::Mac::finalize(mac).into_bytes().to_vec()
}

/// Lower-case hex digit for a value below sixteen.
pub open spec fn hex_digit(d: int) -> char
    recommends
        0 <= d < 16,
{
    if d < 10 {
        (((48 + d) as u8) as char)
    } else {
        (((87 + d) as u8) as char)
    }
}

/// Lower-case hex text of a byte string, two digits per byte.
pub open spec fn spec_hex_lower(bs: Seq<u8>) -> Seq<char>
    decreases bs.len(),
{
    if bs.len() == 0 {
        seq![]
    } else {
        spec_hex_lower(bs.drop_last()) + seq![
            hex_digit(bs.last() as int / 16),
            hex_digit(bs.last() as int % 16),
        ]
    }
}

/// Render bytes as lower-case hex.
pub fn hex_lower(bs: &Vec<u8>) -> (r: String)
    ensures
        r@ == spec_hex_lower(bs@),
        r@.len() == 2 * bs@.len(),
{
    let mut out = String::new();
    let mut i: usize = 0;
    proof {
        lemma_hex_len(bs@);
    }
    while i < bs.len()
        invariant
            i <= bs@.len(),
            out@ =~= spec_hex_lower(bs@.take(i as int)),
            out@.len() == 2 * i,
        decreases bs@.len() - i,
    {
        let b = bs[i];
        let hi: u8 = b / 16;
        let lo: u8 = b % 16;
        let hc: char = if hi < 10 {
            ((48 + hi) as char)
        } else {
            ((87 + hi) as char)
        };
        let lc: char = if lo < 10 {
            ((48 + lo) as char)
        } else {
            ((87 + lo) as char)
        };
        push_char(&mut out, hc);
        push_char(&mut out, lc);
        proof {
            assert(bs@.take(i + 1).drop_last() =~= bs@.take(i as int));
            assert(bs@.take(i + 1).last() == bs@[i as int]);
            lemma_hex_len(bs@.take(i + 1));
        }
        i += 1;
    }
    proof {
        assert(bs@.take(bs@.len() as int) =~= bs@);
    }
    out
}

proof fn lemma_hex_len(bs: Seq<u8>)
    ensures
        spec_hex_lower(bs).len() == 2 * bs.len(),
    decreases bs.len(),
{
    if bs.len() > 0 {
        lemma_hex_len(bs.drop_last());
    }
}

/// The signature a venue expects for a payload under a secret:
/// lower-case hex of the HMAC-SHA256 tag over the payload bytes keyed
/// by the secret bytes. The same payload and secret always yield the
/// same signature.
pub open spec fn spec_signature(payload: Seq<u8>, secret: Seq<u8>) -> Seq<char> {
    spec_hex_lower(hmac_sha256_of(secret, payload))
}

/// Sign a query-string payload with an API secret: 64 hex characters.
pub fn generate_signature(payload: &str, secret: &str) -> (r: String)
    ensures
        r@ == spec_signature(payload.spec_bytes(), secret.spec_bytes()),
        r@.len() == 64,
{
    let tag = hmac_sha256(secret.as_bytes(), payload.as_bytes());
    hex_lower(&tag)
}

} // verus!
