//! Bearer-token checking for the MCP endpoint.
use vstd::prelude::*;
use subtle::ConstantTimeEq;
use crate::text::{
    all_ws, chars_of, has_prefix, is_trimmed, lemma_trim_trimmed_then_ws, str_has_prefix, trim,
    trim_str,
};
use vstd::utf8::{decode_utf8, encode_utf8};

verus! {

/// The scheme prefix of an `Authorization` header carrying a bearer token.
pub const BEARER_PREFIX: &'static str = "Bearer ";

/// Whether an `Authorization` header value admits a request: it must start
/// with `Bearer ` exactly (the scheme is case-sensitive) and the rest, trimmed,
/// must equal the expected token.
pub open spec fn authorized(header: Option<Seq<char>>, expected: Seq<char>) -> bool {
    match header {
        None => false,
        Some(h) => has_prefix(h, BEARER_PREFIX@) && trim(h.skip(BEARER_PREFIX@.len() as int))
            == expected,
    }
}

/// The view of an optional string slice.
pub open spec fn opt_view(header: Option<&str>) -> Option<Seq<char>> {
    match header {
        None => None,
        Some(h) => Some(h@),
    }
}

/// `subtle`'s `ConstantTimeEq::ct_eq` on byte slices, turned into a `bool`.
/// The claim: the result is true exactly when both slices hold the same bytes
/// (the implementation returns `Choice(0)` on a length mismatch and otherwise
/// compares every byte pair).
#[verifier::external_body]
fn bytes_ct_eq(a: &[u8], b: &[u8]) -> (r: bool)
    ensures
        r == (a@ == b@),
{
    bool::from(a.ct_eq(b))
}

/// Checks an `Authorization: Bearer <token>` header value against the
/// expected token, comparing the tokens in constant time.
pub fn is_authorized(header: Option<&str>, expected: &str) -> (b: bool)
    ensures
        b == authorized(opt_view(header), expected@),
{
    let h = match header {
        None => return false,
        Some(h) => h,
    };
    if !str_has_prefix(h, BEARER_PREFIX) {
        return false;
    }
    let hv = chars_of(h);
    let pv = chars_of(BEARER_PREFIX);
    let rest = h.substring_char(pv.len(), hv.len());
    let presented = trim_str(rest);
    let eq = bytes_ct_eq(presented.as_bytes(), expected.as_bytes());
    proof {
        broadcast use vstd::utf8::encode_utf8_decode_utf8;
        assert(rest@ =~= h@.skip(BEARER_PREFIX@.len() as int));
        if encode_utf8(presented@) == encode_utf8(expected@) {
            assert(decode_utf8(encode_utf8(presented@)) == presented@);
            assert(decode_utf8(encode_utf8(expected@)) == expected@);
        }
    }
    eq
}

/// A header accepted is exactly the scheme followed by a text that trims to
/// the expected token.
pub proof fn law_authorized_iff_scheme_then_token(header: Seq<char>, expected: Seq<char>)
    ensures
        authorized(Some(header), expected) <==> exists|rest: Seq<char>|
            header == BEARER_PREFIX@ + rest && #[trigger] trim(rest) == expected,
{
    let p = BEARER_PREFIX@;
    if authorized(Some(header), expected) {
        let rest = header.skip(p.len() as int);
        assert(header =~= p + rest);
        assert(trim(rest) == expected);
    }
    if exists|rest: Seq<char>| header == p + rest && #[trigger] trim(rest) == expected {
        let rest = choose|rest: Seq<char>| header == p + rest && #[trigger] trim(rest) == expected;
        assert(header.take(p.len() as int) =~= p);
        assert(header.skip(p.len() as int) =~= rest);
    }
}

/// `Bearer <token>` followed by any whitespace is accepted for a token
/// without surrounding whitespace.
pub proof fn law_bearer_token_accepted(token: Seq<char>, trailing: Seq<char>)
    requires
        is_trimmed(token),
        all_ws(trailing),
    ensures
        authorized(Some(BEARER_PREFIX@ + token + trailing), token),
{
    let h = BEARER_PREFIX@ + token + trailing;
    assert(h.take(BEARER_PREFIX@.len() as int) =~= BEARER_PREFIX@);
    assert(h.skip(BEARER_PREFIX@.len() as int) =~= token + trailing);
    lemma_trim_trimmed_then_ws(token, trailing);
}

/// Without a header, or without the exact `Bearer ` scheme, nothing is
/// accepted.
pub proof fn law_scheme_required(header: Option<Seq<char>>, expected: Seq<char>)
    requires
        header is None || !has_prefix(header->0, BEARER_PREFIX@),
    ensures
        !authorized(header, expected),
{
}

} // verus!
