use crate::encoding::{lower_hex, to_lower_hex};
use crate::utils::{internal_error, ApiError, StoreError, STATUS_INTERNAL_SERVER_ERROR, STATUS_UNAUTHORIZED};
use sha3::Digest;
use vstd::prelude::*;
use vstd::string::StringSliceAdditionalSpecFns;
use vstd::utf8::encode_utf8;

verus! {

/// SHA3-256 digest of a byte sequence.
pub uninterp spec fn sha3_256_of(b: Seq<u8>) -> Seq<u8>;

/// Relies on sha3's `Sha3_256`: the 32-byte digest of the bytes fed to it.
#[verifier::external_body]
fn sha3_256(b: &[u8]) -> (r: Vec<u8>)
    ensures
        r@ == sha3_256_of(b@),
        r@.len() == 32,
{
    sha3::Sha3_256::digest(b).to_vec()
}

/// The digest that a stored key must equal for `api_key` to be accepted:
/// lowercase hexadecimal of its SHA3-256 digest.
pub open spec fn expected_digest(api_key: Seq<char>) -> Seq<u8> {
    lower_hex(sha3_256_of(encode_utf8(api_key)))
}

pub open spec fn unauthorized_message() -> Seq<char> {
    "Unauthorized"@
}

/// The answer to a missing or wrong credential: 401.
pub open spec fn is_unauthorized(e: ApiError) -> bool {
    e.status == STATUS_UNAUTHORIZED && e.message@ == unauthorized_message()
}

/// Whether a computed digest, written in lowercase hexadecimal, equals the
/// stored one byte for byte.
pub fn digest_matches(digest: &[u8], stored_digest: &str) -> (r: bool)
    ensures
        r == (encode_utf8(stored_digest@) == lower_hex(digest@)),
{
    let hex = to_lower_hex(digest);
    let stored = stored_digest.as_bytes();
    if hex.len() != stored.len() {
        return false;
    }
    let mut i: usize = 0;
    while i < hex.len()
        invariant
            hex@ == lower_hex(digest@),
            stored@ == encode_utf8(stored_digest@),
            hex@.len() == stored@.len(),
            i <= hex@.len(),
            forall|j: int| 0 <= j < i ==> hex@[j] == stored@[j],
        decreases hex@.len() - i,
    {
        if hex[i] != stored[i] {
            assert(hex@[i as int] != stored@[i as int]);
            return false;
        }
        i = i + 1;
    }
    assert(hex@ == stored@);
    true
}

/// Whether `api_key` hashes to the stored digest.
pub fn api_key_matches(api_key: &str, stored_digest: &str) -> (r: bool)
    ensures
        r == (encode_utf8(stored_digest@) == expected_digest(api_key@)),
{
    let digest = sha3_256(api_key.as_bytes());
    digest_matches(digest.as_slice(), stored_digest)
}

fn unauthorized() -> (r: ApiError)
    ensures
        is_unauthorized(r),
{
    ApiError { status: STATUS_UNAUTHORIZED, message: "Unauthorized".to_owned() }
}

/// First step of the guard on protected routes: a request without the
/// credential header is refused with 401; otherwise the credential is handed
/// on, and the stored digest is to be fetched next.
pub fn guard(api_key: Option<String>) -> (r: Result<String, ApiError>)
    ensures
        match api_key {
            Some(k) => r is Ok && r->Ok_0@ == k@,
            None => r is Err && is_unauthorized(r->Err_0),
        },
{
    match api_key {
        Some(k) => Ok(k),
        None => Err(unauthorized()),
    }
}

/// Last step of the guard: given the outcome of fetching the stored digest,
/// the request proceeds (`Ok`) exactly when the credential hashes to it. A
/// failed or timed-out fetch refuses the request with 500, a mismatch with
/// 401.
pub fn guard_with_settings(api_key: &str, settings: Result<String, StoreError>) -> (r: Result<
    (),
    ApiError,
>)
    ensures
        match settings {
            Ok(stored) => (r is Ok <==> encode_utf8(stored@) == expected_digest(api_key@))
                && (r is Err ==> is_unauthorized(r->Err_0)),
            Err(e) => r is Err && r->Err_0.status == STATUS_INTERNAL_SERVER_ERROR
                && r->Err_0.message@ == e.description(),
        },
{
    match settings {
        Ok(stored) => {
            if api_key_matches(api_key, stored.as_str()) {
                Ok(())
            } else {
                Err(unauthorized())
            }
        },
        Err(e) => Err(internal_error(e)),
    }
}

} // verus!
