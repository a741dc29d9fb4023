//! The host's hash function.

use vstd::prelude::*;

use crate::model::Bytes;

verus! {

/// The handle of the contract host, `soroban_sdk::Env`. It is carried to the
/// host's functions and never looked into.
#[verifier::external_type_specification]
#[verifier::external_body]
pub struct ExEnv(soroban_sdk::Env);

/// The SHA-256 digest of a byte string.
pub uninterp spec fn sha256_digest(data: Seq<u8>) -> Seq<u8>;

/// The SHA-256 digest of `data`, computed by the host:
/// `soroban_sdk::crypto::Crypto::sha256`, on the bytes as
/// `soroban_sdk::Bytes::from_slice` hands them to the host. The digest depends
/// on the bytes alone and is 32 bytes long. A byte string of the host is no
/// longer than `u32::MAX`. The host meters what a call may use; a host whose
/// budget is used up ends the call here, as it would at any other point, and
/// nothing is said of that.
#[verifier::external_body]
pub(crate) fn sha256(env: &soroban_sdk::Env, data: &Bytes) -> (digest: Bytes)
    requires
        data@.len() <= u32::MAX,
    ensures
        digest@ == sha256_digest(data@),
        digest@.len() == 32,
{
    env.crypto().sha256(&soroban_sdk::Bytes::from_slice(env, data)).to_array().to_vec()
}

} // verus!
