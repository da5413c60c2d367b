//! The calls this library makes into the Soroban host environment.

use vstd::prelude::*;

verus! {

/// The host environment that identifiers and timestamps come from.
#[verifier::external_type_specification]
#[verifier::external_body]
pub struct ExEnv(soroban_sdk::Env);

/// The SHA-256 digest of a byte sequence.
pub uninterp spec fn sha256_of(data: Seq<u8>) -> Seq<u8>;

/// Relies on `soroban_sdk::crypto::Crypto::sha256`: the 32-byte SHA-256 digest
/// of the bytes, which depends on the bytes alone. `Bytes::from_slice` carries
/// the input into the host and `Hash::to_array` brings the digest back.
/// The host meters the call against its budget like any other host call.
#[verifier::external_body]
pub(crate) fn sha256(env: &soroban_sdk::Env, data: &Vec<u8>) -> (r: [u8; 32])
    ensures
        r@ == sha256_of(data@),
{
    let bytes = soroban_sdk::Bytes::from_slice(env, data.as_slice());
    env.crypto().sha256(&bytes).to_array()
}

/// Relies on `soroban_sdk::ledger::Ledger::timestamp`: the close time of the
/// current ledger. It depends on the host, so nothing is stated of it.
#[verifier::external_body]
pub(crate) fn ledger_timestamp(env: &soroban_sdk::Env) -> (r: u64) {
    env.ledger().timestamp()
}

} // verus!
