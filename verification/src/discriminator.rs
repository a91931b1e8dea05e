//! Domain-separated identifiers: 8-byte discriminators derived by hashing
//! a fixed ASCII seed and truncating to the first 8 bytes. They route
//! incoming calls to the resolution entry point and tag the side-channel
//! record so readers can verify its type before decoding.

use sha2::{Digest, Sha256};
use vstd::prelude::*;

verus! {

/// What SHA-256 returns for the given input; a function of the input alone.
pub uninterp spec fn sha256_of(data: Seq<u8>) -> Seq<u8>;

/// Relies on sha2's `Sha256::digest`: the 32-byte SHA-256 digest of the
/// input, depending on the input bytes alone.
#[verifier::external_body]
fn sha256(data: &[u8]) -> (r: Vec<u8>)
    ensures
        r@ == sha256_of(data@),
        r@.len() == 32,
{
    Sha256::digest(data).to_vec()
}

/// The first 8 bytes of the SHA-256 digest of `seed`.
pub open spec fn spec_discriminator(seed: Seq<u8>) -> Seq<u8> {
    sha256_of(seed).take(8)
}

/// Derives the 8-byte discriminator of a domain-separation seed:
/// `hash(seed)[0..8]`. Deterministic, so every party derives the same
/// identifier from the same seed.
pub fn derive_discriminator(seed: &[u8]) -> (r: [u8; 8])
    ensures
        r@ == spec_discriminator(seed@),
{
    let h = sha256(seed);
    let mut out: [u8; 8] = [0u8; 8];
    let mut i: usize = 0;
    while i < 8
        invariant
            i <= 8,
            h@ == sha256_of(seed@),
            h@.len() == 32,
            forall|j: int| 0 <= j < i ==> out@[j] == h@[j],
        decreases 8 - i,
    {
        out[i] = h[i];
        i += 1;
    }
    proof {
        assert(out@ =~= spec_discriminator(seed@));
    }
    out
}

/// The ASCII seed `executor-account-resolver:execute-vaa-v1` of the
/// resolution entry point's routing discriminator.
pub open spec fn spec_resolver_execute_vaa_v1_seed() -> Seq<u8> {
    seq![101u8, 120, 101, 99, 117, 116, 111, 114, 45, 97, 99, 99, 111, 117, 110, 116, 45, 114, 101, 115, 111, 108, 118, 101, 114, 58, 101, 120, 101, 99, 117, 116, 101, 45, 118, 97, 97, 45, 118, 49]
}

/// The hash input for [`resolver_execute_vaa_v1`].
pub fn resolver_execute_vaa_v1_seed() -> (r: Vec<u8>)
    ensures
        r@ == spec_resolver_execute_vaa_v1_seed(),
{
    let bytes: [u8; 40] = [101, 120, 101, 99, 117, 116, 111, 114, 45, 97, 99, 99, 111, 117, 110, 116, 45, 114, 101, 115, 111, 108, 118, 101, 114, 58, 101, 120, 101, 99, 117, 116, 101, 45, 118, 97, 97, 45, 118, 49];
    let v = vstd::slice::slice_to_vec(bytes.as_slice());
    proof {
        assert(v@ =~= spec_resolver_execute_vaa_v1_seed());
    }
    v
}

/// The ASCII seed `executor-account-resolver:result` of the side-channel
/// record's type discriminator, also the derivation seed of the record's
/// deterministic location.
pub open spec fn spec_resolver_result_account_seed() -> Seq<u8> {
    seq![101u8, 120, 101, 99, 117, 116, 111, 114, 45, 97, 99, 99, 111, 117, 110, 116, 45, 114, 101, 115, 111, 108, 118, 101, 114, 58, 114, 101, 115, 117, 108, 116]
}

/// The hash input for [`resolver_result_account`], and the seed the record's
/// address is derived from.
pub fn resolver_result_account_seed() -> (r: Vec<u8>)
    ensures
        r@ == spec_resolver_result_account_seed(),
{
    let bytes: [u8; 32] = [101, 120, 101, 99, 117, 116, 111, 114, 45, 97, 99, 99, 111, 117, 110, 116, 45, 114, 101, 115, 111, 108, 118, 101, 114, 58, 114, 101, 115, 117, 108, 116];
    let v = vstd::slice::slice_to_vec(bytes.as_slice());
    proof {
        assert(v@ =~= spec_resolver_result_account_seed());
    }
    v
}

/// The published discriminator for resolving the instructions that execute
/// a verified v1 message: `hash(`[`resolver_execute_vaa_v1_seed`]`)[0..8]`.
pub open spec fn spec_resolver_execute_vaa_v1() -> Seq<u8> {
    seq![148u8, 184, 169, 222, 207, 8, 154, 127]
}

/// The routing discriminator the transport layer dispatches resolution
/// calls on.
pub fn resolver_execute_vaa_v1() -> (r: [u8; 8])
    ensures
        r@ == spec_resolver_execute_vaa_v1(),
{
    let bytes: [u8; 8] = [148, 184, 169, 222, 207, 8, 154, 127];
    proof {
        assert(bytes@ =~= spec_resolver_execute_vaa_v1());
    }
    bytes
}

/// The published discriminator tagging the side-channel record:
/// `hash(`[`resolver_result_account_seed`]`)[0..8]`.
pub open spec fn spec_resolver_result_account() -> Seq<u8> {
    seq![34u8, 185, 243, 199, 181, 255, 28, 227]
}

/// The type tag a side-channel record starts with.
pub fn resolver_result_account() -> (r: [u8; 8])
    ensures
        r@ == spec_resolver_result_account(),
{
    let bytes: [u8; 8] = [34, 185, 243, 199, 181, 255, 28, 227];
    proof {
        assert(bytes@ =~= spec_resolver_result_account());
    }
    bytes
}

} // verus!
