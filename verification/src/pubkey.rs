//! Account identities: fixed-width 32-byte opaque identifiers with byte-exact
//! equality, and the reserved placeholder identities that stand in for values
//! unknown at resolution time.

use vstd::prelude::*;

verus! {

broadcast use vstd::array::group_array_axioms;

/// A fixed-width 32-byte identifier for an account or program.
/// Equality is byte-exact.
#[derive(Clone, Copy, Debug, PartialEq, Eq, Hash)]
pub struct Pubkey {
    pub bytes: [u8; 32],
}

impl View for Pubkey {
    type V = Seq<u8>;

    open spec fn view(&self) -> Seq<u8> {
        self.bytes@
    }
}

impl DeepView for Pubkey {
    type V = Seq<u8>;

    open spec fn deep_view(&self) -> Seq<u8> {
        self.bytes@
    }
}

impl Pubkey {
    /// Builds an identity from its 32 raw bytes.
    pub fn from_bytes(bytes: [u8; 32]) -> (r: Pubkey)
        ensures
            r@ == bytes@,
    {
        Pubkey { bytes }
    }

    /// The 32 raw bytes of the identity.
    pub fn to_bytes(&self) -> (r: [u8; 32])
        ensures
            r@ == self@,
    {
        self.bytes
    }
}

/// Byte-exact identity comparison.
pub fn pubkey_eq(a: &Pubkey, b: &Pubkey) -> (r: bool)
    ensures
        r <==> a@ == b@,
{
    let mut i: usize = 0;
    while i < 32
        invariant
            i <= 32,
            forall|j: int| 0 <= j < i ==> a.bytes@[j] == b.bytes@[j],
        decreases 32 - i,
    {
        if a.bytes[i] != b.bytes[i] {
            assert(a@[i as int] != b@[i as int]);
            return false;
        }
        i += 1;
    }
    proof {
        assert(a.bytes@ =~= b.bytes@);
    }
    true
}

/// A placeholder identity: an ASCII prefix padded with ASCII `'0'` (byte 48)
/// to the full 32-byte width.
pub open spec fn spec_padded_identity(prefix: Seq<u8>) -> Seq<u8>
    recommends
        prefix.len() <= 32,
{
    prefix + Seq::new((32 - prefix.len()) as nat, |i: int| 48u8)
}

/// Builds a placeholder identity from its ASCII prefix.
fn padded_identity(prefix: &[u8]) -> (r: Pubkey)
    requires
        prefix@.len() <= 32,
    ensures
        r@ == spec_padded_identity(prefix@),
{
    let mut bytes: [u8; 32] = [48u8; 32];
    let mut i: usize = 0;
    while i < prefix.len()
        invariant
            i <= prefix@.len() <= 32,
            forall|j: int| 0 <= j < i ==> bytes@[j] == prefix@[j],
            forall|j: int| i <= j < 32 ==> bytes@[j] == 48u8,
        decreases prefix@.len() - i,
    {
        bytes[i] = prefix[i];
        i += 1;
    }
    proof {
        assert(bytes@ =~= spec_padded_identity(prefix@));
    }
    Pubkey { bytes }
}

/// The ASCII prefix `payer_` of the fee-payer placeholder.
pub open spec fn spec_payer_prefix() -> Seq<u8> {
    seq![112u8, 97u8, 121u8, 101u8, 114u8, 95u8]
}

/// A placeholder for the relayer's account that will pay for the
/// transaction; the relayer replaces it with its own identity.
pub fn resolver_pubkey_payer() -> (r: Pubkey)
    ensures
        r@ == spec_padded_identity(spec_payer_prefix()),
{
    let prefix: [u8; 6] = [112, 97, 121, 101, 114, 95];
    proof {
        assert(prefix@ =~= spec_payer_prefix());
    }
    padded_identity(prefix.as_slice())
}

/// The ASCII prefix `posted_vaa_` of the verified-message placeholder.
pub open spec fn spec_posted_vaa_prefix() -> Seq<u8> {
    seq![112u8, 111u8, 115u8, 116u8, 101u8, 100u8, 95u8, 118u8, 97u8, 97u8, 95u8]
}

/// A placeholder for the externally-supplied verified-message handle; the
/// relayer replaces it with the posted message to be executed.
pub fn resolver_pubkey_posted_vaa() -> (r: Pubkey)
    ensures
        r@ == spec_padded_identity(spec_posted_vaa_prefix()),
{
    let prefix: [u8; 11] = [112, 111, 115, 116, 101, 100, 95, 118, 97, 97, 95];
    proof {
        assert(prefix@ =~= spec_posted_vaa_prefix());
    }
    padded_identity(prefix.as_slice())
}

/// The ASCII prefix `shim_vaa_sigs_` of the signature-set placeholder.
pub open spec fn spec_shim_vaa_sigs_prefix() -> Seq<u8> {
    seq![115u8, 104u8, 105u8, 109u8, 95u8, 118u8, 97u8, 97u8, 95u8, 115u8, 105u8, 103u8, 115u8, 95u8]
}

/// A placeholder for the externally-supplied signature-set handle; the
/// relayer replaces it with the account holding the message's signatures.
pub fn resolver_pubkey_shim_vaa_sigs() -> (r: Pubkey)
    ensures
        r@ == spec_padded_identity(spec_shim_vaa_sigs_prefix()),
{
    let prefix: [u8; 14] = [115, 104, 105, 109, 95, 118, 97, 97, 95, 115, 105, 103, 115, 95];
    proof {
        assert(prefix@ =~= spec_shim_vaa_sigs_prefix());
    }
    padded_identity(prefix.as_slice())
}

/// The ASCII prefix `keypair_0N_` of the `N`th fresh-keypair placeholder.
pub open spec fn spec_keypair_prefix(n: u8) -> Seq<u8>
    recommends
        n < 10,
{
    seq![107u8, 101u8, 121u8, 112u8, 97u8, 105u8, 114u8, 95u8, 48u8, (48 + n) as u8, 95u8]
}

/// A placeholder for the `n`th freshly generated keypair; the relayer
/// replaces it with a newly generated key, so that one instruction can
/// create an account and later instructions can refer to it.
pub fn resolver_pubkey_keypair(n: u8) -> (r: Pubkey)
    requires
        n < 10,
    ensures
        r@ == spec_padded_identity(spec_keypair_prefix(n)),
{
    let prefix: [u8; 11] = [107, 101, 121, 112, 97, 105, 114, 95, 48, 48 + n, 95];
    proof {
        assert(prefix@ =~= spec_keypair_prefix(n));
    }
    padded_identity(prefix.as_slice())
}

/// The system-level program identity: 32 zero bytes.
pub open spec fn spec_system_program_id() -> Seq<u8> {
    Seq::new(32, |i: int| 0u8)
}

/// The system-level program that funds account growth.
pub fn system_program_id() -> (r: Pubkey)
    ensures
        r@ == spec_system_program_id(),
{
    let bytes: [u8; 32] = [0u8; 32];
    proof {
        assert(bytes@ =~= spec_system_program_id());
    }
    Pubkey { bytes }
}

} // verus!
