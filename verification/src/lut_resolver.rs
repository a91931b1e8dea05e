//! Resolution with an address lookup table and the overflow protocol.
//!
//! The routine dispatches purely on how many accounts were supplied this
//! round. With none, it names the fixed bootstrap set. With the bootstrap
//! set, it computes the candidate addresses from the lookup-table pointer,
//! writes them into the side-channel record as a `Missing` outcome, and
//! returns `Pending`. With the full candidate set as well, it writes the
//! final execution plan into the record and again returns `Pending`. Any
//! other count is a fatal protocol error. Each record-writing round also
//! grows the record under the fixed ceiling and computes the funding top-up
//! that keeps it storage-exempt at the new size.

use vstd::prelude::*;

use crate::discriminator::{derive_discriminator, spec_discriminator,
    spec_resolver_result_account_seed, resolver_result_account_seed};
use crate::error::MyError;
use crate::growth::{funding_shortfall, grown_record_size, MAX_PERMITTED_DATA_INCREASE,
    MAX_PERMITTED_DATA_LENGTH};
use crate::lookup::{SpecSuppliedAccount, SuppliedAccount};
use crate::pda::{derive_indexed_keys, find_pda, one_seed, pda_of, spec_indexed_keys};
use crate::pubkey::{resolver_pubkey_payer, spec_padded_identity, spec_payer_prefix,
    spec_system_program_id, system_program_id, Pubkey};
use crate::record::spec_decode_record;
use crate::resolver::{MissingAccounts, Resolver, SpecMissingAccounts, SpecResolver};
use crate::types::{wf_account_meta, wf_instruction, wf_instruction_group, wf_resolver,
    InstructionGroup, InstructionGroups, SerializableAccountMeta, SerializableInstruction,
    SpecAccountMeta, SpecInstruction, SpecInstructionGroup};

verus! {

/// The lookup-table pointer record: where the protocol's address lookup
/// table lives, with the derivation bump it was stored under.
#[derive(Clone, Copy, Debug, PartialEq, Eq)]
pub struct LUT {
    pub bump: u8,
    pub address: Pubkey,
}

/// The ASCII seed `account:LUT` of the pointer record's type tag.
pub open spec fn spec_lut_seed() -> Seq<u8> {
    seq![97u8, 99, 99, 111, 117, 110, 116, 58, 76, 85, 84]
}

/// The 8-byte tag every persisted [`LUT`] pointer record starts with.
pub open spec fn spec_lut_tag() -> Seq<u8> {
    spec_discriminator(spec_lut_seed())
}

/// Derives the [`LUT`] pointer record's type tag.
pub fn lut_tag() -> (r: [u8; 8])
    ensures
        r@ == spec_lut_tag(),
{
    let seed: [u8; 11] = [97, 99, 99, 111, 117, 110, 116, 58, 76, 85, 84];
    proof {
        assert(seed@ =~= spec_lut_seed());
    }
    derive_discriminator(seed.as_slice())
}

/// Decoding a pointer record: the 8-byte tag must be present and right, and
/// a bump byte plus a 32-byte address must follow; trailing bytes are
/// ignored. A wrong tag is an identity mismatch; a right tag over truncated
/// content is malformed data.
pub open spec fn spec_decode_lut(data: Seq<u8>, tag: Seq<u8>) -> Result<(u8, Seq<u8>), MyError> {
    if data.len() < 8 || data.take(8) != tag {
        Err(MyError::IdentityMismatch)
    } else if data.len() < 41 {
        Err(MyError::MalformedData)
    } else {
        Ok((data[8], data.subrange(9, 41)))
    }
}

/// Reads a [`LUT`] pointer record back from an account's raw bytes.
pub fn decode_lut(data: &[u8], tag: &[u8; 8]) -> (r: Result<LUT, MyError>)
    ensures
        match r {
            Ok(l) => spec_decode_lut(data@, tag@) == Ok::<(u8, Seq<u8>), MyError>(
                (l.bump, l.address@),
            ),
            Err(e) => spec_decode_lut(data@, tag@) == Err::<(u8, Seq<u8>), MyError>(e),
        },
{
    if data.len() < 8 {
        return Err(MyError::IdentityMismatch);
    }
    let mut i: usize = 0;
    while i < 8
        invariant
            i <= 8,
            data@.len() >= 8,
            forall|j: int| 0 <= j < i ==> data@[j] == tag@[j],
        decreases 8 - i,
    {
        if *vstd::slice::slice_index_get(data, i) != tag[i] {
            proof {
                assert(data@.take(8)[i as int] != tag@[i as int]);
            }
            return Err(MyError::IdentityMismatch);
        }
        i += 1;
    }
    proof {
        assert(data@.take(8) =~= tag@);
    }
    if data.len() < 41 {
        return Err(MyError::MalformedData);
    }
    let bump = *vstd::slice::slice_index_get(data, 8);
    let mut addr: [u8; 32] = [0u8; 32];
    let mut j: usize = 0;
    while j < 32
        invariant
            j <= 32,
            data@.len() >= 41,
            forall|k: int| 0 <= k < j ==> addr@[k] == data@[9 + k],
        decreases 32 - j,
    {
        addr[j] = *vstd::slice::slice_index_get(data, 9 + j);
        j += 1;
    }
    proof {
        assert(addr@ =~= data@.subrange(9, 41));
    }
    Ok(LUT { bump, address: Pubkey { bytes: addr } })
}

/// The ASCII seed `lut` of the pointer record's derived address.
pub open spec fn spec_lut_pointer_seeds() -> Seq<Seq<u8>> {
    seq![seq![108u8, 117, 116]]
}

/// The seed list of the side-channel record's deterministic address.
pub open spec fn spec_result_account_seeds() -> Seq<Seq<u8>> {
    seq![spec_resolver_result_account_seed()]
}

/// The ASCII seed `global:execute_vaa_v1` of the final instruction's
/// argument-byte discriminator.
pub open spec fn spec_execute_vaa_v1_seed() -> Seq<u8> {
    seq![103u8, 108, 111, 98, 97, 108, 58, 101, 120, 101, 99, 117, 116, 101, 95, 118, 97, 97, 95, 118, 49]
}

/// The argument bytes of the final instruction: the discriminator routing to
/// the target program's handler, with no further arguments.
pub open spec fn spec_execute_vaa_v1_data() -> Seq<u8> {
    spec_discriminator(spec_execute_vaa_v1_seed())
}

fn execute_vaa_v1_data() -> (r: Vec<u8>)
    ensures
        r@ == spec_execute_vaa_v1_data(),
        r@.len() == 8,
{
    let seed: [u8; 21] = [103, 108, 111, 98, 97, 108, 58, 101, 120, 101, 99, 117, 116, 101, 95, 118, 97, 97, 95, 118, 49];
    proof {
        assert(seed@ =~= spec_execute_vaa_v1_seed());
    }
    let d = derive_discriminator(seed.as_slice());
    vstd::slice::slice_to_vec(d.as_slice())
}

/// The fixed bootstrap set a first (empty) round must be answered with: the
/// lookup-table pointer, the side-channel record, a payer for growth, and
/// the system-level program that funds it — in that order.
pub open spec fn spec_bootstrap_accounts(lut_ptr: Seq<u8>, result_key: Seq<u8>) -> Seq<Seq<u8>> {
    seq![
        lut_ptr,
        result_key,
        spec_padded_identity(spec_payer_prefix()),
        spec_system_program_id(),
    ]
}

/// One round's step on the side-channel record: grow its storage to
/// `new_size`, transfer `fund_lamports` from the payer so it stays
/// storage-exempt at that size, and overwrite its content with `content` —
/// one logically-atomic step per round.
#[derive(Clone, Debug, PartialEq, Eq)]
pub struct RecordUpdate {
    pub new_size: u64,
    pub fund_lamports: u64,
    pub content: Resolver<InstructionGroups>,
}

/// Mathematical model of [`RecordUpdate`].
#[verifier::ext_equal]
pub struct SpecRecordUpdate {
    pub new_size: int,
    pub fund_lamports: int,
    pub content: SpecResolver<Seq<SpecInstructionGroup>>,
}

impl View for RecordUpdate {
    type V = SpecRecordUpdate;

    open spec fn view(&self) -> SpecRecordUpdate {
        SpecRecordUpdate {
            new_size: self.new_size as int,
            fund_lamports: self.fund_lamports as int,
            content: self.content@,
        }
    }
}

/// The account list of the final instruction: the fee-payer placeholder
/// (signer, writable), the 32 accounts the instruction creates (writable),
/// and the system-level program (read-only). Order is positional.
pub open spec fn spec_writable_metas(keys: Seq<Seq<u8>>) -> Seq<SpecAccountMeta> {
    Seq::new(
        keys.len(),
        |i: int| SpecAccountMeta { pubkey: keys[i], is_signer: false, is_writable: true },
    )
}

pub open spec fn spec_execute_vaa_v1_metas(keys: Seq<Seq<u8>>) -> Seq<SpecAccountMeta> {
    seq![
        SpecAccountMeta {
            pubkey: spec_padded_identity(spec_payer_prefix()),
            is_signer: true,
            is_writable: true,
        },
    ] + spec_writable_metas(keys) + seq![
        SpecAccountMeta { pubkey: spec_system_program_id(), is_signer: false, is_writable: false },
    ]
}

/// The final execution plan: one group holding one instruction against the
/// target program, compressed through the protocol's lookup table.
pub open spec fn spec_final_plan(prog: Seq<u8>, keys: Seq<Seq<u8>>, lut_address: Seq<u8>) -> Seq<
    SpecInstructionGroup,
> {
    seq![
        SpecInstructionGroup {
            instructions: seq![
                SpecInstruction {
                    program_id: prog,
                    accounts: spec_execute_vaa_v1_metas(keys),
                    data: spec_execute_vaa_v1_data(),
                },
            ],
            address_lookup_tables: seq![lut_address],
        },
    ]
}

/// What one resolution round returns and does to the record, as a function
/// of the program identity, the accounts supplied this round, and the
/// storage-exemption minimum for the record's grown size.
pub open spec fn spec_resolve_execute_vaa_v1(
    prog: Seq<u8>,
    accs: Seq<SpecSuppliedAccount>,
    rent_exempt_min: u64,
) -> Result<(SpecResolver<Seq<SpecInstructionGroup>>, Option<SpecRecordUpdate>), MyError> {
    if accs.len() == 0 {
        match (pda_of(spec_lut_pointer_seeds(), prog), pda_of(spec_result_account_seeds(), prog)) {
            (Some(lut_ptr), Some(result_key)) => Ok(
                (
                    SpecResolver::Missing(
                        SpecMissingAccounts {
                            accounts: spec_bootstrap_accounts(lut_ptr, result_key),
                            address_lookup_tables: Seq::empty(),
                        },
                    ),
                    None,
                ),
            ),
            _ => Err(MyError::KeyDerivation),
        }
    } else if accs.len() == 4 || accs.len() == 68 {
        match spec_decode_lut(accs[0].data, spec_lut_tag()) {
            Err(e) => Err(e),
            Ok((_bump, lut_address)) => if !accs[1].is_writable {
                Err(MyError::RecordNotWritable)
            } else {
                match spec_decode_record(accs[1].data) {
                    Err(e) => Err(e),
                    Ok(_previous) => {
                        let new_size = if accs[1].data.len() + MAX_PERMITTED_DATA_INCREASE
                            <= MAX_PERMITTED_DATA_LENGTH {
                            accs[1].data.len() + MAX_PERMITTED_DATA_INCREASE
                        } else {
                            MAX_PERMITTED_DATA_LENGTH as int
                        };
                        let fund = if rent_exempt_min > accs[1].lamports {
                            rent_exempt_min - accs[1].lamports
                        } else {
                            0int
                        };
                        if accs.len() == 4 {
                            match spec_indexed_keys(prog, 0, 64) {
                                None => Err(MyError::KeyDerivation),
                                Some(entries) => Ok(
                                    (
                                        SpecResolver::Pending,
                                        Some(
                                            SpecRecordUpdate {
                                                new_size,
                                                fund_lamports: fund,
                                                content: SpecResolver::Missing(
                                                    SpecMissingAccounts {
                                                        accounts: entries,
                                                        address_lookup_tables: seq![lut_address],
                                                    },
                                                ),
                                            },
                                        ),
                                    ),
                                ),
                            }
                        } else {
                            match spec_indexed_keys(prog, 64, 32) {
                                None => Err(MyError::KeyDerivation),
                                Some(keys) => Ok(
                                    (
                                        SpecResolver::Pending,
                                        Some(
                                            SpecRecordUpdate {
                                                new_size,
                                                fund_lamports: fund,
                                                content: SpecResolver::Resolved(
                                                    spec_final_plan(prog, keys, lut_address),
                                                ),
                                            },
                                        ),
                                    ),
                                ),
                            }
                        }
                    },
                }
            },
        }
    } else {
        Err(MyError::InvalidAccounts)
    }
}

/// One round of the overflow protocol, dispatched purely on how many
/// accounts were supplied: the bootstrap set for an empty round, a record
/// write and `Pending` for the two record-filling rounds, a fatal error for
/// any other count. `rent_exempt_min` is the storage-exemption minimum the
/// environment requires of an account of the record's grown size; the
/// returned update transfers exactly the shortfall against it.
pub fn resolve_execute_vaa_v1(
    program_id: &Pubkey,
    accounts: &[SuppliedAccount],
    rent_exempt_min: u64,
) -> (r: Result<(Resolver<InstructionGroups>, Option<RecordUpdate>), MyError>)
    ensures
        match r {
            Ok((d, u)) => {
                &&& wf_resolver(d@)
                &&& match u {
                    Some(up) => {
                        &&& spec_resolve_execute_vaa_v1(
                            program_id@,
                            accounts.deep_view(),
                            rent_exempt_min,
                        ) == Ok::<
                            (SpecResolver<Seq<SpecInstructionGroup>>, Option<SpecRecordUpdate>),
                            MyError,
                        >((d@, Some(up@)))
                        &&& wf_resolver(up.content@)
                    },
                    None => spec_resolve_execute_vaa_v1(
                        program_id@,
                        accounts.deep_view(),
                        rent_exempt_min,
                    ) == Ok::<
                        (SpecResolver<Seq<SpecInstructionGroup>>, Option<SpecRecordUpdate>),
                        MyError,
                    >((d@, None)),
                }
            },
            Err(e) => spec_resolve_execute_vaa_v1(
                program_id@,
                accounts.deep_view(),
                rent_exempt_min,
            ) == Err::<
                (SpecResolver<Seq<SpecInstructionGroup>>, Option<SpecRecordUpdate>),
                MyError,
            >(e),
        },
{
    if accounts.len() == 0 {
        let lut_seed_bytes: [u8; 3] = [108, 117, 116];
        let lut_seeds = one_seed(lut_seed_bytes.as_slice());
        proof {
            assert(lut_seeds.deep_view() =~~= spec_lut_pointer_seeds());
        }
        let lut_ptr = match find_pda(&lut_seeds, program_id) {
            None => { return Err(MyError::KeyDerivation); },
            Some(k) => k,
        };
        let rseed = resolver_result_account_seed();
        let result_seeds = one_seed(rseed.as_slice());
        proof {
            assert(result_seeds.deep_view() =~~= spec_result_account_seeds());
        }
        let result_key = match find_pda(&result_seeds, program_id) {
            None => { return Err(MyError::KeyDerivation); },
            Some(k) => k,
        };
        let mut missing: Vec<Pubkey> = Vec::new();
        missing.push(lut_ptr);
        missing.push(result_key);
        missing.push(resolver_pubkey_payer());
        missing.push(system_program_id());
        let d = Resolver::Missing(
            MissingAccounts { accounts: missing, address_lookup_tables: Vec::new() },
        );
        proof {
            assert(d@->Missing_0.accounts =~= spec_bootstrap_accounts(lut_ptr@, result_key@));
            assert(d@->Missing_0.address_lookup_tables =~= Seq::<Seq<u8>>::empty());
            assert(spec_padded_identity(spec_payer_prefix()).len() == 32);
            assert(spec_system_program_id().len() == 32);
            assert(wf_resolver(d@));
        }
        return Ok((d, None));
    }
    if accounts.len() == 4 || accounts.len() == 68 {
        let ltag = lut_tag();
        let acc0 = vstd::slice::slice_index_get(accounts, 0);
        let lut = match decode_lut(acc0.data.as_slice(), &ltag) {
            Err(e) => { return Err(e); },
            Ok(l) => l,
        };
        let acc1 = vstd::slice::slice_index_get(accounts, 1);
        if !acc1.is_writable {
            return Err(MyError::RecordNotWritable);
        }
        match crate::record::ExecutorAccountResolverResult::decode(acc1.data.as_slice()) {
            Err(e) => { return Err(e); },
            Ok(_previous) => {},
        }
        let new_size = grown_record_size(acc1.data.len() as u64);
        let fund_lamports = funding_shortfall(rent_exempt_min, acc1.lamports);
        if accounts.len() == 4 {
            let entries = match derive_indexed_keys(program_id, 0, 64) {
                None => { return Err(MyError::KeyDerivation); },
                Some(v) => v,
            };
            let mut luts: Vec<Pubkey> = Vec::new();
            luts.push(lut.address);
            let content = Resolver::Missing(
                MissingAccounts { accounts: entries, address_lookup_tables: luts },
            );
            proof {
                assert(content@->Missing_0.address_lookup_tables =~= seq![lut.address@]);
                let ms = content@->Missing_0;
                assert(wf_resolver(content@)) by {
                    assert(forall|k: int|
                        0 <= k < ms.accounts.len() ==> (#[trigger] ms.accounts[k]).len() == 32);
                    assert(ms.address_lookup_tables[0].len() == 32);
                }
            }
            let update = RecordUpdate { new_size, fund_lamports, content };
            return Ok((Resolver::Pending, Some(update)));
        } else {
            let keys = match derive_indexed_keys(program_id, 64, 32) {
                None => { return Err(MyError::KeyDerivation); },
                Some(v) => v,
            };
            let ghost skeys = keys.deep_view();
            let mut metas: Vec<SerializableAccountMeta> = Vec::new();
            metas.push(
                SerializableAccountMeta {
                    pubkey: resolver_pubkey_payer(),
                    is_signer: true,
                    is_writable: true,
                },
            );
            let mut i: usize = 0;
            proof {
                assert(metas.deep_view() =~= seq![
                    SpecAccountMeta {
                        pubkey: spec_padded_identity(spec_payer_prefix()),
                        is_signer: true,
                        is_writable: true,
                    },
                ] + spec_writable_metas(skeys.take(0)));
            }
            while i < keys.len()
                invariant
                    i <= keys@.len(),
                    skeys == keys.deep_view(),
                    skeys.len() == keys@.len(),
                    metas.deep_view() =~= seq![
                        SpecAccountMeta {
                            pubkey: spec_padded_identity(spec_payer_prefix()),
                            is_signer: true,
                            is_writable: true,
                        },
                    ] + spec_writable_metas(skeys.take(i as int)),
                decreases keys@.len() - i,
            {
                let k = keys[i].clone();
                proof {
                    assert(k@ == skeys[i as int]);
                    assert(spec_writable_metas(skeys.take(i + 1)) =~= spec_writable_metas(
                        skeys.take(i as int),
                    ).push(SpecAccountMeta { pubkey: skeys[i as int], is_signer: false, is_writable: true }));
                }
                let ghost pre = metas.deep_view();
                metas.push(SerializableAccountMeta { pubkey: k, is_signer: false, is_writable: true });
                proof {
                    assert(metas.deep_view() =~= pre.push(
                        SpecAccountMeta { pubkey: k@, is_signer: false, is_writable: true },
                    ));
                }
                i += 1;
            }
            let ghost pre = metas.deep_view();
            metas.push(
                SerializableAccountMeta {
                    pubkey: system_program_id(),
                    is_signer: false,
                    is_writable: false,
                },
            );
            proof {
                assert(skeys.take(skeys.len() as int) =~= skeys);
                assert(metas.deep_view() =~= pre.push(
                    SpecAccountMeta {
                        pubkey: spec_system_program_id(),
                        is_signer: false,
                        is_writable: false,
                    },
                ));
                assert(metas.deep_view() =~= spec_execute_vaa_v1_metas(skeys));
            }
            let instruction = SerializableInstruction {
                program_id: program_id.clone(),
                accounts: metas,
                data: execute_vaa_v1_data(),
            };
            let mut instructions: Vec<SerializableInstruction> = Vec::new();
            instructions.push(instruction);
            let mut luts: Vec<Pubkey> = Vec::new();
            luts.push(lut.address);
            let group = InstructionGroup { instructions, address_lookup_tables: luts };
            let mut groups_vec: Vec<InstructionGroup> = Vec::new();
            groups_vec.push(group);
            let content = Resolver::Resolved(InstructionGroups(groups_vec));
            proof {
                let plan = spec_final_plan(program_id@, skeys, lut.address@);
                assert(content@->Resolved_0 =~~= plan);
                assert(wf_resolver(content@)) by {
                    let sm = spec_execute_vaa_v1_metas(skeys);
                    assert(spec_padded_identity(spec_payer_prefix()).len() == 32);
                    assert(spec_system_program_id().len() == 32);
                    assert(forall|k: int|
                        0 <= k < sm.len() ==> wf_account_meta(#[trigger] sm[k]));
                    assert(wf_instruction(plan[0].instructions[0]));
                    assert(plan[0].address_lookup_tables[0].len() == 32);
                    assert(wf_instruction_group(plan[0]));
                }
            }
            let update = RecordUpdate { new_size, fund_lamports, content };
            return Ok((Resolver::Pending, Some(update)));
        }
    }
    Err(MyError::InvalidAccounts)
}

/// Serializes a [`LUT`] pointer record: the 8-byte tag, the bump, the
/// 32-byte table address. Decoding reads it back exactly.
pub fn encode_lut(l: &LUT, tag: &[u8; 8]) -> (r: Vec<u8>)
    ensures
        r@ == tag@ + seq![l.bump] + l.address@,
        spec_decode_lut(r@, tag@) == Ok::<(u8, Seq<u8>), MyError>((l.bump, l.address@)),
{
    let mut out = vstd::slice::slice_to_vec(tag.as_slice());
    out.push(l.bump);
    out.extend_from_slice(l.address.bytes.as_slice());
    proof {
        assert(out@ =~= tag@ + seq![l.bump] + l.address@);
        assert(out@.take(8) =~= tag@);
        assert(out@.subrange(9, 41) =~= l.address@);
    }
    out
}

} // verus!
