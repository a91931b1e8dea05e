//! Iterative dependent resolution: each lookup's target key is derived from
//! the previous lookup's decoded content, and the first unmet dependency
//! aborts the whole routine with its own `Missing` residual — later lookups,
//! whose keys could not even be derived yet, contribute nothing.

use vstd::prelude::*;

use crate::discriminator::{derive_discriminator, spec_discriminator};
use crate::error::MyError;
use crate::lookup::{find_account, spec_find_account, spec_missing_account, SpecSuppliedAccount, SuppliedAccount};
use crate::pda::{find_pda, one_seed, pda_of, two_seeds};
use crate::pubkey::{resolver_pubkey_payer, spec_padded_identity, spec_payer_prefix,
    spec_system_program_id, system_program_id, Pubkey};
use crate::resolver::{MissingAccounts, Resolver, SpecResolver};
use crate::types::{wf_account_meta, wf_instruction, wf_instruction_group, wf_resolver, InstructionGroup, InstructionGroups, SerializableAccountMeta,
    SerializableInstruction, SpecAccountMeta, SpecInstruction, SpecInstructionGroup};

verus! {

/// A typed record of this example: one persisted byte behind the record
/// type's 8-byte tag.
#[derive(Clone, Copy, Debug, PartialEq, Eq, Structural)]
pub struct MyAccount {
    pub data: u8,
}

/// The ASCII seed `account:MyAccount` of [`MyAccount`]'s record tag.
pub open spec fn spec_my_account_seed() -> Seq<u8> {
    seq![97u8, 99, 99, 111, 117, 110, 116, 58, 77, 121, 65, 99, 99, 111, 117, 110, 116]
}

/// The 8-byte tag every persisted [`MyAccount`] record starts with.
pub open spec fn spec_my_account_tag() -> Seq<u8> {
    spec_discriminator(spec_my_account_seed())
}

/// Derives [`MyAccount`]'s record tag.
pub fn my_account_tag() -> (r: [u8; 8])
    ensures
        r@ == spec_my_account_tag(),
{
    let seed: [u8; 17] = [97, 99, 99, 111, 117, 110, 116, 58, 77, 121, 65, 99, 99, 111, 117, 110, 116];
    proof {
        assert(seed@ =~= spec_my_account_seed());
    }
    derive_discriminator(seed.as_slice())
}

/// Decodes a persisted [`MyAccount`] record: the 8-byte tag must match and
/// one content byte must follow; bytes past the content are ignored.
pub open spec fn spec_decode_my_account(data: Seq<u8>, tag: Seq<u8>) -> Option<u8> {
    if data.len() >= 9 && data.take(8) == tag {
        Some(data[8])
    } else {
        None
    }
}

/// Reads a [`MyAccount`] record back from an account's raw bytes.
pub fn decode_my_account(data: &[u8], tag: &[u8; 8]) -> (r: Option<MyAccount>)
    ensures
        match r {
            Some(a) => spec_decode_my_account(data@, tag@) == Some(a.data),
            None => spec_decode_my_account(data@, tag@) is None,
        },
{
    if data.len() < 9 {
        return None;
    }
    let mut i: usize = 0;
    while i < 8
        invariant
            i <= 8,
            data@.len() >= 9,
            forall|j: int| 0 <= j < i ==> data@[j] == tag@[j],
        decreases 8 - i,
    {
        if *vstd::slice::slice_index_get(data, i) != tag[i] {
            proof {
                assert(data@.take(8)[i as int] != tag@[i as int]);
            }
            return None;
        }
        i += 1;
    }
    proof {
        assert(data@.take(8) =~= tag@);
    }
    Some(MyAccount { data: *vstd::slice::slice_index_get(data, 8) })
}

/// The ASCII seed `global:example_instruction` of the target instruction's
/// argument-byte discriminator.
pub open spec fn spec_example_instruction_seed() -> Seq<u8> {
    seq![103u8, 108, 111, 98, 97, 108, 58, 101, 120, 97, 109, 112, 108, 101, 95, 105, 110, 115, 116, 114, 117, 99, 116, 105, 111, 110]
}

/// The argument bytes of the resolved instruction: the discriminator routing
/// to the target program's handler, with no further arguments.
pub open spec fn spec_example_instruction_data() -> Seq<u8> {
    spec_discriminator(spec_example_instruction_seed())
}

fn example_instruction_data() -> (r: Vec<u8>)
    ensures
        r@ == spec_example_instruction_data(),
        r@.len() == 8,
{
    let seed: [u8; 26] = [103, 108, 111, 98, 97, 108, 58, 101, 120, 97, 109, 112, 108, 101, 95, 105, 110, 115, 116, 114, 117, 99, 116, 105, 111, 110];
    proof {
        assert(seed@ =~= spec_example_instruction_seed());
    }
    let d = derive_discriminator(seed.as_slice());
    vstd::slice::slice_to_vec(d.as_slice())
}

/// Seed lists of the four chained records: `foo`, then `bar`, `baz` and
/// `qux`, each keyed by the previous record's content byte.
pub open spec fn spec_foo_seeds() -> Seq<Seq<u8>> {
    seq![seq![102u8, 111, 111]]
}

pub open spec fn spec_bar_seeds(d: u8) -> Seq<Seq<u8>> {
    seq![seq![98u8, 97, 114], seq![d]]
}

pub open spec fn spec_baz_seeds(d: u8) -> Seq<Seq<u8>> {
    seq![seq![98u8, 97, 122], seq![d]]
}

pub open spec fn spec_qux_seeds(d: u8) -> Seq<Seq<u8>> {
    seq![seq![113u8, 117, 120], seq![d]]
}

/// The account list of the resolved instruction: the fee-payer placeholder
/// (signer, writable), the three records read (read-only), the record to be
/// created (writable), and the system-level program (read-only). Order is
/// positional and significant.
pub open spec fn spec_example_metas(
    foo_key: Seq<u8>,
    bar_key: Seq<u8>,
    baz_key: Seq<u8>,
    qux_key: Seq<u8>,
) -> Seq<SpecAccountMeta> {
    seq![
        SpecAccountMeta {
            pubkey: spec_padded_identity(spec_payer_prefix()),
            is_signer: true,
            is_writable: true,
        },
        SpecAccountMeta { pubkey: foo_key, is_signer: false, is_writable: false },
        SpecAccountMeta { pubkey: bar_key, is_signer: false, is_writable: false },
        SpecAccountMeta { pubkey: baz_key, is_signer: false, is_writable: false },
        SpecAccountMeta { pubkey: qux_key, is_signer: false, is_writable: true },
        SpecAccountMeta { pubkey: spec_system_program_id(), is_signer: false, is_writable: false },
    ]
}

/// The full resolved plan: one group, one instruction against the target
/// program, no lookup tables.
pub open spec fn spec_example_plan(
    prog: Seq<u8>,
    foo_key: Seq<u8>,
    bar_key: Seq<u8>,
    baz_key: Seq<u8>,
    qux_key: Seq<u8>,
) -> Seq<SpecInstructionGroup> {
    seq![
        SpecInstructionGroup {
            instructions: seq![
                SpecInstruction {
                    program_id: prog,
                    accounts: spec_example_metas(foo_key, bar_key, baz_key, qux_key),
                    data: spec_example_instruction_data(),
                },
            ],
            address_lookup_tables: Seq::empty(),
        },
    ]
}

/// What one round of the iterative routine returns, as a function of the
/// program identity and the accounts supplied this round.
pub open spec fn spec_accounts_to_execute2(
    prog: Seq<u8>,
    accs: Seq<SpecSuppliedAccount>,
) -> Result<SpecResolver<Seq<SpecInstructionGroup>>, MyError> {
    match pda_of(spec_foo_seeds(), prog) {
        None => Err(MyError::KeyDerivation),
        Some(foo_key) => match spec_find_account(accs, foo_key) {
            None => Ok(spec_missing_account(foo_key)),
            Some(foo) => match spec_decode_my_account(foo.data, spec_my_account_tag()) {
                None => Err(MyError::MalformedData),
                Some(d1) => match pda_of(spec_bar_seeds(d1), prog) {
                    None => Err(MyError::KeyDerivation),
                    Some(bar_key) => match spec_find_account(accs, bar_key) {
                        None => Ok(spec_missing_account(bar_key)),
                        Some(bar) => match spec_decode_my_account(
                            bar.data,
                            spec_my_account_tag(),
                        ) {
                            None => Err(MyError::MalformedData),
                            Some(d2) => match pda_of(spec_baz_seeds(d2), prog) {
                                None => Err(MyError::KeyDerivation),
                                Some(baz_key) => match spec_find_account(accs, baz_key) {
                                    None => Ok(spec_missing_account(baz_key)),
                                    Some(baz) => match spec_decode_my_account(
                                        baz.data,
                                        spec_my_account_tag(),
                                    ) {
                                        None => Err(MyError::MalformedData),
                                        Some(d3) => match pda_of(spec_qux_seeds(d3), prog) {
                                            None => Err(MyError::KeyDerivation),
                                            Some(qux_key) => Ok(
                                                SpecResolver::Resolved(
                                                    spec_example_plan(
                                                        prog,
                                                        foo_key,
                                                        bar_key,
                                                        baz_key,
                                                        qux_key,
                                                    ),
                                                ),
                                            ),
                                        },
                                    },
                                },
                            },
                        },
                    },
                },
            },
        },
    }
}

/// One round of iterative resolution: chases the `foo` → `bar` → `baz`
/// dependency chain through the supplied accounts, short-circuiting on the
/// first record that is absent, and resolves to the one-instruction plan
/// once every dependency is met. A present record that fails to decode is a
/// fatal error, not a missing-account condition.
pub fn accounts_to_execute2(program_id: &Pubkey, accounts: &[SuppliedAccount]) -> (r: Result<
    Resolver<InstructionGroups>,
    MyError,
>)
    ensures
        match r {
            Ok(v) => spec_accounts_to_execute2(program_id@, accounts.deep_view()) == Ok::<
                SpecResolver<Seq<SpecInstructionGroup>>,
                MyError,
            >(v@) && wf_resolver(v@),
            Err(e) => spec_accounts_to_execute2(program_id@, accounts.deep_view()) == Err::<
                SpecResolver<Seq<SpecInstructionGroup>>,
                MyError,
            >(e),
        },
{
    let tag = my_account_tag();

    let foo_prefix: [u8; 3] = [102, 111, 111];
    let foo_seeds = one_seed(foo_prefix.as_slice());
    proof {
        assert(foo_seeds.deep_view() =~~= spec_foo_seeds());
    }
    let foo_key = match find_pda(&foo_seeds, program_id) {
        None => { return Err(MyError::KeyDerivation); },
        Some(k) => k,
    };
    let foo = match find_account(accounts, foo_key) {
        None => { return Ok(crate::lookup::missing_account(foo_key)); },
        Some(a) => a,
    };
    let d1 = match decode_my_account(foo.data.as_slice(), &tag) {
        None => { return Err(MyError::MalformedData); },
        Some(a) => a.data,
    };

    let bar_prefix: [u8; 3] = [98, 97, 114];
    let d1_seed: [u8; 1] = [d1];
    let bar_seeds = two_seeds(bar_prefix.as_slice(), d1_seed.as_slice());
    proof {
        assert(bar_seeds.deep_view() =~~= spec_bar_seeds(d1));
    }
    let bar_key = match find_pda(&bar_seeds, program_id) {
        None => { return Err(MyError::KeyDerivation); },
        Some(k) => k,
    };
    let bar = match find_account(accounts, bar_key) {
        None => { return Ok(crate::lookup::missing_account(bar_key)); },
        Some(a) => a,
    };
    let d2 = match decode_my_account(bar.data.as_slice(), &tag) {
        None => { return Err(MyError::MalformedData); },
        Some(a) => a.data,
    };

    let baz_prefix: [u8; 3] = [98, 97, 122];
    let d2_seed: [u8; 1] = [d2];
    let baz_seeds = two_seeds(baz_prefix.as_slice(), d2_seed.as_slice());
    proof {
        assert(baz_seeds.deep_view() =~~= spec_baz_seeds(d2));
    }
    let baz_key = match find_pda(&baz_seeds, program_id) {
        None => { return Err(MyError::KeyDerivation); },
        Some(k) => k,
    };
    let baz = match find_account(accounts, baz_key) {
        None => { return Ok(crate::lookup::missing_account(baz_key)); },
        Some(a) => a,
    };
    let d3 = match decode_my_account(baz.data.as_slice(), &tag) {
        None => { return Err(MyError::MalformedData); },
        Some(a) => a.data,
    };

    let qux_prefix: [u8; 3] = [113, 117, 120];
    let d3_seed: [u8; 1] = [d3];
    let qux_seeds = two_seeds(qux_prefix.as_slice(), d3_seed.as_slice());
    proof {
        assert(qux_seeds.deep_view() =~~= spec_qux_seeds(d3));
    }
    let qux_key = match find_pda(&qux_seeds, program_id) {
        None => { return Err(MyError::KeyDerivation); },
        Some(k) => k,
    };

    let mut metas: Vec<SerializableAccountMeta> = Vec::new();
    metas.push(SerializableAccountMeta {
        pubkey: resolver_pubkey_payer(),
        is_signer: true,
        is_writable: true,
    });
    metas.push(SerializableAccountMeta { pubkey: foo_key, is_signer: false, is_writable: false });
    metas.push(SerializableAccountMeta { pubkey: bar_key, is_signer: false, is_writable: false });
    metas.push(SerializableAccountMeta { pubkey: baz_key, is_signer: false, is_writable: false });
    metas.push(SerializableAccountMeta { pubkey: qux_key, is_signer: false, is_writable: true });
    metas.push(SerializableAccountMeta {
        pubkey: system_program_id(),
        is_signer: false,
        is_writable: false,
    });
    proof {
        assert(metas.deep_view() =~= spec_example_metas(foo_key@, bar_key@, baz_key@, qux_key@));
    }

    let instruction = SerializableInstruction {
        program_id: program_id.clone(),
        accounts: metas,
        data: example_instruction_data(),
    };
    let mut instructions: Vec<SerializableInstruction> = Vec::new();
    instructions.push(instruction);
    let group = InstructionGroup { instructions, address_lookup_tables: Vec::new() };
    let mut groups_vec: Vec<InstructionGroup> = Vec::new();
    groups_vec.push(group);
    let result = Resolver::Resolved(InstructionGroups(groups_vec));
    proof {
        let plan = spec_example_plan(program_id@, foo_key@, bar_key@, baz_key@, qux_key@);
        assert(result@->Resolved_0 =~~= plan);
        let sm = spec_example_metas(foo_key@, bar_key@, baz_key@, qux_key@);
        assert(wf_resolver(result@)) by {
            assert(spec_padded_identity(spec_payer_prefix()).len() == 32);
            assert(spec_system_program_id().len() == 32);
            assert(wf_account_meta(sm[0]));
            assert(wf_account_meta(sm[1]));
            assert(wf_account_meta(sm[2]));
            assert(wf_account_meta(sm[3]));
            assert(wf_account_meta(sm[4]));
            assert(wf_account_meta(sm[5]));
            assert(wf_instruction(plan[0].instructions[0]));
            assert(wf_instruction_group(plan[0]));
        }
        assert(spec_accounts_to_execute2(program_id@, accounts.deep_view()) == Ok::<
            SpecResolver<Seq<SpecInstructionGroup>>,
            MyError,
        >(result@));
    }
    Ok(result)
}

// ===== Short-circuit laws =====
//
// With N dependent lookups, the first absent one determines the entire
// outcome: its derived key is reported alone, and nothing from lookups that
// never ran leaks into the residual.

/// The first lookup is absent: the routine reports `foo`'s key alone.
pub proof fn lemma_short_circuit_first(prog: Seq<u8>, accs: Seq<SpecSuppliedAccount>, foo_key: Seq<u8>)
    requires
        pda_of(spec_foo_seeds(), prog) == Some(foo_key),
        spec_find_account(accs, foo_key) is None,
    ensures
        spec_accounts_to_execute2(prog, accs) == Ok::<
            SpecResolver<Seq<SpecInstructionGroup>>,
            MyError,
        >(spec_missing_account(foo_key)),
{
}

/// The first lookup resolves but the second is absent: the routine reports
/// `bar`'s derived key alone — not `foo`'s, not `baz`'s.
pub proof fn lemma_short_circuit_second(
    prog: Seq<u8>,
    accs: Seq<SpecSuppliedAccount>,
    foo_key: Seq<u8>,
    foo: SpecSuppliedAccount,
    d1: u8,
    bar_key: Seq<u8>,
)
    requires
        pda_of(spec_foo_seeds(), prog) == Some(foo_key),
        spec_find_account(accs, foo_key) == Some(foo),
        spec_decode_my_account(foo.data, spec_my_account_tag()) == Some(d1),
        pda_of(spec_bar_seeds(d1), prog) == Some(bar_key),
        spec_find_account(accs, bar_key) is None,
    ensures
        spec_accounts_to_execute2(prog, accs) == Ok::<
            SpecResolver<Seq<SpecInstructionGroup>>,
            MyError,
        >(spec_missing_account(bar_key)),
{
}

/// The first two lookups resolve but the third is absent: the routine
/// reports `baz`'s derived key alone.
pub proof fn lemma_short_circuit_third(
    prog: Seq<u8>,
    accs: Seq<SpecSuppliedAccount>,
    foo_key: Seq<u8>,
    foo: SpecSuppliedAccount,
    d1: u8,
    bar_key: Seq<u8>,
    bar: SpecSuppliedAccount,
    d2: u8,
    baz_key: Seq<u8>,
)
    requires
        pda_of(spec_foo_seeds(), prog) == Some(foo_key),
        spec_find_account(accs, foo_key) == Some(foo),
        spec_decode_my_account(foo.data, spec_my_account_tag()) == Some(d1),
        pda_of(spec_bar_seeds(d1), prog) == Some(bar_key),
        spec_find_account(accs, bar_key) == Some(bar),
        spec_decode_my_account(bar.data, spec_my_account_tag()) == Some(d2),
        pda_of(spec_baz_seeds(d2), prog) == Some(baz_key),
        spec_find_account(accs, baz_key) is None,
    ensures
        spec_accounts_to_execute2(prog, accs) == Ok::<
            SpecResolver<Seq<SpecInstructionGroup>>,
            MyError,
        >(spec_missing_account(baz_key)),
{
}

/// Serializes a [`MyAccount`] record: the 8-byte tag, then the content byte.
/// Decoding reads it back exactly.
pub fn encode_my_account(a: &MyAccount, tag: &[u8; 8]) -> (r: Vec<u8>)
    ensures
        r@ == tag@ + seq![a.data],
        spec_decode_my_account(r@, tag@) == Some(a.data),
{
    let mut out = vstd::slice::slice_to_vec(tag.as_slice());
    out.push(a.data);
    proof {
        assert(out@ =~= tag@ + seq![a.data]);
        assert(out@.take(8) =~= tag@);
    }
    out
}

} // verus!
