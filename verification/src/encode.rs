//! Executable encoders for the canonical binary layout.
//!
//! Each encoder appends one value's encoding to a growing buffer; the
//! top-level [`encode_resolver`] serializes a whole resolution outcome.

use vstd::bytes::u32_to_le_bytes;
use vstd::prelude::*;

use crate::codec::{
    lemma_concat_account_metas_push, lemma_concat_bytes_id, lemma_concat_instruction_groups_push,
    lemma_concat_instructions_push, lemma_concat_pubkeys_push, spec_concat_account_metas,
    spec_concat_instruction_groups, spec_concat_instructions, spec_concat_pubkeys,
    spec_encode_account_meta, spec_encode_account_metas, spec_encode_bool, spec_encode_data,
    spec_encode_instruction, spec_encode_instruction_group, spec_encode_instruction_groups,
    spec_encode_instructions, spec_encode_len, spec_encode_missing_accounts, spec_encode_pubkeys,
    spec_encode_resolver,
};
use crate::pubkey::Pubkey;
use crate::resolver::{MissingAccounts, Resolver};
use crate::types::{
    wf_instruction, wf_instruction_group, wf_instruction_groups, wf_missing_accounts, wf_resolver,
    InstructionGroup, InstructionGroups, SerializableAccountMeta, SerializableInstruction,
};

verus! {

/// Appends a 4-byte little-endian element count.
fn encode_len(out: &mut Vec<u8>, n: u32)
    ensures
        final(out)@ == old(out)@ + spec_encode_len(n as nat),
{
    let mut bytes = u32_to_le_bytes(n);
    out.append(&mut bytes);
}

/// Appends a bool as one byte, 1 for true and 0 for false.
fn encode_bool(out: &mut Vec<u8>, b: bool)
    ensures
        final(out)@ == old(out)@ + spec_encode_bool(b),
{
    out.push(if b { 1 } else { 0 });
    proof {
        assert(out@ =~= old(out)@ + spec_encode_bool(b));
    }
}

/// Appends an identity's 32 raw bytes.
fn encode_pubkey(out: &mut Vec<u8>, p: &Pubkey)
    ensures
        final(out)@ == old(out)@ + p@,
{
    out.extend_from_slice(p.bytes.as_slice());
    proof {
        assert(out@ =~= old(out)@ + p@);
    }
}

fn encode_account_meta(out: &mut Vec<u8>, m: &SerializableAccountMeta)
    ensures
        final(out)@ == old(out)@ + spec_encode_account_meta(m@),
{
    encode_pubkey(out, &m.pubkey);
    encode_bool(out, m.is_signer);
    encode_bool(out, m.is_writable);
    proof {
        assert(out@ =~= old(out)@ + spec_encode_account_meta(m@));
    }
}

fn encode_account_metas(out: &mut Vec<u8>, v: &Vec<SerializableAccountMeta>)
    requires
        v@.len() <= u32::MAX,
    ensures
        final(out)@ == old(out)@ + spec_encode_account_metas(v.deep_view()),
{
    let ghost s = v.deep_view();
    encode_len(out, v.len() as u32);
    let mut i: usize = 0;
    while i < v.len()
        invariant
            i <= v@.len(),
            s == v.deep_view(),
            s.len() == v@.len() <= u32::MAX,
            out@ == old(out)@ + spec_encode_len(s.len()) + spec_concat_account_metas(s.take(i as int)),
        decreases v@.len() - i,
    {
        encode_account_meta(out, &v[i]);
        proof {
            assert(s.take(i + 1) =~= s.take(i as int).push(s[i as int]));
            lemma_concat_account_metas_push(s.take(i as int), s[i as int]);
            assert(s[i as int] == v@[i as int]@);
        }
        i += 1;
    }
    proof {
        assert(s.take(s.len() as int) =~= s);
        assert(out@ =~= old(out)@ + spec_encode_account_metas(s));
    }
}

fn encode_data(out: &mut Vec<u8>, v: &Vec<u8>)
    requires
        v@.len() <= u32::MAX,
    ensures
        final(out)@ == old(out)@ + spec_encode_data(v@),
{
    encode_len(out, v.len() as u32);
    out.extend_from_slice(v.as_slice());
    proof {
        lemma_concat_bytes_id(v@);
        assert(out@ =~= old(out)@ + spec_encode_data(v@));
    }
}

fn encode_pubkeys(out: &mut Vec<u8>, v: &Vec<Pubkey>)
    requires
        v@.len() <= u32::MAX,
    ensures
        final(out)@ == old(out)@ + spec_encode_pubkeys(v.deep_view()),
{
    let ghost s = v.deep_view();
    encode_len(out, v.len() as u32);
    let mut i: usize = 0;
    while i < v.len()
        invariant
            i <= v@.len(),
            s == v.deep_view(),
            s.len() == v@.len() <= u32::MAX,
            out@ == old(out)@ + spec_encode_len(s.len()) + spec_concat_pubkeys(s.take(i as int)),
        decreases v@.len() - i,
    {
        encode_pubkey(out, &v[i]);
        proof {
            assert(s.take(i + 1) =~= s.take(i as int).push(s[i as int]));
            lemma_concat_pubkeys_push(s.take(i as int), s[i as int]);
            assert(s[i as int] == v@[i as int]@);
        }
        i += 1;
    }
    proof {
        assert(s.take(s.len() as int) =~= s);
        assert(out@ =~= old(out)@ + spec_encode_pubkeys(s));
    }
}

fn encode_instruction(out: &mut Vec<u8>, instr: &SerializableInstruction)
    requires
        wf_instruction(instr@),
    ensures
        final(out)@ == old(out)@ + spec_encode_instruction(instr@),
{
    encode_pubkey(out, &instr.program_id);
    encode_account_metas(out, &instr.accounts);
    encode_data(out, &instr.data);
    proof {
        assert(out@ =~= old(out)@ + spec_encode_instruction(instr@));
    }
}

fn encode_instructions(out: &mut Vec<u8>, v: &Vec<SerializableInstruction>)
    requires
        v@.len() <= u32::MAX,
        forall|k: int| 0 <= k < v@.len() ==> wf_instruction(#[trigger] v.deep_view()[k]),
    ensures
        final(out)@ == old(out)@ + spec_encode_instructions(v.deep_view()),
{
    let ghost s = v.deep_view();
    encode_len(out, v.len() as u32);
    let mut i: usize = 0;
    while i < v.len()
        invariant
            i <= v@.len(),
            s == v.deep_view(),
            s.len() == v@.len() <= u32::MAX,
            forall|k: int| 0 <= k < s.len() ==> wf_instruction(#[trigger] s[k]),
            out@ == old(out)@ + spec_encode_len(s.len()) + spec_concat_instructions(s.take(i as int)),
        decreases v@.len() - i,
    {
        proof {
            assert(s[i as int] == v@[i as int]@);
        }
        encode_instruction(out, &v[i]);
        proof {
            assert(s.take(i + 1) =~= s.take(i as int).push(s[i as int]));
            lemma_concat_instructions_push(s.take(i as int), s[i as int]);
        }
        i += 1;
    }
    proof {
        assert(s.take(s.len() as int) =~= s);
        assert(out@ =~= old(out)@ + spec_encode_instructions(s));
    }
}

fn encode_instruction_group(out: &mut Vec<u8>, g: &InstructionGroup)
    requires
        wf_instruction_group(g@),
    ensures
        final(out)@ == old(out)@ + spec_encode_instruction_group(g@),
{
    encode_instructions(out, &g.instructions);
    encode_pubkeys(out, &g.address_lookup_tables);
    proof {
        assert(out@ =~= old(out)@ + spec_encode_instruction_group(g@));
    }
}

fn encode_instruction_groups(out: &mut Vec<u8>, groups: &InstructionGroups)
    requires
        wf_instruction_groups(groups@),
    ensures
        final(out)@ == old(out)@ + spec_encode_instruction_groups(groups@),
{
    let ghost s = groups@;
    let v = &groups.0;
    encode_len(out, v.len() as u32);
    let mut i: usize = 0;
    while i < v.len()
        invariant
            i <= v@.len(),
            s == v.deep_view(),
            s.len() == v@.len() <= u32::MAX,
            forall|k: int| 0 <= k < s.len() ==> wf_instruction_group(#[trigger] s[k]),
            out@ == old(out)@ + spec_encode_len(s.len()) + spec_concat_instruction_groups(
                s.take(i as int),
            ),
        decreases v@.len() - i,
    {
        proof {
            assert(s[i as int] == v@[i as int]@);
        }
        encode_instruction_group(out, &v[i]);
        proof {
            assert(s.take(i + 1) =~= s.take(i as int).push(s[i as int]));
            lemma_concat_instruction_groups_push(s.take(i as int), s[i as int]);
        }
        i += 1;
    }
    proof {
        assert(s.take(s.len() as int) =~= s);
        assert(out@ =~= old(out)@ + spec_encode_instruction_groups(s));
    }
}

fn encode_missing_accounts(out: &mut Vec<u8>, m: &MissingAccounts)
    requires
        wf_missing_accounts(m@),
    ensures
        final(out)@ == old(out)@ + spec_encode_missing_accounts(m@),
{
    encode_pubkeys(out, &m.accounts);
    encode_pubkeys(out, &m.address_lookup_tables);
    proof {
        assert(out@ =~= old(out)@ + spec_encode_missing_accounts(m@));
    }
}

/// Serializes a resolution outcome into its canonical byte layout.
pub fn encode_resolver(r: &Resolver<InstructionGroups>) -> (out: Vec<u8>)
    requires
        wf_resolver(r@),
    ensures
        out@ == spec_encode_resolver(r@),
{
    let mut out: Vec<u8> = Vec::new();
    match r {
        Resolver::Resolved(groups) => {
            out.push(0);
            proof {
                assert(out@ =~= Seq::<u8>::empty() + seq![0u8]);
            }
            encode_instruction_groups(&mut out, groups);
            proof {
                assert(out@ =~= spec_encode_resolver(r@));
            }
        },
        Resolver::Missing(m) => {
            out.push(1);
            proof {
                assert(out@ =~= Seq::<u8>::empty() + seq![1u8]);
            }
            encode_missing_accounts(&mut out, m);
            proof {
                assert(out@ =~= spec_encode_resolver(r@));
            }
        },
        Resolver::Pending => {
            out.push(2);
            proof {
                assert(out@ =~= spec_encode_resolver(r@));
            }
        },
    }
    out
}

} // verus!
