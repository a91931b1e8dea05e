//! Executable decoders for the canonical binary layout.
//!
//! Each decoder reads at a position in a buffer and returns the decoded
//! value with the position just past it, or nothing if the bytes there are
//! not a valid encoding; every length prefix is checked against the
//! remaining buffer before anything is allocated. Each decoder returns
//! exactly what its specification counterpart in [`crate::codec`] describes.

use vstd::bytes::u32_from_le_bytes;
use vstd::prelude::*;
use vstd::slice::{slice_subrange, slice_to_vec};

use crate::codec::{
    lemma_decode_byte_elems_subrange, spec_decode_account_meta, spec_decode_account_meta_elems,
    spec_decode_account_metas, spec_decode_bool, spec_decode_data, spec_decode_instruction,
    spec_decode_instruction_elems, spec_decode_instruction_group,
    spec_decode_instruction_group_elems, spec_decode_instruction_groups, spec_decode_instructions,
    spec_decode_missing_accounts, spec_decode_pubkey, spec_decode_pubkey_elems,
    spec_decode_pubkeys, spec_decode_resolver, spec_decode_u32,
};
use crate::pubkey::Pubkey;
use crate::resolver::{MissingAccounts, Resolver};
use crate::types::{
    InstructionGroup, InstructionGroups, SerializableAccountMeta, SerializableInstruction,
};

verus! {

broadcast use vstd::array::group_array_axioms;

fn decode_u32(b: &[u8], pos: usize) -> (r: Option<(u32, usize)>)
    ensures
        match r {
            None => spec_decode_u32(b@, pos as int) is None,
            Some((x, q)) => spec_decode_u32(b@, pos as int) == Some((x, q as int)),
        },
{
    if pos <= b.len() && b.len() - pos >= 4 {
        let x = u32_from_le_bytes(slice_subrange(b, pos, pos + 4));
        Some((x, pos + 4))
    } else {
        None
    }
}

fn decode_bool(b: &[u8], pos: usize) -> (r: Option<(bool, usize)>)
    ensures
        match r {
            None => spec_decode_bool(b@, pos as int) is None,
            Some((x, q)) => spec_decode_bool(b@, pos as int) == Some((x, q as int)),
        },
{
    if pos < b.len() {
        let byte = *vstd::slice::slice_index_get(b, pos);
        if byte == 0 {
            Some((false, pos + 1))
        } else if byte == 1 {
            Some((true, pos + 1))
        } else {
            None
        }
    } else {
        None
    }
}

#[verifier::loop_isolation(false)]
fn decode_pubkey(b: &[u8], pos: usize) -> (r: Option<(Pubkey, usize)>)
    ensures
        match r {
            None => spec_decode_pubkey(b@, pos as int) is None,
            Some((p, q)) => spec_decode_pubkey(b@, pos as int) == Some((p@, q as int)),
        },
{
    if pos <= b.len() && b.len() - pos >= 32 {
        let mut bytes: [u8; 32] = [0u8; 32];
        let mut i: usize = 0;
        while i < 32
            invariant
                i <= 32,
                pos + 32 <= b@.len(),
                forall|j: int| 0 <= j < i ==> bytes@[j] == b@[pos + j],
            decreases 32 - i,
        {
            bytes[i] = *vstd::slice::slice_index_get(b, pos + i);
            i += 1;
        }
        proof {
            assert(bytes@ =~= b@.subrange(pos as int, pos + 32));
        }
        Some((Pubkey { bytes }, pos + 32))
    } else {
        None
    }
}

fn decode_account_meta(b: &[u8], pos: usize) -> (r: Option<(SerializableAccountMeta, usize)>)
    ensures
        match r {
            None => spec_decode_account_meta(b@, pos as int) is None,
            Some((m, q)) => spec_decode_account_meta(b@, pos as int) == Some((m@, q as int)),
        },
{
    let (pubkey, p1) = match decode_pubkey(b, pos) {
        None => { return None; },
        Some(x) => x,
    };
    let (is_signer, p2) = match decode_bool(b, p1) {
        None => { return None; },
        Some(x) => x,
    };
    let (is_writable, p3) = match decode_bool(b, p2) {
        None => { return None; },
        Some(x) => x,
    };
    Some((SerializableAccountMeta { pubkey, is_signer, is_writable }, p3))
}

#[verifier::loop_isolation(false)]
fn decode_account_metas(b: &[u8], pos: usize) -> (r: Option<(Vec<SerializableAccountMeta>, usize)>)
    ensures
        match r {
            None => spec_decode_account_metas(b@, pos as int) is None,
            Some((v, q)) => spec_decode_account_metas(b@, pos as int) == Some(
                (v.deep_view(), q as int),
            ),
        },
{
    let (n, p1) = match decode_u32(b, pos) {
        None => { return None; },
        Some(x) => x,
    };
    let mut acc: Vec<SerializableAccountMeta> = Vec::new();
    let mut p: usize = p1;
    let mut i: u32 = 0;
    proof {
        assert(acc.deep_view() + spec_decode_account_meta_elems(b@, p1 as int, n as nat)->Some_0.0
            =~= spec_decode_account_meta_elems(b@, p1 as int, n as nat)->Some_0.0);
    }
    while i < n
        invariant
            i <= n,
            acc.deep_view().len() == i,
            match spec_decode_account_meta_elems(b@, p as int, (n - i) as nat) {
                None => spec_decode_account_meta_elems(b@, p1 as int, n as nat) is None,
                Some((s, q)) => spec_decode_account_meta_elems(b@, p1 as int, n as nat) == Some(
                    (acc.deep_view() + s, q),
                ),
            },
        decreases n - i,
    {
        let (m, p2) = match decode_account_meta(b, p) {
            None => { return None; },
            Some(x) => x,
        };
        let ghost pre = acc.deep_view();
        acc.push(m);
        proof {
            assert(acc.deep_view() =~= pre.push(m@));
            let rest = spec_decode_account_meta_elems(b@, p2 as int, (n - i - 1) as nat);
            if rest is Some {
                assert(pre.push(m@) + rest->Some_0.0 =~= pre + (seq![m@] + rest->Some_0.0));
            }
        }
        p = p2;
        i += 1;
    }
    proof {
        assert(acc.deep_view() + Seq::<crate::types::SpecAccountMeta>::empty() =~= acc.deep_view());
    }
    Some((acc, p))
}

fn decode_data(b: &[u8], pos: usize) -> (r: Option<(Vec<u8>, usize)>)
    ensures
        match r {
            None => spec_decode_data(b@, pos as int) is None,
            Some((v, q)) => spec_decode_data(b@, pos as int) == Some((v@, q as int)),
        },
{
    let (n, p1) = match decode_u32(b, pos) {
        None => { return None; },
        Some(x) => x,
    };
    proof {
        lemma_decode_byte_elems_subrange(b@, p1 as int, n as nat);
    }
    if n as usize <= b.len() && p1 <= b.len() - n as usize {
        let v = slice_to_vec(slice_subrange(b, p1, p1 + n as usize));
        Some((v, p1 + n as usize))
    } else {
        None
    }
}

#[verifier::loop_isolation(false)]
fn decode_pubkeys(b: &[u8], pos: usize) -> (r: Option<(Vec<Pubkey>, usize)>)
    ensures
        match r {
            None => spec_decode_pubkeys(b@, pos as int) is None,
            Some((v, q)) => spec_decode_pubkeys(b@, pos as int) == Some(
                (v.deep_view(), q as int),
            ),
        },
{
    let (n, p1) = match decode_u32(b, pos) {
        None => { return None; },
        Some(x) => x,
    };
    let mut acc: Vec<Pubkey> = Vec::new();
    let mut p: usize = p1;
    let mut i: u32 = 0;
    proof {
        assert(acc.deep_view() + spec_decode_pubkey_elems(b@, p1 as int, n as nat)->Some_0.0
            =~= spec_decode_pubkey_elems(b@, p1 as int, n as nat)->Some_0.0);
    }
    while i < n
        invariant
            i <= n,
            acc.deep_view().len() == i,
            match spec_decode_pubkey_elems(b@, p as int, (n - i) as nat) {
                None => spec_decode_pubkey_elems(b@, p1 as int, n as nat) is None,
                Some((s, q)) => spec_decode_pubkey_elems(b@, p1 as int, n as nat) == Some(
                    (acc.deep_view() + s, q),
                ),
            },
        decreases n - i,
    {
        let (k, p2) = match decode_pubkey(b, p) {
            None => { return None; },
            Some(x) => x,
        };
        let ghost pre = acc.deep_view();
        acc.push(k);
        proof {
            assert(acc.deep_view() =~= pre.push(k@));
            let rest = spec_decode_pubkey_elems(b@, p2 as int, (n - i - 1) as nat);
            if rest is Some {
                assert(pre.push(k@) + rest->Some_0.0 =~= pre + (seq![k@] + rest->Some_0.0));
            }
        }
        p = p2;
        i += 1;
    }
    proof {
        assert(acc.deep_view() + Seq::<Seq<u8>>::empty() =~= acc.deep_view());
    }
    Some((acc, p))
}

fn decode_instruction(b: &[u8], pos: usize) -> (r: Option<(SerializableInstruction, usize)>)
    ensures
        match r {
            None => spec_decode_instruction(b@, pos as int) is None,
            Some((instr, q)) => spec_decode_instruction(b@, pos as int) == Some(
                (instr@, q as int),
            ),
        },
{
    let (program_id, p1) = match decode_pubkey(b, pos) {
        None => { return None; },
        Some(x) => x,
    };
    let (accounts, p2) = match decode_account_metas(b, p1) {
        None => { return None; },
        Some(x) => x,
    };
    let (data, p3) = match decode_data(b, p2) {
        None => { return None; },
        Some(x) => x,
    };
    Some((SerializableInstruction { program_id, accounts, data }, p3))
}

#[verifier::loop_isolation(false)]
fn decode_instructions(b: &[u8], pos: usize) -> (r: Option<(Vec<SerializableInstruction>, usize)>)
    ensures
        match r {
            None => spec_decode_instructions(b@, pos as int) is None,
            Some((v, q)) => spec_decode_instructions(b@, pos as int) == Some(
                (v.deep_view(), q as int),
            ),
        },
{
    let (n, p1) = match decode_u32(b, pos) {
        None => { return None; },
        Some(x) => x,
    };
    let mut acc: Vec<SerializableInstruction> = Vec::new();
    let mut p: usize = p1;
    let mut i: u32 = 0;
    proof {
        assert(acc.deep_view() + spec_decode_instruction_elems(b@, p1 as int, n as nat)->Some_0.0
            =~= spec_decode_instruction_elems(b@, p1 as int, n as nat)->Some_0.0);
    }
    while i < n
        invariant
            i <= n,
            acc.deep_view().len() == i,
            match spec_decode_instruction_elems(b@, p as int, (n - i) as nat) {
                None => spec_decode_instruction_elems(b@, p1 as int, n as nat) is None,
                Some((s, q)) => spec_decode_instruction_elems(b@, p1 as int, n as nat) == Some(
                    (acc.deep_view() + s, q),
                ),
            },
        decreases n - i,
    {
        let (instr, p2) = match decode_instruction(b, p) {
            None => { return None; },
            Some(x) => x,
        };
        let ghost pre = acc.deep_view();
        acc.push(instr);
        proof {
            assert(acc.deep_view() =~= pre.push(instr@));
            let rest = spec_decode_instruction_elems(b@, p2 as int, (n - i - 1) as nat);
            if rest is Some {
                assert(pre.push(instr@) + rest->Some_0.0 =~= pre + (seq![instr@] + rest->Some_0.0));
            }
        }
        p = p2;
        i += 1;
    }
    proof {
        assert(acc.deep_view() + Seq::<crate::types::SpecInstruction>::empty() =~= acc.deep_view());
    }
    Some((acc, p))
}

fn decode_instruction_group(b: &[u8], pos: usize) -> (r: Option<(InstructionGroup, usize)>)
    ensures
        match r {
            None => spec_decode_instruction_group(b@, pos as int) is None,
            Some((g, q)) => spec_decode_instruction_group(b@, pos as int) == Some(
                (g@, q as int),
            ),
        },
{
    let (instructions, p1) = match decode_instructions(b, pos) {
        None => { return None; },
        Some(x) => x,
    };
    let (address_lookup_tables, p2) = match decode_pubkeys(b, p1) {
        None => { return None; },
        Some(x) => x,
    };
    Some((InstructionGroup { instructions, address_lookup_tables }, p2))
}

#[verifier::loop_isolation(false)]
fn decode_instruction_groups(b: &[u8], pos: usize) -> (r: Option<(InstructionGroups, usize)>)
    ensures
        match r {
            None => spec_decode_instruction_groups(b@, pos as int) is None,
            Some((g, q)) => spec_decode_instruction_groups(b@, pos as int) == Some(
                (g@, q as int),
            ),
        },
{
    let (n, p1) = match decode_u32(b, pos) {
        None => { return None; },
        Some(x) => x,
    };
    let mut acc: Vec<InstructionGroup> = Vec::new();
    let mut p: usize = p1;
    let mut i: u32 = 0;
    proof {
        assert(acc.deep_view() + spec_decode_instruction_group_elems(
            b@,
            p1 as int,
            n as nat,
        )->Some_0.0 =~= spec_decode_instruction_group_elems(b@, p1 as int, n as nat)->Some_0.0);
    }
    while i < n
        invariant
            i <= n,
            acc.deep_view().len() == i,
            match spec_decode_instruction_group_elems(b@, p as int, (n - i) as nat) {
                None => spec_decode_instruction_group_elems(b@, p1 as int, n as nat) is None,
                Some((s, q)) => spec_decode_instruction_group_elems(b@, p1 as int, n as nat)
                    == Some((acc.deep_view() + s, q)),
            },
        decreases n - i,
    {
        let (g, p2) = match decode_instruction_group(b, p) {
            None => { return None; },
            Some(x) => x,
        };
        let ghost pre = acc.deep_view();
        acc.push(g);
        proof {
            assert(acc.deep_view() =~= pre.push(g@));
            let rest = spec_decode_instruction_group_elems(b@, p2 as int, (n - i - 1) as nat);
            if rest is Some {
                assert(pre.push(g@) + rest->Some_0.0 =~= pre + (seq![g@] + rest->Some_0.0));
            }
        }
        p = p2;
        i += 1;
    }
    proof {
        assert(acc.deep_view() + Seq::<crate::types::SpecInstructionGroup>::empty()
            =~= acc.deep_view());
    }
    Some((InstructionGroups(acc), p))
}

fn decode_missing_accounts(b: &[u8], pos: usize) -> (r: Option<(MissingAccounts, usize)>)
    ensures
        match r {
            None => spec_decode_missing_accounts(b@, pos as int) is None,
            Some((m, q)) => spec_decode_missing_accounts(b@, pos as int) == Some(
                (m@, q as int),
            ),
        },
{
    let (accounts, p1) = match decode_pubkeys(b, pos) {
        None => { return None; },
        Some(x) => x,
    };
    let (address_lookup_tables, p2) = match decode_pubkeys(b, p1) {
        None => { return None; },
        Some(x) => x,
    };
    Some((MissingAccounts { accounts, address_lookup_tables }, p2))
}

/// Deserializes a resolution outcome starting at `pos`: the decoded outcome
/// and the position just past its encoding, or nothing exactly when the
/// bytes there are not a valid encoding. Trailing bytes are left to the
/// caller, since a persisted record may be padded past its content.
pub fn decode_resolver(b: &[u8], pos: usize) -> (r: Option<(Resolver<InstructionGroups>, usize)>)
    ensures
        match r {
            None => spec_decode_resolver(b@, pos as int) is None,
            Some((v, q)) => spec_decode_resolver(b@, pos as int) == Some((v@, q as int)),
        },
{
    if pos >= b.len() {
        return None;
    }
    let tag = *vstd::slice::slice_index_get(b, pos);
    if tag == 0 {
        match decode_instruction_groups(b, pos + 1) {
            None => None,
            Some((groups, q)) => Some((Resolver::Resolved(groups), q)),
        }
    } else if tag == 1 {
        match decode_missing_accounts(b, pos + 1) {
            None => None,
            Some((m, q)) => Some((Resolver::Missing(m), q)),
        }
    } else if tag == 2 {
        Some((Resolver::Pending, pos + 1))
    } else {
        None
    }
}

} // verus!
