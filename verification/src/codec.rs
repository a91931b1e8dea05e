//! Canonical binary layout of resolution outcomes.
//!
//! Little-endian, fixed-width, no padding: an identity is 32 raw bytes, a
//! bool one byte (0 or 1), a dynamic sequence a 4-byte little-endian element
//! count followed by the elements' encodings, and an outcome a 1-byte tag
//! (0 resolved, 1 missing, 2 pending) followed by its payload. Decoding is
//! the byte-exact inverse; every length prefix is validated against the
//! remaining buffer before use.

use vstd::bytes::{
    lemma_auto_spec_u32_to_from_le_bytes, spec_u32_from_le_bytes, spec_u32_to_le_bytes,
};
use vstd::prelude::*;

use crate::resolver::{SpecMissingAccounts, SpecResolver};
use crate::types::{
    wf_account_meta, wf_instruction, wf_instruction_group, wf_instruction_groups,
    wf_missing_accounts, wf_pubkey, wf_resolver, SpecAccountMeta, SpecInstruction,
    SpecInstructionGroup,
};

verus! {

// ===== Encoding =====

pub open spec fn spec_encode_bool(b: bool) -> Seq<u8> {
    seq![if b { 1u8 } else { 0u8 }]
}

pub open spec fn spec_encode_account_meta(m: SpecAccountMeta) -> Seq<u8> {
    m.pubkey + spec_encode_bool(m.is_signer) + spec_encode_bool(m.is_writable)
}

/// The encodings of consecutive account metas, concatenated.
pub open spec fn spec_concat_account_metas(s: Seq<SpecAccountMeta>) -> Seq<u8>
    decreases s.len(),
{
    if s.len() == 0 {
        Seq::empty()
    } else {
        spec_encode_account_meta(s[0]) + spec_concat_account_metas(s.drop_first())
    }
}

/// Raw data bytes, concatenated (each byte encodes as itself).
pub open spec fn spec_concat_bytes(s: Seq<u8>) -> Seq<u8>
    decreases s.len(),
{
    if s.len() == 0 {
        Seq::empty()
    } else {
        seq![s[0]] + spec_concat_bytes(s.drop_first())
    }
}

/// The 32-byte identities of a list, concatenated.
pub open spec fn spec_concat_pubkeys(s: Seq<Seq<u8>>) -> Seq<u8>
    decreases s.len(),
{
    if s.len() == 0 {
        Seq::empty()
    } else {
        s[0] + spec_concat_pubkeys(s.drop_first())
    }
}

/// A 4-byte little-endian element count ahead of a concatenated body; the
/// empty sequence's count is exactly four zero bytes.
pub open spec fn spec_encode_len(n: nat) -> Seq<u8>
    recommends
        n <= u32::MAX,
{
    spec_u32_to_le_bytes(n as u32)
}

pub open spec fn spec_encode_account_metas(s: Seq<SpecAccountMeta>) -> Seq<u8> {
    spec_encode_len(s.len()) + spec_concat_account_metas(s)
}

pub open spec fn spec_encode_data(s: Seq<u8>) -> Seq<u8> {
    spec_encode_len(s.len()) + spec_concat_bytes(s)
}

pub open spec fn spec_encode_pubkeys(s: Seq<Seq<u8>>) -> Seq<u8> {
    spec_encode_len(s.len()) + spec_concat_pubkeys(s)
}

pub open spec fn spec_encode_instruction(i: SpecInstruction) -> Seq<u8> {
    i.program_id + spec_encode_account_metas(i.accounts) + spec_encode_data(i.data)
}

/// The encodings of consecutive instructions, concatenated.
pub open spec fn spec_concat_instructions(s: Seq<SpecInstruction>) -> Seq<u8>
    decreases s.len(),
{
    if s.len() == 0 {
        Seq::empty()
    } else {
        spec_encode_instruction(s[0]) + spec_concat_instructions(s.drop_first())
    }
}

pub open spec fn spec_encode_instructions(s: Seq<SpecInstruction>) -> Seq<u8> {
    spec_encode_len(s.len()) + spec_concat_instructions(s)
}

pub open spec fn spec_encode_instruction_group(g: SpecInstructionGroup) -> Seq<u8> {
    spec_encode_instructions(g.instructions) + spec_encode_pubkeys(g.address_lookup_tables)
}

/// The encodings of consecutive instruction groups, concatenated.
pub open spec fn spec_concat_instruction_groups(s: Seq<SpecInstructionGroup>) -> Seq<u8>
    decreases s.len(),
{
    if s.len() == 0 {
        Seq::empty()
    } else {
        spec_encode_instruction_group(s[0]) + spec_concat_instruction_groups(s.drop_first())
    }
}

pub open spec fn spec_encode_instruction_groups(s: Seq<SpecInstructionGroup>) -> Seq<u8> {
    spec_encode_len(s.len()) + spec_concat_instruction_groups(s)
}

pub open spec fn spec_encode_missing_accounts(m: SpecMissingAccounts) -> Seq<u8> {
    spec_encode_pubkeys(m.accounts) + spec_encode_pubkeys(m.address_lookup_tables)
}

/// A resolution outcome: tag byte 0, 1 or 2, then the payload of the
/// resolved or missing case.
pub open spec fn spec_encode_resolver(r: SpecResolver<Seq<SpecInstructionGroup>>) -> Seq<u8> {
    match r {
        SpecResolver::Resolved(groups) => seq![0u8] + spec_encode_instruction_groups(groups),
        SpecResolver::Missing(m) => seq![1u8] + spec_encode_missing_accounts(m),
        SpecResolver::Pending => seq![2u8],
    }
}

// ===== Appending one element appends its encoding =====

pub proof fn lemma_concat_account_metas_push(s: Seq<SpecAccountMeta>, t: SpecAccountMeta)
    ensures
        spec_concat_account_metas(s.push(t)) == spec_concat_account_metas(s)
            + spec_encode_account_meta(t),
    decreases s.len(),
{
    let sp = s.push(t);
    if s.len() == 0 {
        assert(sp[0int] == t);
        assert(sp.drop_first() =~= Seq::<SpecAccountMeta>::empty());
        assert(spec_concat_account_metas(sp) == spec_encode_account_meta(t) + spec_concat_account_metas(sp.drop_first()));
        assert(spec_concat_account_metas(sp.drop_first()) == Seq::<u8>::empty());
        assert(spec_concat_account_metas(s) == Seq::<u8>::empty());
        assert(spec_concat_account_metas(sp) =~= spec_concat_account_metas(s) + spec_encode_account_meta(t));
    } else {
        assert(sp[0int] == s[0]);
        assert(sp.drop_first() =~= s.drop_first().push(t));
        lemma_concat_account_metas_push(s.drop_first(), t);
        assert(spec_concat_account_metas(sp) == spec_encode_account_meta(s[0]) + spec_concat_account_metas(sp.drop_first()));
        assert(spec_concat_account_metas(s) == spec_encode_account_meta(s[0]) + spec_concat_account_metas(s.drop_first()));
        assert(spec_concat_account_metas(sp) =~= spec_concat_account_metas(s) + spec_encode_account_meta(t));
    }
}

pub proof fn lemma_concat_bytes_push(s: Seq<u8>, t: u8)
    ensures
        spec_concat_bytes(s.push(t)) == spec_concat_bytes(s) + seq![t],
    decreases s.len(),
{
    let sp = s.push(t);
    if s.len() == 0 {
        assert(sp[0int] == t);
        assert(sp.drop_first() =~= Seq::<u8>::empty());
        assert(spec_concat_bytes(sp) == seq![t] + spec_concat_bytes(sp.drop_first()));
        assert(spec_concat_bytes(sp.drop_first()) == Seq::<u8>::empty());
        assert(spec_concat_bytes(s) == Seq::<u8>::empty());
        assert(spec_concat_bytes(sp) =~= spec_concat_bytes(s) + seq![t]);
    } else {
        assert(sp[0int] == s[0]);
        assert(sp.drop_first() =~= s.drop_first().push(t));
        lemma_concat_bytes_push(s.drop_first(), t);
        assert(spec_concat_bytes(sp) == seq![s[0]] + spec_concat_bytes(sp.drop_first()));
        assert(spec_concat_bytes(s) == seq![s[0]] + spec_concat_bytes(s.drop_first()));
        assert(spec_concat_bytes(sp) =~= spec_concat_bytes(s) + seq![t]);
    }
}

pub proof fn lemma_concat_pubkeys_push(s: Seq<Seq<u8>>, t: Seq<u8>)
    ensures
        spec_concat_pubkeys(s.push(t)) == spec_concat_pubkeys(s) + t,
    decreases s.len(),
{
    let sp = s.push(t);
    if s.len() == 0 {
        assert(sp[0int] == t);
        assert(sp.drop_first() =~= Seq::<Seq<u8>>::empty());
        assert(spec_concat_pubkeys(sp) == t + spec_concat_pubkeys(sp.drop_first()));
        assert(spec_concat_pubkeys(sp.drop_first()) == Seq::<u8>::empty());
        assert(spec_concat_pubkeys(s) == Seq::<u8>::empty());
        assert(spec_concat_pubkeys(sp) =~= spec_concat_pubkeys(s) + t);
    } else {
        assert(sp[0int] == s[0]);
        assert(sp.drop_first() =~= s.drop_first().push(t));
        lemma_concat_pubkeys_push(s.drop_first(), t);
        assert(spec_concat_pubkeys(sp) == s[0] + spec_concat_pubkeys(sp.drop_first()));
        assert(spec_concat_pubkeys(s) == s[0] + spec_concat_pubkeys(s.drop_first()));
        assert(spec_concat_pubkeys(sp) =~= spec_concat_pubkeys(s) + t);
    }
}

pub proof fn lemma_concat_instructions_push(s: Seq<SpecInstruction>, t: SpecInstruction)
    ensures
        spec_concat_instructions(s.push(t)) == spec_concat_instructions(s)
            + spec_encode_instruction(t),
    decreases s.len(),
{
    let sp = s.push(t);
    if s.len() == 0 {
        assert(sp[0int] == t);
        assert(sp.drop_first() =~= Seq::<SpecInstruction>::empty());
        assert(spec_concat_instructions(sp) == spec_encode_instruction(t) + spec_concat_instructions(sp.drop_first()));
        assert(spec_concat_instructions(sp.drop_first()) == Seq::<u8>::empty());
        assert(spec_concat_instructions(s) == Seq::<u8>::empty());
        assert(spec_concat_instructions(sp) =~= spec_concat_instructions(s) + spec_encode_instruction(t));
    } else {
        assert(sp[0int] == s[0]);
        assert(sp.drop_first() =~= s.drop_first().push(t));
        lemma_concat_instructions_push(s.drop_first(), t);
        assert(spec_concat_instructions(sp) == spec_encode_instruction(s[0]) + spec_concat_instructions(sp.drop_first()));
        assert(spec_concat_instructions(s) == spec_encode_instruction(s[0]) + spec_concat_instructions(s.drop_first()));
        assert(spec_concat_instructions(sp) =~= spec_concat_instructions(s) + spec_encode_instruction(t));
    }
}

pub proof fn lemma_concat_instruction_groups_push(s: Seq<SpecInstructionGroup>, t: SpecInstructionGroup)
    ensures
        spec_concat_instruction_groups(s.push(t)) == spec_concat_instruction_groups(s)
            + spec_encode_instruction_group(t),
    decreases s.len(),
{
    let sp = s.push(t);
    if s.len() == 0 {
        assert(sp[0int] == t);
        assert(sp.drop_first() =~= Seq::<SpecInstructionGroup>::empty());
        assert(spec_concat_instruction_groups(sp) == spec_encode_instruction_group(t) + spec_concat_instruction_groups(sp.drop_first()));
        assert(spec_concat_instruction_groups(sp.drop_first()) == Seq::<u8>::empty());
        assert(spec_concat_instruction_groups(s) == Seq::<u8>::empty());
        assert(spec_concat_instruction_groups(sp) =~= spec_concat_instruction_groups(s) + spec_encode_instruction_group(t));
    } else {
        assert(sp[0int] == s[0]);
        assert(sp.drop_first() =~= s.drop_first().push(t));
        lemma_concat_instruction_groups_push(s.drop_first(), t);
        assert(spec_concat_instruction_groups(sp) == spec_encode_instruction_group(s[0]) + spec_concat_instruction_groups(sp.drop_first()));
        assert(spec_concat_instruction_groups(s) == spec_encode_instruction_group(s[0]) + spec_concat_instruction_groups(s.drop_first()));
        assert(spec_concat_instruction_groups(sp) =~= spec_concat_instruction_groups(s) + spec_encode_instruction_group(t));
    }
}

// ===== Decoding =====
//
// Each spec decoder reads at a position in a buffer and yields the decoded
// value and the position just past it, or nothing if the bytes there are not
// a valid encoding.

pub open spec fn spec_decode_u32(b: Seq<u8>, pos: int) -> Option<(u32, int)> {
    if 0 <= pos && pos + 4 <= b.len() {
        Some((spec_u32_from_le_bytes(b.subrange(pos, pos + 4)), pos + 4))
    } else {
        None
    }
}

pub open spec fn spec_decode_bool(b: Seq<u8>, pos: int) -> Option<(bool, int)> {
    if 0 <= pos && pos + 1 <= b.len() && (b[pos] == 0u8 || b[pos] == 1u8) {
        Some((b[pos] == 1u8, pos + 1))
    } else {
        None
    }
}

pub open spec fn spec_decode_byte(b: Seq<u8>, pos: int) -> Option<(u8, int)> {
    if 0 <= pos && pos + 1 <= b.len() {
        Some((b[pos], pos + 1))
    } else {
        None
    }
}

pub open spec fn spec_decode_pubkey(b: Seq<u8>, pos: int) -> Option<(Seq<u8>, int)> {
    if 0 <= pos && pos + 32 <= b.len() {
        Some((b.subrange(pos, pos + 32), pos + 32))
    } else {
        None
    }
}

pub open spec fn spec_decode_account_meta(b: Seq<u8>, pos: int) -> Option<(SpecAccountMeta, int)> {
    match spec_decode_pubkey(b, pos) {
        None => None,
        Some((pubkey, p1)) => match spec_decode_bool(b, p1) {
            None => None,
            Some((is_signer, p2)) => match spec_decode_bool(b, p2) {
                None => None,
                Some((is_writable, p3)) => Some(
                    (SpecAccountMeta { pubkey, is_signer, is_writable }, p3),
                ),
            },
        },
    }
}

/// Decodes exactly `n` consecutive account metas.
pub open spec fn spec_decode_account_meta_elems(b: Seq<u8>, pos: int, n: nat) -> Option<
    (Seq<SpecAccountMeta>, int),
>
    decreases n,
{
    if n == 0 {
        Some((Seq::empty(), pos))
    } else {
        match spec_decode_account_meta(b, pos) {
            None => None,
            Some((t, p1)) => match spec_decode_account_meta_elems(b, p1, (n - 1) as nat) {
                None => None,
                Some((s, p2)) => Some((seq![t] + s, p2)),
            },
        }
    }
}

pub open spec fn spec_decode_byte_elems(b: Seq<u8>, pos: int, n: nat) -> Option<(Seq<u8>, int)>
    decreases n,
{
    if n == 0 {
        Some((Seq::empty(), pos))
    } else {
        match spec_decode_byte(b, pos) {
            None => None,
            Some((t, p1)) => match spec_decode_byte_elems(b, p1, (n - 1) as nat) {
                None => None,
                Some((s, p2)) => Some((seq![t] + s, p2)),
            },
        }
    }
}

pub open spec fn spec_decode_pubkey_elems(b: Seq<u8>, pos: int, n: nat) -> Option<
    (Seq<Seq<u8>>, int),
>
    decreases n,
{
    if n == 0 {
        Some((Seq::empty(), pos))
    } else {
        match spec_decode_pubkey(b, pos) {
            None => None,
            Some((t, p1)) => match spec_decode_pubkey_elems(b, p1, (n - 1) as nat) {
                None => None,
                Some((s, p2)) => Some((seq![t] + s, p2)),
            },
        }
    }
}

pub open spec fn spec_decode_account_metas(b: Seq<u8>, pos: int) -> Option<
    (Seq<SpecAccountMeta>, int),
> {
    match spec_decode_u32(b, pos) {
        None => None,
        Some((n, p1)) => spec_decode_account_meta_elems(b, p1, n as nat),
    }
}

pub open spec fn spec_decode_data(b: Seq<u8>, pos: int) -> Option<(Seq<u8>, int)> {
    match spec_decode_u32(b, pos) {
        None => None,
        Some((n, p1)) => spec_decode_byte_elems(b, p1, n as nat),
    }
}

pub open spec fn spec_decode_pubkeys(b: Seq<u8>, pos: int) -> Option<(Seq<Seq<u8>>, int)> {
    match spec_decode_u32(b, pos) {
        None => None,
        Some((n, p1)) => spec_decode_pubkey_elems(b, p1, n as nat),
    }
}

pub open spec fn spec_decode_instruction(b: Seq<u8>, pos: int) -> Option<(SpecInstruction, int)> {
    match spec_decode_pubkey(b, pos) {
        None => None,
        Some((program_id, p1)) => match spec_decode_account_metas(b, p1) {
            None => None,
            Some((accounts, p2)) => match spec_decode_data(b, p2) {
                None => None,
                Some((data, p3)) => Some((SpecInstruction { program_id, accounts, data }, p3)),
            },
        },
    }
}

pub open spec fn spec_decode_instruction_elems(b: Seq<u8>, pos: int, n: nat) -> Option<
    (Seq<SpecInstruction>, int),
>
    decreases n,
{
    if n == 0 {
        Some((Seq::empty(), pos))
    } else {
        match spec_decode_instruction(b, pos) {
            None => None,
            Some((t, p1)) => match spec_decode_instruction_elems(b, p1, (n - 1) as nat) {
                None => None,
                Some((s, p2)) => Some((seq![t] + s, p2)),
            },
        }
    }
}

pub open spec fn spec_decode_instructions(b: Seq<u8>, pos: int) -> Option<
    (Seq<SpecInstruction>, int),
> {
    match spec_decode_u32(b, pos) {
        None => None,
        Some((n, p1)) => spec_decode_instruction_elems(b, p1, n as nat),
    }
}

pub open spec fn spec_decode_instruction_group(b: Seq<u8>, pos: int) -> Option<
    (SpecInstructionGroup, int),
> {
    match spec_decode_instructions(b, pos) {
        None => None,
        Some((instructions, p1)) => match spec_decode_pubkeys(b, p1) {
            None => None,
            Some((address_lookup_tables, p2)) => Some(
                (SpecInstructionGroup { instructions, address_lookup_tables }, p2),
            ),
        },
    }
}

pub open spec fn spec_decode_instruction_group_elems(b: Seq<u8>, pos: int, n: nat) -> Option<
    (Seq<SpecInstructionGroup>, int),
>
    decreases n,
{
    if n == 0 {
        Some((Seq::empty(), pos))
    } else {
        match spec_decode_instruction_group(b, pos) {
            None => None,
            Some((t, p1)) => match spec_decode_instruction_group_elems(b, p1, (n - 1) as nat) {
                None => None,
                Some((s, p2)) => Some((seq![t] + s, p2)),
            },
        }
    }
}

pub open spec fn spec_decode_instruction_groups(b: Seq<u8>, pos: int) -> Option<
    (Seq<SpecInstructionGroup>, int),
> {
    match spec_decode_u32(b, pos) {
        None => None,
        Some((n, p1)) => spec_decode_instruction_group_elems(b, p1, n as nat),
    }
}

pub open spec fn spec_decode_missing_accounts(b: Seq<u8>, pos: int) -> Option<
    (SpecMissingAccounts, int),
> {
    match spec_decode_pubkeys(b, pos) {
        None => None,
        Some((accounts, p1)) => match spec_decode_pubkeys(b, p1) {
            None => None,
            Some((address_lookup_tables, p2)) => Some(
                (SpecMissingAccounts { accounts, address_lookup_tables }, p2),
            ),
        },
    }
}

pub open spec fn spec_decode_resolver(b: Seq<u8>, pos: int) -> Option<
    (SpecResolver<Seq<SpecInstructionGroup>>, int),
> {
    if 0 <= pos && pos + 1 <= b.len() {
        if b[pos] == 0u8 {
            match spec_decode_instruction_groups(b, pos + 1) {
                None => None,
                Some((groups, p1)) => Some((SpecResolver::Resolved(groups), p1)),
            }
        } else if b[pos] == 1u8 {
            match spec_decode_missing_accounts(b, pos + 1) {
                None => None,
                Some((m, p1)) => Some((SpecResolver::Missing(m), p1)),
            }
        } else if b[pos] == 2u8 {
            Some((SpecResolver::Pending, pos + 1))
        } else {
            None
        }
    } else {
        None
    }
}

// ===== Round trip: decoding inverts encoding =====
//
// Each lemma reads an encoding placed anywhere inside a larger buffer, so
// the compositional cases can peel one field at a time.

/// `e` sits at position `pos` of buffer `b`.
pub open spec fn bytes_at(b: Seq<u8>, pos: int, e: Seq<u8>) -> bool {
    &&& 0 <= pos
    &&& pos + e.len() <= b.len()
    &&& b.subrange(pos, pos + e.len()) == e
}

/// Splits `bytes_at` over a concatenation: each part sits at its offset.
pub proof fn lemma_bytes_at_split(b: Seq<u8>, pos: int, e1: Seq<u8>, e2: Seq<u8>)
    requires
        bytes_at(b, pos, e1 + e2),
    ensures
        bytes_at(b, pos, e1),
        bytes_at(b, pos + e1.len(), e2),
{
    assert(b.subrange(pos, pos + e1.len()) =~= e1) by {
        assert forall|i: int| 0 <= i < e1.len() implies b[pos + i] == e1[i] by {
            assert((e1 + e2)[i] == e1[i]);
            assert(b.subrange(pos, pos + (e1 + e2).len() as int)[i] == b[pos + i]);
        }
    }
    assert(b.subrange(pos + e1.len(), pos + e1.len() + e2.len()) =~= e2) by {
        assert forall|i: int| 0 <= i < e2.len() implies b[pos + e1.len() + i] == e2[i] by {
            assert((e1 + e2)[e1.len() + i] == e2[i]);
            assert(b.subrange(pos, pos + (e1 + e2).len() as int)[e1.len() + i] == b[pos + e1.len()
                + i]);
        }
    }
}

pub proof fn lemma_decode_encode_u32(b: Seq<u8>, pos: int, x: u32)
    requires
        bytes_at(b, pos, spec_u32_to_le_bytes(x)),
    ensures
        spec_decode_u32(b, pos) == Some((x, pos + 4)),
{
    lemma_auto_spec_u32_to_from_le_bytes();
}

pub proof fn lemma_decode_encode_bool(b: Seq<u8>, pos: int, x: bool)
    requires
        bytes_at(b, pos, spec_encode_bool(x)),
    ensures
        spec_decode_bool(b, pos) == Some((x, pos + 1)),
{
    assert(b.subrange(pos, pos + 1)[0] == spec_encode_bool(x)[0]);
}

pub proof fn lemma_decode_encode_pubkey(b: Seq<u8>, pos: int, p: Seq<u8>)
    requires
        wf_pubkey(p),
        bytes_at(b, pos, p),
    ensures
        spec_decode_pubkey(b, pos) == Some((p, pos + 32)),
{
}

pub proof fn lemma_decode_encode_account_meta(b: Seq<u8>, pos: int, m: SpecAccountMeta)
    requires
        wf_account_meta(m),
        bytes_at(b, pos, spec_encode_account_meta(m)),
    ensures
        spec_decode_account_meta(b, pos) == Some((m, pos + spec_encode_account_meta(m).len())),
        spec_encode_account_meta(m).len() == 34,
{
    lemma_bytes_at_split(
        b,
        pos,
        m.pubkey + spec_encode_bool(m.is_signer),
        spec_encode_bool(m.is_writable),
    );
    lemma_bytes_at_split(b, pos, m.pubkey, spec_encode_bool(m.is_signer));
    lemma_decode_encode_pubkey(b, pos, m.pubkey);
    lemma_decode_encode_bool(b, pos + 32, m.is_signer);
    lemma_decode_encode_bool(b, pos + 33, m.is_writable);
}

pub proof fn lemma_decode_encode_account_meta_elems(b: Seq<u8>, pos: int, s: Seq<SpecAccountMeta>)
    requires
        forall|k: int| 0 <= k < s.len() ==> wf_account_meta(#[trigger] s[k]),
        bytes_at(b, pos, spec_concat_account_metas(s)),
    ensures
        spec_decode_account_meta_elems(b, pos, s.len()) == Some(
            (s, pos + spec_concat_account_metas(s).len()),
        ),
    decreases s.len(),
{
    if s.len() == 0 {
        assert(spec_decode_account_meta_elems(b, pos, 0) == Some((Seq::<SpecAccountMeta>::empty(), pos)));
        assert(s =~= Seq::<SpecAccountMeta>::empty());
    } else {
        lemma_bytes_at_split(
            b,
            pos,
            spec_encode_account_meta(s[0]),
            spec_concat_account_metas(s.drop_first()),
        );
        lemma_decode_encode_account_meta(b, pos, s[0]);
        lemma_decode_encode_account_meta_elems(
            b,
            pos + spec_encode_account_meta(s[0]).len(),
            s.drop_first(),
        );
        assert(seq![s[0]] + s.drop_first() =~= s);
    }
}

pub proof fn lemma_decode_encode_byte_elems(b: Seq<u8>, pos: int, s: Seq<u8>)
    requires
        bytes_at(b, pos, spec_concat_bytes(s)),
    ensures
        spec_decode_byte_elems(b, pos, s.len()) == Some((s, pos + spec_concat_bytes(s).len())),
    decreases s.len(),
{
    if s.len() == 0 {
        assert(s =~= Seq::<u8>::empty());
    } else {
        lemma_bytes_at_split(b, pos, seq![s[0]], spec_concat_bytes(s.drop_first()));
        assert(b.subrange(pos, pos + 1)[0] == seq![s[0]][0]);
        lemma_decode_encode_byte_elems(b, pos + 1, s.drop_first());
        assert(seq![s[0]] + s.drop_first() =~= s);
    }
}

pub proof fn lemma_decode_encode_pubkey_elems(b: Seq<u8>, pos: int, s: Seq<Seq<u8>>)
    requires
        forall|k: int| 0 <= k < s.len() ==> wf_pubkey(#[trigger] s[k]),
        bytes_at(b, pos, spec_concat_pubkeys(s)),
    ensures
        spec_decode_pubkey_elems(b, pos, s.len()) == Some((s, pos + spec_concat_pubkeys(s).len())),
    decreases s.len(),
{
    if s.len() == 0 {
        assert(s =~= Seq::<Seq<u8>>::empty());
    } else {
        lemma_bytes_at_split(b, pos, s[0], spec_concat_pubkeys(s.drop_first()));
        lemma_decode_encode_pubkey(b, pos, s[0]);
        lemma_decode_encode_pubkey_elems(b, pos + s[0].len(), s.drop_first());
        assert(seq![s[0]] + s.drop_first() =~= s);
    }
}

pub proof fn lemma_decode_encode_account_metas(b: Seq<u8>, pos: int, s: Seq<SpecAccountMeta>)
    requires
        s.len() <= u32::MAX,
        forall|k: int| 0 <= k < s.len() ==> wf_account_meta(#[trigger] s[k]),
        bytes_at(b, pos, spec_encode_account_metas(s)),
    ensures
        spec_decode_account_metas(b, pos) == Some((s, pos + spec_encode_account_metas(s).len())),
{
    lemma_auto_spec_u32_to_from_le_bytes();
    lemma_bytes_at_split(b, pos, spec_encode_len(s.len()), spec_concat_account_metas(s));
    lemma_decode_encode_u32(b, pos, s.len() as u32);
    lemma_decode_encode_account_meta_elems(b, pos + 4, s);
}

pub proof fn lemma_decode_encode_data(b: Seq<u8>, pos: int, s: Seq<u8>)
    requires
        s.len() <= u32::MAX,
        bytes_at(b, pos, spec_encode_data(s)),
    ensures
        spec_decode_data(b, pos) == Some((s, pos + spec_encode_data(s).len())),
{
    lemma_auto_spec_u32_to_from_le_bytes();
    lemma_bytes_at_split(b, pos, spec_encode_len(s.len()), spec_concat_bytes(s));
    lemma_decode_encode_u32(b, pos, s.len() as u32);
    lemma_decode_encode_byte_elems(b, pos + 4, s);
}

pub proof fn lemma_decode_encode_pubkeys(b: Seq<u8>, pos: int, s: Seq<Seq<u8>>)
    requires
        s.len() <= u32::MAX,
        forall|k: int| 0 <= k < s.len() ==> wf_pubkey(#[trigger] s[k]),
        bytes_at(b, pos, spec_encode_pubkeys(s)),
    ensures
        spec_decode_pubkeys(b, pos) == Some((s, pos + spec_encode_pubkeys(s).len())),
{
    lemma_auto_spec_u32_to_from_le_bytes();
    lemma_bytes_at_split(b, pos, spec_encode_len(s.len()), spec_concat_pubkeys(s));
    lemma_decode_encode_u32(b, pos, s.len() as u32);
    lemma_decode_encode_pubkey_elems(b, pos + 4, s);
}

pub proof fn lemma_decode_encode_instruction(b: Seq<u8>, pos: int, i: SpecInstruction)
    requires
        wf_instruction(i),
        bytes_at(b, pos, spec_encode_instruction(i)),
    ensures
        spec_decode_instruction(b, pos) == Some((i, pos + spec_encode_instruction(i).len())),
{
    lemma_bytes_at_split(
        b,
        pos,
        i.program_id + spec_encode_account_metas(i.accounts),
        spec_encode_data(i.data),
    );
    lemma_bytes_at_split(b, pos, i.program_id, spec_encode_account_metas(i.accounts));
    lemma_decode_encode_pubkey(b, pos, i.program_id);
    lemma_decode_encode_account_metas(b, pos + 32, i.accounts);
    lemma_decode_encode_data(
        b,
        pos + 32 + spec_encode_account_metas(i.accounts).len(),
        i.data,
    );
}

pub proof fn lemma_decode_encode_instruction_elems(b: Seq<u8>, pos: int, s: Seq<SpecInstruction>)
    requires
        forall|k: int| 0 <= k < s.len() ==> wf_instruction(#[trigger] s[k]),
        bytes_at(b, pos, spec_concat_instructions(s)),
    ensures
        spec_decode_instruction_elems(b, pos, s.len()) == Some(
            (s, pos + spec_concat_instructions(s).len()),
        ),
    decreases s.len(),
{
    if s.len() == 0 {
        assert(s =~= Seq::<SpecInstruction>::empty());
    } else {
        lemma_bytes_at_split(
            b,
            pos,
            spec_encode_instruction(s[0]),
            spec_concat_instructions(s.drop_first()),
        );
        lemma_decode_encode_instruction(b, pos, s[0]);
        lemma_decode_encode_instruction_elems(
            b,
            pos + spec_encode_instruction(s[0]).len(),
            s.drop_first(),
        );
        assert(seq![s[0]] + s.drop_first() =~= s);
    }
}

pub proof fn lemma_decode_encode_instructions(b: Seq<u8>, pos: int, s: Seq<SpecInstruction>)
    requires
        s.len() <= u32::MAX,
        forall|k: int| 0 <= k < s.len() ==> wf_instruction(#[trigger] s[k]),
        bytes_at(b, pos, spec_encode_instructions(s)),
    ensures
        spec_decode_instructions(b, pos) == Some((s, pos + spec_encode_instructions(s).len())),
{
    lemma_auto_spec_u32_to_from_le_bytes();
    lemma_bytes_at_split(b, pos, spec_encode_len(s.len()), spec_concat_instructions(s));
    lemma_decode_encode_u32(b, pos, s.len() as u32);
    lemma_decode_encode_instruction_elems(b, pos + 4, s);
}

pub proof fn lemma_decode_encode_instruction_group(b: Seq<u8>, pos: int, g: SpecInstructionGroup)
    requires
        wf_instruction_group(g),
        bytes_at(b, pos, spec_encode_instruction_group(g)),
    ensures
        spec_decode_instruction_group(b, pos) == Some(
            (g, pos + spec_encode_instruction_group(g).len()),
        ),
{
    lemma_bytes_at_split(
        b,
        pos,
        spec_encode_instructions(g.instructions),
        spec_encode_pubkeys(g.address_lookup_tables),
    );
    lemma_decode_encode_instructions(b, pos, g.instructions);
    lemma_decode_encode_pubkeys(
        b,
        pos + spec_encode_instructions(g.instructions).len(),
        g.address_lookup_tables,
    );
}

pub proof fn lemma_decode_encode_instruction_group_elems(
    b: Seq<u8>,
    pos: int,
    s: Seq<SpecInstructionGroup>,
)
    requires
        forall|k: int| 0 <= k < s.len() ==> wf_instruction_group(#[trigger] s[k]),
        bytes_at(b, pos, spec_concat_instruction_groups(s)),
    ensures
        spec_decode_instruction_group_elems(b, pos, s.len()) == Some(
            (s, pos + spec_concat_instruction_groups(s).len()),
        ),
    decreases s.len(),
{
    if s.len() == 0 {
        assert(s =~= Seq::<SpecInstructionGroup>::empty());
    } else {
        lemma_bytes_at_split(
            b,
            pos,
            spec_encode_instruction_group(s[0]),
            spec_concat_instruction_groups(s.drop_first()),
        );
        lemma_decode_encode_instruction_group(b, pos, s[0]);
        lemma_decode_encode_instruction_group_elems(
            b,
            pos + spec_encode_instruction_group(s[0]).len(),
            s.drop_first(),
        );
        assert(seq![s[0]] + s.drop_first() =~= s);
    }
}

pub proof fn lemma_decode_encode_instruction_groups(
    b: Seq<u8>,
    pos: int,
    s: Seq<SpecInstructionGroup>,
)
    requires
        wf_instruction_groups(s),
        bytes_at(b, pos, spec_encode_instruction_groups(s)),
    ensures
        spec_decode_instruction_groups(b, pos) == Some(
            (s, pos + spec_encode_instruction_groups(s).len()),
        ),
{
    lemma_auto_spec_u32_to_from_le_bytes();
    lemma_bytes_at_split(b, pos, spec_encode_len(s.len()), spec_concat_instruction_groups(s));
    lemma_decode_encode_u32(b, pos, s.len() as u32);
    lemma_decode_encode_instruction_group_elems(b, pos + 4, s);
}

pub proof fn lemma_decode_encode_missing_accounts(b: Seq<u8>, pos: int, m: SpecMissingAccounts)
    requires
        wf_missing_accounts(m),
        bytes_at(b, pos, spec_encode_missing_accounts(m)),
    ensures
        spec_decode_missing_accounts(b, pos) == Some(
            (m, pos + spec_encode_missing_accounts(m).len()),
        ),
{
    lemma_bytes_at_split(
        b,
        pos,
        spec_encode_pubkeys(m.accounts),
        spec_encode_pubkeys(m.address_lookup_tables),
    );
    lemma_decode_encode_pubkeys(b, pos, m.accounts);
    lemma_decode_encode_pubkeys(
        b,
        pos + spec_encode_pubkeys(m.accounts).len(),
        m.address_lookup_tables,
    );
}

/// Decoding inverts encoding: a well-formed outcome written anywhere inside
/// a buffer decodes back to exactly itself, consuming exactly its encoding.
pub proof fn lemma_decode_encode_resolver(
    b: Seq<u8>,
    pos: int,
    r: SpecResolver<Seq<SpecInstructionGroup>>,
)
    requires
        wf_resolver(r),
        bytes_at(b, pos, spec_encode_resolver(r)),
    ensures
        spec_decode_resolver(b, pos) == Some((r, pos + spec_encode_resolver(r).len())),
{
    match r {
        SpecResolver::Resolved(groups) => {
            lemma_bytes_at_split(b, pos, seq![0u8], spec_encode_instruction_groups(groups));
            assert(b.subrange(pos, pos + 1)[0] == seq![0u8][0]);
            lemma_decode_encode_instruction_groups(b, pos + 1, groups);
        },
        SpecResolver::Missing(m) => {
            lemma_bytes_at_split(b, pos, seq![1u8], spec_encode_missing_accounts(m));
            assert(b.subrange(pos, pos + 1)[0] == seq![1u8][0]);
            lemma_decode_encode_missing_accounts(b, pos + 1, m);
        },
        SpecResolver::Pending => {
            assert(b.subrange(pos, pos + 1)[0] == seq![2u8][0]);
        },
    }
}

/// Raw data bytes concatenate to themselves.
pub proof fn lemma_concat_bytes_id(s: Seq<u8>)
    ensures
        spec_concat_bytes(s) == s,
    decreases s.len(),
{
    if s.len() == 0 {
        assert(spec_concat_bytes(s) =~= s);
    } else {
        lemma_concat_bytes_id(s.drop_first());
        assert(spec_concat_bytes(s) =~= s);
    }
}

/// Consecutive raw bytes decode to the subrange they occupy, and fail
/// exactly when the buffer is too short.
pub proof fn lemma_decode_byte_elems_subrange(b: Seq<u8>, pos: int, n: nat)
    requires
        0 <= pos <= b.len(),
    ensures
        pos + n <= b.len() ==> spec_decode_byte_elems(b, pos, n) == Some(
            (b.subrange(pos, pos + n), pos + n),
        ),
        pos + n > b.len() ==> spec_decode_byte_elems(b, pos, n) is None,
    decreases n,
{
    if n == 0 {
        assert(b.subrange(pos, pos) =~= Seq::<u8>::empty());
    } else {
        if pos + 1 <= b.len() {
            lemma_decode_byte_elems_subrange(b, pos + 1, (n - 1) as nat);
            if pos + n <= b.len() {
                assert(seq![b[pos]] + b.subrange(pos + 1, pos + n) =~= b.subrange(pos, pos + n));
            }
        }
    }
}

// ===== Canonicity: whatever decodes is an encoding =====
//
// The converse round trip: a successful decode yields a well-formed value
// whose encoding is exactly the bytes consumed. Together with the lemmas
// above, decoding is the byte-exact inverse of encoding.

/// An adjacent pair of subranges glues back together.
pub proof fn lemma_subrange_glue(b: Seq<u8>, p0: int, p1: int, p2: int)
    requires
        0 <= p0 <= p1 <= p2 <= b.len(),
    ensures
        b.subrange(p0, p2) == b.subrange(p0, p1) + b.subrange(p1, p2),
{
    assert(b.subrange(p0, p2) =~= b.subrange(p0, p1) + b.subrange(p1, p2));
}

pub proof fn lemma_encode_decode_u32(b: Seq<u8>, pos: int)
    requires
        spec_decode_u32(b, pos) is Some,
    ensures
        ({
            let (x, p) = spec_decode_u32(b, pos)->Some_0;
            &&& p == pos + 4
            &&& 0 <= pos && p <= b.len()
            &&& spec_u32_to_le_bytes(x) == b.subrange(pos, p)
        }),
{
    lemma_auto_spec_u32_to_from_le_bytes();
}

pub proof fn lemma_encode_decode_bool(b: Seq<u8>, pos: int)
    requires
        spec_decode_bool(b, pos) is Some,
    ensures
        ({
            let (x, p) = spec_decode_bool(b, pos)->Some_0;
            &&& p == pos + 1
            &&& 0 <= pos && p <= b.len()
            &&& spec_encode_bool(x) == b.subrange(pos, p)
        }),
{
    let (x, p) = spec_decode_bool(b, pos)->Some_0;
    assert(spec_encode_bool(x) =~= b.subrange(pos, p));
}

pub proof fn lemma_encode_decode_account_meta(b: Seq<u8>, pos: int)
    requires
        spec_decode_account_meta(b, pos) is Some,
    ensures
        ({
            let (m, p) = spec_decode_account_meta(b, pos)->Some_0;
            &&& 0 <= pos && pos + 34 == p <= b.len()
            &&& wf_account_meta(m)
            &&& spec_encode_account_meta(m) == b.subrange(pos, p)
        }),
{
    let (m, p) = spec_decode_account_meta(b, pos)->Some_0;
    lemma_encode_decode_bool(b, pos + 32);
    lemma_encode_decode_bool(b, pos + 33);
    lemma_subrange_glue(b, pos, pos + 32, pos + 33);
    lemma_subrange_glue(b, pos, pos + 33, pos + 34);
    assert(spec_encode_account_meta(m) == b.subrange(pos, p));
}

pub proof fn lemma_encode_decode_account_meta_elems(b: Seq<u8>, pos: int, n: nat)
    requires
        0 <= pos <= b.len(),
        spec_decode_account_meta_elems(b, pos, n) is Some,
    ensures
        ({
            let (s, p) = spec_decode_account_meta_elems(b, pos, n)->Some_0;
            &&& s.len() == n
            &&& pos <= p <= b.len()
            &&& forall|k: int| 0 <= k < s.len() ==> wf_account_meta(#[trigger] s[k])
            &&& spec_concat_account_metas(s) == b.subrange(pos, p)
        }),
    decreases n,
{
    let (s, p) = spec_decode_account_meta_elems(b, pos, n)->Some_0;
    if n == 0 {
        assert(spec_concat_account_metas(s) =~= b.subrange(pos, p));
    } else {
        let (m, p1) = spec_decode_account_meta(b, pos)->Some_0;
        lemma_encode_decode_account_meta(b, pos);
        lemma_encode_decode_account_meta_elems(b, p1, (n - 1) as nat);
        let (rest, _p2) = spec_decode_account_meta_elems(b, p1, (n - 1) as nat)->Some_0;
        assert(s == seq![m] + rest);
        assert(s[0] == m);
        assert(s.drop_first() =~= rest);
        lemma_subrange_glue(b, pos, p1, p);
        assert(spec_concat_account_metas(s) == b.subrange(pos, p));
    }
}

pub proof fn lemma_encode_decode_byte_elems(b: Seq<u8>, pos: int, n: nat)
    requires
        0 <= pos <= b.len(),
        spec_decode_byte_elems(b, pos, n) is Some,
    ensures
        ({
            let (s, p) = spec_decode_byte_elems(b, pos, n)->Some_0;
            &&& s.len() == n
            &&& pos <= p <= b.len()
            &&& spec_concat_bytes(s) == b.subrange(pos, p)
        }),
    decreases n,
{
    let (s, p) = spec_decode_byte_elems(b, pos, n)->Some_0;
    if n == 0 {
        assert(spec_concat_bytes(s) =~= b.subrange(pos, p));
    } else {
        lemma_encode_decode_byte_elems(b, pos + 1, (n - 1) as nat);
        let (rest, _p2) = spec_decode_byte_elems(b, pos + 1, (n - 1) as nat)->Some_0;
        assert(s == seq![b[pos]] + rest);
        assert(s[0] == b[pos]);
        assert(s.drop_first() =~= rest);
        lemma_subrange_glue(b, pos, pos + 1, p);
        assert(seq![b[pos]] =~= b.subrange(pos, pos + 1));
        assert(spec_concat_bytes(s) == b.subrange(pos, p));
    }
}

pub proof fn lemma_encode_decode_pubkey_elems(b: Seq<u8>, pos: int, n: nat)
    requires
        0 <= pos <= b.len(),
        spec_decode_pubkey_elems(b, pos, n) is Some,
    ensures
        ({
            let (s, p) = spec_decode_pubkey_elems(b, pos, n)->Some_0;
            &&& s.len() == n
            &&& pos <= p <= b.len()
            &&& forall|k: int| 0 <= k < s.len() ==> wf_pubkey(#[trigger] s[k])
            &&& spec_concat_pubkeys(s) == b.subrange(pos, p)
        }),
    decreases n,
{
    let (s, p) = spec_decode_pubkey_elems(b, pos, n)->Some_0;
    if n == 0 {
        assert(spec_concat_pubkeys(s) =~= b.subrange(pos, p));
    } else {
        lemma_encode_decode_pubkey_elems(b, pos + 32, (n - 1) as nat);
        let (rest, _p2) = spec_decode_pubkey_elems(b, pos + 32, (n - 1) as nat)->Some_0;
        assert(s == seq![b.subrange(pos, pos + 32)] + rest);
        assert(s[0] == b.subrange(pos, pos + 32));
        assert(s.drop_first() =~= rest);
        lemma_subrange_glue(b, pos, pos + 32, p);
        assert(spec_concat_pubkeys(s) == b.subrange(pos, p));
    }
}

pub proof fn lemma_encode_decode_account_metas(b: Seq<u8>, pos: int)
    requires
        spec_decode_account_metas(b, pos) is Some,
    ensures
        ({
            let (s, p) = spec_decode_account_metas(b, pos)->Some_0;
            &&& s.len() <= u32::MAX
            &&& 0 <= pos && pos <= p <= b.len()
            &&& forall|k: int| 0 <= k < s.len() ==> wf_account_meta(#[trigger] s[k])
            &&& spec_encode_account_metas(s) == b.subrange(pos, p)
        }),
{
    let (n, p1) = spec_decode_u32(b, pos)->Some_0;
    lemma_encode_decode_u32(b, pos);
    lemma_encode_decode_account_meta_elems(b, p1, n as nat);
    let (s, p) = spec_decode_account_metas(b, pos)->Some_0;
    lemma_subrange_glue(b, pos, p1, p);
    assert(spec_encode_account_metas(s) == b.subrange(pos, p));
}

pub proof fn lemma_encode_decode_data(b: Seq<u8>, pos: int)
    requires
        spec_decode_data(b, pos) is Some,
    ensures
        ({
            let (s, p) = spec_decode_data(b, pos)->Some_0;
            &&& s.len() <= u32::MAX
            &&& 0 <= pos && pos <= p <= b.len()
            &&& spec_encode_data(s) == b.subrange(pos, p)
        }),
{
    let (n, p1) = spec_decode_u32(b, pos)->Some_0;
    lemma_encode_decode_u32(b, pos);
    lemma_encode_decode_byte_elems(b, p1, n as nat);
    let (s, p) = spec_decode_data(b, pos)->Some_0;
    lemma_subrange_glue(b, pos, p1, p);
    assert(spec_encode_data(s) == b.subrange(pos, p));
}

pub proof fn lemma_encode_decode_pubkeys(b: Seq<u8>, pos: int)
    requires
        spec_decode_pubkeys(b, pos) is Some,
    ensures
        ({
            let (s, p) = spec_decode_pubkeys(b, pos)->Some_0;
            &&& s.len() <= u32::MAX
            &&& 0 <= pos && pos <= p <= b.len()
            &&& forall|k: int| 0 <= k < s.len() ==> wf_pubkey(#[trigger] s[k])
            &&& spec_encode_pubkeys(s) == b.subrange(pos, p)
        }),
{
    let (n, p1) = spec_decode_u32(b, pos)->Some_0;
    lemma_encode_decode_u32(b, pos);
    lemma_encode_decode_pubkey_elems(b, p1, n as nat);
    let (s, p) = spec_decode_pubkeys(b, pos)->Some_0;
    lemma_subrange_glue(b, pos, p1, p);
    assert(spec_encode_pubkeys(s) == b.subrange(pos, p));
}

pub proof fn lemma_encode_decode_instruction(b: Seq<u8>, pos: int)
    requires
        spec_decode_instruction(b, pos) is Some,
    ensures
        ({
            let (i, p) = spec_decode_instruction(b, pos)->Some_0;
            &&& 0 <= pos && pos <= p <= b.len()
            &&& wf_instruction(i)
            &&& spec_encode_instruction(i) == b.subrange(pos, p)
        }),
{
    let (_pk, p1) = spec_decode_pubkey(b, pos)->Some_0;
    let (_ms, p2) = spec_decode_account_metas(b, p1)->Some_0;
    lemma_encode_decode_account_metas(b, p1);
    lemma_encode_decode_data(b, p2);
    let (i, p) = spec_decode_instruction(b, pos)->Some_0;
    lemma_subrange_glue(b, pos, p1, p2);
    lemma_subrange_glue(b, pos, p2, p);
    assert(spec_encode_instruction(i) == b.subrange(pos, p));
}

pub proof fn lemma_encode_decode_instruction_elems(b: Seq<u8>, pos: int, n: nat)
    requires
        0 <= pos <= b.len(),
        spec_decode_instruction_elems(b, pos, n) is Some,
    ensures
        ({
            let (s, p) = spec_decode_instruction_elems(b, pos, n)->Some_0;
            &&& s.len() == n
            &&& pos <= p <= b.len()
            &&& forall|k: int| 0 <= k < s.len() ==> wf_instruction(#[trigger] s[k])
            &&& spec_concat_instructions(s) == b.subrange(pos, p)
        }),
    decreases n,
{
    let (s, p) = spec_decode_instruction_elems(b, pos, n)->Some_0;
    if n == 0 {
        assert(spec_concat_instructions(s) =~= b.subrange(pos, p));
    } else {
        let (i, p1) = spec_decode_instruction(b, pos)->Some_0;
        lemma_encode_decode_instruction(b, pos);
        lemma_encode_decode_instruction_elems(b, p1, (n - 1) as nat);
        let (rest, _p2) = spec_decode_instruction_elems(b, p1, (n - 1) as nat)->Some_0;
        assert(s == seq![i] + rest);
        assert(s[0] == i);
        assert(s.drop_first() =~= rest);
        lemma_subrange_glue(b, pos, p1, p);
        assert(spec_concat_instructions(s) == b.subrange(pos, p));
    }
}

pub proof fn lemma_encode_decode_instructions(b: Seq<u8>, pos: int)
    requires
        spec_decode_instructions(b, pos) is Some,
    ensures
        ({
            let (s, p) = spec_decode_instructions(b, pos)->Some_0;
            &&& s.len() <= u32::MAX
            &&& 0 <= pos && pos <= p <= b.len()
            &&& forall|k: int| 0 <= k < s.len() ==> wf_instruction(#[trigger] s[k])
            &&& spec_encode_instructions(s) == b.subrange(pos, p)
        }),
{
    let (n, p1) = spec_decode_u32(b, pos)->Some_0;
    lemma_encode_decode_u32(b, pos);
    lemma_encode_decode_instruction_elems(b, p1, n as nat);
    let (s, p) = spec_decode_instructions(b, pos)->Some_0;
    lemma_subrange_glue(b, pos, p1, p);
    assert(spec_encode_instructions(s) == b.subrange(pos, p));
}

pub proof fn lemma_encode_decode_instruction_group(b: Seq<u8>, pos: int)
    requires
        spec_decode_instruction_group(b, pos) is Some,
    ensures
        ({
            let (g, p) = spec_decode_instruction_group(b, pos)->Some_0;
            &&& 0 <= pos && pos <= p <= b.len()
            &&& wf_instruction_group(g)
            &&& spec_encode_instruction_group(g) == b.subrange(pos, p)
        }),
{
    let (_is, p1) = spec_decode_instructions(b, pos)->Some_0;
    lemma_encode_decode_instructions(b, pos);
    lemma_encode_decode_pubkeys(b, p1);
    let (g, p) = spec_decode_instruction_group(b, pos)->Some_0;
    lemma_subrange_glue(b, pos, p1, p);
    assert(spec_encode_instruction_group(g) == b.subrange(pos, p));
}

pub proof fn lemma_encode_decode_instruction_group_elems(b: Seq<u8>, pos: int, n: nat)
    requires
        0 <= pos <= b.len(),
        spec_decode_instruction_group_elems(b, pos, n) is Some,
    ensures
        ({
            let (s, p) = spec_decode_instruction_group_elems(b, pos, n)->Some_0;
            &&& s.len() == n
            &&& pos <= p <= b.len()
            &&& forall|k: int| 0 <= k < s.len() ==> wf_instruction_group(#[trigger] s[k])
            &&& spec_concat_instruction_groups(s) == b.subrange(pos, p)
        }),
    decreases n,
{
    let (s, p) = spec_decode_instruction_group_elems(b, pos, n)->Some_0;
    if n == 0 {
        assert(spec_concat_instruction_groups(s) =~= b.subrange(pos, p));
    } else {
        let (g, p1) = spec_decode_instruction_group(b, pos)->Some_0;
        lemma_encode_decode_instruction_group(b, pos);
        lemma_encode_decode_instruction_group_elems(b, p1, (n - 1) as nat);
        let (rest, _p2) = spec_decode_instruction_group_elems(b, p1, (n - 1) as nat)->Some_0;
        assert(s == seq![g] + rest);
        assert(s[0] == g);
        assert(s.drop_first() =~= rest);
        lemma_subrange_glue(b, pos, p1, p);
        assert(spec_concat_instruction_groups(s) == b.subrange(pos, p));
    }
}

pub proof fn lemma_encode_decode_instruction_groups(b: Seq<u8>, pos: int)
    requires
        spec_decode_instruction_groups(b, pos) is Some,
    ensures
        ({
            let (s, p) = spec_decode_instruction_groups(b, pos)->Some_0;
            &&& 0 <= pos && pos <= p <= b.len()
            &&& wf_instruction_groups(s)
            &&& spec_encode_instruction_groups(s) == b.subrange(pos, p)
        }),
{
    let (n, p1) = spec_decode_u32(b, pos)->Some_0;
    lemma_encode_decode_u32(b, pos);
    lemma_encode_decode_instruction_group_elems(b, p1, n as nat);
    let (s, p) = spec_decode_instruction_groups(b, pos)->Some_0;
    lemma_subrange_glue(b, pos, p1, p);
    assert(spec_encode_instruction_groups(s) == b.subrange(pos, p));
}

pub proof fn lemma_encode_decode_missing_accounts(b: Seq<u8>, pos: int)
    requires
        spec_decode_missing_accounts(b, pos) is Some,
    ensures
        ({
            let (m, p) = spec_decode_missing_accounts(b, pos)->Some_0;
            &&& 0 <= pos && pos <= p <= b.len()
            &&& wf_missing_accounts(m)
            &&& spec_encode_missing_accounts(m) == b.subrange(pos, p)
        }),
{
    let (_accs, p1) = spec_decode_pubkeys(b, pos)->Some_0;
    lemma_encode_decode_pubkeys(b, pos);
    lemma_encode_decode_pubkeys(b, p1);
    let (m, p) = spec_decode_missing_accounts(b, pos)->Some_0;
    lemma_subrange_glue(b, pos, p1, p);
    assert(spec_encode_missing_accounts(m) == b.subrange(pos, p));
}

/// Whatever decodes is an encoding: a successful decode yields a
/// well-formed outcome whose encoding is exactly the bytes it consumed.
pub proof fn lemma_encode_decode_resolver(b: Seq<u8>, pos: int)
    requires
        spec_decode_resolver(b, pos) is Some,
    ensures
        ({
            let (v, p) = spec_decode_resolver(b, pos)->Some_0;
            &&& 0 <= pos && pos <= p <= b.len()
            &&& wf_resolver(v)
            &&& spec_encode_resolver(v) == b.subrange(pos, p)
        }),
{
    let (v, p) = spec_decode_resolver(b, pos)->Some_0;
    if b[pos] == 0u8 {
        lemma_encode_decode_instruction_groups(b, pos + 1);
        lemma_subrange_glue(b, pos, pos + 1, p);
        assert(seq![0u8] =~= b.subrange(pos, pos + 1));
        assert(spec_encode_resolver(v) == b.subrange(pos, p));
    } else if b[pos] == 1u8 {
        lemma_encode_decode_missing_accounts(b, pos + 1);
        lemma_subrange_glue(b, pos, pos + 1, p);
        assert(seq![1u8] =~= b.subrange(pos, pos + 1));
        assert(spec_encode_resolver(v) == b.subrange(pos, p));
    } else {
        assert(seq![2u8] =~= b.subrange(pos, pos + 1));
        assert(spec_encode_resolver(v) == b.subrange(pos, p));
    }
}

} // verus!
