//! The payload types of a resolved execution plan, with their mathematical
//! models and the well-formedness every encodable value satisfies.

use vstd::prelude::*;

use crate::pubkey::Pubkey;
use crate::resolver::{SpecMissingAccounts, SpecResolver};

verus! {

/// One account required by an instruction: its identity and whether the
/// target program expects it to sign or be written. Position in the
/// instruction's account list is significant.
#[derive(Clone, Debug, PartialEq, Eq)]
pub struct SerializableAccountMeta {
    pub pubkey: Pubkey,
    pub is_signer: bool,
    pub is_writable: bool,
}

/// Mathematical model of [`SerializableAccountMeta`].
#[verifier::ext_equal]
pub struct SpecAccountMeta {
    pub pubkey: Seq<u8>,
    pub is_signer: bool,
    pub is_writable: bool,
}

impl View for SerializableAccountMeta {
    type V = SpecAccountMeta;

    open spec fn view(&self) -> SpecAccountMeta {
        SpecAccountMeta {
            pubkey: self.pubkey@,
            is_signer: self.is_signer,
            is_writable: self.is_writable,
        }
    }
}

impl DeepView for SerializableAccountMeta {
    type V = SpecAccountMeta;

    open spec fn deep_view(&self) -> SpecAccountMeta {
        self@
    }
}

/// One instruction of the execution plan: the program to call, the ordered
/// accounts it takes, and its argument bytes.
#[derive(Clone, Debug, PartialEq, Eq)]
pub struct SerializableInstruction {
    pub program_id: Pubkey,
    pub accounts: Vec<SerializableAccountMeta>,
    pub data: Vec<u8>,
}

/// Mathematical model of [`SerializableInstruction`].
#[verifier::ext_equal]
pub struct SpecInstruction {
    pub program_id: Seq<u8>,
    pub accounts: Seq<SpecAccountMeta>,
    pub data: Seq<u8>,
}

impl View for SerializableInstruction {
    type V = SpecInstruction;

    open spec fn view(&self) -> SpecInstruction {
        SpecInstruction {
            program_id: self.program_id@,
            accounts: self.accounts.deep_view(),
            data: self.data@,
        }
    }
}

impl DeepView for SerializableInstruction {
    type V = SpecInstruction;

    open spec fn deep_view(&self) -> SpecInstruction {
        self@
    }
}

/// Instructions intended to execute together, with the lookup tables that
/// compress addressing for their accounts.
#[derive(Clone, Debug, PartialEq, Eq)]
pub struct InstructionGroup {
    pub instructions: Vec<SerializableInstruction>,
    pub address_lookup_tables: Vec<Pubkey>,
}

/// Mathematical model of [`InstructionGroup`].
#[verifier::ext_equal]
pub struct SpecInstructionGroup {
    pub instructions: Seq<SpecInstruction>,
    pub address_lookup_tables: Seq<Seq<u8>>,
}

impl View for InstructionGroup {
    type V = SpecInstructionGroup;

    open spec fn view(&self) -> SpecInstructionGroup {
        SpecInstructionGroup {
            instructions: self.instructions.deep_view(),
            address_lookup_tables: self.address_lookup_tables.deep_view(),
        }
    }
}

impl DeepView for InstructionGroup {
    type V = SpecInstructionGroup;

    open spec fn deep_view(&self) -> SpecInstructionGroup {
        self@
    }
}

/// The full resolved execution plan: groups in the order they must be
/// submitted.
#[derive(Clone, Debug, PartialEq, Eq)]
pub struct InstructionGroups(pub Vec<InstructionGroup>);

impl View for InstructionGroups {
    type V = Seq<SpecInstructionGroup>;

    open spec fn view(&self) -> Seq<SpecInstructionGroup> {
        self.0.deep_view()
    }
}

impl DeepView for InstructionGroups {
    type V = Seq<SpecInstructionGroup>;

    open spec fn deep_view(&self) -> Seq<SpecInstructionGroup> {
        self@
    }
}

/// An identity model is well formed when it has the fixed 32-byte width.
pub open spec fn wf_pubkey(p: Seq<u8>) -> bool {
    p.len() == 32
}

pub open spec fn wf_account_meta(m: SpecAccountMeta) -> bool {
    wf_pubkey(m.pubkey)
}

/// An instruction model is well formed when its identities have the fixed
/// width and its dynamic sequences fit a 4-byte element count.
pub open spec fn wf_instruction(i: SpecInstruction) -> bool {
    &&& wf_pubkey(i.program_id)
    &&& i.accounts.len() <= u32::MAX
    &&& i.data.len() <= u32::MAX
    &&& forall|k: int| 0 <= k < i.accounts.len() ==> wf_account_meta(#[trigger] i.accounts[k])
}

pub open spec fn wf_instruction_group(g: SpecInstructionGroup) -> bool {
    &&& g.instructions.len() <= u32::MAX
    &&& g.address_lookup_tables.len() <= u32::MAX
    &&& forall|k: int| 0 <= k < g.instructions.len() ==> wf_instruction(#[trigger] g.instructions[k])
    &&& forall|k: int|
        0 <= k < g.address_lookup_tables.len() ==> wf_pubkey(#[trigger] g.address_lookup_tables[k])
}

pub open spec fn wf_instruction_groups(s: Seq<SpecInstructionGroup>) -> bool {
    &&& s.len() <= u32::MAX
    &&& forall|k: int| 0 <= k < s.len() ==> wf_instruction_group(#[trigger] s[k])
}

pub open spec fn wf_missing_accounts(m: SpecMissingAccounts) -> bool {
    &&& m.accounts.len() <= u32::MAX
    &&& m.address_lookup_tables.len() <= u32::MAX
    &&& forall|k: int| 0 <= k < m.accounts.len() ==> wf_pubkey(#[trigger] m.accounts[k])
    &&& forall|k: int|
        0 <= k < m.address_lookup_tables.len() ==> wf_pubkey(#[trigger] m.address_lookup_tables[k])
}

/// A resolution outcome is well formed when whatever it carries is.
pub open spec fn wf_resolver(r: SpecResolver<Seq<SpecInstructionGroup>>) -> bool {
    match r {
        SpecResolver::Resolved(groups) => wf_instruction_groups(groups),
        SpecResolver::Missing(m) => wf_missing_accounts(m),
        SpecResolver::Pending => true,
    }
}

} // verus!
