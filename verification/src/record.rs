//! The side-channel record: a persisted container holding a resolution
//! outcome behind a fixed 8-byte type tag.
//!
//! When a round's true answer cannot fit in the direct return channel, the
//! routine overwrites this record and returns `Pending`; any reader locates
//! the record at its deterministic address, verifies the tag, and decodes
//! the outcome. A record is created minimally sized and grown across rounds,
//! so its bytes may extend past the encoded content; decoding ignores the
//! padding.

use vstd::prelude::*;

use crate::codec::{
    spec_decode_resolver, spec_encode_resolver,
};
use crate::discriminator::spec_resolver_result_account;
use crate::error::MyError;
use crate::resolver::{Resolver, SpecResolver};
use crate::types::{wf_resolver, InstructionGroups, SpecInstructionGroup};

verus! {

/// The encoded size of the minimal record content,
/// `Resolved` of an empty execution plan: 1 tag byte + a 4-byte zero count.
/// A freshly created record is pre-sized to hold exactly this (plus the
/// 8-byte type tag ahead of it).
pub const RESOLVER_RESULT_ACCOUNT_INIT_SIZE: usize = 5;

/// The minimal outcome `Resolved` of an empty plan encodes to exactly
/// [`RESOLVER_RESULT_ACCOUNT_INIT_SIZE`] bytes.
pub proof fn lemma_init_size_is_minimal_record()
    ensures
        spec_encode_resolver(
            SpecResolver::Resolved(Seq::<SpecInstructionGroup>::empty()),
        ).len() == RESOLVER_RESULT_ACCOUNT_INIT_SIZE,
{
    vstd::bytes::lemma_auto_spec_u32_to_from_le_bytes();
}

/// The byte layout of the record: the fixed type tag, then the outcome.
pub open spec fn spec_encode_record(r: SpecResolver<Seq<SpecInstructionGroup>>) -> Seq<u8> {
    spec_resolver_result_account() + spec_encode_resolver(r)
}

/// Reading a record back from its raw bytes: the type tag must be present
/// and right (else the record is of another type entirely), and the bytes
/// after it must decode as an outcome (else the record is corrupt); bytes
/// past the outcome are padding from growth and are ignored.
pub open spec fn spec_decode_record(b: Seq<u8>) -> Result<
    SpecResolver<Seq<SpecInstructionGroup>>,
    MyError,
> {
    if b.len() < 8 || b.take(8) != spec_resolver_result_account() {
        Err(MyError::IdentityMismatch)
    } else {
        match spec_decode_resolver(b, 8) {
            None => Err(MyError::MalformedData),
            Some((v, _)) => Ok(v),
        }
    }
}

/// A side-channel record's content: a resolution outcome, persisted under
/// the record type tag.
#[derive(Clone, Debug, PartialEq, Eq)]
pub struct ExecutorAccountResolverResult(pub Resolver<InstructionGroups>);

impl View for ExecutorAccountResolverResult {
    type V = SpecResolver<Seq<SpecInstructionGroup>>;

    open spec fn view(&self) -> SpecResolver<Seq<SpecInstructionGroup>> {
        self.0@
    }
}

impl ExecutorAccountResolverResult {
    /// Serializes the record content: the type tag followed by the encoded
    /// outcome.
    pub fn encode(&self) -> (out: Vec<u8>)
        requires
            wf_resolver(self@),
        ensures
            out@ == spec_encode_record(self@),
    {
        let tag = crate::discriminator::resolver_result_account();
        let mut out = vstd::slice::slice_to_vec(tag.as_slice());
        let mut body = crate::encode::encode_resolver(&self.0);
        out.append(&mut body);
        proof {
            assert(out@ =~= spec_encode_record(self@));
        }
        out
    }

    /// Reads a record back from its raw bytes: verifies the type tag, then
    /// decodes the outcome, ignoring any padding past it. Fails with
    /// `IdentityMismatch` exactly when the tag is absent or wrong, and with
    /// `MalformedData` exactly when the tag is right but the bytes after it
    /// are not a valid encoding.
    pub fn decode(b: &[u8]) -> (r: Result<ExecutorAccountResolverResult, MyError>)
        ensures
            match r {
                Ok(v) => spec_decode_record(b@) == Ok::<
                    SpecResolver<Seq<SpecInstructionGroup>>,
                    MyError,
                >(v@),
                Err(e) => spec_decode_record(b@) == Err::<
                    SpecResolver<Seq<SpecInstructionGroup>>,
                    MyError,
                >(e),
            },
    {
        if b.len() < 8 {
            return Err(MyError::IdentityMismatch);
        }
        let tag = crate::discriminator::resolver_result_account();
        let mut i: usize = 0;
        while i < 8
            invariant
                i <= 8,
                b@.len() >= 8,
                tag@ == spec_resolver_result_account(),
                forall|j: int| 0 <= j < i ==> b@[j] == tag@[j],
            decreases 8 - i,
        {
            if *vstd::slice::slice_index_get(b, i) != tag[i] {
                proof {
                    assert(b@.take(8)[i as int] != spec_resolver_result_account()[i as int]);
                }
                return Err(MyError::IdentityMismatch);
            }
            i += 1;
        }
        proof {
            assert(b@.take(8) =~= spec_resolver_result_account());
        }
        match crate::decode::decode_resolver(b, 8) {
            None => Err(MyError::MalformedData),
            Some((v, _)) => Ok(ExecutorAccountResolverResult(v)),
        }
    }
}

} // verus!
