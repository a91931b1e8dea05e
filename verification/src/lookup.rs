//! Account lookup: given the accounts supplied for the current round,
//! determine whether a target identity is present among them.

use vstd::prelude::*;

use crate::pubkey::{pubkey_eq, Pubkey};
use crate::resolver::{MissingAccounts, Resolver, SpecMissingAccounts, SpecResolver};
use crate::types::InstructionGroups;

verus! {

/// One account made available for the current round, as the resolution
/// routine sees it: its identity, raw content bytes, current funding
/// balance, and whether it was supplied writable.
#[derive(Clone, Debug, PartialEq, Eq)]
pub struct SuppliedAccount {
    pub pubkey: Pubkey,
    pub data: Vec<u8>,
    pub lamports: u64,
    pub is_writable: bool,
}

/// Mathematical model of [`SuppliedAccount`].
#[verifier::ext_equal]
pub struct SpecSuppliedAccount {
    pub pubkey: Seq<u8>,
    pub data: Seq<u8>,
    pub lamports: u64,
    pub is_writable: bool,
}

impl View for SuppliedAccount {
    type V = SpecSuppliedAccount;

    open spec fn view(&self) -> SpecSuppliedAccount {
        SpecSuppliedAccount {
            pubkey: self.pubkey@,
            data: self.data@,
            lamports: self.lamports,
            is_writable: self.is_writable,
        }
    }
}

impl DeepView for SuppliedAccount {
    type V = SpecSuppliedAccount;

    open spec fn deep_view(&self) -> SpecSuppliedAccount {
        self@
    }
}

/// The first supplied account whose identity equals `key`, if any. Lookup
/// assumes no ordering on the supplied accounts; the caller-controlled order
/// only breaks ties between duplicates.
pub open spec fn spec_find_account(accs: Seq<SpecSuppliedAccount>, key: Seq<u8>) -> Option<
    SpecSuppliedAccount,
>
    decreases accs.len(),
{
    if accs.len() == 0 {
        None
    } else if accs[0].pubkey == key {
        Some(accs[0])
    } else {
        spec_find_account(accs.drop_first(), key)
    }
}

/// Finds `pubkey` among the supplied accounts by a linear scan on identity
/// equality, returning the first match.
#[verifier::loop_isolation(false)]
pub fn find_account<'c>(accs: &'c [SuppliedAccount], pubkey: Pubkey) -> (r: Option<
    &'c SuppliedAccount,
>)
    ensures
        match r {
            Some(a) => spec_find_account(accs.deep_view(), pubkey@) == Some(a@),
            None => spec_find_account(accs.deep_view(), pubkey@) is None,
        },
{
    let ghost s = accs.deep_view();
    proof {
        assert(s.skip(0) =~= s);
    }
    let mut i: usize = 0;
    while i < accs.len()
        invariant
            i <= accs@.len(),
            spec_find_account(s, pubkey@) == spec_find_account(s.skip(i as int), pubkey@),
        decreases accs@.len() - i,
    {
        let a = vstd::slice::slice_index_get(accs, i);
        proof {
            assert(s.skip(i as int)[0] == s[i as int]);
            assert(s.skip(i as int).drop_first() =~= s.skip(i + 1));
        }
        if pubkey_eq(&a.pubkey, &pubkey) {
            return Some(a);
        }
        i += 1;
    }
    proof {
        assert(s.skip(s.len() as int) =~= Seq::<SpecSuppliedAccount>::empty());
    }
    None
}

/// The residual naming exactly one missing account and no lookup tables.
pub open spec fn spec_missing_account(key: Seq<u8>) -> SpecResolver<Seq<crate::types::SpecInstructionGroup>> {
    SpecResolver::Missing(
        SpecMissingAccounts { accounts: seq![key], address_lookup_tables: Seq::empty() },
    )
}

/// The outcome that asks the caller to supply the single account `pubkey`
/// before the next round.
pub fn missing_account(pubkey: Pubkey) -> (r: Resolver<InstructionGroups>)
    ensures
        r@ == spec_missing_account(pubkey@),
{
    let mut accounts: Vec<Pubkey> = Vec::new();
    accounts.push(pubkey);
    let r = Resolver::Missing(
        MissingAccounts { accounts, address_lookup_tables: Vec::new() },
    );
    proof {
        let m = r@->Missing_0;
        assert(m.accounts =~= seq![pubkey@]);
        assert(m.address_lookup_tables =~= Seq::<Seq<u8>>::empty());
    }
    r
}

/// Loads the account `pubkey` from the supplied accounts: `Resolved` with a
/// reference to it when present, else `Missing` naming exactly that account.
pub fn load<'c>(accs: &'c [SuppliedAccount], pubkey: Pubkey) -> (r: Resolver<&'c SuppliedAccount>)
    ensures
        match spec_find_account(accs.deep_view(), pubkey@) {
            Some(a) => r matches Resolver::Resolved(got) && got@ == a,
            None => r@ == SpecResolver::<SpecSuppliedAccount>::Missing(
                SpecMissingAccounts {
                    accounts: seq![pubkey@],
                    address_lookup_tables: Seq::empty(),
                },
            ),
        },
{
    match find_account(accs, pubkey) {
        Some(a) => Resolver::Resolved(a),
        None => {
            let mut accounts: Vec<Pubkey> = Vec::new();
            accounts.push(pubkey);
            let r = Resolver::Missing(
                MissingAccounts { accounts, address_lookup_tables: Vec::new() },
            );
            proof {
                let m = r@->Missing_0;
                assert(m.accounts =~= seq![pubkey@]);
                assert(m.address_lookup_tables =~= Seq::<Seq<u8>>::empty());
            }
            r
        },
    }
}

} // verus!
