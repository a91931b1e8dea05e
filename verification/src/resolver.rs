//! The three-state resolution outcome and its composition algebra.
//!
//! A resolution routine either finishes with a payload (`Resolved`), names
//! the accounts another round must supply (`Missing`), or directs the driver
//! to read the answer from the side-channel record (`Pending`). Dependent
//! lookups short-circuit: the first non-`Resolved` step aborts the routine
//! and propagates unchanged. Independent lookups combine with [`pair`], which
//! attempts both sides and merges their residuals.

use vstd::prelude::*;
use vstd::seq_lib::lemma_multiset_commutative;

use crate::pubkey::Pubkey;

verus! {

/// Accounts the caller must supply before the next round can make progress.
///
/// `accounts` is ordered by discovery and may contain duplicates; the
/// `address_lookup_tables` list realizes a set of lookup tables the caller
/// should pre-load (duplicates are tolerated, the set is its meaning).
#[derive(Clone, Debug, PartialEq, Eq)]
pub struct MissingAccounts {
    pub accounts: Vec<Pubkey>,
    pub address_lookup_tables: Vec<Pubkey>,
}

/// Mathematical model of [`MissingAccounts`]: the identities as byte
/// sequences, in the same order.
#[verifier::ext_equal]
pub struct SpecMissingAccounts {
    pub accounts: Seq<Seq<u8>>,
    pub address_lookup_tables: Seq<Seq<u8>>,
}

impl View for MissingAccounts {
    type V = SpecMissingAccounts;

    open spec fn view(&self) -> SpecMissingAccounts {
        SpecMissingAccounts {
            accounts: self.accounts.deep_view(),
            address_lookup_tables: self.address_lookup_tables.deep_view(),
        }
    }
}

/// The outcome of one resolution round.
#[derive(Clone, Debug, PartialEq, Eq)]
pub enum Resolver<T> {
    /// The payload is final.
    Resolved(T),
    /// Another round is required with the listed accounts supplied.
    Missing(MissingAccounts),
    /// The answer does not fit in the direct return channel; the driver must
    /// read it from the side-channel record.
    Pending,
}

/// Mathematical model of [`Resolver`], over the payload's own model `V`.
#[verifier::ext_equal]
pub enum SpecResolver<V> {
    Resolved(V),
    Missing(SpecMissingAccounts),
    Pending,
}

impl<T: View> View for Resolver<T> {
    type V = SpecResolver<T::V>;

    open spec fn view(&self) -> SpecResolver<T::V> {
        match self {
            Resolver::Resolved(t) => SpecResolver::Resolved(t@),
            Resolver::Missing(m) => SpecResolver::Missing(m@),
            Resolver::Pending => SpecResolver::Pending,
        }
    }
}

/// The merge of two residuals: account lists concatenate (first argument's
/// residual first, duplicates preserved), lookup-table lists concatenate,
/// which realizes the union of the two sets.
pub open spec fn spec_merge_missing(
    a: SpecMissingAccounts,
    b: SpecMissingAccounts,
) -> SpecMissingAccounts {
    SpecMissingAccounts {
        accounts: a.accounts + b.accounts,
        address_lookup_tables: a.address_lookup_tables + b.address_lookup_tables,
    }
}

/// The independent-composition combinator on models: both sides are
/// attempted; `Pending` on either side dominates, two `Missing` residuals
/// merge, and one `Missing` residual propagates unchanged.
pub open spec fn spec_pair<A, B>(a: SpecResolver<A>, b: SpecResolver<B>) -> SpecResolver<(A, B)> {
    match (a, b) {
        (SpecResolver::Pending, _) => SpecResolver::Pending,
        (_, SpecResolver::Pending) => SpecResolver::Pending,
        (SpecResolver::Resolved(x), SpecResolver::Resolved(y)) => SpecResolver::Resolved((x, y)),
        (SpecResolver::Missing(m), SpecResolver::Resolved(_)) => SpecResolver::Missing(m),
        (SpecResolver::Resolved(_), SpecResolver::Missing(m)) => SpecResolver::Missing(m),
        (SpecResolver::Missing(ma), SpecResolver::Missing(mb)) => SpecResolver::Missing(
            spec_merge_missing(ma, mb),
        ),
    }
}

/// Merges two residuals as [`spec_merge_missing`] describes.
pub fn merge_missing(a: MissingAccounts, b: MissingAccounts) -> (r: MissingAccounts)
    ensures
        r@.accounts == spec_merge_missing(a@, b@).accounts,
        r@.address_lookup_tables == spec_merge_missing(a@, b@).address_lookup_tables,
{
    let mut accounts = a.accounts;
    let mut luts = a.address_lookup_tables;
    let mut b_accounts = b.accounts;
    let mut b_luts = b.address_lookup_tables;
    accounts.append(&mut b_accounts);
    luts.append(&mut b_luts);
    let r = MissingAccounts { accounts, address_lookup_tables: luts };
    proof {
        assert(r@.accounts =~= spec_merge_missing(a@, b@).accounts);
        assert(r@.address_lookup_tables =~= spec_merge_missing(a@, b@).address_lookup_tables);
    }
    r
}

/// Composes two independent lookups: both are attempted even if one is
/// missing, so one round can report both requirements at once.
pub fn pair<T: View, U: View>(a: Resolver<T>, b: Resolver<U>) -> (r: Resolver<(T, U)>)
    ensures
        r@ == spec_pair(a@, b@),
{
    match (a, b) {
        (Resolver::Pending, _) => Resolver::Pending,
        (_, Resolver::Pending) => Resolver::Pending,
        (Resolver::Resolved(x), Resolver::Resolved(y)) => Resolver::Resolved((x, y)),
        (Resolver::Missing(m), Resolver::Resolved(_)) => Resolver::Missing(m),
        (Resolver::Resolved(_), Resolver::Missing(m)) => Resolver::Missing(m),
        (Resolver::Missing(ma), Resolver::Missing(mb)) => Resolver::Missing(
            merge_missing(ma, mb),
        ),
    }
}

/// Re-associates the payload of a composed outcome, leaving residuals alone.
pub open spec fn spec_reassoc<A, B, C>(r: SpecResolver<((A, B), C)>) -> SpecResolver<(A, (B, C))> {
    match r {
        SpecResolver::Resolved(((x, y), z)) => SpecResolver::Resolved((x, (y, z))),
        SpecResolver::Missing(m) => SpecResolver::Missing(m),
        SpecResolver::Pending => SpecResolver::Pending,
    }
}

/// Associativity of [`spec_pair`]: composing three outcomes groups either
/// way, up to re-association of the resolved payload; the merged account
/// lists and lookup-table lists are identical.
pub proof fn lemma_pair_associative<A, B, C>(
    a: SpecResolver<A>,
    b: SpecResolver<B>,
    c: SpecResolver<C>,
)
    ensures
        spec_reassoc(spec_pair(spec_pair(a, b), c)) == spec_pair(a, spec_pair(b, c)),
{
    match (a, b, c) {
        (SpecResolver::Missing(ma), SpecResolver::Missing(mb), SpecResolver::Missing(mc)) => {
            assert((ma.accounts + mb.accounts) + mc.accounts =~= ma.accounts + (mb.accounts
                + mc.accounts));
            assert((ma.address_lookup_tables + mb.address_lookup_tables)
                + mc.address_lookup_tables =~= ma.address_lookup_tables
                + (mb.address_lookup_tables + mc.address_lookup_tables));
        },
        _ => {},
    }
}

/// `Resolved` is a left identity for the residual: pairing a resolved
/// outcome on the left leaves the right side's residual unchanged and
/// tuples the payloads.
pub proof fn lemma_pair_left_identity<A, B>(x: A, b: SpecResolver<B>)
    ensures
        spec_pair(SpecResolver::Resolved(x), b) == match b {
            SpecResolver::Resolved(y) => SpecResolver::Resolved((x, y)),
            SpecResolver::Missing(m) => SpecResolver::Missing(m),
            SpecResolver::Pending => SpecResolver::Pending,
        },
{
}

/// `Resolved` is a right identity for the residual, symmetrically.
pub proof fn lemma_pair_right_identity<A, B>(a: SpecResolver<A>, y: B)
    ensures
        spec_pair(a, SpecResolver::Resolved(y)) == match a {
            SpecResolver::Resolved(x) => SpecResolver::Resolved((x, y)),
            SpecResolver::Missing(m) => SpecResolver::Missing(m),
            SpecResolver::Pending => SpecResolver::Pending,
        },
{
}

/// Commutativity of [`spec_pair`] up to order: swapping the sides produces
/// the same variant, the same resolved payloads, the same multiset of
/// missing accounts, and the same set of lookup tables; only the documented
/// concatenation order of the merged lists differs.
pub proof fn lemma_pair_commutative<A, B>(a: SpecResolver<A>, b: SpecResolver<B>)
    ensures
        spec_pair(a, b) is Pending <==> spec_pair(b, a) is Pending,
        spec_pair(a, b) is Resolved <==> spec_pair(b, a) is Resolved,
        spec_pair(a, b) matches SpecResolver::Resolved(p) ==> spec_pair(b, a) == SpecResolver::<(
            B,
            A,
        )>::Resolved((p.1, p.0)),
        spec_pair(a, b) is Missing <==> spec_pair(b, a) is Missing,
        spec_pair(a, b) is Missing && spec_pair(b, a) is Missing ==> {
            let m1 = spec_pair(a, b)->Missing_0;
            let m2 = spec_pair(b, a)->Missing_0;
            &&& m1.accounts.to_multiset() == m2.accounts.to_multiset()
            &&& m1.address_lookup_tables.to_set() == m2.address_lookup_tables.to_set()
        },
{
    if a is Missing && b is Missing {
        let ma = a->Missing_0;
        let mb = b->Missing_0;
        lemma_multiset_commutative(ma.accounts, mb.accounts);
        lemma_multiset_commutative(mb.accounts, ma.accounts);
        assert(ma.address_lookup_tables.to_set() + mb.address_lookup_tables.to_set()
            =~= mb.address_lookup_tables.to_set() + ma.address_lookup_tables.to_set());
        vstd::seq_lib::seq_to_set_distributes_over_add(
            ma.address_lookup_tables,
            mb.address_lookup_tables,
        );
        vstd::seq_lib::seq_to_set_distributes_over_add(
            mb.address_lookup_tables,
            ma.address_lookup_tables,
        );
    }
}

} // verus!
