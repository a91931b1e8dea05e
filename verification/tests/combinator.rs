//! Composition-algebra tests: the `pair` combinator's merge table on
//! concrete values, the identity of `Resolved`, commutativity of which side
//! is missing, and placeholder identities.

use executor_account_resolver_svm::pubkey::{
    resolver_pubkey_keypair, resolver_pubkey_payer, resolver_pubkey_posted_vaa,
    resolver_pubkey_shim_vaa_sigs, system_program_id, pubkey_eq, Pubkey,
};
use executor_account_resolver_svm::resolver::{pair, MissingAccounts, Resolver};

fn key(byte: u8) -> Pubkey {
    Pubkey::from_bytes([byte; 32])
}

fn missing(keys: &[Pubkey], luts: &[Pubkey]) -> MissingAccounts {
    MissingAccounts {
        accounts: keys.to_vec(),
        address_lookup_tables: luts.to_vec(),
    }
}

#[test]
fn pair_of_resolved_sides_tuples_the_payloads() {
    let r = pair(Resolver::Resolved(1u32), Resolver::Resolved(2u64));
    assert_eq!(r, Resolver::Resolved((1u32, 2u64)));
}

#[test]
fn pair_keeps_the_single_missing_side() {
    let m = missing(&[key(1)], &[]);
    let r = pair(Resolver::Resolved(5u32), Resolver::<u64>::Missing(m.clone()));
    assert_eq!(r, Resolver::Missing(m.clone()));
    let l = pair(
        Resolver::<u32>::Missing(m.clone()),
        Resolver::Resolved(5u32),
    );
    assert_eq!(l, Resolver::Missing(m));
}

#[test]
fn pair_concatenates_two_missing_sides_in_order() {
    let a = missing(&[key(1), key(2)], &[key(8)]);
    let b = missing(&[key(2), key(3)], &[key(9), key(8)]);
    let r = pair(
        Resolver::<u32>::Missing(a),
        Resolver::<u64>::Missing(b),
    );
    // Concatenation, not deduplication: duplicates stay, order is "first
    // argument's residual, then second's".
    assert_eq!(
        r,
        Resolver::Missing(missing(
            &[key(1), key(2), key(2), key(3)],
            &[key(8), key(9), key(8)],
        ))
    );
}

#[test]
fn pair_is_commutative_up_to_order() {
    let a = missing(&[key(1), key(2)], &[key(8)]);
    let b = missing(&[key(3)], &[key(9)]);
    let ab = pair(
        Resolver::<u32>::Missing(a.clone()),
        Resolver::<u64>::Missing(b.clone()),
    );
    let ba = pair(Resolver::<u64>::Missing(b), Resolver::<u32>::Missing(a));
    let (m_ab, m_ba) = match (ab, ba) {
        (Resolver::Missing(x), Resolver::Missing(y)) => (x, y),
        _ => panic!("both sides must be missing"),
    };
    // Same multiset of accounts, same set of lookup tables.
    let mut xs = m_ab.accounts.clone();
    let mut ys = m_ba.accounts.clone();
    xs.sort_by_key(|k| k.to_bytes());
    ys.sort_by_key(|k| k.to_bytes());
    assert_eq!(xs, ys);
    for l in &m_ab.address_lookup_tables {
        assert!(m_ba.address_lookup_tables.iter().any(|o| o == l));
    }
    for l in &m_ba.address_lookup_tables {
        assert!(m_ab.address_lookup_tables.iter().any(|o| o == l));
    }
}

#[test]
fn pair_is_associative_on_missing_sides() {
    let a = missing(&[key(1)], &[key(7)]);
    let b = missing(&[key(2)], &[key(8)]);
    let c = missing(&[key(3)], &[key(9)]);
    let left = pair(
        pair(
            Resolver::<u8>::Missing(a.clone()),
            Resolver::<u8>::Missing(b.clone()),
        ),
        Resolver::<u8>::Missing(c.clone()),
    );
    let right = pair(
        Resolver::<u8>::Missing(a),
        pair(Resolver::<u8>::Missing(b), Resolver::<u8>::Missing(c)),
    );
    let (ml, mr) = match (left, right) {
        (Resolver::Missing(x), Resolver::Missing(y)) => (x, y),
        _ => panic!("both sides must be missing"),
    };
    assert_eq!(ml, mr);
}

#[test]
fn pair_pending_dominates() {
    let m = missing(&[key(1)], &[]);
    assert_eq!(
        pair(Resolver::<u8>::Pending, Resolver::<u8>::Missing(m.clone())),
        Resolver::Pending
    );
    assert_eq!(
        pair(Resolver::<u8>::Missing(m), Resolver::<u8>::Pending),
        Resolver::Pending
    );
    assert_eq!(
        pair(Resolver::Resolved(1u8), Resolver::<u8>::Pending),
        Resolver::Pending
    );
}

#[test]
fn placeholder_identities_use_their_published_patterns() {
    assert_eq!(
        resolver_pubkey_payer().to_bytes(),
        *b"payer_00000000000000000000000000"
    );
    assert_eq!(
        resolver_pubkey_posted_vaa().to_bytes(),
        *b"posted_vaa_000000000000000000000"
    );
    assert_eq!(
        resolver_pubkey_shim_vaa_sigs().to_bytes(),
        *b"shim_vaa_sigs_000000000000000000"
    );
    assert_eq!(
        resolver_pubkey_keypair(0).to_bytes(),
        *b"keypair_00_000000000000000000000"
    );
    assert_eq!(
        resolver_pubkey_keypair(9).to_bytes(),
        *b"keypair_09_000000000000000000000"
    );
    assert_eq!(system_program_id().to_bytes(), [0u8; 32]);
}

#[test]
fn pubkey_equality_is_byte_exact() {
    assert!(pubkey_eq(&key(5), &key(5)));
    assert!(!pubkey_eq(&key(5), &key(6)));
    let mut almost = [5u8; 32];
    almost[31] = 6;
    assert!(!pubkey_eq(&key(5), &Pubkey::from_bytes(almost)));
}
