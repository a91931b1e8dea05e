//! Iterative-resolution tests: the foo → bar → baz dependency chain
//! short-circuits on the first absent record, and resolves to the full plan
//! once every dependency is supplied.

use executor_account_resolver_svm::discriminator::derive_discriminator;
use executor_account_resolver_svm::error::MyError;
use executor_account_resolver_svm::iterative::{
    accounts_to_execute2, decode_my_account, encode_my_account, my_account_tag, MyAccount,
};
use executor_account_resolver_svm::lookup::{find_account, load, missing_account, SuppliedAccount};
use executor_account_resolver_svm::pda::{find_pda, one_seed, two_seeds};
use executor_account_resolver_svm::pubkey::{resolver_pubkey_payer, system_program_id, Pubkey};
use executor_account_resolver_svm::resolver::Resolver;

fn program() -> Pubkey {
    Pubkey::from_bytes([42u8; 32])
}

fn pda1(seed: &[u8]) -> Pubkey {
    find_pda(&one_seed(seed), &program()).expect("derivable")
}

fn pda2(seed: &[u8], byte: u8) -> Pubkey {
    find_pda(&two_seeds(seed, &[byte]), &program()).expect("derivable")
}

fn record(key: Pubkey, content: u8) -> SuppliedAccount {
    let mut data = my_account_tag().to_vec();
    data.push(content);
    SuppliedAccount {
        pubkey: key,
        data,
        lamports: 1_000_000,
        is_writable: false,
    }
}

#[test]
fn derived_keys_differ_from_their_seeds() {
    // The derivation is a real hash: it does not echo its inputs back.
    let foo_key = pda1(b"foo");
    assert_ne!(&foo_key.to_bytes()[..3], b"foo");
    assert_ne!(foo_key, program());
    assert_ne!(foo_key, pda1(b"bar"));
    assert_ne!(pda2(b"bar", 1), pda2(b"bar", 2));
}

#[test]
fn empty_round_asks_for_foo() {
    let r = accounts_to_execute2(&program(), &[]);
    assert_eq!(r, Ok(missing_account(pda1(b"foo"))));
}

#[test]
fn foo_alone_asks_for_bar_derived_from_foo_content() {
    // Only `foo` is supplied: the routine must name bar's derived key alone,
    // not foo's and not baz's.
    let foo = record(pda1(b"foo"), 1);
    let r = accounts_to_execute2(&program(), &[foo]);
    assert_eq!(r, Ok(missing_account(pda2(b"bar", 1))));
}

#[test]
fn foo_and_bar_ask_for_baz_derived_from_bar_content() {
    let foo = record(pda1(b"foo"), 1);
    let bar = record(pda2(b"bar", 1), 2);
    let r = accounts_to_execute2(&program(), &[foo, bar]);
    assert_eq!(r, Ok(missing_account(pda2(b"baz", 2))));
}

#[test]
fn full_chain_resolves_to_the_one_instruction_plan() {
    let foo = record(pda1(b"foo"), 1);
    let bar = record(pda2(b"bar", 1), 2);
    let baz = record(pda2(b"baz", 2), 3);
    let r = accounts_to_execute2(&program(), &[foo, bar, baz]).expect("resolves");
    let groups = match r {
        Resolver::Resolved(groups) => groups.0,
        other => panic!("expected a resolved plan, got {:?}", other),
    };
    assert_eq!(groups.len(), 1);
    let group = &groups[0];
    assert!(group.address_lookup_tables.is_empty());
    assert_eq!(group.instructions.len(), 1);
    let instr = &group.instructions[0];
    assert_eq!(instr.program_id, program());
    assert_eq!(instr.data, derive_discriminator(b"global:example_instruction"));
    let metas = &instr.accounts;
    assert_eq!(metas.len(), 6);
    assert_eq!(metas[0].pubkey, resolver_pubkey_payer());
    assert!(metas[0].is_signer && metas[0].is_writable);
    assert_eq!(metas[1].pubkey, pda1(b"foo"));
    assert_eq!(metas[2].pubkey, pda2(b"bar", 1));
    assert_eq!(metas[3].pubkey, pda2(b"baz", 2));
    assert_eq!(metas[4].pubkey, pda2(b"qux", 3));
    assert!(!metas[4].is_signer && metas[4].is_writable);
    assert_eq!(metas[5].pubkey, system_program_id());
    for m in &metas[1..4] {
        assert!(!m.is_signer && !m.is_writable);
    }
    assert!(!metas[5].is_signer && !metas[5].is_writable);
}

#[test]
fn malformed_present_record_is_fatal_not_missing() {
    // `foo` is present but its type tag is wrong: presence was confirmed, so
    // this is corrupt data, not an absence to report.
    let mut foo = record(pda1(b"foo"), 1);
    foo.data[0] ^= 0xff;
    let r = accounts_to_execute2(&program(), &[foo]);
    assert_eq!(r, Err(MyError::MalformedData));

    // Too short to even hold the tag and one content byte.
    let short = SuppliedAccount {
        pubkey: pda1(b"foo"),
        data: vec![1, 2, 3],
        lamports: 0,
        is_writable: false,
    };
    let r = accounts_to_execute2(&program(), &[short]);
    assert_eq!(r, Err(MyError::MalformedData));
}

#[test]
fn lookup_returns_the_first_match() {
    let a = record(pda1(b"foo"), 1);
    let mut b = record(pda1(b"foo"), 9);
    b.lamports = 7;
    let accs = [a.clone(), b];
    let found = find_account(&accs, pda1(b"foo")).expect("present");
    assert_eq!(found, &a);
    assert!(find_account(&accs, pda1(b"bar")).is_none());
}

#[test]
fn my_account_record_round_trips() {
    let tag = my_account_tag();
    let bytes = encode_my_account(&MyAccount { data: 5 }, &tag);
    assert_eq!(bytes.len(), 9);
    assert_eq!(decode_my_account(&bytes, &tag), Some(MyAccount { data: 5 }));
    let mut wrong = bytes.clone();
    wrong[0] ^= 1;
    assert_eq!(decode_my_account(&wrong, &tag), None);
}

#[test]
fn load_resolves_present_accounts_and_reports_absent_ones() {
    let foo = record(pda1(b"foo"), 1);
    let accs = [foo.clone()];
    match load(&accs, pda1(b"foo")) {
        Resolver::Resolved(a) => assert_eq!(a, &foo),
        other => panic!("expected resolved, got {:?}", other),
    }
    assert_eq!(
        load(&accs, pda1(b"bar")),
        match missing_account(pda1(b"bar")) {
            Resolver::Missing(m) => Resolver::Missing(m),
            _ => unreachable!(),
        }
    );
}
