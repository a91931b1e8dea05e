//! Overflow-protocol tests: the round-count-keyed dispatch, the record
//! writes of the two filling rounds, the growth arithmetic, and the fatal
//! protocol errors.

use executor_account_resolver_svm::discriminator::{
    derive_discriminator, resolver_result_account, resolver_result_account_seed,
};
use executor_account_resolver_svm::encode::encode_resolver;
use executor_account_resolver_svm::error::MyError;
use executor_account_resolver_svm::growth::{
    funding_shortfall, grown_record_size, grown_size, MAX_PERMITTED_DATA_INCREASE,
    MAX_PERMITTED_DATA_LENGTH,
};
use executor_account_resolver_svm::lookup::SuppliedAccount;
use executor_account_resolver_svm::lut_resolver::{decode_lut, encode_lut, lut_tag, resolve_execute_vaa_v1, LUT};
use executor_account_resolver_svm::pda::{derive_indexed_keys, find_pda, one_seed};
use executor_account_resolver_svm::pubkey::{resolver_pubkey_payer, system_program_id, Pubkey};
use executor_account_resolver_svm::resolver::Resolver;
use executor_account_resolver_svm::types::InstructionGroups;

fn program() -> Pubkey {
    Pubkey::from_bytes([13u8; 32])
}

fn lut_address() -> Pubkey {
    Pubkey::from_bytes([77u8; 32])
}

/// The lookup-table pointer account: tag, bump, table address.
fn lut_account() -> SuppliedAccount {
    let mut data = lut_tag().to_vec();
    data.push(255);
    data.extend_from_slice(&lut_address().to_bytes());
    SuppliedAccount {
        pubkey: find_pda(&one_seed(b"lut"), &program()).expect("derivable"),
        data,
        lamports: 1_000_000,
        is_writable: false,
    }
}

/// A freshly initialized side-channel record: its tag over the minimal
/// resolved-empty content.
fn record_account(lamports: u64) -> SuppliedAccount {
    let mut data = resolver_result_account().to_vec();
    let empty: Resolver<InstructionGroups> = Resolver::Resolved(InstructionGroups(vec![]));
    data.extend_from_slice(&encode_resolver(&empty));
    SuppliedAccount {
        pubkey: find_pda(&one_seed(&resolver_result_account_seed()), &program())
            .expect("derivable"),
        data,
        lamports,
        is_writable: true,
    }
}

fn payer_account() -> SuppliedAccount {
    SuppliedAccount {
        pubkey: resolver_pubkey_payer(),
        data: vec![],
        lamports: 10_000_000,
        is_writable: true,
    }
}

fn system_account() -> SuppliedAccount {
    SuppliedAccount {
        pubkey: system_program_id(),
        data: vec![],
        lamports: 1,
        is_writable: false,
    }
}

fn bootstrap(record_lamports: u64) -> Vec<SuppliedAccount> {
    vec![
        lut_account(),
        record_account(record_lamports),
        payer_account(),
        system_account(),
    ]
}

fn dummy(byte: u8) -> SuppliedAccount {
    SuppliedAccount {
        pubkey: Pubkey::from_bytes([byte; 32]),
        data: vec![],
        lamports: 0,
        is_writable: false,
    }
}

const RENT_MIN: u64 = 2_000_000;

#[test]
fn empty_round_names_exactly_the_four_bootstrap_identities() {
    let r = resolve_execute_vaa_v1(&program(), &[], RENT_MIN).expect("phase zero");
    let (direct, update) = r;
    assert!(update.is_none());
    let m = match direct {
        Resolver::Missing(m) => m,
        other => panic!("expected missing, got {:?}", other),
    };
    assert_eq!(
        m.accounts,
        vec![
            find_pda(&one_seed(b"lut"), &program()).unwrap(),
            find_pda(&one_seed(&resolver_result_account_seed()), &program()).unwrap(),
            resolver_pubkey_payer(),
            system_program_id(),
        ]
    );
    assert!(m.address_lookup_tables.is_empty());
}

#[test]
fn bootstrap_round_writes_the_candidate_set_and_returns_pending() {
    let accounts = bootstrap(1_000_000);
    let record_len = accounts[1].data.len() as u64;
    let r = resolve_execute_vaa_v1(&program(), &accounts, RENT_MIN).expect("phase one");
    let (direct, update) = r;
    assert_eq!(direct, Resolver::Pending);
    let update = update.expect("record write");
    assert_eq!(update.new_size, record_len + MAX_PERMITTED_DATA_INCREASE);
    assert_eq!(update.fund_lamports, RENT_MIN - 1_000_000);
    let m = match update.content {
        Resolver::Missing(m) => m,
        other => panic!("expected missing content, got {:?}", other),
    };
    let expected = derive_indexed_keys(&program(), 0, 64).expect("derivable");
    assert_eq!(m.accounts.len(), 64);
    assert_eq!(m.accounts, expected);
    assert_eq!(m.address_lookup_tables, vec![lut_address()]);
}

#[test]
fn full_round_writes_the_final_plan_and_returns_pending() {
    let mut accounts = bootstrap(RENT_MIN + 5);
    for k in derive_indexed_keys(&program(), 0, 64).expect("derivable") {
        accounts.push(SuppliedAccount {
            pubkey: k,
            data: vec![],
            lamports: 0,
            is_writable: false,
        });
    }
    assert_eq!(accounts.len(), 68);
    let r = resolve_execute_vaa_v1(&program(), &accounts, RENT_MIN).expect("phase two");
    let (direct, update) = r;
    assert_eq!(direct, Resolver::Pending);
    let update = update.expect("record write");
    // The record was already funded past the minimum: no top-up.
    assert_eq!(update.fund_lamports, 0);
    let groups = match update.content {
        Resolver::Resolved(groups) => groups.0,
        other => panic!("expected resolved content, got {:?}", other),
    };
    assert_eq!(groups.len(), 1);
    let group = &groups[0];
    assert_eq!(group.address_lookup_tables, vec![lut_address()]);
    assert_eq!(group.instructions.len(), 1);
    let instr = &group.instructions[0];
    assert_eq!(instr.program_id, program());
    assert_eq!(instr.data, derive_discriminator(b"global:execute_vaa_v1"));
    assert_eq!(instr.accounts.len(), 34);
    assert_eq!(instr.accounts[0].pubkey, resolver_pubkey_payer());
    assert!(instr.accounts[0].is_signer && instr.accounts[0].is_writable);
    let created = derive_indexed_keys(&program(), 64, 32).expect("derivable");
    for (i, k) in created.iter().enumerate() {
        let meta = &instr.accounts[1 + i];
        assert_eq!(&meta.pubkey, k);
        assert!(!meta.is_signer && meta.is_writable);
    }
    assert_eq!(instr.accounts[33].pubkey, system_program_id());
    assert!(!instr.accounts[33].is_signer && !instr.accounts[33].is_writable);
}

#[test]
fn any_other_account_count_is_a_fatal_protocol_error() {
    let mut accounts = bootstrap(0);
    accounts.push(dummy(1));
    assert_eq!(accounts.len(), 5);
    assert_eq!(
        resolve_execute_vaa_v1(&program(), &accounts, RENT_MIN),
        Err(MyError::InvalidAccounts)
    );
    let three = &accounts[..3];
    assert_eq!(
        resolve_execute_vaa_v1(&program(), three, RENT_MIN),
        Err(MyError::InvalidAccounts)
    );
}

#[test]
fn wrong_lut_tag_is_an_identity_mismatch() {
    let mut accounts = bootstrap(0);
    accounts[0].data[3] ^= 0xff;
    assert_eq!(
        resolve_execute_vaa_v1(&program(), &accounts, RENT_MIN),
        Err(MyError::IdentityMismatch)
    );
}

#[test]
fn truncated_lut_record_is_malformed() {
    let mut accounts = bootstrap(0);
    accounts[0].data.truncate(20);
    assert_eq!(
        resolve_execute_vaa_v1(&program(), &accounts, RENT_MIN),
        Err(MyError::MalformedData)
    );
}

#[test]
fn read_only_record_account_is_refused() {
    let mut accounts = bootstrap(0);
    accounts[1].is_writable = false;
    assert_eq!(
        resolve_execute_vaa_v1(&program(), &accounts, RENT_MIN),
        Err(MyError::RecordNotWritable)
    );
}

#[test]
fn wrong_record_tag_is_an_identity_mismatch() {
    let mut accounts = bootstrap(0);
    accounts[1].data[0] ^= 0xff;
    assert_eq!(
        resolve_execute_vaa_v1(&program(), &accounts, RENT_MIN),
        Err(MyError::IdentityMismatch)
    );
}

#[test]
fn corrupt_record_content_is_malformed() {
    let mut accounts = bootstrap(0);
    accounts[1].data.truncate(8);
    accounts[1].data.push(7); // not a valid outcome tag
    assert_eq!(
        resolve_execute_vaa_v1(&program(), &accounts, RENT_MIN),
        Err(MyError::MalformedData)
    );
}

#[test]
fn growth_takes_the_ceiling_until_the_absolute_maximum() {
    assert_eq!(grown_size(0, 10, 100), 10);
    assert_eq!(grown_size(90, 10, 100), 100);
    assert_eq!(grown_size(91, 10, 100), 100);
    assert_eq!(grown_size(95, 10, 100), 100);
    assert_eq!(grown_size(100, 10, 100), 100);
    // Already past the maximum: clamped down, never grown further.
    assert_eq!(grown_size(150, 10, 100), 100);
    // The sum can exceed the integer range; the maximum still wins.
    assert_eq!(grown_size(u64::MAX, u64::MAX, 100), 100);
    assert_eq!(grown_size(13, MAX_PERMITTED_DATA_INCREASE, MAX_PERMITTED_DATA_LENGTH), 10253);
    assert_eq!(grown_record_size(13), 10253);
    assert_eq!(
        grown_record_size(MAX_PERMITTED_DATA_LENGTH - 100),
        MAX_PERMITTED_DATA_LENGTH
    );
}

#[test]
fn funding_tops_up_exactly_the_shortfall() {
    assert_eq!(funding_shortfall(100, 40), 60);
    assert_eq!(funding_shortfall(100, 100), 0);
    assert_eq!(funding_shortfall(40, 100), 0);
    assert_eq!(funding_shortfall(0, 0), 0);
}

#[test]
fn lut_pointer_record_round_trips() {
    let tag = lut_tag();
    let pointer = LUT {
        bump: 254,
        address: lut_address(),
    };
    let bytes = encode_lut(&pointer, &tag);
    assert_eq!(bytes.len(), 41);
    assert_eq!(decode_lut(&bytes, &tag), Ok(pointer));
    let mut wrong = bytes.clone();
    wrong[7] ^= 1;
    assert_eq!(decode_lut(&wrong, &tag), Err(MyError::IdentityMismatch));
    assert_eq!(decode_lut(&bytes[..40], &tag), Err(MyError::MalformedData));
}

#[test]
fn indexed_keys_are_pairwise_distinct() {
    let keys = derive_indexed_keys(&program(), 0, 96).expect("derivable");
    assert_eq!(keys.len(), 96);
    for i in 0..keys.len() {
        for j in (i + 1)..keys.len() {
            assert_ne!(keys[i], keys[j]);
        }
    }
    // And consecutive ranges line up with the full range.
    let first = derive_indexed_keys(&program(), 0, 64).expect("derivable");
    let second = derive_indexed_keys(&program(), 64, 32).expect("derivable");
    assert_eq!(&keys[..64], &first[..]);
    assert_eq!(&keys[64..], &second[..]);
}
