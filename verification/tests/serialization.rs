//! Binary-layout tests: the published literal encodings, round trips, and
//! rejection of malformed buffers.

use executor_account_resolver_svm::decode::decode_resolver;
use executor_account_resolver_svm::discriminator::{
    derive_discriminator, resolver_execute_vaa_v1, resolver_execute_vaa_v1_seed,
    resolver_result_account, resolver_result_account_seed,
};
use executor_account_resolver_svm::encode::encode_resolver;
use executor_account_resolver_svm::error::MyError;
use executor_account_resolver_svm::pubkey::Pubkey;
use executor_account_resolver_svm::record::{
    ExecutorAccountResolverResult, RESOLVER_RESULT_ACCOUNT_INIT_SIZE,
};
use executor_account_resolver_svm::resolver::{MissingAccounts, Resolver};
use executor_account_resolver_svm::types::{
    InstructionGroup, InstructionGroups, SerializableAccountMeta, SerializableInstruction,
};

#[test]
fn test_resolver_discriminators_match() {
    {
        let hash_bytes =
            solana_sha256_hasher::hashv(&[resolver_execute_vaa_v1_seed().as_slice()]).to_bytes();
        let mut discriminator_bytes = [0u8; 8];
        discriminator_bytes.copy_from_slice(&hash_bytes[..8]);
        assert_eq!(discriminator_bytes, resolver_execute_vaa_v1());
    }
    {
        let hash_bytes =
            solana_sha256_hasher::hashv(&[resolver_result_account_seed().as_slice()]).to_bytes();
        let mut discriminator_bytes = [0u8; 8];
        discriminator_bytes.copy_from_slice(&hash_bytes[..8]);
        assert_eq!(discriminator_bytes, resolver_result_account());
    }
}

#[test]
fn test_resolver_resolved_empty_serialization() {
    let resolved = Resolver::Resolved(InstructionGroups(vec![]));
    let buffer = encode_resolver(&resolved);
    assert_eq!(buffer.len(), RESOLVER_RESULT_ACCOUNT_INIT_SIZE);
    assert_eq!(buffer, [0, 0, 0, 0, 0])
}

#[test]
fn test_resolver_missing_empty_serialization() {
    let missing: Resolver<InstructionGroups> = Resolver::Missing(MissingAccounts {
        accounts: vec![],
        address_lookup_tables: vec![],
    });
    let buffer = encode_resolver(&missing);
    assert_eq!(buffer.len(), 9);
    assert_eq!(buffer, [1, 0, 0, 0, 0, 0, 0, 0, 0])
}

#[test]
fn test_resolver_account_serialization() {
    let account: Resolver<InstructionGroups> = Resolver::Pending;
    let buffer = encode_resolver(&account);
    assert_eq!(buffer.len(), 1);
    assert_eq!(buffer, [2])
}

fn key(byte: u8) -> Pubkey {
    Pubkey::from_bytes([byte; 32])
}

fn rich_resolved() -> Resolver<InstructionGroups> {
    let instruction = SerializableInstruction {
        program_id: key(7),
        accounts: vec![
            SerializableAccountMeta {
                pubkey: key(1),
                is_signer: true,
                is_writable: true,
            },
            SerializableAccountMeta {
                pubkey: key(2),
                is_signer: false,
                is_writable: false,
            },
        ],
        data: vec![9, 8, 7, 6],
    };
    Resolver::Resolved(InstructionGroups(vec![
        InstructionGroup {
            instructions: vec![instruction],
            address_lookup_tables: vec![key(3)],
        },
        InstructionGroup {
            instructions: vec![],
            address_lookup_tables: vec![],
        },
    ]))
}

#[test]
fn encode_then_decode_resolved_round_trips() {
    let value = rich_resolved();
    let bytes = encode_resolver(&value);
    let (decoded, consumed) = decode_resolver(&bytes, 0).expect("valid encoding");
    assert_eq!(consumed, bytes.len());
    assert_eq!(decoded, value);
}

#[test]
fn encode_then_decode_missing_round_trips() {
    let value: Resolver<InstructionGroups> = Resolver::Missing(MissingAccounts {
        accounts: vec![key(1), key(1), key(2)],
        address_lookup_tables: vec![key(9)],
    });
    let bytes = encode_resolver(&value);
    let (decoded, consumed) = decode_resolver(&bytes, 0).expect("valid encoding");
    assert_eq!(consumed, bytes.len());
    assert_eq!(decoded, value);
}

#[test]
fn decode_ignores_trailing_padding() {
    let value = rich_resolved();
    let mut bytes = encode_resolver(&value);
    let content_len = bytes.len();
    bytes.extend_from_slice(&[0u8; 64]);
    let (decoded, consumed) = decode_resolver(&bytes, 0).expect("valid encoding");
    assert_eq!(consumed, content_len);
    assert_eq!(decoded, value);
}

#[test]
fn decode_rejects_truncated_buffer() {
    let bytes = encode_resolver(&rich_resolved());
    assert!(decode_resolver(&bytes[..bytes.len() - 1], 0).is_none());
    assert!(decode_resolver(&[], 0).is_none());
}

#[test]
fn decode_rejects_unknown_tag() {
    assert!(decode_resolver(&[3], 0).is_none());
    assert!(decode_resolver(&[255, 0, 0, 0, 0], 0).is_none());
}

#[test]
fn decode_rejects_overlong_length_prefix() {
    // A resolved outcome claiming 4294967295 groups in a 5-byte buffer.
    assert!(decode_resolver(&[0, 255, 255, 255, 255], 0).is_none());
}

#[test]
fn decode_rejects_invalid_bool_byte() {
    // Missing outcome with one 32-byte account would be fine, but an account
    // meta's signer flag must be 0 or 1.
    let instruction = SerializableInstruction {
        program_id: key(7),
        accounts: vec![SerializableAccountMeta {
            pubkey: key(1),
            is_signer: false,
            is_writable: false,
        }],
        data: vec![],
    };
    let value = Resolver::Resolved(InstructionGroups(vec![InstructionGroup {
        instructions: vec![instruction],
        address_lookup_tables: vec![],
    }]));
    let mut bytes = encode_resolver(&value);
    // The signer flag sits right after the tag, group and instruction
    // counts, the instruction's program id, the meta count and the meta's
    // identity.
    let flag_pos = 1 + 4 + 4 + 32 + 4 + 32;
    assert_eq!(bytes[flag_pos], 0);
    bytes[flag_pos] = 2;
    assert!(decode_resolver(&bytes, 0).is_none());
}

#[test]
fn record_round_trips_behind_its_tag() {
    let record = ExecutorAccountResolverResult(rich_resolved());
    let bytes = record.encode();
    assert_eq!(&bytes[..8], &resolver_result_account());
    let back = ExecutorAccountResolverResult::decode(&bytes).expect("valid record");
    assert_eq!(back, record);
}

#[test]
fn record_decode_ignores_growth_padding() {
    let record = ExecutorAccountResolverResult(Resolver::Pending);
    let mut bytes = record.encode();
    bytes.extend_from_slice(&[0u8; 128]);
    let back = ExecutorAccountResolverResult::decode(&bytes).expect("valid record");
    assert_eq!(back, record);
}

#[test]
fn record_decode_rejects_wrong_tag() {
    let record = ExecutorAccountResolverResult(Resolver::Pending);
    let mut bytes = record.encode();
    bytes[0] ^= 0xff;
    assert_eq!(
        ExecutorAccountResolverResult::decode(&bytes),
        Err(MyError::IdentityMismatch)
    );
    assert_eq!(
        ExecutorAccountResolverResult::decode(&bytes[..4]),
        Err(MyError::IdentityMismatch)
    );
}

#[test]
fn record_decode_rejects_corrupt_content() {
    let mut bytes = resolver_result_account().to_vec();
    bytes.push(9); // not a valid outcome tag
    assert_eq!(
        ExecutorAccountResolverResult::decode(&bytes),
        Err(MyError::MalformedData)
    );
}

#[test]
fn derive_discriminator_matches_published_constants() {
    assert_eq!(
        derive_discriminator(&resolver_execute_vaa_v1_seed()),
        resolver_execute_vaa_v1()
    );
    assert_eq!(
        derive_discriminator(&resolver_result_account_seed()),
        resolver_result_account()
    );
}
