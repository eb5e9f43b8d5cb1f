use solana_banking_bench_historical::decode::{
    assemble, assemble_binary, decode, DecodeError, ReadTransaction,
};
use solana_banking_bench_historical::encoded::{
    EncodedTransaction, TransactionBinaryEncoding, UiAddressTableLookup, UiCompiledInstruction,
    UiConfirmedBlock, UiMessage, UiRawMessage, UiTransaction,
};
use solana_banking_bench_historical::message::{
    CompiledInstruction, LegacyMessage, MessageAddressTableLookup, MessageHeader, MessageV0,
    VersionedMessage, VersionedTransaction,
};
use solana_banking_bench_historical::solana::{Base58Fault, ParseFault};
use solana_banking_bench_historical::transactions::{
    decode_and_filter_blocks, decode_and_filter_downloads, decode_block, decode_blocks,
    slots_to_download, ReplayError, MAX_SUPPORTED_TRANSACTION_VERSION, NUM_CONCURRENT_BLOCKS,
};

fn base58(bytes: &[u8]) -> String {
    bs58::encode(bytes).into_string()
}

fn header() -> MessageHeader {
    MessageHeader {
        num_required_signatures: 1,
        num_readonly_signed_accounts: 0,
        num_readonly_unsigned_accounts: 1,
    }
}

fn raw_message() -> UiRawMessage {
    UiRawMessage {
        header: header(),
        account_keys: vec![base58(&[1; 32]), base58(&[2; 32])],
        recent_blockhash: base58(&[3; 32]),
        instructions: vec![UiCompiledInstruction {
            program_id_index: 1,
            accounts: vec![0, 1],
            data: "EUYUqQf".to_string(),
        }],
        address_table_lookups: None,
    }
}

fn json(message: UiRawMessage) -> EncodedTransaction {
    EncodedTransaction::Json(UiTransaction {
        signatures: vec![base58(&[4; 64])],
        message: UiMessage::Raw(message),
    })
}

fn legacy_transaction() -> VersionedTransaction {
    VersionedTransaction {
        signatures: vec![[4; 64]],
        message: VersionedMessage::Legacy(LegacyMessage {
            header: header(),
            account_keys: vec![[1; 32], [2; 32]],
            recent_blockhash: [3; 32],
            instructions: vec![CompiledInstruction {
                program_id_index: 1,
                accounts: vec![0, 1],
                data: b"world".to_vec(),
            }],
        }),
    }
}

fn v0_transaction() -> VersionedTransaction {
    VersionedTransaction {
        signatures: vec![[4; 64]],
        message: VersionedMessage::V0(MessageV0 {
            header: header(),
            account_keys: vec![[1; 32], [2; 32]],
            recent_blockhash: [3; 32],
            instructions: vec![CompiledInstruction {
                program_id_index: 1,
                accounts: vec![0, 1],
                data: b"world".to_vec(),
            }],
            address_table_lookups: vec![MessageAddressTableLookup {
                account_key: [9; 32],
                writable_indexes: vec![7],
                readonly_indexes: vec![],
            }],
        }),
    }
}

/// The bytes of `legacy_transaction` or, with `v0`, of `v0_transaction`.
fn wire(v0: bool) -> Vec<u8> {
    let mut bytes = vec![1];
    bytes.extend([4; 64]);
    if v0 {
        bytes.push(0x80);
    }
    bytes.extend([1, 0, 1, 2]);
    bytes.extend([1; 32]);
    bytes.extend([2; 32]);
    bytes.extend([3; 32]);
    bytes.extend([1, 1, 2, 0, 1, 5]);
    bytes.extend(b"world");
    if v0 {
        bytes.push(1);
        bytes.extend([9; 32]);
        bytes.extend([1, 7, 0]);
    }
    bytes
}

fn base64(bytes: &[u8]) -> String {
    let alphabet: Vec<char> =
        "ABCDEFGHIJKLMNOPQRSTUVWXYZabcdefghijklmnopqrstuvwxyz0123456789+/".chars().collect();
    let mut text = String::new();
    for chunk in bytes.chunks(3) {
        let a = chunk[0] as usize;
        let b = *chunk.get(1).unwrap_or(&0) as usize;
        let c = *chunk.get(2).unwrap_or(&0) as usize;
        text.push(alphabet[a >> 2]);
        text.push(alphabet[(a & 3) << 4 | b >> 4]);
        text.push(if chunk.len() > 1 { alphabet[(b & 15) << 2 | c >> 6] } else { '=' });
        text.push(if chunk.len() > 2 { alphabet[c & 63] } else { '=' });
    }
    text
}

#[test]
fn raw_json_without_lookups_is_legacy() {
    assert_eq!(decode(&json(raw_message())), Ok(legacy_transaction()));
}

#[test]
fn raw_json_with_lookups_is_version_zero() {
    let mut message = raw_message();
    message.address_table_lookups = Some(vec![UiAddressTableLookup {
        account_key: base58(&[9; 32]),
        writable_indexes: vec![7],
        readonly_indexes: vec![],
    }]);
    assert_eq!(decode(&json(message)), Ok(v0_transaction()));
}

#[test]
fn an_empty_list_of_lookups_still_means_version_zero() {
    let mut message = raw_message();
    message.address_table_lookups = Some(vec![]);
    let decoded = decode(&json(message)).unwrap();
    match decoded.message {
        VersionedMessage::V0(message) => assert!(message.address_table_lookups.is_empty()),
        VersionedMessage::Legacy(_) => panic!("legacy message"),
    }
}

#[test]
fn blobs_in_every_encoding() {
    for (v0, expected) in [(false, legacy_transaction()), (true, v0_transaction())] {
        let bytes = wire(v0);
        let legacy_form = EncodedTransaction::LegacyBinary(base58(&bytes));
        assert_eq!(decode(&legacy_form), Ok(expected.clone()));
        let in_base58 =
            EncodedTransaction::Binary(base58(&bytes), TransactionBinaryEncoding::Base58);
        assert_eq!(decode(&in_base58), Ok(expected.clone()));
        let in_base64 =
            EncodedTransaction::Binary(base64(&bytes), TransactionBinaryEncoding::Base64);
        assert_eq!(decode(&in_base64), Ok(expected.clone()));
    }
}

#[test]
fn undecodable_blobs() {
    let error = Err(DecodeError::UndecodableBinary);
    let bytes = wire(false);
    assert_eq!(decode(&EncodedTransaction::LegacyBinary("0".to_string())), error);
    assert_eq!(
        decode(&EncodedTransaction::Binary(base64(&bytes), TransactionBinaryEncoding::Base58)),
        error
    );
    assert_eq!(
        decode(&EncodedTransaction::Binary(
            base64(&bytes[..100]),
            TransactionBinaryEncoding::Base64
        )),
        error
    );
    // Two signatures where the header asks for one.
    let mut twice = vec![2];
    twice.extend([4; 64]);
    twice.extend(&bytes[1..]);
    assert_eq!(
        decode(&EncodedTransaction::Binary(base64(&twice), TransactionBinaryEncoding::Base64)),
        error
    );
}

#[test]
fn unsupported_forms() {
    assert_eq!(decode(&EncodedTransaction::Accounts), Err(DecodeError::UnsupportedAccounts));
    let parsed = EncodedTransaction::Json(UiTransaction {
        signatures: vec!["not read".to_string()],
        message: UiMessage::Parsed,
    });
    assert_eq!(decode(&parsed), Err(DecodeError::UnsupportedParsedMessage));
}

#[test]
fn error_messages() {
    assert_eq!(
        DecodeError::UnsupportedAccounts.message(),
        Some("Decoding accounts encoded transactions is unsupported")
    );
    assert_eq!(
        DecodeError::UndecodableBinary.message(),
        Some("Failed to decode suupported tx variant")
    );
    assert_eq!(
        DecodeError::UnsupportedParsedMessage.message(),
        Some("Decoding parsed UI messages is unsupported")
    );
    assert_eq!(DecodeError::Pubkey(ParseFault::Invalid).message(), None);
}

#[test]
fn faulty_account_keys() {
    let mut message = raw_message();
    message.account_keys[1] = "abc".to_string();
    assert_eq!(decode(&json(message.clone())), Err(DecodeError::Pubkey(ParseFault::WrongSize)));
    message.account_keys[0] = base58(&[1; 32]).replace(|c: char| c.is_ascii_digit(), "0");
    assert_eq!(message.account_keys[0].contains('0'), true);
    assert_eq!(decode(&json(message)), Err(DecodeError::Pubkey(ParseFault::Invalid)));
}

#[test]
fn faulty_blockhash() {
    let mut message = raw_message();
    message.recent_blockhash = base58(&[3; 31]);
    assert_eq!(decode(&json(message.clone())), Err(DecodeError::Blockhash(ParseFault::WrongSize)));
    message.recent_blockhash = "I".repeat(44);
    assert_eq!(decode(&json(message)), Err(DecodeError::Blockhash(ParseFault::Invalid)));
}

#[test]
fn faulty_instruction_data() {
    let mut message = raw_message();
    message.instructions[0].data = "12O".to_string();
    assert_eq!(
        decode(&json(message.clone())),
        Err(DecodeError::InstructionData(Base58Fault::InvalidCharacter {
            character: 'O',
            index: 2
        }))
    );
    message.instructions[0].data = "1\u{e9}".to_string();
    assert_eq!(
        decode(&json(message)),
        Err(DecodeError::InstructionData(Base58Fault::NonAsciiCharacter { index: 1 }))
    );
}

#[test]
fn faulty_lookup_and_signature() {
    let mut message = raw_message();
    message.address_table_lookups = Some(vec![UiAddressTableLookup {
        account_key: "1".to_string(),
        writable_indexes: vec![],
        readonly_indexes: vec![1],
    }]);
    assert_eq!(decode(&json(message)), Err(DecodeError::Pubkey(ParseFault::WrongSize)));
    let signed = |text: String| {
        EncodedTransaction::Json(UiTransaction {
            signatures: vec![base58(&[4; 64]), text],
            message: UiMessage::Raw(raw_message()),
        })
    };
    assert_eq!(
        decode(&signed(base58(&[4; 32]))),
        Err(DecodeError::Signature(ParseFault::WrongSize))
    );
    assert_eq!(
        decode(&signed("0".repeat(88))),
        Err(DecodeError::Signature(ParseFault::Invalid))
    );
}

fn readings() -> ReadTransaction {
    ReadTransaction {
        header: header(),
        account_keys: vec![Ok([1; 32]), Err(ParseFault::Invalid), Err(ParseFault::WrongSize)],
        recent_blockhash: Err(ParseFault::WrongSize),
        instructions: vec![Err(Base58Fault::Other)],
        address_table_lookups: Some(vec![Err(ParseFault::WrongSize)]),
        signatures: vec![Err(ParseFault::Invalid)],
    }
}

#[test]
fn the_first_fault_counts() {
    assert_eq!(assemble(readings()), Err(DecodeError::Pubkey(ParseFault::Invalid)));
    let keys = || vec![Ok([1; 32]), Ok([2; 32])];
    assert_eq!(
        assemble(ReadTransaction { account_keys: keys(), ..readings() }),
        Err(DecodeError::Blockhash(ParseFault::WrongSize))
    );
    assert_eq!(
        assemble(ReadTransaction {
            account_keys: keys(),
            recent_blockhash: Ok([3; 32]),
            ..readings()
        }),
        Err(DecodeError::InstructionData(Base58Fault::Other))
    );
    assert_eq!(
        assemble(ReadTransaction {
            account_keys: keys(),
            recent_blockhash: Ok([3; 32]),
            instructions: vec![],
            ..readings()
        }),
        Err(DecodeError::Pubkey(ParseFault::WrongSize))
    );
    assert_eq!(
        assemble(ReadTransaction {
            account_keys: keys(),
            recent_blockhash: Ok([3; 32]),
            instructions: vec![],
            address_table_lookups: None,
            ..readings()
        }),
        Err(DecodeError::Signature(ParseFault::Invalid))
    );
    assert_eq!(
        assemble(ReadTransaction {
            account_keys: keys(),
            recent_blockhash: Ok([3; 32]),
            instructions: vec![],
            address_table_lookups: None,
            signatures: vec![],
            ..readings()
        }),
        Ok(VersionedTransaction {
            signatures: vec![],
            message: VersionedMessage::Legacy(LegacyMessage {
                header: header(),
                account_keys: vec![[1; 32], [2; 32]],
                recent_blockhash: [3; 32],
                instructions: vec![],
            }),
        })
    );
}

#[test]
fn fields_of_a_blob() {
    assert_eq!(assemble_binary(None), Err(DecodeError::UndecodableBinary));
    let fields = (
        vec![[4; 64]],
        [1, 0, 1],
        vec![[1; 32], [2; 32]],
        [3; 32],
        vec![(1, vec![0, 1], b"world".to_vec())],
        Some(vec![([9; 32], vec![7], vec![])]),
    );
    assert_eq!(assemble_binary(Some(fields)), Ok(v0_transaction()));
}

fn block(transactions: Vec<EncodedTransaction>) -> UiConfirmedBlock {
    UiConfirmedBlock { transactions: Some(transactions) }
}

fn vote() -> EncodedTransaction {
    let mut message = raw_message();
    message.account_keys[1] = "Vote111111111111111111111111111111111111111".to_string();
    json(message)
}

#[test]
fn blocks_decode_to_their_transactions() {
    assert_eq!(decode_block(&UiConfirmedBlock { transactions: None }), Ok(vec![]));
    assert_eq!(decode_block(&block(vec![])), Ok(vec![]));
    let bytes = wire(true);
    let mixed = block(vec![
        json(raw_message()),
        EncodedTransaction::LegacyBinary(base58(&bytes)),
    ]);
    assert_eq!(decode_block(&mixed), Ok(vec![legacy_transaction(), v0_transaction()]));
    let faulty = block(vec![
        json(raw_message()),
        EncodedTransaction::Accounts,
        EncodedTransaction::LegacyBinary("0".to_string()),
    ]);
    assert_eq!(decode_block(&faulty), Err(DecodeError::UnsupportedAccounts));
}

#[test]
fn blocks_are_joined_in_order() {
    let first = block(vec![json(raw_message())]);
    let second = block(vec![EncodedTransaction::LegacyBinary(base58(&wire(true)))]);
    assert_eq!(
        decode_blocks(&vec![
            first.clone(),
            UiConfirmedBlock { transactions: None },
            second.clone(),
            first.clone()
        ]),
        Ok(vec![legacy_transaction(), v0_transaction(), legacy_transaction()])
    );
    assert_eq!(
        decode_blocks(&vec![
            first,
            block(vec![EncodedTransaction::Accounts]),
            block(vec![EncodedTransaction::LegacyBinary("0".to_string())]),
            second
        ]),
        Err(DecodeError::UnsupportedAccounts)
    );
}

#[test]
fn votes_in_blocks_are_left_out() {
    let blocks = vec![
        block(vec![vote(), json(raw_message())]),
        block(vec![json(raw_message()), vote(), vote()]),
    ];
    assert_eq!(
        decode_and_filter_blocks(&blocks),
        Ok(vec![legacy_transaction(), legacy_transaction()])
    );
}

#[test]
fn runs_of_blocks_join() {
    let first = || vec![block(vec![json(raw_message()), vote()])];
    let second = || vec![block(vec![EncodedTransaction::LegacyBinary(base58(&wire(true)))])];
    let faulty = || vec![block(vec![EncodedTransaction::Accounts])];
    let mut both = first();
    both.extend(second());
    let mut joined = decode_and_filter_blocks(&first()).unwrap();
    joined.extend(decode_and_filter_blocks(&second()).unwrap());
    assert_eq!(joined, vec![legacy_transaction(), v0_transaction()]);
    assert_eq!(decode_and_filter_blocks(&both), Ok(joined));
    both.extend(faulty());
    assert_eq!(decode_and_filter_blocks(&both), decode_and_filter_blocks(&faulty()));
}

#[test]
fn failed_downloads_count_before_faulty_blocks() {
    let good = || -> Result<UiConfirmedBlock, &'static str> {
        Ok(block(vec![vote(), json(raw_message())]))
    };
    let bad = || -> Result<UiConfirmedBlock, &'static str> {
        Ok(block(vec![EncodedTransaction::Accounts]))
    };
    assert_eq!(
        decode_and_filter_downloads(vec![good(), good()]).unwrap(),
        vec![legacy_transaction(), legacy_transaction()]
    );
    assert!(matches!(
        decode_and_filter_downloads(vec![bad(), Err("first"), Err("second")]),
        Err(ReplayError::Download("first"))
    ));
    assert!(matches!(
        decode_and_filter_downloads(vec![good(), bad()]),
        Err(ReplayError::Decode(DecodeError::UnsupportedAccounts))
    ));
}

#[test]
fn downloads_in_another_order() {
    let one = || -> Result<UiConfirmedBlock, &'static str> {
        Ok(block(vec![json(raw_message()), vote()]))
    };
    let two = || -> Result<UiConfirmedBlock, &'static str> {
        Ok(block(vec![EncodedTransaction::LegacyBinary(base58(&wire(true)))]))
    };
    assert_eq!(
        decode_and_filter_downloads(vec![one(), two()]).unwrap(),
        vec![legacy_transaction(), v0_transaction()]
    );
    assert_eq!(
        decode_and_filter_downloads(vec![two(), one()]).unwrap(),
        vec![v0_transaction(), legacy_transaction()]
    );
}

#[test]
fn slots_from_the_snapshot_on() {
    assert_eq!(slots_to_download(100, 3), vec![100, 101, 102]);
    assert_eq!(slots_to_download(7, 0), Vec::<u64>::new());
    assert_eq!(slots_to_download(u64::MAX - 1, 1), vec![u64::MAX - 1]);
    assert_eq!(NUM_CONCURRENT_BLOCKS, 10);
    assert_eq!(MAX_SUPPORTED_TRANSACTION_VERSION, 0);
}
