use solana_banking_bench_historical::message::{
    CompiledInstruction, LegacyMessage, MessageAddressTableLookup, MessageHeader, MessageV0,
    VersionedMessage, VersionedTransaction,
};
use solana_banking_bench_historical::packets::Packets;
use solana_banking_bench_historical::results::collect_results;
use solana_banking_bench_historical::wire::{fits_in_packet, PACKET_DATA_SIZE};

fn header() -> MessageHeader {
    MessageHeader {
        num_required_signatures: 1,
        num_readonly_signed_accounts: 2,
        num_readonly_unsigned_accounts: 3,
    }
}

fn legacy(data: Vec<u8>) -> VersionedTransaction {
    VersionedTransaction {
        signatures: vec![[4; 64], [5; 64]],
        message: VersionedMessage::Legacy(LegacyMessage {
            header: header(),
            account_keys: vec![[1; 32]],
            recent_blockhash: [3; 32],
            instructions: vec![CompiledInstruction { program_id_index: 6, accounts: vec![7], data }],
        }),
    }
}

fn v0() -> VersionedTransaction {
    VersionedTransaction {
        signatures: vec![],
        message: VersionedMessage::V0(MessageV0 {
            header: header(),
            account_keys: vec![],
            recent_blockhash: [8; 32],
            instructions: vec![],
            address_table_lookups: vec![MessageAddressTableLookup {
                account_key: [9; 32],
                writable_indexes: vec![10, 11],
                readonly_indexes: vec![12],
            }],
        }),
    }
}

fn legacy_bytes(blockhash: u8, data: &[u8]) -> Vec<u8> {
    let mut bytes = vec![2];
    bytes.extend([4; 64]);
    bytes.extend([5; 64]);
    bytes.extend([1, 2, 3, 1]);
    bytes.extend([1; 32]);
    bytes.extend([blockhash; 32]);
    bytes.extend([1, 6, 1, 7, data.len() as u8]);
    bytes.extend(data);
    bytes
}

fn v0_bytes(blockhash: u8) -> Vec<u8> {
    let mut bytes = vec![0, 0x80, 1, 2, 3, 0];
    bytes.extend([blockhash; 32]);
    bytes.extend([0, 1]);
    bytes.extend([9; 32]);
    bytes.extend([2, 10, 11, 1, 12]);
    bytes
}

#[test]
fn each_transaction_has_a_batch_with_its_packet() {
    let transactions = vec![legacy(vec![13, 14]), v0(), legacy(vec![])];
    let packets = Packets::new(transactions.clone());
    assert_eq!(packets.transactions(), &transactions);
    assert_eq!(
        packets.packet_batch(),
        &vec![
            vec![legacy_bytes(3, &[13, 14])],
            vec![v0_bytes(8)],
            vec![legacy_bytes(3, &[])],
        ]
    );
}

#[test]
fn nothing_to_pack() {
    let packets = Packets::new(vec![]);
    assert!(packets.transactions().is_empty());
    assert!(packets.packet_batch().is_empty());
}

#[test]
fn refresh_replaces_every_blockhash() {
    let mut packets = Packets::new(vec![legacy(vec![13]), v0()]);
    packets.refresh_blockhash([20; 32]);
    packets.refresh_blockhash([21; 32]);
    assert_eq!(
        packets.packet_batch(),
        &vec![vec![legacy_bytes(21, &[13])], vec![v0_bytes(21)]]
    );
    match &packets.transactions()[0].message {
        VersionedMessage::Legacy(message) => {
            assert_eq!(message.recent_blockhash, [21; 32]);
            assert_eq!(message.account_keys, vec![[1; 32]]);
        }
        VersionedMessage::V0(_) => panic!("version 0"),
    }
    match &packets.transactions()[1].message {
        VersionedMessage::V0(message) => assert_eq!(message.recent_blockhash, [21; 32]),
        VersionedMessage::Legacy(_) => panic!("legacy"),
    }
}

#[test]
fn the_largest_transaction_that_fits() {
    assert_eq!(PACKET_DATA_SIZE, 1232);
    // 202 bytes beside the data, one of them for the length of short data.
    assert_eq!(legacy_bytes(3, &[]).len(), 202);
    let full = legacy(vec![0; 1232 - 203]);
    assert!(fits_in_packet(&full));
    let packets = Packets::new(vec![full]);
    assert_eq!(packets.packet_batch()[0][0].len(), 1232);
    assert!(!fits_in_packet(&legacy(vec![0; 1232 - 202])));
    assert!(!fits_in_packet(&legacy(vec![0; 100000])));
}

#[test]
fn sizes_of_all_parts_count() {
    assert!(fits_in_packet(&v0()));
    let mut many = v0();
    many.signatures = vec![[0; 64]; 20];
    assert!(!fits_in_packet(&many));
    let with_lookups = |count: usize, indexes: usize| VersionedTransaction {
        signatures: vec![],
        message: VersionedMessage::V0(MessageV0 {
            header: header(),
            account_keys: vec![],
            recent_blockhash: [8; 32],
            instructions: vec![],
            address_table_lookups: vec![
                MessageAddressTableLookup {
                    account_key: [9; 32],
                    writable_indexes: vec![0; indexes],
                    readonly_indexes: vec![],
                };
                count
            ],
        }),
    };
    // 40 bytes beside the lookups, 34 for each of these.
    assert!(fits_in_packet(&with_lookups(35, 0)));
    assert!(!fits_in_packet(&with_lookups(36, 0)));
    // A length of 128 or more takes two bytes.
    assert!(fits_in_packet(&with_lookups(1, 1232 - 40 - 35)));
    assert!(!fits_in_packet(&with_lookups(1, 1232 - 40 - 34)));
}

#[test]
fn gathering_results() {
    let good: Vec<Result<u8, &str>> = vec![Ok(1), Ok(2)];
    assert_eq!(collect_results(good), Ok(vec![1, 2]));
    let bad: Vec<Result<u8, &str>> = vec![Ok(1), Err("a"), Ok(2), Err("b")];
    assert_eq!(collect_results(bad), Err("a"));
    let none: Vec<Result<u8, &str>> = vec![];
    assert_eq!(collect_results(none), Ok(vec![]));
}
