use solana_banking_bench_historical::message::{
    LegacyMessage, MessageAddressTableLookup, MessageHeader, MessageV0, Pubkey, VersionedMessage,
    VersionedTransaction,
};
use solana_banking_bench_historical::transactions::filter_votes;

fn header() -> MessageHeader {
    MessageHeader {
        num_required_signatures: 0,
        num_readonly_signed_accounts: 0,
        num_readonly_unsigned_accounts: 0,
    }
}

fn vote_program() -> Pubkey {
    solana_vote_program::id().to_bytes()
}

fn v0(account_keys: Vec<Pubkey>, looked_up: Pubkey) -> VersionedTransaction {
    VersionedTransaction {
        signatures: vec![],
        message: VersionedMessage::V0(MessageV0 {
            header: header(),
            account_keys,
            recent_blockhash: [0; 32],
            instructions: vec![],
            address_table_lookups: vec![MessageAddressTableLookup {
                account_key: looked_up,
                writable_indexes: vec![0],
                readonly_indexes: vec![],
            }],
        }),
    }
}

fn legacy(account_keys: Vec<Pubkey>) -> VersionedTransaction {
    VersionedTransaction {
        signatures: vec![],
        message: VersionedMessage::Legacy(LegacyMessage {
            header: header(),
            account_keys,
            recent_blockhash: [0; 32],
            instructions: vec![],
        }),
    }
}

#[test]
fn test_filter_votes() {
    let transactions = vec![VersionedTransaction {
        message: VersionedMessage::V0(MessageV0 {
            header: header(),
            account_keys: vec![vote_program()],
            recent_blockhash: [0; 32],
            instructions: vec![],
            address_table_lookups: vec![],
        }),
        signatures: vec![],
    }];

    let filtered_tx = filter_votes(transactions);
    assert!(filtered_tx.is_empty())
}

#[test]
fn others_are_kept_in_order() {
    let mut near_miss = vote_program();
    near_miss[31] = 1;
    let transactions = vec![
        legacy(vec![[1; 32]]),
        legacy(vec![[1; 32], vote_program()]),
        v0(vec![near_miss], [5; 32]),
        v0(vec![[2; 32], vote_program(), [3; 32]], [5; 32]),
        legacy(vec![]),
        legacy(vec![[1; 32]]),
    ];
    let kept = vec![
        transactions[0].clone(),
        transactions[2].clone(),
        transactions[4].clone(),
        transactions[5].clone(),
    ];
    assert_eq!(filter_votes(transactions), kept);
    assert_eq!(filter_votes(kept.clone()), kept);
}

#[test]
fn lookup_tables_do_not_count() {
    let transactions = vec![v0(vec![[1; 32]], vote_program())];
    assert_eq!(filter_votes(transactions.clone()), transactions);
}

#[test]
fn filtering_parts_is_filtering_the_whole() {
    let first = vec![legacy(vec![vote_program()]), legacy(vec![[1; 32]])];
    let second = vec![v0(vec![[2; 32]], [3; 32]), legacy(vec![vote_program()])];
    let mut whole = first.clone();
    whole.extend(second.clone());
    let mut parts = filter_votes(first);
    parts.extend(filter_votes(second));
    assert_eq!(filter_votes(whole), parts);
}
