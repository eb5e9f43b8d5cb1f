//! Blocks and transactions in the forms in which an RPC node answers.

use crate::message::MessageHeader;
use vstd::prelude::*;

verus! {

/// The text encoding of a transaction given as a blob.
#[derive(Debug, Clone, Copy, PartialEq, Eq, Structural)]
pub enum TransactionBinaryEncoding {
    Base58,
    Base64,
}

/// An instruction whose data is written in base 58.
#[derive(Debug, Clone)]
pub struct UiCompiledInstruction {
    pub program_id_index: u8,
    pub accounts: Vec<u8>,
    pub data: String,
}

/// A lookup whose table is named in base 58.
#[derive(Debug, Clone)]
pub struct UiAddressTableLookup {
    pub account_key: String,
    pub writable_indexes: Vec<u8>,
    pub readonly_indexes: Vec<u8>,
}

/// A message whose keys and hash are written in base 58.
#[derive(Debug, Clone)]
pub struct UiRawMessage {
    pub header: MessageHeader,
    pub account_keys: Vec<String>,
    pub recent_blockhash: String,
    pub instructions: Vec<UiCompiledInstruction>,
    pub address_table_lookups: Option<Vec<UiAddressTableLookup>>,
}

/// A message as JSON. Of one in the parsed form nothing is kept.
#[derive(Debug, Clone)]
pub enum UiMessage {
    Parsed,
    Raw(UiRawMessage),
}

/// A transaction as JSON, its signatures written in base 58.
#[derive(Debug, Clone)]
pub struct UiTransaction {
    pub signatures: Vec<String>,
    pub message: UiMessage,
}

/// A transaction in one of the encodings of the RPC interface. Of a list of
/// accounts nothing is kept.
#[derive(Debug, Clone)]
pub enum EncodedTransaction {
    LegacyBinary(String),
    Binary(String, TransactionBinaryEncoding),
    Json(UiTransaction),
    Accounts,
}

/// A confirmed block. A node may leave the transactions out.
#[derive(Debug, Clone)]
pub struct UiConfirmedBlock {
    pub transactions: Option<Vec<EncodedTransaction>>,
}

} // verus!
