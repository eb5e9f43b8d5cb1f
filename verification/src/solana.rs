//! What the Solana crates and `bs58` compute for this library, each call behind
//! one function. The contracts of these functions are not proved here: they
//! state what the called functions do.

use crate::message::{
    Blockhash, InstructionView, LegacyMessage, LookupView, MessageHeader, MessageV0, MessageView,
    Pubkey, Signature, TransactionView,
};
use crate::results::{result_view, views};
use crate::wire::{wire_size, PACKET_DATA_SIZE};
use solana_message::v0::{Message as SolanaV0, MessageAddressTableLookup as SolanaLookup};
use solana_message::VersionedMessage::{Legacy, V0};
use solana_message::{Message as SolanaLegacy, MessageHeader as SolanaHeader};
use solana_perf::packet::to_packet_batches;
use solana_program::instruction::CompiledInstruction as SolanaInstruction;
use solana_transaction::versioned::VersionedTransaction as SolanaTransaction;
use solana_transaction_status_client_types::EncodedTransaction::Binary;
use solana_transaction_status_client_types::TransactionBinaryEncoding::{Base58, Base64};
use std::str::FromStr;
use vstd::prelude::*;

verus! {

/// Why a text is not the base 58 form of a value of fixed size.
#[derive(Debug, Clone, Copy, PartialEq, Eq, Structural)]
pub enum ParseFault {
    WrongSize,
    Invalid,
}

/// Why a text is not base 58.
#[derive(Debug, Clone, Copy, PartialEq, Eq, Structural)]
pub enum Base58Fault {
    BufferTooSmall,
    InvalidCharacter { character: char, index: usize },
    NonAsciiCharacter { index: usize },
    Other,
}

/// The account key that a text stands for, as `solana_pubkey` reads it.
pub uninterp spec fn pubkey_of_text(text: Seq<char>) -> Result<Seq<u8>, ParseFault>;

/// The hash that a text stands for, as `solana_hash` reads it.
pub uninterp spec fn hash_of_text(text: Seq<char>) -> Result<Seq<u8>, ParseFault>;

/// The signature that a text stands for, as `solana_signature` reads it.
pub uninterp spec fn signature_of_text(text: Seq<char>) -> Result<Seq<u8>, ParseFault>;

/// The bytes that a text stands for, as `bs58` reads it.
pub uninterp spec fn bytes_of_base58(text: Seq<char>) -> Result<Seq<u8>, Base58Fault>;

/// The transaction that a blob stands for, as
/// `solana_transaction_status_client_types` reads it from base 64 or else from
/// base 58.
pub uninterp spec fn transaction_of_blob(blob: Seq<char>, base64: bool) -> Option<TransactionView>;

/// Calls `Pubkey::from_str` of `solana_pubkey`. The result is a function of the
/// text alone.
#[verifier::external_body]
pub(crate) fn parse_pubkey(text: &str) -> (key: Result<Pubkey, ParseFault>)
    ensures
        result_view(key) == pubkey_of_text(text@),
{
    match solana_pubkey::Pubkey::from_str(text) {
        Ok(key) => Ok(key.to_bytes()),
        Err(solana_pubkey::ParsePubkeyError::WrongSize) => Err(ParseFault::WrongSize),
        Err(solana_pubkey::ParsePubkeyError::Invalid) => Err(ParseFault::Invalid),
    }
}

/// Calls `Hash::from_str` of `solana_hash`. The result is a function of the text
/// alone.
#[verifier::external_body]
pub(crate) fn parse_hash(text: &str) -> (hash: Result<Blockhash, ParseFault>)
    ensures
        result_view(hash) == hash_of_text(text@),
{
    match solana_hash::Hash::from_str(text) {
        Ok(hash) => Ok(hash.to_bytes()),
        Err(solana_hash::ParseHashError::WrongSize) => Err(ParseFault::WrongSize),
        Err(solana_hash::ParseHashError::Invalid) => Err(ParseFault::Invalid),
    }
}

/// Calls `Signature::from_str` of `solana_signature`. The result is a function of
/// the text alone.
#[verifier::external_body]
pub(crate) fn parse_signature(text: &str) -> (signature: Result<Signature, ParseFault>)
    ensures
        result_view(signature) == signature_of_text(text@),
{
    match solana_signature::Signature::from_str(text) {
        Ok(signature) => Ok(signature.into()),
        Err(solana_signature::ParseSignatureError::WrongSize) => Err(ParseFault::WrongSize),
        Err(solana_signature::ParseSignatureError::Invalid) => Err(ParseFault::Invalid),
    }
}

/// Calls `bs58::decode` on the text and reads the bytes with `into_vec`. The
/// result is a function of the text alone.
#[verifier::external_body]
pub(crate) fn decode_base58(text: &str) -> (bytes: Result<Vec<u8>, Base58Fault>)
    ensures
        result_view(bytes) == bytes_of_base58(text@),
{
    match bs58::decode(text).into_vec() {
        Ok(bytes) => Ok(bytes),
        Err(bs58::decode::Error::BufferTooSmall) => Err(Base58Fault::BufferTooSmall),
        Err(bs58::decode::Error::InvalidCharacter { character, index }) => {
            Err(Base58Fault::InvalidCharacter { character, index })
        },
        Err(bs58::decode::Error::NonAsciiCharacter { index }) => {
            Err(Base58Fault::NonAsciiCharacter { index })
        },
        Err(_) => Err(Base58Fault::Other),
    }
}

/// The fields of a transaction: its signatures, header, account keys, blockhash,
/// instructions and, for a message of version 0, lookups.
pub type TransactionFields = (
    Vec<Signature>,
    [u8; 3],
    Vec<Pubkey>,
    Blockhash,
    Vec<(u8, Vec<u8>, Vec<u8>)>,
    Option<Vec<(Pubkey, Vec<u8>, Vec<u8>)>>,
);

/// What an instruction given by its three fields holds.
pub open spec fn instruction_of_fields(fields: (u8, Vec<u8>, Vec<u8>)) -> InstructionView {
    InstructionView { program_id_index: fields.0, accounts: fields.1@, data: fields.2@ }
}

/// What a lookup given by its three fields holds.
pub open spec fn lookup_of_fields(fields: (Pubkey, Vec<u8>, Vec<u8>)) -> LookupView {
    LookupView {
        account_key: fields.0@,
        writable_indexes: fields.1@,
        readonly_indexes: fields.2@,
    }
}

/// What a list of instructions given by their fields holds.
pub open spec fn instructions_of_fields(
    fields: Seq<(u8, Vec<u8>, Vec<u8>)>,
) -> Seq<InstructionView> {
    Seq::new(fields.len(), |i: int| instruction_of_fields(fields[i]))
}

/// What a list of lookups given by their fields holds.
pub open spec fn lookups_of_fields(fields: Seq<(Pubkey, Vec<u8>, Vec<u8>)>) -> Seq<LookupView> {
    Seq::new(fields.len(), |i: int| lookup_of_fields(fields[i]))
}

/// What a transaction given by its fields holds.
pub open spec fn transaction_of_fields(fields: TransactionFields) -> TransactionView {
    TransactionView {
        signatures: views(fields.0@),
        message: MessageView {
            header: MessageHeader {
                num_required_signatures: fields.1@[0],
                num_readonly_signed_accounts: fields.1@[1],
                num_readonly_unsigned_accounts: fields.1@[2],
            },
            account_keys: views(fields.2@),
            recent_blockhash: fields.3@,
            instructions: instructions_of_fields(fields.4@),
            address_table_lookups: match fields.5 {
                Some(lookups) => Some(lookups_of_fields(lookups@)),
                None => None,
            },
        },
    }
}

/// Calls `EncodedTransaction::decode` of `solana_transaction_status_client_types`
/// on a blob in base 64, or else in base 58, and takes the transaction apart into
/// its fields. The result is a function of the blob and its encoding alone.
#[verifier::external_body]
pub(crate) fn decode_blob(blob: String, base64: bool) -> (fields: Option<TransactionFields>)
    ensures
        transaction_of_blob(blob@, base64) == match fields {
            Some(fields) => Some(transaction_of_fields(fields)),
            None => None,
        },
{
    let tx = Binary(blob, if base64 { Base64 } else { Base58 }).decode()?;
    let m = tx.message;
    let h = m.header();
    Some((
        tx.signatures.into_iter().map(Into::into).collect(),
        [h.num_required_signatures, h.num_readonly_signed_accounts, h.num_readonly_unsigned_accounts],
        m.static_account_keys().iter().map(|k| k.to_bytes()).collect(),
        m.recent_blockhash().to_bytes(),
        m.instructions().to_vec().into_iter().map(|i| (i.program_id_index, i.accounts, i.data)).collect(),
        m.address_table_lookups().map(|l| l.to_vec().into_iter().map(|t| (t.account_key.to_bytes(), t.writable_indexes, t.readonly_indexes)).collect())
    ))
}

/// The bytes of the packet that carries a transaction, as `solana_perf` fills it.
pub uninterp spec fn packet_of(transaction: TransactionView) -> Seq<u8>;

/// Calls `to_packet_batches` of `solana_perf` on one transaction with a legacy
/// message and reads the only packet. The packet is a function of the
/// transaction alone and as long as the transaction is on the wire. The call
/// panics where the transaction is longer than a packet.
#[verifier::external_body]
pub(crate) fn pack_legacy(signatures: Vec<Signature>, message: LegacyMessage) -> (packet: Vec<u8>)
    requires
        wire_size(TransactionView { signatures: views(signatures@), message: message@ })
            <= PACKET_DATA_SIZE,
    ensures
        packet@ == packet_of(
            TransactionView { signatures: views(signatures@), message: message@ },
        ),
        packet@.len() == wire_size(
            TransactionView { signatures: views(signatures@), message: message@ },
        ),
{
    let h = message.header;
    let message = Legacy(SolanaLegacy::new_with_compiled_instructions(
        h.num_required_signatures,
        h.num_readonly_signed_accounts,
        h.num_readonly_unsigned_accounts,
        message.account_keys.into_iter().map(Into::into).collect(),
        message.recent_blockhash.into(),
        message.instructions.into_iter().map(|i| SolanaInstruction::new_from_raw_parts(i.program_id_index, i.data, i.accounts)).collect(),
    ));
    let signatures = signatures.into_iter().map(Into::into).collect();
    to_packet_batches(&[SolanaTransaction { signatures, message }], 1)[0][0].data(..).unwrap().to_vec()
}

/// Calls `to_packet_batches` of `solana_perf` on one transaction with a message
/// of version 0 and reads the only packet. The packet is a function of the
/// transaction alone and as long as the transaction is on the wire. The call
/// panics where the transaction is longer than a packet.
#[verifier::external_body]
pub(crate) fn pack_v0(signatures: Vec<Signature>, message: MessageV0) -> (packet: Vec<u8>)
    requires
        wire_size(TransactionView { signatures: views(signatures@), message: message@ })
            <= PACKET_DATA_SIZE,
    ensures
        packet@ == packet_of(
            TransactionView { signatures: views(signatures@), message: message@ },
        ),
        packet@.len() == wire_size(
            TransactionView { signatures: views(signatures@), message: message@ },
        ),
{
    let h = message.header;
    to_packet_batches(&[SolanaTransaction {
        signatures: signatures.into_iter().map(Into::into).collect(),
        message: V0(SolanaV0 {
            header: SolanaHeader { num_required_signatures: h.num_required_signatures, num_readonly_signed_accounts: h.num_readonly_signed_accounts, num_readonly_unsigned_accounts: h.num_readonly_unsigned_accounts },
            account_keys: message.account_keys.into_iter().map(Into::into).collect(),
            recent_blockhash: message.recent_blockhash.into(),
            instructions: message.instructions.into_iter().map(|i| SolanaInstruction::new_from_raw_parts(i.program_id_index, i.data, i.accounts)).collect(),
            address_table_lookups: message.address_table_lookups.into_iter().map(|t| SolanaLookup { account_key: t.account_key.into(), writable_indexes: t.writable_indexes, readonly_indexes: t.readonly_indexes }).collect()
        })
    }], 1)[0][0].data(..).unwrap().to_vec()
}

/// The address of the vote program.
pub open spec fn vote_program_key() -> Seq<u8> {
    seq![
        7u8, 97, 72, 29, 53, 116, 116, 187, 124, 77, 118, 36, 235, 211, 189, 179, 216, 53, 94, 115,
        209, 16, 67, 252, 13, 163, 83, 128, 0, 0, 0, 0,
    ]
}

/// Calls `id` of `solana_vote_program`, which is the constant that reads
/// `Vote111111111111111111111111111111111111111` in base 58.
#[verifier::external_body]
pub(crate) fn vote_program_id() -> (id: Pubkey)
    ensures
        id@ == vote_program_key(),
{
    solana_vote_program::id().to_bytes()
}

} // verus!
