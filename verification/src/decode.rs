//! Decoding transactions.

use crate::encoded::{
    EncodedTransaction, TransactionBinaryEncoding, UiAddressTableLookup, UiCompiledInstruction,
    UiMessage, UiRawMessage, UiTransaction,
};
use crate::message::{
    Blockhash, CompiledInstruction, InstructionView, LegacyMessage, LookupView,
    MessageAddressTableLookup, MessageHeader, MessageV0, MessageView, Pubkey, Signature,
    TransactionView, VersionedMessage, VersionedTransaction,
};
use crate::results::{
    collect_results, collected, collected_commutes_with_views, collected_error_comes_first,
    collected_is_ok_iff_all_are, result_view, result_views, views,
};
use crate::solana::{
    bytes_of_base58, decode_base58, decode_blob, hash_of_text, instruction_of_fields,
    instructions_of_fields, lookup_of_fields, lookups_of_fields, parse_hash, parse_pubkey,
    parse_signature, pubkey_of_text, signature_of_text, transaction_of_blob,
    transaction_of_fields, Base58Fault, ParseFault, TransactionFields,
};
use vstd::prelude::*;

verus! {

/// Why a transaction cannot be decoded.
#[derive(Debug, Clone, Copy, PartialEq, Eq, Structural)]
pub enum DecodeError {
    UnsupportedAccounts,
    UndecodableBinary,
    UnsupportedParsedMessage,
    Pubkey(ParseFault),
    Blockhash(ParseFault),
    InstructionData(Base58Fault),
    Signature(ParseFault),
}

impl DecodeError {
    /// What there is to say of an error that does not come from reading a text.
    pub open spec fn spec_message(self) -> Option<Seq<char>> {
        match self {
            DecodeError::UnsupportedAccounts => Some(
                "Decoding accounts encoded transactions is unsupported"@,
            ),
            DecodeError::UndecodableBinary => Some("Failed to decode suupported tx variant"@),
            DecodeError::UnsupportedParsedMessage => Some(
                "Decoding parsed UI messages is unsupported"@,
            ),
            _ => None,
        }
    }

    /// What there is to say of an error that does not come from reading a text.
    pub fn message(&self) -> (message: Option<&str>)
        ensures
            match message {
                Some(text) => self.spec_message() == Some(text@),
                None => self.spec_message() is None,
            },
    {
        match self {
            DecodeError::UnsupportedAccounts => Some(
                "Decoding accounts encoded transactions is unsupported",
            ),
            DecodeError::UndecodableBinary => Some("Failed to decode suupported tx variant"),
            DecodeError::UnsupportedParsedMessage => Some(
                "Decoding parsed UI messages is unsupported",
            ),
            _ => None,
        }
    }
}

/// The texts of a transaction, each with what reading it came to.
pub struct ReadTransaction {
    pub header: MessageHeader,
    pub account_keys: Vec<Result<Pubkey, ParseFault>>,
    pub recent_blockhash: Result<Blockhash, ParseFault>,
    pub instructions: Vec<Result<CompiledInstruction, Base58Fault>>,
    pub address_table_lookups: Option<Vec<Result<MessageAddressTableLookup, ParseFault>>>,
    pub signatures: Vec<Result<Signature, ParseFault>>,
}

/// What a [`ReadTransaction`] holds.
pub struct ReadTransactionView {
    pub header: MessageHeader,
    pub account_keys: Seq<Result<Seq<u8>, ParseFault>>,
    pub recent_blockhash: Result<Seq<u8>, ParseFault>,
    pub instructions: Seq<Result<InstructionView, Base58Fault>>,
    pub address_table_lookups: Option<Seq<Result<LookupView, ParseFault>>>,
    pub signatures: Seq<Result<Seq<u8>, ParseFault>>,
}

impl View for ReadTransaction {
    type V = ReadTransactionView;

    open spec fn view(&self) -> ReadTransactionView {
        ReadTransactionView {
            header: self.header,
            account_keys: result_views(self.account_keys@),
            recent_blockhash: result_view(self.recent_blockhash),
            instructions: result_views(self.instructions@),
            address_table_lookups: match self.address_table_lookups {
                Some(lookups) => Some(result_views(lookups@)),
                None => None,
            },
            signatures: result_views(self.signatures@),
        }
    }
}

/// The lookups of a message, or the first error in reading them.
pub open spec fn collected_lookups(
    lookups: Option<Seq<Result<LookupView, ParseFault>>>,
) -> Result<Option<Seq<LookupView>>, ParseFault> {
    match lookups {
        Some(results) => match collected(results) {
            Ok(values) => Ok(Some(values)),
            Err(fault) => Err(fault),
        },
        None => Ok(None),
    }
}

/// The transaction that the texts spell. Where several of them are faulty, the
/// first fault counts: account keys come before the blockhash, then the
/// instructions, the lookups and the signatures.
pub open spec fn assembled(read: ReadTransactionView) -> Result<TransactionView, DecodeError> {
    match collected(read.account_keys) {
        Err(fault) => Err(DecodeError::Pubkey(fault)),
        Ok(account_keys) => match read.recent_blockhash {
            Err(fault) => Err(DecodeError::Blockhash(fault)),
            Ok(recent_blockhash) => match collected(read.instructions) {
                Err(fault) => Err(DecodeError::InstructionData(fault)),
                Ok(instructions) => match collected_lookups(read.address_table_lookups) {
                    Err(fault) => Err(DecodeError::Pubkey(fault)),
                    Ok(address_table_lookups) => match collected(read.signatures) {
                        Err(fault) => Err(DecodeError::Signature(fault)),
                        Ok(signatures) => Ok(
                            TransactionView {
                                signatures,
                                message: MessageView {
                                    header: read.header,
                                    account_keys,
                                    recent_blockhash,
                                    instructions,
                                    address_table_lookups,
                                },
                            },
                        ),
                    },
                },
            },
        },
    }
}

/// An instruction with its data read from base 58.
pub open spec fn read_instruction(
    instruction: UiCompiledInstruction,
) -> Result<InstructionView, Base58Fault> {
    match bytes_of_base58(instruction.data@) {
        Ok(data) => Ok(
            InstructionView {
                program_id_index: instruction.program_id_index,
                accounts: instruction.accounts@,
                data,
            },
        ),
        Err(fault) => Err(fault),
    }
}

/// A lookup with its table's key read from base 58.
pub open spec fn read_lookup(lookup: UiAddressTableLookup) -> Result<LookupView, ParseFault> {
    match pubkey_of_text(lookup.account_key@) {
        Ok(account_key) => Ok(
            LookupView {
                account_key,
                writable_indexes: lookup.writable_indexes@,
                readonly_indexes: lookup.readonly_indexes@,
            },
        ),
        Err(fault) => Err(fault),
    }
}

/// What reading each text of a JSON transaction comes to.
pub open spec fn read_texts(
    signatures: Seq<String>,
    message: UiRawMessage,
) -> ReadTransactionView {
    ReadTransactionView {
        header: message.header,
        account_keys: Seq::new(
            message.account_keys@.len(),
            |i: int| pubkey_of_text(message.account_keys@[i]@),
        ),
        recent_blockhash: hash_of_text(message.recent_blockhash@),
        instructions: Seq::new(
            message.instructions@.len(),
            |i: int| read_instruction(message.instructions@[i]),
        ),
        address_table_lookups: match message.address_table_lookups {
            Some(lookups) => Some(Seq::new(lookups@.len(), |i: int| read_lookup(lookups@[i]))),
            None => None,
        },
        signatures: Seq::new(signatures.len(), |i: int| signature_of_text(signatures[i]@)),
    }
}

/// The transaction that a blob stands for, or the error that it stands for none.
pub open spec fn binary_outcome(
    transaction: Option<TransactionView>,
) -> Result<TransactionView, DecodeError> {
    match transaction {
        Some(transaction) => Ok(transaction),
        None => Err(DecodeError::UndecodableBinary),
    }
}

/// The transaction that an encoded transaction stands for. Blobs and raw JSON
/// can be decoded; lists of accounts and parsed JSON cannot.
pub open spec fn decoded(transaction: EncodedTransaction) -> Result<TransactionView, DecodeError> {
    match transaction {
        EncodedTransaction::LegacyBinary(blob) => binary_outcome(transaction_of_blob(blob@, false)),
        EncodedTransaction::Binary(blob, encoding) => binary_outcome(
            transaction_of_blob(blob@, encoding == TransactionBinaryEncoding::Base64),
        ),
        EncodedTransaction::Json(json) => match json.message {
            UiMessage::Raw(message) => assembled(read_texts(json.signatures@, message)),
            UiMessage::Parsed => Err(DecodeError::UnsupportedParsedMessage),
        },
        EncodedTransaction::Accounts => Err(DecodeError::UnsupportedAccounts),
    }
}

fn copy_bytes(bytes: &Vec<u8>) -> (copy: Vec<u8>)
    ensures
        copy@ == bytes@,
{
    let copy: Vec<u8> = bytes.clone();
    assert(copy@ =~= bytes@);
    copy
}

fn read_pubkeys(texts: &Vec<String>) -> (keys: Vec<Result<Pubkey, ParseFault>>)
    ensures
        result_views(keys@) == Seq::new(texts@.len(), |i: int| pubkey_of_text(texts@[i]@)),
{
    let mut keys: Vec<Result<Pubkey, ParseFault>> = Vec::new();
    for i in 0..texts.len()
        invariant
            keys@.len() == i,
            forall|j: int|
                0 <= j < i ==> result_view(#[trigger] keys@[j]) == pubkey_of_text(texts@[j]@),
    {
        keys.push(parse_pubkey(texts[i].as_str()));
    }
    assert(result_views(keys@) =~= Seq::new(texts@.len(), |i: int| pubkey_of_text(texts@[i]@)));
    keys
}

fn read_signatures(texts: &Vec<String>) -> (signatures: Vec<Result<Signature, ParseFault>>)
    ensures
        result_views(signatures@) == Seq::new(
            texts@.len(),
            |i: int| signature_of_text(texts@[i]@),
        ),
{
    let mut signatures: Vec<Result<Signature, ParseFault>> = Vec::new();
    for i in 0..texts.len()
        invariant
            signatures@.len() == i,
            forall|j: int|
                0 <= j < i ==> result_view(#[trigger] signatures@[j]) == signature_of_text(
                    texts@[j]@,
                ),
    {
        signatures.push(parse_signature(texts[i].as_str()));
    }
    assert(result_views(signatures@) =~= Seq::new(
        texts@.len(),
        |i: int| signature_of_text(texts@[i]@),
    ));
    signatures
}

fn read_instructions(instructions: &Vec<UiCompiledInstruction>) -> (read: Vec<
    Result<CompiledInstruction, Base58Fault>,
>)
    ensures
        result_views(read@) == Seq::new(
            instructions@.len(),
            |i: int| read_instruction(instructions@[i]),
        ),
{
    let mut read: Vec<Result<CompiledInstruction, Base58Fault>> = Vec::new();
    for i in 0..instructions.len()
        invariant
            read@.len() == i,
            forall|j: int|
                0 <= j < i ==> result_view(#[trigger] read@[j]) == read_instruction(
                    instructions@[j],
                ),
    {
        let instruction = &instructions[i];
        match decode_base58(instruction.data.as_str()) {
            Ok(data) => {
                read.push(
                    Ok(
                        CompiledInstruction {
                            program_id_index: instruction.program_id_index,
                            accounts: copy_bytes(&instruction.accounts),
                            data,
                        },
                    ),
                );
            },
            Err(fault) => {
                read.push(Err(fault));
            },
        }
    }
    assert(result_views(read@) =~= Seq::new(
        instructions@.len(),
        |i: int| read_instruction(instructions@[i]),
    ));
    read
}

fn read_lookups(lookups: &Vec<UiAddressTableLookup>) -> (read: Vec<
    Result<MessageAddressTableLookup, ParseFault>,
>)
    ensures
        result_views(read@) == Seq::new(lookups@.len(), |i: int| read_lookup(lookups@[i])),
{
    let mut read: Vec<Result<MessageAddressTableLookup, ParseFault>> = Vec::new();
    for i in 0..lookups.len()
        invariant
            read@.len() == i,
            forall|j: int|
                0 <= j < i ==> result_view(#[trigger] read@[j]) == read_lookup(lookups@[j]),
    {
        let lookup = &lookups[i];
        match parse_pubkey(lookup.account_key.as_str()) {
            Ok(account_key) => {
                read.push(
                    Ok(
                        MessageAddressTableLookup {
                            account_key,
                            writable_indexes: copy_bytes(&lookup.writable_indexes),
                            readonly_indexes: copy_bytes(&lookup.readonly_indexes),
                        },
                    ),
                );
            },
            Err(fault) => {
                read.push(Err(fault));
            },
        }
    }
    assert(result_views(read@) =~= Seq::new(lookups@.len(), |i: int| read_lookup(lookups@[i])));
    read
}

/// Reads every text of a JSON transaction.
fn read_transaction(signatures: &Vec<String>, message: &UiRawMessage) -> (read: ReadTransaction)
    ensures
        read@ == read_texts(signatures@, *message),
{
    let address_table_lookups = match &message.address_table_lookups {
        Some(lookups) => Some(read_lookups(lookups)),
        None => None,
    };
    ReadTransaction {
        header: message.header,
        account_keys: read_pubkeys(&message.account_keys),
        recent_blockhash: parse_hash(message.recent_blockhash.as_str()),
        instructions: read_instructions(&message.instructions),
        address_table_lookups,
        signatures: read_signatures(signatures),
    }
}

/// Puts a message together. It is of version 0 exactly when it has a list of
/// lookups, be it empty.
pub fn assemble_message(
    header: MessageHeader,
    account_keys: Vec<Pubkey>,
    recent_blockhash: Blockhash,
    instructions: Vec<CompiledInstruction>,
    address_table_lookups: Option<Vec<MessageAddressTableLookup>>,
) -> (message: VersionedMessage)
    ensures
        message is V0 <==> address_table_lookups is Some,
        message@ == (MessageView {
            header,
            account_keys: views(account_keys@),
            recent_blockhash: recent_blockhash@,
            instructions: views(instructions@),
            address_table_lookups: match address_table_lookups {
                Some(lookups) => Some(views(lookups@)),
                None => None,
            },
        }),
{
    match address_table_lookups {
        Some(address_table_lookups) => VersionedMessage::V0(
            MessageV0 {
                header,
                account_keys,
                recent_blockhash,
                instructions,
                address_table_lookups,
            },
        ),
        None => VersionedMessage::Legacy(
            LegacyMessage { header, account_keys, recent_blockhash, instructions },
        ),
    }
}

/// Puts a transaction together from its texts as they were read, or gives the
/// first fault in them.
pub fn assemble(read: ReadTransaction) -> (transaction: Result<VersionedTransaction, DecodeError>)
    ensures
        result_view(transaction) == assembled(read@),
{
    proof {
        collected_commutes_with_views(read.account_keys@);
        collected_commutes_with_views(read.instructions@);
        collected_commutes_with_views(read.signatures@);
    }
    let account_keys = match collect_results(read.account_keys) {
        Ok(account_keys) => account_keys,
        Err(fault) => return Err(DecodeError::Pubkey(fault)),
    };
    let recent_blockhash = match read.recent_blockhash {
        Ok(recent_blockhash) => recent_blockhash,
        Err(fault) => return Err(DecodeError::Blockhash(fault)),
    };
    let instructions = match collect_results(read.instructions) {
        Ok(instructions) => instructions,
        Err(fault) => return Err(DecodeError::InstructionData(fault)),
    };
    let address_table_lookups = match read.address_table_lookups {
        Some(lookups) => {
            proof {
                collected_commutes_with_views(lookups@);
            }
            match collect_results(lookups) {
                Ok(lookups) => Some(lookups),
                Err(fault) => return Err(DecodeError::Pubkey(fault)),
            }
        },
        None => None,
    };
    let message = assemble_message(
        read.header,
        account_keys,
        recent_blockhash,
        instructions,
        address_table_lookups,
    );
    let signatures = match collect_results(read.signatures) {
        Ok(signatures) => signatures,
        Err(fault) => return Err(DecodeError::Signature(fault)),
    };
    Ok(VersionedTransaction { signatures, message })
}

/// Puts a transaction together from what decoding a blob came to.
pub fn assemble_binary(fields: Option<TransactionFields>) -> (transaction: Result<
    VersionedTransaction,
    DecodeError,
>)
    ensures
        result_view(transaction) == binary_outcome(
            match fields {
                Some(fields) => Some(transaction_of_fields(fields)),
                None => None,
            },
        ),
{
    let (signatures, header, account_keys, recent_blockhash, instructions, lookups) = match fields {
        Some(fields) => fields,
        None => return Err(DecodeError::UndecodableBinary),
    };
    let address_table_lookups = match lookups {
        Some(lookups) => Some(name_lookups(lookups)),
        None => None,
    };
    let header = MessageHeader {
        num_required_signatures: header[0],
        num_readonly_signed_accounts: header[1],
        num_readonly_unsigned_accounts: header[2],
    };
    let message = assemble_message(
        header,
        account_keys,
        recent_blockhash,
        name_instructions(instructions),
        address_table_lookups,
    );
    Ok(VersionedTransaction { signatures, message })
}

fn name_instructions(fields: Vec<(u8, Vec<u8>, Vec<u8>)>) -> (instructions: Vec<
    CompiledInstruction,
>)
    ensures
        views(instructions@) == instructions_of_fields(fields@),
{
    let ghost all = fields@;
    let mut instructions: Vec<CompiledInstruction> = Vec::new();
    for item in it: fields.into_iter()
        invariant
            it.seq() == all,
            instructions@.len() == it.index(),
            forall|j: int|
                0 <= j < it.index() ==> (#[trigger] instructions@[j])@ == instruction_of_fields(
                    all[j],
                ),
    {
        let (program_id_index, accounts, data) = item;
        instructions.push(CompiledInstruction { program_id_index, accounts, data });
    }
    assert(views(instructions@) =~= instructions_of_fields(all));
    instructions
}

fn name_lookups(fields: Vec<(Pubkey, Vec<u8>, Vec<u8>)>) -> (lookups: Vec<
    MessageAddressTableLookup,
>)
    ensures
        views(lookups@) == lookups_of_fields(fields@),
{
    let ghost all = fields@;
    let mut lookups: Vec<MessageAddressTableLookup> = Vec::new();
    for item in it: fields.into_iter()
        invariant
            it.seq() == all,
            lookups@.len() == it.index(),
            forall|j: int|
                0 <= j < it.index() ==> (#[trigger] lookups@[j])@ == lookup_of_fields(all[j]),
    {
        let (account_key, writable_indexes, readonly_indexes) = item;
        lookups.push(
            MessageAddressTableLookup { account_key, writable_indexes, readonly_indexes },
        );
    }
    assert(views(lookups@) =~= lookups_of_fields(all));
    lookups
}

/// Decodes a transaction.
///
/// A blob of the legacy form is an old way of writing base 58.
pub fn decode(transaction: &EncodedTransaction) -> (outcome: Result<
    VersionedTransaction,
    DecodeError,
>)
    ensures
        result_view(outcome) == decoded(*transaction),
{
    match transaction {
        EncodedTransaction::LegacyBinary(blob) => assemble_binary(decode_blob(blob.clone(), false)),
        EncodedTransaction::Binary(blob, encoding) => assemble_binary(
            decode_blob(blob.clone(), *encoding == TransactionBinaryEncoding::Base64),
        ),
        EncodedTransaction::Json(json) => match &json.message {
            UiMessage::Raw(message) => assemble(read_transaction(&json.signatures, message)),
            UiMessage::Parsed => Err(DecodeError::UnsupportedParsedMessage),
        },
        EncodedTransaction::Accounts => Err(DecodeError::UnsupportedAccounts),
    }
}

/// Whether every text of a JSON transaction can be read.
pub open spec fn readable(signatures: Seq<String>, message: UiRawMessage) -> bool {
    &&& forall|i: int|
        0 <= i < message.account_keys@.len() ==> pubkey_of_text(
            (#[trigger] message.account_keys@[i])@,
        ) is Ok
    &&& hash_of_text(message.recent_blockhash@) is Ok
    &&& forall|i: int|
        0 <= i < message.instructions@.len() ==> bytes_of_base58(
            (#[trigger] message.instructions@[i]).data@,
        ) is Ok
    &&& message.address_table_lookups matches Some(lookups) ==> forall|i: int|
        0 <= i < lookups@.len() ==> pubkey_of_text((#[trigger] lookups@[i]).account_key@) is Ok
    &&& forall|i: int|
        0 <= i < signatures.len() ==> signature_of_text((#[trigger] signatures[i])@) is Ok
}

/// Whether a transaction is the one that a JSON transaction spells: the same
/// header, and for each text, in its place, what the text stands for.
pub open spec fn spells(
    signatures: Seq<String>,
    message: UiRawMessage,
    transaction: TransactionView,
) -> bool {
    let decoded = transaction.message;
    &&& decoded.header == message.header
    &&& decoded.account_keys.len() == message.account_keys@.len()
    &&& forall|i: int|
        0 <= i < message.account_keys@.len() ==> pubkey_of_text(
            (#[trigger] message.account_keys@[i])@,
        ) == Ok::<Seq<u8>, ParseFault>(decoded.account_keys[i])
    &&& hash_of_text(message.recent_blockhash@) == Ok::<Seq<u8>, ParseFault>(
        decoded.recent_blockhash,
    )
    &&& decoded.instructions.len() == message.instructions@.len()
    &&& forall|i: int|
        0 <= i < message.instructions@.len() ==> {
            &&& decoded.instructions[i].program_id_index == (
            #[trigger] message.instructions@[i]).program_id_index
            &&& decoded.instructions[i].accounts == message.instructions@[i].accounts@
            &&& bytes_of_base58(message.instructions@[i].data@) == Ok::<Seq<u8>, Base58Fault>(
                decoded.instructions[i].data,
            )
        }
    &&& match (message.address_table_lookups, decoded.address_table_lookups) {
        (Some(texts), Some(lookups)) => {
            &&& lookups.len() == texts@.len()
            &&& forall|i: int|
                0 <= i < texts@.len() ==> {
                    &&& pubkey_of_text((#[trigger] texts@[i]).account_key@) == Ok::<
                        Seq<u8>,
                        ParseFault,
                    >(lookups[i].account_key)
                    &&& lookups[i].writable_indexes == texts@[i].writable_indexes@
                    &&& lookups[i].readonly_indexes == texts@[i].readonly_indexes@
                }
        },
        (None, None) => true,
        _ => false,
    }
    &&& transaction.signatures.len() == signatures.len()
    &&& forall|i: int|
        0 <= i < signatures.len() ==> signature_of_text((#[trigger] signatures[i])@) == Ok::<
            Seq<u8>,
            ParseFault,
        >(transaction.signatures[i])
}

/// A raw JSON transaction decodes exactly when every text in it can be read, and
/// then to the transaction that it spells. In particular the message comes out
/// in version 0 exactly when lookups are given, and as a legacy message
/// otherwise.
pub proof fn raw_json_decodes_to_what_it_spells(json: UiTransaction, message: UiRawMessage)
    requires
        json.message == UiMessage::Raw(message),
    ensures
        decoded(EncodedTransaction::Json(json)) is Ok <==> readable(json.signatures@, message),
        decoded(EncodedTransaction::Json(json)) matches Ok(transaction) ==> spells(
            json.signatures@,
            message,
            transaction,
        ),
{
    let signatures = json.signatures@;
    let read = read_texts(signatures, message);
    collected_is_ok_iff_all_are(read.account_keys);
    collected_is_ok_iff_all_are(read.instructions);
    collected_is_ok_iff_all_are(read.signatures);
    assert(forall|i: int|
        0 <= i < message.account_keys@.len() ==> read.account_keys[i] == pubkey_of_text(
            (#[trigger] message.account_keys@[i])@,
        ));
    assert(forall|i: int|
        0 <= i < message.instructions@.len() ==> read.instructions[i] == read_instruction(
            #[trigger] message.instructions@[i],
        ));
    assert(forall|i: int|
        0 <= i < signatures.len() ==> read.signatures[i] == signature_of_text(
            (#[trigger] signatures[i])@,
        ));
    if let Some(texts) = message.address_table_lookups {
        let lookups = read.address_table_lookups->0;
        collected_is_ok_iff_all_are(lookups);
        assert(forall|i: int|
            0 <= i < texts@.len() ==> lookups[i] == read_lookup(#[trigger] texts@[i]));
    }
}

/// A blob decodes exactly when `solana_transaction_status_client_types` can read
/// it, and then to the transaction that was read. A blob of the legacy form
/// decodes as one in base 58.
pub proof fn blobs_decode_to_what_is_read(blob: String, encoding: TransactionBinaryEncoding)
    ensures
        decoded(EncodedTransaction::Binary(blob, encoding)) is Ok <==> transaction_of_blob(
            blob@,
            encoding is Base64,
        ) is Some,
        transaction_of_blob(blob@, encoding is Base64) matches Some(transaction) ==> decoded(
            EncodedTransaction::Binary(blob, encoding),
        ) == Ok::<TransactionView, DecodeError>(transaction),
        decoded(EncodedTransaction::LegacyBinary(blob)) == decoded(
            EncodedTransaction::Binary(blob, TransactionBinaryEncoding::Base58),
        ),
{
}

/// Each reason not to decode comes from one form of transaction only: only lists
/// of accounts, parsed JSON and blobs give the first three, and only raw JSON the
/// others.
pub proof fn each_form_fails_in_its_own_way(transaction: EncodedTransaction)
    ensures
        decoded(transaction) == Err::<TransactionView, DecodeError>(
            DecodeError::UnsupportedAccounts,
        ) <==> transaction is Accounts,
        decoded(transaction) == Err::<TransactionView, DecodeError>(
            DecodeError::UnsupportedParsedMessage,
        ) <==> (transaction matches EncodedTransaction::Json(json) && json.message is Parsed),
        decoded(transaction) == Err::<TransactionView, DecodeError>(DecodeError::UndecodableBinary)
            ==> transaction is LegacyBinary || transaction is Binary,
        decoded(transaction) matches Err(e) && (e is Pubkey || e is Blockhash || e is InstructionData
            || e is Signature) ==> (transaction matches EncodedTransaction::Json(json)
            && json.message is Raw),
{
}

/// Every part of a raw JSON transaction that decodes is kept, field by field and in
/// its place: signatures, header, account keys, blockhash, and of each instruction
/// and each lookup all three fields.
pub proof fn raw_json_keeps_every_field(
    json: UiTransaction,
    message: UiRawMessage,
    outcome: Result<VersionedTransaction, DecodeError>,
)
    requires
        json.message == UiMessage::Raw(message),
        result_view(outcome) == decoded(EncodedTransaction::Json(json)),
        outcome is Ok,
    ensures
        ({
            let transaction = outcome->Ok_0;
            let seen = transaction@.message;
            &&& transaction.signatures@.len() == json.signatures@.len()
            &&& forall|i: int|
                0 <= i < json.signatures@.len() ==> signature_of_text(
                    (#[trigger] json.signatures@[i])@,
                ) == Ok::<Seq<u8>, ParseFault>(transaction.signatures@[i]@)
            &&& seen.header == message.header
            &&& seen.account_keys.len() == message.account_keys@.len()
            &&& forall|i: int|
                0 <= i < message.account_keys@.len() ==> pubkey_of_text(
                    (#[trigger] message.account_keys@[i])@,
                ) == Ok::<Seq<u8>, ParseFault>(seen.account_keys[i])
            &&& hash_of_text(message.recent_blockhash@) == Ok::<Seq<u8>, ParseFault>(
                seen.recent_blockhash,
            )
            &&& seen.instructions.len() == message.instructions@.len()
            &&& forall|i: int|
                0 <= i < message.instructions@.len() ==> {
                    &&& seen.instructions[i].program_id_index == (
                    #[trigger] message.instructions@[i]).program_id_index
                    &&& seen.instructions[i].accounts == message.instructions@[i].accounts@
                    &&& bytes_of_base58(message.instructions@[i].data@) == Ok::<
                        Seq<u8>,
                        Base58Fault,
                    >(seen.instructions[i].data)
                }
            &&& transaction.message is V0 <==> message.address_table_lookups is Some
            &&& message.address_table_lookups matches Some(texts) ==> {
                let lookups = transaction.message->V0_0.address_table_lookups@;
                &&& lookups.len() == texts@.len()
                &&& forall|i: int|
                    0 <= i < texts@.len() ==> {
                        &&& pubkey_of_text((#[trigger] texts@[i]).account_key@) == Ok::<
                            Seq<u8>,
                            ParseFault,
                        >(lookups[i].account_key@)
                        &&& lookups[i].writable_indexes@ == texts@[i].writable_indexes@
                        &&& lookups[i].readonly_indexes@ == texts@[i].readonly_indexes@
                    }
            }
        }),
{
    raw_json_decodes_to_what_it_spells(json, message);
    let transaction = outcome->Ok_0;
    assert(spells(json.signatures@, message, transaction@));
    assert(transaction@.signatures.len() == transaction.signatures@.len());
    assert forall|i: int| 0 <= i < json.signatures@.len() implies signature_of_text(
        (#[trigger] json.signatures@[i])@,
    ) == Ok::<Seq<u8>, ParseFault>(transaction.signatures@[i]@) by {
        assert(transaction@.signatures[i] == transaction.signatures@[i]@);
    }
    if let Some(texts) = message.address_table_lookups {
        let lookups = transaction.message->V0_0.address_table_lookups@;
        let seen = transaction@.message.address_table_lookups->0;
        assert(seen == views(lookups));
        assert forall|i: int| 0 <= i < texts@.len() implies {
            &&& pubkey_of_text((#[trigger] texts@[i]).account_key@) == Ok::<Seq<u8>, ParseFault>(
                lookups[i].account_key@,
            )
            &&& lookups[i].writable_indexes@ == texts@[i].writable_indexes@
            &&& lookups[i].readonly_indexes@ == texts@[i].readonly_indexes@
        } by {
            assert(seen[i] == lookups[i]@);
        }
    }
}

/// A raw JSON transaction decodes exactly when each of its texts can be read by
/// itself.
pub proof fn raw_json_decodes_if_every_text_can_be_read(json: UiTransaction, message: UiRawMessage)
    requires
        json.message == UiMessage::Raw(message),
    ensures
        decoded(EncodedTransaction::Json(json)) is Ok <==> {
            &&& forall|i: int|
                0 <= i < message.account_keys@.len() ==> pubkey_of_text(
                    (#[trigger] message.account_keys@[i])@,
                ) is Ok
            &&& hash_of_text(message.recent_blockhash@) is Ok
            &&& forall|i: int|
                0 <= i < message.instructions@.len() ==> bytes_of_base58(
                    (#[trigger] message.instructions@[i]).data@,
                ) is Ok
            &&& message.address_table_lookups matches Some(lookups) ==> forall|i: int|
                0 <= i < lookups@.len() ==> pubkey_of_text(
                    (#[trigger] lookups@[i]).account_key@,
                ) is Ok
            &&& forall|i: int|
                0 <= i < json.signatures@.len() ==> signature_of_text(
                    (#[trigger] json.signatures@[i])@,
                ) is Ok
        },
{
    raw_json_decodes_to_what_it_spells(json, message);
}

/// Putting readings together succeeds exactly when every one of them succeeded, and
/// keeps each in its place.
pub proof fn readings_are_kept_in_place(read: ReadTransactionView)
    ensures
        assembled(read) is Ok <==> {
            &&& forall|i: int|
                0 <= i < read.account_keys.len() ==> #[trigger] read.account_keys[i] is Ok
            &&& read.recent_blockhash is Ok
            &&& forall|i: int|
                0 <= i < read.instructions.len() ==> #[trigger] read.instructions[i] is Ok
            &&& read.address_table_lookups matches Some(lookups) ==> forall|i: int|
                0 <= i < lookups.len() ==> #[trigger] lookups[i] is Ok
            &&& forall|i: int| 0 <= i < read.signatures.len() ==> #[trigger] read.signatures[i] is Ok
        },
        assembled(read) matches Ok(transaction) ==> {
            let message = transaction.message;
            &&& message.header == read.header
            &&& message.account_keys.len() == read.account_keys.len()
            &&& forall|i: int|
                0 <= i < read.account_keys.len() ==> #[trigger] read.account_keys[i] == Ok::<
                    Seq<u8>,
                    ParseFault,
                >(message.account_keys[i])
            &&& read.recent_blockhash == Ok::<Seq<u8>, ParseFault>(message.recent_blockhash)
            &&& message.instructions.len() == read.instructions.len()
            &&& forall|i: int|
                0 <= i < read.instructions.len() ==> #[trigger] read.instructions[i] == Ok::<
                    InstructionView,
                    Base58Fault,
                >(message.instructions[i])
            &&& message.address_table_lookups is Some <==> read.address_table_lookups is Some
            &&& read.address_table_lookups matches Some(lookups) ==> {
                &&& message.address_table_lookups->0.len() == lookups.len()
                &&& forall|i: int|
                    0 <= i < lookups.len() ==> #[trigger] lookups[i] == Ok::<
                        LookupView,
                        ParseFault,
                    >(message.address_table_lookups->0[i])
            }
            &&& transaction.signatures.len() == read.signatures.len()
            &&& forall|i: int|
                0 <= i < read.signatures.len() ==> #[trigger] read.signatures[i] == Ok::<
                    Seq<u8>,
                    ParseFault,
                >(transaction.signatures[i])
        },
{
    collected_is_ok_iff_all_are(read.account_keys);
    collected_is_ok_iff_all_are(read.instructions);
    collected_is_ok_iff_all_are(read.signatures);
    if let Some(lookups) = read.address_table_lookups {
        collected_is_ok_iff_all_are(lookups);
    }
}

/// Of several faulty readings one is reported: the first faulty account key, else a
/// faulty blockhash, else the first faulty instruction, else the first faulty
/// lookup, else the first faulty signature.
pub proof fn the_first_faulty_reading_is_reported(read: ReadTransactionView, n: int)
    ensures
        ({
            let outcome = assembled(read);
            let keys_read = forall|i: int|
                0 <= i < read.account_keys.len() ==> #[trigger] read.account_keys[i] is Ok;
            let hash_read = read.recent_blockhash is Ok;
            let instructions_read = forall|i: int|
                0 <= i < read.instructions.len() ==> #[trigger] read.instructions[i] is Ok;
            let lookups_read = read.address_table_lookups matches Some(lookups) ==> forall|i: int|
                0 <= i < lookups.len() ==> #[trigger] lookups[i] is Ok;
            &&& is_first_fault(read.account_keys, n) ==> outcome == Err::<
                TransactionView,
                DecodeError,
            >(DecodeError::Pubkey(read.account_keys[n]->Err_0))
            &&& keys_read && !hash_read ==> outcome == Err::<TransactionView, DecodeError>(
                DecodeError::Blockhash(read.recent_blockhash->Err_0),
            )
            &&& keys_read && hash_read && is_first_fault(read.instructions, n) ==> outcome == Err::<
                TransactionView,
                DecodeError,
            >(DecodeError::InstructionData(read.instructions[n]->Err_0))
            &&& keys_read && hash_read && instructions_read ==> match read.address_table_lookups {
                Some(lookups) => is_first_fault(lookups, n) ==> outcome == Err::<
                    TransactionView,
                    DecodeError,
                >(DecodeError::Pubkey(lookups[n]->Err_0)),
                None => true,
            }
            &&& keys_read && hash_read && instructions_read && lookups_read && is_first_fault(
                read.signatures,
                n,
            ) ==> outcome == Err::<TransactionView, DecodeError>(
                DecodeError::Signature(read.signatures[n]->Err_0),
            )
        }),
{
    collected_is_ok_iff_all_are(read.account_keys);
    collected_is_ok_iff_all_are(read.instructions);
    if is_first_fault(read.account_keys, n) {
        collected_error_comes_first(read.account_keys, n);
    }
    if is_first_fault(read.instructions, n) {
        collected_error_comes_first(read.instructions, n);
    }
    if is_first_fault(read.signatures, n) {
        collected_error_comes_first(read.signatures, n);
    }
    if let Some(lookups) = read.address_table_lookups {
        collected_is_ok_iff_all_are(lookups);
        if is_first_fault(lookups, n) {
            collected_error_comes_first(lookups, n);
        }
    }
}

/// Whether the result in a place is an error and none before it is.
pub open spec fn is_first_fault<T, E>(results: Seq<Result<T, E>>, n: int) -> bool {
    &&& 0 <= n < results.len()
    &&& results[n] is Err
    &&& forall|i: int| 0 <= i < n ==> #[trigger] results[i] is Ok
}

/// The texts of a raw JSON transaction are read one by one: account keys, blockhash,
/// instruction data, the keys of lookups and signatures. What is not text is
/// passed on as it is.
pub proof fn texts_are_read_one_by_one(
    json: UiTransaction,
    message: UiRawMessage,
)
    requires
        json.message == UiMessage::Raw(message),
    ensures
        ({
            let read = read_texts(json.signatures@, message);
            &&& decoded(EncodedTransaction::Json(json)) == assembled(read)
            &&& read.header == message.header
            &&& read.account_keys.len() == message.account_keys@.len()
            &&& forall|i: int|
                0 <= i < message.account_keys@.len() ==> read.account_keys[i] == pubkey_of_text(
                    (#[trigger] message.account_keys@[i])@,
                )
            &&& read.recent_blockhash == hash_of_text(message.recent_blockhash@)
            &&& read.instructions.len() == message.instructions@.len()
            &&& forall|i: int|
                0 <= i < message.instructions@.len() ==> match bytes_of_base58(
                    (#[trigger] message.instructions@[i]).data@,
                ) {
                    Ok(bytes) => read.instructions[i] matches Ok(instruction)
                        && instruction.program_id_index == message.instructions@[i].program_id_index
                        && instruction.accounts == message.instructions@[i].accounts@
                        && instruction.data == bytes,
                    Err(fault) => read.instructions[i] == Err::<InstructionView, Base58Fault>(
                        fault,
                    ),
                }
            &&& read.address_table_lookups is Some <==> message.address_table_lookups is Some
            &&& message.address_table_lookups matches Some(texts) ==> {
                let lookups = read.address_table_lookups->0;
                &&& lookups.len() == texts@.len()
                &&& forall|i: int|
                    0 <= i < texts@.len() ==> match pubkey_of_text(
                        (#[trigger] texts@[i]).account_key@,
                    ) {
                        Ok(key) => lookups[i] matches Ok(lookup) && lookup.account_key == key
                            && lookup.writable_indexes == texts@[i].writable_indexes@
                            && lookup.readonly_indexes == texts@[i].readonly_indexes@,
                        Err(fault) => lookups[i] == Err::<LookupView, ParseFault>(fault),
                    }
            }
            &&& read.signatures.len() == json.signatures@.len()
            &&& forall|i: int|
                0 <= i < json.signatures@.len() ==> read.signatures[i] == signature_of_text(
                    (#[trigger] json.signatures@[i])@,
                )
        }),
{
}

/// The view of readings shows each of them in its place.
pub proof fn readings_are_seen_whole(read: ReadTransaction)
    ensures
        read@.header == read.header,
        read@.account_keys == result_views(read.account_keys@),
        read@.recent_blockhash == result_view(read.recent_blockhash),
        read@.instructions == result_views(read.instructions@),
        read@.address_table_lookups is Some <==> read.address_table_lookups is Some,
        read.address_table_lookups matches Some(lookups) ==> read@.address_table_lookups->0
            == result_views(lookups@),
        read@.signatures == result_views(read.signatures@),
{
}

/// The fields of a decoded blob are kept one by one, each item of a list in its
/// place. The message is of version 0 exactly when there is a list of lookups.
pub proof fn blob_fields_are_kept(
    fields: TransactionFields,
    outcome: Result<VersionedTransaction, DecodeError>,
)
    requires
        result_view(outcome) == binary_outcome(Some(transaction_of_fields(fields))),
    ensures
        outcome is Ok,
        ({
            let transaction = outcome->Ok_0;
            let seen = transaction@.message;
            &&& transaction.signatures@.len() == fields.0@.len()
            &&& forall|i: int|
                0 <= i < fields.0@.len() ==> (#[trigger] fields.0@[i])@
                    == transaction.signatures@[i]@
            &&& seen.header.num_required_signatures == fields.1@[0]
            &&& seen.header.num_readonly_signed_accounts == fields.1@[1]
            &&& seen.header.num_readonly_unsigned_accounts == fields.1@[2]
            &&& seen.account_keys.len() == fields.2@.len()
            &&& forall|i: int|
                0 <= i < fields.2@.len() ==> (#[trigger] fields.2@[i])@ == seen.account_keys[i]
            &&& seen.recent_blockhash == fields.3@
            &&& seen.instructions.len() == fields.4@.len()
            &&& forall|i: int|
                0 <= i < fields.4@.len() ==> {
                    &&& seen.instructions[i].program_id_index == (#[trigger] fields.4@[i]).0
                    &&& seen.instructions[i].accounts == fields.4@[i].1@
                    &&& seen.instructions[i].data == fields.4@[i].2@
                }
            &&& transaction.message is V0 <==> fields.5 is Some
            &&& fields.5 matches Some(given) ==> {
                let lookups = seen.address_table_lookups->0;
                &&& lookups.len() == given@.len()
                &&& forall|i: int|
                    0 <= i < given@.len() ==> {
                        &&& lookups[i].account_key == (#[trigger] given@[i]).0@
                        &&& lookups[i].writable_indexes == given@[i].1@
                        &&& lookups[i].readonly_indexes == given@[i].2@
                    }
            }
        }),
{
    let transaction = outcome->Ok_0;
    assert(transaction@ == transaction_of_fields(fields));
    assert(transaction@.signatures.len() == transaction.signatures@.len());
    assert forall|i: int| 0 <= i < fields.0@.len() implies (#[trigger] fields.0@[i])@
        == transaction.signatures@[i]@ by {
        assert(transaction@.signatures[i] == transaction.signatures@[i]@);
    }
}

/// A blob that cannot be read gives one error, in every encoding, and a blob of
/// the legacy form is read as base 58.
pub proof fn unreadable_blobs_are_reported(blob: String, encoding: TransactionBinaryEncoding)
    ensures
        decoded(EncodedTransaction::Binary(blob, encoding)) == match transaction_of_blob(
            blob@,
            encoding is Base64,
        ) {
            Some(transaction) => Ok::<TransactionView, DecodeError>(transaction),
            None => Err(DecodeError::UndecodableBinary),
        },
        decoded(EncodedTransaction::LegacyBinary(blob)) == match transaction_of_blob(blob@, false) {
            Some(transaction) => Ok::<TransactionView, DecodeError>(transaction),
            None => Err(DecodeError::UndecodableBinary),
        },
        binary_outcome(None) == Err::<TransactionView, DecodeError>(DecodeError::UndecodableBinary),
{
}

/// Only the errors that do not come from reading a text have a message of their
/// own, and no two have the same.
pub proof fn messages_tell_errors_apart(a: DecodeError, b: DecodeError)
    ensures
        a.spec_message() is Some <==> a is UnsupportedAccounts || a is UndecodableBinary
            || a is UnsupportedParsedMessage,
        a.spec_message() is Some && a.spec_message() == b.spec_message() ==> a == b,
{
    reveal_strlit("Decoding accounts encoded transactions is unsupported");
    reveal_strlit("Failed to decode suupported tx variant");
    reveal_strlit("Decoding parsed UI messages is unsupported");
    if a.spec_message() is Some && a.spec_message() == b.spec_message() {
        assert(a.spec_message()->0.len() == b.spec_message()->0.len());
    }
}

} // verus!
