//! Decoded transactions and the messages in them.

use crate::results::views;
use vstd::prelude::*;

verus! {

/// The address of an account.
pub type Pubkey = [u8; 32];

/// The hash of a ledger entry.
pub type Blockhash = [u8; 32];

/// A signature over a message.
pub type Signature = [u8; 64];

/// How the account keys of a message divide into signers and read-only
/// accounts.
#[derive(Debug, Clone, Copy, PartialEq, Eq, Structural)]
pub struct MessageHeader {
    pub num_required_signatures: u8,
    pub num_readonly_signed_accounts: u8,
    pub num_readonly_unsigned_accounts: u8,
}

/// A call of a program, its accounts given by their places in the message.
#[derive(Debug, PartialEq, Eq)]
pub struct CompiledInstruction {
    pub program_id_index: u8,
    pub accounts: Vec<u8>,
    pub data: Vec<u8>,
}

/// Accounts to load from an address lookup table.
#[derive(Debug, PartialEq, Eq)]
pub struct MessageAddressTableLookup {
    pub account_key: Pubkey,
    pub writable_indexes: Vec<u8>,
    pub readonly_indexes: Vec<u8>,
}

/// A message that names all its accounts.
#[derive(Debug, PartialEq, Eq)]
pub struct LegacyMessage {
    pub header: MessageHeader,
    pub account_keys: Vec<Pubkey>,
    pub recent_blockhash: Blockhash,
    pub instructions: Vec<CompiledInstruction>,
}

/// A message that may load further accounts from address lookup tables.
#[derive(Debug, PartialEq, Eq)]
pub struct MessageV0 {
    pub header: MessageHeader,
    pub account_keys: Vec<Pubkey>,
    pub recent_blockhash: Blockhash,
    pub instructions: Vec<CompiledInstruction>,
    pub address_table_lookups: Vec<MessageAddressTableLookup>,
}

/// A message of either version.
#[derive(Debug, PartialEq, Eq)]
pub enum VersionedMessage {
    Legacy(LegacyMessage),
    V0(MessageV0),
}

/// A message with the signatures over it.
#[derive(Debug, PartialEq, Eq)]
pub struct VersionedTransaction {
    pub signatures: Vec<Signature>,
    pub message: VersionedMessage,
}

/// What a [`CompiledInstruction`] holds.
pub struct InstructionView {
    pub program_id_index: u8,
    pub accounts: Seq<u8>,
    pub data: Seq<u8>,
}

/// What a [`MessageAddressTableLookup`] holds.
pub struct LookupView {
    pub account_key: Seq<u8>,
    pub writable_indexes: Seq<u8>,
    pub readonly_indexes: Seq<u8>,
}

/// What a message of either version holds. A legacy message has no list of
/// lookups, a message of version 0 always has one.
pub struct MessageView {
    pub header: MessageHeader,
    pub account_keys: Seq<Seq<u8>>,
    pub recent_blockhash: Seq<u8>,
    pub instructions: Seq<InstructionView>,
    pub address_table_lookups: Option<Seq<LookupView>>,
}

/// What a [`VersionedTransaction`] holds.
pub struct TransactionView {
    pub signatures: Seq<Seq<u8>>,
    pub message: MessageView,
}

impl View for CompiledInstruction {
    type V = InstructionView;

    open spec fn view(&self) -> InstructionView {
        InstructionView {
            program_id_index: self.program_id_index,
            accounts: self.accounts@,
            data: self.data@,
        }
    }
}

impl View for MessageAddressTableLookup {
    type V = LookupView;

    open spec fn view(&self) -> LookupView {
        LookupView {
            account_key: self.account_key@,
            writable_indexes: self.writable_indexes@,
            readonly_indexes: self.readonly_indexes@,
        }
    }
}

impl View for LegacyMessage {
    type V = MessageView;

    open spec fn view(&self) -> MessageView {
        MessageView {
            header: self.header,
            account_keys: views(self.account_keys@),
            recent_blockhash: self.recent_blockhash@,
            instructions: views(self.instructions@),
            address_table_lookups: None,
        }
    }
}

impl View for MessageV0 {
    type V = MessageView;

    open spec fn view(&self) -> MessageView {
        MessageView {
            header: self.header,
            account_keys: views(self.account_keys@),
            recent_blockhash: self.recent_blockhash@,
            instructions: views(self.instructions@),
            address_table_lookups: Some(views(self.address_table_lookups@)),
        }
    }
}

impl View for VersionedMessage {
    type V = MessageView;

    open spec fn view(&self) -> MessageView {
        match self {
            VersionedMessage::Legacy(message) => message@,
            VersionedMessage::V0(message) => message@,
        }
    }
}

impl View for VersionedTransaction {
    type V = TransactionView;

    open spec fn view(&self) -> TransactionView {
        TransactionView { signatures: views(self.signatures@), message: self.message@ }
    }
}

impl VersionedMessage {
    /// The account keys that the message itself names, as opposed to those it
    /// loads from lookup tables.
    pub fn static_account_keys(&self) -> (keys: &Vec<Pubkey>)
        ensures
            views(keys@) == self@.account_keys,
    {
        match self {
            VersionedMessage::Legacy(message) => &message.account_keys,
            VersionedMessage::V0(message) => &message.account_keys,
        }
    }

    /// Replaces the blockhash and leaves the rest of the message as it is.
    pub fn set_recent_blockhash(&mut self, recent_blockhash: Blockhash)
        ensures
            final(self)@ == (MessageView { recent_blockhash: recent_blockhash@, ..old(self)@ }),
    {
        match self {
            VersionedMessage::Legacy(message) => {
                message.recent_blockhash = recent_blockhash;
            },
            VersionedMessage::V0(message) => {
                message.recent_blockhash = recent_blockhash;
            },
        }
    }
}

impl Clone for CompiledInstruction {
    fn clone(&self) -> (copy: Self)
        ensures
            copy@ == self@,
    {
        let copy = CompiledInstruction {
            program_id_index: self.program_id_index,
            accounts: self.accounts.clone(),
            data: self.data.clone(),
        };
        assert(copy.accounts@ =~= self.accounts@);
        assert(copy.data@ =~= self.data@);
        copy
    }
}

impl Clone for MessageAddressTableLookup {
    fn clone(&self) -> (copy: Self)
        ensures
            copy@ == self@,
    {
        let copy = MessageAddressTableLookup {
            account_key: self.account_key,
            writable_indexes: self.writable_indexes.clone(),
            readonly_indexes: self.readonly_indexes.clone(),
        };
        assert(copy.writable_indexes@ =~= self.writable_indexes@);
        assert(copy.readonly_indexes@ =~= self.readonly_indexes@);
        copy
    }
}

impl Clone for LegacyMessage {
    fn clone(&self) -> (copy: Self)
        ensures
            copy@ == self@,
    {
        let copy = LegacyMessage {
            header: self.header,
            account_keys: self.account_keys.clone(),
            recent_blockhash: self.recent_blockhash,
            instructions: self.instructions.clone(),
        };
        assert(views(copy.account_keys@) =~= views(self.account_keys@));
        assert(views(copy.instructions@) =~= views(self.instructions@));
        copy
    }
}

impl Clone for MessageV0 {
    fn clone(&self) -> (copy: Self)
        ensures
            copy@ == self@,
    {
        let copy = MessageV0 {
            header: self.header,
            account_keys: self.account_keys.clone(),
            recent_blockhash: self.recent_blockhash,
            instructions: self.instructions.clone(),
            address_table_lookups: self.address_table_lookups.clone(),
        };
        assert(views(copy.account_keys@) =~= views(self.account_keys@));
        assert(views(copy.instructions@) =~= views(self.instructions@));
        assert(views(copy.address_table_lookups@) =~= views(self.address_table_lookups@));
        copy
    }
}

impl Clone for VersionedMessage {
    fn clone(&self) -> (copy: Self)
        ensures
            copy@ == self@,
    {
        match self {
            VersionedMessage::Legacy(message) => VersionedMessage::Legacy(message.clone()),
            VersionedMessage::V0(message) => VersionedMessage::V0(message.clone()),
        }
    }
}

impl Clone for VersionedTransaction {
    fn clone(&self) -> (copy: Self)
        ensures
            copy@ == self@,
    {
        let copy = VersionedTransaction {
            signatures: self.signatures.clone(),
            message: self.message.clone(),
        };
        assert(views(copy.signatures@) =~= views(self.signatures@));
        copy
    }
}

/// The view of an instruction shows each of its fields.
pub proof fn instructions_are_seen_whole(instruction: CompiledInstruction)
    ensures
        instruction@.program_id_index == instruction.program_id_index,
        instruction@.accounts == instruction.accounts@,
        instruction@.data == instruction.data@,
{
}

/// The view of a lookup shows each of its fields.
pub proof fn lookups_are_seen_whole(lookup: MessageAddressTableLookup)
    ensures
        lookup@.account_key == lookup.account_key@,
        lookup@.writable_indexes == lookup.writable_indexes@,
        lookup@.readonly_indexes == lookup.readonly_indexes@,
{
}

/// The view of a message shows each of its fields, every item of a list in its
/// place. It shows a list of lookups exactly for a message of version 0.
pub proof fn messages_are_seen_whole(message: VersionedMessage)
    ensures
        message matches VersionedMessage::Legacy(legacy) ==> {
            &&& message@ == legacy@
            &&& legacy@.header == legacy.header
            &&& legacy@.account_keys.len() == legacy.account_keys@.len()
            &&& forall|i: int|
                0 <= i < legacy.account_keys@.len() ==> #[trigger] legacy@.account_keys[i]
                    == legacy.account_keys@[i]@
            &&& legacy@.recent_blockhash == legacy.recent_blockhash@
            &&& legacy@.instructions.len() == legacy.instructions@.len()
            &&& forall|i: int|
                0 <= i < legacy.instructions@.len() ==> #[trigger] legacy@.instructions[i]
                    == legacy.instructions@[i]@
            &&& legacy@.address_table_lookups is None
        },
        message matches VersionedMessage::V0(v0) ==> {
            &&& message@ == v0@
            &&& v0@.header == v0.header
            &&& v0@.account_keys.len() == v0.account_keys@.len()
            &&& forall|i: int|
                0 <= i < v0.account_keys@.len() ==> #[trigger] v0@.account_keys[i]
                    == v0.account_keys@[i]@
            &&& v0@.recent_blockhash == v0.recent_blockhash@
            &&& v0@.instructions.len() == v0.instructions@.len()
            &&& forall|i: int|
                0 <= i < v0.instructions@.len() ==> #[trigger] v0@.instructions[i]
                    == v0.instructions@[i]@
            &&& v0@.address_table_lookups matches Some(lookups) && lookups.len()
                == v0.address_table_lookups@.len() && forall|i: int|
                0 <= i < v0.address_table_lookups@.len() ==> #[trigger] lookups[i]
                    == v0.address_table_lookups@[i]@
        },
{
}

/// The view of a transaction shows its message and every signature in its place.
pub proof fn transactions_are_seen_whole(transaction: VersionedTransaction)
    ensures
        transaction@.message == transaction.message@,
        transaction@.signatures.len() == transaction.signatures@.len(),
        forall|i: int|
            0 <= i < transaction.signatures@.len() ==> #[trigger] transaction@.signatures[i]
                == transaction.signatures@[i]@,
{
}

} // verus!
