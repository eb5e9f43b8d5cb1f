//! The size of a transaction on the wire, where every list is preceded by its
//! length in one to three bytes.

use crate::message::{
    CompiledInstruction, InstructionView, LookupView, MessageAddressTableLookup, MessageHeader,
    MessageView, TransactionView, VersionedMessage, VersionedTransaction,
};
use crate::results::views;
use vstd::prelude::*;

verus! {

/// The number of bytes that a packet has room for.
pub const PACKET_DATA_SIZE: usize = 1232;

/// The size of a list's length: seven bits of it go into each byte.
pub open spec fn length_size(len: nat) -> nat {
    if len < 0x80 {
        1
    } else if len < 0x4000 {
        2
    } else {
        3
    }
}

/// The size of a list of items that are all of one size.
pub open spec fn list_size(len: nat, each: nat) -> nat {
    length_size(len) + len * each
}

/// The size of an instruction.
pub open spec fn instruction_size(instruction: InstructionView) -> nat {
    1 + list_size(instruction.accounts.len(), 1) + list_size(instruction.data.len(), 1)
}

/// The size of each instruction.
pub open spec fn instruction_sizes(instructions: Seq<InstructionView>) -> Seq<nat> {
    Seq::new(instructions.len(), |i: int| instruction_size(instructions[i]))
}

/// The size of a lookup.
pub open spec fn lookup_size(lookup: LookupView) -> nat {
    32 + list_size(lookup.writable_indexes.len(), 1) + list_size(lookup.readonly_indexes.len(), 1)
}

/// The size of each lookup.
pub open spec fn lookup_sizes(lookups: Seq<LookupView>) -> Seq<nat> {
    Seq::new(lookups.len(), |i: int| lookup_size(lookups[i]))
}

/// The sum of sizes.
pub open spec fn total(sizes: Seq<nat>) -> nat
    decreases sizes.len(),
{
    if sizes.len() == 0 {
        0
    } else {
        total(sizes.drop_last()) + sizes.last()
    }
}

/// The size of a message: a header of three bytes, the account keys, the
/// blockhash and the instructions. A message of version 0 has its version before
/// all that and its lookups after it.
pub open spec fn message_size(message: MessageView) -> nat {
    3 + list_size(message.account_keys.len(), 32) + 32 + length_size(message.instructions.len())
        + total(instruction_sizes(message.instructions)) + match message.address_table_lookups {
        Some(lookups) => 1 + length_size(lookups.len()) + total(lookup_sizes(lookups)),
        None => 0,
    }
}

/// The size of a transaction: its signatures, then its message.
pub open spec fn wire_size(transaction: TransactionView) -> nat {
    list_size(transaction.signatures.len(), 64) + message_size(transaction.message)
}

/// What is left of the room after something of the given size, if it fits.
pub open spec fn room_after(room: usize, size: nat) -> Option<usize> {
    if size <= room {
        Some((room - size) as usize)
    } else {
        None
    }
}

fn room_after_bytes(room: usize, bytes: usize) -> (left: Option<usize>)
    ensures
        left == room_after(room, bytes as nat),
{
    if bytes <= room {
        Some(room - bytes)
    } else {
        None
    }
}

fn room_after_length(room: usize, len: usize) -> (left: Option<usize>)
    ensures
        left == room_after(room, length_size(len as nat)),
{
    if len < 0x80 {
        room_after_bytes(room, 1)
    } else if len < 0x4000 {
        room_after_bytes(room, 2)
    } else {
        room_after_bytes(room, 3)
    }
}

fn room_after_list(room: usize, len: usize, each: usize) -> (left: Option<usize>)
    requires
        room <= PACKET_DATA_SIZE,
        1 <= each <= 64,
    ensures
        left == room_after(room, list_size(len as nat, each as nat)),
{
    if len > room {
        assert(len * each >= len) by (nonlinear_arith)
            requires
                each >= 1,
        ;
        return None;
    }
    assert(len * each <= 1232 * 64) by (nonlinear_arith)
        requires
            len <= 1232,
            each <= 64,
    ;
    match room_after_length(room, len) {
        Some(left) => room_after_bytes(left, len * each),
        None => None,
    }
}

proof fn prefix_is_no_larger(sizes: Seq<nat>, n: int)
    requires
        0 <= n <= sizes.len(),
    ensures
        total(sizes.take(n)) <= total(sizes),
    decreases sizes.len() - n,
{
    if n < sizes.len() {
        assert(sizes.take(n + 1).drop_last() =~= sizes.take(n));
        prefix_is_no_larger(sizes, n + 1);
    } else {
        assert(sizes.take(n) =~= sizes);
    }
}

fn room_after_instruction(room: usize, instruction: &CompiledInstruction) -> (left: Option<usize>)
    requires
        room <= PACKET_DATA_SIZE,
    ensures
        left == room_after(room, instruction_size(instruction@)),
{
    match room_after_bytes(room, 1) {
        Some(left) => match room_after_list(left, instruction.accounts.len(), 1) {
            Some(left) => room_after_list(left, instruction.data.len(), 1),
            None => None,
        },
        None => None,
    }
}

fn room_after_lookup(room: usize, lookup: &MessageAddressTableLookup) -> (left: Option<usize>)
    requires
        room <= PACKET_DATA_SIZE,
    ensures
        left == room_after(room, lookup_size(lookup@)),
{
    match room_after_bytes(room, 32) {
        Some(left) => match room_after_list(left, lookup.writable_indexes.len(), 1) {
            Some(left) => room_after_list(left, lookup.readonly_indexes.len(), 1),
            None => None,
        },
        None => None,
    }
}

fn room_after_instructions(room: usize, instructions: &Vec<CompiledInstruction>) -> (left: Option<
    usize,
>)
    requires
        room <= PACKET_DATA_SIZE,
    ensures
        left == room_after(
            room,
            length_size(instructions@.len()) + total(instruction_sizes(views(instructions@))),
        ),
{
    let ghost sizes = instruction_sizes(views(instructions@));
    let mut left: usize = match room_after_length(room, instructions.len()) {
        Some(left) => left,
        None => return None,
    };
    for i in 0..instructions.len()
        invariant
            sizes == instruction_sizes(views(instructions@)),
            room <= PACKET_DATA_SIZE,
            left + length_size(instructions@.len()) + total(sizes.take(i as int)) == room,
    {
        proof {
            assert(sizes.take(i + 1).drop_last() =~= sizes.take(i as int));
            prefix_is_no_larger(sizes, i + 1);
        }
        left = match room_after_instruction(left, &instructions[i]) {
            Some(left) => left,
            None => return None,
        };
    }
    assert(sizes.take(instructions@.len() as int) =~= sizes);
    Some(left)
}

fn room_after_lookups(room: usize, lookups: &Vec<MessageAddressTableLookup>) -> (left: Option<
    usize,
>)
    requires
        room <= PACKET_DATA_SIZE,
    ensures
        left == room_after(
            room,
            length_size(lookups@.len()) + total(lookup_sizes(views(lookups@))),
        ),
{
    let ghost sizes = lookup_sizes(views(lookups@));
    let mut left: usize = match room_after_length(room, lookups.len()) {
        Some(left) => left,
        None => return None,
    };
    for i in 0..lookups.len()
        invariant
            sizes == lookup_sizes(views(lookups@)),
            room <= PACKET_DATA_SIZE,
            left + length_size(lookups@.len()) + total(sizes.take(i as int)) == room,
    {
        proof {
            assert(sizes.take(i + 1).drop_last() =~= sizes.take(i as int));
            prefix_is_no_larger(sizes, i + 1);
        }
        left = match room_after_lookup(left, &lookups[i]) {
            Some(left) => left,
            None => return None,
        };
    }
    assert(sizes.take(lookups@.len() as int) =~= sizes);
    Some(left)
}

/// Whether a packet has room for the transaction.
pub fn fits_in_packet(transaction: &VersionedTransaction) -> (fits: bool)
    ensures
        fits == (wire_size(transaction@) <= PACKET_DATA_SIZE),
{
    let left = match room_after_list(PACKET_DATA_SIZE, transaction.signatures.len(), 64) {
        Some(left) => left,
        None => return false,
    };
    let left = match room_after_bytes(left, 35) {
        Some(left) => left,
        None => return false,
    };
    let left = match room_after_list(
        left,
        transaction.message.static_account_keys().len(),
        32,
    ) {
        Some(left) => left,
        None => return false,
    };
    match &transaction.message {
        VersionedMessage::Legacy(message) => {
            room_after_instructions(left, &message.instructions).is_some()
        },
        VersionedMessage::V0(message) => {
            let left = match room_after_instructions(left, &message.instructions) {
                Some(left) => left,
                None => return false,
            };
            match room_after_bytes(left, 1) {
                Some(left) => room_after_lookups(left, &message.address_table_lookups).is_some(),
                None => false,
            }
        },
    }
}

/// The size of a transaction does not depend on the values in it, only on how
/// many there are: putting in another blockhash of the same kind leaves it as it
/// is.
pub proof fn blockhash_does_not_change_the_size(transaction: TransactionView, blockhash: Seq<u8>)
    ensures
        wire_size(
            TransactionView {
                message: MessageView { recent_blockhash: blockhash, ..transaction.message },
                ..transaction
            },
        ) == wire_size(transaction),
{
}

/// A transaction with nothing in its lists takes a byte for the length of each
/// list beside its header and blockhash, and one for its version if it has one.
pub proof fn empty_transactions_have_a_fixed_size(
    header: MessageHeader,
    blockhash: Seq<u8>,
)
    ensures
        ({
            let legacy = MessageView {
                header,
                account_keys: Seq::empty(),
                recent_blockhash: blockhash,
                instructions: Seq::empty(),
                address_table_lookups: None,
            };
            let v0 = MessageView { address_table_lookups: Some(Seq::empty()), ..legacy };
            &&& wire_size(TransactionView { signatures: Seq::empty(), message: legacy }) == 38
            &&& wire_size(TransactionView { signatures: Seq::empty(), message: v0 }) == 40
        }),
{
}

/// One more item in a list of `len` items makes the list's length longer by a byte
/// where its seven-bit groups are used up, and leaves it as long otherwise.
pub proof fn lengths_grow_at_their_limits(len: nat)
    ensures
        length_size(0) == 1,
        length_size(len + 1) == length_size(len) + if len == 127 || len == 16383 {
            1nat
        } else {
            0nat
        },
{
}

/// One more signature takes 64 bytes, and one more account key 32, beside the
/// growth of the list's length.
pub proof fn signatures_and_keys_add_their_size(
    transaction: TransactionView,
    signature: Seq<u8>,
    key: Seq<u8>,
)
    ensures
        ({
            let message = transaction.message;
            let signatures = transaction.signatures.len();
            let keys = message.account_keys.len();
            &&& wire_size(
                TransactionView {
                    signatures: transaction.signatures.push(signature),
                    ..transaction
                },
            ) == wire_size(transaction) + 64 + length_size(signatures + 1) - length_size(signatures)
            &&& wire_size(
                TransactionView {
                    message: MessageView {
                        account_keys: message.account_keys.push(key),
                        ..message
                    },
                    ..transaction
                },
            ) == wire_size(transaction) + 32 + length_size(keys + 1) - length_size(keys)
        }),
{
}

/// One more instruction takes a byte for its program, the bytes of its two lists
/// and of their lengths, beside the growth of the list's length.
pub proof fn instructions_add_their_size(transaction: TransactionView, instruction: InstructionView)
    ensures
        ({
            let message = transaction.message;
            let count = message.instructions.len();
            wire_size(
                TransactionView {
                    message: MessageView {
                        instructions: message.instructions.push(instruction),
                        ..message
                    },
                    ..transaction
                },
            ) == wire_size(transaction) + 1 + length_size(instruction.accounts.len())
                + instruction.accounts.len() + length_size(instruction.data.len())
                + instruction.data.len() + length_size(count + 1) - length_size(count)
        }),
{
    let before = transaction.message.instructions;
    let after = before.push(instruction);
    assert(instruction_sizes(after).drop_last() =~= instruction_sizes(before));
}

/// One more lookup takes 32 bytes for its table's key, the bytes of its two lists
/// and of their lengths, beside the growth of the list's length.
pub proof fn lookups_add_their_size(
    transaction: TransactionView,
    lookups: Seq<LookupView>,
    lookup: LookupView,
)
    requires
        transaction.message.address_table_lookups == Some(lookups),
    ensures
        ({
            let count = lookups.len();
            wire_size(
                TransactionView {
                    message: MessageView {
                        address_table_lookups: Some(lookups.push(lookup)),
                        ..transaction.message
                    },
                    ..transaction
                },
            ) == wire_size(transaction) + 32 + length_size(lookup.writable_indexes.len())
                + lookup.writable_indexes.len() + length_size(lookup.readonly_indexes.len())
                + lookup.readonly_indexes.len() + length_size(count + 1) - length_size(count)
        }),
{
    assert(lookup_sizes(lookups.push(lookup)).drop_last() =~= lookup_sizes(lookups));
}

} // verus!
