//! Transactions packed for the banking stage.

use crate::message::{
    Blockhash, MessageView, TransactionView, VersionedMessage, VersionedTransaction,
};
use crate::results::views;
use crate::solana::{pack_legacy, pack_v0, packet_of};
use crate::transactions::is_vote;
use crate::wire::{blockhash_does_not_change_the_size, wire_size, PACKET_DATA_SIZE};
use vstd::prelude::*;

verus! {

/// Whether every transaction is short enough for a packet.
pub open spec fn all_fit(transactions: Seq<TransactionView>) -> bool {
    forall|i: int|
        0 <= i < transactions.len() ==> wire_size(#[trigger] transactions[i]) <= PACKET_DATA_SIZE
}

/// One batch for each transaction, with the packet of that transaction and no
/// other.
pub open spec fn batches_of(transactions: Seq<TransactionView>) -> Seq<Seq<Seq<u8>>> {
    Seq::new(transactions.len(), |i: int| seq![packet_of(transactions[i])])
}

/// Whether the packet of each transaction is as long as the transaction is on
/// the wire.
pub open spec fn packets_have_wire_size(transactions: Seq<TransactionView>) -> bool {
    forall|i: int|
        0 <= i < transactions.len() ==> packet_of(#[trigger] transactions[i]).len() == wire_size(
            transactions[i],
        )
}

/// What batches of packets hold.
pub open spec fn batch_views(batches: Seq<Vec<Vec<u8>>>) -> Seq<Seq<Seq<u8>>> {
    Seq::new(batches.len(), |i: int| views(batches[i]@))
}

/// The transaction with another blockhash in its message.
pub open spec fn with_blockhash(transaction: TransactionView, blockhash: Seq<u8>) -> TransactionView {
    TransactionView {
        message: MessageView { recent_blockhash: blockhash, ..transaction.message },
        ..transaction
    }
}

/// The transactions with another blockhash in each of their messages.
pub open spec fn all_with_blockhash(
    transactions: Seq<TransactionView>,
    blockhash: Seq<u8>,
) -> Seq<TransactionView> {
    Seq::new(transactions.len(), |i: int| with_blockhash(transactions[i], blockhash))
}

/// Transactions with the packets that carry them.
pub struct Packets {
    packet_batch: Vec<Vec<Vec<u8>>>,
    transactions: Vec<VersionedTransaction>,
}

fn pack(transaction: &VersionedTransaction) -> (packet: Vec<u8>)
    requires
        wire_size(transaction@) <= PACKET_DATA_SIZE,
    ensures
        packet@ == packet_of(transaction@),
        packet@.len() == wire_size(transaction@),
{
    let copy = transaction.clone();
    match copy.message {
        VersionedMessage::Legacy(message) => pack_legacy(copy.signatures, message),
        VersionedMessage::V0(message) => pack_v0(copy.signatures, message),
    }
}

fn pack_all(transactions: &Vec<VersionedTransaction>) -> (batches: Vec<Vec<Vec<u8>>>)
    requires
        all_fit(views(transactions@)),
    ensures
        batch_views(batches@) == batches_of(views(transactions@)),
        packets_have_wire_size(views(transactions@)),
{
    let ghost all = views(transactions@);
    let mut batches: Vec<Vec<Vec<u8>>> = Vec::new();
    for i in 0..transactions.len()
        invariant
            all == views(transactions@),
            all_fit(all),
            batches@.len() == i,
            forall|j: int|
                0 <= j < i ==> views((#[trigger] batches@[j])@) == seq![packet_of(all[j])],
            forall|j: int| 0 <= j < i ==> packet_of(#[trigger] all[j]).len() == wire_size(all[j]),
    {
        assert(wire_size(all[i as int]) <= PACKET_DATA_SIZE);
        let packet = pack(&transactions[i]);
        let mut batch: Vec<Vec<u8>> = Vec::new();
        batch.push(packet);
        assert(views(batch@) =~= seq![packet_of(all[i as int])]);
        batches.push(batch);
    }
    assert(batch_views(batches@) =~= batches_of(all));
    batches
}

impl Packets {
    /// What the transactions hold.
    pub closed spec fn spec_transactions(&self) -> Seq<TransactionView> {
        views(self.transactions@)
    }

    /// What the packets hold, batch by batch.
    pub closed spec fn spec_packet_batch(&self) -> Seq<Seq<Seq<u8>>> {
        batch_views(self.packet_batch@)
    }

    /// The packets are those of the transactions, which all fit, and are as long
    /// as the transactions are on the wire.
    pub open spec fn wf(&self) -> bool {
        &&& all_fit(self.spec_transactions())
        &&& self.spec_packet_batch() == batches_of(self.spec_transactions())
        &&& packets_have_wire_size(self.spec_transactions())
    }

    /// Packs transactions, each into a batch of its own.
    pub fn new(transactions: Vec<VersionedTransaction>) -> (packets: Packets)
        requires
            all_fit(views(transactions@)),
        ensures
            packets.wf(),
            packets.spec_transactions() == views(transactions@),
    {
        let packet_batch = pack_all(&transactions);
        Packets { packet_batch, transactions }
    }

    /// The packets, batch by batch.
    pub fn packet_batch(&self) -> (batches: &Vec<Vec<Vec<u8>>>)
        ensures
            batch_views(batches@) == self.spec_packet_batch(),
    {
        &self.packet_batch
    }

    /// The transactions.
    pub fn transactions(&self) -> (transactions: &Vec<VersionedTransaction>)
        ensures
            views(transactions@) == self.spec_transactions(),
    {
        &self.transactions
    }

    /// Puts a new blockhash into every transaction and packs them again.
    pub fn refresh_blockhash(&mut self, new_blockhash: Blockhash)
        requires
            old(self).wf(),
        ensures
            final(self).wf(),
            final(self).spec_transactions() == all_with_blockhash(
                old(self).spec_transactions(),
                new_blockhash@,
            ),
    {
        let ghost before = views(self.transactions@);
        let count: usize = self.transactions.len();
        let mut i: usize = 0;
        while i < count
            invariant
                i <= count,
                count == self.transactions@.len(),
                count == before.len(),
                before == old(self).spec_transactions(),
                forall|j: int|
                    0 <= j < i ==> (#[trigger] self.transactions@[j])@ == with_blockhash(
                        before[j],
                        new_blockhash@,
                    ),
                forall|j: int| i <= j < count ==> (#[trigger] self.transactions@[j])@ == before[j],
            decreases count - i,
        {
            self.transactions[i].message.set_recent_blockhash(new_blockhash);
            i += 1;
        }
        proof {
            let after = views(self.transactions@);
            assert(after =~= all_with_blockhash(before, new_blockhash@));
            assert forall|j: int| 0 <= j < after.len() implies wire_size(#[trigger] after[j])
                <= PACKET_DATA_SIZE by {
                blockhash_does_not_change_the_size(before[j], new_blockhash@);
                assert(wire_size(before[j]) <= PACKET_DATA_SIZE);
            }
        }
        self.packet_batch = pack_all(&self.transactions);
    }
}

/// Of two refreshes only the later one shows.
pub proof fn later_refresh_counts(
    transactions: Seq<TransactionView>,
    first: Seq<u8>,
    second: Seq<u8>,
)
    ensures
        all_with_blockhash(all_with_blockhash(transactions, first), second) == all_with_blockhash(
            transactions,
            second,
        ),
{
    assert(all_with_blockhash(all_with_blockhash(transactions, first), second)
        =~= all_with_blockhash(transactions, second));
}

/// A refresh leaves the number of transactions and everything in them but the
/// blockhash as it was; so no vote appears or disappears by it, and what fitted
/// into packets still does.
pub proof fn refresh_changes_only_the_blockhash(
    transactions: Seq<TransactionView>,
    blockhash: Seq<u8>,
)
    ensures
        all_with_blockhash(transactions, blockhash).len() == transactions.len(),
        forall|i: int|
            0 <= i < transactions.len() ==> {
                let refreshed = all_with_blockhash(transactions, blockhash)[i];
                &&& refreshed.signatures == (#[trigger] transactions[i]).signatures
                &&& refreshed.message.header == transactions[i].message.header
                &&& refreshed.message.account_keys == transactions[i].message.account_keys
                &&& refreshed.message.recent_blockhash == blockhash
                &&& refreshed.message.instructions == transactions[i].message.instructions
                &&& refreshed.message.address_table_lookups
                    == transactions[i].message.address_table_lookups
                &&& is_vote(refreshed) == is_vote(transactions[i])
                &&& wire_size(refreshed) == wire_size(transactions[i])
            },
{
}

/// There is one batch for each transaction, in its place, and in it one packet:
/// that of the transaction, as long as the transaction is on the wire and short
/// enough to be sent.
pub proof fn every_transaction_has_its_packet(
    packets: Packets,
    batches: Vec<Vec<Vec<u8>>>,
    transactions: Vec<VersionedTransaction>,
)
    requires
        packets.wf(),
        batch_views(batches@) == packets.spec_packet_batch(),
        views(transactions@) == packets.spec_transactions(),
    ensures
        batches@.len() == transactions@.len(),
        forall|i: int|
            0 <= i < transactions@.len() ==> {
                &&& (#[trigger] batches@[i])@.len() == 1
                &&& batches@[i]@[0]@ == packet_of(transactions@[i]@)
                &&& batches@[i]@[0]@.len() == wire_size(transactions@[i]@)
                &&& batches@[i]@[0]@.len() <= 1232
            },
{
    assert(batch_views(batches@).len() == batches@.len());
    assert(views(transactions@).len() == transactions@.len());
    assert forall|i: int| 0 <= i < transactions@.len() implies {
        &&& (#[trigger] batches@[i])@.len() == 1
        &&& batches@[i]@[0]@ == packet_of(transactions@[i]@)
        &&& batches@[i]@[0]@.len() == wire_size(transactions@[i]@)
        &&& batches@[i]@[0]@.len() <= 1232
    } by {
        let transaction = packets.spec_transactions()[i];
        assert(transaction == transactions@[i]@);
        assert(batch_views(batches@)[i] == views(batches@[i]@));
        assert(views(batches@[i]@) == seq![packet_of(transaction)]);
        assert(views(batches@[i]@)[0] == batches@[i]@[0]@);
        assert(wire_size(transaction) <= PACKET_DATA_SIZE);
    }
}

/// Any number of transactions can be packed, as long as none takes more bytes than
/// a packet has room for.
pub proof fn only_long_transactions_do_not_fit(transactions: Seq<TransactionView>)
    ensures
        all_fit(transactions) <==> forall|i: int|
            0 <= i < transactions.len() ==> wire_size(#[trigger] transactions[i]) <= 1232,
{
}

} // verus!
