//! Decoding downloaded blocks and leaving out the votes in them.

use crate::decode::{decode, decoded, DecodeError};
use crate::encoded::{EncodedTransaction, UiConfirmedBlock};
use crate::message::{Pubkey, TransactionView, VersionedTransaction};
use crate::results::{
    collect_results, collected, collected_error_comes_first, collected_is_ok_iff_all_are,
    collected_of_concatenation, list_view, prefix_error_is_the_error, views,
};
use crate::solana::{vote_program_id, vote_program_key};
use vstd::prelude::*;

verus! {

/// The number of blocks that are downloaded at the same time.
pub const NUM_CONCURRENT_BLOCKS: usize = 10;

/// The highest transaction version that nodes are asked for.
pub const MAX_SUPPORTED_TRANSACTION_VERSION: u8 = 0;

/// The slots of `num_blocks` blocks from `slot` on.
pub fn slots_to_download(slot: u64, num_blocks: u64) -> (slots: Vec<u64>)
    requires
        slot + num_blocks <= u64::MAX,
    ensures
        slots@ == Seq::new(num_blocks as nat, |i: int| (slot + i) as u64),
{
    let mut slots: Vec<u64> = Vec::new();
    for next in slot..slot + num_blocks
        invariant
            slots@ == Seq::new((next - slot) as nat, |i: int| (slot + i) as u64),
    {
        slots.push(next);
    }
    slots
}

/// What decoding each transaction of a list comes to.
pub open spec fn decoded_each(
    transactions: Seq<EncodedTransaction>,
) -> Seq<Result<TransactionView, DecodeError>> {
    Seq::new(transactions.len(), |i: int| decoded(transactions[i]))
}

/// The transactions of a block in their order, or the first error in decoding
/// them. A block without transactions decodes to none.
pub open spec fn decoded_block(
    block: UiConfirmedBlock,
) -> Result<Seq<TransactionView>, DecodeError> {
    match block.transactions {
        Some(transactions) => collected(decoded_each(transactions@)),
        None => Ok(Seq::empty()),
    }
}

/// Decodes the transactions of a block.
pub fn decode_block(encoded_block: &UiConfirmedBlock) -> (transactions: Result<
    Vec<VersionedTransaction>,
    DecodeError,
>)
    ensures
        list_view(transactions) == decoded_block(*encoded_block),
{
    let mut transactions: Vec<VersionedTransaction> = Vec::new();
    let encoded = match &encoded_block.transactions {
        Some(encoded) => encoded,
        None => {
            assert(views(transactions@) =~= Seq::empty());
            return Ok(transactions);
        },
    };
    let ghost outcomes = decoded_each(encoded@);
    assert(views(transactions@) =~= Seq::empty());
    for i in 0..encoded.len()
        invariant
            encoded_block.transactions == Some(*encoded),
            outcomes == decoded_each(encoded@),
            collected(outcomes.take(i as int)) == Ok::<Seq<TransactionView>, DecodeError>(
                views(transactions@),
            ),
    {
        assert(outcomes.take(i + 1).drop_last() =~= outcomes.take(i as int));
        assert(outcomes.take(i + 1).last() == decoded(encoded@[i as int]));
        match decode(&encoded[i]) {
            Ok(transaction) => {
                let ghost before = transactions@;
                transactions.push(transaction);
                assert(views(transactions@) =~= views(before).push(transaction@));
            },
            Err(e) => {
                proof {
                    prefix_error_is_the_error(outcomes, i + 1);
                }
                return Err(e);
            },
        }
    }
    assert(outcomes.take(encoded@.len() as int) =~= outcomes);
    Ok(transactions)
}

/// What decoding each block of a list comes to.
pub open spec fn decoded_each_block(
    blocks: Seq<UiConfirmedBlock>,
) -> Seq<Result<Seq<TransactionView>, DecodeError>> {
    Seq::new(blocks.len(), |i: int| decoded_block(blocks[i]))
}

/// The transactions of the blocks one after another, or the first error in
/// decoding them.
pub open spec fn decoded_blocks(
    blocks: Seq<UiConfirmedBlock>,
) -> Result<Seq<TransactionView>, DecodeError> {
    match collected(decoded_each_block(blocks)) {
        Ok(lists) => Ok(lists.flatten()),
        Err(e) => Err(e),
    }
}

/// Decodes blocks into a single list of transactions.
pub fn decode_blocks(blocks: &Vec<UiConfirmedBlock>) -> (transactions: Result<
    Vec<VersionedTransaction>,
    DecodeError,
>)
    ensures
        list_view(transactions) == decoded_blocks(blocks@),
{
    let ghost outcomes = decoded_each_block(blocks@);
    let mut transactions: Vec<VersionedTransaction> = Vec::new();
    assert(views(transactions@) =~= Seq::<Seq<TransactionView>>::empty().flatten_alt());
    for i in 0..blocks.len()
        invariant
            outcomes == decoded_each_block(blocks@),
            collected(outcomes.take(i as int)) matches Ok(lists) && lists.flatten_alt() == views(
                transactions@,
            ),
    {
        assert(outcomes.take(i + 1).drop_last() =~= outcomes.take(i as int));
        assert(outcomes.take(i + 1).last() == decoded_block(blocks@[i as int]));
        let ghost lists = collected(outcomes.take(i as int))->Ok_0;
        match decode_block(&blocks[i]) {
            Ok(mut decoded_transactions) => {
                let ghost before = transactions@;
                let ghost more = decoded_transactions@;
                transactions.append(&mut decoded_transactions);
                proof {
                    assert(views(transactions@) =~= views(before) + views(more));
                    assert(lists.push(views(more)).drop_last() =~= lists);
                }
            },
            Err(e) => {
                proof {
                    prefix_error_is_the_error(outcomes, i + 1);
                }
                return Err(e);
            },
        }
    }
    proof {
        assert(outcomes.take(blocks@.len() as int) =~= outcomes);
        collected(outcomes)->Ok_0.lemma_flatten_and_flatten_alt_are_equivalent();
    }
    Ok(transactions)
}

/// Whether a transaction is a vote: whether its message names the vote program.
/// Programs are always named by the message itself, never loaded from a lookup
/// table.
pub open spec fn is_vote(transaction: TransactionView) -> bool {
    transaction.message.account_keys.contains(vote_program_key())
}

/// The transactions that are not votes, in their order.
pub open spec fn without_votes(transactions: Seq<TransactionView>) -> Seq<TransactionView> {
    transactions.filter(|transaction: TransactionView| !is_vote(transaction))
}

fn same_key(a: &Pubkey, b: &Pubkey) -> (same: bool)
    ensures
        same == (a@ == b@),
{
    for i in 0..32
        invariant
            forall|j: int| 0 <= j < i ==> a@[j] == b@[j],
    {
        if a[i] != b[i] {
            return false;
        }
    }
    assert(a@ =~= b@);
    true
}

fn names_vote_program(transaction: &VersionedTransaction) -> (vote: bool)
    ensures
        vote == is_vote(transaction@),
{
    let id = vote_program_id();
    let keys = transaction.message.static_account_keys();
    let ghost named = transaction@.message.account_keys;
    for i in 0..keys.len()
        invariant
            named == views(keys@),
            named == transaction@.message.account_keys,
            id@ == vote_program_key(),
            forall|j: int| 0 <= j < i ==> #[trigger] named[j] != vote_program_key(),
    {
        assert(named[i as int] == keys@[i as int]@);
        if same_key(&keys[i], &id) {
            return true;
        }
    }
    false
}

/// Leaves out the votes.
pub fn filter_votes(transactions: Vec<VersionedTransaction>) -> (kept: Vec<VersionedTransaction>)
    ensures
        views(kept@) == without_votes(views(transactions@)),
{
    let ghost all = transactions@;
    let mut kept: Vec<VersionedTransaction> = Vec::new();
    proof {
        reveal(Seq::filter);
    }
    assert(views(all.take(0)) =~= Seq::empty());
    assert(views(kept@) =~= without_votes(views(all.take(0))));
    for transaction in it: transactions.into_iter()
        invariant
            it.seq() == all,
            views(kept@) == without_votes(views(all.take(it.index() as int))),
    {
        let ghost n = it.index() as int;
        let ghost before = kept@;
        proof {
            reveal(Seq::filter);
        }
        assert(views(all.take(n + 1)).drop_last() =~= views(all.take(n)));
        assert(views(all.take(n + 1)).last() == transaction@);
        if !names_vote_program(&transaction) {
            kept.push(transaction);
            assert(views(kept@) =~= views(before).push(transaction@));
        }
    }
    assert(all.take(all.len() as int) =~= all);
    kept
}

/// The transactions of the blocks that are not votes, or the first error in
/// decoding the blocks.
pub open spec fn replayable(
    blocks: Seq<UiConfirmedBlock>,
) -> Result<Seq<TransactionView>, DecodeError> {
    match decoded_blocks(blocks) {
        Ok(transactions) => Ok(without_votes(transactions)),
        Err(e) => Err(e),
    }
}

/// Decodes blocks into a single list of transactions without the votes.
pub fn decode_and_filter_blocks(blocks: &Vec<UiConfirmedBlock>) -> (transactions: Result<
    Vec<VersionedTransaction>,
    DecodeError,
>)
    ensures
        list_view(transactions) == replayable(blocks@),
{
    match decode_blocks(blocks) {
        Ok(transactions) => Ok(filter_votes(transactions)),
        Err(e) => Err(e),
    }
}

/// Why there are no transactions to replay: a download failed, or a downloaded
/// block could not be decoded.
#[derive(Debug)]
pub enum ReplayError<E> {
    Download(E),
    Decode(DecodeError),
}

/// The transactions to replay from the blocks that were downloaded. A failed
/// download counts before any fault in a block.
pub open spec fn replay_outcome<E>(
    downloads: Seq<Result<UiConfirmedBlock, E>>,
) -> Result<Seq<TransactionView>, ReplayError<E>> {
    match collected(downloads) {
        Ok(blocks) => match replayable(blocks) {
            Ok(transactions) => Ok(transactions),
            Err(e) => Err(ReplayError::Decode(e)),
        },
        Err(e) => Err(ReplayError::Download(e)),
    }
}

/// Turns what the downloads of the blocks came to, in the order in which they
/// ended, into the transactions to replay. Nothing is decoded unless every
/// download succeeded.
pub fn decode_and_filter_downloads<E>(downloads: Vec<Result<UiConfirmedBlock, E>>) -> (transactions:
    Result<Vec<VersionedTransaction>, ReplayError<E>>)
    ensures
        list_view(transactions) == replay_outcome(downloads@),
{
    let blocks = match collect_results(downloads) {
        Ok(blocks) => blocks,
        Err(e) => return Err(ReplayError::Download(e)),
    };
    match decode_and_filter_blocks(&blocks) {
        Ok(transactions) => Ok(transactions),
        Err(e) => Err(ReplayError::Decode(e)),
    }
}

/// Filtering keeps no vote and loses nothing else.
pub proof fn exactly_the_votes_are_left_out(transactions: Seq<TransactionView>)
    ensures
        forall|i: int|
            0 <= i < without_votes(transactions).len() ==> {
                &&& !is_vote(#[trigger] without_votes(transactions)[i])
                &&& transactions.contains(without_votes(transactions)[i])
            },
        forall|i: int|
            0 <= i < transactions.len() && !is_vote(#[trigger] transactions[i])
                ==> without_votes(transactions).contains(transactions[i]),
{
    broadcast use vstd::seq_lib::group_filter_ensures;

    let keep = |transaction: TransactionView| !is_vote(transaction);
    assert forall|i: int| 0 <= i < without_votes(transactions).len() implies {
        &&& !is_vote(#[trigger] without_votes(transactions)[i])
        &&& transactions.contains(without_votes(transactions)[i])
    } by {
        assert(keep(transactions.filter(keep)[i]));
        transactions.lemma_filter_contains_rev(keep, transactions.filter(keep)[i]);
    }
    assert forall|i: int| 0 <= i < transactions.len() && !is_vote(
        #[trigger] transactions[i],
    ) implies without_votes(transactions).contains(transactions[i]) by {
        assert(keep(transactions[i]));
        assert(transactions.filter(keep).contains(transactions[i]));
    }
}

/// What one part of a list of transactions keeps does not depend on the other
/// part.
pub proof fn filtering_works_piecewise(a: Seq<TransactionView>, b: Seq<TransactionView>)
    ensures
        without_votes(a + b) == without_votes(a) + without_votes(b),
{
    Seq::filter_distributes_over_add(
        a,
        b,
        |transaction: TransactionView| !is_vote(transaction),
    );
}

/// Where there is no vote, filtering changes nothing; so a second filtering
/// never does.
pub proof fn filtering_again_changes_nothing(transactions: Seq<TransactionView>)
    ensures
        (forall|i: int| 0 <= i < transactions.len() ==> !is_vote(#[trigger] transactions[i]))
            ==> without_votes(transactions) == transactions,
        without_votes(without_votes(transactions)) == without_votes(transactions),
{
    if forall|i: int| 0 <= i < transactions.len() ==> !is_vote(#[trigger] transactions[i]) {
        filtering_keeps_all(transactions);
    }
    exactly_the_votes_are_left_out(transactions);
    filtering_keeps_all(without_votes(transactions));
}

proof fn filtering_keeps_all(transactions: Seq<TransactionView>)
    requires
        forall|i: int| 0 <= i < transactions.len() ==> !is_vote(#[trigger] transactions[i]),
    ensures
        without_votes(transactions) == transactions,
    decreases transactions.len(),
{
    reveal(Seq::filter);
    if transactions.len() > 0 {
        let rest = transactions.drop_last();
        assert(forall|i: int| 0 <= i < rest.len() ==> #[trigger] rest[i] == transactions[i]);
        filtering_keeps_all(rest);
        assert(!is_vote(transactions[transactions.len() - 1]));
        assert(rest.push(transactions.last()) =~= transactions);
    }
}

/// Votes are told by the keys that the message names: what it loads from lookup
/// tables makes no difference.
pub proof fn lookups_do_not_hide_votes(transaction: TransactionView, other: TransactionView)
    requires
        other.message.account_keys == transaction.message.account_keys,
    ensures
        is_vote(other) == is_vote(transaction),
{
}

/// A block decodes to as many transactions as it holds, each in its place,
/// provided that every one of them decodes; else to the first error.
pub proof fn blocks_decode_in_place(block: UiConfirmedBlock, transactions: Seq<EncodedTransaction>)
    requires
        block.transactions matches Some(listed) && listed@ == transactions,
    ensures
        decoded_block(block) is Ok <==> forall|i: int|
            0 <= i < transactions.len() ==> decoded(#[trigger] transactions[i]) is Ok,
        decoded_block(block) matches Ok(list) ==> {
            &&& list.len() == transactions.len()
            &&& forall|i: int|
                0 <= i < transactions.len() ==> decoded(#[trigger] transactions[i]) == Ok::<
                    TransactionView,
                    DecodeError,
                >(list[i])
        },
        forall|n: int|
            0 <= n < transactions.len() && decoded(#[trigger] transactions[n]) is Err && (forall|
                i: int,
            |
                0 <= i < n ==> decoded(#[trigger] transactions[i]) is Ok) ==> decoded_block(block)
                == Err::<Seq<TransactionView>, DecodeError>(decoded(transactions[n])->Err_0),
{
    let outcomes = decoded_each(transactions);
    collected_is_ok_iff_all_are(outcomes);
    assert(forall|i: int|
        0 <= i < transactions.len() ==> outcomes[i] == decoded(#[trigger] transactions[i]));
    if forall|i: int| 0 <= i < transactions.len() ==> decoded(#[trigger] transactions[i]) is Ok {
        assert(forall|i: int| 0 <= i < outcomes.len() ==> #[trigger] outcomes[i] is Ok);
    }
    if forall|i: int| 0 <= i < outcomes.len() ==> #[trigger] outcomes[i] is Ok {
        assert forall|i: int| 0 <= i < transactions.len() implies decoded(
            #[trigger] transactions[i],
        ) is Ok by {
            assert(outcomes[i] is Ok);
        }
    }
    assert forall|n: int|
        0 <= n < transactions.len() && decoded(#[trigger] transactions[n]) is Err && (forall|i: int|
            0 <= i < n ==> decoded(#[trigger] transactions[i]) is Ok) implies decoded_block(block)
        == Err::<Seq<TransactionView>, DecodeError>(decoded(transactions[n])->Err_0) by {
        assert(outcomes[n] == decoded(transactions[n]));
        assert forall|i: int| 0 <= i < n implies #[trigger] outcomes[i] is Ok by {
            assert(decoded(transactions[i]) is Ok);
        }
        collected_error_comes_first(outcomes, n);
    }
}

/// Replaying two runs of blocks one after the other is replaying them together:
/// the transactions of the first come before those of the second, and the first
/// fault counts.
pub proof fn replays_join(a: Seq<UiConfirmedBlock>, b: Seq<UiConfirmedBlock>)
    ensures
        replayable(a + b) == match replayable(a) {
            Ok(first) => match replayable(b) {
                Ok(second) => Ok(first + second),
                Err(e) => Err(e),
            },
            Err(e) => Err(e),
        },
{
    assert(decoded_each_block(a + b) =~= decoded_each_block(a) + decoded_each_block(b));
    collected_of_concatenation(decoded_each_block(a), decoded_each_block(b));
    if let Ok(first) = collected(decoded_each_block(a)) {
        if let Ok(second) = collected(decoded_each_block(b)) {
            vstd::seq_lib::lemma_flatten_concat(first, second);
            filtering_works_piecewise(first.flatten(), second.flatten());
        }
    }
}

/// Two runs of downloads, one after the other, give something to replay exactly
/// when each of them does, and then the transactions of the first run before those
/// of the second.
pub proof fn downloads_join<E>(
    a: Seq<Result<UiConfirmedBlock, E>>,
    b: Seq<Result<UiConfirmedBlock, E>>,
)
    ensures
        replay_outcome(a + b) is Ok <==> replay_outcome(a) is Ok && replay_outcome(b) is Ok,
        replay_outcome(a + b) matches Ok(transactions) ==> transactions == replay_outcome(a)->Ok_0
            + replay_outcome(b)->Ok_0,
{
    collected_of_concatenation(a, b);
    if let Ok(first) = collected(a) {
        if let Ok(second) = collected(b) {
            replays_join(first, second);
        }
    }
}

/// The order in which the downloads end decides nothing but the order of the
/// transactions: whether there is anything to replay does not depend on it, nor
/// does how often each transaction is replayed.
pub proof fn downloads_may_end_in_any_order<E>(
    a: Seq<Result<UiConfirmedBlock, E>>,
    b: Seq<Result<UiConfirmedBlock, E>>,
)
    requires
        a.to_multiset() == b.to_multiset(),
    ensures
        replay_outcome(a) is Ok <==> replay_outcome(b) is Ok,
        replay_outcome(a) matches Ok(transactions) ==> replay_outcome(b) is Ok
            && transactions.to_multiset() == replay_outcome(b)->Ok_0.to_multiset(),
    decreases a.len(),
{
    broadcast use vstd::seq_lib::group_to_multiset_ensures;

    if a.len() == 0 {
        assert(b.len() == b.to_multiset().len() && a.len() == a.to_multiset().len());
        assert(a =~= b);
    } else {
        let rest = a.drop_last();
        let last = seq![a.last()];
        assert(a =~= rest + last);
        assert(a.to_multiset().count(a.last()) > 0) by {
            assert(a.contains(a.last()));
        }
        assert(b.contains(a.last()));
        let j = choose|j: int| 0 <= j < b.len() && b[j] == a.last();
        let before = b.take(j);
        let behind = b.skip(j + 1);
        let others = b.remove(j);
        assert(b =~= (before + last) + behind);
        assert(others =~= before + behind);
        assert(rest =~= a.remove(a.len() - 1));
        assert(rest.to_multiset() =~= others.to_multiset());
        downloads_may_end_in_any_order(rest, others);
        downloads_join(rest, last);
        downloads_join(before, behind);
        downloads_join(before, last);
        downloads_join(before + last, behind);
        if replay_outcome(a) is Ok {
            let w = replay_outcome(rest)->Ok_0;
            let x = replay_outcome(last)->Ok_0;
            let y = replay_outcome(before)->Ok_0;
            let z = replay_outcome(behind)->Ok_0;
            vstd::seq_lib::lemma_multiset_commutative(w, x);
            vstd::seq_lib::lemma_multiset_commutative(y, z);
            vstd::seq_lib::lemma_multiset_commutative(y, x);
            vstd::seq_lib::lemma_multiset_commutative(y + x, z);
            assert((w + x).to_multiset() =~= ((y + x) + z).to_multiset());
        }
    }
}

/// The vote program among the account keys makes a transaction a vote in whatever
/// place it stands, and nothing else does: such a transaction is left out, every
/// other one is kept.
pub proof fn the_vote_program_counts_in_every_place(transactions: Seq<TransactionView>, n: int)
    requires
        0 <= n < transactions.len(),
    ensures
        ({
            let keys = transactions[n].message.account_keys;
            &&& forall|i: int|
                0 <= i < keys.len() && #[trigger] keys[i] == vote_program_key() ==> !without_votes(
                    transactions,
                ).contains(transactions[n])
            &&& (forall|i: int| 0 <= i < keys.len() ==> #[trigger] keys[i] != vote_program_key())
                ==> without_votes(transactions).contains(transactions[n])
        }),
{
    exactly_the_votes_are_left_out(transactions);
    let keys = transactions[n].message.account_keys;
    assert forall|i: int|
        0 <= i < keys.len() && #[trigger] keys[i] == vote_program_key() implies !without_votes(
        transactions,
    ).contains(transactions[n]) by {
        assert(is_vote(transactions[n]));
        if without_votes(transactions).contains(transactions[n]) {
            let j = choose|j: int|
                0 <= j < without_votes(transactions).len() && without_votes(transactions)[j]
                    == transactions[n];
            assert(!is_vote(without_votes(transactions)[j]));
        }
    }
}

/// One transaction by itself is left out if the vote program is among its account
/// keys, and kept as it is otherwise; and of no transactions none is kept.
pub proof fn single_transactions_are_kept_or_left_out(transaction: TransactionView)
    ensures
        without_votes(Seq::empty()) == Seq::<TransactionView>::empty(),
        (exists|i: int|
            0 <= i < transaction.message.account_keys.len()
                && #[trigger] transaction.message.account_keys[i] == vote_program_key())
            ==> without_votes(seq![transaction]) == Seq::<TransactionView>::empty(),
        (forall|i: int|
            0 <= i < transaction.message.account_keys.len()
                ==> #[trigger] transaction.message.account_keys[i] != vote_program_key())
            ==> without_votes(seq![transaction]) == seq![transaction],
{
    reveal(Seq::filter);
    assert(seq![transaction].drop_last() =~= Seq::empty());
    assert(seq![transaction].last() == transaction);
    assert(without_votes(Seq::empty()) =~= Seq::<TransactionView>::empty());
    assert(without_votes(seq![transaction].drop_last()) =~= Seq::<TransactionView>::empty());
    assert(Seq::<TransactionView>::empty().push(transaction) =~= seq![transaction]);
    if exists|i: int|
        0 <= i < transaction.message.account_keys.len()
            && #[trigger] transaction.message.account_keys[i] == vote_program_key() {
        assert(is_vote(transaction));
    }
}

/// A block from which the transactions were left out decodes, to none.
pub proof fn blocks_without_transactions_decode_to_none(block: UiConfirmedBlock)
    requires
        block.transactions is None,
    ensures
        decoded_block(block) == Ok::<Seq<TransactionView>, DecodeError>(Seq::empty()),
{
}

/// No blocks decode to no transactions, one block to its own, and blocks one after
/// another to the transactions of the former before those of the latter. The first
/// block that does not decode gives the error.
pub proof fn blocks_join(
    block: UiConfirmedBlock,
    a: Seq<UiConfirmedBlock>,
    b: Seq<UiConfirmedBlock>,
)
    ensures
        decoded_blocks(Seq::empty()) == Ok::<Seq<TransactionView>, DecodeError>(Seq::empty()),
        decoded_blocks(seq![block]) == decoded_block(block),
        decoded_blocks(a + b) == match decoded_blocks(a) {
            Ok(first) => match decoded_blocks(b) {
                Ok(second) => Ok(first + second),
                Err(e) => Err(e),
            },
            Err(e) => Err(e),
        },
{
    let none = Seq::<Seq<TransactionView>>::empty();
    assert(decoded_each_block(Seq::empty()) =~= Seq::empty());
    assert(none.flatten() =~= Seq::empty());
    let outcomes = decoded_each_block(seq![block]);
    assert(outcomes.drop_last() =~= Seq::empty());
    assert(outcomes.last() == decoded_block(block));
    if let Ok(list) = decoded_block(block) {
        assert(collected(outcomes.drop_last()) == Ok::<Seq<Seq<TransactionView>>, DecodeError>(none));
        assert(none.push(list) =~= seq![list]);
        seq![list].lemma_flatten_one_element();
    }
    assert(decoded_each_block(a + b) =~= decoded_each_block(a) + decoded_each_block(b));
    collected_of_concatenation(decoded_each_block(a), decoded_each_block(b));
    if let Ok(first) = collected(decoded_each_block(a)) {
        if let Ok(second) = collected(decoded_each_block(b)) {
            vstd::seq_lib::lemma_flatten_concat(first, second);
        }
    }
}

/// Of a single block, the transactions that are not votes are replayed, or its error
/// is given; of no blocks nothing is.
pub proof fn single_blocks_are_replayed(block: UiConfirmedBlock)
    ensures
        replayable(Seq::empty()) == Ok::<Seq<TransactionView>, DecodeError>(Seq::empty()),
        replayable(seq![block]) == match decoded_block(block) {
            Ok(transactions) => Ok(without_votes(transactions)),
            Err(e) => Err(e),
        },
{
    blocks_join(block, Seq::empty(), Seq::empty());
    reveal(Seq::filter);
    assert(without_votes(Seq::empty()) =~= Seq::empty());
}

/// A transaction that does not decode, in any place of any block, leaves nothing to
/// replay. Otherwise every transaction that does not name the vote program is
/// replayed.
pub proof fn nothing_but_votes_is_lost(
    blocks: Seq<UiConfirmedBlock>,
    n: int,
    transactions: Seq<EncodedTransaction>,
    i: int,
)
    requires
        0 <= n < blocks.len(),
        blocks[n].transactions matches Some(listed) && listed@ == transactions,
        0 <= i < transactions.len(),
    ensures
        decoded(transactions[i]) is Err ==> replayable(blocks) is Err,
        replayable(blocks) matches Ok(replayed) ==> {
            &&& decoded(transactions[i]) is Ok
            &&& (forall|k: int|
                0 <= k < decoded(transactions[i])->Ok_0.message.account_keys.len()
                    ==> #[trigger] decoded(transactions[i])->Ok_0.message.account_keys[k]
                    != vote_program_key()) ==> replayed.contains(decoded(transactions[i])->Ok_0)
        },
{
    let before = blocks.take(n);
    let behind = blocks.skip(n + 1);
    let block = blocks[n];
    assert(blocks =~= (before + seq![block]) + behind);
    replays_join(before + seq![block], behind);
    replays_join(before, seq![block]);
    single_blocks_are_replayed(block);
    blocks_decode_in_place(block, transactions);
    if let Ok(replayed) = replayable(blocks) {
        let list = decoded_block(block)->Ok_0;
        assert(decoded(transactions[i]) == Ok::<TransactionView, DecodeError>(list[i]));
        the_vote_program_counts_in_every_place(list, i);
        let kept = without_votes(list);
        if kept.contains(list[i]) {
            let j = choose|j: int| 0 <= j < kept.len() && kept[j] == list[i];
            let first = replayable(before)->Ok_0;
            assert(replayed[first.len() + j] == list[i]);
        }
    }
}

/// The first download that failed is reported, whatever the blocks hold that did
/// come.
pub proof fn the_first_failed_download_is_reported<E>(
    downloads: Seq<Result<UiConfirmedBlock, E>>,
    n: int,
)
    requires
        0 <= n < downloads.len(),
        downloads[n] is Err,
        forall|i: int| 0 <= i < n ==> #[trigger] downloads[i] is Ok,
    ensures
        replay_outcome(downloads) == Err::<Seq<TransactionView>, ReplayError<E>>(
            ReplayError::Download(downloads[n]->Err_0),
        ),
{
    collected_error_comes_first(downloads, n);
}

/// There is something to replay only if no download failed: then it is what the
/// downloaded blocks give, and an error in one of them is an error of decoding.
pub proof fn only_complete_downloads_are_replayed<E>(
    downloads: Seq<Result<UiConfirmedBlock, E>>,
    blocks: Seq<UiConfirmedBlock>,
)
    ensures
        replay_outcome(downloads) is Ok ==> forall|i: int|
            0 <= i < downloads.len() ==> #[trigger] downloads[i] is Ok,
        (replay_outcome(downloads) matches Err(e) && e is Decode) ==> forall|i: int|
            0 <= i < downloads.len() ==> #[trigger] downloads[i] is Ok,
        blocks.len() == downloads.len() && (forall|i: int|
            0 <= i < blocks.len() ==> #[trigger] downloads[i] == Ok::<UiConfirmedBlock, E>(
                blocks[i],
            )) ==> match replayable(blocks) {
            Ok(transactions) => replay_outcome(downloads) == Ok::<
                Seq<TransactionView>,
                ReplayError<E>,
            >(transactions),
            Err(e) => replay_outcome(downloads) == Err::<Seq<TransactionView>, ReplayError<E>>(
                ReplayError::Decode(e),
            ),
        },
{
    collected_is_ok_iff_all_are(downloads);
    if blocks.len() == downloads.len() && (forall|i: int|
        0 <= i < blocks.len() ==> #[trigger] downloads[i] == Ok::<UiConfirmedBlock, E>(blocks[i])) {
        let values = collected(downloads)->Ok_0;
        assert forall|i: int| 0 <= i < blocks.len() implies values[i] == blocks[i] by {
            assert(downloads[i] == Ok::<UiConfirmedBlock, E>(values[i]));
        }
        assert(values =~= blocks);
    }
}

/// Blocks can be replayed if every transaction in every one of them decodes, however
/// many there are; and no transaction that names the vote program is replayed.
pub proof fn decodable_blocks_are_replayed_without_votes(blocks: Seq<UiConfirmedBlock>)
    ensures
        (forall|n: int, i: int|
            0 <= n < blocks.len() && blocks[n].transactions is Some && 0 <= i
                < blocks[n].transactions->0@.len() ==> decoded(
                #[trigger] blocks[n].transactions->0@[i],
            ) is Ok) ==> replayable(blocks) is Ok,
        replayable(blocks) matches Ok(replayed) ==> forall|j: int, k: int|
            0 <= j < replayed.len() && 0 <= k < replayed[j].message.account_keys.len()
                ==> #[trigger] replayed[j].message.account_keys[k] != vote_program_key(),
{
    let outcomes = decoded_each_block(blocks);
    collected_is_ok_iff_all_are(outcomes);
    if forall|n: int, i: int|
        0 <= n < blocks.len() && blocks[n].transactions is Some && 0 <= i
            < blocks[n].transactions->0@.len() ==> decoded(
            #[trigger] blocks[n].transactions->0@[i],
        ) is Ok {
        assert forall|n: int| 0 <= n < outcomes.len() implies #[trigger] outcomes[n] is Ok by {
            if let Some(listed) = blocks[n].transactions {
                assert forall|i: int| 0 <= i < listed@.len() implies decoded(
                    #[trigger] listed@[i],
                ) is Ok by {
                    assert(decoded(blocks[n].transactions->0@[i]) is Ok);
                }
                blocks_decode_in_place(blocks[n], listed@);
            }
        }
    }
    if let Ok(replayed) = replayable(blocks) {
        let all = decoded_blocks(blocks)->Ok_0;
        exactly_the_votes_are_left_out(all);
        assert forall|j: int, k: int|
            0 <= j < replayed.len() && 0 <= k < replayed[j].message.account_keys.len()
            implies #[trigger] replayed[j].message.account_keys[k] != vote_program_key() by {
            assert(!is_vote(without_votes(all)[j]));
        }
    }
}

} // verus!
