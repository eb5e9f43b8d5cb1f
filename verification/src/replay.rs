//! Waiting for replayed transactions: what to look at next, and when to stop.

use vstd::prelude::*;

verus! {

/// How long the record of the transactions is waited for, in seconds.
pub const RECORD_TIMEOUT_SECS: u64 = 60;

/// How the wait for the record of the transactions ended.
#[derive(Debug, Clone, Copy, PartialEq, Eq, Structural)]
pub enum CheckOutcome {
    /// All transactions are in the record.
    AllRecorded,
    /// There is no working bank any more.
    NoBank,
    /// Time ran out before all transactions were in the record.
    TimedOut,
}

impl CheckOutcome {
    /// Whether the wait ended for want of a working bank. Running out of time is
    /// no result.
    pub fn no_bank(self) -> (no_bank: bool)
        requires
            !(self is TimedOut),
        ensures
            no_bank == (self is NoBank),
    {
        self == CheckOutcome::NoBank
    }
}

/// What to look at next.
#[derive(Debug, Clone, Copy, PartialEq, Eq, Structural)]
pub enum CheckStep {
    /// Wait a moment for an entry.
    ReceiveEntry,
    /// See how many seconds have passed.
    ReadClock,
    /// See whether there is a working bank.
    ReadBank,
    Finished(CheckOutcome),
}

/// What a look has shown.
#[derive(Debug, Clone, Copy, PartialEq, Eq, Structural)]
pub enum CheckEvent {
    /// An entry with this many transactions has come.
    Entry(usize),
    /// No entry has come.
    NoEntry,
    /// This many whole seconds have passed.
    Elapsed(u64),
    /// Whether there is a working bank.
    Bank(bool),
}

/// The wait for the record of a number of transactions.
#[derive(Debug, Clone, Copy, PartialEq, Eq, Structural)]
pub struct RecordCheck {
    pub total: usize,
    pub ref_tx_count: usize,
    pub step: CheckStep,
}

/// The check once `total` transactions are in the record.
pub open spec fn counted(check: RecordCheck, total: int) -> RecordCheck {
    RecordCheck {
        total: total as usize,
        step: if total >= check.ref_tx_count {
            CheckStep::Finished(CheckOutcome::AllRecorded)
        } else {
            CheckStep::ReadClock
        },
        ..check
    }
}

/// The check after an event. An event that was not asked for changes nothing.
pub open spec fn check_after(check: RecordCheck, event: CheckEvent) -> RecordCheck {
    match (check.step, event) {
        (CheckStep::ReceiveEntry, CheckEvent::Entry(count)) => counted(check, check.total + count),
        (CheckStep::ReceiveEntry, CheckEvent::NoEntry) => counted(check, check.total as int),
        (CheckStep::ReadClock, CheckEvent::Elapsed(secs)) => RecordCheck {
            step: if secs >= RECORD_TIMEOUT_SECS {
                CheckStep::Finished(CheckOutcome::TimedOut)
            } else {
                CheckStep::ReadBank
            },
            ..check
        },
        (CheckStep::ReadBank, CheckEvent::Bank(present)) => RecordCheck {
            step: if present {
                CheckStep::ReceiveEntry
            } else {
                CheckStep::Finished(CheckOutcome::NoBank)
            },
            ..check
        },
        _ => check,
    }
}

/// Whether the transactions of an entry that was asked for can be counted.
pub open spec fn can_count(check: RecordCheck, event: CheckEvent) -> bool {
    match (check.step, event) {
        (CheckStep::ReceiveEntry, CheckEvent::Entry(count)) => check.total + count <= usize::MAX,
        _ => true,
    }
}

/// A check for `ref_tx_count` transactions that has not begun.
pub open spec fn fresh_check(ref_tx_count: usize) -> RecordCheck {
    RecordCheck { total: 0, ref_tx_count, step: CheckStep::ReceiveEntry }
}

impl RecordCheck {
    /// Begins the wait for `ref_tx_count` transactions.
    pub fn new(ref_tx_count: usize) -> (check: RecordCheck)
        ensures
            check == fresh_check(ref_tx_count),
    {
        RecordCheck { total: 0, ref_tx_count, step: CheckStep::ReceiveEntry }
    }

    /// Takes note of what a look has shown.
    pub fn record(&mut self, event: CheckEvent)
        requires
            can_count(*old(self), event),
        ensures
            *final(self) == check_after(*old(self), event),
    {
        match (self.step, event) {
            (CheckStep::ReceiveEntry, CheckEvent::Entry(count)) => {
                self.total = self.total + count;
                self.compare_count();
            },
            (CheckStep::ReceiveEntry, CheckEvent::NoEntry) => {
                self.compare_count();
            },
            (CheckStep::ReadClock, CheckEvent::Elapsed(secs)) => {
                if secs >= RECORD_TIMEOUT_SECS {
                    self.step = CheckStep::Finished(CheckOutcome::TimedOut);
                } else {
                    self.step = CheckStep::ReadBank;
                }
            },
            (CheckStep::ReadBank, CheckEvent::Bank(present)) => {
                if present {
                    self.step = CheckStep::ReceiveEntry;
                } else {
                    self.step = CheckStep::Finished(CheckOutcome::NoBank);
                }
            },
            _ => {},
        }
    }

    fn compare_count(&mut self)
        ensures
            *final(self) == counted(*old(self), old(self).total as int),
    {
        if self.total >= self.ref_tx_count {
            self.step = CheckStep::Finished(CheckOutcome::AllRecorded);
        } else {
            self.step = CheckStep::ReadClock;
        }
    }
}

/// A check for `ref_tx_count` transactions after a course of events.
pub open spec fn check_after_all(ref_tx_count: usize, events: Seq<CheckEvent>) -> RecordCheck
    decreases events.len(),
{
    if events.len() == 0 {
        fresh_check(ref_tx_count)
    } else {
        check_after(check_after_all(ref_tx_count, events.drop_last()), events.last())
    }
}

/// Whether the transactions of all events can be counted.
pub open spec fn can_count_all(ref_tx_count: usize, events: Seq<CheckEvent>) -> bool {
    forall|n: int|
        0 <= n < events.len() ==> can_count(
            check_after_all(ref_tx_count, events.take(n)),
            #[trigger] events[n],
        )
}

/// The number of transactions in the entries that were asked for.
pub open spec fn recorded(ref_tx_count: usize, events: Seq<CheckEvent>) -> nat
    decreases events.len(),
{
    if events.len() == 0 {
        0
    } else {
        let rest = events.drop_last();
        recorded(ref_tx_count, rest) + match (
            check_after_all(ref_tx_count, rest).step,
            events.last(),
        ) {
            (CheckStep::ReceiveEntry, CheckEvent::Entry(count)) => count as nat,
            _ => 0nat,
        }
    }
}

proof fn can_count_rest(ref_tx_count: usize, events: Seq<CheckEvent>)
    requires
        events.len() > 0,
        can_count_all(ref_tx_count, events),
    ensures
        can_count_all(ref_tx_count, events.drop_last()),
{
    let rest = events.drop_last();
    assert forall|n: int| 0 <= n < rest.len() implies can_count(
        check_after_all(ref_tx_count, rest.take(n)),
        #[trigger] rest[n],
    ) by {
        assert(rest.take(n) =~= events.take(n));
        assert(rest[n] == events[n]);
    }
}

/// The total is the number of transactions in the record. The wait ends with all
/// of them recorded exactly when that number has been reached, and otherwise goes
/// on or ends with fewer.
pub proof fn totals_count_what_was_recorded(ref_tx_count: usize, events: Seq<CheckEvent>)
    requires
        can_count_all(ref_tx_count, events),
    ensures
        ({
            let check = check_after_all(ref_tx_count, events);
            &&& check.ref_tx_count == ref_tx_count
            &&& check.total == recorded(ref_tx_count, events)
            &&& check.step == CheckStep::Finished(CheckOutcome::AllRecorded) ==> check.total
                >= ref_tx_count
            &&& !(check.step is ReceiveEntry) && check.step != CheckStep::Finished(
                CheckOutcome::AllRecorded,
            ) ==> check.total < ref_tx_count
        }),
    decreases events.len(),
{
    if events.len() > 0 {
        let rest = events.drop_last();
        can_count_rest(ref_tx_count, events);
        totals_count_what_was_recorded(ref_tx_count, rest);
        assert(events.take(events.len() - 1) =~= rest);
        assert(can_count(check_after_all(ref_tx_count, rest), events[events.len() - 1]));
    }
}

/// The wait stops at the first look at the clock that finds the time up, and at no
/// earlier one.
pub proof fn the_wait_stops_when_time_is_up(check: RecordCheck, secs: u64)
    requires
        check.step is ReadClock,
    ensures
        check_after(check, CheckEvent::Elapsed(secs)).step == CheckStep::Finished(
            CheckOutcome::TimedOut,
        ) <==> secs >= RECORD_TIMEOUT_SECS,
{
}

/// A wait that has ended stays as it ended.
pub proof fn outcomes_are_final(check: RecordCheck, event: CheckEvent)
    requires
        check.step is Finished,
    ensures
        check_after(check, event) == check,
{
}

/// The wait ends for want of a working bank exactly when a look for one, made in
/// its turn, found none.
pub proof fn the_wait_ends_without_a_bank_only_if_none_was_found(
    ref_tx_count: usize,
    events: Seq<CheckEvent>,
)
    ensures
        check_after_all(ref_tx_count, events).step == CheckStep::Finished(CheckOutcome::NoBank)
            <==> exists|n: int|
            0 <= n < events.len() && #[trigger] events[n] == CheckEvent::Bank(false)
                && check_after_all(ref_tx_count, events.take(n)).step is ReadBank,
    decreases events.len(),
{
    if events.len() > 0 {
        let rest = events.drop_last();
        let last = events.len() - 1;
        assert(events.take(last) =~= rest);
        assert(events[last] == events.last());
        the_wait_ends_without_a_bank_only_if_none_was_found(ref_tx_count, rest);
        assert forall|n: int| 0 <= n < last implies #[trigger] events[n] == rest[n] && events.take(n)
            == rest.take(n) by {
            assert(events.take(n) =~= rest.take(n));
        }
        if check_after_all(ref_tx_count, rest).step == CheckStep::Finished(CheckOutcome::NoBank) {
            let n = choose|n: int|
                0 <= n < rest.len() && #[trigger] rest[n] == CheckEvent::Bank(false)
                    && check_after_all(ref_tx_count, rest.take(n)).step is ReadBank;
            assert(events[n] == rest[n]);
        }
    }
}

/// No entry is waited for once the transactions are all in the record, if there
/// are any. So the entries before the last one taken hold fewer than all of them,
/// and the wait ends with all of them recorded at that last entry.
pub proof fn no_entry_is_taken_in_excess(ref_tx_count: usize, events: Seq<CheckEvent>)
    requires
        ref_tx_count > 0,
        can_count_all(ref_tx_count, events),
    ensures
        check_after_all(ref_tx_count, events).step is ReceiveEntry ==> recorded(
            ref_tx_count,
            events,
        ) < ref_tx_count,
        check_after_all(ref_tx_count, events).step == CheckStep::Finished(CheckOutcome::AllRecorded)
            ==> exists|n: int|
            0 <= n < events.len() && {
                &&& #[trigger] events[n] matches CheckEvent::Entry(count)
                &&& check_after_all(ref_tx_count, events.take(n)).step is ReceiveEntry
                &&& recorded(ref_tx_count, events.take(n)) < ref_tx_count
                &&& recorded(ref_tx_count, events) == recorded(ref_tx_count, events.take(n)) + count
            },
    decreases events.len(),
{
    if events.len() > 0 {
        let rest = events.drop_last();
        let last = events.len() - 1;
        assert(events.take(last) =~= rest);
        assert(events[last] == events.last());
        can_count_rest(ref_tx_count, events);
        totals_count_what_was_recorded(ref_tx_count, rest);
        totals_count_what_was_recorded(ref_tx_count, events);
        no_entry_is_taken_in_excess(ref_tx_count, rest);
        if check_after_all(ref_tx_count, rest).step == CheckStep::Finished(
            CheckOutcome::AllRecorded,
        ) {
            let n = choose|n: int|
                0 <= n < rest.len() && {
                    &&& #[trigger] rest[n] matches CheckEvent::Entry(count)
                    &&& check_after_all(ref_tx_count, rest.take(n)).step is ReceiveEntry
                    &&& recorded(ref_tx_count, rest.take(n)) < ref_tx_count
                    &&& recorded(ref_tx_count, rest) == recorded(ref_tx_count, rest.take(n)) + count
                };
            assert(rest.take(n) =~= events.take(n));
            assert(events[n] == rest[n]);
        }
    }
}

/// What to look at next while the transactions are processed one after another.
#[derive(Debug, Clone, Copy, PartialEq, Eq, Structural)]
pub enum WaitStep {
    /// See whether the transaction in this place has a status.
    ReadStatus(usize),
    /// See whether there is a working bank.
    ReadBank(usize),
    /// Pause.
    Sleep(usize),
    Finished,
}

/// What a look has shown.
#[derive(Debug, Clone, Copy, PartialEq, Eq, Structural)]
pub enum WaitEvent {
    Status(bool),
    Bank(bool),
    Slept,
}

/// The step that looks at the transaction in a place, if there is one.
pub open spec fn wait_at(place: int, count: usize) -> WaitStep {
    if place < count {
        WaitStep::ReadStatus(place as usize)
    } else {
        WaitStep::Finished
    }
}

/// The step after an event, of `count` transactions. An event that was not asked
/// for changes nothing.
pub open spec fn wait_after(step: WaitStep, event: WaitEvent, count: usize) -> WaitStep {
    match (step, event) {
        (WaitStep::ReadStatus(place), WaitEvent::Status(known)) => if known {
            wait_at(place + 1, count)
        } else {
            WaitStep::ReadBank(place)
        },
        (WaitStep::ReadBank(place), WaitEvent::Bank(present)) => if present {
            WaitStep::Sleep(place)
        } else {
            wait_at(place + 1, count)
        },
        (WaitStep::Sleep(place), WaitEvent::Slept) => WaitStep::ReadStatus(place),
        _ => step,
    }
}

/// Whether a step is about one of `count` transactions.
pub open spec fn wait_wf(step: WaitStep, count: usize) -> bool {
    match step {
        WaitStep::ReadStatus(place) => place < count,
        WaitStep::ReadBank(place) => place < count,
        WaitStep::Sleep(place) => place < count,
        WaitStep::Finished => true,
    }
}

impl WaitStep {
    /// Begins the wait for `count` transactions.
    pub fn new(count: usize) -> (step: WaitStep)
        ensures
            step == wait_at(0, count),
            wait_wf(step, count),
    {
        WaitStep::at(0, count)
    }

    fn at(place: usize, count: usize) -> (step: WaitStep)
        ensures
            step == wait_at(place as int, count),
    {
        if place < count {
            WaitStep::ReadStatus(place)
        } else {
            WaitStep::Finished
        }
    }

    /// The next step of the wait for `count` transactions.
    pub fn next(self, event: WaitEvent, count: usize) -> (step: WaitStep)
        requires
            wait_wf(self, count),
        ensures
            step == wait_after(self, event, count),
            wait_wf(step, count),
    {
        match (self, event) {
            (WaitStep::ReadStatus(place), WaitEvent::Status(known)) => {
                if known {
                    WaitStep::at(place + 1, count)
                } else {
                    WaitStep::ReadBank(place)
                }
            },
            (WaitStep::ReadBank(place), WaitEvent::Bank(present)) => {
                if present {
                    WaitStep::Sleep(place)
                } else {
                    WaitStep::at(place + 1, count)
                }
            },
            (WaitStep::Sleep(place), WaitEvent::Slept) => WaitStep::ReadStatus(place),
            _ => self,
        }
    }
}

/// The wait for `count` transactions after a course of events.
pub open spec fn wait_after_all(count: usize, events: Seq<WaitEvent>) -> WaitStep
    decreases events.len(),
{
    if events.len() == 0 {
        wait_at(0, count)
    } else {
        wait_after(wait_after_all(count, events.drop_last()), events.last(), count)
    }
}

/// Whether, in a course of events, the transaction in a place was left behind:
/// either it had a status, or there was no working bank.
pub open spec fn left_behind(count: usize, events: Seq<WaitEvent>, place: int) -> bool {
    exists|n: int|
        0 <= n < events.len() && {
            ||| wait_after_all(count, #[trigger] events.take(n)) == WaitStep::ReadStatus(
                place as usize,
            ) && events[n] == WaitEvent::Status(true)
            ||| wait_after_all(count, events.take(n)) == WaitStep::ReadBank(place as usize)
                && events[n] == WaitEvent::Bank(false)
        }
}

/// The transaction that a step is about, or the number of transactions where none
/// is left.
pub open spec fn wait_place(step: WaitStep, count: usize) -> int {
    match step {
        WaitStep::ReadStatus(place) => place as int,
        WaitStep::ReadBank(place) => place as int,
        WaitStep::Sleep(place) => place as int,
        WaitStep::Finished => count as int,
    }
}

/// The transactions are waited for in their order, and none is left behind until
/// it has a status or there is no working bank. So when the wait is finished,
/// that holds of every one of them.
pub proof fn no_transaction_is_skipped(count: usize, events: Seq<WaitEvent>)
    ensures
        wait_wf(wait_after_all(count, events), count),
        forall|place: int|
            0 <= place < wait_place(wait_after_all(count, events), count) ==> #[trigger] left_behind(
                count,
                events,
                place,
            ),
    decreases events.len(),
{
    if events.len() > 0 {
        let rest = events.drop_last();
        let last = events.len() - 1;
        let before = wait_after_all(count, rest);
        no_transaction_is_skipped(count, rest);
        assert(events.take(last) =~= rest);
        assert forall|place: int| 0 <= place < wait_place(
            wait_after_all(count, events),
            count,
        ) implies #[trigger] left_behind(count, events, place) by {
            if place < wait_place(before, count) {
                assert(left_behind(count, rest, place));
                let n = choose|n: int|
                    0 <= n < rest.len() && {
                        ||| wait_after_all(count, #[trigger] rest.take(n)) == WaitStep::ReadStatus(
                            place as usize,
                        ) && rest[n] == WaitEvent::Status(true)
                        ||| wait_after_all(count, rest.take(n)) == WaitStep::ReadBank(
                            place as usize,
                        ) && rest[n] == WaitEvent::Bank(false)
                    };
                assert(rest.take(n) =~= events.take(n));
                assert(rest[n] == events[n]);
            } else {
                assert(place == wait_place(before, count));
                assert(events[last] == events.last());
            }
        }
    }
}

/// An entry adds as many transactions as it holds to the total, and no entry none.
/// With that the wait ends as soon as the total has come to the number waited for,
/// and else goes on to the clock.
pub proof fn entries_are_added_up(check: RecordCheck, count: usize)
    requires
        check.step is ReceiveEntry,
    ensures
        check.total + count <= usize::MAX ==> ({
            let next = check_after(check, CheckEvent::Entry(count));
            &&& next.total == check.total + count
            &&& next.ref_tx_count == check.ref_tx_count
            &&& check.total + count >= check.ref_tx_count ==> next.step == CheckStep::Finished(
                CheckOutcome::AllRecorded,
            )
            &&& check.total + count < check.ref_tx_count ==> next.step is ReadClock
        }),
        check_after(check, CheckEvent::NoEntry) == (RecordCheck {
            step: if check.total >= check.ref_tx_count {
                CheckStep::Finished(CheckOutcome::AllRecorded)
            } else {
                CheckStep::ReadClock
            },
            ..check
        }),
        can_count(check, CheckEvent::Entry(count)) <==> check.total + count <= usize::MAX,
{
}

/// Before the minute is up the bank is looked at, and while there is one the next
/// entry is waited for; without one the wait ends. Neither look changes the total.
pub proof fn the_wait_goes_on_within_the_minute(check: RecordCheck, secs: u64)
    ensures
        check.step is ReadClock ==> check_after(check, CheckEvent::Elapsed(secs)) == (RecordCheck {
            step: if secs < 60 {
                CheckStep::ReadBank
            } else {
                CheckStep::Finished(CheckOutcome::TimedOut)
            },
            ..check
        }),
        check.step is ReadBank ==> {
            &&& check_after(check, CheckEvent::Bank(true)) == (RecordCheck {
                step: CheckStep::ReceiveEntry,
                ..check
            })
            &&& check_after(check, CheckEvent::Bank(false)) == (RecordCheck {
                step: CheckStep::Finished(CheckOutcome::NoBank),
                ..check
            })
        },
{
}

/// What was not asked for changes nothing and can always be reported.
pub proof fn unasked_events_change_nothing(check: RecordCheck, event: CheckEvent)
    requires
        !match check.step {
            CheckStep::ReceiveEntry => event is Entry || event is NoEntry,
            CheckStep::ReadClock => event is Elapsed,
            CheckStep::ReadBank => event is Bank,
            CheckStep::Finished(_) => false,
        },
    ensures
        check_after(check, event) == check,
        can_count(check, event),
{
}

/// A round in which too few transactions come, the minute is not up and there is a
/// bank leads back to the next entry, with what came counted.
pub proof fn rounds_lead_back_to_the_next_entry(check: RecordCheck, count: usize, secs: u64)
    requires
        check.step is ReceiveEntry,
        check.total + count < check.ref_tx_count,
        secs < 60,
    ensures
        check_after(
            check_after(
                check_after(check, CheckEvent::Entry(count)),
                CheckEvent::Elapsed(secs),
            ),
            CheckEvent::Bank(true),
        ) == (RecordCheck { total: (check.total + count) as usize, ..check }),
{
}

/// A transaction with a status is left behind for the next one, if there is one. One
/// without is waited for, as long as there is a bank, with a pause before each new
/// look; without a bank it is left behind too.
pub proof fn transactions_are_left_behind_in_turn(place: usize, count: usize)
    requires
        place < count,
    ensures
        ({
            let next = if place + 1 < count {
                WaitStep::ReadStatus((place + 1) as usize)
            } else {
                WaitStep::Finished
            };
            &&& wait_after(WaitStep::ReadStatus(place), WaitEvent::Status(true), count) == next
            &&& wait_after(WaitStep::ReadStatus(place), WaitEvent::Status(false), count)
                == WaitStep::ReadBank(place)
            &&& wait_after(WaitStep::ReadBank(place), WaitEvent::Bank(true), count)
                == WaitStep::Sleep(place)
            &&& wait_after(WaitStep::ReadBank(place), WaitEvent::Bank(false), count) == next
            &&& wait_after(WaitStep::Sleep(place), WaitEvent::Slept, count) == WaitStep::ReadStatus(
                place,
            )
        }),
{
}

/// The wait begins with the first transaction, is about one of them until it is
/// finished, and changes by nothing that was not asked for.
pub proof fn waits_are_about_their_transactions(
    step: WaitStep,
    event: WaitEvent,
    place: usize,
    count: usize,
)
    ensures
        wait_at(0, count) == if count > 0 {
            WaitStep::ReadStatus(0)
        } else {
            WaitStep::Finished
        },
        wait_wf(WaitStep::ReadStatus(place), count) <==> place < count,
        wait_wf(WaitStep::ReadBank(place), count) <==> place < count,
        wait_wf(WaitStep::Sleep(place), count) <==> place < count,
        wait_wf(WaitStep::Finished, count),
        wait_after(WaitStep::Finished, event, count) == WaitStep::Finished,
        !(event is Status) ==> wait_after(WaitStep::ReadStatus(place), event, count)
            == WaitStep::ReadStatus(place),
        !(event is Bank) ==> wait_after(WaitStep::ReadBank(place), event, count)
            == WaitStep::ReadBank(place),
        !(event is Slept) ==> wait_after(WaitStep::Sleep(place), event, count) == WaitStep::Sleep(
            place,
        ),
{
}

/// Where every transaction has a status, one look at each finishes the wait, and
/// fewer do not.
pub proof fn known_transactions_are_passed_one_by_one(count: usize, events: Seq<WaitEvent>)
    requires
        events.len() <= count,
        forall|i: int| 0 <= i < events.len() ==> #[trigger] events[i] == WaitEvent::Status(true),
    ensures
        wait_after_all(count, events) == if events.len() < count {
            WaitStep::ReadStatus(events.len() as usize)
        } else {
            WaitStep::Finished
        },
    decreases events.len(),
{
    if events.len() > 0 {
        let rest = events.drop_last();
        assert(events[events.len() - 1] == WaitEvent::Status(true));
        assert forall|i: int| 0 <= i < rest.len() implies #[trigger] rest[i] == WaitEvent::Status(
            true,
        ) by {
            assert(events[i] == WaitEvent::Status(true));
        }
        known_transactions_are_passed_one_by_one(count, rest);
    }
}

} // verus!
