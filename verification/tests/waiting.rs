use solana_banking_bench_historical::replay::{
    CheckEvent, CheckOutcome, CheckStep, RecordCheck, WaitEvent, WaitStep, RECORD_TIMEOUT_SECS,
};

#[test]
fn check_counts_entries_up_to_the_reference() {
    let mut check = RecordCheck::new(5);
    assert_eq!(check.step, CheckStep::ReceiveEntry);
    check.record(CheckEvent::Entry(2));
    assert_eq!(check.step, CheckStep::ReadClock);
    check.record(CheckEvent::Elapsed(0));
    assert_eq!(check.step, CheckStep::ReadBank);
    check.record(CheckEvent::Bank(true));
    assert_eq!(check.step, CheckStep::ReceiveEntry);
    check.record(CheckEvent::NoEntry);
    check.record(CheckEvent::Elapsed(1));
    check.record(CheckEvent::Bank(true));
    check.record(CheckEvent::Entry(4));
    assert_eq!(check.total, 6);
    assert_eq!(check.step, CheckStep::Finished(CheckOutcome::AllRecorded));
    check.record(CheckEvent::Bank(false));
    assert_eq!(check.step, CheckStep::Finished(CheckOutcome::AllRecorded));
}

#[test]
fn check_of_no_transactions_ends_at_once() {
    let mut check = RecordCheck::new(0);
    check.record(CheckEvent::NoEntry);
    assert_eq!(check.step, CheckStep::Finished(CheckOutcome::AllRecorded));
}

#[test]
fn check_stops_after_sixty_seconds() {
    assert_eq!(RECORD_TIMEOUT_SECS, 60);
    let mut check = RecordCheck::new(1);
    check.record(CheckEvent::NoEntry);
    check.record(CheckEvent::Elapsed(59));
    assert_eq!(check.step, CheckStep::ReadBank);
    check.record(CheckEvent::Bank(true));
    check.record(CheckEvent::NoEntry);
    check.record(CheckEvent::Elapsed(60));
    assert_eq!(check.step, CheckStep::Finished(CheckOutcome::TimedOut));
    let mut late = RecordCheck::new(1);
    late.record(CheckEvent::NoEntry);
    late.record(CheckEvent::Elapsed(61));
    assert_eq!(late.step, CheckStep::Finished(CheckOutcome::TimedOut));
}

#[test]
fn check_stops_without_a_bank() {
    let mut check = RecordCheck::new(1);
    check.record(CheckEvent::NoEntry);
    check.record(CheckEvent::Elapsed(3));
    check.record(CheckEvent::Bank(false));
    assert_eq!(check.step, CheckStep::Finished(CheckOutcome::NoBank));
    assert_eq!(check.total, 0);
}

#[test]
fn check_ignores_what_was_not_asked_for() {
    let mut check = RecordCheck::new(1);
    check.record(CheckEvent::Elapsed(100));
    check.record(CheckEvent::Bank(false));
    assert_eq!(check, RecordCheck::new(1));
}

#[test]
fn outcomes_as_results() {
    assert!(CheckOutcome::NoBank.no_bank());
    assert!(!CheckOutcome::AllRecorded.no_bank());
}

#[test]
fn transactions_are_waited_for_in_order() {
    let step = WaitStep::new(2);
    assert_eq!(step, WaitStep::ReadStatus(0));
    let step = step.next(WaitEvent::Status(false), 2);
    assert_eq!(step, WaitStep::ReadBank(0));
    let step = step.next(WaitEvent::Bank(true), 2);
    assert_eq!(step, WaitStep::Sleep(0));
    let step = step.next(WaitEvent::Slept, 2);
    assert_eq!(step, WaitStep::ReadStatus(0));
    let step = step.next(WaitEvent::Status(true), 2);
    assert_eq!(step, WaitStep::ReadStatus(1));
    let step = step.next(WaitEvent::Status(true), 2);
    assert_eq!(step, WaitStep::Finished);
    assert_eq!(step.next(WaitEvent::Slept, 2), WaitStep::Finished);
}

#[test]
fn without_a_bank_every_transaction_is_left_behind() {
    let mut step = WaitStep::new(3);
    for place in 0..3usize {
        assert_eq!(step, WaitStep::ReadStatus(place));
        step = step.next(WaitEvent::Status(false), 3).next(WaitEvent::Bank(false), 3);
    }
    assert_eq!(step, WaitStep::Finished);
}

#[test]
fn no_transactions_no_wait() {
    assert_eq!(WaitStep::new(0), WaitStep::Finished);
}
