use bank_ledger::currency::Currency;
use bank_ledger::ledger::{Ledger, BANK_ID};
use bank_ledger::operation::{
    duration_to_millis, force_transfer, get_balance, get_current_time, get_statement,
    send_transfer, LedgerError, Transfer, TransferStatus,
};

#[test]
fn empty_ledger_has_zero_balances() {
    let ledger = Ledger::new();
    assert_eq!(ledger.len(), 0);
    assert_eq!(get_balance(&ledger, 1, Currency::Ksn), 0);
    assert_eq!(get_balance(&ledger, BANK_ID, Currency::Usd), 0);
    assert!(get_statement(&ledger, 1, Currency::Ksn).is_empty());
}

#[test]
fn send_rejects_non_positive_values() {
    let mut ledger = Ledger::new();
    force_transfer(&mut ledger, BANK_ID, 1, Currency::Ksn, 100, 1000).unwrap();
    let before = ledger.len();
    assert_eq!(
        send_transfer(&mut ledger, 1, 2, Currency::Ksn, 0, 2000),
        TransferStatus::BadValue
    );
    assert_eq!(
        send_transfer(&mut ledger, 1, 2, Currency::Ksn, -5, 2000),
        TransferStatus::BadValue
    );
    assert_eq!(ledger.len(), before);
    assert_eq!(get_balance(&ledger, 1, Currency::Ksn), 100);
    assert_eq!(get_balance(&ledger, 2, Currency::Ksn), 0);
}

#[test]
fn send_rejects_insufficient_balance() {
    let mut ledger = Ledger::new();
    assert_eq!(
        send_transfer(&mut ledger, 1, 2, Currency::Ksn, 10, 1000),
        TransferStatus::InsuficientBalance
    );
    force_transfer(&mut ledger, BANK_ID, 1, Currency::Ksn, 50, 2000).unwrap();
    let before = ledger.len();
    assert_eq!(
        send_transfer(&mut ledger, 1, 2, Currency::Ksn, 60, 3000),
        TransferStatus::InsuficientBalance
    );
    assert_eq!(ledger.len(), before);
    assert_eq!(get_balance(&ledger, 1, Currency::Ksn), 50);
    assert_eq!(get_balance(&ledger, 2, Currency::Ksn), 0);
}

#[test]
fn send_moves_value_between_accounts() {
    let mut ledger = Ledger::new();
    force_transfer(&mut ledger, BANK_ID, 1, Currency::Ksn, 100, 1000).unwrap();
    assert_eq!(
        send_transfer(&mut ledger, 1, 2, Currency::Ksn, 40, 2000),
        TransferStatus::Authorized
    );
    assert_eq!(get_balance(&ledger, 1, Currency::Ksn), 60);
    assert_eq!(get_balance(&ledger, 2, Currency::Ksn), 40);
    assert_eq!(get_balance(&ledger, BANK_ID, Currency::Ksn), -100);
}

#[test]
fn bank_debits_are_never_blocked() {
    let mut ledger = Ledger::new();
    assert_eq!(
        send_transfer(&mut ledger, BANK_ID, 9, Currency::Usd, 25, 1000),
        TransferStatus::Authorized
    );
    assert_eq!(get_balance(&ledger, 9, Currency::Usd), 25);
    assert_eq!(get_balance(&ledger, BANK_ID, Currency::Usd), -25);
}

#[test]
fn force_deposit_succeeds_and_credits_target() {
    let mut ledger = Ledger::new();
    assert_eq!(
        force_transfer(&mut ledger, BANK_ID, 7, Currency::Ksn, 100, 1000),
        Ok(())
    );
    assert_eq!(get_balance(&ledger, 7, Currency::Ksn), 100);
    assert_eq!(get_balance(&ledger, BANK_ID, Currency::Ksn), -100);
    // A second deposit still succeeds, whatever the bank's balance.
    assert_eq!(
        force_transfer(&mut ledger, BANK_ID, 7, Currency::Ksn, 1, 2000),
        Ok(())
    );
    assert_eq!(get_balance(&ledger, 7, Currency::Ksn), 101);
}

#[test]
fn force_accepts_negative_adjustments() {
    let mut ledger = Ledger::new();
    force_transfer(&mut ledger, BANK_ID, 3, Currency::Ksn, 100, 1000).unwrap();
    force_transfer(&mut ledger, BANK_ID, 3, Currency::Ksn, -30, 2000).unwrap();
    assert_eq!(get_balance(&ledger, 3, Currency::Ksn), 70);
    assert_eq!(get_balance(&ledger, BANK_ID, Currency::Ksn), -70);
}

#[test]
fn snapshot_overflow_is_reported_and_writes_nothing() {
    let mut ledger = Ledger::new();
    force_transfer(&mut ledger, BANK_ID, 1, Currency::Ksn, i64::MAX, 1000).unwrap();
    let before = ledger.len();
    assert_eq!(
        force_transfer(&mut ledger, BANK_ID, 1, Currency::Ksn, 1, 2000),
        Err(LedgerError::SnapshotOverflow)
    );
    assert_eq!(
        send_transfer(&mut ledger, BANK_ID, 1, Currency::Ksn, 1, 2000),
        TransferStatus::Failed
    );
    assert_eq!(ledger.len(), before);
    assert_eq!(get_balance(&ledger, 1, Currency::Ksn), i64::MAX);
}

#[test]
fn currencies_are_independent() {
    let mut ledger = Ledger::new();
    force_transfer(&mut ledger, BANK_ID, 1, Currency::Ksn, 100, 1000).unwrap();
    force_transfer(&mut ledger, BANK_ID, 1, Currency::Usd, 40, 2000).unwrap();
    send_transfer(&mut ledger, 1, 2, Currency::Usd, 15, 3000);
    assert_eq!(get_balance(&ledger, 1, Currency::Ksn), 100);
    assert_eq!(get_balance(&ledger, 2, Currency::Ksn), 0);
    assert_eq!(get_balance(&ledger, 1, Currency::Usd), 25);
    assert_eq!(get_balance(&ledger, 2, Currency::Usd), 15);
}

#[test]
fn statement_reports_both_sides_in_descending_order() {
    let mut ledger = Ledger::new();
    force_transfer(&mut ledger, BANK_ID, 1, Currency::Ksn, 100, 1000).unwrap();
    assert_eq!(
        send_transfer(&mut ledger, 1, 2, Currency::Ksn, 40, 2000),
        TransferStatus::Authorized
    );

    let statement = get_statement(&ledger, 1, Currency::Ksn);
    assert_eq!(statement.len(), 2);
    // Most recent first: the outgoing transfer, seen from account 1's side.
    assert_eq!(statement[0].date, 2000);
    assert_eq!(statement[0].from_account, 1);
    assert_eq!(statement[0].to_account, 2);
    assert_eq!(statement[0].value, 40);
    assert_eq!(statement[0].balance, 60);
    // Then the deposit received from the issuing authority.
    assert_eq!(statement[1].date, 1000);
    assert_eq!(statement[1].from_account, BANK_ID);
    assert_eq!(statement[1].balance, 100);
    assert_eq!(statement[1].value, 100);

    // The counterparty sees its own snapshots.
    let other = get_statement(&ledger, 2, Currency::Ksn);
    assert_eq!(other.len(), 1);
    assert_eq!(other[0].balance, 40);
    assert_eq!(other[0].value, 40);

    // The bank's statement holds only the issuance row.
    let bank = get_statement(&ledger, BANK_ID, Currency::Ksn);
    assert_eq!(bank.len(), 1);
    assert_eq!(bank[0].balance, -100);
}

#[test]
fn rows_record_snapshots_and_metadata() {
    let mut ledger = Ledger::new();
    force_transfer(&mut ledger, BANK_ID, 1, Currency::Ksn, 100, 1234).unwrap();
    send_transfer(&mut ledger, 1, 2, Currency::Ksn, 40, 5678);
    assert_eq!(ledger.len(), 2);
    let first = ledger.row(0);
    assert_eq!(first.id, 0);
    assert_eq!(first.from_account, BANK_ID);
    assert_eq!(first.to_account, 1);
    assert_eq!(first.from_balance, -100);
    assert_eq!(first.to_balance, 100);
    assert_eq!(first.value, 100);
    assert_eq!(first.transfer_date, 1234);
    assert_eq!(first.description, "");
    let second = ledger.row(1);
    assert_eq!(second.id, 1);
    assert_eq!(second.from_balance, 60);
    assert_eq!(second.to_balance, 40);
    assert_eq!(second.transfer_date, 5678);
}

#[test]
fn row_view_is_zero_for_a_bystander() {
    let mut ledger = Ledger::new();
    force_transfer(&mut ledger, BANK_ID, 1, Currency::Ksn, 100, 1000).unwrap();
    let row = ledger.row(0);
    // An account on neither side of the row reads a zero snapshot.
    let view = Transfer::of_row(42, &row);
    assert_eq!(view.balance, 0);
    assert_eq!(view.value, 100);
    assert_eq!(view.date, 1000);
}

#[test]
fn self_transfer_keeps_only_the_debited_snapshot() {
    // A transfer whose two sides are the same account writes both snapshots
    // to one row; the debited side is the one later reads find, so the value
    // vanishes from circulation.  The command layer refuses such transfers.
    let mut ledger = Ledger::new();
    force_transfer(&mut ledger, BANK_ID, 1, Currency::Ksn, 100, 1000).unwrap();
    assert_eq!(
        send_transfer(&mut ledger, 1, 1, Currency::Ksn, 10, 2000),
        TransferStatus::Authorized
    );
    assert_eq!(get_balance(&ledger, 1, Currency::Ksn), 90);
    assert_eq!(
        bank_ledger::stat::get_money_supply(&ledger, Currency::Ksn),
        100
    );
}

#[test]
fn duration_conversion_truncates_to_milliseconds() {
    assert_eq!(duration_to_millis(0, 0), 0);
    assert_eq!(duration_to_millis(0, 999_999), 0);
    assert_eq!(duration_to_millis(1, 999_999_999), 1_999);
    assert_eq!(duration_to_millis(1_700_000_000, 123_456_789), 1_700_000_000_123);
    assert_eq!(
        duration_to_millis(8_999_999_999_999_999, 999_999_999),
        8_999_999_999_999_999_999
    );
    assert_eq!(duration_to_millis(9_000_000_000_000_000, 0), i64::MAX);
    assert_eq!(duration_to_millis(u64::MAX, 0), i64::MAX);
}

#[test]
fn clock_reads_non_negative_milliseconds() {
    let t1 = get_current_time();
    let t2 = get_current_time();
    assert!(t1 >= 0);
    assert!(t2 >= 0);
    // A real clock in this century reads far past the epoch.
    assert!(t1 > 1_000_000_000_000);
}
