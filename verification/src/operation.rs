//! The transfer authorizer, the balance resolver's public face, account
//! statements, and the clock.

use vstd::prelude::*;
use crate::currency::Currency;
use crate::ledger::{balance_of, side_balance, touches, Ledger, LedgerRow, UserId, BANK_ID};
use crate::ledger::lemma_balance_push;

verus! {

/// One statement entry, seen from the queried account's perspective:
/// `balance` is that account's balance right after the transfer, whichever
/// side of the row it occupies.
#[derive(Clone, Copy, Debug, PartialEq, Eq, Structural)]
pub struct Transfer {
    pub currency: Currency,
    pub from_account: UserId,
    pub to_account: UserId,
    pub balance: i64,
    pub value: i64,
    pub date: i64,
}

/// The outcome of an ordinary, balance-checked transfer.
#[derive(Clone, Copy, Debug, PartialEq, Eq, Structural)]
pub enum TransferStatus {
    /// The transfer was valid and its row was appended.
    Authorized,
    /// The debited account is not the issuing authority and holds less than
    /// the transfer value.  Nothing was written.
    InsuficientBalance,
    /// The transfer value was not positive.  Nothing was written.
    BadValue,
    /// The transfer could not be recorded.  Nothing was written.
    Failed,
}

/// Why a forced transfer was refused.
#[derive(Clone, Copy, Debug, PartialEq, Eq, Structural)]
pub enum LedgerError {
    /// A resulting balance snapshot would not fit the row's integer field.
    SnapshotOverflow,
}

/// `x` is representable as a balance snapshot.
pub open spec fn fits_i64(x: int) -> bool {
    i64::MIN <= x <= i64::MAX
}

/// Both post-transfer snapshots of the proposed transfer are representable.
pub open spec fn snapshots_fit(
    rows: Seq<LedgerRow>,
    from_account: UserId,
    to_account: UserId,
    currency: Currency,
    value: i64,
) -> bool {
    &&& fits_i64(balance_of(rows, from_account, currency) - value)
    &&& fits_i64(balance_of(rows, to_account, currency) + value)
}

/// An ordinary debit exceeds the debited account's current balance.  The
/// issuing authority has no balance floor and is never insufficient.
pub open spec fn insufficient(
    rows: Seq<LedgerRow>,
    from_account: UserId,
    currency: Currency,
    value: i64,
) -> bool {
    from_account != BANK_ID && value > balance_of(rows, from_account, currency)
}

/// `new_rows` is `old_rows` plus exactly the row of the given transfer, with
/// snapshots derived from the balances in `old_rows`.
pub open spec fn appended_transfer(
    old_rows: Seq<LedgerRow>,
    new_rows: Seq<LedgerRow>,
    from_account: UserId,
    to_account: UserId,
    currency: Currency,
    value: i64,
    now: i64,
) -> bool {
    &&& new_rows.len() == old_rows.len() + 1
    &&& new_rows == old_rows.push(new_rows.last())
    &&& new_rows.last().id == old_rows.len()
    &&& new_rows.last().currency == currency
    &&& new_rows.last().from_account == from_account
    &&& new_rows.last().to_account == to_account
    &&& new_rows.last().from_balance == balance_of(old_rows, from_account, currency) - value
    &&& new_rows.last().to_balance == balance_of(old_rows, to_account, currency) + value
    &&& new_rows.last().value == value
    &&& new_rows.last().transfer_date == now
    &&& new_rows.last().description@ == Seq::<char>::empty()
}

/// The statement entry a row yields for `account`.
pub open spec fn transfer_of(account: UserId, row: LedgerRow) -> Transfer {
    Transfer {
        currency: row.currency,
        from_account: row.from_account,
        to_account: row.to_account,
        balance: side_balance(row, account),
        value: row.value,
        date: row.transfer_date,
    }
}

/// The full statement of `account` for `currency`: one entry per touching
/// row, most recent first.
pub open spec fn statement_of(rows: Seq<LedgerRow>, account: UserId, currency: Currency) -> Seq<
    Transfer,
>
    decreases rows.len(),
{
    if rows.len() == 0 {
        Seq::<Transfer>::empty()
    } else if touches(rows.last(), account, currency) {
        seq![transfer_of(account, rows.last())] + statement_of(
            rows.drop_last(),
            account,
            currency,
        )
    } else {
        statement_of(rows.drop_last(), account, currency)
    }
}

impl Transfer {
    /// Read a row from `account`'s perspective.
    pub fn of_row(account: UserId, row: &LedgerRow) -> (t: Transfer)
        ensures
            t == transfer_of(account, *row),
    {
        Transfer {
            currency: row.currency,
            from_account: row.from_account,
            to_account: row.to_account,
            balance: if row.from_account == account {
                row.from_balance
            } else if row.to_account == account {
                row.to_balance
            } else {
                0
            },
            value: row.value,
            date: row.transfer_date,
        }
    }
}

/// The current balance of `account` for `currency`; `0` for an account with
/// no history.
pub fn get_balance(ledger: &Ledger, account: UserId, currency: Currency) -> (b: i64)
    ensures
        b == balance_of(ledger@, account, currency),
{
    ledger.balance(account, currency)
}

/// The statement of `account` for `currency`, most recent entry first.
pub fn get_statement(ledger: &Ledger, account: UserId, currency: Currency) -> (r: Vec<Transfer>)
    ensures
        r@ == statement_of(ledger@, account, currency),
{
    let mut result: Vec<Transfer> = Vec::new();
    let mut i: usize = ledger.len();
    proof {
        assert(ledger@.take(i as int) =~= ledger@);
        assert(result@ + statement_of(ledger@.take(i as int), account, currency) =~= statement_of(
            ledger@,
            account,
            currency,
        ));
    }
    while i > 0
        invariant
            i <= ledger@.len(),
            statement_of(ledger@, account, currency) == result@ + statement_of(
                ledger@.take(i as int),
                account,
                currency,
            ),
        decreases i,
    {
        i = i - 1;
        let row = ledger.row(i);
        proof {
            assert(ledger@.take(i as int + 1).last() == ledger@[i as int]);
            assert(ledger@.take(i as int + 1).drop_last() =~= ledger@.take(i as int));
        }
        if row.currency == currency && (row.from_account == account || row.to_account == account)
        {
            let entry = Transfer::of_row(account, &row);
            result.push(entry);
            proof {
                assert(result@ + statement_of(ledger@.take(i as int), account, currency)
                    =~= statement_of(ledger@, account, currency));
            }
        }
    }
    proof {
        assert(ledger@.take(0) =~= Seq::<LedgerRow>::empty());
        assert(result@ + statement_of(ledger@.take(0), account, currency) =~= result@);
    }
    result
}

/// Authorize and record an ordinary, balance-checked transfer.
///
/// A non-positive value is `BadValue`; an ordinary debit beyond the current
/// balance is `InsuficientBalance`; a transfer whose resulting snapshot
/// would not fit the row format is `Failed`.  In each of those cases the
/// ledger is unchanged.  Otherwise the row is appended and the transfer is
/// `Authorized`: the debited balance goes down by `value`, the credited
/// balance up by `value`, and no other balance moves.
pub fn send_transfer(
    ledger: &mut Ledger,
    from_account: UserId,
    to_account: UserId,
    currency: Currency,
    value: i64,
    now: i64,
) -> (status: TransferStatus)
    requires
        old(ledger).wf(),
    ensures
        final(ledger).wf(),
        status == TransferStatus::BadValue <==> value <= 0,
        status == TransferStatus::InsuficientBalance <==> value > 0 && insufficient(
            old(ledger)@,
            from_account,
            currency,
            value,
        ),
        status == TransferStatus::Failed <==> value > 0 && !insufficient(
            old(ledger)@,
            from_account,
            currency,
            value,
        ) && !snapshots_fit(old(ledger)@, from_account, to_account, currency, value),
        status == TransferStatus::Authorized <==> value > 0 && !insufficient(
            old(ledger)@,
            from_account,
            currency,
            value,
        ) && snapshots_fit(old(ledger)@, from_account, to_account, currency, value),
        status != TransferStatus::Authorized ==> final(ledger)@ == old(ledger)@,
        status == TransferStatus::Authorized ==> appended_transfer(
            old(ledger)@,
            final(ledger)@,
            from_account,
            to_account,
            currency,
            value,
            now,
        ),
        status == TransferStatus::Authorized ==> balance_of(final(ledger)@, from_account, currency)
            == balance_of(old(ledger)@, from_account, currency) - value,
        status == TransferStatus::Authorized && to_account != from_account ==> balance_of(
            final(ledger)@,
            to_account,
            currency,
        ) == balance_of(old(ledger)@, to_account, currency) + value,
        forall|a: UserId, c: Currency|
            (a != from_account && a != to_account) || c != currency ==> balance_of(
                final(ledger)@,
                a,
                c,
            ) == balance_of(old(ledger)@, a, c),
{
    let before_from = ledger.balance(from_account, currency);
    let before_to = ledger.balance(to_account, currency);

    if value <= 0 {
        return TransferStatus::BadValue;
    }
    if value > before_from && from_account != BANK_ID {
        return TransferStatus::InsuficientBalance;
    }

    let after_from = (before_from as i128) - (value as i128);
    let after_to = (before_to as i128) + (value as i128);
    if after_from < i64::MIN as i128 || after_from > i64::MAX as i128 || after_to < i64::MIN
        as i128 || after_to > i64::MAX as i128 {
        return TransferStatus::Failed;
    }

    ledger.append_row(
        currency,
        from_account,
        to_account,
        value,
        after_from as i64,
        after_to as i64,
        now,
    );
    proof {
        let row = ledger@.last();
        assert forall|a: UserId, c: Currency| true implies balance_of(ledger@, a, c) == if touches(
            row,
            a,
            c,
        ) {
            side_balance(row, a)
        } else {
            balance_of(old(ledger)@, a, c)
        } by {
            lemma_balance_push(old(ledger)@, row, a, c);
        }
    }
    TransferStatus::Authorized
}

/// Record an administrative transfer, bypassing the balance floor: used for
/// issuance and corrective adjustments.  It fails only when a resulting
/// snapshot would not fit the row format; the value may be any integer.
pub fn force_transfer(
    ledger: &mut Ledger,
    from_account: UserId,
    to_account: UserId,
    currency: Currency,
    value: i64,
    now: i64,
) -> (r: Result<(), LedgerError>)
    requires
        old(ledger).wf(),
    ensures
        final(ledger).wf(),
        r is Ok <==> snapshots_fit(old(ledger)@, from_account, to_account, currency, value),
        r is Err ==> final(ledger)@ == old(ledger)@ && r == Err::<(), LedgerError>(
            LedgerError::SnapshotOverflow,
        ),
        r is Ok ==> appended_transfer(
            old(ledger)@,
            final(ledger)@,
            from_account,
            to_account,
            currency,
            value,
            now,
        ),
        r is Ok ==> balance_of(final(ledger)@, from_account, currency) == balance_of(
            old(ledger)@,
            from_account,
            currency,
        ) - value,
        r is Ok && to_account != from_account ==> balance_of(final(ledger)@, to_account, currency)
            == balance_of(old(ledger)@, to_account, currency) + value,
        forall|a: UserId, c: Currency|
            (a != from_account && a != to_account) || c != currency ==> balance_of(
                final(ledger)@,
                a,
                c,
            ) == balance_of(old(ledger)@, a, c),
{
    let before_from = ledger.balance(from_account, currency);
    let before_to = ledger.balance(to_account, currency);

    let after_from = (before_from as i128) - (value as i128);
    let after_to = (before_to as i128) + (value as i128);
    if after_from < i64::MIN as i128 || after_from > i64::MAX as i128 || after_to < i64::MIN
        as i128 || after_to > i64::MAX as i128 {
        return Err(LedgerError::SnapshotOverflow);
    }

    ledger.append_row(
        currency,
        from_account,
        to_account,
        value,
        after_from as i64,
        after_to as i64,
        now,
    );
    proof {
        let row = ledger@.last();
        assert forall|a: UserId, c: Currency| true implies balance_of(ledger@, a, c) == if touches(
            row,
            a,
            c,
        ) {
            side_balance(row, a)
        } else {
            balance_of(old(ledger)@, a, c)
        } by {
            lemma_balance_push(old(ledger)@, row, a, c);
        }
    }
    Ok(())
}

/// A duration of `secs` whole seconds and `nanos` remaining nanoseconds,
/// converted to whole milliseconds; saturates at `i64::MAX` for second
/// counts no `i64` can carry in milliseconds (far beyond any realistic
/// date).
pub fn duration_to_millis(secs: u64, nanos: u32) -> (t: i64)
    requires
        nanos < 1_000_000_000,
    ensures
        t == if secs >= 9_000_000_000_000_000 {
            i64::MAX as int
        } else {
            secs * 1000 + nanos / 1_000_000
        },
{
    if secs >= 9_000_000_000_000_000 {
        i64::MAX
    } else {
        (secs as i64) * 1000 + (nanos / 1_000_000) as i64
    }
}

/// Milliseconds since the Unix epoch read from the system clock, truncated
/// to the millisecond by [`duration_to_millis`]; `0` for a clock reading
/// before the epoch.
pub fn get_current_time() -> (t: i64)
    ensures
        t >= 0,
{
    let now = system_time_now();
    let (secs, nanos) = seconds_since_epoch(&now);
    duration_to_millis(secs, nanos)
}

#[verifier::external_type_specification]
#[verifier::external_body]
pub struct ExSystemTime(std::time::SystemTime);

/// Relies on std::time::SystemTime::now: a reading of the system clock.
/// Nothing can be promised of its value.
#[verifier::external_body]
fn system_time_now() -> std::time::SystemTime {
    std::time::SystemTime::now()
}

/// Relies on std::time::SystemTime::duration_since, whose Ok duration splits
/// into whole seconds and a nanosecond remainder below one billion
/// (std::time::Duration::subsec_nanos documents the bound); `(0, 0)` stands
/// for a clock reading before the Unix epoch.
#[verifier::external_body]
fn seconds_since_epoch(t: &std::time::SystemTime) -> (r: (u64, u32))
    ensures
        r.1 < 1_000_000_000,
{
    match t.duration_since(std::time::UNIX_EPOCH) {
        Ok(d) => (d.as_secs(), d.subsec_nanos()),
        Err(_) => (0, 0),
    }
}

} // verus!
