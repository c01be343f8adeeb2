//! The append-only ledger: row format, well-formedness, and balance lookup.
//!
//! A row is written once, by a successful transfer, and never changed.  The
//! current balance of an account is the snapshot recorded on the most recent
//! row the account participates in (for the queried currency), or `0` when no
//! such row exists.

use vstd::prelude::*;
use crate::currency::Currency;

verus! {

/// Account identifiers as they appear on ledger rows.
pub type UserId = i64;

/// The reserved identifier of the issuing authority.  It is not a normal
/// account: transfers debiting it are never blocked by insufficient funds,
/// and its balance is the negative of the total currency in circulation.
pub const BANK_ID: UserId = 0;

/// One completed transfer: an immutable row carrying the post-transfer
/// balance snapshots of both sides.
#[derive(Debug)]
pub struct LedgerRow {
    /// Monotonically increasing sequence number assigned by the store; the
    /// sole ordering key ("most recent" means greatest `id`).
    pub id: u64,
    /// The single currency this row belongs to.
    pub currency: Currency,
    /// The debited account (`BANK_ID` for issuance).
    pub from_account: UserId,
    /// The credited account.
    pub to_account: UserId,
    /// Balance of `from_account` right after this transfer, in subunits.
    pub from_balance: i64,
    /// Balance of `to_account` right after this transfer, in subunits.
    pub to_balance: i64,
    /// The amount this row moved from `from_account` to `to_account`.
    pub value: i64,
    /// Milliseconds since the Unix epoch; metadata only.
    pub transfer_date: i64,
    /// Free-form note; metadata only.
    pub description: String,
}

/// `row` belongs to `currency` and `account` stands on one of its sides.
pub open spec fn touches(row: LedgerRow, account: UserId, currency: Currency) -> bool {
    row.currency == currency && (row.from_account == account || row.to_account == account)
}

/// The post-transfer balance `row` records for `account`: the side the
/// account occupies, or `0` if it occupies neither (defensive; such a row is
/// never consulted for `account`).
pub open spec fn side_balance(row: LedgerRow, account: UserId) -> i64 {
    if row.from_account == account {
        row.from_balance
    } else if row.to_account == account {
        row.to_balance
    } else {
        0
    }
}

/// The current balance of `account` for `currency` derived from a row
/// history: the snapshot on the latest touching row, `0` if there is none.
pub open spec fn balance_of(rows: Seq<LedgerRow>, account: UserId, currency: Currency) -> i64
    decreases rows.len(),
{
    if rows.len() == 0 {
        0
    } else if touches(rows.last(), account, currency) {
        side_balance(rows.last(), account)
    } else {
        balance_of(rows.drop_last(), account, currency)
    }
}

/// The snapshots of `row` correctly extend the history `prev`: the debited
/// side went down by `value` and the credited side went up by `value`.
pub open spec fn row_extends(prev: Seq<LedgerRow>, row: LedgerRow) -> bool {
    &&& row.from_balance == balance_of(prev, row.from_account, row.currency) - row.value
    &&& row.to_balance == balance_of(prev, row.to_account, row.currency) + row.value
}

/// Every row carries the sequence number of its position and snapshots
/// derived from the history before it.
pub open spec fn wf_rows(rows: Seq<LedgerRow>) -> bool {
    forall|i: int|
        0 <= i < rows.len() ==> (#[trigger] rows[i]).id == i && row_extends(
            rows.take(i),
            rows[i],
        )
}

/// The ledger: an ordered, append-only history of rows.  Rows are only ever
/// created by the transfer operations, so a ledger is always well-formed.
#[derive(Debug)]
pub struct Ledger {
    rows: Vec<LedgerRow>,
}

impl View for Ledger {
    type V = Seq<LedgerRow>;

    closed spec fn view(&self) -> Seq<LedgerRow> {
        self.rows@
    }
}

/// Appending a well-formed row keeps the history well-formed.
pub proof fn lemma_wf_push(rows: Seq<LedgerRow>, row: LedgerRow)
    requires
        wf_rows(rows),
        row.id == rows.len(),
        row_extends(rows, row),
    ensures
        wf_rows(rows.push(row)),
{
    let all = rows.push(row);
    assert forall|i: int| 0 <= i < all.len() implies (#[trigger] all[i]).id == i && row_extends(
        all.take(i),
        all[i],
    ) by {
        assert(all.take(i) =~= rows.take(i)) by {
            assert(forall|k: int| 0 <= k < i ==> all.take(i)[k] == rows.take(i)[k]);
        }
        if i < rows.len() {
            assert(rows[i].id == i && row_extends(rows.take(i), rows[i]));
            assert(all[i] == rows[i]);
        } else {
            assert(all[i] == row);
            assert(rows.take(i) =~= rows);
        }
    }
}

/// How one appended row changes a balance: the two accounts it touches read
/// their snapshots from it, every other `(account, currency)` is unchanged.
pub proof fn lemma_balance_push(
    rows: Seq<LedgerRow>,
    row: LedgerRow,
    account: UserId,
    currency: Currency,
)
    ensures
        balance_of(rows.push(row), account, currency) == if touches(row, account, currency) {
            side_balance(row, account)
        } else {
            balance_of(rows, account, currency)
        },
{
    let all = rows.push(row);
    assert(all.last() == row);
    assert(all.drop_last() =~= rows);
}

impl Ledger {
    /// Every row is in place and correctly derived from the history before it.
    pub open spec fn wf(self) -> bool {
        wf_rows(self@)
    }

    /// An empty ledger: no rows, every balance `0`.
    pub fn new() -> (l: Ledger)
        ensures
            l@ == Seq::<LedgerRow>::empty(),
            l.wf(),
    {
        Ledger { rows: Vec::new() }
    }

    /// The number of rows written so far.
    pub fn len(&self) -> (n: usize)
        ensures
            n == self@.len(),
    {
        self.rows.len()
    }

    /// A copy of the row at position `i` (sequence number `i`).
    pub fn row(&self, i: usize) -> (r: LedgerRow)
        requires
            i < self@.len(),
        ensures
            r == self@[i as int],
    {
        let row = &self.rows[i];
        LedgerRow {
            id: row.id,
            currency: row.currency,
            from_account: row.from_account,
            to_account: row.to_account,
            from_balance: row.from_balance,
            to_balance: row.to_balance,
            value: row.value,
            transfer_date: row.transfer_date,
            description: row.description.clone(),
        }
    }

    /// The current balance of `account` for `currency`: the snapshot on the
    /// latest row touching the account, `0` if the account has no history.
    pub fn balance(&self, account: UserId, currency: Currency) -> (b: i64)
        ensures
            b == balance_of(self@, account, currency),
    {
        let mut i: usize = self.rows.len();
        proof {
            assert(self@.take(i as int) =~= self@);
        }
        while i > 0
            invariant
                i <= self@.len(),
                self@.len() == self.rows.len(),
                balance_of(self@, account, currency) == balance_of(
                    self@.take(i as int),
                    account,
                    currency,
                ),
            decreases i,
        {
            i = i - 1;
            let row = &self.rows[i];
            proof {
                assert(self@.take(i as int + 1).last() == self@[i as int]);
                assert(self@.take(i as int + 1).drop_last() =~= self@.take(i as int));
            }
            if row.currency == currency && (row.from_account == account || row.to_account
                == account) {
                if row.from_account == account {
                    return row.from_balance;
                } else {
                    return row.to_balance;
                }
            }
        }
        proof {
            assert(self@.take(0) =~= Seq::<LedgerRow>::empty());
        }
        0
    }

    /// Append the row of a freshly authorized transfer.  The caller has
    /// already resolved both balances and proved the snapshots fit in `i64`.
    pub(crate) fn append_row(
        &mut self,
        currency: Currency,
        from_account: UserId,
        to_account: UserId,
        value: i64,
        from_balance: i64,
        to_balance: i64,
        transfer_date: i64,
    )
        requires
            old(self).wf(),
            from_balance == balance_of(old(self)@, from_account, currency) - value,
            to_balance == balance_of(old(self)@, to_account, currency) + value,
        ensures
            final(self).wf(),
            final(self)@.len() == old(self)@.len() + 1,
            final(self)@ == old(self)@.push(final(self)@.last()),
            final(self)@.last().id == old(self)@.len(),
            final(self)@.last().currency == currency,
            final(self)@.last().from_account == from_account,
            final(self)@.last().to_account == to_account,
            final(self)@.last().from_balance == from_balance,
            final(self)@.last().to_balance == to_balance,
            final(self)@.last().value == value,
            final(self)@.last().transfer_date == transfer_date,
            final(self)@.last().description@ == Seq::<char>::empty(),
    {
        let id = self.rows.len() as u64;
        let row = LedgerRow {
            id,
            currency,
            from_account,
            to_account,
            from_balance,
            to_balance,
            value,
            transfer_date,
            description: String::new(),
        };
        proof {
            lemma_wf_push(self@, row);
        }
        self.rows.push(row);
    }
}

} // verus!
