//! The conservation law: for every currency, the issuing authority's balance
//! and the balances of all other accounts always sum to zero — every unit
//! credited somewhere was debited from the bank, and vice versa.
//!
//! The law holds of every well-formed history whose rows each move value
//! between two distinct accounts.  (A row whose two sides are the same
//! account records only its debited snapshot and silently destroys the
//! value, so such histories are excluded.)

use vstd::prelude::*;
use vstd::multiset::Multiset;
use vstd::set::fold::{is_fun_commutative, lemma_fold_empty, lemma_fold_insert};
use crate::currency::Currency;
use crate::ledger::{balance_of, side_balance, touches, wf_rows, LedgerRow, UserId, BANK_ID};
use crate::stat::{collected_balances, current_snapshots};

verus! {

/// Every row moves value between two distinct accounts.
pub open spec fn no_self_rows(rows: Seq<LedgerRow>) -> bool {
    forall|i: int|
        0 <= i < rows.len() ==> (#[trigger] rows[i]).from_account != rows[i].to_account
}

/// The accounts (the issuing authority included) that appear on some row of
/// `currency`.
pub open spec fn participants(rows: Seq<LedgerRow>, currency: Currency) -> Set<UserId>
    decreases rows.len(),
{
    if rows.len() == 0 {
        Set::<UserId>::empty()
    } else {
        let prev = participants(rows.drop_last(), currency);
        if rows.last().currency == currency {
            prev.insert(rows.last().from_account).insert(rows.last().to_account)
        } else {
            prev
        }
    }
}

/// Adds an account's current balance to a running total.
pub open spec fn balance_add_fn(rows: Seq<LedgerRow>, currency: Currency) -> spec_fn(
    int,
    UserId,
) -> int {
    |acc: int, a: UserId| acc + balance_of(rows, a, currency) as int
}

/// The sum of the current balances of the accounts in `s`.
pub open spec fn balances_sum(s: Set<UserId>, rows: Seq<LedgerRow>, currency: Currency) -> int {
    s.fold(0, balance_add_fn(rows, currency))
}

proof fn lemma_balance_add_fn_commutative(rows: Seq<LedgerRow>, currency: Currency)
    ensures
        is_fun_commutative(balance_add_fn(rows, currency)),
{
}

proof fn lemma_sum_empty(rows: Seq<LedgerRow>, currency: Currency)
    ensures
        balances_sum(Set::<UserId>::empty(), rows, currency) == 0,
{
    lemma_fold_empty::<UserId, int>(0, balance_add_fn(rows, currency));
}

proof fn lemma_sum_insert(s: Set<UserId>, a: UserId, rows: Seq<LedgerRow>, currency: Currency)
    requires
        s.finite(),
        !s.contains(a),
    ensures
        balances_sum(s.insert(a), rows, currency) == balances_sum(s, rows, currency) + balance_of(
            rows,
            a,
            currency,
        ),
{
    lemma_balance_add_fn_commutative(rows, currency);
    lemma_fold_insert(s, 0, balance_add_fn(rows, currency), a);
}

proof fn lemma_sum_remove(s: Set<UserId>, a: UserId, rows: Seq<LedgerRow>, currency: Currency)
    requires
        s.finite(),
        s.contains(a),
    ensures
        balances_sum(s, rows, currency) == balances_sum(s.remove(a), rows, currency) + balance_of(
            rows,
            a,
            currency,
        ),
{
    let s0 = s.remove(a);
    assert(s0.insert(a) =~= s);
    lemma_sum_insert(s0, a, rows, currency);
}

/// Two histories giving every account of `s` the same balance give `s` the
/// same balance sum.
proof fn lemma_sum_congruence(
    s: Set<UserId>,
    rows1: Seq<LedgerRow>,
    rows2: Seq<LedgerRow>,
    currency: Currency,
)
    requires
        s.finite(),
        forall|a: UserId|
            s.contains(a) ==> balance_of(rows1, a, currency) == balance_of(rows2, a, currency),
    ensures
        balances_sum(s, rows1, currency) == balances_sum(s, rows2, currency),
    decreases s.len(),
{
    if s.len() == 0 {
        assert(s =~= Set::<UserId>::empty());
        lemma_sum_empty(rows1, currency);
        lemma_sum_empty(rows2, currency);
    } else {
        let a = s.choose();
        assert(s.contains(a));
        lemma_sum_remove(s, a, rows1, currency);
        lemma_sum_remove(s, a, rows2, currency);
        lemma_sum_congruence(s.remove(a), rows1, rows2, currency);
    }
}

proof fn lemma_participants_finite(rows: Seq<LedgerRow>, currency: Currency)
    ensures
        participants(rows, currency).finite(),
    decreases rows.len(),
{
    if rows.len() != 0 {
        lemma_participants_finite(rows.drop_last(), currency);
    }
}

/// An account on no row of `currency` has balance zero.
proof fn lemma_nonparticipant_zero(rows: Seq<LedgerRow>, a: UserId, currency: Currency)
    requires
        !participants(rows, currency).contains(a),
    ensures
        balance_of(rows, a, currency) == 0,
    decreases rows.len(),
{
    if rows.len() != 0 {
        assert(!touches(rows.last(), a, currency));
        lemma_nonparticipant_zero(rows.drop_last(), a, currency);
    }
}

/// A well-formed history stays well-formed with its last row dropped, and
/// that last row correctly extends what is left.
proof fn lemma_wf_drop_last(rows: Seq<LedgerRow>)
    requires
        wf_rows(rows),
        rows.len() > 0,
    ensures
        wf_rows(rows.drop_last()),
        crate::ledger::row_extends(rows.drop_last(), rows.last()),
{
    let prev = rows.drop_last();
    assert forall|i: int| 0 <= i < prev.len() implies (#[trigger] prev[i]).id == i
        && crate::ledger::row_extends(prev.take(i), prev[i]) by {
        assert(rows[i].id == i && crate::ledger::row_extends(rows.take(i), rows[i]));
        assert(prev.take(i) =~= rows.take(i));
    }
    let n = rows.len() - 1;
    assert(rows[n].id == n && crate::ledger::row_extends(rows.take(n), rows[n]));
    assert(rows.take(n) =~= prev);
}

/// The balance sum over all participating accounts of a currency is zero.
proof fn lemma_conservation_sum(rows: Seq<LedgerRow>, currency: Currency)
    requires
        wf_rows(rows),
        no_self_rows(rows),
    ensures
        balances_sum(participants(rows, currency), rows, currency) == 0,
    decreases rows.len(),
{
    lemma_participants_finite(rows, currency);
    if rows.len() == 0 {
        assert(participants(rows, currency) =~= Set::<UserId>::empty());
        lemma_sum_empty(rows, currency);
    } else {
        let prev = rows.drop_last();
        let r = rows.last();
        lemma_wf_drop_last(rows);
        assert(no_self_rows(prev)) by {
            assert(forall|i: int| 0 <= i < prev.len() ==> prev[i] == rows[i]);
        }
        lemma_conservation_sum(prev, currency);
        lemma_participants_finite(prev, currency);
        let pp = participants(prev, currency);
        if r.currency != currency {
            assert(participants(rows, currency) == pp);
            assert forall|a: UserId| pp.contains(a) implies balance_of(rows, a, currency)
                == balance_of(prev, a, currency) by {
                assert(!touches(r, a, currency));
            }
            lemma_sum_congruence(pp, rows, prev, currency);
        } else {
            let f = r.from_account;
            let t = r.to_account;
            let n = rows.len() - 1;
            assert(rows[n].from_account != rows[n].to_account);
            let qq = pp.insert(f).insert(t);
            assert(participants(rows, currency) == qq);

            // What the appended row did to the balances.
            assert(balance_of(rows, f, currency) == r.from_balance);
            assert(balance_of(rows, t, currency) == r.to_balance);
            assert(r.from_balance == balance_of(prev, f, currency) - r.value);
            assert(r.to_balance == balance_of(prev, t, currency) + r.value);
            assert forall|a: UserId| a != f && a != t implies balance_of(rows, a, currency)
                == balance_of(prev, a, currency) by {
                assert(!touches(r, a, currency));
            }

            // The two accounts the row may have introduced held balance zero.
            assert(balances_sum(qq, prev, currency) == 0) by {
                if pp.contains(f) && pp.contains(t) {
                    assert(qq =~= pp);
                } else if !pp.contains(f) && pp.contains(t) {
                    assert(qq =~= pp.insert(f));
                    lemma_sum_insert(pp, f, prev, currency);
                    lemma_nonparticipant_zero(prev, f, currency);
                } else if pp.contains(f) && !pp.contains(t) {
                    assert(qq =~= pp.insert(t));
                    lemma_sum_insert(pp, t, prev, currency);
                    lemma_nonparticipant_zero(prev, t, currency);
                } else {
                    let s1 = pp.insert(f);
                    lemma_sum_insert(pp, f, prev, currency);
                    lemma_nonparticipant_zero(prev, f, currency);
                    assert(!s1.contains(t));
                    lemma_sum_insert(s1, t, prev, currency);
                    lemma_nonparticipant_zero(prev, t, currency);
                    assert(qq == s1.insert(t));
                }
            }

            // The row moved value between f and t, so the sum is unchanged.
            assert(qq.contains(f) && qq.contains(t));
            let q1 = qq.remove(f);
            let q2 = q1.remove(t);
            assert(q1.contains(t));
            lemma_sum_remove(qq, f, rows, currency);
            lemma_sum_remove(q1, t, rows, currency);
            lemma_sum_remove(qq, f, prev, currency);
            lemma_sum_remove(q1, t, prev, currency);
            assert(!q2.contains(f) && !q2.contains(t));
            assert forall|a: UserId| q2.contains(a) implies balance_of(rows, a, currency)
                == balance_of(prev, a, currency) by {
                assert(!touches(r, a, currency));
            }
            lemma_sum_congruence(q2, rows, prev, currency);
        }
    }
}

/// Collects account balances into a multiset.
pub open spec fn balance_ms_fn(rows: Seq<LedgerRow>, currency: Currency) -> spec_fn(
    Multiset<i64>,
    UserId,
) -> Multiset<i64> {
    |acc: Multiset<i64>, a: UserId| acc.insert(balance_of(rows, a, currency))
}

/// The multiset of the current balances of the accounts in `s`, one entry
/// per account.
pub open spec fn balances_multiset(
    s: Set<UserId>,
    rows: Seq<LedgerRow>,
    currency: Currency,
) -> Multiset<i64> {
    s.fold(Multiset::<i64>::empty(), balance_ms_fn(rows, currency))
}

proof fn lemma_balance_ms_fn_commutative(rows: Seq<LedgerRow>, currency: Currency)
    ensures
        is_fun_commutative(balance_ms_fn(rows, currency)),
{
    let f = balance_ms_fn(rows, currency);
    assert forall|a1: UserId, a2: UserId, b: Multiset<i64>| #[trigger]
        f(f(b, a2), a1) == f(f(b, a1), a2) by {
        assert(f(f(b, a2), a1) =~= f(f(b, a1), a2));
    }
}

proof fn lemma_ms_empty(rows: Seq<LedgerRow>, currency: Currency)
    ensures
        balances_multiset(Set::<UserId>::empty(), rows, currency) == Multiset::<i64>::empty(),
{
    lemma_fold_empty::<UserId, Multiset<i64>>(
        Multiset::<i64>::empty(),
        balance_ms_fn(rows, currency),
    );
}

proof fn lemma_ms_insert(s: Set<UserId>, a: UserId, rows: Seq<LedgerRow>, currency: Currency)
    requires
        s.finite(),
        !s.contains(a),
    ensures
        balances_multiset(s.insert(a), rows, currency) == balances_multiset(
            s,
            rows,
            currency,
        ).insert(balance_of(rows, a, currency)),
{
    lemma_balance_ms_fn_commutative(rows, currency);
    lemma_fold_insert(s, Multiset::<i64>::empty(), balance_ms_fn(rows, currency), a);
}

/// Prepending one row to a history extends its participants by that row's
/// two accounts (for the row's own currency).
proof fn lemma_participants_prepend(row: LedgerRow, s: Seq<LedgerRow>, currency: Currency)
    ensures
        participants(seq![row] + s, currency) == if row.currency == currency {
            participants(s, currency).insert(row.from_account).insert(row.to_account)
        } else {
            participants(s, currency)
        },
    decreases s.len(),
{
    let t = seq![row] + s;
    if s.len() == 0 {
        assert(t.len() == 1);
        assert(t.last() == row);
        assert(t.drop_last() =~= Seq::<LedgerRow>::empty());
        assert(participants(Seq::<LedgerRow>::empty(), currency) =~= Set::<UserId>::empty());
        assert(participants(s, currency) =~= Set::<UserId>::empty());
        if row.currency == currency {
            assert(participants(t, currency) =~= participants(s, currency).insert(
                row.from_account,
            ).insert(row.to_account));
        }
    } else {
        assert(t.last() == s.last());
        assert(t.drop_last() =~= seq![row] + s.drop_last());
        lemma_participants_prepend(row, s.drop_last(), currency);
        if row.currency == currency {
            assert(participants(t, currency) =~= participants(s, currency).insert(
                row.from_account,
            ).insert(row.to_account));
        } else {
            assert(participants(t, currency) =~= participants(s, currency));
        }
    }
}

/// One step of peeling the most recent unprocessed row off a suffix.
proof fn lemma_participants_skip(rows: Seq<LedgerRow>, currency: Currency, i: int)
    requires
        0 <= i < rows.len(),
    ensures
        participants(rows.skip(i), currency) == if rows[i].currency == currency {
            participants(rows.skip(i + 1), currency).insert(rows[i].from_account).insert(
                rows[i].to_account,
            )
        } else {
            participants(rows.skip(i + 1), currency)
        },
{
    assert(rows.skip(i) =~= seq![rows[i]] + rows.skip(i + 1));
    lemma_participants_prepend(rows[i], rows.skip(i + 1), currency);
}

/// The two accounts of every row of a currency are among its participants.
proof fn lemma_row_accounts_participate(rows: Seq<LedgerRow>, currency: Currency, k: int)
    requires
        0 <= k < rows.len(),
        rows[k].currency == currency,
    ensures
        participants(rows, currency).contains(rows[k].from_account),
        participants(rows, currency).contains(rows[k].to_account),
    decreases rows.len(),
{
    if k == rows.len() - 1 {
    } else {
        assert(rows.drop_last()[k] == rows[k]);
        lemma_row_accounts_participate(rows.drop_last(), currency, k);
    }
}

/// An account absent from the participants of a suffix is touched by no row
/// of that suffix.
proof fn lemma_untouched_suffix(rows: Seq<LedgerRow>, currency: Currency, i: int, a: UserId)
    requires
        0 <= i <= rows.len(),
        !participants(rows.skip(i), currency).contains(a),
    ensures
        forall|k: int| i <= k < rows.len() ==> !touches(#[trigger] rows[k], a, currency),
{
    assert forall|k: int| i <= k < rows.len() implies !touches(
        #[trigger] rows[k],
        a,
        currency,
    ) by {
        if touches(rows[k], a, currency) {
            assert(rows.skip(i)[k - i] == rows[k]);
            lemma_row_accounts_participate(rows.skip(i), currency, k - i);
        }
    }
}

/// The current balance is the snapshot on the latest touching row.
proof fn lemma_balance_from_latest(rows: Seq<LedgerRow>, currency: Currency, a: UserId, j: int)
    requires
        0 <= j < rows.len(),
        touches(rows[j], a, currency),
        forall|k: int| j < k < rows.len() ==> !touches(#[trigger] rows[k], a, currency),
    ensures
        balance_of(rows, a, currency) == side_balance(rows[j], a),
    decreases rows.len(),
{
    if j == rows.len() - 1 {
    } else {
        assert(!touches(rows.last(), a, currency));
        assert(rows.drop_last()[j] == rows[j]);
        assert(forall|k: int|
            j < k < rows.drop_last().len() ==> !touches(
                #[trigger] rows.drop_last()[k],
                a,
                currency,
            ));
        lemma_balance_from_latest(rows.drop_last(), currency, a, j);
    }
}

/// A prefix of a well-formed history is well-formed: every point in the
/// ledger's past is itself a well-formed ledger.
pub proof fn lemma_wf_take(rows: Seq<LedgerRow>, n: int)
    requires
        wf_rows(rows),
        0 <= n <= rows.len(),
    ensures
        wf_rows(rows.take(n)),
        no_self_rows(rows) ==> no_self_rows(rows.take(n)),
{
    let pre = rows.take(n);
    assert forall|i: int| 0 <= i < pre.len() implies (#[trigger] pre[i]).id == i
        && crate::ledger::row_extends(pre.take(i), pre[i]) by {
        assert(rows[i].id == i && crate::ledger::row_extends(rows.take(i), rows[i]));
        assert(pre.take(i) =~= rows.take(i));
    }
    if no_self_rows(rows) {
        assert forall|i: int| 0 <= i < pre.len() implies (#[trigger] pre[i]).from_account
            != pre[i].to_account by {
            assert(rows[i].from_account != rows[i].to_account);
        }
    }
}

/// Conservation: in any well-formed history without self-transfers, the
/// issuing authority's balance plus the sum of every other participating
/// account's balance is zero, for every currency.  Accounts outside
/// `participants` hold zero, so the sum over participants covers them all.
/// Combined with [`lemma_wf_take`] this holds at every point in the
/// ledger's history.
pub proof fn lemma_conservation(rows: Seq<LedgerRow>, currency: Currency)
    requires
        wf_rows(rows),
        no_self_rows(rows),
    ensures
        balance_of(rows, BANK_ID, currency) + balances_sum(
            participants(rows, currency).remove(BANK_ID),
            rows,
            currency,
        ) == 0,
{
    lemma_participants_finite(rows, currency);
    lemma_conservation_sum(rows, currency);
    let pp = participants(rows, currency);
    if pp.contains(BANK_ID) {
        lemma_sum_remove(pp, BANK_ID, rows, currency);
    } else {
        lemma_nonparticipant_zero(rows, BANK_ID, currency);
        assert(pp.remove(BANK_ID) =~= pp);
    }
}

/// The money supply — the negative of the issuing authority's balance — is
/// exactly the total held by all other accounts: the amount issued and in
/// circulation.
pub proof fn lemma_money_supply_is_circulation(rows: Seq<LedgerRow>, currency: Currency)
    requires
        wf_rows(rows),
        no_self_rows(rows),
    ensures
        crate::stat::money_supply_of(rows, currency) == balances_sum(
            participants(rows, currency).remove(BANK_ID),
            rows,
            currency,
        ),
{
    lemma_conservation(rows, currency);
}

/// Walking the rows from position `i` down to the oldest with `seen` and
/// `acc` as collected so far ends with the balance of every ordinary
/// participant, each once.
proof fn lemma_scan_collects_current(
    rows: Seq<LedgerRow>,
    currency: Currency,
    i: nat,
    seen: Seq<UserId>,
    acc: Seq<i64>,
)
    requires
        i <= rows.len(),
        forall|a: UserId| #[trigger]
            seen.contains(a) <==> (participants(rows.skip(i as int), currency).contains(a) && a
                != BANK_ID),
        acc.to_multiset() == balances_multiset(seen.to_set(), rows, currency),
    ensures
        current_snapshots(rows, currency, i, seen, acc).to_multiset() == balances_multiset(
            participants(rows, currency).remove(BANK_ID),
            rows,
            currency,
        ),
    decreases i,
{
    broadcast use vstd::seq_lib::seq_to_set_is_finite;
    broadcast use vstd::seq_lib::group_to_multiset_ensures;

    if i == 0 {
        assert(rows.skip(0) =~= rows);
        assert(seen.to_set() =~= participants(rows, currency).remove(BANK_ID));
    } else {
        let ii = i as int;
        let row = rows[ii - 1];
        lemma_participants_skip(rows, currency, ii - 1);
        if row.currency == currency {
            let f = row.from_account;
            let t = row.to_account;
            let keep_from = !seen.contains(f) && f != BANK_ID;
            let seen1 = if keep_from {
                seen.push(f)
            } else {
                seen
            };
            let acc1 = if keep_from {
                acc.push(row.from_balance)
            } else {
                acc
            };
            let keep_to = !seen1.contains(t) && t != BANK_ID;
            let seen2 = if keep_to {
                seen1.push(t)
            } else {
                seen1
            };
            let acc2 = if keep_to {
                acc1.push(row.to_balance)
            } else {
                acc1
            };

            if keep_from {
                assert(!participants(rows.skip(ii), currency).contains(f));
                lemma_untouched_suffix(rows, currency, ii, f);
                assert(touches(row, f, currency));
                lemma_balance_from_latest(rows, currency, f, ii - 1);
                assert(balance_of(rows, f, currency) == row.from_balance);
                assert(!seen.to_set().contains(f));
                lemma_ms_insert(seen.to_set(), f, rows, currency);
                seen.lemma_push_to_set_commute(f);
                assert(acc1.to_multiset() =~= balances_multiset(seen1.to_set(), rows, currency));
            }
            assert(acc1.to_multiset() == balances_multiset(seen1.to_set(), rows, currency));

            if keep_to {
                // `t` cannot be `f`: once `f` is in `seen1` (or is the bank),
                // an equal `t` would not have been kept.
                assert(t != f) by {
                    if t == f && keep_from {
                        assert(seen1.to_set().contains(f));
                        assert(seen1.contains(f));
                    }
                }
                assert(!seen.contains(t)) by {
                    if seen.contains(t) && keep_from {
                        assert(seen.to_set().contains(t));
                        assert(seen1.to_set().contains(t));
                        assert(seen1.contains(t));
                    }
                }
                assert(!participants(rows.skip(ii), currency).contains(t));
                lemma_untouched_suffix(rows, currency, ii, t);
                assert(touches(row, t, currency));
                lemma_balance_from_latest(rows, currency, t, ii - 1);
                assert(side_balance(row, t) == row.to_balance);
                assert(balance_of(rows, t, currency) == row.to_balance);
                assert(!seen1.to_set().contains(t));
                lemma_ms_insert(seen1.to_set(), t, rows, currency);
                seen1.lemma_push_to_set_commute(t);
                assert(acc2.to_multiset() =~= balances_multiset(seen2.to_set(), rows, currency));
            }
            assert(acc2.to_multiset() == balances_multiset(seen2.to_set(), rows, currency));

            assert forall|a: UserId| #[trigger]
                seen2.contains(a) <==> (participants(rows.skip(ii - 1), currency).contains(a)
                    && a != BANK_ID) by {
                assert(seen2.contains(a) == seen2.to_set().contains(a));
                assert(seen1.contains(a) == seen1.to_set().contains(a));
                assert(seen.contains(a) == seen.to_set().contains(a));
            }
            lemma_scan_collects_current(rows, currency, (i - 1) as nat, seen2, acc2);
            assert(current_snapshots(rows, currency, i, seen, acc) == current_snapshots(
                rows,
                currency,
                (i - 1) as nat,
                seen2,
                acc2,
            ));
        } else {
            assert forall|a: UserId| #[trigger]
                seen.contains(a) <==> (participants(rows.skip(ii - 1), currency).contains(a) && a
                    != BANK_ID) by {}
            lemma_scan_collects_current(rows, currency, (i - 1) as nat, seen, acc);
            assert(current_snapshots(rows, currency, i, seen, acc) == current_snapshots(
                rows,
                currency,
                (i - 1) as nat,
                seen,
                acc,
            ));
        }
    }
}

/// What the descending scan collects — and so, up to order, what
/// `get_all_balances` returns — is exactly the current balance of every
/// ordinary account that ever participated in a transfer of the currency,
/// each account counted once.
pub proof fn lemma_collected_balances_are_current(rows: Seq<LedgerRow>, currency: Currency)
    ensures
        collected_balances(rows, currency).to_multiset() == balances_multiset(
            participants(rows, currency).remove(BANK_ID),
            rows,
            currency,
        ),
{
    broadcast use vstd::seq_lib::group_to_multiset_ensures;

    let empty_ids = Seq::<UserId>::empty();
    let empty_bal = Seq::<i64>::empty();
    assert(rows.skip(rows.len() as int) =~= Seq::<LedgerRow>::empty());
    assert(participants(Seq::<LedgerRow>::empty(), currency) =~= Set::<UserId>::empty());
    assert(empty_ids.to_set() =~= Set::<UserId>::empty());
    lemma_ms_empty(rows, currency);
    assert(empty_bal.to_multiset() =~= Multiset::<i64>::empty());
    lemma_scan_collects_current(rows, currency, rows.len(), empty_ids, empty_bal);
}

} // verus!
