//! The statistics engine: money supply, aggregate transfer volume, the list
//! of all current balances, and distributional tendency (average, median,
//! Gini coefficient).
//!
//! Tendency values are exact rationals (`Ratio`), not floating point: the
//! average of `n` integer balances is `sum / n`, the median of an even-sized
//! list is `(a + b) / 2`, and the Gini coefficient is the mean absolute
//! pairwise difference divided by `2 * n^2 * average`, which reduces to
//! `diff_sum / (2 * n * sum)`.  Callers that want a decimal approximation
//! divide the two fields themselves.

use vstd::prelude::*;
use crate::currency::Currency;
use crate::ledger::{balance_of, Ledger, LedgerRow, UserId, BANK_ID};

verus! {

/// An exact rational number with a positive denominator, not necessarily in
/// lowest terms.
#[derive(Clone, Copy, Debug, PartialEq, Eq, Structural)]
pub struct Ratio {
    pub num: i128,
    pub den: i128,
}

/// The distributional tendency of a list of balances.
#[derive(Clone, Copy, Debug, PartialEq, Eq, Structural)]
pub struct Tendency {
    pub average: Ratio,
    pub median: Ratio,
    pub gini: Ratio,
}

/// The total issued and in circulation: the negative of the issuing
/// authority's balance.
pub open spec fn money_supply_of(rows: Seq<LedgerRow>, currency: Currency) -> int {
    -(balance_of(rows, BANK_ID, currency) as int)
}

/// The sum of `value` over the rows of `currency` that do not debit the
/// issuing authority: the volume moved between ordinary accounts.
pub open spec fn sum_values(rows: Seq<LedgerRow>, currency: Currency) -> int
    decreases rows.len(),
{
    if rows.len() == 0 {
        0
    } else {
        sum_values(rows.drop_last(), currency) + if rows.last().currency == currency
            && rows.last().from_account != BANK_ID {
            rows.last().value as int
        } else {
            0
        }
    }
}

/// One step of the balance collection: walking rows from position `i` down
/// to the oldest, keep the first (most recent) snapshot of every ordinary
/// account not yet in `seen`.
pub open spec fn current_snapshots(
    rows: Seq<LedgerRow>,
    currency: Currency,
    i: nat,
    seen: Seq<UserId>,
    acc: Seq<i64>,
) -> Seq<i64>
    decreases i,
{
    if i == 0 {
        acc
    } else {
        let row = rows[i - 1];
        if row.currency == currency {
            let keep_from = !seen.contains(row.from_account) && row.from_account != BANK_ID;
            let seen1 = if keep_from {
                seen.push(row.from_account)
            } else {
                seen
            };
            let acc1 = if keep_from {
                acc.push(row.from_balance)
            } else {
                acc
            };
            let keep_to = !seen1.contains(row.to_account) && row.to_account != BANK_ID;
            let seen2 = if keep_to {
                seen1.push(row.to_account)
            } else {
                seen1
            };
            let acc2 = if keep_to {
                acc1.push(row.to_balance)
            } else {
                acc1
            };
            current_snapshots(rows, currency, (i - 1) as nat, seen2, acc2)
        } else {
            current_snapshots(rows, currency, (i - 1) as nat, seen, acc)
        }
    }
}

/// The current balance of every ordinary account that ever participated in a
/// transfer of `currency`, each counted once, in order of discovery from the
/// most recent row backwards.
pub open spec fn collected_balances(rows: Seq<LedgerRow>, currency: Currency) -> Seq<i64> {
    current_snapshots(rows, currency, rows.len(), Seq::<UserId>::empty(), Seq::<i64>::empty())
}

/// Ascending order.
pub open spec fn sorted_ascending(s: Seq<i64>) -> bool {
    forall|j: int, k: int| 0 <= j < k < s.len() ==> s[j] <= s[k]
}

/// The sum of a list of balances.
pub open spec fn sum_seq(s: Seq<i64>) -> int
    decreases s.len(),
{
    if s.len() == 0 {
        0
    } else {
        sum_seq(s.drop_last()) + s.last()
    }
}

pub open spec fn abs_val(x: int) -> int {
    if x < 0 {
        -x
    } else {
        x
    }
}

/// The sum of `|x - y|` over all entries `y` of `s`.
pub open spec fn row_diff(s: Seq<i64>, x: i64) -> int
    decreases s.len(),
{
    if s.len() == 0 {
        0
    } else {
        row_diff(s.drop_last(), x) + abs_val(x - s.last())
    }
}

/// The sum of `|s[k] - s[j]|` over all ordered pairs with `k < i`, `j`
/// ranging over the whole of `s`.
pub open spec fn pair_diff(s: Seq<i64>, i: nat) -> int
    decreases i,
{
    if i == 0 {
        0
    } else {
        pair_diff(s, (i - 1) as nat) + row_diff(s, s[i - 1])
    }
}

/// The sum of absolute differences over all ordered pairs of `s`, the Gini
/// numerator before normalization.
pub open spec fn total_pair_diff(s: Seq<i64>) -> int {
    pair_diff(s, s.len())
}

/// The money supply of `currency`: the negative of the issuing authority's
/// current balance (saturating in the one unrepresentable case).
pub fn get_money_supply(ledger: &Ledger, currency: Currency) -> (supply: i64)
    ensures
        balance_of(ledger@, BANK_ID, currency) != i64::MIN ==> supply == money_supply_of(
            ledger@,
            currency,
        ),
        balance_of(ledger@, BANK_ID, currency) == i64::MIN ==> supply == i64::MAX,
{
    let b = ledger.balance(BANK_ID, currency);
    if b == i64::MIN {
        i64::MAX
    } else {
        -b
    }
}

/// The aggregate transfer volume of `currency`: the sum of `value` over all
/// rows not debiting the issuing authority (issuance excluded).
pub fn get_all_transfers(ledger: &Ledger, currency: Currency) -> (total: i128)
    ensures
        total == sum_values(ledger@, currency),
{
    let n = ledger.len();
    let mut total: i128 = 0;
    let mut i: usize = 0;
    proof {
        assert(ledger@.take(0) =~= Seq::<LedgerRow>::empty());
    }
    while i < n
        invariant
            i <= n,
            n == ledger@.len(),
            total == sum_values(ledger@.take(i as int), currency),
            -((i as int) * 0x8000_0000_0000_0000) <= total <= (i as int) * 0x7FFF_FFFF_FFFF_FFFF,
        decreases n - i,
    {
        let row = ledger.row(i);
        proof {
            assert(ledger@.take(i as int + 1).last() == ledger@[i as int]);
            assert(ledger@.take(i as int + 1).drop_last() =~= ledger@.take(i as int));
            let ii = i as int + 1;
            assert(ii <= 0x1_0000_0000_0000_0000);
            assert(ii * 0x8000_0000_0000_0000 <= 0x1_0000_0000_0000_0000 * 0x8000_0000_0000_0000)
                by (nonlinear_arith)
                requires
                    ii <= 0x1_0000_0000_0000_0000,
            ;
            assert(ii * 0x7FFF_FFFF_FFFF_FFFF <= 0x1_0000_0000_0000_0000 * 0x7FFF_FFFF_FFFF_FFFF)
                by (nonlinear_arith)
                requires
                    ii <= 0x1_0000_0000_0000_0000,
            ;
        }
        if row.currency == currency && row.from_account != BANK_ID {
            total = total + (row.value as i128);
        }
        i = i + 1;
    }
    proof {
        assert(ledger@.take(n as int) =~= ledger@);
    }
    total
}

fn contains_id(v: &Vec<UserId>, x: UserId) -> (b: bool)
    ensures
        b == v@.contains(x),
{
    let mut k: usize = 0;
    while k < v.len()
        invariant
            k <= v@.len(),
            forall|j: int| 0 <= j < k ==> v@[j] != x,
        decreases v@.len() - k,
    {
        if v[k] == x {
            return true;
        }
        k = k + 1;
    }
    false
}

/// Sort in place, ascending, keeping exactly the same entries.
fn sort_balances(v: &mut Vec<i64>)
    ensures
        sorted_ascending(final(v)@),
        final(v)@.to_multiset() == old(v)@.to_multiset(),
        final(v)@.len() == old(v)@.len(),
{
    let n = v.len();
    let mut i: usize = 0;
    while i < n
        invariant
            i <= n,
            n == v@.len(),
            v@.to_multiset() == old(v)@.to_multiset(),
            forall|j: int, k: int| 0 <= j < k < i ==> v@[j] <= v@[k],
            forall|j: int, k: int| 0 <= j < i && i <= k < n ==> v@[j] <= v@[k],
        decreases n - i,
    {
        let mut m: usize = i;
        let mut k: usize = i + 1;
        while k < n
            invariant
                i <= m < k <= n,
                n == v@.len(),
                forall|j: int| i <= j < k ==> v@[m as int] <= v@[j],
            decreases n - k,
        {
            if v[k] < v[m] {
                m = k;
            }
            k = k + 1;
        }
        if m != i {
            let ghost pre = v@;
            let a = v[i];
            let b = v[m];
            v.set(i, b);
            v.set(m, a);
            proof {
                broadcast use vstd::seq_lib::group_to_multiset_ensures;

                assert(pre.contains(a)) by {
                    assert(pre[i as int] == a);
                }
                assert(v@ == pre.update(i as int, b).update(m as int, a));
                assert(pre.update(i as int, b)[m as int] == b);
                assert(v@.to_multiset() =~= pre.to_multiset());
            }
        }
        i = i + 1;
    }
}

/// The current balances of all ordinary accounts of `currency`, sorted
/// ascending: rows are scanned from most recent to oldest and the first
/// snapshot seen for each account (its current balance) is kept.
pub fn get_all_balances(ledger: &Ledger, currency: Currency) -> (r: Vec<i64>)
    ensures
        sorted_ascending(r@),
        r@.to_multiset() == collected_balances(ledger@, currency).to_multiset(),
        r@.len() == collected_balances(ledger@, currency).len(),
{
    let mut result: Vec<i64> = Vec::new();
    let mut seen: Vec<UserId> = Vec::new();
    let mut i: usize = ledger.len();
    while i > 0
        invariant
            i <= ledger@.len(),
            collected_balances(ledger@, currency) == current_snapshots(
                ledger@,
                currency,
                i as nat,
                seen@,
                result@,
            ),
        decreases i,
    {
        i = i - 1;
        let row = ledger.row(i);
        if row.currency == currency {
            if !contains_id(&seen, row.from_account) && row.from_account != BANK_ID {
                result.push(row.from_balance);
                seen.push(row.from_account);
            }
            if !contains_id(&seen, row.to_account) && row.to_account != BANK_ID {
                result.push(row.to_balance);
                seen.push(row.to_account);
            }
        }
    }
    sort_balances(&mut result);
    proof {
        vstd::seq_lib::to_multiset_len(result@);
        vstd::seq_lib::to_multiset_len(collected_balances(ledger@, currency));
    }
    result
}

/// The average, median and Gini coefficient of a list of balances, as exact
/// rationals.
///
/// The list is normally `get_all_balances` output, already sorted ascending;
/// the median formula reads the middle of the list as given.  The length
/// bound keeps the exact pair-difference sum within `i128`.
pub fn calc_balances(balances: &Vec<i64>) -> (t: Tendency)
    requires
        balances@.len() <= 0x8000_0000,
    ensures
        balances@.len() == 0 ==> t == (Tendency {
            average: Ratio { num: 0, den: 1 },
            median: Ratio { num: 0, den: 1 },
            gini: Ratio { num: 0, den: 1 },
        }),
        balances@.len() > 0 ==> t.average.num == sum_seq(balances@) && t.average.den
            == balances@.len(),
        balances@.len() > 0 && balances@.len() % 2 == 1 ==> t.median == (Ratio {
            num: balances@[balances@.len() as int / 2] as i128,
            den: 1,
        }),
        balances@.len() > 0 && balances@.len() % 2 == 0 ==> t.median.num == balances@[
            balances@.len() as int / 2
        ] + balances@[balances@.len() as int / 2 - 1] && t.median.den == 2,
        balances@.len() > 0 && sum_seq(balances@) > 0 ==> t.gini.num == total_pair_diff(
            balances@,
        ) && t.gini.den == 2 * balances@.len() * sum_seq(balances@),
        balances@.len() > 0 && sum_seq(balances@) <= 0 ==> t.gini == (Ratio { num: 0, den: 1 }),
{
    let size = balances.len();
    if size == 0 {
        return Tendency {
            average: Ratio { num: 0, den: 1 },
            median: Ratio { num: 0, den: 1 },
            gini: Ratio { num: 0, den: 1 },
        };
    }
    let median: Ratio = if size % 2 == 0 {
        Ratio {
            num: (balances[size / 2] as i128) + (balances[size / 2 - 1] as i128),
            den: 2,
        }
    } else {
        Ratio { num: balances[size / 2] as i128, den: 1 }
    };

    let mut sum: i128 = 0;
    let mut idx: usize = 0;
    proof {
        assert(balances@.take(0) =~= Seq::<i64>::empty());
    }
    while idx < size
        invariant
            idx <= size,
            size == balances@.len() <= 0x8000_0000,
            sum == sum_seq(balances@.take(idx as int)),
            -((idx as int) * 0x8000_0000_0000_0000) <= sum <= (idx as int)
                * 0x7FFF_FFFF_FFFF_FFFF,
        decreases size - idx,
    {
        proof {
            assert(balances@.take(idx as int + 1).last() == balances@[idx as int]);
            assert(balances@.take(idx as int + 1).drop_last() =~= balances@.take(idx as int));
        }
        sum = sum + (balances[idx] as i128);
        idx = idx + 1;
    }
    proof {
        assert(balances@.take(size as int) =~= balances@);
    }

    let mut diff: i128 = 0;
    let mut i: usize = 0;
    while i < size
        invariant
            i <= size,
            size == balances@.len() <= 0x8000_0000,
            diff == pair_diff(balances@, i as nat),
            0 <= diff <= (i as int) * (0x8000_0000 * 0xFFFF_FFFF_FFFF_FFFF),
        decreases size - i,
    {
        let x = balances[i];
        let mut row: i128 = 0;
        let mut j: usize = 0;
        proof {
            assert(balances@.take(0) =~= Seq::<i64>::empty());
        }
        while j < size
            invariant
                j <= size,
                i < size,
                size == balances@.len() <= 0x8000_0000,
                x == balances@[i as int],
                row == row_diff(balances@.take(j as int), x),
                0 <= row <= (j as int) * 0xFFFF_FFFF_FFFF_FFFF,
            decreases size - j,
        {
            proof {
                assert(balances@.take(j as int + 1).last() == balances@[j as int]);
                assert(balances@.take(j as int + 1).drop_last() =~= balances@.take(j as int));
            }
            let y = balances[j];
            let d = (x as i128) - (y as i128);
            let ad = if d < 0 {
                -d
            } else {
                d
            };
            row = row + ad;
            j = j + 1;
        }
        proof {
            assert(balances@.take(size as int) =~= balances@);
            assert(row <= (size as int) * 0xFFFF_FFFF_FFFF_FFFF);
            assert((size as int) * 0xFFFF_FFFF_FFFF_FFFF <= 0x8000_0000 * 0xFFFF_FFFF_FFFF_FFFF);
            assert(diff + row <= (i as int + 1) * (0x8000_0000 * 0xFFFF_FFFF_FFFF_FFFF))
                by (nonlinear_arith)
                requires
                    diff <= (i as int) * (0x8000_0000 * 0xFFFF_FFFF_FFFF_FFFF),
                    row <= 0x8000_0000 * 0xFFFF_FFFF_FFFF_FFFF,
            ;
        }
        diff = diff + row;
        i = i + 1;
    }

    let gini: Ratio = if sum > 0 {
        proof {
            assert(0 < (2 * (size as int)) * sum
                <= 0x4000_0000_0000_0000_0000_0000_0000_0000) by (nonlinear_arith)
                requires
                    0 < size as int <= 0x8000_0000,
                    0 < sum <= (size as int) * 0x7FFF_FFFF_FFFF_FFFF,
            ;
        }
        Ratio { num: diff, den: 2 * (size as i128) * sum }
    } else {
        Ratio { num: 0, den: 1 }
    };

    Tendency { average: Ratio { num: sum, den: size as i128 }, median, gini }
}

} // verus!
