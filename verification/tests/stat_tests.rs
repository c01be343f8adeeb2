use bank_ledger::currency::Currency;
use bank_ledger::ledger::{Ledger, BANK_ID};
use bank_ledger::operation::{force_transfer, get_balance, send_transfer, TransferStatus};
use bank_ledger::stat::{
    calc_balances, get_all_balances, get_all_transfers, get_money_supply, Ratio,
};

#[test]
fn tendency_of_empty_list_is_all_zero() {
    let t = calc_balances(&vec![]);
    assert_eq!(t.average, Ratio { num: 0, den: 1 });
    assert_eq!(t.median, Ratio { num: 0, den: 1 });
    assert_eq!(t.gini, Ratio { num: 0, den: 1 });
}

#[test]
fn tendency_of_equal_balances() {
    let t = calc_balances(&vec![100, 100, 100]);
    // average = 300/3 = 100
    assert_eq!(t.average, Ratio { num: 300, den: 3 });
    assert_eq!(t.average.num, 100 * t.average.den);
    // median = middle element
    assert_eq!(t.median, Ratio { num: 100, den: 1 });
    // perfect equality: gini = 0
    assert_eq!(t.gini.num, 0);
    assert!(t.gini.den > 0);
}

#[test]
fn tendency_of_skewed_balances() {
    let t = calc_balances(&vec![0, 0, 100]);
    // median is the middle of the sorted list
    assert_eq!(t.median, Ratio { num: 0, den: 1 });
    // average = 100/3 ~ 33.33
    assert_eq!(t.average, Ratio { num: 100, den: 3 });
    assert_eq!(3 * t.average.num, 100 * t.average.den);
    // gini = 400 / (2 * 3 * 100) = 2/3 > 0
    assert_eq!(t.gini, Ratio { num: 400, den: 600 });
    assert_eq!(3 * t.gini.num, 2 * t.gini.den);
    assert!(t.gini.num > 0);
}

#[test]
fn median_of_even_sized_list_averages_the_middle_pair() {
    let t = calc_balances(&vec![1, 2, 3, 4]);
    assert_eq!(t.median, Ratio { num: 5, den: 2 });
    assert_eq!(t.average, Ratio { num: 10, den: 4 });
}

#[test]
fn gini_is_zero_when_total_is_not_positive() {
    let t = calc_balances(&vec![-5, 5]);
    assert_eq!(t.average, Ratio { num: 0, den: 2 });
    assert_eq!(t.median, Ratio { num: 0, den: 2 });
    assert_eq!(t.gini, Ratio { num: 0, den: 1 });
}

#[test]
fn balances_and_supply_after_issue_and_transfer() {
    let mut ledger = Ledger::new();
    force_transfer(&mut ledger, BANK_ID, 10, Currency::Ksn, 100, 1000).unwrap();
    assert_eq!(
        send_transfer(&mut ledger, 10, 20, Currency::Ksn, 40, 2000),
        TransferStatus::Authorized
    );
    assert_eq!(get_all_balances(&ledger, Currency::Ksn), vec![40, 60]);
    assert_eq!(get_money_supply(&ledger, Currency::Ksn), 100);
}

#[test]
fn balances_count_each_account_once_at_its_current_value() {
    let mut ledger = Ledger::new();
    force_transfer(&mut ledger, BANK_ID, 1, Currency::Ksn, 100, 1000).unwrap();
    send_transfer(&mut ledger, 1, 2, Currency::Ksn, 30, 2000);
    send_transfer(&mut ledger, 1, 2, Currency::Ksn, 20, 3000);
    assert_eq!(get_all_balances(&ledger, Currency::Ksn), vec![50, 50]);
}

#[test]
fn balances_are_sorted_even_when_negative() {
    let mut ledger = Ledger::new();
    // A forced transfer between two fresh ordinary accounts leaves one side
    // negative; both still count.
    force_transfer(&mut ledger, 5, 6, Currency::Ksn, 20, 1000).unwrap();
    assert_eq!(get_all_balances(&ledger, Currency::Ksn), vec![-20, 20]);
    // The issuing authority itself is never listed.
    force_transfer(&mut ledger, BANK_ID, 7, Currency::Ksn, 5, 2000).unwrap();
    assert_eq!(get_all_balances(&ledger, Currency::Ksn), vec![-20, 5, 20]);
}

#[test]
fn balances_ignore_other_currencies() {
    let mut ledger = Ledger::new();
    force_transfer(&mut ledger, BANK_ID, 1, Currency::Ksn, 100, 1000).unwrap();
    force_transfer(&mut ledger, BANK_ID, 2, Currency::Usd, 7, 2000).unwrap();
    assert_eq!(get_all_balances(&ledger, Currency::Ksn), vec![100]);
    assert_eq!(get_all_balances(&ledger, Currency::Usd), vec![7]);
}

#[test]
fn transfer_volume_excludes_issuance() {
    let mut ledger = Ledger::new();
    force_transfer(&mut ledger, BANK_ID, 1, Currency::Ksn, 100, 1000).unwrap();
    send_transfer(&mut ledger, 1, 2, Currency::Ksn, 30, 2000);
    send_transfer(&mut ledger, 2, 1, Currency::Ksn, 20, 3000);
    assert_eq!(get_all_transfers(&ledger, Currency::Ksn), 50);
    assert_eq!(get_all_transfers(&ledger, Currency::Usd), 0);
}

#[test]
fn empty_currency_reads_as_zero_supply() {
    let ledger = Ledger::new();
    assert_eq!(get_money_supply(&ledger, Currency::Ksn), 0);
    assert_eq!(get_all_transfers(&ledger, Currency::Ksn), 0);
    assert!(get_all_balances(&ledger, Currency::Ksn).is_empty());
}

#[test]
fn conservation_holds_at_every_step() {
    let mut ledger = Ledger::new();
    let steps: [(i64, i64, i64); 5] = [
        (BANK_ID, 1, 500),
        (1, 2, 120),
        (2, 3, 40),
        (BANK_ID, 3, 7),
        (3, 1, 15),
    ];
    for (k, (from, to, value)) in steps.iter().enumerate() {
        force_transfer(&mut ledger, *from, *to, Currency::Ksn, *value, 1000 + k as i64).unwrap();
        let others: i64 = get_all_balances(&ledger, Currency::Ksn).iter().sum();
        assert_eq!(get_balance(&ledger, BANK_ID, Currency::Ksn) + others, 0);
    }
}

#[test]
fn supply_follows_issuance_and_destruction() {
    let mut ledger = Ledger::new();
    force_transfer(&mut ledger, BANK_ID, 1, Currency::Ksn, 100, 1000).unwrap();
    force_transfer(&mut ledger, 1, BANK_ID, Currency::Ksn, 40, 2000).unwrap();
    assert_eq!(get_money_supply(&ledger, Currency::Ksn), 60);
    assert_eq!(get_balance(&ledger, 1, Currency::Ksn), 60);
}
