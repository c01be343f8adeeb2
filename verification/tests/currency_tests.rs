use bank_ledger::currency::{all_currencies, Currency, CurrencyInfo};

#[test]
fn parses_exact_codes() {
    assert_eq!(Currency::from_code("KSN"), Some(Currency::Ksn));
    assert_eq!(Currency::from_code("USD"), Some(Currency::Usd));
    assert_eq!(Currency::from_code("BRL"), Some(Currency::Brl));
    assert_eq!(Currency::from_code("CAD"), Some(Currency::Cad));
    assert_eq!(Currency::from_code("GBP"), Some(Currency::Gbp));
    assert_eq!(Currency::from_code("EUR"), Some(Currency::Eur));
    assert_eq!(Currency::from_code("BDT"), Some(Currency::Bdt));
    assert_eq!(Currency::from_code("COP"), Some(Currency::Cop));
}

#[test]
fn parses_codes_ignoring_case() {
    assert_eq!(Currency::from_code("ksn"), Some(Currency::Ksn));
    assert_eq!(Currency::from_code("UsD"), Some(Currency::Usd));
    assert_eq!(Currency::from_code("eUR"), Some(Currency::Eur));
}

#[test]
fn rejects_unknown_codes() {
    assert_eq!(Currency::from_code("XXX"), None);
    assert_eq!(Currency::from_code(""), None);
    assert_eq!(Currency::from_code("KS"), None);
    assert_eq!(Currency::from_code("KSNX"), None);
    assert_eq!(Currency::from_code("K$N"), None);
}

#[test]
fn metadata_codes_and_exponent() {
    let codes = ["KSN", "USD", "BRL", "CAD", "GBP", "EUR", "BDT", "COP"];
    for (currency, code) in all_currencies().into_iter().zip(codes.iter()) {
        let info = CurrencyInfo::from(currency);
        assert_eq!(info.code.as_str(), *code);
        assert_eq!(info.subunitexp, -2);
        assert!(!info.name.is_empty());
        assert!(!info.prefix.is_empty());
        assert!(!info.posfix.is_empty());
        assert!(!info.picture.is_empty());
    }
}

#[test]
fn metadata_sample_entries() {
    let gbp = CurrencyInfo::from(Currency::Gbp);
    assert_eq!(gbp.prefix.as_str(), "£");
    assert_eq!(gbp.name.as_str(), "British Pound");
    assert_eq!(gbp.posfix.as_str(), "pounds");
    let ksn = CurrencyInfo::from(Currency::Ksn);
    assert_eq!(ksn.name.as_str(), "Kid Server Neper");
    assert_eq!(ksn.prefix.as_str(), "K$");
}

#[test]
fn all_currencies_lists_each_once() {
    let all = all_currencies();
    assert_eq!(all.len(), 8);
    assert_eq!(all[0], Currency::Ksn);
    for i in 0..all.len() {
        for j in 0..i {
            assert!(all[i] != all[j]);
        }
    }
}
