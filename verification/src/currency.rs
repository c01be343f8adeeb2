//! The currencies the ledger tracks and their display metadata.

use vstd::prelude::*;
use vstd::string::StrSliceExecFns;

verus! {

/// A currency the ledger can hold.  Every ledger row belongs to exactly one
/// currency; balances in different currencies never mix.
#[derive(Clone, Copy, Debug, PartialEq, Eq, Structural)]
pub enum Currency {
    Ksn,
    Usd,
    Brl,
    Cad,
    Gbp,
    Eur,
    Bdt,
    Cop,
}

/// `c` is the letter `u` (given in upper case), ignoring ASCII case.
pub open spec fn letter_eq(c: char, u: char) -> bool {
    c == u || c as int == u as int + 32
}

/// The three characters of `s` spell `a`, `b`, `c`, ignoring ASCII case.
pub open spec fn code_matches(s: Seq<char>, a: char, b: char, c: char) -> bool {
    s.len() == 3 && letter_eq(s[0], a) && letter_eq(s[1], b) && letter_eq(s[2], c)
}

/// The currency named by a three-letter code, compared ignoring ASCII case;
/// `None` for anything that is not a known code.
pub open spec fn currency_of_code(s: Seq<char>) -> Option<Currency> {
    if code_matches(s, 'K', 'S', 'N') {
        Some(Currency::Ksn)
    } else if code_matches(s, 'U', 'S', 'D') {
        Some(Currency::Usd)
    } else if code_matches(s, 'B', 'R', 'L') {
        Some(Currency::Brl)
    } else if code_matches(s, 'C', 'A', 'D') {
        Some(Currency::Cad)
    } else if code_matches(s, 'G', 'B', 'P') {
        Some(Currency::Gbp)
    } else if code_matches(s, 'E', 'U', 'R') {
        Some(Currency::Eur)
    } else if code_matches(s, 'B', 'D', 'T') {
        Some(Currency::Bdt)
    } else if code_matches(s, 'C', 'O', 'P') {
        Some(Currency::Cop)
    } else {
        None
    }
}

fn letter_matches(c: char, u: char) -> (r: bool)
    ensures
        r == letter_eq(c, u),
{
    c == u || c as u32 == u as u32 + 32
}

impl Currency {
    /// Parse a currency code such as `"KSN"` or `"usd"`, ignoring ASCII case.
    pub fn from_code(code: &str) -> (r: Option<Currency>)
        ensures
            r == currency_of_code(code@),
    {
        if code.unicode_len() != 3 {
            return None;
        }
        let c0 = code.get_char(0);
        let c1 = code.get_char(1);
        let c2 = code.get_char(2);
        if letter_matches(c0, 'K') && letter_matches(c1, 'S') && letter_matches(c2, 'N') {
            Some(Currency::Ksn)
        } else if letter_matches(c0, 'U') && letter_matches(c1, 'S') && letter_matches(c2, 'D') {
            Some(Currency::Usd)
        } else if letter_matches(c0, 'B') && letter_matches(c1, 'R') && letter_matches(c2, 'L') {
            Some(Currency::Brl)
        } else if letter_matches(c0, 'C') && letter_matches(c1, 'A') && letter_matches(c2, 'D') {
            Some(Currency::Cad)
        } else if letter_matches(c0, 'G') && letter_matches(c1, 'B') && letter_matches(c2, 'P') {
            Some(Currency::Gbp)
        } else if letter_matches(c0, 'E') && letter_matches(c1, 'U') && letter_matches(c2, 'R') {
            Some(Currency::Eur)
        } else if letter_matches(c0, 'B') && letter_matches(c1, 'D') && letter_matches(c2, 'T') {
            Some(Currency::Bdt)
        } else if letter_matches(c0, 'C') && letter_matches(c1, 'O') && letter_matches(c2, 'P') {
            Some(Currency::Cop)
        } else {
            None
        }
    }
}

/// Display metadata for a currency: its three-letter code, the prefix and
/// postfix it is written with, its full name, an icon address, and the
/// subunit exponent that converts stored integer subunits to display values.
pub struct CurrencyInfo {
    pub code: String,
    pub prefix: String,
    pub posfix: String,
    pub name: String,
    pub picture: String,
    pub subunitexp: i32,
}

pub open spec fn spec_code(c: Currency) -> Seq<char> {
    match c {
        Currency::Ksn => "KSN"@,
        Currency::Usd => "USD"@,
        Currency::Brl => "BRL"@,
        Currency::Cad => "CAD"@,
        Currency::Gbp => "GBP"@,
        Currency::Eur => "EUR"@,
        Currency::Bdt => "BDT"@,
        Currency::Cop => "COP"@,
    }
}

pub open spec fn spec_prefix(c: Currency) -> Seq<char> {
    match c {
        Currency::Ksn => "K$"@,
        Currency::Usd => "U$"@,
        Currency::Brl => "R$"@,
        Currency::Cad => "C$"@,
        Currency::Gbp => "£"@,
        Currency::Eur => "€"@,
        Currency::Bdt => "৳"@,
        Currency::Cop => "$"@,
    }
}

pub open spec fn spec_posfix(c: Currency) -> Seq<char> {
    match c {
        Currency::Ksn => "nepers"@,
        Currency::Usd => "dollars"@,
        Currency::Brl => "reals"@,
        Currency::Cad => "dollars"@,
        Currency::Gbp => "pounds"@,
        Currency::Eur => "euros"@,
        Currency::Bdt => "takas"@,
        Currency::Cop => "pesos"@,
    }
}

pub open spec fn spec_name(c: Currency) -> Seq<char> {
    match c {
        Currency::Ksn => "Kid Server Neper"@,
        Currency::Usd => "American Dollar"@,
        Currency::Brl => "Brazilian Real"@,
        Currency::Cad => "Canadian Dollar"@,
        Currency::Gbp => "British Pound"@,
        Currency::Eur => "European Euro"@,
        Currency::Bdt => "Bangladeshi Taka"@,
        Currency::Cop => "Colombian Peso"@,
    }
}

impl CurrencyInfo {
    /// The metadata table: one fixed entry per currency.  Every currency is
    /// stored in hundredths of its display unit (subunit exponent `-2`).
    pub fn from(currency: Currency) -> (r: CurrencyInfo)
        ensures
            r.code@ == spec_code(currency),
            r.prefix@ == spec_prefix(currency),
            r.posfix@ == spec_posfix(currency),
            r.name@ == spec_name(currency),
            r.subunitexp == -2,
    {
        match currency {
            Currency::Ksn => CurrencyInfo {
                code: "KSN".to_owned(),
                prefix: "K$".to_owned(),
                posfix: "nepers".to_owned(),
                name: "Kid Server Neper".to_owned(),
                picture:
                    "https://media.discordapp.net/attachments/1153482364907962509/1153858790341492766/twitchiconpng1-tanglesheep.png".to_owned(),
                subunitexp: -2,
            },
            Currency::Usd => CurrencyInfo {
                code: "USD".to_owned(),
                prefix: "U$".to_owned(),
                posfix: "dollars".to_owned(),
                name: "American Dollar".to_owned(),
                picture:
                    "https://media.discordapp.net/attachments/1153482364907962509/1153858888895041599/555526.png".to_owned(),
                subunitexp: -2,
            },
            Currency::Brl => CurrencyInfo {
                code: "BRL".to_owned(),
                prefix: "R$".to_owned(),
                posfix: "reals".to_owned(),
                name: "Brazilian Real".to_owned(),
                picture:
                    "https://media.discordapp.net/attachments/1153482364907962509/1153858933551808605/206597.png".to_owned(),
                subunitexp: -2,
            },
            Currency::Cad => CurrencyInfo {
                code: "CAD".to_owned(),
                prefix: "C$".to_owned(),
                posfix: "dollars".to_owned(),
                name: "Canadian Dollar".to_owned(),
                picture:
                    "https://cdn.discordapp.com/attachments/1153482364907962509/1153861273793081414/555473.png".to_owned(),
                subunitexp: -2,
            },
            Currency::Gbp => CurrencyInfo {
                code: "GBP".to_owned(),
                prefix: "£".to_owned(),
                posfix: "pounds".to_owned(),
                name: "British Pound".to_owned(),
                picture:
                    "https://media.discordapp.net/attachments/1153482364907962509/1153861461182001212/555417.png".to_owned(),
                subunitexp: -2,
            },
            Currency::Eur => CurrencyInfo {
                code: "EUR".to_owned(),
                prefix: "€".to_owned(),
                posfix: "euros".to_owned(),
                name: "European Euro".to_owned(),
                picture:
                    "https://media.discordapp.net/attachments/1153482364907962509/1153861704141262858/330426.png".to_owned(),
                subunitexp: -2,
            },
            Currency::Bdt => CurrencyInfo {
                code: "BDT".to_owned(),
                prefix: "৳".to_owned(),
                posfix: "takas".to_owned(),
                name: "Bangladeshi Taka".to_owned(),
                picture:
                    "https://cdn.discordapp.com/attachments/1153482364907962509/1153862592121548800/5327225.png".to_owned(),
                subunitexp: -2,
            },
            Currency::Cop => CurrencyInfo {
                code: "COP".to_owned(),
                prefix: "$".to_owned(),
                posfix: "pesos".to_owned(),
                name: "Colombian Peso".to_owned(),
                picture:
                    "https://media.discordapp.net/attachments/1153482364907962509/1154949125960372235/330508.png".to_owned(),
                subunitexp: -2,
            },
        }
    }
}

/// Every currency, in a fixed order.
pub fn all_currencies() -> (r: Vec<Currency>)
    ensures
        r@ == seq![
            Currency::Ksn,
            Currency::Usd,
            Currency::Brl,
            Currency::Cad,
            Currency::Gbp,
            Currency::Eur,
            Currency::Bdt,
            Currency::Cop,
        ],
{
    let mut v: Vec<Currency> = Vec::new();
    v.push(Currency::Ksn);
    v.push(Currency::Usd);
    v.push(Currency::Brl);
    v.push(Currency::Cad);
    v.push(Currency::Gbp);
    v.push(Currency::Eur);
    v.push(Currency::Bdt);
    v.push(Currency::Cop);
    proof {
        assert(v@ =~= seq![
            Currency::Ksn,
            Currency::Usd,
            Currency::Brl,
            Currency::Cad,
            Currency::Gbp,
            Currency::Eur,
            Currency::Bdt,
            Currency::Cop,
        ]);
    }
    v
}

} // verus!
