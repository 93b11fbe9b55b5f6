//! The currency registry.
//!
//! A closed, fixed set of fiat and crypto currencies, each with static
//! metadata: display symbol, ISO code, parse aliases, whether the symbol
//! stands after the amount, whether it is a cryptocurrency, and the
//! identifier under which a price service lists it.  Parsing and display are
//! table lookups, first match in table order; the table never changes at
//! run time.

use vstd::prelude::*;

verus! {

use crate::text::{spec_lower, str_chars, lower_chars, chars_eq, chars_eq_str, chars_eq_str_nocase};

/// The supported currencies.
#[derive(Clone, Copy, Debug, PartialEq, Eq, Structural, Hash)]
pub enum Currency {
    USD,
    EUR,
    GBP,
    JPY,
    CHF,
    CNY,
    CAD,
    AUD,
    INR,
    KRW,
    RUB,
    ILS,
    PLN,
    UAH,
    BTC,
    ETH,
    SOL,
    USDT,
    USDC,
    BNB,
    XRP,
    ADA,
    DOGE,
    DOT,
    LTC,
    LINK,
    AVAX,
    MATIC,
    TON,
}

/// The metadata of one currency.
pub struct CurrencyDef {
    pub currency: Currency,
    pub symbol: String,
    pub code: String,
    pub aliases: Vec<String>,
    pub symbol_after: bool,
    pub is_crypto: bool,
    pub coingecko_id: Option<String>,
}

/// The metadata of one currency, at the specification level.
pub struct CurrencyInfo {
    pub symbol: Seq<char>,
    pub code: Seq<char>,
    pub aliases: Seq<Seq<char>>,
    pub symbol_after: bool,
    pub is_crypto: bool,
    pub coingecko_id: Option<Seq<char>>,
}

/// The views of a vector of strings.
pub open spec fn strs_view(v: Seq<String>) -> Seq<Seq<char>> {
    v.map_values(|s: String| s@)
}

/// The registry order: fiat currencies first, then cryptocurrencies.
pub open spec fn spec_table() -> Seq<Currency> {
    seq![
        Currency::USD,
        Currency::EUR,
        Currency::GBP,
        Currency::JPY,
        Currency::CHF,
        Currency::CNY,
        Currency::CAD,
        Currency::AUD,
        Currency::INR,
        Currency::KRW,
        Currency::RUB,
        Currency::ILS,
        Currency::PLN,
        Currency::UAH,
        Currency::BTC,
        Currency::ETH,
        Currency::SOL,
        Currency::USDT,
        Currency::USDC,
        Currency::BNB,
        Currency::XRP,
        Currency::ADA,
        Currency::DOGE,
        Currency::DOT,
        Currency::LTC,
        Currency::LINK,
        Currency::AVAX,
        Currency::MATIC,
        Currency::TON,
    ]
}

/// The metadata table.
pub open spec fn spec_def(c: Currency) -> CurrencyInfo {
    match c {
        Currency::USD => CurrencyInfo {
            symbol: "$"@,
            code: "USD"@,
            aliases: seq!["$"@, "usd"@, "dollars"@],
            symbol_after: false,
            is_crypto: false,
            coingecko_id: None,
        },
        Currency::EUR => CurrencyInfo {
            symbol: "€"@,
            code: "EUR"@,
            aliases: seq!["€"@, "eur"@, "euros"@],
            symbol_after: false,
            is_crypto: false,
            coingecko_id: None,
        },
        Currency::GBP => CurrencyInfo {
            symbol: "£"@,
            code: "GBP"@,
            aliases: seq!["£"@, "gbp"@, "pounds"@],
            symbol_after: false,
            is_crypto: false,
            coingecko_id: None,
        },
        Currency::JPY => CurrencyInfo {
            symbol: "¥"@,
            code: "JPY"@,
            aliases: seq!["¥"@, "jpy"@, "yen"@],
            symbol_after: false,
            is_crypto: false,
            coingecko_id: None,
        },
        Currency::CHF => CurrencyInfo {
            symbol: "CHF"@,
            code: "CHF"@,
            aliases: seq!["chf"@, "francs"@],
            symbol_after: false,
            is_crypto: false,
            coingecko_id: None,
        },
        Currency::CNY => CurrencyInfo {
            symbol: "¥"@,
            code: "CNY"@,
            aliases: seq!["cny"@, "rmb"@, "yuan"@],
            symbol_after: false,
            is_crypto: false,
            coingecko_id: None,
        },
        Currency::CAD => CurrencyInfo {
            symbol: "C$"@,
            code: "CAD"@,
            aliases: seq!["cad"@],
            symbol_after: false,
            is_crypto: false,
            coingecko_id: None,
        },
        Currency::AUD => CurrencyInfo {
            symbol: "A$"@,
            code: "AUD"@,
            aliases: seq!["aud"@],
            symbol_after: false,
            is_crypto: false,
            coingecko_id: None,
        },
        Currency::INR => CurrencyInfo {
            symbol: "₹"@,
            code: "INR"@,
            aliases: seq!["₹"@, "inr"@, "rupees"@],
            symbol_after: false,
            is_crypto: false,
            coingecko_id: None,
        },
        Currency::KRW => CurrencyInfo {
            symbol: "₩"@,
            code: "KRW"@,
            aliases: seq!["₩"@, "krw"@, "won"@],
            symbol_after: false,
            is_crypto: false,
            coingecko_id: None,
        },
        Currency::RUB => CurrencyInfo {
            symbol: "₽"@,
            code: "RUB"@,
            aliases: seq!["₽"@, "rub"@, "rubles"@],
            symbol_after: true,
            is_crypto: false,
            coingecko_id: None,
        },
        Currency::ILS => CurrencyInfo {
            symbol: "₪"@,
            code: "ILS"@,
            aliases: seq!["₪"@, "ils"@, "shekels"@],
            symbol_after: false,
            is_crypto: false,
            coingecko_id: None,
        },
        Currency::PLN => CurrencyInfo {
            symbol: "zł"@,
            code: "PLN"@,
            aliases: seq!["zł"@, "pln"@, "zloty"@],
            symbol_after: true,
            is_crypto: false,
            coingecko_id: None,
        },
        Currency::UAH => CurrencyInfo {
            symbol: "₴"@,
            code: "UAH"@,
            aliases: seq!["₴"@, "uah"@, "hryvnia"@],
            symbol_after: false,
            is_crypto: false,
            coingecko_id: None,
        },
        Currency::BTC => CurrencyInfo {
            symbol: "₿"@,
            code: "BTC"@,
            aliases: seq!["₿"@, "btc"@, "bitcoin"@],
            symbol_after: false,
            is_crypto: true,
            coingecko_id: Some("bitcoin"@),
        },
        Currency::ETH => CurrencyInfo {
            symbol: "Ξ"@,
            code: "ETH"@,
            aliases: seq!["Ξ"@, "eth"@, "ethereum"@, "ether"@],
            symbol_after: false,
            is_crypto: true,
            coingecko_id: Some("ethereum"@),
        },
        Currency::SOL => CurrencyInfo {
            symbol: "◎"@,
            code: "SOL"@,
            aliases: seq!["◎"@, "sol"@, "solana"@],
            symbol_after: false,
            is_crypto: true,
            coingecko_id: Some("solana"@),
        },
        Currency::USDT => CurrencyInfo {
            symbol: "₮"@,
            code: "USDT"@,
            aliases: seq!["₮"@, "usdt"@, "tether"@],
            symbol_after: false,
            is_crypto: true,
            coingecko_id: Some("tether"@),
        },
        Currency::USDC => CurrencyInfo {
            symbol: "USDC"@,
            code: "USDC"@,
            aliases: seq!["usdc"@],
            symbol_after: false,
            is_crypto: true,
            coingecko_id: Some("usd-coin"@),
        },
        Currency::BNB => CurrencyInfo {
            symbol: "BNB"@,
            code: "BNB"@,
            aliases: seq!["bnb"@, "binance"@],
            symbol_after: false,
            is_crypto: true,
            coingecko_id: Some("binancecoin"@),
        },
        Currency::XRP => CurrencyInfo {
            symbol: "XRP"@,
            code: "XRP"@,
            aliases: seq!["xrp"@, "ripple"@],
            symbol_after: false,
            is_crypto: true,
            coingecko_id: Some("ripple"@),
        },
        Currency::ADA => CurrencyInfo {
            symbol: "₳"@,
            code: "ADA"@,
            aliases: seq!["₳"@, "ada"@, "cardano"@],
            symbol_after: false,
            is_crypto: true,
            coingecko_id: Some("cardano"@),
        },
        Currency::DOGE => CurrencyInfo {
            symbol: "Ð"@,
            code: "DOGE"@,
            aliases: seq!["Ð"@, "doge"@, "dogecoin"@],
            symbol_after: false,
            is_crypto: true,
            coingecko_id: Some("dogecoin"@),
        },
        Currency::DOT => CurrencyInfo {
            symbol: "DOT"@,
            code: "DOT"@,
            aliases: seq!["dot"@, "polkadot"@],
            symbol_after: false,
            is_crypto: true,
            coingecko_id: Some("polkadot"@),
        },
        Currency::LTC => CurrencyInfo {
            symbol: "Ł"@,
            code: "LTC"@,
            aliases: seq!["Ł"@, "ltc"@, "litecoin"@],
            symbol_after: false,
            is_crypto: true,
            coingecko_id: Some("litecoin"@),
        },
        Currency::LINK => CurrencyInfo {
            symbol: "LINK"@,
            code: "LINK"@,
            aliases: seq!["link"@, "chainlink"@],
            symbol_after: false,
            is_crypto: true,
            coingecko_id: Some("chainlink"@),
        },
        Currency::AVAX => CurrencyInfo {
            symbol: "AVAX"@,
            code: "AVAX"@,
            aliases: seq!["avax"@, "avalanche"@],
            symbol_after: false,
            is_crypto: true,
            coingecko_id: Some("avalanche-2"@),
        },
        Currency::MATIC => CurrencyInfo {
            symbol: "MATIC"@,
            code: "MATIC"@,
            aliases: seq!["matic"@, "polygon"@],
            symbol_after: false,
            is_crypto: true,
            coingecko_id: Some("polygon-ecosystem-token"@),
        },
        Currency::TON => CurrencyInfo {
            symbol: "TON"@,
            code: "TON"@,
            aliases: seq!["ton"@, "toncoin"@],
            symbol_after: false,
            is_crypto: true,
            coingecko_id: Some("the-open-network"@),
        },
    }
}

fn push_str(v: &mut Vec<String>, s: &str)
    ensures
        final (v)@.len() == old(v)@.len() + 1,
        strs_view(final (v)@) == strs_view(old(v)@).push(s@),
{
    let owned = String::from_str(s);
    v.push(owned);
    proof {
        assert(strs_view(v@) =~= strs_view(old(v)@).push(s@));
    }

}

/// True iff the definition matches its specification entry.
pub open spec fn def_matches(d: CurrencyDef, c: Currency) -> bool {
    &&& d.currency == c
    &&& d.symbol@ == spec_def(c).symbol
    &&& d.code@ == spec_def(c).code
    &&& strs_view(d.aliases@) == spec_def(c).aliases
    &&& d.symbol_after == spec_def(c).symbol_after
    &&& d.is_crypto == spec_def(c).is_crypto
    &&& (match (d.coingecko_id, spec_def(c).coingecko_id) {
        (Option::Some(g), Option::Some(h)) => g@ == h,
        (Option::None, Option::None) => true,
        _ => false,
    })
}

impl Currency {
    /// The position of this currency in the registry.
    pub open spec fn spec_rank(self) -> int {
        match self {
            Currency::USD => 0,
            Currency::EUR => 1,
            Currency::GBP => 2,
            Currency::JPY => 3,
            Currency::CHF => 4,
            Currency::CNY => 5,
            Currency::CAD => 6,
            Currency::AUD => 7,
            Currency::INR => 8,
            Currency::KRW => 9,
            Currency::RUB => 10,
            Currency::ILS => 11,
            Currency::PLN => 12,
            Currency::UAH => 13,
            Currency::BTC => 14,
            Currency::ETH => 15,
            Currency::SOL => 16,
            Currency::USDT => 17,
            Currency::USDC => 18,
            Currency::BNB => 19,
            Currency::XRP => 20,
            Currency::ADA => 21,
            Currency::DOGE => 22,
            Currency::DOT => 23,
            Currency::LTC => 24,
            Currency::LINK => 25,
            Currency::AVAX => 26,
            Currency::MATIC => 27,
            Currency::TON => 28,
        }
    }

    /// The position of this currency in the registry.
    pub fn rank(&self) -> (r: usize)
        ensures
            r == self.spec_rank(),
            r < 29,
    {
        match *self {
            Currency::USD => 0,
            Currency::EUR => 1,
            Currency::GBP => 2,
            Currency::JPY => 3,
            Currency::CHF => 4,
            Currency::CNY => 5,
            Currency::CAD => 6,
            Currency::AUD => 7,
            Currency::INR => 8,
            Currency::KRW => 9,
            Currency::RUB => 10,
            Currency::ILS => 11,
            Currency::PLN => 12,
            Currency::UAH => 13,
            Currency::BTC => 14,
            Currency::ETH => 15,
            Currency::SOL => 16,
            Currency::USDT => 17,
            Currency::USDC => 18,
            Currency::BNB => 19,
            Currency::XRP => 20,
            Currency::ADA => 21,
            Currency::DOGE => 22,
            Currency::DOT => 23,
            Currency::LTC => 24,
            Currency::LINK => 25,
            Currency::AVAX => 26,
            Currency::MATIC => 27,
            Currency::TON => 28,
        }
    }

    /// Distinct currencies have distinct registry positions.
    pub proof fn lemma_rank_injective(a: Currency, b: Currency)
        ensures
            a.spec_rank() == b.spec_rank() ==> a == b,
    {
    }

    /// The registry entry of this currency.
    pub fn def(&self) -> (r: CurrencyDef)
        ensures
            def_matches(r, *self),
    {
        let mut aliases: Vec<String> = Vec::new();
        match *self {
            Currency::USD => {
                push_str(&mut aliases, "$");
                push_str(&mut aliases, "usd");
                push_str(&mut aliases, "dollars");
                proof {
                    assert(strs_view(aliases@) =~= spec_def(Currency::USD).aliases);
                }
                CurrencyDef {
                    currency: Currency::USD,
                    symbol: String::from_str("$"),
                    code: String::from_str("USD"),
                    aliases,
                    symbol_after: false,
                    is_crypto: false,
                    coingecko_id: None,
                }
            },
            Currency::EUR => {
                push_str(&mut aliases, "€");
                push_str(&mut aliases, "eur");
                push_str(&mut aliases, "euros");
                proof {
                    assert(strs_view(aliases@) =~= spec_def(Currency::EUR).aliases);
                }
                CurrencyDef {
                    currency: Currency::EUR,
                    symbol: String::from_str("€"),
                    code: String::from_str("EUR"),
                    aliases,
                    symbol_after: false,
                    is_crypto: false,
                    coingecko_id: None,
                }
            },
            Currency::GBP => {
                push_str(&mut aliases, "£");
                push_str(&mut aliases, "gbp");
                push_str(&mut aliases, "pounds");
                proof {
                    assert(strs_view(aliases@) =~= spec_def(Currency::GBP).aliases);
                }
                CurrencyDef {
                    currency: Currency::GBP,
                    symbol: String::from_str("£"),
                    code: String::from_str("GBP"),
                    aliases,
                    symbol_after: false,
                    is_crypto: false,
                    coingecko_id: None,
                }
            },
            Currency::JPY => {
                push_str(&mut aliases, "¥");
                push_str(&mut aliases, "jpy");
                push_str(&mut aliases, "yen");
                proof {
                    assert(strs_view(aliases@) =~= spec_def(Currency::JPY).aliases);
                }
                CurrencyDef {
                    currency: Currency::JPY,
                    symbol: String::from_str("¥"),
                    code: String::from_str("JPY"),
                    aliases,
                    symbol_after: false,
                    is_crypto: false,
                    coingecko_id: None,
                }
            },
            Currency::CHF => {
                push_str(&mut aliases, "chf");
                push_str(&mut aliases, "francs");
                proof {
                    assert(strs_view(aliases@) =~= spec_def(Currency::CHF).aliases);
                }
                CurrencyDef {
                    currency: Currency::CHF,
                    symbol: String::from_str("CHF"),
                    code: String::from_str("CHF"),
                    aliases,
                    symbol_after: false,
                    is_crypto: false,
                    coingecko_id: None,
                }
            },
            Currency::CNY => {
                push_str(&mut aliases, "cny");
                push_str(&mut aliases, "rmb");
                push_str(&mut aliases, "yuan");
                proof {
                    assert(strs_view(aliases@) =~= spec_def(Currency::CNY).aliases);
                }
                CurrencyDef {
                    currency: Currency::CNY,
                    symbol: String::from_str("¥"),
                    code: String::from_str("CNY"),
                    aliases,
                    symbol_after: false,
                    is_crypto: false,
                    coingecko_id: None,
                }
            },
            Currency::CAD => {
                push_str(&mut aliases, "cad");
                proof {
                    assert(strs_view(aliases@) =~= spec_def(Currency::CAD).aliases);
                }
                CurrencyDef {
                    currency: Currency::CAD,
                    symbol: String::from_str("C$"),
                    code: String::from_str("CAD"),
                    aliases,
                    symbol_after: false,
                    is_crypto: false,
                    coingecko_id: None,
                }
            },
            Currency::AUD => {
                push_str(&mut aliases, "aud");
                proof {
                    assert(strs_view(aliases@) =~= spec_def(Currency::AUD).aliases);
                }
                CurrencyDef {
                    currency: Currency::AUD,
                    symbol: String::from_str("A$"),
                    code: String::from_str("AUD"),
                    aliases,
                    symbol_after: false,
                    is_crypto: false,
                    coingecko_id: None,
                }
            },
            Currency::INR => {
                push_str(&mut aliases, "₹");
                push_str(&mut aliases, "inr");
                push_str(&mut aliases, "rupees");
                proof {
                    assert(strs_view(aliases@) =~= spec_def(Currency::INR).aliases);
                }
                CurrencyDef {
                    currency: Currency::INR,
                    symbol: String::from_str("₹"),
                    code: String::from_str("INR"),
                    aliases,
                    symbol_after: false,
                    is_crypto: false,
                    coingecko_id: None,
                }
            },
            Currency::KRW => {
                push_str(&mut aliases, "₩");
                push_str(&mut aliases, "krw");
                push_str(&mut aliases, "won");
                proof {
                    assert(strs_view(aliases@) =~= spec_def(Currency::KRW).aliases);
                }
                CurrencyDef {
                    currency: Currency::KRW,
                    symbol: String::from_str("₩"),
                    code: String::from_str("KRW"),
                    aliases,
                    symbol_after: false,
                    is_crypto: false,
                    coingecko_id: None,
                }
            },
            Currency::RUB => {
                push_str(&mut aliases, "₽");
                push_str(&mut aliases, "rub");
                push_str(&mut aliases, "rubles");
                proof {
                    assert(strs_view(aliases@) =~= spec_def(Currency::RUB).aliases);
                }
                CurrencyDef {
                    currency: Currency::RUB,
                    symbol: String::from_str("₽"),
                    code: String::from_str("RUB"),
                    aliases,
                    symbol_after: true,
                    is_crypto: false,
                    coingecko_id: None,
                }
            },
            Currency::ILS => {
                push_str(&mut aliases, "₪");
                push_str(&mut aliases, "ils");
                push_str(&mut aliases, "shekels");
                proof {
                    assert(strs_view(aliases@) =~= spec_def(Currency::ILS).aliases);
                }
                CurrencyDef {
                    currency: Currency::ILS,
                    symbol: String::from_str("₪"),
                    code: String::from_str("ILS"),
                    aliases,
                    symbol_after: false,
                    is_crypto: false,
                    coingecko_id: None,
                }
            },
            Currency::PLN => {
                push_str(&mut aliases, "zł");
                push_str(&mut aliases, "pln");
                push_str(&mut aliases, "zloty");
                proof {
                    assert(strs_view(aliases@) =~= spec_def(Currency::PLN).aliases);
                }
                CurrencyDef {
                    currency: Currency::PLN,
                    symbol: String::from_str("zł"),
                    code: String::from_str("PLN"),
                    aliases,
                    symbol_after: true,
                    is_crypto: false,
                    coingecko_id: None,
                }
            },
            Currency::UAH => {
                push_str(&mut aliases, "₴");
                push_str(&mut aliases, "uah");
                push_str(&mut aliases, "hryvnia");
                proof {
                    assert(strs_view(aliases@) =~= spec_def(Currency::UAH).aliases);
                }
                CurrencyDef {
                    currency: Currency::UAH,
                    symbol: String::from_str("₴"),
                    code: String::from_str("UAH"),
                    aliases,
                    symbol_after: false,
                    is_crypto: false,
                    coingecko_id: None,
                }
            },
            Currency::BTC => {
                push_str(&mut aliases, "₿");
                push_str(&mut aliases, "btc");
                push_str(&mut aliases, "bitcoin");
                proof {
                    assert(strs_view(aliases@) =~= spec_def(Currency::BTC).aliases);
                }
                CurrencyDef {
                    currency: Currency::BTC,
                    symbol: String::from_str("₿"),
                    code: String::from_str("BTC"),
                    aliases,
                    symbol_after: false,
                    is_crypto: true,
                    coingecko_id: Some(String::from_str("bitcoin")),
                }
            },
            Currency::ETH => {
                push_str(&mut aliases, "Ξ");
                push_str(&mut aliases, "eth");
                push_str(&mut aliases, "ethereum");
                push_str(&mut aliases, "ether");
                proof {
                    assert(strs_view(aliases@) =~= spec_def(Currency::ETH).aliases);
                }
                CurrencyDef {
                    currency: Currency::ETH,
                    symbol: String::from_str("Ξ"),
                    code: String::from_str("ETH"),
                    aliases,
                    symbol_after: false,
                    is_crypto: true,
                    coingecko_id: Some(String::from_str("ethereum")),
                }
            },
            Currency::SOL => {
                push_str(&mut aliases, "◎");
                push_str(&mut aliases, "sol");
                push_str(&mut aliases, "solana");
                proof {
                    assert(strs_view(aliases@) =~= spec_def(Currency::SOL).aliases);
                }
                CurrencyDef {
                    currency: Currency::SOL,
                    symbol: String::from_str("◎"),
                    code: String::from_str("SOL"),
                    aliases,
                    symbol_after: false,
                    is_crypto: true,
                    coingecko_id: Some(String::from_str("solana")),
                }
            },
            Currency::USDT => {
                push_str(&mut aliases, "₮");
                push_str(&mut aliases, "usdt");
                push_str(&mut aliases, "tether");
                proof {
                    assert(strs_view(aliases@) =~= spec_def(Currency::USDT).aliases);
                }
                CurrencyDef {
                    currency: Currency::USDT,
                    symbol: String::from_str("₮"),
                    code: String::from_str("USDT"),
                    aliases,
                    symbol_after: false,
                    is_crypto: true,
                    coingecko_id: Some(String::from_str("tether")),
                }
            },
            Currency::USDC => {
                push_str(&mut aliases, "usdc");
                proof {
                    assert(strs_view(aliases@) =~= spec_def(Currency::USDC).aliases);
                }
                CurrencyDef {
                    currency: Currency::USDC,
                    symbol: String::from_str("USDC"),
                    code: String::from_str("USDC"),
                    aliases,
                    symbol_after: false,
                    is_crypto: true,
                    coingecko_id: Some(String::from_str("usd-coin")),
                }
            },
            Currency::BNB => {
                push_str(&mut aliases, "bnb");
                push_str(&mut aliases, "binance");
                proof {
                    assert(strs_view(aliases@) =~= spec_def(Currency::BNB).aliases);
                }
                CurrencyDef {
                    currency: Currency::BNB,
                    symbol: String::from_str("BNB"),
                    code: String::from_str("BNB"),
                    aliases,
                    symbol_after: false,
                    is_crypto: true,
                    coingecko_id: Some(String::from_str("binancecoin")),
                }
            },
            Currency::XRP => {
                push_str(&mut aliases, "xrp");
                push_str(&mut aliases, "ripple");
                proof {
                    assert(strs_view(aliases@) =~= spec_def(Currency::XRP).aliases);
                }
                CurrencyDef {
                    currency: Currency::XRP,
                    symbol: String::from_str("XRP"),
                    code: String::from_str("XRP"),
                    aliases,
                    symbol_after: false,
                    is_crypto: true,
                    coingecko_id: Some(String::from_str("ripple")),
                }
            },
            Currency::ADA => {
                push_str(&mut aliases, "₳");
                push_str(&mut aliases, "ada");
                push_str(&mut aliases, "cardano");
                proof {
                    assert(strs_view(aliases@) =~= spec_def(Currency::ADA).aliases);
                }
                CurrencyDef {
                    currency: Currency::ADA,
                    symbol: String::from_str("₳"),
                    code: String::from_str("ADA"),
                    aliases,
                    symbol_after: false,
                    is_crypto: true,
                    coingecko_id: Some(String::from_str("cardano")),
                }
            },
            Currency::DOGE => {
                push_str(&mut aliases, "Ð");
                push_str(&mut aliases, "doge");
                push_str(&mut aliases, "dogecoin");
                proof {
                    assert(strs_view(aliases@) =~= spec_def(Currency::DOGE).aliases);
                }
                CurrencyDef {
                    currency: Currency::DOGE,
                    symbol: String::from_str("Ð"),
                    code: String::from_str("DOGE"),
                    aliases,
                    symbol_after: false,
                    is_crypto: true,
                    coingecko_id: Some(String::from_str("dogecoin")),
                }
            },
            Currency::DOT => {
                push_str(&mut aliases, "dot");
                push_str(&mut aliases, "polkadot");
                proof {
                    assert(strs_view(aliases@) =~= spec_def(Currency::DOT).aliases);
                }
                CurrencyDef {
                    currency: Currency::DOT,
                    symbol: String::from_str("DOT"),
                    code: String::from_str("DOT"),
                    aliases,
                    symbol_after: false,
                    is_crypto: true,
                    coingecko_id: Some(String::from_str("polkadot")),
                }
            },
            Currency::LTC => {
                push_str(&mut aliases, "Ł");
                push_str(&mut aliases, "ltc");
                push_str(&mut aliases, "litecoin");
                proof {
                    assert(strs_view(aliases@) =~= spec_def(Currency::LTC).aliases);
                }
                CurrencyDef {
                    currency: Currency::LTC,
                    symbol: String::from_str("Ł"),
                    code: String::from_str("LTC"),
                    aliases,
                    symbol_after: false,
                    is_crypto: true,
                    coingecko_id: Some(String::from_str("litecoin")),
                }
            },
            Currency::LINK => {
                push_str(&mut aliases, "link");
                push_str(&mut aliases, "chainlink");
                proof {
                    assert(strs_view(aliases@) =~= spec_def(Currency::LINK).aliases);
                }
                CurrencyDef {
                    currency: Currency::LINK,
                    symbol: String::from_str("LINK"),
                    code: String::from_str("LINK"),
                    aliases,
                    symbol_after: false,
                    is_crypto: true,
                    coingecko_id: Some(String::from_str("chainlink")),
                }
            },
            Currency::AVAX => {
                push_str(&mut aliases, "avax");
                push_str(&mut aliases, "avalanche");
                proof {
                    assert(strs_view(aliases@) =~= spec_def(Currency::AVAX).aliases);
                }
                CurrencyDef {
                    currency: Currency::AVAX,
                    symbol: String::from_str("AVAX"),
                    code: String::from_str("AVAX"),
                    aliases,
                    symbol_after: false,
                    is_crypto: true,
                    coingecko_id: Some(String::from_str("avalanche-2")),
                }
            },
            Currency::MATIC => {
                push_str(&mut aliases, "matic");
                push_str(&mut aliases, "polygon");
                proof {
                    assert(strs_view(aliases@) =~= spec_def(Currency::MATIC).aliases);
                }
                CurrencyDef {
                    currency: Currency::MATIC,
                    symbol: String::from_str("MATIC"),
                    code: String::from_str("MATIC"),
                    aliases,
                    symbol_after: false,
                    is_crypto: true,
                    coingecko_id: Some(String::from_str("polygon-ecosystem-token")),
                }
            },
            Currency::TON => {
                push_str(&mut aliases, "ton");
                push_str(&mut aliases, "toncoin");
                proof {
                    assert(strs_view(aliases@) =~= spec_def(Currency::TON).aliases);
                }
                CurrencyDef {
                    currency: Currency::TON,
                    symbol: String::from_str("TON"),
                    code: String::from_str("TON"),
                    aliases,
                    symbol_after: false,
                    is_crypto: true,
                    coingecko_id: Some(String::from_str("the-open-network")),
                }
            },
        }
    }

    /// The display symbol.
    pub fn symbol(&self) -> (r: String)
        ensures
            r@ == spec_def(*self).symbol,
    {
        self.def().symbol
    }

    /// The ISO 4217 code.
    pub fn code(&self) -> (r: String)
        ensures
            r@ == spec_def(*self).code,
    {
        self.def().code
    }

    /// True iff the symbol stands after the amount.
    pub fn symbol_after(&self) -> (r: bool)
        ensures
            r == spec_def(*self).symbol_after,
    {
        self.def().symbol_after
    }

    /// True iff this is a cryptocurrency.
    pub fn is_crypto(&self) -> (r: bool)
        ensures
            r == spec_def(*self).is_crypto,
    {
        self.def().is_crypto
    }

    /// The identifier under which a price service lists this currency.
    pub fn coingecko_id(&self) -> (r: Option<String>)
        ensures
            (r is Some) == (spec_def(*self).coingecko_id is Some),
            r matches Some(g) ==> spec_def(*self).coingecko_id matches Some(h) && g@ == h,
    {
        self.def().coingecko_id
    }

    /// Every currency, in registry order.
    pub fn all() -> (r: Vec<Currency>)
        ensures
            r@ == spec_table(),
    {
        let mut v: Vec<Currency> = Vec::new();
        v.push(Currency::USD);
        v.push(Currency::EUR);
        v.push(Currency::GBP);
        v.push(Currency::JPY);
        v.push(Currency::CHF);
        v.push(Currency::CNY);
        v.push(Currency::CAD);
        v.push(Currency::AUD);
        v.push(Currency::INR);
        v.push(Currency::KRW);
        v.push(Currency::RUB);
        v.push(Currency::ILS);
        v.push(Currency::PLN);
        v.push(Currency::UAH);
        v.push(Currency::BTC);
        v.push(Currency::ETH);
        v.push(Currency::SOL);
        v.push(Currency::USDT);
        v.push(Currency::USDC);
        v.push(Currency::BNB);
        v.push(Currency::XRP);
        v.push(Currency::ADA);
        v.push(Currency::DOGE);
        v.push(Currency::DOT);
        v.push(Currency::LTC);
        v.push(Currency::LINK);
        v.push(Currency::AVAX);
        v.push(Currency::MATIC);
        v.push(Currency::TON);
        proof {
            assert(v@ =~= spec_table());
        }
        v
    }

    /// Every display symbol, in registry order.
    pub fn all_symbols() -> (r: Vec<String>)
        ensures
            strs_view(r@) == spec_table().map_values(|c: Currency| spec_def(c).symbol),
    {
        let cs = Currency::all();
        let mut v: Vec<String> = Vec::new();
        let mut i: usize = 0;
        while i < cs.len()
            invariant
                i <= cs@.len(),
                cs@ == spec_table(),
                v@.len() == i,
                forall|j: int| 0 <= j < i ==> v@[j]@ == spec_def(spec_table()[j]).symbol,
            decreases cs@.len() - i,
        {
            v.push(cs[i].def().symbol);
            i = i + 1;
        }
        proof {
            assert(strs_view(v@) =~= spec_table().map_values(|c: Currency| spec_def(c).symbol));
        }
        v
    }

    /// Every ISO code, in registry order.
    pub fn all_codes() -> (r: Vec<String>)
        ensures
            strs_view(r@) == spec_table().map_values(|c: Currency| spec_def(c).code),
    {
        let cs = Currency::all();
        let mut v: Vec<String> = Vec::new();
        let mut i: usize = 0;
        while i < cs.len()
            invariant
                i <= cs@.len(),
                cs@ == spec_table(),
                v@.len() == i,
                forall|j: int| 0 <= j < i ==> v@[j]@ == spec_def(spec_table()[j]).code,
            decreases cs@.len() - i,
        {
            v.push(cs[i].def().code);
            i = i + 1;
        }
        proof {
            assert(strs_view(v@) =~= spec_table().map_values(|c: Currency| spec_def(c).code));
        }
        v
    }

    /// Every parse alias of every currency, in registry order.
    #[verifier::loop_isolation(false)]
    pub fn all_aliases() -> (r: Vec<String>)
        ensures
            r@.len() >= spec_table().len(),
    {
        let cs = Currency::all();
        let mut v: Vec<String> = Vec::new();
        let mut i: usize = 0;
        while i < cs.len()
            invariant
                i <= cs@.len(),
                cs@ == spec_table(),
                v@.len() >= i,
            decreases cs@.len() - i,
        {
            let mut d = cs[i].def();
            proof {
                assert(spec_def(cs@[i as int]).aliases.len() >= 1);
            }
            let mut j: usize = 0;
            let na = d.aliases.len();
            while j < na
                invariant
                    j <= na,
                    na == d.aliases@.len(),
                    v@.len() >= i + if j > 0 { 1int } else { 0int },
                decreases na - j,
            {
                let a = d.aliases[j].clone();
                v.push(a);
                j = j + 1;
            }
            i = i + 1;
        }
        v
    }

    /// True iff token `s` names currency `c`: its symbol exactly, its code
    /// up to ASCII case, or one of its aliases exactly or after ASCII
    /// case folding of the token.
    pub open spec fn spec_matches(c: Currency, s: Seq<char>) -> bool {
        ||| spec_def(c).symbol == s
        ||| spec_lower(spec_def(c).code) == spec_lower(s)
        ||| (exists|i: int|
            0 <= i < spec_def(c).aliases.len() && (spec_def(c).aliases[i] == spec_lower(s)
                || spec_def(c).aliases[i] == s))
    }

    /// The first currency in table order that the token names.
    pub open spec fn spec_parse_from(s: Seq<char>, i: int) -> Option<Currency>
        decreases spec_table().len() - i,
    {
        if i < 0 || i >= spec_table().len() {
            None
        } else if Currency::spec_matches(spec_table()[i], s) {
            Some(spec_table()[i])
        } else {
            Currency::spec_parse_from(s, i + 1)
        }
    }

    /// What parsing a token yields.
    pub open spec fn spec_parse(s: Seq<char>) -> Option<Currency> {
        Currency::spec_parse_from(s, 0)
    }

    /// Parse a currency from its symbol, code (any ASCII case) or an alias.
    pub fn parse(s: &str) -> (r: Option<Currency>)
        ensures
            r == Currency::spec_parse(s@),
    {
        let v = str_chars(s);
        Currency::parse_chars(v.as_slice())
    }

    /// Parse a currency token given as characters.
    #[verifier::loop_isolation(false)]
    pub fn parse_chars(v: &[char]) -> (r: Option<Currency>)
        ensures
            r == Currency::spec_parse(v@),
    {
        let lower = lower_chars(v);
        let cs = Currency::all();
        let mut i: usize = 0;
        while i < cs.len()
            invariant
                i <= cs@.len(),
                cs@ == spec_table(),
                lower@ == spec_lower(v@),
                Currency::spec_parse(v@) == Currency::spec_parse_from(v@, i as int),
            decreases cs@.len() - i,
        {
            let c = cs[i];
            let d = c.def();
            if chars_eq_str(v, d.symbol.as_str()) || chars_eq_str_nocase(v, d.code.as_str()) {
                proof {
                    assert(Currency::spec_matches(c, v@));
                    assert(Currency::spec_parse_from(v@, i as int) == Some(c));
                }
                return Some(c);
            }
            let mut j: usize = 0;
            let na = d.aliases.len();
            while j < na
                invariant
                    j <= na,
                    na == d.aliases@.len(),
                    lower@ == spec_lower(v@),
                    strs_view(d.aliases@) == spec_def(c).aliases,
                    forall|k: int|
                        0 <= k < j ==> !(spec_def(c).aliases[k] == spec_lower(v@) || spec_def(
                            c,
                        ).aliases[k] == v@),
                decreases na - j,
            {
                let a = &d.aliases[j];
                if chars_eq_str(lower.as_slice(), a.as_str()) || chars_eq_str(v, a.as_str()) {
                    proof {
                        assert(strs_view(d.aliases@)[j as int] == d.aliases@[j as int]@);
                        assert(spec_def(c).aliases[j as int] == spec_lower(v@) || spec_def(
                            c,
                        ).aliases[j as int] == v@);
                        assert(Currency::spec_matches(c, v@));
                        assert(Currency::spec_parse_from(v@, i as int) == Some(c));
                    }
                    return Some(c);
                }
                proof {
                    assert(strs_view(d.aliases@)[j as int] == d.aliases@[j as int]@);
                    assert(spec_def(c).aliases[j as int] == d.aliases@[j as int]@);
                }
                j = j + 1;
            }
            proof {
                assert(!Currency::spec_matches(c, v@));
            }
            i = i + 1;
        }
        None
    }
}

} // verus!
