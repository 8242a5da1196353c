//! Containers for price tickers and their time-stamped quotes.

use vstd::prelude::*;

use crate::fiat::Currency;

verus! {

/// A price source for an asset.  The price factor is a fixed-point scale in
/// millionths applied to raw quotes.
#[derive(Debug, Clone)]
pub struct Ticker {
    pub name: String,
    /// Name of the underlying asset.
    pub asset: String,
    pub currency: Currency,
    pub priority: i32,
    /// Fixed-point price factor, in millionths.
    pub factor: i64,
}

/// Mathematical value of a [`Ticker`].
pub struct TickerV {
    pub name: Seq<char>,
    pub asset: Seq<char>,
    pub currency: Currency,
    pub priority: i32,
    pub factor: i64,
}

impl View for Ticker {
    type V = TickerV;

    open spec fn view(&self) -> TickerV {
        TickerV {
            name: self.name@,
            asset: self.asset@,
            currency: self.currency,
            priority: self.priority,
            factor: self.factor,
        }
    }
}

/// A single time-stamped quote of a ticker.  Price and volume are
/// fixed-point integers; the timestamp counts nanoseconds since the Unix
/// epoch.
#[derive(Debug, Clone)]
pub struct Quote {
    /// Sequence id, disambiguating quotes at one instant.
    pub id: Option<i64>,
    pub ticker: String,
    /// Fixed-point price, in millionths of the ticker's currency unit.
    pub price: i64,
    /// Nanoseconds since the Unix epoch.
    pub time: i64,
    /// Fixed-point traded volume, in millionths.
    pub volume: Option<i64>,
}

/// Mathematical value of a [`Quote`].
pub struct QuoteV {
    pub id: Option<i64>,
    pub ticker: Seq<char>,
    pub price: i64,
    pub time: i64,
    pub volume: Option<i64>,
}

impl View for Quote {
    type V = QuoteV;

    open spec fn view(&self) -> QuoteV {
        QuoteV {
            id: self.id,
            ticker: self.ticker@,
            price: self.price,
            time: self.time,
            volume: self.volume,
        }
    }
}

impl QuoteV {
    /// The disambiguating sequence id a quote is keyed under: an absent id
    /// is stored as zero.
    pub open spec fn seq_id(self) -> i64 {
        match self.id {
            Some(i) => i,
            None => 0,
        }
    }
}

} // verus!
