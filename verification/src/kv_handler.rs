//! Backend adapter: the ordered store bound to the key codec, the record
//! codec and the cursor engine, implementing the three repository
//! capability traits.

use vstd::prelude::*;

use vstd::string::StringSliceAdditionalSpecFns;

use crate::asset::Asset;
use crate::codec::{dec_asset, dec_ticker, dec_txn, enc_asset, enc_quote, enc_ticker, enc_txn,
    spec_dec_quote, spec_dec_txn};
use crate::cursor::{scan_fwd, scan_rev, QuoteCursor, TransactionCursor};
use crate::data_handler::{kind_code, AssetHandler, DataError, DataType, QuoteHandler,
    TransactionHandler};
use crate::keys::{build_part_prefix, build_quote_key, build_txn_key, kind_quote,
    kind_transaction, part_prefix, quote_key, txn_key};
use crate::quote::{Quote, Ticker};
use crate::store::{lb_of, lemma_lb_props, lemma_ub_props, ub_of, KvStore};
use crate::transaction::Transaction;

verus! {

impl AssetHandler for KvStore {
    open spec fn entries(&self) -> Seq<(Seq<u8>, Seq<u8>)> {
        self.entry_views()
    }

    open spec fn inv(&self) -> bool {
        self.wf()
    }

    fn get_asset_by_name(&mut self, name: &str) -> (r: Result<Asset, DataError>) {
        let key = build_part_prefix(kind_code(DataType::Asset), name);
        match self.get(&key) {
            Some(v) => match dec_asset(&v) {
                Some(a) => Ok(a),
                None => Err(DataError::DataAccessFailure),
            },
            None => Err(DataError::NotFound),
        }
    }

    fn insert_asset(&mut self, asset: &Asset) -> (r: Result<(), DataError>) {
        let key = build_part_prefix(kind_code(DataType::Asset), asset.name.as_str());
        let value = enc_asset(asset);
        self.put(key, value);
        Ok(())
    }

    fn update_asset(&mut self, asset: &Asset) -> (r: Result<(), DataError>) {
        let key = build_part_prefix(kind_code(DataType::Asset), asset.name.as_str());
        let value = enc_asset(asset);
        self.put(key, value);
        Ok(())
    }

    fn delete_asset(&mut self, asset: &Asset) -> (r: Result<(), DataError>) {
        let key = build_part_prefix(kind_code(DataType::Asset), asset.name.as_str());
        self.delete(&key);
        Ok(())
    }

    fn insert_if_absent(&mut self, asset: &Asset) -> (inserted: bool) {
        let key = build_part_prefix(kind_code(DataType::Asset), asset.name.as_str());
        match self.get(&key) {
            Some(_) => false,
            None => {
                let value = enc_asset(asset);
                self.put(key, value);
                true
            },
        }
    }
}

impl QuoteHandler for KvStore {
    fn get_ticker_by_name(&mut self, name: &str) -> (r: Result<Ticker, DataError>) {
        let key = build_part_prefix(kind_code(DataType::Ticker), name);
        match self.get(&key) {
            Some(v) => match dec_ticker(&v) {
                Some(t) => Ok(t),
                None => Err(DataError::DataAccessFailure),
            },
            None => Err(DataError::NotFound),
        }
    }

    fn get_latest_quote(&mut self, ticker_name: &str) -> (r: Option<Quote>) {
        let prefix = build_part_prefix(kind_code(DataType::Quote), ticker_name);
        let anchor = build_quote_key(ticker_name, i64::MAX, i64::MAX);
        let pos = self.upper_bound(&anchor);
        proof {
            lemma_ub_props(self.entry_views(), anchor@);
        }
        let mut c = QuoteCursor::open(&*self, prefix, pos, false);
        c.next()
    }

    fn get_oldest_quote(&mut self, ticker_name: &str) -> (r: Option<Quote>) {
        let prefix = build_part_prefix(kind_code(DataType::Quote), ticker_name);
        let anchor = build_quote_key(ticker_name, i64::MIN, i64::MIN);
        let pos = self.lower_bound(&anchor);
        proof {
            lemma_lb_props(self.entry_views(), anchor@);
        }
        let mut c = QuoteCursor::open(&*self, prefix, pos, true);
        c.next()
    }

    fn insert_ticker(&mut self, ticker: &Ticker) -> (r: Result<(), DataError>) {
        let key = build_part_prefix(kind_code(DataType::Ticker), ticker.name.as_str());
        let value = enc_ticker(ticker);
        self.put(key, value);
        Ok(())
    }

    fn update_ticker(&mut self, ticker: &Ticker) -> (r: Result<(), DataError>) {
        let key = build_part_prefix(kind_code(DataType::Ticker), ticker.name.as_str());
        let value = enc_ticker(ticker);
        self.put(key, value);
        Ok(())
    }

    fn delete_ticker(&mut self, ticker: &Ticker) -> (r: Result<(), DataError>) {
        let key = build_part_prefix(kind_code(DataType::Ticker), ticker.name.as_str());
        self.delete(&key);
        Ok(())
    }

    fn insert_quote(&mut self, quote: &Quote) -> (r: Result<(), DataError>) {
        let seq_id: i64 = match quote.id {
            Some(i) => i,
            None => 0,
        };
        let key = build_quote_key(quote.ticker.as_str(), quote.time, seq_id);
        let value = enc_quote(quote);
        self.put(key, value);
        Ok(())
    }

    fn update_quote(&mut self, quote: &Quote) -> (r: Result<(), DataError>) {
        let seq_id: i64 = match quote.id {
            Some(i) => i,
            None => 0,
        };
        let key = build_quote_key(quote.ticker.as_str(), quote.time, seq_id);
        let value = enc_quote(quote);
        self.put(key, value);
        Ok(())
    }

    fn delete_quote(&mut self, quote: &Quote) -> (r: Result<(), DataError>) {
        let seq_id: i64 = match quote.id {
            Some(i) => i,
            None => 0,
        };
        let key = build_quote_key(quote.ticker.as_str(), quote.time, seq_id);
        self.delete(&key);
        Ok(())
    }
}

impl TransactionHandler for KvStore {
    fn get_transaction_by_id(&mut self, sort_prefix: &str, id: u128) -> (r: Result<
        Transaction,
        DataError,
    >) {
        let key = build_txn_key(sort_prefix, id);
        match self.get(&key) {
            Some(v) => match dec_txn(&v) {
                Some(t) => Ok(t),
                None => Err(DataError::DataAccessFailure),
            },
            None => Err(DataError::NotFound),
        }
    }

    fn get_latest_transaction(&mut self, sort_prefix: &str) -> (r: Option<Transaction>) {
        let prefix = build_part_prefix(kind_code(DataType::Transaction), sort_prefix);
        let anchor = build_txn_key(sort_prefix, u128::MAX);
        let pos = self.upper_bound(&anchor);
        proof {
            lemma_ub_props(self.entry_views(), anchor@);
        }
        let mut c = TransactionCursor::open(&*self, prefix, pos, false);
        c.next()
    }

    fn get_oldest_transaction(&mut self, sort_prefix: &str) -> (r: Option<Transaction>) {
        let prefix = build_part_prefix(kind_code(DataType::Transaction), sort_prefix);
        let anchor = build_txn_key(sort_prefix, 0);
        let pos = self.lower_bound(&anchor);
        proof {
            lemma_lb_props(self.entry_views(), anchor@);
        }
        let mut c = TransactionCursor::open(&*self, prefix, pos, true);
        c.next()
    }

    fn insert_transaction(&mut self, sort_prefix: &str, transaction: &Transaction) -> (r: Result<
        (),
        DataError,
    >) {
        let key = build_txn_key(sort_prefix, transaction.id);
        let value = enc_txn(transaction);
        self.put(key, value);
        Ok(())
    }

    fn update_transaction(&mut self, sort_prefix: &str, transaction: &Transaction) -> (r: Result<
        (),
        DataError,
    >) {
        let key = build_txn_key(sort_prefix, transaction.id);
        let value = enc_txn(transaction);
        self.put(key, value);
        Ok(())
    }

    fn delete_transaction(&mut self, sort_prefix: &str, transaction: &Transaction) -> (r: Result<
        (),
        DataError,
    >) {
        let key = build_txn_key(sort_prefix, transaction.id);
        self.delete(&key);
        Ok(())
    }
}

impl KvStore {
    /// Opens a lazy forward cursor over one ticker's quotes, anchored
    /// inclusively at `time`: it yields the decodable quotes with order key
    /// at or after `(time, least sequence id)`, in ascending key order, up
    /// to the end of the partition.
    pub fn quote_cursor_forward<'a>(&'a self, ticker_name: &str, time: i64) -> (c: QuoteCursor<
        'a,
    >)
        requires
            self.wf(),
        ensures
            c.wf(),
            c.remaining() == scan_fwd(
                self.entry_views(),
                part_prefix(kind_quote(), ticker_name.spec_bytes()),
                |v: Seq<u8>| spec_dec_quote(v),
                lb_of(self.entry_views(), quote_key(ticker_name.spec_bytes(), time, i64::MIN)),
            ),
    {
        let prefix = build_part_prefix(kind_code(DataType::Quote), ticker_name);
        let anchor = build_quote_key(ticker_name, time, i64::MIN);
        let pos = self.lower_bound(&anchor);
        proof {
            lemma_lb_props(self.entry_views(), anchor@);
        }
        QuoteCursor::open(self, prefix, pos, true)
    }

    /// Opens a lazy reverse cursor over one ticker's quotes, anchored
    /// inclusively at `time`: it yields the decodable quotes with order key
    /// at or below `(time, greatest sequence id)`, in descending key order,
    /// down to the start of the partition.
    pub fn quote_cursor_reverse<'a>(&'a self, ticker_name: &str, time: i64) -> (c: QuoteCursor<
        'a,
    >)
        requires
            self.wf(),
        ensures
            c.wf(),
            c.remaining() == scan_rev(
                self.entry_views(),
                part_prefix(kind_quote(), ticker_name.spec_bytes()),
                |v: Seq<u8>| spec_dec_quote(v),
                ub_of(self.entry_views(), quote_key(ticker_name.spec_bytes(), time, i64::MAX)),
            ),
    {
        let prefix = build_part_prefix(kind_code(DataType::Quote), ticker_name);
        let anchor = build_quote_key(ticker_name, time, i64::MAX);
        let pos = self.upper_bound(&anchor);
        proof {
            lemma_ub_props(self.entry_views(), anchor@);
        }
        QuoteCursor::open(self, prefix, pos, false)
    }

    /// Opens a lazy forward cursor over one partition's transactions,
    /// anchored inclusively at `from_id`.
    pub fn transaction_cursor_forward<'a>(&'a self, sort_prefix: &str, from_id: u128) -> (c:
        TransactionCursor<'a>)
        requires
            self.wf(),
        ensures
            c.wf(),
            c.remaining() == scan_fwd(
                self.entry_views(),
                part_prefix(kind_transaction(), sort_prefix.spec_bytes()),
                |v: Seq<u8>| spec_dec_txn(v),
                lb_of(self.entry_views(), txn_key(sort_prefix.spec_bytes(), from_id)),
            ),
    {
        let prefix = build_part_prefix(kind_code(DataType::Transaction), sort_prefix);
        let anchor = build_txn_key(sort_prefix, from_id);
        let pos = self.lower_bound(&anchor);
        proof {
            lemma_lb_props(self.entry_views(), anchor@);
        }
        TransactionCursor::open(self, prefix, pos, true)
    }

    /// Opens a lazy reverse cursor over one partition's transactions,
    /// anchored inclusively at `from_id`.
    pub fn transaction_cursor_reverse<'a>(&'a self, sort_prefix: &str, from_id: u128) -> (c:
        TransactionCursor<'a>)
        requires
            self.wf(),
        ensures
            c.wf(),
            c.remaining() == scan_rev(
                self.entry_views(),
                part_prefix(kind_transaction(), sort_prefix.spec_bytes()),
                |v: Seq<u8>| spec_dec_txn(v),
                ub_of(self.entry_views(), txn_key(sort_prefix.spec_bytes(), from_id)),
            ),
    {
        let prefix = build_part_prefix(kind_code(DataType::Transaction), sort_prefix);
        let anchor = build_txn_key(sort_prefix, from_id);
        let pos = self.upper_bound(&anchor);
        proof {
            lemma_ub_props(self.entry_views(), anchor@);
        }
        TransactionCursor::open(self, prefix, pos, false)
    }
}

} // verus!
