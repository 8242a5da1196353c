//! Data-handler vocabulary: record kinds, the error taxonomy, and the
//! capability traits a storage backend implements.

use vstd::prelude::*;

use vstd::string::StringSliceAdditionalSpecFns;
use vstd::utf8::encode_utf8;

use crate::asset::Asset;
use crate::codec::{spec_dec_asset, spec_dec_quote, spec_dec_ticker, spec_dec_txn, spec_enc_asset,
    spec_enc_quote, spec_enc_ticker, spec_enc_txn};
use crate::cursor::{scan_fwd, scan_rev};
use crate::keys::{kind_asset, kind_quote, kind_ticker, kind_transaction, part_prefix, point_key,
    quote_key, txn_key};
use crate::quote::{Quote, Ticker};
use crate::store::{find_key, lb_of, spec_delete, spec_put, ub_of};
use crate::transaction::Transaction;

verus! {

/// The closed enumeration of record kinds a key can refer to.
#[derive(Debug, Clone, Copy, PartialEq, Eq, Structural)]
pub enum DataType {
    Asset,
    Quote,
    Ticker,
    Transaction,
}

/// The kind discriminant byte that leads every key of this kind.
pub open spec fn spec_kind_code(t: DataType) -> u8 {
    match t {
        DataType::Asset => 0,
        DataType::Quote => 1,
        DataType::Ticker => 2,
        DataType::Transaction => 3,
    }
}

/// Renders a record kind as its key discriminant byte.
pub fn kind_code(t: DataType) -> (b: u8)
    ensures
        b == spec_kind_code(t),
{
    match t {
        DataType::Asset => 0,
        DataType::Quote => 1,
        DataType::Ticker => 2,
        DataType::Transaction => 3,
    }
}

/// Error taxonomy of the persistence layer.
#[derive(Debug, Clone, Copy, PartialEq, Eq, Structural)]
pub enum DataError {
    DataAccessFailure,
    NotFound,
    UpdateFailed,
    DeleteFailed,
    InsertFailed,
    InvalidTransaction,
}

/// Items that carry a numeric id assigned by a handler.
pub trait DataItem {
    /// Get the id, or an error if no id has been set yet.
    fn get_id(&self) -> Result<usize, DataError>;

    /// Set the id, or return an error if an id has already been set.
    fn set_id(&mut self, id: usize) -> Result<(), DataError>;
}

/// Capability contract for asset storage: point CRUD on assets keyed by
/// name, with upsert semantics.  `entries` is the backend's sorted key
/// listing and `inv` its well-formedness; every operation's effect is
/// stated against them.
pub trait AssetHandler: Sized {
    /// The backend's sorted listing of stored `(key, value)` pairs.
    spec fn entries(&self) -> Seq<(Seq<u8>, Seq<u8>)>;

    /// The backend's well-formedness.
    spec fn inv(&self) -> bool;

    /// Looks up the asset stored under `name`: `NotFound` exactly when no
    /// record is stored there, `DataAccessFailure` exactly when the stored
    /// value does not decode.
    fn get_asset_by_name(&mut self, name: &str) -> (r: Result<Asset, DataError>)
        requires
            old(self).inv(),
        ensures
            final(self).inv(),
            final(self).entries() == old(self).entries(),
            ({
                let es = old(self).entries();
                let f = find_key(es, point_key(kind_asset(), name.spec_bytes()));
                &&& (r matches Ok(a) ==> f < es.len() && spec_dec_asset(es[f].1) == Some(a@))
                &&& (f < es.len() && spec_dec_asset(es[f].1) is Some ==> r is Ok)
                &&& (r == Err::<Asset, DataError>(DataError::NotFound) <==> f == es.len())
                &&& (r == Err::<Asset, DataError>(DataError::DataAccessFailure) <==> f < es.len()
                    && spec_dec_asset(es[f].1) is None)
            }),
    ;

    /// Stores the asset under its name, overwriting any previous record of
    /// that name.
    fn insert_asset(&mut self, asset: &Asset) -> (r: Result<(), DataError>)
        requires
            old(self).inv(),
        ensures
            final(self).inv(),
            r is Ok,
            final(self).entries() == spec_put(
                old(self).entries(),
                point_key(kind_asset(), encode_utf8(asset@.name)),
                spec_enc_asset(asset@),
            ),
    ;

    /// Replaces the record stored under the asset's name; one full
    /// overwrite, no partial patch.
    fn update_asset(&mut self, asset: &Asset) -> (r: Result<(), DataError>)
        requires
            old(self).inv(),
        ensures
            final(self).inv(),
            r is Ok,
            final(self).entries() == spec_put(
                old(self).entries(),
                point_key(kind_asset(), encode_utf8(asset@.name)),
                spec_enc_asset(asset@),
            ),
    ;

    /// Deletes the record stored under the asset's name, if any.
    fn delete_asset(&mut self, asset: &Asset) -> (r: Result<(), DataError>)
        requires
            old(self).inv(),
        ensures
            final(self).inv(),
            r is Ok,
            final(self).entries() == spec_delete(
                old(self).entries(),
                point_key(kind_asset(), encode_utf8(asset@.name)),
            ),
    ;

    /// Stores the asset only when no record of its name exists yet;
    /// reports whether it inserted.
    fn insert_if_absent(&mut self, asset: &Asset) -> (inserted: bool)
        requires
            old(self).inv(),
        ensures
            final(self).inv(),
            ({
                let es = old(self).entries();
                let k = point_key(kind_asset(), encode_utf8(asset@.name));
                &&& inserted == (find_key(es, k) == es.len())
                &&& (inserted ==> final(self).entries() == spec_put(
                    es,
                    k,
                    spec_enc_asset(asset@),
                ))
                &&& (!inserted ==> final(self).entries() == es)
            }),
    ;
}

/// Capability contract for market-quote storage: ticker CRUD, quote CRUD,
/// and latest/oldest queries, over the same backend as the assets.
pub trait QuoteHandler: AssetHandler {
    /// Looks up the ticker stored under `name`.
    fn get_ticker_by_name(&mut self, name: &str) -> (r: Result<Ticker, DataError>)
        requires
            old(self).inv(),
        ensures
            final(self).inv(),
            final(self).entries() == old(self).entries(),
            ({
                let es = old(self).entries();
                let f = find_key(es, point_key(kind_ticker(), name.spec_bytes()));
                &&& (r matches Ok(t) ==> f < es.len() && spec_dec_ticker(es[f].1) == Some(t@))
                &&& (f < es.len() && spec_dec_ticker(es[f].1) is Some ==> r is Ok)
                &&& (r == Err::<Ticker, DataError>(DataError::NotFound) <==> f == es.len())
                &&& (r == Err::<Ticker, DataError>(DataError::DataAccessFailure) <==> f < es.len()
                    && spec_dec_ticker(es[f].1) is None)
            }),
    ;

    /// The newest decodable quote of the ticker's partition: the first
    /// record of a reverse scan anchored at the partition's upper extreme,
    /// after verifying the partition prefix.
    fn get_latest_quote(&mut self, ticker_name: &str) -> (r: Option<Quote>)
        requires
            old(self).inv(),
        ensures
            final(self).inv(),
            final(self).entries() == old(self).entries(),
            ({
                let es = old(self).entries();
                let rv = scan_rev(
                    es,
                    part_prefix(kind_quote(), ticker_name.spec_bytes()),
                    |v: Seq<u8>| spec_dec_quote(v),
                    ub_of(es, quote_key(ticker_name.spec_bytes(), i64::MAX, i64::MAX)),
                );
                &&& (r matches Some(q) ==> rv.len() > 0 && q@ == rv[0])
                &&& (r is None ==> rv.len() == 0)
            }),
    ;

    /// The oldest decodable quote of the ticker's partition: the first
    /// record of a forward scan anchored at the partition's lower extreme.
    fn get_oldest_quote(&mut self, ticker_name: &str) -> (r: Option<Quote>)
        requires
            old(self).inv(),
        ensures
            final(self).inv(),
            final(self).entries() == old(self).entries(),
            ({
                let es = old(self).entries();
                let fv = scan_fwd(
                    es,
                    part_prefix(kind_quote(), ticker_name.spec_bytes()),
                    |v: Seq<u8>| spec_dec_quote(v),
                    lb_of(es, quote_key(ticker_name.spec_bytes(), i64::MIN, i64::MIN)),
                );
                &&& (r matches Some(q) ==> fv.len() > 0 && q@ == fv[0])
                &&& (r is None ==> fv.len() == 0)
            }),
    ;

    /// Stores the ticker under its name, overwriting any previous record.
    fn insert_ticker(&mut self, ticker: &Ticker) -> (r: Result<(), DataError>)
        requires
            old(self).inv(),
        ensures
            final(self).inv(),
            r is Ok,
            final(self).entries() == spec_put(
                old(self).entries(),
                point_key(kind_ticker(), encode_utf8(ticker@.name)),
                spec_enc_ticker(ticker@),
            ),
    ;

    /// Replaces the record stored under the ticker's name.
    fn update_ticker(&mut self, ticker: &Ticker) -> (r: Result<(), DataError>)
        requires
            old(self).inv(),
        ensures
            final(self).inv(),
            r is Ok,
            final(self).entries() == spec_put(
                old(self).entries(),
                point_key(kind_ticker(), encode_utf8(ticker@.name)),
                spec_enc_ticker(ticker@),
            ),
    ;

    /// Deletes the record stored under the ticker's name, if any.
    fn delete_ticker(&mut self, ticker: &Ticker) -> (r: Result<(), DataError>)
        requires
            old(self).inv(),
        ensures
            final(self).inv(),
            r is Ok,
            final(self).entries() == spec_delete(
                old(self).entries(),
                point_key(kind_ticker(), encode_utf8(ticker@.name)),
            ),
    ;

    /// Stores the quote under its ticker, timestamp and sequence id,
    /// overwriting any previous record of that exact key.
    fn insert_quote(&mut self, quote: &Quote) -> (r: Result<(), DataError>)
        requires
            old(self).inv(),
        ensures
            final(self).inv(),
            r is Ok,
            final(self).entries() == spec_put(
                old(self).entries(),
                quote_key(encode_utf8(quote@.ticker), quote@.time, quote@.seq_id()),
                spec_enc_quote(quote@),
            ),
    ;

    /// Replaces the record stored under the quote's key.
    fn update_quote(&mut self, quote: &Quote) -> (r: Result<(), DataError>)
        requires
            old(self).inv(),
        ensures
            final(self).inv(),
            r is Ok,
            final(self).entries() == spec_put(
                old(self).entries(),
                quote_key(encode_utf8(quote@.ticker), quote@.time, quote@.seq_id()),
                spec_enc_quote(quote@),
            ),
    ;

    /// Deletes the record stored under the quote's key, if any.
    fn delete_quote(&mut self, quote: &Quote) -> (r: Result<(), DataError>)
        requires
            old(self).inv(),
        ensures
            final(self).inv(),
            r is Ok,
            final(self).entries() == spec_delete(
                old(self).entries(),
                quote_key(encode_utf8(quote@.ticker), quote@.time, quote@.seq_id()),
            ),
    ;
}

/// Capability contract for ledger-transaction storage: CRUD keyed by
/// `(sort prefix, id)` and latest/oldest queries within a partition.
pub trait TransactionHandler: AssetHandler {
    /// Looks up the transaction stored under `(sort_prefix, id)`.
    fn get_transaction_by_id(&mut self, sort_prefix: &str, id: u128) -> (r: Result<
        Transaction,
        DataError,
    >)
        requires
            old(self).inv(),
        ensures
            final(self).inv(),
            final(self).entries() == old(self).entries(),
            ({
                let es = old(self).entries();
                let f = find_key(es, txn_key(sort_prefix.spec_bytes(), id));
                &&& (r matches Ok(t) ==> f < es.len() && spec_dec_txn(es[f].1) == Some(t@))
                &&& (f < es.len() && spec_dec_txn(es[f].1) is Some ==> r is Ok)
                &&& (r == Err::<Transaction, DataError>(DataError::NotFound) <==> f == es.len())
                &&& (r == Err::<Transaction, DataError>(DataError::DataAccessFailure) <==> f
                    < es.len() && spec_dec_txn(es[f].1) is None)
            }),
    ;

    /// The transaction with the greatest id in the partition that decodes:
    /// first record of a reverse scan from the partition's upper extreme.
    fn get_latest_transaction(&mut self, sort_prefix: &str) -> (r: Option<Transaction>)
        requires
            old(self).inv(),
        ensures
            final(self).inv(),
            final(self).entries() == old(self).entries(),
            ({
                let es = old(self).entries();
                let rv = scan_rev(
                    es,
                    part_prefix(kind_transaction(), sort_prefix.spec_bytes()),
                    |v: Seq<u8>| spec_dec_txn(v),
                    ub_of(es, txn_key(sort_prefix.spec_bytes(), u128::MAX)),
                );
                &&& (r matches Some(t) ==> rv.len() > 0 && t@ == rv[0])
                &&& (r is None ==> rv.len() == 0)
            }),
    ;

    /// The transaction with the least id in the partition that decodes:
    /// first record of a forward scan from the partition's lower extreme.
    fn get_oldest_transaction(&mut self, sort_prefix: &str) -> (r: Option<Transaction>)
        requires
            old(self).inv(),
        ensures
            final(self).inv(),
            final(self).entries() == old(self).entries(),
            ({
                let es = old(self).entries();
                let fv = scan_fwd(
                    es,
                    part_prefix(kind_transaction(), sort_prefix.spec_bytes()),
                    |v: Seq<u8>| spec_dec_txn(v),
                    lb_of(es, txn_key(sort_prefix.spec_bytes(), 0)),
                );
                &&& (r matches Some(t) ==> fv.len() > 0 && t@ == fv[0])
                &&& (r is None ==> fv.len() == 0)
            }),
    ;

    /// Stores the transaction under `(sort_prefix, id)`, overwriting any
    /// previous record of that key.
    fn insert_transaction(&mut self, sort_prefix: &str, transaction: &Transaction) -> (r: Result<
        (),
        DataError,
    >)
        requires
            old(self).inv(),
        ensures
            final(self).inv(),
            r is Ok,
            final(self).entries() == spec_put(
                old(self).entries(),
                txn_key(sort_prefix.spec_bytes(), transaction.id),
                spec_enc_txn(transaction@),
            ),
    ;

    /// Replaces the record stored under the transaction's key.
    fn update_transaction(&mut self, sort_prefix: &str, transaction: &Transaction) -> (r: Result<
        (),
        DataError,
    >)
        requires
            old(self).inv(),
        ensures
            final(self).inv(),
            r is Ok,
            final(self).entries() == spec_put(
                old(self).entries(),
                txn_key(sort_prefix.spec_bytes(), transaction.id),
                spec_enc_txn(transaction@),
            ),
    ;

    /// Deletes the record stored under the transaction's key, if any.
    fn delete_transaction(&mut self, sort_prefix: &str, transaction: &Transaction) -> (r: Result<
        (),
        DataError,
    >)
        requires
            old(self).inv(),
        ensures
            final(self).inv(),
            r is Ok,
            final(self).entries() == spec_delete(
                old(self).entries(),
                txn_key(sort_prefix.spec_bytes(), transaction.id),
            ),
    ;
}

} // verus!
