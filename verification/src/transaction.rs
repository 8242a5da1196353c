//! Ledger transactions: kinds, containers, and id assignment.

use vstd::prelude::*;

use crate::data_handler::DataError;
use crate::fiat::CashFlow;

verus! {

/// Type of a transaction.  Positions are fixed-point integers in
/// millionths.
#[derive(Debug, Clone)]
pub enum TransactionType {
    Cash,
    Asset { asset_name: String, position: i64 },
    Dividend { asset_name: String },
    Interest { asset_name: String },
    Tax { transaction_ref: Option<u128> },
    Fee { transaction_ref: Option<u128> },
}

/// Mathematical value of a [`TransactionType`].
pub enum TransactionTypeV {
    Cash,
    Asset { asset_name: Seq<char>, position: i64 },
    Dividend { asset_name: Seq<char> },
    Interest { asset_name: Seq<char> },
    Tax { transaction_ref: Option<u128> },
    Fee { transaction_ref: Option<u128> },
}

impl View for TransactionType {
    type V = TransactionTypeV;

    open spec fn view(&self) -> TransactionTypeV {
        match self {
            TransactionType::Cash => TransactionTypeV::Cash,
            TransactionType::Asset { asset_name, position } => TransactionTypeV::Asset {
                asset_name: asset_name@,
                position: *position,
            },
            TransactionType::Dividend { asset_name } => TransactionTypeV::Dividend {
                asset_name: asset_name@,
            },
            TransactionType::Interest { asset_name } => TransactionTypeV::Interest {
                asset_name: asset_name@,
            },
            TransactionType::Tax { transaction_ref } => TransactionTypeV::Tax {
                transaction_ref: *transaction_ref,
            },
            TransactionType::Fee { transaction_ref } => TransactionTypeV::Fee {
                transaction_ref: *transaction_ref,
            },
        }
    }
}

/// Basic transaction data.  The 128-bit id is time-derived and globally
/// unique under single-writer use.
#[derive(Debug, Clone)]
pub struct Transaction {
    pub id: u128,
    pub transaction_type: TransactionType,
    pub cash_flow: CashFlow,
    pub note: Option<String>,
}

/// Mathematical value of a [`Transaction`].
pub struct TransactionV {
    pub id: u128,
    pub transaction_type: TransactionTypeV,
    pub cash_flow: CashFlow,
    pub note: Option<Seq<char>>,
}

impl View for Transaction {
    type V = TransactionV;

    open spec fn view(&self) -> TransactionV {
        TransactionV {
            id: self.id,
            transaction_type: self.transaction_type@,
            cash_flow: self.cash_flow,
            note: match self.note {
                Some(s) => Some(s@),
                None => None,
            },
        }
    }
}

/// Relies on `std::time::SystemTime::now` and `duration_since`: the
/// nanoseconds since the Unix epoch, or `None` when the clock reads a time
/// before the epoch.
#[verifier::external_body]
fn now_unix_nanos() -> (r: Option<u128>)
{
    match std::time::SystemTime::now().duration_since(std::time::UNIX_EPOCH) {
        Ok(d) => Some(d.as_nanos()),
        Err(_) => None,
    }
}

impl Transaction {
    /// Builds a transaction around a drawn clock reading: the id is
    /// exactly the given nanosecond count, and every other field is the
    /// one handed in.  Under a single writer with a monotone clock,
    /// successive readings give increasing ids.
    pub fn from_clock_nanos(
        nanos: u128,
        transaction_type: TransactionType,
        cash_flow: CashFlow,
        note: Option<String>,
    ) -> (t: Transaction)
        ensures
            t@.id == nanos,
            t@.transaction_type == transaction_type@,
            t@.cash_flow == cash_flow,
            t@.note == (match note {
                Some(s) => Some(s@),
                None => None::<Seq<char>>,
            }),
    {
        Transaction { id: nanos, transaction_type, cash_flow, note }
    }

    /// Builds a transaction with a fresh time-derived id: the clock's
    /// nanoseconds since the Unix epoch, handed to
    /// [`Transaction::from_clock_nanos`].  Fails only when the system
    /// clock reads a time before the Unix epoch, from which no safe id can
    /// be derived.
    pub fn new(
        transaction_type: TransactionType,
        cash_flow: CashFlow,
        note: Option<String>,
    ) -> (r: Result<Transaction, DataError>)
        ensures
            r matches Ok(t) ==> t@.transaction_type == transaction_type@ && t@.cash_flow
                == cash_flow && t@.note == (match note {
                Some(s) => Some(s@),
                None => None::<Seq<char>>,
            }),
            r matches Err(e) ==> e == DataError::InvalidTransaction,
    {
        match now_unix_nanos() {
            Some(nanos) => Ok(
                Transaction::from_clock_nanos(nanos, transaction_type, cash_flow, note),
            ),
            None => Err(DataError::InvalidTransaction),
        }
    }

    /// Assigns or changes the transaction's asset name, where the kind
    /// carries one; other kinds are left unchanged.
    pub fn set_asset_name(&mut self, asset_name: String)
        ensures
            final(self).id == old(self).id && final(self).cash_flow == old(self).cash_flow
                && final(self)@.note == old(self)@.note,
            match old(self).transaction_type@ {
                TransactionTypeV::Asset { asset_name: _, position } => final(self).transaction_type@
                    == (TransactionTypeV::Asset { asset_name: asset_name@, position }),
                TransactionTypeV::Dividend { asset_name: _ } => final(self).transaction_type@
                    == (TransactionTypeV::Dividend { asset_name: asset_name@ }),
                TransactionTypeV::Interest { asset_name: _ } => final(self).transaction_type@
                    == (TransactionTypeV::Interest { asset_name: asset_name@ }),
                _ => final(self).transaction_type@ == old(self).transaction_type@,
            },
    {
        let new_type = match &self.transaction_type {
            TransactionType::Asset { asset_name: _, position } => TransactionType::Asset {
                asset_name,
                position: *position,
            },
            TransactionType::Dividend { asset_name: _ } => TransactionType::Dividend {
                asset_name,
            },
            TransactionType::Interest { asset_name: _ } => TransactionType::Interest {
                asset_name,
            },
            _ => {
                return ;
            },
        };
        self.transaction_type = new_type;
    }

    /// Assigns a new transaction back-reference, where the kind carries
    /// one; other kinds are left unchanged.
    pub fn set_transaction_ref(&mut self, trans_ref: u128)
        ensures
            final(self).id == old(self).id && final(self).cash_flow == old(self).cash_flow
                && final(self)@.note == old(self)@.note,
            match old(self).transaction_type@ {
                TransactionTypeV::Tax { transaction_ref: _ } => final(self).transaction_type@
                    == (TransactionTypeV::Tax { transaction_ref: Some(trans_ref) }),
                TransactionTypeV::Fee { transaction_ref: _ } => final(self).transaction_type@
                    == (TransactionTypeV::Fee { transaction_ref: Some(trans_ref) }),
                _ => final(self).transaction_type@ == old(self).transaction_type@,
            },
    {
        let new_type = match &self.transaction_type {
            TransactionType::Tax { transaction_ref: _ } => TransactionType::Tax {
                transaction_ref: Some(trans_ref),
            },
            TransactionType::Fee { transaction_ref: _ } => TransactionType::Fee {
                transaction_ref: Some(trans_ref),
            },
            _ => {
                return ;
            },
        };
        self.transaction_type = new_type;
    }
}

} // verus!
