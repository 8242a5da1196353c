//! Container for basic asset data.

use vstd::prelude::*;

verus! {

/// A named grouping of assets.
#[derive(Debug, Clone)]
pub struct AssetCategory {
    /// Numeric id, assigned by a handler.
    pub id: usize,
    pub name: String,
}

/// Basic data of an asset: a unique name, optional identifiers, and an
/// optional note.
#[derive(Debug, Clone)]
pub struct Asset {
    pub name: String,
    pub wkn: Option<String>,
    pub isin: Option<String>,
    pub note: Option<String>,
}

/// Mathematical value of an [`Asset`].
pub struct AssetV {
    pub name: Seq<char>,
    pub wkn: Option<Seq<char>>,
    pub isin: Option<Seq<char>>,
    pub note: Option<Seq<char>>,
}

impl View for Asset {
    type V = AssetV;

    open spec fn view(&self) -> AssetV {
        AssetV {
            name: self.name@,
            wkn: match self.wkn {
                Some(s) => Some(s@),
                None => None,
            },
            isin: match self.isin {
                Some(s) => Some(s@),
                None => None,
            },
            note: match self.note {
                Some(s) => Some(s@),
                None => None,
            },
        }
    }
}

impl Asset {
    /// Builds an asset from its fields.
    pub fn new(name: &str, wkn: Option<String>, isin: Option<String>, note: Option<String>) -> (r:
        Asset)
        ensures
            r@.name == name@,
            r@.wkn == (match wkn {
                Some(s) => Some(s@),
                None => None::<Seq<char>>,
            }),
            r@.isin == (match isin {
                Some(s) => Some(s@),
                None => None::<Seq<char>>,
            }),
            r@.note == (match note {
                Some(s) => Some(s@),
                None => None::<Seq<char>>,
            }),
    {
        Asset { name: name.to_owned(), wkn, isin, note }
    }
}

} // verus!
