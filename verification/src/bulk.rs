//! Dataset resolution and the bulk-catalog facade.
//!
//! A logical dataset type is resolved against the provider's listing
//! response to the descriptor carrying its download location; the
//! decoded catalog is then held in memory and served by identifier
//! lookups. All network and file traffic happens outside; this module
//! decides, over plain values, what those callers fetch and keep.

use vstd::prelude::*;
use vstd::string::StringExecFns;

use crate::record::{DecodeError, Record, decode_line_spec, decode_lines, lookup_spec};
use crate::scryfall_structures::{
    ResolutionError, ScryfallBulkData, ScryfallResult, find_bulk_spec, resolve_spec,
};

verus! {

/// The closed set of logical dataset types the provider offers.
#[derive(Debug, Clone, Copy, PartialEq, Eq, Structural)]
pub enum BulkDownloadType {
    /// One entry per distinct card text.
    OracleCards,
    /// One entry per distinct artwork.
    UniqueArtwork,
    /// Every printing in the default language.
    DefaultCards,
    /// Every printing in every language.
    AllCards,
    /// The rulings dataset.
    Rulings,
}

impl BulkDownloadType {
    /// The `type` field value that marks this dataset in the listing.
    pub open spec fn type_str(self) -> Seq<char> {
        match self {
            BulkDownloadType::OracleCards => "oracle_cards"@,
            BulkDownloadType::UniqueArtwork => "unique_artwork"@,
            BulkDownloadType::DefaultCards => "default_cards"@,
            BulkDownloadType::AllCards => "all_cards"@,
            BulkDownloadType::Rulings => "rulings"@,
        }
    }

    /// The wire name of this dataset type.
    pub fn to_str(&self) -> (r: &str)
        ensures
            r@ == self.type_str(),
    {
        match self {
            BulkDownloadType::OracleCards => "oracle_cards",
            BulkDownloadType::UniqueArtwork => "unique_artwork",
            BulkDownloadType::DefaultCards => "default_cards",
            BulkDownloadType::AllCards => "all_cards",
            BulkDownloadType::Rulings => "rulings",
        }
    }
}

/// Resolve a logical dataset type against a listing response: the first
/// bulk-data entry of a list-shaped response whose `type` equals the
/// requested one. A response of any other shape, or a list entry of an
/// unexpected shape, is `UnexpectedShape`; a well-shaped list without a
/// match is `NotFound`.
pub fn resolve<'a>(listing: &'a ScryfallResult, wanted: &BulkDownloadType) -> (r: Result<
    &'a ScryfallBulkData,
    ResolutionError,
>)
    ensures
        match r {
            Result::Ok(b) => resolve_spec(*listing, wanted.type_str()) == Result::<
                ScryfallBulkData,
                ResolutionError,
            >::Ok(*b),
            Result::Err(e) => resolve_spec(*listing, wanted.type_str()) == Result::<
                ScryfallBulkData,
                ResolutionError,
            >::Err(e),
        },
{
    let list = match listing {
        ScryfallResult::List(l) => l,
        _ => { return Err(ResolutionError::UnexpectedShape) },
    };
    let wanted_string: String = String::from_str(wanted.to_str());
    let ghost data = list.data@;
    let ghost w = wanted.type_str();
    proof {
        assert(data.subrange(0, data.len() as int) =~= data);
    }
    let mut i: usize = 0;
    while i < list.data.len()
        invariant
            data == list.data@,
            i <= data.len(),
            wanted_string@ == w,
            w == wanted.type_str(),
            resolve_spec(*listing, w) == find_bulk_spec(data, w),
            find_bulk_spec(data, w) == find_bulk_spec(
                data.subrange(i as int, data.len() as int),
                w,
            ),
        decreases data.len() - i,
    {
        proof {
            assert(data.subrange(i as int, data.len() as int)[0] == data[i as int]);
        }
        match &list.data[i] {
            ScryfallResult::BulkData(b) => {
                if b.t == wanted_string {
                    return Ok(b);
                }
            },
            _ => { return Err(ResolutionError::UnexpectedShape) },
        }
        proof {
            let rest = data.subrange(i as int, data.len() as int);
            assert(rest.subrange(1, rest.len() as int) =~= data.subrange(
                i as int + 1,
                data.len() as int,
            ));
        }
        i = i + 1;
    }
    proof {
        assert(data.subrange(data.len() as int, data.len() as int) =~= Seq::<
            ScryfallResult,
        >::empty());
    }
    Err(ResolutionError::NotFound)
}

/// A lookup asked for an identifier no decoded record carries.
#[derive(Debug, Clone, Copy, PartialEq, Eq, Structural)]
pub struct CardNotFoundError;

/// In-memory catalog of one decoded dataset.
///
/// Decoding policy: eager — the whole trimmed file is decoded up front
/// and the records held in memory, so lookups touch no I/O and a
/// malformed file is rejected before any lookup is answered.
pub struct BulkDownload {
    cards: Vec<Record>,
}

impl BulkDownload {
    /// The decoded records, in file order.
    pub closed spec fn records(self) -> Seq<Record> {
        self.cards@
    }

    /// Build the catalog by decoding a trimmed cache file, given as its
    /// lines. The first malformed line aborts with its position and no
    /// catalog is built.
    pub fn from_lines(lines: &Vec<Vec<u8>>) -> (r: Result<BulkDownload, DecodeError>)
        ensures
            match r {
                Result::Ok(c) => {
                    &&& c.records().len() == lines@.len()
                    &&& forall|i: int|
                        0 <= i < lines@.len() ==> #[trigger] decode_line_spec(lines@[i]@)
                            == Option::Some(c.records()[i]@)
                },
                Result::Err(e) => {
                    &&& e.line_index < lines@.len()
                    &&& decode_line_spec(lines@[e.line_index as int]@) is None
                    &&& forall|i: int|
                        0 <= i < e.line_index ==> #[trigger] decode_line_spec(lines@[i]@) is Some
                },
            },
    {
        match decode_lines(lines) {
            Ok(cards) => Ok(BulkDownload { cards }),
            Err(e) => Err(e),
        }
    }

    /// All records of the catalog, in file order.
    pub fn cards(&self) -> (r: &Vec<Record>)
        ensures
            r@ == self.records(),
    {
        &self.cards
    }

    /// The first record carrying `id`, by exact match, or the lookup
    /// error when no record carries it.
    pub fn get_card_by_id<'a>(&'a self, id: &str) -> (r: Result<&'a Record, CardNotFoundError>)
        ensures
            match r {
                Result::Ok(c) => lookup_spec(self.records(), id@) == Option::Some(*c),
                Result::Err(_) => lookup_spec(self.records(), id@) is None,
            },
    {
        let key: String = String::from_str(id);
        let ghost recs = self.cards@;
        proof {
            assert(recs.subrange(0, recs.len() as int) =~= recs);
        }
        let mut i: usize = 0;
        while i < self.cards.len()
            invariant
                recs == self.cards@,
                i <= recs.len(),
                key@ == id@,
                lookup_spec(recs, id@) == lookup_spec(
                    recs.subrange(i as int, recs.len() as int),
                    id@,
                ),
            decreases recs.len() - i,
        {
            proof {
                assert(recs.subrange(i as int, recs.len() as int)[0] == recs[i as int]);
            }
            let c = &self.cards[i];
            if c.id == key {
                return Ok(c);
            }
            proof {
                let rest = recs.subrange(i as int, recs.len() as int);
                assert(rest.subrange(1, rest.len() as int) =~= recs.subrange(
                    i as int + 1,
                    recs.len() as int,
                ));
            }
            i = i + 1;
        }
        proof {
            assert(recs.subrange(recs.len() as int, recs.len() as int) =~= Seq::<
                Record,
            >::empty());
        }
        Err(CardNotFoundError)
    }
}

} // verus!
