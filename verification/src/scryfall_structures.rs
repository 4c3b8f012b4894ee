//! Plain data model of the provider's listing endpoint.
//!
//! The listing endpoint answers with a JSON object tagged by an `object`
//! discriminator; the shapes the pipeline distinguishes are mirrored
//! here as plain types. A `card`-shaped response carries a large domain
//! record the acquisition pipeline never reads, so that variant carries
//! no payload here. Turning the raw JSON bytes into these values is the
//! caller's concern; everything the resolver then decides is verified
//! over this model.

use vstd::prelude::*;

verus! {

/// A response of the listing endpoint, by its `object` discriminator.
#[derive(Debug, PartialEq)]
pub enum ScryfallResult {
    /// An `error`-shaped response: the provider rejected the request.
    Error(ScryfallError),
    /// A `list`-shaped response: the bulk listing itself.
    List(ScryfallList),
    /// A single `bulk_data`-shaped object.
    BulkData(ScryfallBulkData),
    /// A `card`-shaped response; its payload is not part of the
    /// acquisition pipeline.
    Card,
}

/// An `error`-shaped response body.
#[derive(Debug, Clone, PartialEq)]
pub struct ScryfallError {
    /// HTTP-like status code carried in the body.
    pub status: i64,
    /// Short machine-readable code.
    pub code: String,
    /// Human-readable description.
    pub details: String,
    /// Optional finer-grained error type.
    pub t: Option<String>,
    /// Optional warnings attached to the error.
    pub warnings: Option<Vec<String>>,
}

/// A `list`-shaped response: an ordered sequence of further tagged
/// objects, plus paging metadata.
#[derive(Debug, PartialEq)]
pub struct ScryfallList {
    /// The listed objects, in the provider's order.
    pub data: Vec<ScryfallResult>,
    /// Whether further pages exist.
    pub has_more: bool,
    /// URI of the next page, when there is one.
    pub next_page: Option<String>,
    /// Total count reported by the provider, when present.
    pub total_cards: Option<i64>,
    /// Warnings attached to the listing.
    pub warnings: Option<Vec<String>>,
}

/// One downloadable bulk dataset, as described by the listing.
#[derive(Debug, Clone, PartialEq)]
pub struct ScryfallBulkData {
    /// Stable identifier of the dataset.
    pub id: String,
    /// URI of this descriptor itself.
    pub uri: String,
    /// The dataset's logical type (`oracle_cards`, `rulings`, ...).
    pub t: String,
    /// Display name.
    pub name: String,
    /// Display description.
    pub description: String,
    /// Where the bulk payload is downloaded from.
    pub download_uri: String,
    /// When the dataset was last rebuilt.
    pub updated_at: String,
    /// Payload size in bytes, as reported.
    pub size: i64,
    /// MIME type of the payload.
    pub content_type: String,
    /// Transfer encoding of the payload.
    pub content_encoding: String,
}

/// A related-card reference as it appears inside card objects; carried
/// for the domain layer, not read by the pipeline.
#[derive(Debug, Clone, PartialEq)]
pub struct ScryfallRelatedCard {
    /// The `object` discriminator of the reference.
    pub object: String,
    /// Identifier of the related card.
    pub id: String,
    /// How the card is related.
    pub component: String,
    /// Name of the related card.
    pub name: String,
    /// Type line of the related card.
    pub type_line: String,
    /// URI of the related card.
    pub uri: String,
}

/// The image URIs of one card face; carried for the domain layer.
#[derive(Debug, Clone, PartialEq)]
pub struct ScryfallCardImages {
    /// Lossless scan.
    pub png: String,
    /// Scan cropped to the border.
    pub border_crop: String,
    /// Scan cropped to the artwork.
    pub art_crop: String,
    /// Large JPEG scan.
    pub large: String,
    /// Normal-size JPEG scan.
    pub normal: String,
    /// Small JPEG scan.
    pub small: String,
}

/// Why a logical dataset type could not be resolved to a descriptor.
#[derive(Debug, Clone, Copy, PartialEq, Eq, Structural)]
pub enum ResolutionError {
    /// The listing is well shaped but names no dataset of the requested
    /// type.
    NotFound,
    /// The response is not a list of bulk-data descriptors — the
    /// provider answered with an error, a card, or a list holding an
    /// entry of an unexpected shape.
    UnexpectedShape,
}

impl ScryfallResult {
    /// The bulk-data descriptor this response carries, or a shape error.
    ///
    /// Replaces a conversion that treated any other shape as
    /// unreachable: a response of the wrong shape is a typed error, not
    /// a logic error.
    pub fn into_bulk_data(self) -> (r: Result<ScryfallBulkData, ResolutionError>)
        ensures
            match self {
                ScryfallResult::BulkData(b) => r == Result::<
                    ScryfallBulkData,
                    ResolutionError,
                >::Ok(b),
                _ => r == Result::<ScryfallBulkData, ResolutionError>::Err(
                    ResolutionError::UnexpectedShape,
                ),
            },
    {
        match self {
            ScryfallResult::BulkData(b) => Ok(b),
            _ => Err(ResolutionError::UnexpectedShape),
        }
    }
}

/// Scan the listed objects in order for the first bulk-data descriptor
/// of the wanted type. An object of any other shape ends the scan as a
/// shape error; a completed scan without a match is `NotFound`.
pub open spec fn find_bulk_spec(data: Seq<ScryfallResult>, wanted: Seq<char>) -> Result<
    ScryfallBulkData,
    ResolutionError,
>
    decreases data.len(),
{
    if data.len() == 0 {
        Result::Err(ResolutionError::NotFound)
    } else {
        match data[0] {
            ScryfallResult::BulkData(b) => if b.t@ == wanted {
                Result::Ok(b)
            } else {
                find_bulk_spec(data.subrange(1, data.len() as int), wanted)
            },
            _ => Result::Err(ResolutionError::UnexpectedShape),
        }
    }
}

/// What resolving a logical dataset type against a listing response
/// yields: the first matching descriptor of a list-shaped response, or
/// the error that says why there is none.
pub open spec fn resolve_spec(listing: ScryfallResult, wanted: Seq<char>) -> Result<
    ScryfallBulkData,
    ResolutionError,
> {
    match listing {
        ScryfallResult::List(l) => find_bulk_spec(l.data@, wanted),
        _ => Result::Err(ResolutionError::UnexpectedShape),
    }
}

} // verus!
