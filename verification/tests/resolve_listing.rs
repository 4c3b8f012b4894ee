use scryfall_bulk::bulk::{BulkDownloadType, resolve};
use scryfall_bulk::scryfall_structures::{
    ResolutionError, ScryfallBulkData, ScryfallError, ScryfallList, ScryfallResult,
};

fn descriptor(t: &str, download_uri: &str) -> ScryfallBulkData {
    ScryfallBulkData {
        id: format!("id-{t}"),
        uri: format!("https://api.example.com/bulk-data/{t}"),
        t: t.to_string(),
        name: t.to_string(),
        description: String::new(),
        download_uri: download_uri.to_string(),
        updated_at: "2024-01-01T00:00:00Z".to_string(),
        size: 3,
        content_type: "application/json".to_string(),
        content_encoding: "gzip".to_string(),
    }
}

fn listing_of(entries: Vec<ScryfallResult>) -> ScryfallResult {
    ScryfallResult::List(ScryfallList {
        data: entries,
        has_more: false,
        next_page: None,
        total_cards: None,
        warnings: None,
    })
}

#[test]
fn selects_matching_descriptor_even_when_not_first() {
    let listing = listing_of(vec![
        ScryfallResult::BulkData(descriptor("rulings", "https://example.com/r")),
        ScryfallResult::BulkData(descriptor("oracle_cards", "https://example.com/o")),
        ScryfallResult::BulkData(descriptor("all_cards", "https://example.com/a")),
    ]);
    let found = resolve(&listing, &BulkDownloadType::OracleCards).unwrap();
    assert_eq!(found.t, "oracle_cards");
    assert_eq!(found.download_uri, "https://example.com/o");
}

#[test]
fn absent_type_is_not_found() {
    let listing = listing_of(vec![
        ScryfallResult::BulkData(descriptor("rulings", "https://example.com/r")),
        ScryfallResult::BulkData(descriptor("oracle_cards", "https://example.com/o")),
        ScryfallResult::BulkData(descriptor("all_cards", "https://example.com/a")),
    ]);
    let missing = resolve(&listing, &BulkDownloadType::UniqueArtwork);
    assert_eq!(missing, Err(ResolutionError::NotFound));
}

#[test]
fn error_shaped_response_is_unexpected_shape() {
    let listing = ScryfallResult::Error(ScryfallError {
        status: 404,
        code: "not_found".to_string(),
        details: "No such endpoint".to_string(),
        t: None,
        warnings: None,
    });
    let r = resolve(&listing, &BulkDownloadType::Rulings);
    assert_eq!(r, Err(ResolutionError::UnexpectedShape));
}

#[test]
fn card_shaped_response_is_unexpected_shape() {
    let r = resolve(&ScryfallResult::Card, &BulkDownloadType::AllCards);
    assert_eq!(r, Err(ResolutionError::UnexpectedShape));
}

#[test]
fn misshapen_list_entry_is_unexpected_shape() {
    let listing = listing_of(vec![
        ScryfallResult::Card,
        ScryfallResult::BulkData(descriptor("oracle_cards", "https://example.com/o")),
    ]);
    let r = resolve(&listing, &BulkDownloadType::OracleCards);
    assert_eq!(r, Err(ResolutionError::UnexpectedShape));
}

#[test]
fn empty_list_is_not_found() {
    let listing = listing_of(vec![]);
    let r = resolve(&listing, &BulkDownloadType::DefaultCards);
    assert_eq!(r, Err(ResolutionError::NotFound));
}

#[test]
fn wire_names_cover_the_closed_enumeration() {
    assert_eq!(BulkDownloadType::OracleCards.to_str(), "oracle_cards");
    assert_eq!(BulkDownloadType::UniqueArtwork.to_str(), "unique_artwork");
    assert_eq!(BulkDownloadType::DefaultCards.to_str(), "default_cards");
    assert_eq!(BulkDownloadType::AllCards.to_str(), "all_cards");
    assert_eq!(BulkDownloadType::Rulings.to_str(), "rulings");
}

#[test]
fn into_bulk_data_unwraps_only_the_bulk_shape() {
    let b = descriptor("rulings", "https://example.com/r");
    let ok = ScryfallResult::BulkData(b.clone()).into_bulk_data();
    assert_eq!(ok, Ok(b));
    let err = ScryfallResult::Card.into_bulk_data();
    assert_eq!(err, Err(ResolutionError::UnexpectedShape));
}
