use scryfall_bulk::bulk::{BulkDownload, BulkDownloadType, CardNotFoundError, resolve};
use scryfall_bulk::cache::{BulkFileCache, is_stale};
use scryfall_bulk::record::{DecodeError, decode_lines};
use scryfall_bulk::scryfall_structures::{ScryfallBulkData, ScryfallList, ScryfallResult};
use scryfall_bulk::trim::split_lines;

fn object_line(id: &str, name: &str) -> Vec<u8> {
    format!("{{\"id\":\"{id}\",\"name\":\"{name}\",\"lang\":\"en\"}}").into_bytes()
}

#[test]
fn decode_yields_one_record_per_line() {
    let lines = vec![
        object_line("aaa", "First"),
        object_line("bbb", "Second"),
        object_line("ccc", "Third"),
    ];
    let records = decode_lines(&lines).unwrap();
    assert_eq!(records.len(), 3);
    assert_eq!(records[0].id, "aaa");
    assert_eq!(records[0].name, "First");
    assert_eq!(records[2].id, "ccc");
    // The payload carries the whole line through verbatim.
    assert_eq!(records[1].payload, lines[1]);
}

#[test]
fn decode_extracts_fields_rather_than_echoing_the_line() {
    // A decoder that handed the raw line back unchanged would fail
    // both field checks: the fields are inside the JSON object.
    let lines = vec![object_line("xyz", "Named")];
    let records = decode_lines(&lines).unwrap();
    assert_ne!(records[0].id.as_bytes(), lines[0].as_slice());
    assert_eq!(records[0].id, "xyz");
    assert_eq!(records[0].name, "Named");
}

#[test]
fn malformed_line_aborts_with_its_position() {
    let lines = vec![
        object_line("aaa", "First"),
        b"{\"id\":\"broken\"".to_vec(),
        object_line("ccc", "Third"),
    ];
    let err = decode_lines(&lines).unwrap_err();
    assert_eq!(err, DecodeError { line_index: 1 });
}

#[test]
fn object_without_required_fields_is_malformed() {
    let lines = vec![b"{\"name\":\"no id here\"}".to_vec()];
    let err = decode_lines(&lines).unwrap_err();
    assert_eq!(err.line_index, 0);
    let not_an_object = vec![b"[1,2,3,4,5]".to_vec()];
    assert!(decode_lines(&not_an_object).is_err());
}

#[test]
fn lookup_finds_every_decoded_record() {
    let lines = vec![
        object_line("aaa", "First"),
        object_line("bbb", "Second"),
        object_line("ccc", "Third"),
    ];
    let catalog = BulkDownload::from_lines(&lines).unwrap();
    assert_eq!(catalog.cards().len(), 3);
    for card in catalog.cards().clone() {
        let found = catalog.get_card_by_id(&card.id).unwrap();
        assert_eq!(*found, card);
    }
}

#[test]
fn lookup_of_unknown_id_is_the_lookup_error() {
    let lines = vec![object_line("aaa", "First")];
    let catalog = BulkDownload::from_lines(&lines).unwrap();
    assert_eq!(catalog.get_card_by_id("zzz"), Err(CardNotFoundError));
}

#[test]
fn lookup_returns_the_first_match_in_file_order() {
    let lines = vec![
        object_line("dup", "Earlier"),
        object_line("dup", "Later"),
    ];
    let catalog = BulkDownload::from_lines(&lines).unwrap();
    assert_eq!(catalog.get_card_by_id("dup").unwrap().name, "Earlier");
}

#[test]
fn end_to_end_open_downloads_once_then_reuses_the_cache() {
    let day: u64 = 86_400;
    let now: u64 = 1_700_000_000;

    // Fresh cache miss: the file is absent, so the opener must fetch.
    assert!(is_stale(false, None, now, day));

    // Resolve the wanted dataset against the provider's listing.
    let wanted = descriptor("unique_artwork", "https://example.com/bulk/unique");
    let listing = ScryfallResult::List(ScryfallList {
        data: vec![
            ScryfallResult::BulkData(descriptor("oracle_cards", "https://example.com/bulk/oracle")),
            ScryfallResult::BulkData(wanted.clone()),
        ],
        has_more: false,
        next_page: None,
        total_cards: None,
        warnings: None,
    });
    let found = resolve(&listing, &BulkDownloadType::UniqueArtwork).unwrap();
    assert_eq!(*found, wanted);

    // Download the fixed three-object payload from the descriptor's
    // URI and materialize it through the trim.
    let payload: Vec<Vec<u8>> = vec![
        b"[".to_vec(),
        b"  {\"id\":\"aaa\",\"name\":\"First\"},".to_vec(),
        b"  {\"id\":\"bbb\",\"name\":\"Second\"},".to_vec(),
        b"  {\"id\":\"ccc\",\"name\":\"Third\"}".to_vec(),
        b"]".to_vec(),
    ];
    let mut dir = BulkFileCache::open_dir(None);
    dir.materialize_trimmed(&payload);
    let cache_bytes = dir.canonical.clone().unwrap();

    // Decode the cached file and serve lookups.
    let lines = split_lines(&cache_bytes);
    let catalog = BulkDownload::from_lines(&lines).unwrap();
    assert_eq!(catalog.cards().len(), 3);
    let third = catalog.get_card_by_id("ccc").unwrap();
    assert_eq!(third.name, "Third");

    // A second open finds the just-written cache fresh: no network
    // request is due.
    assert!(!is_stale(true, Some(now), now + 60, day));
}

fn descriptor(t: &str, download_uri: &str) -> ScryfallBulkData {
    ScryfallBulkData {
        id: format!("id-{t}"),
        uri: format!("https://api.example.com/bulk-data/{t}"),
        t: t.to_string(),
        name: t.to_string(),
        description: String::new(),
        download_uri: download_uri.to_string(),
        updated_at: "2024-01-01T00:00:00Z".to_string(),
        size: 3,
        content_type: "application/json".to_string(),
        content_encoding: "gzip".to_string(),
    }
}
