use scryfall_bulk::trim::{split_lines, trim_line, trim_lines};

#[test]
fn trimming_round_trip_on_pretty_printed_array() {
    // The payload `[\n  {"a":1},\n  {"a":2}\n]\n`, line by line.
    let payload: Vec<Vec<u8>> = vec![
        b"[".to_vec(),
        b"  {\"a\":1},".to_vec(),
        b"  {\"a\":2}".to_vec(),
        b"]".to_vec(),
    ];
    let trimmed = trim_lines(&payload);
    assert_eq!(trimmed.len(), 2);
    assert_eq!(trimmed[0], b"{\"a\":1}".to_vec());
    assert_eq!(trimmed[1], b"{\"a\":2}".to_vec());
    for line in &trimmed {
        // Each retained line is independently parseable JSON with no
        // residual leading whitespace or trailing comma.
        let value: serde_json::Value = serde_json::from_slice(line).unwrap();
        assert!(value.is_object());
        assert_ne!(line[0], b' ');
        assert_ne!(*line.last().unwrap(), b',');
    }
}

#[test]
fn punctuation_lines_are_dropped() {
    assert_eq!(trim_line(&b"[".to_vec()), None);
    assert_eq!(trim_line(&b"]".to_vec()), None);
    assert_eq!(trim_line(&b"{".to_vec()), None);
    assert_eq!(trim_line(&b"},".to_vec()), None);
    assert_eq!(trim_line(&b"    ".to_vec()), None);
    assert_eq!(trim_line(&b"".to_vec()), None);
}

#[test]
fn threshold_uses_trimmed_length() {
    // Four visible bytes plus trailing whitespace is still punctuation;
    // five visible bytes is an object line.
    assert_eq!(trim_line(&b"abcd   \r\n".to_vec()), None);
    assert_eq!(trim_line(&b"abcde\n".to_vec()), Some(b"abcde".to_vec()));
}

#[test]
fn only_the_final_comma_is_stripped() {
    // Commas inside a JSON string value stay; only the trailing array
    // separator goes.
    let line = b"  {\"name\":\"a,b\",\"id\":\"x\"},\n".to_vec();
    assert_eq!(trim_line(&line), Some(b"{\"name\":\"a,b\",\"id\":\"x\"}".to_vec()));
    // A line without the separator is kept as is, minus indentation.
    let last = b"  {\"id\":\"y\"}\n".to_vec();
    assert_eq!(trim_line(&last), Some(b"{\"id\":\"y\"}".to_vec()));
    // Only one comma goes, even if the value ends with one inside.
    let double = b"  {\"v\":\"t,\"},\n".to_vec();
    assert_eq!(trim_line(&double), Some(b"{\"v\":\"t,\"}".to_vec()));
}

#[test]
fn indentation_is_stripped() {
    let line = b"    {\"id\":\"deep\"}".to_vec();
    assert_eq!(trim_line(&line), Some(b"{\"id\":\"deep\"}".to_vec()));
    let tabbed = b"\t{\"id\":\"tab\"}".to_vec();
    assert_eq!(trim_line(&tabbed), Some(b"{\"id\":\"tab\"}".to_vec()));
}

#[test]
fn split_recovers_terminated_lines() {
    let bytes = b"{\"a\":1}\n{\"a\":2}\n".to_vec();
    let lines = split_lines(&bytes);
    assert_eq!(lines.len(), 2);
    assert_eq!(lines[0], b"{\"a\":1}".to_vec());
    assert_eq!(lines[1], b"{\"a\":2}".to_vec());
}

#[test]
fn split_keeps_a_final_unterminated_line() {
    let bytes = b"one\ntwo".to_vec();
    let lines = split_lines(&bytes);
    assert_eq!(lines, vec![b"one".to_vec(), b"two".to_vec()]);
    assert_eq!(split_lines(&b"".to_vec()).len(), 0);
}
