//! Decoding the trimmed cache file into typed records.
//!
//! After trimming, the cache file holds one JSON object per line. A
//! record keeps its stable identifier and name as typed fields; the
//! rest of the object is opaque payload carried through byte-for-byte
//! for the domain layer. Decoding is all-or-nothing: the first
//! malformed line aborts the whole decode with its position, rather
//! than silently returning a truncated catalog.

use vstd::prelude::*;

verus! {

/// One decoded catalog record: a stable identifier, a display name,
/// and the full object line as opaque payload.
#[derive(Debug, Clone, PartialEq)]
pub struct Record {
    /// The record's stable identifier, unique within one dataset.
    pub id: String,
    /// The record's name.
    pub name: String,
    /// The record's whole JSON object line, kept verbatim.
    pub payload: Vec<u8>,
}

/// Mathematical image of a `Record`.
pub struct RecordView {
    /// The identifier, as a character sequence.
    pub id: Seq<char>,
    /// The name, as a character sequence.
    pub name: Seq<char>,
    /// The raw object line.
    pub payload: Seq<u8>,
}

impl View for Record {
    type V = RecordView;

    open spec fn view(&self) -> RecordView {
        RecordView { id: self.id@, name: self.name@, payload: self.payload@ }
    }
}

/// The identifier and name fields that parsing one line as a JSON
/// object yields, or nothing when the line is not such an object or
/// lacks either field. The outcome depends on the line's bytes alone.
pub uninterp spec fn record_fields_of(line: Seq<u8>) -> Option<(Seq<char>, Seq<char>)>;

/// Relies on serde_json — `from_slice`, `Value::get` and
/// `Value::as_str` — to parse one line as a JSON object and read its
/// `id` and `name` string fields. The parse is a pure function of the
/// line's bytes, named `record_fields_of`.
#[verifier::external_body]
fn parse_record_fields(line: &Vec<u8>) -> (r: Option<(String, String)>)
    ensures
        r is Some <==> record_fields_of(line@) is Some,
        r matches Some(f) ==> record_fields_of(line@) == Option::Some((f.0@, f.1@)),
{
    let value: serde_json::Value = serde_json::from_slice(line.as_slice()).ok()?;
    let id = value.get("id")?.as_str()?;
    let name = value.get("name")?.as_str()?;
    Some((id.to_owned(), name.to_owned()))
}

/// What decoding one line of the trimmed file yields.
pub open spec fn decode_line_spec(line: Seq<u8>) -> Option<RecordView> {
    match record_fields_of(line) {
        Option::Some(f) => Option::Some(RecordView { id: f.0, name: f.1, payload: line }),
        Option::None => Option::None,
    }
}

/// A malformed line aborted the decode. `line_index` is the zero-based
/// position of the offending line in the trimmed file.
#[derive(Debug, Clone, Copy, PartialEq, Eq, Structural)]
pub struct DecodeError {
    /// Zero-based position of the first line that failed to decode.
    pub line_index: usize,
}

/// An exact copy of a byte line.
fn clone_bytes(v: &Vec<u8>) -> (r: Vec<u8>)
    ensures
        r@ == v@,
{
    let mut out: Vec<u8> = Vec::new();
    let mut i: usize = 0;
    while i < v.len()
        invariant
            i <= v.len(),
            out@ == v@.subrange(0, i as int),
        decreases v.len() - i,
    {
        out.push(v[i]);
        proof {
            assert(v@.subrange(0, i as int).push(v@[i as int]) =~= v@.subrange(0, i as int + 1));
        }
        i = i + 1;
    }
    proof {
        assert(v@.subrange(0, v@.len() as int) =~= v@);
    }
    out
}

/// Decode every line of the trimmed file, in order. The first line
/// that is not a well-formed record aborts the decode with its
/// position; otherwise each line yields exactly one record.
pub fn decode_lines(lines: &Vec<Vec<u8>>) -> (r: Result<Vec<Record>, DecodeError>)
    ensures
        match r {
            Result::Ok(records) => {
                &&& records@.len() == lines@.len()
                &&& forall|i: int|
                    0 <= i < lines@.len() ==> #[trigger] decode_line_spec(lines@[i]@)
                        == Option::Some(records@[i]@)
            },
            Result::Err(e) => {
                &&& e.line_index < lines@.len()
                &&& decode_line_spec(lines@[e.line_index as int]@) is None
                &&& forall|i: int|
                    0 <= i < e.line_index ==> #[trigger] decode_line_spec(lines@[i]@) is Some
            },
        },
{
    let mut records: Vec<Record> = Vec::new();
    let mut i: usize = 0;
    while i < lines.len()
        invariant
            i <= lines.len(),
            records@.len() == i,
            forall|j: int|
                0 <= j < i ==> #[trigger] decode_line_spec(lines@[j]@) == Option::Some(
                    records@[j]@,
                ),
        decreases lines.len() - i,
    {
        match parse_record_fields(&lines[i]) {
            Some(f) => {
                let payload = clone_bytes(&lines[i]);
                records.push(Record { id: f.0, name: f.1, payload });
            },
            None => {
                return Err(DecodeError { line_index: i });
            },
        }
        i = i + 1;
    }
    Ok(records)
}

/// The first record carrying the given identifier, scanning in file
/// order.
pub open spec fn lookup_spec(records: Seq<Record>, id: Seq<char>) -> Option<Record>
    decreases records.len(),
{
    if records.len() == 0 {
        Option::None
    } else if records[0]@.id == id {
        Option::Some(records[0])
    } else {
        lookup_spec(records.subrange(1, records.len() as int), id)
    }
}

/// Decode completeness, lookup direction: among records with pairwise
/// distinct identifiers, looking up any record's identifier finds
/// exactly that record.
pub proof fn lemma_lookup_roundtrip(records: Seq<Record>, i: int)
    requires
        0 <= i < records.len(),
        forall|a: int, b: int|
            0 <= a < b < records.len() ==> (#[trigger] records[a]@.id) != (
            #[trigger] records[b]@.id),
    ensures
        lookup_spec(records, records[i]@.id) == Option::Some(records[i]),
    decreases i,
{
    let rest = records.subrange(1, records.len() as int);
    if i == 0 {
    } else {
        assert(records[0]@.id != records[i]@.id);
        assert(forall|a: int, b: int|
            0 <= a < b < rest.len() ==> (#[trigger] rest[a]@.id) != (#[trigger] rest[b]@.id));
        lemma_lookup_roundtrip(rest, i - 1);
        assert(rest[i - 1] == records[i]);
    }
}

} // verus!
