//! Streaming trim of the array-framed bulk payload.
//!
//! The provider delivers the bulk payload as one large JSON array,
//! pretty-printed with one array element per physical line and a fixed
//! indent. The trim rewrites that framing, line by line, into one
//! self-contained JSON object per line: pure punctuation lines (the
//! enclosing brackets) are dropped, the leading indentation goes, and
//! the trailing comma that separates array elements goes. The transform
//! is deliberately line-oriented — it never inspects the middle of a
//! line, so commas inside JSON string values are untouched — and it
//! works on one line at a time, never holding the whole payload.

use vstd::prelude::*;

verus! {

/// A line whose end-trimmed length does not exceed this many bytes is
/// array punctuation (`[`, `]`, a lone brace), not an object line, and
/// is dropped.
pub const PUNCTUATION_THRESHOLD: usize = 4;

/// Bytes trimmed from the end of a line: space, tab, carriage return,
/// line feed.
pub open spec fn is_trailing_ws(b: u8) -> bool {
    b == 32 || b == 9 || b == 13 || b == 10
}

/// Bytes that make up leading indentation: space and tab.
pub open spec fn is_indent(b: u8) -> bool {
    b == 32 || b == 9
}

/// The line with its trailing whitespace removed.
pub open spec fn trim_end_spec(s: Seq<u8>) -> Seq<u8>
    decreases s.len(),
{
    if s.len() > 0 && is_trailing_ws(s.last()) {
        trim_end_spec(s.drop_last())
    } else {
        s
    }
}

/// The line with its leading indentation removed.
pub open spec fn trim_start_spec(s: Seq<u8>) -> Seq<u8>
    decreases s.len(),
{
    if s.len() > 0 && is_indent(s[0]) {
        trim_start_spec(s.subrange(1, s.len() as int))
    } else {
        s
    }
}

/// What the trimming writer does to one source line.
///
/// The punctuation threshold is checked against the end-trimmed length,
/// so a trailing newline or stray spaces cannot make a real object line
/// look like punctuation. A retained line loses its indentation and, if
/// its very last byte is the array separator comma, exactly that comma.
pub open spec fn trim_line_spec(line: Seq<u8>) -> Option<Seq<u8>> {
    let t = trim_end_spec(line);
    if t.len() <= PUNCTUATION_THRESHOLD {
        Option::None
    } else {
        let u = trim_start_spec(t);
        if u.len() > 0 && u.last() == 44 {
            Option::Some(u.drop_last())
        } else {
            Option::Some(u)
        }
    }
}

/// Runtime check for trailing whitespace.
pub fn is_trailing_ws_byte(b: u8) -> (r: bool)
    ensures
        r == is_trailing_ws(b),
{
    b == 32 || b == 9 || b == 13 || b == 10
}

/// Runtime check for indentation bytes.
pub fn is_indent_byte(b: u8) -> (r: bool)
    ensures
        r == is_indent(b),
{
    b == 32 || b == 9
}

/// Trim one physical line of the source payload. `None` means the line
/// is array punctuation and produces no output.
pub fn trim_line(line: &Vec<u8>) -> (r: Option<Vec<u8>>)
    ensures
        r is Some <==> trim_line_spec(line@) is Some,
        r matches Some(t) ==> trim_line_spec(line@) == Option::Some(t@),
{
    let ghost s = line@;
    proof {
        assert(s.subrange(0, s.len() as int) =~= s);
    }
    let mut end: usize = line.len();
    while end > 0 && is_trailing_ws_byte(line[end - 1])
        invariant
            s == line@,
            end <= line.len(),
            trim_end_spec(s) == trim_end_spec(s.subrange(0, end as int)),
        decreases end,
    {
        proof {
            assert(s.subrange(0, end as int).last() == s[end - 1]);
            assert(s.subrange(0, end as int).drop_last() =~= s.subrange(0, end as int - 1));
        }
        end = end - 1;
    }
    proof {
        if end > 0 {
            assert(s.subrange(0, end as int).last() == s[end - 1]);
            assert(trim_end_spec(s.subrange(0, end as int)) == s.subrange(0, end as int));
        } else {
            assert(s.subrange(0, 0) =~= Seq::<u8>::empty());
        }
    }
    if end <= PUNCTUATION_THRESHOLD {
        return None;
    }
    let ghost t = trim_end_spec(s);
    proof {
        assert(t == s.subrange(0, end as int));
    }
    let mut start: usize = 0;
    while start < end && is_indent_byte(line[start])
        invariant
            s == line@,
            start <= end,
            end <= line.len(),
            t == s.subrange(0, end as int),
            trim_start_spec(t) == trim_start_spec(s.subrange(start as int, end as int)),
            forall|j: int| 0 <= j < start ==> is_indent(s[j]),
        decreases end - start,
    {
        proof {
            assert(s.subrange(start as int, end as int)[0] == s[start as int]);
            assert(s.subrange(start as int, end as int).subrange(
                1,
                s.subrange(start as int, end as int).len() as int,
            ) =~= s.subrange(start as int + 1, end as int));
        }
        start = start + 1;
    }
    proof {
        // The end-trimmed line cannot consist of indentation alone: its
        // last byte is not whitespace, so the scan stopped short of it.
        assert(!is_trailing_ws(t.last()));
        assert(t.last() == s[end - 1]);
        if start == end {
            assert(is_indent(s[end - 1]));
        }
        assert(start < end);
        assert(trim_start_spec(s.subrange(start as int, end as int)) == s.subrange(
            start as int,
            end as int,
        ));
    }
    let ghost u = trim_start_spec(t);
    let last_byte = line[end - 1];
    let keep_end: usize = if last_byte == 44 {
        end - 1
    } else {
        end
    };
    let mut out: Vec<u8> = Vec::new();
    proof {
        assert(s.subrange(start as int, start as int) =~= Seq::<u8>::empty());
    }
    let mut i: usize = start;
    while i < keep_end
        invariant
            s == line@,
            start <= i <= keep_end <= line.len(),
            out@ == s.subrange(start as int, i as int),
        decreases keep_end - i,
    {
        out.push(line[i]);
        proof {
            assert(s.subrange(start as int, i as int).push(s[i as int]) =~= s.subrange(
                start as int,
                i as int + 1,
            ));
        }
        i = i + 1;
    }
    proof {
        assert(u == s.subrange(start as int, end as int));
        assert(u.last() == s[end - 1]);
        if last_byte == 44 {
            assert(u.drop_last() =~= s.subrange(start as int, end as int - 1));
        }
    }
    Some(out)
}

/// What the trimming writer produces for a whole payload: the trimmed
/// object lines, in source order, with the punctuation lines gone.
pub open spec fn trim_lines_spec(lines: Seq<Seq<u8>>) -> Seq<Seq<u8>>
    decreases lines.len(),
{
    if lines.len() == 0 {
        Seq::empty()
    } else {
        let rest = trim_lines_spec(lines.drop_last());
        match trim_line_spec(lines.last()) {
            Option::Some(t) => rest.push(t),
            Option::None => rest,
        }
    }
}

/// The bytes of a file holding the given lines, each terminated by a
/// line feed.
pub open spec fn join_lines_spec(lines: Seq<Seq<u8>>) -> Seq<u8>
    decreases lines.len(),
{
    if lines.len() == 0 {
        Seq::empty()
    } else {
        lines[0] + seq![10u8] + join_lines_spec(lines.subrange(1, lines.len() as int))
    }
}

/// Appending one more line to a file extends its bytes by that line and
/// its terminator.
pub proof fn lemma_join_push(lines: Seq<Seq<u8>>, line: Seq<u8>)
    ensures
        join_lines_spec(lines.push(line)) == join_lines_spec(lines) + line + seq![10u8],
    decreases lines.len(),
{
    if lines.len() == 0 {
        assert(lines.push(line)[0] == line);
        assert(lines.push(line).subrange(1, lines.push(line).len() as int) =~= Seq::<
            Seq<u8>,
        >::empty());
        assert(join_lines_spec(Seq::<Seq<u8>>::empty()) == Seq::<u8>::empty());
        assert(join_lines_spec(lines) == Seq::<u8>::empty());
        assert(join_lines_spec(lines.push(line)) =~= line + seq![10u8]);
        assert(join_lines_spec(lines) + line + seq![10u8] =~= line + seq![10u8]);
    } else {
        let pushed = lines.push(line);
        assert(pushed[0] == lines[0]);
        assert(pushed.subrange(1, pushed.len() as int) =~= lines.subrange(
            1,
            lines.len() as int,
        ).push(line));
        lemma_join_push(lines.subrange(1, lines.len() as int), line);
        assert(join_lines_spec(pushed) =~= join_lines_spec(lines) + line + seq![10u8]);
    }
}

/// Helper for `split_lines_spec`: the lines of `bytes`, with `cur`
/// holding the bytes of the line in progress. A terminator ends the
/// line in progress; a final unterminated line is kept when non-empty.
pub open spec fn split_lines_from(bytes: Seq<u8>, cur: Seq<u8>) -> Seq<Seq<u8>>
    decreases bytes.len(),
{
    if bytes.len() == 0 {
        if cur.len() == 0 {
            Seq::empty()
        } else {
            seq![cur]
        }
    } else if bytes[0] == 10 {
        seq![cur] + split_lines_from(bytes.subrange(1, bytes.len() as int), Seq::empty())
    } else {
        split_lines_from(bytes.subrange(1, bytes.len() as int), cur.push(bytes[0]))
    }
}

/// The physical lines of a file's bytes: fragments ended by a line
/// feed, plus a final unterminated fragment when one is left.
pub open spec fn split_lines_spec(bytes: Seq<u8>) -> Seq<Seq<u8>> {
    split_lines_from(bytes, Seq::empty())
}

/// Split a file's bytes into its physical lines, without the
/// terminators — the decoder's view of a materialized cache file.
pub fn split_lines(bytes: &Vec<u8>) -> (r: Vec<Vec<u8>>)
    ensures
        r.deep_view() == split_lines_spec(bytes@),
{
    let ghost s = bytes@;
    let mut out: Vec<Vec<u8>> = Vec::new();
    let mut cur: Vec<u8> = Vec::new();
    proof {
        assert(s.subrange(0, s.len() as int) =~= s);
    }
    let mut i: usize = 0;
    while i < bytes.len()
        invariant
            s == bytes@,
            i <= bytes.len(),
            out.deep_view() + split_lines_from(s.subrange(i as int, s.len() as int), cur@)
                == split_lines_spec(s),
        decreases bytes.len() - i,
    {
        let ghost pre_out = out.deep_view();
        let ghost rem = s.subrange(i as int, s.len() as int);
        proof {
            assert(rem[0] == s[i as int]);
            assert(rem.subrange(1, rem.len() as int) =~= s.subrange(
                i as int + 1,
                s.len() as int,
            ));
        }
        let b = bytes[i];
        if b == 10 {
            let ghost done = cur@;
            out.push(cur);
            cur = Vec::new();
            proof {
                assert(out.deep_view() =~~= pre_out.push(done));
                assert(pre_out.push(done) =~= pre_out + seq![done]);
                assert((pre_out + seq![done]) + split_lines_from(
                    s.subrange(i as int + 1, s.len() as int),
                    Seq::empty(),
                ) =~~= pre_out + (seq![done] + split_lines_from(
                    s.subrange(i as int + 1, s.len() as int),
                    Seq::empty(),
                )));
            }
        } else {
            cur.push(b);
        }
        i = i + 1;
    }
    proof {
        assert(s.subrange(s.len() as int, s.len() as int) =~= Seq::<u8>::empty());
    }
    if cur.len() > 0 {
        let ghost pre_out = out.deep_view();
        let ghost done = cur@;
        out.push(cur);
        proof {
            assert(out.deep_view() =~~= pre_out.push(done));
            assert(pre_out.push(done) =~= pre_out + seq![done]);
        }
        out
    } else {
        proof {
            assert(out.deep_view() + Seq::<Seq<u8>>::empty() =~= out.deep_view());
        }
        out
    }
}

/// Helper for the framing round trip: consuming a terminator-free
/// prefix only moves it into the line in progress.
proof fn lemma_split_from_prefix(p: Seq<u8>, r: Seq<u8>, cur: Seq<u8>)
    requires
        forall|j: int| 0 <= j < p.len() ==> p[j] != 10,
    ensures
        split_lines_from(p + r, cur) == split_lines_from(r, cur + p),
    decreases p.len(),
{
    if p.len() == 0 {
        assert(p + r =~= r);
        assert(cur + p =~= cur);
    } else {
        assert((p + r)[0] == p[0]);
        assert((p + r).subrange(1, (p + r).len() as int) =~= p.subrange(1, p.len() as int) + r);
        lemma_split_from_prefix(p.subrange(1, p.len() as int), r, cur.push(p[0]));
        assert(cur.push(p[0]) + p.subrange(1, p.len() as int) =~= cur + p);
    }
}

/// Framing round trip: a file written as terminated lines splits back
/// into exactly those lines, provided no line holds a terminator
/// itself.
pub proof fn lemma_split_join(lines: Seq<Seq<u8>>)
    requires
        forall|i: int, j: int|
            0 <= i < lines.len() && 0 <= j < lines[i].len() ==> #[trigger] lines[i][j] != 10,
    ensures
        split_lines_spec(join_lines_spec(lines)) == lines,
    decreases lines.len(),
{
    if lines.len() == 0 {
    } else {
        let rest = lines.subrange(1, lines.len() as int);
        let tail = seq![10u8] + join_lines_spec(rest);
        assert(lines[0] + seq![10u8] + join_lines_spec(rest) =~= lines[0] + tail);
        lemma_split_from_prefix(lines[0], tail, Seq::empty());
        assert(Seq::<u8>::empty() + lines[0] =~= lines[0]);
        assert(tail[0] == 10);
        assert(tail.subrange(1, tail.len() as int) =~= join_lines_spec(rest));
        assert(forall|i: int, j: int|
            0 <= i < rest.len() && 0 <= j < rest[i].len() ==> #[trigger] rest[i][j] != 10);
        lemma_split_join(rest);
        assert(seq![lines[0]] + rest =~= lines);
    }
}

/// Trim a payload given as its physical lines. The real writer streams:
/// it calls `trim_line` on each line as it arrives and appends the
/// result to the temporary file; this form works over lines already in
/// memory and feeds the tests and the in-memory pipeline.
pub fn trim_lines(lines: &Vec<Vec<u8>>) -> (r: Vec<Vec<u8>>)
    ensures
        r.deep_view() == trim_lines_spec(lines.deep_view()),
{
    let ghost ls = lines.deep_view();
    let mut out: Vec<Vec<u8>> = Vec::new();
    let mut i: usize = 0;
    while i < lines.len()
        invariant
            i <= lines.len(),
            ls == lines.deep_view(),
            ls.len() == lines.len(),
            out.deep_view() == trim_lines_spec(ls.subrange(0, i as int)),
        decreases lines.len() - i,
    {
        let ghost pre = out.deep_view();
        proof {
            assert(ls[i as int] == lines@[i as int].deep_view());
            assert(lines@[i as int].deep_view() =~= lines@[i as int]@);
        }
        match trim_line(&lines[i]) {
            Some(t) => {
                let ghost tv = t@;
                out.push(t);
                proof {
                    assert(out.deep_view() =~~= pre.push(tv));
                }
            },
            None => {},
        }
        proof {
            assert(ls.subrange(0, i as int + 1).drop_last() =~= ls.subrange(0, i as int));
            assert(ls.subrange(0, i as int + 1).last() == ls[i as int]);
        }
        i = i + 1;
    }
    proof {
        assert(ls.subrange(0, ls.len() as int) =~= ls);
    }
    out
}

} // verus!
