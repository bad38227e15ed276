//! Framing of a conversation log: the physical lines of a file, each with its
//! byte offset.

use vstd::prelude::*;
use vstd::slice::slice_subrange;
use vstd::utf8::{decode_utf8, encode_utf8, encode_utf8_decode_utf8, encode_utf8_valid_utf8, valid_utf8};

use crate::text::{trim, trim_spec};

verus! {

/// One physical line, line break included.
#[derive(Debug)]
pub struct RawLine {
    /// Byte offset of the line in the file.
    pub start: u64,
    /// The text of the line, where its bytes are UTF-8.
    pub text: Option<String>,
}

/// What a [`RawLine`] holds.
pub struct RawLineView {
    pub start: u64,
    pub text: Option<Seq<char>>,
}

impl DeepView for RawLine {
    type V = RawLineView;

    open spec fn deep_view(&self) -> RawLineView {
        RawLineView { start: self.start, text: self.text.deep_view() }
    }
}

/// The text that `bytes` encode, if they are UTF-8.
pub open spec fn text_of(bytes: Seq<u8>) -> Option<Seq<char>> {
    if valid_utf8(bytes) {
        Some(decode_utf8(bytes))
    } else {
        None
    }
}

/// The end of the line that holds byte `from`: one past its line break, or
/// the end of the file.
pub open spec fn line_end(bytes: Seq<u8>, from: int) -> int
    decreases bytes.len() - from,
{
    if from < 0 || from >= bytes.len() {
        bytes.len() as int
    } else if bytes[from] == 10 {
        from + 1
    } else {
        line_end(bytes, from + 1)
    }
}

/// The lines of the file from byte `from` on.
pub open spec fn lines_from(bytes: Seq<u8>, from: int) -> Seq<RawLineView>
    decreases bytes.len() - from,
{
    if from < 0 || from >= bytes.len() {
        Seq::empty()
    } else {
        let end = line_end(bytes, from);
        let line = RawLineView { start: from as u64, text: text_of(bytes.subrange(from, end)) };
        if from < end <= bytes.len() {
            seq![line] + lines_from(bytes, end)
        } else {
            seq![line]
        }
    }
}

/// The text of the line at byte `abs`, from that byte on, without the white
/// space around it.
pub open spec fn text_at_spec(bytes: Seq<u8>, abs: u64) -> Option<Seq<char>> {
    if abs < bytes.len() {
        match text_of(bytes.subrange(abs as int, line_end(bytes, abs as int))) {
            Some(t) => Some(trim_spec(t)),
            None => None,
        }
    } else {
        None
    }
}

/// `std::str::from_utf8`: gives the text that the bytes encode; it fails
/// exactly when they are not UTF-8.
#[verifier::external_body]
fn utf8_text(bytes: &[u8]) -> (r: Option<String>)
    ensures
        match r {
            Some(s) => encode_utf8(s@) == bytes@,
            None => !valid_utf8(bytes@),
        },
{
    std::str::from_utf8(bytes).ok().map(|s| s.to_owned())
}

/// The text that a range of the file encodes, if it is UTF-8.
fn range_text(bytes: &Vec<u8>, from: usize, to: usize) -> (r: Option<String>)
    requires
        from <= to <= bytes.len(),
    ensures
        r.deep_view() == text_of(bytes@.subrange(from as int, to as int)),
{
    let r = utf8_text(slice_subrange(bytes.as_slice(), from, to));
    proof {
        if let Some(s) = &r {
            encode_utf8_valid_utf8(s@);
            encode_utf8_decode_utf8(s@);
        }
    }
    r
}

fn find_line_end(bytes: &Vec<u8>, from: usize) -> (end: usize)
    requires
        from <= bytes.len(),
    ensures
        end == line_end(bytes@, from as int),
        from <= end <= bytes.len(),
        from < bytes.len() ==> from < end,
{
    let mut i: usize = from;
    while i < bytes.len()
        invariant
            from <= i <= bytes.len(),
            line_end(bytes@, from as int) == line_end(bytes@, i as int),
        decreases bytes.len() - i,
    {
        if bytes[i] == 10 {
            return i + 1;
        }
        i = i + 1;
    }
    i
}

/// The lines of a file.
pub fn split_lines(bytes: &Vec<u8>) -> (lines: Vec<RawLine>)
    ensures
        lines.deep_view() == lines_from(bytes@, 0),
{
    let mut lines: Vec<RawLine> = Vec::new();
    let mut at: usize = 0;
    assert(lines.deep_view() + lines_from(bytes@, 0) =~= lines_from(bytes@, 0));
    while at < bytes.len()
        invariant
            at <= bytes.len(),
            lines.deep_view() + lines_from(bytes@, at as int) == lines_from(bytes@, 0),
        decreases bytes.len() - at,
    {
        let end = find_line_end(bytes, at);
        let line = RawLine { start: at as u64, text: range_text(bytes, at, end) };
        let ghost before = lines.deep_view();
        lines.push(line);
        assert(lines.deep_view() =~= before.push(line.deep_view()));
        assert(before + lines_from(bytes@, at as int) =~= lines.deep_view() + lines_from(
            bytes@,
            end as int,
        ));
        at = end;
    }
    assert(lines.deep_view() =~= lines.deep_view() + lines_from(bytes@, at as int));
    lines
}

/// The trimmed text of the line at byte `abs`, from that byte on.
pub fn text_at(bytes: &Vec<u8>, abs: u64) -> (r: Option<String>)
    ensures
        r.deep_view() == text_at_spec(bytes@, abs),
{
    if abs < bytes.len() as u64 {
        let from: usize = abs as usize;
        let end = find_line_end(bytes, from);
        match range_text(bytes, from, end) {
            Some(t) => Some(trim(t.as_str())),
            None => None,
        }
    } else {
        None
    }
}

// ── Laws ────────────────────────────────────────────────────────────────

/// The lines of a file start at strictly increasing offsets, the first of them
/// at `from`, all of them inside the file.
pub proof fn lines_start_in_order(bytes: Seq<u8>, from: int)
    requires
        0 <= from,
        bytes.len() <= u64::MAX,
    ensures
        ({
            let lines = lines_from(bytes, from);
            &&& lines.len() > 0 ==> lines[0].start == from
            &&& forall|i: int| 0 <= i < lines.len() ==> from <= (#[trigger] lines[i]).start
                < bytes.len()
            &&& forall|i: int, j: int|
                0 <= i < j < lines.len() ==> (#[trigger] lines[i]).start < (
                #[trigger] lines[j]).start
        }),
    decreases bytes.len() - from,
{
    if from < bytes.len() {
        lemma_line_end(bytes, from);
        let end = line_end(bytes, from);
        lines_start_in_order(bytes, end);
        let tail = lines_from(bytes, end);
        let lines = lines_from(bytes, from);
        assert forall|i: int| 1 <= i < lines.len() implies #[trigger] lines[i] == tail[i - 1] by {}
    }
}

proof fn lemma_line_end(bytes: Seq<u8>, from: int)
    requires
        0 <= from < bytes.len(),
    ensures
        from < line_end(bytes, from) <= bytes.len(),
    decreases bytes.len() - from,
{
    if from + 1 < bytes.len() {
        lemma_line_end(bytes, from + 1);
    } else {
        assert(line_end(bytes, from + 1) == bytes.len());
    }
}

/// A line ends behind the first line break, else with the file.
pub proof fn lines_end_behind_their_break(bytes: Seq<u8>, from: int)
    requires
        0 <= from <= bytes.len(),
    ensures
        ({
            let end = line_end(bytes, from);
            &&& from <= end <= bytes.len()
            &&& from < bytes.len() ==> from < end
            &&& forall|i: int| from <= i < end - 1 ==> #[trigger] bytes[i] != 10
            &&& end < bytes.len() ==> bytes[end - 1] == 10
        }),
    decreases bytes.len() - from,
{
    if from < bytes.len() && bytes[from] != 10 {
        lines_end_behind_their_break(bytes, from + 1);
    }
}

/// Every byte of the file belongs to one line: each line goes to where the next
/// one starts, and the last one to the end.
pub proof fn lines_hold_the_whole_file(bytes: Seq<u8>, from: int, i: int)
    requires
        0 <= from,
        bytes.len() <= u64::MAX,
        0 <= i < lines_from(bytes, from).len(),
    ensures
        ({
            let lines = lines_from(bytes, from);
            let start = lines[i].start as int;
            let end = if i + 1 < lines.len() {
                lines[i + 1].start as int
            } else {
                bytes.len() as int
            };
            &&& start < end
            &&& lines[i].text == text_of(bytes.subrange(start, end))
            &&& forall|k: int| start <= k < end - 1 ==> #[trigger] bytes[k] != 10
            &&& i + 1 < lines.len() ==> bytes[end - 1] == 10
        }),
    decreases bytes.len() - from,
{
    let lines = lines_from(bytes, from);
    if from < bytes.len() {
        let end = line_end(bytes, from);
        lines_end_behind_their_break(bytes, from);
        let rest = lines_from(bytes, end);
        lines_start_in_order(bytes, end);
        assert(lines[0].start == from);
        if end >= bytes.len() {
            assert(rest.len() == 0);
        } else {
            assert(rest.len() > 0);
        }
        if i > 0 {
            assert(lines[i] == rest[i - 1]);
            lines_hold_the_whole_file(bytes, end, i - 1);
            if i + 1 < lines.len() {
                assert(lines[i + 1] == rest[i]);
            }
        } else if lines.len() > 1 {
            assert(lines[1] == rest[0]);
        }
    }
}

/// A text is UTF-8 or is not read; what is read are the very bytes.
pub proof fn texts_are_their_bytes(bytes: Seq<u8>)
    ensures
        text_of(bytes) is Some <==> valid_utf8(bytes),
        text_of(bytes) matches Some(t) ==> t == decode_utf8(bytes),
{
}

/// Where a line is looked up by its place, its text is given without the space
/// around it; behind the end there is none.
pub proof fn lines_are_looked_up_by_place(bytes: Seq<u8>, i: int, abs: u64)
    requires
        bytes.len() <= u64::MAX,
        0 <= i < lines_from(bytes, 0).len(),
    ensures
        ({
            let line = lines_from(bytes, 0)[i];
            &&& line.text matches Some(t) ==> text_at_spec(bytes, line.start) == Some(trim_spec(t))
            &&& line.text is None ==> text_at_spec(bytes, line.start) is None
        }),
        abs >= bytes.len() ==> text_at_spec(bytes, abs) is None,
{
    lines_hold_the_whole_file(bytes, 0, i);
    lines_start_in_order(bytes, 0);
    let lines = lines_from(bytes, 0);
    let start = lines[i].start as int;
    let end = if i + 1 < lines.len() {
        lines[i + 1].start as int
    } else {
        bytes.len() as int
    };
    lines_end_behind_their_break(bytes, start);
    let e = line_end(bytes, start);
    if e < end {
        assert(bytes[e - 1] == 10);
    }
    if end < e {
        assert(bytes[end - 1] == 10);
    }
    assert(e == end);
}

} // verus!
