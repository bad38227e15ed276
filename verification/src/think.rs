//! Think blocks: the reasoning that a model writes inline, between tags, in
//! front of or inside its answer.
//!
//! Two tag formats are known: `<think>` … `</think>` and, for MiniMax,
//! `<!think>` … `willReturn`.

use vstd::prelude::*;

use crate::text::{
    chars_of, find_from, find_spec, has_text, lemma_find, occurs_at, string_of, trim,
    trim_end_spec, trim_spec, trim_start_spec,
};

verus! {

/// Removes every block that starts with `open` and ends with `close`. A block
/// that is never closed extends to the end of the text.
pub open spec fn strip_pair(s: Seq<char>, open: Seq<char>, close: Seq<char>) -> Seq<char>
    decreases s.len(),
{
    match find_spec(s, open, 0) {
        None => s,
        Some(i) => match find_spec(s, close, i + open.len()) {
            None => s.take(i),
            Some(j) => {
                let rest = s.take(i) + s.skip(j + close.len());
                if rest.len() < s.len() {
                    strip_pair(rest, open, close)
                } else {
                    s
                }
            },
        },
    }
}

/// Whether either opening tag stands in the text.
pub open spec fn has_think_tag(s: Seq<char>) -> bool {
    has_text(s, "<think>"@) || has_text(s, "<!think>"@)
}

/// The text that remains once every think block of either format is removed.
/// Text without a think block is kept as it is; otherwise the white space
/// left at either end goes too.
pub open spec fn strip_think_spec(s: Seq<char>) -> Seq<char> {
    if has_think_tag(s) {
        trim_spec(
            strip_pair(
                strip_pair(s, "<think>"@, "</think>"@),
                "<!think>"@,
                "willReturn"@,
            ),
        )
    } else {
        s
    }
}

/// The content of the first standard think block: what stands between the
/// first `<think>` of the text and the next `</think>` behind it, trimmed, if
/// there is at least one character between them. A closing tag in front of the
/// block does not count.
pub open spec fn extract_think_spec(s: Seq<char>) -> Option<Seq<char>> {
    match find_spec(s, "<think>"@, 0) {
        Some(i) => match find_spec(s, "</think>"@, i + 7) {
            Some(j) => if j > i + 7 {
                Some(trim_spec(s.subrange(i + 7, j)))
            } else {
                None
            },
            None => None,
        },
        None => None,
    }
}

/// Extract content inside `<think>...</think>` tags if present.
pub fn extract_think_block(content: &str) -> (r: Option<String>)
    ensures
        r.deep_view() == extract_think_spec(content@),
{
    proof {
        reveal_strlit("<think>");
        reveal_strlit("</think>");
        lemma_find(content@, "<think>"@, 0);
    }
    let chars = chars_of(content);
    let start_tag = chars_of("<think>");
    let end_tag = chars_of("</think>");
    let start: usize = match find_from(&chars, &start_tag, 0) {
        Some(i) => i,
        None => {
            return None;
        },
    };
    let from: usize = start + start_tag.len();
    proof {
        lemma_find(content@, "</think>"@, from as int);
    }
    let end: usize = match find_from(&chars, &end_tag, from) {
        Some(i) => i,
        None => {
            return None;
        },
    };
    if end <= from {
        return None;
    }
    let inner = string_of(&chars, from, end);
    Some(trim(inner.as_str()))
}

/// Removes every block of one tag format from `chars`.
fn strip_blocks(chars: Vec<char>, open: &Vec<char>, close: &Vec<char>) -> (r: Vec<char>)
    requires
        open.len() > 0,
    ensures
        r@ == strip_pair(chars@, open@, close@),
{
    let mut cur = chars;
    loop
        invariant
            open.len() > 0,
            strip_pair(chars@, open@, close@) == strip_pair(cur@, open@, close@),
        decreases cur.len(),
    {
        proof {
            lemma_find(cur@, open@, 0);
        }
        let start: usize = match find_from(&cur, open, 0) {
            Some(i) => i,
            None => {
                return cur;
            },
        };
        proof {
            lemma_find(cur@, close@, start + open.len());
        }
        match find_from(&cur, close, start + open.len()) {
            None => {
                assert(cur@.take(start as int) =~= cur@.subrange(0, start as int));
                cur.truncate(start);
                return cur;
            },
            Some(end) => {
                let ghost whole = cur@;
                let mut tail = cur.split_off(end + close.len());
                cur.truncate(start);
                cur.append(&mut tail);
                assert(cur@ =~= whole.take(start as int) + whole.skip(end + close.len()));
            },
        }
    }
}

/// Remove think blocks from content, returning the remaining text.
///
/// Supports two tag formats:
///   - Standard: `<think>...</think>`
///   - MiniMax:  `<!think>...willReturn`
///
/// All occurrences of both formats are stripped. If no think blocks are found,
/// the content is returned unchanged.
pub fn strip_think_block(content: &str) -> (r: String)
    ensures
        r@ == strip_think_spec(content@),
{
    proof {
        reveal_strlit("<think>");
        reveal_strlit("<!think>");
    }
    let found = crate::text::contains(content, "<think>") || crate::text::contains(
        content,
        "<!think>",
    );
    if !found {
        return content.to_owned();
    }
    let standard = strip_blocks(chars_of(content), &chars_of("<think>"), &chars_of("</think>"));
    let rest = strip_blocks(standard, &chars_of("<!think>"), &chars_of("willReturn"));
    let n: usize = rest.len();
    let text = string_of(&rest, 0, n);
    assert(rest@.subrange(0, n as int) =~= rest@);
    trim(text.as_str())
}

// ── Laws ────────────────────────────────────────────────────────────────

/// A pass over one tag format leaves no opening tag of that format behind.
pub proof fn strip_pair_leaves_no_tag(s: Seq<char>, open: Seq<char>, close: Seq<char>)
    requires
        open.len() > 0,
    ensures
        !has_text(strip_pair(s, open, close), open),
    decreases s.len(),
{
    lemma_find(s, open, 0);
    if let Some(i) = find_spec(s, open, 0) {
        lemma_find(s, close, i + open.len());
        match find_spec(s, close, i + open.len()) {
            None => {
                let r = s.take(i);
                assert forall|k: int| !occurs_at(r, open, k) by {
                    if occurs_at(r, open, k) {
                        assert(s.subrange(k, k + open.len()) =~= r.subrange(k, k + open.len()));
                        assert(occurs_at(s, open, k));
                    }
                }
            },
            Some(j) => {
                let rest = s.take(i) + s.skip(j + close.len());
                strip_pair_leaves_no_tag(rest, open, close);
            },
        }
    }
}

/// What stands in a piece of a text stands in the text.
proof fn lemma_occurs_in_part(s: Seq<char>, a: int, b: int, pat: Seq<char>)
    requires
        0 <= a <= b <= s.len(),
        has_text(s.subrange(a, b), pat),
    ensures
        has_text(s, pat),
{
    let part = s.subrange(a, b);
    let k = choose|k: int| occurs_at(part, pat, k);
    assert(s.subrange(a + k, a + k + pat.len()) =~= part.subrange(k, k + pat.len()));
    assert(occurs_at(s, pat, a + k));
}

/// Trimming only cuts: the trimmed text is a piece of the text.
proof fn lemma_trim_is_part(s: Seq<char>) -> (cut: (int, int))
    ensures
        0 <= cut.0 <= cut.1 <= s.len(),
        trim_spec(s) == s.subrange(cut.0, cut.1),
{
    let a = lemma_trim_start_is_part(s);
    let t = trim_start_spec(s);
    let n = lemma_trim_end_is_part(t);
    assert(trim_spec(s) =~= s.subrange(a, a + n));
    (a, a + n)
}

proof fn lemma_trim_start_is_part(s: Seq<char>) -> (a: int)
    ensures
        0 <= a <= s.len(),
        trim_start_spec(s) == s.subrange(a, s.len() as int),
    decreases s.len(),
{
    if s.len() > 0 && crate::text::is_space(s[0]) {
        let a = lemma_trim_start_is_part(s.drop_first());
        assert(s.drop_first().subrange(a, s.len() - 1) =~= s.subrange(a + 1, s.len() as int));
        a + 1
    } else {
        assert(s =~= s.subrange(0, s.len() as int));
        0
    }
}

proof fn lemma_trim_end_is_part(s: Seq<char>) -> (n: int)
    ensures
        0 <= n <= s.len(),
        trim_end_spec(s) == s.subrange(0, n),
    decreases s.len(),
{
    if s.len() > 0 && crate::text::is_space(s.last()) {
        let n = lemma_trim_end_is_part(s.drop_last());
        assert(s.drop_last().subrange(0, n) =~= s.subrange(0, n));
        n
    } else {
        assert(s =~= s.subrange(0, s.len() as int));
        s.len() as int
    }
}

/// No MiniMax think block survives: the stripped text never holds `<!think>`.
pub proof fn stripped_text_has_no_minimax_tag(s: Seq<char>)
    ensures
        !has_text(strip_think_spec(s), "<!think>"@),
{
    if has_think_tag(s) {
        reveal_strlit("<!think>");
        let standard = strip_pair(s, "<think>"@, "</think>"@);
        let rest = strip_pair(standard, "<!think>"@, "willReturn"@);
        strip_pair_leaves_no_tag(standard, "<!think>"@, "willReturn"@);
        let cut = lemma_trim_is_part(rest);
        if has_text(trim_spec(rest), "<!think>"@) {
            lemma_occurs_in_part(rest, cut.0, cut.1, "<!think>"@);
        }
    }
}

/// No standard think block survives in a text that has no MiniMax block once
/// its standard blocks are gone.
pub proof fn stripped_text_has_no_standard_tag(s: Seq<char>)
    requires
        !has_text(strip_pair(s, "<think>"@, "</think>"@), "<!think>"@),
    ensures
        !has_text(strip_think_spec(s), "<think>"@),
{
    if has_think_tag(s) {
        reveal_strlit("<think>");
        let standard = strip_pair(s, "<think>"@, "</think>"@);
        strip_pair_leaves_no_tag(s, "<think>"@, "</think>"@);
        lemma_find(standard, "<!think>"@, 0);
        let cut = lemma_trim_is_part(standard);
        if has_text(trim_spec(standard), "<think>"@) {
            lemma_occurs_in_part(standard, cut.0, cut.1, "<think>"@);
        }
    }
}

/// Text without think tags comes back unchanged; so stripping a second time
/// changes nothing wherever the first pass left no standard tag.
pub proof fn strip_is_idempotent(s: Seq<char>)
    requires
        !has_text(strip_think_spec(s), "<think>"@),
    ensures
        strip_think_spec(strip_think_spec(s)) == strip_think_spec(s),
        !has_think_tag(s) ==> strip_think_spec(s) == s,
{
    stripped_text_has_no_minimax_tag(s);
}

proof fn lemma_first_found(s: Seq<char>, pat: Seq<char>, from: int, i: int)
    requires
        0 <= from <= i,
        occurs_at(s, pat, i),
        forall|k: int| from <= k < i ==> !#[trigger] occurs_at(s, pat, k),
    ensures
        find_spec(s, pat, from) == Some(i),
    decreases i - from,
{
    if from < i {
        assert(!occurs_at(s, pat, from));
        lemma_first_found(s, pat, from + 1, i);
    }
}

proof fn lemma_none_found(s: Seq<char>, pat: Seq<char>, from: int)
    requires
        0 <= from,
        forall|k: int| from <= k ==> !#[trigger] occurs_at(s, pat, k),
    ensures
        find_spec(s, pat, from) is None,
    decreases s.len() + 1 - from,
{
    if from + pat.len() <= s.len() {
        assert(!occurs_at(s, pat, from));
        lemma_none_found(s, pat, from + 1);
    }
}

/// The first block, from its opening tag to the first closing tag behind that,
/// is taken out, and what stood around it is joined; what follows is treated
/// alike.
pub proof fn blocks_are_taken_out(
    s: Seq<char>,
    open: Seq<char>,
    close: Seq<char>,
    i: int,
    j: int,
)
    requires
        open.len() > 0,
        occurs_at(s, open, i),
        forall|k: int| 0 <= k < i ==> !#[trigger] occurs_at(s, open, k),
        i + open.len() <= j,
        occurs_at(s, close, j),
        forall|k: int| i + open.len() <= k < j ==> !#[trigger] occurs_at(s, close, k),
    ensures
        strip_pair(s, open, close) == strip_pair(s.take(i) + s.skip(j + close.len()), open, close),
{
    lemma_first_found(s, open, 0, i);
    lemma_first_found(s, close, i + open.len(), j);
}

/// A block that is never closed goes to the end of the text, and a text without
/// an opening tag stays as it is.
pub proof fn open_blocks_go_to_the_end(s: Seq<char>, open: Seq<char>, close: Seq<char>, i: int)
    requires
        open.len() > 0,
        forall|k: int| 0 <= k < i ==> !#[trigger] occurs_at(s, open, k),
    ensures
        occurs_at(s, open, i) && (forall|k: int|
            i + open.len() <= k ==> !#[trigger] occurs_at(s, close, k)) ==> strip_pair(
            s,
            open,
            close,
        ) == s.take(i),
        i >= s.len() ==> strip_pair(s, open, close) == s,
{
    if occurs_at(s, open, i) && (forall|k: int|
        i + open.len() <= k ==> !#[trigger] occurs_at(s, close, k)) {
        lemma_first_found(s, open, 0, i);
        lemma_none_found(s, close, i + open.len());
    }
    if i >= s.len() {
        assert forall|k: int| 0 <= k implies !#[trigger] occurs_at(s, open, k) by {
            if k >= i && occurs_at(s, open, k) {
                assert(k + open.len() <= s.len());
            }
        }
        lemma_none_found(s, open, 0);
    }
}

/// The thought of an answer is what stands in its first think block, without
/// the space around it; an empty block, one that is never closed, or none, gives
/// no thought.
pub proof fn thoughts_stand_in_the_first_block(s: Seq<char>, i: int, j: int)
    requires
        occurs_at(s, "<think>"@, i),
        forall|k: int| 0 <= k < i ==> !#[trigger] occurs_at(s, "<think>"@, k),
        i + 7 <= j,
        forall|k: int| i + 7 <= k < j ==> !#[trigger] occurs_at(s, "</think>"@, k),
    ensures
        occurs_at(s, "</think>"@, j) && j > i + 7 ==> extract_think_spec(s) == Some(
            trim_spec(s.subrange(i + 7, j)),
        ),
        occurs_at(s, "</think>"@, j) && j == i + 7 ==> extract_think_spec(s) is None,
        j >= s.len() ==> extract_think_spec(s) is None,
{
    reveal_strlit("</think>");
    lemma_first_found(s, "<think>"@, 0, i);
    if occurs_at(s, "</think>"@, j) {
        lemma_first_found(s, "</think>"@, i + 7, j);
    } else if j >= s.len() {
        assert forall|k: int| i + 7 <= k implies !#[trigger] occurs_at(s, "</think>"@, k) by {
            if k >= j && occurs_at(s, "</think>"@, k) {
                assert(k + 8 <= s.len());
            }
        }
        lemma_none_found(s, "</think>"@, i + 7);
    }
}

/// A text without think tags holds no thought, and is left as it is, the space
/// around it too.
pub proof fn plain_texts_are_left_alone(s: Seq<char>)
    requires
        !has_text(s, "<think>"@),
    ensures
        extract_think_spec(s) is None,
        !has_text(s, "<!think>"@) ==> strip_think_spec(s) == s,
{
    assert forall|k: int| 0 <= k implies !#[trigger] occurs_at(s, "<think>"@, k) by {}
    lemma_none_found(s, "<think>"@, 0);
}

/// A text with one think block, and no tag in front of it or in what is left,
/// is what stands around the block, without the space around that.
pub proof fn one_block_is_stripped(s: Seq<char>, i: int, j: int)
    requires
        occurs_at(s, "<think>"@, i),
        forall|k: int| 0 <= k < i ==> !#[trigger] occurs_at(s, "<think>"@, k),
        i + 7 <= j,
        occurs_at(s, "</think>"@, j),
        forall|k: int| i + 7 <= k < j ==> !#[trigger] occurs_at(s, "</think>"@, k),
        !has_think_tag(s.take(i) + s.skip(j + 8)),
    ensures
        strip_think_spec(s) == trim_spec(s.take(i) + s.skip(j + 8)),
{
    reveal_strlit("<think>");
    reveal_strlit("</think>");
    reveal_strlit("<!think>");
    let rest = s.take(i) + s.skip(j + 8);
    blocks_are_taken_out(s, "<think>"@, "</think>"@, i, j);
    assert forall|k: int| 0 <= k implies !#[trigger] occurs_at(rest, "<think>"@, k) by {}
    assert forall|k: int| 0 <= k implies !#[trigger] occurs_at(rest, "<!think>"@, k) by {}
    lemma_none_found(rest, "<think>"@, 0);
    lemma_none_found(rest, "<!think>"@, 0);
    assert(has_text(s, "<think>"@));
}

} // verus!
