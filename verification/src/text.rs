//! Text primitives: comparison, search, trimming and decimal rendering over
//! the characters of a string.

use vstd::prelude::*;

verus! {

// ── Building and comparing strings ──────────────────────────────────────

/// Whether two strings hold the same characters.
pub(crate) fn same_text(a: &str, b: &str) -> (same: bool)
    ensures
        same == (a@ == b@),
{
    let x = chars_of(a);
    let y = chars_of(b);
    if x.len() != y.len() {
        return false;
    }
    let mut i: usize = 0;
    while i < x.len()
        invariant
            i <= x.len(),
            x.len() == y.len(),
            x@ == a@,
            y@ == b@,
            forall|j: int| 0 <= j < i ==> x@[j] == y@[j],
        decreases x.len() - i,
    {
        if x[i] != y[i] {
            return false;
        }
        i = i + 1;
    }
    assert(a@ =~= b@);
    true
}

/// `String::push`: appends one character to the end.
pub assume_specification[ String::push ](s: &mut String, ch: char)
    ensures
        final(s)@ == old(s)@.push(ch),
;

/// Whether `list` holds `s`.
pub fn list_contains(list: &Vec<String>, s: &str) -> (r: bool)
    ensures
        r == list.deep_view().contains(s@),
{
    let mut i: usize = 0;
    while i < list.len()
        invariant
            i <= list.len(),
            forall|j: int| 0 <= j < i ==> (#[trigger] list.deep_view()[j]) != s@,
        decreases list.len() - i,
    {
        assert(list.deep_view()[i as int] == list@[i as int]@);
        if same_text(list[i].as_str(), s) {
            return true;
        }
        i = i + 1;
    }
    false
}

// ── Characters of a string ──────────────────────────────────────────────

/// The characters of `s`, in order.
pub fn chars_of(s: &str) -> (chars: Vec<char>)
    ensures
        chars@ == s@,
{
    let mut chars: Vec<char> = Vec::new();
    for c in it: s.chars()
        invariant
            it.seq() == s@,
            chars@ == s@.take(it.index() as int),
    {
        chars.push(c);
        assert(s@.take(it.index() as int).push(c) =~= s@.take(it.index() + 1));
    }
    assert(s@.take(s@.len() as int) =~= s@);
    chars
}

/// The string made of `chars[from..to]`.
pub fn string_of(chars: &Vec<char>, from: usize, to: usize) -> (s: String)
    requires
        from <= to <= chars.len(),
    ensures
        s@ == chars@.subrange(from as int, to as int),
{
    let mut s = String::new();
    let mut i: usize = from;
    while i < to
        invariant
            from <= i <= to <= chars.len(),
            s@ == chars@.subrange(from as int, i as int),
        decreases to - i,
    {
        s.push(chars[i]);
        i = i + 1;
        assert(chars@.subrange(from as int, i as int) =~= chars@.subrange(
            from as int,
            i - 1,
        ).push(chars@[i - 1]));
    }
    s
}

// ── White space ─────────────────────────────────────────────────────────

/// Unicode `White_Space`.
pub open spec fn is_space(c: char) -> bool {
    let n = c as u32;
    ||| 0x9 <= n <= 0xD
    ||| n == 0x20
    ||| n == 0x85
    ||| n == 0xA0
    ||| n == 0x1680
    ||| 0x2000 <= n <= 0x200A
    ||| n == 0x2028
    ||| n == 0x2029
    ||| n == 0x202F
    ||| n == 0x205F
    ||| n == 0x3000
}

pub fn char_is_space(c: char) -> (space: bool)
    ensures
        space == is_space(c),
{
    let n: u32 = c as u32;
    (0x9 <= n && n <= 0xD) || n == 0x20 || n == 0x85 || n == 0xA0 || n == 0x1680 || (0x2000 <= n
        && n <= 0x200A) || n == 0x2028 || n == 0x2029 || n == 0x202F || n == 0x205F || n == 0x3000
}

/// `s` without its leading white space.
pub open spec fn trim_start_spec(s: Seq<char>) -> Seq<char>
    decreases s.len(),
{
    if s.len() > 0 && is_space(s[0]) {
        trim_start_spec(s.drop_first())
    } else {
        s
    }
}

/// `s` without its trailing white space.
pub open spec fn trim_end_spec(s: Seq<char>) -> Seq<char>
    decreases s.len(),
{
    if s.len() > 0 && is_space(s.last()) {
        trim_end_spec(s.drop_last())
    } else {
        s
    }
}

/// `s` without the white space at either end.
pub open spec fn trim_spec(s: Seq<char>) -> Seq<char> {
    trim_end_spec(trim_start_spec(s))
}

/// The index of the first character of `chars` that is not white space, or
/// the length.
fn space_prefix(chars: &Vec<char>) -> (n: usize)
    ensures
        n <= chars.len(),
        trim_start_spec(chars@) == chars@.skip(n as int),
{
    let mut n: usize = 0;
    assert(chars@.skip(0) =~= chars@);
    while n < chars.len() && char_is_space(chars[n])
        invariant
            n <= chars.len(),
            trim_start_spec(chars@) == trim_start_spec(chars@.skip(n as int)),
        decreases chars.len() - n,
    {
        assert(chars@.skip(n as int).drop_first() =~= chars@.skip(n + 1));
        n = n + 1;
    }
    n
}

/// The end of `chars[from..]` once trailing white space is dropped.
fn space_suffix(chars: &Vec<char>, from: usize) -> (n: usize)
    requires
        from <= chars.len(),
    ensures
        from <= n <= chars.len(),
        trim_end_spec(chars@.skip(from as int)) == chars@.subrange(from as int, n as int),
{
    let mut n: usize = chars.len();
    assert(chars@.subrange(from as int, n as int) =~= chars@.skip(from as int));
    while n > from && char_is_space(chars[n - 1])
        invariant
            from <= n <= chars.len(),
            trim_end_spec(chars@.skip(from as int)) == trim_end_spec(
                chars@.subrange(from as int, n as int),
            ),
        decreases n,
    {
        assert(chars@.subrange(from as int, n as int).drop_last() =~= chars@.subrange(
            from as int,
            n - 1,
        ));
        n = n - 1;
    }
    n
}

/// `s` without the white space at either end.
pub fn trim(s: &str) -> (r: String)
    ensures
        r@ == trim_spec(s@),
{
    let chars = chars_of(s);
    let from = space_prefix(&chars);
    let to = space_suffix(&chars, from);
    string_of(&chars, from, to)
}

/// `s` without its leading white space.
pub fn trim_start(s: &str) -> (r: String)
    ensures
        r@ == trim_start_spec(s@),
{
    let chars = chars_of(s);
    let from = space_prefix(&chars);
    assert(chars@.skip(from as int) =~= chars@.subrange(from as int, chars@.len() as int));
    string_of(&chars, from, chars.len())
}

// ── Search ──────────────────────────────────────────────────────────────

/// `pat` stands in `s` at index `i`.
pub open spec fn occurs_at(s: Seq<char>, pat: Seq<char>, i: int) -> bool {
    0 <= i && i + pat.len() <= s.len() && s.subrange(i, i + pat.len()) == pat
}

/// `pat` stands somewhere in `s`.
pub open spec fn has_text(s: Seq<char>, pat: Seq<char>) -> bool {
    exists|i: int| occurs_at(s, pat, i)
}

/// The least index at or after `from` where `pat` stands in `s`.
pub open spec fn find_spec(s: Seq<char>, pat: Seq<char>, from: int) -> Option<int>
    decreases s.len() + 1 - from,
{
    if from < 0 || from + pat.len() > s.len() {
        None
    } else if occurs_at(s, pat, from) {
        Some(from)
    } else {
        find_spec(s, pat, from + 1)
    }
}

/// What `find_spec` promises: the index it gives is an occurrence and the
/// first one; where it gives none, there is none.
pub proof fn lemma_find(s: Seq<char>, pat: Seq<char>, from: int)
    requires
        0 <= from,
    ensures
        find_spec(s, pat, from) matches Some(i) ==> {
            &&& from <= i
            &&& occurs_at(s, pat, i)
            &&& forall|j: int| from <= j < i ==> !occurs_at(s, pat, j)
        },
        find_spec(s, pat, from) is None ==> forall|j: int| from <= j ==> !occurs_at(s, pat, j),
    decreases s.len() + 1 - from,
{
    if from + pat.len() <= s.len() && !occurs_at(s, pat, from) {
        lemma_find(s, pat, from + 1);
    }
}

/// The occurrence test of `find_spec` at one index.
fn occurs_here(s: &Vec<char>, pat: &Vec<char>, i: usize) -> (here: bool)
    requires
        i + pat.len() <= s.len(),
    ensures
        here == occurs_at(s@, pat@, i as int),
{
    let mut k: usize = 0;
    while k < pat.len()
        invariant
            k <= pat.len(),
            i + pat.len() <= s.len(),
            forall|j: int| 0 <= j < k ==> s@[i + j] == pat@[j],
        decreases pat.len() - k,
    {
        if s[i + k] != pat[k] {
            assert(s@.subrange(i as int, i + pat.len())[k as int] != pat@[k as int]);
            return false;
        }
        k = k + 1;
    }
    assert(s@.subrange(i as int, i + pat.len()) =~= pat@);
    true
}

/// The least index at or after `from` where `pat` stands in `s`.
pub fn find_from(s: &Vec<char>, pat: &Vec<char>, from: usize) -> (r: Option<usize>)
    ensures
        match r {
            Some(i) => find_spec(s@, pat@, from as int) == Some(i as int) && i + pat.len()
                <= s.len(),
            None => find_spec(s@, pat@, from as int) is None,
        },
{
    let mut i: usize = from;
    while i <= s.len() && pat.len() <= s.len() - i
        invariant
            from <= i,
            find_spec(s@, pat@, from as int) == find_spec(s@, pat@, i as int),
        decreases s.len() + 1 - i,
    {
        if occurs_here(s, pat, i) {
            return Some(i);
        }
        if i == s.len() {
            assert(find_spec(s@, pat@, i + 1) is None);
            return None;
        }
        i = i + 1;
    }
    None
}

/// Whether `pat` stands somewhere in `s`.
pub fn contains(s: &str, pat: &str) -> (r: bool)
    ensures
        r == has_text(s@, pat@),
{
    let hay = chars_of(s);
    let needle = chars_of(pat);
    let found = find_from(&hay, &needle, 0);
    proof {
        lemma_find(s@, pat@, 0);
        assert(find_spec(s@, pat@, 0) is Some ==> occurs_at(s@, pat@, find_spec(s@, pat@, 0)->0));
    }
    found.is_some()
}

/// Whether `s` begins with `pat`.
pub fn starts_with(s: &str, pat: &str) -> (r: bool)
    ensures
        r == occurs_at(s@, pat@, 0),
{
    let hay = chars_of(s);
    let needle = chars_of(pat);
    needle.len() <= hay.len() && occurs_here(&hay, &needle, 0)
}

// ── UTF-8 widths ────────────────────────────────────────────────────────

/// The number of bytes that UTF-8 gives a character.
pub open spec fn utf8_width(c: char) -> nat {
    let n = c as u32;
    if n < 0x80 {
        1
    } else if n < 0x800 {
        2
    } else if n < 0x1_0000 {
        3
    } else {
        4
    }
}

/// The number of bytes that UTF-8 gives a text.
pub open spec fn utf8_len(s: Seq<char>) -> nat
    decreases s.len(),
{
    if s.len() == 0 {
        0
    } else {
        utf8_len(s.drop_last()) + utf8_width(s.last())
    }
}

/// How many characters of `s`, counted from `from`, fit into `max` bytes.
pub open spec fn fitting(s: Seq<char>, from: int, max: int) -> int
    decreases s.len() - from,
{
    if from < 0 || from >= s.len() || utf8_width(s[from]) > max {
        0
    } else {
        1 + fitting(s, from + 1, max - utf8_width(s[from]))
    }
}

/// The longest start of `s` that takes at most `max` bytes and splits no
/// character.
pub open spec fn prefix_within(s: Seq<char>, max: nat) -> Seq<char> {
    s.take(fitting(s, 0, max as int))
}

/// What `fitting` promises.
pub proof fn lemma_fitting(s: Seq<char>, from: int, max: int)
    requires
        0 <= from <= s.len(),
        0 <= max,
    ensures
        0 <= fitting(s, from, max) <= s.len() - from,
        utf8_len(s.take(from + fitting(s, from, max))) <= utf8_len(s.take(from)) + max,
    decreases s.len() - from,
{
    if from < s.len() && utf8_width(s[from]) <= max {
        lemma_fitting(s, from + 1, max - utf8_width(s[from]));
        assert(s.take(from + 1).drop_last() =~= s.take(from));
    }
}

fn char_width(c: char) -> (w: usize)
    ensures
        w == utf8_width(c),
        1 <= w <= 4,
{
    let n: u32 = c as u32;
    if n < 0x80 {
        1
    } else if n < 0x800 {
        2
    } else if n < 0x1_0000 {
        3
    } else {
        4
    }
}

/// The number of bytes that UTF-8 gives the first `n` characters.
pub fn byte_len(chars: &Vec<char>, n: usize) -> (r: u128)
    requires
        n <= chars.len(),
    ensures
        r == utf8_len(chars@.take(n as int)),
{
    let mut r: u128 = 0;
    let mut i: usize = 0;
    while i < n
        invariant
            i <= n <= chars.len(),
            r == utf8_len(chars@.take(i as int)),
            r <= 4 * i,
        decreases n - i,
    {
        assert(chars@.take(i + 1).drop_last() =~= chars@.take(i as int));
        r = r + char_width(chars[i]) as u128;
        i = i + 1;
    }
    r
}

/// How many of the first characters of `chars` fit into `max` bytes.
pub fn count_fitting(chars: &Vec<char>, max: u128) -> (n: usize)
    ensures
        n <= chars.len(),
        n == fitting(chars@, 0, max as int),
{
    let mut n: usize = 0;
    let mut left: u128 = max;
    while n < chars.len() && char_width(chars[n]) as u128 <= left
        invariant
            n <= chars.len(),
            fitting(chars@, 0, max as int) == n + fitting(chars@, n as int, left as int),
        decreases chars.len() - n,
    {
        left = left - char_width(chars[n]) as u128;
        n = n + 1;
    }
    n
}

/// The longest start of `s` that takes at most `max` bytes and splits no
/// character.
pub fn truncate_utf8(s: &str, max: usize) -> (r: String)
    ensures
        r@ == prefix_within(s@, max as nat),
{
    let chars = chars_of(s);
    let n = count_fitting(&chars, max as u128);
    assert(chars@.subrange(0, n as int) =~= chars@.take(n as int));
    string_of(&chars, 0, n)
}

// ── Decimal rendering ───────────────────────────────────────────────────

/// The character of a decimal digit.
pub open spec fn digit_spec(d: nat) -> char {
    (48 + d) as char
}

/// `n` written in decimal, without leading zeros.
pub open spec fn decimal_spec(n: nat) -> Seq<char>
    decreases n,
{
    if n < 10 {
        seq![digit_spec(n)]
    } else {
        decimal_spec(n / 10).push(digit_spec(n % 10))
    }
}

fn digit(d: u128) -> (c: char)
    requires
        d < 10,
    ensures
        c == digit_spec(d as nat),
{
    match d {
        0 => '0',
        1 => '1',
        2 => '2',
        3 => '3',
        4 => '4',
        5 => '5',
        6 => '6',
        7 => '7',
        8 => '8',
        _ => '9',
    }
}

/// `n` written in decimal.
pub fn decimal_wide(n: u128) -> (s: String)
    ensures
        s@ == decimal_spec(n as nat),
    decreases n,
{
    if n < 10 {
        let mut s = String::new();
        s.push(digit(n));
        assert(s@ =~= decimal_spec(n as nat));
        s
    } else {
        let mut s = decimal_wide(n / 10);
        s.push(digit(n % 10));
        s
    }
}

/// `n` written in decimal.
pub fn decimal(n: u64) -> (s: String)
    ensures
        s@ == decimal_spec(n as nat),
{
    decimal_wide(n as u128)
}

/// `n` written in decimal, with a minus sign where it is negative.
pub open spec fn signed_decimal_spec(n: int) -> Seq<char> {
    if n < 0 {
        seq!['-'] + decimal_spec((-n) as nat)
    } else {
        decimal_spec(n as nat)
    }
}

/// `n` written in decimal, with a minus sign where it is negative.
pub fn signed_decimal(n: i64) -> (s: String)
    ensures
        s@ == signed_decimal_spec(n as int),
{
    if n < 0 {
        let size: u64 = (-(n + 1)) as u64 + 1;
        let mut s = String::new();
        s.push('-');
        assert(s@ =~= seq!['-']);
        s.append(decimal(size).as_str());
        s
    } else {
        decimal(n as u64)
    }
}

// ── Debug rendering ─────────────────────────────────────────────────────

/// What `format!("{:?}")` makes of a text: the text in quotes, escaped.
pub uninterp spec fn debug_str_text(s: Seq<char>) -> Seq<char>;

/// `std::fmt::Debug` of a `str`: the text in double quotes, with its special
/// characters escaped. How a character is escaped is left to the standard
/// library.
#[verifier::external_body]
pub(crate) fn debug_str(s: &str) -> (r: String)
    ensures
        r@ == debug_str_text(s@),
{
    format!("{:?}", s)
}

/// Texts in quotes, with a comma between each two.
pub open spec fn debug_items_text(list: Seq<Seq<char>>) -> Seq<char>
    decreases list.len(),
{
    if list.len() == 0 {
        Seq::empty()
    } else if list.len() == 1 {
        debug_str_text(list[0])
    } else {
        debug_items_text(list.drop_last()) + ", "@ + debug_str_text(list.last())
    }
}

/// A list of texts as it is shown to developers.
pub open spec fn debug_list_text(list: Seq<Seq<char>>) -> Seq<char> {
    "["@ + debug_items_text(list) + "]"@
}

/// A list of texts as it is shown to developers.
pub fn debug_list(list: &Vec<String>) -> (r: String)
    ensures
        r@ == debug_list_text(list.deep_view()),
{
    let ghost all = list.deep_view();
    let mut items = String::new();
    let mut i: usize = 0;
    assert(all.take(0) =~= Seq::empty());
    assert(items@ =~= debug_items_text(all.take(0)));
    while i < list.len()
        invariant
            i <= list.len(),
            all == list.deep_view(),
            items@ == debug_items_text(all.take(i as int)),
        decreases list.len() - i,
    {
        assert(all[i as int] == list@[i as int]@);
        assert(all.take(i + 1).drop_last() =~= all.take(i as int));
        if i > 0 {
            items.append(", ");
        }
        items.append(debug_str(list[i].as_str()).as_str());
        assert(items@ =~= debug_items_text(all.take(i + 1)));
        i = i + 1;
    }
    assert(all.take(list.len() as int) =~= all);
    join3("[", items.as_str(), "]")
}

// ── Joining ─────────────────────────────────────────────────────────────

/// Concatenation of two pieces of text.
pub fn join2(a: &str, b: &str) -> (s: String)
    ensures
        s@ == a@ + b@,
{
    let mut s = a.to_owned();
    s.append(b);
    s
}

/// Concatenation of three pieces of text.
pub fn join3(a: &str, b: &str, c: &str) -> (s: String)
    ensures
        s@ == a@ + b@ + c@,
{
    let mut s = a.to_owned();
    s.append(b);
    s.append(c);
    s
}

// ── Laws ────────────────────────────────────────────────────────────────

/// Trimming takes white space off both ends and nothing else: what is cut off
/// is white space, and what is left neither begins nor ends with any.
pub proof fn trimming_takes_only_outer_space(s: Seq<char>)
    ensures
        exists|a: int, b: int|
            0 <= a <= b <= s.len() && trim_spec(s) == #[trigger] s.subrange(a, b) && (forall|i: int|
                0 <= i < a || b <= i < s.len() ==> is_space(#[trigger] s[i])),
        trim_spec(s).len() > 0 ==> !is_space(trim_spec(s)[0]) && !is_space(trim_spec(s).last()),
{
    let (a, t) = lemma_trim_start(s);
    let b = lemma_trim_end(t);
    assert(trim_spec(s) =~= s.subrange(a, a + b));
    assert forall|i: int| 0 <= i < a || a + b <= i < s.len() implies is_space(
        #[trigger] s[i],
    ) by {
        if a + b <= i {
            assert(t[i - a] == s[i]);
        }
    }
    if b > 0 {
        assert(t.take(b)[0] == t[0]);
    }
}

proof fn lemma_trim_start(s: Seq<char>) -> (r: (int, Seq<char>))
    ensures
        0 <= r.0 <= s.len(),
        r.1 == s.skip(r.0),
        r.1 == trim_start_spec(s),
        forall|i: int| 0 <= i < r.0 ==> is_space(#[trigger] s[i]),
        r.1.len() > 0 ==> !is_space(r.1[0]),
    decreases s.len(),
{
    if s.len() > 0 && is_space(s[0]) {
        let rest = s.drop_first();
        let (a, t) = lemma_trim_start(rest);
        assert(t =~= s.skip(a + 1));
        assert forall|i: int| 0 <= i < a + 1 implies is_space(#[trigger] s[i]) by {
            if i > 0 {
                assert(rest[i - 1] == s[i]);
            }
        }
        (a + 1, t)
    } else {
        assert(s =~= s.skip(0));
        (0, s)
    }
}

proof fn lemma_trim_end(s: Seq<char>) -> (b: int)
    ensures
        0 <= b <= s.len(),
        trim_end_spec(s) == s.take(b),
        forall|i: int| b <= i < s.len() ==> is_space(#[trigger] s[i]),
        b > 0 ==> !is_space(s[b - 1]),
    decreases s.len(),
{
    if s.len() > 0 && is_space(s.last()) {
        let b = lemma_trim_end(s.drop_last());
        assert(s.drop_last().take(b) =~= s.take(b));
        assert forall|i: int| b <= i < s.len() implies is_space(#[trigger] s[i]) by {
            if i < s.len() - 1 {
                assert(s.drop_last()[i] == s[i]);
            }
        }
        if b > 0 {
            assert(s.drop_last()[b - 1] == s[b - 1]);
        }
        b
    } else {
        assert(s.take(s.len() as int) =~= s);
        s.len() as int
    }
}

/// White space is what separates words and lines; no visible character of
/// ASCII is, nor is any control character but those of lines and tabs.
pub proof fn visible_characters_are_no_space(c: char)
    ensures
        is_space(' ') && is_space('\t') && is_space('\n') && is_space('\r'),
        0x20 < c as u32 && (c as u32) < 0x7F ==> !is_space(c),
        (c as u32) < 0x9 ==> !is_space(c),
        is_space('\u{a0}') && is_space('\u{3000}') && is_space('\u{2003}'),
        c as u32 > 0x3000 ==> !is_space(c),
{
}

/// UTF-8 takes one byte for ASCII, two up to U+07FF, three up to U+FFFF and four
/// beyond; a text takes the bytes of its characters.
pub proof fn bytes_of_characters_add_up(s: Seq<char>, c: char)
    ensures
        c as u32 <= 0x7F ==> utf8_width(c) == 1,
        0x7F < c as u32 <= 0x7FF ==> utf8_width(c) == 2,
        0x7FF < c as u32 <= 0xFFFF ==> utf8_width(c) == 3,
        0xFFFF < c as u32 ==> utf8_width(c) == 4,
        utf8_len(Seq::<char>::empty()) == 0,
        utf8_len(s.push(c)) == utf8_len(s) + utf8_width(c),
{
    assert(s.push(c).drop_last() =~= s);
}

/// The start of a text within some bytes is the longest that fits: it takes no
/// more than them, and one character more would.
pub proof fn start_within_bytes_is_the_longest(s: Seq<char>, max: nat)
    ensures
        ({
            let start = prefix_within(s, max);
            &&& start.is_prefix_of(s)
            &&& utf8_len(start) <= max
            &&& start.len() < s.len() ==> utf8_len(s.take(start.len() as int + 1)) > max
        }),
{
    lemma_fitting(s, 0, max as int);
    assert(s.take(0) =~= Seq::empty());
    lemma_fitting_is_longest(s, 0, max as int);
}

proof fn lemma_fitting_is_longest(s: Seq<char>, from: int, max: int)
    requires
        0 <= from <= s.len(),
        0 <= max,
    ensures
        from + fitting(s, from, max) < s.len() ==> utf8_len(
            s.take(from + fitting(s, from, max) + 1),
        ) > utf8_len(s.take(from)) + max,
    decreases s.len() - from,
{
    if from < s.len() {
        assert(s.take(from + 1).drop_last() =~= s.take(from));
        if utf8_width(s[from]) <= max {
            lemma_fitting_is_longest(s, from + 1, max - utf8_width(s[from]));
        }
    }
}

/// The number that some decimal digits stand for.
pub open spec fn decimal_value(s: Seq<char>) -> int
    decreases s.len(),
{
    if s.len() == 0 {
        0
    } else {
        10 * decimal_value(s.drop_last()) + (s.last() as int - '0' as int)
    }
}

/// A number written in decimal is read back as itself: all of it is digits, and
/// no zero leads but that of zero.
pub proof fn decimals_read_back(n: nat)
    ensures
        decimal_value(decimal_spec(n)) == n,
        decimal_spec(n).len() > 0,
        forall|i: int|
            0 <= i < decimal_spec(n).len() ==> '0' <= (#[trigger] decimal_spec(n)[i]) <= '9',
        n > 0 ==> decimal_spec(n)[0] != '0',
        n > 0 ==> signed_decimal_spec(-(n as int)) == seq!['-'] + signed_decimal_spec(n as int),
        signed_decimal_spec(n as int) == decimal_spec(n),
    decreases n,
{
    let s = decimal_spec(n);
    if n < 10 {
        assert(s.drop_last() =~= Seq::<char>::empty());
        assert(decimal_value(s.drop_last()) == 0);
    } else {
        decimals_read_back(n / 10);
        assert(s.drop_last() =~= decimal_spec(n / 10));
    }
}

/// A text stands in another where it begins, wherever that is; a search finds
/// the first such place behind where it starts.
pub proof fn searches_find_the_first_place(a: Seq<char>, pat: Seq<char>, b: Seq<char>)
    ensures
        has_text(a + pat + b, pat),
        find_spec(a + pat + b, pat, 0) matches Some(i) && 0 <= i <= a.len() && (a + pat
            + b).subrange(i, i + pat.len()) == pat,
        find_spec(a + pat + b, pat, a.len() as int) == Some(a.len() as int),
{
    let s = a + pat + b;
    let n = a.len() as int;
    assert(s.subrange(n, n + pat.len()) =~= pat);
    assert(occurs_at(s, pat, n));
    lemma_find(s, pat, 0);
}

/// Which characters are white space, over all of them.
pub proof fn white_space_is_known(c: char)
    ensures
        0x9 <= c as u32 <= 0xD ==> is_space(c),
        0xD < c as u32 && (c as u32) < 0x20 ==> !is_space(c),
        0x20 < c as u32 && (c as u32) < 0x85 ==> !is_space(c),
        c as u32 == 0x85 ==> is_space(c),
        0x85 < c as u32 && (c as u32) < 0xA0 ==> !is_space(c),
        0xA0 < c as u32 && (c as u32) < 0x2000 ==> (is_space(c) <==> c as u32 == 0x1680),
        0x2000 <= c as u32 <= 0x200A ==> is_space(c),
        0x200A < c as u32 && (c as u32) < 0x3000 ==> (is_space(c) <==> c as u32 == 0x2028
            || c as u32 == 0x2029 || c as u32 == 0x202F || c as u32 == 0x205F),
{
}

/// A list is shown in brackets, its items in their order with a comma between
/// each two.
pub proof fn lists_are_shown_item_by_item(a: Seq<Seq<char>>, b: Seq<Seq<char>>, s: Seq<char>)
    ensures
        debug_list_text(a) == "["@ + debug_items_text(a) + "]"@,
        debug_items_text(Seq::<Seq<char>>::empty()).len() == 0,
        debug_items_text(seq![s]) == debug_str_text(s),
        a.len() > 0 && b.len() > 0 ==> debug_items_text(a + b) == debug_items_text(a) + ", "@
            + debug_items_text(b),
    decreases b.len(),
{
    if a.len() > 0 && b.len() > 1 {
        lists_are_shown_item_by_item(a, b.drop_last(), s);
        assert((a + b).drop_last() =~= a + b.drop_last());
        assert(debug_items_text(a + b) =~= debug_items_text(a) + ", "@ + debug_items_text(b));
    } else if a.len() > 0 && b.len() == 1 {
        assert((a + b).drop_last() =~= a);
    }
}

} // verus!
