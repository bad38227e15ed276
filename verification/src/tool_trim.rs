//! Cutting tool results down to what the context has room for.

use vstd::prelude::*;

use crate::context::{sum_tokens, total_tokens};
use crate::text::{
    byte_len, chars_of, count_fitting, decimal, decimal_spec, decimal_wide, fitting,
    lemma_fitting, prefix_within, start_within_bytes_is_the_longest, string_of, utf8_len,
};

verus! {

/// Share of the usable budget, in percent, that tool results may fill; the
/// rest is left for the answer.
pub const SAFE_PERCENT: u128 = 85;

/// The least number of tokens that a result is cut down to.
pub const MIN_TOKENS_PER_RESULT: u64 = 256;

/// Bytes that a token is taken to cover, in hundredths: three and a half, and
/// a tenth of that for safety.
pub const BYTES_PER_HUNDRED_TOKENS: u128 = 385;

/// The tokens that are left for tool results.
pub open spec fn remaining_tokens(usable: u64, current: u64) -> int {
    let safe = usable * SAFE_PERCENT / 100;
    if safe > current {
        safe - current
    } else {
        0
    }
}

/// The tokens that each of `n` results may keep.
pub open spec fn tokens_per_result(remaining: int, n: int) -> int {
    if remaining / n > MIN_TOKENS_PER_RESULT {
        remaining / n
    } else {
        MIN_TOKENS_PER_RESULT as int
    }
}

/// The index of the last line break.
pub open spec fn last_newline(s: Seq<char>) -> Option<int>
    decreases s.len(),
{
    if s.len() == 0 {
        None
    } else if s.last() == '\n' {
        Some(s.len() - 1)
    } else {
        last_newline(s.drop_last())
    }
}

/// The part of a cut text that is kept: up to its last line break, where that
/// lies in the second half.
pub open spec fn kept_part(cut: Seq<char>) -> Seq<char> {
    match last_newline(cut) {
        Some(k) => if utf8_len(cut.take(k)) > utf8_len(cut) / 2 {
            cut.take(k)
        } else {
            cut
        },
        None => cut,
    }
}

/// What the model is told of a result that was cut down.
pub open spec fn truncation_marker(
    bytes: nat,
    tokens: nat,
    per_result: nat,
    remaining: nat,
    n: nat,
    dropped: nat,
) -> Seq<char> {
    "\n\n[RESULT TRUNCATED by context budget: original output was "@ + decimal_spec(bytes)
        + " bytes (~"@ + decimal_spec(tokens) + " tokens), but only "@ + decimal_spec(per_result)
        + " tokens of context budget remain per result (total remaining: "@ + decimal_spec(
        remaining,
    ) + " tokens across "@ + decimal_spec(n) + " result(s)). ~"@ + decimal_spec(dropped)
        + " tokens of this output were dropped. SUGGESTION: re-run with narrower parameters (pipe through 'head -N' or 'tail -N' for pagination, use tighter grep patterns to reduce matches, or search fewer files/directories) to get a complete result.]"@
}

/// A result of `tokens` tokens, cut down to `per_result`.
pub open spec fn trimmed_result(
    result: Seq<char>,
    tokens: u64,
    per_result: int,
    remaining: int,
    n: int,
) -> Seq<char> {
    kept_part(prefix_within(result, (per_result * BYTES_PER_HUNDRED_TOKENS / 100) as nat))
        + truncation_marker(
        utf8_len(result),
        tokens as nat,
        per_result as nat,
        remaining as nat,
        n as nat,
        (tokens - per_result) as nat,
    )
}

/// The results after trimming. Nothing is cut where no room is left at all, or
/// where everything fits; else each result that takes more than its share is
/// cut down to it.
pub open spec fn trimmed_results(
    results: Seq<Seq<char>>,
    tokens: Seq<u64>,
    usable: u64,
    current: u64,
) -> Seq<Seq<char>> {
    let remaining = remaining_tokens(usable, current);
    let n = results.len() as int;
    if !needs_trimming(results, tokens, usable, current) {
        results
    } else {
        Seq::new(
            results.len(),
            |i: int|
                if tokens[i] <= tokens_per_result(remaining, n) {
                    results[i]
                } else {
                    trimmed_result(
                        results[i],
                        tokens[i],
                        tokens_per_result(remaining, n),
                        remaining,
                        n,
                    )
                },
        )
    }
}

/// The results do not fit, though some room is left.
pub open spec fn needs_trimming(
    results: Seq<Seq<char>>,
    tokens: Seq<u64>,
    usable: u64,
    current: u64,
) -> bool {
    let remaining = remaining_tokens(usable, current);
    remaining > 0 && results.len() > 0 && total_tokens(tokens) > remaining
}

/// How many of the first counts are above a limit.
pub open spec fn count_above(tokens: Seq<u64>, limit: int, n: int) -> int
    decreases n,
{
    if n <= 0 {
        0
    } else if tokens[n - 1] > limit {
        count_above(tokens, limit, n - 1) + 1
    } else {
        count_above(tokens, limit, n - 1)
    }
}

fn find_last_newline(chars: &Vec<char>, n: usize) -> (r: Option<usize>)
    requires
        n <= chars.len(),
    ensures
        match r {
            Some(k) => k < n && last_newline(chars@.take(n as int)) == Some(k as int),
            None => last_newline(chars@.take(n as int)) is None,
        },
{
    let mut k: usize = n;
    while k > 0
        invariant
            k <= n <= chars.len(),
            last_newline(chars@.take(n as int)) == last_newline(chars@.take(k as int)),
        decreases k,
    {
        assert(chars@.take(k as int).last() == chars@[k - 1]);
        if chars[k - 1] == '\n' {
            return Some(k - 1);
        }
        assert(chars@.take(k as int).drop_last() =~= chars@.take(k - 1));
        k = k - 1;
    }
    None
}

proof fn lemma_prefix_len(s: Seq<char>, n: int)
    requires
        0 <= n <= s.len(),
    ensures
        utf8_len(s.take(n)) <= utf8_len(s),
    decreases s.len() - n,
{
    if n < s.len() {
        assert(s.take(n + 1).drop_last() =~= s.take(n));
        lemma_prefix_len(s, n + 1);
    } else {
        assert(s.take(n) =~= s);
    }
}

/// Cuts one result down.
fn trim_result(result: &str, tokens: u64, per_result: u64, remaining: u64, n: usize) -> (r: String)
    requires
        tokens > per_result,
    ensures
        r@ == trimmed_result(
            result@,
            tokens,
            per_result as int,
            remaining as int,
            n as int,
        ),
{
    let chars = chars_of(result);
    let size = byte_len(&chars, chars.len());
    assert(chars@.take(chars.len() as int) =~= chars@);
    let max: u128 = per_result as u128 * BYTES_PER_HUNDRED_TOKENS / 100;
    let cut = count_fitting(&chars, max);
    proof {
        lemma_fitting(chars@, 0, max as int);
    }
    let ghost safe = prefix_within(result@, max as nat);
    assert(safe =~= chars@.take(cut as int));
    let mut end: usize = cut;
    match find_last_newline(&chars, cut) {
        Some(k) => {
            assert(chars@.take(cut as int).take(k as int) =~= chars@.take(k as int));
            if byte_len(&chars, k) > byte_len(&chars, cut) / 2 {
                end = k;
            }
        },
        None => {},
    }
    let mut s = string_of(&chars, 0, end);
    assert(s@ =~= kept_part(safe)) by {
        assert(chars@.subrange(0, end as int) =~= chars@.take(end as int));
    }
    let mut marker =
        "\n\n[RESULT TRUNCATED by context budget: original output was ".to_owned();
    marker.append(decimal_wide(size).as_str());
    marker.append(" bytes (~");
    marker.append(decimal(tokens).as_str());
    marker.append(" tokens), but only ");
    marker.append(decimal(per_result).as_str());
    marker.append(" tokens of context budget remain per result (total remaining: ");
    marker.append(decimal(remaining).as_str());
    marker.append(" tokens across ");
    marker.append(decimal(n as u64).as_str());
    marker.append(" result(s)). ~");
    marker.append(decimal(tokens - per_result).as_str());
    marker.append(
        " tokens of this output were dropped. SUGGESTION: re-run with narrower parameters (pipe through 'head -N' or 'tail -N' for pagination, use tighter grep patterns to reduce matches, or search fewer files/directories) to get a complete result.]",
    );
    s.append(marker.as_str());
    s
}

/// How many results are cut.
pub open spec fn cut_count(
    results: Seq<Seq<char>>,
    tokens: Seq<u64>,
    usable: u64,
    current: u64,
) -> int {
    if needs_trimming(results, tokens, usable, current) {
        count_above(
            tokens,
            tokens_per_result(remaining_tokens(usable, current), tokens.len() as int),
            tokens.len() as int,
        )
    } else {
        0
    }
}

/// Context-aware tool result trimming: truncate individual results so they do
/// not overflow the context when appended. `result_tokens` holds how many
/// tokens each result takes, `current_tokens` how many the history takes.
///
/// Returns the number of results that were truncated.
pub fn trim_tool_results_for_context(
    results: &mut Vec<String>,
    result_tokens: &Vec<u64>,
    usable: u64,
    current_tokens: u64,
) -> (truncated: usize)
    requires
        result_tokens.len() == old(results).len(),
    ensures
        final(results).deep_view() == trimmed_results(
            old(results).deep_view(),
            result_tokens@,
            usable,
            current_tokens,
        ),
        truncated == cut_count(old(results).deep_view(), result_tokens@, usable, current_tokens),
{
    let ghost before = results.deep_view();
    assert(before.len() == results.len());
    let safe: u128 = usable as u128 * SAFE_PERCENT / 100;
    if safe <= current_tokens as u128 || results.is_empty() {
        return 0;
    }
    let remaining: u64 = (safe - current_tokens as u128) as u64;
    if sum_tokens(result_tokens) <= remaining as u128 {
        return 0;
    }
    let n: usize = results.len();
    let share: u64 = remaining / n as u64;
    let per_result: u64 = if share > MIN_TOKENS_PER_RESULT {
        share
    } else {
        MIN_TOKENS_PER_RESULT
    };
    let ghost after = trimmed_results(before, result_tokens@, usable, current_tokens);
    let mut out: Vec<String> = Vec::new();
    let mut truncated: usize = 0;
    let mut i: usize = 0;
    assert(out.deep_view() =~= after.take(0));
    while i < n
        invariant
            i <= n,
            n == results.len(),
            n == result_tokens.len(),
            n == before.len(),
            before == results.deep_view(),
            after == trimmed_results(before, result_tokens@, usable, current_tokens),
            needs_trimming(before, result_tokens@, usable, current_tokens),
            remaining == remaining_tokens(usable, current_tokens),
            per_result == tokens_per_result(remaining as int, n as int),
            out.deep_view() == after.take(i as int),
            truncated <= i,
            truncated == count_above(result_tokens@, per_result as int, i as int),
        decreases n - i,
    {
        let ghost sofar = out.deep_view();
        assert(before[i as int] == results@[i as int]@);
        let text = if result_tokens[i] <= per_result {
            results[i].clone()
        } else {
            truncated = truncated + 1;
            trim_result(results[i].as_str(), result_tokens[i], per_result, remaining, n)
        };
        out.push(text);
        assert(out.deep_view() =~= sofar.push(text@));
        assert(after.take(i + 1) =~= after.take(i as int).push(after[i as int]));
        i = i + 1;
    }
    assert(after.take(n as int) =~= after);
    *results = out;
    truncated
}

// ── Laws ────────────────────────────────────────────────────────────────

/// Trimming keeps the number of results, leaves alone every result that is
/// within its share, and never cuts anything where all results fit.
pub proof fn trimming_spares_small_results(
    results: Seq<Seq<char>>,
    tokens: Seq<u64>,
    usable: u64,
    current: u64,
    i: int,
)
    requires
        tokens.len() == results.len(),
        0 <= i < results.len(),
    ensures
        trimmed_results(results, tokens, usable, current).len() == results.len(),
        tokens[i] <= MIN_TOKENS_PER_RESULT ==> trimmed_results(
            results,
            tokens,
            usable,
            current,
        )[i] == results[i],
        total_tokens(tokens) <= remaining_tokens(usable, current) ==> trimmed_results(
            results,
            tokens,
            usable,
            current,
        ) == results,
{
}

/// What is kept of a cut result is a start of it, within the bytes that its
/// share of tokens covers.
pub proof fn kept_text_is_a_start(result: Seq<char>, max: nat)
    ensures
        kept_part(prefix_within(result, max)).is_prefix_of(result),
        utf8_len(kept_part(prefix_within(result, max))) <= max,
{
    lemma_fitting(result, 0, max as int);
    assert(result.take(0) =~= Seq::empty());
    let safe = prefix_within(result, max);
    lemma_last_newline(safe);
    match last_newline(safe) {
        Some(k) => {
            lemma_prefix_len(safe, k);
            assert(safe.take(k) =~= result.take(k));
        },
        None => {},
    }
}

proof fn lemma_last_newline(s: Seq<char>)
    ensures
        last_newline(s) matches Some(k) ==> 0 <= k < s.len() && s[k] == '\n',
    decreases s.len(),
{
    if s.len() > 0 && s.last() != '\n' {
        lemma_last_newline(s.drop_last());
    }
}

/// The character at `k` is a line break, and none follows it before `n`.
pub open spec fn is_last_break(s: Seq<char>, k: int, n: int) -> bool {
    &&& 0 <= k < n <= s.len()
    &&& s[k] == '\n'
    &&& forall|j: int| k < j < n ==> #[trigger] s[j] != '\n'
}

/// What is kept of a cut result is long. Of the longest start that fits its
/// bytes, the first `n` characters, at least half of the bytes are kept; where
/// less than all of it is kept, the part that is left out begins with its last
/// line break. Where the last line break lies in the second half, the result is
/// cut there; where it does not, or there is none, all of the start is kept.
pub proof fn kept_text_is_long(result: Seq<char>, max: nat, n: int)
    requires
        0 <= n <= result.len(),
        utf8_len(result.take(n)) <= max,
        n < result.len() ==> utf8_len(result.take(n + 1)) > max,
    ensures
        ({
            let kept = kept_part(prefix_within(result, max));
            let bytes = utf8_len(result.take(n));
            &&& kept == result.take(kept.len() as int)
            &&& kept.len() <= n
            &&& 2 * utf8_len(kept) >= bytes
            &&& kept.len() < n ==> is_last_break(result, kept.len() as int, n)
            &&& forall|k: int| #[trigger]
                is_last_break(result, k, n) ==> kept == (if utf8_len(result.take(k)) > bytes / 2 {
                    result.take(k)
                } else {
                    result.take(n)
                })
            &&& (forall|j: int| 0 <= j < n ==> #[trigger] result[j] != '\n') ==> kept
                == result.take(n)
        }),
{
    let start = result.take(n);
    let safe = prefix_within(result, max);
    start_within_bytes_is_the_longest(result, max);
    let m = safe.len() as int;
    assert(safe =~= result.take(m));
    if m < n {
        lemma_starts_grow(result, m + 1, n);
    } else if m > n {
        lemma_starts_grow(result, n + 1, m);
    }
    assert(m == n);
    assert(start.len() == n);
    lemma_last_newline_is_last(start);
    let kept = kept_part(start);
    match last_newline(start) {
        Some(at) => {
            assert(start.take(at) =~= result.take(at));
            assert(start[at] == result[at]);
            assert(is_last_break(result, at, n)) by {
                assert forall|j: int| at < j < n implies #[trigger] result[j] != '\n' by {
                    assert(start[j] != '\n');
                }
            }
            assert forall|k: int| #[trigger] is_last_break(result, k, n) implies k == at by {
                assert(result[k] == '\n' && result[at] == '\n');
            }
        },
        None => {
            assert forall|k: int| #[trigger] is_last_break(result, k, n) implies false by {
                assert(start[k] != '\n');
            }
        },
    }
}

/// A longer start of a text takes no fewer bytes.
proof fn lemma_starts_grow(s: Seq<char>, a: int, b: int)
    ensures
        0 <= a <= b <= s.len() ==> utf8_len(s.take(a)) <= utf8_len(s.take(b)),
{
    if 0 <= a <= b <= s.len() {
        lemma_prefix_len(s.take(b), a);
        assert(s.take(b).take(a) =~= s.take(a));
    }
}

proof fn lemma_last_newline_is_last(s: Seq<char>)
    ensures
        last_newline(s) matches Some(k) ==> is_last_break(s, k, s.len() as int),
        last_newline(s) is None ==> forall|j: int| 0 <= j < s.len() ==> #[trigger] s[j] != '\n',
    decreases s.len(),
{
    if s.len() > 0 && s.last() != '\n' {
        let before = s.drop_last();
        lemma_last_newline_is_last(before);
        match last_newline(before) {
            Some(k) => {
                assert(s[k] == before[k]);
                assert forall|j: int| k < j < s.len() implies #[trigger] s[j] != '\n' by {
                    if j < s.len() - 1 {
                        assert(before[j] != '\n');
                    }
                }
            },
            None => {
                assert forall|j: int| 0 <= j < s.len() implies #[trigger] s[j] != '\n' by {
                    if j < s.len() - 1 {
                        assert(before[j] != '\n');
                    }
                }
            },
        }
    }
}

/// Which results are cut, and to what. Tool results may fill 85 hundredths of
/// what is usable, less what the history takes. Where they do not fit, though
/// some room is left, each may keep an equal share of it, 256 tokens at least.
/// One that takes more keeps a start within 3.85 bytes for each token of its
/// share, and the model is told what it lacks; all others stay as they are.
pub proof fn results_over_their_share_are_cut(
    results: Seq<Seq<char>>,
    tokens: Seq<u64>,
    usable: u64,
    current: u64,
    i: int,
)
    requires
        tokens.len() == results.len(),
        0 <= i < results.len(),
    ensures
        ({
            let left = usable * 85 / 100 - current;
            let share = if left / results.len() as int > 256 {
                left / results.len() as int
            } else {
                256
            };
            let after = trimmed_results(results, tokens, usable, current);
            &&& after.len() == results.len()
            &&& left <= 0 || total_tokens(tokens) <= left ==> after == results
            &&& tokens[i] <= share ==> after[i] == results[i]
            &&& left > 0 && total_tokens(tokens) > left && tokens[i] > share ==> {
                let max = (share * 385 / 100) as nat;
                let kept = kept_part(prefix_within(results[i], max));
                &&& kept.is_prefix_of(results[i])
                &&& utf8_len(kept) <= max
                &&& after[i] == kept
                    + "\n\n[RESULT TRUNCATED by context budget: original output was "@
                    + decimal_spec(utf8_len(results[i])) + " bytes (~"@ + decimal_spec(
                    tokens[i] as nat,
                ) + " tokens), but only "@ + decimal_spec(share as nat)
                    + " tokens of context budget remain per result (total remaining: "@
                    + decimal_spec(left as nat) + " tokens across "@ + decimal_spec(
                    results.len(),
                ) + " result(s)). ~"@ + decimal_spec((tokens[i] - share) as nat)
                    + " tokens of this output were dropped. SUGGESTION: re-run with narrower parameters (pipe through 'head -N' or 'tail -N' for pagination, use tighter grep patterns to reduce matches, or search fewer files/directories) to get a complete result.]"@
            }
        }),
{
    let left = usable * 85 / 100 - current;
    let share = if left / results.len() as int > 256 {
        left / results.len() as int
    } else {
        256
    };
    assert(remaining_tokens(usable, current) == (if left > 0 {
        left
    } else {
        0
    }));
    if left > 0 && total_tokens(tokens) > left {
        kept_text_is_a_start(results[i], (share * 385 / 100) as nat);
        let kept = kept_part(prefix_within(results[i], (share * 385 / 100) as nat));
        let marker = truncation_marker(
            utf8_len(results[i]),
            tokens[i] as nat,
            share as nat,
            left as nat,
            results.len(),
            (tokens[i] - share) as nat,
        );
        let a = "\n\n[RESULT TRUNCATED by context budget: original output was "@;
        if tokens[i] > share {
            assert(trimmed_results(results, tokens, usable, current)[i] == kept + marker);
            assert(kept + marker =~= kept
                + "\n\n[RESULT TRUNCATED by context budget: original output was "@ + decimal_spec(
                utf8_len(results[i]),
            ) + " bytes (~"@ + decimal_spec(tokens[i] as nat) + " tokens), but only "@
                + decimal_spec(share as nat)
                + " tokens of context budget remain per result (total remaining: "@ + decimal_spec(
                left as nat,
            ) + " tokens across "@ + decimal_spec(results.len()) + " result(s)). ~"@ + decimal_spec(
                (tokens[i] - share) as nat,
            )
                + " tokens of this output were dropped. SUGGESTION: re-run with narrower parameters (pipe through 'head -N' or 'tail -N' for pagination, use tighter grep patterns to reduce matches, or search fewer files/directories) to get a complete result.]"@);
        }
    }
}

/// As many results are said to be cut as take more than the limit.
pub proof fn cut_results_are_counted(tokens: Seq<u64>, limit: int, n: int)
    requires
        0 <= n <= tokens.len(),
    ensures
        Set::new(|i: int| 0 <= i < n && tokens[i] > limit).finite(),
        count_above(tokens, limit, n) == Set::new(
            |i: int| 0 <= i < n && tokens[i] > limit,
        ).len(),
    decreases n,
{
    let all = Set::new(|i: int| 0 <= i < n && tokens[i] > limit);
    if n == 0 {
        assert(all =~= Set::<int>::empty());
    } else {
        cut_results_are_counted(tokens, limit, n - 1);
        let before = Set::new(|i: int| 0 <= i < n - 1 && tokens[i] > limit);
        if tokens[n - 1] > limit {
            assert(all =~= before.insert(n - 1));
        } else {
            assert(all =~= before);
        }
    }
}

/// The results that are counted as cut are those over their share, where all of
/// them together are over what is left; else none is.
pub proof fn count_tells_what_was_cut(
    results: Seq<Seq<char>>,
    tokens: Seq<u64>,
    usable: u64,
    current: u64,
)
    requires
        tokens.len() == results.len(),
        results.len() > 0,
    ensures
        ({
            let left = usable * 85 / 100 - current;
            let share = if left / results.len() as int > 256 {
                left / results.len() as int
            } else {
                256
            };
            let n = tokens.len() as int;
            &&& left <= 0 || total_tokens(tokens) <= left ==> cut_count(
                results,
                tokens,
                usable,
                current,
            ) == 0
            &&& left > 0 && total_tokens(tokens) > left ==> cut_count(
                results,
                tokens,
                usable,
                current,
            ) == Set::new(|i: int| 0 <= i < n && tokens[i] > share).len()
        }),
{
    results_over_their_share_are_cut(results, tokens, usable, current, 0);
    let limit = tokens_per_result(remaining_tokens(usable, current), tokens.len() as int);
    cut_results_are_counted(tokens, limit, tokens.len() as int);
}

} // verus!
