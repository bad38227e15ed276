//! Execution of one tool call: which tool it means, with which parameters, and
//! what the model is told of the result.

use vstd::prelude::*;

use crate::json::{parse_json, parsed_json, Json, JsonView};
use crate::message::{ToolCall, ToolCallView};
use crate::text::{
    decimal, decimal_spec, is_space, occurs_at, prefix_within, same_text, starts_with, trim_start,
    trim_start_spec, truncate_utf8,
};

verus! {

/// What to do with a tool call.
#[derive(Debug)]
pub enum CallPlan {
    /// Answer the model with this text; run nothing.
    Reply(String),
    /// Run the tool at this index of the registry with these parameters.
    Execute { tool: usize, params: Json },
}

/// What a [`CallPlan`] is.
pub enum PlanView {
    Reply(Seq<char>),
    Execute { tool: int, params: JsonView },
}

impl DeepView for CallPlan {
    type V = PlanView;

    open spec fn deep_view(&self) -> PlanView {
        match self {
            CallPlan::Reply(s) => PlanView::Reply(s@),
            CallPlan::Execute { tool, params } => PlanView::Execute {
                tool: *tool as int,
                params: params.deep_view(),
            },
        }
    }
}

/// What a tool hands back.
#[derive(Debug)]
pub struct ToolOutput {
    pub ok: bool,
    pub content: String,
    pub error: Option<String>,
}

/// The index of the first tool named `name`, from `from` on.
pub open spec fn tool_index(names: Seq<Seq<char>>, name: Seq<char>, from: int) -> Option<int>
    decreases names.len() - from,
{
    if from < 0 || from >= names.len() {
        None
    } else if names[from] == name {
        Some(from)
    } else {
        tool_index(names, name, from + 1)
    }
}

/// What the model is told of arguments that are not JSON.
pub open spec fn invalid_arguments_text(
    name: Seq<char>,
    error: Seq<char>,
    arguments: Seq<char>,
) -> Seq<char> {
    "Error: Tool '"@ + name + "' arguments are not valid JSON and could not be parsed: "@ + error
        + ". This call was NOT executed. Arguments preview (first 200 bytes): "@ + prefix_within(
        arguments,
        200,
    )
}

/// The mark that the stream assembler leaves on arguments that were cut off.
pub open spec fn is_incomplete(params: JsonView) -> bool {
    params.text_at("error"@) == Some("TOOL_CALL_INCOMPLETE"@)
}

/// The plan for a call, given what its arguments parse to.
pub open spec fn call_plan(
    names: Seq<Seq<char>>,
    call: ToolCallView,
    parsed: Result<JsonView, Seq<char>>,
) -> PlanView {
    match parsed {
        Err(e) => PlanView::Reply(invalid_arguments_text(call.name, e, call.arguments)),
        Ok(params) => if is_incomplete(params) {
            PlanView::Reply(
                match params.text_at("message"@) {
                    Some(m) => m,
                    None => "Tool call arguments were truncated during streaming"@,
                },
            )
        } else {
            match tool_index(names, call.name, 0) {
                Some(i) => PlanView::Execute { tool: i, params },
                None => PlanView::Reply("Unknown tool: "@ + call.name),
            }
        },
    }
}

fn find_tool(names: &Vec<String>, name: &str) -> (r: Option<usize>)
    ensures
        match r {
            Some(i) => i < names.len() && tool_index(names.deep_view(), name@, 0) == Some(i as int),
            None => tool_index(names.deep_view(), name@, 0) is None,
        },
{
    let mut i: usize = 0;
    while i < names.len()
        invariant
            i <= names.len(),
            tool_index(names.deep_view(), name@, 0) == tool_index(
                names.deep_view(),
                name@,
                i as int,
            ),
        decreases names.len() - i,
    {
        assert(names.deep_view()[i as int] == names@[i as int]@);
        if same_text(names[i].as_str(), name) {
            return Some(i);
        }
        i = i + 1;
    }
    None
}

/// The plan for a call whose arguments have been parsed. `names` are the names
/// of the registered tools.
pub fn plan_parsed_call(names: &Vec<String>, call: &ToolCall, parsed: Result<Json, String>) -> (r:
    CallPlan)
    ensures
        r.deep_view() == call_plan(
            names.deep_view(),
            call.deep_view(),
            match parsed {
                Ok(j) => Ok(j.deep_view()),
                Err(e) => Err(e@),
            },
        ),
{
    match parsed {
        Err(e) => {
            let mut s = "Error: Tool '".to_owned();
            s.append(call.function.name.as_str());
            s.append("' arguments are not valid JSON and could not be parsed: ");
            s.append(e.as_str());
            s.append(". This call was NOT executed. Arguments preview (first 200 bytes): ");
            let preview = truncate_utf8(call.function.arguments.as_str(), 200);
            s.append(preview.as_str());
            CallPlan::Reply(s)
        },
        Ok(params) => {
            let incomplete = match params.get_str("error") {
                Some(e) => same_text(e, "TOOL_CALL_INCOMPLETE"),
                None => false,
            };
            if incomplete {
                let text = match params.get_str("message") {
                    Some(m) => m.to_owned(),
                    None => "Tool call arguments were truncated during streaming".to_owned(),
                };
                return CallPlan::Reply(text);
            }
            match find_tool(names, call.function.name.as_str()) {
                Some(i) => CallPlan::Execute { tool: i, params },
                None => CallPlan::Reply(
                    crate::text::join2("Unknown tool: ", call.function.name.as_str()),
                ),
            }
        },
    }
}

/// The plan for a tool call: parse its arguments, refuse the ones that are
/// broken or incomplete, find the tool.
pub fn plan_call(names: &Vec<String>, call: &ToolCall) -> (r: CallPlan)
    ensures
        r.deep_view() == call_plan(
            names.deep_view(),
            call.deep_view(),
            parsed_json(call.function.arguments@),
        ),
{
    let parsed = parse_json(call.function.arguments.as_str());
    plan_parsed_call(names, call, parsed)
}

/// What the model is told of a run.
pub open spec fn outcome_text(outcome: Result<ToolOutput, String>) -> Seq<char> {
    match outcome {
        Ok(result) => if result.ok {
            result.content@
        } else if result.content@.len() == 0 {
            "Error: "@ + match result.error {
                Some(e) => e@,
                None => Seq::empty(),
            }
        } else {
            result.content@ + "\nError: "@ + match result.error {
                Some(e) => e@,
                None => "unknown error"@,
            }
        },
        Err(e) => "Tool execution error: "@ + e@,
    }
}

/// The result of a tool run, as `(content, is_transient)`: no result is
/// transient.
pub fn finish_call(outcome: Result<ToolOutput, String>) -> (r: (String, bool))
    ensures
        r.0@ == outcome_text(outcome),
        r.1 == false,
{
    match outcome {
        Ok(result) => {
            if result.ok {
                return (result.content, false);
            }
            if result.content.as_str().is_empty() {
                let text = match &result.error {
                    Some(e) => crate::text::join2("Error: ", e.as_str()),
                    None => crate::text::join2("Error: ", ""),
                };
                proof {
                    reveal_strlit("");
                    assert(""@ =~= Seq::<char>::empty());
                }
                (text, false)
            } else {
                let text = match &result.error {
                    Some(e) => crate::text::join3(
                        result.content.as_str(),
                        "\nError: ",
                        e.as_str(),
                    ),
                    None => crate::text::join3(
                        result.content.as_str(),
                        "\nError: ",
                        "unknown error",
                    ),
                };
                (text, false)
            }
        },
        Err(e) => (crate::text::join2("Tool execution error: ", e.as_str()), false),
    }
}

/// What the model is told of a tool that took too long.
pub open spec fn timeout_text(name: Seq<char>, timeout_ms: nat) -> Seq<char> {
    "Error: Tool '"@ + name + "' timed out after "@ + decimal_spec(timeout_ms) + "ms"@
}

/// What the model is told of a tool that the user cancelled.
pub open spec fn cancel_text(name: Seq<char>) -> Seq<char> {
    "Error: Cancelled by user while running '"@ + name + "'"@
}

/// The result of a call that ran out of its own time.
pub fn timed_out(name: &str, timeout_ms: u64) -> (r: (String, bool))
    ensures
        r.0@ == timeout_text(name@, timeout_ms as nat),
        r.1 == false,
{
    let mut s = "Error: Tool '".to_owned();
    s.append(name);
    s.append("' timed out after ");
    s.append(decimal(timeout_ms).as_str());
    s.append("ms");
    (s, false)
}

/// The result of a call that the user cancelled while it ran.
pub fn cancelled_by_user(name: &str) -> (r: (String, bool))
    ensures
        r.0@ == cancel_text(name@),
        r.1 == false,
{
    (crate::text::join3("Error: Cancelled by user while running '", name, "'"), false)
}

/// A result that begins like one of the runtime's own errors.
pub open spec fn is_tool_error(content: Seq<char>) -> bool {
    let t = trim_start_spec(content);
    ||| occurs_at(t, "Error"@, 0)
    ||| occurs_at(t, "error:"@, 0)
    ||| occurs_at(t, "Loop detected"@, 0)
    ||| occurs_at(t, "Tool call"@, 0)
}

/// Heuristic detection of a tool error from its result content.
pub fn looks_like_tool_error(result_content: &str) -> (r: bool)
    ensures
        r == is_tool_error(result_content@),
{
    let trimmed = trim_start(result_content);
    starts_with(trimmed.as_str(), "Error") || starts_with(trimmed.as_str(), "error:")
        || starts_with(trimmed.as_str(), "Loop detected") || starts_with(
        trimmed.as_str(),
        "Tool call",
    )
}

// ── Laws ────────────────────────────────────────────────────────────────

/// A text that begins with "Error" is recognised as one.
proof fn lemma_error_prefix(rest: Seq<char>, text: Seq<char>)
    requires
        text == "Error"@ + rest,
    ensures
        is_tool_error(text),
{
    reveal_strlit("Error");
    assert(text[0] == 'E');
    assert(!crate::text::is_space(text[0]));
    assert(trim_start_spec(text) == text);
    assert(text.subrange(0, 5) =~= "Error"@);
    assert(occurs_at(text, "Error"@, 0));
}

/// A call that was cancelled or ran out of time is shown as failed, whatever
/// its tool is called.
pub proof fn interrupted_calls_look_failed(name: Seq<char>, timeout_ms: nat)
    ensures
        is_tool_error("Error: Cancelled by user while running '"@ + name + "'"@),
        is_tool_error(
            "Error: Tool '"@ + name + "' timed out after "@ + decimal_spec(timeout_ms) + "ms"@,
        ),
        is_tool_error("Error: iteration timed out, tool "@ + name + " not completed"@),
{
    reveal_strlit("Error");
    reveal_strlit("Error: Cancelled by user while running '");
    reveal_strlit("Error: Tool '");
    reveal_strlit("Error: iteration timed out, tool ");
    let a = "Error: Cancelled by user while running '"@ + name + "'"@;
    assert(a =~= "Error"@ + a.skip(5));
    lemma_error_prefix(a.skip(5), a);
    let b = "Error: Tool '"@ + name + "' timed out after "@ + decimal_spec(timeout_ms) + "ms"@;
    assert(b =~= "Error"@ + b.skip(5));
    lemma_error_prefix(b.skip(5), b);
    let c = "Error: iteration timed out, tool "@ + name + " not completed"@;
    assert(c =~= "Error"@ + c.skip(5));
    lemma_error_prefix(c.skip(5), c);
}

/// Arguments that do not parse, or that are marked incomplete, run nothing.
pub proof fn broken_arguments_run_nothing(
    names: Seq<Seq<char>>,
    call: ToolCallView,
    parsed: Result<JsonView, Seq<char>>,
)
    requires
        parsed is Err || is_incomplete(parsed->Ok_0),
    ensures
        call_plan(names, call, parsed) is Reply,
{
}

/// A call goes to the first tool of its name.
pub proof fn calls_go_to_the_first_tool_of_their_name(
    names: Seq<Seq<char>>,
    name: Seq<char>,
    from: int,
)
    requires
        0 <= from <= names.len(),
    ensures
        match tool_index(names, name, from) {
            Some(i) => from <= i < names.len() && names[i] == name && forall|j: int|
                from <= j < i ==> #[trigger] names[j] != name,
            None => forall|j: int| from <= j < names.len() ==> #[trigger] names[j] != name,
        },
    decreases names.len() - from,
{
    if from < names.len() && names[from] != name {
        calls_go_to_the_first_tool_of_their_name(names, name, from + 1);
    }
}

/// What comes of a call: arguments that parse, are not marked as cut off, and
/// name a known tool run that tool on them; nothing else runs anything. The
/// model is told why: which tool it was, what the parser said and how the
/// arguments begin; what the marker says; or that there is no such tool.
pub proof fn only_sound_calls_run(
    names: Seq<Seq<char>>,
    call: ToolCallView,
    parsed: Result<JsonView, Seq<char>>,
)
    ensures
        ({
            let plan = call_plan(names, call, parsed);
            &&& plan is Execute <==> parsed is Ok && parsed->Ok_0.text_at("error"@) != Some(
                "TOOL_CALL_INCOMPLETE"@,
            ) && names.contains(call.name)
            &&& plan matches PlanView::Execute { tool, params } ==> 0 <= tool < names.len()
                && names[tool] == call.name && parsed == Ok::<JsonView, Seq<char>>(params)
            &&& parsed matches Err(e) ==> plan == PlanView::Reply(
                "Error: Tool '"@ + call.name
                    + "' arguments are not valid JSON and could not be parsed: "@ + e
                    + ". This call was NOT executed. Arguments preview (first 200 bytes): "@
                    + prefix_within(call.arguments, 200),
            )
            &&& parsed matches Ok(p) ==> p.text_at("error"@) == Some("TOOL_CALL_INCOMPLETE"@)
                ==> match p.text_at("message"@) {
                Some(m) => plan == PlanView::Reply(m),
                None => plan == PlanView::Reply(
                    "Tool call arguments were truncated during streaming"@,
                ),
            }
            &&& parsed matches Ok(p) ==> p.text_at("error"@) != Some("TOOL_CALL_INCOMPLETE"@)
                && !names.contains(call.name) ==> plan == PlanView::Reply(
                "Unknown tool: "@ + call.name,
            )
        }),
{
    calls_go_to_the_first_tool_of_their_name(names, call.name, 0);
    match tool_index(names, call.name, 0) {
        Some(i) => {
            assert(names.contains(names[i]));
        },
        None => {},
    }
}

/// What the model is told of a tool that ran: its output alone where it went
/// well; with the error behind it where it did not; the error alone where there
/// is no output.
pub proof fn outcomes_are_told(outcome: Result<ToolOutput, String>)
    ensures
        outcome matches Err(e) ==> outcome_text(outcome) == "Tool execution error: "@ + e@,
        outcome matches Ok(o) ==> {
            &&& o.ok ==> outcome_text(outcome) == o.content@
            &&& !o.ok && o.content@.len() > 0 ==> outcome_text(outcome) == o.content@
                + "\nError: "@ + (match o.error {
                Some(e) => e@,
                None => "unknown error"@,
            })
            &&& !o.ok && o.content@.len() == 0 ==> outcome_text(outcome) == "Error: "@ + (
            match o.error {
                Some(e) => e@,
                None => Seq::empty(),
            })
        },
{
}

/// A result reads as an error where it begins, behind any white space, with one
/// of four openings, and not otherwise.
pub proof fn errors_are_known_by_how_they_begin(rest: Seq<char>, space: char)
    ensures
        is_tool_error("Error"@ + rest),
        is_tool_error("error:"@ + rest),
        is_tool_error("Loop detected"@ + rest),
        is_tool_error("Tool call"@ + rest),
        is_space(space) ==> is_tool_error(seq![space] + rest) == is_tool_error(rest),
        rest.len() > 0 && !is_space(rest[0]) && rest[0] != 'E' && rest[0] != 'e' && rest[0] != 'L'
            && rest[0] != 'T' ==> !is_tool_error(rest),
        rest.len() == 0 ==> !is_tool_error(rest),
{
    reveal_strlit("Error");
    reveal_strlit("error:");
    reveal_strlit("Loop detected");
    reveal_strlit("Tool call");
    let a = "Error"@ + rest;
    let b = "error:"@ + rest;
    let c = "Loop detected"@ + rest;
    let d = "Tool call"@ + rest;
    assert(a[0] == 'E' && b[0] == 'e' && c[0] == 'L' && d[0] == 'T');
    assert(a.subrange(0, 5) =~= "Error"@);
    assert(b.subrange(0, 6) =~= "error:"@);
    assert(c.subrange(0, 13) =~= "Loop detected"@);
    assert(d.subrange(0, 9) =~= "Tool call"@);
    assert((seq![space] + rest).drop_first() =~= rest);
    if rest.len() > 0 && !is_space(rest[0]) && is_tool_error(rest) {
        assert(trim_start_spec(rest) == rest);
        if occurs_at(rest, "Error"@, 0) {
            assert(rest.subrange(0, 5)[0] == "Error"@[0]);
        } else if occurs_at(rest, "error:"@, 0) {
            assert(rest.subrange(0, 6)[0] == "error:"@[0]);
        } else if occurs_at(rest, "Loop detected"@, 0) {
            assert(rest.subrange(0, 13)[0] == "Loop detected"@[0]);
        } else {
            assert(rest.subrange(0, 9)[0] == "Tool call"@[0]);
        }
    }
}

/// A tool that took too long or was cancelled is named, with the time that it
/// was given.
pub proof fn stopped_tools_are_named(name: Seq<char>, ms: nat)
    ensures
        timeout_text(name, ms) == "Error: Tool '"@ + name + "' timed out after "@ + decimal_spec(ms)
            + "ms"@,
        cancel_text(name) == "Error: Cancelled by user while running '"@ + name + "'"@,
{
}

/// A result reads as an error where it begins with one of four words, and by
/// nothing else that it begins with.
pub proof fn only_four_words_begin_an_error(content: Seq<char>)
    requires
        content.len() > 0,
        !is_space(content[0]),
    ensures
        is_tool_error(content) <==> "Error"@.is_prefix_of(content) || "error:"@.is_prefix_of(content)
            || "Loop detected"@.is_prefix_of(content) || "Tool call"@.is_prefix_of(content),
{
    assert(trim_start_spec(content) == content);
    lemma_starts(content, "Error"@);
    lemma_starts(content, "error:"@);
    lemma_starts(content, "Loop detected"@);
    lemma_starts(content, "Tool call"@);
}

proof fn lemma_starts(s: Seq<char>, pat: Seq<char>)
    ensures
        occurs_at(s, pat, 0) <==> pat.is_prefix_of(s),
{
    if pat.len() <= s.len() {
        assert(s.subrange(0, pat.len() as int) =~= s.take(pat.len() as int));
    }
    if pat.is_prefix_of(s) {
        assert(pat =~= s.subrange(0, pat.len() as int));
    }
    if occurs_at(s, pat, 0) {
        assert(pat.is_prefix_of(s));
    }
}

} // verus!
