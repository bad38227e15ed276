//! Approval of shell commands by the risk they carry.

use vstd::prelude::*;

use crate::json::{parse_json, parsed_json, Json, JsonView};
use crate::text::same_text;

verus! {

/// How dangerous a command is.
#[derive(Clone, Copy, Debug, PartialEq, Eq, Structural)]
pub enum ShellRisk {
    Low,
    Medium,
    High,
    /// Never run.
    Blocked,
}

/// From which risk on the user is asked.
#[derive(Clone, Copy, Debug, PartialEq, Eq, Structural)]
pub enum ShellApprovalThreshold {
    Low,
    Medium,
    High,
    /// Never ask.
    AutoApprove,
}

/// What the risk rules say of one command.
#[derive(Debug)]
pub struct RiskAssessment {
    pub risk: ShellRisk,
    /// The name of the risk, for the user.
    pub label: String,
    pub reason: String,
    pub executable_paths: Vec<String>,
    pub provenance_elevated: bool,
}

/// What the user is asked.
#[derive(Debug)]
pub struct ApprovalRequest {
    pub tool_name: String,
    pub action: String,
    pub risk_level: ShellRisk,
    pub reason: String,
    pub executable_paths: Vec<String>,
    pub provenance_elevated: bool,
    pub tool_call_id: String,
}

/// What an [`ApprovalRequest`] holds.
pub struct RequestView {
    pub tool_name: Seq<char>,
    pub action: Seq<char>,
    pub risk_level: ShellRisk,
    pub reason: Seq<char>,
    pub executable_paths: Seq<Seq<char>>,
    pub provenance_elevated: bool,
    pub tool_call_id: Seq<char>,
}

impl DeepView for ApprovalRequest {
    type V = RequestView;

    open spec fn deep_view(&self) -> RequestView {
        RequestView {
            tool_name: self.tool_name@,
            action: self.action@,
            risk_level: self.risk_level,
            reason: self.reason@,
            executable_paths: self.executable_paths.deep_view(),
            provenance_elevated: self.provenance_elevated,
            tool_call_id: self.tool_call_id@,
        }
    }
}

/// What a direct approval gate answers.
#[derive(Clone, Copy, Debug, PartialEq, Eq, Structural)]
pub enum ApprovalResponse {
    Approved,
    Rejected,
    AlwaysAllow,
}

/// What the user decides through the gateway.
#[derive(Debug)]
pub struct ApprovalDecision {
    pub approved: bool,
    pub allow_all_session: bool,
    pub reason: Option<String>,
}

/// What to do with a shell call.
#[derive(Debug)]
pub enum ApprovalStep {
    /// Run it.
    Proceed,
    /// Answer the model with this error; do not run it.
    Reject(String),
    /// Ask the user first.
    Ask(ApprovalRequest),
}

/// What an [`ApprovalStep`] is.
pub enum StepView {
    Proceed,
    Reject(Seq<char>),
    Ask(RequestView),
}

impl DeepView for ApprovalStep {
    type V = StepView;

    open spec fn deep_view(&self) -> StepView {
        match self {
            ApprovalStep::Proceed => StepView::Proceed,
            ApprovalStep::Reject(s) => StepView::Reject(s@),
            ApprovalStep::Ask(r) => StepView::Ask(r.deep_view()),
        }
    }
}

/// Risk ordering: Low < Medium < High < Blocked.
pub open spec fn risk_rank(r: ShellRisk) -> int {
    match r {
        ShellRisk::Low => 0,
        ShellRisk::Medium => 1,
        ShellRisk::High => 2,
        ShellRisk::Blocked => 3,
    }
}

fn risk_ordinal(r: ShellRisk) -> (n: u8)
    ensures
        n == risk_rank(r),
{
    match r {
        ShellRisk::Low => 0,
        ShellRisk::Medium => 1,
        ShellRisk::High => 2,
        ShellRisk::Blocked => 3,
    }
}

/// Check if a given risk level meets or exceeds the threshold.
pub fn risk_meets_threshold(risk: ShellRisk, threshold: ShellRisk) -> (r: bool)
    ensures
        r == (risk_rank(risk) >= risk_rank(threshold)),
{
    risk_ordinal(risk) >= risk_ordinal(threshold)
}

/// The least risk about which the user is asked, if any.
pub open spec fn asks_from(threshold: ShellApprovalThreshold) -> Option<ShellRisk> {
    match threshold {
        ShellApprovalThreshold::Low => Some(ShellRisk::Low),
        ShellApprovalThreshold::Medium => Some(ShellRisk::Medium),
        ShellApprovalThreshold::High => Some(ShellRisk::High),
        ShellApprovalThreshold::AutoApprove => None,
    }
}

/// The tools that run shell commands.
pub open spec fn is_shell(name: Seq<char>) -> bool {
    name == "bash"@ || name == "powershell"@ || name == "pwsh"@ || name == "shell"@
}

/// Whether a tool runs shell commands.
pub fn is_shell_tool(name: &str) -> (r: bool)
    ensures
        r == is_shell(name@),
{
    same_text(name, "bash") || same_text(name, "powershell") || same_text(name, "pwsh")
        || same_text(name, "shell")
}

/// The command in the parameters of a shell call, if there is one to run.
pub open spec fn command_in(params: JsonView) -> Option<Seq<char>> {
    match params.text_at("command"@) {
        Some(c) => if c.len() == 0 {
            None
        } else {
            Some(c)
        },
        None => None,
    }
}

/// The command in the parameters of a shell call, if there is one to run.
pub fn command_of(params: &Json) -> (r: Option<String>)
    ensures
        r.deep_view() == command_in(params.deep_view()),
{
    match params.get_str("command") {
        Some(c) => if c.is_empty() {
            None
        } else {
            Some(c.to_owned())
        },
        None => None,
    }
}

/// The command that the raw arguments of a shell call hold. Arguments that do
/// not parse hold none: the tool itself reports them.
pub fn shell_command(params_json: &str) -> (r: Option<String>)
    ensures
        r.deep_view() == (match parsed_json(params_json@) {
            Ok(params) => command_in(params),
            Err(_) => None,
        }),
{
    match parse_json(params_json) {
        Ok(params) => command_of(&params),
        Err(_) => None,
    }
}

/// Who approves shell commands.
#[derive(Clone, Copy, Debug, PartialEq, Eq, Structural)]
pub enum ApprovalRoute {
    /// The user, through the gateway.
    Gateway,
    /// A gate beside the runtime.
    Gate,
    /// No one: every command runs.
    Nobody,
}

/// The command of a tool call that has to be assessed before the call runs.
pub open spec fn assessed_command(
    route: ApprovalRoute,
    tool_name: Seq<char>,
    params_json: Seq<char>,
) -> Option<Seq<char>> {
    if route == ApprovalRoute::Nobody || !is_shell(tool_name) {
        None
    } else {
        match parsed_json(params_json) {
            Ok(params) => command_in(params),
            Err(_) => None,
        }
    }
}

/// The command of a tool call that has to be assessed before the call runs:
/// that of a shell call, where someone approves shell commands.
pub fn command_to_assess(route: ApprovalRoute, tool_name: &str, params_json: &str) -> (r: Option<
    String,
>)
    ensures
        r.deep_view() == assessed_command(route, tool_name@, params_json@),
{
    match route {
        ApprovalRoute::Nobody => None,
        _ => if is_shell_tool(tool_name) {
            shell_command(params_json)
        } else {
            None
        },
    }
}

/// The error for a command that is never run.
pub open spec fn blocked_text(command: Seq<char>, reason: Seq<char>) -> Seq<char> {
    "Error: Shell command was blocked for safety reasons. Command: "@ + command + "\nReason: "@
        + reason
}

/// What to do with a command, by its risk and the threshold: a blocked command
/// is rejected whatever the threshold, the user is asked from the threshold on.
pub open spec fn approval_step(
    tool_name: Seq<char>,
    command: Seq<char>,
    assessment: RiskAssessment,
    threshold: ShellApprovalThreshold,
    tool_call_id: Seq<char>,
) -> StepView {
    if assessment.risk == ShellRisk::Blocked {
        StepView::Reject(blocked_text(command, assessment.reason@))
    } else if asks_from(threshold) is Some && risk_rank(assessment.risk) >= risk_rank(
        asks_from(threshold)->0,
    ) {
        StepView::Ask(
            RequestView {
                tool_name,
                action: command,
                risk_level: assessment.risk,
                reason: assessment.reason@,
                executable_paths: assessment.executable_paths.deep_view(),
                provenance_elevated: assessment.provenance_elevated,
                tool_call_id,
            },
        )
    } else {
        StepView::Proceed
    }
}

/// Check if a shell command requires user approval, given its risk.
pub fn check_shell_approval(
    tool_name: &str,
    command: &str,
    assessment: &RiskAssessment,
    threshold: ShellApprovalThreshold,
    tool_call_id: &str,
) -> (r: ApprovalStep)
    ensures
        r.deep_view() == approval_step(tool_name@, command@, *assessment, threshold, tool_call_id@),
{
    if assessment.risk == ShellRisk::Blocked {
        let mut s = "Error: Shell command was blocked for safety reasons. Command: ".to_owned();
        s.append(command);
        s.append("\nReason: ");
        s.append(assessment.reason.as_str());
        return ApprovalStep::Reject(s);
    }
    let from = match threshold {
        ShellApprovalThreshold::Low => ShellRisk::Low,
        ShellApprovalThreshold::Medium => ShellRisk::Medium,
        ShellApprovalThreshold::High => ShellRisk::High,
        ShellApprovalThreshold::AutoApprove => {
            return ApprovalStep::Proceed;
        },
    };
    if !risk_meets_threshold(assessment.risk, from) {
        return ApprovalStep::Proceed;
    }
    let paths = assessment.executable_paths.clone();
    assert(paths.deep_view() =~= assessment.executable_paths.deep_view());
    ApprovalStep::Ask(
        ApprovalRequest {
            tool_name: tool_name.to_owned(),
            action: command.to_owned(),
            risk_level: assessment.risk,
            reason: assessment.reason.clone(),
            executable_paths: paths,
            provenance_elevated: assessment.provenance_elevated,
            tool_call_id: tool_call_id.to_owned(),
        },
    )
}

/// The error for a command that the user cancelled before deciding on it.
pub fn cancelled_while_waiting(command: &str) -> (s: String)
    ensures
        s@ == "Error: Cancelled by user while waiting for approval of '"@ + command@ + "'"@,
{
    crate::text::join3("Error: Cancelled by user while waiting for approval of '", command, "'")
}

/// The error for a command that a direct gate rejected.
pub open spec fn rejected_text(
    command: Seq<char>,
    label: Seq<char>,
    reason: Seq<char>,
) -> Seq<char> {
    "Error: Shell command was rejected by the user based on risk assessment.\nCommand: "@ + command
        + "\nRisk level: "@ + label + "\nReason: "@ + reason
}

/// The error that a direct gate's answer means, if any.
pub open spec fn gate_error(
    command: Seq<char>,
    label: Seq<char>,
    reason: Seq<char>,
    response: ApprovalResponse,
) -> Option<Seq<char>> {
    if response == ApprovalResponse::Rejected {
        Some(rejected_text(command, label, reason))
    } else {
        None
    }
}

/// What a direct gate's answer means: nothing where the command may run, else
/// the error.
pub fn after_gate_response(
    command: &str,
    assessment: &RiskAssessment,
    response: ApprovalResponse,
) -> (r: Option<String>)
    ensures
        r.deep_view() == gate_error(
            command@,
            assessment.label@,
            assessment.reason@,
            response,
        ),
{
    match response {
        ApprovalResponse::Rejected => {
            let mut s =
                "Error: Shell command was rejected by the user based on risk assessment.\nCommand: ".to_owned();
            s.append(command);
            s.append("\nRisk level: ");
            s.append(assessment.label.as_str());
            s.append("\nReason: ");
            s.append(assessment.reason.as_str());
            Some(s)
        },
        _ => None,
    }
}

/// The error for a command that was rejected through the gateway.
pub open spec fn refused_text(
    command: Seq<char>,
    label: Seq<char>,
    reason: Option<Seq<char>>,
) -> Seq<char> {
    "Error: Shell command was rejected based on risk assessment.\nCommand: "@ + command
        + "\nRisk level: "@ + label + "\nReason: "@ + match reason {
        Some(r) => r,
        None => "rejected by user"@,
    }
}

/// The error that a gateway decision means, if any.
pub open spec fn decision_error(
    command: Seq<char>,
    label: Seq<char>,
    approved: bool,
    reason: Option<Seq<char>>,
) -> Option<Seq<char>> {
    if approved {
        None
    } else {
        Some(refused_text(command, label, reason))
    }
}

/// What a gateway decision means: nothing where the command may run, else the
/// error.
pub fn after_handle_decision(
    command: &str,
    assessment: &RiskAssessment,
    decision: &ApprovalDecision,
) -> (r: Option<String>)
    ensures
        r.deep_view() == decision_error(
            command@,
            assessment.label@,
            decision.approved,
            decision.reason.deep_view(),
        ),
{
    if decision.approved {
        return None;
    }
    let mut s =
        "Error: Shell command was rejected based on risk assessment.\nCommand: ".to_owned();
    s.append(command);
    s.append("\nRisk level: ");
    s.append(assessment.label.as_str());
    s.append("\nReason: ");
    match &decision.reason {
        Some(reason) => s.append(reason.as_str()),
        None => s.append("rejected by user"),
    }
    Some(s)
}

// ── Laws ────────────────────────────────────────────────────────────────

/// Blocked commands are a hard floor: no threshold lets one run or even asks.
pub proof fn blocked_commands_never_run(
    tool_name: Seq<char>,
    command: Seq<char>,
    assessment: RiskAssessment,
    threshold: ShellApprovalThreshold,
    tool_call_id: Seq<char>,
)
    requires
        assessment.risk == ShellRisk::Blocked,
    ensures
        approval_step(tool_name, command, assessment, threshold, tool_call_id) is Reject,
{
}

/// "Auto-approve" skips the prompt for every command that may run at all.
pub proof fn auto_approve_never_asks(
    tool_name: Seq<char>,
    command: Seq<char>,
    assessment: RiskAssessment,
    tool_call_id: Seq<char>,
)
    ensures
        approval_step(
            tool_name,
            command,
            assessment,
            ShellApprovalThreshold::AutoApprove,
            tool_call_id,
        ) is Proceed <==> assessment.risk != ShellRisk::Blocked,
{
}

/// A riskier command is never treated more leniently than a safer one under
/// the same threshold.
pub proof fn approval_is_monotone_in_risk(
    tool_name: Seq<char>,
    command: Seq<char>,
    safer: RiskAssessment,
    riskier: RiskAssessment,
    threshold: ShellApprovalThreshold,
    tool_call_id: Seq<char>,
)
    requires
        risk_rank(safer.risk) <= risk_rank(riskier.risk),
    ensures
        approval_step(tool_name, command, riskier, threshold, tool_call_id) is Proceed
            ==> approval_step(tool_name, command, safer, threshold, tool_call_id) is Proceed,
        approval_step(tool_name, command, safer, threshold, tool_call_id) is Reject
            ==> approval_step(tool_name, command, riskier, threshold, tool_call_id) is Reject,
{
}

/// When the user is asked, case by case: under `Low` about every command, under
/// `Medium` about those of medium and high risk, under `High` about those of
/// high risk, under `AutoApprove` about none. Every other command runs without
/// a question, but for a blocked one, which never does.
pub proof fn questions_by_risk_and_threshold(
    tool_name: Seq<char>,
    command: Seq<char>,
    a: RiskAssessment,
    threshold: ShellApprovalThreshold,
    tool_call_id: Seq<char>,
)
    ensures
        ({
            let step = approval_step(tool_name, command, a, threshold, tool_call_id);
            &&& step is Reject <==> a.risk == ShellRisk::Blocked
            &&& a.risk != ShellRisk::Blocked ==> match threshold {
                ShellApprovalThreshold::Low => step is Ask,
                ShellApprovalThreshold::Medium => {
                    &&& a.risk == ShellRisk::Low ==> step is Proceed
                    &&& a.risk == ShellRisk::Medium ==> step is Ask
                    &&& a.risk == ShellRisk::High ==> step is Ask
                },
                ShellApprovalThreshold::High => {
                    &&& a.risk == ShellRisk::Low ==> step is Proceed
                    &&& a.risk == ShellRisk::Medium ==> step is Proceed
                    &&& a.risk == ShellRisk::High ==> step is Ask
                },
                ShellApprovalThreshold::AutoApprove => step is Proceed,
            }
        }),
{
}

/// The user is asked about the command as it stands, with all that the
/// assessment says of it; the model is told which command was blocked and why.
pub proof fn questions_name_the_command(
    tool_name: Seq<char>,
    command: Seq<char>,
    a: RiskAssessment,
    threshold: ShellApprovalThreshold,
    tool_call_id: Seq<char>,
)
    ensures
        match approval_step(tool_name, command, a, threshold, tool_call_id) {
            StepView::Proceed => true,
            StepView::Reject(text) => text
                == "Error: Shell command was blocked for safety reasons. Command: "@ + command
                + "\nReason: "@ + a.reason@,
            StepView::Ask(q) => {
                &&& q.tool_name == tool_name
                &&& q.action == command
                &&& q.risk_level == a.risk
                &&& q.reason == a.reason@
                &&& q.executable_paths == a.executable_paths.deep_view()
                &&& q.provenance_elevated == a.provenance_elevated
                &&& q.tool_call_id == tool_call_id
            },
        },
{
}

/// Risks are ordered: low, medium, high, blocked.
pub proof fn risks_are_ordered()
    ensures
        risk_rank(ShellRisk::Low) < risk_rank(ShellRisk::Medium),
        risk_rank(ShellRisk::Medium) < risk_rank(ShellRisk::High),
        risk_rank(ShellRisk::High) < risk_rank(ShellRisk::Blocked),
{
}

/// Four tools run shell commands, under these names and no others.
pub proof fn shells_are_known_by_name(name: Seq<char>)
    ensures
        is_shell("bash"@) && is_shell("powershell"@) && is_shell("pwsh"@) && is_shell("shell"@),
        is_shell(name) ==> name == "bash"@ || name == "powershell"@ || name == "pwsh"@ || name
            == "shell"@,
{
}

/// The command of a shell call is the text of its member `command`; without
/// one, or with an empty one, there is nothing to run.
pub proof fn commands_are_read_from_their_member(params: JsonView)
    ensures
        params.get("command"@) matches Some(JsonView::Text(c)) ==> match command_in(params) {
            Some(text) => text == c && c.len() > 0,
            None => c.len() == 0,
        },
        !(params.get("command"@) matches Some(JsonView::Text(_))) ==> command_in(params) is None,
{
}

/// Only shell calls are assessed, and only where someone approves them; then it
/// is the command of the call that is.
pub proof fn only_shell_commands_are_assessed(
    route: ApprovalRoute,
    tool_name: Seq<char>,
    params_json: Seq<char>,
)
    ensures
        route == ApprovalRoute::Nobody ==> assessed_command(route, tool_name, params_json) is None,
        !is_shell(tool_name) ==> assessed_command(route, tool_name, params_json) is None,
        route != ApprovalRoute::Nobody && is_shell(tool_name) ==> match parsed_json(params_json) {
            Ok(params) => assessed_command(route, tool_name, params_json) == command_in(params),
            Err(_) => assessed_command(route, tool_name, params_json) is None,
        },
{
}

/// What someone approved runs, once or for good; what they rejected does not,
/// and the model is told which command it was, how risky and why it was
/// rejected.
pub proof fn rejected_commands_do_not_run(
    command: Seq<char>,
    label: Seq<char>,
    reason: Seq<char>,
    said: Option<Seq<char>>,
)
    ensures
        gate_error(command, label, reason, ApprovalResponse::Approved) is None,
        gate_error(command, label, reason, ApprovalResponse::AlwaysAllow) is None,
        gate_error(command, label, reason, ApprovalResponse::Rejected) == Some(
            "Error: Shell command was rejected by the user based on risk assessment.\nCommand: "@
                + command + "\nRisk level: "@ + label + "\nReason: "@ + reason,
        ),
        decision_error(command, label, true, said) is None,
        said matches Some(why) ==> decision_error(command, label, false, said) == Some(
            "Error: Shell command was rejected based on risk assessment.\nCommand: "@ + command
                + "\nRisk level: "@ + label + "\nReason: "@ + why,
        ),
        said is None ==> decision_error(command, label, false, said) == Some(
            "Error: Shell command was rejected based on risk assessment.\nCommand: "@ + command
                + "\nRisk level: "@ + label + "\nReason: "@ + "rejected by user"@,
        ),
{
}

} // verus!
