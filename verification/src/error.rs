//! Errors of the runtime, and which of them are worth another attempt.

use vstd::prelude::*;

use crate::text::{contains, has_text};

verus! {

/// What went wrong on the provider's side.
#[derive(Clone, Copy, Debug, PartialEq, Eq, Structural)]
pub enum ProviderErrorKind {
    /// The request never got an answer.
    Network,
    /// The credentials were refused.
    Auth,
    /// The provider asked for fewer requests.
    RateLimit,
    /// Anything else.
    Unknown,
}

/// A failed provider call.
#[derive(Debug, PartialEq, Eq)]
pub struct ProviderError {
    pub kind: ProviderErrorKind,
    pub message: String,
}

/// A summarisation that did not yield a usable summary.
#[derive(Debug, PartialEq, Eq)]
pub struct SummaryError {
    pub message: String,
    /// Whether another model may do better.
    pub retryable: bool,
}

/// Errors of the layers below the runtime.
#[derive(Debug, PartialEq, Eq)]
pub enum CoreError {
    Provider(ProviderError),
    Io(String),
    Other(String),
}

/// Errors that an agent turn can end in.
#[derive(Debug, PartialEq, Eq)]
pub enum RuntimeError {
    Core(CoreError),
    /// The response stream broke off.
    Stream(String),
    Tool(String),
    LoopDetected(String),
    Summary(SummaryError),
    BudgetExceeded(String),
    Config(String),
    Internal(String),
}

impl ProviderError {
    /// The request failed on the network.
    pub fn network(message: String) -> (r: Self)
        ensures
            r == (ProviderError { kind: ProviderErrorKind::Network, message }),
    {
        ProviderError { kind: ProviderErrorKind::Network, message }
    }

    /// The credentials were refused.
    pub fn auth(message: String) -> (r: Self)
        ensures
            r == (ProviderError { kind: ProviderErrorKind::Auth, message }),
    {
        ProviderError { kind: ProviderErrorKind::Auth, message }
    }

    /// The provider asked for fewer requests.
    pub fn rate_limit(message: String) -> (r: Self)
        ensures
            r == (ProviderError { kind: ProviderErrorKind::RateLimit, message }),
    {
        ProviderError { kind: ProviderErrorKind::RateLimit, message }
    }

    /// An error of no known kind.
    pub fn unknown(message: String) -> (r: Self)
        ensures
            r == (ProviderError { kind: ProviderErrorKind::Unknown, message }),
    {
        ProviderError { kind: ProviderErrorKind::Unknown, message }
    }

    /// The account has no quota left.
    pub open spec fn spec_is_quota(&self) -> bool {
        has_text(self.message@, "insufficient_quota"@)
    }

    /// Refused credentials and exhausted quota do not heal by themselves;
    /// every other provider failure may.
    pub open spec fn spec_is_retryable(&self) -> bool {
        self.kind != ProviderErrorKind::Auth && !self.spec_is_quota()
    }

    /// Whether another attempt may succeed.
    pub fn is_retryable(&self) -> (r: bool)
        ensures
            r == self.spec_is_retryable(),
    {
        self.kind != ProviderErrorKind::Auth && !contains(
            self.message.as_str(),
            "insufficient_quota",
        )
    }
}

impl RuntimeError {
    /// Transport failures may heal; what the agent itself ran into does not.
    pub open spec fn spec_is_retryable(&self) -> bool {
        match self {
            RuntimeError::Core(CoreError::Provider(e)) => e.spec_is_retryable(),
            RuntimeError::Core(CoreError::Io(_)) => true,
            RuntimeError::Stream(_) => true,
            _ => false,
        }
    }

    /// Whether another attempt may succeed.
    pub fn is_retryable(&self) -> (r: bool)
        ensures
            r == self.spec_is_retryable(),
    {
        match self {
            RuntimeError::Core(CoreError::Provider(e)) => e.is_retryable(),
            RuntimeError::Core(CoreError::Io(_)) => true,
            RuntimeError::Stream(_) => true,
            _ => false,
        }
    }

    /// The error is a summary that no cheaper model would do better.
    pub open spec fn spec_is_final_summary(&self) -> bool {
        self matches RuntimeError::Summary(e) && !e.retryable
    }

    /// Whether the error is a summary that no cheaper model would do better.
    pub fn is_final_summary(&self) -> (r: bool)
        ensures
            r == self.spec_is_final_summary(),
    {
        match self {
            RuntimeError::Summary(e) => !e.retryable,
            _ => false,
        }
    }
}

// ── Laws ────────────────────────────────────────────────────────────────

/// Which failures may heal by themselves: those of the network, of a rate and
/// of no known kind, unless the account has no quota left; a broken stream and
/// failed input or output. Refused credentials do not, nor does anything that
/// the agent itself ran into.
pub proof fn only_transport_failures_heal(
    kind: ProviderErrorKind,
    message: String,
    text: String,
    s: SummaryError,
)
    ensures
        ({
            let e = ProviderError { kind, message };
            let quota = has_text(message@, "insufficient_quota"@);
            &&& kind == ProviderErrorKind::Auth ==> !e.spec_is_retryable()
            &&& quota ==> !e.spec_is_retryable()
            &&& !quota && (kind == ProviderErrorKind::Network || kind
                == ProviderErrorKind::RateLimit || kind == ProviderErrorKind::Unknown)
                ==> e.spec_is_retryable()
            &&& RuntimeError::Core(CoreError::Provider(e)).spec_is_retryable()
                == e.spec_is_retryable()
        }),
        RuntimeError::Core(CoreError::Io(text)).spec_is_retryable(),
        RuntimeError::Stream(text).spec_is_retryable(),
        !RuntimeError::Core(CoreError::Other(text)).spec_is_retryable(),
        !RuntimeError::Tool(text).spec_is_retryable(),
        !RuntimeError::LoopDetected(text).spec_is_retryable(),
        !RuntimeError::BudgetExceeded(text).spec_is_retryable(),
        !RuntimeError::Config(text).spec_is_retryable(),
        !RuntimeError::Internal(text).spec_is_retryable(),
        !RuntimeError::Summary(s).spec_is_retryable(),
{
}

/// A summary that no other model would do better ends the search for one; no
/// other failure does.
pub proof fn only_final_summaries_end_the_search(e: RuntimeError)
    ensures
        e matches RuntimeError::Summary(s) ==> e.spec_is_final_summary() == !s.retryable,
        !(e is Summary) ==> !e.spec_is_final_summary(),
{
}

} // verus!
