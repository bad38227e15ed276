//! Long-term memories in the context of a turn.

use vstd::prelude::*;

use crate::agent_loop::AgentLoop;

verus! {

/// What of a request the long-term memory fills.
#[derive(Debug)]
pub struct MemoryContext {
    /// Memories that bear on the user's message.
    pub retrieved: Option<String>,
    /// A question to clear up what the memory holds twice.
    pub confirmation_hint: Option<String>,
}

/// What a [`MemoryContext`] holds.
pub struct MemoryContextView {
    pub retrieved: Option<Seq<char>>,
    pub confirmation_hint: Option<Seq<char>>,
}

impl MemoryContextView {
    /// The context once memories were found, and a question about them or none.
    pub open spec fn filled(self, text: Seq<char>, hint: Option<Seq<char>>) -> MemoryContextView {
        MemoryContextView {
            retrieved: if text.len() > 0 {
                Some(text)
            } else {
                self.retrieved
            },
            confirmation_hint: if hint is Some {
                hint
            } else {
                self.confirmation_hint
            },
        }
    }
}

impl DeepView for MemoryContext {
    type V = MemoryContextView;

    open spec fn deep_view(&self) -> MemoryContextView {
        MemoryContextView {
            retrieved: self.retrieved.deep_view(),
            confirmation_hint: self.confirmation_hint.deep_view(),
        }
    }
}

/// What to do about memories in this turn.
#[derive(Debug)]
pub enum MemoryPlan {
    /// There is no memory: do nothing.
    NoProvider,
    /// Tell the recall tool which session this is, and leave it at that.
    Publish { session_id: Option<String> },
    /// Tell the recall tool which session this is, and look for memories of
    /// other sessions that bear on the message.
    Retrieve { session_id: Option<String>, query: String },
}

/// What a [`MemoryPlan`] is.
pub enum MemoryPlanView {
    NoProvider,
    Publish { session_id: Option<Seq<char>> },
    Retrieve { session_id: Option<Seq<char>>, query: Seq<char> },
}

/// What is done about memories for a message.
pub open spec fn memory_plan(
    session_id: Option<Seq<char>>,
    message: Seq<char>,
    has_provider: bool,
    auto_inject_enabled: bool,
) -> MemoryPlanView {
    if !has_provider {
        MemoryPlanView::NoProvider
    } else if !auto_inject_enabled {
        MemoryPlanView::Publish { session_id }
    } else {
        MemoryPlanView::Retrieve { session_id, query: message }
    }
}

impl DeepView for MemoryPlan {
    type V = MemoryPlanView;

    open spec fn deep_view(&self) -> MemoryPlanView {
        match self {
            MemoryPlan::NoProvider => MemoryPlanView::NoProvider,
            MemoryPlan::Publish { session_id } => MemoryPlanView::Publish {
                session_id: session_id.deep_view(),
            },
            MemoryPlan::Retrieve { session_id, query } => MemoryPlanView::Retrieve {
                session_id: session_id.deep_view(),
                query: query@,
            },
        }
    }
}

/// What a retrieval found.
#[derive(Debug)]
pub struct RetrievedMemories {
    pub formatted_text: String,
    pub ambiguous_hint: Option<String>,
}

impl AgentLoop {
    /// The id of the conversation, where there is one.
    pub open spec fn conversation_id_opt(&self) -> Option<Seq<char>> {
        match self.session.conversation {
            Some(c) => Some(c.session_id@),
            None => None,
        }
    }

    /// Begins the search for long-term memories that bear on a message. What
    /// an earlier turn found is always cleared first.
    pub fn retrieve_and_inject_memories(
        &self,
        user_message: &str,
        context: &mut MemoryContext,
        has_provider: bool,
        auto_inject_enabled: bool,
    ) -> (r: MemoryPlan)
        ensures
            final(context).deep_view() == (MemoryContextView {
                retrieved: None,
                ..old(context).deep_view()
            }),
            r.deep_view() == memory_plan(
                self.conversation_id_opt(),
                user_message@,
                has_provider,
                auto_inject_enabled,
            ),
    {
        context.retrieved = None;
        if !has_provider {
            return MemoryPlan::NoProvider;
        }
        let session_id = match &self.session.conversation {
            Some(c) => Some(c.session_id.clone()),
            None => None,
        };
        if !auto_inject_enabled {
            MemoryPlan::Publish { session_id }
        } else {
            MemoryPlan::Retrieve { session_id, query: user_message.to_owned() }
        }
    }

    /// Puts what a retrieval found into the context; `None` is a retrieval
    /// that failed. The session counts as served only by one that succeeded.
    pub fn inject_memories(
        &mut self,
        context: &mut MemoryContext,
        result: Option<RetrievedMemories>,
    )
        ensures
            match result {
                Some(found) => {
                    &&& final(context).deep_view() == old(context).deep_view().filled(
                        found.formatted_text@,
                        found.ambiguous_hint.deep_view(),
                    )
                    &&& final(self).memory_retrieved_for_session
                },
                None => *final(context) == *old(context)
                    && final(self).memory_retrieved_for_session == old(
                    self,
                ).memory_retrieved_for_session,
            },
            *final(self) == (AgentLoop {
                memory_retrieved_for_session: final(self).memory_retrieved_for_session,
                ..*old(self)
            }),
    {
        match result {
            Some(found) => {
                if !found.formatted_text.as_str().is_empty() {
                    context.retrieved = Some(found.formatted_text);
                }
                if found.ambiguous_hint.is_some() {
                    context.confirmation_hint = found.ambiguous_hint;
                }
                self.memory_retrieved_for_session = true;
            },
            None => {},
        }
    }
}

/// Memories are looked for where there is a memory and the user wants them
/// looked for, by the very words of the message; the recall tool is told the
/// session wherever there is a memory.
pub proof fn memories_are_looked_for_by_the_message(
    session_id: Option<Seq<char>>,
    message: Seq<char>,
    has_provider: bool,
    auto_inject_enabled: bool,
)
    ensures
        ({
            let plan = memory_plan(session_id, message, has_provider, auto_inject_enabled);
            &&& plan is NoProvider <==> !has_provider
            &&& plan is Retrieve <==> has_provider && auto_inject_enabled
            &&& plan matches MemoryPlanView::Retrieve { session_id: id, query } ==> id == session_id
                && query == message
            &&& plan matches MemoryPlanView::Publish { session_id: id } ==> id == session_id
        }),
{
}

/// Found memories go into the context, word for word, and so does the question
/// about them; what was not found leaves what was there.
pub proof fn found_memories_reach_the_context(
    c: MemoryContextView,
    text: Seq<char>,
    hint: Option<Seq<char>>,
)
    ensures
        text.len() > 0 ==> c.filled(text, hint).retrieved == Some(text),
        text.len() == 0 ==> c.filled(text, hint).retrieved == c.retrieved,
        hint is Some ==> c.filled(text, hint).confirmation_hint == hint,
        hint is None ==> c.filled(text, hint).confirmation_hint == c.confirmation_hint,
{
}

} // verus!
