//! The manager's end of a running session.

use vstd::prelude::*;

use crate::conversation::{ConversationSession, ConversationView};
use crate::overrides::{OverridesView, RuntimeConfigOverrides};
use crate::session::{SessionSnapshot, SessionStatus, SnapshotView, StatusView};
use crate::session_config::{ConfigView, SessionConfigDelta};
use crate::session_message::{MessageView, SessionMessage};

verus! {

/// A channel to a session as it was last seen.
#[derive(Clone, Copy, Debug, PartialEq, Eq, Structural)]
pub struct Link {
    /// How many more messages it takes.
    pub free: usize,
    /// Nobody listens any more.
    pub closed: bool,
}

/// Why a message was not taken.
#[derive(Clone, Copy, Debug, PartialEq, Eq, Structural)]
pub enum SendError {
    /// The session is healthy but behind.
    Full,
    /// The session is gone.
    Closed,
}

impl Link {
    /// What becomes of a message.
    pub open spec fn verdict(self) -> Option<SendError> {
        if self.closed {
            Some(SendError::Closed)
        } else if self.free == 0 {
            Some(SendError::Full)
        } else {
            None
        }
    }
}

/// The manager's end of a running session. What stands in the two inboxes is
/// on its way to the session, in order.
pub struct SessionHandle {
    pub session_id: String,
    pub status: SessionStatus,
    /// When the session was last active, in milliseconds on the host's clock.
    pub last_active_at: u64,
    pub link: Link,
    pub inbox: Vec<SessionMessage>,
    /// The lane past the inbox, straight to a turn that runs.
    pub fast_link: Link,
    pub fast_inbox: Vec<RuntimeConfigOverrides>,
    pub snapshot: SessionSnapshot,
    pub workspace_id: String,
    pub current_work_dir: Option<String>,
    /// The manager's hand on the conversation of the session.
    pub conversation: Option<ConversationSession>,
    /// Whether the debugger waits to be let in.
    pub debug_pending: bool,
    /// Whether the task of the session has ended.
    pub finished: bool,
}

/// What a [`SessionHandle`] holds.
pub struct HandleView {
    pub session_id: Seq<char>,
    pub status: StatusView,
    pub last_active_at: u64,
    pub link: Link,
    pub inbox: Seq<MessageView>,
    pub fast_link: Link,
    pub fast_inbox: Seq<OverridesView>,
    pub snapshot: SnapshotView,
    pub workspace_id: Seq<char>,
    pub current_work_dir: Option<Seq<char>>,
    pub conversation: Option<ConversationView>,
    pub debug_pending: bool,
    pub finished: bool,
}

impl DeepView for SessionHandle {
    type V = HandleView;

    open spec fn deep_view(&self) -> HandleView {
        HandleView {
            session_id: self.session_id@,
            status: self.status.deep_view(),
            last_active_at: self.last_active_at,
            link: self.link,
            inbox: self.inbox.deep_view(),
            fast_link: self.fast_link,
            fast_inbox: self.fast_inbox.deep_view(),
            snapshot: self.snapshot.deep_view(),
            workspace_id: self.workspace_id@,
            current_work_dir: self.current_work_dir.deep_view(),
            conversation: self.conversation.deep_view(),
            debug_pending: self.debug_pending,
            finished: self.finished,
        }
    }
}

/// Something that is done to sessions.
pub enum HandleOp<'a> {
    /// A message to the inbox.
    Send(&'a SessionMessage),
    /// Settings past the inbox.
    SendFast(&'a RuntimeConfigOverrides),
    /// A change of the persisted settings.
    Configure(&'a SessionConfigDelta),
    /// The debugger is let in, now or when the turn allows.
    EnableDebug,
}

/// What a [`HandleOp`] is.
pub enum HandleOpView {
    Send(MessageView),
    SendFast(OverridesView),
    Configure(ConfigView),
    EnableDebug,
}

impl<'a> HandleOp<'a> {
    /// What the operation is.
    pub open spec fn what(self) -> HandleOpView {
        match self {
            HandleOp::Send(m) => HandleOpView::Send(m.deep_view()),
            HandleOp::SendFast(o) => HandleOpView::SendFast(o.deep_view()),
            HandleOp::Configure(d) => HandleOpView::Configure(d.deep_view()),
            HandleOp::EnableDebug => HandleOpView::EnableDebug,
        }
    }
}

impl HandleView {
    /// The handle with one more message on its way.
    pub open spec fn sent(self, msg: MessageView) -> HandleView {
        HandleView {
            inbox: self.inbox.push(msg),
            link: Link { free: (self.link.free - 1) as usize, ..self.link },
            ..self
        }
    }

    /// The handle after an operation. What a full or closed channel does not
    /// take is lost.
    pub open spec fn done(self, op: HandleOpView) -> HandleView {
        match op {
            HandleOpView::Send(msg) => if self.link.verdict() is None {
                self.sent(msg)
            } else {
                self
            },
            HandleOpView::SendFast(o) => if self.fast_link.verdict() is None {
                HandleView {
                    fast_inbox: self.fast_inbox.push(o),
                    fast_link: Link { free: (self.fast_link.free - 1) as usize, ..self.fast_link },
                    ..self
                }
            } else {
                self
            },
            HandleOpView::Configure(delta) => HandleView {
                conversation: match self.conversation {
                    Some(c) => Some(c.configured(delta)),
                    None => None,
                },
                ..self
            },
            HandleOpView::EnableDebug => HandleView {
                debug_pending: true,
                inbox: if self.link.closed {
                    self.inbox
                } else {
                    self.inbox.push(MessageView::EnableDebugMode)
                },
                ..self
            },
        }
    }

    /// An operation fails on the handle.
    pub open spec fn fails(self, op: HandleOpView) -> bool {
        match op {
            HandleOpView::Send(_) => self.link.verdict() is Some,
            HandleOpView::SendFast(_) => self.fast_link.verdict() is Some,
            HandleOpView::Configure(_) => false,
            HandleOpView::EnableDebug => self.link.closed,
        }
    }

    /// The handle of a session that is told to close.
    pub open spec fn closing(self) -> HandleView {
        HandleView { inbox: self.inbox.push(MessageView::Close), ..self }
    }
}

impl SessionHandle {
    /// Puts a message on its way, where the channel takes it.
    pub fn send(&mut self, msg: SessionMessage) -> (r: Result<(), SendError>)
        ensures
            match old(self).link.verdict() {
                Some(e) => r == Err::<(), SendError>(e) && *final(self) == *old(self),
                None => r is Ok && final(self).deep_view() == old(self).deep_view().sent(
                    msg.deep_view(),
                ),
            },
    {
        if self.link.closed {
            return Err(SendError::Closed);
        }
        if self.link.free == 0 {
            return Err(SendError::Full);
        }
        self.push_message(msg);
        self.link.free = self.link.free - 1;
        Ok(())
    }

    fn push_message(&mut self, msg: SessionMessage)
        ensures
            final(self).inbox.deep_view() == old(self).inbox.deep_view().push(msg.deep_view()),
            *final(self) == (SessionHandle { inbox: final(self).inbox, ..*old(self) }),
    {
        self.inbox.push(msg);
        assert(self.inbox.deep_view() =~= old(self).inbox.deep_view().push(msg.deep_view()));
    }

    /// Tells the session to close; it is waited for until it takes that.
    pub fn tell_close(&mut self)
        ensures
            final(self).deep_view() == old(self).deep_view().closing(),
    {
        self.push_message(SessionMessage::Close);
    }

    /// Does an operation; whether it failed.
    pub fn apply(&mut self, op: &HandleOp) -> (failed: bool)
        ensures
            final(self).deep_view() == old(self).deep_view().done(op.what()),
            failed == old(self).deep_view().fails(op.what()),
    {
        match op {
            HandleOp::Send(msg) => {
                let r = self.send((**msg).clone());
                r.is_err()
            },
            HandleOp::SendFast(o) => {
                if self.fast_link.closed || self.fast_link.free == 0 {
                    return true;
                }
                let copy = (**o).clone();
                self.fast_inbox.push(copy);
                assert(self.fast_inbox.deep_view() =~= old(self).fast_inbox.deep_view().push(
                    o.deep_view(),
                ));
                self.fast_link.free = self.fast_link.free - 1;
                false
            },
            HandleOp::Configure(delta) => {
                match self.conversation.take() {
                    Some(mut conversation) => {
                        conversation.apply_config((**delta).clone());
                        self.conversation = Some(conversation);
                    },
                    None => {},
                }
                false
            },
            HandleOp::EnableDebug => {
                self.debug_pending = true;
                if self.link.closed {
                    return true;
                }
                self.push_message(SessionMessage::EnableDebugMode);
                false
            },
        }
    }
}

/// A closed channel takes nothing, whatever room it has; an open one takes a
/// message where it has room.
pub proof fn channels_take_what_fits(l: Link)
    ensures
        l.closed ==> l.verdict() == Some(SendError::Closed),
        !l.closed && l.free == 0 ==> l.verdict() == Some(SendError::Full),
        !l.closed && l.free > 0 ==> l.verdict() is None,
{
}

/// A message that is taken is the last of the inbox and takes up one place; one
/// that is not leaves the session as it was.
pub proof fn taken_messages_are_delivered(h: HandleView, m: MessageView, o: OverridesView)
    ensures
        ({
            let after = h.done(HandleOpView::Send(m));
            &&& h.fails(HandleOpView::Send(m)) <==> h.link.closed || h.link.free == 0
            &&& h.fails(HandleOpView::Send(m)) ==> after == h
            &&& !h.fails(HandleOpView::Send(m)) ==> {
                &&& after.inbox.len() == h.inbox.len() + 1
                &&& after.inbox.last() == m
                &&& after.inbox.drop_last() == h.inbox
                &&& after.link.free + 1 == h.link.free
                &&& !after.link.closed
                &&& after.fast_inbox == h.fast_inbox
                &&& after.fast_link == h.fast_link
                &&& after.conversation == h.conversation
            }
        }),
        ({
            let after = h.done(HandleOpView::SendFast(o));
            &&& h.fails(HandleOpView::SendFast(o)) <==> h.fast_link.closed || h.fast_link.free == 0
            &&& h.fails(HandleOpView::SendFast(o)) ==> after == h
            &&& !h.fails(HandleOpView::SendFast(o)) ==> {
                &&& after.fast_inbox.len() == h.fast_inbox.len() + 1
                &&& after.fast_inbox.last() == o
                &&& after.fast_inbox.drop_last() == h.fast_inbox
                &&& after.fast_link.free + 1 == h.fast_link.free
                &&& after.inbox == h.inbox
                &&& after.link == h.link
            }
        }),
{
    let a = h.done(HandleOpView::Send(m));
    let b = h.done(HandleOpView::SendFast(o));
    assert(a.inbox.drop_last() =~= h.inbox || h.fails(HandleOpView::Send(m)));
    assert(b.fast_inbox.drop_last() =~= h.fast_inbox || h.fails(HandleOpView::SendFast(o)));
}

/// Settings go into the log of the session, where it has one, and never fail;
/// the debugger is asked for even where nobody listens, but then the session is
/// not told; and a session is told to close whatever room it has.
pub proof fn settings_and_signals_get_through(h: HandleView, delta: ConfigView)
    ensures
        !h.fails(HandleOpView::Configure(delta)),
        h.conversation matches Some(c) ==> h.done(HandleOpView::Configure(delta)).conversation
            == Some(c.configured(delta)),
        h.conversation is None ==> h.done(HandleOpView::Configure(delta)) == h,
        h.done(HandleOpView::Configure(delta)).inbox == h.inbox,
        h.done(HandleOpView::EnableDebug).debug_pending,
        h.fails(HandleOpView::EnableDebug) <==> h.link.closed,
        h.link.closed ==> h.done(HandleOpView::EnableDebug).inbox == h.inbox,
        !h.link.closed ==> h.done(HandleOpView::EnableDebug).inbox == h.inbox.push(
            MessageView::EnableDebugMode,
        ),
        h.closing().inbox == h.inbox.push(MessageView::Close),
        h.closing().conversation == h.conversation,
{
}

} // verus!
