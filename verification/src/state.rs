//! What the gateway remembers of a channel.

use vstd::prelude::*;

use std::collections::VecDeque;

use crate::api::ReasoningEffort;
use crate::text::{clone_text, opt_text};

verus! {

/// A turn that waits for the one before it.
#[derive(Debug, PartialEq, Eq)]
pub struct QueuedTurn {
    pub prompt: String,
}

impl View for QueuedTurn {
    type V = Seq<char>;

    open spec fn view(&self) -> Seq<char> {
        self.prompt@
    }
}

impl Clone for QueuedTurn {
    fn clone(&self) -> (copy: Self)
        ensures
            copy@ == self@,
    {
        QueuedTurn { prompt: self.prompt.clone() }
    }
}

/// The session of one channel.
#[derive(Debug, PartialEq, Eq)]
pub struct SessionState {
    pub thread_id: Option<String>,
    pub model: String,
    pub effort: Option<ReasoningEffort>,
    pub active_turn_id: Option<String>,
    pub queued: VecDeque<QueuedTurn>,
}

/// The mathematical value of a [`SessionState`]; `queued` holds the prompts, next one first.
#[verifier::ext_equal]
pub struct SessionView {
    pub thread_id: Option<Seq<char>>,
    pub model: Seq<char>,
    pub effort: Option<ReasoningEffort>,
    pub active_turn_id: Option<Seq<char>>,
    pub queued: Seq<Seq<char>>,
}

/// The prompts of a queue.
pub open spec fn prompts(queue: Seq<QueuedTurn>) -> Seq<Seq<char>> {
    queue.map_values(|turn: QueuedTurn| turn@)
}

impl View for SessionState {
    type V = SessionView;

    open spec fn view(&self) -> SessionView {
        SessionView {
            thread_id: opt_text(self.thread_id),
            model: self.model@,
            effort: self.effort,
            active_turn_id: opt_text(self.active_turn_id),
            queued: prompts(self.queued@),
        }
    }
}

/// A session on which nothing has happened yet.
pub open spec fn fresh_session(model: Seq<char>) -> SessionView {
    SessionView {
        thread_id: None,
        model,
        effort: None,
        active_turn_id: None,
        queued: Seq::empty(),
    }
}

impl SessionState {
    /// A session on which nothing has happened yet.
    pub fn new(model: String) -> (session: Self)
        ensures
            session@ == fresh_session(model@),
    {
        let session = SessionState {
            thread_id: None,
            model,
            effort: None,
            active_turn_id: None,
            queued: VecDeque::new(),
        };
        assert(prompts(session.queued@) =~= Seq::empty());
        session
    }
}

impl Clone for SessionState {
    fn clone(&self) -> (copy: Self)
        ensures
            copy@ == self@,
    {
        let queued = self.queued.clone();
        assert(prompts(queued@) =~= prompts(self.queued@)) by {
            assert forall|i: int| 0 <= i < queued@.len() implies queued@[i]@
                == self.queued@[i]@ by {
                assert(cloned(self.queued@[i], queued@[i]));
            }
        }
        SessionState {
            thread_id: clone_text(&self.thread_id),
            model: self.model.clone(),
            effort: self.effort,
            active_turn_id: clone_text(&self.active_turn_id),
            queued,
        }
    }
}

} // verus!
