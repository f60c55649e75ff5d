//! The sessions of all channels and the commands on them.

use vstd::prelude::*;

use std::collections::HashMap;
use std::hash::Hash;

use crate::api::{GatewayConfig, GoalStatus, ReasoningEffort, SessionAction};
use crate::format::{format_goal, format_session, goal_text, session_text};
use crate::protocol::{
    empty_thread_resume_params, text_input, AppClientInfo, AppServerConfig, ClientRequest,
    ModelListParams, RequestId, RequestIdView, RequestView, ThreadGoal, ThreadGoalSetParams,
    ThreadResumeParams, ThreadResumeView, ThreadStartParams, ThreadStartView,
    TurnInterruptParams, TurnSteerParams,
};
use crate::state::{fresh_session, prompts, QueuedTurn, SessionState, SessionView};
use crate::text::{clone_text, decimal, opt_text, unsigned_decimal};

verus! {

/// Equality, hash and clone of the channel keys go together: equal keys are the same key, and a
/// clone is the key that it was made from.
pub open spec fn key_model<K: Clone>() -> bool {
    &&& vstd::std_specs::hash::obeys_key_model::<K>()
    &&& forall|key: K, copy: K| #[trigger] cloned(key, copy) ==> key == copy
}

/// A copy of a channel key.
pub(crate) fn copy_key<K: Clone>(key: &K) -> (copy: K)
    requires
        key_model::<K>(),
    ensures
        copy == *key,
{
    let copy = key.clone();
    assert(cloned(*key, copy));
    copy
}

/// The number of the first request.
pub const FIRST_REQUEST_ID: i64 = 10_000;

/// How many channels can wait for the worker.
pub const WORK_QUEUE_CAPACITY: usize = 128;

/// What brings up the app-server: its launch, then the introduction of the client.
#[derive(Debug, PartialEq, Eq)]
pub struct Launch {
    pub server: AppServerConfig,
    pub client: AppClientInfo,
}

/// A request, and the reply to the channel once the request is answered.
#[derive(Debug, PartialEq, Eq)]
pub struct Call {
    pub request: ClientRequest,
    pub reply: String,
}

/// Why a command is refused.
#[derive(Debug, Clone, Copy, PartialEq, Eq, Structural)]
pub enum GatewayError {
    NoActiveThread,
    NoActiveTurn,
    MissingThreadId,
}

impl GatewayError {
    /// The text of the refusal.
    pub open spec fn text(self) -> Seq<char> {
        match self {
            GatewayError::NoActiveThread => "no active thread for this channel"@,
            GatewayError::NoActiveTurn => "no active turn for this channel"@,
            GatewayError::MissingThreadId => "thread_id is required"@,
        }
    }

    /// The text of the refusal.
    pub fn message(self) -> (text: &'static str)
        ensures
            text@ == self.text(),
    {
        match self {
            GatewayError::NoActiveThread => "no active thread for this channel",
            GatewayError::NoActiveTurn => "no active turn for this channel",
            GatewayError::MissingThreadId => "thread_id is required",
        }
    }
}

/// What becomes of a prompt.
#[derive(Debug, PartialEq, Eq)]
pub enum Enqueued {
    /// It goes into the turn that is under way.
    Steer(Call),
    /// It waits in the queue; the worker is to be told of the channel before the reply.
    Queued { reply: String },
}

/// What is done with a goal.
#[derive(Debug, PartialEq, Eq)]
pub enum GoalCommand {
    Show,
    Pursue { objective: String, budget: Option<i64> },
    SetStatus(GoalStatus),
    Clear,
}

/// The mathematical value of a [`GoalCommand`].
pub enum GoalCommandView {
    Show,
    Pursue { objective: Seq<char>, budget: Option<i64> },
    SetStatus(GoalStatus),
    Clear,
}

impl View for GoalCommand {
    type V = GoalCommandView;

    open spec fn view(&self) -> GoalCommandView {
        match self {
            GoalCommand::Show => GoalCommandView::Show,
            GoalCommand::Pursue { objective, budget } => GoalCommandView::Pursue {
                objective: objective@,
                budget: *budget,
            },
            GoalCommand::SetStatus(status) => GoalCommandView::SetStatus(*status),
            GoalCommand::Clear => GoalCommandView::Clear,
        }
    }
}

impl GoalCommandView {
    /// The command of someone who names an objective or none.
    pub open spec fn of(objective: Option<Seq<char>>, budget: Option<i64>) -> Self {
        match objective {
            Some(objective) => GoalCommandView::Pursue { objective, budget },
            None => GoalCommandView::Show,
        }
    }

    /// The request of the command on a thread.
    pub open spec fn call(self, id: RequestIdView, thread_id: Seq<char>) -> GoalCallView {
        match self {
            GoalCommandView::Show => GoalCallView::Show(
                RequestView::ThreadGoalGet { id, thread_id },
            ),
            GoalCommandView::Pursue { objective, budget } => GoalCallView::Change(
                RequestView::ThreadGoalSet {
                    id,
                    thread_id,
                    objective: Some(objective),
                    token_budget: budget,
                    status: Some(GoalStatus::Active),
                },
            ),
            GoalCommandView::SetStatus(status) => GoalCallView::Change(
                RequestView::ThreadGoalSet {
                    id,
                    thread_id,
                    objective: None,
                    token_budget: None,
                    status: Some(status),
                },
            ),
            GoalCommandView::Clear => GoalCallView::Clear(
                RequestView::ThreadGoalClear { id, thread_id },
            ),
        }
    }
}

/// A request about a goal, by the answer that comes to it.
#[derive(Debug, PartialEq, Eq)]
pub enum GoalCall {
    /// The answer holds the goal, if there is one.
    Show(ClientRequest),
    /// The answer holds the goal as it now is.
    Change(ClientRequest),
    /// The answer tells whether there was a goal.
    Clear(ClientRequest),
}

/// The mathematical value of a [`GoalCall`].
pub enum GoalCallView {
    Show(RequestView),
    Change(RequestView),
    Clear(RequestView),
}

impl View for GoalCall {
    type V = GoalCallView;

    open spec fn view(&self) -> GoalCallView {
        match self {
            GoalCall::Show(request) => GoalCallView::Show(request@),
            GoalCall::Change(request) => GoalCallView::Change(request@),
            GoalCall::Clear(request) => GoalCallView::Clear(request@),
        }
    }
}

/// What the app-server answered to a [`GoalCall`].
#[derive(Debug, PartialEq, Eq)]
pub enum GoalAnswer {
    Shown(Option<ThreadGoal>),
    Changed(ThreadGoal),
    Cleared(bool),
}

/// The first step of a goal command.
#[derive(Debug, PartialEq, Eq)]
pub enum GoalStep<K> {
    /// Start a thread and hand its id to [`CodexGateway::resume_goal`].
    StartThread { params: ThreadStartParams, key: K, command: GoalCommand },
    /// Send the request and show the answer with [`goal_reply`].
    Call(GoalCall),
}

/// The mathematical value of a [`GoalStep`].
pub enum GoalStepView<K> {
    StartThread { params: ThreadStartView, key: K, command: GoalCommandView },
    Call(GoalCallView),
}

impl<K> View for GoalStep<K> {
    type V = GoalStepView<K>;

    open spec fn view(&self) -> GoalStepView<K> {
        match self {
            GoalStep::StartThread { params, key, command } => GoalStepView::StartThread {
                params: params@,
                key: *key,
                command: command@,
            },
            GoalStep::Call(call) => GoalStepView::Call(call@),
        }
    }
}

/// The first step of a session command.
#[derive(Debug, PartialEq, Eq)]
pub enum SessionStep<K> {
    /// Give the reply.
    Reply(String),
    /// Start a thread and hand its id to [`CodexGateway::session_started`].
    StartThread { params: ThreadStartParams, key: K },
    /// Send the request and show the threads that are listed.
    List(ClientRequest),
    /// Send the request and hand the id of the thread to [`CodexGateway::session_switched`].
    Resume { request: ClientRequest, key: K },
    /// Refuse the command.
    Refuse(GatewayError),
}

/// The mathematical value of a [`SessionStep`].
#[allow(inconsistent_fields)]
pub enum SessionStepView<K> {
    Reply(Seq<char>),
    StartThread { params: ThreadStartView, key: K },
    List(RequestView),
    Resume { request: RequestView, key: K },
    Refuse(GatewayError),
}

impl<K> View for SessionStep<K> {
    type V = SessionStepView<K>;

    open spec fn view(&self) -> SessionStepView<K> {
        match self {
            SessionStep::Reply(text) => SessionStepView::Reply(text@),
            SessionStep::StartThread { params, key } => SessionStepView::StartThread {
                params: params@,
                key: *key,
            },
            SessionStep::List(request) => SessionStepView::List(request@),
            SessionStep::Resume { request, key } => SessionStepView::Resume {
                request: request@,
                key: *key,
            },
            SessionStep::Refuse(error) => SessionStepView::Refuse(*error),
        }
    }
}

/// A session, and the request for the rate limits that are shown with it.
#[derive(Debug, PartialEq, Eq)]
pub struct StatusQuery {
    pub session: SessionState,
    pub request: ClientRequest,
}

/// The reply to a request to clear the goal.
pub fn clear_goal_reply(cleared: bool) -> (text: String)
    ensures
        text@ == if cleared {
            "Goal cleared."@
        } else {
            "No goal was set."@
        },
{
    if cleared {
        "Goal cleared.".to_owned()
    } else {
        "No goal was set.".to_owned()
    }
}

/// The reply to a goal command, given the answer to its request.
pub fn goal_reply(answer: &GoalAnswer) -> (text: String)
    ensures
        text@ == (match answer {
            GoalAnswer::Shown(Some(goal)) => goal_text(Some(goal)),
            GoalAnswer::Shown(None) => goal_text(None),
            GoalAnswer::Changed(goal) => goal_text(Some(goal)),
            GoalAnswer::Cleared(cleared) => if *cleared {
                "Goal cleared."@
            } else {
                "No goal was set."@
            },
        }),
{
    match answer {
        GoalAnswer::Shown(Some(goal)) => format_goal(Some(goal)),
        GoalAnswer::Shown(None) => format_goal(None),
        GoalAnswer::Changed(goal) => format_goal(Some(goal)),
        GoalAnswer::Cleared(cleared) => clear_goal_reply(*cleared),
    }
}

/// The gateway: one session per channel key, and what new sessions start with.
#[verifier::reject_recursive_types(K)]
pub struct CodexGateway<K> {
    sessions: HashMap<K, SessionState>,
    default_model: String,
    default_cwd: Option<String>,
    service_name: Option<String>,
    next_request_id: i64,
}

/// The mathematical value of a [`CodexGateway`].
#[verifier::ext_equal]
#[verifier::reject_recursive_types(K)]
pub struct GatewayView<K> {
    pub sessions: Map<K, SessionView>,
    pub default_model: Seq<char>,
    pub default_cwd: Option<Seq<char>>,
    pub service_name: Option<Seq<char>>,
    pub next_request_id: i64,
}

impl<K> GatewayView<K> {
    /// The session of `key`; a channel that has none yet is about to get a fresh one.
    pub open spec fn session(self, key: K) -> SessionView {
        if self.sessions.contains_key(key) {
            self.sessions[key]
        } else {
            fresh_session(self.default_model)
        }
    }

    /// The gateway after the session of `key` became `session`.
    pub open spec fn with_session(self, key: K, session: SessionView) -> Self {
        GatewayView { sessions: self.sessions.insert(key, session), ..self }
    }

    /// The gateway after the session of `key` was looked up.
    pub open spec fn opened(self, key: K) -> Self {
        self.with_session(key, self.session(key))
    }

    /// The id of the next request.
    pub open spec fn call_id(self) -> RequestIdView {
        RequestIdView::Int64(self.next_request_id)
    }

    /// The gateway after a request.
    pub open spec fn called(self) -> Self {
        GatewayView { next_request_id: self.next_request_id.wrapping_add(1), ..self }
    }

    /// The gateway after a prompt joined the queue of `key`.
    pub open spec fn enqueued(self, key: K, prompt: Seq<char>) -> Self {
        let session = self.session(key);
        self.with_session(key, SessionView { queued: session.queued.push(prompt), ..session })
    }

    /// Whether a turn of `key` can begin.
    pub open spec fn ready(self, key: K) -> bool {
        self.session(key).active_turn_id is None && self.session(key).queued.len() > 0
    }

    /// The gateway after the worker looked for a turn of `key`.
    pub open spec fn dequeued(self, key: K) -> Self {
        let session = self.session(key);
        if self.ready(key) {
            self.with_session(
                key,
                SessionView { queued: session.queued.drop_first(), ..session },
            )
        } else {
            self.opened(key)
        }
    }

    /// The turn that the worker finds for `key`.
    pub open spec fn next_prompt(self, key: K) -> Option<Seq<char>> {
        if self.ready(key) {
            Some(self.session(key).queued.first())
        } else {
            None
        }
    }

    /// The thread and the turn that a prompt of `key` can steer.
    pub open spec fn steerable(self, key: K) -> Option<(Seq<char>, Seq<char>)> {
        match (self.session(key).thread_id, self.session(key).active_turn_id) {
            (Some(thread_id), Some(turn_id)) => Some((thread_id, turn_id)),
            _ => None,
        }
    }

    /// The gateway after `key` chose a model.
    pub open spec fn with_model(self, key: K, model: Seq<char>) -> Self {
        self.with_session(key, SessionView { model, ..self.session(key) })
    }

    /// The gateway after `key` chose an effort, or the default.
    pub open spec fn with_effort(self, key: K, effort: Option<ReasoningEffort>) -> Self {
        self.with_session(key, SessionView { effort, ..self.session(key) })
    }

    /// How the queue of `key` is shown.
    pub open spec fn queue_text(self, key: K) -> Seq<char> {
        if self.sessions.contains_key(key) {
            "Active: "@ + (match self.sessions[key].active_turn_id {
                Some(turn_id) => turn_id,
                None => "no active turn"@,
            }) + "\nQueued turns: "@ + decimal(self.sessions[key].queued.len() as int)
        } else {
            "No session for this channel yet."@
        }
    }

    /// The first step of a goal command of `key`.
    pub open spec fn goal_step(self, key: K, command: GoalCommandView) -> GoalStepView<K> {
        match self.session(key).thread_id {
            Some(thread_id) => GoalStepView::Call(command.call(self.call_id(), thread_id)),
            None => GoalStepView::StartThread {
                params: self.thread_start(self.session(key).model),
                key,
                command,
            },
        }
    }

    /// The gateway after the first step of a goal command of `key`.
    pub open spec fn after_goal_step(self, key: K) -> Self {
        if self.session(key).thread_id is Some {
            self.opened(key).called()
        } else {
            self.opened(key)
        }
    }

    /// The request to take up a thread in `key`.
    pub open spec fn resume_request(self, key: K, thread_id: Seq<char>) -> RequestView {
        RequestView::ThreadResume {
            id: self.call_id(),
            params: ThreadResumeView {
                thread_id,
                model: Some(self.session(key).model),
                cwd: self.default_cwd,
            },
        }
    }

    /// The first step of a session command of `key`.
    pub open spec fn session_step(
        self,
        key: K,
        action: SessionAction,
        thread_id: Option<Seq<char>>,
    ) -> SessionStepView<K> {
        match action {
            SessionAction::Show => SessionStepView::Reply(session_text(self.session(key))),
            SessionAction::New => SessionStepView::StartThread {
                params: self.thread_start(self.session(key).model),
                key,
            },
            SessionAction::List => SessionStepView::List(
                RequestView::ThreadList { id: self.call_id(), limit: Some(10) },
            ),
            SessionAction::Switch => match thread_id {
                Some(thread_id) => SessionStepView::Resume {
                    request: self.resume_request(key, thread_id),
                    key,
                },
                None => SessionStepView::Refuse(GatewayError::MissingThreadId),
            },
        }
    }

    /// The gateway after the first step of a session command of `key`.
    pub open spec fn after_session_step(
        self,
        key: K,
        action: SessionAction,
        thread_id: Option<Seq<char>>,
    ) -> Self {
        match action {
            SessionAction::Show => self.opened(key),
            SessionAction::New => self.opened(key),
            SessionAction::List => self.called(),
            SessionAction::Switch => if thread_id is Some {
                self.opened(key).called()
            } else {
                self
            },
        }
    }

    /// A new thread for a session with `model`.
    pub open spec fn thread_start(self, model: Seq<char>) -> ThreadStartView {
        ThreadStartView {
            model: Some(model),
            cwd: self.default_cwd,
            service_name: self.service_name,
        }
    }

    /// The gateway after the channel `key` went over to a thread.
    pub open spec fn with_thread(self, key: K, thread_id: Seq<char>) -> Self {
        self.with_session(
            key,
            SessionView { thread_id: Some(thread_id), ..self.session(key) },
        )
    }

    /// The gateway after the active turn of `key` became `turn_id`. A channel without a session
    /// gets none.
    pub open spec fn with_active_turn(self, key: K, turn_id: Option<Seq<char>>) -> Self {
        if self.sessions.contains_key(key) {
            self.with_session(
                key,
                SessionView { active_turn_id: turn_id, ..self.session(key) },
            )
        } else {
            self
        }
    }
}

impl<K> View for CodexGateway<K> {
    type V = GatewayView<K>;

    closed spec fn view(&self) -> GatewayView<K> {
        GatewayView {
            sessions: self.sessions@.map_values(|session: SessionState| session@),
            default_model: self.default_model@,
            default_cwd: opt_text(self.default_cwd),
            service_name: opt_text(self.service_name),
            next_request_id: self.next_request_id,
        }
    }
}

impl<K: Clone + Eq + Hash> CodexGateway<K> {
    /// The session of `key`, created if it was not there.
    fn session_mut(&mut self, key: K) -> (session: &mut SessionState)
        requires
            key_model::<K>(),
        ensures
            (*session)@ == old(self)@.session(key),
            final(self)@ == old(self)@.with_session(key, (*final(session))@),
    {
        let default_model = self.default_model.clone();
        self.sessions.entry(key).or_insert(SessionState::new(default_model))
    }

    /// A copy of the session of `key`, which is created if it was not there.
    pub(crate) fn session_snapshot(&mut self, key: &K) -> (snapshot: SessionState)
        requires
            key_model::<K>(),
        ensures
            snapshot@ == old(self)@.session(*key),
            final(self)@ == old(self)@.opened(*key),
    {
        let session = self.session_mut(copy_key(key));
        session.clone()
    }

    /// The gateway of a configuration, without sessions, and what brings up its app-server.
    pub fn spawn(config: GatewayConfig) -> (spawned: (Self, Launch))
        ensures
            spawned.0@ == (GatewayView::<K> {
                sessions: Map::empty(),
                default_model: config.default_model@,
                default_cwd: opt_text(config.default_cwd),
                service_name: opt_text(config.service_name),
                next_request_id: FIRST_REQUEST_ID,
            }),
            spawned.1.server.codex_bin@ == config.codex_bin@,
            spawned.1.server.server_args@.map_values(|arg: String| arg@) == seq!["app-server"@],
            spawned.1.server.inherit_stderr == config.inherit_stderr,
            spawned.1.client.name@ == config.client_name@,
            opt_text(spawned.1.client.title) == opt_text(config.client_title),
            spawned.1.client.version@ == config.client_version@,
    {
        let server_args = vec!["app-server".to_owned()];
        assert(server_args@.map_values(|arg: String| arg@) =~= seq!["app-server"@]);
        let gateway = CodexGateway {
            sessions: HashMap::new(),
            default_model: config.default_model,
            default_cwd: config.default_cwd,
            service_name: config.service_name,
            next_request_id: FIRST_REQUEST_ID,
        };
        assert(gateway@.sessions =~= Map::empty());
        (
            gateway,
            Launch {
                server: AppServerConfig {
                    codex_bin: config.codex_bin,
                    server_args,
                    inherit_stderr: config.inherit_stderr,
                },
                client: AppClientInfo {
                    name: config.client_name,
                    title: config.client_title,
                    version: config.client_version,
                },
            },
        )
    }

    /// The id of the next request.
    fn next_id(&mut self) -> (id: RequestId)
        ensures
            id@ == old(self)@.call_id(),
            final(self)@ == old(self)@.called(),
    {
        let id = self.next_request_id;
        self.next_request_id = id.wrapping_add(1);
        RequestId::Int64(id)
    }

    /// Takes a prompt: into the turn that is under way if `steer` asks for it and there is one,
    /// else into the queue.
    pub fn enqueue_turn(&mut self, key: K, prompt: String, steer: bool) -> (enqueued: Enqueued)
        requires
            key_model::<K>(),
        ensures
            match old(self)@.steerable(key) {
                Some((thread_id, turn_id)) if steer => {
                    &&& enqueued matches Enqueued::Steer(call)
                    &&& call.request@ == (RequestView::TurnSteer {
                        id: old(self)@.call_id(),
                        thread_id,
                        expected_turn_id: turn_id,
                        input: seq![prompt@],
                    })
                    &&& call.reply@ == "Done."@
                    &&& final(self)@ == old(self)@.opened(key).called()
                },
                _ => {
                    &&& enqueued matches Enqueued::Queued { reply }
                    &&& reply@ == "Done."@
                    &&& final(self)@ == old(self)@.enqueued(key, prompt@)
                },
            },
    {
        if steer {
            let snapshot = self.session_snapshot(&key);
            if let (Some(thread_id), Some(turn_id)) = (
                snapshot.thread_id,
                snapshot.active_turn_id,
            ) {
                let id = self.next_id();
                let params = TurnSteerParams {
                    thread_id,
                    expected_turn_id: turn_id,
                    input: text_input(prompt),
                };
                return Enqueued::Steer(
                    Call {
                        request: ClientRequest::TurnSteer { id, params },
                        reply: "Done.".to_owned(),
                    },
                );
            }
        }
        let session = self.session_mut(key);
        let ghost queue = session.queued@;
        session.queued.push_back(QueuedTurn { prompt });
        assert(prompts(session.queued@) =~= prompts(queue).push(prompt@));
        assert(self@ =~= old(self)@.enqueued(key, prompt@));
        Enqueued::Queued { reply: "Done.".to_owned() }
    }

    /// What is under way in the channel `key` and how much waits.
    pub fn queue_status(&self, key: &K) -> (text: String)
        requires
            key_model::<K>(),
        ensures
            text@ == self@.queue_text(*key),
    {
        match self.sessions.get(key) {
            Some(session) => {
                let mut text = "Active: ".to_owned();
                match &session.active_turn_id {
                    Some(turn_id) => text.append(turn_id.as_str()),
                    None => text.append("no active turn"),
                }
                text.append("\nQueued turns: ");
                text.append(unsigned_decimal(session.queued.len() as u64).as_str());
                text
            },
            None => "No session for this channel yet.".to_owned(),
        }
    }

    /// The model of the channel `key`.
    pub fn model_status(&mut self, key: &K) -> (text: String)
        requires
            key_model::<K>(),
        ensures
            text@ == "Current model: `"@ + old(self)@.session(*key).model + "`"@,
            final(self)@ == old(self)@.opened(*key),
    {
        let session = self.session_snapshot(key);
        "Current model: `".to_owned().concat(session.model.as_str()).concat("`")
    }

    /// Chooses the model of the channel `key`.
    pub fn set_model(&mut self, key: K, model: String) -> (text: String)
        requires
            key_model::<K>(),
        ensures
            text@ == "Model set to `"@ + model@ + "`. It will apply to the next turn."@,
            final(self)@ == old(self)@.with_model(key, model@),
    {
        let text = "Model set to `".to_owned().concat(model.as_str()).concat(
            "`. It will apply to the next turn.",
        );
        let session = self.session_mut(key);
        session.model = model;
        text
    }

    /// The effort of the channel `key`.
    pub fn effort_status(&mut self, key: &K) -> (text: String)
        requires
            key_model::<K>(),
        ensures
            text@ == (match old(self)@.session(*key).effort {
                Some(effort) => "Current reasoning effort: `"@ + effort.name() + "`"@,
                None => "Current reasoning effort: Codex default"@,
            }),
            final(self)@ == old(self)@.opened(*key),
    {
        let session = self.session_snapshot(key);
        match session.effort {
            Some(effort) => "Current reasoning effort: `".to_owned().concat(
                effort.as_str(),
            ).concat("`"),
            None => "Current reasoning effort: Codex default".to_owned(),
        }
    }

    /// Chooses the effort of the channel `key`, or the default.
    pub fn set_effort(&mut self, key: K, effort: Option<ReasoningEffort>) -> (text: String)
        requires
            key_model::<K>(),
        ensures
            text@ == (match effort {
                Some(effort) => "Reasoning effort set to `"@ + effort.name() + "`."@,
                None => "Reasoning effort cleared; Codex default will be used."@,
            }),
            final(self)@ == old(self)@.with_effort(key, effort),
    {
        let session = self.session_mut(key);
        session.effort = effort;
        match effort {
            Some(value) => "Reasoning effort set to `".to_owned().concat(value.as_str()).concat(
                "`.",
            ),
            None => "Reasoning effort cleared; Codex default will be used.".to_owned(),
        }
    }

    /// Asks for the models that can be chosen.
    pub fn list_models(&mut self) -> (request: ClientRequest)
        ensures
            request@ == (RequestView::ModelList {
                id: old(self)@.call_id(),
                include_hidden: Some(false),
                limit: Some(25),
            }),
            final(self)@ == old(self)@.called(),
    {
        let id = self.next_id();
        ClientRequest::ModelList {
            id,
            params: ModelListParams { include_hidden: Some(false), limit: Some(25) },
        }
    }

    /// Asks for the rate limits, to be shown with the session of `key` as it is now.
    pub fn status(&mut self, key: &K) -> (query: StatusQuery)
        requires
            key_model::<K>(),
        ensures
            query.session@ == old(self)@.session(*key),
            query.request@ == (RequestView::AccountRateLimitsRead { id: old(self)@.call_id() }),
            final(self)@ == old(self)@.opened(*key).called(),
    {
        let session = self.session_snapshot(key);
        let id = self.next_id();
        StatusQuery { session, request: ClientRequest::AccountRateLimitsRead { id } }
    }

    /// The request of a goal command on a thread.
    fn goal_call(&mut self, command: GoalCommand, thread_id: String) -> (call: GoalCall)
        ensures
            call@ == command@.call(old(self)@.call_id(), thread_id@),
            final(self)@ == old(self)@.called(),
    {
        let id = self.next_id();
        match command {
            GoalCommand::Show => GoalCall::Show(ClientRequest::ThreadGoalGet { id, thread_id }),
            GoalCommand::Pursue { objective, budget } => {
                let params = ThreadGoalSetParams {
                    thread_id,
                    objective: Some(objective),
                    token_budget: budget,
                    status: Some(GoalStatus::Active),
                };
                GoalCall::Change(ClientRequest::ThreadGoalSet { id, params })
            },
            GoalCommand::SetStatus(status) => {
                let params = ThreadGoalSetParams {
                    thread_id,
                    objective: None,
                    token_budget: None,
                    status: Some(status),
                };
                GoalCall::Change(ClientRequest::ThreadGoalSet { id, params })
            },
            GoalCommand::Clear => GoalCall::Clear(
                ClientRequest::ThreadGoalClear { id, thread_id },
            ),
        }
    }

    /// Begins a goal command: on the thread of `key`, or by starting one.
    fn ensure_thread(&mut self, key: K, command: GoalCommand) -> (step: GoalStep<K>)
        requires
            key_model::<K>(),
        ensures
            step@ == old(self)@.goal_step(key, command@),
            final(self)@ == old(self)@.after_goal_step(key),
    {
        let snapshot = self.session_snapshot(&key);
        match snapshot.thread_id {
            Some(thread_id) => GoalStep::Call(self.goal_call(command, thread_id)),
            None => {
                let params = self.start_thread(&key);
                GoalStep::StartThread { params, key, command }
            },
        }
    }

    /// Shows the goal of the channel `key`, or sets it if an objective is named.
    pub fn goal(&mut self, key: K, objective: Option<String>, budget: Option<i64>) -> (step:
        GoalStep<K>)
        requires
            key_model::<K>(),
        ensures
            step@ == old(self)@.goal_step(
                key,
                GoalCommandView::of(opt_text(objective), budget),
            ),
            final(self)@ == old(self)@.after_goal_step(key),
    {
        let command = match objective {
            Some(objective) => GoalCommand::Pursue { objective, budget },
            None => GoalCommand::Show,
        };
        self.ensure_thread(key, command)
    }

    /// Puts the goal of the channel `key` into a state.
    pub fn set_goal_status(&mut self, key: K, status: GoalStatus) -> (step: GoalStep<K>)
        requires
            key_model::<K>(),
        ensures
            step@ == old(self)@.goal_step(key, GoalCommandView::SetStatus(status)),
            final(self)@ == old(self)@.after_goal_step(key),
    {
        self.ensure_thread(key, GoalCommand::SetStatus(status))
    }

    /// Clears the goal of the channel `key`.
    pub fn clear_goal(&mut self, key: K) -> (step: GoalStep<K>)
        requires
            key_model::<K>(),
        ensures
            step@ == old(self)@.goal_step(key, GoalCommandView::Clear),
            final(self)@ == old(self)@.after_goal_step(key),
    {
        self.ensure_thread(key, GoalCommand::Clear)
    }

    /// Goes on with a goal command for which a thread was started.
    pub fn resume_goal(&mut self, key: &K, command: GoalCommand, thread_id: String) -> (call:
        GoalCall)
        requires
            key_model::<K>(),
        ensures
            call@ == command@.call(old(self)@.call_id(), thread_id@),
            final(self)@ == old(self)@.with_thread(*key, thread_id@).called(),
    {
        self.set_thread(key, thread_id.clone());
        self.goal_call(command, thread_id)
    }

    /// Asks for a new thread for the channel `key`.
    fn start_thread(&mut self, key: &K) -> (params: ThreadStartParams)
        requires
            key_model::<K>(),
        ensures
            params@ == old(self)@.thread_start(old(self)@.session(*key).model),
            final(self)@ == old(self)@.opened(*key),
    {
        let snapshot = self.session_snapshot(key);
        self.thread_start_params(snapshot.model)
    }

    /// Asks for the threads that changed last.
    fn list_sessions(&mut self) -> (request: ClientRequest)
        ensures
            request@ == (RequestView::ThreadList { id: old(self)@.call_id(), limit: Some(10) }),
            final(self)@ == old(self)@.called(),
    {
        let id = self.next_id();
        ClientRequest::ThreadList { id, limit: Some(10) }
    }

    /// Asks to take up a thread in the channel `key`, with the model of its session.
    fn switch_session(&mut self, key: &K, thread_id: String) -> (request: ClientRequest)
        requires
            key_model::<K>(),
        ensures
            request@ == old(self)@.resume_request(*key, thread_id@),
            final(self)@ == old(self)@.opened(*key).called(),
    {
        let snapshot = self.session_snapshot(key);
        let id = self.next_id();
        ClientRequest::ThreadResume {
            id,
            params: ThreadResumeParams {
                thread_id,
                model: Some(snapshot.model),
                cwd: clone_text(&self.default_cwd),
                ..empty_thread_resume_params()
            },
        }
    }

    /// Begins a session command of the channel `key`.
    pub fn session(&mut self, key: K, action: SessionAction, thread_id: Option<String>) -> (step:
        SessionStep<K>)
        requires
            key_model::<K>(),
        ensures
            step@ == old(self)@.session_step(key, action, opt_text(thread_id)),
            final(self)@ == old(self)@.after_session_step(key, action, opt_text(thread_id)),
    {
        match action {
            SessionAction::Show => {
                let snapshot = self.session_snapshot(&key);
                SessionStep::Reply(format_session(&snapshot))
            },
            SessionAction::New => {
                let params = self.start_thread(&key);
                SessionStep::StartThread { params, key }
            },
            SessionAction::List => SessionStep::List(self.list_sessions()),
            SessionAction::Switch => match thread_id {
                Some(thread_id) => {
                    let request = self.switch_session(&key, thread_id);
                    SessionStep::Resume { request, key }
                },
                None => SessionStep::Refuse(GatewayError::MissingThreadId),
            },
        }
    }

    /// Takes the thread that was started for the channel `key`.
    pub fn session_started(&mut self, key: &K, thread_id: String) -> (text: String)
        requires
            key_model::<K>(),
        ensures
            text@ == "Started new thread `"@ + thread_id@ + "`."@,
            final(self)@ == old(self)@.with_thread(*key, thread_id@),
    {
        let text = "Started new thread `".to_owned().concat(thread_id.as_str()).concat("`.");
        self.set_thread(key, thread_id);
        text
    }

    /// Takes the thread that was taken up in the channel `key`.
    pub fn session_switched(&mut self, key: &K, thread_id: String) -> (text: String)
        requires
            key_model::<K>(),
        ensures
            text@ == "Switched to thread `"@ + thread_id@ + "`."@,
            final(self)@ == old(self)@.with_thread(*key, thread_id@),
    {
        let text = "Switched to thread `".to_owned().concat(thread_id.as_str()).concat("`.");
        self.set_thread(key, thread_id);
        text
    }

    /// Asks to stop the turn that is under way in the channel `key`.
    pub fn interrupt(&mut self, key: &K) -> (call: Result<Call, GatewayError>)
        requires
            key_model::<K>(),
        ensures
            match (old(self)@.session(*key).thread_id, old(self)@.session(*key).active_turn_id) {
                (None, _) => {
                    &&& call == Err::<Call, _>(GatewayError::NoActiveThread)
                    &&& final(self)@ == old(self)@.opened(*key)
                },
                (Some(_), None) => {
                    &&& call == Err::<Call, _>(GatewayError::NoActiveTurn)
                    &&& final(self)@ == old(self)@.opened(*key)
                },
                (Some(thread_id), Some(turn_id)) => {
                    &&& call matches Ok(call)
                    &&& call.request@ == (RequestView::TurnInterrupt {
                        id: old(self)@.call_id(),
                        thread_id,
                        turn_id,
                    })
                    &&& call.reply@ == "Interrupt requested."@
                    &&& final(self)@ == old(self)@.opened(*key).called()
                },
            },
    {
        let session = self.session_snapshot(key);
        let thread_id = match session.thread_id {
            Some(thread_id) => thread_id,
            None => {
                return Err(GatewayError::NoActiveThread);
            },
        };
        let turn_id = match session.active_turn_id {
            Some(turn_id) => turn_id,
            None => {
                return Err(GatewayError::NoActiveTurn);
            },
        };
        let id = self.next_id();
        Ok(
            Call {
                request: ClientRequest::TurnInterrupt {
                    id,
                    params: TurnInterruptParams { thread_id, turn_id },
                },
                reply: "Interrupt requested.".to_owned(),
            },
        )
    }

    /// Takes the next turn of the channel `key` out of its queue, unless one is under way.
    pub fn next_turn(&mut self, key: &K) -> (turn: Option<QueuedTurn>)
        requires
            key_model::<K>(),
        ensures
            turn is Some <==> old(self)@.ready(*key),
            turn matches Some(turn) ==> old(self)@.next_prompt(*key) == Some(turn@),
            final(self)@ == old(self)@.dequeued(*key),
    {
        let session = self.session_mut(copy_key(key));
        let ghost queue = session.queued@;
        if session.active_turn_id.is_some() {
            None
        } else {
            let turn = session.queued.pop_front();
            proof {
                if queue.len() > 0 {
                    assert(prompts(queue).first() == queue[0]@);
                    assert(prompts(session.queued@) =~= prompts(queue).drop_first());
                }
            }
            turn
        }
    }

    /// Notes the thread that was started for `key`.
    pub(crate) fn set_thread(&mut self, key: &K, thread_id: String)
        requires
            key_model::<K>(),
        ensures
            final(self)@ == old(self)@.with_thread(*key, thread_id@),
    {
        let session = self.session_mut(copy_key(key));
        session.thread_id = Some(thread_id);
    }

    /// Notes the turn that is under way for `key`.
    pub(crate) fn set_active_turn(&mut self, key: &K, turn_id: Option<String>)
        requires
            key_model::<K>(),
        ensures
            final(self)@ == old(self)@.with_active_turn(*key, opt_text(turn_id)),
    {
        if self.sessions.contains_key(key) {
            let session = self.session_mut(copy_key(key));
            session.active_turn_id = turn_id;
        }
    }

    /// Notes that no turn is under way for `key`.
    pub(crate) fn clear_active_turn(&mut self, key: &K)
        requires
            key_model::<K>(),
        ensures
            final(self)@ == old(self)@.with_active_turn(*key, None),
    {
        self.set_active_turn(key, None);
    }

    /// The working directory of new threads and turns.
    pub(crate) fn cwd(&self) -> (cwd: Option<String>)
        ensures
            opt_text(cwd) == self@.default_cwd,
    {
        clone_text(&self.default_cwd)
    }

    /// A new thread for a session with `model`.
    pub(crate) fn thread_start_params(&self, model: String) -> (params: ThreadStartParams)
        ensures
            params@ == self@.thread_start(model@),
    {
        ThreadStartParams {
            model: Some(model),
            cwd: clone_text(&self.default_cwd),
            service_name: clone_text(&self.service_name),
        }
    }
}

} // verus!
