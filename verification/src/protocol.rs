//! The part of the app-server protocol that the gateway speaks.

use vstd::prelude::*;

use crate::api::{GoalStatus, ReasoningEffort};
use crate::text::opt_text;

verus! {

/// How the app-server is launched.
#[derive(Debug, PartialEq, Eq)]
pub struct AppServerConfig {
    pub codex_bin: String,
    pub server_args: Vec<String>,
    pub inherit_stderr: bool,
}

/// How the gateway introduces itself to the app-server.
#[derive(Debug, PartialEq, Eq)]
pub struct AppClientInfo {
    pub name: String,
    pub title: Option<String>,
    pub version: String,
}

/// One piece of user input.
#[derive(Debug, PartialEq, Eq)]
pub enum UserInput {
    Text { text: String },
}

impl View for UserInput {
    type V = Seq<char>;

    open spec fn view(&self) -> Seq<char> {
        match self {
            UserInput::Text { text } => text@,
        }
    }
}

/// The texts of a list of user input.
pub open spec fn input_texts(input: Seq<UserInput>) -> Seq<Seq<char>> {
    input.map_values(|piece: UserInput| piece@)
}

/// User input made of one text.
pub fn text_input(text: String) -> (input: Vec<UserInput>)
    ensures
        input_texts(input@) == seq![text@],
{
    let input = vec![UserInput::Text { text }];
    assert(input_texts(input@) =~= seq![text@]);
    input
}

/// What identifies a request among those that are under way.
#[derive(Debug, PartialEq, Eq)]
pub enum RequestId {
    Int64(i64),
    String(String),
}

/// The mathematical value of a [`RequestId`].
pub enum RequestIdView {
    Int64(i64),
    Text(Seq<char>),
}

impl View for RequestId {
    type V = RequestIdView;

    open spec fn view(&self) -> RequestIdView {
        match self {
            RequestId::Int64(n) => RequestIdView::Int64(*n),
            RequestId::String(text) => RequestIdView::Text(text@),
        }
    }
}

/// A new thread: its model, working directory and service.
#[derive(Debug, PartialEq, Eq)]
pub struct ThreadStartParams {
    pub model: Option<String>,
    pub cwd: Option<String>,
    pub service_name: Option<String>,
}

/// The mathematical value of [`ThreadStartParams`].
pub struct ThreadStartView {
    pub model: Option<Seq<char>>,
    pub cwd: Option<Seq<char>>,
    pub service_name: Option<Seq<char>>,
}

impl View for ThreadStartParams {
    type V = ThreadStartView;

    open spec fn view(&self) -> ThreadStartView {
        ThreadStartView {
            model: opt_text(self.model),
            cwd: opt_text(self.cwd),
            service_name: opt_text(self.service_name),
        }
    }
}

/// A turn on a thread. Every setting that is not listed here stays unset.
#[derive(Debug, PartialEq, Eq)]
pub struct TurnStartParams {
    pub thread_id: String,
    pub input: Vec<UserInput>,
    pub model: Option<String>,
    pub effort: Option<ReasoningEffort>,
    pub cwd: Option<String>,
}

/// The mathematical value of [`TurnStartParams`].
pub struct TurnStartView {
    pub thread_id: Seq<char>,
    pub input: Seq<Seq<char>>,
    pub model: Option<Seq<char>>,
    pub effort: Option<ReasoningEffort>,
    pub cwd: Option<Seq<char>>,
}

impl View for TurnStartParams {
    type V = TurnStartView;

    open spec fn view(&self) -> TurnStartView {
        TurnStartView {
            thread_id: self.thread_id@,
            input: input_texts(self.input@),
            model: opt_text(self.model),
            effort: self.effort,
            cwd: opt_text(self.cwd),
        }
    }
}

/// A turn with nothing set.
pub fn empty_turn_start_params() -> (params: TurnStartParams)
    ensures
        params@ == (TurnStartView {
            thread_id: Seq::empty(),
            input: Seq::empty(),
            model: None,
            effort: None,
            cwd: None,
        }),
{
    let params = TurnStartParams {
        thread_id: String::new(),
        input: Vec::new(),
        model: None,
        effort: None,
        cwd: None,
    };
    assert(input_texts(params.input@) =~= Seq::empty());
    params
}

/// A thread to take up again. Every setting that is not listed here stays unset.
#[derive(Debug, PartialEq, Eq)]
pub struct ThreadResumeParams {
    pub thread_id: String,
    pub model: Option<String>,
    pub cwd: Option<String>,
}

/// The mathematical value of [`ThreadResumeParams`].
pub struct ThreadResumeView {
    pub thread_id: Seq<char>,
    pub model: Option<Seq<char>>,
    pub cwd: Option<Seq<char>>,
}

impl View for ThreadResumeParams {
    type V = ThreadResumeView;

    open spec fn view(&self) -> ThreadResumeView {
        ThreadResumeView {
            thread_id: self.thread_id@,
            model: opt_text(self.model),
            cwd: opt_text(self.cwd),
        }
    }
}

/// A resumption with nothing set.
pub fn empty_thread_resume_params() -> (params: ThreadResumeParams)
    ensures
        params@ == (ThreadResumeView { thread_id: Seq::empty(), model: None, cwd: None }),
{
    ThreadResumeParams { thread_id: String::new(), model: None, cwd: None }
}

/// More input for a turn that is under way.
#[derive(Debug, PartialEq, Eq)]
pub struct TurnSteerParams {
    pub thread_id: String,
    pub expected_turn_id: String,
    pub input: Vec<UserInput>,
}

/// A page of the models that can be chosen.
#[derive(Debug, PartialEq, Eq)]
pub struct ModelListParams {
    pub include_hidden: Option<bool>,
    pub limit: Option<u32>,
}

/// A change of a thread's goal; what is `None` stays as it is.
#[derive(Debug, PartialEq, Eq)]
pub struct ThreadGoalSetParams {
    pub thread_id: String,
    pub objective: Option<String>,
    pub token_budget: Option<i64>,
    pub status: Option<GoalStatus>,
}

/// A turn to stop.
#[derive(Debug, PartialEq, Eq)]
pub struct TurnInterruptParams {
    pub thread_id: String,
    pub turn_id: String,
}

/// A request to the app-server.
#[allow(inconsistent_fields)]
#[derive(Debug, PartialEq, Eq)]
pub enum ClientRequest {
    TurnStart { id: RequestId, params: TurnStartParams },
    TurnSteer { id: RequestId, params: TurnSteerParams },
    TurnInterrupt { id: RequestId, params: TurnInterruptParams },
    ModelList { id: RequestId, params: ModelListParams },
    AccountRateLimitsRead { id: RequestId },
    ThreadGoalSet { id: RequestId, params: ThreadGoalSetParams },
    ThreadGoalGet { id: RequestId, thread_id: String },
    ThreadGoalClear { id: RequestId, thread_id: String },
    ThreadList { id: RequestId, limit: Option<u32> },
    ThreadResume { id: RequestId, params: ThreadResumeParams },
}

/// The mathematical value of a [`ClientRequest`].
#[allow(inconsistent_fields)]
pub enum RequestView {
    TurnStart { id: RequestIdView, params: TurnStartView },
    TurnSteer {
        id: RequestIdView,
        thread_id: Seq<char>,
        expected_turn_id: Seq<char>,
        input: Seq<Seq<char>>,
    },
    TurnInterrupt { id: RequestIdView, thread_id: Seq<char>, turn_id: Seq<char> },
    ModelList { id: RequestIdView, include_hidden: Option<bool>, limit: Option<u32> },
    AccountRateLimitsRead { id: RequestIdView },
    ThreadGoalSet {
        id: RequestIdView,
        thread_id: Seq<char>,
        objective: Option<Seq<char>>,
        token_budget: Option<i64>,
        status: Option<GoalStatus>,
    },
    ThreadGoalGet { id: RequestIdView, thread_id: Seq<char> },
    ThreadGoalClear { id: RequestIdView, thread_id: Seq<char> },
    ThreadList { id: RequestIdView, limit: Option<u32> },
    ThreadResume { id: RequestIdView, params: ThreadResumeView },
}

impl View for ClientRequest {
    type V = RequestView;

    open spec fn view(&self) -> RequestView {
        match self {
            ClientRequest::TurnStart { id, params } => RequestView::TurnStart {
                id: id@,
                params: params@,
            },
            ClientRequest::TurnSteer { id, params } => RequestView::TurnSteer {
                id: id@,
                thread_id: params.thread_id@,
                expected_turn_id: params.expected_turn_id@,
                input: input_texts(params.input@),
            },
            ClientRequest::TurnInterrupt { id, params } => RequestView::TurnInterrupt {
                id: id@,
                thread_id: params.thread_id@,
                turn_id: params.turn_id@,
            },
            ClientRequest::ModelList { id, params } => RequestView::ModelList {
                id: id@,
                include_hidden: params.include_hidden,
                limit: params.limit,
            },
            ClientRequest::AccountRateLimitsRead { id } => RequestView::AccountRateLimitsRead {
                id: id@,
            },
            ClientRequest::ThreadGoalSet { id, params } => RequestView::ThreadGoalSet {
                id: id@,
                thread_id: params.thread_id@,
                objective: opt_text(params.objective),
                token_budget: params.token_budget,
                status: params.status,
            },
            ClientRequest::ThreadGoalGet { id, thread_id } => RequestView::ThreadGoalGet {
                id: id@,
                thread_id: thread_id@,
            },
            ClientRequest::ThreadGoalClear { id, thread_id } => RequestView::ThreadGoalClear {
                id: id@,
                thread_id: thread_id@,
            },
            ClientRequest::ThreadList { id, limit } => RequestView::ThreadList {
                id: id@,
                limit: *limit,
            },
            ClientRequest::ThreadResume { id, params } => RequestView::ThreadResume {
                id: id@,
                params: params@,
            },
        }
    }
}

/// A model that can be chosen.
#[derive(Debug, PartialEq, Eq)]
pub struct Model {
    pub model: String,
    pub display_name: String,
    pub is_default: bool,
}

/// A page of models; `next_cursor` is there when more follow.
#[derive(Debug, PartialEq, Eq)]
pub struct ModelListResponse {
    pub data: Vec<Model>,
    pub next_cursor: Option<String>,
}

/// A thread as the app-server lists it.
#[derive(Debug, PartialEq, Eq)]
pub struct Thread {
    pub id: String,
    pub name: Option<String>,
    pub preview: String,
    pub updated_at: i64,
}

/// The goal of a thread; `status` is the text that names its state.
#[derive(Debug, PartialEq, Eq)]
pub struct ThreadGoal {
    pub objective: String,
    pub status: String,
    pub tokens_used: i64,
    pub token_budget: Option<i64>,
    pub time_used_seconds: i64,
}

/// How much of a rate limit is used up.
#[derive(Debug, PartialEq, Eq)]
pub struct RateLimitWindow {
    pub used_percent: i32,
    pub resets_at: Option<i64>,
}

/// One rate limit.
#[derive(Debug, PartialEq, Eq)]
pub struct RateLimitSnapshot {
    pub limit_id: Option<String>,
    pub limit_name: Option<String>,
    pub primary: Option<RateLimitWindow>,
    pub secondary: Option<RateLimitWindow>,
}

/// The rate limits of the account, one by one where the app-server tells them apart.
#[derive(Debug, PartialEq, Eq)]
pub struct AccountRateLimits {
    pub rate_limits: RateLimitSnapshot,
    pub rate_limits_by_limit_id: Option<Vec<RateLimitSnapshot>>,
}

/// An item of a turn; only the messages of the agent matter here.
#[derive(Debug, PartialEq, Eq)]
pub enum ThreadItem {
    AgentMessage { id: String, text: String },
    Other,
}

/// The mathematical value of a [`ThreadItem`].
pub enum ItemView {
    AgentMessage { id: Seq<char>, text: Seq<char> },
    Other,
}

impl View for ThreadItem {
    type V = ItemView;

    open spec fn view(&self) -> ItemView {
        match self {
            ThreadItem::AgentMessage { id, text } => ItemView::AgentMessage {
                id: id@,
                text: text@,
            },
            ThreadItem::Other => ItemView::Other,
        }
    }
}

/// The id and the text of an item, if it is a message of the agent.
pub fn agent_item_text(item: &ThreadItem) -> (message: Option<(&str, &str)>)
    ensures
        message is Some <==> item@ is AgentMessage,
        message matches Some((id, text)) ==> item@ == (ItemView::AgentMessage {
            id: id@,
            text: text@,
        }),
{
    match item {
        ThreadItem::AgentMessage { id, text } => Some((id.as_str(), text.as_str())),
        ThreadItem::Other => None,
    }
}

/// What the app-server tells of its own accord; `error` is the text of the turn's error.
#[derive(Debug, PartialEq, Eq)]
pub enum ServerNotification {
    ItemStarted { thread_id: String, turn_id: String, item: ThreadItem },
    ItemCompleted { thread_id: String, turn_id: String, item: ThreadItem },
    TurnCompleted { thread_id: String, turn_id: String, items: Vec<ThreadItem> },
    Error { thread_id: String, turn_id: String, error: String },
    Other,
}

/// The mathematical value of a [`ServerNotification`].
pub enum NotificationView {
    ItemStarted { thread_id: Seq<char>, turn_id: Seq<char>, item: ItemView },
    ItemCompleted { thread_id: Seq<char>, turn_id: Seq<char>, item: ItemView },
    TurnCompleted { thread_id: Seq<char>, turn_id: Seq<char>, items: Seq<ItemView> },
    Error { thread_id: Seq<char>, turn_id: Seq<char>, error: Seq<char> },
    Other,
}

impl View for ServerNotification {
    type V = NotificationView;

    open spec fn view(&self) -> NotificationView {
        match self {
            ServerNotification::ItemStarted { thread_id, turn_id, item } => {
                NotificationView::ItemStarted {
                    thread_id: thread_id@,
                    turn_id: turn_id@,
                    item: item@,
                }
            },
            ServerNotification::ItemCompleted { thread_id, turn_id, item } => {
                NotificationView::ItemCompleted {
                    thread_id: thread_id@,
                    turn_id: turn_id@,
                    item: item@,
                }
            },
            ServerNotification::TurnCompleted { thread_id, turn_id, items } => {
                NotificationView::TurnCompleted {
                    thread_id: thread_id@,
                    turn_id: turn_id@,
                    items: items@.map_values(|item: ThreadItem| item@),
                }
            },
            ServerNotification::Error { thread_id, turn_id, error } => NotificationView::Error {
                thread_id: thread_id@,
                turn_id: turn_id@,
                error: error@,
            },
            ServerNotification::Other => NotificationView::Other,
        }
    }
}

/// A message from the app-server; what is no notification is passed over.
#[derive(Debug, PartialEq, Eq)]
pub enum IncomingMessage {
    Notification(ServerNotification),
    Other,
}

/// The mathematical value of an [`IncomingMessage`].
pub enum IncomingView {
    Notification(NotificationView),
    Other,
}

impl View for IncomingMessage {
    type V = IncomingView;

    open spec fn view(&self) -> IncomingView {
        match self {
            IncomingMessage::Notification(note) => IncomingView::Notification(note@),
            IncomingMessage::Other => IncomingView::Other,
        }
    }
}

} // verus!
