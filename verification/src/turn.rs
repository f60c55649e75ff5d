//! One turn of a channel, from the first request to the last output.
//!
//! The application performs the action that a turn asks for and hands back the event that came of
//! it, until the turn asks it to finish.

use vstd::prelude::*;

use std::collections::VecDeque;
use std::hash::Hash;

use crate::api::ReasoningEffort;
use crate::delivery::{
    deliveries, no_progress, Delivery, DeliveryView, Progress, ProgressView,
};
use crate::gateway::{copy_key, key_model, CodexGateway, GatewayView};
use crate::protocol::{
    empty_turn_start_params, text_input, ClientRequest, IncomingMessage, IncomingView,
    NotificationView, RequestId, RequestIdView, RequestView, ServerNotification,
    ThreadStartParams, ThreadStartView, TurnStartParams, TurnStartView,
};
use crate::state::QueuedTurn;
use crate::text::opt_text;

verus! {

/// What a turn will ask for, fixed when it begins.
pub struct TurnOrder {
    pub key_text: String,
    pub prompt: String,
    pub model: String,
    pub effort: Option<ReasoningEffort>,
    pub cwd: Option<String>,
}

/// The mathematical value of a [`TurnOrder`].
pub struct OrderView {
    pub key_text: Seq<char>,
    pub prompt: Seq<char>,
    pub model: Seq<char>,
    pub effort: Option<ReasoningEffort>,
    pub cwd: Option<Seq<char>>,
}

impl View for TurnOrder {
    type V = OrderView;

    open spec fn view(&self) -> OrderView {
        OrderView {
            key_text: self.key_text@,
            prompt: self.prompt@,
            model: self.model@,
            effort: self.effort,
            cwd: opt_text(self.cwd),
        }
    }
}

impl OrderView {
    /// The id of the request that starts the turn on a thread.
    pub open spec fn request_id(self, thread_id: Seq<char>) -> Seq<char> {
        "turn-start-"@ + self.key_text + "-"@ + thread_id
    }

    /// The request that starts the turn on a thread.
    pub open spec fn request(self, thread_id: Seq<char>) -> RequestView {
        RequestView::TurnStart {
            id: RequestIdView::Text(self.request_id(thread_id)),
            params: TurnStartView {
                thread_id,
                input: seq![self.prompt],
                model: Some(self.model),
                effort: self.effort,
                cwd: self.cwd,
            },
        }
    }
}

/// Why a turn failed: an error from outside, or one that the app-server told of the turn.
#[derive(Debug, PartialEq, Eq)]
pub enum TurnError<E> {
    Outside(E),
    Turn(String),
}

/// The mathematical value of a [`TurnError`].
pub enum TurnErrorView<E> {
    Outside(E),
    Turn(Seq<char>),
}

impl<E> View for TurnError<E> {
    type V = TurnErrorView<E>;

    open spec fn view(&self) -> TurnErrorView<E> {
        match self {
            TurnError::Outside(error) => TurnErrorView::Outside(*error),
            TurnError::Turn(text) => TurnErrorView::Turn(text@),
        }
    }
}

/// What a turn asks the application to do next.
#[derive(Debug, PartialEq, Eq)]
pub enum TurnAction<E> {
    /// Start a thread; then hand in [`TurnEvent::Thread`].
    StartThread(ThreadStartParams),
    /// Send the request that starts the turn; then hand in [`TurnEvent::Turn`].
    StartTurn(ClientRequest),
    /// Tell the output that the turn started; then hand in [`TurnEvent::Output`].
    TurnStarted,
    /// Tell the output that a message started; then hand in [`TurnEvent::Output`].
    MessageStarted,
    /// Send a text to the output; then hand in [`TurnEvent::Output`].
    Send(String),
    /// Tell the output that a message finished; then hand in [`TurnEvent::Output`].
    MessageFinished,
    /// Wait for a message from the app-server; then hand in [`TurnEvent::Incoming`].
    Receive,
    /// The turn is over.
    Finish(Result<(), TurnError<E>>),
}

/// The mathematical value of a [`TurnAction`].
pub enum ActionView<E> {
    StartThread(ThreadStartView),
    StartTurn(RequestView),
    TurnStarted,
    MessageStarted,
    Send(Seq<char>),
    MessageFinished,
    Receive,
    Finish(Result<(), TurnErrorView<E>>),
}

impl<E> View for TurnAction<E> {
    type V = ActionView<E>;

    open spec fn view(&self) -> ActionView<E> {
        match self {
            TurnAction::StartThread(params) => ActionView::StartThread(params@),
            TurnAction::StartTurn(request) => ActionView::StartTurn(request@),
            TurnAction::TurnStarted => ActionView::TurnStarted,
            TurnAction::MessageStarted => ActionView::MessageStarted,
            TurnAction::Send(text) => ActionView::Send(text@),
            TurnAction::MessageFinished => ActionView::MessageFinished,
            TurnAction::Receive => ActionView::Receive,
            TurnAction::Finish(result) => ActionView::Finish(
                match result {
                    Ok(()) => Ok(()),
                    Err(error) => Err(error@),
                },
            ),
        }
    }
}

/// What came of an action.
#[derive(Debug, PartialEq, Eq)]
pub enum TurnEvent<E> {
    /// The id of the thread that was started.
    Thread(Result<String, E>),
    /// The id of the turn that was started.
    Turn(Result<String, E>),
    /// Whether the output took what it was told.
    Output(Result<(), E>),
    /// The message that was received.
    Incoming(Result<IncomingMessage, E>),
}

/// The mathematical value of a [`TurnEvent`].
#[allow(inconsistent_fields)]
pub enum EventView<E> {
    Thread(Result<Seq<char>, E>),
    Turn(Result<Seq<char>, E>),
    Output(Result<(), E>),
    Incoming(Result<IncomingView, E>),
}

impl<E> View for TurnEvent<E> {
    type V = EventView<E>;

    open spec fn view(&self) -> EventView<E> {
        match self {
            TurnEvent::Thread(result) => EventView::Thread(
                match result {
                    Ok(id) => Ok(id@),
                    Err(error) => Err(*error),
                },
            ),
            TurnEvent::Turn(result) => EventView::Turn(
                match result {
                    Ok(id) => Ok(id@),
                    Err(error) => Err(*error),
                },
            ),
            TurnEvent::Output(result) => EventView::Output(*result),
            TurnEvent::Incoming(result) => EventView::Incoming(
                match result {
                    Ok(message) => Ok(message@),
                    Err(error) => Err(*error),
                },
            ),
        }
    }
}

/// What the output was last told. The end of a message keeps the error with which its text failed.
pub enum UnderWay<E> {
    Start,
    Text { finish: bool },
    Finish { failure: Option<E> },
}

/// What follows when everything is delivered.
pub enum Ending {
    Resume,
    Complete,
    Fail(String),
}

/// The mathematical value of an [`Ending`].
pub enum EndingView {
    Resume,
    Complete,
    Fail(Seq<char>),
}

impl View for Ending {
    type V = EndingView;

    open spec fn view(&self) -> EndingView {
        match self {
            Ending::Resume => EndingView::Resume,
            Ending::Complete => EndingView::Complete,
            Ending::Fail(error) => EndingView::Fail(error@),
        }
    }
}

/// Where a turn stands.
pub enum TurnPhase<E> {
    StartingThread { order: TurnOrder },
    StartingTurn { thread_id: String },
    Announcing { thread_id: String, turn_id: String },
    Receiving { thread_id: String, turn_id: String, progress: Progress },
    Delivering {
        thread_id: String,
        turn_id: String,
        progress: Progress,
        under_way: UnderWay<E>,
        rest: VecDeque<Delivery>,
        ending: Ending,
    },
    Finished,
}

/// The mathematical value of a [`TurnPhase`].
pub enum PhaseView<E> {
    StartingThread { order: OrderView },
    StartingTurn { thread_id: Seq<char> },
    Announcing { thread_id: Seq<char>, turn_id: Seq<char> },
    Receiving { thread_id: Seq<char>, turn_id: Seq<char>, progress: ProgressView },
    Delivering {
        thread_id: Seq<char>,
        turn_id: Seq<char>,
        progress: ProgressView,
        under_way: UnderWay<E>,
        rest: Seq<DeliveryView>,
        ending: EndingView,
    },
    Finished,
}

impl<E> View for TurnPhase<E> {
    type V = PhaseView<E>;

    open spec fn view(&self) -> PhaseView<E> {
        match self {
            TurnPhase::StartingThread { order } => PhaseView::StartingThread { order: order@ },
            TurnPhase::StartingTurn { thread_id } => PhaseView::StartingTurn {
                thread_id: thread_id@,
            },
            TurnPhase::Announcing { thread_id, turn_id } => PhaseView::Announcing {
                thread_id: thread_id@,
                turn_id: turn_id@,
            },
            TurnPhase::Receiving { thread_id, turn_id, progress } => PhaseView::Receiving {
                thread_id: thread_id@,
                turn_id: turn_id@,
                progress: progress@,
            },
            TurnPhase::Delivering { thread_id, turn_id, progress, under_way, rest, ending } => {
                PhaseView::Delivering {
                    thread_id: thread_id@,
                    turn_id: turn_id@,
                    progress: progress@,
                    under_way: *under_way,
                    rest: deliveries(rest@),
                    ending: ending@,
                }
            },
            TurnPhase::Finished => PhaseView::Finished,
        }
    }
}

/// What a step of a turn changes in the session of its channel.
pub enum Effect {
    Nothing,
    Thread(Seq<char>),
    ActiveTurn(Seq<char>),
    NoActiveTurn,
}

impl Effect {
    /// The gateway after the effect on the session of `key`.
    pub open spec fn on<K>(self, gateway: GatewayView<K>, key: K) -> GatewayView<K> {
        match self {
            Effect::Nothing => gateway,
            Effect::Thread(thread_id) => gateway.with_thread(key, thread_id),
            Effect::ActiveTurn(turn_id) => gateway.with_active_turn(key, Some(turn_id)),
            Effect::NoActiveTurn => gateway.with_active_turn(key, None),
        }
    }
}

/// A step of a turn: where it leads, what it asks for and what it changes.
pub struct StepView<E> {
    pub phase: PhaseView<E>,
    pub action: ActionView<E>,
    pub effect: Effect,
}

/// The end of a turn.
pub open spec fn finished<E>(result: Result<(), TurnErrorView<E>>, effect: Effect) -> StepView<E> {
    StepView { phase: PhaseView::Finished, action: ActionView::Finish(result), effect }
}

/// The end of a turn by an error from outside.
pub open spec fn failed<E>(error: E, effect: Effect) -> StepView<E> {
    finished(Err(TurnErrorView::Outside(error)), effect)
}

/// The step to the next delivery, or to what follows when there is none.
pub open spec fn deliver<E>(
    thread_id: Seq<char>,
    turn_id: Seq<char>,
    progress: ProgressView,
    list: Seq<DeliveryView>,
    ending: EndingView,
) -> StepView<E> {
    if list.len() == 0 {
        match ending {
            EndingView::Resume => StepView {
                phase: PhaseView::Receiving { thread_id, turn_id, progress },
                action: ActionView::Receive,
                effect: Effect::Nothing,
            },
            EndingView::Complete => finished(Ok(()), Effect::NoActiveTurn),
            EndingView::Fail(error) => finished(
                Err(TurnErrorView::Turn(error)),
                Effect::NoActiveTurn,
            ),
        }
    } else {
        let (under_way, action) = match list.first() {
            DeliveryView::Start => (UnderWay::Start, ActionView::MessageStarted),
            DeliveryView::Text { text, finish } => (
                UnderWay::Text { finish },
                ActionView::Send(text),
            ),
            DeliveryView::Finish => (
                UnderWay::Finish { failure: None },
                ActionView::MessageFinished,
            ),
        };
        StepView {
            phase: PhaseView::Delivering {
                thread_id,
                turn_id,
                progress,
                under_way,
                rest: list.drop_first(),
                ending,
            },
            action,
            effect: Effect::Nothing,
        }
    }
}

/// What a notification brings to a turn that waits for one. What is of another thread or turn is
/// passed over.
pub open spec fn notified<E>(
    thread_id: Seq<char>,
    turn_id: Seq<char>,
    progress: ProgressView,
    note: NotificationView,
) -> StepView<E> {
    let ignore = deliver(thread_id, turn_id, progress, Seq::empty(), EndingView::Resume);
    match note {
        NotificationView::ItemStarted { thread_id: thread, turn_id: turn, item } => {
            if thread == thread_id && turn == turn_id {
                let plan = progress.item_started(item);
                deliver(thread_id, turn_id, plan.progress, plan.list, EndingView::Resume)
            } else {
                ignore
            }
        },
        NotificationView::ItemCompleted { thread_id: thread, turn_id: turn, item } => {
            if thread == thread_id && turn == turn_id {
                let plan = progress.item_completed(item);
                deliver(thread_id, turn_id, plan.progress, plan.list, EndingView::Resume)
            } else {
                ignore
            }
        },
        NotificationView::TurnCompleted { thread_id: thread, turn_id: turn, items } => {
            if thread == thread_id && turn == turn_id {
                let plan = progress.items_completed(items);
                deliver(thread_id, turn_id, plan.progress, plan.list, EndingView::Complete)
            } else {
                ignore
            }
        },
        NotificationView::Error { thread_id: thread, turn_id: turn, error } => {
            if thread == thread_id && turn == turn_id {
                let plan = progress.close_all();
                deliver(thread_id, turn_id, plan.progress, plan.list, EndingView::Fail(error))
            } else {
                ignore
            }
        },
        NotificationView::Other => ignore,
    }
}

impl<E> PhaseView<E> {
    /// Whether the event is one that can come of what the turn asked for.
    pub open spec fn awaits(self, event: EventView<E>) -> bool {
        match self {
            PhaseView::StartingThread { .. } => event is Thread,
            PhaseView::StartingTurn { .. } => event is Turn,
            PhaseView::Announcing { .. } => event is Output,
            PhaseView::Receiving { .. } => event is Incoming,
            PhaseView::Delivering { .. } => event is Output,
            PhaseView::Finished => false,
        }
    }

    /// The messages on record are in order.
    pub open spec fn wf(self) -> bool {
        match self {
            PhaseView::Receiving { progress, .. } => progress.wf(),
            PhaseView::Delivering { progress, .. } => progress.wf(),
            _ => true,
        }
    }

    /// The step that an event brings.
    pub open spec fn step(self, event: EventView<E>) -> StepView<E> {
        match (self, event) {
            (PhaseView::StartingThread { order }, EventView::Thread(result)) => match result {
                Ok(thread_id) => StepView {
                    phase: PhaseView::StartingTurn { thread_id },
                    action: ActionView::StartTurn(order.request(thread_id)),
                    effect: Effect::Thread(thread_id),
                },
                Err(error) => failed(error, Effect::Nothing),
            },
            (PhaseView::StartingTurn { thread_id }, EventView::Turn(result)) => match result {
                Ok(turn_id) => StepView {
                    phase: PhaseView::Announcing { thread_id, turn_id },
                    action: ActionView::TurnStarted,
                    effect: Effect::ActiveTurn(turn_id),
                },
                Err(error) => failed(error, Effect::Nothing),
            },
            (PhaseView::Announcing { thread_id, turn_id }, EventView::Output(result)) => {
                match result {
                    Ok(()) => StepView {
                        phase: PhaseView::Receiving {
                            thread_id,
                            turn_id,
                            progress: no_progress(),
                        },
                        action: ActionView::Receive,
                        effect: Effect::Nothing,
                    },
                    Err(error) => failed(error, Effect::NoActiveTurn),
                }
            },
            (
                PhaseView::Receiving { thread_id, turn_id, progress },
                EventView::Incoming(result),
            ) => match result {
                Ok(IncomingView::Notification(note)) => notified(
                    thread_id,
                    turn_id,
                    progress,
                    note,
                ),
                Ok(IncomingView::Other) => StepView {
                    phase: self,
                    action: ActionView::Receive,
                    effect: Effect::Nothing,
                },
                Err(error) => failed(error, Effect::Nothing),
            },
            (
                PhaseView::Delivering { thread_id, turn_id, progress, under_way, rest, ending },
                EventView::Output(result),
            ) => match (under_way, result) {
                (UnderWay::Text { finish }, result) if finish => StepView {
                    phase: PhaseView::Delivering {
                        thread_id,
                        turn_id,
                        progress,
                        under_way: UnderWay::Finish {
                            failure: match result {
                                Ok(()) => None,
                                Err(error) => Some(error),
                            },
                        },
                        rest,
                        ending,
                    },
                    action: ActionView::MessageFinished,
                    effect: Effect::Nothing,
                },
                (_, Err(error)) => failed(error, Effect::NoActiveTurn),
                (UnderWay::Finish { failure: Some(error) }, Ok(())) => failed(
                    error,
                    Effect::NoActiveTurn,
                ),
                (_, Ok(())) => deliver(thread_id, turn_id, progress, rest, ending),
            },
            _ => StepView { phase: self, action: ActionView::Receive, effect: Effect::Nothing },
        }
    }
}

/// Where a turn of `key` begins: on the thread of the session, or on a thread to be started.
pub open spec fn turn_begin<K, E>(
    gateway: GatewayView<K>,
    key: K,
    key_text: Seq<char>,
    prompt: Seq<char>,
) -> StepView<E> {
    let session = gateway.session(key);
    let order = OrderView {
        key_text,
        prompt,
        model: session.model,
        effort: session.effort,
        cwd: gateway.default_cwd,
    };
    match session.thread_id {
        Some(thread_id) => StepView {
            phase: PhaseView::StartingTurn { thread_id },
            action: ActionView::StartTurn(order.request(thread_id)),
            effect: Effect::Nothing,
        },
        None => StepView {
            phase: PhaseView::StartingThread { order },
            action: ActionView::StartThread(gateway.thread_start(session.model)),
            effect: Effect::Nothing,
        },
    }
}

/// A step that leaves the threads alone: `clear` tells that no turn is active any more.
struct Step<E> {
    phase: TurnPhase<E>,
    action: TurnAction<E>,
    clear: bool,
}

impl<E> View for Step<E> {
    type V = StepView<E>;

    closed spec fn view(&self) -> StepView<E> {
        StepView {
            phase: self.phase@,
            action: self.action@,
            effect: if self.clear {
                Effect::NoActiveTurn
            } else {
                Effect::Nothing
            },
        }
    }
}

/// The end of a turn by an error from outside.
fn fail<E>(error: E, clear: bool) -> (step: Step<E>)
    ensures
        step@ == failed(
            error,
            if clear {
                Effect::NoActiveTurn
            } else {
                Effect::Nothing
            },
        ),
{
    Step {
        phase: TurnPhase::Finished,
        action: TurnAction::Finish(Err(TurnError::Outside(error))),
        clear,
    }
}

/// Takes the next delivery from `list`, or ends as told when there is none.
fn next_delivery<E>(
    thread_id: String,
    turn_id: String,
    progress: Progress,
    list: VecDeque<Delivery>,
    ending: Ending,
) -> (step: Step<E>)
    requires
        progress@.wf(),
    ensures
        step@ == deliver::<E>(thread_id@, turn_id@, progress@, deliveries(list@), ending@),
        step@.phase.wf(),
{
    let mut rest = list;
    match rest.pop_front() {
        Some(delivery) => {
            proof {
                assert(deliveries(list@).first() == delivery@);
                assert(deliveries(rest@) =~= deliveries(list@).drop_first());
            }
            let (under_way, action) = match delivery {
                Delivery::Start => (UnderWay::Start, TurnAction::MessageStarted),
                Delivery::Text { text, finish } => (
                    UnderWay::Text { finish },
                    TurnAction::Send(text),
                ),
                Delivery::Finish => (
                    UnderWay::Finish { failure: None },
                    TurnAction::MessageFinished,
                ),
            };
            Step {
                phase: TurnPhase::Delivering {
                    thread_id,
                    turn_id,
                    progress,
                    under_way,
                    rest,
                    ending,
                },
                action,
                clear: false,
            }
        },
        None => match ending {
            Ending::Resume => Step {
                phase: TurnPhase::Receiving { thread_id, turn_id, progress },
                action: TurnAction::Receive,
                clear: false,
            },
            Ending::Complete => Step {
                phase: TurnPhase::Finished,
                action: TurnAction::Finish(Ok(())),
                clear: true,
            },
            Ending::Fail(error) => Step {
                phase: TurnPhase::Finished,
                action: TurnAction::Finish(Err(TurnError::Turn(error))),
                clear: true,
            },
        },
    }
}

/// Plans what a notification brings and takes the first of it.
fn notify<E>(
    thread_id: String,
    turn_id: String,
    progress: Progress,
    note: ServerNotification,
) -> (step: Step<E>)
    requires
        progress@.wf(),
    ensures
        step@ == notified::<E>(thread_id@, turn_id@, progress@, note@),
        step@.phase.wf(),
{
    let mut progress = progress;
    match note {
        ServerNotification::ItemStarted { thread_id: thread, turn_id: turn, item } => {
            if thread == thread_id && turn == turn_id {
                let list = progress.item_started(&item);
                return next_delivery(thread_id, turn_id, progress, list, Ending::Resume);
            }
        },
        ServerNotification::ItemCompleted { thread_id: thread, turn_id: turn, item } => {
            if thread == thread_id && turn == turn_id {
                let list = progress.item_completed(&item);
                return next_delivery(thread_id, turn_id, progress, list, Ending::Resume);
            }
        },
        ServerNotification::TurnCompleted { thread_id: thread, turn_id: turn, items } => {
            if thread == thread_id && turn == turn_id {
                let list = progress.items_completed(&items);
                return next_delivery(thread_id, turn_id, progress, list, Ending::Complete);
            }
        },
        ServerNotification::Error { thread_id: thread, turn_id: turn, error } => {
            if thread == thread_id && turn == turn_id {
                let list = progress.finish_started_agent_messages();
                return next_delivery(thread_id, turn_id, progress, list, Ending::Fail(error));
            }
        },
        ServerNotification::Other => {},
    }
    Step {
        phase: TurnPhase::Receiving { thread_id, turn_id, progress },
        action: TurnAction::Receive,
        clear: false,
    }
}

/// Takes the answer of the output to what was under way.
fn delivered<E>(
    thread_id: String,
    turn_id: String,
    progress: Progress,
    under_way: UnderWay<E>,
    rest: VecDeque<Delivery>,
    ending: Ending,
    result: Result<(), E>,
) -> (step: Step<E>)
    requires
        progress@.wf(),
    ensures
        step@ == (PhaseView::Delivering {
            thread_id: thread_id@,
            turn_id: turn_id@,
            progress: progress@,
            under_way,
            rest: deliveries(rest@),
            ending: ending@,
        }).step(EventView::Output(result)),
        step@.phase.wf(),
{
    match under_way {
        UnderWay::Text { finish } => {
            if finish {
                let failure = match result {
                    Ok(()) => None,
                    Err(error) => Some(error),
                };
                return Step {
                    phase: TurnPhase::Delivering {
                        thread_id,
                        turn_id,
                        progress,
                        under_way: UnderWay::Finish { failure },
                        rest,
                        ending,
                    },
                    action: TurnAction::MessageFinished,
                    clear: false,
                };
            }
            match result {
                Ok(()) => next_delivery(thread_id, turn_id, progress, rest, ending),
                Err(error) => fail(error, true),
            }
        },
        UnderWay::Start => match result {
            Ok(()) => next_delivery(thread_id, turn_id, progress, rest, ending),
            Err(error) => fail(error, true),
        },
        UnderWay::Finish { failure } => match result {
            Ok(()) => match failure {
                None => next_delivery(thread_id, turn_id, progress, rest, ending),
                Some(error) => fail(error, true),
            },
            Err(error) => fail(error, true),
        },
    }
}

/// The request that starts the turn of `order` on a thread.
fn turn_start_request(order: TurnOrder, thread_id: &String) -> (request: ClientRequest)
    ensures
        request@ == order@.request(thread_id@),
{
    let id = "turn-start-".to_owned().concat(order.key_text.as_str()).concat("-").concat(
        thread_id.as_str(),
    );
    ClientRequest::TurnStart {
        id: RequestId::String(id),
        params: TurnStartParams {
            thread_id: thread_id.clone(),
            input: text_input(order.prompt),
            model: Some(order.model),
            effort: order.effort,
            cwd: order.cwd,
            ..empty_turn_start_params()
        },
    }
}

/// A turn of the channel `key` that is under way.
#[verifier::reject_recursive_types(K)]
pub struct TurnRun<K, E> {
    key: K,
    phase: TurnPhase<E>,
}

impl<K, E> View for TurnRun<K, E> {
    type V = PhaseView<E>;

    closed spec fn view(&self) -> PhaseView<E> {
        self.phase@
    }
}

impl<K, E> TurnRun<K, E> {
    #[verifier::type_invariant]
    spec fn in_order(self) -> bool {
        self.phase@.wf()
    }

    /// The channel of the turn.
    pub closed spec fn channel(self) -> K {
        self.key
    }

    /// Whether `event` is one that can come of what the turn asked for.
    pub fn awaits(&self, event: &TurnEvent<E>) -> (yes: bool)
        ensures
            yes == self@.awaits(event@),
    {
        match (&self.phase, event) {
            (TurnPhase::StartingThread { .. }, TurnEvent::Thread(_)) => true,
            (TurnPhase::StartingTurn { .. }, TurnEvent::Turn(_)) => true,
            (TurnPhase::Announcing { .. }, TurnEvent::Output(_)) => true,
            (TurnPhase::Receiving { .. }, TurnEvent::Incoming(_)) => true,
            (TurnPhase::Delivering { .. }, TurnEvent::Output(_)) => true,
            _ => false,
        }
    }
}

/// Begins the turn that `queued` asks for in the channel `key`, which is shown as `key_text`.
/// The model and the effort are those that the session has now.
pub fn run_turn<K: Clone + Eq + Hash, E>(
    gateway: &mut CodexGateway<K>,
    key: K,
    key_text: String,
    queued: QueuedTurn,
) -> (begun: (TurnRun<K, E>, TurnAction<E>))
    requires
        key_model::<K>(),
    ensures
        begun.0.channel() == key,
        begun.0@ == turn_begin::<K, E>(old(gateway)@, key, key_text@, queued@).phase,
        begun.1@ == turn_begin::<K, E>(old(gateway)@, key, key_text@, queued@).action,
        final(gateway)@ == old(gateway)@.opened(key),
{
    let session = gateway.session_snapshot(&key);
    let order = TurnOrder {
        key_text,
        prompt: queued.prompt,
        model: session.model.clone(),
        effort: session.effort,
        cwd: gateway.cwd(),
    };
    match session.thread_id {
        Some(thread_id) => {
            let request = turn_start_request(order, &thread_id);
            (
                TurnRun { key, phase: TurnPhase::StartingTurn { thread_id } },
                TurnAction::StartTurn(request),
            )
        },
        None => {
            let params = gateway.thread_start_params(session.model);
            (
                TurnRun { key, phase: TurnPhase::StartingThread { order } },
                TurnAction::StartThread(params),
            )
        },
    }
}

/// Begins the next turn that waits in the channel `key`, unless one is under way. The worker does
/// this when it is told of the channel, and again after each turn, until there is none.
pub fn begin_next_turn<K: Clone + Eq + Hash, E>(
    gateway: &mut CodexGateway<K>,
    key: &K,
    key_text: String,
) -> (begun: Option<(TurnRun<K, E>, TurnAction<E>)>)
    requires
        key_model::<K>(),
    ensures
        begun is Some <==> old(gateway)@.ready(*key),
        begun matches Some((run, action)) ==> {
            let begin = turn_begin::<K, E>(
                old(gateway)@.dequeued(*key),
                *key,
                key_text@,
                old(gateway)@.session(*key).queued.first(),
            );
            &&& run.channel() == *key
            &&& run@ == begin.phase
            &&& action@ == begin.action
        },
        final(gateway)@ == old(gateway)@.dequeued(*key),
{
    match gateway.next_turn(key) {
        Some(queued) => {
            let ghost dequeued = gateway@;
            let begun = run_turn(gateway, copy_key(key), key_text, queued);
            assert(gateway@ =~= dequeued);
            Some(begun)
        },
        None => None,
    }
}

/// What happened to the worker of a channel.
#[derive(Debug, PartialEq, Eq)]
pub enum WorkEvent<E> {
    /// It was told that a turn waits in the channel.
    Told,
    /// The turn that it ran is over.
    Ended(Result<(), TurnError<E>>),
    /// The failure of the turn that it ran was reported to the channel.
    Reported,
}

/// What the worker of a channel does next.
#[verifier::reject_recursive_types(K)]
pub enum Work<K, E> {
    /// Run a turn, beginning with the action; then hand in [`WorkEvent::Ended`].
    Run(TurnRun<K, E>, TurnAction<E>),
    /// Report the failure of a turn to the channel; then hand in [`WorkEvent::Reported`].
    Report(TurnError<E>),
    /// Wait until the worker is told of a channel again.
    Rest,
}

/// What the worker of the channel `key` does next: a failure is reported before the next turn
/// begins, and it rests when no turn can begin.
pub fn next_work<K: Clone + Eq + Hash, E>(
    gateway: &mut CodexGateway<K>,
    key: &K,
    key_text: String,
    event: WorkEvent<E>,
) -> (work: Work<K, E>)
    requires
        key_model::<K>(),
    ensures
        match event {
            WorkEvent::Ended(Err(error)) => {
                &&& work == Work::<K, E>::Report(error)
                &&& final(gateway)@ == old(gateway)@
            },
            _ => {
                &&& work is Run <==> old(gateway)@.ready(*key)
                &&& work is Rest <==> !old(gateway)@.ready(*key)
                &&& work matches Work::Run(run, action) ==> {
                    let begin = turn_begin::<K, E>(
                        old(gateway)@.dequeued(*key),
                        *key,
                        key_text@,
                        old(gateway)@.session(*key).queued.first(),
                    );
                    &&& run.channel() == *key
                    &&& run@ == begin.phase
                    &&& action@ == begin.action
                }
                &&& final(gateway)@ == old(gateway)@.dequeued(*key)
            },
        },
{
    match event {
        WorkEvent::Ended(Err(error)) => Work::Report(error),
        _ => match begin_next_turn(gateway, key, key_text) {
            Some((run, action)) => Work::Run(run, action),
            None => Work::Rest,
        },
    }
}

impl<K: Clone + Eq + Hash, E> TurnRun<K, E> {
    /// Takes the event that came of the last action and says what to do next.
    pub fn advance(self, gateway: &mut CodexGateway<K>, event: TurnEvent<E>) -> (next: (
        TurnRun<K, E>,
        TurnAction<E>,
    ))
        requires
            key_model::<K>(),
            self@.awaits(event@),
        ensures
            next.0.channel() == self.channel(),
            next.0@ == self@.step(event@).phase,
            next.1@ == self@.step(event@).action,
            final(gateway)@ == self@.step(event@).effect.on(old(gateway)@, self.channel()),
    {
        proof {
            use_type_invariant(&self);
        }
        let key = self.key;
        let step = match (self.phase, event) {
            (TurnPhase::StartingThread { order }, TurnEvent::Thread(result)) => match result {
                Ok(thread_id) => {
                    gateway.set_thread(&key, thread_id.clone());
                    let request = turn_start_request(order, &thread_id);
                    Step {
                        phase: TurnPhase::StartingTurn { thread_id },
                        action: TurnAction::StartTurn(request),
                        clear: false,
                    }
                },
                Err(error) => fail(error, false),
            },
            (TurnPhase::StartingTurn { thread_id }, TurnEvent::Turn(result)) => match result {
                Ok(turn_id) => {
                    gateway.set_active_turn(&key, Some(turn_id.clone()));
                    Step {
                        phase: TurnPhase::Announcing { thread_id, turn_id },
                        action: TurnAction::TurnStarted,
                        clear: false,
                    }
                },
                Err(error) => fail(error, false),
            },
            (TurnPhase::Announcing { thread_id, turn_id }, TurnEvent::Output(result)) => {
                match result {
                    Ok(()) => Step {
                        phase: TurnPhase::Receiving { thread_id, turn_id, progress: Progress::new() },
                        action: TurnAction::Receive,
                        clear: false,
                    },
                    Err(error) => fail(error, true),
                }
            },
            (
                TurnPhase::Receiving { thread_id, turn_id, progress },
                TurnEvent::Incoming(result),
            ) => match result {
                Ok(IncomingMessage::Notification(note)) => notify(
                    thread_id,
                    turn_id,
                    progress,
                    note,
                ),
                Ok(IncomingMessage::Other) => Step {
                    phase: TurnPhase::Receiving { thread_id, turn_id, progress },
                    action: TurnAction::Receive,
                    clear: false,
                },
                Err(error) => fail(error, false),
            },
            (
                TurnPhase::Delivering { thread_id, turn_id, progress, under_way, rest, ending },
                TurnEvent::Output(result),
            ) => delivered(thread_id, turn_id, progress, under_way, rest, ending, result),
            _ => vstd::pervasive::unreached(),
        };
        if step.clear {
            gateway.clear_active_turn(&key);
        }
        (TurnRun { key, phase: step.phase }, step.action)
    }
}

} // verus!
