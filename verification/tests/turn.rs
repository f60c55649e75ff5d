use codex_gateway_core::api::{GatewayConfig, ReasoningEffort};
use codex_gateway_core::gateway::CodexGateway;
use codex_gateway_core::protocol::{
    agent_item_text, empty_thread_resume_params, empty_turn_start_params, text_input,
    ClientRequest, IncomingMessage, RequestId, ServerNotification, ThreadItem, ThreadStartParams,
    TurnStartParams, UserInput,
};
use codex_gateway_core::state::QueuedTurn;
use codex_gateway_core::turn::{
    begin_next_turn, next_work, run_turn, TurnAction, TurnError, TurnEvent, TurnRun, Work,
    WorkEvent,
};

type Run = TurnRun<u64, &'static str>;
type Action = TurnAction<&'static str>;

fn s(text: &str) -> String {
    text.to_string()
}

fn gateway() -> CodexGateway<u64> {
    CodexGateway::spawn(GatewayConfig::new(s("gpt-5"))).0
}

fn message(id: &str, text: &str) -> ThreadItem {
    ThreadItem::AgentMessage { id: s(id), text: s(text) }
}

fn started(id: &str) -> ServerNotification {
    ServerNotification::ItemStarted { thread_id: s("th"), turn_id: s("tu"), item: message(id, "") }
}

fn completed(id: &str, text: &str) -> ServerNotification {
    ServerNotification::ItemCompleted {
        thread_id: s("th"),
        turn_id: s("tu"),
        item: message(id, text),
    }
}

fn turn_completed(items: Vec<ThreadItem>) -> ServerNotification {
    ServerNotification::TurnCompleted { thread_id: s("th"), turn_id: s("tu"), items }
}

fn turn_error(text: &str) -> ServerNotification {
    ServerNotification::Error { thread_id: s("th"), turn_id: s("tu"), error: s(text) }
}

/// A turn that waits for the app-server.
fn receiving(gateway: &mut CodexGateway<u64>) -> Run {
    gateway.session_started(&1, s("th"));
    let (run, _) = run_turn(gateway, 1, s("1"), QueuedTurn { prompt: s("go") });
    let (run, action): (Run, Action) = run.advance(gateway, TurnEvent::Turn(Ok(s("tu"))));
    assert_eq!(action, TurnAction::TurnStarted);
    let (run, action) = run.advance(gateway, TurnEvent::Output(Ok(())));
    assert_eq!(action, TurnAction::Receive);
    run
}

/// Hands in a notification, with an output that takes everything; gives what the output was told
/// and the action behind it.
fn tell(
    run: Run,
    gateway: &mut CodexGateway<u64>,
    note: ServerNotification,
) -> (Run, Vec<Action>, Action) {
    let event = TurnEvent::Incoming(Ok(IncomingMessage::Notification(note)));
    assert!(run.awaits(&event));
    let (mut run, mut action) = run.advance(gateway, event);
    let mut told = Vec::new();
    loop {
        match action {
            TurnAction::Receive | TurnAction::Finish(_) => return (run, told, action),
            output => told.push(output),
        }
        (run, action) = run.advance(gateway, TurnEvent::Output(Ok(())));
    }
}

#[test]
fn a_turn_on_a_new_thread() {
    let mut gateway = gateway();
    gateway.set_model(1, s("o3"));
    gateway.set_effort(1, Some(ReasoningEffort::Low));
    let (run, action): (Run, Action) =
        run_turn(&mut gateway, 1, s("chan"), QueuedTurn { prompt: s("go") });
    assert_eq!(
        action,
        TurnAction::StartThread(ThreadStartParams {
            model: Some(s("o3")),
            cwd: None,
            service_name: None,
        })
    );
    gateway.set_model(1, s("late"));
    let (run, action) = run.advance(&mut gateway, TurnEvent::Thread(Ok(s("th"))));
    assert_eq!(
        action,
        TurnAction::StartTurn(ClientRequest::TurnStart {
            id: RequestId::String(s("turn-start-chan-th")),
            params: TurnStartParams {
                thread_id: s("th"),
                input: vec![UserInput::Text { text: s("go") }],
                model: Some(s("o3")),
                effort: Some(ReasoningEffort::Low),
                cwd: None,
            },
        })
    );
    let (_, action) = run.advance(&mut gateway, TurnEvent::Turn(Ok(s("tu"))));
    assert_eq!(action, TurnAction::TurnStarted);
    assert_eq!(gateway.queue_status(&1), "Active: tu\nQueued turns: 0");
}

#[test]
fn a_chosen_model_applies_to_the_next_turn() {
    let mut gateway = gateway();
    gateway.session_started(&1, s("th"));
    gateway.set_model(1, s("o3"));
    let (_, action): (Run, Action) =
        run_turn(&mut gateway, 1, s("1"), QueuedTurn { prompt: s("go") });
    let TurnAction::StartTurn(ClientRequest::TurnStart { params, .. }) = action else {
        panic!("{:?}", action);
    };
    assert_eq!(params.model.as_deref(), Some("o3"));
    assert_eq!(params.thread_id, "th");
}

#[test]
fn starts_that_fail() {
    let mut gateway = gateway();
    let (run, _): (Run, Action) =
        run_turn(&mut gateway, 1, s("1"), QueuedTurn { prompt: s("go") });
    let (_, action) = run.advance(&mut gateway, TurnEvent::Thread(Err("no thread")));
    assert_eq!(action, TurnAction::Finish(Err(TurnError::Outside("no thread"))));

    gateway.session_started(&1, s("th"));
    let (run, _): (Run, Action) =
        run_turn(&mut gateway, 1, s("1"), QueuedTurn { prompt: s("go") });
    let (_, action) = run.advance(&mut gateway, TurnEvent::Turn(Err("no turn")));
    assert_eq!(action, TurnAction::Finish(Err(TurnError::Outside("no turn"))));
    assert_eq!(gateway.queue_status(&1), "Active: no active turn\nQueued turns: 0");

    let (run, _): (Run, Action) =
        run_turn(&mut gateway, 1, s("1"), QueuedTurn { prompt: s("go") });
    let (run, _) = run.advance(&mut gateway, TurnEvent::Turn(Ok(s("tu"))));
    let (_, action) = run.advance(&mut gateway, TurnEvent::Output(Err("deaf")));
    assert_eq!(action, TurnAction::Finish(Err(TurnError::Outside("deaf"))));
    assert_eq!(gateway.queue_status(&1), "Active: no active turn\nQueued turns: 0");
}

#[test]
fn messages_are_announced_sent_and_closed() {
    let mut gateway = gateway();
    let run = receiving(&mut gateway);
    let (run, told, end) = tell(run, &mut gateway, started("a"));
    assert_eq!(told, vec![TurnAction::MessageStarted]);
    assert_eq!(end, TurnAction::Receive);
    let (run, told, _) = tell(run, &mut gateway, started("a"));
    assert_eq!(told, vec![]);
    let (run, told, _) = tell(run, &mut gateway, completed("a", "hello"));
    assert_eq!(told, vec![TurnAction::Send(s("hello")), TurnAction::MessageFinished]);
    let (run, told, _) = tell(run, &mut gateway, completed("a", "hello"));
    assert_eq!(told, vec![]);
    let (run, told, _) = tell(run, &mut gateway, completed("b", "unannounced"));
    assert_eq!(
        told,
        vec![
            TurnAction::MessageStarted,
            TurnAction::Send(s("unannounced")),
            TurnAction::MessageFinished,
        ]
    );
    let (_, told, end) = tell(
        run,
        &mut gateway,
        turn_completed(vec![message("a", "hello"), ThreadItem::Other, message("c", "last")]),
    );
    assert_eq!(
        told,
        vec![
            TurnAction::MessageStarted,
            TurnAction::Send(s("last")),
            TurnAction::MessageFinished,
        ]
    );
    assert_eq!(end, TurnAction::Finish(Ok(())));
    assert_eq!(gateway.queue_status(&1), "Active: no active turn\nQueued turns: 0");
}

#[test]
fn blank_messages_are_closed_but_not_sent() {
    let mut gateway = gateway();
    let run = receiving(&mut gateway);
    let (run, told, _) = tell(run, &mut gateway, completed("a", " \n"));
    assert_eq!(told, vec![]);
    let (run, _, _) = tell(run, &mut gateway, started("a"));
    let (run, told, _) = tell(run, &mut gateway, completed("a", ""));
    assert_eq!(told, vec![TurnAction::MessageFinished]);
    let (run, _, _) = tell(run, &mut gateway, started("b"));
    let (_, told, end) = tell(
        run,
        &mut gateway,
        turn_completed(vec![message("a", "after all"), message("b", " ")]),
    );
    assert_eq!(told, vec![TurnAction::Send(s("after all")), TurnAction::MessageFinished]);
    assert_eq!(end, TurnAction::Finish(Ok(())));
}

#[test]
fn a_complete_turn_leaves_nothing_unsaid() {
    let mut gateway = gateway();
    let run = receiving(&mut gateway);
    let (_, told, end) = tell(
        run,
        &mut gateway,
        turn_completed(vec![message("a", "one"), message("b", "two"), message("a", "again")]),
    );
    assert_eq!(
        told,
        vec![
            TurnAction::MessageStarted,
            TurnAction::Send(s("one")),
            TurnAction::MessageFinished,
            TurnAction::MessageStarted,
            TurnAction::Send(s("two")),
            TurnAction::MessageFinished,
        ]
    );
    assert_eq!(end, TurnAction::Finish(Ok(())));
}

#[test]
fn a_failed_turn_closes_its_messages() {
    let mut gateway = gateway();
    let run = receiving(&mut gateway);
    let (run, _, _) = tell(run, &mut gateway, started("a"));
    let (run, _, _) = tell(run, &mut gateway, started("b"));
    let (run, _, _) = tell(run, &mut gateway, started("c"));
    let (run, _, _) = tell(run, &mut gateway, completed("b", "done"));
    let (run, told, end) = tell(run, &mut gateway, turn_error("overloaded"));
    assert_eq!(told, vec![TurnAction::MessageFinished, TurnAction::MessageFinished]);
    assert_eq!(end, TurnAction::Finish(Err(TurnError::Turn(s("overloaded")))));
    assert_eq!(gateway.queue_status(&1), "Active: no active turn\nQueued turns: 0");
    assert!(!run.awaits(&TurnEvent::Output(Ok(()))));
}

#[test]
fn what_is_not_of_the_turn_is_passed_over() {
    let mut gateway = gateway();
    let mut run = receiving(&mut gateway);
    let foreign = vec![
        ServerNotification::ItemStarted {
            thread_id: s("th"),
            turn_id: s("other"),
            item: message("a", "x"),
        },
        ServerNotification::ItemCompleted {
            thread_id: s("other"),
            turn_id: s("tu"),
            item: message("a", "x"),
        },
        ServerNotification::TurnCompleted {
            thread_id: s("other"),
            turn_id: s("other"),
            items: vec![message("a", "x")],
        },
        ServerNotification::Error { thread_id: s("th"), turn_id: s("other"), error: s("bad") },
        ServerNotification::Other,
        ServerNotification::ItemCompleted {
            thread_id: s("th"),
            turn_id: s("tu"),
            item: ThreadItem::Other,
        },
    ];
    for note in foreign {
        let (next, told, end) = tell(run, &mut gateway, note);
        assert_eq!(told, vec![]);
        assert_eq!(end, TurnAction::Receive);
        run = next;
    }
    let (run, action) =
        run.advance(&mut gateway, TurnEvent::Incoming(Ok(IncomingMessage::Other)));
    assert_eq!(action, TurnAction::Receive);
    let (_, told, _) = tell(run, &mut gateway, completed("a", "x"));
    assert_eq!(told.len(), 3);
}

#[test]
fn a_broken_connection_leaves_the_turn_active() {
    let mut gateway = gateway();
    let run = receiving(&mut gateway);
    let (_, action) = run.advance(&mut gateway, TurnEvent::Incoming(Err("gone")));
    assert_eq!(action, TurnAction::Finish(Err(TurnError::Outside("gone"))));
    assert_eq!(gateway.queue_status(&1), "Active: tu\nQueued turns: 0");
}

#[test]
fn a_refused_announcement_ends_the_turn() {
    let mut gateway = gateway();
    let run = receiving(&mut gateway);
    let event = TurnEvent::Incoming(Ok(IncomingMessage::Notification(completed("a", "x"))));
    let (run, action) = run.advance(&mut gateway, event);
    assert_eq!(action, TurnAction::MessageStarted);
    let (_, action) = run.advance(&mut gateway, TurnEvent::Output(Err("deaf")));
    assert_eq!(action, TurnAction::Finish(Err(TurnError::Outside("deaf"))));
    assert_eq!(gateway.queue_status(&1), "Active: no active turn\nQueued turns: 0");
}

#[test]
fn a_refused_text_still_closes_its_message() {
    for (answer, error) in [(Ok(()), "full"), (Err("deaf"), "deaf")] {
        let mut gateway = gateway();
        let run = receiving(&mut gateway);
        let (run, _, _) = tell(run, &mut gateway, started("a"));
        let event = TurnEvent::Incoming(Ok(IncomingMessage::Notification(completed("a", "x"))));
        let (run, action) = run.advance(&mut gateway, event);
        assert_eq!(action, TurnAction::Send(s("x")));
        let (run, action) = run.advance(&mut gateway, TurnEvent::Output(Err("full")));
        assert_eq!(action, TurnAction::MessageFinished);
        let (_, action) = run.advance(&mut gateway, TurnEvent::Output(answer));
        assert_eq!(action, TurnAction::Finish(Err(TurnError::Outside(error))));
        assert_eq!(gateway.queue_status(&1), "Active: no active turn\nQueued turns: 0");
    }
}

#[test]
fn a_refused_text_of_a_closed_message_ends_the_turn() {
    let mut gateway = gateway();
    let run = receiving(&mut gateway);
    let (run, _, _) = tell(run, &mut gateway, started("a"));
    let (run, _, _) = tell(run, &mut gateway, completed("a", ""));
    let (run, _, _) = tell(run, &mut gateway, started("b"));
    let event = TurnEvent::Incoming(Ok(IncomingMessage::Notification(turn_completed(vec![
        message("a", "x"),
        message("b", ""),
    ]))));
    let (run, action) = run.advance(&mut gateway, event);
    assert_eq!(action, TurnAction::Send(s("x")));
    let (_, action) = run.advance(&mut gateway, TurnEvent::Output(Err("full")));
    assert_eq!(action, TurnAction::Finish(Err(TurnError::Outside("full"))));
}

#[test]
fn a_refused_close_hides_the_error_of_the_turn() {
    let mut gateway = gateway();
    let run = receiving(&mut gateway);
    let (run, _, _) = tell(run, &mut gateway, started("a"));
    let event = TurnEvent::Incoming(Ok(IncomingMessage::Notification(turn_error("overloaded"))));
    let (run, action) = run.advance(&mut gateway, event);
    assert_eq!(action, TurnAction::MessageFinished);
    let (_, action) = run.advance(&mut gateway, TurnEvent::Output(Err("deaf")));
    assert_eq!(action, TurnAction::Finish(Err(TurnError::Outside("deaf"))));
    assert_eq!(gateway.queue_status(&1), "Active: no active turn\nQueued turns: 0");
}

#[test]
fn the_worker_empties_the_queue() {
    let mut gateway = gateway();
    gateway.session_started(&1, s("th"));
    for prompt in ["one", "two"] {
        gateway.enqueue_turn(1, s(prompt), false);
    }
    for prompt in ["one", "two"] {
        let begun: Option<(Run, Action)> = begin_next_turn(&mut gateway, &1, s("1"));
        let Some((run, TurnAction::StartTurn(ClientRequest::TurnStart { params, .. }))) = begun
        else {
            panic!("no turn began");
        };
        assert_eq!(params.input, vec![UserInput::Text { text: s(prompt) }]);
        let (run, _) = run.advance(&mut gateway, TurnEvent::Turn(Ok(s("tu"))));
        let blocked: Option<(Run, Action)> = begin_next_turn(&mut gateway, &1, s("1"));
        assert!(blocked.is_none());
        let (run, _) = run.advance(&mut gateway, TurnEvent::Output(Ok(())));
        let (_, _, end) = tell(run, &mut gateway, turn_completed(vec![]));
        assert_eq!(end, TurnAction::Finish(Ok(())));
    }
    let none: Option<(Run, Action)> = begin_next_turn(&mut gateway, &1, s("1"));
    assert!(none.is_none());
}

#[test]
fn parts_of_the_protocol() {
    assert_eq!(text_input(s("hi")), vec![UserInput::Text { text: s("hi") }]);
    assert_eq!(agent_item_text(&message("a", "x")), Some(("a", "x")));
    assert_eq!(agent_item_text(&ThreadItem::Other), None);
    let turn = empty_turn_start_params();
    assert_eq!((turn.thread_id.as_str(), turn.input.len()), ("", 0));
    assert_eq!((turn.model, turn.effort, turn.cwd), (None, None, None));
    let resume = empty_thread_resume_params();
    assert_eq!((resume.thread_id.as_str(), resume.model, resume.cwd), ("", None, None));
}

#[test]
fn a_switched_thread_carries_the_next_turn() {
    let mut gateway = gateway();
    gateway.session_started(&1, s("th"));
    gateway.session_switched(&1, s("old"));
    let (run, action): (Run, Action) =
        run_turn(&mut gateway, 1, s("1"), QueuedTurn { prompt: s("go") });
    let TurnAction::StartTurn(ClientRequest::TurnStart { params, .. }) = action else {
        panic!("{:?}", action);
    };
    assert_eq!(params.thread_id, "old");
    assert!(run.awaits(&TurnEvent::Turn(Ok(s("tu")))));
    assert!(!run.awaits(&TurnEvent::Thread(Ok(s("th")))));
}

#[test]
fn a_failure_is_reported_before_the_next_turn() {
    let mut gateway = gateway();
    gateway.session_started(&1, s("th"));
    gateway.enqueue_turn(1, s("one"), false);
    let event: WorkEvent<&'static str> = WorkEvent::Ended(Err(TurnError::Outside("broken")));
    let work = next_work(&mut gateway, &1, s("1"), event);
    assert!(matches!(work, Work::Report(TurnError::Outside("broken"))));
    assert_eq!(gateway.queue_status(&1), "Active: no active turn\nQueued turns: 1");
    let work: Work<u64, &'static str> =
        next_work(&mut gateway, &1, s("1"), WorkEvent::Reported);
    assert!(matches!(work, Work::Run(_, TurnAction::StartTurn(_))));
    let work: Work<u64, &'static str> =
        next_work(&mut gateway, &1, s("1"), WorkEvent::Ended(Ok(())));
    assert!(matches!(work, Work::Rest));
    gateway.enqueue_turn(1, s("two"), false);
    let work: Work<u64, &'static str> = next_work(&mut gateway, &1, s("1"), WorkEvent::Told);
    assert!(matches!(work, Work::Run(_, _)));
}

#[test]
fn the_last_error_is_the_one_of_the_turn() {
    let mut gateway = gateway();
    let run = receiving(&mut gateway);
    let event = TurnEvent::Incoming(Ok(IncomingMessage::Notification(completed("a", "x"))));
    let (run, action) = run.advance(&mut gateway, event);
    assert_eq!(action, TurnAction::MessageStarted);
    let (run, action) = run.advance(&mut gateway, TurnEvent::Output(Ok(())));
    assert_eq!(action, TurnAction::Send(s("x")));
    let (run, action) = run.advance(&mut gateway, TurnEvent::Output(Err("first")));
    assert_eq!(action, TurnAction::MessageFinished);
    let (_, action) = run.advance(&mut gateway, TurnEvent::Output(Err("second")));
    assert_eq!(action, TurnAction::Finish(Err(TurnError::Outside("second"))));
}

#[test]
fn each_message_is_announced_once() {
    let mut gateway = gateway();
    let mut run = receiving(&mut gateway);
    let mut all = Vec::new();
    let notes = vec![
        started("a"),
        started("a"),
        completed("a", "one"),
        started("a"),
        completed("b", " "),
        completed("c", "two"),
        started("c"),
        started("d"),
        turn_completed(vec![message("a", "one"), message("e", "three"), message("b", "")]),
    ];
    for note in notes {
        let (next, told, _) = tell(run, &mut gateway, note);
        all.extend(told);
        run = next;
    }
    let announced = all.iter().filter(|action| **action == TurnAction::MessageStarted).count();
    assert_eq!(announced, 4);
    let texts: Vec<&Action> =
        all.iter().filter(|action| matches!(action, TurnAction::Send(_))).collect();
    assert_eq!(
        texts,
        [
            &TurnAction::Send(s("one")),
            &TurnAction::Send(s("two")),
            &TurnAction::Send(s("three")),
        ]
    );
}
