use codex_gateway_core::api::{GatewayConfig, GoalStatus, ReasoningEffort, SessionAction};
use codex_gateway_core::gateway::{
    clear_goal_reply, goal_reply, Call, CodexGateway, Enqueued, GatewayError, GoalAnswer, GoalCall,
    GoalCommand, GoalStep, SessionStep, FIRST_REQUEST_ID, WORK_QUEUE_CAPACITY,
};
use codex_gateway_core::protocol::{
    ClientRequest, ModelListParams, RequestId, ThreadGoal, ThreadGoalSetParams,
    ThreadResumeParams, ThreadStartParams, TurnInterruptParams, TurnSteerParams, UserInput,
};
use codex_gateway_core::state::QueuedTurn;
use codex_gateway_core::turn::{run_turn, TurnEvent, TurnRun};

fn s(text: &str) -> String {
    text.to_string()
}

fn gateway() -> CodexGateway<String> {
    let mut config = GatewayConfig::new(s("gpt-5"));
    config.default_cwd = Some(s("/work"));
    config.service_name = Some(s("bot"));
    CodexGateway::spawn(config).0
}

fn id(number: i64) -> RequestId {
    RequestId::Int64(number)
}

/// Puts the channel on thread `th` with turn `tu` under way.
fn activate(gateway: &mut CodexGateway<String>, key: &str) {
    gateway.session_started(&s(key), s("th"));
    let (run, _): (TurnRun<String, u8>, _) =
        run_turn(gateway, s(key), s(key), QueuedTurn { prompt: s("go") });
    let _ = run.advance(gateway, TurnEvent::Turn(Ok(s("tu"))));
}

#[test]
fn launch_follows_the_configuration() {
    let mut config = GatewayConfig::new(s("gpt-5"));
    config.inherit_stderr = true;
    let (_, launch) = CodexGateway::<u64>::spawn(config);
    assert_eq!(launch.server.codex_bin, "codex");
    assert_eq!(launch.server.server_args, vec![s("app-server")]);
    assert!(launch.server.inherit_stderr);
    assert_eq!(launch.client.name, "codex_gateway");
    assert_eq!(launch.client.title.as_deref(), Some("Codex Gateway"));
    assert_eq!(launch.client.version, "0.1.0");
    assert_eq!(WORK_QUEUE_CAPACITY, 128);
}

#[test]
fn prompts_wait_in_order() {
    let mut gateway = gateway();
    assert_eq!(gateway.queue_status(&s("c")), "No session for this channel yet.");
    for prompt in ["one", "two", "three"] {
        assert_eq!(
            gateway.enqueue_turn(s("c"), s(prompt), false),
            Enqueued::Queued { reply: s("Done.") }
        );
    }
    assert_eq!(gateway.queue_status(&s("c")), "Active: no active turn\nQueued turns: 3");
    for prompt in ["one", "two", "three"] {
        assert_eq!(gateway.next_turn(&s("c")), Some(QueuedTurn { prompt: s(prompt) }));
    }
    assert_eq!(gateway.next_turn(&s("c")), None);
    assert_eq!(gateway.queue_status(&s("c")), "Active: no active turn\nQueued turns: 0");
}

#[test]
fn steering_needs_an_active_turn() {
    let mut gateway = gateway();
    assert_eq!(
        gateway.enqueue_turn(s("c"), s("idle"), true),
        Enqueued::Queued { reply: s("Done.") }
    );
    assert_eq!(gateway.next_turn(&s("c")), Some(QueuedTurn { prompt: s("idle") }));
    activate(&mut gateway, "c");
    assert_eq!(
        gateway.enqueue_turn(s("c"), s("left"), true),
        Enqueued::Steer(Call {
            request: ClientRequest::TurnSteer {
                id: id(10_000),
                params: TurnSteerParams {
                    thread_id: s("th"),
                    expected_turn_id: s("tu"),
                    input: vec![UserInput::Text { text: s("left") }],
                },
            },
            reply: s("Done."),
        })
    );
    assert_eq!(
        gateway.enqueue_turn(s("c"), s("later"), false),
        Enqueued::Queued { reply: s("Done.") }
    );
    assert_eq!(gateway.queue_status(&s("c")), "Active: tu\nQueued turns: 1");
}

#[test]
fn an_active_turn_holds_the_queue() {
    let mut gateway = gateway();
    gateway.enqueue_turn(s("c"), s("next"), false);
    activate(&mut gateway, "c");
    assert_eq!(gateway.next_turn(&s("c")), None);
    assert_eq!(gateway.queue_status(&s("c")), "Active: tu\nQueued turns: 1");
}

#[test]
fn a_model_is_chosen() {
    let mut gateway = gateway();
    assert_eq!(gateway.model_status(&s("c")), "Current model: `gpt-5`");
    assert_eq!(
        gateway.set_model(s("c"), s("o3")),
        "Model set to `o3`. It will apply to the next turn."
    );
    assert_eq!(gateway.model_status(&s("c")), "Current model: `o3`");
    assert_eq!(gateway.model_status(&s("other")), "Current model: `gpt-5`");
}

#[test]
fn an_effort_is_chosen() {
    let mut gateway = gateway();
    assert_eq!(gateway.effort_status(&s("c")), "Current reasoning effort: Codex default");
    assert_eq!(
        gateway.set_effort(s("c"), Some(ReasoningEffort::XHigh)),
        "Reasoning effort set to `xhigh`."
    );
    assert_eq!(gateway.effort_status(&s("c")), "Current reasoning effort: `xhigh`");
    assert_eq!(
        gateway.set_effort(s("c"), None),
        "Reasoning effort cleared; Codex default will be used."
    );
    assert_eq!(gateway.effort_status(&s("c")), "Current reasoning effort: Codex default");
}

#[test]
fn looking_up_creates_the_session() {
    let mut gateway = gateway();
    gateway.model_status(&s("c"));
    assert_eq!(gateway.queue_status(&s("c")), "Active: no active turn\nQueued turns: 0");
    assert_eq!(gateway.queue_status(&s("d")), "No session for this channel yet.");
}

#[test]
fn request_ids_count_up() {
    let mut gateway = gateway();
    for number in 0..3 {
        assert_eq!(
            gateway.list_models(),
            ClientRequest::ModelList {
                id: id(FIRST_REQUEST_ID + number),
                params: ModelListParams { include_hidden: Some(false), limit: Some(25) },
            }
        );
    }
}

#[test]
fn status_keeps_the_session_it_began_with() {
    let mut gateway = gateway();
    gateway.set_model(s("c"), s("o3"));
    let query = gateway.status(&s("c"));
    gateway.set_model(s("c"), s("o4"));
    assert_eq!(query.session.model, "o3");
    assert_eq!(query.request, ClientRequest::AccountRateLimitsRead { id: id(10_000) });
}

#[test]
fn a_goal_starts_a_thread_first() {
    let mut gateway = gateway();
    let step = gateway.goal(s("c"), Some(s("win")), Some(7));
    let GoalStep::StartThread { params, key, command } = step else {
        panic!("{:?}", step);
    };
    assert_eq!(
        params,
        ThreadStartParams {
            model: Some(s("gpt-5")),
            cwd: Some(s("/work")),
            service_name: Some(s("bot")),
        }
    );
    assert_eq!(key, "c");
    assert_eq!(command, GoalCommand::Pursue { objective: s("win"), budget: Some(7) });
    assert_eq!(
        gateway.resume_goal(&key, command, s("th")),
        GoalCall::Change(ClientRequest::ThreadGoalSet {
            id: id(10_000),
            params: ThreadGoalSetParams {
                thread_id: s("th"),
                objective: Some(s("win")),
                token_budget: Some(7),
                status: Some(GoalStatus::Active),
            },
        })
    );
    assert_eq!(
        gateway.goal(s("c"), None, Some(9)),
        GoalStep::Call(GoalCall::Show(ClientRequest::ThreadGoalGet {
            id: id(10_001),
            thread_id: s("th"),
        }))
    );
    assert_eq!(
        gateway.set_goal_status(s("c"), GoalStatus::Paused),
        GoalStep::Call(GoalCall::Change(ClientRequest::ThreadGoalSet {
            id: id(10_002),
            params: ThreadGoalSetParams {
                thread_id: s("th"),
                objective: None,
                token_budget: None,
                status: Some(GoalStatus::Paused),
            },
        }))
    );
    assert_eq!(
        gateway.clear_goal(s("c")),
        GoalStep::Call(GoalCall::Clear(ClientRequest::ThreadGoalClear {
            id: id(10_003),
            thread_id: s("th"),
        }))
    );
}

#[test]
fn replies_to_a_cleared_goal() {
    assert_eq!(clear_goal_reply(true), "Goal cleared.");
    assert_eq!(clear_goal_reply(false), "No goal was set.");
}

#[test]
fn replies_to_goal_commands() {
    let goal = || ThreadGoal {
        objective: s("win"),
        status: s("active"),
        tokens_used: 1,
        token_budget: None,
        time_used_seconds: 2,
    };
    let shown = "Goal: win\nStatus: `active`\nTokens: 1\nTime used: 2s";
    assert_eq!(goal_reply(&GoalAnswer::Shown(Some(goal()))), shown);
    assert_eq!(goal_reply(&GoalAnswer::Changed(goal())), shown);
    assert_eq!(goal_reply(&GoalAnswer::Shown(None)), "No goal set.");
    assert_eq!(goal_reply(&GoalAnswer::Cleared(true)), "Goal cleared.");
    assert_eq!(goal_reply(&GoalAnswer::Cleared(false)), "No goal was set.");
}

#[test]
fn settings_outlast_what_else_happens() {
    let mut gateway = gateway();
    gateway.set_model(s("c"), s("o3"));
    gateway.set_effort(s("c"), Some(ReasoningEffort::Low));
    gateway.session_started(&s("c"), s("th"));
    gateway.set_model(s("d"), s("o4"));
    gateway.set_effort(s("d"), None);
    gateway.session_started(&s("d"), s("other"));
    gateway.enqueue_turn(s("c"), s("one"), false);
    gateway.next_turn(&s("c"));
    gateway.list_models();
    let _ = gateway.interrupt(&s("c"));
    assert_eq!(
        gateway.session(s("c"), SessionAction::Show, None),
        SessionStep::Reply(s("Thread: `th`\nModel: `o3`\nEffort: `low`"))
    );
}

#[test]
fn prompts_come_and_go_in_turn() {
    let mut gateway = gateway();
    let mut taken = Vec::new();
    for prompts in [vec!["one", "two"], vec!["three"], vec![], vec!["four", "five"]] {
        for prompt in prompts {
            gateway.enqueue_turn(s("c"), s(prompt), false);
            gateway.enqueue_turn(s("d"), s("other"), false);
        }
        taken.extend(gateway.next_turn(&s("c")).map(|turn| turn.prompt));
    }
    assert_eq!(taken, ["one", "two", "three", "four"]);
    assert_eq!(gateway.next_turn(&s("c")), Some(QueuedTurn { prompt: s("five") }));
}

#[test]
fn sessions_are_started_listed_and_switched() {
    let mut gateway = gateway();
    assert_eq!(
        gateway.session(s("c"), SessionAction::Show, None),
        SessionStep::Reply(s("Thread: `none`\nModel: `gpt-5`\nEffort: `Codex default`"))
    );
    assert_eq!(
        gateway.session(s("c"), SessionAction::New, None),
        SessionStep::StartThread {
            params: ThreadStartParams {
                model: Some(s("gpt-5")),
                cwd: Some(s("/work")),
                service_name: Some(s("bot")),
            },
            key: s("c"),
        }
    );
    assert_eq!(gateway.session_started(&s("c"), s("th")), "Started new thread `th`.");
    assert_eq!(
        gateway.session(s("c"), SessionAction::List, None),
        SessionStep::List(ClientRequest::ThreadList { id: id(10_000), limit: Some(10) })
    );
    assert_eq!(
        gateway.session(s("c"), SessionAction::Switch, Some(s("old"))),
        SessionStep::Resume {
            request: ClientRequest::ThreadResume {
                id: id(10_001),
                params: ThreadResumeParams {
                    thread_id: s("old"),
                    model: Some(s("gpt-5")),
                    cwd: Some(s("/work")),
                },
            },
            key: s("c"),
        }
    );
    assert_eq!(gateway.session_switched(&s("c"), s("old")), "Switched to thread `old`.");
    assert_eq!(
        gateway.session(s("c"), SessionAction::Show, None),
        SessionStep::Reply(s("Thread: `old`\nModel: `gpt-5`\nEffort: `Codex default`"))
    );
}

#[test]
fn a_switch_without_a_thread_is_refused() {
    let mut gateway = gateway();
    assert_eq!(
        gateway.session(s("c"), SessionAction::Switch, None),
        SessionStep::Refuse(GatewayError::MissingThreadId)
    );
    assert_eq!(GatewayError::MissingThreadId.message(), "thread_id is required");
    assert_eq!(gateway.queue_status(&s("c")), "No session for this channel yet.");
}

#[test]
fn only_an_active_turn_is_interrupted() {
    let mut gateway = gateway();
    assert_eq!(gateway.interrupt(&s("c")), Err(GatewayError::NoActiveThread));
    assert_eq!(GatewayError::NoActiveThread.message(), "no active thread for this channel");
    gateway.session_started(&s("c"), s("th"));
    assert_eq!(gateway.interrupt(&s("c")), Err(GatewayError::NoActiveTurn));
    assert_eq!(GatewayError::NoActiveTurn.message(), "no active turn for this channel");
    activate(&mut gateway, "c");
    assert_eq!(
        gateway.interrupt(&s("c")),
        Ok(Call {
            request: ClientRequest::TurnInterrupt {
                id: id(10_000),
                params: TurnInterruptParams { thread_id: s("th"), turn_id: s("tu") },
            },
            reply: s("Interrupt requested."),
        })
    );
}

#[test]
fn channels_do_not_mix() {
    let mut gateway = gateway();
    gateway.enqueue_turn(s("a"), s("for a"), false);
    gateway.set_model(s("b"), s("o3"));
    activate(&mut gateway, "b");
    assert_eq!(gateway.queue_status(&s("a")), "Active: no active turn\nQueued turns: 1");
    assert_eq!(gateway.queue_status(&s("b")), "Active: tu\nQueued turns: 0");
    assert_eq!(gateway.model_status(&s("a")), "Current model: `gpt-5`");
}

#[test]
fn request_ids_count_up_whatever_happens() {
    let mut gateway = gateway();
    assert!(matches!(
        gateway.session(s("c"), SessionAction::List, None),
        SessionStep::List(ClientRequest::ThreadList { id: RequestId::Int64(10_000), .. })
    ));
    gateway.set_model(s("c"), s("o3"));
    gateway.session(s("c"), SessionAction::Switch, None);
    gateway.clear_goal(s("c"));
    activate(&mut gateway, "c");
    assert!(matches!(
        gateway.clear_goal(s("c")),
        GoalStep::Call(GoalCall::Clear(ClientRequest::ThreadGoalClear {
            id: RequestId::Int64(10_001),
            ..
        }))
    ));
    gateway.next_turn(&s("c"));
    let _ = gateway.interrupt(&s("d"));
    assert_eq!(
        gateway.status(&s("d")).request,
        ClientRequest::AccountRateLimitsRead { id: id(10_002) }
    );
}
