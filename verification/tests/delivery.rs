use codex_gateway_core::delivery::{Delivery, Progress};
use codex_gateway_core::protocol::ThreadItem;

fn message(id: &str, text: &str) -> ThreadItem {
    ThreadItem::AgentMessage { id: id.to_string(), text: text.to_string() }
}

#[test]
fn closing_all_is_noted() {
    let mut progress = Progress::new();
    progress.item_started(&message("a", ""));
    progress.item_started(&message("b", ""));
    progress.item_started(&message("c", ""));
    assert_eq!(progress.item_completed(&message("b", "")), [Delivery::Finish]);
    assert_eq!(
        progress.finish_started_agent_messages(),
        [Delivery::Finish, Delivery::Finish]
    );
    assert!(progress.finish_started_agent_messages().is_empty());
    assert!(progress.items_completed(&vec![message("a", ""), message("c", " ")]).is_empty());
}

#[test]
fn a_closed_message_is_sent_without_a_close() {
    let mut progress = Progress::new();
    progress.item_started(&message("a", ""));
    progress.finish_started_agent_messages();
    assert_eq!(
        progress.item_completed(&message("a", "late")),
        [Delivery::Text { text: "late".to_string(), finish: false }]
    );
    assert!(progress.item_started(&message("a", "")).is_empty());
    assert!(progress.item_completed(&message("a", "again")).is_empty());
}
