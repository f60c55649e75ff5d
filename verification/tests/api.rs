use codex_gateway_core::api::{turn_failed_text, GatewayConfig, ReasoningEffort};

#[test]
fn stock_configuration() {
    let config = GatewayConfig::new("gpt-5".to_string());
    assert_eq!(config.codex_bin, "codex");
    assert_eq!(config.default_model, "gpt-5");
    assert_eq!(config.default_cwd, None);
    assert!(!config.inherit_stderr);
    assert_eq!(config.client_name, "codex_gateway");
    assert_eq!(config.client_title.as_deref(), Some("Codex Gateway"));
    assert_eq!(config.client_version, "0.1.0");
    assert_eq!(config.service_name, None);
}

#[test]
fn a_copied_configuration_is_the_same() {
    let mut config = GatewayConfig::new("gpt-5".to_string());
    config.default_cwd = Some("/work".to_string());
    config.inherit_stderr = true;
    config.client_title = None;
    config.service_name = Some("bot".to_string());
    assert_eq!(config.clone(), config);
}

#[test]
fn names_of_efforts() {
    assert_eq!(ReasoningEffort::Minimal.as_str(), "minimal");
    assert_eq!(ReasoningEffort::Low.as_str(), "low");
    assert_eq!(ReasoningEffort::Medium.as_str(), "medium");
    assert_eq!(ReasoningEffort::High.as_str(), "high");
    assert_eq!(ReasoningEffort::XHigh.as_str(), "xhigh");
}

#[test]
fn text_of_a_failed_turn() {
    assert_eq!(turn_failed_text("no luck"), "Codex turn failed: no luck");
}
