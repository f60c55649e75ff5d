//! What a gateway application configures and chooses from.

use vstd::prelude::*;

use crate::text::{clone_text, opt_text};

verus! {

/// How to launch the app-server and what new sessions start with.
#[derive(Debug, PartialEq, Eq)]
pub struct GatewayConfig {
    pub codex_bin: String,
    pub default_model: String,
    pub default_cwd: Option<String>,
    pub inherit_stderr: bool,
    pub client_name: String,
    pub client_title: Option<String>,
    pub client_version: String,
    pub service_name: Option<String>,
}

impl GatewayConfig {
    /// The stock configuration, with `default_model` for sessions that chose no model.
    pub fn new(default_model: String) -> (config: Self)
        ensures
            config.codex_bin@ == "codex"@,
            config.default_model@ == default_model@,
            config.default_cwd is None,
            !config.inherit_stderr,
            config.client_name@ == "codex_gateway"@,
            opt_text(config.client_title) == Some("Codex Gateway"@),
            config.client_version@ == "0.1.0"@,
            config.service_name is None,
    {
        GatewayConfig {
            codex_bin: "codex".to_owned(),
            default_model,
            default_cwd: None,
            inherit_stderr: false,
            client_name: "codex_gateway".to_owned(),
            client_title: Some("Codex Gateway".to_owned()),
            client_version: "0.1.0".to_owned(),
            service_name: None,
        }
    }
}

impl Clone for GatewayConfig {
    fn clone(&self) -> (copy: Self)
        ensures
            copy.codex_bin@ == self.codex_bin@,
            copy.default_model@ == self.default_model@,
            opt_text(copy.default_cwd) == opt_text(self.default_cwd),
            copy.inherit_stderr == self.inherit_stderr,
            copy.client_name@ == self.client_name@,
            opt_text(copy.client_title) == opt_text(self.client_title),
            copy.client_version@ == self.client_version@,
            opt_text(copy.service_name) == opt_text(self.service_name),
    {
        GatewayConfig {
            codex_bin: self.codex_bin.clone(),
            default_model: self.default_model.clone(),
            default_cwd: clone_text(&self.default_cwd),
            inherit_stderr: self.inherit_stderr,
            client_name: self.client_name.clone(),
            client_title: clone_text(&self.client_title),
            client_version: self.client_version.clone(),
            service_name: clone_text(&self.service_name),
        }
    }
}

/// How hard the model is asked to reason.
#[derive(Debug, Clone, Copy, PartialEq, Eq, Structural)]
pub enum ReasoningEffort {
    Minimal,
    Low,
    Medium,
    High,
    XHigh,
}

impl ReasoningEffort {
    /// The name under which an effort is shown.
    pub open spec fn name(self) -> Seq<char> {
        match self {
            ReasoningEffort::Minimal => "minimal"@,
            ReasoningEffort::Low => "low"@,
            ReasoningEffort::Medium => "medium"@,
            ReasoningEffort::High => "high"@,
            ReasoningEffort::XHigh => "xhigh"@,
        }
    }

    /// The name under which the effort is shown.
    pub fn as_str(self) -> (name: &'static str)
        ensures
            name@ == self.name(),
    {
        match self {
            ReasoningEffort::Minimal => "minimal",
            ReasoningEffort::Low => "low",
            ReasoningEffort::Medium => "medium",
            ReasoningEffort::High => "high",
            ReasoningEffort::XHigh => "xhigh",
        }
    }
}

/// The states into which a goal can be put.
#[derive(Debug, Clone, Copy, PartialEq, Eq, Structural)]
pub enum GoalStatus {
    Active,
    Paused,
}

/// What a channel can ask of its session.
#[derive(Debug, Clone, Copy, PartialEq, Eq, Structural)]
pub enum SessionAction {
    Show,
    New,
    List,
    Switch,
}

/// The message that tells a channel that its turn failed with `error`.
pub fn turn_failed_text(error: &str) -> (text: String)
    ensures
        text@ == "Codex turn failed: "@ + error@,
{
    "Codex turn failed: ".to_owned().concat(error)
}

} // verus!
