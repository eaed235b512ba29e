//! Answers to the child's question whether it may use a tool.

use crate::types::options::PermissionMode;
use crate::types::tool_input::UntaggedToolUseParams;
use vstd::prelude::*;

verus! {

#[derive(Clone, Copy, Debug, PartialEq, Eq, Structural)]
pub enum PermissionBehavior {
    Allow,
    Deny,
    Ask,
}

#[derive(Clone, Copy, Debug, PartialEq, Eq, Structural)]
pub enum PermissionUpdateDestination {
    UserSettings,
    ProjectSettings,
    LocalSettings,
    Session,
}

#[derive(Clone, Debug, PartialEq)]
pub struct PermissionRuleValue {
    pub tool_name: String,
    pub rule_content: Option<String>,
}

/// A change to the permission rules that goes with an answer.
#[derive(Clone, Debug, PartialEq)]
pub enum PermissionUpdate {
    AddRules {
        rules: Vec<PermissionRuleValue>,
        behavior: PermissionBehavior,
        destination: PermissionUpdateDestination,
    },
    ReplaceRules {
        rules: Vec<PermissionRuleValue>,
        behavior: PermissionBehavior,
        destination: PermissionUpdateDestination,
    },
    RemoveRules {
        rules: Vec<PermissionRuleValue>,
        behavior: PermissionBehavior,
        destination: PermissionUpdateDestination,
    },
    SetMode { mode: PermissionMode, destination: PermissionUpdateDestination },
    AddDirectories { directories: Vec<String>, destination: PermissionUpdateDestination },
    RemoveDirectories { directories: Vec<String>, destination: PermissionUpdateDestination },
}

/// The tool may not be used.
#[derive(Clone, Debug, PartialEq)]
pub struct PermissionDeny {
    pub message: String,
    pub interrupt: Option<bool>,
}

/// The tool may be used, with this input.
#[derive(Clone, Debug, PartialEq)]
pub struct PermissionAllow {
    pub updated_input: UntaggedToolUseParams,
    pub updated_permissions: Option<Vec<PermissionUpdate>>,
}

/// The answer to one permission question.
#[derive(Clone, Debug, PartialEq)]
pub enum PermissionResult {
    Allow(PermissionAllow),
    Deny(PermissionDeny),
}

/// The suggestions that come with a permission question.
#[derive(Clone, Debug, PartialEq)]
pub struct CandUseToolParamOptions {
    pub suggestions: Vec<PermissionUpdate>,
}

} // verus!
