//! Options that decide how the child process is started.

use vstd::prelude::*;

verus! {

/// The JavaScript runtime that runs a script build of the child program.
#[derive(Clone, Copy, Debug, PartialEq, Eq, Structural)]
pub enum Executable {
    Bun,
    Deno,
    Node,
}

impl Executable {
    /// The runtime's command name.
    pub open spec fn name(self) -> Seq<char> {
        match self {
            Executable::Bun => "bun"@,
            Executable::Deno => "deno"@,
            Executable::Node => "node"@,
        }
    }

    pub fn as_str(&self) -> (r: &'static str)
        ensures
            r@ == self.name(),
    {
        match self {
            Executable::Bun => "bun",
            Executable::Deno => "deno",
            Executable::Node => "node",
        }
    }
}

/// How the child asks before it uses a tool.
#[derive(Clone, Copy, Debug, PartialEq, Eq, Structural)]
pub enum PermissionMode {
    Default,
    AcceptEdits,
    BypassPermissions,
    Plan,
}

impl PermissionMode {
    /// The mode as the child's command line spells it.
    pub open spec fn flag_value(self) -> Seq<char> {
        match self {
            PermissionMode::Default => "default"@,
            PermissionMode::Plan => "plan"@,
            PermissionMode::AcceptEdits => "accept-edits"@,
            PermissionMode::BypassPermissions => "bypass-permissions"@,
        }
    }

    pub fn as_str(&self) -> (r: &'static str)
        ensures
            r@ == self.flag_value(),
    {
        match self {
            PermissionMode::Default => "default",
            PermissionMode::Plan => "plan",
            PermissionMode::AcceptEdits => "accept-edits",
            PermissionMode::BypassPermissions => "bypass-permissions",
        }
    }

    /// The mode as control requests and data messages spell it.
    pub open spec fn wire_value(self) -> Seq<char> {
        match self {
            PermissionMode::Default => "default"@,
            PermissionMode::Plan => "plan"@,
            PermissionMode::AcceptEdits => "acceptEdits"@,
            PermissionMode::BypassPermissions => "bypassPermissions"@,
        }
    }

    pub fn wire_name(&self) -> (r: &'static str)
        ensures
            r@ == self.wire_value(),
    {
        match self {
            PermissionMode::Default => "default",
            PermissionMode::Plan => "plan",
            PermissionMode::AcceptEdits => "acceptEdits",
            PermissionMode::BypassPermissions => "bypassPermissions",
        }
    }
}

/// The value of an option that is accepted but has no effect yet.
#[derive(Clone, Copy, Debug, PartialEq, Eq, Structural)]
pub enum Unsupported {
    Ignored,
}

/// Receives each line that the child writes to its error stream.
pub trait DebugCallBack {
    fn call(&self, data: String);
}

/// One environment variable for the child.
#[derive(Clone, Debug, PartialEq)]
pub struct EnvVar {
    pub key: String,
    pub value: String,
}

/// One extra command-line flag, passed through as given: `--key`, followed by
/// the value if there is one.
#[derive(Clone, Debug, PartialEq)]
pub struct ExtraArg {
    pub key: String,
    pub value: Option<String>,
}

/// Everything a caller can choose about one child process. `C` is the
/// permission callback and `E` the receiver of the child's error stream; the
/// library only asks whether they are present.
pub struct ClaudeCodeOptions<C, E> {
    pub abort_controller: Option<Unsupported>,
    pub additional_directories: Option<Vec<String>>,
    pub allowed_tools: Option<Vec<String>>,
    pub append_system_prompt: Option<String>,
    pub can_use_tool: Option<C>,
    pub continue_session: Option<bool>,
    pub custom_system_prompt: Option<String>,
    pub cwd: Option<String>,
    pub disallowed_tools: Option<Vec<String>>,
    pub env: Option<Vec<EnvVar>>,
    pub executable: Option<Executable>,
    pub executable_args: Option<Vec<String>>,
    pub extra_args: Option<Vec<ExtraArg>>,
    pub fallback_model: Option<String>,
    pub hooks: Option<Unsupported>,
    pub include_partial_messages: Option<bool>,
    pub max_thinking_tokens: Option<Unsupported>,
    pub max_turns: Option<u32>,
    pub mcp_servers: Option<Unsupported>,
    pub model: Option<String>,
    pub path_to_claude_code_executable: Option<String>,
    pub permission_mode: Option<PermissionMode>,
    pub permission_prompt_tool_name: Option<String>,
    pub resume: Option<String>,
    pub stderr: Option<E>,
    pub strict_mcp_config: Option<bool>,
}

impl<C, E> ClaudeCodeOptions<C, E> {
    /// Whether every option is left unset.
    pub open spec fn is_unset(&self) -> bool {
        &&& self.abort_controller is None
        &&& self.additional_directories is None
        &&& self.allowed_tools is None
        &&& self.append_system_prompt is None
        &&& self.can_use_tool is None
        &&& self.continue_session is None
        &&& self.custom_system_prompt is None
        &&& self.cwd is None
        &&& self.disallowed_tools is None
        &&& self.env is None
        &&& self.executable is None
        &&& self.executable_args is None
        &&& self.extra_args is None
        &&& self.fallback_model is None
        &&& self.hooks is None
        &&& self.include_partial_messages is None
        &&& self.max_thinking_tokens is None
        &&& self.max_turns is None
        &&& self.mcp_servers is None
        &&& self.model is None
        &&& self.path_to_claude_code_executable is None
        &&& self.permission_mode is None
        &&& self.permission_prompt_tool_name is None
        &&& self.resume is None
        &&& self.stderr is None
        &&& self.strict_mcp_config is None
    }
}

impl<C, E> Default for ClaudeCodeOptions<C, E> {
    fn default() -> (r: Self)
        ensures
            r.is_unset(),
    {
        ClaudeCodeOptions {
            abort_controller: None,
            additional_directories: None,
            allowed_tools: None,
            append_system_prompt: None,
            can_use_tool: None,
            continue_session: None,
            custom_system_prompt: None,
            cwd: None,
            disallowed_tools: None,
            env: None,
            executable: None,
            executable_args: None,
            extra_args: None,
            fallback_model: None,
            hooks: None,
            include_partial_messages: None,
            max_thinking_tokens: None,
            max_turns: None,
            mcp_servers: None,
            model: None,
            path_to_claude_code_executable: None,
            permission_mode: None,
            permission_prompt_tool_name: None,
            resume: None,
            stderr: None,
            strict_mcp_config: None,
        }
    }
}

} // verus!
