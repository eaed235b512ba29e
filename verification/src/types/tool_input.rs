//! The inputs of the tools that the child may ask to use.

use serde_json::Value;
use vstd::prelude::*;

verus! {

/// A tool's input as the JSON value it arrived in, without the tool's name.
#[derive(Clone, Debug, PartialEq)]
pub struct UntaggedToolUseParams(pub Value);

/// The name of a tool that an MCP server offers: it starts with `mcp__`.
#[derive(Clone, Debug, PartialEq)]
pub struct McpToolName(pub String);

#[derive(Clone, Debug, PartialEq)]
pub struct AgentInput {
    /// A short description of the work.
    pub description: String,
    /// What the agent is to do.
    pub prompt: String,
    /// The kind of agent that performs it.
    pub subagent_type: String,
}

#[derive(Clone, Debug, PartialEq)]
pub struct BashInput {
    /// The command to execute.
    pub command: String,
    /// Optional timeout in milliseconds.
    pub timeout: Option<u64>,
    /// What the command does, in a few words.
    pub description: Option<String>,
    /// Whether the command runs in the background.
    pub run_in_background: Option<bool>,
}

#[derive(Clone, Debug, PartialEq)]
pub struct BashOutputInput {
    /// The background shell to read from.
    pub bash_id: String,
    /// A regular expression that the output lines must match.
    pub filter: Option<String>,
}

#[derive(Clone, Debug, PartialEq)]
pub struct ExitPlanModeInput {
    /// The plan put before the user.
    pub plan: String,
}

#[derive(Clone, Debug, PartialEq)]
pub struct FileEditInput {
    /// The absolute path of the file to modify.
    pub file_path: String,
    /// The text to replace.
    pub old_string: String,
    /// The text to replace it with.
    pub new_string: String,
    /// Whether every occurrence is replaced.
    pub replace_all: Option<bool>,
}

#[derive(Clone, Debug, PartialEq)]
pub struct FileEditOperation {
    /// The text to replace.
    pub old_string: String,
    /// The text to replace it with.
    pub new_string: String,
    /// Whether every occurrence is replaced.
    pub replace_all: Option<bool>,
}

#[derive(Clone, Debug, PartialEq)]
pub struct FileMultiEditInput {
    /// The absolute path of the file to modify.
    pub file_path: String,
    /// The edits, applied in order.
    pub edits: Vec<FileEditOperation>,
}

#[derive(Clone, Debug, PartialEq)]
pub struct FileReadInput {
    /// The absolute path of the file to read.
    pub file_path: String,
    /// The line to start reading from.
    pub offset: Option<u64>,
    /// The number of lines to read.
    pub limit: Option<u64>,
}

#[derive(Clone, Debug, PartialEq)]
pub struct FileWriteInput {
    /// The absolute path of the file to write.
    pub file_path: String,
    /// The content to write.
    pub content: String,
}

#[derive(Clone, Debug, PartialEq)]
pub struct GlobInput {
    /// The glob pattern to match files against.
    pub pattern: String,
    /// The directory to search in.
    pub path: Option<String>,
}

#[derive(Clone, Copy, Debug, PartialEq, Eq, Structural)]
pub enum GrepOutputMode {
    Content,
    FilesWithMatches,
    Count,
}

#[derive(Clone, Debug, PartialEq)]
pub struct GrepInput {
    /// The regular expression to search for.
    pub pattern: String,
    /// The file or directory to search in.
    pub path: Option<String>,
    /// A glob pattern that filters the files.
    pub glob: Option<String>,
    /// What is shown for each match.
    pub output_mode: Option<GrepOutputMode>,
    /// Lines shown before each match.
    pub b_: Option<u64>,
    /// Lines shown after each match.
    pub a_: Option<u64>,
    /// Lines shown before and after each match.
    pub c_: Option<u64>,
    /// Whether line numbers are shown.
    pub n_: Option<bool>,
    /// Whether case is ignored.
    pub i_: Option<bool>,
    /// The file type to search.
    pub file_type: Option<String>,
    /// The number of lines or entries that the output is cut to.
    pub head_limit: Option<u64>,
    /// Whether a pattern may span lines.
    pub multiline: Option<bool>,
}

#[derive(Clone, Debug, PartialEq)]
pub struct KillShellInput {
    /// The background shell to kill.
    pub shell_id: String,
}

#[derive(Clone, Debug, PartialEq)]
pub struct ListMcpResourcesInput {
    /// The server whose resources are listed.
    pub server: Option<String>,
}

#[derive(Clone, Copy, Debug, PartialEq, Eq, Structural)]
pub enum NotebookCellType {
    Code,
    Markdown,
}

#[derive(Clone, Copy, Debug, PartialEq, Eq, Structural)]
pub enum NotebookEditMode {
    Replace,
    Insert,
    Delete,
}

#[derive(Clone, Debug, PartialEq)]
pub struct NotebookEditInput {
    /// The absolute path of the notebook to edit.
    pub notebook_path: String,
    /// The cell to edit, or after which a new cell is inserted.
    pub cell_id: Option<String>,
    /// The new source of the cell.
    pub new_source: String,
    /// The type of the cell.
    pub cell_type: Option<NotebookCellType>,
    /// The kind of edit.
    pub edit_mode: Option<NotebookEditMode>,
}

#[derive(Clone, Debug, PartialEq)]
pub struct ReadMcpResourceInput {
    /// The MCP server's name.
    pub server: String,
    /// The resource to read.
    pub uri: String,
}

#[derive(Clone, Copy, Debug, PartialEq, Eq, Structural)]
pub enum TodoStatus {
    Pending,
    InProgress,
    Completed,
}

#[derive(Clone, Debug, PartialEq)]
pub struct TodoItem {
    pub content: String,
    pub status: TodoStatus,
    pub active_form: String,
}

#[derive(Clone, Debug, PartialEq)]
pub struct TodoWriteInput {
    /// The updated todo list.
    pub todos: Vec<TodoItem>,
}

#[derive(Clone, Debug, PartialEq)]
pub struct WebFetchInput {
    /// The address to fetch content from.
    pub url: String,
    /// The question put to the fetched content.
    pub prompt: String,
}

#[derive(Clone, Debug, PartialEq)]
pub struct WebSearchInput {
    /// The search query.
    pub query: String,
    /// The only domains that results may come from.
    pub allowed_domains: Option<Vec<String>>,
    /// Domains that results may not come from.
    pub blocked_domains: Option<Vec<String>>,
}

/// A tool and the input that the child wants to give it.
#[derive(Clone, Debug, PartialEq)]
#[allow(inconsistent_fields)]
pub enum ToolUseParams {
    Bash { input: BashInput },
    Edit { input: FileEditInput },
    Glob { input: GlobInput },
    Grep { input: GrepInput },
    MultiEdit { input: FileMultiEditInput },
    NotebookEdit { input: NotebookEditInput },
    Read { input: FileReadInput },
    TodoWrite { input: TodoWriteInput },
    WebFetch { input: WebFetchInput },
    WebSearch { input: WebSearchInput },
    Write { input: FileWriteInput },
    Agent { input: AgentInput },
    BashOutput { input: BashOutputInput },
    ExitPlanMode { input: ExitPlanModeInput },
    KillShell { input: KillShellInput },
    ListMcpResources { input: ListMcpResourcesInput },
    ReadMcpResource { input: ReadMcpResourceInput },
    /// A tool of an MCP server, with its input as it arrived.
    Mcp { tool_name: McpToolName, input: Value },
}

impl ToolUseParams {
    /// The name of the tool's kind.
    pub open spec fn kind_name(&self) -> Seq<char> {
        match self {
            ToolUseParams::Bash { .. } => "Bash"@,
            ToolUseParams::Edit { .. } => "Edit"@,
            ToolUseParams::Glob { .. } => "Glob"@,
            ToolUseParams::Agent { .. } => "Agent"@,
            ToolUseParams::Grep { .. } => "Grep"@,
            ToolUseParams::MultiEdit { .. } => "MultiEdit"@,
            ToolUseParams::NotebookEdit { .. } => "NotebookEdit"@,
            ToolUseParams::Read { .. } => "Read"@,
            ToolUseParams::TodoWrite { .. } => "TodoWrite"@,
            ToolUseParams::WebFetch { .. } => "WebFetch"@,
            ToolUseParams::WebSearch { .. } => "WebSearch"@,
            ToolUseParams::Write { .. } => "Write"@,
            ToolUseParams::BashOutput { .. } => "BashOutput"@,
            ToolUseParams::ExitPlanMode { .. } => "ExitPlanMode"@,
            ToolUseParams::KillShell { .. } => "KillShell"@,
            ToolUseParams::ListMcpResources { .. } => "ListMcpResources"@,
            ToolUseParams::Mcp { .. } => "Mcp"@,
            ToolUseParams::ReadMcpResource { .. } => "ReadMcpResource"@,
        }
    }

    /// The name of the tool's kind; `Mcp` for every tool of an MCP server.
    pub fn tool_name(&self) -> (r: &'static str)
        ensures
            r@ == self.kind_name(),
    {
        match self {
            ToolUseParams::Bash { .. } => "Bash",
            ToolUseParams::Edit { .. } => "Edit",
            ToolUseParams::Glob { .. } => "Glob",
            ToolUseParams::Agent { .. } => "Agent",
            ToolUseParams::Grep { .. } => "Grep",
            ToolUseParams::MultiEdit { .. } => "MultiEdit",
            ToolUseParams::NotebookEdit { .. } => "NotebookEdit",
            ToolUseParams::Read { .. } => "Read",
            ToolUseParams::TodoWrite { .. } => "TodoWrite",
            ToolUseParams::WebFetch { .. } => "WebFetch",
            ToolUseParams::WebSearch { .. } => "WebSearch",
            ToolUseParams::Write { .. } => "Write",
            ToolUseParams::BashOutput { .. } => "BashOutput",
            ToolUseParams::ExitPlanMode { .. } => "ExitPlanMode",
            ToolUseParams::KillShell { .. } => "KillShell",
            ToolUseParams::ListMcpResources { .. } => "ListMcpResources",
            ToolUseParams::Mcp { .. } => "Mcp",
            ToolUseParams::ReadMcpResource { .. } => "ReadMcpResource",
        }
    }
}

} // verus!
