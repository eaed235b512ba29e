//! Turns a prompt and a set of options into the command that starts the child.

use crate::text::{
    decimal, decimal_text, has_suffix, join_text, joined, lemma_views_push, opt_text, same_text,
    text_contains_char, text_ends_with, trim_text, trimmed, views,
};
use crate::types::options::{ClaudeCodeOptions, EnvVar, Executable, ExtraArg, PermissionMode};
use vstd::prelude::*;
use vstd::string::*;

verus! {

/// What the child is asked: one question, or a stream of user messages that
/// `G` yields.
pub enum Prompt<G> {
    Oneshot(String),
    Stream(G),
}

impl<G> Prompt<G> {
    pub fn is_oneshot(&self) -> (r: bool)
        ensures
            r == (self is Oneshot),
    {
        match self {
            Prompt::Oneshot(_) => true,
            Prompt::Stream(_) => false,
        }
    }

    /// The question of a oneshot prompt.
    pub open spec fn question(&self) -> Option<Seq<char>> {
        match self {
            Prompt::Oneshot(s) => Some(s@),
            Prompt::Stream(_) => None,
        }
    }
}

/// Builds a prompt from a value of another type.
pub trait MyFrom<T>: Sized {
    spec fn my_from_spec(v: T) -> Self;

    fn my_from(v: T) -> (r: Self)
        ensures
            r == Self::my_from_spec(v),
    ;
}

impl<G> MyFrom<String> for Prompt<G> {
    open spec fn my_from_spec(v: String) -> Self {
        Prompt::Oneshot(v)
    }

    fn my_from(v: String) -> (r: Self) {
        Prompt::Oneshot(v)
    }
}

/// Why no child process can be started.
#[derive(Clone, Debug, PartialEq)]
pub enum SpawnError {
    /// A permission callback needs a streaming prompt.
    CanUseToolRequiresStreaming,
    /// A permission callback and a permission prompt tool exclude each other.
    CanUseToolWithPermissionPromptTool,
    /// The fallback model is the main model.
    FallbackModelSameAsMain,
    /// The program's name was not found on the search path.
    CommandNotFound(String),
    /// No file exists at the native program's path.
    NativeBinaryNotFound(String),
    /// No file exists at the script's path.
    ExecutableNotFound(String),
}

/// Whether some variable of `env` is called `key`.
pub open spec fn env_has(env: Option<Vec<EnvVar>>, key: Seq<char>) -> bool {
    match env {
        Some(vars) => exists|i: int| 0 <= i < vars@.len() && (#[trigger] vars@[i]).key@ == key,
        None => false,
    }
}

/// The first reason why the options cannot be turned into arguments, if any.
pub open spec fn argument_error<G, C, E>(
    prompt: &Prompt<G>,
    o: &ClaudeCodeOptions<C, E>,
) -> Option<SpawnError> {
    if o.can_use_tool is Some && prompt is Oneshot {
        Some(SpawnError::CanUseToolRequiresStreaming)
    } else if o.can_use_tool is Some && o.permission_prompt_tool_name is Some {
        Some(SpawnError::CanUseToolWithPermissionPromptTool)
    } else if o.fallback_model is Some && opt_text(o.model) == opt_text(o.fallback_model) {
        Some(SpawnError::FallbackModelSameAsMain)
    } else {
        None
    }
}

/// Where the fallback model is the main model, no arguments are made, so no
/// child is started.
pub proof fn lemma_same_fallback_fails<G, C, E>(prompt: &Prompt<G>, o: &ClaudeCodeOptions<C, E>)
    requires
        o.fallback_model is Some,
        opt_text(o.model) == opt_text(o.fallback_model),
    ensures
        argument_error(prompt, o) is Some,
{
}

/// Where a permission callback meets a oneshot prompt, no arguments are
/// made, so no child is started.
pub proof fn lemma_callback_needs_stream<G, C, E>(prompt: &Prompt<G>, o: &ClaudeCodeOptions<C, E>)
    requires
        o.can_use_tool is Some,
        prompt is Oneshot,
    ensures
        argument_error(prompt, o) == Some(SpawnError::CanUseToolRequiresStreaming),
{
}

/// Where a permission callback meets a permission prompt tool, no arguments
/// are made, so no child is started.
pub proof fn lemma_callback_excludes_tool<G, C, E>(prompt: &Prompt<G>, o: &ClaudeCodeOptions<C, E>)
    requires
        o.can_use_tool is Some,
        o.permission_prompt_tool_name is Some,
    ensures
        argument_error(prompt, o) is Some,
{
}

/// A flag followed by its value, or nothing where there is no value.
pub open spec fn flag_value(flag: Seq<char>, value: Option<Seq<char>>) -> Seq<Seq<char>> {
    match value {
        Some(v) => seq![flag, v],
        None => seq![],
    }
}

/// A bare flag where `on` holds, else nothing.
pub open spec fn flag_if(flag: Seq<char>, on: bool) -> Seq<Seq<char>> {
    if on {
        seq![flag]
    } else {
        seq![]
    }
}

/// A flag followed by the comma-joined list, where the list is present and
/// not empty.
pub open spec fn flag_list(flag: Seq<char>, list: Option<Vec<String>>) -> Seq<Seq<char>> {
    match list {
        Some(items) => if items.len() > 0 {
            seq![flag, joined(views(items@), ","@)]
        } else {
            seq![]
        },
        None => seq![],
    }
}

/// The arguments that choose the permission prompt tool.
pub open spec fn permission_tool_args<C, E>(o: &ClaudeCodeOptions<C, E>) -> Seq<Seq<char>> {
    if o.can_use_tool is Some {
        seq!["--permission-prompt-tool"@, "stdio"@]
    } else {
        flag_value("--permission-prompt-tool"@, opt_text(o.permission_prompt_tool_name))
    }
}

/// The arguments that choose the permission mode: none for the default mode.
pub open spec fn permission_mode_args(mode: Option<PermissionMode>) -> Seq<Seq<char>> {
    match mode {
        Some(m) => if m == PermissionMode::Default {
            seq![]
        } else {
            seq!["--permission-mode"@, m.flag_value()]
        },
        None => seq![],
    }
}

/// The arguments that say where the child's input comes from.
pub open spec fn input_args(question: Option<Seq<char>>) -> Seq<Seq<char>> {
    match question {
        Some(q) => seq!["--print"@, "--"@, trimmed(q)],
        None => seq!["--input-format"@, "stream-json"@],
    }
}

/// One `--add-dir` and the directory, for each directory in order.
pub open spec fn add_dir_args(dirs: Seq<Seq<char>>) -> Seq<Seq<char>>
    decreases dirs.len(),
{
    if dirs.len() == 0 {
        seq![]
    } else {
        add_dir_args(dirs.drop_last()) + seq!["--add-dir"@, dirs.last()]
    }
}

/// The arguments of one extra flag.
pub open spec fn extra_arg(a: ExtraArg) -> Seq<Seq<char>> {
    match a.value {
        Some(v) => seq!["--"@ + a.key@, v@],
        None => seq!["--"@ + a.key@],
    }
}

/// The arguments of the extra flags, in order.
pub open spec fn extra_args(extra: Seq<ExtraArg>) -> Seq<Seq<char>>
    decreases extra.len(),
{
    if extra.len() == 0 {
        seq![]
    } else {
        extra_args(extra.drop_last()) + extra_arg(extra.last())
    }
}

/// The directories of an optional list.
pub open spec fn opt_dirs(dirs: Option<Vec<String>>) -> Seq<Seq<char>> {
    match dirs {
        Some(d) => views(d@),
        None => seq![],
    }
}

/// The flags of an optional list of extra flags.
pub open spec fn opt_extra(extra: Option<Vec<ExtraArg>>) -> Seq<ExtraArg> {
    match extra {
        Some(e) => e@,
        None => seq![],
    }
}

/// The decimal text of an optional number.
pub open spec fn opt_decimal(n: Option<u32>) -> Option<Seq<char>> {
    match n {
        Some(v) => Some(decimal(v as nat)),
        None => None,
    }
}

/// The arguments that the options and the prompt stand for, in the order in
/// which the child receives them.
pub open spec fn cli_args<G, C, E>(prompt: &Prompt<G>, o: &ClaudeCodeOptions<C, E>) -> Seq<
    Seq<char>,
> {
    seq!["--output-format"@, "stream-json"@, "--verbose"@]
        + flag_value("--system-prompt"@, opt_text(o.custom_system_prompt))
        + flag_value("--append-system-prompt"@, opt_text(o.append_system_prompt))
        + flag_value("--max-turns"@, opt_decimal(o.max_turns))
        + flag_value("--model"@, opt_text(o.model))
        + flag_if("--debug-to-stderr"@, env_has(o.env, "DEBUG"@))
        + permission_tool_args(o)
        + flag_if("--continue"@, o.continue_session == Some(true))
        + flag_value("--resume"@, opt_text(o.resume))
        + flag_list("--allowedTools"@, o.allowed_tools)
        + flag_list("--disallowedTools"@, o.disallowed_tools)
        + flag_if("--strict-mcp-config"@, o.strict_mcp_config == Some(true))
        + permission_mode_args(o.permission_mode)
        + flag_value("--fallback-model"@, opt_text(o.fallback_model))
        + flag_if("--include-partial-messages"@, o.include_partial_messages == Some(true))
        + input_args(prompt.question())
        + add_dir_args(opt_dirs(o.additional_directories))
        + extra_args(opt_extra(o.extra_args))
}

/// Appends a flag and its value where there is a value.
fn push_flag_value(args: &mut Vec<String>, flag: &str, value: &Option<String>)
    ensures
        views(final(args)@) == views(old(args)@) + flag_value(flag@, opt_text(*value)),
{
    match value {
        Some(v) => {
            args.push(flag.to_owned());
            args.push(v.clone());
            assert(views(args@) =~= views(old(args)@) + seq![flag@, v@]);
        },
        None => {
            assert(views(args@) =~= views(old(args)@) + Seq::<Seq<char>>::empty());
        },
    }
}

/// Appends a bare flag where `on` holds.
fn push_flag_if(args: &mut Vec<String>, flag: &str, on: bool)
    ensures
        views(final(args)@) == views(old(args)@) + flag_if(flag@, on),
{
    if on {
        args.push(flag.to_owned());
        assert(views(args@) =~= views(old(args)@) + seq![flag@]);
    } else {
        assert(views(args@) =~= views(old(args)@) + Seq::<Seq<char>>::empty());
    }
}

/// Appends a flag and the comma-joined list where the list is not empty.
fn push_flag_list(args: &mut Vec<String>, flag: &str, list: &Option<Vec<String>>)
    ensures
        views(final(args)@) == views(old(args)@) + flag_list(flag@, *list),
{
    proof {
        reveal_strlit(",");
    }
    match list {
        Some(items) => {
            if items.len() > 0 {
                args.push(flag.to_owned());
                args.push(join_text(items, ","));
                assert(views(args@) =~= views(old(args)@) + seq![
                    flag@,
                    joined(views(items@), ","@),
                ]);
            } else {
                assert(views(args@) =~= views(old(args)@) + Seq::<Seq<char>>::empty());
            }
        },
        None => {
            assert(views(args@) =~= views(old(args)@) + Seq::<Seq<char>>::empty());
        },
    }
}

/// Whether some variable of `vars` is called `key`.
fn vars_contain(vars: &Vec<EnvVar>, key: &str) -> (r: bool)
    ensures
        r == exists|i: int| 0 <= i < vars@.len() && (#[trigger] vars@[i]).key@ == key@,
{
    let mut i: usize = 0;
    while i < vars.len()
        invariant
            i <= vars.len(),
            forall|j: int| 0 <= j < i ==> (#[trigger] vars@[j]).key@ != key@,
        decreases vars.len() - i,
    {
        if same_text(vars[i].key.as_str(), key) {
            assert(vars@[i as int].key@ == key@);
            return true;
        }
        i = i + 1;
    }
    false
}

/// Whether some variable of `env` is called `key`.
pub fn env_contains(env: &Option<Vec<EnvVar>>, key: &str) -> (r: bool)
    ensures
        r == env_has(*env, key@),
{
    match env {
        Some(vars) => vars_contain(vars, key),
        None => false,
    }
}

/// Appends `--add-dir` and the directory for each directory.
fn push_add_dirs(args: &mut Vec<String>, dirs: &Option<Vec<String>>)
    ensures
        views(final(args)@) == views(old(args)@) + add_dir_args(opt_dirs(*dirs)),
{
    match dirs {
        Some(d) => {
            let mut i: usize = 0;
            assert(views(args@) =~= views(old(args)@) + add_dir_args(views(d@).take(0)));
            while i < d.len()
                invariant
                    i <= d.len(),
                    views(args@) == views(old(args)@) + add_dir_args(views(d@).take(i as int)),
                decreases d.len() - i,
            {
                let ghost before = views(args@);
                let ghost done = views(d@).take(i as int);
                let ghost next = views(d@).take(i + 1);
                args.push("--add-dir".to_owned());
                args.push(d[i].clone());
                proof {
                    assert(next.drop_last() =~= done);
                    assert(next.last() == d@[i as int]@);
                    assert(views(args@) =~= before + seq!["--add-dir"@, d@[i as int]@]);
                    assert(views(args@) =~= views(old(args)@) + add_dir_args(next));
                }
                i = i + 1;
            }
            assert(views(d@).take(d.len() as int) =~= views(d@));
        },
        None => {
            assert(views(args@) =~= views(old(args)@) + add_dir_args(seq![]));
        },
    }
}

/// Appends the extra flags.
fn push_extra_args(args: &mut Vec<String>, extra: &Option<Vec<ExtraArg>>)
    ensures
        views(final(args)@) == views(old(args)@) + extra_args(opt_extra(*extra)),
{
    match extra {
        Some(e) => {
            let mut i: usize = 0;
            assert(views(args@) =~= views(old(args)@) + extra_args(e@.take(0)));
            while i < e.len()
                invariant
                    i <= e.len(),
                    views(args@) == views(old(args)@) + extra_args(e@.take(i as int)),
                decreases e.len() - i,
            {
                let ghost before = views(args@);
                let ghost done = e@.take(i as int);
                let ghost next = e@.take(i + 1);
                let mut flag = "--".to_owned();
                flag.append(e[i].key.as_str());
                args.push(flag);
                match &e[i].value {
                    Some(v) => {
                        args.push(v.clone());
                    },
                    None => {},
                }
                proof {
                    assert(next.drop_last() =~= done);
                    assert(next.last() == e@[i as int]);
                    assert(views(args@) =~= before + extra_arg(e@[i as int]));
                    assert(views(args@) =~= views(old(args)@) + extra_args(next));
                }
                i = i + 1;
            }
            assert(e@.take(e.len() as int) =~= e@);
        },
        None => {
            assert(views(args@) =~= views(old(args)@) + extra_args(seq![]));
        },
    }
}

/// Whether two optional strings are both present with the same text, or both
/// absent.
fn same_opt_text(a: &Option<String>, b: &Option<String>) -> (r: bool)
    ensures
        r == (opt_text(*a) == opt_text(*b)),
{
    match (a, b) {
        (Some(x), Some(y)) => same_text(x.as_str(), y.as_str()),
        (None, None) => true,
        _ => false,
    }
}

/// Checks the options against the prompt and lists the child's arguments.
///
/// Fails where a permission callback meets a oneshot prompt or a permission
/// prompt tool, and where the fallback model is the main model; the first
/// of these that applies is the error.
#[verifier::rlimit(60)]
#[verifier::spinoff_prover]
pub fn build_cli_args<G, C, E>(prompt: &Prompt<G>, o: &ClaudeCodeOptions<C, E>) -> (r: Result<
    Vec<String>,
    SpawnError,
>)
    ensures
        match argument_error(prompt, o) {
            Some(e) => r == Err::<Vec<String>, SpawnError>(e),
            None => r matches Ok(args) && views(args@) == cli_args(prompt, o),
        },
{
    if o.can_use_tool.is_some() {
        if prompt.is_oneshot() {
            return Err(SpawnError::CanUseToolRequiresStreaming);
        }
        if o.permission_prompt_tool_name.is_some() {
            return Err(SpawnError::CanUseToolWithPermissionPromptTool);
        }
    }
    if o.fallback_model.is_some() && same_opt_text(&o.model, &o.fallback_model) {
        return Err(SpawnError::FallbackModelSameAsMain);
    }
    let mut args: Vec<String> = Vec::new();
    args.push("--output-format".to_owned());
    args.push("stream-json".to_owned());
    args.push("--verbose".to_owned());
    assert(views(args@) =~= seq!["--output-format"@, "stream-json"@, "--verbose"@]);
    push_flag_value(&mut args, "--system-prompt", &o.custom_system_prompt);
    push_flag_value(&mut args, "--append-system-prompt", &o.append_system_prompt);
    let turns = match o.max_turns {
        Some(n) => Some(decimal_text(n)),
        None => None,
    };
    push_flag_value(&mut args, "--max-turns", &turns);
    push_flag_value(&mut args, "--model", &o.model);
    push_flag_if(&mut args, "--debug-to-stderr", env_contains(&o.env, "DEBUG"));
    if o.can_use_tool.is_some() {
        let ghost before = views(args@);
        args.push("--permission-prompt-tool".to_owned());
        args.push("stdio".to_owned());
        assert(views(args@) =~= before + seq!["--permission-prompt-tool"@, "stdio"@]);
    } else {
        push_flag_value(&mut args, "--permission-prompt-tool", &o.permission_prompt_tool_name);
    }
    push_flag_if(
        &mut args,
        "--continue",
        match o.continue_session {
            Some(b) => b,
            None => false,
        },
    );
    push_flag_value(&mut args, "--resume", &o.resume);
    push_flag_list(&mut args, "--allowedTools", &o.allowed_tools);
    push_flag_list(&mut args, "--disallowedTools", &o.disallowed_tools);
    push_flag_if(
        &mut args,
        "--strict-mcp-config",
        match o.strict_mcp_config {
            Some(b) => b,
            None => false,
        },
    );
    let ghost before_mode = views(args@);
    match o.permission_mode {
        Some(m) => {
            if m != PermissionMode::Default {
                args.push("--permission-mode".to_owned());
                args.push(m.as_str().to_owned());
                assert(views(args@) =~= before_mode + seq!["--permission-mode"@, m.flag_value()]);
            } else {
                assert(views(args@) =~= before_mode + Seq::<Seq<char>>::empty());
            }
        },
        None => {
            assert(views(args@) =~= before_mode + Seq::<Seq<char>>::empty());
        },
    }
    assert(views(args@) == before_mode + permission_mode_args(o.permission_mode));
    push_flag_value(&mut args, "--fallback-model", &o.fallback_model);
    push_flag_if(
        &mut args,
        "--include-partial-messages",
        match o.include_partial_messages {
            Some(b) => b,
            None => false,
        },
    );
    let ghost before_input = views(args@);
    match prompt {
        Prompt::Oneshot(q) => {
            args.push("--print".to_owned());
            args.push("--".to_owned());
            args.push(trim_text(q.as_str()));
            assert(views(args@) =~= before_input + seq!["--print"@, "--"@, trimmed(q@)]);
        },
        Prompt::Stream(_) => {
            args.push("--input-format".to_owned());
            args.push("stream-json".to_owned());
            assert(views(args@) =~= before_input + seq!["--input-format"@, "stream-json"@]);
        },
    }
    assert(views(args@) == before_input + input_args(prompt.question()));
    push_add_dirs(&mut args, &o.additional_directories);
    push_extra_args(&mut args, &o.extra_args);
    Ok(args)
}

/// Whether `cmd` names a program without saying where it is: the name is
/// not empty and holds no `/`.
pub open spec fn names_command(cmd: Seq<char>) -> bool {
    cmd.len() > 0 && !cmd.contains('/')
}

/// Whether `cmd` is a bare program name, to be looked up on the search path.
pub fn is_command(cmd: &str) -> (r: bool)
    ensures
        r == names_command(cmd@),
{
    !cmd.is_empty() && !text_contains_char(cmd, '/')
}

/// Whether `path` ends in one of the extensions of a script that needs a
/// JavaScript runtime.
pub open spec fn is_script(path: Seq<char>) -> bool {
    has_suffix(path, ".js"@) || has_suffix(path, ".mjs"@) || has_suffix(path, ".tsx"@)
        || has_suffix(path, ".ts"@) || has_suffix(path, ".jsx"@)
}

/// Whether the program at `path` runs by itself, without a JavaScript runtime.
pub fn is_native_binary(path: &str) -> (r: bool)
    ensures
        r == !is_script(path@),
{
    !(text_ends_with(path, ".js") || text_ends_with(path, ".mjs") || text_ends_with(path, ".tsx")
        || text_ends_with(path, ".ts") || text_ends_with(path, ".jsx"))
}

/// The runtime that runs a script when the options name none.
pub fn default_claude_runtime() -> (r: Executable)
    ensures
        r == Executable::Node,
{
    Executable::Node
}

/// Calls `which::which`, which searches the directories of the process's
/// search path for an executable file of that name. The answer depends on the
/// environment and on the disk, so nothing is promised of it.
#[verifier::external_body]
fn search_path_lookup(cmd: &str) -> (r: Option<String>) {
    match which::which(cmd) {
        Ok(p) => Some(p.to_string_lossy().into_owned()),
        Err(_) => None,
    }
}

/// Calls `std::path::Path::exists`, which asks the file system whether
/// anything is at that path. Nothing is promised of the answer.
#[verifier::external_body]
fn path_exists(path: &str) -> (r: bool) {
    std::path::Path::new(path).exists()
}

/// Finds the file that a bare program name stands for. `Ok(None)` says that
/// `cmd` is no bare name, an error that the search path has no such program.
pub fn find_command_real_path(cmd: &str) -> (r: Result<Option<String>, SpawnError>)
    ensures
        !names_command(cmd@) ==> r matches Ok(None),
        names_command(cmd@) ==> (r matches Ok(Some(_))) || (r matches Err(
            SpawnError::CommandNotFound(c),
        ) && c@ == cmd@),
{
    if !is_command(cmd) {
        return Ok(None);
    }
    match search_path_lookup(cmd) {
        Some(p) => Ok(Some(p)),
        None => Err(SpawnError::CommandNotFound(cmd.to_owned())),
    }
}

/// How the child's input is connected.
#[derive(Clone, Copy, Debug, PartialEq, Eq, Structural)]
pub enum StdinMode {
    /// Closed: the question is on the command line.
    Null,
    /// A pipe that the writer fills.
    Piped,
}

/// The command that starts the child, ready to be run.
#[derive(Clone, Debug, PartialEq)]
pub struct ClaudeCommand {
    pub program: String,
    pub args: Vec<String>,
    pub stdin: StdinMode,
    /// Whether the child's error stream is read.
    pub has_stderr: bool,
    /// The child's environment, later entries overriding earlier ones.
    pub env: Vec<EnvVar>,
    pub cwd: Option<String>,
    /// The child does not outlive the command's owner.
    pub kill_on_drop: bool,
}

/// The keys and values of a list of variables.
pub open spec fn env_view(env: Seq<EnvVar>) -> Seq<(Seq<char>, Seq<char>)> {
    env.map_values(|v: EnvVar| (v.key@, v.value@))
}

/// The variables of an optional list.
pub open spec fn opt_env(env: Option<Vec<EnvVar>>) -> Seq<EnvVar> {
    match env {
        Some(e) => e@,
        None => seq![],
    }
}

/// The strings of an optional list.
pub open spec fn opt_strings(list: Option<Vec<String>>) -> Seq<Seq<char>> {
    match list {
        Some(l) => views(l@),
        None => seq![],
    }
}

/// The runtime's name: the chosen one, else the default.
pub open spec fn runtime_name(executable: Option<Executable>) -> Seq<char> {
    match executable {
        Some(e) => e.name(),
        None => Executable::Node.name(),
    }
}

/// The entry point that the child is told: the one handed down, else this
/// library's own.
pub open spec fn entrypoint_value(entrypoint: Option<String>) -> Seq<char> {
    match entrypoint {
        Some(v) => v@,
        None => "sdk-rs"@,
    }
}

/// The error for a program file that does not exist.
pub open spec fn missing_file_error(bin_path: Seq<char>, e: SpawnError) -> bool {
    if is_script(bin_path) {
        e matches SpawnError::ExecutableNotFound(p) && p@ == bin_path
    } else {
        e matches SpawnError::NativeBinaryNotFound(p) && p@ == bin_path
    }
}

/// Whether `cmd` is the command for the program at `bin_path` with the given
/// prompt, options and entry point.
pub open spec fn is_command_for<G, C, E>(
    cmd: ClaudeCommand,
    prompt: &Prompt<G>,
    o: &ClaudeCodeOptions<C, E>,
    bin_path: Seq<char>,
    entrypoint: Option<String>,
) -> bool {
    &&& cmd.program@ == if is_script(bin_path) {
        runtime_name(o.executable)
    } else {
        bin_path
    }
    &&& views(cmd.args@) == if is_script(bin_path) {
        opt_strings(o.executable_args) + seq![bin_path] + cli_args(prompt, o)
    } else {
        cli_args(prompt, o)
    }
    &&& cmd.stdin == if prompt is Oneshot {
        StdinMode::Null
    } else {
        StdinMode::Piped
    }
    &&& cmd.has_stderr == env_has(o.env, "DEBUG"@)
    &&& env_view(cmd.env@) == seq![("CLAUDE_CODE_ENTRYPOINT"@, entrypoint_value(entrypoint))]
        + env_view(opt_env(o.env))
    &&& opt_text(cmd.cwd) == opt_text(o.cwd)
    &&& cmd.kill_on_drop
}

/// Copies the strings of `src` to the end of `dst`.
fn extend_strings(dst: &mut Vec<String>, src: &Vec<String>)
    ensures
        views(final(dst)@) == views(old(dst)@) + views(src@),
{
    let mut i: usize = 0;
    assert(views(dst@) =~= views(old(dst)@) + views(src@).take(0));
    while i < src.len()
        invariant
            i <= src.len(),
            views(dst@) == views(old(dst)@) + views(src@).take(i as int),
        decreases src.len() - i,
    {
        let ghost before = dst@;
        let item = src[i].clone();
        dst.push(item);
        proof {
            lemma_views_push(before, item);
            assert(views(src@).take(i + 1) =~= views(src@).take(i as int).push(src@[i as int]@));
            assert(views(dst@) =~= views(old(dst)@) + views(src@).take(i + 1));
        }
        i = i + 1;
    }
    assert(views(src@).take(src.len() as int) =~= views(src@));
}

/// Puts the command together once the program's file is known.
///
/// `exists` says whether a file is at `bin_path`. Where the options cannot be
/// turned into arguments that error is returned; else, where the file does
/// not exist, the error that names the path.
pub fn assemble_command<G, C, E>(
    prompt: &Prompt<G>,
    o: &ClaudeCodeOptions<C, E>,
    bin_path: String,
    exists: bool,
    entrypoint: Option<String>,
) -> (r: Result<ClaudeCommand, SpawnError>)
    ensures
        match argument_error(prompt, o) {
            Some(e) => r == Err::<ClaudeCommand, SpawnError>(e),
            None => if exists {
                r matches Ok(cmd) && is_command_for(cmd, prompt, o, bin_path@, entrypoint)
            } else {
                r matches Err(e) && missing_file_error(bin_path@, e)
            },
        },
{
    let cli = match build_cli_args(prompt, o) {
        Ok(a) => a,
        Err(e) => {
            return Err(e);
        },
    };
    let native = is_native_binary(bin_path.as_str());
    if !exists {
        if native {
            return Err(SpawnError::NativeBinaryNotFound(bin_path));
        } else {
            return Err(SpawnError::ExecutableNotFound(bin_path));
        }
    }
    let program: String;
    let args: Vec<String>;
    if native {
        program = bin_path.clone();
        args = cli;
    } else {
        let runtime = match o.executable {
            Some(e) => e,
            None => default_claude_runtime(),
        };
        program = runtime.as_str().to_owned();
        let mut all: Vec<String> = Vec::new();
        assert(views(all@) =~= Seq::<Seq<char>>::empty());
        match &o.executable_args {
            Some(ea) => {
                extend_strings(&mut all, ea);
            },
            None => {},
        }
        assert(views(all@) =~= opt_strings(o.executable_args));
        let ghost head = views(all@);
        all.push(bin_path.clone());
        assert(views(all@) =~= head + seq![bin_path@]);
        extend_strings(&mut all, &cli);
        args = all;
    }
    let mut env: Vec<EnvVar> = Vec::new();
    let value = match &entrypoint {
        Some(v) => v.clone(),
        None => "sdk-rs".to_owned(),
    };
    env.push(EnvVar { key: "CLAUDE_CODE_ENTRYPOINT".to_owned(), value });
    assert(env_view(env@) =~= seq![("CLAUDE_CODE_ENTRYPOINT"@, entrypoint_value(entrypoint))]);
    match &o.env {
        Some(vars) => {
            let mut i: usize = 0;
            assert(env_view(vars@).take(0) =~= Seq::<(Seq<char>, Seq<char>)>::empty());
            while i < vars.len()
                invariant
                    i <= vars.len(),
                    env_view(env@) == seq![
                        ("CLAUDE_CODE_ENTRYPOINT"@, entrypoint_value(entrypoint)),
                    ] + env_view(vars@).take(i as int),
                decreases vars.len() - i,
            {
                let ghost before = env@;
                let var = EnvVar { key: vars[i].key.clone(), value: vars[i].value.clone() };
                env.push(var);
                assert(env_view(env@) =~= env_view(before).push((var.key@, var.value@)));
                assert(env_view(vars@).take(i + 1) =~= env_view(vars@).take(i as int).push(
                    (vars@[i as int].key@, vars@[i as int].value@),
                ));
                assert(env_view(env@) =~= seq![
                    ("CLAUDE_CODE_ENTRYPOINT"@, entrypoint_value(entrypoint)),
                ] + env_view(vars@).take(i + 1));
                i = i + 1;
            }
            assert(env_view(vars@).take(vars.len() as int) =~= env_view(vars@));
        },
        None => {
            assert(env_view(env@) =~= seq![
                ("CLAUDE_CODE_ENTRYPOINT"@, entrypoint_value(entrypoint)),
            ] + env_view(seq![]));
        },
    }
    let cwd = match &o.cwd {
        Some(c) => Some(c.clone()),
        None => None,
    };
    Ok(
        ClaudeCommand {
            program,
            args,
            stdin: if prompt.is_oneshot() {
                StdinMode::Null
            } else {
                StdinMode::Piped
            },
            has_stderr: env_contains(&o.env, "DEBUG"),
            env,
            cwd,
            kill_on_drop: true,
        },
    )
}

/// The program that is started: the one that the options name, else the
/// default.
pub open spec fn program_name<C, E>(o: &ClaudeCodeOptions<C, E>, default_program: Seq<char>) -> Seq<
    char,
> {
    match o.path_to_claude_code_executable {
        Some(p) => p@,
        None => default_program,
    }
}

/// Works out the command that starts the child for this prompt and these
/// options.
///
/// The options are checked first. The program is the one that the options
/// name, else `default_program`. A bare program name is looked up on the
/// search path, any other path is taken as it is, and the file must exist.
/// `entrypoint` is the entry point that this process was itself given, if
/// any. What the search path and the disk hold decides between success and
/// the three errors that name a file.
pub fn spawn_cc_cli<G, C, E>(
    prompt: &Prompt<G>,
    o: &ClaudeCodeOptions<C, E>,
    default_program: &str,
    entrypoint: Option<String>,
) -> (r: Result<ClaudeCommand, SpawnError>)
    ensures
        match argument_error(prompt, o) {
            Some(e) => r == Err::<ClaudeCommand, SpawnError>(e),
            None => match r {
                Ok(cmd) => exists|bin_path: Seq<char>|
                    {
                        &&& #[trigger] is_command_for(cmd, prompt, o, bin_path, entrypoint)
                        &&& !names_command(program_name(o, default_program@)) ==> bin_path == program_name(o, default_program@)
                    },
                Err(SpawnError::CommandNotFound(c)) => names_command(program_name(o, default_program@)) && c@
                    == program_name(o, default_program@),
                Err(e) => exists|bin_path: Seq<char>|
                    {
                        &&& #[trigger] missing_file_error(bin_path, e)
                        &&& !names_command(program_name(o, default_program@)) ==> bin_path == program_name(o, default_program@)
                    },
            },
        },
{
    match build_cli_args(prompt, o) {
        Ok(_) => {},
        Err(e) => {
            return Err(e);
        },
    }
    let named = match &o.path_to_claude_code_executable {
        Some(p) => p.clone(),
        None => default_program.to_owned(),
    };
    let bin_path = match find_command_real_path(named.as_str()) {
        Ok(Some(p)) => p,
        Ok(None) => named,
        Err(e) => {
            return Err(e);
        },
    };
    let exists = path_exists(bin_path.as_str());
    let ghost path = bin_path@;
    let r = assemble_command(prompt, o, bin_path, exists, entrypoint);
    proof {
        if r is Ok {
            assert(is_command_for(r->Ok_0, prompt, o, path, entrypoint));
        } else {
            assert(missing_file_error(path, r->Err_0));
        }
    }
    r
}

} // verus!
