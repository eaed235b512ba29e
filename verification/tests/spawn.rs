use niu_code::cli::spawn::{
    assemble_command, build_cli_args, default_claude_runtime, env_contains,
    find_command_real_path, is_command, is_native_binary, spawn_cc_cli, MyFrom, Prompt,
    SpawnError, StdinMode,
};
use niu_code::text::{decimal_text, join_text, same_text};
use niu_code::types::options::{
    ClaudeCodeOptions, EnvVar, Executable, ExtraArg, PermissionMode,
};

fn texts(v: &[&str]) -> Vec<String> {
    v.iter().map(|s| s.to_string()).collect()
}

fn options() -> ClaudeCodeOptions<(), ()> {
    ClaudeCodeOptions::default()
}

#[test]
fn oneshot_question_is_trimmed_and_printed() {
    let prompt: Prompt<()> = Prompt::Oneshot("  What is 2+2?\n".to_string());
    let args = build_cli_args(&prompt, &options()).unwrap();
    assert_eq!(
        args,
        texts(&["--output-format", "stream-json", "--verbose", "--print", "--", "What is 2+2?"])
    );
}

#[test]
fn streaming_prompt_reads_stream_json() {
    let prompt: Prompt<()> = Prompt::Stream(());
    let args = build_cli_args(&prompt, &options()).unwrap();
    assert_eq!(
        args,
        texts(&["--output-format", "stream-json", "--verbose", "--input-format", "stream-json"])
    );
}

#[test]
fn fallback_model_equal_to_model_fails() {
    let prompt: Prompt<()> = Prompt::Stream(());
    let mut o = options();
    o.model = Some("opus".to_string());
    o.fallback_model = Some("opus".to_string());
    assert_eq!(build_cli_args(&prompt, &o), Err(SpawnError::FallbackModelSameAsMain));
    o.fallback_model = Some("haiku".to_string());
    assert!(build_cli_args(&prompt, &o).is_ok());
    o.model = None;
    assert!(build_cli_args(&prompt, &o).is_ok());
}

#[test]
fn permission_callback_needs_a_streaming_prompt() {
    let prompt: Prompt<()> = Prompt::Oneshot("hi".to_string());
    let mut o = options();
    o.can_use_tool = Some(());
    assert_eq!(build_cli_args(&prompt, &o), Err(SpawnError::CanUseToolRequiresStreaming));
}

#[test]
fn permission_callback_excludes_a_permission_prompt_tool() {
    let prompt: Prompt<()> = Prompt::Stream(());
    let mut o = options();
    o.can_use_tool = Some(());
    o.permission_prompt_tool_name = Some("mcp__approve".to_string());
    assert_eq!(build_cli_args(&prompt, &o), Err(SpawnError::CanUseToolWithPermissionPromptTool));
    o.permission_prompt_tool_name = None;
    let args = build_cli_args(&prompt, &o).unwrap();
    assert!(args.windows(2).any(|w| w[0] == "--permission-prompt-tool" && w[1] == "stdio"));
}

#[test]
fn the_first_failing_check_is_the_error() {
    let prompt: Prompt<()> = Prompt::Oneshot("hi".to_string());
    let mut o = options();
    o.can_use_tool = Some(());
    o.permission_prompt_tool_name = Some("t".to_string());
    o.model = Some("m".to_string());
    o.fallback_model = Some("m".to_string());
    assert_eq!(build_cli_args(&prompt, &o), Err(SpawnError::CanUseToolRequiresStreaming));
}

#[test]
fn every_option_maps_to_its_flag_in_order() {
    let prompt: Prompt<()> = Prompt::Stream(());
    let mut o = options();
    o.custom_system_prompt = Some("sys".to_string());
    o.append_system_prompt = Some("more".to_string());
    o.max_turns = Some(1205);
    o.model = Some("opus".to_string());
    o.env = Some(vec![EnvVar { key: "DEBUG".to_string(), value: "1".to_string() }]);
    o.permission_prompt_tool_name = Some("tool".to_string());
    o.continue_session = Some(true);
    o.resume = Some("S".to_string());
    o.allowed_tools = Some(texts(&["Bash", "Read"]));
    o.disallowed_tools = Some(texts(&["Write"]));
    o.strict_mcp_config = Some(true);
    o.permission_mode = Some(PermissionMode::AcceptEdits);
    o.fallback_model = Some("haiku".to_string());
    o.include_partial_messages = Some(true);
    o.additional_directories = Some(texts(&["/a", "/b"]));
    o.extra_args = Some(vec![
        ExtraArg { key: "foo".to_string(), value: Some("bar".to_string()) },
        ExtraArg { key: "bare".to_string(), value: None },
    ]);
    let args = build_cli_args(&prompt, &o).unwrap();
    assert_eq!(
        args,
        texts(&[
            "--output-format",
            "stream-json",
            "--verbose",
            "--system-prompt",
            "sys",
            "--append-system-prompt",
            "more",
            "--max-turns",
            "1205",
            "--model",
            "opus",
            "--debug-to-stderr",
            "--permission-prompt-tool",
            "tool",
            "--continue",
            "--resume",
            "S",
            "--allowedTools",
            "Bash,Read",
            "--disallowedTools",
            "Write",
            "--strict-mcp-config",
            "--permission-mode",
            "accept-edits",
            "--fallback-model",
            "haiku",
            "--include-partial-messages",
            "--input-format",
            "stream-json",
            "--add-dir",
            "/a",
            "--add-dir",
            "/b",
            "--foo",
            "bar",
            "--bare",
        ])
    );
}

#[test]
fn unset_and_default_options_add_nothing() {
    let prompt: Prompt<()> = Prompt::Stream(());
    let mut o = options();
    o.continue_session = Some(false);
    o.allowed_tools = Some(Vec::new());
    o.permission_mode = Some(PermissionMode::Default);
    o.strict_mcp_config = Some(false);
    o.env = Some(vec![EnvVar { key: "PATH".to_string(), value: "/bin".to_string() }]);
    let args = build_cli_args(&prompt, &o).unwrap();
    assert_eq!(
        args,
        texts(&["--output-format", "stream-json", "--verbose", "--input-format", "stream-json"])
    );
}

#[test]
fn a_native_program_is_run_directly() {
    let prompt: Prompt<()> = Prompt::Oneshot("q".to_string());
    let mut o = options();
    o.cwd = Some("/work".to_string());
    o.env = Some(vec![EnvVar { key: "DEBUG".to_string(), value: "1".to_string() }]);
    let cmd = assemble_command(&prompt, &o, "/usr/bin/cli".to_string(), true, None).unwrap();
    assert_eq!(cmd.program, "/usr/bin/cli");
    assert_eq!(
        cmd.args,
        texts(&["--output-format", "stream-json", "--verbose", "--debug-to-stderr", "--print", "--", "q"])
    );
    assert_eq!(cmd.stdin, StdinMode::Null);
    assert!(cmd.has_stderr);
    assert!(cmd.kill_on_drop);
    assert_eq!(cmd.cwd.as_deref(), Some("/work"));
    assert_eq!(
        cmd.env,
        vec![
            EnvVar { key: "CLAUDE_CODE_ENTRYPOINT".to_string(), value: "sdk-rs".to_string() },
            EnvVar { key: "DEBUG".to_string(), value: "1".to_string() },
        ]
    );
}

#[test]
fn a_script_is_run_under_the_runtime() {
    let prompt: Prompt<()> = Prompt::Stream(());
    let mut o = options();
    o.executable_args = Some(texts(&["--no-warnings"]));
    let cmd =
        assemble_command(&prompt, &o, "/opt/cli.mjs".to_string(), true, Some("web".to_string()))
            .unwrap();
    assert_eq!(cmd.program, "node");
    assert_eq!(
        cmd.args,
        texts(&[
            "--no-warnings",
            "/opt/cli.mjs",
            "--output-format",
            "stream-json",
            "--verbose",
            "--input-format",
            "stream-json",
        ])
    );
    assert_eq!(cmd.stdin, StdinMode::Piped);
    assert!(!cmd.has_stderr);
    assert_eq!(cmd.env[0].value, "web");
    o.executable = Some(Executable::Bun);
    let cmd = assemble_command(&prompt, &o, "/opt/cli.ts".to_string(), true, None).unwrap();
    assert_eq!(cmd.program, "bun");
}

#[test]
fn a_missing_file_is_an_error_that_names_it() {
    let prompt: Prompt<()> = Prompt::Stream(());
    let o = options();
    assert_eq!(
        assemble_command(&prompt, &o, "/opt/cli".to_string(), false, None),
        Err(SpawnError::NativeBinaryNotFound("/opt/cli".to_string()))
    );
    assert_eq!(
        assemble_command(&prompt, &o, "/opt/cli.js".to_string(), false, None),
        Err(SpawnError::ExecutableNotFound("/opt/cli.js".to_string()))
    );
}

#[test]
fn spawn_checks_options_before_it_looks_for_the_program() {
    let prompt: Prompt<()> = Prompt::Oneshot("q".to_string());
    let mut o = options();
    o.can_use_tool = Some(());
    o.path_to_claude_code_executable = Some("/definitely/not/here".to_string());
    assert_eq!(
        spawn_cc_cli(&prompt, &o, "cli", None),
        Err(SpawnError::CanUseToolRequiresStreaming)
    );
    o.can_use_tool = None;
    assert_eq!(
        spawn_cc_cli(&prompt, &o, "cli", None),
        Err(SpawnError::NativeBinaryNotFound("/definitely/not/here".to_string()))
    );
    o.path_to_claude_code_executable = None;
    assert_eq!(
        spawn_cc_cli(&prompt, &o, "no-such-program-on-any-path", None),
        Err(SpawnError::CommandNotFound("no-such-program-on-any-path".to_string()))
    );
}

#[test]
fn bare_names_are_commands_and_paths_are_not() {
    assert!(is_command("cli"));
    assert!(!is_command("./cli"));
    assert!(!is_command("/usr/bin/cli"));
    assert!(!is_command(""));
    assert_eq!(find_command_real_path("/usr/bin/cli"), Ok(None));
}

#[test]
fn scripts_are_told_by_their_extension() {
    assert!(is_native_binary("/usr/bin/cli"));
    for p in ["a.js", "a.mjs", "a.ts", "a.tsx", "a.jsx"] {
        assert!(!is_native_binary(p), "{}", p);
    }
    assert!(is_native_binary("a.json"));
    assert_eq!(default_claude_runtime(), Executable::Node);
    assert_eq!(Executable::Deno.as_str(), "deno");
    assert_eq!(PermissionMode::BypassPermissions.as_str(), "bypass-permissions");
    assert_eq!(PermissionMode::BypassPermissions.wire_name(), "bypassPermissions");
}

#[test]
fn a_string_is_a_oneshot_prompt() {
    let p: Prompt<()> = Prompt::my_from("q".to_string());
    assert!(p.is_oneshot());
    let s: Prompt<u8> = Prompt::Stream(3);
    assert!(!s.is_oneshot());
}

#[test]
fn text_helpers_compute_what_they_say() {
    assert_eq!(decimal_text(0), "0");
    assert_eq!(decimal_text(7), "7");
    assert_eq!(decimal_text(4294967295), "4294967295");
    assert_eq!(join_text(&texts(&[]), ","), "");
    assert_eq!(join_text(&texts(&["a"]), ","), "a");
    assert_eq!(join_text(&texts(&["a", "b", "c"]), ", "), "a, b, c");
    assert!(same_text("ab", "ab"));
    assert!(!same_text("ab", "abc"));
    assert!(env_contains(
        &Some(vec![EnvVar { key: "DEBUG".to_string(), value: String::new() }]),
        "DEBUG"
    ));
    assert!(!env_contains(&None, "DEBUG"));
}
