use agent_terminal::agent_integration::{AgentProgram, AgentSnapshot, AgentState};

#[test]
fn process_detection_unwraps_node_launchers_of_codex_and_gemini() {
    assert_eq!(
        AgentProgram::from_process(
            "node.exe",
            &[
                "node.exe".into(),
                "C:/npm/node_modules/@openai/codex/bin/codex.js".into()
            ]
        ),
        Some(AgentProgram::Codex)
    );
    assert_eq!(
        AgentProgram::from_process(
            "node.exe",
            &[
                "node.exe".into(),
                "C:/npm/node_modules/@google/gemini-cli/dist/index.js".into()
            ]
        ),
        Some(AgentProgram::Gemini)
    );
}

#[test]
fn unrelated_runtime_is_not_an_agent() {
    assert_eq!(
        AgentProgram::from_process("node.exe", &["node.exe".into(), "server.js".into()]),
        None
    );
}

#[test]
fn visible_state_uses_herdr_style_screen_and_title_signals() {
    assert_eq!(
        AgentSnapshot::from_screen(
            AgentProgram::Codex,
            Some("Action Required"),
            "Approve this command"
        )
        .state,
        AgentState::Blocked
    );
    assert_eq!(
        AgentSnapshot::from_screen(AgentProgram::Claude, None, "Thinking…  esc to interrupt").state,
        AgentState::Working
    );
    assert_eq!(
        AgentSnapshot::from_screen(AgentProgram::Claude, None, "❯ ").state,
        AgentState::Idle
    );
}

#[test]
fn state_priority_puts_attention_before_activity() {
    let priority = |state| {
        AgentSnapshot {
            program: AgentProgram::Codex,
            state,
        }
        .priority()
    };
    assert!(priority(AgentState::Blocked) > priority(AgentState::Working));
    assert!(priority(AgentState::Working) > priority(AgentState::Idle));
    assert!(priority(AgentState::Idle) > priority(AgentState::Unknown));
}

#[test]
fn executables_are_named_without_directory_case_and_extension() {
    let nothing: [String; 0] = [];
    assert_eq!(
        AgentProgram::from_process("C:\\Tools\\CODEX.EXE", &nothing),
        Some(AgentProgram::Codex)
    );
    assert_eq!(
        AgentProgram::from_process("/usr/bin/gemini", &nothing),
        Some(AgentProgram::Gemini)
    );
    assert_eq!(
        AgentProgram::from_process("gemini-cli.js", &nothing),
        Some(AgentProgram::Gemini)
    );
    assert_eq!(
        AgentProgram::from_process("codex-x86_64-linux", &nothing),
        Some(AgentProgram::Codex)
    );
    assert_eq!(AgentProgram::from_process("gemini-desktop", &nothing), None);
    assert_eq!(
        AgentProgram::from_process(
            "node",
            &["C:\\NPM\\Gemini-CLI\\start".into(), "--x".into()]
        ),
        Some(AgentProgram::Gemini)
    );
}

#[test]
fn readiness_is_read_off_the_last_lines_and_the_title() {
    let state = |program, title, screen| AgentSnapshot::from_screen(program, title, screen).state;
    assert_eq!(
        state(AgentProgram::Codex, Some("\u{2809} thinking"), ""),
        AgentState::Working
    );
    assert_eq!(state(AgentProgram::Codex, Some("ready"), ""), AgentState::Idle);
    assert_eq!(state(AgentProgram::Codex, Some("  "), ""), AgentState::Unknown);
    assert_eq!(
        state(AgentProgram::Claude, Some("\u{2733} task"), ""),
        AgentState::Idle
    );
    assert_eq!(
        state(AgentProgram::Gemini, None, "a\r\n  > type here\r\n"),
        AgentState::Idle
    );
    assert_eq!(
        state(AgentProgram::Gemini, None, "> far\n1\n2\n3\n4\n5\n6\n7\n8\n"),
        AgentState::Unknown
    );
    assert_eq!(
        state(AgentProgram::Gemini, None, "> near\n2\n3\n4\n5\n6\n7\n8"),
        AgentState::Idle
    );
}

#[test]
fn agents_have_labels() {
    assert_eq!(AgentProgram::Codex.label(), "Codex");
    assert_eq!(AgentProgram::Gemini.label(), "Gemini CLI");
}
