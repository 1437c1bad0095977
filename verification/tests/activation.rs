use claude_codust::config::ConfigType;
use claude_codust::launch::{
    companion_command, find_claude_command, is_whitespace_char, launch_command, lookup_command,
    trim, CompanionCommand,
};
use claude_codust::orchestrator::{switch_configuration, Outcome, Step};

fn run(kind: ConfigType, fails_at: Option<Step>) -> Vec<Step> {
    let mut steps = vec![Step::Idle];
    let mut step = Step::Idle;
    while step != Step::Finished && step != Step::Aborted {
        let outcome = if fails_at == Some(step) { Outcome::Failed } else { Outcome::Succeeded };
        step = switch_configuration(kind, step, outcome);
        steps.push(step);
        assert!(steps.len() <= 8);
    }
    steps
}

#[test]
fn steps_of_the_first_kind() {
    assert_eq!(
        run(ConfigType::Claude, None),
        vec![
            Step::Idle,
            Step::Reconciling,
            Step::Launching,
            Step::Running,
            Step::Cleanup,
            Step::Pausing,
            Step::Finished
        ]
    );
}

#[test]
fn steps_of_the_router_kind() {
    assert_eq!(
        run(ConfigType::CodeRouter, None),
        vec![
            Step::Idle,
            Step::CopyingProfile,
            Step::RestartingCompanion,
            Step::Launching,
            Step::Running,
            Step::StoppingCompanion,
            Step::Pausing,
            Step::Finished
        ]
    );
}

#[test]
fn best_effort_steps_do_not_stop_the_activation() {
    assert_eq!(
        run(ConfigType::CodeRouter, Some(Step::RestartingCompanion)),
        run(ConfigType::CodeRouter, None)
    );
    assert_eq!(
        run(ConfigType::CodeRouter, Some(Step::StoppingCompanion)),
        run(ConfigType::CodeRouter, None)
    );
    assert_eq!(run(ConfigType::Claude, Some(Step::Cleanup)), run(ConfigType::Claude, None));
}

#[test]
fn other_failures_abort() {
    assert_eq!(
        run(ConfigType::Claude, Some(Step::Reconciling)),
        vec![Step::Idle, Step::Reconciling, Step::Aborted]
    );
    assert_eq!(
        run(ConfigType::CodeRouter, Some(Step::CopyingProfile)),
        vec![Step::Idle, Step::CopyingProfile, Step::Aborted]
    );
    for kind in [ConfigType::Claude, ConfigType::CodeRouter] {
        for step in [Step::Launching, Step::Running, Step::Pausing] {
            assert_eq!(switch_configuration(kind, step, Outcome::Failed), Step::Aborted);
            assert_eq!(*run(kind, Some(step)).last().unwrap(), Step::Aborted);
        }
    }
}

#[test]
fn resting_steps_stay() {
    for kind in [ConfigType::Claude, ConfigType::CodeRouter] {
        for outcome in [Outcome::Succeeded, Outcome::Failed] {
            assert_eq!(switch_configuration(kind, Step::Finished, outcome), Step::Finished);
            assert_eq!(switch_configuration(kind, Step::Aborted, outcome), Step::Aborted);
        }
    }
    assert_eq!(
        switch_configuration(ConfigType::Claude, Step::Idle, Outcome::Failed),
        Step::Reconciling
    );
}

#[test]
fn whitespace_is_what_the_standard_library_calls_whitespace() {
    for code in 0u32..0x3100 {
        if let Some(c) = char::from_u32(code) {
            assert_eq!(is_whitespace_char(c), c.is_whitespace(), "U+{:04X}", code);
        }
    }
    assert!(!is_whitespace_char('\u{FEFF}'));
    assert!(!is_whitespace_char('\u{10FFFF}'));
}

#[test]
fn trim_cases() {
    for text in [
        "",
        " ",
        "\n\t ",
        "a",
        " a",
        "a ",
        "  /usr/bin/tool\n",
        "\r\n a b \t",
        "\u{3000}é 日\u{85}",
        "a\u{200B}",
    ] {
        assert_eq!(trim(text), text.trim(), "{:?}", text);
    }
    assert_eq!(trim("  /usr/bin/tool\n"), "/usr/bin/tool");
}

#[test]
fn the_program_is_found_or_called_by_name() {
    assert_eq!(find_claude_command(Some("/usr/local/bin/tool\n"), "tool"), "/usr/local/bin/tool");
    assert_eq!(find_claude_command(Some("C:\\bin\\tool.cmd\r\n"), "tool"), "C:\\bin\\tool.cmd");
    assert_eq!(find_claude_command(Some(""), "tool"), "tool");
    assert_eq!(find_claude_command(Some(" \n"), "tool"), "tool");
    assert_eq!(find_claude_command(None, "tool"), "tool");
}

#[test]
fn shell_invocations() {
    assert_eq!(lookup_command(true), "where");
    assert_eq!(lookup_command(false), "which");

    let unix = launch_command(false, "/usr/bin/tool");
    assert_eq!(unix.program, "sh");
    assert_eq!(unix.args, vec!["-c", "/usr/bin/tool"]);
    let windows = launch_command(true, "tool");
    assert_eq!(windows.program, "cmd");
    assert_eq!(windows.args, vec!["/C", "tool"]);

    let restart = companion_command(false, CompanionCommand::Restart);
    assert_eq!(restart.program, "sh");
    assert_eq!(restart.args, vec!["-c", "ccr restart"]);
    let stop = companion_command(false, CompanionCommand::Stop);
    assert_eq!(stop.program, "sh");
    assert_eq!(stop.args, vec!["-c", "ccr stop"]);
    let restart = companion_command(true, CompanionCommand::Restart);
    assert_eq!(restart.program, "cmd");
    assert_eq!(restart.args, vec!["/C", "ccr", "restart"]);
    let stop = companion_command(true, CompanionCommand::Stop);
    assert_eq!(stop.program, "cmd");
    assert_eq!(stop.args, vec!["/C", "ccr", "stop"]);
}
