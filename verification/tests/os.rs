use rustychain::error::Error;
use rustychain::os::{
    default_timeout, finished_result, input_step, outcome, time_limit, timed_out_result,
    CommandArgs, CommandRun, CommandTool, InputAction, InputStep, SignalArgs, SignalTool,
};

#[test]
fn test_input_detection() {
    let tool = CommandTool::new();

    assert!(tool.needs_input("Password:", &[]));
    assert!(tool.needs_input("Continue? [y/n]", &[]));
    assert!(tool.needs_input("[sudo] password for user:", &[]));
    assert!(tool.needs_input("Are you sure you want to continue?", &[]));
    assert!(!tool.needs_input("Processing files...", &[]));

    // Custom patterns
    assert!(tool.needs_input("custom prompt here", &["custom prompt".to_string()]));
}

#[test]
fn input_detection_with_tool_patterns_ignores_case() {
    let tool = CommandTool::new().with_additional_patterns(vec!["Ready To Go".to_string()]);
    assert!(tool.needs_input("ready to go now", &[]));
    assert!(tool.needs_input("READY TO GO", &[]));
    assert!(!CommandTool::new().needs_input("ready to go now", &[]));
    assert!(tool.needs_input("Type MAGIC", &["magic".to_string()]));
}

#[test]
fn test_default_timeout() {
    assert_eq!(default_timeout(), 300);
}

fn command(command: &str, args: &[&str], use_shell: bool) -> CommandArgs {
    CommandArgs {
        command: command.to_string(),
        args: args.iter().map(|a| a.to_string()).collect(),
        working_dir: None,
        env: vec![],
        timeout_secs: 10,
        background: false,
        use_shell,
        custom_input_patterns: vec![],
    }
}

#[test]
fn command_lines() {
    let direct = CommandTool::command_line(&command("echo", &["hello", "world"], false), false);
    assert_eq!(direct.program, "echo");
    assert_eq!(direct.args, vec!["hello".to_string(), "world".to_string()]);

    let shell = CommandTool::command_line(&command("echo", &["hello", "world"], true), false);
    assert_eq!(shell.program, "sh");
    assert_eq!(shell.args, vec!["-c".to_string(), "echo hello world".to_string()]);

    let bare = CommandTool::command_line(&command("echo hello && echo world", &[], true), true);
    assert_eq!(bare.program, "cmd");
    assert_eq!(bare.args, vec!["/C".to_string(), "echo hello && echo world".to_string()]);
}

#[test]
fn input_steps() {
    match input_step(InputAction::Provide("yes".to_string())) {
        InputStep::Write(w) => assert_eq!(w, "yes\n"),
        other => panic!("unexpected step {:?}", other),
    }
    match input_step(InputAction::Provide("no\n".to_string())) {
        InputStep::Write(w) => assert_eq!(w, "no\n"),
        other => panic!("unexpected step {:?}", other),
    }
    match input_step(InputAction::Cancel) {
        InputStep::Cancel(r) => assert_eq!(r, "Cancelled by callback"),
        other => panic!("unexpected step {:?}", other),
    }
    assert!(matches!(input_step(InputAction::Skip), InputStep::Continue));
    assert!(matches!(input_step(InputAction::Interrupt), InputStep::Interrupt));
    assert!(matches!(input_step(InputAction::SendEof), InputStep::CloseStdin));
}

#[test]
fn outcomes() {
    let t = timed_out_result("out".to_string(), String::new(), 1000);
    assert!(t.timed_out && t.killed && t.exit_code.is_none());
    let o = outcome(&t);
    assert_eq!(o.status, "timeout");
    assert_eq!(o.message, Some("Command timed out".to_string()));

    let c = finished_result(String::new(), String::new(), None, Some("Cancelled by callback".to_string()), 5);
    assert!(c.killed && !c.timed_out);
    let o = outcome(&c);
    assert_eq!(o.status, "cancelled");
    assert_eq!(o.message, Some("Cancelled by callback".to_string()));

    let ok = finished_result("hello\n".to_string(), String::new(), Some(0), None, 5);
    assert!(!ok.killed);
    assert_eq!(outcome(&ok).status, "success");
    assert_eq!(outcome(&ok).message, None);

    let failed = finished_result(String::new(), String::new(), Some(1), None, 5);
    assert_eq!(outcome(&failed).status, "error");
    assert_eq!(outcome(&failed).message.as_deref(), Some("Command exited with code Some(1)"));
    let signalled = finished_result(String::new(), String::new(), None, None, 5);
    assert_eq!(outcome(&signalled).message.as_deref(), Some("Command exited with code None"));
    let negative = finished_result(String::new(), String::new(), Some(-2), None, 5);
    assert_eq!(outcome(&negative).message.as_deref(), Some("Command exited with code Some(-2)"));
}

#[test]
fn signal_names() {
    let sig = |s: &str| SignalTool::signal_number(&SignalArgs { pid: 1, signal: s.to_string() });
    assert_eq!(sig("KILL").unwrap(), "9");
    assert_eq!(sig("sigterm").unwrap(), "15");
    assert_eq!(sig("Int").unwrap(), "2");
    assert_eq!(sig("19").unwrap(), "19");
    assert_eq!(sig("cont").unwrap(), "18");
    assert_eq!(sig("SIGHUP").unwrap(), "1");
    assert_eq!(sig("usr1").unwrap(), "10");
    assert_eq!(sig("sigusr2").unwrap(), "12");
    match sig("bogus") {
        Err(Error::Generic(m)) => assert_eq!(m, "Unknown signal: bogus"),
        other => panic!("unexpected {:?}", other),
    }
}

#[test]
fn a_zero_timeout_means_no_limit() {
    assert_eq!(time_limit(0), None);
    assert_eq!(time_limit(30), Some(30));
}

#[test]
fn a_run_gathers_its_output_and_reports_cancellation() {
    let mut run = CommandRun::new();
    run.record_stdout("Continue? [y/n]\n");
    run.record_stderr("warn\n");
    run.record_stdout("done\n");
    let args = command("apt", &["install", "x"], false);
    let ctx = run.context("Continue? [y/n]\n".to_string(), &args, 12, Some("[y/n]".to_string()));
    assert_eq!(ctx.stdout_so_far, "Continue? [y/n]\ndone\n");
    assert_eq!(ctx.stderr_so_far, "warn\n");
    assert_eq!(ctx.command, "apt");
    assert_eq!(ctx.args, vec!["install".to_string(), "x".to_string()]);
    assert_eq!(ctx.elapsed_ms, 12);
    assert!(matches!(run.answer(InputAction::Provide("y".to_string())), InputStep::Write(ref w) if w == "y\n"));
    assert!(matches!(run.answer(InputAction::Cancel), InputStep::Cancel(ref r) if r == "Cancelled by callback"));
    let r = run.finished(None, 40);
    assert!(r.killed && !r.timed_out);
    assert_eq!(r.cancel_reason.as_deref(), Some("Cancelled by callback"));
    assert_eq!(r.stdout, "Continue? [y/n]\ndone\n");
}

#[test]
fn an_uncancelled_run_is_not_killed_and_a_timed_out_one_is() {
    let mut run = CommandRun::new();
    run.record_stdout("a\n");
    let r = run.finished(Some(0), 5);
    assert!(!r.killed && r.cancel_reason.is_none() && r.exit_code == Some(0));
    let mut late = CommandRun::new();
    late.record_stderr("slow\n");
    let t = late.timed_out(9);
    assert!(t.timed_out && t.killed && t.exit_code.is_none() && t.cancel_reason.is_none());
    assert_eq!(t.stderr, "slow\n");
}

#[test]
fn only_prompt_lines_reach_the_callback_with_their_pattern() {
    let tool = CommandTool::new();
    let mut run = CommandRun::new();
    run.record_stdout("Processing files...\n");
    let mut args = command("installer", &["--go"], false);
    args.custom_input_patterns = vec!["Proceed Now".to_string()];
    assert!(tool.prompt_context(&run, "Processing files...\n", &args, 3).is_none());
    let ctx = tool.prompt_context(&run, "Continue? [y/n]\n", &args, 7).unwrap();
    assert_eq!(ctx.prompt, "Continue? [y/n]\n");
    assert_eq!(ctx.matched_pattern.as_deref(), Some("[y/n]"));
    assert_eq!(ctx.stdout_so_far, "Processing files...\n");
    assert_eq!(ctx.command, "installer");
    assert_eq!(ctx.elapsed_ms, 7);
    let custom = tool.prompt_context(&run, "please PROCEED now", &args, 9).unwrap();
    assert_eq!(custom.matched_pattern.as_deref(), Some("Proceed Now"));
}
