use cyril_core::hooks::{
    feedback_texts, gate_before, AfterStep, BeforeGate, BeforeStep, ExecOutcome, Hook,
    HookContext, HookPlan, HookRegistry, HookResult, HookTarget, HookTiming, PathValidationHook,
    ShellHook, ShellHookDef,
};

fn make_def(event: &str, command: &str, feedback: bool, pattern: Option<&str>) -> ShellHookDef {
    ShellHookDef {
        name: "test-hook".to_string(),
        event: event.to_string(),
        pattern: pattern.map(String::from),
        command: command.to_string(),
        feedback,
    }
}

fn make_hook(event: &str, command: &str, feedback: bool) -> ShellHook {
    make_hook_with_pattern(event, command, feedback, None)
}

fn make_hook_with_pattern(
    event: &str,
    command: &str,
    feedback: bool,
    pattern: Option<&str>,
) -> ShellHook {
    ShellHook::from_def(make_def(event, command, feedback, pattern)).expect("valid event string")
}

fn write_context(path: Option<String>) -> HookContext {
    HookContext {
        target: HookTarget::FsWrite,
        timing: HookTiming::Before,
        path,
        content: None,
        command: None,
    }
}

fn exited(success: bool, code: i32, output: &str) -> ExecOutcome {
    ExecOutcome::Exited { success, code, output: output.to_string() }
}

// ===== the per-hook verdicts, driven with command outcomes =====

#[test]
fn hook_successful_command_returns_continue() {
    let hook = make_hook("beforeWrite", "echo hello", false);
    let result = hook.conclude(&exited(true, 0, "hello\n"));
    assert!(matches!(result, HookResult::Continue));
}

#[test]
fn before_hook_failure_blocks() {
    let hook = make_hook("beforeWrite", "exit 1", false);
    let result = hook.conclude(&exited(false, 1, ""));
    assert!(
        matches!(result, HookResult::Blocked { .. }),
        "before-hook failure should block, got: {result:?}"
    );
}

#[test]
fn after_hook_failure_continues() {
    let hook = make_hook("afterWrite", "exit 1", false);
    let result = hook.conclude(&exited(false, 1, ""));
    assert!(
        matches!(result, HookResult::Continue),
        "after-hook failure should continue, got: {result:?}"
    );
}

#[test]
fn feedback_hook_returns_output() {
    let hook = make_hook("afterWrite", "echo 'lint passed'", true);
    let result = hook.conclude(&exited(true, 0, "lint passed\n"));
    match result {
        HookResult::FeedbackPrompt { text } => {
            assert!(text.contains("lint passed"), "expected output in feedback: {text}");
        },
        other => panic!("expected FeedbackPrompt, got: {other:?}"),
    }
}

#[test]
fn feedback_hook_failure_returns_feedback() {
    let hook = make_hook("beforeWrite", "echo 'bad format' >&2; exit 1", true);
    let result = hook.conclude(&exited(false, 1, "bad format\n"));
    match result {
        HookResult::FeedbackPrompt { text } => {
            assert!(text.contains("bad format"), "expected stderr in feedback: {text}");
        },
        other => panic!("expected FeedbackPrompt, got: {other:?}"),
    }
}

#[test]
fn feedback_hook_empty_output_returns_continue() {
    let hook = make_hook("afterWrite", "true", true);
    let result = hook.conclude(&exited(true, 0, ""));
    assert!(
        matches!(result, HookResult::Continue),
        "feedback hook with empty output should return Continue, got: {result:?}"
    );
}

#[test]
fn spawn_failure_blocks_before_and_passes_after() {
    let before = make_hook("beforeWrite", "nosuchbinary", false);
    let failed = ExecOutcome::SpawnFailed { error: "program not found".to_string() };
    assert!(matches!(before.conclude(&failed), HookResult::Blocked { .. }));
    let after = make_hook("afterWrite", "nosuchbinary", false);
    assert!(matches!(after.conclude(&failed), HookResult::Continue));
}

// ===== the glob filter (running the real pattern matcher) =====

#[test]
fn hook_glob_filters_non_matching_path() {
    let hook = make_hook_with_pattern("beforeWrite", "exit 1", false, Some("*.rs"));
    assert!(!hook.matches_path("src/main.py"));
    let plan = Hook::Shell(hook).plan(&write_context(Some("src/main.py".to_string())));
    assert!(
        matches!(plan, HookPlan::Skip),
        "non-matching glob should skip hook, got: {plan:?}"
    );
}

#[test]
fn hook_glob_matches_file() {
    let hook = make_hook_with_pattern("beforeWrite", "exit 1", false, Some("*.rs"));
    assert!(hook.matches_path("main.rs"));
    let plan = Hook::Shell(hook).plan(&write_context(Some("main.rs".to_string())));
    match plan {
        HookPlan::RunCommand(cmd) => assert_eq!(cmd, "exit 1"),
        other => panic!("matching glob should run the command, got: {other:?}"),
    }
}

#[test]
fn hook_glob_matches_filename_of_nested_path() {
    let hook = make_hook_with_pattern("beforeWrite", "exit 1", false, Some("*.rs"));
    // The filter tries the filename alone when the full path does not match.
    assert!(hook.matches_path("src/main.rs"));
}

#[test]
fn hook_invalid_glob_matches_nothing() {
    let def = ShellHookDef {
        name: "bad-glob".to_string(),
        event: "beforeWrite".to_string(),
        pattern: Some("[invalid".to_string()),
        command: "exit 1".to_string(),
        feedback: false,
    };
    let hook = ShellHook::from_def(def).unwrap();
    assert!(!hook.matches_path("anything.rs"));
    let plan = Hook::Shell(hook).plan(&write_context(Some("anything.rs".to_string())));
    assert!(
        matches!(plan, HookPlan::Skip),
        "invalid glob should match nothing (fail closed), got: {plan:?}"
    );
}

#[test]
fn glob_hook_runs_when_path_is_none() {
    // A glob-filtered hook given no path skips the filter step and runs.
    let hook = make_hook_with_pattern("beforeWrite", "exit 1", false, Some("*.rs"));
    let plan = Hook::Shell(hook).plan(&write_context(None));
    assert!(
        matches!(plan, HookPlan::RunCommand(_)),
        "glob-filtered hook with no path should still run, got: {plan:?}"
    );
}

#[test]
fn unknown_event_returns_none() {
    let def = ShellHookDef {
        name: "bad".to_string(),
        event: "onSomething".to_string(),
        pattern: None,
        command: "echo hi".to_string(),
        feedback: false,
    };
    assert!(ShellHook::from_def(def).is_none());
}

#[test]
fn file_placeholder_expanded() {
    let hook = make_hook("afterWrite", "cat ${file}", false);
    let ctx = HookContext {
        target: HookTarget::FsWrite,
        timing: HookTiming::After,
        path: Some("/tmp/test.txt".to_string()),
        content: None,
        command: None,
    };
    let expanded = hook.expand_command(&ctx);
    assert_eq!(expanded, "cat /tmp/test.txt");
}

#[test]
fn file_placeholder_left_when_path_is_none() {
    let hook = make_hook("afterWrite", "cat ${file}", false);
    let ctx = HookContext {
        target: HookTarget::FsWrite,
        timing: HookTiming::After,
        path: None,
        content: None,
        command: None,
    };
    let expanded = hook.expand_command(&ctx);
    assert_eq!(expanded, "cat ${file}");
}

// ===== registry dispatch =====

#[test]
fn before_dispatch_short_circuits_on_block() {
    let mut registry = HookRegistry::new();
    registry.register(Hook::Shell(make_hook("beforeWrite", "first", false)));
    registry.register(Hook::Shell(make_hook("beforeWrite", "second", false)));
    let ctx = write_context(None);

    // The first firing hook asks for its command.
    let step = registry.start_before(&ctx);
    let index = match step {
        BeforeStep::Run { index, ref command } => {
            assert_eq!(index, 0);
            assert_eq!(command, "first");
            index
        },
        other => panic!("expected a command request, got: {other:?}"),
    };

    // A failing outcome halts dispatch at once: the second hook never runs.
    let halted = registry.resume_before(&ctx, index, &exited(false, 2, "boom"));
    match halted {
        BeforeStep::Done(HookResult::Blocked { reason }) => {
            assert!(reason.contains("boom"));
            assert!(reason.contains("exit 2"));
        },
        other => panic!("expected Blocked, got: {other:?}"),
    }

    // A clean outcome moves on to the second hook.
    let moved_on = registry.resume_before(&ctx, index, &exited(true, 0, ""));
    match moved_on {
        BeforeStep::Run { index, ref command } => {
            assert_eq!(index, 1);
            assert_eq!(command, "second");
        },
        other => panic!("expected the second hook's command, got: {other:?}"),
    }
}

#[test]
fn before_dispatch_skips_other_targets_and_timings() {
    let mut registry = HookRegistry::new();
    registry.register(Hook::Shell(make_hook("afterWrite", "after", false)));
    registry.register(Hook::Shell(make_hook("beforeRead", "read", false)));
    registry.register(Hook::Shell(make_hook("beforeWrite", "write", false)));
    let step = registry.start_before(&write_context(None));
    match step {
        BeforeStep::Run { index, ref command } => {
            assert_eq!(index, 2);
            assert_eq!(command, "write");
        },
        other => panic!("expected the write hook's command, got: {other:?}"),
    }
}

#[test]
fn before_dispatch_continues_when_no_hook_fires() {
    let registry = HookRegistry::new();
    let step = registry.start_before(&write_context(None));
    assert!(matches!(step, BeforeStep::Done(HookResult::Continue)));
}

#[test]
fn after_dispatch_visits_every_hook() {
    let mut registry = HookRegistry::new();
    registry.register(Hook::Shell(make_hook("afterWrite", "first", false)));
    registry.register(Hook::Shell(make_hook("afterWrite", "second", true)));
    let ctx = HookContext {
        target: HookTarget::FsWrite,
        timing: HookTiming::After,
        path: None,
        content: None,
        command: None,
    };

    let mut collected: Vec<HookResult> = Vec::new();
    let mut step = registry.start_after(&ctx);
    loop {
        match step {
            AfterStep::Run { index, .. } => {
                // The first hook fails (After never blocks), the second
                // succeeds with output (feedback prompt).
                let outcome = if index == 0 {
                    exited(false, 1, "ignored failure")
                } else {
                    exited(true, 0, "lint output\n")
                };
                let verdict = registry.conclude_at(index, &outcome);
                if !matches!(verdict, HookResult::Continue) {
                    collected.push(verdict);
                }
                step = registry.next_after(&ctx, index + 1);
            },
            AfterStep::Note { index, result } => {
                collected.push(result);
                step = registry.next_after(&ctx, index + 1);
            },
            AfterStep::Done => break,
        }
    }

    // The failure was logged as Continue (dropped); only the feedback
    // prompt is collected, and dispatch reached both hooks.
    assert_eq!(collected.len(), 1);
    match &collected[0] {
        HookResult::FeedbackPrompt { text } => assert!(text.contains("lint output")),
        other => panic!("expected FeedbackPrompt, got: {other:?}"),
    }
}

#[test]
fn path_validation_hook_blocks_outside_root() {
    let hook = PathValidationHook { allowed_root: "/project".to_string() };
    let inside = hook.run(&write_context(Some("/project/src/main.rs".to_string())));
    assert!(matches!(inside, HookResult::Continue));
    let outside = hook.run(&write_context(Some("/etc/passwd".to_string())));
    match outside {
        HookResult::Blocked { reason } => {
            assert!(reason.contains("/etc/passwd"));
            assert!(reason.contains("/project"));
        },
        other => panic!("expected Blocked, got: {other:?}"),
    }
    // A sibling directory sharing the root's prefix is still outside.
    let sibling = hook.run(&write_context(Some("/projectile".to_string())));
    assert!(matches!(sibling, HookResult::Blocked { .. }));
    // No path means nothing to check.
    assert!(matches!(hook.run(&write_context(None)), HookResult::Continue));
}

// ===== the mediation gate =====

#[test]
fn gate_before_fails_on_block_and_feedback() {
    match gate_before(HookResult::Blocked { reason: "no".to_string() }) {
        BeforeGate::Fail { message } => assert_eq!(message, "no"),
        other => panic!("expected Fail, got: {other:?}"),
    }
    match gate_before(HookResult::FeedbackPrompt { text: "ask first".to_string() }) {
        BeforeGate::Fail { message } => assert_eq!(message, "ask first"),
        other => panic!("expected Fail, got: {other:?}"),
    }
    match gate_before(HookResult::ModifiedArgs { content: Some("new".to_string()) }) {
        BeforeGate::Proceed { content } => assert_eq!(content.as_deref(), Some("new")),
        other => panic!("expected Proceed, got: {other:?}"),
    }
    assert!(matches!(
        gate_before(HookResult::Continue),
        BeforeGate::Proceed { content: None }
    ));
}

#[test]
fn feedback_texts_keeps_prompt_order() {
    let results = vec![
        HookResult::FeedbackPrompt { text: "one".to_string() },
        HookResult::Blocked { reason: "ignored".to_string() },
        HookResult::FeedbackPrompt { text: "two".to_string() },
    ];
    let texts = feedback_texts(&results);
    assert_eq!(texts, vec!["one".to_string(), "two".to_string()]);
}
