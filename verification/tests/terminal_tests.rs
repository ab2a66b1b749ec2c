use cyril_core::terminal::{cap_output, Shell, TerminalId, TerminalManager};

#[test]
fn terminal_id_display_format() {
    let id = TerminalId::new(42);
    assert_eq!(id.as_str(), "term-42");
    assert_eq!(id.0, "term-42");
}

#[test]
fn terminal_id_from_str_roundtrip() {
    let id: TerminalId = "term-7".parse().expect("infallible");
    assert_eq!(id.as_str(), "term-7");
}

#[test]
fn create_terminal_and_get_output() {
    let mut manager = TerminalManager::new(Shell::Cmd);

    let (id, spawn) = manager.create_terminal("echo hello");
    assert_eq!(id.as_str(), "term-0");
    assert_eq!(spawn.command, "echo hello");
    assert_eq!(spawn.program, "cmd.exe");
    assert_eq!(spawn.flag, "/C");

    // The driver pumps captured chunks into the manager.
    manager.append_output(&id, "hello\r\n").expect("append failed");

    let output = manager.get_output(&id).expect("get_output failed");
    assert!(output.contains("hello"), "expected 'hello' in output: {output}");

    // A second poll yields only what arrived since.
    let empty = manager.get_output(&id).expect("get_output failed");
    assert_eq!(empty, "");

    manager.release(&id).expect("release failed");
}

#[test]
fn release_unknown_terminal_returns_error() {
    let mut manager = TerminalManager::new(Shell::Cmd);
    let unknown = TerminalId::new(999);
    let result = manager.release(&unknown);
    assert!(result.is_err());
}

#[test]
fn get_output_unknown_terminal_returns_error() {
    let mut manager = TerminalManager::new(Shell::Cmd);
    let unknown = TerminalId::new(999);
    let result = manager.get_output(&unknown);
    assert!(result.is_err());
}

#[test]
fn cap_output_no_op_when_under_limit() {
    let mut buf = "hello".to_string();
    cap_output(&mut buf, 100);
    assert_eq!(buf, "hello");
}

#[test]
fn cap_output_truncates_and_adds_prefix() {
    let mut buf = "a".repeat(200);
    cap_output(&mut buf, 100);
    assert!(buf.starts_with("[output truncated]\n"));
    assert!(buf.len() <= 100);
}

#[test]
fn cap_output_respects_multibyte_char_boundaries() {
    // Each emoji is 4 bytes; fill the buffer to force truncation
    // mid-character.
    let mut buf = "\u{1F600}".repeat(100);
    cap_output(&mut buf, 50);
    assert!(buf.starts_with("[output truncated]\n"));
    // The result is valid text by construction; stay within the cap, with
    // room for one character of boundary rounding.
    assert!(buf.len() <= 50 + 4);
}

#[test]
fn cap_output_keeps_most_recent_content() {
    let mut buf = format!("{}{}", "x".repeat(500), "TAIL");
    cap_output(&mut buf, 100);
    assert!(buf.ends_with("TAIL"));
}

#[test]
fn terminal_ids_are_sequential_and_never_reused() {
    let mut manager = TerminalManager::new(Shell::Pwsh);
    let (first, _) = manager.create_terminal("one");
    let (second, _) = manager.create_terminal("two");
    assert_eq!(first.as_str(), "term-0");
    assert_eq!(second.as_str(), "term-1");

    // Releasing never recycles an id.
    manager.release(&first).expect("release failed");
    let (third, _) = manager.create_terminal("three");
    assert_eq!(third.as_str(), "term-2");

    // The released id stays dead.
    assert!(manager.get_output(&first).is_err());
    assert!(manager.append_output(&first, "x").is_err());
    assert!(manager.release(&first).is_err());
    assert!(!manager.contains(&first));
    assert!(manager.contains(&second));
}

#[test]
fn append_accumulates_between_polls() {
    let mut manager = TerminalManager::new(Shell::PowerShell);
    let (id, spawn) = manager.create_terminal("dir");
    assert_eq!(spawn.program, "powershell");
    assert_eq!(spawn.flag, "-Command");
    manager.append_output(&id, "part one ").expect("append failed");
    manager.append_output(&id, "part two").expect("append failed");
    let output = manager.get_output(&id).expect("get_output failed");
    assert_eq!(output, "part one part two");
}
