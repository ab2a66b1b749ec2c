use cyril_core::kiro_ext::{KiroCommandMeta, KiroCommandsPayload, KiroExtCommand};

#[test]
fn is_executable_no_meta_returns_true() {
    let cmd = KiroExtCommand {
        name: "/compact".into(),
        description: String::new(),
        input_hint: None,
        meta: None,
    };
    assert!(cmd.is_executable());
}

#[test]
fn is_executable_local_command_returns_false() {
    let cmd = KiroExtCommand {
        name: "/quit".into(),
        description: String::new(),
        input_hint: None,
        meta: Some(KiroCommandMeta { input_type: None, options_method: None, local: true }),
    };
    assert!(!cmd.is_executable());
}

#[test]
fn is_executable_selection_input_type_returns_false() {
    let cmd = KiroExtCommand {
        name: "/model".into(),
        description: String::new(),
        input_hint: None,
        meta: Some(KiroCommandMeta {
            input_type: Some("selection".into()),
            options_method: Some("_kiro.dev/commands/model/options".into()),
            local: false,
        }),
    };
    assert!(!cmd.is_executable());
}

#[test]
fn is_executable_panel_input_type_returns_true() {
    let cmd = KiroExtCommand {
        name: "/context".into(),
        description: String::new(),
        input_hint: None,
        meta: Some(KiroCommandMeta {
            input_type: Some("panel".into()),
            options_method: None,
            local: false,
        }),
    };
    assert!(cmd.is_executable());
}

fn bare_command(name: &str) -> KiroExtCommand {
    KiroExtCommand {
        name: name.to_string(),
        description: String::new(),
        input_hint: None,
        meta: None,
    }
}

#[test]
fn payload_wrapped_shape() {
    let payload = KiroCommandsPayload::Wrapped { commands: vec![bare_command("/compact")] };
    let cmds = payload.commands();
    assert_eq!(cmds.len(), 1);
    assert_eq!(cmds[0].name, "/compact");
}

#[test]
fn payload_acp_style_shape() {
    let payload = KiroCommandsPayload::AcpStyle { commands: vec![bare_command("/help")] };
    let cmds = payload.commands();
    assert_eq!(cmds.len(), 1);
    assert_eq!(cmds[0].name, "/help");
}

#[test]
fn payload_bare_array_shape() {
    let payload = KiroCommandsPayload::Bare(vec![bare_command("/context")]);
    let cmds = payload.commands();
    assert_eq!(cmds.len(), 1);
    assert_eq!(cmds[0].name, "/context");
}
