use cyril_core::session::{AvailableMode, ConfigOption, ModeState, SessionContext};

fn select_option(id: &str, value: &str) -> ConfigOption {
    ConfigOption { id: id.to_string(), current_value: Some(value.to_string()) }
}

#[test]
fn new_session_has_no_id() {
    let ctx = SessionContext::new("/tmp".to_string());
    assert!(ctx.id.is_none());
    assert!(ctx.available_modes.is_empty());
    assert!(ctx.config_options.is_empty());
    assert!(ctx.current_mode_id.is_none());
    assert!(ctx.current_model().is_none());
}

#[test]
fn set_session_id_stores_id() {
    let mut ctx = SessionContext::new("/tmp".to_string());
    ctx.set_session_id("test-session-123".to_string());
    assert!(ctx.id.is_some());
    assert_eq!(ctx.id.unwrap(), "test-session-123");
}

#[test]
fn current_model_returns_none_when_no_config() {
    let ctx = SessionContext::new("/tmp".to_string());
    assert!(ctx.current_model().is_none());
}

#[test]
fn current_model_returns_value_from_config_options() {
    let mut ctx = SessionContext::new("/tmp".to_string());
    let option = select_option("model", "alpha-model-2");
    ctx.set_config_options(vec![option]);
    assert_eq!(ctx.current_model(), Some("alpha-model-2"));
}

#[test]
fn set_modes_populates_available_modes() {
    let mut ctx = SessionContext::new("/tmp".to_string());
    let modes = ModeState {
        current_mode_id: "code".to_string(),
        available_modes: vec![
            AvailableMode { id: "code".to_string(), name: "Code".to_string() },
            AvailableMode { id: "chat".to_string(), name: "Chat".to_string() },
        ],
    };
    ctx.set_modes(&modes);
    assert_eq!(ctx.current_mode_id.as_deref(), Some("code"));
    assert_eq!(ctx.available_modes.len(), 2);
    assert_eq!(ctx.available_modes[0].id, "code");
    assert_eq!(ctx.available_modes[0].name, "Code");
    assert_eq!(ctx.available_modes[1].id, "chat");
    assert_eq!(ctx.available_modes[1].name, "Chat");
}

#[test]
fn set_optimistic_model_updates_cached_value() {
    let mut ctx = SessionContext::new("/tmp".to_string());
    assert!(ctx.current_model().is_none());
    ctx.set_optimistic_model("alpha-model-2".to_string());
    assert_eq!(ctx.current_model(), Some("alpha-model-2"));
}

#[test]
fn set_config_options_caches_model() {
    let mut ctx = SessionContext::new("/tmp".to_string());
    ctx.set_config_options(vec![select_option("model", "beta-model-1")]);

    // current_model() returns the cached value without recomputing.
    assert_eq!(ctx.current_model(), Some("beta-model-1"));

    // Storing options without a model clears the cache.
    ctx.set_config_options(vec![select_option("thought_level", "high")]);
    assert!(ctx.current_model().is_none());
}
