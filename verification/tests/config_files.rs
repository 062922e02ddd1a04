use refac::config_files::{default_model, Config, Secrets};

#[test]
fn default_model_is_o1() {
    assert_eq!(default_model(), "o1");
    assert_eq!(Config::default().model, "o1");
}

#[test]
fn environment_overrides_the_stored_model() {
    let stored = Config { model: "stored".to_string() };
    assert_eq!(Config::resolve(Some(stored), Some("env".to_string())).model, "env");
    assert_eq!(Config::resolve(None, Some("env".to_string())).model, "env");
}

#[test]
fn stored_model_overrides_the_default() {
    let stored = Config { model: "stored".to_string() };
    assert_eq!(Config::resolve(Some(stored), None).model, "stored");
    assert_eq!(Config::resolve(None, None).model, "o1");
}

#[test]
fn secrets_hold_the_key() {
    let secrets = Secrets { openai_api_key: "SECRET-REDACTED".to_string() };
    assert_eq!(secrets.openai_api_key, "SECRET-REDACTED");
}
