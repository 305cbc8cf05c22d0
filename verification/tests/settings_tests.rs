use schedules_runner::settings::Settings;
use schedules_runner::settings::SettingsError;

fn s(x: &str) -> String {
    x.to_string()
}

#[test]
fn settings_all_fields_populated() {
    let r = Settings::new(None, Some(s("http://sched")), Some(s("tok")), Some(s("logs/")));
    let v = r.unwrap();
    assert_eq!(v.server, "http://sched");
    assert_eq!(v.token, "tok");
    assert_eq!(v.logs, "logs/");
    assert!(!v.server.is_empty() && !v.token.is_empty() && !v.logs.is_empty());
}

#[test]
fn settings_cli_token_overrides_config() {
    let r = Settings::new(Some(s("cli-tok")), Some(s("srv")), Some(s("cfg-tok")), Some(s("l/")));
    assert_eq!(r.unwrap().token, "cli-tok");
}

#[test]
fn settings_cli_token_without_config_token() {
    let r = Settings::new(Some(s("cli-tok")), Some(s("srv")), None, Some(s("l/")));
    assert_eq!(r.unwrap().token, "cli-tok");
}

#[test]
fn settings_absent_token_fails() {
    let r = Settings::new(None, Some(s("srv")), None, Some(s("l/")));
    assert_eq!(r.unwrap_err(), SettingsError::MissingToken);
}

#[test]
fn settings_empty_token_fails() {
    let r = Settings::new(None, Some(s("srv")), Some(s("")), Some(s("l/")));
    assert_eq!(r.unwrap_err(), SettingsError::MissingToken);
}

#[test]
fn settings_empty_cli_token_fails() {
    let r = Settings::new(Some(s("")), Some(s("srv")), Some(s("cfg-tok")), Some(s("l/")));
    assert_eq!(r.unwrap_err(), SettingsError::MissingToken);
}

#[test]
fn settings_missing_server_fails() {
    let r = Settings::new(None, None, Some(s("tok")), Some(s("l/")));
    assert_eq!(r.unwrap_err(), SettingsError::MissingServer);
    let r2 = Settings::new(None, Some(s("")), Some(s("tok")), Some(s("l/")));
    assert_eq!(r2.unwrap_err(), SettingsError::MissingServer);
}

#[test]
fn settings_missing_logs_fails() {
    let r = Settings::new(None, Some(s("srv")), Some(s("tok")), None);
    assert_eq!(r.unwrap_err(), SettingsError::MissingLogs);
    let r2 = Settings::new(None, Some(s("srv")), Some(s("tok")), Some(s("")));
    assert_eq!(r2.unwrap_err(), SettingsError::MissingLogs);
}
