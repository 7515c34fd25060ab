use vivo::config::{config_path_from, secrets_path_from, xdg_config_home, LoadConfigError, VivoConfig};
use vivo::step::Step;

#[test]
fn config_home_prefers_xdg() {
    assert_eq!(xdg_config_home(Some("/x"), "/home/u"), "/x");
    assert_eq!(xdg_config_home(None, "/home/u"), "/home/u/.config");
    assert_eq!(xdg_config_home(None, "/home/u/"), "/home/u/.config");
}

#[test]
fn config_and_secrets_paths() {
    assert_eq!(config_path_from(Some("/c.kdl"), Some("/e.kdl"), "/h"), "/c.kdl");
    assert_eq!(config_path_from(None, Some("/e.kdl"), "/h"), "/e.kdl");
    assert_eq!(config_path_from(None, None, "/h"), "/h/vivo/backup.kdl");
    assert_eq!(secrets_path_from(Some("/s.yaml"), "/h"), "/s.yaml");
    assert_eq!(secrets_path_from(None, "/h"), "/h/vivo/secrets.yaml");
    let cfg = VivoConfig { task_name: None, config_file: Some("/mine.kdl".to_string()), dry_run: false, start_step: Step::Backup };
    assert_eq!(cfg.get_config_path(None, "/h"), "/mine.kdl");
    assert_eq!(cfg.get_secrets_path(None, "/h"), "/h/vivo/secrets.yaml");
}

#[test]
fn load_errors_explain_themselves() {
    assert_eq!(
        LoadConfigError::ConfigMissing { path: "/c".to_string() }.message(),
        "could not read config '/c': No such file or directory"
    );
    assert_eq!(
        LoadConfigError::SecretsUndecryptable { path: "/s".to_string(), detail: "bad key".to_string() }.message(),
        "secrets file could not be decrypted \u{2014} run `vivo secrets edit` to fix\n  path: /s\n  bad key"
    );
    assert_eq!(LoadConfigError::Other("x".to_string()).message(), "x");
}

#[test]
fn config_template_is_a_starter_backup_task() {
    let t = vivo::config::config_template();
    assert!(t.starts_with("default-task \"backup\"\n"));
    assert!(t.contains("exclude-file \"$HOME/.config/vivo/excludes\""));
    assert!(t.contains("daily 7"));
    assert!(t.contains("yearly 2"));
}
