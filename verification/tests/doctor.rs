use vivo::config::Secrets;
use vivo::doctor::{
    age_keys_path, check_age_key, check_config, check_remote_connectivity, check_restic_password,
    check_secrets_present, check_tool_present, connectivity_command, doctor_report, result_line, CheckResult,
    CheckStatus,
};

#[test]
fn check_tool_present_fails_for_nonexistent() {
    let r = check_tool_present("__no_such_tool_xyz__", None, "hint");
    assert!(matches!(r.status, CheckStatus::Fail));
}

#[test]
fn check_tool_present_reports_version() {
    let r = check_tool_present("restic", Some("restic 0.17.0"), "hint");
    assert!(matches!(r.status, CheckStatus::Pass));
    assert_eq!(r.label, "restic (restic 0.17.0)");
    assert!(r.detail.is_none());
}

fn secrets_with(pw: &str) -> Secrets {
    Secrets { restic_password: pw.to_string(), credentials: vec![] }
}

#[test]
fn check_restic_password_fails_for_placeholder() {
    assert!(matches!(check_restic_password(&secrets_with("change-me")).status, CheckStatus::Fail));
    assert!(matches!(check_restic_password(&secrets_with("")).status, CheckStatus::Fail));
}

#[test]
fn check_restic_password_ok_for_real_password() {
    assert!(matches!(check_restic_password(&secrets_with("hunter2")).status, CheckStatus::Pass));
}

#[test]
fn age_key_checks_and_path() {
    assert_eq!(age_keys_path(Some("/k.txt"), "/home/u/.config"), "/k.txt");
    assert_eq!(age_keys_path(None, "/home/u/.config"), "/home/u/.config/sops/age/keys.txt");
    let ok = check_age_key("/k.txt", true);
    assert!(matches!(ok.status, CheckStatus::Pass));
    assert_eq!(ok.label, "age key (/k.txt)");
    let missing = check_age_key("/k.txt", false);
    assert!(matches!(missing.status, CheckStatus::Fail));
    assert_eq!(missing.detail.as_deref(), Some("not found at /k.txt \u{2014} run: age-keygen -o /k.txt"));
}

#[test]
fn config_and_secrets_checks_report_each_failure() {
    let r = check_config("/c.kdl", &Err("No such file".to_string()));
    assert!(matches!(r.status, CheckStatus::Fail));
    assert_eq!(r.label, "config (/c.kdl)");
    assert_eq!(r.detail.as_deref(), Some("No such file \u{2014} run `vivo config init`"));
    assert!(matches!(check_config("/c.kdl", &Ok(Err("bad".to_string()))).status, CheckStatus::Fail));
    assert!(matches!(check_config("/c.kdl", &Ok(Ok(()))).status, CheckStatus::Pass));

    let s = check_secrets_present("/s.yaml", &Ok(Err("oops".to_string())));
    assert_eq!(s.detail.as_deref(), Some("parse error: oops"));
    assert!(matches!(check_secrets_present("/s.yaml", &Ok(Ok(secrets_with("x")))).status, CheckStatus::Pass));
    let d = check_secrets_present("/s.yaml", &Err("no key".to_string()));
    assert_eq!(d.detail.as_deref(), Some("no key \u{2014} run `vivo secrets init`"));
}

#[test]
fn connectivity_probe_and_results() {
    let b2 = connectivity_command("b2:bucket:path", "pw").unwrap();
    assert_eq!(b2.program, "b2");
    assert_eq!(b2.args, vec!["ls", "bucket"]);
    let s3 = connectivity_command("s3:http://h/b", "pw").unwrap();
    assert_eq!(s3.program, "restic");
    assert_eq!(s3.args, vec!["snapshots", "--repo", "s3:http://h/b", "--no-lock"]);
    assert_eq!(s3.env, vec![("RESTIC_PASSWORD".to_string(), "pw".to_string())]);
    assert!(connectivity_command("sftp:x", "pw").is_none());

    let no_creds = check_remote_connectivity("b2:b", "b2", false, &Some(Ok(true)));
    assert!(matches!(no_creds.status, CheckStatus::Warn));
    assert_eq!(no_creds.detail.as_deref(), Some("credentials profile 'b2' not in secrets"));
    assert!(matches!(check_remote_connectivity("b2:b", "b2", true, &Some(Ok(true))).status, CheckStatus::Pass));
    let failed = check_remote_connectivity("b2:b", "b2", true, &Some(Ok(false)));
    assert_eq!(failed.detail.as_deref(), Some("connection timed out or failed \u{2014} check B2 credentials"));
    let unsupported = check_remote_connectivity("sftp:x", "p", true, &None);
    assert_eq!(
        unsupported.detail.as_deref(),
        Some("unsupported remote prefix \u{2014} skipping connectivity check")
    );
}

fn result(status: CheckStatus, label: &str, detail: Option<&str>) -> CheckResult {
    CheckResult { label: label.to_string(), status, detail: detail.map(|d| d.to_string()) }
}

#[test]
fn result_lines_and_summary() {
    assert_eq!(result_line(&result(CheckStatus::Pass, "restic", None)), "  [ok]   restic");
    assert_eq!(result_line(&result(CheckStatus::Fail, "sops", Some("install"))), "  [fail] sops \u{2014} install");
    let (lines, summary, code) = doctor_report(
        &vec![result(CheckStatus::Pass, "a", None), result(CheckStatus::Fail, "b", Some("x"))],
        &vec![result(CheckStatus::Warn, "remote r", Some("w"))],
    );
    assert_eq!(lines.len(), 3);
    assert_eq!(lines[2], "  [warn] remote r \u{2014} w");
    assert_eq!(summary, "1 required check(s) failed, 1 warning(s). Fix required checks first.");
    assert_eq!(code, 1);
    let (_, summary, code) = doctor_report(&vec![result(CheckStatus::Pass, "a", None)], &vec![]);
    assert_eq!(summary, "All checks passed.");
    assert_eq!(code, 0);
    let (_, summary, code) = doctor_report(&vec![], &vec![result(CheckStatus::Warn, "r", None)]);
    assert_eq!(summary, "1 warning(s). Run `vivo doctor` again after resolving.");
    assert_eq!(code, 0);
}

#[test]
fn check_age_key_fails_when_missing() {
    let r = check_age_key("/tmp/__vivo_test_no_such_key__.txt", false);
    assert!(matches!(r.status, CheckStatus::Fail));
}

#[test]
fn check_age_key_ok_when_file_exists() {
    let r = check_age_key("/tmp/key.txt", true);
    assert!(matches!(r.status, CheckStatus::Pass));
}

#[test]
fn check_config_fails_for_missing_file() {
    let read_error = Err("No such file or directory (os error 2)".to_string());
    let r = check_config("/tmp/__vivo_no_such_config__.kdl", &read_error);
    assert!(matches!(r.status, CheckStatus::Fail));
}

#[test]
fn check_config_fails_for_invalid_kdl() {
    let parse_error = Ok(Err("this is not valid kdl {{: unexpected end of input".to_string()));
    let r = check_config("/tmp/config.kdl", &parse_error);
    assert!(matches!(r.status, CheckStatus::Fail));
}

#[test]
fn check_config_ok_for_valid_kdl() {
    let r = check_config("/tmp/config.kdl", &Ok(Ok(())));
    assert!(matches!(r.status, CheckStatus::Pass));
}

#[test]
fn any_failed_sees_only_failures() {
    let r = |status| CheckResult { label: "x".to_string(), status, detail: None };
    assert!(!vivo::doctor::any_failed(&vec![r(CheckStatus::Pass), r(CheckStatus::Warn)]));
    assert!(vivo::doctor::any_failed(&vec![r(CheckStatus::Warn), r(CheckStatus::Fail)]));
    assert!(!vivo::doctor::any_failed(&Vec::new()));
}

#[test]
fn age_public_key_is_read_from_its_comment_line() {
    let file = "# created: 2024-01-01T00:00:00Z\r\n# public key: age1abc\r\nAGE-SECRET-KEY-1XYZ\n";
    assert_eq!(vivo::doctor::age_public_key(file), Some("age1abc".to_string()));
    assert_eq!(vivo::doctor::age_public_key("# public key: age1last"), Some("age1last".to_string()));
    assert_eq!(vivo::doctor::age_public_key("AGE-SECRET-KEY-1XYZ\n"), None);
    assert_eq!(vivo::doctor::age_public_key(""), None);
}

#[test]
fn first_line_of_tool_output() {
    assert_eq!(vivo::doctor::first_line("restic 0.17.0 compiled\nmore\n"), Some("restic 0.17.0 compiled".to_string()));
    assert_eq!(vivo::doctor::first_line("sops 3.9.0\r\n"), Some("sops 3.9.0".to_string()));
    assert_eq!(vivo::doctor::first_line("\nsecond"), Some("".to_string()));
    assert_eq!(vivo::doctor::first_line(""), None);
}
