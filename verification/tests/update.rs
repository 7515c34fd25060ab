use vivo::update::{check_update_available, is_check_due, is_newer, parse_version};

#[test]
fn parse_version_handles_v_prefix() {
    assert_eq!(parse_version("v1.2.3"), Some((1, 2, 3)));
    assert_eq!(parse_version("1.2.3"), Some((1, 2, 3)));
}

#[test]
fn parse_version_returns_none_for_invalid() {
    assert_eq!(parse_version("not-a-version"), None);
}

#[test]
fn is_newer_returns_true_for_higher_minor() {
    assert!(is_newer("0.2.0", "0.1.0"));
}

#[test]
fn is_newer_returns_false_for_same_version() {
    assert!(!is_newer("0.1.0", "0.1.0"));
}

#[test]
fn is_newer_returns_false_for_older() {
    assert!(!is_newer("0.1.0", "0.2.0"));
}

#[test]
fn parse_version_edge_cases() {
    assert_eq!(parse_version("vv1.2.3"), Some((1, 2, 3)));
    assert_eq!(parse_version("1.2"), None);
    assert_eq!(parse_version("1.2.3.4"), None);
    assert_eq!(parse_version("+1.2.3"), Some((1, 2, 3)));
    assert_eq!(parse_version("1..3"), None);
    assert_eq!(parse_version("18446744073709551615.0.0"), Some((u64::MAX, 0, 0)));
    assert_eq!(parse_version("18446744073709551616.0.0"), None);
    assert_eq!(parse_version("1.2.x"), None);
}

#[test]
fn newer_is_a_strict_order_on_examples() {
    let vs = ["0.1.0", "0.1.1", "0.2.0", "1.0.0", "v1.0.1", "bad"];
    for a in vs {
        assert!(!is_newer(a, a));
        for b in vs {
            assert!(!(is_newer(a, b) && is_newer(b, a)));
            for c in vs {
                if is_newer(a, b) && is_newer(b, c) {
                    assert!(is_newer(a, c));
                }
            }
        }
    }
    assert!(is_newer("1.0.0", "0.99.99"));
    assert!(!is_newer("bad", "0.1.0"));
}

#[test]
fn check_due_when_no_file() {
    assert!(is_check_due("", 1_000_000));
}

#[test]
fn check_not_due_when_just_recorded() {
    let now: u64 = 1_750_000_000;
    assert!(!is_check_due(&now.to_string(), now));
}

#[test]
fn check_due_when_timestamp_is_old() {
    let now: u64 = 1_750_000_000;
    let two_days_ago = now.saturating_sub(172_800);
    assert!(is_check_due(&two_days_ago.to_string(), now));
}

#[test]
fn check_due_reads_trimmed_timestamps() {
    let now: u64 = 200_000;
    assert!(!is_check_due(" 150000\n", now));
    assert!(is_check_due("113600", now));
    assert!(!is_check_due("113601", now));
    assert!(is_check_due("garbage", now));
    assert!(!is_check_due("300000", now));
}

#[test]
fn update_offered_only_for_newer_release() {
    assert_eq!(check_update_available(Some("v0.11.0"), "0.10.1"), Some("0.11.0".to_string()));
    assert_eq!(check_update_available(Some("v0.10.1"), "0.10.1"), None);
    assert_eq!(check_update_available(None, "0.10.1"), None);
}

#[test]
fn update_dry_run_names_both_versions() {
    assert_eq!(vivo::update::update_dry_run_message("0.10.1", "v0.11.0"), "[dry-run] would update vivo v0.10.1 → v0.11.0");
    assert_eq!(vivo::update::update_dry_run_message("0.10.1", "0.11.0"), "[dry-run] would update vivo v0.10.1 → v0.11.0");
}

#[test]
fn update_failure_advises_sudo_when_permission_is_denied() {
    assert_eq!(
        vivo::update::update_failure_message("Permission denied (os error 13)"),
        "error: cannot replace binary — try: sudo vivo update"
    );
    assert_eq!(vivo::update::update_failure_message("network down"), "error: update failed: network down");
}

#[test]
fn maybe_check_update_records_the_time_only_when_due() {
    assert_eq!(vivo::update::maybe_check_update("", 100000), Some("100000".to_string()));
    assert_eq!(vivo::update::maybe_check_update("1000", 1001), None);
    assert_eq!(vivo::update::maybe_check_update("1000", 1000 + 86400), Some("87400".to_string()));
}
