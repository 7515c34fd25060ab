use std::str::FromStr;
use vivo::step::Step;

#[test]
fn parses_all_steps() {
    assert_eq!(Step::from_str("backup").unwrap(), Step::Backup);
    assert_eq!(Step::from_str("check").unwrap(), Step::Check);
    assert_eq!(Step::from_str("forget").unwrap(), Step::Forget);
    assert_eq!(Step::from_str("sync").unwrap(), Step::Sync);
}

#[test]
fn parses_case_insensitive() {
    assert_eq!(Step::from_str("CHECK").unwrap(), Step::Check);
    assert_eq!(Step::from_str("Forget").unwrap(), Step::Forget);
}

#[test]
fn ordering() {
    assert!(Step::Backup < Step::Check);
    assert!(Step::Check < Step::Forget);
    assert!(Step::Forget < Step::Sync);
}

#[test]
fn unknown_step_errors() {
    let err = Step::from_str("invalid").unwrap_err();
    assert!(err.contains("backup, check, forget, sync"));
}

#[test]
fn default_is_backup() {
    assert_eq!(Step::default(), Step::Backup);
}

#[test]
fn unknown_step_error_quotes_the_input() {
    assert_eq!(
        Step::parse("Nope").unwrap_err(),
        "unknown step 'Nope'. valid values: backup, check, forget, sync"
    );
}

#[test]
fn step_order_is_total_and_matches_positions() {
    let all = [Step::Backup, Step::Check, Step::Forget, Step::Sync];
    for (i, a) in all.iter().enumerate() {
        assert_eq!(a.position() as usize, i);
        for (j, b) in all.iter().enumerate() {
            assert_eq!(a < b, i < j);
            assert_eq!(a == b, i == j);
            assert_eq!(a.cmp(b), i.cmp(&j));
        }
    }
}
