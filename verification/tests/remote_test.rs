use vivo::remote_test::{
    init_outcome, init_question, offers_init, remote_test_command, repo_init_command, repo_probe_command, test_summary,
};

fn strings(v: &[&str]) -> Vec<String> {
    v.iter().map(|s| s.to_string()).collect()
}

#[test]
fn b2_remote_is_tested_by_listing_its_path() {
    let c = remote_test_command("b2:my-bucket:restic/main", "pw");
    assert_eq!(c.program, "b2");
    assert_eq!(c.args, strings(&["ls", "my-bucket:restic/main"]));
    assert_eq!(c.env, vec![("RESTIC_PASSWORD".to_string(), "pw".to_string())]);
    assert!(c.with_credentials);
}

#[test]
fn b2_test_path_drops_repeated_prefixes_and_slashes() {
    let c = remote_test_command("b2:b2://bucket/p", "pw");
    assert_eq!(c.args, strings(&["ls", "bucket/p"]));
}

#[test]
fn rustfs_remote_is_tested_as_s3_with_restic() {
    let c = remote_test_command("rustfs:http://nas:9000/backup", "pw");
    assert_eq!(c.program, "restic");
    assert_eq!(c.args, strings(&["-r", "s3:http://nas:9000/backup", "snapshots", "--no-lock", "--no-cache"]));
}

#[test]
fn probe_and_init_commands_name_the_repository() {
    let p = repo_probe_command("s3:http://h/b", "pw");
    assert_eq!(p.args, strings(&["-r", "s3:http://h/b", "snapshots", "--no-lock", "--no-cache"]));
    let i = repo_init_command("rustfs:http://h/b", "pw");
    assert_eq!(i.program, "restic");
    assert_eq!(i.args, strings(&["-r", "s3:http://h/b", "init"]));
    assert_eq!(i.env, vec![("RESTIC_PASSWORD".to_string(), "pw".to_string())]);
}

#[test]
fn test_summary_reports_exit_code() {
    assert_eq!(test_summary(true, Some(0)), "Remote test passed.");
    assert_eq!(test_summary(false, Some(3)), "Remote test failed (exit 3).");
    assert_eq!(test_summary(false, None), "Remote test failed (exit -1).");
    assert_eq!(test_summary(false, Some(-12)), "Remote test failed (exit -12).");
}

#[test]
fn init_is_offered_only_for_a_missing_repository() {
    let missing = "Fatal: unable to open config file\nIs there a repository at the following location?\n";
    assert!(offers_init(false, missing));
    assert!(!offers_init(true, missing));
    assert!(!offers_init(false, "Fatal: Forbidden\n"));
}

#[test]
fn init_outcome_and_question() {
    assert_eq!(init_outcome(true, Some(0)), Ok("Repository initialized.".to_string()));
    assert_eq!(init_outcome(false, Some(1)), Err("restic init failed (exit 1).".to_string()));
    assert_eq!(init_question("s3:x"), "No repository found at 's3:x'. Initialize it now?");
}
