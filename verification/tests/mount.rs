use vivo::backup_config::{Backup, Remote, Task};
use vivo::doctor::{CheckResult, CheckStatus};
use vivo::mount::{
    build_entries, check_mount_point_valid, check_repo_accessible, mount_command, mount_point_path, normalize_repo_url,
    preflight_passes, repo_access_command,
};

fn backup_task(name: &str, repo: &str, remotes: &[(&str, &str)]) -> Task {
    Task {
        name: name.to_string(),
        description: None,
        backup: Some(Backup {
            repo: repo.to_string(),
            exclude_file: None,
            directory: Some("/tmp".to_string()),
            files_from: None,
            remotes: remotes
                .iter()
                .map(|(u, c)| Remote {
                    url: u.to_string(),
                    credentials: c.to_string(),
                    mc_max_workers: None,
                    mc_limit_upload: None,
                })
                .collect(),
            retention: None,
            dry_run: None,
        }),
        commands: vec![],
        calls: vec![],
    }
}

#[test]
fn normalize_repo_url_translates_rustfs() {
    assert_eq!(normalize_repo_url("rustfs:http://nas:9000/backup"), "s3:http://nas:9000/backup");
}

#[test]
fn normalize_repo_url_passes_through_s3() {
    assert_eq!(
        normalize_repo_url("s3:https://s3.amazonaws.com/bucket"),
        "s3:https://s3.amazonaws.com/bucket"
    );
}

#[test]
fn normalize_repo_url_passes_through_b2() {
    assert_eq!(normalize_repo_url("b2:my-bucket:restic/main"), "b2:my-bucket:restic/main");
}

#[test]
fn normalize_repo_url_passes_through_local() {
    assert_eq!(
        normalize_repo_url("/home/user/.local/share/restic/main"),
        "/home/user/.local/share/restic/main"
    );
}

#[test]
fn normalize_repo_url_is_idempotent() {
    for u in ["rustfs:http://nas:9000/backup", "s3:x", "rustfs:", "/local"] {
        let once = normalize_repo_url(u);
        assert_eq!(normalize_repo_url(&once), once);
    }
}

#[test]
fn build_entries_local_only() {
    let tasks = vec![backup_task("backup", "/tmp/repo", &[])];
    let entries = build_entries(&tasks);
    assert_eq!(entries.len(), 1);
    assert_eq!(entries[0].label, "backup (local)");
    assert_eq!(entries[0].repo_url, "/tmp/repo");
    assert!(entries[0].credentials_profile.is_none());
}

#[test]
fn build_entries_with_remotes() {
    let tasks = vec![backup_task("backup", "/tmp/repo", &[("s3:https://s3.example.com/bucket", "aws")])];
    let entries = build_entries(&tasks);
    assert_eq!(entries.len(), 2);
    assert_eq!(entries[0].label, "backup (local)");
    assert_eq!(entries[1].label, "backup \u{2192} s3:https://s3.example.com/bucket");
    assert_eq!(entries[1].credentials_profile.as_deref(), Some("aws"));
    assert_eq!(entries[1].task_name, "backup");
}

#[test]
fn build_entries_skips_tasks_without_backup() {
    let tasks = vec![Task {
        name: "cmd".to_string(),
        description: None,
        backup: None,
        commands: vec!["echo hi".to_string()],
        calls: vec![],
    }];
    assert_eq!(build_entries(&tasks).len(), 0);
}

#[test]
fn build_entries_expands_env_vars_in_local_repo() {
    let tasks = vec![backup_task("backup", "$HOME/.local/share/restic/main", &[])];
    let entries = build_entries(&tasks);
    assert_eq!(entries.len(), 1);
    // The raw URL is stored as written; expansion happens before it is used.
    assert_eq!(entries[0].repo_url, "$HOME/.local/share/restic/main");
    let vars = vec![("HOME".to_string(), "/home/user".to_string())];
    let expanded = vivo::env::expand_env_vars(&entries[0].repo_url, &vars);
    assert!(!expanded.contains('$'), "expanded path should not contain $ — got: {expanded}");
    assert!(expanded.contains('/'), "expanded path should be absolute");
}

#[test]
fn check_mount_point_valid_ok_for_empty_dir() {
    let r = check_mount_point_valid("/tmp/empty", &Some(Ok(true)));
    assert!(matches!(r.status, CheckStatus::Pass));
}

#[test]
fn check_mount_point_valid_warns_for_nonempty_dir() {
    let r = check_mount_point_valid("/tmp/full", &Some(Ok(false)));
    assert!(matches!(r.status, CheckStatus::Warn));
    assert_eq!(r.detail.as_deref(), Some("directory is not empty"));
}

#[test]
fn check_mount_point_valid_warns_for_missing_dir() {
    let r = check_mount_point_valid("/tmp/__vivo_no_such_dir_xyz__", &None);
    assert!(matches!(r.status, CheckStatus::Warn));
    assert_eq!(r.label, "mount point (/tmp/__vivo_no_such_dir_xyz__)");
}

#[test]
fn check_repo_accessible_warns_for_nonexistent_repo() {
    // restic fails to open a repository that does not exist.
    let r = check_repo_accessible("/tmp/__vivo_no_such_repo__", &Ok(false));
    assert!(matches!(r.status, CheckStatus::Warn));
    let r = check_repo_accessible("/tmp/__vivo_no_such_repo__", &Err("No such file or directory".to_string()));
    assert!(matches!(r.status, CheckStatus::Warn));
    assert_eq!(r.detail.as_deref(), Some("could not check repo: No such file or directory"));
}

#[test]
fn mount_point_is_the_given_directory_or_a_new_one_under_tmp() {
    assert_eq!(mount_point_path(Some("/mnt/x"), "backup", 5), ("/mnt/x".to_string(), false));
    assert_eq!(mount_point_path(None, "mytask", 1700000000), ("/tmp/vivo-mount-mytask-1700000000".to_string(), true));
}

#[test]
fn preflight_fails_only_on_a_failed_required_check() {
    let check = |status| CheckResult { label: "x".to_string(), status, detail: None };
    assert!(preflight_passes(&vec![check(CheckStatus::Pass), check(CheckStatus::Warn)]));
    assert!(!preflight_passes(&vec![check(CheckStatus::Pass), check(CheckStatus::Fail)]));
}

#[test]
fn mount_and_access_commands() {
    let m = mount_command("s3:http://h/b", "/tmp/m", "pw");
    assert_eq!(m.program, "restic");
    assert_eq!(m.args, vec!["mount", "--repo", "s3:http://h/b", "/tmp/m"]);
    assert_eq!(m.env, vec![("RESTIC_PASSWORD".to_string(), "pw".to_string())]);
    let a = repo_access_command("/repo", "pw");
    assert_eq!(a.args, vec!["snapshots", "--repo", "/repo", "--no-lock"]);
}

#[test]
fn run_preflight_fails_when_restic_missing() {
    // Without restic on the path its check fails, and a failed required check stops the mount.
    let restic = vivo::doctor::check_tool_present("restic", None, "install from https://restic.net");
    let fuse = vivo::doctor::check_tool_present("fuse", None, "install FUSE");
    assert!(!preflight_passes(&vec![restic, fuse]));
}
