use vivo::remote::{AnyBackend, B2Backend, RustfsBackend, S3Backend};
use vivo::sync_job::{JobAction, Ran, SyncJob};

fn start(backend: AnyBackend, dry_run: bool) -> (SyncJob, JobAction) {
    SyncJob::start(backend, "/tmp/repo".to_string(), vec![("K".to_string(), "V".to_string())], dry_run)
}

fn args(a: &JobAction) -> Vec<String> {
    match a {
        JobAction::Run(c) | JobAction::Capture(c) => {
            let mut v = vec![c.program.clone()];
            v.extend(c.args.iter().cloned());
            v
        }
        _ => panic!("expected a command"),
    }
}

#[test]
fn dry_run_returns_ok_without_b2_installed() {
    let b = B2Backend::from_url("b2:bucket:path").unwrap();
    let (_, action) = SyncJob::start(AnyBackend::B2(b), "/nonexistent".to_string(), Vec::new(), true);
    // A dry run neither runs b2 nor looks at the repository.
    match action {
        JobAction::DryRun(m) => assert_eq!(m, "[dry-run] would sync /nonexistent to b2://bucket/path"),
        _ => panic!("expected a dry run"),
    }
}

#[test]
fn dry_run_returns_ok_without_tools() {
    let b = RustfsBackend::from_url("rustfs:https://host/bucket").unwrap();
    let (_, action) = start(AnyBackend::Rustfs(b), true);
    assert!(matches!(action, JobAction::DryRun(_)));
}

#[test]
fn dry_run_returns_ok_without_restic() {
    let s = S3Backend::from_url("s3:http://localhost:9000/test").unwrap();
    let (_, action) = start(AnyBackend::S3(s), true);
    match action {
        JobAction::DryRun(m) => assert_eq!(m, "[dry-run] would copy /tmp/repo to s3:http://localhost:9000/test"),
        _ => panic!("expected a dry run"),
    }
}

#[test]
fn b2_checks_the_repository_then_syncs() {
    let b = B2Backend::from_url("b2:bucket:path").unwrap();
    let (mut job, action) = start(AnyBackend::B2(b), false);
    assert!(matches!(action, JobAction::CheckRepository));
    let action = job.repository_checked(&[true; 5]);
    assert_eq!(
        args(&action),
        vec!["b2", "sync", "--delete", "--replace-newer", "--compare-versions", "size", "/tmp/repo", "b2://bucket/path"]
    );
    assert!(matches!(job.ran(Ran::Succeeded), JobAction::Finish(Ok(()))));
}

#[test]
fn incomplete_repository_stops_before_syncing() {
    let b = B2Backend::from_url("b2:bucket:path").unwrap();
    let (mut job, _) = start(AnyBackend::B2(b), false);
    match job.repository_checked(&[true, false, true, true, false]) {
        JobAction::Finish(Err(m)) => assert_eq!(
            m,
            "source repo '/tmp/repo' is missing: data, snapshots — aborting sync to prevent remote corruption"
        ),
        _ => panic!("expected the sync to stop"),
    }
}

#[test]
fn b2_authorization_failure_is_retried_once_with_new_credentials() {
    let b = B2Backend::from_url("b2:bucket:path").unwrap();
    let (mut job, _) = start(AnyBackend::B2(b), false);
    job.repository_checked(&[true; 5]);
    assert!(matches!(job.ran(Ran::Failed("ERROR: Unauthorized".to_string())), JobAction::Reauthorize));
    let retry = job.reauthorized(Ok(vec![("B2_APPLICATION_KEY_ID".to_string(), "new".to_string())]));
    assert!(matches!(retry, JobAction::Run(_)));
    assert_eq!(job.creds, vec![("B2_APPLICATION_KEY_ID".to_string(), "new".to_string())]);
    match job.ran(Ran::Failed("401 again".to_string())) {
        JobAction::Finish(Err(m)) => assert_eq!(m, "b2 sync to b2://bucket/path failed: 401 again"),
        _ => panic!("expected the retry's failure"),
    }
}

#[test]
fn b2_other_failures_are_not_retried() {
    let b = B2Backend::from_url("b2:bucket:path").unwrap();
    let (mut job, _) = start(AnyBackend::B2(b), false);
    job.repository_checked(&[true; 5]);
    match job.ran(Ran::NotStarted("No such file or directory".to_string())) {
        JobAction::Finish(Err(m)) => assert_eq!(m, "failed to run b2: No such file or directory"),
        _ => panic!("expected a failure"),
    }
}

#[test]
fn b2_failed_reauthorization_ends_the_sync() {
    let b = B2Backend::from_url("b2:bucket:path").unwrap();
    let (mut job, _) = start(AnyBackend::B2(b), false);
    job.repository_checked(&[true; 5]);
    job.ran(Ran::Failed("invalid credentials".to_string()));
    match job.reauthorized(Err("b2 account authorize failed".to_string())) {
        JobAction::Finish(Err(m)) => assert_eq!(m, "re-authorization failed: b2 account authorize failed"),
        _ => panic!("expected a failure"),
    }
}

#[test]
fn s3_copy_of_an_uninitialized_repository_says_how_to_initialize_it() {
    let s = S3Backend::from_url("s3:http://h/b").unwrap();
    let (mut job, action) = start(AnyBackend::S3(s), false);
    assert_eq!(args(&action), vec!["restic", "copy", "--repo", "/tmp/repo", "--to", "s3:http://h/b"]);
    match job.ran(Ran::Failed("Fatal: unable to open config file".to_string())) {
        JobAction::Finish(Err(m)) => {
            assert_eq!(m, "remote restic repo must be initialized first: restic init --repo s3:http://h/b")
        }
        _ => panic!("expected a failure"),
    }
}

#[test]
fn rustfs_falls_back_to_aws_and_tolerates_an_existing_bucket() {
    let r = RustfsBackend::from_url("rustfs:http://nas:9000/bucket/sub").unwrap();
    let (mut job, _) = start(AnyBackend::Rustfs(r), false);
    assert!(matches!(job.repository_checked(&[true; 5]), JobAction::FindTools));
    assert!(matches!(job.tools_found(false, true, true), JobAction::Warn(_)));
    let mb = job.warned();
    assert!(matches!(mb, JobAction::Capture(_)));
    assert_eq!(args(&mb), vec!["aws", "s3", "mb", "s3://bucket", "--endpoint-url", "http://nas:9000"]);
    let sync = job.ran(Ran::Failed("BucketAlreadyOwnedByYou".to_string()));
    assert_eq!(
        args(&sync),
        vec!["aws", "s3", "sync", "--delete", "--size-only", "/tmp/repo", "s3://bucket/sub", "--endpoint-url", "http://nas:9000"]
    );
    assert!(matches!(job.ran(Ran::Succeeded), JobAction::Finish(Ok(()))));
}

#[test]
fn rustfs_with_mc_makes_the_bucket_then_mirrors() {
    let r = RustfsBackend::from_url("rustfs:http://nas:9000/bucket").unwrap();
    let (mut job, _) = start(AnyBackend::Rustfs(r), false);
    job.repository_checked(&[true; 5]);
    let mb = job.tools_found(true, false, false);
    assert_eq!(args(&mb), vec!["mc", "mb", "--ignore-existing", "vivo-sync/bucket"]);
    match job.ran(Ran::Failed("denied".to_string())) {
        JobAction::Finish(Err(m)) => assert_eq!(m, "mc sync to http://nas:9000 failed: denied"),
        _ => panic!("expected a failure"),
    }
}

#[test]
fn rustfs_without_clients_fails() {
    let r = RustfsBackend::from_url("rustfs:http://nas:9000/bucket").unwrap();
    let (mut job, _) = start(AnyBackend::Rustfs(r), false);
    job.repository_checked(&[true; 5]);
    assert!(matches!(job.tools_found(false, false, false), JobAction::Finish(Err(_))));
}
