use vivo::backup_config::Remote;
use vivo::remote_sync::{RemoteSync, SyncStep};

fn remote(url: &str, credentials: &str) -> Remote {
    Remote { url: url.to_string(), credentials: credentials.to_string(), mc_max_workers: None, mc_limit_upload: None }
}

fn vars(k: &str, v: &str) -> Vec<(String, String)> {
    vec![(k.to_string(), v.to_string())]
}

#[test]
fn remotes_with_known_profiles_sync_in_order() {
    let remotes = vec![remote("s3:http://a/b", "aws"), remote("b2:bucket:path", "b2")];
    let profiles = vec![("b2".to_string(), vars("B", "1")), ("aws".to_string(), vars("A", "2"))];
    let mut round = RemoteSync::new(&remotes, profiles, false);
    assert!(matches!(round.step(), SyncStep::Sync(0, 1)));
    assert!(matches!(round.step(), SyncStep::Sync(1, 0)));
    assert!(matches!(round.step(), SyncStep::Done));
}

#[test]
fn a_missing_profile_skips_a_non_b2_remote() {
    let remotes = vec![remote("s3:http://a/b", "aws")];
    let mut round = RemoteSync::new(&remotes, Vec::new(), false);
    match round.step() {
        SyncStep::Skip(0, m) => {
            assert_eq!(m, "credentials profile 'aws' not found in secrets — skipping remote s3:http://a/b")
        }
        _ => panic!("expected a skip"),
    }
    assert!(matches!(round.step(), SyncStep::Done));
}

#[test]
fn b2_is_authorized_once_for_remotes_sharing_a_profile() {
    let remotes = vec![remote("b2:one:p", "b2"), remote("b2:two:p", "b2")];
    let mut round = RemoteSync::new(&remotes, Vec::new(), false);
    assert!(matches!(round.step(), SyncStep::Authorize(0)));
    assert!(matches!(round.authorized(Ok(vars("B2_APPLICATION_KEY_ID", "id"))), SyncStep::Sync(0, 0)));
    assert_eq!(round.profiles[0].0, "b2");
    assert!(matches!(round.step(), SyncStep::Sync(1, 0)));
    assert!(matches!(round.step(), SyncStep::Done));
}

#[test]
fn a_failed_authorization_skips_the_remote() {
    let remotes = vec![remote("b2:one:p", "b2")];
    let mut round = RemoteSync::new(&remotes, Vec::new(), false);
    assert!(matches!(round.step(), SyncStep::Authorize(0)));
    match round.authorized(Err("no b2".to_string())) {
        SyncStep::Skip(0, m) => assert_eq!(m, "re-authorization failed: no b2 — skipping remote b2:one:p"),
        _ => panic!("expected a skip"),
    }
    assert!(matches!(round.step(), SyncStep::Done));
}

#[test]
fn a_dry_run_skips_rather_than_authorizes() {
    let remotes = vec![remote("b2:one:p", "b2")];
    let mut round = RemoteSync::new(&remotes, Vec::new(), true);
    match round.step() {
        SyncStep::Skip(0, m) => assert_eq!(m, "credentials profile 'b2' not found in secrets — skipping remote b2:one:p"),
        _ => panic!("expected a skip"),
    }
    assert!(matches!(round.step(), SyncStep::Done));
}
