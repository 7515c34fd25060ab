use vivo::remote::{
    choose_tool, from_remote, from_url, is_auth_error, is_bucket_already_exists_error, percent_encode_credential,
    restic_repo_entries, verify_restic_repo, AnyBackend, B2Backend, RemoteBackend, RustfsBackend, S3Backend, SyncTool,
};

#[test]
fn parses_bucket_and_path() {
    let b = B2Backend::from_url("b2:my-bucket:restic/path").unwrap();
    assert_eq!(b.bucket, "my-bucket");
    assert_eq!(b.path, "restic/path");
}

#[test]
fn accepts_bucket_only() {
    let b = B2Backend::from_url("b2:my-bucket").unwrap();
    assert_eq!(b.bucket, "my-bucket");
    assert_eq!(b.path, "");
}

#[test]
fn name_returns_b2() {
    let b = B2Backend::from_url("b2:bucket:path").unwrap();
    assert_eq!(b.name(), "b2");
}

#[test]
fn routes_b2_prefix() {
    let b = from_url("b2:my-bucket:restic").ok().unwrap();
    assert_eq!(b.name(), "b2");
}

#[test]
fn routes_s3_prefix() {
    let b = from_url("s3:http://rustfs.local:9000/backup").ok().unwrap();
    assert_eq!(b.name(), "s3");
}

#[test]
fn rejects_unknown_prefix() {
    let err = from_url("sftp:user@host:/backup").err().unwrap();
    assert!(err.contains("b2:, s3:"));
}

#[test]
fn parses_https_url() {
    let b = RustfsBackend::from_url("rustfs:https://rustfs.cinnamon-trout.ts.net/filecabinet").unwrap();
    assert_eq!(b.endpoint, "https://rustfs.cinnamon-trout.ts.net");
    assert_eq!(b.bucket, "filecabinet");
    assert_eq!(b.subpath, "");
}

#[test]
fn parses_http_with_port() {
    let b = RustfsBackend::from_url("rustfs:http://nas:9000/backup").unwrap();
    assert_eq!(b.endpoint, "http://nas:9000");
    assert_eq!(b.bucket, "backup");
    assert_eq!(b.subpath, "");
}

#[test]
fn parses_url_with_subpath() {
    let b = RustfsBackend::from_url("rustfs:http://nas:9000/bucket/restic/repo").unwrap();
    assert_eq!(b.endpoint, "http://nas:9000");
    assert_eq!(b.bucket, "bucket");
    assert_eq!(b.subpath, "restic/repo");
}

#[test]
fn rejects_missing_bucket() {
    assert!(RustfsBackend::from_url("rustfs:https://host/").is_err());
}

#[test]
fn rejects_missing_scheme() {
    assert!(RustfsBackend::from_url("rustfs:host/bucket").is_err());
}

#[test]
fn rejects_non_rustfs_prefix() {
    assert!(RustfsBackend::from_url("s3:http://host/bucket").is_err());
}

#[test]
fn name_returns_rustfs() {
    let b = RustfsBackend::from_url("rustfs:https://host/bucket").unwrap();
    assert_eq!(b.name(), "rustfs");
}

#[test]
fn is_bucket_already_exists_tolerates_owned_by_you() {
    assert!(is_bucket_already_exists_error("BucketAlreadyOwnedByYou"));
}

#[test]
fn is_bucket_already_exists_tolerates_already_exists() {
    assert!(is_bucket_already_exists_error("make_bucket_failed: BucketAlreadyExists"));
}

#[test]
fn is_bucket_already_exists_rejects_other_errors() {
    assert!(!is_bucket_already_exists_error("AccessDenied: permission denied"));
}

#[test]
fn is_bucket_already_exists_rejects_empty() {
    assert!(!is_bucket_already_exists_error(""));
}

#[test]
fn stores_full_url() {
    let s = S3Backend::from_url("s3:http://rustfs.local:9000/backup").unwrap();
    assert_eq!(s.url, "s3:http://rustfs.local:9000/backup");
}

#[test]
fn accepts_aws_s3_url() {
    let s = S3Backend::from_url("s3:https://s3.amazonaws.com/my-bucket").unwrap();
    assert_eq!(s.name(), "s3");
}

#[test]
fn rejects_non_s3_prefix() {
    assert!(S3Backend::from_url("b2:bucket:path").is_err());
}

#[test]
fn rustfs_error_messages_name_the_problem() {
    assert_eq!(
        RustfsBackend::from_url("rustfs:host/bucket").err().unwrap(),
        "rustfs URL missing scheme (expected https:// or http://): 'rustfs:host/bucket'"
    );
    assert_eq!(
        RustfsBackend::from_url("rustfs:https://host").err().unwrap(),
        "rustfs URL missing bucket (no path after host): 'rustfs:https://host'"
    );
    assert_eq!(
        RustfsBackend::from_url("rustfs:https://host/").err().unwrap(),
        "rustfs URL missing bucket (empty path): 'rustfs:https://host/'"
    );
    assert_eq!(
        RustfsBackend::from_url("rustfs:https://host//x").err().unwrap(),
        "rustfs URL missing bucket (empty bucket): 'rustfs:https://host//x'"
    );
    assert_eq!(RustfsBackend::from_url("s3:x").err().unwrap(), "not a rustfs URL: 's3:x'");
}

#[test]
fn b2_and_s3_errors_quote_the_url() {
    assert_eq!(B2Backend::from_url("s3:x").err().unwrap(), "not a b2 URL: 's3:x'");
    assert_eq!(S3Backend::from_url("b2:x").err().unwrap(), "not an s3 URL: 'b2:x'");
    assert_eq!(
        from_url("ftp:x").err().unwrap(),
        "unsupported remote URL 'ftp:x'. supported prefixes: b2:, s3:"
    );
}

#[test]
fn from_remote_routes_rustfs_and_others() {
    match from_remote("rustfs:http://nas:9000/b/sub").ok().unwrap() {
        AnyBackend::Rustfs(r) => {
            assert_eq!(r.endpoint, "http://nas:9000");
            assert_eq!(r.bucket, "b");
            assert_eq!(r.subpath, "sub");
        }
        _ => panic!("expected a rustfs backend"),
    }
    assert_eq!(from_remote("b2:bucket").ok().unwrap().name(), "b2");
    assert!(from_remote("rustfs:nas").is_err());
    assert!(from_remote("sftp:host").is_err());
}

#[test]
fn verify_restic_repo_lists_missing_entries() {
    assert_eq!(
        restic_repo_entries(),
        vec!["config", "data", "index", "keys", "snapshots"]
    );
    assert!(verify_restic_repo("/r", &[true, true, true, true, true]).is_ok());
    assert_eq!(
        verify_restic_repo("/r", &[true, false, true, false, true]).err().unwrap(),
        "source repo '/r' is missing: data, keys \u{2014} aborting sync to prevent remote corruption"
    );
    assert_eq!(
        verify_restic_repo("/r", &[false, true, true, true, true]).err().unwrap(),
        "source repo '/r' is missing: config \u{2014} aborting sync to prevent remote corruption"
    );
}

#[test]
fn auth_errors_are_found_in_any_case() {
    assert!(is_auth_error("ERROR: Unauthorized access"));
    assert!(is_auth_error("Invalid Credentials supplied"));
    assert!(is_auth_error("status 401"));
    assert!(!is_auth_error("connection reset"));
}

#[test]
fn percent_encoding_replaces_url_delimiters() {
    assert_eq!(percent_encode_credential("a+b/c=d:e@f#g?h&i%j"), "a%2Bb%2Fc%3Dd%3Ae%40f%23g%3Fh%26i%25j");
    assert_eq!(percent_encode_credential("plain"), "plain");
    let enc = percent_encode_credential("k+/=:@#?&");
    for c in ['+', '/', '=', ':', '@', '#', '?', '&'] {
        assert!(!enc.contains(c));
    }
}

#[test]
fn choose_tool_prefers_mc_then_aws_then_rclone() {
    assert!(matches!(choose_tool(true, true, true), Ok((SyncTool::Mc, None))));
    match choose_tool(false, true, true) {
        Ok((SyncTool::Aws, Some(w))) => assert!(w.starts_with("mc not found \u{2014} using aws")),
        _ => panic!("expected aws"),
    }
    match choose_tool(false, false, true) {
        Ok((SyncTool::Rclone, Some(w))) => assert!(w.starts_with("mc not found \u{2014} using rclone")),
        _ => panic!("expected rclone"),
    }
    let err = choose_tool(false, false, false).err().unwrap();
    assert!(err.contains("mc") && err.contains("aws") && err.contains("rclone"));
}

#[test]
fn check_installed_fails_when_no_tools_on_path() {
    // None of mc, aws and rclone runs.
    let result = vivo::remote::choose_tool(false, false, false);
    assert!(result.is_err());
    let msg = result.err().unwrap();
    assert!(msg.contains("mc") && msg.contains("aws") && msg.contains("rclone"));
}
