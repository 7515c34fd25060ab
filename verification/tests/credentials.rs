use vivo::config::Secrets;
use vivo::credentials::{detect_url_type, list_profiles, parse_profile_names, sort_names, suggest_profile_name, CredentialType};

#[test]
fn detect_b2_prefix() {
    assert_eq!(detect_url_type("b2:my-bucket"), CredentialType::B2);
    assert_eq!(detect_url_type("b2:bucket/path"), CredentialType::B2);
}

#[test]
fn detect_s3_prefixes() {
    assert_eq!(detect_url_type("s3:https://s3.amazonaws.com/bucket"), CredentialType::S3);
    assert_eq!(detect_url_type("rustfs:https://nas.example.com/bucket"), CredentialType::S3);
}

#[test]
fn detect_s3_plus_https_is_generic() {
    assert_eq!(detect_url_type("s3+https://nas.example.com/bucket"), CredentialType::Generic);
}

#[test]
fn detect_generic_unknown() {
    assert_eq!(detect_url_type("sftp:user@host/path"), CredentialType::Generic);
    assert_eq!(detect_url_type("rclone:remote:/path"), CredentialType::Generic);
}

#[test]
fn suggest_b2_bare_bucket() {
    assert_eq!(suggest_profile_name("b2:my-bucket"), "b2");
}

#[test]
fn suggest_s3_amazonaws() {
    assert_eq!(suggest_profile_name("s3:https://s3.amazonaws.com/bucket"), "s3");
}

#[test]
fn suggest_rustfs_with_subdomain() {
    assert_eq!(suggest_profile_name("rustfs:https://rustfs.cinnamon-trout.ts.net/bucket"), "rustfs");
}

#[test]
fn suggest_url_with_ip() {
    assert_eq!(suggest_profile_name("rustfs:https://192.168.1.1/bucket"), "192.168.1.1");
}

#[test]
fn suggest_url_with_port() {
    assert_eq!(suggest_profile_name("s3+https://nas:9000/bucket"), "nas");
}

#[test]
fn suggest_single_label_host() {
    assert_eq!(suggest_profile_name("rustfs:https://nas/bucket"), "nas");
}

#[test]
fn suggest_without_scheme_separator() {
    assert_eq!(suggest_profile_name("localpath"), "localpath");
    assert_eq!(suggest_profile_name("x://"), "");
}

fn secrets(names: &[&str]) -> Secrets {
    Secrets {
        restic_password: "secret".to_string(),
        credentials: names
            .iter()
            .map(|n| (n.to_string(), vec![("KEY".to_string(), "value".to_string())]))
            .collect(),
    }
}

#[test]
fn parse_profiles_returns_sorted_names() {
    let profiles = parse_profile_names(&Ok(secrets(&["nas", "aws"])));
    assert_eq!(profiles, vec!["aws", "nas"]);
}

#[test]
fn parse_profiles_empty_when_no_credentials_key() {
    let profiles = parse_profile_names(&Ok(secrets(&[])));
    assert!(profiles.is_empty());
}

#[test]
fn parse_profiles_empty_on_invalid_yaml() {
    let profiles = parse_profile_names(&Err("invalid yaml".to_string()));
    assert!(profiles.is_empty());
}

#[test]
fn sort_names_orders_like_string_ord() {
    let input: Vec<String> = ["b", "a", "ab", "B", "é", "", "aa", "b"].iter().map(|s| s.to_string()).collect();
    let mut expected = input.clone();
    expected.sort();
    assert_eq!(sort_names(input), expected);
}

#[test]
fn list_profiles_sorts_names_and_is_empty_when_unreadable() {
    let names = list_profiles(&Ok(Ok(secrets(&["b2", "aws"]))));
    assert_eq!(names, vec!["aws".to_string(), "b2".to_string()]);
    assert!(list_profiles(&Err("sops: no key".to_string())).is_empty());
    assert!(list_profiles(&Ok(Err("bad yaml".to_string()))).is_empty());
}

#[test]
fn b2_profile_vars_need_both_keys() {
    let v = vivo::credentials::b2_profile_vars(Some("id".to_string()), Some("key".to_string())).unwrap();
    assert_eq!(
        v,
        vec![
            ("B2_APPLICATION_KEY_ID".to_string(), "id".to_string()),
            ("B2_APPLICATION_KEY".to_string(), "key".to_string())
        ]
    );
    assert_eq!(
        vivo::credentials::b2_profile_vars(None, Some("key".to_string())),
        Err("applicationKeyId not found in b2 output".to_string())
    );
    assert_eq!(
        vivo::credentials::b2_profile_vars(Some("id".to_string()), None),
        Err("applicationKey not found in b2 output".to_string())
    );
}

fn prof(name: &str, k: &str, v: &str) -> (String, Vec<(String, String)>) {
    (name.to_string(), vec![(k.to_string(), v.to_string())])
}

#[test]
fn secrets_keep_the_first_profile_of_each_name() {
    let s = Secrets::from_profiles(
        "pw".to_string(),
        vec![prof("nas", "A", "1"), prof("aws", "B", "2"), prof("nas", "C", "3")],
    );
    assert_eq!(s.restic_password, "pw");
    assert_eq!(s.credentials, vec![prof("nas", "A", "1"), prof("aws", "B", "2")]);
    assert_eq!(parse_profile_names(&Ok(s)), vec!["aws".to_string(), "nas".to_string()]);
}

#[test]
fn a_profile_is_found_by_its_name() {
    let s = Secrets::from_profiles("pw".to_string(), vec![prof("nas", "A", "1"), prof("aws", "B", "2")]);
    assert_eq!(s.profile("aws"), Some(&vec![("B".to_string(), "2".to_string())]));
    assert_eq!(s.profile("b2"), None);
}
