use vivo::credentials::s3_profile_vars;
use vivo::secrets_yaml::{apply_profile_to_yaml, secrets_yaml};

fn pairs(items: &[(&str, &str)]) -> Vec<(String, String)> {
    items.iter().map(|(k, v)| (k.to_string(), v.to_string())).collect()
}

#[test]
fn apply_profile_inserts_new_profile() {
    let yaml = "restic_password: s3cr3t\ncredentials:\n  existing:\n    KEY: val\n";
    let creds = pairs(&[("AWS_ACCESS_KEY_ID", "kid"), ("AWS_SECRET_ACCESS_KEY", "sak")]);
    let result = apply_profile_to_yaml(yaml, "new-s3", &creds).unwrap();
    let parsed: serde_yml::Value = serde_yml::from_str(&result).unwrap();
    assert_eq!(parsed["credentials"]["new-s3"]["AWS_ACCESS_KEY_ID"].as_str().unwrap(), "kid");
}

#[test]
fn apply_profile_overwrites_existing() {
    let yaml = "restic_password: s3cr3t\ncredentials:\n  aws:\n    AWS_ACCESS_KEY_ID: old\n";
    let creds = pairs(&[("AWS_ACCESS_KEY_ID", "new")]);
    let result = apply_profile_to_yaml(yaml, "aws", &creds).unwrap();
    let parsed: serde_yml::Value = serde_yml::from_str(&result).unwrap();
    assert_eq!(parsed["credentials"]["aws"]["AWS_ACCESS_KEY_ID"].as_str().unwrap(), "new");
}

#[test]
fn apply_profile_errors_without_credentials_key() {
    let yaml = "restic_password: s3cr3t\n";
    let creds = pairs(&[]);
    assert!(apply_profile_to_yaml(yaml, "x", &creds).is_err());
}

#[test]
fn applying_a_profile_keeps_the_other_keys() {
    let yaml = "restic_password: s3cr3t\ncredentials:\n  existing:\n    KEY: val\n";
    let creds = pairs(&[("A", "1")]);
    let result = apply_profile_to_yaml(yaml, "existing", &creds).unwrap();
    let parsed: serde_yml::Value = serde_yml::from_str(&result).unwrap();
    assert_eq!(parsed["restic_password"].as_str().unwrap(), "s3cr3t");
    assert_eq!(parsed["credentials"]["existing"]["KEY"].as_str().unwrap(), "val");
    assert_eq!(parsed["credentials"]["existing"]["A"].as_str().unwrap(), "1");
}

#[test]
fn applying_a_profile_to_unparsable_text_names_the_parse() {
    let creds = pairs(&[("A", "1")]);
    let err = apply_profile_to_yaml("not: valid: yaml: [", "x", &creds).unwrap_err();
    assert!(err.starts_with("could not parse secrets: "));
}

#[test]
fn a_missing_credentials_map_is_named() {
    let creds = pairs(&[("A", "1")]);
    let err = apply_profile_to_yaml("credentials: 3\n", "x", &creds).unwrap_err();
    assert_eq!(err, "secrets missing 'credentials' map");
}

#[test]
fn a_profile_that_is_not_a_map_is_named() {
    let creds = pairs(&[("A", "1")]);
    let err = apply_profile_to_yaml("credentials:\n  x: text\n", "x", &creds).unwrap_err();
    assert_eq!(err, "'credentials.x' is not a map");
}

#[test]
fn the_wrapped_yaml_is_preferred() {
    assert_eq!(secrets_yaml("data: inner\n", Some("inner".to_string())), "inner");
    assert_eq!(secrets_yaml("plain: yes\n", None), "plain: yes\n");
}

#[test]
fn s3_profile_holds_both_keys() {
    assert_eq!(
        s3_profile_vars("kid", "sak"),
        pairs(&[("AWS_ACCESS_KEY_ID", "kid"), ("AWS_SECRET_ACCESS_KEY", "sak")])
    );
}
