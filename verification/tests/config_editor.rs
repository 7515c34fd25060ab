use vivo::config_editor::{
    add_call, add_remote, add_task, edit_remote, edit_task, move_call_down, move_call_up, remove_call,
    remove_remote, remove_task, set_default_task, EditTaskSpec, RemoteSpec, TaskSpec,
};


    const BASE_KDL: &str = r#"default-task "backup"
tasks {
    task "backup" {
        backup {
            repo "/tmp/repo"
            directory "/tmp"
        }
    }
}
"#;

    #[test]
    fn add_task_appends_new_task() {
        let result = add_task(
            BASE_KDL,
            TaskSpec {
                name: "photos".to_string(),
                repo: Some("/tmp/photos".to_string()),
                directory: Some("/home/user/Photos".to_string()),
                exclude_file: None,
            },
        )
        .unwrap();
        assert!(result.contains(r#"task "photos""#));
        assert!(result.contains(r#"repo "/tmp/photos""#));
        assert!(result.contains(r#"directory "/home/user/Photos""#));
        assert!(result.contains(r#"task "backup""#));
    }

    #[test]
    fn add_task_includes_exclude_file_when_provided() {
        let result = add_task(
            BASE_KDL,
            TaskSpec {
                name: "docs".to_string(),
                repo: Some("/tmp/docs".to_string()),
                directory: None,
                exclude_file: Some("/home/user/.vivoexclude".to_string()),
            },
        )
        .unwrap();
        assert!(result.contains(r#"exclude-file "/home/user/.vivoexclude""#));
    }

    #[test]
    fn add_task_rejects_duplicate_name() {
        let err = add_task(
            BASE_KDL,
            TaskSpec {
                name: "backup".to_string(),
                repo: Some("/tmp/other".to_string()),
                directory: None,
                exclude_file: None,
            },
        )
        .unwrap_err();
        assert!(err.contains("already exists"));
    }

    #[test]
    fn add_task_without_repo_creates_no_backup_block() {
        let result = add_task(
            BASE_KDL,
            TaskSpec {
                name: "orchestrator".to_string(),
                repo: None,
                directory: None,
                exclude_file: None,
            },
        )
        .unwrap();
        assert!(result.contains(r#"task "orchestrator""#));
        // No backup block should be created for the orchestrator task
        let orchestrator_start = result.find(r#"task "orchestrator""#).unwrap();
        assert!(!result[orchestrator_start..].contains("backup {"));
    }

    const TWO_TASKS_KDL: &str = r#"default-task "backup"
tasks {
    task "backup" {
        backup {
            repo "/tmp/r1"
            directory "/tmp"
        }
    }
    task "photos" {
        backup {
            repo "/tmp/r2"
            directory "/tmp"
        }
    }
}
"#;

    #[test]
    fn remove_task_removes_non_default_task() {
        let result = remove_task(TWO_TASKS_KDL, "photos").unwrap();
        assert!(!result.contains(r#"task "photos""#));
        assert!(result.contains(r#"task "backup""#));
    }

    #[test]
    fn remove_task_rejects_default_task() {
        let err = remove_task(TWO_TASKS_KDL, "backup").unwrap_err();
        assert!(err.contains("default"));
    }

    #[test]
    fn remove_task_rejects_only_task() {
        let single_non_default = r#"default-task "main"
tasks {
    task "photos" {
        backup { repo "/tmp/r" }
    }
}
"#;
        let err = remove_task(single_non_default, "photos").unwrap_err();
        assert!(err.contains("only task"));
    }

    #[test]
    fn remove_task_errors_when_not_found() {
        let err = remove_task(TWO_TASKS_KDL, "nonexistent").unwrap_err();
        assert!(err.contains("not found"));
    }

    #[test]
    fn add_remote_appends_remote_to_backup_block() {
        let result = add_remote(
            BASE_KDL,
            "backup",
            RemoteSpec {
                url: "rustfs:http://nas:9000/bucket".to_string(),
                credentials: "rustfs".to_string(),
                mc_max_workers: None,
                mc_limit_upload: None,
            },
        )
        .unwrap();
        assert!(result.contains(r#"remote "rustfs:http://nas:9000/bucket""#));
        assert!(result.contains(r#"credentials "rustfs""#));
    }

    #[test]
    fn add_remote_rejects_duplicate_url() {
        let with_remote = r#"default-task "backup"
tasks {
    task "backup" {
        backup {
            repo "/tmp/repo"
            remote "s3:http://example.com/b" {
                credentials "aws"
            }
        }
    }
}
"#;
        let err = add_remote(
            with_remote,
            "backup",
            RemoteSpec {
                url: "s3:http://example.com/b".to_string(),
                credentials: "aws".to_string(),
                mc_max_workers: None,
                mc_limit_upload: None,
            },
        )
        .unwrap_err();
        assert!(err.contains("already exists"));
    }

    #[test]
    fn add_remote_errors_when_task_not_found() {
        let err = add_remote(
            BASE_KDL,
            "nonexistent",
            RemoteSpec { url: "s3:http://x".to_string(), credentials: "c".to_string(), mc_max_workers: None, mc_limit_upload: None },
        )
        .unwrap_err();
        assert!(err.contains("not found"));
    }

    #[test]
    fn add_remote_errors_when_no_backup_block() {
        let no_backup = r#"default-task "cmd"
tasks {
    task "cmd" {
        command "echo hi"
    }
}
"#;
        let err = add_remote(
            no_backup,
            "cmd",
            RemoteSpec { url: "s3:http://x".to_string(), credentials: "c".to_string(), mc_max_workers: None, mc_limit_upload: None },
        )
        .unwrap_err();
        assert!(err.contains("backup block"));
    }

    #[test]
    fn add_remote_writes_mc_max_workers_child() {
        let result = add_remote(
            BASE_KDL,
            "backup",
            RemoteSpec {
                url: "rustfs:http://nas:9000/bucket".to_string(),
                credentials: "aws".to_string(),
                mc_max_workers: Some(4),
                mc_limit_upload: None,
            },
        )
        .unwrap();
        assert!(result.contains("mc-max-workers"));
        assert!(result.contains("4"));
        assert!(!result.contains("mc-limit-upload"));
    }

    #[test]
    fn add_remote_writes_mc_limit_upload_child() {
        let result = add_remote(
            BASE_KDL,
            "backup",
            RemoteSpec {
                url: "rustfs:http://nas:9000/bucket".to_string(),
                credentials: "aws".to_string(),
                mc_max_workers: None,
                mc_limit_upload: Some("5MiB".to_string()),
            },
        )
        .unwrap();
        assert!(result.contains("mc-limit-upload"));
        assert!(result.contains(r#""5MiB""#));
        assert!(!result.contains("mc-max-workers"));
    }

    #[test]
    fn add_remote_writes_both_mc_fields() {
        let result = add_remote(
            BASE_KDL,
            "backup",
            RemoteSpec {
                url: "rustfs:http://nas:9000/bucket".to_string(),
                credentials: "aws".to_string(),
                mc_max_workers: Some(2),
                mc_limit_upload: Some("10MiB".to_string()),
            },
        )
        .unwrap();
        assert!(result.contains("mc-max-workers"));
        assert!(result.contains("mc-limit-upload"));
        assert!(result.contains(r#""10MiB""#));
    }

    const WITH_CALLS_KDL: &str = r#"default-task "backup"
tasks {
    task "backup" {
        backup {
            repo "/tmp/repo"
            directory "/tmp"
        }
    }
    task "secondary" {
        calls "backup"
    }
}
"#;

    #[test]
    fn edit_task_updates_fields() {
        let result = edit_task(
            BASE_KDL,
            "backup",
            EditTaskSpec {
                name: "backup".to_string(),
                description: Some("my backup".to_string()),
                repo: Some("/new/repo".to_string()),
                directory: Some("/new/dir".to_string()),
                exclude_file: None,
                files_from: None,
            },
        )
        .unwrap();
        assert!(result.contains(r#"description "my backup""#));
        assert!(result.contains(r#"repo "/new/repo""#));
        assert!(result.contains(r#"directory "/new/dir""#));
    }

    #[test]
    fn edit_task_renames_and_updates_references() {
        let result = edit_task(
            WITH_CALLS_KDL,
            "backup",
            EditTaskSpec {
                name: "main".to_string(),
                description: None,
                repo: Some("/tmp/repo".to_string()),
                directory: Some("/tmp".to_string()),
                exclude_file: None,
                files_from: None,
            },
        )
        .unwrap();
        assert!(result.contains(r#"default-task "main""#));
        assert!(result.contains(r#"task "main""#));
        assert!(!result.contains(r#"task "backup""#));
        assert!(result.contains(r#"calls "main""#));
        assert!(!result.contains(r#"calls "backup""#));
    }

    #[test]
    fn edit_task_removes_optional_field_when_none() {
        let with_dir = r#"default-task "backup"
tasks {
    task "backup" {
        backup {
            repo "/tmp/repo"
            directory "/tmp"
        }
    }
}
"#;
        let result = edit_task(
            with_dir,
            "backup",
            EditTaskSpec {
                name: "backup".to_string(),
                description: None,
                repo: Some("/tmp/repo".to_string()),
                directory: None,
                exclude_file: None,
                files_from: None,
            },
        )
        .unwrap();
        assert!(!result.contains("directory"));
        assert!(result.contains(r#"repo "/tmp/repo""#));
    }

    #[test]
    fn edit_task_errors_on_duplicate_name() {
        let err = edit_task(
            TWO_TASKS_KDL,
            "photos",
            EditTaskSpec {
                name: "backup".to_string(),
                description: None,
                repo: Some("/tmp/r2".to_string()),
                directory: None,
                exclude_file: None,
                files_from: None,
            },
        )
        .unwrap_err();
        assert!(err.contains("already exists"));
    }

    #[test]
    fn edit_task_errors_on_empty_name() {
        let err = edit_task(
            BASE_KDL,
            "backup",
            EditTaskSpec {
                name: String::new(),
                description: None,
                repo: Some("/tmp/repo".to_string()),
                directory: None,
                exclude_file: None,
                files_from: None,
            },
        )
        .unwrap_err();
        assert!(err.contains("cannot be empty"));
    }

    #[test]
    fn edit_task_skips_backup_fields_when_repo_is_none() {
        let cmd_only = r#"default-task "cmd"
tasks {
    task "cmd" {
        command "echo hi"
    }
}
"#;
        let result = edit_task(
            cmd_only,
            "cmd",
            EditTaskSpec {
                name: "cmd".to_string(),
                description: Some("a command task".to_string()),
                repo: None,
                directory: None,
                exclude_file: None,
                files_from: None,
            },
        )
        .unwrap();
        assert!(result.contains(r#"description "a command task""#));
        assert!(!result.contains("backup"));
    }

    #[test]
    fn edit_task_renames_non_default_task_leaves_default_task_unchanged() {
        let result = edit_task(
            WITH_CALLS_KDL,
            "secondary",
            EditTaskSpec {
                name: "mirror".to_string(),
                description: None,
                repo: None,
                directory: None,
                exclude_file: None,
                files_from: None,
            },
        )
        .unwrap();
        assert!(result.contains(r#"default-task "backup""#));
        assert!(result.contains(r#"task "mirror""#));
        assert!(!result.contains(r#"task "secondary""#));
    }

    const WITH_REMOTE_KDL: &str = r#"default-task "backup"
tasks {
    task "backup" {
        backup {
            repo "/tmp/repo"
            remote "s3:http://example.com/b" {
                credentials "aws"
            }
        }
    }
}
"#;

    #[test]
    fn remove_remote_removes_by_url() {
        let result = remove_remote(WITH_REMOTE_KDL, "backup", "s3:http://example.com/b").unwrap();
        assert!(!result.contains(r#"remote "s3:http://example.com/b""#));
        assert!(result.contains(r#"task "backup""#));
    }

    #[test]
    fn remove_remote_errors_when_url_not_found() {
        let err = remove_remote(WITH_REMOTE_KDL, "backup", "s3:http://other.com/b").unwrap_err();
        assert!(err.contains("not found"));
    }

    #[test]
    fn remove_remote_errors_when_task_not_found() {
        let err = remove_remote(WITH_REMOTE_KDL, "ghost", "s3:http://example.com/b").unwrap_err();
        assert!(err.contains("not found"));
    }

    #[test]
    fn edit_task_preserves_remote_order_when_updating_directory() {
        let kdl_with_dir_and_remote = r#"default-task "backup"
tasks {
    task "backup" {
        backup {
            repo "/tmp/repo"
            directory "/old/dir"
            remote "s3:http://example.com/b" {
                credentials "aws"
            }
        }
    }
}
"#;
        let result = edit_task(
            kdl_with_dir_and_remote,
            "backup",
            EditTaskSpec {
                name: "backup".to_string(),
                description: None,
                repo: Some("/tmp/repo".to_string()),
                directory: Some("/new/dir".to_string()),
                exclude_file: None,
                files_from: None,
            },
        )
        .unwrap();
        let dir_pos = result.find("directory").unwrap();
        let remote_pos = result.find("remote").unwrap();
        assert!(
            dir_pos < remote_pos,
            "directory should precede remote in output"
        );
    }

    #[test]
    fn edit_remote_updates_url_and_credentials() {
        let result = edit_remote(
            WITH_REMOTE_KDL,
            "backup",
            "s3:http://example.com/b",
            RemoteSpec {
                url: "rustfs:http://nas:9000/bucket".to_string(),
                credentials: "local".to_string(),
                mc_max_workers: None,
                mc_limit_upload: None,
            },
        )
        .unwrap();
        assert!(result.contains(r#"remote "rustfs:http://nas:9000/bucket""#));
        assert!(result.contains(r#"credentials "local""#));
        assert!(!result.contains(r#"remote "s3:http://example.com/b""#));
        assert!(!result.contains(r#"credentials "aws""#));
    }

    #[test]
    fn edit_remote_errors_when_url_not_found() {
        let err = edit_remote(
            WITH_REMOTE_KDL,
            "backup",
            "s3:http://other.com/b",
            RemoteSpec {
                url: "rustfs:http://nas:9000/bucket".to_string(),
                credentials: "local".to_string(),
                mc_max_workers: None,
                mc_limit_upload: None,
            },
        )
        .unwrap_err();
        assert!(err.contains("not found"));
    }

    #[test]
    fn edit_remote_errors_when_task_not_found() {
        let err = edit_remote(
            WITH_REMOTE_KDL,
            "ghost",
            "s3:http://example.com/b",
            RemoteSpec {
                url: "rustfs:http://nas:9000/bucket".to_string(),
                credentials: "local".to_string(),
                mc_max_workers: None,
                mc_limit_upload: None,
            },
        )
        .unwrap_err();
        assert!(err.contains("not found"));
    }

    #[test]
    fn edit_remote_errors_on_empty_url() {
        let err = edit_remote(
            WITH_REMOTE_KDL,
            "backup",
            "s3:http://example.com/b",
            RemoteSpec { url: String::new(), credentials: "aws".to_string(), mc_max_workers: None, mc_limit_upload: None },
        )
        .unwrap_err();
        assert!(err.contains("cannot be empty"));
    }

    #[test]
    fn edit_remote_errors_when_no_backup_block() {
        let no_backup = r#"default-task "cmd"
tasks {
    task "cmd" {
        command "echo hi"
    }
}
"#;
        let err = edit_remote(
            no_backup,
            "cmd",
            "s3:http://x",
            RemoteSpec { url: "s3:http://x".to_string(), credentials: "c".to_string(), mc_max_workers: None, mc_limit_upload: None },
        )
        .unwrap_err();
        assert!(err.contains("backup block"));
    }

    const WITH_RUSTFS_MC_KDL: &str = r#"default-task "backup"
tasks {
    task "backup" {
        backup {
            repo "/tmp/repo"
            remote "rustfs:http://nas:9000/bucket" {
                credentials "aws"
                mc-max-workers 2
                mc-limit-upload "5MiB"
            }
        }
    }
}
"#;

    #[test]
    fn edit_remote_adds_mc_max_workers_when_set() {
        let result = edit_remote(
            WITH_REMOTE_KDL,
            "backup",
            "s3:http://example.com/b",
            RemoteSpec {
                url: "rustfs:http://nas:9000/bucket".to_string(),
                credentials: "aws".to_string(),
                mc_max_workers: Some(4),
                mc_limit_upload: None,
            },
        )
        .unwrap();
        assert!(result.contains("mc-max-workers"));
        assert!(result.contains("4"));
    }

    #[test]
    fn edit_remote_removes_mc_max_workers_when_none() {
        let result = edit_remote(
            WITH_RUSTFS_MC_KDL,
            "backup",
            "rustfs:http://nas:9000/bucket",
            RemoteSpec {
                url: "rustfs:http://nas:9000/bucket".to_string(),
                credentials: "aws".to_string(),
                mc_max_workers: None,
                mc_limit_upload: Some("5MiB".to_string()),
            },
        )
        .unwrap();
        assert!(!result.contains("mc-max-workers"));
        assert!(result.contains("mc-limit-upload"));
    }

    #[test]
    fn edit_remote_removes_mc_limit_upload_when_none() {
        let result = edit_remote(
            WITH_RUSTFS_MC_KDL,
            "backup",
            "rustfs:http://nas:9000/bucket",
            RemoteSpec {
                url: "rustfs:http://nas:9000/bucket".to_string(),
                credentials: "aws".to_string(),
                mc_max_workers: Some(2),
                mc_limit_upload: None,
            },
        )
        .unwrap();
        assert!(!result.contains("mc-limit-upload"));
        assert!(result.contains("mc-max-workers"));
    }

    #[test]
    fn edit_remote_updates_mc_fields() {
        let result = edit_remote(
            WITH_RUSTFS_MC_KDL,
            "backup",
            "rustfs:http://nas:9000/bucket",
            RemoteSpec {
                url: "rustfs:http://nas:9000/bucket".to_string(),
                credentials: "aws".to_string(),
                mc_max_workers: Some(8),
                mc_limit_upload: Some("20MiB".to_string()),
            },
        )
        .unwrap();
        assert!(result.contains("8"));
        assert!(result.contains(r#""20MiB""#));
    }

    const MULTI_CALLS_KDL: &str = r#"default-task "main"
tasks {
    task "main" {
        calls "alpha"
        calls "beta"
        calls "gamma"
    }
    task "alpha" {
        command "echo alpha"
    }
    task "beta" {
        command "echo beta"
    }
    task "gamma" {
        command "echo gamma"
    }
}
"#;

    #[test]
    fn add_call_appends_call_node() {
        let result = add_call(WITH_CALLS_KDL, "backup", "secondary").unwrap();
        assert!(result.contains(r#"calls "secondary""#));
    }

    #[test]
    fn add_call_rejects_duplicate() {
        let err = add_call(WITH_CALLS_KDL, "secondary", "backup").unwrap_err();
        assert!(err.contains("already"));
    }

    #[test]
    fn add_call_errors_when_task_not_found() {
        let err = add_call(WITH_CALLS_KDL, "ghost", "backup").unwrap_err();
        assert!(err.contains("not found"));
    }

    #[test]
    fn remove_call_removes_by_index() {
        let result = remove_call(MULTI_CALLS_KDL, "main", 1).unwrap();
        assert!(!result.contains(r#"calls "beta""#));
        assert!(result.contains(r#"calls "alpha""#));
        assert!(result.contains(r#"calls "gamma""#));
    }

    #[test]
    fn remove_call_errors_on_out_of_range_index() {
        let err = remove_call(MULTI_CALLS_KDL, "main", 99).unwrap_err();
        assert!(err.contains("not found"));
    }

    #[test]
    fn move_call_up_swaps_with_predecessor() {
        let result = move_call_up(MULTI_CALLS_KDL, "main", 1).unwrap();
        let beta_pos = result.find(r#"calls "beta""#).unwrap();
        let alpha_pos = result.find(r#"calls "alpha""#).unwrap();
        assert!(beta_pos < alpha_pos, "beta should precede alpha after moving index 1 up");
    }

    #[test]
    fn move_call_up_noop_at_index_zero() {
        let result = move_call_up(MULTI_CALLS_KDL, "main", 0).unwrap();
        assert_eq!(result, MULTI_CALLS_KDL);
    }

    #[test]
    fn move_call_down_swaps_with_successor() {
        let result = move_call_down(MULTI_CALLS_KDL, "main", 1).unwrap();
        let beta_pos = result.find(r#"calls "beta""#).unwrap();
        let gamma_pos = result.find(r#"calls "gamma""#).unwrap();
        assert!(beta_pos > gamma_pos, "gamma should precede beta after moving index 1 down");
    }

    #[test]
    fn move_call_down_noop_at_last_index() {
        let result = move_call_down(MULTI_CALLS_KDL, "main", 2).unwrap();
        assert_eq!(result, MULTI_CALLS_KDL);
    }

    #[test]
    fn set_default_task_updates_node() {
        let result = set_default_task(TWO_TASKS_KDL, "photos").unwrap();
        assert!(result.contains(r#"default-task "photos""#));
        assert!(!result.contains(r#"default-task "backup""#));
    }

    #[test]
    fn set_default_task_errors_when_task_not_found() {
        let err = set_default_task(TWO_TASKS_KDL, "nonexistent").unwrap_err();
        assert!(err.contains("not found"));
    }

fn normalized(kdl: &str) -> Vec<String> {
    kdl.lines().map(|l| l.trim().to_string()).filter(|l| !l.is_empty()).collect()
}

const LAW_KDL: &str = r#"default-task "backup"
tasks {
    task "backup" {
        backup {
            repo "/tmp/repo"
            remote "s3:http://a/b" {
                credentials "aws"
            }
        }
        calls "other"
        calls "third"
    }
    task "other" {
        command "echo hi"
    }
    task "third" {
        command "echo bye"
    }
}
"#;

#[test]
fn moving_a_call_up_then_down_restores_the_config() {
    let up = move_call_up(LAW_KDL, "backup", 1).unwrap();
    assert!(up.find(r#"calls "third""#).unwrap() < up.find(r#"calls "other""#).unwrap());
    let back = move_call_down(&up, "backup", 0).unwrap();
    assert_eq!(normalized(&back), normalized(LAW_KDL));
}

#[test]
fn removing_an_added_call_restores_the_config() {
    let added = add_call(LAW_KDL, "backup", "x").unwrap();
    let back = remove_call(&added, "backup", 2).unwrap();
    assert_eq!(normalized(&back), normalized(LAW_KDL));
}

#[test]
fn removing_an_added_remote_restores_the_config() {
    let spec = RemoteSpec { url: "b2:x:y".to_string(), credentials: "b2".to_string(), mc_max_workers: Some(2), mc_limit_upload: None };
    let added = add_remote(LAW_KDL, "backup", spec).unwrap();
    let back = remove_remote(&added, "backup", "b2:x:y").unwrap();
    assert_eq!(normalized(&back), normalized(LAW_KDL));
}

#[test]
fn removing_an_added_task_restores_the_config() {
    let spec = TaskSpec { name: "new".to_string(), repo: Some("/r".to_string()), directory: None, exclude_file: None };
    let added = add_task(LAW_KDL, spec).unwrap();
    let back = remove_task(&added, "new").unwrap();
    assert_eq!(normalized(&back), normalized(LAW_KDL));
}

#[test]
fn setting_the_default_task_twice_is_setting_it_once() {
    let once = set_default_task(LAW_KDL, "other").unwrap();
    let twice = set_default_task(&once, "other").unwrap();
    assert_eq!(once, twice);
    assert!(once.contains(r#"default-task "other""#));
}

#[test]
fn first_setup_adds_task_remote_and_default() {
    let skeleton = "default-task \"\"\n\ntasks {\n}\n";
    let kdl = vivo::config_editor::first_task_config(
        skeleton,
        "backup",
        "$HOME/repo",
        "$HOME",
        "$HOME/.config/vivo/excludes",
        Some(("s3:http://h/b", "aws")),
    )
    .unwrap();
    assert!(kdl.contains(r#"default-task "backup""#));
    assert!(kdl.contains(r#"task "backup""#));
    assert!(kdl.contains(r#"remote "s3:http://h/b""#));
    assert!(kdl.contains(r#"credentials "aws""#));
    assert!(vivo::config_editor::first_task_config("not kdl {{{", "b", "r", "d", "e", None).is_err());
}

#[test]
fn renaming_the_default_task_keeps_it_default_and_findable() {
    let spec = EditTaskSpec {
        name: "main".to_string(),
        description: None,
        repo: None,
        directory: None,
        exclude_file: None,
        files_from: None,
    };
    let kdl = edit_task(LAW_KDL, "backup", spec).unwrap();
    assert!(kdl.contains(r#"default-task "main""#));
    assert!(kdl.contains(r#"task "main""#));
    assert!(!kdl.contains(r#"task "backup""#));
    let again = EditTaskSpec {
        name: "backup".to_string(),
        description: None,
        repo: None,
        directory: None,
        exclude_file: None,
        files_from: None,
    };
    let back = edit_task(&kdl, "main", again).unwrap();
    assert_eq!(normalized(&back), normalized(LAW_KDL));
}

#[test]
fn an_edit_keeps_comments_inside_the_kept_nodes() {
    let kdl = "default-task \"backup\" // the usual one\ntasks {\n    // every task\n    task \"backup\" {\n        backup {\n            repo \"/tmp/repo\" // local\n        }\n    }\n}\n";
    let result = set_default_task(kdl, "backup").unwrap();
    assert!(result.contains("// every task"));
    assert!(result.contains("// local"));
    let added = add_task(
        kdl,
        TaskSpec { name: "photos".to_string(), repo: None, directory: None, exclude_file: None },
    )
    .unwrap();
    assert!(added.contains("// every task"));
    assert!(added.contains("// local"));
    assert!(added.contains("// the usual one"));
}
