use vivo::backup_config::{Backup, BackupConfig, Remote, Task};
use vivo::tui_app::{field_names, App, Pane, FIELD_COUNT};
use vivo::tui_events::{
    after_move_call, call_options, edit_spec_for_field, finish_prompt, handle_key, repo_needs_init, Key, KeyAction,
};

#[test]
fn repo_needs_init_detects_missing_repo() {
    let output = "Fatal: unable to open config file: Stat: The specified key does not exist.\nIs there a repository at the following location?\ns3:https://example.com/bucket\n";
    assert!(repo_needs_init(output));
}

#[test]
fn repo_needs_init_false_for_other_errors() {
    let output = "Fatal: unable to open config file: Forbidden\n";
    assert!(!repo_needs_init(output));
}

#[test]
fn repo_needs_init_false_for_success() {
    let output = "snapshot abc123 ...\n";
    assert!(!repo_needs_init(output));
}

fn task(name: &str, remotes: &[&str], calls: &[&str]) -> Task {
    Task {
        name: name.to_string(),
        description: Some(format!("{name} task")),
        backup: Some(Backup {
            repo: format!("/tmp/{name}"),
            exclude_file: None,
            directory: None,
            files_from: None,
            remotes: remotes
                .iter()
                .map(|u| Remote {
                    url: u.to_string(),
                    credentials: "creds".to_string(),
                    mc_max_workers: None,
                    mc_limit_upload: None,
                })
                .collect(),
            retention: None,
            dry_run: None,
        }),
        commands: vec![],
        calls: calls.iter().map(|c| c.to_string()).collect(),
    }
}

fn config() -> BackupConfig {
    BackupConfig {
        default_task: "a".to_string(),
        tasks: vec![task("a", &["s3:x", "b2:y"], &["b"]), task("b", &[], &[]), task("c", &["s3:z"], &["a", "b"])],
    }
}

#[test]
fn new_app_shows_every_task() {
    let app = App::new(&config(), "/c.kdl".to_string());
    assert_eq!(app.tasks.len(), 3);
    assert_eq!(app.tasks[0].remotes.len(), 2);
    assert_eq!(app.tasks[0].remotes[1].url, "b2:y");
    assert_eq!(app.tasks[2].calls, vec!["a", "b"]);
    assert_eq!(app.tasks[0].repo.as_deref(), Some("/tmp/a"));
    assert_eq!(app.default_task, "a");
    assert_eq!(app.focused_pane, Pane::Tasks);
    assert_eq!(field_names().len(), FIELD_COUNT);
    assert_eq!(app.current_remotes().len(), 2);
    assert_eq!(app.current_calls().len(), 1);
}

#[test]
fn keys_move_and_switch_panes() {
    let mut app = App::new(&config(), "/c.kdl".to_string());
    assert_eq!(handle_key(&mut app, Key::Down, 0), KeyAction::Nothing);
    assert_eq!(app.selected_task, 1);
    handle_key(&mut app, Key::Down, 0);
    handle_key(&mut app, Key::Down, 0);
    assert_eq!(app.selected_task, 2);
    handle_key(&mut app, Key::Tab, 0);
    assert_eq!(app.focused_pane, Pane::Fields);
    for _ in 0..10 {
        handle_key(&mut app, Key::Down, 0);
    }
    assert_eq!(app.selected_field, FIELD_COUNT - 1);
    handle_key(&mut app, Key::Tab, 0);
    handle_key(&mut app, Key::Down, 0);
    assert_eq!(app.selected_remote, 0);
    handle_key(&mut app, Key::Tab, 0);
    assert_eq!(app.focused_pane, Pane::Calls);
    handle_key(&mut app, Key::Down, 0);
    assert_eq!(app.selected_call, 1);
    assert_eq!(handle_key(&mut app, Key::CtrlUp, 0), KeyAction::MoveCallUp(1));
    assert_eq!(handle_key(&mut app, Key::CtrlDown, 0), KeyAction::Nothing);
    handle_key(&mut app, Key::Tab, 0);
    assert_eq!(app.focused_pane, Pane::Tasks);
    handle_key(&mut app, Key::Char('q'), 0);
    assert!(app.should_quit);
}

#[test]
fn keys_name_prompts_by_pane() {
    let mut app = App::new(&config(), "/c.kdl".to_string());
    assert_eq!(handle_key(&mut app, Key::Char('a'), 0), KeyAction::AddTask);
    assert_eq!(handle_key(&mut app, Key::Char('e'), 0), KeyAction::EditTask);
    assert_eq!(handle_key(&mut app, Key::Char('o'), 0), KeyAction::OpenEditor);
    assert_eq!(handle_key(&mut app, Key::Char('s'), 5), KeyAction::Nothing);
    assert_eq!(app.status_message.as_deref(), Some("Already the default task."));
    assert_eq!(app.status_expires_at, Some(2005));
    handle_key(&mut app, Key::Down, 0);
    assert_eq!(handle_key(&mut app, Key::Char('s'), 0), KeyAction::SetDefault("b".to_string()));
    handle_key(&mut app, Key::Tab, 0);
    handle_key(&mut app, Key::Tab, 0);
    assert_eq!(handle_key(&mut app, Key::Char('d'), 0), KeyAction::Nothing);
    assert_eq!(handle_key(&mut app, Key::Char('t'), 0), KeyAction::Nothing);
    handle_key(&mut app, Key::Up, 0);
    handle_key(&mut app, Key::Tab, 0);
    handle_key(&mut app, Key::Tab, 0);
    handle_key(&mut app, Key::Up, 0);
    assert_eq!(app.selected_task, 0);
    handle_key(&mut app, Key::Tab, 0);
    handle_key(&mut app, Key::Tab, 0);
    assert_eq!(app.focused_pane, Pane::Remotes);
    assert_eq!(handle_key(&mut app, Key::Char('t'), 0), KeyAction::TestRemote);
    assert_eq!(handle_key(&mut app, Key::Char('d'), 0), KeyAction::DeleteRemote);
    assert_eq!(handle_key(&mut app, Key::Char('e'), 0), KeyAction::EditRemote);
}

#[test]
fn status_expires_after_two_seconds() {
    let mut app = App::new(&config(), "/c.kdl".to_string());
    app.set_status("hi".to_string(), 1000);
    app.tick_status(2999);
    assert_eq!(app.status_message.as_deref(), Some("hi"));
    app.tick_status(3000);
    assert!(app.status_message.is_none());
    assert!(app.status_expires_at.is_none());
    assert_eq!(app.config_path, "/c.kdl");
}

#[test]
fn reload_clamps_selections() {
    let mut app = App::new(&config(), "/c.kdl".to_string());
    app.selected_task = 2;
    app.selected_field = 5;
    app.selected_call = 1;
    app.focused_pane = Pane::Calls;
    let smaller = BackupConfig { default_task: "b".to_string(), tasks: vec![task("a", &["u"], &[])] };
    app.reload(&smaller);
    assert_eq!(app.selected_task, 0);
    assert_eq!(app.selected_field, 5);
    assert_eq!(app.selected_call, 0);
    assert_eq!(app.selected_remote, 0);
    assert_eq!(app.focused_pane, Pane::Calls);
    assert_eq!(app.default_task, "b");
    let empty = BackupConfig { default_task: String::new(), tasks: vec![] };
    app.reload(&empty);
    assert_eq!(app.selected_task, 0);
    assert!(app.current_remotes().is_empty());
    assert!(app.current_calls().is_empty());
}

#[test]
fn finish_prompt_reports_and_reloads() {
    let mut app = App::new(&config(), "/c.kdl".to_string());
    finish_prompt(&mut app, Err("boom".to_string()), None, 10);
    assert_eq!(app.status_message.as_deref(), Some("error: boom"));
    assert!(app.needs_clear);
    let smaller = BackupConfig { default_task: "a".to_string(), tasks: vec![task("a", &[], &[])] };
    finish_prompt(&mut app, Ok("Added.".to_string()), Some(&smaller), 20);
    assert_eq!(app.tasks.len(), 1);
    assert_eq!(app.status_message.as_deref(), Some("Added."));
    finish_prompt(&mut app, Ok(String::new()), None, 30);
    assert_eq!(app.status_message.as_deref(), Some("Added."));
}

#[test]
fn moved_call_stays_selected() {
    let mut app = App::new(&config(), "/c.kdl".to_string());
    app.selected_call = 1;
    after_move_call(&mut app, true, false);
    assert_eq!(app.selected_call, 0);
    after_move_call(&mut app, false, false);
    assert_eq!(app.selected_call, 1);
    after_move_call(&mut app, false, true);
    assert_eq!(app.selected_call, 1);
}

#[test]
fn call_options_exclude_self_and_existing_calls() {
    let mut app = App::new(&config(), "/c.kdl".to_string());
    assert_eq!(call_options(&app), vec!["c"]);
    app.selected_task = 1;
    assert_eq!(call_options(&app), vec!["a", "c"]);
    app.selected_task = 2;
    assert!(call_options(&app).is_empty());
}

#[test]
fn field_edits_build_the_task_edit() {
    let app = App::new(&config(), "/c.kdl".to_string());
    let t = &app.tasks[0];
    let e = edit_spec_for_field(t, 0, "renamed".to_string()).unwrap().unwrap();
    assert_eq!(e.name, "renamed");
    assert_eq!(e.repo.as_deref(), Some("/tmp/a"));
    assert_eq!(edit_spec_for_field(t, 0, "  ".to_string()).unwrap().err().unwrap(), "task name cannot be empty");
    let e = edit_spec_for_field(t, 1, String::new()).unwrap().unwrap();
    assert!(e.description.is_none());
    let e = edit_spec_for_field(t, 3, "/home".to_string()).unwrap().unwrap();
    assert_eq!(e.directory.as_deref(), Some("/home"));
    assert!(edit_spec_for_field(t, 6, "x".to_string()).is_none());
    let mut bare = App::new(&config(), "/c.kdl".to_string());
    bare.tasks[0].repo = None;
    assert_eq!(
        edit_spec_for_field(&bare.tasks[0], 4, "x".to_string()).unwrap().err().unwrap(),
        "set a repo path first"
    );
}
