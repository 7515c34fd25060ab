use vivo::backup_run::{RunNext, RunProgress};
use vivo::backup_config::{find_task_index, Backup, BackupConfig, Remote, Retention, Task};
use vivo::backup_run::{decimal_i16, RunStep};
use vivo::config::VivoConfig;
use vivo::env::{expand_env_vars, expand_home};
use vivo::step::Step;
use vivo::task_run::{run_order, Visit};

fn remote(url: &str, creds: &str) -> Remote {
    Remote { url: url.to_string(), credentials: creds.to_string(), mc_max_workers: None, mc_limit_upload: None }
}

fn backup(repo: &str) -> Backup {
    Backup {
        repo: repo.to_string(),
        exclude_file: None,
        directory: Some("/tmp".to_string()),
        files_from: None,
        remotes: vec![],
        retention: None,
        dry_run: None,
    }
}

fn task(name: &str, b: Option<Backup>, calls: &[&str]) -> Task {
    Task {
        name: name.to_string(),
        description: None,
        backup: b,
        commands: vec![],
        calls: calls.iter().map(|c| c.to_string()).collect(),
    }
}

fn vars() -> Vec<(String, String)> {
    vec![("HOME".to_string(), "/home/u".to_string()), ("DATA".to_string(), "/srv/data".to_string())]
}

fn config(start: Step, dry_run: bool) -> VivoConfig {
    VivoConfig { task_name: None, config_file: None, dry_run, start_step: start }
}

#[test]
fn all_remotes_returns_url_and_credentials() {
    let mut b = backup("/tmp/repo");
    b.remotes.push(remote("s3:http://example.com/bucket", "aws"));
    let cfg = BackupConfig { default_task: "t".to_string(), tasks: vec![task("t", Some(b), &[])] };
    let remotes = cfg.all_remotes();
    assert_eq!(remotes, vec![("s3:http://example.com/bucket", "aws")]);
}

#[test]
fn all_remotes_empty_when_no_backup() {
    let cfg = BackupConfig { default_task: "t".to_string(), tasks: vec![task("t", None, &[])] };
    assert!(cfg.all_remotes().is_empty());
}

#[test]
fn all_remotes_collects_across_tasks() {
    let mut b1 = backup("/tmp/r1");
    b1.remotes.push(remote("s3:http://s3.example.com/b1", "aws"));
    let mut b2 = backup("/tmp/r2");
    b2.remotes.push(remote("b2:bucket:path", "b2"));
    let cfg = BackupConfig { default_task: "a".to_string(), tasks: vec![task("a", Some(b1), &[]), task("b", Some(b2), &[])] };
    assert_eq!(cfg.all_remotes().len(), 2);
    assert_eq!(cfg.remotes_for_task("b"), vec![("b2:bucket:path", "b2")]);
    assert!(cfg.remotes_for_task("zzz").is_empty());
    assert_eq!(cfg.tasks[0].backup_remotes(), vec![("s3:http://s3.example.com/b1", "aws")]);
}

#[test]
fn accessors_read_the_backup_block() {
    let mut b = backup("$HOME/repo");
    b.exclude_file = Some("/ex".to_string());
    let t = task("t", Some(b), &["x", "y"]);
    assert_eq!(t.backup_repo(), Some("$HOME/repo"));
    assert_eq!(t.backup_directory(), Some("/tmp"));
    assert_eq!(t.backup_exclude_file(), Some("/ex"));
    assert_eq!(t.backup_files_from(), None);
    assert_eq!(t.call_names(), vec!["x", "y"]);
    assert_eq!(t.backup().unwrap().repo(), "$HOME/repo");
    assert!(task("n", None, &[]).backup_repo().is_none());
}

#[test]
fn expand_env_vars_expands_leading_tilde() {
    assert_eq!(expand_env_vars("~/.restic/repo/sync", &vars()), "/home/u/.restic/repo/sync");
    assert_eq!(expand_env_vars("~", &vars()), "/home/u");
}

#[test]
fn expand_env_vars_leaves_non_home_tilde_alone() {
    assert_eq!(expand_env_vars("~backup/.restic", &vars()), "~backup/.restic");
}

#[test]
fn expand_env_vars_replaces_set_variables_only() {
    assert_eq!(expand_env_vars("$DATA/x", &vars()), "/srv/data/x");
    assert_eq!(expand_env_vars("$HOME/.local/share/restic/main", &vars()), "/home/u/.local/share/restic/main");
    assert_eq!(expand_env_vars("$NOPE/y", &vars()), "$NOPE/y");
    assert_eq!(expand_env_vars("$lower/y", &vars()), "$lower/y");
    assert_eq!(expand_env_vars("a$DATA$DATA", &vars()), "a/srv/data/srv/data");
    assert_eq!(expand_env_vars("~/x", &vec![]), "~/x");
    assert_eq!(expand_home("~", None), "~");
}

#[test]
fn a_reference_runs_over_the_longest_name() {
    assert_eq!(expand_env_vars("$DATA_2/x", &vars()), "$DATA_2/x");
    assert_eq!(expand_env_vars("$DATA-2", &vars()), "/srv/data-2");
    assert_eq!(expand_env_vars("$$DATA", &vars()), "$/srv/data");
}

#[test]
fn restic_arguments_follow_the_backup_block() {
    let mut b = backup("$DATA/repo");
    assert_eq!(b.backup_args(false, &vars()), vec!["backup", "-r", "/srv/data/repo", "/tmp"]);
    b.files_from = Some("~/list".to_string());
    b.exclude_file = Some("~/ex".to_string());
    assert_eq!(
        b.backup_args(true, &vars()),
        vec!["backup", "-r", "/srv/data/repo", "--files-from", "/home/u/list", "--exclude-file", "/home/u/ex", "--dry-run"]
    );
    assert_eq!(b.check_args(&vars()), vec!["check", "-r", "/srv/data/repo"]);
    assert_eq!(
        b.forget_args(false, &vars()),
        vec![
            "forget", "-r", "/srv/data/repo", "--keep-daily", "7", "--keep-weekly", "5", "--keep-monthly", "12",
            "--keep-yearly", "2", "--prune"
        ]
    );
    b.retention = Some(Retention { daily: Some(3), weekly: None, monthly: Some(-1), yearly: None });
    assert_eq!(b.retention_counts(), (3, 5, -1, 2));
    assert_eq!(b.forget_args(true, &vars())[4], "3");
    assert_eq!(b.forget_args(true, &vars())[8], "-1");
    assert_eq!(b.forget_args(true, &vars()).last().unwrap(), "--dry-run");
    assert_eq!(decimal_i16(i16::MIN), "-32768");
    assert_eq!(decimal_i16(0), "0");
}

#[test]
fn local_repositories_are_recognised() {
    assert!(Backup::is_local_repo("/home/u/repo"));
    assert!(Backup::is_local_repo("relative/repo"));
    assert!(Backup::is_local_repo("./a:b"));
    assert!(Backup::is_local_repo("~/a:b"));
    assert!(!Backup::is_local_repo("s3:http://host/b"));
    assert_eq!(Backup::init_args("/r"), vec!["init", "-r", "/r"]);
}

fn restic(step: &RunStep) -> Option<&str> {
    match step {
        RunStep::Restic(args) => Some(args[0].as_str()),
        _ => None,
    }
}

#[test]
fn run_plan_starts_at_the_start_step() {
    let b = backup("/tmp/repo");
    let plan = b.run(&config(Step::Backup, false), &vars());
    assert_eq!(plan.len(), 5);
    assert!(matches!(&plan[0], RunStep::InitLocalRepo(p) if p == "/tmp/repo"));
    assert_eq!(restic(&plan[1]), Some("backup"));
    assert_eq!(restic(&plan[2]), Some("check"));
    assert_eq!(restic(&plan[3]), Some("forget"));
    assert!(matches!(&plan[4], RunStep::SyncRemotes(p, false) if p == "/tmp/repo"));

    let plan = b.run(&config(Step::Forget, true), &vars());
    assert_eq!(plan.len(), 2);
    assert_eq!(restic(&plan[0]), Some("forget"));
    assert!(matches!(&plan[1], RunStep::SyncRemotes(_, true)));

    let plan = b.run(&config(Step::Sync, false), &vars());
    assert_eq!(plan.len(), 1);

    let mut remote_repo = backup("s3:http://h/b");
    remote_repo.dry_run = Some(true);
    let plan = remote_repo.run(&config(Step::Backup, false), &vars());
    assert_eq!(plan.len(), 4);
    assert_eq!(restic(&plan[0]), Some("backup"));
    assert!(matches!(&plan[3], RunStep::SyncRemotes(_, true)));
    assert!(remote_repo.effective_dry_run(&config(Step::Backup, false)));
}

fn names(tasks: &[Task], order: &[Visit]) -> Vec<String> {
    order
        .iter()
        .map(|v| match v {
            Visit::Run(i) => format!("run {}", tasks[*i].name),
            Visit::Circular(n) => format!("circular {n}"),
            Visit::Missing(n) => format!("missing {n}"),
            Visit::Completed(n) => format!("done {n}"),
        })
        .collect()
}

#[test]
fn run_order_follows_calls_and_skips_cycles() {
    let tasks = vec![task("a", None, &["b", "c", "zz"]), task("b", None, &["a"]), task("c", None, &["c", "b"])];
    let order = run_order(&tasks, 0);
    assert_eq!(
        names(&tasks, &order),
        vec![
            "run a", "run b", "circular a", "done b", "run c", "circular c", "run b", "circular a", "done b",
            "done c", "missing zz"
        ]
    );
}

#[test]
fn task_calling_itself_runs_once() {
    let tasks = vec![task("loop", None, &["loop"])];
    assert_eq!(names(&tasks, &run_order(&tasks, 0)), vec!["run loop", "circular loop"]);
}

#[test]
fn selected_task_uses_default_or_requested() {
    let cfg = BackupConfig { default_task: "b".to_string(), tasks: vec![task("a", None, &[]), task("b", None, &[])] };
    assert_eq!(cfg.selected_task(None).unwrap(), 1);
    assert_eq!(cfg.selected_task(Some("a")).unwrap(), 0);
    assert_eq!(cfg.selected_task(Some("x")).unwrap_err(), "task 'x' not found in config");
    assert_eq!(find_task_index(&cfg.tasks, "b"), Some(1));
}

#[test]
fn a_dry_run_creates_no_repository() {
    let b = backup("/tmp/repo");
    let plan = b.run(&config(Step::Backup, true), &vars());
    assert_eq!(plan.len(), 4);
    assert_eq!(restic(&plan[0]), Some("backup"));
    assert!(plan.iter().all(|s| !matches!(s, RunStep::InitLocalRepo(_))));
}

#[test]
fn a_run_stops_at_the_first_failed_step() {
    let b = backup("/tmp/repo");
    let (mut run, next) = RunProgress::start(b.run(&config(Step::Backup, false), &vars()));
    assert!(matches!(next, RunNext::Step(0)));
    assert!(matches!(run.finished(Ok(())), RunNext::Step(1)));
    match run.finished(Err("backup failed".to_string())) {
        RunNext::Done(Err(e)) => assert_eq!(e, "backup failed"),
        _ => panic!("expected the run to stop"),
    }
    // A sync never fails the run.
    let (mut run, _) = RunProgress::start(b.run(&config(Step::Sync, false), &vars()));
    assert!(matches!(run.finished(Err("sync".to_string())), RunNext::Done(Ok(()))));
    let (mut run, _) = RunProgress::start(b.run(&config(Step::Forget, false), &vars()));
    assert!(matches!(run.finished(Ok(())), RunNext::Step(1)));
    assert!(matches!(run.finished(Ok(())), RunNext::Done(Ok(()))));
}
