//! The repositories that can be mounted: each task's local repository and remotes.
use vstd::prelude::*;
use crate::backup_config::{Task, remote_pairs, task_remotes};
use crate::doctor::{CheckResult, CheckStatus, any_failed, result_view};
use crate::remote_test::{password_env, password_vars};
use crate::sync_plan::{CommandSpec, command_view};
use crate::text::{cat, cat3, cat4, decimal, decimal_u64, is_prefix, owned, starts_with, string_of, chars_of, views};

verus! {

/// A repository that can be mounted, with the label it is offered under.
pub struct MountEntry {
    pub label: String,
    pub task_name: String,
    pub repo_url: String,
    pub credentials_profile: Option<String>,
}

/// A mount entry as plain values.
pub open spec fn entry_view(e: MountEntry) -> (Seq<char>, Seq<char>, Seq<char>, Option<Seq<char>>) {
    (e.label@, e.task_name@, e.repo_url@, match e.credentials_profile {
        Some(p) => Some(p@),
        None => None,
    })
}

/// The plain values of mount entries.
pub open spec fn entry_views(v: Seq<MountEntry>) -> Seq<(Seq<char>, Seq<char>, Seq<char>, Option<Seq<char>>)> {
    v.map_values(|e: MountEntry| entry_view(e))
}

/// The URL restic opens a repository at: a `rustfs:` remote is an S3 repository.
pub open spec fn restic_repo_url(url: Seq<char>) -> Seq<char> {
    if is_prefix("rustfs:"@, url) {
        "s3:"@ + url.subrange(7, url.len() as int)
    } else {
        url
    }
}

/// Rewrites a `rustfs:` URL to the `s3:` URL that restic reads; other URLs unchanged.
pub fn normalize_repo_url(url: &str) -> (r: String)
    ensures
        r@ == restic_repo_url(url@),
{
    proof {
        reveal_strlit("rustfs:");
    }
    if starts_with(url, "rustfs:") {
        let v = chars_of(url);
        let rest = string_of(&v, 7, v.len());
        cat("s3:", rest.as_str())
    } else {
        owned(url)
    }
}

/// Rewriting a URL a second time changes nothing.
pub proof fn normalize_is_idempotent(url: Seq<char>)
    ensures
        restic_repo_url(restic_repo_url(url)) == restic_repo_url(url),
{
    reveal_strlit("rustfs:");
    reveal_strlit("s3:");
    if is_prefix("rustfs:"@, url) {
        let r = restic_repo_url(url);
        assert(r[1] == '3');
        assert("rustfs:"@[1] == 'u');
        assert(!is_prefix("rustfs:"@, r)) by {
            if r.len() >= 7 {
                assert(r.subrange(0, 7)[1] == r[1]);
            }
        }
    }
}

/// The mount entries of a task: its local repository where it has a backup block,
/// labelled `<task> (local)`, then each remote, labelled `<task> → <url>`.
pub open spec fn task_entries(t: Task) -> Seq<(Seq<char>, Seq<char>, Seq<char>, Option<Seq<char>>)> {
    match t.backup {
        Some(b) => seq![(t.name@ + " (local)"@, t.name@, b.repo@, None::<Seq<char>>)] + remote_pairs(b.remotes@).map_values(
            |p: (Seq<char>, Seq<char>)| (t.name@ + " \u{2192} "@ + p.0, t.name@, p.0, Some(p.1))),
        None => Seq::empty(),
    }
}

/// The mount entries of all tasks, task by task.
pub open spec fn entries_of(ts: Seq<Task>) -> Seq<(Seq<char>, Seq<char>, Seq<char>, Option<Seq<char>>)>
    decreases ts.len(),
{
    if ts.len() == 0 {
        Seq::empty()
    } else {
        entries_of(ts.drop_last()) + task_entries(ts.last())
    }
}

fn push_task_entries(out: &mut Vec<MountEntry>, t: &Task)
    ensures
        entry_views(final(out)@) == entry_views(old(out)@) + task_entries(*t),
{
    let ghost start = entry_views(out@);
    match &t.backup {
        Some(b) => {
            out.push(MountEntry {
                label: cat(t.name.as_str(), " (local)"),
                task_name: t.name.clone(),
                repo_url: b.repo.clone(),
                credentials_profile: None,
            });
            let ghost rs = remote_pairs(b.remotes@).map_values(
                |p: (Seq<char>, Seq<char>)| (t.name@ + " \u{2192} "@ + p.0, t.name@, p.0, Some(p.1)));
            let ghost head = start.push((t.name@ + " (local)"@, t.name@, b.repo@, None::<Seq<char>>));
            assert(entry_views(out@) =~= head);
            let mut i: usize = 0;
            while i < b.remotes.len()
                invariant
                    i <= b.remotes@.len(),
                    rs.len() == b.remotes@.len(),
                    rs == remote_pairs(b.remotes@).map_values(
                        |p: (Seq<char>, Seq<char>)| (t.name@ + " \u{2192} "@ + p.0, t.name@, p.0, Some(p.1))),
                    entry_views(out@) == head + rs.take(i as int),
                decreases b.remotes.len() - i,
            {
                let r = &b.remotes[i];
                let ghost before = entry_views(out@);
                out.push(MountEntry {
                    label: cat3(t.name.as_str(), " \u{2192} ", r.url.as_str()),
                    task_name: t.name.clone(),
                    repo_url: r.url.clone(),
                    credentials_profile: Some(r.credentials.clone()),
                });
                assert(entry_views(out@) =~= before.push(rs[i as int]));
                assert(rs.take(i + 1) =~= rs.take(i as int).push(rs[i as int]));
                i = i + 1;
            }
            assert(rs.take(rs.len() as int) =~= rs);
            assert(entry_views(out@) =~= start + task_entries(*t));
        },
        None => {
            assert(entry_views(out@) =~= start + task_entries(*t));
        },
    }
}

/// The repositories of all tasks that can be mounted, task by task.
pub fn build_entries(tasks: &Vec<Task>) -> (r: Vec<MountEntry>)
    ensures
        entry_views(r@) == entries_of(tasks@),
{
    let mut out: Vec<MountEntry> = Vec::new();
    let mut i: usize = 0;
    while i < tasks.len()
        invariant
            i <= tasks@.len(),
            entry_views(out@) == entries_of(tasks@.take(i as int)),
        decreases tasks.len() - i,
    {
        assert(tasks@.take(i + 1).drop_last() =~= tasks@.take(i as int));
        push_task_entries(&mut out, &tasks[i]);
        i = i + 1;
    }
    assert(tasks@.take(tasks@.len() as int) =~= tasks@);
    out
}

/// The entries of two lists of tasks, one after the other, are the entries of the
/// first list followed by those of the second.
pub proof fn entries_of_concatenation(ts: Seq<Task>, us: Seq<Task>)
    ensures
        entries_of(ts + us) == entries_of(ts) + entries_of(us),
    decreases us.len(),
{
    if us.len() == 0 {
        assert(ts + us =~= ts);
        assert(entries_of(ts) + entries_of(us) =~= entries_of(ts));
    } else {
        assert((ts + us).drop_last() =~= ts + us.drop_last());
        assert((ts + us).last() == us.last());
        entries_of_concatenation(ts, us.drop_last());
        assert(entries_of(ts + us) =~= entries_of(ts) + entries_of(us));
    }
}

/// Every task with a backup block offers its local repository for mounting, with its
/// remotes after it, wherever it stands among the tasks: the entries of all tasks are
/// those of the tasks before it, then its own, then those of the tasks after it.
pub proof fn every_task_is_offered(ts: Seq<Task>, i: int)
    requires
        0 <= i < ts.len(),
    ensures
        entries_of(ts) == entries_of(ts.take(i)) + task_entries(ts[i]) + entries_of(ts.skip(i + 1)),
        ts[i].backup matches Some(b) ==> entries_of(ts).contains(
            (ts[i].name@ + " (local)"@, ts[i].name@, b.repo@, None::<Seq<char>>)),
{
    assert(ts =~= ts.take(i) + (seq![ts[i]] + ts.skip(i + 1)));
    entries_of_concatenation(ts.take(i), seq![ts[i]] + ts.skip(i + 1));
    entries_of_concatenation(seq![ts[i]], ts.skip(i + 1));
    assert(seq![ts[i]].drop_last() =~= Seq::<Task>::empty());
    assert(seq![ts[i]].last() == ts[i]);
    assert(entries_of(Seq::<Task>::empty()) == Seq::<(Seq<char>, Seq<char>, Seq<char>, Option<Seq<char>>)>::empty());
    assert(entries_of(seq![ts[i]]) == entries_of(Seq::<Task>::empty()) + task_entries(ts[i]));
    assert(entries_of(seq![ts[i]]) =~= task_entries(ts[i]));
    let e = entries_of(ts);
    assert(e =~= entries_of(ts.take(i)) + task_entries(ts[i]) + entries_of(ts.skip(i + 1)));
    if let Some(b) = ts[i].backup {
        let k = entries_of(ts.take(i)).len() as int;
        assert(e[k] == task_entries(ts[i])[0]);
    }
}

/// Every remote of a task with a backup block is offered for mounting, after its
/// local repository: a task offers one entry more than it has remotes.
pub proof fn entries_cover_remotes(t: Task)
    ensures
        t.backup is Some ==> task_entries(t).len() == task_remotes(t).len() + 1,
        t.backup is None ==> task_entries(t).len() == 0,
{
}


/// Where a repository is mounted: the directory given, which the mount leaves in
/// place; else `/tmp/vivo-mount-<task>-<seconds>`, made for the mount and removed after
/// it (`now_secs` is the time in seconds since the Unix epoch).
pub fn mount_point_path(mount_path: Option<&str>, task_name: &str, now_secs: u64) -> (r: (String, bool))
    ensures
        match mount_path {
            Some(p) => r.0@ == p@ && !r.1,
            None => r.0@ == "/tmp/vivo-mount-"@ + task_name@ + "-"@ + decimal(now_secs as nat) && r.1,
        },
{
    match mount_path {
        Some(p) => (owned(p), false),
        None => {
            let ts = decimal_u64(now_secs);
            (cat4("/tmp/vivo-mount-", task_name, "-", ts.as_str()), true)
        },
    }
}

/// The check of a mount point given on the command line: `listing` is `None` where the
/// directory does not exist, else whether it is empty, or the error of reading it.
pub fn check_mount_point_valid(path: &str, listing: &Option<Result<bool, String>>) -> (r: CheckResult)
    ensures
        r.label@ == "mount point ("@ + path@ + ")"@,
        match listing {
            None => r.status == CheckStatus::Warn && result_view(r).2 == Some("directory does not exist (will be created)"@),
            Some(Ok(true)) => r.status == CheckStatus::Pass && r.detail is None,
            Some(Ok(false)) => r.status == CheckStatus::Warn && result_view(r).2 == Some("directory is not empty"@),
            Some(Err(e)) => r.status == CheckStatus::Warn && result_view(r).2 == Some("cannot read directory: "@ + e@),
        },
{
    let label = cat3("mount point (", path, ")");
    match listing {
        None => CheckResult {
            label,
            status: CheckStatus::Warn,
            detail: Some(owned("directory does not exist (will be created)")),
        },
        Some(Ok(empty)) => if *empty {
            CheckResult { label, status: CheckStatus::Pass, detail: None }
        } else {
            CheckResult { label, status: CheckStatus::Warn, detail: Some(owned("directory is not empty")) }
        },
        Some(Err(e)) => CheckResult {
            label,
            status: CheckStatus::Warn,
            detail: Some(cat("cannot read directory: ", e.as_str())),
        },
    }
}

/// The command that checks, before a mount, that a repository can be opened: restic
/// listing its snapshots without locking it, with the restic password and the
/// remote's credentials.
pub fn repo_access_command(repo_url: &str, restic_password: &str) -> (c: CommandSpec)
    ensures
        command_view(c) == ("restic"@, seq!["snapshots"@, "--repo"@, repo_url@, "--no-lock"@],
            password_env(restic_password@), true),
{
    let mut args: Vec<String> = Vec::new();
    args.push(owned("snapshots"));
    args.push(owned("--repo"));
    args.push(owned(repo_url));
    args.push(owned("--no-lock"));
    assert(views(args@) =~= seq!["snapshots"@, "--repo"@, repo_url@, "--no-lock"@]);
    CommandSpec { program: owned("restic"), args, env: password_vars(restic_password), with_credentials: true }
}

/// The check that a repository can be opened: `probe` is whether that command
/// succeeded within its time, or the error of running it. Only a warning either way:
/// the mount is tried regardless.
pub fn check_repo_accessible(repo_url: &str, probe: &Result<bool, String>) -> (r: CheckResult)
    ensures
        r.label@ == "repo "@ + repo_url@,
        match probe {
            Ok(true) => r.status == CheckStatus::Pass && r.detail is None,
            Ok(false) => r.status == CheckStatus::Warn && result_view(r).2
                == Some("repo check timed out or failed \u{2014} mount will attempt anyway"@),
            Err(e) => r.status == CheckStatus::Warn && result_view(r).2 == Some("could not check repo: "@ + e@),
        },
{
    let label = cat("repo ", repo_url);
    match probe {
        Ok(ok) => if *ok {
            CheckResult { label, status: CheckStatus::Pass, detail: None }
        } else {
            CheckResult {
                label,
                status: CheckStatus::Warn,
                detail: Some(owned("repo check timed out or failed \u{2014} mount will attempt anyway")),
            }
        },
        Err(e) => CheckResult { label, status: CheckStatus::Warn, detail: Some(cat("could not check repo: ", e.as_str())) },
    }
}

/// Whether the checks that a mount needs all passed: none of them failed (warnings
/// do not stop a mount).
pub fn preflight_passes(required: &Vec<CheckResult>) -> (r: bool)
    ensures
        r == (forall|i: int| 0 <= i < required@.len() ==> required@[i].status != CheckStatus::Fail),
{
    !any_failed(required)
}

/// The command that mounts a repository at a directory and serves it until stopped.
pub fn mount_command(repo_url: &str, mount_point: &str, restic_password: &str) -> (c: CommandSpec)
    ensures
        command_view(c) == ("restic"@, seq!["mount"@, "--repo"@, repo_url@, mount_point@],
            password_env(restic_password@), true),
{
    let mut args: Vec<String> = Vec::new();
    args.push(owned("mount"));
    args.push(owned("--repo"));
    args.push(owned(repo_url));
    args.push(owned(mount_point));
    assert(views(args@) =~= seq!["mount"@, "--repo"@, repo_url@, mount_point@]);
    CommandSpec { program: owned("restic"), args, env: password_vars(restic_password), with_credentials: true }
}

} // verus!
