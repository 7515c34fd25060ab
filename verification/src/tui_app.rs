//! The state of the interactive configuration manager: the tasks it shows, what is
//! selected in each pane, and the status line.
use vstd::prelude::*;
use crate::backup_config::{BackupConfig, Task, task_remotes};
use crate::kdl_tree::opt_string;
use crate::text::{owned, views};

verus! {

/// A pane of the manager.
#[derive(Debug, Clone, Copy, PartialEq, Eq, Structural)]
pub enum Pane {
    Tasks,
    Fields,
    Remotes,
    Calls,
}

/// How many task fields the Fields pane lists.
pub const FIELD_COUNT: usize = 6;

/// The labels of the task fields, in the order the Fields pane lists them.
pub fn field_names() -> (r: Vec<&'static str>)
    ensures
        r@.len() == FIELD_COUNT,
{
    let mut r: Vec<&'static str> = Vec::new();
    r.push("Name");
    r.push("Description");
    r.push("Repo");
    r.push("Directory");
    r.push("Exclude file");
    r.push("Files from");
    r
}

/// A task as the manager shows it.
pub struct TaskEntry {
    pub name: String,
    pub description: Option<String>,
    pub repo: Option<String>,
    pub directory: Option<String>,
    pub exclude_file: Option<String>,
    pub files_from: Option<String>,
    pub remotes: Vec<RemoteEntry>,
    pub calls: Vec<String>,
}

/// A remote as the manager shows it.
pub struct RemoteEntry {
    pub url: String,
    pub credentials: String,
}

/// The manager's state. Times are milliseconds on a clock of the caller's choice.
pub struct App {
    pub tasks: Vec<TaskEntry>,
    pub selected_task: usize,
    pub selected_remote: usize,
    pub selected_field: usize,
    pub selected_call: usize,
    pub focused_pane: Pane,
    pub config_path: String,
    pub should_quit: bool,
    pub status_message: Option<String>,
    pub status_expires_at: Option<u64>,
    pub needs_clear: bool,
    pub default_task: String,
}

/// The url and credentials of each remote entry.
pub open spec fn entry_remotes(rs: Seq<RemoteEntry>) -> Seq<(Seq<char>, Seq<char>)> {
    rs.map_values(|r: RemoteEntry| (r.url@, r.credentials@))
}

/// The entry shows the task: its name, description, backup fields, remotes and calls.
pub open spec fn shows_task(e: TaskEntry, t: Task) -> bool {
    &&& e.name@ == t.name@
    &&& opt_string(e.description) == opt_string(t.description)
    &&& opt_string(e.repo) == match t.backup { Some(b) => Some(b.repo@), None => None }
    &&& opt_string(e.directory) == match t.backup { Some(b) => opt_string(b.directory), None => None }
    &&& opt_string(e.exclude_file) == match t.backup { Some(b) => opt_string(b.exclude_file), None => None }
    &&& opt_string(e.files_from) == match t.backup { Some(b) => opt_string(b.files_from), None => None }
    &&& entry_remotes(e.remotes@) == task_remotes(t)
    &&& views(e.calls@) == views(t.calls@)
}

/// The entries show the tasks, one for one.
pub open spec fn shows_tasks(es: Seq<TaskEntry>, ts: Seq<Task>) -> bool {
    es.len() == ts.len() && forall|i: int| 0 <= i < es.len() ==> #[trigger] shows_task(es[i], ts[i])
}

/// The largest index into a list of `n` items, or 0 where the list is empty.
pub open spec fn last_index(n: nat) -> nat {
    if n == 0 { 0 } else { (n - 1) as nat }
}

/// The state with `msg` on the status line until two seconds after `now`; nothing
/// else changes.
pub open spec fn with_status(a: App, msg: String, now: u64) -> App {
    App { status_message: Some(msg), status_expires_at: Some(now.saturating_add(2000)), ..a }
}

/// The state at `now`: the status line cleared once its time has come; nothing else
/// changes.
pub open spec fn ticked(a: App, now: u64) -> App {
    match a.status_expires_at {
        Some(exp) => if now >= exp {
            App { status_message: None, status_expires_at: None, ..a }
        } else {
            a
        },
        None => a,
    }
}

/// A status set at `t0` is still shown at any `t` before two seconds have passed, and
/// is gone, with its expiry, from then on; nothing else changes.
pub proof fn status_shows_for_two_seconds(a: App, msg: String, t0: u64, t: u64)
    requires
        t0 + 2000 <= u64::MAX,
    ensures
        t < t0 + 2000 ==> ticked(with_status(a, msg, t0), t) == with_status(a, msg, t0),
        t >= t0 + 2000 ==> ticked(with_status(a, msg, t0), t)
            == (App { status_message: None, status_expires_at: None, ..a }),
{
}

impl App {
    /// The remotes of the selected task; none where no task is selected.
    pub open spec fn remotes_shown(&self) -> Seq<RemoteEntry> {
        if self.selected_task < self.tasks@.len() {
            self.tasks@[self.selected_task as int].remotes@
        } else {
            Seq::empty()
        }
    }

    /// The calls of the selected task; none where no task is selected.
    pub open spec fn calls_shown(&self) -> Seq<String> {
        if self.selected_task < self.tasks@.len() {
            self.tasks@[self.selected_task as int].calls@
        } else {
            Seq::empty()
        }
    }

    /// Every selection points into its list, or is 0 where the list is empty.
    pub open spec fn selections_in_bounds(&self) -> bool {
        &&& self.selected_task <= last_index(self.tasks@.len())
        &&& self.selected_field < FIELD_COUNT
        &&& self.selected_remote <= last_index(self.remotes_shown().len())
        &&& self.selected_call <= last_index(self.calls_shown().len())
    }
}

fn entry_of(t: &Task) -> (e: TaskEntry)
    ensures
        shows_task(e, *t),
{
    let (repo, directory, exclude_file, files_from, remotes) = match &t.backup {
        Some(b) => {
            let mut rs: Vec<RemoteEntry> = Vec::new();
            let mut i: usize = 0;
            while i < b.remotes.len()
                invariant
                    i <= b.remotes@.len(),
                    rs@.len() == i,
                    entry_remotes(rs@) == task_remotes(*t).take(i as int),
                    t.backup == Some(*b),
                decreases b.remotes.len() - i,
            {
                let r = &b.remotes[i];
                let ghost before = rs@;
                rs.push(RemoteEntry { url: r.url.clone(), credentials: r.credentials.clone() });
                assert(entry_remotes(rs@) =~= entry_remotes(before).push((r.url@, r.credentials@)));
                assert(task_remotes(*t).take(i + 1) =~= task_remotes(*t).take(i as int).push((r.url@, r.credentials@)));
                i = i + 1;
            }
            assert(task_remotes(*t).take(b.remotes@.len() as int) =~= task_remotes(*t));
            (Some(b.repo.clone()), b.directory.clone(), b.exclude_file.clone(), b.files_from.clone(), rs)
        },
        None => {
            let rs: Vec<RemoteEntry> = Vec::new();
            assert(entry_remotes(rs@) =~= task_remotes(*t));
            (None, None, None, None, rs)
        },
    };
    let mut calls: Vec<String> = Vec::new();
    let mut k: usize = 0;
    while k < t.calls.len()
        invariant
            k <= t.calls@.len(),
            calls@.len() == k,
            views(calls@) == views(t.calls@).take(k as int),
        decreases t.calls.len() - k,
    {
        let c = t.calls[k].clone();
        let ghost before = calls@;
        calls.push(c);
        assert(views(calls@) =~= views(before).push(t.calls@[k as int]@));
        assert(views(t.calls@).take(k + 1) =~= views(t.calls@).take(k as int).push(t.calls@[k as int]@));
        k = k + 1;
    }
    assert(views(t.calls@).take(t.calls@.len() as int) =~= views(t.calls@));
    TaskEntry { name: t.name.clone(), description: t.description.clone(), repo, directory, exclude_file, files_from,
        remotes, calls }
}

fn entries_of(config: &BackupConfig) -> (r: Vec<TaskEntry>)
    ensures
        shows_tasks(r@, config.tasks@),
{
    let mut out: Vec<TaskEntry> = Vec::new();
    let mut i: usize = 0;
    while i < config.tasks.len()
        invariant
            i <= config.tasks@.len(),
            out@.len() == i,
            forall|k: int| 0 <= k < i ==> #[trigger] shows_task(out@[k], config.tasks@[k]),
        decreases config.tasks.len() - i,
    {
        out.push(entry_of(&config.tasks[i]));
        i = i + 1;
    }
    out
}

impl App {
    /// The manager's state for a configuration read from `config_path`: all its
    /// tasks, the first task selected in the Tasks pane, no status.
    pub fn new(config: &BackupConfig, config_path: String) -> (app: App)
        ensures
            shows_tasks(app.tasks@, config.tasks@),
            app.selected_task == 0 && app.selected_remote == 0 && app.selected_field == 0 && app.selected_call == 0,
            app.focused_pane == Pane::Tasks,
            app.config_path == config_path,
            !app.should_quit,
            app.status_message is None,
            app.status_expires_at is None,
            !app.needs_clear,
            app.default_task@ == config.default_task@,
            app.selections_in_bounds(),
    {
        App {
            tasks: entries_of(config),
            selected_task: 0,
            selected_remote: 0,
            selected_field: 0,
            selected_call: 0,
            focused_pane: Pane::Tasks,
            config_path,
            should_quit: false,
            status_message: None,
            status_expires_at: None,
            needs_clear: false,
            default_task: config.default_task.clone(),
        }
    }

    /// Shows `msg` on the status line for two seconds from `now`.
    pub fn set_status(&mut self, msg: String, now: u64)
        ensures
            *final(self) == with_status(*old(self), msg, now),
    {
        self.status_expires_at = Some(now.saturating_add(2000));
        self.status_message = Some(msg);
    }

    /// Clears the status line once its time has passed.
    pub fn tick_status(&mut self, now: u64)
        ensures
            *final(self) == ticked(*old(self), now),
    {
        match self.status_expires_at {
            Some(exp) => {
                if now >= exp {
                    self.status_message = None;
                    self.status_expires_at = None;
                }
            },
            None => {},
        }
    }

    /// The remotes of the selected task.
    pub fn current_remotes(&self) -> (r: &[RemoteEntry])
        ensures
            r@ == self.remotes_shown(),
    {
        if self.selected_task < self.tasks.len() {
            self.tasks[self.selected_task].remotes.as_slice()
        } else {
            let empty: &[RemoteEntry] = &[];
            assert(empty@ =~= Seq::<RemoteEntry>::empty());
            empty
        }
    }

    /// The calls of the selected task.
    pub fn current_calls(&self) -> (r: &[String])
        ensures
            r@ == self.calls_shown(),
    {
        if self.selected_task < self.tasks.len() {
            self.tasks[self.selected_task].calls.as_slice()
        } else {
            let empty: &[String] = &[];
            assert(empty@ =~= Seq::<String>::empty());
            empty
        }
    }

    /// Takes in a configuration read again after a change: the tasks are replaced,
    /// each selection kept but moved to the last item of a list that became shorter;
    /// the pane and the status line stay.
    pub fn reload(&mut self, config: &BackupConfig)
        ensures
            shows_tasks(final(self).tasks@, config.tasks@),
            final(self).selected_task == min_nat(old(self).selected_task as nat, last_index(config.tasks@.len())),
            final(self).selected_field == min_nat(old(self).selected_field as nat, (FIELD_COUNT - 1) as nat),
            final(self).selected_remote == min_nat(old(self).selected_remote as nat,
                last_index(final(self).remotes_shown().len())),
            final(self).selected_call == min_nat(old(self).selected_call as nat,
                last_index(final(self).calls_shown().len())),
            final(self).focused_pane == old(self).focused_pane,
            final(self).status_message == old(self).status_message,
            final(self).status_expires_at == old(self).status_expires_at,
            final(self).config_path == old(self).config_path,
            final(self).default_task@ == config.default_task@,
            !final(self).should_quit,
            !final(self).needs_clear,
            final(self).selections_in_bounds(),
    {
        let prev_task = self.selected_task;
        let prev_remote = self.selected_remote;
        let prev_field = self.selected_field;
        let prev_call = self.selected_call;
        let prev_pane = self.focused_pane;
        let prev_msg = self.status_message.take();
        let prev_exp = self.status_expires_at;
        let path = self.config_path.clone();
        let new = App::new(config, path);
        *self = new;
        self.selected_task = min_usize(prev_task, self.tasks.len().saturating_sub(1));
        let nr = self.current_remotes().len();
        self.selected_remote = min_usize(prev_remote, nr.saturating_sub(1));
        self.selected_field = min_usize(prev_field, FIELD_COUNT - 1);
        let nc = self.current_calls().len();
        self.selected_call = min_usize(prev_call, nc.saturating_sub(1));
        self.focused_pane = prev_pane;
        self.status_message = prev_msg;
        self.status_expires_at = prev_exp;
    }
}

/// The smaller of two numbers.
pub open spec fn min_nat(a: nat, b: nat) -> nat {
    if a <= b { a } else { b }
}

fn min_usize(a: usize, b: usize) -> (r: usize)
    ensures
        r == min_nat(a as nat, b as nat),
{
    if a <= b { a } else { b }
}

} // verus!
