//! The backup configuration: tasks, their backup blocks and remotes, and the
//! order in which a task and the tasks it calls run.
use vstd::prelude::*;
use crate::kdl_tree::{opt_str, opt_string};
use crate::remote::opt_pos;
use crate::text::{str_eq, views};

verus! {

/// A destination that a backup's repository is synced to.
pub struct Remote {
    pub url: String,
    pub credentials: String,
    pub mc_max_workers: Option<u32>,
    pub mc_limit_upload: Option<String>,
}

/// How many snapshots of each period `forget` keeps; unset counts take their defaults.
pub struct Retention {
    pub daily: Option<i16>,
    pub weekly: Option<i16>,
    pub monthly: Option<i16>,
    pub yearly: Option<i16>,
}

/// What a task backs up, where to, and how long snapshots are kept.
pub struct Backup {
    pub repo: String,
    pub exclude_file: Option<String>,
    pub directory: Option<String>,
    pub files_from: Option<String>,
    pub remotes: Vec<Remote>,
    pub retention: Option<Retention>,
    pub dry_run: Option<bool>,
}

/// A named unit of work: an optional backup, shell commands, and calls of other tasks.
pub struct Task {
    pub name: String,
    pub description: Option<String>,
    pub backup: Option<Backup>,
    pub commands: Vec<String>,
    pub calls: Vec<String>,
}

/// The whole configuration: the task run by default, and all tasks.
pub struct BackupConfig {
    pub default_task: String,
    pub tasks: Vec<Task>,
}

/// The url and credentials profile of each remote.
pub open spec fn remote_pairs(rs: Seq<Remote>) -> Seq<(Seq<char>, Seq<char>)> {
    rs.map_values(|r: Remote| (r.url@, r.credentials@))
}

/// The texts of a sequence of pairs of string slices.
pub open spec fn str_pairs(v: Seq<(&str, &str)>) -> Seq<(Seq<char>, Seq<char>)> {
    v.map_values(|p: (&str, &str)| (p.0@, p.1@))
}

/// The texts of a sequence of string slices.
pub open spec fn strs_view(v: Seq<&str>) -> Seq<Seq<char>> {
    v.map_values(|s: &str| s@)
}

/// The remotes of a task: those of its backup block, none without one.
pub open spec fn task_remotes(t: Task) -> Seq<(Seq<char>, Seq<char>)> {
    match t.backup {
        Some(b) => remote_pairs(b.remotes@),
        None => Seq::empty(),
    }
}

/// The remotes of all tasks, task by task.
pub open spec fn all_remotes_of(ts: Seq<Task>) -> Seq<(Seq<char>, Seq<char>)>
    decreases ts.len(),
{
    if ts.len() == 0 {
        Seq::empty()
    } else {
        all_remotes_of(ts.drop_last()) + task_remotes(ts.last())
    }
}

/// The remotes of the tasks named `name`, task by task.
pub open spec fn remotes_of_named(ts: Seq<Task>, name: Seq<char>) -> Seq<(Seq<char>, Seq<char>)>
    decreases ts.len(),
{
    if ts.len() == 0 {
        Seq::empty()
    } else if ts.last().name@ == name {
        remotes_of_named(ts.drop_last(), name) + task_remotes(ts.last())
    } else {
        remotes_of_named(ts.drop_last(), name)
    }
}

fn push_remote_pairs<'a>(out: &mut Vec<(&'a str, &'a str)>, rs: &'a Vec<Remote>)
    ensures
        str_pairs(final(out)@) == str_pairs(old(out)@) + remote_pairs(rs@),
{
    let ghost start = old(out)@;
    let mut i: usize = 0;
    while i < rs.len()
        invariant
            i <= rs@.len(),
            out@.len() == start.len() + i,
            str_pairs(out@) == str_pairs(start) + remote_pairs(rs@).take(i as int),
        decreases rs.len() - i,
    {
        let r = &rs[i];
        let u = r.url.as_str();
        let c = r.credentials.as_str();
        let ghost before = out@;
        out.push((u, c));
        assert(out@ == before.push((u, c)));
        assert(str_pairs(out@)[out@.len() - 1] == (u@, c@));
        assert(remote_pairs(rs@)[i as int] == (rs@[i as int].url@, rs@[i as int].credentials@));
        assert(u@ == rs@[i as int].url@ && c@ == rs@[i as int].credentials@);
        assert forall|k: int| 0 <= k < before.len() implies str_pairs(out@)[k] == str_pairs(before)[k] by {
            assert(out@[k] == before[k]);
        }
        assert(str_pairs(out@) =~= str_pairs(before).push((u@, c@)));
        assert(remote_pairs(rs@).take(i + 1) =~= remote_pairs(rs@).take(i as int).push((u@, c@)));
        assert(str_pairs(out@) =~= str_pairs(start) + remote_pairs(rs@).take(i + 1));
        i = i + 1;
    }
    assert(remote_pairs(rs@).take(rs@.len() as int) =~= remote_pairs(rs@));
}

impl Backup {
    /// The repository path, as configured.
    pub fn repo(&self) -> (r: &str)
        ensures
            r@ == self.repo@,
    {
        self.repo.as_str()
    }

    /// The directory to back up, if configured.
    pub fn directory(&self) -> (r: Option<&str>)
        ensures
            opt_str(r) == opt_string(self.directory),
    {
        match &self.directory {
            Some(d) => Some(d.as_str()),
            None => None,
        }
    }

    /// The file of exclude patterns, if configured.
    pub fn exclude_file(&self) -> (r: Option<&str>)
        ensures
            opt_str(r) == opt_string(self.exclude_file),
    {
        match &self.exclude_file {
            Some(d) => Some(d.as_str()),
            None => None,
        }
    }

    /// The file listing the paths to back up, if configured.
    pub fn files_from(&self) -> (r: Option<&str>)
        ensures
            opt_str(r) == opt_string(self.files_from),
    {
        match &self.files_from {
            Some(d) => Some(d.as_str()),
            None => None,
        }
    }

    /// The remotes the repository is synced to.
    pub fn remotes(&self) -> (r: &Vec<Remote>)
        ensures
            r@ == self.remotes@,
    {
        &self.remotes
    }
}

impl Task {
    /// The task's description, if any.
    pub fn description(&self) -> (r: Option<&str>)
        ensures
            opt_str(r) == opt_string(self.description),
    {
        match &self.description {
            Some(d) => Some(d.as_str()),
            None => None,
        }
    }

    /// The task's backup block, if any.
    pub fn backup(&self) -> (r: Option<&Backup>)
        ensures
            match self.backup {
                Some(b) => r matches Some(x) && *x == b,
                None => r is None,
            },
    {
        match &self.backup {
            Some(b) => Some(b),
            None => None,
        }
    }

    /// The repository of the task's backup block.
    pub fn backup_repo(&self) -> (r: Option<&str>)
        ensures
            opt_str(r) == match self.backup {
                Some(b) => Some(b.repo@),
                None => None,
            },
    {
        match &self.backup {
            Some(b) => Some(b.repo()),
            None => None,
        }
    }

    /// The directory of the task's backup block.
    pub fn backup_directory(&self) -> (r: Option<&str>)
        ensures
            opt_str(r) == match self.backup {
                Some(b) => opt_string(b.directory),
                None => None,
            },
    {
        match &self.backup {
            Some(b) => b.directory(),
            None => None,
        }
    }

    /// The exclude file of the task's backup block.
    pub fn backup_exclude_file(&self) -> (r: Option<&str>)
        ensures
            opt_str(r) == match self.backup {
                Some(b) => opt_string(b.exclude_file),
                None => None,
            },
    {
        match &self.backup {
            Some(b) => b.exclude_file(),
            None => None,
        }
    }

    /// The files-from list of the task's backup block.
    pub fn backup_files_from(&self) -> (r: Option<&str>)
        ensures
            opt_str(r) == match self.backup {
                Some(b) => opt_string(b.files_from),
                None => None,
            },
    {
        match &self.backup {
            Some(b) => b.files_from(),
            None => None,
        }
    }

    /// The url and credentials profile of each remote of the task, in order.
    pub fn backup_remotes(&self) -> (r: Vec<(&str, &str)>)
        ensures
            str_pairs(r@) == task_remotes(*self),
    {
        let mut out: Vec<(&str, &str)> = Vec::new();
        match &self.backup {
            Some(b) => {
                push_remote_pairs(&mut out, &b.remotes);
                assert(str_pairs(out@) =~= task_remotes(*self));
            },
            None => {
                assert(str_pairs(out@) =~= task_remotes(*self));
            },
        }
        out
    }

    /// The names of the called tasks, in order.
    pub fn call_names(&self) -> (r: Vec<&str>)
        ensures
            strs_view(r@) == views(self.calls@),
    {
        let mut out: Vec<&str> = Vec::new();
        let mut i: usize = 0;
        while i < self.calls.len()
            invariant
                i <= self.calls@.len(),
                out@.len() == i,
                strs_view(out@) == views(self.calls@).take(i as int),
            decreases self.calls.len() - i,
        {
            let c = self.calls[i].as_str();
            out.push(c);
            assert(strs_view(out@)[i as int] == c@);
            assert(strs_view(out@) =~= views(self.calls@).take(i + 1));
            i = i + 1;
        }
        assert(views(self.calls@).take(self.calls@.len() as int) =~= views(self.calls@));
        out
    }
}

/// The position of the first task named `name`.
pub open spec fn find_task(ts: Seq<Task>, name: Seq<char>) -> Option<int>
    decreases ts.len(),
{
    if ts.len() == 0 {
        None
    } else if ts[0].name@ == name {
        Some(0)
    } else {
        match find_task(ts.drop_first(), name) {
            Some(i) => Some(i + 1),
            None => None,
        }
    }
}

/// Finds the first task named `name`.
pub fn find_task_index(tasks: &Vec<Task>, name: &str) -> (r: Option<usize>)
    ensures
        opt_pos(r) == find_task(tasks@, name@),
{
    let mut i: usize = 0;
    assert(tasks@.skip(0) =~= tasks@);
    while i < tasks.len()
        invariant
            i <= tasks@.len(),
            find_task(tasks@, name@) == match find_task(tasks@.skip(i as int), name@) {
                Some(k) => Some(k + i),
                None => None::<int>,
            },
        decreases tasks.len() - i,
    {
        assert(tasks@.skip(i as int).drop_first() =~= tasks@.skip(i + 1));
        if str_eq(tasks[i].name.as_str(), name) {
            return Some(i);
        }
        i = i + 1;
    }
    None
}

impl BackupConfig {
    /// The url and credentials profile of every remote of every task, task by task.
    pub fn all_remotes(&self) -> (r: Vec<(&str, &str)>)
        ensures
            str_pairs(r@) == all_remotes_of(self.tasks@),
    {
        let mut out: Vec<(&str, &str)> = Vec::new();
        let mut i: usize = 0;
        while i < self.tasks.len()
            invariant
                i <= self.tasks@.len(),
                str_pairs(out@) == all_remotes_of(self.tasks@.take(i as int)),
            decreases self.tasks.len() - i,
        {
            assert(self.tasks@.take(i + 1).drop_last() =~= self.tasks@.take(i as int));
            match &self.tasks[i].backup {
                Some(b) => push_remote_pairs(&mut out, &b.remotes),
                None => {},
            }
            assert(str_pairs(out@) =~= all_remotes_of(self.tasks@.take(i + 1)));
            i = i + 1;
        }
        assert(self.tasks@.take(self.tasks@.len() as int) =~= self.tasks@);
        out
    }

    /// The url and credentials profile of every remote of the tasks named `task_name`.
    pub fn remotes_for_task(&self, task_name: &str) -> (r: Vec<(&str, &str)>)
        ensures
            str_pairs(r@) == remotes_of_named(self.tasks@, task_name@),
    {
        let mut out: Vec<(&str, &str)> = Vec::new();
        let mut i: usize = 0;
        while i < self.tasks.len()
            invariant
                i <= self.tasks@.len(),
                str_pairs(out@) == remotes_of_named(self.tasks@.take(i as int), task_name@),
            decreases self.tasks.len() - i,
        {
            assert(self.tasks@.take(i + 1).drop_last() =~= self.tasks@.take(i as int));
            if str_eq(self.tasks[i].name.as_str(), task_name) {
                match &self.tasks[i].backup {
                    Some(b) => push_remote_pairs(&mut out, &b.remotes),
                    None => {},
                }
            }
            assert(str_pairs(out@) =~= remotes_of_named(self.tasks@.take(i + 1), task_name@));
            i = i + 1;
        }
        assert(self.tasks@.take(self.tasks@.len() as int) =~= self.tasks@);
        out
    }
}

} // verus!
