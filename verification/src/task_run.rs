//! The order in which a task and the tasks it calls run. A call of a task that is
//! already running further up the chain of calls is skipped, so every run ends.
use vstd::prelude::*;
use crate::backup_config::{BackupConfig, Task, find_task, find_task_index};
use crate::text::{cat3, str_eq, views};

verus! {

/// One entry of a run order.
pub enum Visit {
    /// Run the task at this position: its header, description, backup and commands;
    /// the visits of its calls follow.
    Run(usize),
    /// A call of a task that is already running up the chain; it is skipped.
    Circular(String),
    /// A call of a task that the configuration does not have.
    Missing(String),
    /// A called task has finished.
    Completed(String),
}

/// A run order entry as plain values.
pub enum VisitV {
    Run(int),
    Circular(Seq<char>),
    Missing(Seq<char>),
    Completed(Seq<char>),
}

/// The plain value of an entry.
pub open spec fn visit_view(v: Visit) -> VisitV {
    match v {
        Visit::Run(i) => VisitV::Run(i as int),
        Visit::Circular(s) => VisitV::Circular(s@),
        Visit::Missing(s) => VisitV::Missing(s@),
        Visit::Completed(s) => VisitV::Completed(s@),
    }
}

/// The plain values of a run order.
pub open spec fn visit_views(v: Seq<Visit>) -> Seq<VisitV> {
    v.map_values(|x: Visit| visit_view(x))
}

/// The names of the tasks.
pub open spec fn names_of(ts: Seq<Task>) -> Seq<Seq<char>> {
    ts.map_values(|t: Task| t.name@)
}

/// How many of `names` are not on the chain `path`.
pub open spec fn unvisited(names: Seq<Seq<char>>, path: Seq<Seq<char>>) -> nat
    decreases names.len(),
{
    if names.len() == 0 {
        0
    } else {
        unvisited(names.drop_last(), path) + if path.contains(names.last()) { 0nat } else { 1nat }
    }
}

/// Putting one more name on the chain leaves no more names off it.
pub proof fn lemma_unvisited_push(names: Seq<Seq<char>>, path: Seq<Seq<char>>, x: Seq<char>)
    ensures
        unvisited(names, path.push(x)) <= unvisited(names, path),
    decreases names.len(),
{
    if names.len() > 0 {
        lemma_unvisited_push(names.drop_last(), path, x);
        if path.contains(names.last()) {
            let k = choose|k: int| 0 <= k < path.len() && path[k] == names.last();
            assert(path.push(x)[k] == names.last());
        }
    }
}

/// Putting the name of one of the tasks on the chain, where it was not, leaves fewer
/// names off it.
pub proof fn lemma_unvisited_decreases(names: Seq<Seq<char>>, path: Seq<Seq<char>>, j: int)
    requires
        0 <= j < names.len(),
        !path.contains(names[j]),
    ensures
        unvisited(names, path.push(names[j])) < unvisited(names, path),
    decreases names.len(),
{
    let x = names[j];
    assert(path.push(x)[path.len() as int] == x);
    if j == names.len() - 1 {
        lemma_unvisited_push(names.drop_last(), path, x);
    } else {
        assert(names.drop_last()[j] == x);
        lemma_unvisited_decreases(names.drop_last(), path, j);
        if path.contains(names.last()) {
            let k = choose|k: int| 0 <= k < path.len() && path[k] == names.last();
            assert(path.push(x)[k] == names.last());
        }
    }
}

/// The run order of task `i` when the tasks on `path` are running up the chain:
/// the task itself, then the run orders of its calls.
pub open spec fn task_visits(ts: Seq<Task>, i: int, path: Seq<Seq<char>>) -> Seq<VisitV>
    decreases unvisited(names_of(ts), path), 0int,
{
    if 0 <= i < ts.len() && !path.contains(ts[i].name@) {
        proof {
            assert(names_of(ts)[i] == ts[i].name@);
            lemma_unvisited_decreases(names_of(ts), path, i);
        }
        seq![VisitV::Run(i)] + calls_visits(ts, views(ts[i].calls@), 0, path.push(ts[i].name@))
    } else {
        Seq::empty()
    }
}

/// The run orders of the calls `calls[k..]`, in order.
pub open spec fn calls_visits(ts: Seq<Task>, calls: Seq<Seq<char>>, k: int, path: Seq<Seq<char>>) -> Seq<VisitV>
    decreases unvisited(names_of(ts), path), 2 + calls.len() - k,
{
    if 0 <= k < calls.len() {
        call_visits(ts, calls[k], path) + calls_visits(ts, calls, k + 1, path)
    } else {
        Seq::empty()
    }
}

/// The run order of a call of `name`: skipped if `name` runs up the chain, reported if
/// no task has that name, else the run order of the first task so named, then its end.
pub open spec fn call_visits(ts: Seq<Task>, name: Seq<char>, path: Seq<Seq<char>>) -> Seq<VisitV>
    decreases unvisited(names_of(ts), path), 1int,
{
    if path.contains(name) {
        seq![VisitV::Circular(name)]
    } else {
        match find_task(ts, name) {
            None => seq![VisitV::Missing(name)],
            Some(j) => {
                proof {
                    lemma_find_task(ts, name);
                }
                task_visits(ts, j, path) + seq![VisitV::Completed(name)]
            },
        }
    }
}

/// What `find_task` finds is a task of that name.
pub proof fn lemma_find_task(ts: Seq<Task>, name: Seq<char>)
    ensures
        find_task(ts, name) matches Some(j) ==> 0 <= j < ts.len() && ts[j].name@ == name,
    decreases ts.len(),
{
    if ts.len() > 0 && ts[0].name@ != name {
        lemma_find_task(ts.drop_first(), name);
    }
}

fn on_path(path: &Vec<String>, name: &str) -> (r: bool)
    ensures
        r == views(path@).contains(name@),
{
    let mut i: usize = 0;
    while i < path.len()
        invariant
            i <= path@.len(),
            forall|k: int| 0 <= k < i ==> views(path@)[k] != name@,
        decreases path.len() - i,
    {
        if str_eq(path[i].as_str(), name) {
            assert(views(path@)[i as int] == name@);
            return true;
        }
        i = i + 1;
    }
    false
}

fn push_visit(out: &mut Vec<Visit>, v: Visit)
    ensures
        visit_views(final(out)@) == visit_views(old(out)@).push(visit_view(v)),
{
    out.push(v);
    assert(visit_views(final(out)@) =~= visit_views(old(out)@).push(visit_view(v)));
}

fn task_visits_exec(tasks: &Vec<Task>, i: usize, path: &mut Vec<String>, out: &mut Vec<Visit>)
    requires
        i < tasks@.len(),
        !views(old(path)@).contains(tasks@[i as int].name@),
    ensures
        views(final(path)@) == views(old(path)@),
        visit_views(final(out)@) == visit_views(old(out)@) + task_visits(tasks@, i as int, views(old(path)@)),
    decreases unvisited(names_of(tasks@), views(old(path)@)), 0int,
{
    let ghost p0 = views(path@);
    let ghost o0 = visit_views(out@);
    let ghost calls = views(tasks@[i as int].calls@);
    let ghost p1 = p0.push(tasks@[i as int].name@);
    proof {
        assert(names_of(tasks@)[i as int] == tasks@[i as int].name@);
        lemma_unvisited_decreases(names_of(tasks@), p0, i as int);
    }
    push_visit(out, Visit::Run(i));
    path.push(tasks[i].name.clone());
    assert(views(path@) =~= p1);
    let ghost target = o0 + task_visits(tasks@, i as int, p0);
    assert(target =~= visit_views(out@) + calls_visits(tasks@, calls, 0, p1));
    let n = tasks[i].calls.len();
    let mut k: usize = 0;
    while k < n
        invariant
            k <= n,
            n == calls.len(),
            calls == views(tasks@[i as int].calls@),
            i < tasks@.len(),
            views(path@) == p1,
            p0 == views(old(path)@),
            unvisited(names_of(tasks@), p1) < unvisited(names_of(tasks@), p0),
            visit_views(out@) + calls_visits(tasks@, calls, k as int, p1) == target,
        decreases n - k,
    {
        let name = tasks[i].calls[k].as_str();
        assert(calls[k as int] == name@);
        call_visits_exec(tasks, name, path, out);
        assert(visit_views(out@) + calls_visits(tasks@, calls, k + 1, p1) =~= target);
        k = k + 1;
    }
    assert(visit_views(out@) =~= target);
    let ghost before_pop = path@;
    path.pop();
    assert(path@ =~= before_pop.drop_last());
    assert forall|k: int| 0 <= k < p0.len() implies views(path@)[k] == p0[k] by {
        assert(views(path@)[k] == before_pop[k]@);
        assert(views(before_pop)[k] == p1[k]);
    }
    assert(views(path@) =~= p0);
}

fn call_visits_exec(tasks: &Vec<Task>, name: &str, path: &mut Vec<String>, out: &mut Vec<Visit>)
    ensures
        views(final(path)@) == views(old(path)@),
        visit_views(final(out)@) == visit_views(old(out)@) + call_visits(tasks@, name@, views(old(path)@)),
    decreases unvisited(names_of(tasks@), views(old(path)@)), 1int,
{
    let ghost o0 = visit_views(out@);
    if on_path(path, name) {
        push_visit(out, Visit::Circular(String::from_str(name)));
        assert(visit_views(out@) =~= o0 + call_visits(tasks@, name@, views(path@)));
        return;
    }
    proof {
        lemma_find_task(tasks@, name@);
    }
    match find_task_index(tasks, name) {
        None => {
            push_visit(out, Visit::Missing(String::from_str(name)));
            assert(visit_views(out@) =~= o0 + call_visits(tasks@, name@, views(path@)));
        },
        Some(j) => {
            proof {
                match find_task(tasks@, name@) {
                    Some(jj) => {
                        assert(0 <= jj < tasks@.len());
                        assert(j as int == jj);
                    },
                    None => {},
                }
            }
            assert(tasks@[j as int].name@ == name@);
            assert(!views(path@).contains(tasks@[j as int].name@));
            task_visits_exec(tasks, j, path, out);
            push_visit(out, Visit::Completed(String::from_str(name)));
            assert(visit_views(out@) =~= o0 + call_visits(tasks@, name@, views(old(path)@)));
        },
    }
}

/// The order in which task `root` and the tasks it calls, directly or not, run.
pub fn run_order(tasks: &Vec<Task>, root: usize) -> (r: Vec<Visit>)
    requires
        root < tasks@.len(),
    ensures
        visit_views(r@) == task_visits(tasks@, root as int, Seq::empty()),
{
    let mut path: Vec<String> = Vec::new();
    let mut out: Vec<Visit> = Vec::new();
    assert(views(path@) =~= Seq::<Seq<char>>::empty());
    task_visits_exec(tasks, root, &mut path, &mut out);
    assert(visit_views(out@) =~= task_visits(tasks@, root as int, Seq::empty()));
    out
}

/// The task a run is asked for: the one named on the command line, else the default.
pub open spec fn requested_name(cfg: BackupConfig, requested: Option<Seq<char>>) -> Seq<char> {
    match requested {
        Some(n) => n,
        None => cfg.default_task@,
    }
}

impl BackupConfig {
    /// The position of the task to run: the first task named `requested`, or named
    /// as the default task where none is requested.
    pub fn selected_task(&self, requested: Option<&str>) -> (r: Result<usize, String>)
        ensures
            match find_task(self.tasks@, requested_name(*self, match requested { Some(n) => Some(n@), None => None })) {
                Some(i) => r matches Ok(x) && x as int == i,
                None => r matches Err(m) && m@ == "task '"@ + requested_name(*self, match requested {
                    Some(n) => Some(n@), None => None }) + "' not found in config"@,
            },
    {
        let name = match requested {
            Some(n) => n,
            None => self.default_task.as_str(),
        };
        match find_task_index(&self.tasks, name) {
            Some(i) => Ok(i),
            None => Err(cat3("task '", name, "' not found in config")),
        }
    }
}

/// A task that calls itself runs once: the call is reported as circular and skipped.
pub proof fn self_call_is_skipped(ts: Seq<Task>, i: int)
    requires
        0 <= i < ts.len(),
        views(ts[i].calls@) == seq![ts[i].name@],
    ensures
        task_visits(ts, i, Seq::empty()) == seq![VisitV::Run(i), VisitV::Circular(ts[i].name@)],
{
    let p = Seq::<Seq<char>>::empty().push(ts[i].name@);
    assert(p[0] == ts[i].name@);
    assert(p.contains(ts[i].name@));
    let calls = views(ts[i].calls@);
    assert(calls[0] == ts[i].name@);
    assert(call_visits(ts, calls[0], p) == seq![VisitV::Circular(ts[i].name@)]);
    assert(calls_visits(ts, calls, 1, p) =~= Seq::<VisitV>::empty());
    assert(calls_visits(ts, calls, 0, p) =~= seq![VisitV::Circular(ts[i].name@)]);
    assert(task_visits(ts, i, Seq::empty()) =~= seq![VisitV::Run(i), VisitV::Circular(ts[i].name@)]);
}

/// The run order never starts a task while a task of the same name is running up
/// the chain of calls: every `Run(j)` in the order of task `i` under `path` names a
/// task that is not on `path`. So a cycle of calls is cut where it closes.
pub proof fn run_order_never_reenters(ts: Seq<Task>, i: int, path: Seq<Seq<char>>)
    ensures
        forall|k: int| 0 <= k < task_visits(ts, i, path).len() ==> (#[trigger] task_visits(ts, i, path)[k]
            matches VisitV::Run(j) ==> 0 <= j < ts.len() && !path.contains(ts[j].name@)),
    decreases unvisited(names_of(ts), path), 0int,
{
    if 0 <= i < ts.len() && !path.contains(ts[i].name@) {
        assert(names_of(ts)[i] == ts[i].name@);
        lemma_unvisited_decreases(names_of(ts), path, i);
        let p1 = path.push(ts[i].name@);
        let calls = views(ts[i].calls@);
        calls_never_reenter(ts, calls, 0, p1);
        let v = task_visits(ts, i, path);
        let rest = calls_visits(ts, calls, 0, p1);
        assert forall|k: int| 0 <= k < v.len() implies (#[trigger] v[k] matches VisitV::Run(j) ==> 0 <= j < ts.len()
            && !path.contains(ts[j].name@)) by {
            if k > 0 {
                assert(v[k] == rest[k - 1]);
                if let VisitV::Run(j) = v[k] {
                    assert(!p1.contains(ts[j].name@));
                    if path.contains(ts[j].name@) {
                        let w = choose|w: int| 0 <= w < path.len() && path[w] == ts[j].name@;
                        assert(p1[w] == ts[j].name@);
                    }
                }
            }
        }
    }
}

/// The calls `calls[k..]` never start a task that is on `path`.
pub proof fn calls_never_reenter(ts: Seq<Task>, calls: Seq<Seq<char>>, k: int, path: Seq<Seq<char>>)
    ensures
        forall|m: int| 0 <= m < calls_visits(ts, calls, k, path).len() ==> (#[trigger] calls_visits(ts, calls, k,
            path)[m] matches VisitV::Run(j) ==> 0 <= j < ts.len() && !path.contains(ts[j].name@)),
    decreases unvisited(names_of(ts), path), 2 + calls.len() - k,
{
    if 0 <= k < calls.len() {
        call_never_reenters(ts, calls[k], path);
        calls_never_reenter(ts, calls, k + 1, path);
        let a = call_visits(ts, calls[k], path);
        let b = calls_visits(ts, calls, k + 1, path);
        let v = calls_visits(ts, calls, k, path);
        assert(v == a + b);
        assert forall|m: int| 0 <= m < v.len() implies (#[trigger] v[m] matches VisitV::Run(j) ==> 0 <= j < ts.len()
            && !path.contains(ts[j].name@)) by {
            if m < a.len() {
                assert(v[m] == a[m]);
            } else {
                assert(v[m] == b[m - a.len()]);
            }
        }
    }
}

/// A call never starts a task that is on `path`.
pub proof fn call_never_reenters(ts: Seq<Task>, name: Seq<char>, path: Seq<Seq<char>>)
    ensures
        forall|m: int| 0 <= m < call_visits(ts, name, path).len() ==> (#[trigger] call_visits(ts, name, path)[m]
            matches VisitV::Run(j) ==> 0 <= j < ts.len() && !path.contains(ts[j].name@)),
    decreases unvisited(names_of(ts), path), 1int,
{
    if !path.contains(name) {
        lemma_find_task(ts, name);
        match find_task(ts, name) {
            None => {},
            Some(j) => {
                run_order_never_reenters(ts, j, path);
                let a = task_visits(ts, j, path);
                let v = call_visits(ts, name, path);
                assert(v == a + seq![VisitV::Completed(name)]);
                assert forall|m: int| 0 <= m < v.len() implies (#[trigger] v[m] matches VisitV::Run(jj) ==> 0 <= jj
                    < ts.len() && !path.contains(ts[jj].name@)) by {
                    if m < a.len() {
                        assert(v[m] == a[m]);
                    }
                }
            },
        }
    }
}

} // verus!
