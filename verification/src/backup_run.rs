//! The restic commands of a backup run: their arguments, and which phases a run
//! performs from the step it starts at.
use vstd::prelude::*;
use crate::backup_config::Backup;
use crate::config::VivoConfig;
use crate::env::{expand_env_vars, path_expansion};
use crate::step::{Step, rank};
use crate::text::{contains, contains_seq, decimal, is_prefix, owned, pair_views, push_decimal, starts_with, views};

verus! {

/// A step of a backup run, as the caller carries it out, in order; a failed
/// `InitLocalRepo` or `Restic` step ends the run.
pub enum RunStep {
    /// Create the local repository at this path and `restic init` it, unless it
    /// holds a `config` already.
    InitLocalRepo(String),
    /// Run `restic` with these arguments.
    Restic(Vec<String>),
    /// Sync the local repository at this path to every remote; the flag is the dry run.
    SyncRemotes(String, bool),
}

/// A run step as plain values.
pub enum RunStepV {
    InitLocalRepo(Seq<char>),
    Restic(Seq<Seq<char>>),
    SyncRemotes(Seq<char>, bool),
}

/// The plain value of a run step.
pub open spec fn run_step_view(s: RunStep) -> RunStepV {
    match s {
        RunStep::InitLocalRepo(p) => RunStepV::InitLocalRepo(p@),
        RunStep::Restic(a) => RunStepV::Restic(views(a@)),
        RunStep::SyncRemotes(p, d) => RunStepV::SyncRemotes(p@, d),
    }
}

/// The plain values of run steps.
pub open spec fn run_step_views(v: Seq<RunStep>) -> Seq<RunStepV> {
    v.map_values(|s: RunStep| run_step_view(s))
}

/// The decimal text of a signed number.
pub open spec fn signed_decimal(n: int) -> Seq<char> {
    if n < 0 {
        seq!['-'] + decimal((-n) as nat)
    } else {
        decimal(n as nat)
    }
}

/// The decimal text of an `i16`, as `to_string` writes it.
pub fn decimal_i16(n: i16) -> (r: String)
    ensures
        r@ == signed_decimal(n as int),
{
    let mut r = String::new();
    if n < 0 {
        r.push('-');
        let m: i32 = -(n as i32);
        push_decimal(&mut r, m as u64);
        assert(r@ =~= signed_decimal(n as int));
    } else {
        push_decimal(&mut r, n as u64);
        assert(r@ =~= signed_decimal(n as int));
    }
    r
}

/// A count, or its default where unset.
pub open spec fn count_or(o: Option<i16>, d: i16) -> i16 {
    match o {
        Some(v) => v,
        None => d,
    }
}

/// The daily, weekly, monthly and yearly snapshot counts that `forget` keeps:
/// as configured, else 7, 5, 12 and 2.
pub open spec fn retention_of(b: Backup) -> (i16, i16, i16, i16) {
    match b.retention {
        Some(r) => (count_or(r.daily, 7), count_or(r.weekly, 5), count_or(r.monthly, 12), count_or(r.yearly, 2)),
        None => (7, 5, 12, 2),
    }
}

/// Snapshot counts: with no retention block `forget` keeps 7 daily, 5 weekly, 12
/// monthly and 2 yearly snapshots; a count set in a retention block is kept as set,
/// and a count the block leaves unset is kept as with no block at all.
pub proof fn unset_counts_take_the_defaults(b: Backup)
    ensures
        (Backup { retention: None, ..b }).retention is None,
        retention_of(Backup { retention: None, ..b }) == (7i16, 5i16, 12i16, 2i16),
        b.retention matches Some(r) ==> {
            let (d, w, m, y) = retention_of(b);
            let dflt = retention_of(Backup { retention: None, ..b });
            &&& d == (match r.daily { Some(v) => v, None => dflt.0 })
            &&& w == (match r.weekly { Some(v) => v, None => dflt.1 })
            &&& m == (match r.monthly { Some(v) => v, None => dflt.2 })
            &&& y == (match r.yearly { Some(v) => v, None => dflt.3 })
        },
{
}

/// What restic backs up: a files-from list, else a directory, else nothing named.
pub open spec fn source_args(b: Backup, vars: Seq<(Seq<char>, Seq<char>)>) -> Seq<Seq<char>> {
    match b.files_from {
        Some(f) => seq!["--files-from"@, path_expansion(f@, vars)],
        None => match b.directory {
            Some(d) => seq![path_expansion(d@, vars)],
            None => Seq::empty(),
        },
    }
}

/// The exclude-file arguments, if one is configured.
pub open spec fn exclude_args(b: Backup, vars: Seq<(Seq<char>, Seq<char>)>) -> Seq<Seq<char>> {
    match b.exclude_file {
        Some(e) => seq!["--exclude-file"@, path_expansion(e@, vars)],
        None => Seq::empty(),
    }
}

/// `--dry-run` where the run is one.
pub open spec fn dry_run_args(dry_run: bool) -> Seq<Seq<char>> {
    if dry_run {
        seq!["--dry-run"@]
    } else {
        Seq::empty()
    }
}

/// The arguments of `restic backup`.
pub open spec fn backup_args_of(b: Backup, dry_run: bool, vars: Seq<(Seq<char>, Seq<char>)>) -> Seq<Seq<char>> {
    seq!["backup"@, "-r"@, path_expansion(b.repo@, vars)] + source_args(b, vars) + exclude_args(b, vars)
        + dry_run_args(dry_run)
}

/// The arguments of `restic check`.
pub open spec fn check_args_of(b: Backup, vars: Seq<(Seq<char>, Seq<char>)>) -> Seq<Seq<char>> {
    seq!["check"@, "-r"@, path_expansion(b.repo@, vars)]
}

/// The arguments of `restic forget --prune` with the retention counts.
pub open spec fn forget_args_of(b: Backup, dry_run: bool, vars: Seq<(Seq<char>, Seq<char>)>) -> Seq<Seq<char>> {
    let (d, w, m, y) = retention_of(b);
    seq!["forget"@, "-r"@, path_expansion(b.repo@, vars), "--keep-daily"@, signed_decimal(d as int),
        "--keep-weekly"@, signed_decimal(w as int), "--keep-monthly"@, signed_decimal(m as int),
        "--keep-yearly"@, signed_decimal(y as int), "--prune"@] + dry_run_args(dry_run)
}

/// A repository path names a local directory: it has no `:`, or starts with `/`,
/// `.` or `~`.
pub open spec fn is_local_path(repo: Seq<char>) -> bool {
    !contains_seq(repo, ":"@) || is_prefix("/"@, repo) || is_prefix("."@, repo) || is_prefix("~"@, repo)
}

/// Whether the run is a dry run: asked for on the command line or in the backup block.
pub open spec fn dry_run_of(b: Backup, cfg: VivoConfig) -> bool {
    cfg.dry_run || b.dry_run == Some(true)
}

/// The steps of a run that starts at `cfg.start_step`: the backup (after creating a
/// local repository, except in a dry run, which writes nothing), check, forget, and
/// sync phases from that step on, in this order.
pub open spec fn run_plan(b: Backup, cfg: VivoConfig, vars: Seq<(Seq<char>, Seq<char>)>) -> Seq<RunStepV> {
    let dry = dry_run_of(b, cfg);
    let repo = path_expansion(b.repo@, vars);
    let s = rank(cfg.start_step);
    (if s <= 0 {
        (if is_local_path(repo) && !dry { seq![RunStepV::InitLocalRepo(repo)] } else { Seq::empty() })
            + seq![RunStepV::Restic(backup_args_of(b, dry, vars))]
    } else {
        Seq::empty()
    }) + (if s <= 1 { seq![RunStepV::Restic(check_args_of(b, vars))] } else { Seq::empty() })
        + (if s <= 2 { seq![RunStepV::Restic(forget_args_of(b, dry, vars))] } else { Seq::empty() })
        + seq![RunStepV::SyncRemotes(repo, dry)]
}

fn push_str(a: &mut Vec<String>, s: &str)
    ensures
        views(final(a)@) == views(old(a)@).push(s@),
{
    a.push(owned(s));
    assert(views(final(a)@) =~= views(old(a)@).push(s@));
}

fn push_string(a: &mut Vec<String>, s: String)
    ensures
        views(final(a)@) == views(old(a)@).push(s@),
{
    a.push(s);
    assert(views(final(a)@) =~= views(old(a)@).push(s@));
}

impl Backup {
    /// The retention counts that `forget` keeps.
    pub fn retention_counts(&self) -> (r: (i16, i16, i16, i16))
        ensures
            r == retention_of(*self),
    {
        match &self.retention {
            Some(r) => (
                match r.daily { Some(v) => v, None => 7 },
                match r.weekly { Some(v) => v, None => 5 },
                match r.monthly { Some(v) => v, None => 12 },
                match r.yearly { Some(v) => v, None => 2 },
            ),
            None => (7, 5, 12, 2),
        }
    }

    /// The arguments of `restic backup` for this block.
    pub fn backup_args(&self, dry_run: bool, vars: &Vec<(String, String)>) -> (r: Vec<String>)
        ensures
            views(r@) == backup_args_of(*self, dry_run, pair_views(vars@)),
    {
        let ghost pv = pair_views(vars@);
        let mut a: Vec<String> = Vec::new();
        push_str(&mut a, "backup");
        push_str(&mut a, "-r");
        push_string(&mut a, expand_env_vars(self.repo.as_str(), vars));
        assert(views(a@) =~= seq!["backup"@, "-r"@, path_expansion(self.repo@, pv)]);
        let ghost head = views(a@);
        match &self.files_from {
            Some(f) => {
                push_str(&mut a, "--files-from");
                push_string(&mut a, expand_env_vars(f.as_str(), vars));
            },
            None => match &self.directory {
                Some(d) => push_string(&mut a, expand_env_vars(d.as_str(), vars)),
                None => {},
            },
        }
        assert(views(a@) =~= head + source_args(*self, pv));
        let ghost mid = views(a@);
        match &self.exclude_file {
            Some(e) => {
                push_str(&mut a, "--exclude-file");
                push_string(&mut a, expand_env_vars(e.as_str(), vars));
            },
            None => {},
        }
        assert(views(a@) =~= mid + exclude_args(*self, pv));
        let ghost tail = views(a@);
        if dry_run {
            push_str(&mut a, "--dry-run");
        }
        assert(views(a@) =~= tail + dry_run_args(dry_run));
        a
    }

    /// The arguments of `restic check` for this block.
    pub fn check_args(&self, vars: &Vec<(String, String)>) -> (r: Vec<String>)
        ensures
            views(r@) == check_args_of(*self, pair_views(vars@)),
    {
        let mut a: Vec<String> = Vec::new();
        push_str(&mut a, "check");
        push_str(&mut a, "-r");
        push_string(&mut a, expand_env_vars(self.repo.as_str(), vars));
        assert(views(a@) =~= check_args_of(*self, pair_views(vars@)));
        a
    }

    /// The arguments of `restic forget --prune` for this block.
    pub fn forget_args(&self, dry_run: bool, vars: &Vec<(String, String)>) -> (r: Vec<String>)
        ensures
            views(r@) == forget_args_of(*self, dry_run, pair_views(vars@)),
    {
        let (d, w, m, y) = self.retention_counts();
        let mut a: Vec<String> = Vec::new();
        push_str(&mut a, "forget");
        push_str(&mut a, "-r");
        push_string(&mut a, expand_env_vars(self.repo.as_str(), vars));
        push_str(&mut a, "--keep-daily");
        push_string(&mut a, decimal_i16(d));
        push_str(&mut a, "--keep-weekly");
        push_string(&mut a, decimal_i16(w));
        push_str(&mut a, "--keep-monthly");
        push_string(&mut a, decimal_i16(m));
        push_str(&mut a, "--keep-yearly");
        push_string(&mut a, decimal_i16(y));
        push_str(&mut a, "--prune");
        let ghost head = views(a@);
        if dry_run {
            push_str(&mut a, "--dry-run");
        }
        assert(views(a@) =~= head + dry_run_args(dry_run));
        assert(views(a@) =~= forget_args_of(*self, dry_run, pair_views(vars@)));
        a
    }

    /// Whether a (expanded) repository path names a local directory.
    pub fn is_local_repo(repo: &str) -> (r: bool)
        ensures
            r == is_local_path(repo@),
    {
        !contains(repo, ":") || starts_with(repo, "/") || starts_with(repo, ".") || starts_with(repo, "~")
    }

    /// The arguments of `restic init` for a local repository.
    pub fn init_args(repo: &str) -> (r: Vec<String>)
        ensures
            views(r@) == seq!["init"@, "-r"@, repo@],
    {
        let mut a: Vec<String> = Vec::new();
        push_str(&mut a, "init");
        push_str(&mut a, "-r");
        push_str(&mut a, repo);
        assert(views(a@) =~= seq!["init"@, "-r"@, repo@]);
        a
    }

    /// Whether this run is a dry run.
    pub fn effective_dry_run(&self, config: &VivoConfig) -> (r: bool)
        ensures
            r == dry_run_of(*self, *config),
    {
        config.dry_run || match self.dry_run {
            Some(d) => d,
            None => false,
        }
    }

    /// The steps of a run of this backup block with the run's options, in order;
    /// `vars` are the environment's variables, used to expand the configured paths.
    pub fn run(&self, config: &VivoConfig, vars: &Vec<(String, String)>) -> (r: Vec<RunStep>)
        ensures
            run_step_views(r@) == run_plan(*self, *config, pair_views(vars@)),
    {
        let ghost pv = pair_views(vars@);
        let dry = self.effective_dry_run(config);
        let s = config.start_step.position();
        let mut out: Vec<RunStep> = Vec::new();
        let ghost o0 = run_step_views(out@);
        if s == 0 {
            let repo = expand_env_vars(self.repo.as_str(), vars);
            if Backup::is_local_repo(repo.as_str()) && !dry {
                out.push(RunStep::InitLocalRepo(repo));
            }
            out.push(RunStep::Restic(self.backup_args(dry, vars)));
        }
        let ghost o1 = run_step_views(out@);
        if s <= 1 {
            out.push(RunStep::Restic(self.check_args(vars)));
        }
        let ghost o2 = run_step_views(out@);
        if s <= 2 {
            out.push(RunStep::Restic(self.forget_args(dry, vars)));
        }
        let ghost o3 = run_step_views(out@);
        out.push(RunStep::SyncRemotes(expand_env_vars(self.repo.as_str(), vars), dry));
        proof {
            let repo = path_expansion(self.repo@, pv);
            let sr = rank(config.start_step);
            assert(o1 =~= (if sr <= 0 {
                (if is_local_path(repo) && !dry { seq![RunStepV::InitLocalRepo(repo)] } else { Seq::empty() })
                    + seq![RunStepV::Restic(backup_args_of(*self, dry, pv))]
            } else {
                Seq::empty()
            }));
            assert(o2 =~= o1 + (if sr <= 1 { seq![RunStepV::Restic(check_args_of(*self, pv))] } else { Seq::empty() }));
            assert(o3 =~= o2 + (if sr <= 2 { seq![RunStepV::Restic(forget_args_of(*self, dry, pv))] } else {
                Seq::empty() }));
            assert(run_step_views(out@) =~= o3 + seq![RunStepV::SyncRemotes(repo, dry)]);
        }
        out
    }
}

/// Starting at a step skips exactly the phases before it: a run ends with the sync,
/// and holds one restic command for each phase from the start step up to `forget`.
pub proof fn start_step_skips_earlier_phases(b: Backup, cfg: VivoConfig, vars: Seq<(Seq<char>, Seq<char>)>)
    ensures
        run_plan(b, cfg, vars).last() == RunStepV::SyncRemotes(path_expansion(b.repo@, vars), dry_run_of(b, cfg)),
        cfg.start_step == Step::Sync ==> run_plan(b, cfg, vars) == seq![
            RunStepV::SyncRemotes(path_expansion(b.repo@, vars), dry_run_of(b, cfg))],
        cfg.start_step == Step::Forget ==> run_plan(b, cfg, vars) == seq![
            RunStepV::Restic(forget_args_of(b, dry_run_of(b, cfg), vars)),
            RunStepV::SyncRemotes(path_expansion(b.repo@, vars), dry_run_of(b, cfg))],
        cfg.start_step == Step::Check ==> run_plan(b, cfg, vars) == seq![
            RunStepV::Restic(check_args_of(b, vars)),
            RunStepV::Restic(forget_args_of(b, dry_run_of(b, cfg), vars)),
            RunStepV::SyncRemotes(path_expansion(b.repo@, vars), dry_run_of(b, cfg))],
{
    let p = run_plan(b, cfg, vars);
    if cfg.start_step == Step::Sync {
        assert(p =~= seq![RunStepV::SyncRemotes(path_expansion(b.repo@, vars), dry_run_of(b, cfg))]);
    }
    if cfg.start_step == Step::Forget {
        assert(p =~= seq![
            RunStepV::Restic(forget_args_of(b, dry_run_of(b, cfg), vars)),
            RunStepV::SyncRemotes(path_expansion(b.repo@, vars), dry_run_of(b, cfg))]);
    }
    if cfg.start_step == Step::Check {
        assert(p =~= seq![
            RunStepV::Restic(check_args_of(b, vars)),
            RunStepV::Restic(forget_args_of(b, dry_run_of(b, cfg), vars)),
            RunStepV::SyncRemotes(path_expansion(b.repo@, vars), dry_run_of(b, cfg))]);
    }
}


/// A dry run writes nothing: its plan creates no repository, and its backup, forget
/// and sync steps are dry runs too.
pub proof fn dry_run_plan_writes_nothing(b: Backup, cfg: VivoConfig, vars: Seq<(Seq<char>, Seq<char>)>)
    requires
        dry_run_of(b, cfg),
    ensures
        forall|k: int| 0 <= k < run_plan(b, cfg, vars).len() ==> !(#[trigger] run_plan(b, cfg, vars)[k] is InitLocalRepo),
        run_plan(b, cfg, vars).last() == RunStepV::SyncRemotes(path_expansion(b.repo@, vars), true),
{
    let p = run_plan(b, cfg, vars);
    let repo = path_expansion(b.repo@, vars);
    let s = rank(cfg.start_step);
    let p0 = (if s <= 0 {
        (if is_local_path(repo) && !dry_run_of(b, cfg) { seq![RunStepV::InitLocalRepo(repo)] } else { Seq::empty() })
            + seq![RunStepV::Restic(backup_args_of(b, true, vars))]
    } else {
        Seq::empty()
    });
    let p1 = (if s <= 1 { seq![RunStepV::Restic(check_args_of(b, vars))] } else { Seq::empty() });
    let p2 = (if s <= 2 { seq![RunStepV::Restic(forget_args_of(b, true, vars))] } else { Seq::empty() });
    assert(p =~= p0 + p1 + p2 + seq![RunStepV::SyncRemotes(repo, true)]);
    assert forall|k: int| 0 <= k < p.len() implies !(#[trigger] p[k] is InitLocalRepo) by {
        if k < p0.len() {
            assert(p[k] == p0[k]);
        } else if k < p0.len() + p1.len() {
            assert(p[k] == p1[k - p0.len()]);
        } else if k < p0.len() + p1.len() + p2.len() {
            assert(p[k] == p2[k - p0.len() - p1.len()]);
        }
    }
}

/// What to do next in a run: carry out the step at this position of the plan, or
/// stop with this outcome.
pub enum RunNext {
    Step(usize),
    Done(Result<(), String>),
}

/// A run in progress: its plan, and the position of the step being carried out.
pub struct RunProgress {
    pub steps: Vec<RunStep>,
    pub next: usize,
}

/// What follows the step at `i` that ended with `failed` (its error, or none): a
/// failed creation of the repository or restic command ends the run with its error; a
/// sync never fails the run; otherwise the next step, or success after the last.
pub open spec fn after_step(steps: Seq<RunStep>, i: int, failed: Option<Seq<char>>) -> (int, Result<(), Seq<char>>, bool) {
    match failed {
        Some(e) => if steps[i] is SyncRemotes {
            if i + 1 < steps.len() { (i + 1, Ok(()), false) } else { (i + 1, Ok(()), true) }
        } else {
            (i, Err(e), true)
        },
        None => if i + 1 < steps.len() { (i + 1, Ok(()), false) } else { (i + 1, Ok(()), true) },
    }
}

impl RunProgress {
    /// Starts a run of a plan: its first step, or success where the plan is empty.
    pub fn start(steps: Vec<RunStep>) -> (r: (RunProgress, RunNext))
        ensures
            r.0.steps == steps,
            r.0.next == 0,
            steps@.len() > 0 ==> (r.1 matches RunNext::Step(i) && i == 0),
            steps@.len() == 0 ==> r.1 matches RunNext::Done(Ok(())),
    {
        let n = steps.len();
        let p = RunProgress { steps, next: 0 };
        if n > 0 { (p, RunNext::Step(0)) } else { (p, RunNext::Done(Ok(()))) }
    }

    /// Takes how the step being carried out ended (its error, or success) and says
    /// what follows: the next step, or the end of the run. Each step runs only after
    /// every earlier one succeeded; the run succeeds exactly where no creation of the
    /// repository and no restic command failed.
    pub fn finished(&mut self, outcome: Result<(), String>) -> (r: RunNext)
        requires
            old(self).next < old(self).steps@.len(),
        ensures
            final(self).steps == old(self).steps,
            ({
                let (n, res, done) = after_step(old(self).steps@, old(self).next as int, match outcome {
                    Ok(()) => None,
                    Err(e) => Some(e@),
                });
                &&& final(self).next == n
                &&& done ==> (r matches RunNext::Done(x) && match (x, res) {
                    (Ok(()), Ok(())) => true,
                    (Err(m), Err(e)) => m@ == e,
                    _ => false,
                })
                &&& !done ==> (r matches RunNext::Step(i) && i == n)
            }),
    {
        let i = self.next;
        assert(i < self.steps.len());
        let is_sync = match &self.steps[i] {
            RunStep::SyncRemotes(_, _) => true,
            _ => false,
        };
        match outcome {
            Err(e) => {
                if !is_sync {
                    return RunNext::Done(Err(e));
                }
            },
            Ok(()) => {},
        }
        self.next = i + 1;
        if i + 1 < self.steps.len() {
            RunNext::Step(i + 1)
        } else {
            RunNext::Done(Ok(()))
        }
    }
}

} // verus!
