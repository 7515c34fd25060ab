//! A sync of the local repository to one remote, step by step: the dry run, the
//! check of the repository, the client an S3-compatible server is mirrored with,
//! the commands run, and the single retry after authorizing B2 again. The caller
//! looks at files, probes and runs programs, and hands back what came of each step.
use vstd::prelude::*;
use crate::remote::{AnyBackend, B2Backend, RustfsBackend, SyncTool, choose_tool, fallback_warning, incomplete_repo_message, is_auth_error,
    is_auth_text, missing_entries, no_tool_message, repo_entry_names, verify_restic_repo};
use crate::sync_plan::{CommandSpec, CommandView, aws_make_bucket_failure_text, aws_make_bucket_view, aws_sync_view,
    b2_dry_run_text, b2_failure_text, b2_sync_view, client_failure_text, command_view, copy_failure_text,
    mc_make_bucket_view, mc_mirror_view, rclone_make_bucket_view, rclone_sync_view, rustfs_dry_run_text,
    s3_copy_view, s3_dry_run_text};
use crate::text::{cat, cat4, pair_views, str_lowercase};

verus! {

/// How a command that the caller ran ended.
pub enum Ran {
    /// It could not be started; the error of the system.
    NotStarted(String),
    /// Waiting for it failed; the error of the system.
    Lost(String),
    /// It succeeded.
    Succeeded,
    /// It failed, with what it printed on stderr.
    Failed(String),
}

/// How a command ended, as plain values.
pub enum RanView {
    NotStarted(Seq<char>),
    Lost(Seq<char>),
    Succeeded,
    Failed(Seq<char>),
}

/// The plain values of how a command ended.
pub open spec fn ran_view(r: Ran) -> RanView {
    match r {
        Ran::NotStarted(e) => RanView::NotStarted(e@),
        Ran::Lost(e) => RanView::Lost(e@),
        Ran::Succeeded => RanView::Succeeded,
        Ran::Failed(e) => RanView::Failed(e@),
    }
}

/// Where a sync stands.
pub enum JobStage {
    /// Waiting for which entries of the local repository exist.
    CheckingRepository,
    /// Waiting for which clients of an S3-compatible server run.
    FindingTools,
    /// A warning about the client was given; the bucket is made next.
    Warned(SyncTool),
    /// Making the bucket with the client.
    MakingBucket(SyncTool),
    /// Mirroring the repository with the client.
    Mirroring(SyncTool),
    /// Running `b2 sync`; `true` on the retry after authorizing again.
    Syncing(bool),
    /// Waiting for B2 to be authorized again.
    Reauthorizing,
    /// Running `restic copy`.
    Copying,
    /// Done.
    Over,
}

/// What the caller does next.
pub enum JobAction {
    /// Print this line: the dry run is done, and succeeded.
    DryRun(String),
    /// Look for the entries of the local repository, in the order of
    /// `restic_repo_entries`, and hand back which exist.
    CheckRepository,
    /// Find out which of `mc`, `aws` and `rclone` run, and hand that back.
    FindTools,
    /// Print this warning, and ask for the next step.
    Warn(String),
    /// Run this command with its output shown, and hand back how it ended.
    Run(CommandSpec),
    /// Run this command with its output kept, and hand back how it ended.
    Capture(CommandSpec),
    /// Authorize B2 again, and hand back the new credentials.
    Reauthorize,
    /// The sync is done, with this outcome.
    Finish(Result<(), String>),
}

/// What to do next, as plain values.
pub enum ActionView {
    DryRun(Seq<char>),
    CheckRepository,
    FindTools,
    Warn(Seq<char>),
    Run(CommandView),
    Capture(CommandView),
    Reauthorize,
    Finish(Result<(), Seq<char>>),
}

/// The plain values of an action.
pub open spec fn action_view(a: JobAction) -> ActionView {
    match a {
        JobAction::DryRun(m) => ActionView::DryRun(m@),
        JobAction::CheckRepository => ActionView::CheckRepository,
        JobAction::FindTools => ActionView::FindTools,
        JobAction::Warn(m) => ActionView::Warn(m@),
        JobAction::Run(c) => ActionView::Run(command_view(c)),
        JobAction::Capture(c) => ActionView::Capture(command_view(c)),
        JobAction::Reauthorize => ActionView::Reauthorize,
        JobAction::Finish(r) => ActionView::Finish(match r {
            Ok(()) => Ok(()),
            Err(m) => Err(m@),
        }),
    }
}

/// A failed step: the sync is done with this error.
pub open spec fn fail(m: Seq<char>) -> (JobStage, ActionView) {
    (JobStage::Over, ActionView::Finish(Err(m)))
}

/// The name of a client, as the commands and messages give it.
pub open spec fn tool_name(t: SyncTool) -> Seq<char> {
    match t {
        SyncTool::Mc => "mc"@,
        SyncTool::Aws => "aws"@,
        SyncTool::Rclone => "rclone"@,
    }
}

/// The error of a command that could not be started.
pub open spec fn not_started_text(program: Seq<char>, e: Seq<char>) -> Seq<char> {
    "failed to run "@ + program + ": "@ + e
}

/// The error of a command that was lost while waiting for it.
pub open spec fn lost_text(program: Seq<char>, e: Seq<char>) -> Seq<char> {
    "failed to wait for "@ + program + ": "@ + e
}

/// How a sync starts: a dry run only reports; B2 and S3-compatible servers check the
/// local repository first; an S3 repository is copied to at once.
pub open spec fn start_view(backend: AnyBackend, repo: Seq<char>, dry_run: bool) -> (JobStage, ActionView) {
    match backend {
        AnyBackend::B2(b) => if dry_run {
            (JobStage::Over, ActionView::DryRun(b2_dry_run_text(b, repo)))
        } else {
            (JobStage::CheckingRepository, ActionView::CheckRepository)
        },
        AnyBackend::S3(s) => if dry_run {
            (JobStage::Over, ActionView::DryRun(s3_dry_run_text(s, repo)))
        } else {
            (JobStage::Copying, ActionView::Capture(s3_copy_view(s, repo)))
        },
        AnyBackend::Rustfs(r) => if dry_run {
            (JobStage::Over, ActionView::DryRun(rustfs_dry_run_text(r, repo)))
        } else {
            (JobStage::CheckingRepository, ActionView::CheckRepository)
        },
    }
}

/// After the check of the repository: an incomplete repository ends the sync;
/// otherwise B2 syncs, and an S3-compatible server looks for a client.
pub open spec fn checked_view(backend: AnyBackend, repo: Seq<char>, present: Seq<bool>) -> (JobStage, ActionView) {
    let missing = missing_entries(repo_entry_names(), present);
    if missing.len() > 0 {
        fail(incomplete_repo_message(repo, missing))
    } else {
        match backend {
            AnyBackend::B2(b) => (JobStage::Syncing(false), ActionView::Run(b2_sync_view(b, repo))),
            _ => (JobStage::FindingTools, ActionView::FindTools),
        }
    }
}

/// The first command of a client of an S3-compatible server: making the bucket
/// (`aws s3 mb` with its output kept).
pub open spec fn make_bucket_view(r: RustfsBackend, creds: Seq<(Seq<char>, Seq<char>)>, t: SyncTool) -> ActionView {
    match t {
        SyncTool::Mc => ActionView::Run(mc_make_bucket_view(r, creds)),
        SyncTool::Aws => ActionView::Capture(aws_make_bucket_view(r)),
        SyncTool::Rclone => ActionView::Run(rclone_make_bucket_view(r, creds)),
    }
}

/// The second command of a client of an S3-compatible server: mirroring the repository.
pub open spec fn mirror_view(r: RustfsBackend, repo: Seq<char>, creds: Seq<(Seq<char>, Seq<char>)>, t: SyncTool)
    -> CommandView
{
    match t {
        SyncTool::Mc => mc_mirror_view(r, repo, creds),
        SyncTool::Aws => aws_sync_view(r, repo),
        SyncTool::Rclone => rclone_sync_view(r, repo, creds),
    }
}

/// After looking for clients: `mc` makes the bucket at once; `aws`, then `rclone`,
/// come with a warning first; none ends the sync.
pub open spec fn tools_view(r: RustfsBackend, creds: Seq<(Seq<char>, Seq<char>)>, mc: bool, aws: bool, rclone: bool)
    -> (JobStage, ActionView)
{
    if mc {
        (JobStage::MakingBucket(SyncTool::Mc), make_bucket_view(r, creds, SyncTool::Mc))
    } else if aws {
        (JobStage::Warned(SyncTool::Aws), ActionView::Warn(fallback_warning("aws"@)))
    } else if rclone {
        (JobStage::Warned(SyncTool::Rclone), ActionView::Warn(fallback_warning("rclone"@)))
    } else {
        fail(no_tool_message())
    }
}

/// The error of a command of a client that did not succeed (empty where it succeeded).
pub open spec fn client_error(r: RustfsBackend, program: Seq<char>, outcome: RanView) -> Seq<char> {
    match outcome {
        RanView::NotStarted(e) => not_started_text(program, e),
        RanView::Lost(e) => lost_text(program, e),
        RanView::Failed(st) => client_failure_text(r, program, st),
        RanView::Succeeded => Seq::empty(),
    }
}

/// The error of a `b2 sync` that did not succeed, or none where it succeeded.
pub open spec fn b2_error(b: B2Backend, outcome: RanView) -> Option<Seq<char>> {
    match outcome {
        RanView::Succeeded => None,
        RanView::NotStarted(e) => Some(not_started_text("b2"@, e)),
        RanView::Lost(e) => Some(lost_text("b2"@, e)),
        RanView::Failed(st) => Some(b2_failure_text(b, st)),
    }
}

/// After a command ran, by the stage it ran in (one of `Copying`, `Syncing`,
/// `MakingBucket` and `Mirroring`, each of its kind of remote).
pub open spec fn after_run_view(
    backend: AnyBackend,
    repo: Seq<char>,
    creds: Seq<(Seq<char>, Seq<char>)>,
    stage: JobStage,
    outcome: RanView,
) -> (JobStage, ActionView) {
    match stage {
        JobStage::Copying => match outcome {
            RanView::Succeeded => (JobStage::Over, ActionView::Finish(Ok(()))),
            RanView::NotStarted(e) => fail(not_started_text("restic"@, e)),
            RanView::Lost(e) => fail(lost_text("restic"@, e)),
            RanView::Failed(st) => fail(copy_failure_text(backend->S3_0, st)),
        },
        JobStage::Syncing(retried) => match b2_error(backend->B2_0, outcome) {
            None => (JobStage::Over, ActionView::Finish(Ok(()))),
            Some(m) => if !retried && is_auth_text(str_lowercase(m)) {
                (JobStage::Reauthorizing, ActionView::Reauthorize)
            } else {
                fail(m)
            },
        },
        JobStage::MakingBucket(t) => {
            let r = backend->Rustfs_0;
            let mirror = (JobStage::Mirroring(t), ActionView::Run(mirror_view(r, repo, creds, t)));
            match outcome {
                RanView::Succeeded => mirror,
                RanView::NotStarted(e) => if t == SyncTool::Aws {
                    fail(not_started_text("aws s3 mb"@, e))
                } else {
                    fail(not_started_text(tool_name(t), e))
                },
                RanView::Failed(st) => if t == SyncTool::Aws {
                    match aws_make_bucket_failure_text(r, st) {
                        Some(m) => fail(m),
                        None => mirror,
                    }
                } else {
                    fail(client_error(r, tool_name(t), outcome))
                },
                RanView::Lost(_) => fail(client_error(r, tool_name(t), outcome)),
            }
        },
        JobStage::Mirroring(t) => match outcome {
            RanView::Succeeded => (JobStage::Over, ActionView::Finish(Ok(()))),
            _ => fail(client_error(backend->Rustfs_0, tool_name(t), outcome)),
        },
        _ => (stage, ActionView::Finish(Ok(()))),
    }
}

/// After authorizing B2 again: the sync is run once more with the new credentials, or
/// the sync ends with the error.
pub open spec fn reauthorized_view(backend: AnyBackend, repo: Seq<char>, outcome: Result<(), Seq<char>>)
    -> (JobStage, ActionView)
{
    match outcome {
        Ok(()) => (JobStage::Syncing(true), ActionView::Run(b2_sync_view(backend->B2_0, repo))),
        Err(e) => fail("re-authorization failed: "@ + e),
    }
}

/// A sync of the local repository `local_repo` to a remote, with the variables of its
/// credentials profile.
pub struct SyncJob {
    pub backend: AnyBackend,
    pub local_repo: String,
    pub creds: Vec<(String, String)>,
    pub stage: JobStage,
}

impl SyncJob {
    /// The stage belongs to the kind of remote: B2 syncs and authorizes, an S3
    /// repository is copied to, an S3-compatible server is mirrored to with a client.
    pub open spec fn wf(&self) -> bool {
        match self.stage {
            JobStage::CheckingRepository => !(self.backend is S3),
            JobStage::FindingTools | JobStage::Warned(_) | JobStage::MakingBucket(_) | JobStage::Mirroring(_) =>
                self.backend is Rustfs,
            JobStage::Syncing(_) | JobStage::Reauthorizing => self.backend is B2,
            JobStage::Copying => self.backend is S3,
            JobStage::Over => true,
        }
    }

    /// The variables of the credentials, as plain values.
    pub open spec fn creds_view(&self) -> Seq<(Seq<char>, Seq<char>)> {
        pair_views(self.creds@)
    }

    /// Starts a sync; a dry run is done at once.
    pub fn start(backend: AnyBackend, local_repo: String, creds: Vec<(String, String)>, dry_run: bool)
        -> (r: (SyncJob, JobAction))
        ensures
            r.0.wf(),
            r.0.backend == backend,
            r.0.local_repo == local_repo,
            r.0.creds == creds,
            (r.0.stage, action_view(r.1)) == start_view(backend, local_repo@, dry_run),
    {
        let (stage, action) = match &backend {
            AnyBackend::B2(b) => if dry_run {
                (JobStage::Over, JobAction::DryRun(b.dry_run_message(local_repo.as_str())))
            } else {
                (JobStage::CheckingRepository, JobAction::CheckRepository)
            },
            AnyBackend::S3(s) => if dry_run {
                (JobStage::Over, JobAction::DryRun(s.dry_run_message(local_repo.as_str())))
            } else {
                (JobStage::Copying, JobAction::Capture(s.copy_command(local_repo.as_str())))
            },
            AnyBackend::Rustfs(rf) => if dry_run {
                (JobStage::Over, JobAction::DryRun(rf.dry_run_message(local_repo.as_str())))
            } else {
                (JobStage::CheckingRepository, JobAction::CheckRepository)
            },
        };
        (SyncJob { backend, local_repo, creds, stage }, action)
    }

    /// Takes which entries of the local repository exist.
    pub fn repository_checked(&mut self, present: &[bool; 5]) -> (a: JobAction)
        requires
            old(self).wf(),
            old(self).stage == JobStage::CheckingRepository,
        ensures
            final(self).wf(),
            final(self).backend == old(self).backend,
            final(self).local_repo == old(self).local_repo,
            final(self).creds == old(self).creds,
            (final(self).stage, action_view(a)) == checked_view(old(self).backend, old(self).local_repo@, present@),
    {
        match verify_restic_repo(self.local_repo.as_str(), present) {
            Err(m) => {
                self.stage = JobStage::Over;
                JobAction::Finish(Err(m))
            },
            Ok(()) => match &self.backend {
                AnyBackend::B2(b) => {
                    let c = b.sync_command(self.local_repo.as_str());
                    self.stage = JobStage::Syncing(false);
                    JobAction::Run(c)
                },
                _ => {
                    self.stage = JobStage::FindingTools;
                    JobAction::FindTools
                },
            },
        }
    }

    fn make_bucket(&self, t: SyncTool) -> (a: JobAction)
        requires
            self.backend is Rustfs,
        ensures
            action_view(a) == make_bucket_view(self.backend->Rustfs_0, self.creds_view(), t),
    {
        match &self.backend {
            AnyBackend::Rustfs(rf) => match t {
                SyncTool::Mc => JobAction::Run(rf.mc_make_bucket_command(&self.creds)),
                SyncTool::Aws => JobAction::Capture(rf.aws_make_bucket_command()),
                SyncTool::Rclone => JobAction::Run(rf.rclone_make_bucket_command(&self.creds)),
            },
            _ => JobAction::Reauthorize,
        }
    }

    fn mirror(&self, t: SyncTool) -> (c: CommandSpec)
        requires
            self.backend is Rustfs,
        ensures
            command_view(c) == mirror_view(self.backend->Rustfs_0, self.local_repo@, self.creds_view(), t),
    {
        match &self.backend {
            AnyBackend::Rustfs(rf) => match t {
                SyncTool::Mc => rf.mc_mirror_command(self.local_repo.as_str(), &self.creds),
                SyncTool::Aws => rf.aws_sync_command(self.local_repo.as_str()),
                SyncTool::Rclone => rf.rclone_sync_command(self.local_repo.as_str(), &self.creds),
            },
            _ => {
                assert(false);
                CommandSpec { program: String::new(), args: Vec::new(), env: Vec::new(), with_credentials: true }
            },
        }
    }

    /// Takes which clients run: `mc`, `aws`, `rclone`.
    pub fn tools_found(&mut self, mc: bool, aws: bool, rclone: bool) -> (a: JobAction)
        requires
            old(self).wf(),
            old(self).stage == JobStage::FindingTools,
        ensures
            final(self).wf(),
            final(self).backend == old(self).backend,
            final(self).local_repo == old(self).local_repo,
            final(self).creds == old(self).creds,
            (final(self).stage, action_view(a)) == tools_view(old(self).backend->Rustfs_0, old(self).creds_view(), mc, aws,
                rclone),
    {
        match choose_tool(mc, aws, rclone) {
            Err(m) => {
                self.stage = JobStage::Over;
                JobAction::Finish(Err(m))
            },
            Ok((t, Some(w))) => {
                self.stage = JobStage::Warned(t);
                JobAction::Warn(w)
            },
            Ok((t, None)) => {
                self.stage = JobStage::MakingBucket(t);
                self.make_bucket(t)
            },
        }
    }

    /// Goes on after the warning about the client was given.
    pub fn warned(&mut self) -> (a: JobAction)
        requires
            old(self).wf(),
            old(self).stage is Warned,
        ensures
            final(self).wf(),
            final(self).backend == old(self).backend,
            final(self).local_repo == old(self).local_repo,
            final(self).creds == old(self).creds,
            final(self).stage == JobStage::MakingBucket(old(self).stage->Warned_0),
            action_view(a) == make_bucket_view(old(self).backend->Rustfs_0, old(self).creds_view(),
                old(self).stage->Warned_0),
    {
        let t = match self.stage {
            JobStage::Warned(t) => t,
            _ => SyncTool::Mc,
        };
        self.stage = JobStage::MakingBucket(t);
        self.make_bucket(t)
    }

    /// Takes how the command of the last action ended.
    pub fn ran(&mut self, outcome: Ran) -> (a: JobAction)
        requires
            old(self).wf(),
            old(self).stage is Copying || old(self).stage is Syncing || old(self).stage is MakingBucket
                || old(self).stage is Mirroring,
        ensures
            final(self).wf(),
            final(self).backend == old(self).backend,
            final(self).local_repo == old(self).local_repo,
            final(self).creds == old(self).creds,
            (final(self).stage, action_view(a)) == after_run_view(old(self).backend, old(self).local_repo@,
                old(self).creds_view(), old(self).stage, ran_view(outcome)),
    {
        proof {
            reveal_strlit("aws");
            reveal_strlit("mc");
            reveal_strlit("rclone");
        }
        match self.stage {
            JobStage::Copying => {
                self.stage = JobStage::Over;
                match outcome {
                    Ran::Succeeded => JobAction::Finish(Ok(())),
                    Ran::NotStarted(e) => JobAction::Finish(Err(not_started("restic", e.as_str()))),
                    Ran::Lost(e) => JobAction::Finish(Err(lost("restic", e.as_str()))),
                    Ran::Failed(st) => match &self.backend {
                        AnyBackend::S3(s) => JobAction::Finish(Err(s.copy_failure_message(st.as_str()))),
                        _ => JobAction::Finish(Err(st)),
                    },
                }
            },
            JobStage::Syncing(retried) => {
                let error = match outcome {
                    Ran::Succeeded => None,
                    Ran::NotStarted(e) => Some(not_started("b2", e.as_str())),
                    Ran::Lost(e) => Some(lost("b2", e.as_str())),
                    Ran::Failed(st) => match &self.backend {
                        AnyBackend::B2(b) => Some(b.sync_failure_message(st.as_str())),
                        _ => Some(st),
                    },
                };
                match error {
                    None => {
                        self.stage = JobStage::Over;
                        JobAction::Finish(Ok(()))
                    },
                    Some(m) => {
                        if !retried && is_auth_error(m.as_str()) {
                            self.stage = JobStage::Reauthorizing;
                            JobAction::Reauthorize
                        } else {
                            self.stage = JobStage::Over;
                            JobAction::Finish(Err(m))
                        }
                    },
                }
            },
            JobStage::MakingBucket(t) => {
                let name = tool_label(t);
                match outcome {
                    Ran::Succeeded => {
                        let c = self.mirror(t);
                        self.stage = JobStage::Mirroring(t);
                        JobAction::Run(c)
                    },
                    Ran::NotStarted(e) => {
                        self.stage = JobStage::Over;
                        let program = match t {
                            SyncTool::Aws => "aws s3 mb",
                            _ => name,
                        };
                        JobAction::Finish(Err(not_started(program, e.as_str())))
                    },
                    Ran::Lost(e) => {
                        self.stage = JobStage::Over;
                        JobAction::Finish(Err(lost(name, e.as_str())))
                    },
                    Ran::Failed(st) => match &self.backend {
                        AnyBackend::Rustfs(rf) => {
                            let aws = match t {
                                SyncTool::Aws => true,
                                _ => false,
                            };
                            if aws {
                                match rf.aws_make_bucket_failure(st.as_str()) {
                                    Some(m) => {
                                        self.stage = JobStage::Over;
                                        JobAction::Finish(Err(m))
                                    },
                                    None => {
                                        let c = self.mirror(t);
                                        self.stage = JobStage::Mirroring(t);
                                        JobAction::Run(c)
                                    },
                                }
                            } else {
                                let m = rf.sync_failure_message(name, st.as_str());
                                self.stage = JobStage::Over;
                                JobAction::Finish(Err(m))
                            }
                        },
                        _ => {
                            self.stage = JobStage::Over;
                            JobAction::Finish(Err(st))
                        },
                    },
                }
            },
            JobStage::Mirroring(t) => {
                let name = tool_label(t);
                self.stage = JobStage::Over;
                match outcome {
                    Ran::Succeeded => JobAction::Finish(Ok(())),
                    Ran::NotStarted(e) => JobAction::Finish(Err(not_started(name, e.as_str()))),
                    Ran::Lost(e) => JobAction::Finish(Err(lost(name, e.as_str()))),
                    Ran::Failed(st) => match &self.backend {
                        AnyBackend::Rustfs(rf) => JobAction::Finish(Err(rf.sync_failure_message(name, st.as_str()))),
                        _ => JobAction::Finish(Err(st)),
                    },
                }
            },
            _ => JobAction::Finish(Ok(())),
        }
    }

    /// Takes the outcome of authorizing B2 again: the new credentials, or the error.
    pub fn reauthorized(&mut self, outcome: Result<Vec<(String, String)>, String>) -> (a: JobAction)
        requires
            old(self).wf(),
            old(self).stage == JobStage::Reauthorizing,
        ensures
            final(self).wf(),
            final(self).backend == old(self).backend,
            final(self).local_repo == old(self).local_repo,
            match outcome {
                Ok(c) => final(self).creds == c,
                Err(_) => final(self).creds == old(self).creds,
            },
            (final(self).stage, action_view(a)) == reauthorized_view(old(self).backend, old(self).local_repo@,
                match outcome {
                    Ok(_) => Ok(()),
                    Err(e) => Err(e@),
                }),
    {
        match outcome {
            Ok(c) => {
                self.creds = c;
                match &self.backend {
                    AnyBackend::B2(b) => {
                        let cmd = b.sync_command(self.local_repo.as_str());
                        self.stage = JobStage::Syncing(true);
                        JobAction::Run(cmd)
                    },
                    _ => {
                        self.stage = JobStage::Over;
                        JobAction::Finish(Ok(()))
                    },
                }
            },
            Err(e) => {
                self.stage = JobStage::Over;
                JobAction::Finish(Err(cat("re-authorization failed: ", e.as_str())))
            },
        }
    }
}

fn not_started(program: &str, e: &str) -> (r: String)
    ensures
        r@ == not_started_text(program@, e@),
{
    cat4("failed to run ", program, ": ", e)
}

fn lost(program: &str, e: &str) -> (r: String)
    ensures
        r@ == lost_text(program@, e@),
{
    cat4("failed to wait for ", program, ": ", e)
}

fn tool_label(t: SyncTool) -> (r: &'static str)
    ensures
        r@ == tool_name(t),
{
    match t {
        SyncTool::Mc => "mc",
        SyncTool::Aws => "aws",
        SyncTool::Rclone => "rclone",
    }
}


/// No entry is missing exactly where every entry is present.
proof fn lemma_nothing_missing(names: Seq<Seq<char>>, present: Seq<bool>)
    requires
        names.len() == present.len(),
    ensures
        missing_entries(names, present).len() == 0 <==> (forall|i: int| 0 <= i < present.len() ==> present[i]),
    decreases names.len(),
{
    if names.len() > 0 {
        lemma_nothing_missing(names.drop_last(), present.drop_last());
        if missing_entries(names, present).len() == 0 {
            assert forall|i: int| 0 <= i < present.len() implies present[i] by {
                if i < present.len() - 1 {
                    assert(present.drop_last()[i] == present[i]);
                }
            }
        } else if forall|i: int| 0 <= i < present.len() ==> present[i] {
            assert(present.last() == present[present.len() - 1]);
            assert forall|i: int| 0 <= i < present.drop_last().len() implies present.drop_last()[i] by {
                assert(present[i]);
            }
        }
    }
}

/// A dry run only reports: it checks nothing and runs no command.
pub proof fn dry_run_runs_nothing(backend: AnyBackend, repo: Seq<char>)
    ensures
        start_view(backend, repo, true).0 == JobStage::Over,
        start_view(backend, repo, true).1 is DryRun,
{
}

/// A sync from a local repository that lacks one of its entries stops before any
/// command runs, with an error.
pub proof fn incomplete_repository_stops_the_sync(backend: AnyBackend, repo: Seq<char>, present: Seq<bool>, i: int)
    requires
        present.len() == 5,
        0 <= i < 5,
        !present[i],
    ensures
        checked_view(backend, repo, present).0 == JobStage::Over,
        checked_view(backend, repo, present).1 matches ActionView::Finish(Err(_)),
{
    lemma_nothing_missing(repo_entry_names(), present);
}

/// B2 is authorized again at most once in a sync: a failure of the retry ends it.
pub proof fn b2_reauthorizes_at_most_once(backend: AnyBackend, repo: Seq<char>, creds: Seq<(Seq<char>, Seq<char>)>,
    outcome: RanView)
    ensures
        after_run_view(backend, repo, creds, JobStage::Syncing(true), outcome).0 == JobStage::Over,
        after_run_view(backend, repo, creds, JobStage::Syncing(true), outcome).1 is Finish,
{
}

/// Once the bucket-making command of a client has succeeded on an S3-compatible
/// server, the next action runs that client's mirror of the local repository to the
/// bucket (and path): `mc mirror --remove --overwrite`, `aws s3 sync --delete
/// --size-only` or `rclone sync --delete-during --size-only`.
pub proof fn made_bucket_is_mirrored(r: RustfsBackend, repo: Seq<char>, creds: Seq<(Seq<char>, Seq<char>)>, t: SyncTool)
    ensures
        ({
            let (st, a) = after_run_view(AnyBackend::Rustfs(r), repo, creds, JobStage::MakingBucket(t), RanView::Succeeded);
            let dest = if r.subpath@.len() == 0 { r.bucket@ } else { r.bucket@ + "/"@ + r.subpath@ };
            &&& st == JobStage::Mirroring(t)
            &&& a matches ActionView::Run(c)
            &&& c.0 == tool_name(t)
            &&& t == SyncTool::Mc ==> c.1 == seq!["mirror"@, "--remove"@, "--overwrite"@, repo, "vivo-sync/"@ + dest]
            &&& t == SyncTool::Aws ==> c.1.take(6) == seq!["s3"@, "sync"@, "--delete"@, "--size-only"@, repo, "s3://"@ + dest]
            &&& t == SyncTool::Rclone ==> c.1.take(5) == seq!["sync"@, "--delete-during"@, "--size-only"@, repo, ":s3:"@ + dest]
        }),
{
    let dest = if r.subpath@.len() == 0 { r.bucket@ } else { r.bucket@ + "/"@ + r.subpath@ };
    assert("vivo-sync/"@ + dest =~= r.dest_under("vivo-sync/"@));
    assert("s3://"@ + dest =~= r.dest_under("s3://"@));
    assert(":s3:"@ + dest =~= r.dest_under(":s3:"@));
    let c = mirror_view(r, repo, creds, t);
    if t == SyncTool::Aws {
        assert(c.1.take(6) =~= seq!["s3"@, "sync"@, "--delete"@, "--size-only"@, repo, "s3://"@ + dest]);
    }
    if t == SyncTool::Rclone {
        assert(c.1.take(5) =~= seq!["sync"@, "--delete-during"@, "--size-only"@, repo, ":s3:"@ + dest]);
    }
}

/// A sync to an S3-compatible server ends with success only when a mirror command has
/// succeeded: starting, checking the repository, finding the clients and making the
/// bucket never end it with success, and a mirror that succeeds does.
pub proof fn rustfs_succeeds_only_after_mirroring(r: RustfsBackend, repo: Seq<char>,
    creds: Seq<(Seq<char>, Seq<char>)>, present: Seq<bool>, mc: bool, aws: bool, rclone: bool, stage: JobStage,
    outcome: RanView, t: SyncTool)
    requires
        stage is MakingBucket || stage is Mirroring,
    ensures
        start_view(AnyBackend::Rustfs(r), repo, false).1 == ActionView::CheckRepository,
        checked_view(AnyBackend::Rustfs(r), repo, present).1 != ActionView::Finish(Ok(())),
        tools_view(r, creds, mc, aws, rclone).1 != ActionView::Finish(Ok(())),
        after_run_view(AnyBackend::Rustfs(r), repo, creds, stage, outcome).1 == ActionView::Finish(Ok(()))
            ==> stage is Mirroring && outcome == RanView::Succeeded,
        after_run_view(AnyBackend::Rustfs(r), repo, creds, JobStage::Mirroring(t), RanView::Succeeded)
            == (JobStage::Over, ActionView::Finish(Ok(()))),
{
}

/// A command that did not succeed never ends a sync with success, whatever the remote:
/// a `restic copy`, a `b2 sync`, a bucket-making command or a mirror that failed,
/// could not be started or was lost.
pub proof fn failed_command_never_succeeds(backend: AnyBackend, repo: Seq<char>, creds: Seq<(Seq<char>, Seq<char>)>,
    stage: JobStage, outcome: RanView)
    requires
        stage is Copying || stage is Syncing || stage is MakingBucket || stage is Mirroring,
        outcome != RanView::Succeeded,
    ensures
        after_run_view(backend, repo, creds, stage, outcome).1 != ActionView::Finish(Ok(())),
{
}

} // verus!
