//! Syncing a backup to its remotes, one after the other: which credentials profile
//! each remote runs with, when B2 must be authorized first, and which remotes are
//! skipped. The caller authorizes, checks the tools and syncs, and hands back what
//! authorizing gave.
use vstd::prelude::*;
use crate::backup_config::{Remote, remote_pairs};
use crate::text::{cat3, cat4, is_prefix, pair_views, starts_with, str_eq};

verus! {

/// What to do next in a round of syncs.
pub enum SyncStep {
    /// Authorize B2 for the profile of the remote at this position, which the
    /// secrets lack, and hand the outcome to `authorized`.
    Authorize(usize),
    /// Skip the remote at this position; the message says why.
    Skip(usize, String),
    /// Sync to the remote at this position with the variables of the profile at
    /// this position of `profiles`.
    Sync(usize, usize),
    /// Every remote has had its turn.
    Done,
}

/// A step as plain values.
pub enum SyncStepView {
    Authorize(int),
    Skip(int, Seq<char>),
    Sync(int, int),
    Done,
}

/// The plain values of a step.
pub open spec fn step_view(s: SyncStep) -> SyncStepView {
    match s {
        SyncStep::Authorize(i) => SyncStepView::Authorize(i as int),
        SyncStep::Skip(i, m) => SyncStepView::Skip(i as int, m@),
        SyncStep::Sync(i, p) => SyncStepView::Sync(i as int, p as int),
        SyncStep::Done => SyncStepView::Done,
    }
}

/// A round of syncs: the remotes as (URL, profile name), the credential profiles
/// known so far, the position of the next remote, whether B2 is being authorized
/// for it, and whether the round is a dry run (which never authorizes, as
/// authorizing rewrites the secrets file).
pub struct RemoteSync {
    pub remotes: Vec<(String, String)>,
    pub profiles: Vec<(String, Vec<(String, String)>)>,
    pub next: usize,
    pub authorizing: bool,
    pub dry_run: bool,
}

/// The names of credential profiles, in order.
pub open spec fn profile_names_of(ps: Seq<(String, Vec<(String, String)>)>) -> Seq<Seq<char>> {
    ps.map_values(|p: (String, Vec<(String, String)>)| p.0@)
}

/// The position of the first profile of this name.
pub open spec fn first_profile(names: Seq<Seq<char>>, name: Seq<char>) -> Option<int>
    decreases names.len(),
{
    if names.len() == 0 {
        None
    } else {
        match first_profile(names.drop_last(), name) {
            Some(i) => Some(i),
            None => if names.last() == name { Some(names.len() - 1) } else { None },
        }
    }
}

/// The message for a remote whose profile the secrets lack.
pub open spec fn missing_profile_message(url: Seq<char>, profile: Seq<char>) -> Seq<char> {
    "credentials profile '"@ + profile + "' not found in secrets \u{2014} skipping remote "@ + url
}

/// The message for a remote whose B2 authorization failed.
pub open spec fn failed_authorization_message(url: Seq<char>, error: Seq<char>) -> Seq<char> {
    "re-authorization failed: "@ + error + " \u{2014} skipping remote "@ + url
}

/// What a round does at the remote `next`, given the profiles it knows: sync with
/// the first profile of the remote's name; where there is none, authorize a `b2:`
/// remote outside a dry run, and skip the remote otherwise.
pub open spec fn step_at(remotes: Seq<(Seq<char>, Seq<char>)>, names: Seq<Seq<char>>, next: int, dry_run: bool)
    -> SyncStepView
{
    if next >= remotes.len() {
        SyncStepView::Done
    } else {
        match first_profile(names, remotes[next].1) {
            Some(p) => SyncStepView::Sync(next, p),
            None => if is_prefix("b2:"@, remotes[next].0) && !dry_run {
                SyncStepView::Authorize(next)
            } else {
                SyncStepView::Skip(next, missing_profile_message(remotes[next].0, remotes[next].1))
            },
        }
    }
}

impl RemoteSync {
    /// The remotes as (URL, profile name).
    pub open spec fn remotes_view(&self) -> Seq<(Seq<char>, Seq<char>)> {
        pair_views(self.remotes@)
    }

    /// The names of the known profiles.
    pub open spec fn names(&self) -> Seq<Seq<char>> {
        profile_names_of(self.profiles@)
    }

    /// The next remote lies within the round, and one being authorized has no
    /// known profile and a `b2:` URL.
    pub open spec fn wf(&self) -> bool {
        &&& self.next <= self.remotes@.len()
        &&& self.authorizing ==> {
            &&& self.next < self.remotes@.len()
            &&& step_at(self.remotes_view(), self.names(), self.next as int, self.dry_run) == SyncStepView::Authorize(self.next as int)
        }
    }

    /// A round over the remotes of a backup, knowing the profiles of the secrets.
    pub fn new(remotes: &Vec<Remote>, profiles: Vec<(String, Vec<(String, String)>)>, dry_run: bool) -> (r: Self)
        ensures
            r.wf(),
            r.remotes_view() == remote_pairs(remotes@),
            r.profiles == profiles,
            r.next == 0,
            !r.authorizing,
            r.dry_run == dry_run,
    {
        let mut rs: Vec<(String, String)> = Vec::new();
        let mut i: usize = 0;
        while i < remotes.len()
            invariant
                i <= remotes@.len(),
                rs@.len() == i,
                pair_views(rs@) == remote_pairs(remotes@.subrange(0, i as int)),
            decreases remotes.len() - i,
        {
            let r = &remotes[i];
            let ghost before = rs@;
            let u = r.url.clone();
            let c = r.credentials.clone();
            rs.push((u, c));
            proof {
                let sub = remotes@.subrange(0, i + 1);
                assert forall|k: int| 0 <= k < i + 1 implies #[trigger] pair_views(rs@)[k] == remote_pairs(sub)[k] by {
                    if k < i {
                        assert(rs@[k] == before[k]);
                        assert(pair_views(before)[k] == remote_pairs(remotes@.subrange(0, i as int))[k]);
                        assert(sub[k] == remotes@.subrange(0, i as int)[k]);
                    }
                }
                assert(pair_views(rs@) =~= remote_pairs(sub));
            }
            i = i + 1;
        }
        assert(remotes@.subrange(0, remotes@.len() as int) =~= remotes@);
        RemoteSync { remotes: rs, profiles, next: 0, authorizing: false, dry_run }
    }

    /// The position of the first known profile of this name.
    fn find_profile(&self, name: &str) -> (r: Option<usize>)
        ensures
            match r {
                Some(p) => first_profile(self.names(), name@) == Some(p as int),
                None => first_profile(self.names(), name@) is None,
            },
    {
        let mut i: usize = 0;
        while i < self.profiles.len()
            invariant
                i <= self.profiles@.len(),
                first_profile(self.names().subrange(0, i as int), name@) is None,
            decreases self.profiles.len() - i,
        {
            let ghost names = self.names();
            assert(names.subrange(0, i + 1).drop_last() =~= names.subrange(0, i as int));
            if str_eq(self.profiles[i].0.as_str(), name) {
                proof { lemma_first_profile_prefix(names, name@, i + 1); }
                return Some(i);
            }
            i = i + 1;
        }
        assert(self.names().subrange(0, i as int) =~= self.names());
        None
    }

    /// What to do for the next remote: sync, authorize, or skip; or `Done` after the
    /// last one. A sync or a skip moves on to the following remote.
    pub fn step(&mut self) -> (r: SyncStep)
        requires
            old(self).wf(),
            !old(self).authorizing,
        ensures
            final(self).wf(),
            step_view(r) == step_at(old(self).remotes_view(), old(self).names(), old(self).next as int,
                old(self).dry_run),
            final(self).dry_run == old(self).dry_run,
            final(self).remotes == old(self).remotes,
            final(self).profiles == old(self).profiles,
            final(self).next == (if r is Authorize || r is Done { old(self).next as int } else { old(self).next + 1 }),
            final(self).authorizing == (r is Authorize),
    {
        if self.next >= self.remotes.len() {
            return SyncStep::Done;
        }
        let i = self.next;
        match self.find_profile(self.remotes[i].1.as_str()) {
            Some(p) => {
                self.next = i + 1;
                SyncStep::Sync(i, p)
            },
            None => {
                if starts_with(self.remotes[i].0.as_str(), "b2:") && !self.dry_run {
                    self.authorizing = true;
                    SyncStep::Authorize(i)
                } else {
                    let m = cat4("credentials profile '", self.remotes[i].1.as_str(),
                        "' not found in secrets \u{2014} skipping remote ", self.remotes[i].0.as_str());
                    self.next = i + 1;
                    SyncStep::Skip(i, m)
                }
            },
        }
    }

    /// Takes the outcome of authorizing B2 for the remote `next`: its variables become
    /// the profile of the remote's name, and the remote is synced with them; or, where
    /// authorizing failed, the remote is skipped. Either way the round moves on.
    pub fn authorized(&mut self, outcome: Result<Vec<(String, String)>, String>) -> (r: SyncStep)
        requires
            old(self).wf(),
            old(self).authorizing,
        ensures
            final(self).wf(),
            !final(self).authorizing,
            final(self).remotes == old(self).remotes,
            final(self).dry_run == old(self).dry_run,
            final(self).next == old(self).next + 1,
            old(self).names().no_duplicates() ==> final(self).names().no_duplicates(),
            match outcome {
                Ok(vars) => {
                    &&& final(self).profiles@ == old(self).profiles@.push((old(self).remotes@[old(self).next as int].1, vars))
                    &&& step_view(r) == SyncStepView::Sync(old(self).next as int, old(self).profiles@.len() as int)
                },
                Err(e) => {
                    &&& final(self).profiles == old(self).profiles
                    &&& step_view(r) == SyncStepView::Skip(old(self).next as int,
                        failed_authorization_message(old(self).remotes_view()[old(self).next as int].0, e@))
                },
            },
    {
        let i = self.next;
        assert(i < self.remotes@.len());
        assert(i < self.remotes.len());
        self.authorizing = false;
        self.next = i + 1;
        match outcome {
            Ok(vars) => {
                let p = self.profiles.len();
                let name = self.remotes[i].1.clone();
                let ghost before = self.names();
                self.profiles.push((name, vars));
                proof {
                    assert(self.names() =~= before.push(name@));
                    lemma_absent_name(before, name@);
                    if before.no_duplicates() {
                        assert forall|a: int, b: int| 0 <= a < b < self.names().len()
                            implies self.names()[a] != self.names()[b] by {
                            if b == before.len() {
                                assert(before[a] == self.names()[a]);
                            }
                        }
                    }
                }
                SyncStep::Sync(i, p)
            },
            Err(e) => {
                let m = cat4("re-authorization failed: ", e.as_str(), " \u{2014} skipping remote ",
                    self.remotes[i].0.as_str());
                SyncStep::Skip(i, m)
            },
        }
    }
}

/// A name that no profile has is not among the names.
proof fn lemma_absent_name(names: Seq<Seq<char>>, name: Seq<char>)
    requires
        first_profile(names, name) is None,
    ensures
        forall|k: int| 0 <= k < names.len() ==> names[k] != name,
    decreases names.len(),
{
    if names.len() > 0 {
        lemma_absent_name(names.drop_last(), name);
        assert forall|k: int| 0 <= k < names.len() implies names[k] != name by {
            if k < names.len() - 1 {
                assert(names.drop_last()[k] == names[k]);
            }
        }
    }
}

/// A name found at the end of a prefix of the names, and nowhere before it, is
/// found there.
proof fn lemma_first_profile_prefix(names: Seq<Seq<char>>, name: Seq<char>, n: int)
    requires
        0 < n <= names.len(),
        names[n - 1] == name,
        first_profile(names.subrange(0, n - 1), name) is None,
    ensures
        first_profile(names, name) == Some(n - 1),
    decreases names.len(),
{
    if names.len() > n {
        assert(names.drop_last().subrange(0, n - 1) =~= names.subrange(0, n - 1));
        lemma_first_profile_prefix(names.drop_last(), name, n);
    } else {
        assert(names.drop_last() =~= names.subrange(0, n - 1));
    }
}

/// A dry run never authorizes B2, so it never rewrites the secrets file.
pub proof fn dry_run_never_authorizes(remotes: Seq<(Seq<char>, Seq<char>)>, names: Seq<Seq<char>>, next: int)
    ensures
        !(step_at(remotes, names, next, true) is Authorize),
{
}

/// A profile that a round learns by authorizing B2 for one remote is the one that
/// every later remote of that profile name syncs with: B2 is authorized at most once
/// per profile in a round.
pub proof fn authorized_profile_serves_later_remotes(remotes: Seq<(Seq<char>, Seq<char>)>, names: Seq<Seq<char>>,
    i: int, j: int, dry_run: bool)
    requires
        0 <= i < j < remotes.len(),
        remotes[j].1 == remotes[i].1,
        first_profile(names, remotes[i].1) is None,
    ensures
        step_at(remotes, names.push(remotes[i].1), j, dry_run) == SyncStepView::Sync(j, names.len() as int),
{
    assert(names.push(remotes[i].1).drop_last() =~= names);
}

} // verus!
