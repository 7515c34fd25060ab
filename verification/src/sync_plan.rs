//! The commands that copy a local repository to each kind of remote, and the
//! messages that report on them.
use vstd::prelude::*;
use crate::remote::{B2Backend, RemoteBackend, RustfsBackend, S3Backend, bucket_exists_text, is_bucket_already_exists_error,
    percent_encode_credential, percent_encoded, split_once};
use crate::env::{env_get_or_empty, env_or_empty};
use crate::text::{cat, cat3, cat4, cat5, chars_of, contains, contains_seq, find_seq, occurs_at, owned, pair_views,
    string_of, views};

verus! {

/// A program to run: its arguments, the variables it is given, and whether the
/// remote's credentials are given to it as variables too.
pub struct CommandSpec {
    pub program: String,
    pub args: Vec<String>,
    pub env: Vec<(String, String)>,
    pub with_credentials: bool,
}

/// What a command spec runs, as plain text.
pub open spec fn command_view(c: CommandSpec) -> CommandView {
    (c.program@, views(c.args@), pair_views(c.env@), c.with_credentials)
}

fn command(program: &str, args: Vec<String>, env: Vec<(String, String)>, with_credentials: bool) -> (c: CommandSpec)
    ensures
        c.program@ == program@,
        c.args == args,
        c.env == env,
        c.with_credentials == with_credentials,
{
    CommandSpec { program: owned(program), args, env, with_credentials }
}

/// The plain values of a command: program, arguments, variables, and whether the
/// remote's credentials are added.
pub type CommandView = (Seq<char>, Seq<Seq<char>>, Seq<(Seq<char>, Seq<char>)>, bool);

/// `b2 sync` of a local repository to the bucket and path, deleting on the remote
/// what the repository no longer holds.
pub open spec fn b2_sync_view(b: B2Backend, repo: Seq<char>) -> CommandView {
    ("b2"@, seq!["sync"@, "--delete"@, "--replace-newer"@, "--compare-versions"@, "size"@, repo,
        "b2://"@ + b.bucket@ + "/"@ + b.path@], Seq::<(Seq<char>, Seq<char>)>::empty(), true)
}

/// What a dry run to B2 reports.
pub open spec fn b2_dry_run_text(b: B2Backend, repo: Seq<char>) -> Seq<char> {
    "[dry-run] would sync "@ + repo + " to b2://"@ + b.bucket@ + "/"@ + b.path@
}

/// The error of a failed `b2 sync`.
pub open spec fn b2_failure_text(b: B2Backend, stderr: Seq<char>) -> Seq<char> {
    "b2 sync to "@ + "b2://"@ + b.bucket@ + "/"@ + b.path@ + " failed: "@ + stderr
}

/// `restic copy` of a local repository's snapshots into the remote repository.
pub open spec fn s3_copy_view(s: S3Backend, repo: Seq<char>) -> CommandView {
    ("restic"@, seq!["copy"@, "--repo"@, repo, "--to"@, s.url@], Seq::<(Seq<char>, Seq<char>)>::empty(), true)
}

/// What a dry run to an S3 repository reports.
pub open spec fn s3_dry_run_text(s: S3Backend, repo: Seq<char>) -> Seq<char> {
    "[dry-run] would copy "@ + repo + " to "@ + s.url@
}

/// The error of a failed `restic copy`: a remote repository that was never
/// initialized gets the command that initializes it.
pub open spec fn copy_failure_text(s: S3Backend, stderr: Seq<char>) -> Seq<char> {
    if uninitialized_repo_text(stderr) {
        "remote restic repo must be initialized first: restic init --repo "@ + s.url@
    } else {
        "restic copy to "@ + s.url@ + " failed: "@ + stderr
    }
}

/// What a dry run to an S3-compatible server reports.
pub open spec fn rustfs_dry_run_text(r: RustfsBackend, repo: Seq<char>) -> Seq<char> {
    "[dry-run] would sync "@ + repo + " to rustfs:"@ + r.endpoint@ + "/"@ + r.bucket@
}

/// `mc mb --ignore-existing` of the bucket.
pub open spec fn mc_make_bucket_view(r: RustfsBackend, creds: Seq<(Seq<char>, Seq<char>)>) -> CommandView {
    ("mc"@, seq!["mb"@, "--ignore-existing"@, "vivo-sync/"@ + r.bucket@], mc_vars(r.endpoint@, creds), false)
}

/// `mc mirror --remove --overwrite` of a local repository to the bucket and path.
pub open spec fn mc_mirror_view(r: RustfsBackend, repo: Seq<char>, creds: Seq<(Seq<char>, Seq<char>)>) -> CommandView {
    ("mc"@, seq!["mirror"@, "--remove"@, "--overwrite"@, repo, r.dest_under("vivo-sync/"@)],
        mc_vars(r.endpoint@, creds), false)
}

/// `aws s3 mb` of the bucket.
pub open spec fn aws_make_bucket_view(r: RustfsBackend) -> CommandView {
    ("aws"@, seq!["s3"@, "mb"@, "s3://"@ + r.bucket@, "--endpoint-url"@, r.endpoint@],
        Seq::<(Seq<char>, Seq<char>)>::empty(), true)
}

/// The error of a failed `aws s3 mb`, or none where the bucket only exists already.
pub open spec fn aws_make_bucket_failure_text(r: RustfsBackend, stderr: Seq<char>) -> Option<Seq<char>> {
    if bucket_exists_text(stderr) {
        None
    } else {
        Some("aws s3 mb failed for bucket '"@ + r.bucket@ + "': "@ + stderr)
    }
}

/// `aws s3 sync --delete --size-only` of a local repository to the bucket and path.
pub open spec fn aws_sync_view(r: RustfsBackend, repo: Seq<char>) -> CommandView {
    ("aws"@, seq!["s3"@, "sync"@, "--delete"@, "--size-only"@, repo, r.dest_under("s3://"@), "--endpoint-url"@,
        r.endpoint@], Seq::<(Seq<char>, Seq<char>)>::empty(), true)
}

/// `rclone mkdir` of the bucket.
pub open spec fn rclone_make_bucket_view(r: RustfsBackend, creds: Seq<(Seq<char>, Seq<char>)>) -> CommandView {
    ("rclone"@, seq!["mkdir"@, ":s3:"@ + r.bucket@, "--s3-provider"@, "Other"@, "--s3-endpoint"@, r.endpoint@],
        rclone_vars(creds), false)
}

/// `rclone sync --delete-during --size-only` of a local repository to the bucket and path.
pub open spec fn rclone_sync_view(r: RustfsBackend, repo: Seq<char>, creds: Seq<(Seq<char>, Seq<char>)>) -> CommandView {
    ("rclone"@, seq!["sync"@, "--delete-during"@, "--size-only"@, repo, r.dest_under(":s3:"@), "--s3-provider"@,
        "Other"@, "--s3-endpoint"@, r.endpoint@], rclone_vars(creds), false)
}

/// The error of a failed client command against the server.
pub open spec fn client_failure_text(r: RustfsBackend, program: Seq<char>, stderr: Seq<char>) -> Seq<char> {
    program + " sync to "@ + r.endpoint@ + " failed: "@ + stderr
}

impl B2Backend {
    /// The B2 address of the bucket and path.
    pub fn remote_url(&self) -> (r: String)
        ensures
            r@ == "b2://"@ + self.bucket@ + "/"@ + self.path@,
    {
        cat4("b2://", self.bucket.as_str(), "/", self.path.as_str())
    }

    /// `b2 sync`, deleting on the remote what the local repository no longer holds.
    pub fn sync_command(&self, local_repo: &str) -> (c: CommandSpec)
        ensures
            command_view(c) == b2_sync_view(*self, local_repo@),
    {
        let mut a: Vec<String> = Vec::new();
        a.push(owned("sync"));
        a.push(owned("--delete"));
        a.push(owned("--replace-newer"));
        a.push(owned("--compare-versions"));
        a.push(owned("size"));
        a.push(owned(local_repo));
        a.push(self.remote_url());
        let c = command("b2", a, Vec::new(), true);
        assert(views(c.args@) =~= seq!["sync"@, "--delete"@, "--replace-newer"@, "--compare-versions"@,
            "size"@, local_repo@, "b2://"@ + self.bucket@ + "/"@ + self.path@]);
        assert(pair_views(c.env@) =~= Seq::<(Seq<char>, Seq<char>)>::empty());
        c
    }

    /// What a dry run reports instead of syncing.
    pub fn dry_run_message(&self, local_repo: &str) -> (r: String)
        ensures
            r@ == b2_dry_run_text(*self, local_repo@),
    {
        let mut r = cat4("[dry-run] would sync ", local_repo, " to b2://", self.bucket.as_str());
        r.append("/");
        r.append(self.path.as_str());
        r
    }

    /// The error of a failed `b2 sync`, with what it printed on stderr.
    pub fn sync_failure_message(&self, stderr: &str) -> (r: String)
        ensures
            r@ == b2_failure_text(*self, stderr@),
    {
        let url = self.remote_url();
        cat4("b2 sync to ", url.as_str(), " failed: ", stderr)
    }
}

/// The text of restic's stderr says that the target repository has no config.
pub open spec fn uninitialized_repo_text(stderr: Seq<char>) -> bool {
    contains_seq(stderr, "unable to open config"@)
}

impl S3Backend {
    /// `restic copy` of the local repository's snapshots into the remote repository.
    pub fn copy_command(&self, local_repo: &str) -> (c: CommandSpec)
        ensures
            command_view(c) == s3_copy_view(*self, local_repo@),
    {
        let mut a: Vec<String> = Vec::new();
        a.push(owned("copy"));
        a.push(owned("--repo"));
        a.push(owned(local_repo));
        a.push(owned("--to"));
        a.push(self.url.clone());
        let c = command("restic", a, Vec::new(), true);
        assert(views(c.args@) =~= seq!["copy"@, "--repo"@, local_repo@, "--to"@, self.url@]);
        assert(pair_views(c.env@) =~= Seq::<(Seq<char>, Seq<char>)>::empty());
        c
    }

    /// What a dry run reports instead of copying.
    pub fn dry_run_message(&self, local_repo: &str) -> (r: String)
        ensures
            r@ == s3_dry_run_text(*self, local_repo@),
    {
        cat4("[dry-run] would copy ", local_repo, " to ", self.url.as_str())
    }

    /// The error of a failed `restic copy`: a remote repository that was never
    /// initialized gets the command that initializes it.
    pub fn copy_failure_message(&self, stderr: &str) -> (r: String)
        ensures
            r@ == copy_failure_text(*self, stderr@),
    {
        if contains(stderr, "unable to open config") {
            cat("remote restic repo must be initialized first: restic init --repo ", self.url.as_str())
        } else {
            cat4("restic copy to ", self.url.as_str(), " failed: ", stderr)
        }
    }
}

/// The scheme and host of an endpoint; an endpoint without `://` is taken as the host
/// of an `https` endpoint.
pub open spec fn endpoint_parts(endpoint: Seq<char>) -> (Seq<char>, Seq<char>) {
    match split_once(endpoint, "://"@) {
        Some(p) => p,
        None => ("https"@, endpoint),
    }
}

/// The `mc` alias URL that carries the credentials to the endpoint.
pub open spec fn mc_host_url(endpoint: Seq<char>, key: Seq<char>, secret: Seq<char>) -> Seq<char> {
    let (scheme, host) = endpoint_parts(endpoint);
    scheme + "://"@ + percent_encoded(key) + ":"@ + percent_encoded(secret) + "@"@ + host
}

/// The name of the alias that `mc` is given the server under.
pub open spec fn mc_alias_var() -> Seq<char> {
    "MC_HOST_vivo-sync"@
}

/// The variables given to `mc`: only the alias of the server, built from the
/// credentials' access key and secret (empty where unset).
pub open spec fn mc_vars(endpoint: Seq<char>, creds: Seq<(Seq<char>, Seq<char>)>) -> Seq<(Seq<char>, Seq<char>)> {
    seq![(mc_alias_var(), mc_host_url(endpoint, env_or_empty(creds, "AWS_ACCESS_KEY_ID"@),
        env_or_empty(creds, "AWS_SECRET_ACCESS_KEY"@)))]
}

/// The variables given to `rclone`: the credentials' access key and secret under
/// the names `rclone` reads (empty where unset).
pub open spec fn rclone_vars(creds: Seq<(Seq<char>, Seq<char>)>) -> Seq<(Seq<char>, Seq<char>)> {
    seq![
        ("RCLONE_S3_ACCESS_KEY_ID"@, env_or_empty(creds, "AWS_ACCESS_KEY_ID"@)),
        ("RCLONE_S3_SECRET_ACCESS_KEY"@, env_or_empty(creds, "AWS_SECRET_ACCESS_KEY"@)),
    ]
}

impl RustfsBackend {
    /// The bucket, and the path within it, under the prefix `pre`.
    pub open spec fn dest_under(&self, pre: Seq<char>) -> Seq<char> {
        if self.subpath@.len() == 0 {
            pre + self.bucket@
        } else {
            pre + self.bucket@ + "/"@ + self.subpath@
        }
    }

    fn dest_with(&self, pre: &str) -> (r: String)
        ensures
            r@ == self.dest_under(pre@),
    {
        if self.subpath.unicode_len() == 0 {
            cat(pre, self.bucket.as_str())
        } else {
            cat4(pre, self.bucket.as_str(), "/", self.subpath.as_str())
        }
    }

    /// The destination as the `aws` client names it.
    pub fn s3_dest(&self) -> (r: String)
        ensures
            r@ == self.dest_under("s3://"@),
    {
        self.dest_with("s3://")
    }

    /// The destination as `rclone` names it.
    pub fn rclone_dest(&self) -> (r: String)
        ensures
            r@ == self.dest_under(":s3:"@),
    {
        self.dest_with(":s3:")
    }

    /// The destination under the `mc` alias of the server.
    pub fn mc_dest(&self) -> (r: String)
        ensures
            r@ == self.dest_under("vivo-sync/"@),
    {
        self.dest_with("vivo-sync/")
    }

    /// What a dry run reports instead of mirroring.
    pub fn dry_run_message(&self, local_repo: &str) -> (r: String)
        ensures
            r@ == rustfs_dry_run_text(*self, local_repo@),
    {
        let mut r = cat4("[dry-run] would sync ", local_repo, " to rustfs:", self.endpoint.as_str());
        r.append("/");
        r.append(self.bucket.as_str());
        r
    }

    /// The `mc` alias URL of the server, with the access key and secret encoded into it.
    pub fn mc_host(&self, key: &str, secret: &str) -> (r: String)
        ensures
            r@ == mc_host_url(self.endpoint@, key@, secret@),
    {
        let ev = chars_of(self.endpoint.as_str());
        let sep = chars_of("://");
        let (scheme, host) = match find_seq(&ev, &sep) {
            Some(i) => {
                assert(occurs_at(ev@, sep@, i as int));
                let n = ev.len();
                let k = sep.len();
                assert(i + k <= n);
                (string_of(&ev, 0, i), string_of(&ev, i + k, n))
            },
            None => (owned("https"), self.endpoint.clone()),
        };
        let mut r = cat3(scheme.as_str(), "://", percent_encode_credential(key).as_str());
        r.append(":");
        r.append(percent_encode_credential(secret).as_str());
        r.append("@");
        r.append(host.as_str());
        r
    }

    /// The variables that give `mc` the server: only its alias, built from the
    /// credentials' `AWS_ACCESS_KEY_ID` and `AWS_SECRET_ACCESS_KEY` (empty where unset).
    pub fn mc_env(&self, creds: &Vec<(String, String)>) -> (r: Vec<(String, String)>)
        ensures
            pair_views(r@) == mc_vars(self.endpoint@, pair_views(creds@)),
    {
        let key = env_get_or_empty(creds, "AWS_ACCESS_KEY_ID");
        let secret = env_get_or_empty(creds, "AWS_SECRET_ACCESS_KEY");
        let host = self.mc_host(key.as_str(), secret.as_str());
        let mut r: Vec<(String, String)> = Vec::new();
        r.push((owned("MC_HOST_vivo-sync"), host));
        assert(pair_views(r@) =~= mc_vars(self.endpoint@, pair_views(creds@)));
        r
    }

    /// `mc mb --ignore-existing`, which makes the bucket unless it exists.
    pub fn mc_make_bucket_command(&self, creds: &Vec<(String, String)>) -> (c: CommandSpec)
        ensures
            command_view(c) == mc_make_bucket_view(*self, pair_views(creds@)),
    {
        let mut a: Vec<String> = Vec::new();
        a.push(owned("mb"));
        a.push(owned("--ignore-existing"));
        a.push(cat("vivo-sync/", self.bucket.as_str()));
        let c = command("mc", a, self.mc_env(creds), false);
        assert(views(c.args@) =~= seq!["mb"@, "--ignore-existing"@, "vivo-sync/"@ + self.bucket@]);
        c
    }

    /// `mc mirror --remove --overwrite`, which makes the remote path an exact copy.
    pub fn mc_mirror_command(&self, local_repo: &str, creds: &Vec<(String, String)>) -> (c: CommandSpec)
        ensures
            command_view(c) == mc_mirror_view(*self, local_repo@, pair_views(creds@)),
    {
        let mut a: Vec<String> = Vec::new();
        a.push(owned("mirror"));
        a.push(owned("--remove"));
        a.push(owned("--overwrite"));
        a.push(owned(local_repo));
        a.push(self.mc_dest());
        let c = command("mc", a, self.mc_env(creds), false);
        assert(views(c.args@) =~= seq!["mirror"@, "--remove"@, "--overwrite"@, local_repo@,
            self.dest_under("vivo-sync/"@)]);
        c
    }

    /// `aws s3 mb` against the server's endpoint.
    pub fn aws_make_bucket_command(&self) -> (c: CommandSpec)
        ensures
            command_view(c) == aws_make_bucket_view(*self),
    {
        let mut a: Vec<String> = Vec::new();
        a.push(owned("s3"));
        a.push(owned("mb"));
        a.push(cat("s3://", self.bucket.as_str()));
        a.push(owned("--endpoint-url"));
        a.push(self.endpoint.clone());
        let c = command("aws", a, Vec::new(), true);
        assert(views(c.args@) =~= seq!["s3"@, "mb"@, "s3://"@ + self.bucket@, "--endpoint-url"@, self.endpoint@]);
        assert(pair_views(c.env@) =~= Seq::<(Seq<char>, Seq<char>)>::empty());
        c
    }

    /// The error of a failed `aws s3 mb`, or `None` where the bucket only exists already.
    pub fn aws_make_bucket_failure(&self, stderr: &str) -> (r: Option<String>)
        ensures
            match aws_make_bucket_failure_text(*self, stderr@) {
                Some(t) => r matches Some(m) && m@ == t,
                None => r is None,
            },
    {
        if is_bucket_already_exists_error(stderr) {
            None
        } else {
            Some(cat4("aws s3 mb failed for bucket '", self.bucket.as_str(), "': ", stderr))
        }
    }

    /// `aws s3 sync --delete --size-only` against the server's endpoint.
    pub fn aws_sync_command(&self, local_repo: &str) -> (c: CommandSpec)
        ensures
            command_view(c) == aws_sync_view(*self, local_repo@),
    {
        let mut a: Vec<String> = Vec::new();
        a.push(owned("s3"));
        a.push(owned("sync"));
        a.push(owned("--delete"));
        a.push(owned("--size-only"));
        a.push(owned(local_repo));
        a.push(self.s3_dest());
        a.push(owned("--endpoint-url"));
        a.push(self.endpoint.clone());
        let c = command("aws", a, Vec::new(), true);
        assert(views(c.args@) =~= seq!["s3"@, "sync"@, "--delete"@, "--size-only"@, local_repo@,
            self.dest_under("s3://"@), "--endpoint-url"@, self.endpoint@]);
        assert(pair_views(c.env@) =~= Seq::<(Seq<char>, Seq<char>)>::empty());
        c
    }

    /// The variables that give `rclone` the credentials (empty where unset).
    pub fn rclone_env(&self, creds: &Vec<(String, String)>) -> (r: Vec<(String, String)>)
        ensures
            pair_views(r@) == rclone_vars(pair_views(creds@)),
    {
        let key = env_get_or_empty(creds, "AWS_ACCESS_KEY_ID");
        let secret = env_get_or_empty(creds, "AWS_SECRET_ACCESS_KEY");
        let mut r: Vec<(String, String)> = Vec::new();
        r.push((owned("RCLONE_S3_ACCESS_KEY_ID"), key));
        r.push((owned("RCLONE_S3_SECRET_ACCESS_KEY"), secret));
        assert(pair_views(r@) =~= rclone_vars(pair_views(creds@)));
        r
    }

    /// `rclone mkdir` of the bucket on the server.
    pub fn rclone_make_bucket_command(&self, creds: &Vec<(String, String)>) -> (c: CommandSpec)
        ensures
            command_view(c) == rclone_make_bucket_view(*self, pair_views(creds@)),
    {
        let mut a: Vec<String> = Vec::new();
        a.push(owned("mkdir"));
        a.push(cat(":s3:", self.bucket.as_str()));
        a.push(owned("--s3-provider"));
        a.push(owned("Other"));
        a.push(owned("--s3-endpoint"));
        a.push(self.endpoint.clone());
        let c = command("rclone", a, self.rclone_env(creds), false);
        assert(views(c.args@) =~= seq!["mkdir"@, ":s3:"@ + self.bucket@, "--s3-provider"@, "Other"@,
            "--s3-endpoint"@, self.endpoint@]);
        c
    }

    /// `rclone sync --delete-during --size-only` to the server.
    pub fn rclone_sync_command(&self, local_repo: &str, creds: &Vec<(String, String)>) -> (c: CommandSpec)
        ensures
            command_view(c) == rclone_sync_view(*self, local_repo@, pair_views(creds@)),
    {
        let mut a: Vec<String> = Vec::new();
        a.push(owned("sync"));
        a.push(owned("--delete-during"));
        a.push(owned("--size-only"));
        a.push(owned(local_repo));
        a.push(self.rclone_dest());
        a.push(owned("--s3-provider"));
        a.push(owned("Other"));
        a.push(owned("--s3-endpoint"));
        a.push(self.endpoint.clone());
        let c = command("rclone", a, self.rclone_env(creds), false);
        assert(views(c.args@) =~= seq!["sync"@, "--delete-during"@, "--size-only"@, local_repo@,
            self.dest_under(":s3:"@), "--s3-provider"@, "Other"@, "--s3-endpoint"@, self.endpoint@]);
        c
    }

    /// The error of a failed client command, with what it printed on stderr.
    pub fn sync_failure_message(&self, program: &str, stderr: &str) -> (r: String)
        ensures
            r@ == client_failure_text(*self, program@, stderr@),
    {
        cat5(program, " sync to ", self.endpoint.as_str(), " failed: ", stderr)
    }
}

} // verus!
