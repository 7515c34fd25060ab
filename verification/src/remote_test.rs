//! Testing a remote from the configuration manager, and setting up a repository
//! that is missing there: the commands run and what is reported of them.
use vstd::prelude::*;
use crate::backup_run::signed_decimal;
use crate::mount::{normalize_repo_url, restic_repo_url};
use crate::sync_plan::{CommandSpec, command_view};
use crate::text::{cat3, chars_of, is_prefix, occurs_at, occurs_at_exec, owned, pair_views, push_decimal, starts_with,
    string_of, views};
use crate::tui_events::{needs_init, repo_needs_init};

verus! {

/// `s` without all the copies of `p` that it starts with, one after the other
/// (`p` is not empty).
pub open spec fn strip_leading(s: Seq<char>, p: Seq<char>) -> Seq<char>
    decreases s.len(),
{
    if p.len() > 0 && is_prefix(p, s) {
        strip_leading(s.subrange(p.len() as int, s.len() as int), p)
    } else {
        s
    }
}

/// The position after the copies of `p` that `v` starts with.
fn leading_copies_end(v: &Vec<char>, p: &Vec<char>) -> (r: usize)
    requires
        p@.len() > 0,
    ensures
        r <= v@.len(),
        v@.subrange(r as int, v@.len() as int) == strip_leading(v@, p@),
{
    let mut i: usize = 0;
    assert(v@.subrange(0, v@.len() as int) =~= v@);
    while occurs_at_exec(v, p, i)
        invariant
            i <= v@.len(),
            p@.len() > 0,
            strip_leading(v@.subrange(i as int, v@.len() as int), p@) == strip_leading(v@, p@),
        decreases v@.len() - i,
    {
        let ghost rest = v@.subrange(i as int, v@.len() as int);
        assert(occurs_at(v@, p@, i as int));
        assert(i + p@.len() <= v@.len());
        assert(rest.subrange(0, p@.len() as int) =~= v@.subrange(i as int, i + p@.len()));
        assert(is_prefix(p@, rest));
        assert(rest.subrange(p@.len() as int, rest.len() as int) =~= v@.subrange(i + p@.len(), v@.len() as int));
        let pl = p.len();
        assert(i + pl <= v.len());
        i = i + pl;
    }
    let ghost rest = v@.subrange(i as int, v@.len() as int);
    assert(!is_prefix(p@, rest)) by {
        if is_prefix(p@, rest) {
            assert(v@.subrange(i as int, i + p@.len()) =~= rest.subrange(0, p@.len() as int));
        }
    }
    i
}

/// The path that `b2 ls` lists to test a `b2:` remote: the URL without its leading
/// `b2:` prefixes, then without its leading slashes.
pub open spec fn b2_list_path(url: Seq<char>) -> Seq<char> {
    strip_leading(strip_leading(url, "b2:"@), "/"@)
}

/// The arguments that list a repository's snapshots without locking or caching,
/// a `rustfs:` URL read as `s3:`.
pub open spec fn snapshots_args(url: Seq<char>) -> Seq<Seq<char>> {
    seq!["-r"@, restic_repo_url(url), "snapshots"@, "--no-lock"@, "--no-cache"@]
}

/// The restic password, as the one variable a probe is given besides the remote's
/// credentials.
pub open spec fn password_env(pw: Seq<char>) -> Seq<(Seq<char>, Seq<char>)> {
    seq![("RESTIC_PASSWORD"@, pw)]
}

/// What testing a remote runs: `b2 ls <path>` for a `b2:` URL, else restic listing
/// the repository's snapshots; each with the restic password and the remote's
/// credentials.
pub open spec fn remote_test_view(url: Seq<char>, pw: Seq<char>)
    -> (Seq<char>, Seq<Seq<char>>, Seq<(Seq<char>, Seq<char>)>, bool)
{
    if is_prefix("b2:"@, url) {
        ("b2"@, seq!["ls"@, b2_list_path(url)], password_env(pw), true)
    } else {
        ("restic"@, snapshots_args(url), password_env(pw), true)
    }
}

pub(crate) fn password_vars(pw: &str) -> (r: Vec<(String, String)>)
    ensures
        pair_views(r@) == password_env(pw@),
{
    let mut env: Vec<(String, String)> = Vec::new();
    env.push((owned("RESTIC_PASSWORD"), owned(pw)));
    assert(pair_views(env@) =~= password_env(pw@));
    env
}

fn snapshots_command(url: &str, pw: &str) -> (c: CommandSpec)
    ensures
        command_view(c) == ("restic"@, snapshots_args(url@), password_env(pw@), true),
{
    let mut args: Vec<String> = Vec::new();
    args.push(owned("-r"));
    args.push(normalize_repo_url(url));
    args.push(owned("snapshots"));
    args.push(owned("--no-lock"));
    args.push(owned("--no-cache"));
    assert(views(args@) =~= snapshots_args(url@));
    CommandSpec { program: owned("restic"), args, env: password_vars(pw), with_credentials: true }
}

/// The command that tests a remote from the configuration manager.
pub fn remote_test_command(url: &str, restic_password: &str) -> (c: CommandSpec)
    ensures
        command_view(c) == remote_test_view(url@, restic_password@),
{
    if starts_with(url, "b2:") {
        proof {
            reveal_strlit("b2:");
            reveal_strlit("/");
        }
        let v = chars_of(url);
        let prefix = chars_of("b2:");
        let a = leading_copies_end(&v, &prefix);
        let w = crate::text::sub_chars(&v, a, v.len());
        let slash = chars_of("/");
        let b = leading_copies_end(&w, &slash);
        let path = string_of(&w, b, w.len());
        let mut args: Vec<String> = Vec::new();
        args.push(owned("ls"));
        args.push(path);
        assert(views(args@) =~= seq!["ls"@, b2_list_path(url@)]);
        CommandSpec { program: owned("b2"), args, env: password_vars(restic_password), with_credentials: true }
    } else {
        snapshots_command(url, restic_password)
    }
}

/// The command that checks whether a repository exists before offering to set one
/// up: restic listing its snapshots, with the restic password and the remote's
/// credentials.
pub fn repo_probe_command(url: &str, restic_password: &str) -> (c: CommandSpec)
    ensures
        command_view(c) == ("restic"@, snapshots_args(url@), password_env(restic_password@), true),
{
    snapshots_command(url, restic_password)
}

/// The command that sets up a repository at a remote: `restic -r <url> init`, a
/// `rustfs:` URL read as `s3:`, with the restic password and the remote's
/// credentials.
pub fn repo_init_command(url: &str, restic_password: &str) -> (c: CommandSpec)
    ensures
        command_view(c) == ("restic"@, seq!["-r"@, restic_repo_url(url@), "init"@], password_env(restic_password@),
            true),
{
    let mut args: Vec<String> = Vec::new();
    args.push(owned("-r"));
    args.push(normalize_repo_url(url));
    args.push(owned("init"));
    assert(views(args@) =~= seq!["-r"@, restic_repo_url(url@), "init"@]);
    CommandSpec { program: owned("restic"), args, env: password_vars(restic_password), with_credentials: true }
}

/// An exit code as a report writes it: the code, or -1 for a process that ended
/// without one.
pub open spec fn exit_text(code: Option<i32>) -> Seq<char> {
    signed_decimal(match code {
        Some(c) => c as int,
        None => -1,
    })
}

fn exit_code_text(code: Option<i32>) -> (r: String)
    ensures
        r@ == exit_text(code),
{
    let n: i32 = match code {
        Some(c) => c,
        None => -1,
    };
    let mut r = String::new();
    if n < 0 {
        r.push('-');
        let m: i64 = -(n as i64);
        push_decimal(&mut r, m as u64);
    } else {
        push_decimal(&mut r, n as u64);
    }
    assert(r@ =~= exit_text(code));
    r
}

/// What the test of a remote reports: `Remote test passed.`, or
/// `Remote test failed (exit <code>).`
pub fn test_summary(success: bool, code: Option<i32>) -> (r: String)
    ensures
        success ==> r@ == "Remote test passed."@,
        !success ==> r@ == "Remote test failed (exit "@ + exit_text(code) + ")."@,
{
    if success {
        owned("Remote test passed.")
    } else {
        let t = exit_code_text(code);
        cat3("Remote test failed (exit ", t.as_str(), ").")
    }
}

/// Whether a failed probe is followed by the offer to set up a repository: only
/// where restic says that none exists at the location.
pub fn offers_init(success: bool, output: &str) -> (r: bool)
    ensures
        r == (!success && needs_init(output@)),
{
    !success && repo_needs_init(output)
}

/// The question that offers to set up a repository.
pub fn init_question(url: &str) -> (r: String)
    ensures
        r@ == "No repository found at '"@ + url@ + "'. Initialize it now?"@,
{
    cat3("No repository found at '", url, "'. Initialize it now?")
}

/// What setting up a repository reports: `Repository initialized.`, or the error
/// `restic init failed (exit <code>).`
pub fn init_outcome(success: bool, code: Option<i32>) -> (r: Result<String, String>)
    ensures
        success ==> (r matches Ok(m) && m@ == "Repository initialized."@),
        !success ==> (r matches Err(m) && m@ == "restic init failed (exit "@ + exit_text(code) + ")."@),
{
    if success {
        Ok(owned("Repository initialized."))
    } else {
        let t = exit_code_text(code);
        Err(cat3("restic init failed (exit ", t.as_str(), ")."))
    }
}

} // verus!
