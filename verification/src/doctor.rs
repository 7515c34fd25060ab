//! The health checks of `vivo doctor`: what each check reports for what was found,
//! and the summary of a run of checks.
use vstd::prelude::*;
use crate::config::{Secrets, config_home, path_join, join_path, opt_view};
use crate::remote::split_once;
use crate::sync_plan::{CommandSpec, command_view};
use crate::text::{cat, cat3, cat4, cat5, decimal, decimal_u64, is_prefix, owned, pair_views,
    starts_with, str_eq, chars_of, find_seq, string_of, occurs_at, occurs_at_exec, views};

verus! {

/// The outcome of a check.
#[derive(Debug, Clone, Copy, PartialEq, Eq, Structural)]
pub enum CheckStatus {
    Pass,
    Warn,
    Fail,
}

/// A check's label, outcome, and what to do about it.
pub struct CheckResult {
    pub label: String,
    pub status: CheckStatus,
    pub detail: Option<String>,
}

/// A check result as plain values.
pub open spec fn result_view(r: CheckResult) -> (Seq<char>, CheckStatus, Option<Seq<char>>) {
    (r.label@, r.status, match r.detail {
        Some(d) => Some(d@),
        None => None,
    })
}

/// The result of looking for a tool: `version` is the first line it printed for its
/// version flag, `None` where it did not run or failed.
pub fn check_tool_present(name: &str, version: Option<&str>, install_hint: &str) -> (r: CheckResult)
    ensures
        match version {
            Some(v) => result_view(r) == (name@ + " ("@ + v@ + ")"@, CheckStatus::Pass, None::<Seq<char>>),
            None => result_view(r) == (name@, CheckStatus::Fail, Some(install_hint@)),
        },
{
    match version {
        Some(v) => CheckResult { label: cat4(name, " (", v, ")"), status: CheckStatus::Pass, detail: None },
        None => CheckResult { label: owned(name), status: CheckStatus::Fail, detail: Some(owned(install_hint)) },
    }
}

/// The age identity file: `$SOPS_AGE_KEY_FILE` where set, else `sops/age/keys.txt`
/// in the configuration directory.
pub open spec fn age_key_file(env: Option<Seq<char>>, home: Seq<char>) -> Seq<char> {
    match env {
        Some(e) => e,
        None => path_join(home, "sops/age/keys.txt"@),
    }
}

/// The age identity file, from the value of `SOPS_AGE_KEY_FILE` and the
/// configuration directory.
pub fn age_keys_path(env: Option<&str>, home: &str) -> (r: String)
    ensures
        r@ == age_key_file(opt_view(env), home@),
{
    match env {
        Some(e) => owned(e),
        None => join_path(home, "sops/age/keys.txt"),
    }
}

/// The position of the first `\n` at or after `i`, or the length where there is none.
pub open spec fn newline_from(s: Seq<char>, i: int) -> int
    decreases s.len() - i,
{
    if i < 0 || i >= s.len() {
        s.len() as int
    } else if s[i] == '\n' {
        i
    } else {
        newline_from(s, i + 1)
    }
}

/// The first `\n` at or after `i` lies between `i` and the end.
pub proof fn lemma_newline_from_bounds(s: Seq<char>, i: int)
    requires
        0 <= i <= s.len(),
    ensures
        i <= newline_from(s, i) <= s.len(),
        newline_from(s, i) < s.len() ==> s[newline_from(s, i)] == '\n',
    decreases s.len() - i,
{
    if i < s.len() && s[i] != '\n' {
        lemma_newline_from_bounds(s, i + 1);
    }
}

/// A line without the `\r` of a `\r\n` ending.
pub open spec fn without_cr(line: Seq<char>) -> Seq<char> {
    if line.len() > 0 && line.last() == '\r' { line.drop_last() } else { line }
}

/// The lines of a text from position `i` on, as `str::lines` gives them: split at
/// each `\n`, a `\r` right before it dropped too; a last line without `\n` is kept
/// whole, and a text that ends with `\n` has no empty line after it.
pub open spec fn lines_from(s: Seq<char>, i: int) -> Seq<Seq<char>>
    decreases s.len() - i,
{
    if i < 0 || i >= s.len() {
        Seq::empty()
    } else {
        let e = newline_from(s, i);
        proof {
            lemma_newline_from_bounds(s, i);
        }
        if e >= s.len() {
            seq![s.subrange(i, s.len() as int)]
        } else {
            seq![without_cr(s.subrange(i, e))] + lines_from(s, e + 1)
        }
    }
}

/// The first line of what a tool printed (for its version), as `str::lines` gives it.
pub fn first_line(text: &str) -> (r: Option<String>)
    ensures
        lines_from(text@, 0).len() == 0 ==> r is None,
        lines_from(text@, 0).len() > 0 ==> (r matches Some(x) && x@ == lines_from(text@, 0)[0]),
{
    let v = chars_of(text);
    let n = v.len();
    if n == 0 {
        return None;
    }
    let mut end: usize = 0;
    while end < n && v[end] != '\n'
        invariant
            end <= n,
            n == v@.len(),
            newline_from(v@, end as int) == newline_from(v@, 0),
        decreases n - end,
    {
        end = end + 1;
    }
    proof {
        lemma_newline_from_bounds(v@, 0);
    }
    let line_end = if end < n && end > 0 && v[end - 1] == '\r' { end - 1 } else { end };
    let line = string_of(&v, 0, line_end);
    assert(lines_from(v@, 0)[0] =~= line@) by {
        if end < n {
            let raw = v@.subrange(0, end as int);
            if raw.len() > 0 && raw.last() == '\r' {
                assert(raw.drop_last() =~= line@);
            } else {
                assert(raw =~= line@);
            }
        } else {
            assert(v@.subrange(0, n as int) =~= line@);
        }
    }
    Some(line)
}

/// What follows `# public key: ` on the first line that starts with it.
pub open spec fn public_key_in(lines: Seq<Seq<char>>) -> Option<Seq<char>>
    decreases lines.len(),
{
    if lines.len() == 0 {
        None
    } else if is_prefix("# public key: "@, lines[0]) {
        Some(lines[0].subrange(14, lines[0].len() as int))
    } else {
        public_key_in(lines.drop_first())
    }
}

/// The public key of an age identity file, from its text: what follows
/// `# public key: ` on the first line that starts with it.
pub fn age_public_key(contents: &str) -> (r: Option<String>)
    ensures
        match public_key_in(lines_from(contents@, 0)) {
            Some(k) => r matches Some(x) && x@ == k,
            None => r is None,
        },
{
    let v = chars_of(contents);
    let prefix = chars_of("# public key: ");
    proof {
        reveal_strlit("# public key: ");
    }
    let n = v.len();
    let mut start: usize = 0;
    while start < n
        invariant
            start <= n,
            n == v@.len(),
            prefix@ == "# public key: "@,
            prefix@.len() == 14,
            v@ == contents@,
            public_key_in(lines_from(v@, start as int)) == public_key_in(lines_from(v@, 0)),
        decreases n - start,
    {
        let mut end = start;
        while end < n && v[end] != '\n'
            invariant
                start <= end <= n,
                n == v@.len(),
                newline_from(v@, end as int) == newline_from(v@, start as int),
            decreases n - end,
        {
            end = end + 1;
        }
        proof {
            lemma_newline_from_bounds(v@, start as int);
        }
        assert(newline_from(v@, start as int) == end);
        let line_end = if end < n && end > start && v[end - 1] == '\r' { end - 1 } else { end };
        let ghost line = v@.subrange(start as int, line_end as int);
        assert(lines_from(v@, start as int)[0] =~= line) by {
            if end < n {
                let raw = v@.subrange(start as int, end as int);
                if raw.len() > 0 && raw.last() == '\r' {
                    assert(raw.drop_last() =~= line);
                } else {
                    assert(raw =~= line);
                }
            }
        }
        let is_key = line_end - start >= prefix.len() && occurs_at_exec(&v, &prefix, start);
        assert(is_key == is_prefix("# public key: "@, line)) by {
            if line_end - start >= 14 {
                assert(occurs_at(v@, prefix@, start as int) == (v@.subrange(start as int, start + 14) == prefix@));
                assert(v@.subrange(start as int, start + 14) =~= line.subrange(0, 14));
            }
        }
        if is_key {
            let k = string_of(&v, start + prefix.len(), line_end);
            assert(k@ =~= line.subrange(14, line.len() as int));
            assert(lines_from(v@, start as int).len() > 0);
            assert(public_key_in(lines_from(v@, start as int)) == Some(line.subrange(14, line.len() as int)));
            return Some(k);
        }
        assert(lines_from(v@, start as int).len() > 0);
        assert(public_key_in(lines_from(v@, start as int)) == public_key_in(lines_from(v@, start as int).drop_first()));
        if end >= n {
            assert(lines_from(v@, start as int).drop_first() =~= Seq::<Seq<char>>::empty());
            assert(public_key_in(Seq::<Seq<char>>::empty()) is None);
            return None;
        }
        assert(lines_from(v@, start as int).drop_first() =~= lines_from(v@, end + 1));
        start = end + 1;
    }
    None
}

/// The result of looking for the age identity at `path`.
pub fn check_age_key(path: &str, exists: bool) -> (r: CheckResult)
    ensures
        exists ==> result_view(r) == ("age key ("@ + path@ + ")"@, CheckStatus::Pass, None::<Seq<char>>),
        !exists ==> result_view(r) == ("age key"@, CheckStatus::Fail,
            Some("not found at "@ + path@ + " \u{2014} run: age-keygen -o "@ + path@)),
{
    if exists {
        CheckResult { label: cat3("age key (", path, ")"), status: CheckStatus::Pass, detail: None }
    } else {
        CheckResult {
            label: owned("age key"),
            status: CheckStatus::Fail,
            detail: Some(cat4("not found at ", path, " \u{2014} run: age-keygen -o ", path)),
        }
    }
}

/// The result of reading the configuration file: `loaded` is the read error, or the
/// parse error, or success.
pub fn check_config(config_path: &str, loaded: &Result<Result<(), String>, String>) -> (r: CheckResult)
    ensures
        r.label@ == "config ("@ + config_path@ + ")"@,
        match loaded {
            Err(e) => r.status == CheckStatus::Fail && result_view(r).2 == Some(e@ + " \u{2014} run `vivo config init`"@),
            Ok(Err(e)) => r.status == CheckStatus::Fail && result_view(r).2 == Some(e@),
            Ok(Ok(())) => r.status == CheckStatus::Pass && result_view(r).2 is None,
        },
{
    let label = cat3("config (", config_path, ")");
    match loaded {
        Err(e) => CheckResult {
            label,
            status: CheckStatus::Fail,
            detail: Some(cat(e.as_str(), " \u{2014} run `vivo config init`")),
        },
        Ok(Err(e)) => CheckResult { label, status: CheckStatus::Fail, detail: Some(e.clone()) },
        Ok(Ok(())) => CheckResult { label, status: CheckStatus::Pass, detail: None },
    }
}

/// The result of decrypting and reading the secrets: `loaded` is the decryption
/// error, or the parse error, or the secrets.
pub fn check_secrets_present(secrets_path: &str, loaded: &Result<Result<Secrets, String>, String>) -> (r: CheckResult)
    ensures
        r.label@ == "secrets ("@ + secrets_path@ + ")"@,
        match loaded {
            Err(e) => r.status == CheckStatus::Fail && result_view(r).2 == Some(e@ + " \u{2014} run `vivo secrets init`"@),
            Ok(Err(e)) => r.status == CheckStatus::Fail && result_view(r).2 == Some("parse error: "@ + e@),
            Ok(Ok(_)) => r.status == CheckStatus::Pass && result_view(r).2 is None,
        },
{
    let label = cat3("secrets (", secrets_path, ")");
    match loaded {
        Err(e) => CheckResult {
            label,
            status: CheckStatus::Fail,
            detail: Some(cat(e.as_str(), " \u{2014} run `vivo secrets init`")),
        },
        Ok(Err(e)) => CheckResult { label, status: CheckStatus::Fail, detail: Some(cat("parse error: ", e.as_str())) },
        Ok(Ok(_)) => CheckResult { label, status: CheckStatus::Pass, detail: None },
    }
}

/// The secrets, where they were decrypted and read.
pub fn check_secrets(loaded: Result<Result<Secrets, String>, String>) -> (r: Option<Secrets>)
    ensures
        match loaded {
            Ok(Ok(s)) => r == Some(s),
            _ => r is None,
        },
{
    match loaded {
        Ok(Ok(s)) => Some(s),
        _ => None,
    }
}

/// The restic password is unset: empty, or the placeholder of a new secrets file.
pub open spec fn password_unset(p: Seq<char>) -> bool {
    p.len() == 0 || p == "change-me"@
}

/// The result of checking that a restic password is set.
pub fn check_restic_password(secrets: &Secrets) -> (r: CheckResult)
    ensures
        r.label@ == "restic_password"@,
        password_unset(secrets.restic_password@) ==> r.status == CheckStatus::Fail
            && result_view(r).2 == Some("not set \u{2014} run `vivo secrets edit`"@),
        !password_unset(secrets.restic_password@) ==> r.status == CheckStatus::Pass && result_view(r).2 is None,
{
    if secrets.restic_password.unicode_len() == 0 || str_eq(secrets.restic_password.as_str(), "change-me") {
        CheckResult {
            label: owned("restic_password"),
            status: CheckStatus::Fail,
            detail: Some(owned("not set \u{2014} run `vivo secrets edit`")),
        }
    } else {
        CheckResult { label: owned("restic_password"), status: CheckStatus::Pass, detail: None }
    }
}

/// The bucket of a `b2:` URL: the text after `b2:` up to the next `:`.
pub open spec fn b2_bucket(url: Seq<char>) -> Seq<char> {
    let rest = url.subrange(3, url.len() as int);
    match split_once(rest, seq![':']) {
        Some((a, _)) => a,
        None => rest,
    }
}

/// The command that probes a remote: `b2 ls <bucket>` for `b2:`, `restic snapshots`
/// for `s3:` (given the restic password); none for other URLs.
pub fn connectivity_command(url: &str, restic_password: &str) -> (r: Option<CommandSpec>)
    ensures
        is_prefix("b2:"@, url@) ==> (r matches Some(c) && command_view(c) == ("b2"@, seq!["ls"@, b2_bucket(url@)],
            Seq::<(Seq<char>, Seq<char>)>::empty(), true)),
        !is_prefix("b2:"@, url@) && is_prefix("s3:"@, url@) ==> (r matches Some(c) && command_view(c) == ("restic"@,
            seq!["snapshots"@, "--repo"@, url@, "--no-lock"@], seq![("RESTIC_PASSWORD"@, restic_password@)], true)),
        !is_prefix("b2:"@, url@) && !is_prefix("s3:"@, url@) ==> r is None,
{
    proof {
        reveal_strlit("b2:");
        assert(seq![':'] =~= ":"@) by { reveal_strlit(":"); }
    }
    if starts_with(url, "b2:") {
        let v = chars_of(url);
        let rest = crate::text::sub_chars(&v, 3, v.len());
        let colon = chars_of(":");
        let bucket = match find_seq(&rest, &colon) {
            Some(i) => string_of(&rest, 0, i),
            None => string_of(&rest, 0, rest.len()),
        };
        proof {
            assert(rest@.subrange(0, rest@.len() as int) =~= rest@);
        }
        let mut args: Vec<String> = Vec::new();
        args.push(owned("ls"));
        args.push(bucket);
        assert(views(args@) =~= seq!["ls"@, b2_bucket(url@)]);
        let env: Vec<(String, String)> = Vec::new();
        assert(pair_views(env@) =~= Seq::<(Seq<char>, Seq<char>)>::empty());
        Some(CommandSpec { program: owned("b2"), args, env, with_credentials: true })
    } else if starts_with(url, "s3:") {
        let mut args: Vec<String> = Vec::new();
        args.push(owned("snapshots"));
        args.push(owned("--repo"));
        args.push(owned(url));
        args.push(owned("--no-lock"));
        assert(views(args@) =~= seq!["snapshots"@, "--repo"@, url@, "--no-lock"@]);
        let mut env: Vec<(String, String)> = Vec::new();
        env.push((owned("RESTIC_PASSWORD"), owned(restic_password)));
        assert(pair_views(env@) =~= seq![("RESTIC_PASSWORD"@, restic_password@)]);
        Some(CommandSpec { program: owned("restic"), args, env, with_credentials: true })
    } else {
        None
    }
}

/// The message for a probe that timed out or failed.
pub open spec fn probe_failed_message(url: Seq<char>) -> Seq<char> {
    if is_prefix("b2:"@, url) {
        "connection timed out or failed \u{2014} check B2 credentials"@
    } else {
        "connection timed out or failed \u{2014} check S3 credentials and repo init"@
    }
}

/// The result of probing a remote: `has_credentials` whether its profile is in the
/// secrets; `outcome` whether the probe succeeded in time, or why it could not run,
/// `None` where the URL has no probe.
pub fn check_remote_connectivity(url: &str, creds_name: &str, has_credentials: bool,
    outcome: &Option<Result<bool, String>>) -> (r: CheckResult)
    ensures
        r.label@ == "remote "@ + url@,
        !has_credentials ==> r.status == CheckStatus::Warn && result_view(r).2 == Some("credentials profile '"@ + creds_name@ + "' not in secrets"@),
        has_credentials ==> match outcome {
            None => r.status == CheckStatus::Warn && result_view(r).2 == Some("unsupported remote prefix \u{2014} skipping connectivity check"@),
            Some(Ok(true)) => r.status == CheckStatus::Pass && result_view(r).2 is None,
            Some(Ok(false)) => r.status == CheckStatus::Warn && result_view(r).2 == Some(probe_failed_message(url@)),
            Some(Err(e)) => r.status == CheckStatus::Warn && result_view(r).2 == Some(e@),
        },
{
    let label = cat("remote ", url);
    if !has_credentials {
        return CheckResult {
            label,
            status: CheckStatus::Warn,
            detail: Some(cat3("credentials profile '", creds_name, "' not in secrets")),
        };
    }
    match outcome {
        None => CheckResult {
            label,
            status: CheckStatus::Warn,
            detail: Some(owned("unsupported remote prefix \u{2014} skipping connectivity check")),
        },
        Some(Ok(true)) => CheckResult { label, status: CheckStatus::Pass, detail: None },
        Some(Ok(false)) => {
            let d = if starts_with(url, "b2:") {
                owned("connection timed out or failed \u{2014} check B2 credentials")
            } else {
                owned("connection timed out or failed \u{2014} check S3 credentials and repo init")
            };
            CheckResult { label, status: CheckStatus::Warn, detail: Some(d) }
        },
        Some(Err(e)) => CheckResult { label, status: CheckStatus::Warn, detail: Some(e.clone()) },
    }
}

/// The tag a result is printed with.
pub open spec fn status_tag(s: CheckStatus) -> Seq<char> {
    match s {
        CheckStatus::Pass => "  [ok]  "@,
        CheckStatus::Warn => "  [warn]"@,
        CheckStatus::Fail => "  [fail]"@,
    }
}

/// The line a result is printed as.
pub open spec fn result_text(r: CheckResult) -> Seq<char> {
    match r.detail {
        Some(d) => status_tag(r.status) + " "@ + r.label@ + " \u{2014} "@ + d@,
        None => status_tag(r.status) + " "@ + r.label@,
    }
}

/// The line a result is printed as.
pub fn result_line(r: &CheckResult) -> (s: String)
    ensures
        s@ == result_text(*r),
{
    let tag = match r.status {
        CheckStatus::Pass => "  [ok]  ",
        CheckStatus::Warn => "  [warn]",
        CheckStatus::Fail => "  [fail]",
    };
    match &r.detail {
        Some(d) => {
            let mut s = cat4(tag, " ", r.label.as_str(), " \u{2014} ");
            s.append(d.as_str());
            s
        },
        None => cat3(tag, " ", r.label.as_str()),
    }
}

/// The lines of results.
pub open spec fn result_texts(rs: Seq<CheckResult>) -> Seq<Seq<char>> {
    rs.map_values(|c: CheckResult| result_text(c))
}

/// How many results have the status `s`.
pub open spec fn count_status(rs: Seq<CheckResult>, s: CheckStatus) -> nat
    decreases rs.len(),
{
    if rs.len() == 0 {
        0
    } else {
        count_status(rs.drop_last(), s) + if rs.last().status == s { 1nat } else { 0nat }
    }
}

fn count_of(rs: &Vec<CheckResult>, s: CheckStatus) -> (n: u64)
    requires
        rs@.len() <= u64::MAX,
    ensures
        n == count_status(rs@, s),
{
    let mut n: u64 = 0;
    let mut i: usize = 0;
    while i < rs.len()
        invariant
            i <= rs@.len(),
            rs@.len() <= u64::MAX,
            n == count_status(rs@.take(i as int), s),
            n <= i,
        decreases rs.len() - i,
    {
        assert(rs@.take(i + 1).drop_last() =~= rs@.take(i as int));
        if rs[i].status == s {
            n = n + 1;
        }
        i = i + 1;
    }
    assert(rs@.take(rs@.len() as int) =~= rs@);
    n
}

/// The closing line of a run of checks, by the number of failed required checks and
/// of warnings.
pub open spec fn summary_text(f: nat, w: nat) -> Seq<char> {
    if f == 0 && w == 0 {
        "All checks passed."@
    } else if f == 0 {
        decimal(w) + " warning(s). Run `vivo doctor` again after resolving."@
    } else if w == 0 {
        decimal(f) + " required check(s) failed. Fix the issues above and re-run `vivo doctor`."@
    } else {
        decimal(f) + " required check(s) failed, "@ + decimal(w) + " warning(s). Fix required checks first."@
    }
}

/// What a run of checks prints and exits with: the lines of the required checks,
/// then of the remote probes, then the summary; exit code 1 where a required check
/// failed. Remote probes only warn.
pub fn doctor_report(required: &Vec<CheckResult>, remotes: &Vec<CheckResult>) -> (r: (Vec<String>, String, i32))
    requires
        required@.len() <= u64::MAX,
        remotes@.len() <= u64::MAX,
    ensures
        views(r.0@) == result_texts(required@) + result_texts(remotes@),
        r.1@ == summary_text(count_status(required@, CheckStatus::Fail), count_status(remotes@, CheckStatus::Warn)),
        r.2 == (if count_status(required@, CheckStatus::Fail) > 0 { 1i32 } else { 0i32 }),
{
    let f = count_of(required, CheckStatus::Fail);
    let w = count_of(remotes, CheckStatus::Warn);
    let mut lines: Vec<String> = Vec::new();
    let mut i: usize = 0;
    while i < required.len()
        invariant
            i <= required@.len(),
            lines@.len() == i,
            views(lines@) == result_texts(required@.take(i as int)),
        decreases required.len() - i,
    {
        let line = result_line(&required[i]);
        assert(line@ == result_text(required@[i as int]));
        let ghost before = views(lines@);
        lines.push(line);
        assert(views(lines@) =~= before.push(line@));
        assert(result_texts(required@.take(i + 1)) =~= result_texts(required@.take(i as int)).push(line@));
        i = i + 1;
    }
    assert(required@.take(required@.len() as int) =~= required@);
    let ghost head = views(lines@);
    assert(head.len() == lines@.len());
    let mut j: usize = 0;
    while j < remotes.len()
        invariant
            j <= remotes@.len(),
            lines@.len() == head.len() + j,
            views(lines@) == head + result_texts(remotes@.take(j as int)),
        decreases remotes.len() - j,
    {
        let line = result_line(&remotes[j]);
        assert(line@ == result_text(remotes@[j as int]));
        let ghost before = views(lines@);
        lines.push(line);
        assert(views(lines@) =~= before.push(line@));
        assert(result_texts(remotes@.take(j + 1)) =~= result_texts(remotes@.take(j as int)).push(line@));
        assert(views(lines@) =~= head + result_texts(remotes@.take(j + 1)));
        j = j + 1;
    }
    assert(remotes@.take(remotes@.len() as int) =~= remotes@);
    let summary = if f == 0 && w == 0 {
        owned("All checks passed.")
    } else if f == 0 {
        cat(decimal_u64(w).as_str(), " warning(s). Run `vivo doctor` again after resolving.")
    } else if w == 0 {
        cat(decimal_u64(f).as_str(), " required check(s) failed. Fix the issues above and re-run `vivo doctor`.")
    } else {
        cat4(decimal_u64(f).as_str(), " required check(s) failed, ", decimal_u64(w).as_str(),
            " warning(s). Fix required checks first.")
    };
    let code: i32 = if f > 0 { 1 } else { 0 };
    (lines, summary, code)
}


/// Whether any of the results failed.
pub fn any_failed(results: &Vec<CheckResult>) -> (r: bool)
    ensures
        r == (exists|i: int| 0 <= i < results@.len() && results@[i].status == CheckStatus::Fail),
{
    let mut i: usize = 0;
    while i < results.len()
        invariant
            i <= results@.len(),
            forall|j: int| 0 <= j < i ==> results@[j].status != CheckStatus::Fail,
        decreases results.len() - i,
    {
        if results[i].status == CheckStatus::Fail {
            return true;
        }
        i = i + 1;
    }
    false
}

} // verus!
