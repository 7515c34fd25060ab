//! Remote destinations of a backup: parsing their URLs, and the commands that sync to them.
use vstd::prelude::*;
use crate::text::{sub_chars, cat3, chars_of, contains, contains_seq, find_seq, first_occurrence, is_prefix,
    occurs_at, owned, starts_with, string_of, str_lowercase, to_lowercase, views};

verus! {

/// Something that a backup can be synced to.
pub trait RemoteBackend {
    /// The kind of the remote.
    fn name(&self) -> &str;
}

/// A Backblaze B2 bucket and a path within it (`b2:<bucket>:<path>`).
pub struct B2Backend {
    pub bucket: String,
    pub path: String,
}

/// An S3 repository that restic copies to (`s3:<endpoint>/<bucket>`).
pub struct S3Backend {
    pub url: String,
}

/// An S3-compatible server that a repository is mirrored to file by file
/// (`rustfs:<scheme>://<host>/<bucket>[/<subpath>]`).
pub struct RustfsBackend {
    pub endpoint: String,
    pub bucket: String,
    pub subpath: String,
}

/// The text after the first `sep` in `s`, and the text before it; `None` where `sep` does not occur.
pub open spec fn split_once(s: Seq<char>, sep: Seq<char>) -> Option<(Seq<char>, Seq<char>)> {
    match first_occurrence(s, sep) {
        Some(i) => Some((s.subrange(0, i), s.subrange(i + sep.len(), s.len() as int))),
        None => None,
    }
}

/// The bucket and path of a `b2:` URL.
pub open spec fn b2_parts(url: Seq<char>) -> Option<(Seq<char>, Seq<char>)> {
    if is_prefix("b2:"@, url) {
        let rest = url.subrange("b2:"@.len() as int, url.len() as int);
        match split_once(rest, seq![':']) {
            Some(p) => Some(p),
            None => Some((rest, Seq::empty())),
        }
    } else {
        None
    }
}

impl RemoteBackend for B2Backend {
    fn name(&self) -> (r: &str)
        ensures
            r@ == "b2"@,
    {
        "b2"
    }
}

impl RemoteBackend for S3Backend {
    fn name(&self) -> (r: &str)
        ensures
            r@ == "s3"@,
    {
        "s3"
    }
}

impl RemoteBackend for RustfsBackend {
    fn name(&self) -> (r: &str)
        ensures
            r@ == "rustfs"@,
    {
        "rustfs"
    }
}

/// Splits `v[lo..]` at the first `sep`.
fn split_at_first(v: &Vec<char>, sep: &str) -> (r: Option<(String, String)>)
    ensures
        match split_once(v@, sep@) {
            Some((a, b)) => r matches Some((x, y)) && x@ == a && y@ == b,
            None => r is None,
        },
{
    let sv = chars_of(sep);
    match find_seq(v, &sv) {
        Some(i) => {
            assert(occurs_at(v@, sv@, i as int));
            assert(i + sv.len() <= v.len());
            let a = string_of(v, 0, i);
            let b = string_of(v, i + sv.len(), v.len());
            Some((a, b))
        },
        None => None,
    }
}

impl B2Backend {
    /// Parses `b2:<bucket>[:<path>]`.
    pub fn from_url(url: &str) -> (r: Result<B2Backend, String>)
        ensures
            match b2_parts(url@) {
                Some((bucket, path)) => r matches Ok(b) && b.bucket@ == bucket && b.path@ == path,
                None => r matches Err(m) && m@ == "not a b2 URL: '"@ + url@ + "'"@,
            },
    {
        if !starts_with(url, "b2:") {
            return Err(cat3("not a b2 URL: '", url, "'"));
        }
        let v = chars_of(url);
        let p = chars_of("b2:");
        let rest = string_of(&v, p.len(), v.len());
        let rv = chars_of(rest.as_str());
        proof {
            assert(seq![':'] =~= ":"@) by { reveal_strlit(":"); }
        }
        match split_at_first(&rv, ":") {
            Some((bucket, path)) => Ok(B2Backend { bucket, path }),
            None => Ok(B2Backend { bucket: rest, path: String::new() }),
        }
    }
}

impl S3Backend {
    /// Accepts any `s3:` URL, kept whole.
    pub fn from_url(url: &str) -> (r: Result<S3Backend, String>)
        ensures
            is_prefix("s3:"@, url@) ==> (r matches Ok(b) && b.url@ == url@),
            !is_prefix("s3:"@, url@) ==> (r matches Err(m) && m@ == "not an s3 URL: '"@ + url@ + "'"@),
    {
        if !starts_with(url, "s3:") {
            return Err(cat3("not an s3 URL: '", url, "'"));
        }
        Ok(S3Backend { url: String::from_str(url) })
    }
}

/// The parts of a `rustfs:` URL, or the reason it is refused.
pub open spec fn rustfs_parts(url: Seq<char>) -> Result<(Seq<char>, Seq<char>, Seq<char>), Seq<char>> {
    if !is_prefix("rustfs:"@, url) {
        Err("not a rustfs URL: '"@ + url + "'"@)
    } else {
        let inner = url.subrange("rustfs:"@.len() as int, url.len() as int);
        match first_occurrence(inner, "://"@) {
            None => Err("rustfs URL missing scheme (expected https:// or http://): '"@ + url + "'"@),
            Some(sep) => {
                let after = inner.subrange(sep + "://"@.len(), inner.len() as int);
                match first_occurrence(after, seq!['/']) {
                    None => Err("rustfs URL missing bucket (no path after host): '"@ + url + "'"@),
                    Some(slash) => {
                        let endpoint = inner.subrange(0, sep + "://"@.len() + slash);
                        let path = after.subrange(slash + 1, after.len() as int);
                        if path.len() == 0 {
                            Err("rustfs URL missing bucket (empty path): '"@ + url + "'"@)
                        } else {
                            let (bucket, subpath) = match split_once(path, seq!['/']) {
                                Some(p) => p,
                                None => (path, Seq::empty()),
                            };
                            if bucket.len() == 0 {
                                Err("rustfs URL missing bucket (empty bucket): '"@ + url + "'"@)
                            } else {
                                Ok((endpoint, bucket, subpath))
                            }
                        }
                    },
                }
            },
        }
    }
}

fn find_str(v: &Vec<char>, pat: &str) -> (r: Option<usize>)
    ensures
        opt_pos(r) == first_occurrence(v@, pat@),
        r matches Some(i) ==> i + pat@.len() <= v@.len(),
{
    let pv = chars_of(pat);
    find_seq(v, &pv)
}

/// The view of an optional position.
pub open spec fn opt_pos(r: Option<usize>) -> Option<int> {
    match r {
        Some(i) => Some(i as int),
        None => None,
    }
}

impl RustfsBackend {
    /// Parses `rustfs:<scheme>://<host>/<bucket>[/<subpath>]`: the endpoint is the scheme
    /// and host, the bucket must not be empty.
    #[verifier::rlimit(100)]
    pub fn from_url(url: &str) -> (r: Result<RustfsBackend, String>)
        ensures
            match rustfs_parts(url@) {
                Ok((e, b, s)) => r matches Ok(x) && x.endpoint@ == e && x.bucket@ == b && x.subpath@ == s,
                Err(m) => r matches Err(y) && y@ == m,
            },
    {
        proof {
            assert(seq!['/'] =~= "/"@) by { reveal_strlit("/"); }
        }
        if !starts_with(url, "rustfs:") {
            return Err(cat3("not a rustfs URL: '", url, "'"));
        }
        let v = chars_of(url);
        let plen = chars_of("rustfs:").len();
        let inner = sub_chars(&v, plen, v.len());
        let sep = match find_str(&inner, "://") {
            Some(i) => i,
            None => return Err(cat3("rustfs URL missing scheme (expected https:// or http://): '", url, "'")),
        };
        let slen = chars_of("://").len();
        let after = sub_chars(&inner, sep + slen, inner.len());
        let slash = match find_str(&after, "/") {
            Some(i) => i,
            None => return Err(cat3("rustfs URL missing bucket (no path after host): '", url, "'")),
        };
        let endpoint = string_of(&inner, 0, sep + slen + slash);
        let path = sub_chars(&after, slash + 1, after.len());
        if path.len() == 0 {
            return Err(cat3("rustfs URL missing bucket (empty path): '", url, "'"));
        }
        let (bucket, subpath) = match find_str(&path, "/") {
            Some(p) => (string_of(&path, 0, p), string_of(&path, p + 1, path.len())),
            None => (string_of(&path, 0, path.len()), String::new()),
        };
        if bucket.unicode_len() == 0 {
            return Err(cat3("rustfs URL missing bucket (empty bucket): '", url, "'"));
        }
        proof {
            assert(path@.subrange(0, path@.len() as int) =~= path@);
        }
        Ok(RustfsBackend { endpoint, bucket, subpath })
    }
}

/// A remote of any supported kind.
pub enum AnyBackend {
    B2(B2Backend),
    S3(S3Backend),
    Rustfs(RustfsBackend),
}

impl RemoteBackend for AnyBackend {
    fn name(&self) -> (r: &str)
        ensures
            r@ == match self {
                AnyBackend::B2(_) => "b2"@,
                AnyBackend::S3(_) => "s3"@,
                AnyBackend::Rustfs(_) => "rustfs"@,
            },
    {
        match self {
            AnyBackend::B2(b) => b.name(),
            AnyBackend::S3(b) => b.name(),
            AnyBackend::Rustfs(b) => b.name(),
        }
    }
}

/// The message for a URL that no `from_url` accepts.
pub open spec fn unsupported_url_message(url: Seq<char>) -> Seq<char> {
    "unsupported remote URL '"@ + url + "'. supported prefixes: b2:, s3:"@
}

/// Picks the remote kind by the URL's prefix: `b2:` or `s3:`.
pub fn from_url(url: &str) -> (r: Result<AnyBackend, String>)
    ensures
        is_prefix("b2:"@, url@) ==> (r matches Ok(AnyBackend::B2(b))
            && b2_parts(url@) == Some((b.bucket@, b.path@))),
        !is_prefix("b2:"@, url@) && is_prefix("s3:"@, url@) ==> (r matches Ok(AnyBackend::S3(b))
            && b.url@ == url@),
        !is_prefix("b2:"@, url@) && !is_prefix("s3:"@, url@) ==> (r matches Err(m)
            && m@ == unsupported_url_message(url@)),
{
    if starts_with(url, "b2:") {
        match B2Backend::from_url(url) {
            Ok(b) => Ok(AnyBackend::B2(b)),
            Err(e) => Err(e),
        }
    } else if starts_with(url, "s3:") {
        match S3Backend::from_url(url) {
            Ok(b) => Ok(AnyBackend::S3(b)),
            Err(e) => Err(e),
        }
    } else {
        Err(cat3("unsupported remote URL '", url, "'. supported prefixes: b2:, s3:"))
    }
}

/// Picks the remote kind of a configured remote: a `rustfs:` URL is mirrored with
/// an S3 client, every other URL goes through `from_url`.
pub fn from_remote(url: &str) -> (r: Result<AnyBackend, String>)
    ensures
        is_prefix("rustfs:"@, url@) ==> match rustfs_parts(url@) {
            Ok((e, b, s)) => r matches Ok(AnyBackend::Rustfs(x)) && x.endpoint@ == e && x.bucket@ == b
                && x.subpath@ == s,
            Err(m) => r matches Err(y) && y@ == m,
        },
        !is_prefix("rustfs:"@, url@) ==> (is_prefix("b2:"@, url@) ==> (r matches Ok(AnyBackend::B2(b))
            && b2_parts(url@) == Some((b.bucket@, b.path@)))),
        !is_prefix("rustfs:"@, url@) ==> (!is_prefix("b2:"@, url@) && is_prefix("s3:"@, url@) ==> (
            r matches Ok(AnyBackend::S3(b)) && b.url@ == url@)),
        !is_prefix("rustfs:"@, url@) ==> (!is_prefix("b2:"@, url@) && !is_prefix("s3:"@, url@) ==> (
            r matches Err(m) && m@ == unsupported_url_message(url@))),
{
    if starts_with(url, "rustfs:") {
        match RustfsBackend::from_url(url) {
            Ok(b) => Ok(AnyBackend::Rustfs(b)),
            Err(e) => Err(e),
        }
    } else {
        from_url(url)
    }
}

/// The entries that a complete restic repository holds.
pub open spec fn repo_entry_names() -> Seq<Seq<char>> {
    seq!["config"@, "data"@, "index"@, "keys"@, "snapshots"@]
}

/// The names among `names` whose entry is not present, in order.
pub open spec fn missing_entries(names: Seq<Seq<char>>, present: Seq<bool>) -> Seq<Seq<char>>
    decreases names.len(),
{
    if names.len() == 0 {
        Seq::empty()
    } else {
        let rest = missing_entries(names.drop_last(), present.drop_last());
        if present.last() {
            rest
        } else {
            rest.push(names.last())
        }
    }
}

/// The names joined with `", "` between them.
pub open spec fn join_comma(s: Seq<Seq<char>>) -> Seq<char>
    decreases s.len(),
{
    if s.len() == 0 {
        Seq::empty()
    } else if s.len() == 1 {
        s[0]
    } else {
        join_comma(s.drop_last()) + ", "@ + s.last()
    }
}

/// The message that stops a sync from an incomplete repository.
pub open spec fn incomplete_repo_message(repo: Seq<char>, missing: Seq<Seq<char>>) -> Seq<char> {
    "source repo '"@ + repo + "' is missing: "@ + join_comma(missing)
        + " \u{2014} aborting sync to prevent remote corruption"@
}

/// The entries of a restic repository that must exist before a sync that deletes
/// on the remote side, in the order `verify_restic_repo` reads their presence.
pub fn restic_repo_entries() -> (r: Vec<String>)
    ensures
        views(r@) == repo_entry_names(),
{
    let mut r: Vec<String> = Vec::new();
    r.push(owned("config"));
    r.push(owned("data"));
    r.push(owned("index"));
    r.push(owned("keys"));
    r.push(owned("snapshots"));
    assert(views(r@) =~= repo_entry_names());
    r
}

/// Refuses a sync whose source repository lacks one of the entries of
/// `restic_repo_entries`: `present[i]` says whether entry `i` exists under `local_repo`.
pub fn verify_restic_repo(local_repo: &str, present: &[bool; 5]) -> (r: Result<(), String>)
    ensures
        missing_entries(repo_entry_names(), present@).len() == 0 ==> r is Ok,
        missing_entries(repo_entry_names(), present@).len() > 0 ==> (r matches Err(m)
            && m@ == incomplete_repo_message(local_repo@, missing_entries(repo_entry_names(), present@))),
        r is Ok <==> (forall|i: int| 0 <= i < 5 ==> present@[i]),
{
    let names = restic_repo_entries();
    let ghost all = repo_entry_names();
    assert(names@.len() == views(names@).len());
    let mut missing = String::new();
    let mut count: usize = 0;
    let mut i: usize = 0;
    while i < 5
        invariant
            i <= 5,
            count <= i,
            names@.len() == 5,
            views(names@) == all,
            all == repo_entry_names(),
            count == missing_entries(all.take(i as int), present@.take(i as int)).len(),
            missing@ == join_comma(missing_entries(all.take(i as int), present@.take(i as int))),
            (count == 0) <==> (forall|j: int| 0 <= j < i ==> present@[j]),
        decreases 5 - i,
    {
        let ghost before = missing_entries(all.take(i as int), present@.take(i as int));
        assert(all.take(i + 1).drop_last() =~= all.take(i as int));
        assert(present@.take(i + 1).drop_last() =~= present@.take(i as int));
        if !present[i] {
            assert(views(names@)[i as int] == names@[i as int]@);
            if count > 0 {
                missing.append(", ");
            }
            missing.append(names[i].as_str());
            count = count + 1;
            proof {
                let after = missing_entries(all.take(i + 1), present@.take(i + 1));
                assert(after == before.push(all[i as int]));
                if before.len() > 0 {
                    assert(after.drop_last() =~= before);
                } else {
                    assert(missing@ =~= join_comma(after));
                }
            }
        }
        i = i + 1;
    }
    assert(all.take(5) =~= all);
    assert(present@.take(5) =~= present@);
    if count == 0 {
        Ok(())
    } else {
        let mut m = cat3("source repo '", local_repo, "' is missing: ");
        m.append(missing.as_str());
        m.append(" \u{2014} aborting sync to prevent remote corruption");
        Err(m)
    }
}

/// The (lowercase) message reports refused credentials.
pub open spec fn is_auth_text(lower: Seq<char>) -> bool {
    contains_seq(lower, "unauthorized"@) || contains_seq(lower, "invalid credentials"@)
        || contains_seq(lower, "401"@)
}

/// Whether an error message, already in lowercase, reports refused credentials.
pub fn is_auth_error_lower(lower: &str) -> (r: bool)
    ensures
        r == is_auth_text(lower@),
{
    contains(lower, "unauthorized") || contains(lower, "invalid credentials") || contains(lower, "401")
}

/// Whether an error message of `b2` reports refused credentials, in any case.
pub fn is_auth_error(msg: &str) -> (r: bool)
    ensures
        r == is_auth_text(str_lowercase(msg@)),
{
    let lower = to_lowercase(msg);
    is_auth_error_lower(lower.as_str())
}

/// The error text of an S3 client says that the bucket exists already.
pub open spec fn bucket_exists_text(stderr: Seq<char>) -> bool {
    contains_seq(stderr, "BucketAlreadyOwnedByYou"@) || contains_seq(stderr, "BucketAlreadyExists"@)
}

/// Whether making a bucket failed only because the bucket exists already.
pub fn is_bucket_already_exists_error(stderr: &str) -> (r: bool)
    ensures
        r == bucket_exists_text(stderr@),
{
    contains(stderr, "BucketAlreadyOwnedByYou") || contains(stderr, "BucketAlreadyExists")
}

/// The encoding of one character of a credential.
pub open spec fn credential_char(c: char) -> Seq<char> {
    if c == '+' {
        seq!['%', '2', 'B']
    } else if c == '/' {
        seq!['%', '2', 'F']
    } else if c == '=' {
        seq!['%', '3', 'D']
    } else if c == ':' {
        seq!['%', '3', 'A']
    } else if c == '@' {
        seq!['%', '4', '0']
    } else if c == '#' {
        seq!['%', '2', '3']
    } else if c == '?' {
        seq!['%', '3', 'F']
    } else if c == '&' {
        seq!['%', '2', '6']
    } else if c == '%' {
        seq!['%', '2', '5']
    } else {
        seq![c]
    }
}

/// A credential with each character replaced by its encoding.
pub open spec fn percent_encoded(s: Seq<char>) -> Seq<char>
    decreases s.len(),
{
    if s.len() == 0 {
        Seq::empty()
    } else {
        percent_encoded(s.drop_last()) + credential_char(s.last())
    }
}

/// A character that delimits the user part of a URL.
pub open spec fn is_url_delimiter(c: char) -> bool {
    c == '+' || c == '/' || c == '=' || c == ':' || c == '@' || c == '#' || c == '?' || c == '&'
}

/// Percent-encodes the characters of a credential that a URL's user part cannot hold.
pub fn percent_encode_credential(s: &str) -> (r: String)
    ensures
        r@ == percent_encoded(s@),
{
    let v = chars_of(s);
    let mut out = String::new();
    let mut i: usize = 0;
    while i < v.len()
        invariant
            v@ == s@,
            i <= v@.len(),
            out@ == percent_encoded(s@.take(i as int)),
        decreases v.len() - i,
    {
        let c = v[i];
        assert(s@.take(i + 1).drop_last() =~= s@.take(i as int));
        if c == '+' {
            out.push('%'); out.push('2'); out.push('B');
        } else if c == '/' {
            out.push('%'); out.push('2'); out.push('F');
        } else if c == '=' {
            out.push('%'); out.push('3'); out.push('D');
        } else if c == ':' {
            out.push('%'); out.push('3'); out.push('A');
        } else if c == '@' {
            out.push('%'); out.push('4'); out.push('0');
        } else if c == '#' {
            out.push('%'); out.push('2'); out.push('3');
        } else if c == '?' {
            out.push('%'); out.push('3'); out.push('F');
        } else if c == '&' {
            out.push('%'); out.push('2'); out.push('6');
        } else if c == '%' {
            out.push('%'); out.push('2'); out.push('5');
        } else {
            out.push(c);
        }
        assert(out@ =~= percent_encoded(s@.take(i + 1)));
        i = i + 1;
    }
    assert(s@.take(v@.len() as int) =~= s@);
    out
}

/// An encoded credential holds none of the characters that delimit the user part
/// of a URL, so it can stand between `://` and `@` and be read back unambiguously.
pub proof fn encoded_credential_has_no_delimiter(s: Seq<char>)
    ensures
        forall|i: int| 0 <= i < percent_encoded(s).len() ==> !is_url_delimiter(#[trigger] percent_encoded(s)[i]),
    decreases s.len(),
{
    if s.len() > 0 {
        encoded_credential_has_no_delimiter(s.drop_last());
        let a = percent_encoded(s.drop_last());
        let b = credential_char(s.last());
        assert forall|i: int| 0 <= i < percent_encoded(s).len() implies !is_url_delimiter(
            #[trigger] percent_encoded(s)[i]) by {
            if i < a.len() {
                assert(percent_encoded(s)[i] == a[i]);
            } else {
                assert(percent_encoded(s)[i] == b[i - a.len()]);
            }
        }
    }
}

/// A client that can mirror a repository to an S3-compatible server.
#[derive(Debug, Clone, Copy, PartialEq, Eq, Structural)]
pub enum SyncTool {
    Mc,
    Aws,
    Rclone,
}

/// The advice given when `mc` is missing and another client is used.
pub open spec fn fallback_warning(tool: Seq<char>) -> Seq<char> {
    "mc not found \u{2014} using "@ + tool
        + " (install mc from https://min.io/docs/minio/linux/reference/minio-mc.html for best rustfs compatibility)"@
}

/// The message when no client is installed.
pub open spec fn no_tool_message() -> Seq<char> {
    "no sync tool found \u{2014} install mc (https://min.io/docs/minio/linux/reference/minio-mc.html), aws CLI (https://aws.amazon.com/cli/), or rclone (https://rclone.org)"@
}

fn fallback(tool: &str) -> (r: String)
    ensures
        r@ == fallback_warning(tool@),
{
    cat3("mc not found \u{2014} using ", tool,
        " (install mc from https://min.io/docs/minio/linux/reference/minio-mc.html for best rustfs compatibility)")
}

/// Picks the client to mirror with, given which of `mc`, `aws` and `rclone` run:
/// `mc` first, then `aws`, then `rclone`, with a warning when `mc` is not the one.
pub fn choose_tool(mc: bool, aws: bool, rclone: bool) -> (r: Result<(SyncTool, Option<String>), String>)
    ensures
        mc ==> r matches Ok((SyncTool::Mc, None)),
        !mc && aws ==> (r matches Ok((SyncTool::Aws, Some(w))) && w@ == fallback_warning("aws"@)),
        !mc && !aws && rclone ==> (r matches Ok((SyncTool::Rclone, Some(w))) && w@ == fallback_warning("rclone"@)),
        !mc && !aws && !rclone ==> (r matches Err(m) && m@ == no_tool_message()),
{
    if mc {
        Ok((SyncTool::Mc, None))
    } else if aws {
        Ok((SyncTool::Aws, Some(fallback("aws"))))
    } else if rclone {
        Ok((SyncTool::Rclone, Some(fallback("rclone"))))
    } else {
        Err(owned("no sync tool found \u{2014} install mc (https://min.io/docs/minio/linux/reference/minio-mc.html), aws CLI (https://aws.amazon.com/cli/), or rclone (https://rclone.org)"))
    }
}

} // verus!
