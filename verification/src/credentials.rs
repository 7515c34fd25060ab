//! Credential profiles: the kind of credentials a remote URL needs, the profile
//! name suggested for it, and the profile names of the secrets, sorted.
use vstd::prelude::*;
use crate::config::{Secrets, profile_names, profiles_distinct};
use crate::text::{chars_of, contains_seq, first_occurrence, find_seq, is_prefix, occurs_at, starts_with,
    string_of, sub_chars, contains, pair_views, views};

verus! {

/// The kind of credentials a remote needs.
#[derive(Debug, Clone, Copy, PartialEq, Eq, Structural)]
pub enum CredentialType {
    B2,
    S3,
    Generic,
}

/// The kind of credentials for a URL: B2 for `b2:`, S3 for `s3:` and `rustfs:`.
pub open spec fn url_type(url: Seq<char>) -> CredentialType {
    if is_prefix("b2:"@, url) {
        CredentialType::B2
    } else if is_prefix("s3:"@, url) || is_prefix("rustfs:"@, url) {
        CredentialType::S3
    } else {
        CredentialType::Generic
    }
}

/// Which kind of credentials a remote URL needs.
pub fn detect_url_type(url: &str) -> (r: CredentialType)
    ensures
        r == url_type(url@),
{
    if starts_with(url, "b2:") {
        CredentialType::B2
    } else if starts_with(url, "s3:") || starts_with(url, "rustfs:") {
        CredentialType::S3
    } else {
        CredentialType::Generic
    }
}

/// The text before the first `c`, or all of it.
pub open spec fn before_char(s: Seq<char>, c: char) -> Seq<char> {
    match first_occurrence(s, seq![c]) {
        Some(i) => s.subrange(0, i),
        None => s,
    }
}

/// The text after the first `c`, or nothing.
pub open spec fn after_char(s: Seq<char>, c: char) -> Seq<char> {
    match first_occurrence(s, seq![c]) {
        Some(i) => s.subrange(i + 1, s.len() as int),
        None => Seq::empty(),
    }
}

/// Every character is an ASCII digit or a dot, as in an IPv4 address.
pub open spec fn is_address(h: Seq<char>) -> bool {
    forall|i: int| 0 <= i < h.len() ==> (('0' <= #[trigger] h[i] && h[i] <= '9') || h[i] == '.')
}

/// The profile name suggested for a URL: the scheme where the URL embeds no
/// `//` address; else the host of that address (without port), whole if it is an
/// IP address, else its first label.
pub open spec fn suggested_name(url: Seq<char>) -> Seq<char> {
    let scheme = before_char(url, ':');
    let after = after_char(url, ':');
    if !is_prefix("//"@, after) && !contains_seq(after, "://"@) {
        scheme
    } else {
        host_label(after)
    }
}

fn split_before(v: &Vec<char>, c: char) -> (r: Vec<char>)
    ensures
        r@ == before_char(v@, c),
{
    let mut pat: Vec<char> = Vec::new();
    pat.push(c);
    assert(pat@ =~= seq![c]);
    match find_seq(v, &pat) {
        Some(i) => sub_chars(v, 0, i),
        None => sub_chars(v, 0, v.len()),
    }
}

fn split_after(v: &Vec<char>, c: char) -> (r: Vec<char>)
    ensures
        r@ == after_char(v@, c),
{
    let mut pat: Vec<char> = Vec::new();
    pat.push(c);
    assert(pat@ =~= seq![c]);
    match find_seq(v, &pat) {
        Some(i) => {
            assert(occurs_at(v@, pat@, i as int));
            let n = v.len();
            assert(i + 1 <= n);
            sub_chars(v, i + 1, n)
        },
        None => Vec::new(),
    }
}

fn address_chars(h: &Vec<char>) -> (r: bool)
    ensures
        r == is_address(h@),
{
    let mut i: usize = 0;
    while i < h.len()
        invariant
            i <= h@.len(),
            forall|k: int| 0 <= k < i ==> (('0' <= #[trigger] h@[k] && h@[k] <= '9') || h@[k] == '.'),
        decreases h.len() - i,
    {
        let c = h[i];
        if !(('0' <= c && c <= '9') || c == '.') {
            return false;
        }
        i = i + 1;
    }
    true
}

/// The profile name suggested for the text after the scheme's `:` when it embeds a
/// `//` address.
pub open spec fn host_label(after: Seq<char>) -> Seq<char> {
    let host = before_char(before_char(after_slashes(after), '/'), ':');
    if is_address(host) {
        host
    } else {
        before_char(host, '.')
    }
}

/// The text after the first `//`, or all of it.
pub open spec fn after_slashes(after: Seq<char>) -> Seq<char> {
    match first_occurrence(after, "//"@) {
        Some(p) => after.subrange(p + 2, after.len() as int),
        None => after,
    }
}

fn after_slashes_of(after: &Vec<char>) -> (r: Vec<char>)
    ensures
        r@ == after_slashes(after@),
{
    proof {
        reveal_strlit("//");
    }
    let slashes = chars_of("//");
    match find_seq(after, &slashes) {
        Some(p) => {
            assert(occurs_at(after@, slashes@, p as int));
            let n = after.len();
            assert(p + 2 <= n);
            sub_chars(after, p + 2, n)
        },
        None => {
            assert(after@.subrange(0, after@.len() as int) =~= after@);
            sub_chars(after, 0, after.len())
        },
    }
}

fn label_of_host(host: &Vec<char>) -> (r: String)
    ensures
        r@ == (if is_address(host@) { host@ } else { before_char(host@, '.') }),
{
    if address_chars(host) {
        assert(host@.subrange(0, host@.len() as int) =~= host@);
        string_of(host, 0, host.len())
    } else {
        let label = split_before(host, '.');
        assert(label@.subrange(0, label@.len() as int) =~= label@);
        string_of(&label, 0, label.len())
    }
}

fn host_label_of(after: &Vec<char>) -> (r: String)
    ensures
        r@ == host_label(after@),
{
    let rest = after_slashes_of(after);
    let host_with_port = split_before(&rest, '/');
    let host = split_before(&host_with_port, ':');
    label_of_host(&host)
}

/// Suggests a profile name for a remote URL.
pub fn suggest_profile_name(url: &str) -> (r: String)
    ensures
        r@ == suggested_name(url@),
{
    let v = chars_of(url);
    let scheme = split_before(&v, ':');
    let after = split_after(&v, ':');
    let after_str = string_of(&after, 0, after.len());
    assert(after@.subrange(0, after@.len() as int) =~= after@);
    assert(scheme@.subrange(0, scheme@.len() as int) =~= scheme@);
    if !starts_with(after_str.as_str(), "//") && !contains(after_str.as_str(), "://") {
        return string_of(&scheme, 0, scheme.len());
    }
    host_label_of(&after)
}

/// `a` comes before `b` in the order of `str`: character by character, by code
/// point, a proper prefix first. (UTF-8 keeps code point order, so this is also the
/// byte order that `String` sorts by.)
pub open spec fn text_lt(a: Seq<char>, b: Seq<char>) -> bool
    decreases a.len(),
{
    if a.len() == 0 {
        b.len() > 0
    } else if b.len() == 0 {
        false
    } else if a[0] != b[0] {
        a[0] < b[0]
    } else {
        text_lt(a.drop_first(), b.drop_first())
    }
}

/// `a` comes before `b` or equals it.
pub open spec fn text_le(a: Seq<char>, b: Seq<char>) -> bool {
    text_lt(a, b) || a == b
}

/// Of two texts one comes first, or they are equal.
pub proof fn lemma_text_total(a: Seq<char>, b: Seq<char>)
    ensures
        text_lt(a, b) || a == b || text_lt(b, a),
    decreases a.len(),
{
    if a.len() == 0 && b.len() == 0 {
        assert(a =~= b);
    } else if a.len() > 0 && b.len() > 0 && a[0] == b[0] {
        lemma_text_total(a.drop_first(), b.drop_first());
        if a.drop_first() == b.drop_first() {
            assert(a =~= seq![a[0]] + a.drop_first());
            assert(b =~= seq![b[0]] + b.drop_first());
        }
    }
}

/// The order is transitive.
pub proof fn lemma_text_lt_transitive(a: Seq<char>, b: Seq<char>, c: Seq<char>)
    requires
        text_lt(a, b),
        text_lt(b, c),
    ensures
        text_lt(a, c),
    decreases a.len(),
{
    if a.len() > 0 && b.len() > 0 && c.len() > 0 && a[0] == b[0] && b[0] == c[0] {
        lemma_text_lt_transitive(a.drop_first(), b.drop_first(), c.drop_first());
    }
}

/// The order is irreflexive.
pub proof fn lemma_text_lt_irreflexive(a: Seq<char>)
    ensures
        !text_lt(a, a),
    decreases a.len(),
{
    if a.len() > 0 {
        lemma_text_lt_irreflexive(a.drop_first());
    }
}

/// Whether `a` comes before `b`.
pub fn str_lt(a: &str, b: &str) -> (r: bool)
    ensures
        r == text_lt(a@, b@),
{
    let va = chars_of(a);
    let vb = chars_of(b);
    let mut i: usize = 0;
    assert(va@.skip(0) =~= va@);
    assert(vb@.skip(0) =~= vb@);
    while i < va.len() && i < vb.len() && va[i] == vb[i]
        invariant
            i <= va@.len(),
            i <= vb@.len(),
            text_lt(a@, b@) == text_lt(va@.skip(i as int), vb@.skip(i as int)),
            va@ == a@,
            vb@ == b@,
        decreases va.len() - i,
    {
        assert(va@.skip(i as int).drop_first() =~= va@.skip(i + 1));
        assert(vb@.skip(i as int).drop_first() =~= vb@.skip(i + 1));
        i = i + 1;
    }
    if i == va.len() {
        i < vb.len()
    } else if i == vb.len() {
        false
    } else {
        assert(va@.skip(i as int)[0] == va@[i as int]);
        assert(vb@.skip(i as int)[0] == vb@[i as int]);
        va[i] < vb[i]
    }
}

/// The texts are in ascending order.
pub open spec fn sorted_texts(s: Seq<Seq<char>>) -> bool {
    forall|i: int, j: int| 0 <= i < j < s.len() ==> text_le(s[i], s[j])
}

/// Texts in strictly ascending order: sorted, with no text twice.
pub open spec fn strictly_sorted_texts(s: Seq<Seq<char>>) -> bool {
    forall|i: int, j: int| 0 <= i < j < s.len() ==> text_lt(s[i], s[j])
}

/// A sorted arrangement of distinct texts is strictly ascending.
proof fn lemma_sorted_distinct_is_strict(r: Seq<Seq<char>>, names: Seq<Seq<char>>)
    requires
        sorted_texts(r),
        r.to_multiset() == names.to_multiset(),
        names.no_duplicates(),
    ensures
        strictly_sorted_texts(r),
{
    names.lemma_multiset_has_no_duplicates();
    r.lemma_multiset_has_no_duplicates_conv();
    assert forall|i: int, j: int| 0 <= i < j < r.len() implies text_lt(r[i], r[j]) by {
        assert(text_le(r[i], r[j]));
        assert(r[i] != r[j]);
    }
}

/// Sorts names in ascending order.
pub fn sort_names(names: Vec<String>) -> (r: Vec<String>)
    ensures
        sorted_texts(views(r@)),
        views(r@).to_multiset() == views(names@).to_multiset(),
{
    let mut out: Vec<String> = Vec::new();
    let mut i: usize = 0;
    let n = names.len();
    assert(views(out@) =~= views(names@).take(0));
    while i < n
        invariant
            i <= n,
            n == names@.len(),
            sorted_texts(views(out@)),
            views(out@).to_multiset() == views(names@).take(i as int).to_multiset(),
        decreases n - i,
    {
        let x = names[i].clone();
        assert(x@ == views(names@)[i as int]);
        let mut p: usize = 0;
        while p < out.len() && str_lt(out[p].as_str(), x.as_str())
            invariant
                p <= out@.len(),
                forall|k: int| 0 <= k < p ==> text_lt(views(out@)[k], x@),
            decreases out.len() - p,
        {
            assert(views(out@)[p as int] == out@[p as int]@);
            p = p + 1;
        }
        let ghost old_v = views(out@);
        proof {
            if p < old_v.len() {
                assert(old_v[p as int] == out@[p as int]@);
                lemma_text_total(old_v[p as int], x@);
            }
        }
        out.insert(p, x);
        assert(views(out@) =~= old_v.insert(p as int, x@));
        proof {
            let v = views(out@);
            assert forall|a: int, b: int| 0 <= a < b < v.len() implies text_le(v[a], v[b]) by {
                if b < p {
                    assert(v[a] == old_v[a] && v[b] == old_v[b]);
                } else if b == p {
                    assert(v[a] == old_v[a]);
                } else if a == p {
                    assert(v[b] == old_v[b - 1]);
                    if p < b - 1 {
                        assert(text_le(old_v[p as int], old_v[b - 1]));
                        if text_lt(x@, old_v[p as int]) && text_lt(old_v[p as int], old_v[b - 1]) {
                            lemma_text_lt_transitive(x@, old_v[p as int], old_v[b - 1]);
                        }
                    }
                } else if a < p {
                    assert(v[a] == old_v[a] && v[b] == old_v[b - 1]);
                    if p < old_v.len() {
                        assert(text_lt(old_v[a], x@));
                        assert(text_le(old_v[a], old_v[b - 1]));
                    }
                } else {
                    assert(v[a] == old_v[a - 1] && v[b] == old_v[b - 1]);
                }
            }
            assert(views(names@).take(i + 1) =~= views(names@).take(i as int).push(x@));
            vstd::seq_lib::to_multiset_insert(old_v, p as int, x@);
            vstd::seq_lib::to_multiset_build(views(names@).take(i as int), x@);
        }
        i = i + 1;
    }
    assert(views(names@).take(n as int) =~= views(names@));
    out
}

/// The names of the credential profiles of the secrets, sorted; none where the
/// secrets could not be read.
pub fn parse_profile_names(parsed: &Result<Secrets, String>) -> (r: Vec<String>)
    ensures
        parsed is Err ==> r@.len() == 0,
        parsed matches Ok(s) ==> sorted_texts(views(r@)) && views(r@).to_multiset() == profile_names(*s).to_multiset(),
        parsed matches Ok(s) ==> (profiles_distinct(*s) ==> strictly_sorted_texts(views(r@))),
{
    match parsed {
        Ok(s) => {
            let mut names: Vec<String> = Vec::new();
            let mut i: usize = 0;
            while i < s.credentials.len()
                invariant
                    i <= s.credentials@.len(),
                    names@.len() == i,
                    views(names@) == profile_names(*s).take(i as int),
                decreases s.credentials.len() - i,
            {
                let nm = s.credentials[i].0.clone();
                assert(nm@ == profile_names(*s)[i as int]);
                names.push(nm);
                assert(views(names@) =~= profile_names(*s).take(i + 1));
                i = i + 1;
            }
            assert(profile_names(*s).take(s.credentials@.len() as int) =~= profile_names(*s));
            let r = sort_names(names);
            proof {
                if profiles_distinct(*s) {
                    lemma_sorted_distinct_is_strict(views(r@), profile_names(*s));
                }
            }
            r
        },
        Err(_) => Vec::new(),
    }
}


/// The names of the credential profiles in the secrets file, sorted: `decrypted` is
/// the outcome of decrypting the file, then of reading what it holds. None where
/// either failed.
pub fn list_profiles(decrypted: &Result<Result<Secrets, String>, String>) -> (r: Vec<String>)
    ensures
        !(decrypted matches Ok(Ok(_))) ==> r@.len() == 0,
        decrypted matches Ok(Ok(s)) ==> sorted_texts(views(r@)) && views(r@).to_multiset()
            == profile_names(*s).to_multiset(),
        decrypted matches Ok(Ok(s)) ==> (profiles_distinct(*s) ==> strictly_sorted_texts(views(r@))),
{
    match decrypted {
        Ok(parsed) => parse_profile_names(parsed),
        Err(_) => Vec::new(),
    }
}


/// The variables of the `b2` profile from the two keys that `b2 account get`
/// reported, where each is present as text: the key id and the key, or the error
/// that names the first one missing.
pub fn b2_profile_vars(key_id: Option<String>, key: Option<String>) -> (r: Result<Vec<(String, String)>, String>)
    ensures
        key_id is None ==> (r matches Err(m) && m@ == "applicationKeyId not found in b2 output"@),
        key_id is Some && key is None ==> (r matches Err(m) && m@ == "applicationKey not found in b2 output"@),
        match (key_id, key) {
            (Some(i), Some(k)) => r matches Ok(v)
                && pair_views(v@) == seq![("B2_APPLICATION_KEY_ID"@, i@), ("B2_APPLICATION_KEY"@, k@)],
            _ => r is Err,
        },
{
    match key_id {
        None => Err(String::from_str("applicationKeyId not found in b2 output")),
        Some(i) => match key {
            None => Err(String::from_str("applicationKey not found in b2 output")),
            Some(k) => {
                let mut v: Vec<(String, String)> = Vec::new();
                v.push((String::from_str("B2_APPLICATION_KEY_ID"), i));
                v.push((String::from_str("B2_APPLICATION_KEY"), k));
                assert(pair_views(v@) =~= seq![("B2_APPLICATION_KEY_ID"@, i@), ("B2_APPLICATION_KEY"@, k@)]);
                Ok(v)
            },
        },
    }
}

/// The variables of an S3 profile: the access key id and the secret access key.
pub fn s3_profile_vars(key_id: &str, key: &str) -> (r: Vec<(String, String)>)
    ensures
        pair_views(r@) == seq![("AWS_ACCESS_KEY_ID"@, key_id@), ("AWS_SECRET_ACCESS_KEY"@, key@)],
{
    let mut v: Vec<(String, String)> = Vec::new();
    v.push((String::from_str("AWS_ACCESS_KEY_ID"), String::from_str(key_id)));
    v.push((String::from_str("AWS_SECRET_ACCESS_KEY"), String::from_str(key)));
    assert(pair_views(v@) =~= seq![("AWS_ACCESS_KEY_ID"@, key_id@), ("AWS_SECRET_ACCESS_KEY"@, key@)]);
    v
}

} // verus!
