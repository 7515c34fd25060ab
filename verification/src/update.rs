//! Release versions, which of two is newer, and when the next check for a new
//! release is due.
use vstd::prelude::*;
use crate::remote::split_once;
use crate::text::{cat4, chars_of, contains, contains_seq, decimal, digit_char, find_seq, occurs_at, string_of,
    sub_chars};

verus! {

/// The value of a decimal digit.
pub open spec fn digit_of(c: char) -> Option<nat> {
    if c == '0' { Some(0) } else if c == '1' { Some(1) } else if c == '2' { Some(2) }
    else if c == '3' { Some(3) } else if c == '4' { Some(4) } else if c == '5' { Some(5) }
    else if c == '6' { Some(6) } else if c == '7' { Some(7) } else if c == '8' { Some(8) }
    else if c == '9' { Some(9) } else { None }
}

/// Every character is a decimal digit.
pub open spec fn all_digits(s: Seq<char>) -> bool {
    forall|i: int| 0 <= i < s.len() ==> (#[trigger] digit_of(s[i])) is Some
}

/// The value of a text of decimal digits.
pub open spec fn digits_value(s: Seq<char>) -> nat
    decreases s.len(),
{
    if s.len() == 0 {
        0
    } else {
        digits_value(s.drop_last()) * 10 + match digit_of(s.last()) {
            Some(d) => d,
            None => 0,
        }
    }
}

/// What `u64::from_str` reads: an optional `+`, then one or more decimal digits whose
/// value fits in 64 bits.
pub open spec fn u64_text(s: Seq<char>) -> Option<u64> {
    if digits_fit(unsigned_digits(s)) {
        Some(digits_value(unsigned_digits(s)) as u64)
    } else {
        None
    }
}

/// The digits of an unsigned number: the text after an optional leading `+`.
pub open spec fn unsigned_digits(s: Seq<char>) -> Seq<char> {
    if s.len() > 0 && s[0] == '+' {
        s.drop_first()
    } else {
        s
    }
}

/// One or more digits whose value fits in 64 bits.
pub open spec fn digits_fit(d: Seq<char>) -> bool {
    d.len() > 0 && all_digits(d) && digits_value(d) <= u64::MAX
}

/// A prefix of digits has no greater value than the whole.
proof fn lemma_prefix_value(d: Seq<char>, k: int)
    requires
        0 <= k <= d.len(),
    ensures
        digits_value(d.take(k)) <= digits_value(d),
    decreases d.len(),
{
    if k < d.len() {
        assert(d.drop_last().take(k) =~= d.take(k));
        lemma_prefix_value(d.drop_last(), k);
    } else {
        assert(d.take(k) =~= d);
    }
}

fn digit(c: char) -> (r: Option<u64>)
    ensures
        match digit_of(c) {
            Some(d) => r == Some(d as u64),
            None => r is None,
        },
{
    if c == '0' { Some(0) } else if c == '1' { Some(1) } else if c == '2' { Some(2) }
    else if c == '3' { Some(3) } else if c == '4' { Some(4) } else if c == '5' { Some(5) }
    else if c == '6' { Some(6) } else if c == '7' { Some(7) } else if c == '8' { Some(8) }
    else if c == '9' { Some(9) } else { None }
}

/// Reads an unsigned 64-bit number as `u64::from_str` does.
pub fn parse_u64(s: &Vec<char>) -> (r: Option<u64>)
    ensures
        r == u64_text(s@),
{
    let n = s.len();
    let start: usize = if n > 0 && s[0] == '+' { 1 } else { 0 };
    let ghost d = unsigned_digits(s@);
    assert(d =~= s@.subrange(start as int, n as int));
    if start == n {
        return None;
    }
    let mut acc: u64 = 0;
    let mut i: usize = start;
    while i < n
        invariant
            start <= i <= n,
            n == s@.len(),
            start < n,
            d == s@.subrange(start as int, n as int),
            d == unsigned_digits(s@),
            all_digits(d.take(i - start)),
            acc == digits_value(d.take(i - start)),
        decreases n - i,
    {
        let ghost k = i - start;
        assert(d.take(k + 1).drop_last() =~= d.take(k));
        assert(d.take(k + 1).last() == s@[i as int]);
        let dv = match digit(s[i]) {
            Some(v) => v,
            None => {
                assert(!all_digits(d)) by {
                    assert(d[k] == s@[i as int]);
                    assert(digit_of(d[k]) is None);
                }
                return None;
            },
        };
        assert(digits_value(d.take(k + 1)) == digits_value(d.take(k)) * 10 + dv);
        let m = match acc.checked_mul(10) {
            Some(m) => m,
            None => {
                assert(acc * 10 > u64::MAX);
                assert(digits_value(d.take(k + 1)) > u64::MAX);
                proof {
                    if all_digits(d) {
                        lemma_prefix_value(d, k + 1);
                        assert(digits_value(d) > u64::MAX);
                    }
                }
                assert(u64_text(s@) is None);
                return None;
            },
        };
        acc = match m.checked_add(dv) {
            Some(a) => a,
            None => {
                proof {
                    if all_digits(d) {
                        lemma_prefix_value(d, k + 1);
                    }
                }
                assert(u64_text(s@) is None);
                return None;
            },
        };
        assert forall|j: int| 0 <= j < k + 1 implies (#[trigger] digit_of(d.take(k + 1)[j])) is Some by {
            if j < k {
                assert(d.take(k + 1)[j] == d.take(k)[j]);
            }
        }
        i = i + 1;
    }
    assert(d.take(n - start) =~= d);
    Some(acc)
}

/// The text with its leading `v`s removed.
pub open spec fn strip_vs(s: Seq<char>) -> Seq<char>
    decreases s.len(),
{
    if s.len() > 0 && s[0] == 'v' {
        strip_vs(s.drop_first())
    } else {
        s
    }
}

/// The major, minor and patch numbers of a version such as `v1.2.3`: leading `v`s
/// dropped, the text cut at its first two dots, each of the three parts a number.
pub open spec fn version_triple(v: Seq<char>) -> Option<(u64, u64, u64)> {
    match split_once(strip_vs(v), seq!['.']) {
        None => None,
        Some((a, rest)) => match split_once(rest, seq!['.']) {
            None => None,
            Some((b, c)) => match (u64_text(a), u64_text(b), u64_text(c)) {
                (Some(x), Some(y), Some(z)) => Some((x, y, z)),
                _ => None,
            },
        },
    }
}

fn strip_leading_vs(v: &Vec<char>) -> (r: Vec<char>)
    ensures
        r@ == strip_vs(v@),
{
    let mut i: usize = 0;
    assert(v@.subrange(0, v@.len() as int) =~= v@);
    while i < v.len() && v[i] == 'v'
        invariant
            i <= v@.len(),
            strip_vs(v@) == strip_vs(v@.subrange(i as int, v@.len() as int)),
        decreases v.len() - i,
    {
        assert(v@.subrange(i as int, v@.len() as int).drop_first() =~= v@.subrange(i + 1, v@.len() as int));
        i = i + 1;
    }
    sub_chars(v, i, v.len())
}

fn split_dot(v: &Vec<char>) -> (r: Option<(Vec<char>, Vec<char>)>)
    ensures
        match split_once(v@, seq!['.']) {
            Some((a, b)) => r matches Some((x, y)) && x@ == a && y@ == b,
            None => r is None,
        },
{
    let mut dot: Vec<char> = Vec::new();
    dot.push('.');
    assert(dot@ =~= seq!['.']);
    match find_seq(v, &dot) {
        Some(i) => {
            assert(occurs_at(v@, dot@, i as int));
            let n = v.len();
            assert(i + 1 <= n);
            Some((sub_chars(v, 0, i), sub_chars(v, i + 1, n)))
        },
        None => None,
    }
}

/// Reads a version such as `v1.2.3` or `1.2.3` into its three numbers.
pub fn parse_version(v: &str) -> (r: Option<(u64, u64, u64)>)
    ensures
        r == version_triple(v@),
{
    let s = strip_leading_vs(&chars_of(v));
    let (a, rest) = match split_dot(&s) {
        Some(p) => p,
        None => return None,
    };
    let (b, c) = match split_dot(&rest) {
        Some(p) => p,
        None => return None,
    };
    let x = match parse_u64(&a) {
        Some(x) => x,
        None => return None,
    };
    let y = match parse_u64(&b) {
        Some(y) => y,
        None => return None,
    };
    let z = match parse_u64(&c) {
        Some(z) => z,
        None => return None,
    };
    Some((x, y, z))
}

/// The first version is later than the second, number by number.
pub open spec fn triple_gt(l: (u64, u64, u64), c: (u64, u64, u64)) -> bool {
    l.0 > c.0 || (l.0 == c.0 && (l.1 > c.1 || (l.1 == c.1 && l.2 > c.2)))
}

/// `latest` names a later version than `current`; false where either is no version.
pub open spec fn newer(latest: Seq<char>, current: Seq<char>) -> bool {
    match (version_triple(latest), version_triple(current)) {
        (Some(l), Some(c)) => triple_gt(l, c),
        _ => false,
    }
}

/// Whether `latest` names a later version than `current`.
pub fn is_newer(latest: &str, current: &str) -> (r: bool)
    ensures
        r == newer(latest@, current@),
{
    match (parse_version(latest), parse_version(current)) {
        (Some(l), Some(c)) => l.0 > c.0 || (l.0 == c.0 && (l.1 > c.1 || (l.1 == c.1 && l.2 > c.2))),
        _ => false,
    }
}

/// No version is newer than itself, and of two versions at most one is newer than
/// the other.
pub proof fn newer_is_a_strict_order(a: Seq<char>, b: Seq<char>)
    ensures
        !newer(a, a),
        newer(a, b) ==> !newer(b, a),
{
}

/// Versions compare by major number, then minor, then patch: of two versions that
/// parse, a greater major number is newer whatever follows; with the same major
/// number, a greater minor number is newer; with the same major and minor numbers, a
/// greater patch number is newer; and one of two versions is newer than the other
/// unless all three numbers are equal.
pub proof fn newer_orders_major_minor_patch(a: Seq<char>, b: Seq<char>)
    requires
        version_triple(a) is Some,
        version_triple(b) is Some,
    ensures
        ({
            let (x, y) = (version_triple(a)->Some_0, version_triple(b)->Some_0);
            &&& x.0 > y.0 ==> newer(a, b)
            &&& x.0 == y.0 && x.1 > y.1 ==> newer(a, b)
            &&& x.0 == y.0 && x.1 == y.1 && x.2 > y.2 ==> newer(a, b)
            &&& x.0 < y.0 ==> !newer(a, b)
            &&& x.0 == y.0 && x.1 < y.1 ==> !newer(a, b)
            &&& x.0 == y.0 && x.1 == y.1 && x.2 <= y.2 ==> !newer(a, b)
        }),
{
}

/// Newer is transitive.
pub proof fn newer_is_transitive(a: Seq<char>, b: Seq<char>, c: Seq<char>)
    requires
        newer(a, b),
        newer(b, c),
    ensures
        newer(a, c),
{
}

/// The version a release tag names, without its leading `v`s, where it is newer
/// than `current`.
pub open spec fn offered_update(latest_tag: Seq<char>, current: Seq<char>) -> Option<Seq<char>> {
    if newer(strip_vs(latest_tag), current) {
        Some(strip_vs(latest_tag))
    } else {
        None
    }
}

/// The version to offer as an update: the latest release's tag (none where the
/// release list could not be fetched or is empty), without its leading `v`s, where
/// it names a later version than `current`.
pub fn check_update_available(latest_tag: Option<&str>, current: &str) -> (r: Option<String>)
    ensures
        match latest_tag {
            Some(t) => match offered_update(t@, current@) {
                Some(v) => r matches Some(x) && x@ == v,
                None => r is None,
            },
            None => r is None,
        },
{
    match latest_tag {
        Some(t) => {
            let v = strip_leading_vs(&chars_of(t));
            let s = crate::text::string_of(&v, 0, v.len());
            assert(v@.subrange(0, v@.len() as int) =~= v@);
            if is_newer(s.as_str(), current) {
                Some(s)
            } else {
                None
            }
        },
        None => None,
    }
}

/// A character of the Unicode `White_Space` property, which `str::trim` removes.
pub open spec fn is_white_space(c: char) -> bool {
    ('\t' <= c && c <= '\r') || c == ' ' || c == '\u{85}' || c == '\u{a0}' || c == '\u{1680}'
        || ('\u{2000}' <= c && c <= '\u{200a}') || c == '\u{2028}' || c == '\u{2029}' || c == '\u{202f}'
        || c == '\u{205f}' || c == '\u{3000}'
}

fn white_space(c: char) -> (r: bool)
    ensures
        r == is_white_space(c),
{
    ('\t' <= c && c <= '\r') || c == ' ' || c == '\u{85}' || c == '\u{a0}' || c == '\u{1680}'
        || ('\u{2000}' <= c && c <= '\u{200a}') || c == '\u{2028}' || c == '\u{2029}' || c == '\u{202f}'
        || c == '\u{205f}' || c == '\u{3000}'
}

/// The text without its leading white space.
pub open spec fn trim_start(s: Seq<char>) -> Seq<char>
    decreases s.len(),
{
    if s.len() > 0 && is_white_space(s[0]) {
        trim_start(s.drop_first())
    } else {
        s
    }
}

/// The text without its trailing white space.
pub open spec fn trim_end(s: Seq<char>) -> Seq<char>
    decreases s.len(),
{
    if s.len() > 0 && is_white_space(s.last()) {
        trim_end(s.drop_last())
    } else {
        s
    }
}

fn leading_white(v: &Vec<char>) -> (i: usize)
    ensures
        i <= v@.len(),
        trim_start(v@) == v@.subrange(i as int, v@.len() as int),
{
    let n = v.len();
    let mut i: usize = 0;
    assert(v@.subrange(0, n as int) =~= v@);
    while i < n && white_space(v[i])
        invariant
            i <= n,
            n == v@.len(),
            trim_start(v@) == trim_start(v@.subrange(i as int, n as int)),
        decreases n - i,
    {
        assert(v@.subrange(i as int, n as int).drop_first() =~= v@.subrange(i + 1, n as int));
        i = i + 1;
    }
    i
}

fn trailing_end(v: &Vec<char>, i: usize) -> (j: usize)
    requires
        i <= v@.len(),
    ensures
        i <= j <= v@.len(),
        trim_end(v@.subrange(i as int, v@.len() as int)) == v@.subrange(i as int, j as int),
{
    let n = v.len();
    let mut j: usize = n;
    while j > i && white_space(v[j - 1])
        invariant
            i <= j <= n,
            n == v@.len(),
            trim_end(v@.subrange(i as int, n as int)) == trim_end(v@.subrange(i as int, j as int)),
        decreases j,
    {
        assert(v@.subrange(i as int, j as int).drop_last() =~= v@.subrange(i as int, j - 1));
        j = j - 1;
    }
    j
}

/// The text without leading and trailing white space.
pub fn trim(v: &Vec<char>) -> (r: Vec<char>)
    ensures
        r@ == trim_end(trim_start(v@)),
{
    let i = leading_white(v);
    let j = trailing_end(v, i);
    sub_chars(v, i, j)
}

/// Seconds between two checks for a new release.
pub open spec fn check_interval() -> int {
    86400
}

/// A check for a new release is due: a day or more has passed since the time recorded
/// in the file, read as a number of seconds (none recorded counts as 0), with the
/// difference taken as 0 where the recorded time lies ahead.
pub open spec fn check_due(content: Seq<char>, now: u64) -> bool {
    let last: u64 = match u64_text(trim_end(trim_start(content))) {
        Some(t) => t,
        None => 0,
    };
    (if now >= last { now - last } else { 0 }) >= check_interval()
}

/// Whether a check for a new release is due at `now` (seconds since the epoch), given
/// the content of the file that records the last check (empty where there is none).
pub fn is_check_due(content: &str, now: u64) -> (r: bool)
    ensures
        r == check_due(content@, now),
{
    let t = trim(&chars_of(content));
    let last = match parse_u64(&t) {
        Some(x) => x,
        None => 0,
    };
    now.saturating_sub(last) >= 86400
}

/// The decimal text of a number is a text of digits with that value.
proof fn lemma_decimal_digits(n: nat)
    ensures
        decimal(n).len() > 0,
        all_digits(decimal(n)),
        digits_value(decimal(n)) == n,
        digit_of(decimal(n)[0]) is Some,
    decreases n,
{
    if n < 10 {
        assert(digits_value(decimal(n)) == digits_value(decimal(n).drop_last()) * 10 + n);
        assert(decimal(n).drop_last() =~= Seq::<char>::empty());
    } else {
        lemma_decimal_digits(n / 10);
        let s = decimal(n);
        let p = decimal(n / 10);
        assert(s == p.push(digit_char(n % 10)));
        assert(s.drop_last() =~= p);
        assert(s[0] == p[0]);
        assert forall|i: int| 0 <= i < s.len() implies (#[trigger] digit_of(s[i])) is Some by {
            if i < p.len() {
                assert(s[i] == p[i]);
            }
        }
        assert(n == (n / 10) * 10 + n % 10);
    }
}

/// Right after a check is recorded, as the decimal text of its time, no other check
/// is due.
pub proof fn no_check_due_right_after_recording(now: u64)
    ensures
        !check_due(decimal(now as nat), now),
{
    let s = decimal(now as nat);
    lemma_decimal_digits(now as nat);
    assert(!is_white_space(s[0]));
    assert(!is_white_space(s.last())) by {
        assert(digit_of(s[s.len() - 1]) is Some);
    }
    assert(trim_start(s) == s);
    assert(trim_end(s) == s);
    assert(s[0] != '+');
    assert(unsigned_digits(s) == s);
    assert(u64_text(s) == Some(now));
}


/// What a dry run of `vivo update` reports: the running version and the latest
/// release's version, without its leading `v`s.
pub fn update_dry_run_message(current: &str, latest_tag: &str) -> (r: String)
    ensures
        r@ == "[dry-run] would update vivo v"@ + current@ + " \u{2192} v"@ + strip_vs(latest_tag@),
{
    let v = chars_of(latest_tag);
    let w = strip_leading_vs(&v);
    let latest = string_of(&w, 0, w.len());
    assert(w@.subrange(0, w@.len() as int) =~= w@);
    cat4("[dry-run] would update vivo v", current, " \u{2192} v", latest.as_str())
}


/// What a failed `vivo update` reports: where the binary could not be replaced for
/// want of permission, the advice to run it with `sudo`; else the error itself.
pub fn update_failure_message(error: &str) -> (r: String)
    ensures
        (contains_seq(error@, "Permission denied"@) || contains_seq(error@, "Access is denied"@)) ==> r@
            == "error: cannot replace binary \u{2014} try: sudo vivo update"@,
        !(contains_seq(error@, "Permission denied"@) || contains_seq(error@, "Access is denied"@)) ==> r@
            == "error: update failed: "@ + error@,
{
    if contains(error, "Permission denied") || contains(error, "Access is denied") {
        String::from_str("error: cannot replace binary \u{2014} try: sudo vivo update")
    } else {
        crate::text::cat("error: update failed: ", error)
    }
}


/// The rate limit of the update check: where a check is due at `now` given the
/// recorded time of the last one (`record`, the file's text), the text to record
/// for this check, the decimal seconds of `now`; none where no check is due. The
/// caller then asks for the latest release and records the text.
pub fn maybe_check_update(record: &str, now: u64) -> (r: Option<String>)
    ensures
        check_due(record@, now) ==> (r matches Some(t) && t@ == decimal(now as nat)),
        !check_due(record@, now) ==> r is None,
{
    if is_check_due(record, now) {
        Some(crate::text::decimal_u64(now))
    } else {
        None
    }
}

} // verus!
