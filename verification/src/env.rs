//! Environment variables, as a list of named values, and the expansion of
//! `$NAME` and a leading `~` in configured paths.
use vstd::prelude::*;
use regex::Regex;
use crate::text::{pair_views, str_eq};

verus! {

/// The value of the first variable named `k`, if any.
pub open spec fn env_lookup(vars: Seq<(Seq<char>, Seq<char>)>, k: Seq<char>) -> Option<Seq<char>>
    decreases vars.len(),
{
    if vars.len() == 0 {
        None
    } else if vars[0].0 == k {
        Some(vars[0].1)
    } else {
        env_lookup(vars.drop_first(), k)
    }
}

/// The value of a variable, or the empty text where it is not set.
pub open spec fn env_or_empty(vars: Seq<(Seq<char>, Seq<char>)>, k: Seq<char>) -> Seq<char> {
    match env_lookup(vars, k) {
        Some(v) => v,
        None => Seq::empty(),
    }
}

/// Looks a variable up.
pub fn env_get(vars: &Vec<(String, String)>, key: &str) -> (r: Option<String>)
    ensures
        match env_lookup(pair_views(vars@), key@) {
            Some(v) => r matches Some(x) && x@ == v,
            None => r is None,
        },
{
    let mut i: usize = 0;
    assert(pair_views(vars@).skip(0) =~= pair_views(vars@));
    while i < vars.len()
        invariant
            i <= vars@.len(),
            env_lookup(pair_views(vars@), key@) == env_lookup(pair_views(vars@).skip(i as int), key@),
        decreases vars.len() - i,
    {
        let ghost rest = pair_views(vars@).skip(i as int);
        assert(rest[0] == (vars@[i as int].0@, vars@[i as int].1@));
        assert(rest.drop_first() =~= pair_views(vars@).skip(i + 1));
        if str_eq(vars[i].0.as_str(), key) {
            return Some(vars[i].1.clone());
        }
        i = i + 1;
    }
    None
}

/// Looks a variable up; the empty text where it is not set.
pub fn env_get_or_empty(vars: &Vec<(String, String)>, key: &str) -> (r: String)
    ensures
        r@ == env_or_empty(pair_views(vars@), key@),
{
    match env_get(vars, key) {
        Some(v) => v,
        None => String::new(),
    }
}

/// The replacement of one `$NAME` reference: the variable's value, or the
/// reference itself where the variable is not set.
pub fn var_or_reference(vars: &Vec<(String, String)>, name: &str, reference: &str) -> (r: String)
    ensures
        r@ == match env_lookup(pair_views(vars@), name@) {
            Some(v) => v,
            None => reference@,
        },
{
    match env_get(vars, name) {
        Some(v) => v,
        None => String::from_str(reference),
    }
}

#[verifier::external_type_specification]
#[verifier::external_body]
pub struct ExRegex(Regex);

/// The pattern of a `$NAME` reference: `$`, then an uppercase letter or `_`, then
/// uppercase letters, digits and `_`; the name is group 1.
pub open spec fn var_pattern() -> Seq<char> {
    "\\$([A-Z_][A-Z0-9_]*)"@
}

/// The pattern that a compiled regex was made from (what `Regex::as_str` gives back).
pub uninterp spec fn regex_source(re: Regex) -> Seq<char>;

/// A character that may start a variable's name: an uppercase ASCII letter or `_`.
pub open spec fn is_name_start(c: char) -> bool {
    ('A' <= c && c <= 'Z') || c == '_'
}

/// A character of a variable's name: an uppercase ASCII letter, a digit or `_`.
pub open spec fn is_name_char(c: char) -> bool {
    is_name_start(c) || ('0' <= c && c <= '9')
}

/// The length of the longest run of name characters at the start of `s`.
pub open spec fn name_len(s: Seq<char>) -> nat
    decreases s.len(),
{
    if s.len() > 0 && is_name_char(s[0]) {
        1 + name_len(s.drop_first())
    } else {
        0
    }
}

/// A run of name characters at the start of a text is no longer than the text.
pub proof fn lemma_name_len_bound(s: Seq<char>)
    ensures
        name_len(s) <= s.len(),
    decreases s.len(),
{
    if s.len() > 0 && is_name_char(s[0]) {
        lemma_name_len_bound(s.drop_first());
    }
}

/// The text with every `$NAME` reference replaced, scanning from the left: at a `$`
/// followed by a name's first character, the reference runs over the longest run of
/// name characters after the `$`, and stands replaced by the variable's value, or
/// kept as it is where the variable is not set; scanning goes on after it. Every
/// other character is kept.
pub open spec fn refs_replaced(s: Seq<char>, vars: Seq<(Seq<char>, Seq<char>)>) -> Seq<char>
    decreases s.len(),
{
    if s.len() == 0 {
        Seq::empty()
    } else if s[0] == '$' && s.len() > 1 && is_name_start(s[1]) {
        proof {
            lemma_name_len_bound(s.drop_first());
        }
        let end: int = 1 + name_len(s.drop_first()) as int;
        let name = s.subrange(1, end);
        let replacement = match env_lookup(vars, name) {
            Some(v) => v,
            None => s.subrange(0, end),
        };
        replacement + refs_replaced(s.subrange(end, s.len() as int), vars)
    } else {
        seq![s[0]] + refs_replaced(s.drop_first(), vars)
    }
}

/// `Regex::new`. The contract claims that a regex holds the pattern it was made
/// from, and that the pattern of a `$NAME` reference, valid in the crate's documented
/// syntax, compiles.
#[verifier::external_body]
fn compile(pattern: &str) -> (r: Option<Regex>)
    ensures
        r matches Some(re) ==> regex_source(re) == pattern@,
        pattern@ == var_pattern() ==> r is Some,
{
    Regex::new(pattern).ok()
}

/// `Regex::replace_all` with a replacer that calls `var_or_reference` on group 1 and
/// the whole match; the pattern of a `$NAME` reference always has group 1. The
/// contract claims what the crate documents of that pattern: the matches are the
/// non-overlapping leftmost-first ones, the repetition is greedy, each is replaced
/// and the text between them is kept.
#[verifier::external_body]
fn replace_references(re: &Regex, text: &str, vars: &Vec<(String, String)>) -> (r: String)
    requires
        regex_source(*re) == var_pattern(),
    ensures
        r@ == refs_replaced(text@, pair_views(vars@)),
{
    re.replace_all(text, |caps: &regex::Captures| var_or_reference(vars, &caps[1], &caps[0])).into_owned()
}

/// The text with every `$NAME` reference replaced as `var_or_reference` replaces it.
fn substitute_vars(text: &str, vars: &Vec<(String, String)>) -> (r: String)
    ensures
        r@ == refs_replaced(text@, pair_views(vars@)),
{
    match compile("\\$([A-Z_][A-Z0-9_]*)") {
        Some(re) => replace_references(&re, text, vars),
        None => {
            assert(false);
            String::from_str(text)
        },
    }
}

/// A path with a leading `~` that stands alone or before `/` replaced by the home
/// directory, where one is known; other paths unchanged.
pub open spec fn home_expanded(e: Seq<char>, home: Option<Seq<char>>) -> Seq<char> {
    if e.len() > 0 && e[0] == '~' && (e.len() == 1 || e[1] == '/') {
        match home {
            Some(h) => h + e.subrange(1, e.len() as int),
            None => e,
        }
    } else {
        e
    }
}

/// Replaces a leading `~` (alone or before `/`) by `home`. A `~user` path is left alone.
pub fn expand_home(expanded: &str, home: Option<&str>) -> (r: String)
    ensures
        r@ == home_expanded(expanded@, match home { Some(h) => Some(h@), None => None }),
{
    let n = expanded.unicode_len();
    if n > 0 && expanded.get_char(0) == '~' && (n == 1 || expanded.get_char(1) == '/') {
        match home {
            Some(h) => {
                let mut r = String::from_str(h);
                let mut i: usize = 1;
                while i < n
                    invariant
                        1 <= i <= n,
                        n == expanded@.len(),
                        r@ == h@ + expanded@.subrange(1, i as int),
                    decreases n - i,
                {
                    r.push(expanded.get_char(i));
                    assert(r@ =~= h@ + expanded@.subrange(1, i + 1));
                    i = i + 1;
                }
                r
            },
            None => String::from_str(expanded),
        }
    } else {
        String::from_str(expanded)
    }
}

/// The expansion of a configured path: every `$NAME` reference to a set variable is
/// replaced by its value, then a leading `~` by `$HOME`. Commands run without a shell,
/// so nothing else would expand them.
pub open spec fn path_expansion(path: Seq<char>, vars: Seq<(Seq<char>, Seq<char>)>) -> Seq<char> {
    home_expanded(refs_replaced(path, vars), env_lookup(vars, "HOME"@))
}

/// Expands `$NAME` references and a leading `~` in a configured path, with the
/// variables `vars` of the environment.
pub fn expand_env_vars(path: &str, vars: &Vec<(String, String)>) -> (r: String)
    ensures
        r@ == path_expansion(path@, pair_views(vars@)),
{
    let substituted = substitute_vars(path, vars);
    let home = env_get(vars, "HOME");
    match home {
        Some(h) => expand_home(substituted.as_str(), Some(h.as_str())),
        None => expand_home(substituted.as_str(), None),
    }
}

} // verus!
