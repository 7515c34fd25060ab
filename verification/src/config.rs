//! The options of a run, the decrypted secrets, and where the configuration and
//! secrets files are found.
use vstd::prelude::*;
use crate::step::Step;
use crate::text::{cat, cat3, str_eq};

verus! {

/// The options of a run, from the command line.
pub struct VivoConfig {
    pub task_name: Option<String>,
    pub config_file: Option<String>,
    pub dry_run: bool,
    pub start_step: Step,
}

/// The decrypted secrets: the restic password and the named credential profiles,
/// each a list of variables. `Secrets::from_profiles` makes them with distinct
/// profile names.
pub struct Secrets {
    pub restic_password: String,
    pub credentials: Vec<(String, Vec<(String, String)>)>,
}

/// The names of the credential profiles, in stored order.
pub open spec fn profile_names(s: Secrets) -> Seq<Seq<char>> {
    s.credentials@.map_values(|p: (String, Vec<(String, String)>)| p.0@)
}

/// The profile names of the secrets are distinct, as the keys of the YAML mapping
/// they are read from are.
pub open spec fn profiles_distinct(s: Secrets) -> bool {
    profile_names(s).no_duplicates()
}

/// A profile: its name and its variables.
pub type Profile = (String, Vec<(String, String)>);

/// The names of a list of profiles, in order.
pub open spec fn names_of(ps: Seq<Profile>) -> Seq<Seq<char>> {
    ps.map_values(|p: Profile| p.0@)
}

/// The profiles with each one whose name came earlier left out: the first profile of
/// each name, in order.
pub open spec fn first_profiles(ps: Seq<Profile>) -> Seq<Profile>
    decreases ps.len(),
{
    if ps.len() == 0 {
        Seq::empty()
    } else if names_of(ps.drop_last()).contains(ps.last().0@) {
        first_profiles(ps.drop_last())
    } else {
        first_profiles(ps.drop_last()).push(ps.last())
    }
}

/// The first profiles hold the same names as all of them, each once.
pub proof fn lemma_first_profiles(ps: Seq<Profile>)
    ensures
        forall|x: Seq<char>| names_of(first_profiles(ps)).contains(x) <==> names_of(ps).contains(x),
        names_of(first_profiles(ps)).no_duplicates(),
    decreases ps.len(),
{
    if ps.len() > 0 {
        let init = ps.drop_last();
        lemma_first_profiles(init);
        assert(names_of(ps) =~= names_of(init).push(ps.last().0@));
        let f = first_profiles(init);
        if !names_of(init).contains(ps.last().0@) {
            assert(names_of(f.push(ps.last())) =~= names_of(f).push(ps.last().0@));
        }
        assert forall|x: Seq<char>| names_of(first_profiles(ps)).contains(x) <==> names_of(ps).contains(x) by {
            lemma_contains_push(names_of(init), ps.last().0@, x);
            if !names_of(init).contains(ps.last().0@) {
                lemma_contains_push(names_of(f), ps.last().0@, x);
            }
        }
        if !names_of(init).contains(ps.last().0@) {
            let g = names_of(f).push(ps.last().0@);
            assert forall|i: int, j: int| 0 <= i < g.len() && 0 <= j < g.len() && i != j implies g[i] != g[j] by {
                if i == g.len() - 1 {
                    assert(names_of(f)[j] == g[j]);
                } else if j == g.len() - 1 {
                    assert(names_of(f)[i] == g[i]);
                }
            }
        }
    }
}

/// A sequence with one more element holds what it held and that element.
pub proof fn lemma_contains_push(s: Seq<Seq<char>>, a: Seq<char>, x: Seq<char>)
    ensures
        s.push(a).contains(x) <==> (s.contains(x) || x == a),
{
    if s.contains(x) {
        let k = choose|k: int| 0 <= k < s.len() && s[k] == x;
        assert(s.push(a)[k] == x);
    }
    if x == a {
        assert(s.push(a)[s.len() as int] == x);
    }
    if s.push(a).contains(x) {
        let k = choose|k: int| 0 <= k < s.push(a).len() && s.push(a)[k] == x;
        if k < s.len() {
            assert(s[k] == x);
        }
    }
}

/// The position of the first profile named `name`, if any.
pub open spec fn profile_index(ps: Seq<Profile>, name: Seq<char>) -> Option<int>
    decreases ps.len(),
{
    if ps.len() == 0 {
        None
    } else {
        match profile_index(ps.drop_last(), name) {
            Some(i) => Some(i),
            None => if ps.last().0@ == name { Some(ps.len() - 1) } else { None },
        }
    }
}

impl Secrets {
    /// The secrets of a restic password and the profiles read from the file; where two
    /// profiles share a name the first is kept, so the names are distinct.
    pub fn from_profiles(restic_password: String, profiles: Vec<Profile>) -> (r: Secrets)
        ensures
            r.restic_password == restic_password,
            r.credentials@ == first_profiles(profiles@),
            profiles_distinct(r),
    {
        let ghost orig = profiles@;
        assert(orig.len() == profiles.len());
        let mut rest = profiles;
        let mut out: Vec<Profile> = Vec::new();
        let mut i: usize = 0;
        while rest.len() > 0
            invariant
                i + rest@.len() == orig.len(),
                orig.len() <= usize::MAX,
                rest@ == orig.skip(i as int),
                out@ == first_profiles(orig.take(i as int)),
            decreases rest.len(),
        {
            let p = rest.remove(0);
            assert(p == orig[i as int]);
            let ghost prefix = orig.take(i as int);
            assert(orig.take(i + 1).drop_last() =~= prefix);
            assert(orig.take(i + 1).last() == p);
            proof { lemma_first_profiles(prefix); }
            let mut j: usize = 0;
            let mut seen = false;
            while j < out.len()
                invariant
                    j <= out@.len(),
                    seen <==> names_of(out@).take(j as int).contains(p.0@),
                decreases out.len() - j,
            {
                assert(names_of(out@)[j as int] == out@[j as int].0@);
                assert(names_of(out@).take(j + 1) =~= names_of(out@).take(j as int).push(out@[j as int].0@));
                proof { lemma_contains_push(names_of(out@).take(j as int), out@[j as int].0@, p.0@); }
                if str_eq(out[j].0.as_str(), p.0.as_str()) {
                    seen = true;
                }
                j = j + 1;
            }
            assert(names_of(out@).take(out@.len() as int) =~= names_of(out@));
            if !seen {
                out.push(p);
            }
            assert(rest@ =~= orig.skip(i + 1));
            i = i + 1;
        }
        assert(orig.take(orig.len() as int) =~= orig);
        proof { lemma_first_profiles(orig); }
        let r = Secrets { restic_password, credentials: out };
        assert(profile_names(r) =~= names_of(out@));
        r
    }

    /// The variables of the profile named `name`, if there is one.
    pub fn profile(&self, name: &str) -> (r: Option<&Vec<(String, String)>>)
        ensures
            match profile_index(self.credentials@, name@) {
                Some(i) => r matches Some(v) && *v == self.credentials@[i].1,
                None => r is None,
            },
    {
        let mut i: usize = 0;
        while i < self.credentials.len()
            invariant
                i <= self.credentials@.len(),
                profile_index(self.credentials@.take(i as int), name@) is None,
            decreases self.credentials.len() - i,
        {
            assert(self.credentials@.take(i + 1).drop_last() =~= self.credentials@.take(i as int));
            if str_eq(self.credentials[i].0.as_str(), name) {
                proof { lemma_profile_index_prefix(self.credentials@, i as int + 1, name@); }
                return Some(&self.credentials[i].1);
            }
            i = i + 1;
        }
        assert(self.credentials@.take(i as int) =~= self.credentials@);
        None
    }
}

/// A profile found within a prefix is the one found in the whole list.
pub proof fn lemma_profile_index_prefix(ps: Seq<Profile>, n: int, name: Seq<char>)
    requires
        0 <= n <= ps.len(),
        profile_index(ps.take(n), name) is Some,
    ensures
        profile_index(ps, name) == profile_index(ps.take(n), name),
    decreases ps.len() - n,
{
    if n < ps.len() {
        assert(ps.take(n + 1).drop_last() =~= ps.take(n));
        lemma_profile_index_prefix(ps, n + 1, name);
    } else {
        assert(ps.take(n) =~= ps);
    }
}

/// `rel` appended to the path `base`, with a `/` between them unless `base` is empty
/// or ends with one (`rel` is relative).
pub open spec fn path_join(base: Seq<char>, rel: Seq<char>) -> Seq<char> {
    if base.len() == 0 {
        rel
    } else if base.last() == '/' {
        base + rel
    } else {
        base + "/"@ + rel
    }
}

/// Appends the relative path `rel` to `base`.
pub fn join_path(base: &str, rel: &str) -> (r: String)
    ensures
        r@ == path_join(base@, rel@),
{
    let n = base.unicode_len();
    if n == 0 {
        String::from_str(rel)
    } else if base.get_char(n - 1) == '/' {
        cat(base, rel)
    } else {
        cat3(base, "/", rel)
    }
}

/// The directory of user configuration: `$XDG_CONFIG_HOME` where set, else
/// `$HOME/.config`.
pub open spec fn config_home(xdg: Option<Seq<char>>, home: Seq<char>) -> Seq<char> {
    match xdg {
        Some(x) => x,
        None => path_join(home, ".config"@),
    }
}

/// The directory of user configuration, from the values of `XDG_CONFIG_HOME` and `HOME`.
pub fn xdg_config_home(xdg: Option<&str>, home: &str) -> (r: String)
    ensures
        r@ == config_home(match xdg { Some(x) => Some(x@), None => None }, home@),
{
    match xdg {
        Some(x) => String::from_str(x),
        None => join_path(home, ".config"),
    }
}

/// The configuration file: the one given on the command line, else
/// `$VIVO_BACKUP_CONFIG`, else `vivo/backup.kdl` in the configuration directory.
pub open spec fn config_file_path(given: Option<Seq<char>>, env: Option<Seq<char>>, home: Seq<char>) -> Seq<char> {
    match given {
        Some(g) => g,
        None => match env {
            Some(e) => e,
            None => path_join(home, "vivo/backup.kdl"@),
        },
    }
}

/// The secrets file: `$VIVO_BACKUP_SECRETS`, else `vivo/secrets.yaml` in the
/// configuration directory.
pub open spec fn secrets_file_path(env: Option<Seq<char>>, home: Seq<char>) -> Seq<char> {
    match env {
        Some(e) => e,
        None => path_join(home, "vivo/secrets.yaml"@),
    }
}

/// The view of an optional string slice.
pub open spec fn opt_view(o: Option<&str>) -> Option<Seq<char>> {
    match o {
        Some(s) => Some(s@),
        None => None,
    }
}

/// The configuration file, from the path given on the command line, the value of
/// `VIVO_BACKUP_CONFIG` and the configuration directory.
pub fn config_path_from(given: Option<&str>, env: Option<&str>, home: &str) -> (r: String)
    ensures
        r@ == config_file_path(opt_view(given), opt_view(env), home@),
{
    match given {
        Some(g) => String::from_str(g),
        None => match env {
            Some(e) => String::from_str(e),
            None => join_path(home, "vivo/backup.kdl"),
        },
    }
}

/// The secrets file, from the value of `VIVO_BACKUP_SECRETS` and the configuration
/// directory.
pub fn secrets_path_from(env: Option<&str>, home: &str) -> (r: String)
    ensures
        r@ == secrets_file_path(opt_view(env), home@),
{
    match env {
        Some(e) => String::from_str(e),
        None => join_path(home, "vivo/secrets.yaml"),
    }
}

impl VivoConfig {
    /// The configuration file of this run; `env` is the value of `VIVO_BACKUP_CONFIG`
    /// and `home` the configuration directory.
    pub fn get_config_path(&self, env: Option<&str>, home: &str) -> (r: String)
        ensures
            r@ == config_file_path(match self.config_file { Some(f) => Some(f@), None => None }, opt_view(env), home@),
    {
        match &self.config_file {
            Some(f) => config_path_from(Some(f.as_str()), env, home),
            None => config_path_from(None, env, home),
        }
    }

    /// The secrets file of this run; `env` is the value of `VIVO_BACKUP_SECRETS` and
    /// `home` the configuration directory.
    pub fn get_secrets_path(&self, env: Option<&str>, home: &str) -> (r: String)
        ensures
            r@ == secrets_file_path(opt_view(env), home@),
    {
        secrets_path_from(env, home)
    }
}

/// Why the configuration and secrets of a run could not be loaded.
pub enum LoadConfigError {
    ConfigMissing { path: String },
    SecretsMissing { path: String },
    SecretsUndecryptable { path: String, detail: String },
    Other(String),
}

/// The message of a load error.
pub open spec fn load_error_text(e: LoadConfigError) -> Seq<char> {
    match e {
        LoadConfigError::ConfigMissing { path } => "could not read config '"@ + path@
            + "': No such file or directory"@,
        LoadConfigError::SecretsMissing { path } => "could not read secrets '"@ + path@
            + "': No such file or directory"@,
        LoadConfigError::SecretsUndecryptable { path, detail } =>
            "secrets file could not be decrypted \u{2014} run `vivo secrets edit` to fix\n  path: "@ + path@
                + "\n  "@ + detail@,
        LoadConfigError::Other(m) => m@,
    }
}

impl LoadConfigError {
    /// The message of the error.
    pub fn message(&self) -> (r: String)
        ensures
            r@ == load_error_text(*self),
    {
        match self {
            LoadConfigError::ConfigMissing { path } => cat3("could not read config '", path.as_str(),
                "': No such file or directory"),
            LoadConfigError::SecretsMissing { path } => cat3("could not read secrets '", path.as_str(),
                "': No such file or directory"),
            LoadConfigError::SecretsUndecryptable { path, detail } => {
                let mut r = cat3("secrets file could not be decrypted \u{2014} run `vivo secrets edit` to fix\n  path: ",
                    path.as_str(), "\n  ");
                r.append(detail.as_str());
                r
            },
            LoadConfigError::Other(m) => m.clone(),
        }
    }
}


/// The starter configuration that `vivo config init` writes: one task `backup` of the
/// home directory into a local repository, with the default excludes file and the
/// default retention, and commented examples of remotes.
pub open spec fn config_template_text() -> Seq<char> {
    "default-task \"backup\"\n\ntasks {\n    task \"backup\" {\n        description \"Main backup task\"\n        backup {\n            repo \"$HOME/.local/share/restic/main\"\n            directory \"$HOME\"\n            exclude-file \"$HOME/.config/vivo/excludes\"\n            retention {\n                daily 7\n                weekly 5\n                monthly 12\n                yearly 2\n            }\n            // Add remotes here, e.g.:\n            // remote \"rustfs:http://your-nas:9000/backup\" {\n            //     credentials \"rustfs\"\n            // }\n            // remote \"s3:https://s3.amazonaws.com/my-bucket\" {\n            //     credentials \"aws\"\n            // }\n            // remote \"b2:my-bucket:restic/main\" {\n            //     credentials \"b2\"\n            // }\n        }\n    }\n}\n"@
}

/// The starter configuration that `vivo config init` writes.
pub fn config_template() -> (r: String)
    ensures
        r@ == config_template_text(),
{
    String::from_str("default-task \"backup\"\n\ntasks {\n    task \"backup\" {\n        description \"Main backup task\"\n        backup {\n            repo \"$HOME/.local/share/restic/main\"\n            directory \"$HOME\"\n            exclude-file \"$HOME/.config/vivo/excludes\"\n            retention {\n                daily 7\n                weekly 5\n                monthly 12\n                yearly 2\n            }\n            // Add remotes here, e.g.:\n            // remote \"rustfs:http://your-nas:9000/backup\" {\n            //     credentials \"rustfs\"\n            // }\n            // remote \"s3:https://s3.amazonaws.com/my-bucket\" {\n            //     credentials \"aws\"\n            // }\n            // remote \"b2:my-bucket:restic/main\" {\n            //     credentials \"b2\"\n            // }\n        }\n    }\n}\n")
}

} // verus!
