//! Edits to the backup configuration text: tasks, remotes, calls and the
//! default task. Each edit parses the text, changes the document and prints it.
use vstd::prelude::*;
use kdl::{KdlDocument, KdlNode};
use crate::kdl_doc::{node_name, KNode, KValue, new_node_look, kdl_document, kdl_format, kdl_node, kdl_parsed, kdl_text, nodes_view,
    document_text, error_message, parse_document, put_nodes, take_children, take_nodes, new_node, push_entry, set_entry, entry_string, set_children};
use crate::kdl_tree::{arg_of, block_format, count_named, find_node, first_arg_from, kids, matches_node, nth_from,
    opt_int, opt_str, opt_string, set_first_arg, str_entry_view, str_node_view, int_entry_view, node_with,
    update_child, upsert_or_remove, upsert_or_remove_int, with_kids, without,
    close_block, count_named_exec, find_in, first_arg, first_arg_index, lemma_push, lemma_reinsert, nth_named,
    open_block, retain_not, set_first_arg_exec, str_entry, str_node, int_node, update_child_exec,
    upsert_or_remove_exec, upsert_or_remove_int_exec};
use crate::text::{cat, cat3, cat5, decimal, decimal_u64, is_prefix, str_eq, contains, contains_seq};

verus! {

/// A new task: its name, and, for a backup task, its repository, directory and exclude file.
pub struct TaskSpec {
    pub name: String,
    pub repo: Option<String>,
    pub directory: Option<String>,
    pub exclude_file: Option<String>,
}

/// A remote of a task's backup block.
pub struct RemoteSpec {
    pub url: String,
    pub credentials: String,
    pub mc_max_workers: Option<u32>,
    pub mc_limit_upload: Option<String>,
}

/// The new fields of an existing task.
pub struct EditTaskSpec {
    pub name: String,
    pub description: Option<String>,
    pub repo: Option<String>,
    pub directory: Option<String>,
    pub exclude_file: Option<String>,
    pub files_from: Option<String>,
}

/// What an edit gives for a text: an error where the text does not parse (its message
/// starts with "KDL parse error: "), otherwise the outcome of the edit on the parsed nodes:
/// its message, or the printed text of a document holding the edited nodes with the
/// parsed document's leading and trailing text. The nodes' model holds how each is
/// written, so the nodes an edit keeps keep their comments and formatting.
pub open spec fn edited(
    kdl: Seq<char>,
    r: Result<String, String>,
    outcome: spec_fn(Seq<KNode>) -> Result<Seq<KNode>, Seq<char>>,
) -> bool {
    match kdl_parsed(kdl) {
        None => r matches Err(m) && is_prefix("KDL parse error: "@, m@),
        Some((top, format)) => match outcome(top) {
            Ok(v) => r matches Ok(s) && exists|d: KdlDocument| kdl_document(d) == v && kdl_format(d) == format
                && s@ == kdl_text(d),
            Err(m) => r matches Err(e) && e@ == m,
        },
    }
}

pub open spec fn msg_missing_tasks() -> Seq<char> {
    "config missing 'tasks' block"@
}

pub open spec fn msg_task_exists(name: Seq<char>) -> Seq<char> {
    "task '"@ + name + "' already exists"@
}

pub open spec fn msg_task_not_found(name: Seq<char>) -> Seq<char> {
    "task '"@ + name + "' not found"@
}

pub open spec fn msg_no_backup_hint(task: Seq<char>) -> Seq<char> {
    "task '"@ + task + "' has no backup block — add one with `vivo config edit`"@
}

pub open spec fn msg_call_not_found(i: nat) -> Seq<char> {
    "call at index "@ + decimal(i) + " not found"@
}

/// The optional node `name "v"`.
pub open spec fn opt_node(name: Seq<char>, v: Option<Seq<char>>) -> Seq<KNode> {
    match v {
        Some(v) => seq![str_node_view(name, v)],
        None => Seq::empty(),
    }
}

/// The backup block of a new task.
pub open spec fn backup_view(repo: Seq<char>, dir: Option<Seq<char>>, excl: Option<Seq<char>>) -> KNode {
    KNode {
        name: "backup"@,
        entries: Seq::empty(),
        children: Some((seq![str_node_view("repo"@, repo)] + opt_node("directory"@, dir) + opt_node("exclude-file"@, excl), None)),
        look: new_node_look(),
    }
}

/// The node of a new task.
pub open spec fn new_task_view(
    name: Seq<char>,
    repo: Option<Seq<char>>,
    dir: Option<Seq<char>>,
    excl: Option<Seq<char>>,
) -> KNode {
    KNode {
        name: "task"@,
        entries: seq![str_entry_view(name)],
        children: match repo {
            Some(r) => Some((seq![backup_view(r, dir, excl)], None)),
            None => None,
        },
        look: new_node_look(),
    }
}

/// Adding a task: the `tasks` block must hold no task of that name; the new task goes last.
pub open spec fn add_task_outcome(
    top: Seq<KNode>,
    name: Seq<char>,
    repo: Option<Seq<char>>,
    dir: Option<Seq<char>>,
    excl: Option<Seq<char>>,
) -> Result<Seq<KNode>, Seq<char>> {
    match find_node(top, "tasks"@, None) {
        None => Err(msg_missing_tasks()),
        Some(ti) => {
            let k = kids(top[ti]);
            if find_node(k, "task"@, Some(name)) is Some {
                Err(msg_task_exists(name))
            } else {
                Ok(top.update(ti, with_kids(top[ti], k.push(new_task_view(name, repo, dir, excl)))))
            }
        },
    }
}

fn opt_as_str(o: &Option<String>) -> (r: Option<&str>)
    ensures
        opt_str(r) == opt_string(*o),
{
    match o {
        Some(s) => Some(s.as_str()),
        None => None,
    }
}

fn parse_error(e: &kdl::KdlError) -> (m: String)
    ensures
        is_prefix("KDL parse error: "@, m@),
{
    let d = error_message(e);
    let m = cat("KDL parse error: ", d.as_str());
    assert(m@.subrange(0, "KDL parse error: "@.len() as int) =~= "KDL parse error: "@);
    m
}

fn build_task(name: &str, repo: Option<&str>, dir: Option<&str>, excl: Option<&str>) -> (n: KdlNode)
    ensures
        kdl_node(n) == new_task_view(name@, opt_str(repo), opt_str(dir), opt_str(excl)),
{
    let mut task = new_node("task");
    push_entry(&mut task, str_entry(name));
    assert(kdl_node(task).entries =~= seq![str_entry_view(name@)]);
    match repo {
        Some(r) => {
            let mut backup = new_node("backup");
            let mut bc: Vec<KdlNode> = Vec::new();
            bc.push(str_node("repo", r));
            match dir {
                Some(d) => bc.push(str_node("directory", d)),
                None => {},
            }
            match excl {
                Some(x) => bc.push(str_node("exclude-file", x)),
                None => {},
            }
            assert(nodes_view(bc@) =~= seq![str_node_view("repo"@, r@)] + opt_node("directory"@, opt_str(dir))
                + opt_node("exclude-file"@, opt_str(excl)));
            let (bd, _empty) = open_block(&mut backup);
            close_block(&mut backup, bd, bc);
            let (td, mut tv) = open_block(&mut task);
            tv.push(backup);
            assert(nodes_view(tv@) =~= seq![kdl_node(backup)]);
            close_block(&mut task, td, tv);
        },
        None => {},
    }
    task
}

/// Adds a task to the `tasks` block, with a backup block where a repository is given.
pub fn add_task(kdl: &str, spec: TaskSpec) -> (r: Result<String, String>)
    ensures
        edited(kdl@, r, |top: Seq<KNode>| add_task_outcome(top, spec.name@, opt_string(spec.repo),
            opt_string(spec.directory), opt_string(spec.exclude_file))),
{
    let mut doc = match parse_document(kdl) {
        Ok(d) => d,
        Err(e) => return Err(parse_error(&e)),
    };
    let ghost top = kdl_document(doc);
    let mut nodes = take_nodes(&mut doc);
    let ti = match find_in(&nodes, "tasks", None) {
        Some(i) => i,
        None => return Err(String::from_str("config missing 'tasks' block")),
    };
    let ghost nodes0 = nodes@;
    let mut tasks = nodes.remove(ti);
    assert(kdl_node(tasks) == top[ti as int]);
    let (tdoc, mut kv) = open_block(&mut tasks);
    if find_in(&kv, "task", Some(spec.name.as_str())).is_some() {
        return Err(cat3("task '", spec.name.as_str(), "' already exists"));
    }
    let task = build_task(spec.name.as_str(), opt_as_str(&spec.repo), opt_as_str(&spec.directory),
        opt_as_str(&spec.exclude_file));
    let ghost kv0 = kv@;
    kv.push(task);
    proof { lemma_push(kv0, task); }
    close_block(&mut tasks, tdoc, kv);
    nodes.insert(ti, tasks);
    proof { lemma_reinsert(nodes0, ti as int, tasks); }
    put_nodes(&mut doc, nodes);
    let s = document_text(&doc);
    assert(kdl_document(doc) == add_task_outcome(top, spec.name@, opt_string(spec.repo),
        opt_string(spec.directory), opt_string(spec.exclude_file))->Ok_0);
    Ok(s)
}

/// The first argument of the first `default-task` node, or the empty text.
pub open spec fn default_task_of(top: Seq<KNode>) -> Seq<char> {
    match find_node(top, "default-task"@, None) {
        Some(i) => match arg_of(top[i]) {
            Some(a) => a,
            None => Seq::empty(),
        },
        None => Seq::empty(),
    }
}

/// Removing a task: there must be another task, it must not be the default task,
/// and it must exist; every task node of that name goes.
pub open spec fn remove_task_outcome(top: Seq<KNode>, name: Seq<char>) -> Result<Seq<KNode>, Seq<char>> {
    match find_node(top, "tasks"@, None) {
        None => Err(msg_missing_tasks()),
        Some(ti) => {
            let k = kids(top[ti]);
            if count_named(k, "task"@) <= 1 {
                Err("cannot remove the only task — add another task first"@)
            } else if default_task_of(top) == name {
                Err("cannot remove '"@ + name + "': it is the default-task — update default-task first"@)
            } else {
                let k2 = without(k, "task"@, Some(name));
                if k2.len() == k.len() {
                    Err(msg_task_not_found(name))
                } else {
                    Ok(top.update(ti, with_kids(top[ti], k2)))
                }
            }
        },
    }
}

/// The first argument of the first node named `name`, where it is a string.
fn arg_of_named(v: &Vec<KdlNode>, name: &str) -> (r: Option<String>)
    ensures
        opt_string(r) == match find_node(nodes_view(v@), name@, None) {
            Some(i) => arg_of(nodes_view(v@)[i]),
            None => None,
        },
{
    match find_in(v, name, None) {
        Some(i) => first_arg(&v[i]),
        None => None,
    }
}

proof fn lemma_without_len(s: Seq<KNode>, name: Seq<char>, arg: Option<Seq<char>>)
    ensures
        without(s, name, arg).len() <= s.len(),
    decreases s.len(),
{
    if s.len() > 0 {
        lemma_without_len(s.drop_last(), name, arg);
    }
}

/// Removes a task, unless it is the only task or the default task.
pub fn remove_task(kdl: &str, name: &str) -> (r: Result<String, String>)
    ensures
        edited(kdl@, r, |top: Seq<KNode>| remove_task_outcome(top, name@)),
{
    let mut doc = match parse_document(kdl) {
        Ok(d) => d,
        Err(e) => return Err(parse_error(&e)),
    };
    let ghost top = kdl_document(doc);
    let mut nodes = take_nodes(&mut doc);
    let default_task = match arg_of_named(&nodes, "default-task") {
        Some(a) => a,
        None => String::new(),
    };
    assert(default_task@ == default_task_of(top));
    let ti = match find_in(&nodes, "tasks", None) {
        Some(i) => i,
        None => return Err(String::from_str("config missing 'tasks' block")),
    };
    let ghost nodes0 = nodes@;
    let mut tasks = nodes.remove(ti);
    assert(kdl_node(tasks) == top[ti as int]);
    let (tdoc, kv) = open_block(&mut tasks);
    let task_count = count_named_exec(&kv, "task");
    if task_count <= 1 {
        return Err(String::from_str("cannot remove the only task — add another task first"));
    }
    if str_eq(default_task.as_str(), name) {
        return Err(cat3("cannot remove '", name, "': it is the default-task — update default-task first"));
    }
    let before = kv.len();
    let kv = retain_not(kv, "task", Some(name));
    if kv.len() == before {
        return Err(cat3("task '", name, "' not found"));
    }
    close_block(&mut tasks, tdoc, kv);
    nodes.insert(ti, tasks);
    proof { lemma_reinsert(nodes0, ti as int, tasks); }
    put_nodes(&mut doc, nodes);
    let s = document_text(&doc);
    assert(kdl_document(doc) == remove_task_outcome(top, name@)->Ok_0);
    Ok(s)
}

/// Whether the children of the first `tasks` node hold a task of this name
/// (a `tasks` node without children holds none).
pub open spec fn has_task(top: Seq<KNode>, name: Seq<char>) -> bool {
    match find_node(top, "tasks"@, None) {
        Some(ti) => match top[ti].children {
            Some((c, _)) => find_node(c, "task"@, Some(name)) is Some,
            None => false,
        },
        None => false,
    }
}

fn has_task_exec(nodes: &mut Vec<KdlNode>, name: &str) -> (b: bool)
    ensures
        b == has_task(nodes_view(old(nodes)@), name@),
        nodes_view(final(nodes)@) == nodes_view(old(nodes)@),
{
    let ghost s = nodes_view(nodes@);
    match find_in(nodes, "tasks", None) {
        Some(ti) => {
            let ghost nodes0 = nodes@;
            let mut tasks = nodes.remove(ti);
            let c = take_children(&mut tasks);
            let b = match c {
                Some(mut d) => {
                    let kv = take_nodes(&mut d);
                    let found = find_in(&kv, "task", Some(name)).is_some();
                    put_nodes(&mut d, kv);
                    set_children(&mut tasks, d);
                    found
                },
                None => false,
            };
            assert(kdl_node(tasks) == s[ti as int]);
            nodes.insert(ti, tasks);
            proof {
                lemma_reinsert(nodes0, ti as int, tasks);
                assert(nodes_view(nodes@) =~= s);
            }
            b
        },
        None => false,
    }
}

/// Renames the call `old` to `new` in one `calls` node.
pub open spec fn rename_call(ch: KNode, old: Seq<char>, new: Seq<char>) -> KNode {
    if ch.name == "calls"@ {
        match first_arg_from(ch.entries, 0) {
            Some(i) => if ch.entries[i].value == KValue::Str(old) {
                KNode { entries: ch.entries.update(i, str_entry_view(new)), ..ch }
            } else {
                ch
            },
            None => ch,
        }
    } else {
        ch
    }
}

/// Renames the calls of one task node that has children.
pub open spec fn rename_calls_in_task(t: KNode, old: Seq<char>, new: Seq<char>) -> KNode {
    if t.name == "task"@ {
        match t.children {
            Some((c, _)) => with_kids(t, c.map_values(|ch: KNode| rename_call(ch, old, new))),
            None => t,
        }
    } else {
        t
    }
}

/// Renames the calls of every task in the first `tasks` node that has children.
pub open spec fn rename_calls(top: Seq<KNode>, old: Seq<char>, new: Seq<char>) -> Seq<KNode> {
    match find_node(top, "tasks"@, None) {
        Some(ti) => match top[ti].children {
            Some((c, _)) => top.update(ti, with_kids(top[ti], c.map_values(|t: KNode| rename_calls_in_task(t, old, new)))),
            None => top,
        },
        None => top,
    }
}

/// Sets the first argument of the first `default-task` node.
pub open spec fn rename_default(top: Seq<KNode>, new: Seq<char>) -> Seq<KNode> {
    match find_node(top, "default-task"@, None) {
        Some(i) => top.update(i, set_first_arg(top[i], str_entry_view(new))),
        None => top,
    }
}

/// The new children of a backup block whose task is edited.
pub open spec fn edit_backup_kids(
    bk: Seq<KNode>,
    repo: Seq<char>,
    dir: Option<Seq<char>>,
    excl: Option<Seq<char>>,
    ff: Option<Seq<char>>,
) -> Seq<KNode> {
    upsert_or_remove(upsert_or_remove(upsert_or_remove(update_child(bk, "repo"@, str_entry_view(repo)),
        "directory"@, dir), "exclude-file"@, excl), "files-from"@, ff)
}

/// The new children of an edited task node.
pub open spec fn edit_task_kids(
    tk: Seq<KNode>,
    desc: Option<Seq<char>>,
    repo: Option<Seq<char>>,
    dir: Option<Seq<char>>,
    excl: Option<Seq<char>>,
    ff: Option<Seq<char>>,
) -> Seq<KNode> {
    let tk1 = without(tk, "description"@, None);
    let tk2 = match desc {
        Some(d) => if d.len() > 0 {
            let pos = match find_node(tk1, "backup"@, None) {
                Some(p) => p,
                None => 0,
            };
            tk1.insert(pos, str_node_view("description"@, d))
        } else {
            tk1
        },
        None => tk1,
    };
    match repo {
        Some(r) => match find_node(tk2, "backup"@, None) {
            Some(bi) => tk2.update(bi, with_kids(tk2[bi], edit_backup_kids(kids(tk2[bi]), r, dir, excl, ff))),
            None => tk2,
        },
        None => tk2,
    }
}

/// Editing a task: a new name must not be taken; the task's name, description and backup
/// fields change, and, on a rename, the default task and every call follow the new name.
pub open spec fn edit_task_outcome(
    top: Seq<KNode>,
    old: Seq<char>,
    name: Seq<char>,
    desc: Option<Seq<char>>,
    repo: Option<Seq<char>>,
    dir: Option<Seq<char>>,
    excl: Option<Seq<char>>,
    ff: Option<Seq<char>>,
) -> Result<Seq<KNode>, Seq<char>> {
    let renamed = name != old;
    if renamed && has_task(top, name) {
        Err(msg_task_exists(name))
    } else {
        let default_is_old = match find_node(top, "default-task"@, None) {
            Some(i) => arg_of(top[i]) == Some(old),
            None => false,
        };
        match find_node(top, "tasks"@, None) {
            None => Err(msg_missing_tasks()),
            Some(ti) => {
                let k = kids(top[ti]);
                match find_node(k, "task"@, Some(old)) {
                    None => Err(msg_task_not_found(old)),
                    Some(ki) => {
                        let t1 = if renamed { set_first_arg(k[ki], str_entry_view(name)) } else { k[ki] };
                        let t2 = with_kids(t1, edit_task_kids(kids(t1), desc, repo, dir, excl, ff));
                        let top1 = top.update(ti, with_kids(top[ti], k.update(ki, t2)));
                        let top2 = if renamed && default_is_old { rename_default(top1, name) } else { top1 };
                        Ok(if renamed { rename_calls(top2, old, name) } else { top2 })
                    },
                }
            },
        }
    }
}

fn edit_backup_exec(
    b: &mut KdlNode,
    repo: &str,
    dir: Option<&str>,
    excl: Option<&str>,
    ff: Option<&str>,
)
    ensures
        kdl_node(*final(b)) == with_kids(kdl_node(*old(b)), edit_backup_kids(kids(kdl_node(*old(b))), repo@,
            opt_str(dir), opt_str(excl), opt_str(ff))),
{
    let (bd, mut bv) = open_block(b);
    update_child_exec(&mut bv, "repo", str_entry(repo));
    let bv = upsert_or_remove_exec(bv, "directory", dir);
    let bv = upsert_or_remove_exec(bv, "exclude-file", excl);
    let bv = upsert_or_remove_exec(bv, "files-from", ff);
    close_block(b, bd, bv);
}

fn edit_task_kids_exec(
    tv: Vec<KdlNode>,
    desc: Option<&str>,
    repo: Option<&str>,
    dir: Option<&str>,
    excl: Option<&str>,
    ff: Option<&str>,
) -> (r: Vec<KdlNode>)
    ensures
        nodes_view(r@) == edit_task_kids(nodes_view(tv@), opt_str(desc), opt_str(repo), opt_str(dir),
            opt_str(excl), opt_str(ff)),
{
    let mut tv = retain_not(tv, "description", None);
    match desc {
        Some(d) => {
            if d.unicode_len() > 0 {
                let pos = match find_in(&tv, "backup", None) {
                    Some(p) => p,
                    None => 0,
                };
                let ghost tv0 = tv@;
                let n = str_node("description", d);
                tv.insert(pos, n);
                assert(nodes_view(tv@) =~= nodes_view(tv0).insert(pos as int, kdl_node(n)));
            }
        },
        None => {},
    }
    match repo {
        Some(r) => {
            match find_in(&tv, "backup", None) {
                Some(bi) => {
                    let ghost tv0 = tv@;
                    let mut b = tv.remove(bi);
                    edit_backup_exec(&mut b, r, dir, excl, ff);
                    tv.insert(bi, b);
                    proof { lemma_reinsert(tv0, bi as int, b); }
                },
                None => {},
            }
        },
        None => {},
    }
    tv
}

fn rename_call_exec(ch: &mut KdlNode, from: &str, to: &str)
    ensures
        kdl_node(*final(ch)) == rename_call(kdl_node(*old(ch)), from@, to@),
{
    let nm = node_name(ch);
    if str_eq(nm.as_str(), "calls") {
        match first_arg_index(ch) {
            Some(i) => {
                match entry_string(ch, i) {
                    Some(v) => {
                        if str_eq(v.as_str(), from) {
                            set_entry(ch, i, str_entry(to));
                        }
                    },
                    None => {},
                }
            },
            None => {},
        }
    }
}

fn rename_calls_in_task_exec(t: &mut KdlNode, from: &str, to: &str)
    ensures
        kdl_node(*final(t)) == rename_calls_in_task(kdl_node(*old(t)), from@, to@),
{
    let nm = node_name(t);
    if !str_eq(nm.as_str(), "task") {
        return;
    }
    match take_children(t) {
        Some(mut d) => {
            let mut v = take_nodes(&mut d);
            let ghost s0 = nodes_view(v@);
            let mut i: usize = 0;
            while i < v.len()
                invariant
                    s0.len() == v@.len(),
                    i <= v@.len(),
                    forall|j: int| 0 <= j < i ==> nodes_view(v@)[j] == rename_call(s0[j], from@, to@),
                    forall|j: int| i <= j < v@.len() ==> nodes_view(v@)[j] == s0[j],
                decreases v.len() - i,
            {
                let ghost v0 = v@;
                let mut ch = v.remove(i);
                rename_call_exec(&mut ch, from, to);
                v.insert(i, ch);
                proof {
                    lemma_reinsert(v0, i as int, ch);
                }
                i = i + 1;
            }
            assert(nodes_view(v@) =~= s0.map_values(|ch: KNode| rename_call(ch, from@, to@)));
            put_nodes(&mut d, v);
            set_children(t, d);
        },
        None => {},
    }
}

fn rename_calls_exec(nodes: &mut Vec<KdlNode>, from: &str, to: &str)
    ensures
        nodes_view(final(nodes)@) == rename_calls(nodes_view(old(nodes)@), from@, to@),
{
    let ghost s = nodes_view(nodes@);
    match find_in(nodes, "tasks", None) {
        Some(ti) => {
            let ghost nodes0 = nodes@;
            let mut tasks = nodes.remove(ti);
            assert(kdl_node(tasks) == s[ti as int]);
            match take_children(&mut tasks) {
                Some(mut d) => {
                    let mut v = take_nodes(&mut d);
                    let ghost s0 = nodes_view(v@);
                    let mut i: usize = 0;
                    while i < v.len()
                        invariant
                            s0.len() == v@.len(),
                            i <= v@.len(),
                            forall|j: int| 0 <= j < i ==> nodes_view(v@)[j] == rename_calls_in_task(s0[j], from@, to@),
                            forall|j: int| i <= j < v@.len() ==> nodes_view(v@)[j] == s0[j],
                        decreases v.len() - i,
                    {
                        let ghost v0 = v@;
                        let mut t = v.remove(i);
                        rename_calls_in_task_exec(&mut t, from, to);
                        v.insert(i, t);
                        proof {
                            lemma_reinsert(v0, i as int, t);
                        }
                        i = i + 1;
                    }
                    assert(nodes_view(v@) =~= s0.map_values(|t: KNode| rename_calls_in_task(t, from@, to@)));
                    put_nodes(&mut d, v);
                    set_children(&mut tasks, d);
                    nodes.insert(ti, tasks);
                    proof { lemma_reinsert(nodes0, ti as int, tasks); }
                },
                None => {
                    nodes.insert(ti, tasks);
                    proof {
                        lemma_reinsert(nodes0, ti as int, tasks);
                        assert(nodes_view(nodes@) =~= s);
                    }
                },
            }
        },
        None => {},
    }
}

fn rename_default_exec(nodes: &mut Vec<KdlNode>, new: &str)
    ensures
        nodes_view(final(nodes)@) == rename_default(nodes_view(old(nodes)@), new@),
{
    match find_in(nodes, "default-task", None) {
        Some(i) => {
            let ghost nodes0 = nodes@;
            let mut n = nodes.remove(i);
            set_first_arg_exec(&mut n, str_entry(new));
            nodes.insert(i, n);
            proof { lemma_reinsert(nodes0, i as int, n); }
        },
        None => {},
    }
}

/// Edits a task's name, description and backup fields. A rename also renames the
/// default task, where it named the task, and every call of the task.
pub fn edit_task(kdl: &str, old_name: &str, spec: EditTaskSpec) -> (r: Result<String, String>)
    ensures
        spec.name@.len() == 0 ==> (r matches Err(m) && m@ == "task name cannot be empty"@),
        spec.name@.len() > 0 ==> edited(kdl@, r, |top: Seq<KNode>| edit_task_outcome(top, old_name@, spec.name@,
            opt_string(spec.description), opt_string(spec.repo), opt_string(spec.directory),
            opt_string(spec.exclude_file), opt_string(spec.files_from))),
{
    if spec.name.unicode_len() == 0 {
        return Err(String::from_str("task name cannot be empty"));
    }
    let mut doc = match parse_document(kdl) {
        Ok(d) => d,
        Err(e) => return Err(parse_error(&e)),
    };
    let ghost top = kdl_document(doc);
    let mut nodes = take_nodes(&mut doc);
    let renamed = !str_eq(spec.name.as_str(), old_name);
    if renamed {
        if has_task_exec(&mut nodes, spec.name.as_str()) {
            return Err(cat3("task '", spec.name.as_str(), "' already exists"));
        }
    }
    assert(nodes_view(nodes@) == top);
    let default_is_old = match arg_of_named(&nodes, "default-task") {
        Some(a) => str_eq(a.as_str(), old_name),
        None => false,
    };
    let ti = match find_in(&nodes, "tasks", None) {
        Some(i) => i,
        None => return Err(String::from_str("config missing 'tasks' block")),
    };
    let ghost nodes0 = nodes@;
    let mut tasks = nodes.remove(ti);
    assert(kdl_node(tasks) == top[ti as int]);
    let (tdoc, mut kv) = open_block(&mut tasks);
    let ki = match find_in(&kv, "task", Some(old_name)) {
        Some(i) => i,
        None => return Err(cat3("task '", old_name, "' not found")),
    };
    let ghost kv0 = kv@;
    let mut task = kv.remove(ki);
    if renamed {
        set_first_arg_exec(&mut task, str_entry(spec.name.as_str()));
    }
    let (td, tv) = open_block(&mut task);
    let tv = edit_task_kids_exec(tv, opt_as_str(&spec.description), opt_as_str(&spec.repo),
        opt_as_str(&spec.directory), opt_as_str(&spec.exclude_file), opt_as_str(&spec.files_from));
    close_block(&mut task, td, tv);
    kv.insert(ki, task);
    proof { lemma_reinsert(kv0, ki as int, task); }
    close_block(&mut tasks, tdoc, kv);
    nodes.insert(ti, tasks);
    proof { lemma_reinsert(nodes0, ti as int, tasks); }
    if renamed && default_is_old {
        rename_default_exec(&mut nodes, spec.name.as_str());
    }
    if renamed {
        rename_calls_exec(&mut nodes, old_name, spec.name.as_str());
    }
    put_nodes(&mut doc, nodes);
    let s = document_text(&doc);
    assert(kdl_document(doc) == edit_task_outcome(top, old_name@, spec.name@,
        opt_string(spec.description), opt_string(spec.repo), opt_string(spec.directory),
        opt_string(spec.exclude_file), opt_string(spec.files_from))->Ok_0);
    Ok(s)
}

/// Where the task of this name stands: the position of the first `tasks` node, and the
/// position of the task among its children.
pub open spec fn locate_task(top: Seq<KNode>, name: Seq<char>) -> Result<(int, int), Seq<char>> {
    match find_node(top, "tasks"@, None) {
        None => Err(msg_missing_tasks()),
        Some(ti) => match find_node(kids(top[ti]), "task"@, Some(name)) {
            None => Err(msg_task_not_found(name)),
            Some(ki) => Ok((ti, ki)),
        },
    }
}

/// The nodes with the task at (`ti`, `ki`) replaced.
pub open spec fn put_task(top: Seq<KNode>, ti: int, ki: int, t: KNode) -> Seq<KNode> {
    top.update(ti, with_kids(top[ti], kids(top[ti]).update(ki, t)))
}

/// A task taken out of the document, with what is needed to put it back.
struct TaskSlot {
    nodes: Vec<KdlNode>,
    ti: usize,
    tasks: KdlNode,
    tdoc: KdlDocument,
    kv: Vec<KdlNode>,
    ki: usize,
    orig: Ghost<Seq<KdlNode>>,
    korig: Ghost<Seq<KdlNode>>,
    top: Ghost<Seq<KNode>>,
}

impl TaskSlot {
    spec fn wf(self) -> bool {
        let top = self.top@;
        &&& self.ti < self.orig@.len()
        &&& nodes_view(self.orig@) == top
        &&& self.nodes@ == self.orig@.remove(self.ti as int)
        &&& kdl_node(self.tasks) == (KNode { children: None, ..top[self.ti as int] })
        &&& kdl_format(self.tdoc) == block_format(top[self.ti as int])
        &&& self.ki < self.korig@.len()
        &&& nodes_view(self.korig@) == kids(top[self.ti as int])
        &&& self.kv@ == self.korig@.remove(self.ki as int)
    }
}

fn open_task(nodes: Vec<KdlNode>, name: &str) -> (r: Result<(TaskSlot, KdlNode), String>)
    ensures
        match locate_task(nodes_view(nodes@), name@) {
            Err(m) => r matches Err(e) && e@ == m,
            Ok((ti, ki)) => r matches Ok((slot, t)) && slot.wf() && slot.top@ == nodes_view(nodes@)
                && slot.ti == ti && slot.ki == ki && kdl_node(t) == kids(nodes_view(nodes@)[ti])[ki],
        },
{
    let ghost top = nodes_view(nodes@);
    let mut nodes = nodes;
    let ti = match find_in(&nodes, "tasks", None) {
        Some(i) => i,
        None => return Err(String::from_str("config missing 'tasks' block")),
    };
    let ghost orig = nodes@;
    let mut tasks = nodes.remove(ti);
    assert(kdl_node(tasks) == top[ti as int]);
    let (tdoc, mut kv) = open_block(&mut tasks);
    let ki = match find_in(&kv, "task", Some(name)) {
        Some(i) => i,
        None => return Err(cat3("task '", name, "' not found")),
    };
    let ghost korig = kv@;
    let t = kv.remove(ki);
    assert(kdl_node(t) == nodes_view(korig)[ki as int]);
    Ok((TaskSlot { nodes, ti, tasks, tdoc, kv, ki, orig: Ghost(orig), korig: Ghost(korig), top: Ghost(top) }, t))
}

fn close_task(slot: TaskSlot, t: KdlNode) -> (v: Vec<KdlNode>)
    requires
        slot.wf(),
    ensures
        nodes_view(v@) == put_task(slot.top@, slot.ti as int, slot.ki as int, kdl_node(t)),
{
    let TaskSlot { mut nodes, ti, mut tasks, tdoc, mut kv, ki, orig, korig, top } = slot;
    kv.insert(ki, t);
    proof { lemma_reinsert(korig@, ki as int, t); }
    close_block(&mut tasks, tdoc, kv);
    nodes.insert(ti, tasks);
    proof { lemma_reinsert(orig@, ti as int, tasks); }
    nodes
}

/// The node of a new remote.
pub open spec fn remote_view(url: Seq<char>, creds: Seq<char>, workers: Option<u32>, limit: Option<Seq<char>>) -> KNode {
    KNode {
        name: "remote"@,
        entries: seq![str_entry_view(url)],
        children: Some((seq![str_node_view("credentials"@, creds)]
            + match workers {
                Some(w) => seq![node_with("mc-max-workers"@, int_entry_view(w as int))],
                None => Seq::empty(),
            } + opt_node("mc-limit-upload"@, limit), None)),
        look: new_node_look(),
    }
}

/// Adding a remote: the task must have a backup block holding no remote of that URL;
/// the new remote goes last.
pub open spec fn add_remote_outcome(
    top: Seq<KNode>,
    task: Seq<char>,
    url: Seq<char>,
    creds: Seq<char>,
    workers: Option<u32>,
    limit: Option<Seq<char>>,
) -> Result<Seq<KNode>, Seq<char>> {
    match locate_task(top, task) {
        Err(m) => Err(m),
        Ok((ti, ki)) => {
            let t = kids(top[ti])[ki];
            let tk = kids(t);
            match find_node(tk, "backup"@, None) {
                None => Err(msg_no_backup_hint(task)),
                Some(bi) => {
                    let rk = kids(tk[bi]);
                    if find_node(rk, "remote"@, Some(url)) is Some {
                        Err("remote '"@ + url + "' already exists on task '"@ + task + "'"@)
                    } else {
                        Ok(put_task(top, ti, ki, with_kids(t, tk.update(bi, with_kids(tk[bi],
                            rk.push(remote_view(url, creds, workers, limit)))))))
                    }
                },
            }
        },
    }
}

fn build_remote(url: &str, creds: &str, workers: Option<u32>, limit: Option<&str>) -> (n: KdlNode)
    ensures
        kdl_node(n) == remote_view(url@, creds@, workers, opt_str(limit)),
{
    let mut remote = new_node("remote");
    push_entry(&mut remote, str_entry(url));
    assert(kdl_node(remote).entries =~= seq![str_entry_view(url@)]);
    let mut rc: Vec<KdlNode> = Vec::new();
    rc.push(str_node("credentials", creds));
    match workers {
        Some(w) => rc.push(int_node("mc-max-workers", w)),
        None => {},
    }
    match limit {
        Some(l) => rc.push(str_node("mc-limit-upload", l)),
        None => {},
    }
    assert(nodes_view(rc@) =~= seq![str_node_view("credentials"@, creds@)]
        + match workers {
            Some(w) => seq![node_with("mc-max-workers"@, int_entry_view(w as int))],
            None => Seq::empty(),
        } + opt_node("mc-limit-upload"@, opt_str(limit)));
    let (rd, _empty) = open_block(&mut remote);
    close_block(&mut remote, rd, rc);
    remote
}

/// Adds a remote to a task's backup block.
pub fn add_remote(kdl: &str, task_name: &str, spec: RemoteSpec) -> (r: Result<String, String>)
    ensures
        edited(kdl@, r, |top: Seq<KNode>| add_remote_outcome(top, task_name@, spec.url@, spec.credentials@,
            spec.mc_max_workers, opt_string(spec.mc_limit_upload))),
{
    let mut doc = match parse_document(kdl) {
        Ok(d) => d,
        Err(e) => return Err(parse_error(&e)),
    };
    let ghost top = kdl_document(doc);
    let nodes = take_nodes(&mut doc);
    let (slot, mut task) = match open_task(nodes, task_name) {
        Ok(p) => p,
        Err(m) => return Err(m),
    };
    let ghost t0 = kdl_node(task);
    let (td, mut tv) = open_block(&mut task);
    let bi = match find_in(&tv, "backup", None) {
        Some(i) => i,
        None => return Err(cat3("task '", task_name, "' has no backup block — add one with `vivo config edit`")),
    };
    let ghost tv0 = tv@;
    let mut backup = tv.remove(bi);
    assert(kdl_node(backup) == kids(t0)[bi as int]);
    let (bd, mut bv) = open_block(&mut backup);
    if find_in(&bv, "remote", Some(spec.url.as_str())).is_some() {
        return Err(cat5("remote '", spec.url.as_str(), "' already exists on task '", task_name, "'"));
    }
    let remote = build_remote(spec.url.as_str(), spec.credentials.as_str(), spec.mc_max_workers,
        opt_as_str(&spec.mc_limit_upload));
    let ghost bv0 = bv@;
    bv.push(remote);
    proof { lemma_push(bv0, remote); }
    close_block(&mut backup, bd, bv);
    tv.insert(bi, backup);
    proof { lemma_reinsert(tv0, bi as int, backup); }
    close_block(&mut task, td, tv);
    let nodes = close_task(slot, task);
    put_nodes(&mut doc, nodes);
    let s = document_text(&doc);
    assert(kdl_document(doc) == add_remote_outcome(top, task_name@, spec.url@, spec.credentials@,
        spec.mc_max_workers, opt_string(spec.mc_limit_upload))->Ok_0);
    Ok(s)
}

/// Editing a remote: the task's backup block must hold a remote of the old URL; its URL,
/// credentials and mc options change in place.
pub open spec fn edit_remote_outcome(
    top: Seq<KNode>,
    task: Seq<char>,
    old_url: Seq<char>,
    url: Seq<char>,
    creds: Seq<char>,
    workers: Option<u32>,
    limit: Option<Seq<char>>,
) -> Result<Seq<KNode>, Seq<char>> {
    match locate_task(top, task) {
        Err(m) => Err(m),
        Ok((ti, ki)) => {
            let t = kids(top[ti])[ki];
            let tk = kids(t);
            match find_node(tk, "backup"@, None) {
                None => Err(msg_no_backup_hint(task)),
                Some(bi) => {
                    let rk = kids(tk[bi]);
                    match find_node(rk, "remote"@, Some(old_url)) {
                        None => Err("remote '"@ + old_url + "' not found on task '"@ + task + "'"@),
                        Some(ri) => {
                            let r1 = set_first_arg(rk[ri], str_entry_view(url));
                            let r2 = with_kids(r1, upsert_or_remove(upsert_or_remove_int(
                                update_child(kids(r1), "credentials"@, str_entry_view(creds)),
                                "mc-max-workers"@, workers), "mc-limit-upload"@, limit));
                            Ok(put_task(top, ti, ki, with_kids(t, tk.update(bi, with_kids(tk[bi], rk.update(ri, r2))))))
                        },
                    }
                },
            }
        },
    }
}

/// Changes a remote of a task: its URL, credentials and mc options.
pub fn edit_remote(kdl: &str, task_name: &str, old_url: &str, spec: RemoteSpec) -> (r: Result<String, String>)
    ensures
        spec.url@.len() == 0 ==> (r matches Err(m) && m@ == "remote URL cannot be empty"@),
        spec.url@.len() > 0 ==> edited(kdl@, r, |top: Seq<KNode>| edit_remote_outcome(top, task_name@, old_url@,
            spec.url@, spec.credentials@, spec.mc_max_workers, opt_string(spec.mc_limit_upload))),
{
    if spec.url.unicode_len() == 0 {
        return Err(String::from_str("remote URL cannot be empty"));
    }
    let mut doc = match parse_document(kdl) {
        Ok(d) => d,
        Err(e) => return Err(parse_error(&e)),
    };
    let ghost top = kdl_document(doc);
    let nodes = take_nodes(&mut doc);
    let (slot, mut task) = match open_task(nodes, task_name) {
        Ok(p) => p,
        Err(m) => return Err(m),
    };
    let ghost t0 = kdl_node(task);
    let (td, mut tv) = open_block(&mut task);
    let bi = match find_in(&tv, "backup", None) {
        Some(i) => i,
        None => return Err(cat3("task '", task_name, "' has no backup block — add one with `vivo config edit`")),
    };
    let ghost tv0 = tv@;
    let mut backup = tv.remove(bi);
    assert(kdl_node(backup) == kids(t0)[bi as int]);
    let ghost b0 = kdl_node(backup);
    let (bd, mut bv) = open_block(&mut backup);
    let ri = match find_in(&bv, "remote", Some(old_url)) {
        Some(i) => i,
        None => return Err(cat5("remote '", old_url, "' not found on task '", task_name, "'")),
    };
    let ghost bv0 = bv@;
    let mut remote = bv.remove(ri);
    assert(kdl_node(remote) == kids(b0)[ri as int]);
    set_first_arg_exec(&mut remote, str_entry(spec.url.as_str()));
    let (rd, mut rv) = open_block(&mut remote);
    update_child_exec(&mut rv, "credentials", str_entry(spec.credentials.as_str()));
    let rv = upsert_or_remove_int_exec(rv, "mc-max-workers", spec.mc_max_workers);
    let rv = upsert_or_remove_exec(rv, "mc-limit-upload", opt_as_str(&spec.mc_limit_upload));
    close_block(&mut remote, rd, rv);
    bv.insert(ri, remote);
    proof { lemma_reinsert(bv0, ri as int, remote); }
    close_block(&mut backup, bd, bv);
    tv.insert(bi, backup);
    proof { lemma_reinsert(tv0, bi as int, backup); }
    close_block(&mut task, td, tv);
    let nodes = close_task(slot, task);
    put_nodes(&mut doc, nodes);
    let s = document_text(&doc);
    assert(kdl_document(doc) == edit_remote_outcome(top, task_name@, old_url@, spec.url@, spec.credentials@,
        spec.mc_max_workers, opt_string(spec.mc_limit_upload))->Ok_0);
    Ok(s)
}

/// Removing a remote: every remote of that URL goes from the task's backup block;
/// there must be one.
pub open spec fn remove_remote_outcome(top: Seq<KNode>, task: Seq<char>, url: Seq<char>) -> Result<Seq<KNode>, Seq<char>> {
    match locate_task(top, task) {
        Err(m) => Err(m),
        Ok((ti, ki)) => {
            let t = kids(top[ti])[ki];
            let tk = kids(t);
            match find_node(tk, "backup"@, None) {
                None => Err("task '"@ + task + "' has no backup block"@),
                Some(bi) => {
                    let rk = kids(tk[bi]);
                    let rk2 = without(rk, "remote"@, Some(url));
                    if rk2.len() == rk.len() {
                        Err("remote '"@ + url + "' not found on task '"@ + task + "'"@)
                    } else {
                        Ok(put_task(top, ti, ki, with_kids(t, tk.update(bi, with_kids(tk[bi], rk2)))))
                    }
                },
            }
        },
    }
}

/// Removes a remote from a task's backup block.
pub fn remove_remote(kdl: &str, task_name: &str, url: &str) -> (r: Result<String, String>)
    ensures
        edited(kdl@, r, |top: Seq<KNode>| remove_remote_outcome(top, task_name@, url@)),
{
    let mut doc = match parse_document(kdl) {
        Ok(d) => d,
        Err(e) => return Err(parse_error(&e)),
    };
    let ghost top = kdl_document(doc);
    let nodes = take_nodes(&mut doc);
    let (slot, mut task) = match open_task(nodes, task_name) {
        Ok(p) => p,
        Err(m) => return Err(m),
    };
    let ghost t0 = kdl_node(task);
    let (td, mut tv) = open_block(&mut task);
    let bi = match find_in(&tv, "backup", None) {
        Some(i) => i,
        None => return Err(cat3("task '", task_name, "' has no backup block")),
    };
    let ghost tv0 = tv@;
    let mut backup = tv.remove(bi);
    assert(kdl_node(backup) == kids(t0)[bi as int]);
    let (bd, bv) = open_block(&mut backup);
    let before = bv.len();
    let bv = retain_not(bv, "remote", Some(url));
    if bv.len() == before {
        return Err(cat5("remote '", url, "' not found on task '", task_name, "'"));
    }
    close_block(&mut backup, bd, bv);
    tv.insert(bi, backup);
    proof { lemma_reinsert(tv0, bi as int, backup); }
    close_block(&mut task, td, tv);
    let nodes = close_task(slot, task);
    put_nodes(&mut doc, nodes);
    let s = document_text(&doc);
    assert(kdl_document(doc) == remove_remote_outcome(top, task_name@, url@)->Ok_0);
    Ok(s)
}

/// Adding a call: the task must not call that task yet; the call goes last.
pub open spec fn add_call_outcome(top: Seq<KNode>, task: Seq<char>, call: Seq<char>) -> Result<Seq<KNode>, Seq<char>> {
    match locate_task(top, task) {
        Err(m) => Err(m),
        Ok((ti, ki)) => {
            let t = kids(top[ti])[ki];
            let tk = kids(t);
            if find_node(tk, "calls"@, Some(call)) is Some {
                Err("task '"@ + task + "' already calls '"@ + call + "'"@)
            } else {
                Ok(put_task(top, ti, ki, with_kids(t, tk.push(str_node_view("calls"@, call)))))
            }
        },
    }
}

/// Adds a call to another task at the end of a task.
pub fn add_call(kdl: &str, task_name: &str, call_name: &str) -> (r: Result<String, String>)
    ensures
        edited(kdl@, r, |top: Seq<KNode>| add_call_outcome(top, task_name@, call_name@)),
{
    let mut doc = match parse_document(kdl) {
        Ok(d) => d,
        Err(e) => return Err(parse_error(&e)),
    };
    let ghost top = kdl_document(doc);
    let nodes = take_nodes(&mut doc);
    let (slot, mut task) = match open_task(nodes, task_name) {
        Ok(p) => p,
        Err(m) => return Err(m),
    };
    let (td, mut tv) = open_block(&mut task);
    if find_in(&tv, "calls", Some(call_name)).is_some() {
        return Err(cat5("task '", task_name, "' already calls '", call_name, "'"));
    }
    let n = str_node("calls", call_name);
    let ghost tv0 = tv@;
    tv.push(n);
    proof { lemma_push(tv0, n); }
    close_block(&mut task, td, tv);
    let nodes = close_task(slot, task);
    put_nodes(&mut doc, nodes);
    let s = document_text(&doc);
    assert(kdl_document(doc) == add_call_outcome(top, task_name@, call_name@)->Ok_0);
    Ok(s)
}

/// Removing a call: the `index`-th call node of the task goes.
pub open spec fn remove_call_outcome(top: Seq<KNode>, task: Seq<char>, index: nat) -> Result<Seq<KNode>, Seq<char>> {
    match locate_task(top, task) {
        Err(m) => Err(m),
        Ok((ti, ki)) => {
            let t = kids(top[ti])[ki];
            let tk = kids(t);
            match nth_from(tk, "calls"@, index as int, 0) {
                None => Err(msg_call_not_found(index)),
                Some(p) => Ok(put_task(top, ti, ki, with_kids(t, tk.remove(p)))),
            }
        },
    }
}

fn call_not_found(index: usize) -> (m: String)
    ensures
        m@ == msg_call_not_found(index as nat),
{
    let d = decimal_u64(index as u64);
    cat3("call at index ", d.as_str(), " not found")
}

/// Removes the `index`-th call (from 0) of a task.
pub fn remove_call(kdl: &str, task_name: &str, index: usize) -> (r: Result<String, String>)
    ensures
        edited(kdl@, r, |top: Seq<KNode>| remove_call_outcome(top, task_name@, index as nat)),
{
    let mut doc = match parse_document(kdl) {
        Ok(d) => d,
        Err(e) => return Err(parse_error(&e)),
    };
    let ghost top = kdl_document(doc);
    let nodes = take_nodes(&mut doc);
    let (slot, mut task) = match open_task(nodes, task_name) {
        Ok(p) => p,
        Err(m) => return Err(m),
    };
    let (td, mut tv) = open_block(&mut task);
    let p = match nth_named(&tv, "calls", index) {
        Some(p) => p,
        None => return Err(call_not_found(index)),
    };
    let ghost tv0 = tv@;
    let _removed = tv.remove(p);
    assert(nodes_view(tv@) =~= nodes_view(tv0).remove(p as int));
    close_block(&mut task, td, tv);
    let nodes = close_task(slot, task);
    put_nodes(&mut doc, nodes);
    let s = document_text(&doc);
    assert(kdl_document(doc) == remove_call_outcome(top, task_name@, index as nat)->Ok_0);
    Ok(s)
}

/// Swapping two calls: the `a`-th and `b`-th call nodes of the task trade places.
pub open spec fn swap_calls_outcome(top: Seq<KNode>, task: Seq<char>, a: nat, b: nat) -> Result<Seq<KNode>, Seq<char>> {
    match locate_task(top, task) {
        Err(m) => Err(m),
        Ok((ti, ki)) => {
            let t = kids(top[ti])[ki];
            let tk = kids(t);
            match nth_from(tk, "calls"@, a as int, 0) {
                None => Err(msg_call_not_found(a)),
                Some(pa) => match nth_from(tk, "calls"@, b as int, 0) {
                    None => Err(msg_call_not_found(b)),
                    Some(pb) => Ok(put_task(top, ti, ki, with_kids(t, tk.update(pa, tk[pb]).update(pb, tk[pa])))),
                },
            }
        },
    }
}

fn swap_in(v: &mut Vec<KdlNode>, a: usize, b: usize)
    requires
        a < old(v)@.len(),
        b < old(v)@.len(),
    ensures
        nodes_view(final(v)@) == nodes_view(old(v)@).update(a as int, nodes_view(old(v)@)[b as int]).update(
            b as int, nodes_view(old(v)@)[a as int]),
{
    if a == b {
        assert(nodes_view(v@) =~= nodes_view(v@).update(a as int, nodes_view(v@)[b as int]).update(
            b as int, nodes_view(v@)[a as int]));
        return;
    }
    let ghost s = nodes_view(v@);
    let (lo, hi) = if a < b { (a, b) } else { (b, a) };
    let ghost v0 = v@;
    let y = v.remove(hi);
    let x = v.remove(lo);
    v.insert(lo, y);
    v.insert(hi, x);
    assert(kdl_node(y) == s[hi as int]);
    assert(kdl_node(x) == s[lo as int]);
    assert(nodes_view(v@) =~= s.update(a as int, s[b as int]).update(b as int, s[a as int]));
}

fn swap_calls(kdl: &str, task_name: &str, a: usize, b: usize) -> (r: Result<String, String>)
    ensures
        edited(kdl@, r, |top: Seq<KNode>| swap_calls_outcome(top, task_name@, a as nat, b as nat)),
{
    let mut doc = match parse_document(kdl) {
        Ok(d) => d,
        Err(e) => return Err(parse_error(&e)),
    };
    let ghost top = kdl_document(doc);
    let nodes = take_nodes(&mut doc);
    let (slot, mut task) = match open_task(nodes, task_name) {
        Ok(p) => p,
        Err(m) => return Err(m),
    };
    let (td, mut tv) = open_block(&mut task);
    let pa = match nth_named(&tv, "calls", a) {
        Some(p) => p,
        None => return Err(call_not_found(a)),
    };
    let pb = match nth_named(&tv, "calls", b) {
        Some(p) => p,
        None => return Err(call_not_found(b)),
    };
    swap_in(&mut tv, pa, pb);
    close_block(&mut task, td, tv);
    let nodes = close_task(slot, task);
    put_nodes(&mut doc, nodes);
    let s = document_text(&doc);
    assert(kdl_document(doc) == swap_calls_outcome(top, task_name@, a as nat, b as nat)->Ok_0);
    Ok(s)
}

/// Moves the `index`-th call of a task one place up; the first call stays where it is
/// and the text comes back unchanged.
pub fn move_call_up(kdl: &str, task_name: &str, index: usize) -> (r: Result<String, String>)
    ensures
        index == 0 ==> (r matches Ok(s) && s@ == kdl@),
        index > 0 ==> edited(kdl@, r, |top: Seq<KNode>| swap_calls_outcome(top, task_name@, (index - 1) as nat, index as nat)),
{
    if index == 0 {
        return Ok(String::from_str(kdl));
    }
    swap_calls(kdl, task_name, index - 1, index)
}

/// Whether a message reports a call index that is not there.
pub open spec fn is_missing_call_message(m: Seq<char>) -> bool {
    contains_seq(m, "call at index"@) && contains_seq(m, "not found"@)
}

/// Moves the `index`-th call of a task one place down; where there is no call after
/// it (or none at that index), the text comes back unchanged.
pub fn move_call_down(kdl: &str, task_name: &str, index: usize) -> (r: Result<String, String>)
    requires
        index < usize::MAX,
    ensures
        match kdl_parsed(kdl@) {
            None => (r matches Err(m) && is_prefix("KDL parse error: "@, m@)) || (r matches Ok(s) && s@ == kdl@),
            Some((top, format)) => match swap_calls_outcome(top, task_name@, index as nat, (index + 1) as nat) {
                Ok(v) => r matches Ok(s) && exists|d: KdlDocument| kdl_document(d) == v && kdl_format(d) == format
                    && s@ == kdl_text(d),
                Err(m) => if is_missing_call_message(m) {
                    r matches Ok(s) && s@ == kdl@
                } else {
                    r matches Err(e) && e@ == m
                },
            },
        },
{
    match swap_calls(kdl, task_name, index, index + 1) {
        Ok(s) => Ok(s),
        Err(e) => {
            if contains(e.as_str(), "call at index") && contains(e.as_str(), "not found") {
                Ok(String::from_str(kdl))
            } else {
                Err(e)
            }
        },
    }
}

/// Setting the default task: the task must exist, and the first `default-task` node
/// must have an argument, which becomes the task's name.
pub open spec fn set_default_task_outcome(top: Seq<KNode>, name: Seq<char>) -> Result<Seq<KNode>, Seq<char>> {
    if !has_task(top, name) {
        Err(msg_task_not_found(name))
    } else {
        match find_node(top, "default-task"@, None) {
            None => Err("config missing 'default-task' node"@),
            Some(i) => match first_arg_from(top[i].entries, 0) {
                None => Err("'default-task' node has no value"@),
                Some(_) => Ok(top.update(i, set_first_arg(top[i], str_entry_view(name)))),
            },
        }
    }
}

/// Makes the named task the default task.
pub fn set_default_task(kdl: &str, name: &str) -> (r: Result<String, String>)
    ensures
        edited(kdl@, r, |top: Seq<KNode>| set_default_task_outcome(top, name@)),
{
    let mut doc = match parse_document(kdl) {
        Ok(d) => d,
        Err(e) => return Err(parse_error(&e)),
    };
    let ghost top = kdl_document(doc);
    let mut nodes = take_nodes(&mut doc);
    if !has_task_exec(&mut nodes, name) {
        return Err(cat3("task '", name, "' not found"));
    }
    let i = match find_in(&nodes, "default-task", None) {
        Some(i) => i,
        None => return Err(String::from_str("config missing 'default-task' node")),
    };
    let ghost nodes0 = nodes@;
    let mut n = nodes.remove(i);
    assert(kdl_node(n) == top[i as int]);
    match first_arg_index(&n) {
        None => return Err(String::from_str("'default-task' node has no value")),
        Some(_) => {},
    }
    set_first_arg_exec(&mut n, str_entry(name));
    nodes.insert(i, n);
    proof { lemma_reinsert(nodes0, i as int, n); }
    put_nodes(&mut doc, nodes);
    let s = document_text(&doc);
    assert(kdl_document(doc) == set_default_task_outcome(top, name@)->Ok_0);
    Ok(s)
}

/// The edits of a first setup, one after the other: `t1` what adding the task gave,
/// `t2` what adding the remote gave (the text unchanged where there is none), `r` the
/// outcome, which is the first error or what making the task the default gave.
pub open spec fn first_task_steps(kdl: Seq<char>, name: Seq<char>, repo: Seq<char>, directory: Seq<char>,
    exclude_file: Seq<char>, remote: Option<(Seq<char>, Seq<char>)>, t1: Result<String, String>,
    t2: Result<String, String>, r: Result<String, String>) -> bool {
    &&& edited(kdl, t1, |top: Seq<KNode>| add_task_outcome(top, name, Some(repo), Some(directory),
        Some(exclude_file)))
    &&& match t1 {
        Err(e) => r matches Err(x) && x@ == e@,
        Ok(k1) => (match remote {
            Some((u, c)) => edited(k1@, t2, |top: Seq<KNode>| add_remote_outcome(top, name, u, c, None, None)),
            None => t2 matches Ok(k) && k@ == k1@,
        }) && match t2 {
            Err(e) => r matches Err(x) && x@ == e@,
            Ok(k2) => edited(k2@, r, |top: Seq<KNode>| set_default_task_outcome(top, name)),
        },
    }
}

/// The texts of an optional pair of string slices.
pub open spec fn opt_pair(p: Option<(&str, &str)>) -> Option<(Seq<char>, Seq<char>)> {
    match p {
        Some((a, b)) => Some((a@, b@)),
        None => None,
    }
}

/// The configuration of a first setup: the task added with its repository, directory
/// and exclude file, the remote (url and credentials profile) added to it where one is
/// given, and the task made the default; each edit applies to the text the one before
/// gave, and the first error ends the setup.
pub fn first_task_config(kdl: &str, name: &str, repo: &str, directory: &str, exclude_file: &str,
    remote: Option<(&str, &str)>) -> (r: Result<String, String>)
    ensures
        exists|t1: Result<String, String>, t2: Result<String, String>| #[trigger] first_task_steps(kdl@, name@, repo@,
            directory@, exclude_file@, opt_pair(remote), t1, t2, r),
{
    let ghost rv = opt_pair(remote);
    let t1 = add_task(kdl, TaskSpec {
        name: String::from_str(name),
        repo: Some(String::from_str(repo)),
        directory: Some(String::from_str(directory)),
        exclude_file: Some(String::from_str(exclude_file)),
    });
    let k1 = match &t1 {
        Ok(k) => k.clone(),
        Err(e) => {
            let r: Result<String, String> = Err(e.clone());
            assert(first_task_steps(kdl@, name@, repo@, directory@, exclude_file@, rv, t1, t1, r));
            return r;
        },
    };
    let t2 = match remote {
        Some((u, c)) => add_remote(k1.as_str(), name, RemoteSpec {
            url: String::from_str(u),
            credentials: String::from_str(c),
            mc_max_workers: None,
            mc_limit_upload: None,
        }),
        None => Ok(k1.clone()),
    };
    let k2 = match &t2 {
        Ok(k) => k.clone(),
        Err(e) => {
            let r: Result<String, String> = Err(e.clone());
            assert(first_task_steps(kdl@, name@, repo@, directory@, exclude_file@, rv, t1, t2, r));
            return r;
        },
    };
    let r = set_default_task(k2.as_str(), name);
    assert(first_task_steps(kdl@, name@, repo@, directory@, exclude_file@, rv, t1, t2, r));
    r
}

} // verus!
