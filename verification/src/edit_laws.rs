//! What the configuration edits promise across calls: a moved call moves back, the
//! default task set twice is set once, what is added and removed again leaves the
//! nodes as they were, an added task can be found, and an edited task keeps its
//! place as the default task and is found under its new name.
use vstd::prelude::*;
use crate::config_editor::{default_task_of, edit_task_outcome, rename_calls, rename_default, remove_task_outcome, add_call_outcome, add_remote_outcome, remove_remote_outcome, remote_view, add_task_outcome, has_task, locate_task, new_task_view, put_task,
    remove_call_outcome, set_default_task_outcome, swap_calls_outcome};
use crate::kdl_doc::{KEntry, KNode, KValue};
use crate::kdl_tree::{arg_of, count_named, without, find_from, find_node, first_arg_from, kids, matches_node, nth_from,
    set_first_arg, set_or_push_arg, str_entry_view, str_node_view, node_with, update_child, upsert_or_remove, with_kids};
use crate::config_editor::{edit_backup_kids, edit_task_kids, rename_call, rename_calls_in_task};

verus! {

/// Replacing a node by one that matches the same searches leaves every search as it was.
pub proof fn lemma_find_from_update(s: Seq<KNode>, j: int, y: KNode, name: Seq<char>, arg: Option<Seq<char>>, i: int)
    requires
        0 <= j < s.len(),
        matches_node(y, name, arg) == matches_node(s[j], name, arg),
    ensures
        find_from(s.update(j, y), name, arg, i) == find_from(s, name, arg, i),
    decreases s.len() - i,
{
    if 0 <= i < s.len() {
        lemma_find_from_update(s, j, y, name, arg, i + 1);
        assert(s.update(j, y)[i] == if i == j { y } else { s[i] });
    }
}

/// Replacing a node by one of the same name leaves the positions of named nodes as
/// they were.
pub proof fn lemma_nth_from_update(s: Seq<KNode>, j: int, y: KNode, name: Seq<char>, k: int, i: int)
    requires
        0 <= j < s.len(),
        y.name == s[j].name,
    ensures
        nth_from(s.update(j, y), name, k, i) == nth_from(s, name, k, i),
    decreases s.len() - i,
{
    if 0 <= i < s.len() {
        assert(s.update(j, y)[i] == if i == j { y } else { s[i] });
        if s[i].name == name {
            if k != 0 {
                lemma_nth_from_update(s, j, y, name, k - 1, i + 1);
            }
        } else {
            lemma_nth_from_update(s, j, y, name, k, i + 1);
        }
    }
}

/// A search that finds a position finds a matching node there.
pub proof fn lemma_find_from_found(s: Seq<KNode>, name: Seq<char>, arg: Option<Seq<char>>, i: int)
    ensures
        find_from(s, name, arg, i) matches Some(p) ==> i <= p < s.len() && 0 <= p && matches_node(s[p], name, arg),
    decreases s.len() - i,
{
    if 0 <= i < s.len() && !matches_node(s[i], name, arg) {
        lemma_find_from_found(s, name, arg, i + 1);
    }
}

/// A position of a named node holds a node of that name.
pub proof fn lemma_nth_from_found(s: Seq<KNode>, name: Seq<char>, k: int, i: int)
    ensures
        nth_from(s, name, k, i) matches Some(p) ==> i <= p < s.len() && 0 <= p && s[p].name == name,
    decreases s.len() - i,
{
    if 0 <= i < s.len() {
        if s[i].name == name {
            if k != 0 {
                lemma_nth_from_found(s, name, k - 1, i + 1);
            }
        } else {
            lemma_nth_from_found(s, name, k, i + 1);
        }
    }
}

/// A node's children replaced by themselves give back the node, where it has a
/// children block.
proof fn lemma_with_own_kids(n: KNode)
    requires
        n.children is Some,
    ensures
        with_kids(n, kids(n)) == n,
{
}

/// Swapping the same two calls of a task a second time gives back the nodes as they
/// were: a call moved up with `move_call_up` at `i` moves back with `move_call_down`
/// at `i - 1`, and the other way round.
pub proof fn swapping_calls_twice_restores(top: Seq<KNode>, task: Seq<char>, a: nat, b: nat)
    requires
        swap_calls_outcome(top, task, a, b) is Ok,
    ensures
        swap_calls_outcome(swap_calls_outcome(top, task, a, b)->Ok_0, task, a, b) == Ok::<Seq<KNode>, Seq<char>>(top),
{
    let v = swap_calls_outcome(top, task, a, b)->Ok_0;
    let (ti, ki) = locate_task(top, task)->Ok_0;
    lemma_find_from_found(top, "tasks"@, None, 0);
    lemma_find_from_found(kids(top[ti]), "task"@, Some(task), 0);
    let t = kids(top[ti])[ki];
    let tk = kids(t);
    let pa = nth_from(tk, "calls"@, a as int, 0)->Some_0;
    let pb = nth_from(tk, "calls"@, b as int, 0)->Some_0;
    lemma_nth_from_found(tk, "calls"@, a as int, 0);
    lemma_nth_from_found(tk, "calls"@, b as int, 0);
    let sw = tk.update(pa, tk[pb]).update(pb, tk[pa]);
    let t2 = with_kids(t, sw);
    let k1 = kids(top[ti]).update(ki, t2);
    let n1 = with_kids(top[ti], k1);
    assert(v == top.update(ti, n1));
    // The task is found at the same place.
    lemma_find_from_update(top, ti, n1, "tasks"@, None, 0);
    assert(kids(v[ti]) == k1);
    lemma_find_from_update(kids(top[ti]), ki, t2, "task"@, Some(task), 0);
    assert(locate_task(v, task) == Ok::<(int, int), Seq<char>>((ti, ki)));
    // The calls are at the same positions.
    assert(kids(k1[ki]) == sw);
    lemma_nth_from_update(tk, pa, tk[pb], "calls"@, a as int, 0);
    lemma_nth_from_update(tk.update(pa, tk[pb]), pb, tk[pa], "calls"@, a as int, 0);
    lemma_nth_from_update(tk, pa, tk[pb], "calls"@, b as int, 0);
    lemma_nth_from_update(tk.update(pa, tk[pb]), pb, tk[pa], "calls"@, b as int, 0);
    assert(nth_from(sw, "calls"@, a as int, 0) == Some(pa));
    assert(nth_from(sw, "calls"@, b as int, 0) == Some(pb));
    // Swapping back.
    assert(sw.update(pa, sw[pb]).update(pb, sw[pa]) =~= tk);
    assert(t.children is Some);
    lemma_with_own_kids(t);
    assert(with_kids(t2, tk) == t);
    assert(kids(top[ti]).len() > 0);
    assert(top[ti].children is Some);
    assert(k1.update(ki, t) =~= kids(top[ti]));
    lemma_with_own_kids(top[ti]);
    assert(with_kids(n1, kids(top[ti])) == top[ti]);
    assert(put_task(v, ti, ki, with_kids(t2, sw.update(pa, sw[pb]).update(pb, sw[pa]))) =~= top);
}

/// Replacing the first argument keeps it first, where the new entry is an argument.
proof fn lemma_first_arg_update(es: Seq<KEntry>, f: int, e: KEntry, i: int)
    requires
        first_arg_from(es, i) == Some(f),
        e.name is None,
        0 <= i,
    ensures
        first_arg_from(es.update(f, e), i) == Some(f),
    decreases es.len() - i,
{
    lemma_first_arg_found(es, i);
    if i < es.len() {
        assert(es.update(f, e)[i] == if i == f { e } else { es[i] });
        if es[i].name is Some {
            lemma_first_arg_update(es, f, e, i + 1);
        }
    }
}

/// The first argument found is within the entries.
proof fn lemma_first_arg_found(es: Seq<KEntry>, i: int)
    ensures
        first_arg_from(es, i) matches Some(f) ==> i <= f < es.len() && es[f].name is None,
    decreases es.len() - i,
{
    if 0 <= i < es.len() && es[i].name is Some {
        lemma_first_arg_found(es, i + 1);
    }
}

/// Making a task the default task a second time changes nothing more.
pub proof fn setting_default_task_is_idempotent(top: Seq<KNode>, name: Seq<char>)
    requires
        set_default_task_outcome(top, name) is Ok,
    ensures
        set_default_task_outcome(set_default_task_outcome(top, name)->Ok_0, name)
            == set_default_task_outcome(top, name),
{
    let v = set_default_task_outcome(top, name)->Ok_0;
    let i = find_node(top, "default-task"@, None)->Some_0;
    lemma_find_from_found(top, "default-task"@, None, 0);
    let e = str_entry_view(name);
    let f = first_arg_from(top[i].entries, 0)->Some_0;
    lemma_first_arg_found(top[i].entries, 0);
    let n1 = set_first_arg(top[i], e);
    assert(v == top.update(i, n1));
    // The task is still there.
    lemma_find_from_update(top, i, n1, "tasks"@, None, 0);
    let ti = find_node(top, "tasks"@, None)->Some_0;
    lemma_find_from_found(top, "tasks"@, None, 0);
    assert(ti != i) by {
        reveal_strlit("tasks");
        reveal_strlit("default-task");
        assert("tasks"@.len() != "default-task"@.len());
    }
    assert(v[ti] == top[ti]);
    assert(has_task(v, name));
    // The default-task node is found again, with its argument in the same place.
    lemma_find_from_update(top, i, n1, "default-task"@, None, 0);
    lemma_first_arg_update(top[i].entries, f, e, 0);
    assert(first_arg_from(v[i].entries, 0) == Some(f));
    assert(v[i].entries.update(f, e) =~= v[i].entries);
    assert(set_first_arg(v[i], e) == v[i]);
    assert(v.update(i, v[i]) =~= v);
}

/// Appending a node that matches a search that found nothing earlier finds it.
proof fn lemma_find_pushed(s: Seq<KNode>, x: KNode, name: Seq<char>, arg: Option<Seq<char>>, i: int)
    requires
        0 <= i <= s.len(),
        find_from(s, name, arg, i) is None,
        matches_node(x, name, arg),
    ensures
        find_from(s.push(x), name, arg, i) == Some(s.len() as int),
    decreases s.len() - i,
{
    if i < s.len() {
        assert(s.push(x)[i] == s[i]);
        lemma_find_pushed(s, x, name, arg, i + 1);
    } else {
        assert(s.push(x)[i] == x);
    }
}

/// A task that was added is found under its name, last in the `tasks` block.
pub proof fn added_task_is_found(top: Seq<KNode>, name: Seq<char>, repo: Option<Seq<char>>,
    dir: Option<Seq<char>>, excl: Option<Seq<char>>)
    requires
        add_task_outcome(top, name, repo, dir, excl) is Ok,
    ensures
        locate_task(add_task_outcome(top, name, repo, dir, excl)->Ok_0, name) matches Ok((ti, ki))
            && ki + 1 == kids(add_task_outcome(top, name, repo, dir, excl)->Ok_0[ti]).len(),
        has_task(add_task_outcome(top, name, repo, dir, excl)->Ok_0, name),
{
    let v = add_task_outcome(top, name, repo, dir, excl)->Ok_0;
    let ti = find_node(top, "tasks"@, None)->Some_0;
    lemma_find_from_found(top, "tasks"@, None, 0);
    let k = kids(top[ti]);
    let x = new_task_view(name, repo, dir, excl);
    let n1 = with_kids(top[ti], k.push(x));
    assert(v == top.update(ti, n1));
    lemma_find_from_update(top, ti, n1, "tasks"@, None, 0);
    assert(x.entries[0] == str_entry_view(name));
    assert(first_arg_from(x.entries, 0) == Some(0int));
    assert(arg_of(x) == Some(name));
    lemma_find_pushed(k, x, "task"@, Some(name), 0);
    assert(kids(v[ti]) == k.push(x));
}

/// A task name that is taken already is refused, and nothing is added.
pub proof fn adding_a_taken_task_name_is_refused(top: Seq<KNode>, name: Seq<char>, repo: Option<Seq<char>>,
    dir: Option<Seq<char>>, excl: Option<Seq<char>>)
    requires
        has_task(top, name),
    ensures
        add_task_outcome(top, name, repo, dir, excl) == Err::<Seq<KNode>, Seq<char>>(
            "task '"@ + name + "' already exists"@),
{
}

/// The number of nodes named `name` at or after position `i`.
pub open spec fn count_from(s: Seq<KNode>, name: Seq<char>, i: int) -> nat
    decreases s.len() - i,
{
    if i < 0 || i >= s.len() {
        0
    } else {
        count_from(s, name, i + 1) + if s[i].name == name { 1nat } else { 0nat }
    }
}

proof fn lemma_count_from_push(s: Seq<KNode>, y: KNode, name: Seq<char>, i: int)
    requires
        0 <= i <= s.len(),
    ensures
        count_from(s.push(y), name, i) == count_from(s, name, i) + if y.name == name { 1nat } else { 0nat },
    decreases s.len() - i,
{
    if i < s.len() {
        assert(s.push(y)[i] == s[i]);
        lemma_count_from_push(s, y, name, i + 1);
    } else {
        assert(s.push(y)[i] == y);
        assert(count_from(s.push(y), name, i + 1) == 0);
    }
}

/// Counting from the front gives the count of named nodes.
proof fn lemma_count_from_all(s: Seq<KNode>, name: Seq<char>)
    ensures
        count_from(s, name, 0) == count_named(s, name),
    decreases s.len(),
{
    if s.len() > 0 {
        lemma_count_from_all(s.drop_last(), name);
        assert(s == s.drop_last().push(s.last()));
        lemma_count_from_push(s.drop_last(), s.last(), name, 0);
    }
}

/// A node appended after the named nodes from `i` on is the next one of them.
proof fn lemma_nth_pushed(s: Seq<KNode>, x: KNode, name: Seq<char>, i: int)
    requires
        0 <= i <= s.len(),
        x.name == name,
    ensures
        nth_from(s.push(x), name, count_from(s, name, i) as int, i) == Some(s.len() as int),
    decreases s.len() - i,
{
    if i < s.len() {
        assert(s.push(x)[i] == s[i]);
        lemma_nth_pushed(s, x, name, i + 1);
    } else {
        assert(s.push(x)[i] == x);
    }
}

/// Removing the last call of a task right after adding it gives back the nodes as they
/// were, where the task has a children block (adding to a task without one creates it).
pub proof fn removing_an_added_call_restores(top: Seq<KNode>, task: Seq<char>, call: Seq<char>)
    requires
        add_call_outcome(top, task, call) is Ok,
        kids(top[locate_task(top, task)->Ok_0.0])[locate_task(top, task)->Ok_0.1].children is Some,
    ensures
        remove_call_outcome(add_call_outcome(top, task, call)->Ok_0, task,
            count_named(kids(kids(top[locate_task(top, task)->Ok_0.0])[locate_task(top, task)->Ok_0.1]), "calls"@))
            == Ok::<Seq<KNode>, Seq<char>>(top),
{
    let v = add_call_outcome(top, task, call)->Ok_0;
    let (ti, ki) = locate_task(top, task)->Ok_0;
    lemma_find_from_found(top, "tasks"@, None, 0);
    lemma_find_from_found(kids(top[ti]), "task"@, Some(task), 0);
    let t = kids(top[ti])[ki];
    let tk = kids(t);
    let x = str_node_view("calls"@, call);
    let t2 = with_kids(t, tk.push(x));
    let k1 = kids(top[ti]).update(ki, t2);
    let n1 = with_kids(top[ti], k1);
    assert(v == top.update(ti, n1));
    lemma_find_from_update(top, ti, n1, "tasks"@, None, 0);
    assert(kids(v[ti]) == k1);
    lemma_find_from_update(kids(top[ti]), ki, t2, "task"@, Some(task), 0);
    assert(locate_task(v, task) == Ok::<(int, int), Seq<char>>((ti, ki)));
    assert(kids(k1[ki]) == tk.push(x));
    lemma_count_from_all(tk, "calls"@);
    lemma_nth_pushed(tk, x, "calls"@, 0);
    assert(tk.push(x).remove(tk.len() as int) =~= tk);
    lemma_with_own_kids(t);
    assert(with_kids(t2, tk) == t);
    assert(kids(top[ti]).len() > 0);
    assert(k1.update(ki, t) =~= kids(top[ti]));
    lemma_with_own_kids(top[ti]);
    assert(with_kids(n1, kids(top[ti])) == top[ti]);
    assert(put_task(v, ti, ki, with_kids(t2, tk)) =~= top);
}

/// A search that finds nothing from `i` on finds no match there.
proof fn lemma_find_from_none(s: Seq<KNode>, name: Seq<char>, arg: Option<Seq<char>>, i: int, j: int)
    requires
        0 <= i <= j < s.len(),
        find_from(s, name, arg, i) is None,
    ensures
        !matches_node(s[j], name, arg),
    decreases j - i,
{
    if i < j {
        lemma_find_from_none(s, name, arg, i + 1, j);
    }
}

/// Taking out the matching nodes of a list that has none changes nothing.
proof fn lemma_without_nothing(s: Seq<KNode>, name: Seq<char>, arg: Option<Seq<char>>)
    requires
        forall|j: int| 0 <= j < s.len() ==> !matches_node(#[trigger] s[j], name, arg),
    ensures
        without(s, name, arg) == s,
    decreases s.len(),
{
    if s.len() > 0 {
        assert forall|j: int| 0 <= j < s.drop_last().len() implies !matches_node(#[trigger] s.drop_last()[j], name, arg) by {
            assert(s.drop_last()[j] == s[j]);
        }
        lemma_without_nothing(s.drop_last(), name, arg);
        assert(!matches_node(s[s.len() - 1], name, arg));
        assert(s.drop_last().push(s.last()) =~= s);
    }
}

/// The backup block of a task that has one.
pub open spec fn backup_of(top: Seq<KNode>, task: Seq<char>) -> KNode {
    let (ti, ki) = locate_task(top, task)->Ok_0;
    let tk = kids(kids(top[ti])[ki]);
    tk[find_node(tk, "backup"@, None)->Some_0]
}

/// Removing a remote right after adding it gives back the nodes as they were, where the
/// backup block has a children block (adding to a block without one creates it).
pub proof fn removing_an_added_remote_restores(top: Seq<KNode>, task: Seq<char>, url: Seq<char>, creds: Seq<char>,
    workers: Option<u32>, limit: Option<Seq<char>>)
    requires
        add_remote_outcome(top, task, url, creds, workers, limit) is Ok,
        backup_of(top, task).children is Some,
    ensures
        remove_remote_outcome(add_remote_outcome(top, task, url, creds, workers, limit)->Ok_0, task, url)
            == Ok::<Seq<KNode>, Seq<char>>(top),
{
    let v = add_remote_outcome(top, task, url, creds, workers, limit)->Ok_0;
    let (ti, ki) = locate_task(top, task)->Ok_0;
    lemma_find_from_found(top, "tasks"@, None, 0);
    lemma_find_from_found(kids(top[ti]), "task"@, Some(task), 0);
    let t = kids(top[ti])[ki];
    let tk = kids(t);
    let bi = find_node(tk, "backup"@, None)->Some_0;
    lemma_find_from_found(tk, "backup"@, None, 0);
    let b = tk[bi];
    let rk = kids(b);
    let x = remote_view(url, creds, workers, limit);
    let b2 = with_kids(b, rk.push(x));
    let tk2 = tk.update(bi, b2);
    let t2 = with_kids(t, tk2);
    let k1 = kids(top[ti]).update(ki, t2);
    let n1 = with_kids(top[ti], k1);
    assert(v == top.update(ti, n1));
    lemma_find_from_update(top, ti, n1, "tasks"@, None, 0);
    assert(kids(v[ti]) == k1);
    lemma_find_from_update(kids(top[ti]), ki, t2, "task"@, Some(task), 0);
    assert(locate_task(v, task) == Ok::<(int, int), Seq<char>>((ti, ki)));
    assert(kids(k1[ki]) == tk2);
    lemma_find_from_update(tk, bi, b2, "backup"@, None, 0);
    assert(kids(tk2[bi]) == rk.push(x));
    // The new remote is the only one of that URL.
    assert(x.entries[0] == str_entry_view(url));
    assert(first_arg_from(x.entries, 0) == Some(0int));
    assert(arg_of(x) == Some(url));
    assert forall|j: int| 0 <= j < rk.len() implies !matches_node(#[trigger] rk[j], "remote"@, Some(url)) by {
        lemma_find_from_none(rk, "remote"@, Some(url), 0, j);
    }
    lemma_without_nothing(rk, "remote"@, Some(url));
    assert(rk.push(x).drop_last() =~= rk);
    assert(without(rk.push(x), "remote"@, Some(url)) == rk);
    // Putting the block back.
    lemma_with_own_kids(b);
    assert(with_kids(b2, rk) == b);
    assert(tk2.update(bi, b) =~= tk);
    assert(tk.len() > 0);
    lemma_with_own_kids(t);
    assert(with_kids(t2, tk) == t);
    assert(kids(top[ti]).len() > 0);
    assert(k1.update(ki, t) =~= kids(top[ti]));
    lemma_with_own_kids(top[ti]);
    assert(with_kids(n1, kids(top[ti])) == top[ti]);
    assert(put_task(v, ti, ki, with_kids(t2, tk2.update(bi, with_kids(b2, rk)))) =~= top);
}

/// Removing a task right after adding it gives back the nodes as they were, where
/// another task remains and the added task is not the default one.
pub proof fn removing_an_added_task_restores(top: Seq<KNode>, name: Seq<char>, repo: Option<Seq<char>>,
    dir: Option<Seq<char>>, excl: Option<Seq<char>>)
    requires
        add_task_outcome(top, name, repo, dir, excl) is Ok,
        count_named(kids(top[find_node(top, "tasks"@, None)->Some_0]), "task"@) >= 1,
        default_task_of(top) != name,
    ensures
        remove_task_outcome(add_task_outcome(top, name, repo, dir, excl)->Ok_0, name)
            == Ok::<Seq<KNode>, Seq<char>>(top),
{
    let v = add_task_outcome(top, name, repo, dir, excl)->Ok_0;
    let ti = find_node(top, "tasks"@, None)->Some_0;
    lemma_find_from_found(top, "tasks"@, None, 0);
    let k = kids(top[ti]);
    let x = new_task_view(name, repo, dir, excl);
    let n1 = with_kids(top[ti], k.push(x));
    assert(v == top.update(ti, n1));
    lemma_find_from_update(top, ti, n1, "tasks"@, None, 0);
    assert(kids(v[ti]) == k.push(x));
    assert(k.push(x).drop_last() =~= k);
    assert(count_named(k.push(x), "task"@) == count_named(k, "task"@) + 1);
    // The default task is unchanged.
    lemma_find_from_update(top, ti, n1, "default-task"@, None, 0);
    match find_node(top, "default-task"@, None) {
        Some(di) => {
            lemma_find_from_found(top, "default-task"@, None, 0);
            assert(di != ti) by {
                reveal_strlit("tasks");
                reveal_strlit("default-task");
                assert("tasks"@.len() != "default-task"@.len());
            }
            assert(v[di] == top[di]);
        },
        None => {},
    }
    assert(default_task_of(v) == default_task_of(top));
    // Only the added task goes.
    assert(x.entries[0] == str_entry_view(name));
    assert(first_arg_from(x.entries, 0) == Some(0int));
    assert(arg_of(x) == Some(name));
    assert forall|j: int| 0 <= j < k.len() implies !matches_node(#[trigger] k[j], "task"@, Some(name)) by {
        lemma_find_from_none(k, "task"@, Some(name), 0, j);
    }
    lemma_without_nothing(k, "task"@, Some(name));
    assert(without(k.push(x), "task"@, Some(name)) == k);
    assert(k.len() > 0);
    lemma_with_own_kids(top[ti]);
    assert(with_kids(n1, k) == top[ti]);
    assert(v.update(ti, with_kids(v[ti], k)) =~= top);
}


/// Of two node names, `tasks` is not `default-task`.
proof fn lemma_tasks_is_not_default_task()
    ensures
        "tasks"@ != "default-task"@,
{
    reveal_strlit("tasks");
    reveal_strlit("default-task");
    assert("tasks"@.len() != "default-task"@.len());
}

/// Replacing a node of another name than `default-task` leaves the default task as
/// it was.
proof fn lemma_default_kept(s: Seq<KNode>, j: int, y: KNode)
    requires
        0 <= j < s.len(),
        y.name == s[j].name,
        s[j].name != "default-task"@,
    ensures
        default_task_of(s.update(j, y)) == default_task_of(s),
        find_node(s.update(j, y), "default-task"@, None) == find_node(s, "default-task"@, None),
{
    lemma_find_from_update(s, j, y, "default-task"@, None, 0);
    lemma_find_from_found(s, "default-task"@, None, 0);
    if let Some(i) = find_node(s, "default-task"@, None) {
        assert(i != j);
        assert(s.update(j, y)[i] == s[i]);
    }
}

/// Editing the default task keeps it the default task, under its new name where the
/// edit renames it.
pub proof fn edited_default_task_stays_default(top: Seq<KNode>, old: Seq<char>, name: Seq<char>,
    desc: Option<Seq<char>>, repo: Option<Seq<char>>, dir: Option<Seq<char>>, excl: Option<Seq<char>>,
    ff: Option<Seq<char>>)
    requires
        edit_task_outcome(top, old, name, desc, repo, dir, excl, ff) is Ok,
        old.len() > 0,
        default_task_of(top) == old,
    ensures
        default_task_of(edit_task_outcome(top, old, name, desc, repo, dir, excl, ff)->Ok_0) == name,
{
    lemma_tasks_is_not_default_task();
    let i = find_node(top, "default-task"@, None)->Some_0;
    lemma_find_from_found(top, "default-task"@, None, 0);
    let ti = find_node(top, "tasks"@, None)->Some_0;
    lemma_find_from_found(top, "tasks"@, None, 0);
    let k = kids(top[ti]);
    let ki = find_node(k, "task"@, Some(old))->Some_0;
    let renamed = name != old;
    let t1 = if renamed { set_first_arg(k[ki], str_entry_view(name)) } else { k[ki] };
    let t2 = with_kids(t1, crate::config_editor::edit_task_kids(kids(t1), desc, repo, dir, excl, ff));
    let top1 = top.update(ti, with_kids(top[ti], k.update(ki, t2)));
    lemma_default_kept(top, ti, with_kids(top[ti], k.update(ki, t2)));
    assert(default_task_of(top1) == old);
    let top2 = if renamed { rename_default(top1, name) } else { top1 };
    if renamed {
        let e = str_entry_view(name);
        let f = first_arg_from(top1[i].entries, 0)->Some_0;
        lemma_first_arg_found(top1[i].entries, 0);
        lemma_first_arg_update(top1[i].entries, f, e, 0);
        let n1 = set_first_arg(top1[i], e);
        assert(top2 == top1.update(i, n1));
        lemma_find_from_update(top1, i, n1, "default-task"@, None, 0);
        assert(arg_of(n1) == Some(name));
        assert(default_task_of(top2) == name);
        let tj = find_node(top2, "tasks"@, None);
        lemma_find_from_found(top2, "tasks"@, None, 0);
        if let Some(tj) = tj {
            if let Some((c, _)) = top2[tj].children {
                lemma_default_kept(top2, tj, with_kids(top2[tj], c.map_values(|t: KNode|
                    crate::config_editor::rename_calls_in_task(t, old, name))));
            }
        }
        assert(default_task_of(rename_calls(top2, old, name)) == name);
    }
}


/// A `tasks` block that holds a matching task node holds a task of that name.
proof fn lemma_has_task_at(top: Seq<KNode>, ti: int, p: int, name: Seq<char>)
    requires
        find_node(top, "tasks"@, None) == Some(ti),
        0 <= ti < top.len(),
        top[ti].children is Some,
        0 <= p < kids(top[ti]).len(),
        matches_node(kids(top[ti])[p], "task"@, Some(name)),
    ensures
        has_task(top, name),
{
    let c = kids(top[ti]);
    if find_node(c, "task"@, Some(name)) is None {
        lemma_find_from_none(c, "task"@, Some(name), 0, p);
    }
}

/// Editing a task leaves it found under its new name.
pub proof fn edited_task_is_found_under_its_name(top: Seq<KNode>, old: Seq<char>, name: Seq<char>,
    desc: Option<Seq<char>>, repo: Option<Seq<char>>, dir: Option<Seq<char>>, excl: Option<Seq<char>>,
    ff: Option<Seq<char>>)
    requires
        edit_task_outcome(top, old, name, desc, repo, dir, excl, ff) is Ok,
    ensures
        has_task(edit_task_outcome(top, old, name, desc, repo, dir, excl, ff)->Ok_0, name),
{
    lemma_tasks_is_not_default_task();
    let ti = find_node(top, "tasks"@, None)->Some_0;
    lemma_find_from_found(top, "tasks"@, None, 0);
    let k = kids(top[ti]);
    let ki = find_node(k, "task"@, Some(old))->Some_0;
    lemma_find_from_found(k, "task"@, Some(old), 0);
    let renamed = name != old;
    let e = str_entry_view(name);
    let t1 = if renamed { set_first_arg(k[ki], e) } else { k[ki] };
    if renamed {
        let f = first_arg_from(k[ki].entries, 0)->Some_0;
        lemma_first_arg_found(k[ki].entries, 0);
        lemma_first_arg_update(k[ki].entries, f, e, 0);
    }
    assert(matches_node(t1, "task"@, Some(name)));
    let t2 = with_kids(t1, crate::config_editor::edit_task_kids(kids(t1), desc, repo, dir, excl, ff));
    let x = with_kids(top[ti], k.update(ki, t2));
    let top1 = top.update(ti, x);
    lemma_find_from_update(top, ti, x, "tasks"@, None, 0);
    assert(kids(top1[ti])[ki] == t2);
    lemma_has_task_at(top1, ti, ki, name);
    if renamed {
        let default_is_old = match find_node(top, "default-task"@, None) {
            Some(i) => arg_of(top[i]) == Some(old),
            None => false,
        };
        let top2 = if default_is_old { rename_default(top1, name) } else { top1 };
        lemma_find_from_found(top1, "default-task"@, None, 0);
        if let Some(i) = find_node(top1, "default-task"@, None) {
            let n1 = set_first_arg(top1[i], str_entry_view(name));
            lemma_find_from_update(top1, i, n1, "tasks"@, None, 0);
            assert(i != ti);
            assert(top2[ti] == top1[ti]);
        }
        assert(find_node(top2, "tasks"@, None) == Some(ti));
        assert(top2[ti] == top1[ti]);
        let c = kids(top2[ti]);
        let c2 = c.map_values(|t: KNode| crate::config_editor::rename_calls_in_task(t, old, name));
        let y = with_kids(top2[ti], c2);
        lemma_find_from_update(top2, ti, y, "tasks"@, None, 0);
        let r = rename_calls(top2, old, name);
        assert(r == top2.update(ti, y));
        assert(kids(r[ti])[ki] == crate::config_editor::rename_calls_in_task(t2, old, name));
        lemma_has_task_at(r, ti, ki, name);
    }
}

/// The first node of a list with this name, if any.
pub open spec fn first_named(s: Seq<KNode>, n: Seq<char>) -> Option<KNode> {
    match find_node(s, n, None) {
        Some(i) => Some(s[i]),
        None => None,
    }
}

/// A search of a list with one more node finds what it found before, else the new
/// node where it matches.
proof fn lemma_find_push(s: Seq<KNode>, x: KNode, name: Seq<char>, arg: Option<Seq<char>>, i: int)
    requires
        0 <= i <= s.len(),
    ensures
        find_from(s.push(x), name, arg, i) == match find_from(s, name, arg, i) {
            Some(p) => Some(p),
            None => if matches_node(x, name, arg) { Some(s.len() as int) } else { None },
        },
    decreases s.len() - i,
{
    if i < s.len() {
        assert(s.push(x)[i] == s[i]);
        lemma_find_push(s, x, name, arg, i + 1);
    } else {
        assert(s.push(x)[i] == x);
        assert(find_from(s.push(x), name, arg, i + 1) is None);
        assert(find_from(s, name, arg, i) is None);
    }
}

proof fn lemma_first_named_push(s: Seq<KNode>, x: KNode, n: Seq<char>)
    ensures
        first_named(s.push(x), n) == match first_named(s, n) {
            Some(y) => Some(y),
            None => if x.name == n { Some(x) } else { None },
        },
{
    lemma_find_push(s, x, n, None, 0);
    lemma_find_from_found(s, n, None, 0);
    if let Some(p) = find_node(s, n, None) {
        assert(s.push(x)[p] == s[p]);
    } else if x.name == n {
        assert(s.push(x)[s.len() as int] == x);
    }
}

proof fn lemma_first_named_update(s: Seq<KNode>, j: int, y: KNode, n: Seq<char>)
    requires
        0 <= j < s.len(),
        s[j].name != n,
        y.name == s[j].name,
    ensures
        first_named(s.update(j, y), n) == first_named(s, n),
{
    lemma_find_from_update(s, j, y, n, None, 0);
    lemma_find_from_found(s, n, None, 0);
    if let Some(p) = find_node(s, n, None) {
        assert(s.update(j, y)[p] == s[p]);
    }
}

proof fn lemma_first_named_without(s: Seq<KNode>, m: Seq<char>, n: Seq<char>)
    ensures
        m != n ==> first_named(without(s, m, None), n) == first_named(s, n),
        first_named(without(s, n, None), n) is None,
    decreases s.len(),
{
    if s.len() == 0 {
    } else {
        let init = s.drop_last();
        let x = s.last();
        lemma_first_named_without(init, m, n);
        assert(init.push(x) =~= s);
        lemma_first_named_push(init, x, n);
        lemma_first_named_push(without(init, m, None), x, n);
        lemma_first_named_push(without(init, n, None), x, n);
    }
}

/// Setting or removing the children of another name leaves the first child of a name
/// as it was.
proof fn lemma_first_named_other(s: Seq<KNode>, m: Seq<char>, n: Seq<char>, v: Option<Seq<char>>, e: KEntry)
    requires
        m != n,
    ensures
        first_named(upsert_or_remove(s, m, v), n) == first_named(s, n),
        first_named(update_child(s, m, e), n) == first_named(s, n),
{
    lemma_find_from_found(s, m, None, 0);
    lemma_first_named_without(s, m, n);
    match find_node(s, m, None) {
        Some(j) => {
            if let Some(x) = v {
                lemma_first_named_update(s, j, set_first_arg(s[j], str_entry_view(x)), n);
            }
            lemma_first_named_update(s, j, set_or_push_arg(s[j], e), n);
        },
        None => {
            if let Some(x) = v {
                lemma_first_named_push(s, str_node_view(m, x), n);
            }
            lemma_first_named_push(s, node_with(m, e), n);
        },
    }
}

/// The first child of a name after it is set or removed.
proof fn lemma_first_named_self(s: Seq<KNode>, n: Seq<char>, v: Option<Seq<char>>, e: KEntry)
    ensures
        first_named(upsert_or_remove(s, n, v), n) == match v {
            Some(x) => if x.len() > 0 {
                match first_named(s, n) {
                    Some(y) => Some(set_first_arg(y, str_entry_view(x))),
                    None => Some(str_node_view(n, x)),
                }
            } else {
                None
            },
            None => None,
        },
        first_named(update_child(s, n, e), n) == match first_named(s, n) {
            Some(y) => Some(set_or_push_arg(y, e)),
            None => Some(node_with(n, e)),
        },
{
    lemma_find_from_found(s, n, None, 0);
    lemma_first_named_without(s, n, n);
    match find_node(s, n, None) {
        Some(j) => {
            if let Some(x) = v {
                let y = set_first_arg(s[j], str_entry_view(x));
                lemma_find_from_update(s, j, y, n, None, 0);
                assert(s.update(j, y)[j] == y);
            }
            let y2 = set_or_push_arg(s[j], e);
            lemma_find_from_update(s, j, y2, n, None, 0);
            assert(s.update(j, y2)[j] == y2);
        },
        None => {
            if let Some(x) = v {
                lemma_first_named_push(s, str_node_view(n, x), n);
            }
            lemma_first_named_push(s, node_with(n, e), n);
        },
    }
}

/// The first argument of a node after it is set to a string.
proof fn lemma_arg_set(y: KNode, v: Seq<char>)
    ensures
        first_arg_from(y.entries, 0) is Some ==> arg_of(set_first_arg(y, str_entry_view(v))) == Some(v),
        first_arg_from(y.entries, 0) is None ==> set_first_arg(y, str_entry_view(v)) == y,
        arg_of(set_or_push_arg(y, str_entry_view(v))) == Some(v),
        arg_of(str_node_view(y.name, v)) == Some(v),
{
    let e = str_entry_view(v);
    lemma_first_arg_found(y.entries, 0);
    match first_arg_from(y.entries, 0) {
        Some(f) => {
            lemma_first_arg_update(y.entries, f, e, 0);
        },
        None => {
            lemma_first_arg_pushed(y.entries, e, 0);
        },
    }
    assert(seq![e][0] == e);
}

proof fn lemma_first_arg_pushed(es: Seq<KEntry>, e: KEntry, i: int)
    requires
        0 <= i <= es.len(),
        first_arg_from(es, i) is None,
        e.name is None,
    ensures
        first_arg_from(es.push(e), i) == Some(es.len() as int),
    decreases es.len() - i,
{
    if i < es.len() {
        assert(es.push(e)[i] == es[i]);
        lemma_first_arg_pushed(es, e, i + 1);
    } else {
        assert(es.push(e)[i] == e);
    }
}

/// What an edit asks of one field of a backup block, where `v` is the value given and
/// `before` the block's children before the edit: a non-empty value is held by the
/// first child of that name, made where there was none (a child whose entries hold no
/// argument to replace is left as it was); no value, or an empty one, leaves no child
/// of that name.
pub open spec fn field_given(after: Seq<KNode>, before: Seq<KNode>, n: Seq<char>, v: Option<Seq<char>>) -> bool {
    match v {
        Some(x) => if x.len() > 0 {
            match first_named(after, n) {
                Some(y) => match first_named(before, n) {
                    Some(z) => if first_arg_from(z.entries, 0) is None { y == z } else { arg_of(y) == Some(x) },
                    None => arg_of(y) == Some(x),
                },
                None => false,
            }
        } else {
            forall|i: int| 0 <= i < after.len() ==> after[i].name != n
        },
        None => forall|i: int| 0 <= i < after.len() ==> after[i].name != n,
    }
}

proof fn lemma_field_given(after: Seq<KNode>, before: Seq<KNode>, n: Seq<char>, v: Option<Seq<char>>)
    requires
        first_named(after, n) == match v {
            Some(x) => if x.len() > 0 {
                match first_named(before, n) {
                    Some(y) => Some(set_first_arg(y, str_entry_view(x))),
                    None => Some(str_node_view(n, x)),
                }
            } else {
                None
            },
            None => None,
        },
    ensures
        field_given(after, before, n, v),
{
    lemma_find_from_found(before, n, None, 0);
    if let Some(x) = v {
        if x.len() > 0 {
            match first_named(before, n) {
                Some(y) => lemma_arg_set(y, x),
                None => {
                    lemma_arg_set(str_node_view(n, x), x);
                },
            }
        }
    }
    if first_named(after, n) is None {
        assert forall|i: int| 0 <= i < after.len() implies after[i].name != n by {
            lemma_find_from_none(after, n, None, 0, i);
        }
    }
}

/// Editing a task's backup block sets what the edit gives: the repository is the first
/// argument of the first `repo` child (set in place, or added); a non-empty directory,
/// exclude file or files-from list is the first argument of the first child of that
/// name (set in place, or added; a child whose entries hold no argument is left as it
/// was); an unset or empty one leaves no child of that name.
pub proof fn edited_backup_block_holds_the_given_fields(bk: Seq<KNode>, repo: Seq<char>, dir: Option<Seq<char>>,
    excl: Option<Seq<char>>, ff: Option<Seq<char>>)
    ensures
        first_named(edit_backup_kids(bk, repo, dir, excl, ff), "repo"@) matches Some(x) && arg_of(x) == Some(repo),
        field_given(edit_backup_kids(bk, repo, dir, excl, ff), bk, "directory"@, dir),
        field_given(edit_backup_kids(bk, repo, dir, excl, ff), bk, "exclude-file"@, excl),
        field_given(edit_backup_kids(bk, repo, dir, excl, ff), bk, "files-from"@, ff),
{
    reveal_strlit("repo");
    reveal_strlit("directory");
    reveal_strlit("exclude-file");
    reveal_strlit("files-from");
    assert("repo"@.len() == 4 && "directory"@.len() == 9 && "exclude-file"@.len() == 12 && "files-from"@.len() == 10);
    assert("repo"@ != "directory"@ && "repo"@ != "exclude-file"@ && "repo"@ != "files-from"@);
    assert("directory"@ != "exclude-file"@ && "directory"@ != "files-from"@ && "exclude-file"@ != "files-from"@);
    let e = str_entry_view(repo);
    let r0 = update_child(bk, "repo"@, e);
    let r1 = upsert_or_remove(r0, "directory"@, dir);
    let r2 = upsert_or_remove(r1, "exclude-file"@, excl);
    let r3 = upsert_or_remove(r2, "files-from"@, ff);
    assert(r3 == edit_backup_kids(bk, repo, dir, excl, ff));
    // repo
    lemma_first_named_self(bk, "repo"@, None, e);
    match first_named(bk, "repo"@) {
        Some(y) => lemma_arg_set(y, repo),
        None => {
            assert(node_with("repo"@, e) == str_node_view("repo"@, repo));
            lemma_arg_set(str_node_view("repo"@, repo), repo);
        },
    }
    lemma_first_named_other(r0, "directory"@, "repo"@, dir, e);
    lemma_first_named_other(r1, "exclude-file"@, "repo"@, excl, e);
    lemma_first_named_other(r2, "files-from"@, "repo"@, ff, e);
    // directory
    lemma_first_named_other(bk, "repo"@, "directory"@, None, e);
    lemma_first_named_self(r0, "directory"@, dir, e);
    lemma_first_named_other(r1, "exclude-file"@, "directory"@, excl, e);
    lemma_first_named_other(r2, "files-from"@, "directory"@, ff, e);
    lemma_field_given(r3, bk, "directory"@, dir);
    // exclude file
    lemma_first_named_other(bk, "repo"@, "exclude-file"@, None, e);
    lemma_first_named_other(r0, "directory"@, "exclude-file"@, dir, e);
    lemma_first_named_self(r1, "exclude-file"@, excl, e);
    lemma_first_named_other(r2, "files-from"@, "exclude-file"@, ff, e);
    lemma_field_given(r3, bk, "exclude-file"@, excl);
    // files-from
    lemma_first_named_other(bk, "repo"@, "files-from"@, None, e);
    lemma_first_named_other(r0, "directory"@, "files-from"@, dir, e);
    lemma_first_named_other(r1, "exclude-file"@, "files-from"@, excl, e);
    lemma_first_named_self(r2, "files-from"@, ff, e);
    lemma_field_given(r3, bk, "files-from"@, ff);
}

/// The first node of a name in two lists one after the other: the first list's, else
/// the second's.
proof fn lemma_first_named_concat(a: Seq<KNode>, b: Seq<KNode>, n: Seq<char>)
    ensures
        first_named(a + b, n) == match first_named(a, n) {
            Some(y) => Some(y),
            None => first_named(b, n),
        },
    decreases b.len(),
{
    if b.len() == 0 {
        assert(a + b =~= a);
        assert(find_from(b, n, None, 0) is None);
    } else {
        let bi = b.drop_last();
        lemma_first_named_concat(a, bi, n);
        assert(a + b =~= (a + bi).push(b.last()));
        assert(bi.push(b.last()) =~= b);
        lemma_first_named_push(a + bi, b.last(), n);
        lemma_first_named_push(bi, b.last(), n);
    }
}

/// Inserting a node of another name leaves the first node of a name as it was.
proof fn lemma_first_named_insert(s: Seq<KNode>, p: int, x: KNode, n: Seq<char>)
    requires
        0 <= p <= s.len(),
        x.name != n,
    ensures
        first_named(s.insert(p, x), n) == first_named(s, n),
{
    let a = s.take(p);
    let b = s.skip(p);
    assert(s.insert(p, x) =~= a.push(x) + b);
    assert(s =~= a + b);
    lemma_first_named_concat(a.push(x), b, n);
    lemma_first_named_concat(a, b, n);
    lemma_first_named_push(a, x, n);
}

/// Renaming calls leaves every node that is not a `calls` node as it was, so the first
/// node of another name is the same.
proof fn lemma_first_named_rename(c: Seq<KNode>, old: Seq<char>, new: Seq<char>, n: Seq<char>)
    requires
        n != "calls"@,
    ensures
        first_named(c.map_values(|ch: KNode| rename_call(ch, old, new)), n) == first_named(c, n),
    decreases c.len(),
{
    if c.len() > 0 {
        let ci = c.drop_last();
        lemma_first_named_rename(ci, old, new, n);
        let f = |ch: KNode| rename_call(ch, old, new);
        assert(c.map_values(f) =~= ci.map_values(f).push(f(c.last())));
        assert(ci.push(c.last()) =~= c);
        lemma_first_named_push(ci.map_values(f), f(c.last()), n);
        lemma_first_named_push(ci, c.last(), n);
        assert(f(c.last()).name == c.last().name);
        if c.last().name == n {
            assert(f(c.last()) == c.last());
        }
    }
}

/// The first backup block of an edited task's children, where the edit gives a
/// repository, is the task's first backup block with its children edited.
proof fn lemma_edited_task_backup(tk: Seq<KNode>, desc: Option<Seq<char>>, repo: Seq<char>, dir: Option<Seq<char>>,
    excl: Option<Seq<char>>, ff: Option<Seq<char>>)
    requires
        first_named(tk, "backup"@) is Some,
    ensures
        first_named(edit_task_kids(tk, desc, Some(repo), dir, excl, ff), "backup"@) == Some(with_kids(
            first_named(tk, "backup"@)->Some_0,
            edit_backup_kids(kids(first_named(tk, "backup"@)->Some_0), repo, dir, excl, ff))),
{
    reveal_strlit("backup");
    reveal_strlit("description");
    assert("backup"@.len() != "description"@.len());
    let tk1 = without(tk, "description"@, None);
    lemma_first_named_without(tk, "description"@, "backup"@);
    let tk2 = match desc {
        Some(d) => if d.len() > 0 {
            let pos = match find_node(tk1, "backup"@, None) {
                Some(p) => p,
                None => 0,
            };
            tk1.insert(pos, str_node_view("description"@, d))
        } else {
            tk1
        },
        None => tk1,
    };
    if let Some(d) = desc {
        if d.len() > 0 {
            lemma_find_from_found(tk1, "backup"@, None, 0);
            let pos = match find_node(tk1, "backup"@, None) {
                Some(p) => p,
                None => 0,
            };
            lemma_first_named_insert(tk1, pos, str_node_view("description"@, d), "backup"@);
        }
    }
    assert(first_named(tk2, "backup"@) == first_named(tk, "backup"@));
    let bi = find_node(tk2, "backup"@, None)->Some_0;
    lemma_find_from_found(tk2, "backup"@, None, 0);
    let y = with_kids(tk2[bi], edit_backup_kids(kids(tk2[bi]), repo, dir, excl, ff));
    lemma_find_from_update(tk2, bi, y, "backup"@, None, 0);
    assert(tk2.update(bi, y)[bi] == y);
    assert(edit_task_kids(tk, desc, Some(repo), dir, excl, ff) == tk2.update(bi, y));
}

/// Editing a task that has a backup block, with a repository given, leaves the task at
/// its place with a backup block that holds what the edit gives: the repository as the
/// first argument of its first `repo` child, and each of the directory, exclude file
/// and files-from list as `field_given` says (set where given and non-empty, absent
/// otherwise).
pub proof fn edited_task_backup_holds_the_given_fields(top: Seq<KNode>, old: Seq<char>, name: Seq<char>,
    desc: Option<Seq<char>>, repo: Seq<char>, dir: Option<Seq<char>>, excl: Option<Seq<char>>, ff: Option<Seq<char>>)
    requires
        edit_task_outcome(top, old, name, desc, Some(repo), dir, excl, ff) is Ok,
        first_named(kids(kids(top[locate_task(top, old)->Ok_0.0])[locate_task(top, old)->Ok_0.1]), "backup"@) is Some,
    ensures
        ({
            let (ti, ki) = locate_task(top, old)->Ok_0;
            let b = first_named(kids(kids(top[ti])[ki]), "backup"@)->Some_0;
            let r = edit_task_outcome(top, old, name, desc, Some(repo), dir, excl, ff)->Ok_0;
            &&& 0 <= ti < r.len()
            &&& 0 <= ki < kids(r[ti]).len()
            &&& first_named(kids(kids(r[ti])[ki]), "backup"@) matches Some(b2)
                && first_named(kids(b2), "repo"@) matches Some(x) && arg_of(x) == Some(repo)
                && field_given(kids(b2), kids(b), "directory"@, dir)
                && field_given(kids(b2), kids(b), "exclude-file"@, excl)
                && field_given(kids(b2), kids(b), "files-from"@, ff)
        }),
{
    lemma_tasks_is_not_default_task();
    reveal_strlit("backup");
    reveal_strlit("calls");
    assert("backup"@.len() != "calls"@.len());
    let ti = find_node(top, "tasks"@, None)->Some_0;
    lemma_find_from_found(top, "tasks"@, None, 0);
    let k = kids(top[ti]);
    let ki = find_node(k, "task"@, Some(old))->Some_0;
    lemma_find_from_found(k, "task"@, Some(old), 0);
    let renamed = name != old;
    let e = str_entry_view(name);
    let t1 = if renamed { set_first_arg(k[ki], e) } else { k[ki] };
    assert(kids(t1) == kids(k[ki]));
    let b = first_named(kids(k[ki]), "backup"@)->Some_0;
    lemma_edited_task_backup(kids(t1), desc, repo, dir, excl, ff);
    let t2 = with_kids(t1, edit_task_kids(kids(t1), desc, Some(repo), dir, excl, ff));
    let b2 = with_kids(b, edit_backup_kids(kids(b), repo, dir, excl, ff));
    assert(first_named(kids(t2), "backup"@) == Some(b2));
    edited_backup_block_holds_the_given_fields(kids(b), repo, dir, excl, ff);
    assert(kids(b2) == edit_backup_kids(kids(b), repo, dir, excl, ff));
    let x = with_kids(top[ti], k.update(ki, t2));
    let top1 = top.update(ti, x);
    lemma_find_from_update(top, ti, x, "tasks"@, None, 0);
    assert(kids(top1[ti])[ki] == t2);
    let default_is_old = match find_node(top, "default-task"@, None) {
        Some(i) => arg_of(top[i]) == Some(old),
        None => false,
    };
    let top2 = if renamed && default_is_old { rename_default(top1, name) } else { top1 };
    lemma_find_from_found(top1, "default-task"@, None, 0);
    if renamed && default_is_old {
        if let Some(i) = find_node(top1, "default-task"@, None) {
            let n1 = set_first_arg(top1[i], str_entry_view(name));
            lemma_find_from_update(top1, i, n1, "tasks"@, None, 0);
            assert(i != ti);
            assert(top2[ti] == top1[ti]);
        }
    }
    assert(top2[ti] == top1[ti]);
    assert(top2.len() == top.len());
    if renamed {
        assert(find_node(top2, "tasks"@, None) == Some(ti)) by {
            if renamed && default_is_old {
                if let Some(i) = find_node(top1, "default-task"@, None) {
                    let n1 = set_first_arg(top1[i], str_entry_view(name));
                    lemma_find_from_update(top1, i, n1, "tasks"@, None, 0);
                }
            }
        }
        let c = kids(top2[ti]);
        let c2 = c.map_values(|t: KNode| rename_calls_in_task(t, old, name));
        let y = with_kids(top2[ti], c2);
        let r = rename_calls(top2, old, name);
        assert(r == top2.update(ti, y));
        assert(kids(r[ti])[ki] == rename_calls_in_task(t2, old, name));
        assert(t2.name == "task"@);
        let f = |ch: KNode| rename_call(ch, old, name);
        assert(kids(rename_calls_in_task(t2, old, name)) == kids(t2).map_values(f));
        lemma_first_named_rename(kids(t2), old, name, "backup"@);
    }
}

} // verus!
