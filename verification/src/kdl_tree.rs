//! Searching and editing lists of KDL nodes, stated over the plain model.
use vstd::prelude::*;
use kdl::{KdlDocument, KdlEntry, KdlNode};
use crate::kdl_doc::{kdl_document, kdl_format, new_document, put_nodes, set_children, set_entry, take_children, take_nodes};
use crate::kdl_doc::{KEntry, KNode, KValue, formatted_look, new_node_look, kdl_entry, kdl_node, nodes_view, entry_count, entry_is_argument, entry_string, new_integer_entry, new_node, new_string_entry, node_name, push_entry, set_entry_format};
use crate::text::{chars_of, decimal, str_eq, string_of};

verus! {

/// The children of a node; none reads as an empty list.
pub open spec fn kids(n: KNode) -> Seq<KNode> {
    match n.children {
        Some((c, _)) => c,
        None => Seq::empty(),
    }
}

/// The leading and trailing text of a node's children block; a new block has none.
pub open spec fn block_format(n: KNode) -> Option<(Seq<char>, Seq<char>)> {
    match n.children {
        Some((_, f)) => f,
        None => None,
    }
}

/// A node with the nodes of its children block replaced, the block's leading and
/// trailing text kept (a block made where there was none has none).
pub open spec fn with_kids(n: KNode, k: Seq<KNode>) -> KNode {
    KNode { children: Some((k, block_format(n))), ..n }
}

/// The position of the first argument (entry without a name) at or after `i`.
pub open spec fn first_arg_from(es: Seq<KEntry>, i: int) -> Option<int>
    decreases es.len() - i,
{
    if i >= es.len() || i < 0 {
        None
    } else if es[i].name is None {
        Some(i)
    } else {
        first_arg_from(es, i + 1)
    }
}

/// The first argument of a node, where it is a string.
pub open spec fn arg_of(n: KNode) -> Option<Seq<char>> {
    match first_arg_from(n.entries, 0) {
        Some(i) => match n.entries[i].value {
            KValue::Str(s) => Some(s),
            _ => None,
        },
        None => None,
    }
}

/// A node with this name, and, where `arg` is given, this first argument.
pub open spec fn matches_node(n: KNode, name: Seq<char>, arg: Option<Seq<char>>) -> bool {
    n.name == name && match arg {
        Some(a) => arg_of(n) == Some(a),
        None => true,
    }
}

/// The first position at or after `i` whose node matches.
pub open spec fn find_from(s: Seq<KNode>, name: Seq<char>, arg: Option<Seq<char>>, i: int) -> Option<int>
    decreases s.len() - i,
{
    if i >= s.len() || i < 0 {
        None
    } else if matches_node(s[i], name, arg) {
        Some(i)
    } else {
        find_from(s, name, arg, i + 1)
    }
}

/// The first position whose node matches.
pub open spec fn find_node(s: Seq<KNode>, name: Seq<char>, arg: Option<Seq<char>>) -> Option<int> {
    find_from(s, name, arg, 0)
}

/// The position of the `k`-th node (from 0) named `name`, at or after `i`.
pub open spec fn nth_from(s: Seq<KNode>, name: Seq<char>, k: int, i: int) -> Option<int>
    decreases s.len() - i,
{
    if i >= s.len() || i < 0 {
        None
    } else if s[i].name == name {
        if k == 0 {
            Some(i)
        } else {
            nth_from(s, name, k - 1, i + 1)
        }
    } else {
        nth_from(s, name, k, i + 1)
    }
}

/// The number of nodes named `name`.
pub open spec fn count_named(s: Seq<KNode>, name: Seq<char>) -> nat
    decreases s.len(),
{
    if s.len() == 0 {
        0
    } else {
        count_named(s.drop_last(), name) + if s.last().name == name { 1nat } else { 0nat }
    }
}

/// The list without the nodes that match.
pub open spec fn without(s: Seq<KNode>, name: Seq<char>, arg: Option<Seq<char>>) -> Seq<KNode>
    decreases s.len(),
{
    if s.len() == 0 {
        s
    } else {
        let r = without(s.drop_last(), name, arg);
        if matches_node(s.last(), name, arg) {
            r
        } else {
            r.push(s.last())
        }
    }
}

/// An argument entry holding a string, written quoted after one space.
pub open spec fn str_entry_view(v: Seq<char>) -> KEntry {
    KEntry { name: None, value: KValue::Str(v), look: formatted_look(None, None, seq!['"'] + escaped(v) + seq!['"'], " "@) }
}

/// An argument entry holding an integer, written in decimal after one space.
pub open spec fn int_entry_view(v: int) -> KEntry {
    KEntry { name: None, value: KValue::Int(v), look: formatted_look(None, None, decimal(v as nat), " "@) }
}

/// A new node with a name and one argument entry, and no children.
pub open spec fn node_with(name: Seq<char>, e: KEntry) -> KNode {
    KNode { name: name, entries: seq![e], children: None, look: new_node_look() }
}

/// A node with a name and one string argument.
pub open spec fn str_node_view(name: Seq<char>, v: Seq<char>) -> KNode {
    node_with(name, str_entry_view(v))
}

/// Replaces the first argument of a node, where it has one.
pub open spec fn set_first_arg(n: KNode, e: KEntry) -> KNode {
    match first_arg_from(n.entries, 0) {
        Some(i) => KNode { entries: n.entries.update(i, e), ..n },
        None => n,
    }
}

/// Replaces the first argument of a node, or appends one where it has none.
pub open spec fn set_or_push_arg(n: KNode, e: KEntry) -> KNode {
    match first_arg_from(n.entries, 0) {
        Some(i) => KNode { entries: n.entries.update(i, e), ..n },
        None => KNode { entries: n.entries.push(e), ..n },
    }
}

/// Sets the value of the first child named `name`, adding the child where there is none.
pub open spec fn update_child(s: Seq<KNode>, name: Seq<char>, e: KEntry) -> Seq<KNode> {
    match find_node(s, name, None) {
        Some(i) => s.update(i, set_or_push_arg(s[i], e)),
        None => s.push(node_with(name, e)),
    }
}

/// Sets the string value of the first child named `name` where a non-empty value is given
/// (adding the child where there is none), and removes all children of that name otherwise.
pub open spec fn upsert_or_remove(s: Seq<KNode>, name: Seq<char>, v: Option<Seq<char>>) -> Seq<KNode> {
    match v {
        Some(v) => if v.len() > 0 {
            match find_node(s, name, None) {
                Some(i) => s.update(i, set_first_arg(s[i], str_entry_view(v))),
                None => s.push(str_node_view(name, v)),
            }
        } else {
            without(s, name, None)
        },
        None => without(s, name, None),
    }
}

/// Sets the integer value of the first child named `name` where a value is given, and
/// removes all children of that name otherwise.
pub open spec fn upsert_or_remove_int(s: Seq<KNode>, name: Seq<char>, v: Option<u32>) -> Seq<KNode> {
    match v {
        Some(v) => update_child(s, name, int_entry_view(v as int)),
        None => without(s, name, None),
    }
}

/// The view of an optional string slice.
pub open spec fn opt_str(o: Option<&str>) -> Option<Seq<char>> {
    match o {
        Some(s) => Some(s@),
        None => None,
    }
}

/// The view of an optional string.
pub open spec fn opt_string(o: Option<String>) -> Option<Seq<char>> {
    match o {
        Some(s) => Some(s@),
        None => None,
    }
}

/// The view of an optional position.
pub open spec fn opt_int(o: Option<usize>) -> Option<int> {
    match o {
        Some(i) => Some(i as int),
        None => None,
    }
}

/// The text of a string value as KDL writes it: quoted, with `\` and `"` escaped.
pub open spec fn escape_char(c: char) -> Seq<char> {
    if c == '\\' {
        seq!['\\', '\\']
    } else if c == '"' {
        seq!['\\', '"']
    } else {
        seq![c]
    }
}

/// The escaped form of a string.
pub open spec fn escaped(s: Seq<char>) -> Seq<char>
    decreases s.len(),
{
    if s.len() == 0 {
        Seq::empty()
    } else {
        escaped(s.drop_last()) + escape_char(s.last())
    }
}

/// The quoted, escaped form of a string.
pub fn quoted(value: &str) -> (r: String)
    ensures
        r@ == seq!['"'] + escaped(value@) + seq!['"'],
{
    let v = chars_of(value);
    let mut r = String::new();
    r.push('"');
    let mut i: usize = 0;
    while i < v.len()
        invariant
            v@ == value@,
            i <= v@.len(),
            r@ == seq!['"'] + escaped(v@.subrange(0, i as int)),
        decreases v.len() - i,
    {
        let c = v[i];
        proof {
            assert(v@.subrange(0, i + 1).drop_last() =~= v@.subrange(0, i as int));
        }
        if c == '\\' {
            r.push('\\');
            r.push('\\');
        } else if c == '"' {
            r.push('\\');
            r.push('"');
        } else {
            r.push(c);
        }
        assert(r@ =~= seq!['"'] + escaped(v@.subrange(0, i + 1)));
        i = i + 1;
    }
    assert(v@.subrange(0, v@.len() as int) =~= v@);
    r.push('"');
    r
}

/// A string argument entry that prints quoted, after one space.
pub fn str_entry(value: &str) -> (e: KdlEntry)
    ensures
        kdl_entry(e) == str_entry_view(value@),
{
    let repr = quoted(value);
    let mut e = new_string_entry(value);
    set_entry_format(&mut e, repr.as_str(), " ");
    e
}

/// An integer argument entry that prints in decimal, after one space.
pub fn int_entry(value: u32) -> (e: KdlEntry)
    ensures
        kdl_entry(e) == int_entry_view(value as int),
{
    let repr = crate::text::decimal_u64(value as u64);
    let mut e = new_integer_entry(value);
    set_entry_format(&mut e, repr.as_str(), " ");
    e
}

/// A node with one string argument.
pub fn str_node(name: &str, value: &str) -> (n: KdlNode)
    ensures
        kdl_node(n) == str_node_view(name@, value@),
{
    let mut n = new_node(name);
    push_entry(&mut n, str_entry(value));
    assert(kdl_node(n).entries =~= seq![str_entry_view(value@)]);
    n
}

/// A node with one integer argument.
pub fn int_node(name: &str, value: u32) -> (n: KdlNode)
    ensures
        kdl_node(n) == node_with(name@, int_entry_view(value as int)),
{
    let mut n = new_node(name);
    push_entry(&mut n, int_entry(value));
    assert(kdl_node(n).entries =~= seq![int_entry_view(value as int)]);
    n
}

proof fn lemma_first_arg_skip(es: Seq<KEntry>, i: int)
    requires
        0 <= i < es.len(),
        es[i].name is Some,
    ensures
        first_arg_from(es, i) == first_arg_from(es, i + 1),
{
}

/// The position of the first argument entry of a node.
pub fn first_arg_index(n: &KdlNode) -> (r: Option<usize>)
    ensures
        opt_int(r) == first_arg_from(kdl_node(*n).entries, 0),
        r matches Some(i) ==> i < kdl_node(*n).entries.len(),
{
    let c = entry_count(n);
    let ghost es = kdl_node(*n).entries;
    let mut i: usize = 0;
    while i < c
        invariant
            c == es.len(),
            es == kdl_node(*n).entries,
            i <= c,
            first_arg_from(es, 0) == first_arg_from(es, i as int),
        decreases c - i,
    {
        if entry_is_argument(n, i) {
            return Some(i);
        }
        proof { lemma_first_arg_skip(es, i as int); }
        i = i + 1;
    }
    None
}

/// The first argument of a node, where it is a string.
pub fn first_arg(n: &KdlNode) -> (r: Option<String>)
    ensures
        opt_string(r) == arg_of(kdl_node(*n)),
{
    match first_arg_index(n) {
        Some(i) => entry_string(n, i),
        None => None,
    }
}

/// Whether a node has this name and, where given, this first argument.
pub fn node_matches(n: &KdlNode, name: &str, arg: Option<&str>) -> (b: bool)
    ensures
        b == matches_node(kdl_node(*n), name@, opt_str(arg)),
{
    let nm = node_name(n);
    if !str_eq(nm.as_str(), name) {
        return false;
    }
    match arg {
        None => true,
        Some(a) => match first_arg(n) {
            Some(f) => str_eq(f.as_str(), a),
            None => false,
        },
    }
}

proof fn lemma_find_skip(s: Seq<KNode>, name: Seq<char>, arg: Option<Seq<char>>, i: int)
    requires
        0 <= i < s.len(),
        !matches_node(s[i], name, arg),
    ensures
        find_from(s, name, arg, i) == find_from(s, name, arg, i + 1),
{
}

/// The first position whose node matches.
pub fn find_in(v: &Vec<KdlNode>, name: &str, arg: Option<&str>) -> (r: Option<usize>)
    ensures
        opt_int(r) == find_node(nodes_view(v@), name@, opt_str(arg)),
        r matches Some(i) ==> i < v@.len(),
{
    let ghost s = nodes_view(v@);
    let mut i: usize = 0;
    while i < v.len()
        invariant
            s == nodes_view(v@),
            i <= v@.len(),
            find_node(s, name@, opt_str(arg)) == find_from(s, name@, opt_str(arg), i as int),
        decreases v.len() - i,
    {
        if node_matches(&v[i], name, arg) {
            return Some(i);
        }
        proof { lemma_find_skip(s, name@, opt_str(arg), i as int); }
        i = i + 1;
    }
    None
}

/// A list of nodes without the ones that match.
pub fn retain_not(v: Vec<KdlNode>, name: &str, arg: Option<&str>) -> (r: Vec<KdlNode>)
    ensures
        nodes_view(r@) == without(nodes_view(v@), name@, opt_str(arg)),
{
    let ghost s = nodes_view(v@);
    let mut rest = v;
    let mut kept: Vec<KdlNode> = Vec::new();
    let ghost mut k: int = 0;
    while rest.len() > 0
        invariant
            0 <= k <= s.len(),
            nodes_view(rest@) == s.subrange(k, s.len() as int),
            nodes_view(kept@) == without(s.subrange(0, k), name@, opt_str(arg)),
        decreases rest.len(),
    {
        let ghost before = rest@;
        let n = rest.remove(0);
        proof {
            assert(nodes_view(before).len() == before.len());
            assert(n == before[0]);
            assert(nodes_view(before)[0] == kdl_node(before[0]));
            assert(s.subrange(k, s.len() as int)[0] == s[k]);
            assert(kdl_node(n) == s[k]);
            assert(s.subrange(0, k + 1).drop_last() =~= s.subrange(0, k));
            assert(rest@ == before.remove(0));
            assert forall|j: int| 0 <= j < rest@.len() implies nodes_view(rest@)[j] == s[k + 1 + j] by {
                assert(rest@[j] == before[j + 1]);
                assert(nodes_view(before)[j + 1] == kdl_node(before[j + 1]));
                assert(nodes_view(before)[j + 1] == s.subrange(k, s.len() as int)[j + 1]);
            }
            assert(nodes_view(rest@) =~= s.subrange(k + 1, s.len() as int));
        }
        let keep = !node_matches(&n, name, arg);
        let ghost kept_before = kept@;
        if keep {
            kept.push(n);
            proof {
                assert(nodes_view(kept@) =~= nodes_view(kept_before).push(kdl_node(n)));
            }
        }
        proof { k = k + 1; }
    }
    assert(s.subrange(0, k) =~= s);
    kept
}

/// Taking a node out of a list and putting another back at its place.
pub proof fn lemma_reinsert(v: Seq<KdlNode>, i: int, x: KdlNode)
    requires
        0 <= i < v.len(),
    ensures
        nodes_view(v.remove(i).insert(i, x)) == nodes_view(v).update(i, kdl_node(x)),
{
    assert(nodes_view(v.remove(i).insert(i, x)) =~= nodes_view(v).update(i, kdl_node(x)));
}

/// Appending a node to a list.
pub proof fn lemma_push(v: Seq<KdlNode>, x: KdlNode)
    ensures
        nodes_view(v.push(x)) == nodes_view(v).push(kdl_node(x)),
{
    assert(nodes_view(v.push(x)) =~= nodes_view(v).push(kdl_node(x)));
}

/// Replaces the first argument of a node, where it has one.
pub fn set_first_arg_exec(n: &mut KdlNode, e: KdlEntry)
    ensures
        kdl_node(*final(n)) == set_first_arg(kdl_node(*old(n)), kdl_entry(e)),
{
    match first_arg_index(n) {
        Some(i) => set_entry(n, i, e),
        None => {},
    }
}

/// Replaces the first argument of a node, or appends one where it has none.
pub fn set_or_push_arg_exec(n: &mut KdlNode, e: KdlEntry)
    ensures
        kdl_node(*final(n)) == set_or_push_arg(kdl_node(*old(n)), kdl_entry(e)),
{
    match first_arg_index(n) {
        Some(i) => set_entry(n, i, e),
        None => push_entry(n, e),
    }
}

/// Opens the children block of a node, creating an empty one where there is none:
/// returns the block, emptied, and the nodes it held.
pub fn open_block(n: &mut KdlNode) -> (r: (KdlDocument, Vec<KdlNode>))
    ensures
        kdl_node(*final(n)) == (KNode { children: None, ..kdl_node(*old(n)) }),
        nodes_view(r.1@) == kids(kdl_node(*old(n))),
        kdl_format(r.0) == block_format(kdl_node(*old(n))),
{
    let c = take_children(n);
    let mut d = match c {
        Some(d) => d,
        None => new_document(),
    };
    let v = take_nodes(&mut d);
    (d, v)
}

/// Puts a block holding the given nodes back as the children of a node; the block
/// keeps its leading and trailing text.
pub fn close_block(n: &mut KdlNode, d: KdlDocument, v: Vec<KdlNode>)
    ensures
        kdl_node(*final(n)) == (KNode { children: Some((nodes_view(v@), kdl_format(d))), ..kdl_node(*old(n)) }),
{
    let mut d = d;
    put_nodes(&mut d, v);
    set_children(n, d);
}

/// Sets the value of the first node named `name`, adding the node where there is none.
pub fn update_child_exec(v: &mut Vec<KdlNode>, name: &str, e: KdlEntry)
    ensures
        nodes_view(final(v)@) == update_child(nodes_view(old(v)@), name@, kdl_entry(e)),
{
    match find_in(v, name, None) {
        Some(i) => {
            let ghost before = v@;
            let mut n = v.remove(i);
            set_or_push_arg_exec(&mut n, e);
            v.insert(i, n);
            proof { lemma_reinsert(before, i as int, n); }
        },
        None => {
            let ghost before = v@;
            let mut n = new_node(name);
            push_entry(&mut n, e);
            assert(kdl_node(n).entries =~= seq![kdl_entry(e)]);
            v.push(n);
            proof { lemma_push(before, n); }
        },
    }
}

/// Sets the string value of the first node named `name` where a non-empty value is
/// given, and removes every node of that name otherwise.
pub fn upsert_or_remove_exec(v: Vec<KdlNode>, name: &str, value: Option<&str>) -> (r: Vec<KdlNode>)
    ensures
        nodes_view(r@) == upsert_or_remove(nodes_view(v@), name@, opt_str(value)),
{
    let mut v = v;
    match value {
        Some(val) => {
            if val.unicode_len() > 0 {
                match find_in(&v, name, None) {
                    Some(i) => {
                        let ghost before = v@;
                        let mut n = v.remove(i);
                        set_first_arg_exec(&mut n, str_entry(val));
                        v.insert(i, n);
                        proof { lemma_reinsert(before, i as int, n); }
                        v
                    },
                    None => {
                        let ghost before = v@;
                        let n = str_node(name, val);
                        v.push(n);
                        proof { lemma_push(before, n); }
                        v
                    },
                }
            } else {
                retain_not(v, name, None)
            }
        },
        None => retain_not(v, name, None),
    }
}

/// Sets the integer value of the first node named `name` where a value is given,
/// and removes every node of that name otherwise.
pub fn upsert_or_remove_int_exec(v: Vec<KdlNode>, name: &str, value: Option<u32>) -> (r: Vec<KdlNode>)
    ensures
        nodes_view(r@) == upsert_or_remove_int(nodes_view(v@), name@, value),
{
    let mut v = v;
    match value {
        Some(x) => {
            update_child_exec(&mut v, name, int_entry(x));
            v
        },
        None => retain_not(v, name, None),
    }
}

proof fn lemma_nth_skip(s: Seq<KNode>, name: Seq<char>, k: int, i: int)
    requires
        0 <= i < s.len(),
        s[i].name != name,
    ensures
        nth_from(s, name, k, i) == nth_from(s, name, k, i + 1),
{
}

/// The position of the `k`-th node (from 0) named `name`.
pub fn nth_named(v: &Vec<KdlNode>, name: &str, k: usize) -> (r: Option<usize>)
    ensures
        opt_int(r) == nth_from(nodes_view(v@), name@, k as int, 0),
        r matches Some(i) ==> i < v@.len(),
{
    let ghost s = nodes_view(v@);
    let mut i: usize = 0;
    let mut left: usize = k;
    while i < v.len()
        invariant
            s == nodes_view(v@),
            i <= v@.len(),
            nth_from(s, name@, k as int, 0) == nth_from(s, name@, left as int, i as int),
        decreases v.len() - i,
    {
        let nm = node_name(&v[i]);
        if str_eq(nm.as_str(), name) {
            if left == 0 {
                return Some(i);
            }
            left = left - 1;
        } else {
            proof { lemma_nth_skip(s, name@, left as int, i as int); }
        }
        i = i + 1;
    }
    None
}

/// The number of nodes named `name`.
pub fn count_named_exec(v: &Vec<KdlNode>, name: &str) -> (c: usize)
    ensures
        c == count_named(nodes_view(v@), name@),
{
    let ghost s = nodes_view(v@);
    let mut i: usize = 0;
    let mut c: usize = 0;
    while i < v.len()
        invariant
            s == nodes_view(v@),
            i <= v@.len(),
            c == count_named(s.subrange(0, i as int), name@),
            c <= i,
        decreases v.len() - i,
    {
        proof { assert(s.subrange(0, i + 1).drop_last() =~= s.subrange(0, i as int)); }
        let nm = node_name(&v[i]);
        if str_eq(nm.as_str(), name) {
            c = c + 1;
        }
        i = i + 1;
    }
    assert(s.subrange(0, i as int) =~= s);
    c
}

} // verus!
