//! The KDL document layer: the parsed document of the `kdl` crate, the
//! plain model it is read as, and the node-level edits built on it.
use vstd::prelude::*;
use kdl::{KdlDocument, KdlEntry, KdlEntryFormat, KdlError, KdlNode, KdlValue};
use crate::text::{chars_of, str_eq};

verus! {

#[verifier::external_type_specification]
#[verifier::external_body]
pub struct ExKdlDocument(KdlDocument);

#[verifier::external_type_specification]
#[verifier::external_body]
pub struct ExKdlNode(KdlNode);

#[verifier::external_type_specification]
#[verifier::external_body]
pub struct ExKdlEntry(KdlEntry);

#[verifier::external_type_specification]
#[verifier::external_body]
pub struct ExKdlError(KdlError);

#[verifier::external_type_specification]
#[verifier::external_body]
pub struct ExKdlValue(KdlValue);

/// The value of an entry: a string, an integer, or any other value as itself.
pub enum KValue {
    Str(Seq<char>),
    Int(int),
    Other(KdlValue),
}

/// How an entry is written, beside what it holds: its type annotation (the name and
/// how it was written), how its name was written, and its formatting, if it has one:
/// the value's text, then the whitespace and comments `leading`, `trailing`,
/// `after_ty`, `before_ty_name`, `after_ty_name`, `after_key`, `after_eq`, in that
/// order, and whether autoformatting keeps it.
pub struct EntryLook {
    pub ty: Option<(Seq<char>, Option<Seq<char>>)>,
    pub name_repr: Option<Seq<char>>,
    pub format: Option<(Seq<Seq<char>>, bool)>,
}

/// An entry of a node: an argument (no name) or a property (a name), its value, and
/// how it is written.
pub struct KEntry {
    pub name: Option<Seq<char>>,
    pub value: KValue,
    pub look: EntryLook,
}

/// How a node is written, beside what it holds: its type annotation, how its name
/// was written, and its formatting, if it has one: the whitespace and comments
/// `leading`, `before_ty_name`, `after_ty_name`, `after_ty`, `before_children`,
/// `before_terminator`, then the terminator and the `trailing` text, in that order.
pub struct NodeLook {
    pub ty: Option<(Seq<char>, Option<Seq<char>>)>,
    pub name_repr: Option<Seq<char>>,
    pub format: Option<Seq<Seq<char>>>,
}

/// A node: its name, its entries in order, its children block, if any (the nodes it
/// holds, and its leading and trailing text as `kdl_format` gives a document's), and
/// how it is written.
pub struct KNode {
    pub name: Seq<char>,
    pub entries: Seq<KEntry>,
    pub children: Option<(Seq<KNode>, Option<(Seq<char>, Seq<char>)>)>,
    pub look: NodeLook,
}

/// How a node made by `KdlNode::new` is written: no type annotation, its name as
/// given, and empty formatting but for a trailing newline.
pub open spec fn new_node_look() -> NodeLook {
    NodeLook {
        ty: None,
        name_repr: None,
        format: Some(seq![Seq::empty(), Seq::empty(), Seq::empty(), Seq::empty(), Seq::empty(), Seq::empty(),
            Seq::empty(), "\n"@]),
    }
}

/// How an entry made by `KdlEntry::new` is written: no type annotation, no name, no
/// formatting.
pub open spec fn bare_entry_look() -> EntryLook {
    EntryLook { ty: None, name_repr: None, format: None }
}

/// How an entry is written after `set_entry_format` with a value text and a leading
/// text: the rest of its formatting empty.
pub open spec fn formatted_look(ty: Option<(Seq<char>, Option<Seq<char>>)>, name_repr: Option<Seq<char>>,
    value_repr: Seq<char>, leading: Seq<char>) -> EntryLook
{
    EntryLook {
        ty: ty,
        name_repr: name_repr,
        format: Some((seq![value_repr, leading, Seq::empty(), Seq::empty(), Seq::empty(), Seq::empty(),
            Seq::empty(), Seq::empty()], false)),
    }
}

/// The document that `KdlDocument::parse` makes of a text, as its nodes and its
/// leading and trailing text (see `kdl_format`), or `None` where it refuses the text.
pub uninterp spec fn kdl_parsed(text: Seq<char>) -> Option<(Seq<KNode>, Option<(Seq<char>, Seq<char>)>)>;

/// The whitespace and comments of a document before its first node and after its
/// last one (`KdlDocument::format`, its `leading` and `trailing` text), where it has
/// them.
pub uninterp spec fn kdl_format(d: KdlDocument) -> Option<(Seq<char>, Seq<char>)>;

/// The nodes a document holds, in order.
pub uninterp spec fn kdl_document(d: KdlDocument) -> Seq<KNode>;

/// A node's fields as plain values: its name, its entries, its children block and
/// how it is written (`KdlNode`'s `name`, `entries`, `children`, `ty` and `format`).
pub uninterp spec fn kdl_node(n: KdlNode) -> KNode;

/// An entry's fields as plain values: its name, its value and how it is written
/// (`KdlEntry`'s `name`, `value`, `ty` and `format`).
pub uninterp spec fn kdl_entry(e: KdlEntry) -> KEntry;

/// The text a document prints as.
pub uninterp spec fn kdl_text(d: KdlDocument) -> Seq<char>;

/// The model of a sequence of nodes.
pub open spec fn nodes_view(s: Seq<KdlNode>) -> Seq<KNode> {
    s.map_values(|n: KdlNode| kdl_node(n))
}

/// Parses a text into a document (`KdlDocument::parse`, through `FromStr`).
/// The contract claims only that the document's nodes and leading and trailing
/// text are the name of what parsing the text gives, and that an error comes
/// exactly where that name is `None`.
#[verifier::external_body]
pub(crate) fn parse_document(text: &str) -> (r: Result<KdlDocument, KdlError>)
    ensures
        match r {
            Ok(d) => kdl_parsed(text@) == Some((kdl_document(d), kdl_format(d))),
            Err(_) => kdl_parsed(text@) is None,
        },
{
    text.parse::<KdlDocument>()
}

/// The message of a parse error (`Display` of `KdlError`); nothing is claimed of it.
#[verifier::external_body]
pub(crate) fn error_message(e: &KdlError) -> String {
    e.to_string()
}

/// Prints a document (`Display` of `KdlDocument`).
#[verifier::external_body]
pub(crate) fn document_text(d: &KdlDocument) -> (s: String)
    ensures
        s@ == kdl_text(*d),
{
    d.to_string()
}

/// A new, empty document (`KdlDocument::new`).
#[verifier::external_body]
pub(crate) fn new_document() -> (d: KdlDocument)
    ensures
        kdl_document(d) == Seq::<KNode>::empty(),
        kdl_format(d) is None,
{
    KdlDocument::new()
}

/// Moves the nodes out of a document (`KdlDocument::nodes_mut`), leaving it empty;
/// its leading and trailing text stay.
#[verifier::external_body]
pub(crate) fn take_nodes(d: &mut KdlDocument) -> (v: Vec<KdlNode>)
    ensures
        nodes_view(v@) == kdl_document(*old(d)),
        kdl_document(*final(d)) == Seq::<KNode>::empty(),
        kdl_format(*final(d)) == kdl_format(*old(d)),
{
    std::mem::take(d.nodes_mut())
}

/// Replaces the nodes of a document (`KdlDocument::nodes_mut`); its leading and
/// trailing text stay.
#[verifier::external_body]
pub(crate) fn put_nodes(d: &mut KdlDocument, v: Vec<KdlNode>)
    ensures
        kdl_document(*final(d)) == nodes_view(v@),
        kdl_format(*final(d)) == kdl_format(*old(d)),
{
    *d.nodes_mut() = v;
}

/// The name of a node (`KdlNode::name`, then `KdlIdentifier::value`).
#[verifier::external_body]
pub(crate) fn node_name(n: &KdlNode) -> (s: String)
    ensures
        s@ == kdl_node(*n).name,
{
    n.name().value().to_string()
}

/// A new node with a name, no entries and no children (`KdlNode::new`).
#[verifier::external_body]
pub(crate) fn new_node(name: &str) -> (n: KdlNode)
    ensures
        kdl_node(n) == (KNode { name: name@, entries: Seq::empty(), children: None, look: new_node_look() }),
{
    KdlNode::new(name)
}

/// The number of entries of a node (`KdlNode::entries`).
#[verifier::external_body]
pub(crate) fn entry_count(n: &KdlNode) -> (c: usize)
    ensures
        c == kdl_node(*n).entries.len(),
{
    n.entries().len()
}

/// Whether the entry at `i` is an argument, i.e. has no name (`KdlEntry::name`).
#[verifier::external_body]
pub(crate) fn entry_is_argument(n: &KdlNode, i: usize) -> (b: bool)
    requires
        i < kdl_node(*n).entries.len(),
    ensures
        b == (kdl_node(*n).entries[i as int].name is None),
{
    n.entries()[i].name().is_none()
}

/// The string value of the entry at `i`, if it is a string (`KdlValue::as_string`).
#[verifier::external_body]
pub(crate) fn entry_string(n: &KdlNode, i: usize) -> (r: Option<String>)
    requires
        i < kdl_node(*n).entries.len(),
    ensures
        match r {
            Some(s) => kdl_node(*n).entries[i as int].value == KValue::Str(s@),
            None => !(kdl_node(*n).entries[i as int].value is Str),
        },
{
    n.entries()[i].value().as_string().map(|s| s.to_string())
}

/// Replaces the entry at `i` (`KdlNode::entries_mut`).
#[verifier::external_body]
pub(crate) fn set_entry(n: &mut KdlNode, i: usize, e: KdlEntry)
    requires
        i < kdl_node(*old(n)).entries.len(),
    ensures
        kdl_node(*final(n)) == (KNode {
            entries: kdl_node(*old(n)).entries.update(i as int, kdl_entry(e)),
            ..kdl_node(*old(n))
        }),
{
    n.entries_mut()[i] = e;
}

/// Appends an entry (`KdlNode::push`).
#[verifier::external_body]
pub(crate) fn push_entry(n: &mut KdlNode, e: KdlEntry)
    ensures
        kdl_node(*final(n)) == (KNode {
            entries: kdl_node(*old(n)).entries.push(kdl_entry(e)),
            ..kdl_node(*old(n))
        }),
{
    n.push(e);
}

/// Moves the children block out of a node (`KdlNode::children_mut`).
#[verifier::external_body]
pub(crate) fn take_children(n: &mut KdlNode) -> (c: Option<KdlDocument>)
    ensures
        kdl_node(*final(n)) == (KNode { children: None, ..kdl_node(*old(n)) }),
        match c {
            Some(d) => kdl_node(*old(n)).children == Some((kdl_document(d), kdl_format(d))),
            None => kdl_node(*old(n)).children is None,
        },
{
    n.children_mut().take()
}

/// Sets the children block of a node (`KdlNode::set_children`).
#[verifier::external_body]
pub(crate) fn set_children(n: &mut KdlNode, c: KdlDocument)
    ensures
        kdl_node(*final(n)) == (KNode { children: Some((kdl_document(c), kdl_format(c))), ..kdl_node(*old(n)) }),
{
    n.set_children(c);
}

/// A new argument entry holding a string (`KdlEntry::new` with `KdlValue::String`).
#[verifier::external_body]
pub(crate) fn new_string_entry(value: &str) -> (e: KdlEntry)
    ensures
        kdl_entry(e) == (KEntry { name: None, value: KValue::Str(value@), look: bare_entry_look() }),
{
    KdlEntry::new(KdlValue::String(value.to_string()))
}

/// A new argument entry holding an integer (`KdlEntry::new` with `KdlValue::Integer`).
#[verifier::external_body]
pub(crate) fn new_integer_entry(value: u32) -> (e: KdlEntry)
    ensures
        kdl_entry(e) == (KEntry { name: None, value: KValue::Int(value as int), look: bare_entry_look() }),
{
    KdlEntry::new(KdlValue::Integer(value as i128))
}

/// Sets how an entry prints (`KdlEntry::set_format`): its value's text and its
/// leading text, the rest of its formatting the default, empty; what it holds and
/// its type annotation and name are unchanged.
#[verifier::external_body]
pub(crate) fn set_entry_format(e: &mut KdlEntry, value_repr: &str, leading: &str)
    ensures
        kdl_entry(*final(e)) == (KEntry {
            look: formatted_look(kdl_entry(*old(e)).look.ty, kdl_entry(*old(e)).look.name_repr, value_repr@, leading@),
            ..kdl_entry(*old(e))
        }),
{
    e.set_format(KdlEntryFormat {
        value_repr: value_repr.to_string(),
        leading: leading.to_string(),
        ..Default::default()
    });
}

} // verus!
