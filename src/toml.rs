//! What the settings code relies on from toml_edit, stated over a model of a
//! TOML item: a map from each key path under the item to the kind of item
//! found there (the empty path is the item itself). Tables of either kind,
//! and inline tables, lead on to their entries; other values end a path.

use vstd::prelude::*;
use toml_edit::{DocumentMut, Item, Table, TomlError};

verus! {

/// The kind of a TOML item, with the value of a boolean or an integer.
#[derive(Clone, Copy, Debug, PartialEq, Eq, Structural)]
pub enum TomlNode {
    /// A table shown with its own header.
    Table,
    /// A table that is only a step on the way to the tables under it.
    ImplicitTable,
    /// A table written with dotted keys inside its parent.
    DottedTable,
    InlineTable,
    Boolean(bool),
    Integer(i64),
    /// An entry that holds no item.
    Empty,
    /// Any other value: a string, a float, a date, an array.
    Other,
}

/// What a TOML item holds, path by path.
pub type TomlTree = Map<Seq<Seq<char>>, TomlNode>;

/// The tree of a document that `text` parses to, or `None` where it is not TOML.
pub uninterp spec fn toml_parse(text: Seq<char>) -> Option<Map<Seq<Seq<char>>, TomlNode>>;

/// What an item holds.
pub uninterp spec fn item_tree(item: Item) -> Map<Seq<Seq<char>>, TomlNode>;

/// What a table holds.
pub uninterp spec fn table_tree(table: Table) -> Map<Seq<Seq<char>>, TomlNode>;

/// A tree of one item with nothing under it.
pub open spec fn leaf(n: TomlNode) -> TomlTree {
    Map::empty().insert(Seq::empty(), n)
}

pub open spec fn is_table_node(n: TomlNode) -> bool {
    n is Table || n is ImplicitTable || n is DottedTable || n is InlineTable
}

/// Whether the item of `m` is a table with an entry under `key`.
pub open spec fn has_entry(m: TomlTree, key: Seq<char>) -> bool {
    &&& m.contains_key(Seq::empty())
    &&& is_table_node(m[Seq::empty()])
    &&& m.contains_key(seq![key])
    &&& m[seq![key]] != TomlNode::Empty
}

/// The tree of the entry under `key`.
pub open spec fn subtree(m: TomlTree, key: Seq<char>) -> TomlTree {
    Map::new(|p: Seq<Seq<char>>| m.contains_key(seq![key] + p), |p: Seq<Seq<char>>| m[seq![key] + p])
}

/// `m` with the entry under `key` replaced by an item of tree `sub`.
pub open spec fn grafted(m: TomlTree, key: Seq<char>, sub: TomlTree) -> TomlTree {
    Map::new(
        |p: Seq<Seq<char>>|
            if p.len() > 0 && p[0] == key {
                sub.contains_key(p.drop_first())
            } else {
                m.contains_key(p)
            },
        |p: Seq<Seq<char>>|
            if p.len() > 0 && p[0] == key {
                sub[p.drop_first()]
            } else {
                m[p]
            },
    )
}

/// The value of an item that is a boolean.
pub open spec fn bool_node(m: TomlTree) -> Option<bool> {
    if m.contains_key(Seq::empty()) {
        match m[Seq::empty()] {
            TomlNode::Boolean(b) => Some(b),
            _ => None,
        }
    } else {
        None
    }
}

/// The value of an item that is an integer.
pub open spec fn integer_node(m: TomlTree) -> Option<i64> {
    if m.contains_key(Seq::empty()) {
        match m[Seq::empty()] {
            TomlNode::Integer(i) => Some(i),
            _ => None,
        }
    } else {
        None
    }
}

/// A tree of tables with headers, booleans and integers only.
pub open spec fn printable(m: TomlTree) -> bool {
    forall|p: Seq<Seq<char>>| #[trigger] m.contains_key(p) ==> (m[p] is Table || m[p] is Boolean
        || m[p] is Integer)
}

#[verifier::external_type_specification]
#[verifier::external_body]
pub struct ExItem(Item);

#[verifier::external_type_specification]
#[verifier::external_body]
pub struct ExTable(Table);

#[verifier::external_type_specification]
#[verifier::external_body]
pub struct ExTomlError(TomlError);

/// Relies on `DocumentMut`'s `FromStr` to parse `text`, and on
/// `DocumentMut::into_item` to hand back its root table as an item.
#[verifier::external_body]
pub(crate) fn parse_item(text: &str) -> (r: Result<Item, TomlError>)
    ensures
        (r is Ok) == (toml_parse(text@) is Some),
        r matches Ok(i) ==> toml_parse(text@) == Some(item_tree(i)),
{
    match text.parse::<DocumentMut>() {
        Ok(d) => Ok(d.into_item()),
        Err(e) => Err(e),
    }
}

/// Relies on `Item::get` with a string key: the entry under `key` of a table
/// or inline table, unless it holds no item.
#[verifier::external_body]
pub(crate) fn item_entry(item: &Item, key: &str) -> (r: Option<Item>)
    ensures
        (r is Some) == has_entry(item_tree(*item), key@),
        r matches Some(e) ==> item_tree(e) == subtree(item_tree(*item), key@),
{
    item.get(key).cloned()
}

/// Relies on `Item::as_bool`: the value of a boolean.
#[verifier::external_body]
pub(crate) fn item_bool(item: &Item) -> (r: Option<bool>)
    ensures
        r == bool_node(item_tree(*item)),
{
    item.as_bool()
}

/// Relies on `Item::as_integer`: the value of an integer.
#[verifier::external_body]
pub(crate) fn item_integer(item: &Item) -> (r: Option<i64>)
    ensures
        r == integer_node(item_tree(*item)),
{
    item.as_integer()
}

/// Relies on `Table::new`: an empty table, shown with its header.
#[verifier::external_body]
pub(crate) fn new_table() -> (r: Table)
    ensures
        table_tree(r) == leaf(TomlNode::Table),
{
    Table::new()
}

/// Relies on `Table::insert`: puts `item` under `key`, in place of what was there.
#[verifier::external_body]
pub(crate) fn table_insert(table: &mut Table, key: &str, item: Item)
    ensures
        table_tree(*final(table)) == grafted(table_tree(*old(table)), key@, item_tree(item)),
{
    table.insert(key, item);
}

/// Relies on `toml_edit::value` for a boolean.
#[verifier::external_body]
pub(crate) fn bool_item(b: bool) -> (r: Item)
    ensures
        item_tree(r) == leaf(TomlNode::Boolean(b)),
{
    toml_edit::value(b)
}

/// Relies on `toml_edit::value` for an integer.
#[verifier::external_body]
pub(crate) fn integer_item(i: i64) -> (r: Item)
    ensures
        item_tree(r) == leaf(TomlNode::Integer(i)),
{
    toml_edit::value(i)
}

/// Relies on `Item::Table`: a table as an item.
#[verifier::external_body]
pub(crate) fn table_item(table: Table) -> (r: Item)
    ensures
        item_tree(r) == table_tree(table),
{
    Item::Table(table)
}

/// Relies on `DocumentMut`'s `From<Table>` and `Display`: the TOML text of a
/// document with `table` as its root, which parses back to the same tree
/// where the tree holds only tables with headers, booleans and integers.
#[verifier::external_body]
pub(crate) fn document_text(table: Table) -> (r: String)
    requires
        printable(table_tree(table)),
    ensures
        toml_parse(r@) == Some(table_tree(table)),
{
    DocumentMut::from(table).to_string()
}

/// The entry under `key` leaves the tree of `m` as it found it when another
/// key is replaced.
pub proof fn lemma_grafted_other(m: TomlTree, key: Seq<char>, sub: TomlTree, other: Seq<char>)
    requires
        key != other,
    ensures
        subtree(grafted(m, key, sub), other) == subtree(m, other),
        has_entry(grafted(m, key, sub), other) == has_entry(m, other),
{
    let g = grafted(m, key, sub);
    assert forall|p: Seq<Seq<char>>| #[trigger] subtree(g, other).contains_key(p)
        == subtree(m, other).contains_key(p) by {
        assert((seq![other] + p)[0] == other);
    }
    assert forall|p: Seq<Seq<char>>| #[trigger] subtree(g, other).contains_key(p) implies subtree(
        g,
        other,
    )[p] == subtree(m, other)[p] by {
        assert((seq![other] + p)[0] == other);
    }
    assert(subtree(g, other) =~= subtree(m, other));
    assert(seq![other][0] == other);
    assert(g.contains_key(Seq::empty()) == m.contains_key(Seq::empty()));
}

/// The entry just put under `key` is the item of tree `sub`.
pub proof fn lemma_grafted_same(m: TomlTree, key: Seq<char>, sub: TomlTree)
    ensures
        subtree(grafted(m, key, sub), key) == sub,
        has_entry(grafted(m, key, sub), key) == (m.contains_key(Seq::empty()) && is_table_node(
            m[Seq::empty()],
        ) && sub.contains_key(Seq::empty()) && sub[Seq::empty()] != TomlNode::Empty),
{
    let g = grafted(m, key, sub);
    assert forall|p: Seq<Seq<char>>| #[trigger] subtree(g, key).contains_key(p)
        == sub.contains_key(p) by {
        assert((seq![key] + p)[0] == key);
        assert((seq![key] + p).drop_first() =~= p);
    }
    assert forall|p: Seq<Seq<char>>| #[trigger] subtree(g, key).contains_key(p) implies subtree(
        g,
        key,
    )[p] == sub[p] by {
        assert((seq![key] + p)[0] == key);
        assert((seq![key] + p).drop_first() =~= p);
    }
    assert(subtree(g, key) =~= sub);
    assert(seq![key].drop_first() =~= Seq::<Seq<char>>::empty());
    assert(seq![key][0] == key);
    assert(g.contains_key(Seq::empty()) == m.contains_key(Seq::empty()));
}

/// Replacing an entry leaves the item itself as it was.
pub proof fn lemma_grafted_root(m: TomlTree, key: Seq<char>, sub: TomlTree)
    ensures
        grafted(m, key, sub).contains_key(Seq::empty()) == m.contains_key(Seq::empty()),
        m.contains_key(Seq::empty()) ==> grafted(m, key, sub)[Seq::empty()] == m[Seq::empty()],
{
}

/// Replacing an entry with a printable item keeps a tree printable.
pub proof fn lemma_grafted_printable(m: TomlTree, key: Seq<char>, sub: TomlTree)
    requires
        printable(m),
        printable(sub),
    ensures
        printable(grafted(m, key, sub)),
{
    let g = grafted(m, key, sub);
    assert forall|p: Seq<Seq<char>>| #[trigger] g.contains_key(p) implies (g[p] is Table
        || g[p] is Boolean || g[p] is Integer) by {
        if p.len() > 0 && p[0] == key {
            assert(sub.contains_key(p.drop_first()));
        } else {
            assert(m.contains_key(p));
        }
    }
}

} // verus!
