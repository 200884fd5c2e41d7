//! Nested keys in `toml_edit` documents.
//!
//! A dotted key path such as `goal.coding` names the string `coding` inside
//! the table `[goal]`. Documents are edited in place through `toml_edit`, so
//! that the formatting and comments of a file survive an edit; the walk over
//! the tables, the creation of missing tables and the pruning of emptied
//! ones are verified here against a model of the document as nested maps.

use vstd::prelude::*;
use toml_edit::{DocumentMut, Item, Table};
use crate::text::{opt_view, views};

verus! {

#[verifier::external_type_specification]
#[verifier::external_body]
pub struct ExDocumentMut(toml_edit::DocumentMut);

#[verifier::external_type_specification]
#[verifier::external_body]
pub struct ExTable(toml_edit::Table);

#[verifier::external_type_specification]
#[verifier::external_body]
pub struct ExItem(toml_edit::Item);

/// What a TOML item holds, as far as nested keys see it: a string, a
/// standard table, an inline table, or anything else (numbers, arrays, ...).
pub enum TomlNode {
    Text(Seq<char>),
    Tab(Map<Seq<char>, TomlNode>),
    Inline(Map<Seq<char>, TomlNode>),
    Other,
}

/// The entries of a document's root table, by key.
pub uninterp spec fn doc_entries(d: DocumentMut) -> Map<Seq<char>, TomlNode>;

/// The entries of a table, by key.
pub uninterp spec fn table_entries(t: Table) -> Map<Seq<char>, TomlNode>;

/// What an item holds.
pub uninterp spec fn item_node(i: Item) -> TomlNode;

/// The entries of the document that `text` parses to, or `None` where it is
/// not valid TOML.
pub uninterp spec fn parsed_toml(text: Seq<char>) -> Option<Map<Seq<char>, TomlNode>>;

/// A table with no entries.
pub open spec fn no_entries() -> Map<Seq<char>, TomlNode> {
    Map::empty()
}

/// The string reached from `n` through the keys `segs`, descending into
/// standard and inline tables; `None` where a key is missing, a step meets
/// something other than a table, or the end is not a string.
pub open spec fn lookup(n: TomlNode, segs: Seq<Seq<char>>) -> Option<Seq<char>>
    decreases segs.len(),
{
    if segs.len() == 0 {
        match n {
            TomlNode::Text(s) => Some(s),
            _ => None,
        }
    } else {
        match n {
            TomlNode::Tab(m) => if m.contains_key(segs[0]) {
                lookup(m[segs[0]], segs.drop_first())
            } else {
                None
            },
            TomlNode::Inline(m) => if m.contains_key(segs[0]) {
                lookup(m[segs[0]], segs.drop_first())
            } else {
                None
            },
            _ => None,
        }
    }
}

/// Parses `text` as a TOML document (`str::parse` into `DocumentMut`).
///
/// Trusted: toml_edit's parser is a function of the text; the contract
/// names its result and says that it fails exactly where the name has none.
#[verifier::external_body]
fn parse_document(text: &str) -> (r: Option<DocumentMut>)
    ensures
        r is Some <==> parsed_toml(text@) is Some,
        r is Some ==> doc_entries(r->0) == parsed_toml(text@)->0,
{
    text.parse::<DocumentMut>().ok()
}

/// A new, empty document (`DocumentMut::new`).
///
/// Trusted: toml_edit's new document has an empty root table.
#[verifier::external_body]
fn empty_document() -> (r: DocumentMut)
    ensures
        doc_entries(r) == no_entries(),
{
    DocumentMut::new()
}

/// The document held by the file text `text`: an empty document where
/// there is no text or it is not valid TOML.
pub fn load_document(text: Option<String>) -> (r: DocumentMut)
    ensures
        doc_entries(r) == match opt_view(text) {
            Some(t) => match parsed_toml(t) {
                Some(m) => m,
                None => no_entries(),
            },
            None => no_entries(),
        },
{
    match text {
        Some(t) => match parse_document(t.as_str()) {
            Some(d) => d,
            None => empty_document(),
        },
        None => empty_document(),
    }
}

/// The root of a document as an item (`DocumentMut::as_item`).
///
/// Trusted: toml_edit's document keeps its root table as an item; the
/// contract says that this item is the standard table of the document's
/// entries.
#[verifier::external_body]
fn doc_item(d: &DocumentMut) -> (r: &Item)
    ensures
        item_node(*r) == TomlNode::Tab(doc_entries(*d)),
{
    d.as_item()
}

/// The item under `key` in a table-like item (`Item::get` with a string).
///
/// Trusted: toml_edit's `Index` for `str` looks the key up in a standard
/// table or an inline table, skipping empty items, and gives `None` for any
/// other item; the contract says so over the model.
#[verifier::external_body]
fn item_get<'a>(i: &'a Item, key: &str) -> (r: Option<&'a Item>)
    ensures
        match item_node(*i) {
            TomlNode::Tab(m) => (r is Some <==> m.contains_key(key@))
                && (r is Some ==> item_node(*r->0) == m[key@]),
            TomlNode::Inline(m) => (r is Some <==> m.contains_key(key@))
                && (r is Some ==> item_node(*r->0) == m[key@]),
            _ => r is None,
        },
{
    i.get(key)
}

/// The string an item holds (`Item::as_str`), copied out.
///
/// Trusted: toml_edit gives the string of a string value and `None` for
/// every other item.
#[verifier::external_body]
fn item_str(i: &Item) -> (r: Option<String>)
    ensures
        match item_node(*i) {
            TomlNode::Text(s) => r is Some && r->0@ == s,
            _ => r is None,
        },
{
    i.as_str().map(|s| s.to_owned())
}

/// The string stored at the key path `segs` of `doc`, walking standard and
/// inline tables; `None` where the path does not lead to a string.
pub fn get_nested(doc: &DocumentMut, segs: &[String]) -> (r: Option<String>)
    ensures
        opt_view(r) == lookup(TomlNode::Tab(doc_entries(*doc)), views(segs@)),
{
    let mut item = doc_item(doc);
    let mut i: usize = 0;
    assert(views(segs@).skip(0) =~= views(segs@));
    while i < segs.len()
        invariant
            i <= segs@.len(),
            lookup(item_node(*item), views(segs@).skip(i as int))
                == lookup(TomlNode::Tab(doc_entries(*doc)), views(segs@)),
        decreases segs@.len() - i,
    {
        let ghost rest = views(segs@).skip(i as int);
        assert(rest.drop_first() =~= views(segs@).skip(i + 1));
        assert(rest[0] == segs@[i as int]@);
        match item_get(item, segs[i].as_str()) {
            Some(next) => {
                item = next;
            },
            None => {
                return None;
            },
        }
        i = i + 1;
    }
    assert(views(segs@).skip(i as int) =~= Seq::<Seq<char>>::empty());
    item_str(item)
}

/// The document after storing the string `v` at the key path `segs` of
/// the entries `m`, with the string that was there before: missing tables
/// on the way are created; where an existing key on the way holds anything
/// but a standard table, nothing changes and nothing was there.
pub open spec fn set_path(m: Map<Seq<char>, TomlNode>, segs: Seq<Seq<char>>, v: Seq<char>)
    -> (Map<Seq<char>, TomlNode>, Option<Seq<char>>)
    decreases segs.len(),
{
    if segs.len() <= 1 {
        let k = segs[0];
        let old = if m.contains_key(k) {
            match m[k] {
                TomlNode::Text(s) => Some(s),
                _ => None,
            }
        } else {
            None
        };
        (m.insert(k, TomlNode::Text(v)), old)
    } else if !m.contains_key(segs[0]) {
        let r = set_path(Map::empty(), segs.drop_first(), v);
        (m.insert(segs[0], TomlNode::Tab(r.0)), r.1)
    } else {
        match m[segs[0]] {
            TomlNode::Tab(c) => {
                let r = set_path(c, segs.drop_first(), v);
                (m.insert(segs[0], TomlNode::Tab(r.0)), r.1)
            },
            _ => (m, None),
        }
    }
}

/// The document after removing the key path `segs` from the entries `m`,
/// with the string that was removed: the last key is removed whatever it
/// holds, but only a string counts as removed; a standard table on the way
/// that this leaves empty is removed as well.
pub open spec fn remove_path(m: Map<Seq<char>, TomlNode>, segs: Seq<Seq<char>>)
    -> (Map<Seq<char>, TomlNode>, Option<Seq<char>>)
    decreases segs.len(),
{
    if segs.len() <= 1 {
        let k = segs[0];
        let old = if m.contains_key(k) {
            match m[k] {
                TomlNode::Text(s) => Some(s),
                _ => None,
            }
        } else {
            None
        };
        (m.remove(k), old)
    } else if !m.contains_key(segs[0]) {
        (m, None)
    } else {
        match m[segs[0]] {
            TomlNode::Tab(c) => {
                let r = remove_path(c, segs.drop_first());
                if r.1 is Some && r.0 == no_entries() {
                    (m.remove(segs[0]), r.1)
                } else {
                    (m.insert(segs[0], TomlNode::Tab(r.0)), r.1)
                }
            },
            _ => (m, None),
        }
    }
}

/// Takes the root table out of a document, leaving an empty one.
///
/// Trusted: `DocumentMut::as_table_mut` is the document's root table, and
/// `std::mem::take` swaps an empty table in; the contract says that the
/// table taken holds the document's entries.
#[verifier::external_body]
pub(crate) fn take_root(d: &mut DocumentMut) -> (r: Table)
    ensures
        table_entries(r) == doc_entries(*old(d)),
        doc_entries(*final(d)) == no_entries(),
{
    std::mem::take(d.as_table_mut())
}

/// Puts a root table back into a document.
///
/// Trusted: assigning through `DocumentMut::as_table_mut` replaces the
/// root table; the document then holds that table's entries.
#[verifier::external_body]
pub(crate) fn put_root(d: &mut DocumentMut, t: Table)
    ensures
        doc_entries(*final(d)) == table_entries(t),
{
    *d.as_table_mut() = t;
}

/// Whether a table has a (non-empty) item under `key` (`Table::contains_key`).
///
/// Trusted: toml_edit answers whether the key maps to an item other than
/// the empty one, which is the model's domain.
#[verifier::external_body]
pub(crate) fn table_has(t: &Table, key: &str) -> (r: bool)
    ensures
        r == table_entries(*t).contains_key(key@),
{
    t.contains_key(key)
}

/// Inserts a new, empty standard table under `key` (`Table::insert`).
///
/// Trusted: toml_edit's `insert` maps the key to the given item, replacing
/// any item there.
#[verifier::external_body]
pub(crate) fn table_insert_empty(t: &mut Table, key: &str)
    ensures
        table_entries(*final(t)) == table_entries(*old(t)).insert(key@, TomlNode::Tab(Map::empty())),
{
    t.insert(key, Item::Table(Table::new()));
}

/// Takes the standard table under `key` out of `t` (`Table::get_mut` and
/// `std::mem::take`), leaving an empty table in its place so that the key
/// keeps its position; `None`, with `t` unchanged, where `key` holds no
/// standard table.
///
/// Trusted: the contract states what `get_mut` and `take` do to the model.
#[verifier::external_body]
pub(crate) fn take_child(t: &mut Table, key: &str) -> (r: Option<Table>)
    ensures
        table_entries(*old(t)).contains_key(key@) && table_entries(*old(t))[key@] is Tab ==> {
            &&& r is Some
            &&& TomlNode::Tab(table_entries(r->0)) == table_entries(*old(t))[key@]
            &&& table_entries(*final(t)) == table_entries(*old(t)).insert(key@, TomlNode::Tab(Map::empty()))
        },
        !(table_entries(*old(t)).contains_key(key@) && table_entries(*old(t))[key@] is Tab) ==> {
            &&& r is None
            &&& table_entries(*final(t)) == table_entries(*old(t))
        },
{
    match t.get_mut(key) {
        Some(Item::Table(c)) => Some(std::mem::take(c)),
        _ => None,
    }
}

/// Puts the standard table `c` back under `key`, where `key` holds a
/// standard table (`Table::get_mut` and assignment); otherwise `t` is left
/// as it is.
///
/// Trusted: the contract states what the assignment does to the model.
#[verifier::external_body]
pub(crate) fn put_child(t: &mut Table, key: &str, c: Table)
    ensures
        table_entries(*old(t)).contains_key(key@) && table_entries(*old(t))[key@] is Tab
            ==> table_entries(*final(t)) == table_entries(*old(t)).insert(key@, TomlNode::Tab(table_entries(c))),
        !(table_entries(*old(t)).contains_key(key@) && table_entries(*old(t))[key@] is Tab)
            ==> table_entries(*final(t)) == table_entries(*old(t)),
{
    if let Some(Item::Table(slot)) = t.get_mut(key) {
        *slot = c;
    }
}

/// The string under `key` in a table (`Table::get` and `Item::as_str`).
///
/// Trusted: toml_edit gives the string of a string value and `None` for a
/// missing key or any other item.
#[verifier::external_body]
fn table_get_str(t: &Table, key: &str) -> (r: Option<String>)
    ensures
        table_entries(*t).contains_key(key@) && table_entries(*t)[key@] is Text
            ==> r is Some && r->0@ == table_entries(*t)[key@]->Text_0,
        !(table_entries(*t).contains_key(key@) && table_entries(*t)[key@] is Text) ==> r is None,
{
    t.get(key).and_then(|i| i.as_str()).map(|s| s.to_owned())
}

/// Stores the string `val` under `key` (`Table::insert` with
/// `toml_edit::value`).
///
/// Trusted: `insert` maps the key to a string value, replacing any item
/// there.
#[verifier::external_body]
fn table_set_str(t: &mut Table, key: &str, val: &str)
    ensures
        table_entries(*final(t)) == table_entries(*old(t)).insert(key@, TomlNode::Text(val@)),
{
    t.insert(key, toml_edit::value(val));
}

/// Removes `key` from a table (`Table::remove`), giving back the string
/// that was there; `None` where the item removed was not a string.
///
/// Trusted: toml_edit's `remove` drops the key whatever it holds; the
/// string is read from the removed item as toml_edit converts it to a
/// value.
#[verifier::external_body]
pub(crate) fn table_remove(t: &mut Table, key: &str) -> (r: Option<String>)
    ensures
        table_entries(*final(t)) == table_entries(*old(t)).remove(key@),
        table_entries(*old(t)).contains_key(key@) && table_entries(*old(t))[key@] is Text
            ==> r is Some && r->0@ == table_entries(*old(t))[key@]->Text_0,
        !(table_entries(*old(t)).contains_key(key@) && table_entries(*old(t))[key@] is Text) ==> r is None,
{
    match t.remove(key).and_then(|i| i.into_value().ok()) {
        Some(toml_edit::Value::String(s)) => Some(s.into_value()),
        _ => None,
    }
}

/// Stores the standard table `c` under `key` (`Table::insert`).
///
/// Trusted: `insert` maps the key to the given table, replacing any item
/// there.
#[verifier::external_body]
pub(crate) fn table_insert_table(t: &mut Table, key: &str, c: Table)
    ensures
        table_entries(*final(t)) == table_entries(*old(t)).insert(key@, TomlNode::Tab(table_entries(c))),
{
    t.insert(key, Item::Table(c));
}

/// Whether a table has no items (`Table::is_empty`).
///
/// Trusted: toml_edit counts the keys that map to an item other than the
/// empty one.
#[verifier::external_body]
fn table_is_empty(t: &Table) -> (r: bool)
    ensures
        r == (table_entries(*t) == no_entries()),
{
    t.is_empty()
}

/// Stores `val` at `segs[i..]` below `t`; see [`set_path`].
fn set_in(t: &mut Table, segs: &[String], i: usize, val: &str) -> (r: Option<String>)
    requires
        i < segs@.len(),
    ensures
        (table_entries(*final(t)), opt_view(r)) == set_path(table_entries(*old(t)), views(segs@).skip(i as int), val@),
    decreases segs@.len() - i,
{
    let ghost rest = views(segs@).skip(i as int);
    assert(rest[0] == segs@[i as int]@);
    let key = segs[i].as_str();
    if i + 1 == segs.len() {
        let old = table_get_str(t, key);
        table_set_str(t, key, val);
        return old;
    }
    assert(rest.drop_first() =~= views(segs@).skip(i + 1));
    if !table_has(t, key) {
        table_insert_empty(t, key);
    }
    let ghost mid = table_entries(*t);
    match take_child(t, key) {
        None => None,
        Some(mut c) => {
            let r = set_in(&mut c, segs, i + 1, val);
            put_child(t, key, c);
            assert(table_entries(*t) =~= mid.insert(key@, TomlNode::Tab(table_entries(c))));
            r
        },
    }
}

/// Stores the string `val` at the key path `segs` of `doc`, creating the
/// standard tables on the way; gives back the string that was there. Where
/// an existing key on the way holds something other than a standard table,
/// the document is left as it is and `None` comes back (see [`set_path`]).
pub fn insert_nested(doc: &mut DocumentMut, segs: &[String], val: &str) -> (r: Option<String>)
    requires
        segs@.len() > 0,
    ensures
        (doc_entries(*final(doc)), opt_view(r)) == set_path(doc_entries(*old(doc)), views(segs@), val@),
{
    let mut root = take_root(doc);
    let r = set_in(&mut root, segs, 0, val);
    put_root(doc, root);
    assert(views(segs@).skip(0) =~= views(segs@));
    r
}

/// Removes `segs[i..]` below `t`; see [`remove_path`].
fn remove_in(t: &mut Table, segs: &[String], i: usize) -> (r: Option<String>)
    requires
        i < segs@.len(),
    ensures
        (table_entries(*final(t)), opt_view(r)) == remove_path(table_entries(*old(t)), views(segs@).skip(i as int)),
    decreases segs@.len() - i,
{
    let ghost rest = views(segs@).skip(i as int);
    assert(rest[0] == segs@[i as int]@);
    let key = segs[i].as_str();
    if i + 1 == segs.len() {
        return table_remove(t, key);
    }
    assert(rest.drop_first() =~= views(segs@).skip(i + 1));
    let ghost before = table_entries(*t);
    match take_child(t, key) {
        None => None,
        Some(mut c) => {
            let r = remove_in(&mut c, segs, i + 1);
            let emptied = table_is_empty(&c);
            put_child(t, key, c);
            assert(table_entries(*t) =~= before.insert(key@, TomlNode::Tab(table_entries(c))));
            if r.is_some() && emptied {
                let _ = table_remove(t, key);
                assert(table_entries(*t) =~= before.remove(key@));
            }
            r
        },
    }
}

/// Removes the key path `segs` from `doc`, giving back the string removed,
/// and whether the document is empty afterwards. The last key goes whatever
/// it holds; the standard tables on the way that this empties go too (see
/// [`remove_path`]).
pub fn remove_nested(doc: &mut DocumentMut, segs: &[String]) -> (r: (Option<String>, bool))
    requires
        segs@.len() > 0,
    ensures
        (doc_entries(*final(doc)), opt_view(r.0)) == remove_path(doc_entries(*old(doc)), views(segs@)),
        r.1 == (doc_entries(*final(doc)) == no_entries()),
{
    let mut root = take_root(doc);
    let r = remove_in(&mut root, segs, 0);
    let empty = table_is_empty(&root);
    put_root(doc, root);
    assert(views(segs@).skip(0) =~= views(segs@));
    (r, empty)
}

/// The key under which the entry `k` of a table reached by the key
/// `prefix` is listed: `k` alone at the top, `prefix.k` below.
pub open spec fn dotted(prefix: Seq<char>, k: Seq<char>) -> Seq<char> {
    if prefix.len() == 0 {
        k
    } else {
        prefix + seq!['.'] + k
    }
}

/// The key under which the entry at the key path `path` below `prefix` is
/// listed.
pub open spec fn full_key(prefix: Seq<char>, path: Seq<Seq<char>>) -> Seq<char>
    decreases path.len(),
{
    if path.len() == 0 {
        prefix
    } else {
        full_key(dotted(prefix, path[0]), path.drop_first())
    }
}

/// The string at the key path `path` of `m`, through standard tables only.
pub open spec fn table_leaf(m: Map<Seq<char>, TomlNode>, path: Seq<Seq<char>>) -> Option<Seq<char>>
    decreases path.len(),
{
    if path.len() == 0 || !m.contains_key(path[0]) {
        None
    } else if path.len() == 1 {
        match m[path[0]] {
            TomlNode::Text(s) => Some(s),
            _ => None,
        }
    } else {
        match m[path[0]] {
            TomlNode::Tab(c) => table_leaf(c, path.drop_first()),
            _ => None,
        }
    }
}

/// Every string of `m` reached through standard tables, with its full
/// dotted key below `prefix`.
pub open spec fn leaves(m: Map<Seq<char>, TomlNode>, prefix: Seq<char>) -> Set<(Seq<char>, Seq<char>)> {
    Set::new(|p: (Seq<char>, Seq<char>)| exists|path: Seq<Seq<char>>|
        #[trigger] table_leaf(m, path) == Some(p.1) && p.0 == full_key(prefix, path))
}

/// The strings of `leaves(m, prefix)` whose path starts with the key `k`.
pub open spec fn key_leaves(m: Map<Seq<char>, TomlNode>, prefix: Seq<char>, k: Seq<char>) -> Set<(Seq<char>, Seq<char>)> {
    Set::new(|p: (Seq<char>, Seq<char>)| exists|path: Seq<Seq<char>>|
        path.len() > 0 && path[0] == k && #[trigger] table_leaf(m, path) == Some(p.1) && p.0 == full_key(prefix, path))
}

/// The views of a list of key and value pairs.
pub open spec fn pair_views(v: Seq<(String, String)>) -> Seq<(Seq<char>, Seq<char>)> {
    v.map_values(|p: (String, String)| (p.0@, p.1@))
}

/// What the key `k` of `m` lists: its string, or the strings of its
/// standard table one level down, or nothing.
proof fn lemma_key_leaves(m: Map<Seq<char>, TomlNode>, prefix: Seq<char>, k: Seq<char>)
    ensures
        m.contains_key(k) && m[k] is Text ==> key_leaves(m, prefix, k) == set![(dotted(prefix, k), m[k]->Text_0)],
        m.contains_key(k) && m[k] is Tab ==> key_leaves(m, prefix, k) == leaves(m[k]->Tab_0, dotted(prefix, k)),
        !(m.contains_key(k) && (m[k] is Text || m[k] is Tab)) ==> key_leaves(m, prefix, k) == Set::<(Seq<char>, Seq<char>)>::empty(),
{
    if m.contains_key(k) && m[k] is Text {
        let s = m[k]->Text_0;
        assert forall|p: (Seq<char>, Seq<char>)| key_leaves(m, prefix, k).contains(p) implies p == (dotted(prefix, k), s) by {
            let path = choose|path: Seq<Seq<char>>|
                path.len() > 0 && path[0] == k && #[trigger] table_leaf(m, path) == Some(p.1) && p.0 == full_key(prefix, path);
            assert(path.len() == 1);
            assert(path.drop_first() =~= Seq::<Seq<char>>::empty());
            assert(full_key(dotted(prefix, k), path.drop_first()) == dotted(prefix, k));
        }
        let one = seq![k];
        assert(one.drop_first() =~= Seq::<Seq<char>>::empty());
        assert(full_key(dotted(prefix, k), one.drop_first()) == dotted(prefix, k));
        assert(full_key(prefix, one) == dotted(prefix, k));
        assert(table_leaf(m, one) == Some(s));
        assert(key_leaves(m, prefix, k).contains((dotted(prefix, k), s)));
        assert(key_leaves(m, prefix, k) =~= set![(dotted(prefix, k), s)]);
    } else if m.contains_key(k) && m[k] is Tab {
        let c = m[k]->Tab_0;
        let q0 = dotted(prefix, k);
        assert forall|p: (Seq<char>, Seq<char>)| key_leaves(m, prefix, k).contains(p) implies leaves(c, q0).contains(p) by {
            let path = choose|path: Seq<Seq<char>>|
                path.len() > 0 && path[0] == k && #[trigger] table_leaf(m, path) == Some(p.1) && p.0 == full_key(prefix, path);
            assert(path.len() > 1);
            assert(table_leaf(c, path.drop_first()) == Some(p.1));
        }
        assert forall|p: (Seq<char>, Seq<char>)| leaves(c, q0).contains(p) implies key_leaves(m, prefix, k).contains(p) by {
            let q = choose|q: Seq<Seq<char>>| #[trigger] table_leaf(c, q) == Some(p.1) && p.0 == full_key(q0, q);
            let path = seq![k] + q;
            assert(q.len() > 0);
            assert(path.drop_first() =~= q);
            assert(path[0] == k);
            assert(table_leaf(m, path) == Some(p.1));
        }
        assert(key_leaves(m, prefix, k) =~= leaves(c, q0));
    } else {
        assert forall|p: (Seq<char>, Seq<char>)| !key_leaves(m, prefix, k).contains(p) by {
            if key_leaves(m, prefix, k).contains(p) {
                let path = choose|path: Seq<Seq<char>>|
                    path.len() > 0 && path[0] == k && #[trigger] table_leaf(m, path) == Some(p.1) && p.0 == full_key(prefix, path);
                assert(table_leaf(m, path) is Some);
            }
        }
        assert(key_leaves(m, prefix, k) =~= Set::<(Seq<char>, Seq<char>)>::empty());
    }
}

/// Listing two runs one after the other lists what either lists.
proof fn lemma_to_set_concat(a: Seq<(Seq<char>, Seq<char>)>, b: Seq<(Seq<char>, Seq<char>)>)
    ensures
        (a + b).to_set() == a.to_set().union(b.to_set()),
{
    assert forall|x: (Seq<char>, Seq<char>)| (a + b).to_set().contains(x) <==> a.to_set().union(b.to_set()).contains(x) by {
        if (a + b).contains(x) {
            let i = choose|i: int| 0 <= i < (a + b).len() && (a + b)[i] == x;
            if i < a.len() {
                assert(a[i] == x);
            } else {
                assert(b[i - a.len()] == x);
            }
        }
        if a.contains(x) {
            let i = choose|i: int| 0 <= i < a.len() && a[i] == x;
            assert((a + b)[i] == x);
        }
        if b.contains(x) {
            let i = choose|i: int| 0 <= i < b.len() && b[i] == x;
            assert((a + b)[a.len() + i] == x);
        }
    }
    assert((a + b).to_set() =~= a.to_set().union(b.to_set()));
}

/// The keys of a table, each once (`Table::iter`).
///
/// Trusted: toml_edit's iteration yields every key that maps to an item
/// other than the empty one, once each. The order in which they come, the
/// table's own, is left unsaid.
#[verifier::external_body]
fn table_keys(t: &Table) -> (r: Vec<String>)
    ensures
        views(r@).no_duplicates(),
        forall|k: Seq<char>| table_entries(*t).contains_key(k) <==> #[trigger] views(r@).contains(k),
{
    t.iter().map(|(k, _)| k.to_owned()).collect()
}

/// The standard table under `key` (`Table::get`); `None` where `key`
/// holds no standard table.
///
/// Trusted: the contract states which item `get` gives, over the model.
#[verifier::external_body]
fn table_child_ref<'a>(t: &'a Table, key: &str) -> (r: Option<&'a Table>)
    ensures
        table_entries(*t).contains_key(key@) && table_entries(*t)[key@] is Tab ==> {
            &&& r is Some
            &&& TomlNode::Tab(table_entries(*r->0)) == table_entries(*t)[key@]
        },
        !(table_entries(*t).contains_key(key@) && table_entries(*t)[key@] is Tab) ==> r is None,
{
    match t.get(key) {
        Some(Item::Table(c)) => Some(c),
        _ => None,
    }
}

/// Appends to `out` every string of `t` reached through standard tables,
/// each with its full dotted key below `prefix` (see [`leaves`]); what
/// `out` held stays in front. The pairs come in the tables' own order.
pub fn collect_leaves(t: &Table, prefix: &str, out: &mut Vec<(String, String)>)
    ensures
        final(out)@.len() >= old(out)@.len(),
        final(out)@.subrange(0, old(out)@.len() as int) == old(out)@,
        pair_views(final(out)@.skip(old(out)@.len() as int)).to_set() == leaves(table_entries(*t), prefix@),
    decreases table_entries(*t),
{
    let keys = table_keys(t);
    let ghost m = table_entries(*t);
    let ghost n0 = out@.len() as int;
    let ghost start = out@;
    proof {
        broadcast use vstd::seq_lib::seq_to_set_is_finite;
        assert(m.dom() =~= views(keys@).to_set());
        assert(pair_views(out@.skip(n0)) =~= Seq::<(Seq<char>, Seq<char>)>::empty());
        assert(Seq::<(Seq<char>, Seq<char>)>::empty().to_set() =~= Set::new(|p: (Seq<char>, Seq<char>)|
            exists|i: int| 0 <= i < 0 && #[trigger] key_leaves(m, prefix@, keys@[i]@).contains(p)));
    }
    let mut j: usize = 0;
    while j < keys.len()
        invariant
            j <= keys@.len(),
            m == table_entries(*t),
            m.dom().finite(),
            forall|k: Seq<char>| m.contains_key(k) <==> #[trigger] views(keys@).contains(k),
            n0 == old(out)@.len(),
            start == old(out)@,
            out@.len() >= n0,
            out@.subrange(0, n0) == start,
            pair_views(out@.skip(n0)).to_set() == Set::new(|p: (Seq<char>, Seq<char>)|
                exists|i: int| 0 <= i < j && #[trigger] key_leaves(m, prefix@, keys@[i]@).contains(p)),
        decreases keys@.len() - j,
    {
        let ghost before = out@;
        let ghost have = Set::new(|p: (Seq<char>, Seq<char>)|
            exists|i: int| 0 <= i < j && #[trigger] key_leaves(m, prefix@, keys@[i]@).contains(p));
        let k = keys[j].as_str();
        let full = if prefix.unicode_len() == 0 {
            crate::text::owned(k)
        } else {
            let mut f = crate::text::owned(prefix);
            crate::text::push_str(&mut f, ".");
            crate::text::push_str(&mut f, k);
            f
        };
        proof {
            reveal_strlit(".");
            lemma_key_leaves(m, prefix@, k@);
            assert(views(keys@)[j as int] == k@);
        }
        assert(full@ == dotted(prefix@, k@));
        match table_get_str(t, k) {
            Some(v) => {
                out.push((full, v));
                proof {
                    assert(pair_views(out@.skip(n0)) =~= pair_views(before.skip(n0)) + seq![(dotted(prefix@, k@), m[k@]->Text_0)]);
                    lemma_to_set_concat(pair_views(before.skip(n0)), seq![(dotted(prefix@, k@), m[k@]->Text_0)]);
                    let x = (dotted(prefix@, k@), m[k@]->Text_0);
                    assert(seq![x][0] == x);
                    assert(seq![x].to_set() =~= set![x]);
                }
            },
            None => match table_child_ref(t, k) {
                Some(c) => {
                    proof {
                        vstd::map::axiom_map_index_decreases_finite(m, k@);
                        assert(decreases_to!(m => table_entries(*c)));
                    }
                    collect_leaves(c, full.as_str(), out);
                    proof {
                        let nb = before.len() as int;
                        assert(out@.subrange(0, nb) == before);
                        assert(out@.skip(n0) =~= before.skip(n0) + out@.skip(nb));
                        assert(pair_views(out@.skip(n0)) =~= pair_views(before.skip(n0)) + pair_views(out@.skip(nb)));
                        lemma_to_set_concat(pair_views(before.skip(n0)), pair_views(out@.skip(nb)));
                        assert(out@.subrange(0, n0) =~= before.subrange(0, n0));
                    }
                },
                None => {},
            },
        }
        proof {
            assert(pair_views(out@.skip(n0)).to_set() =~= Set::new(|p: (Seq<char>, Seq<char>)|
                exists|i: int| 0 <= i < j + 1 && #[trigger] key_leaves(m, prefix@, keys@[i]@).contains(p))) by {
                assert forall|p: (Seq<char>, Seq<char>)| #![auto]
                    (exists|i: int| 0 <= i < j + 1 && #[trigger] key_leaves(m, prefix@, keys@[i]@).contains(p))
                    <==> have.contains(p) || key_leaves(m, prefix@, k@).contains(p) by {
                    if exists|i: int| 0 <= i < j + 1 && #[trigger] key_leaves(m, prefix@, keys@[i]@).contains(p) {
                        let i = choose|i: int| 0 <= i < j + 1 && #[trigger] key_leaves(m, prefix@, keys@[i]@).contains(p);
                        if i < j {
                            assert(have.contains(p));
                        }
                    }
                    if key_leaves(m, prefix@, k@).contains(p) {
                        assert(key_leaves(m, prefix@, keys@[j as int]@).contains(p));
                    }
                }
            }
        }
        j = j + 1;
    }
    proof {
        assert forall|p: (Seq<char>, Seq<char>)|
            (exists|i: int| 0 <= i < keys@.len() && #[trigger] key_leaves(m, prefix@, keys@[i]@).contains(p))
            <==> leaves(m, prefix@).contains(p) by {
            if exists|i: int| 0 <= i < keys@.len() && #[trigger] key_leaves(m, prefix@, keys@[i]@).contains(p) {
                let i = choose|i: int| 0 <= i < keys@.len() && #[trigger] key_leaves(m, prefix@, keys@[i]@).contains(p);
                let path = choose|path: Seq<Seq<char>>|
                    path.len() > 0 && path[0] == keys@[i]@ && #[trigger] table_leaf(m, path) == Some(p.1) && p.0 == full_key(prefix@, path);
                assert(table_leaf(m, path) == Some(p.1));
            }
            if leaves(m, prefix@).contains(p) {
                let path = choose|path: Seq<Seq<char>>| #[trigger] table_leaf(m, path) == Some(p.1) && p.0 == full_key(prefix@, path);
                assert(path.len() > 0 && m.contains_key(path[0]));
                assert(views(keys@).contains(path[0]));
                let i = choose|i: int| 0 <= i < views(keys@).len() && views(keys@)[i] == path[0];
                assert(keys@[i]@ == path[0]);
                assert(key_leaves(m, prefix@, keys@[i]@).contains(p));
            }
        }
        assert(pair_views(out@.skip(n0)).to_set() =~= leaves(m, prefix@));
    }
}

/// Storing at a key path leaves its first key in the document.
proof fn lemma_set_keeps_first(m: Map<Seq<char>, TomlNode>, segs: Seq<Seq<char>>, v: Seq<char>)
    requires
        segs.len() > 0,
    ensures
        set_path(m, segs, v).0.contains_key(segs[0]),
{
}

/// A read gives back what a write stored: after storing `v` at the key path
/// `segs`, reading `segs` gives `v`, unless a key on the way holds
/// something other than a standard table, in which case the document is
/// unchanged and nothing was there.
pub proof fn law_get_after_set(m: Map<Seq<char>, TomlNode>, segs: Seq<Seq<char>>, v: Seq<char>)
    requires
        segs.len() > 0,
    ensures
        lookup(TomlNode::Tab(set_path(m, segs, v).0), segs) == Some(v)
            || set_path(m, segs, v) == (m, None::<Seq<char>>),
    decreases segs.len(),
{
    let k = segs[0];
    let rest = segs.drop_first();
    if segs.len() == 1 {
        assert(rest =~= Seq::<Seq<char>>::empty());
        assert(set_path(m, segs, v).0[k] == TomlNode::Text(v));
        assert(lookup(TomlNode::Text(v), rest) == Some(v));
        assert(set_path(m, segs, v).0.contains_key(k));
    } else if !m.contains_key(k) {
        law_get_after_set(Map::empty(), rest, v);
        lemma_set_keeps_first(Map::empty(), rest, v);
        let c = set_path(Map::empty(), rest, v).0;
        assert(c.contains_key(rest[0]));
        assert(lookup(TomlNode::Tab(c), rest) == Some(v));
        assert(set_path(m, segs, v).0[k] == TomlNode::Tab(c));
        assert(set_path(m, segs, v).0.contains_key(k));
    } else {
        match m[k] {
            TomlNode::Tab(c) => {
                law_get_after_set(c, rest, v);
                let r = set_path(c, rest, v);
                assert(set_path(m, segs, v).0[k] == TomlNode::Tab(r.0));
                assert(set_path(m, segs, v).0.contains_key(k));
                if r == (c, None::<Seq<char>>) {
                    assert(m.insert(k, TomlNode::Tab(c)) =~= m);
                } else {
                    assert(lookup(TomlNode::Tab(r.0), rest) == Some(v));
                }
            },
            _ => {},
        }
    }
}

/// A removed key is gone: where removing the key path `segs` gave back a
/// string, reading `segs` afterwards finds nothing.
pub proof fn law_get_after_remove(m: Map<Seq<char>, TomlNode>, segs: Seq<Seq<char>>)
    requires
        segs.len() > 0,
        remove_path(m, segs).1 is Some,
    ensures
        lookup(TomlNode::Tab(remove_path(m, segs).0), segs) is None,
    decreases segs.len(),
{
    let k = segs[0];
    let rest = segs.drop_first();
    if segs.len() > 1 {
        match m[k] {
            TomlNode::Tab(c) => {
                law_get_after_remove(c, rest);
            },
            _ => {},
        }
    }
}

/// What the listing of leaves shows can be read back: a string listed at a
/// key path is what reading that key path gives.
pub proof fn law_listed_leaf_reads_back(m: Map<Seq<char>, TomlNode>, path: Seq<Seq<char>>)
    requires
        table_leaf(m, path) is Some,
    ensures
        lookup(TomlNode::Tab(m), path) == table_leaf(m, path),
    decreases path.len(),
{
    let rest = path.drop_first();
    assert(m.contains_key(path[0]));
    if path.len() == 1 {
        assert(rest =~= Seq::<Seq<char>>::empty());
        assert(lookup(m[path[0]], rest) == table_leaf(m, path));
    } else {
        match m[path[0]] {
            TomlNode::Tab(c) => {
                law_listed_leaf_reads_back(c, rest);
                assert(lookup(m[path[0]], rest) == table_leaf(c, rest));
            },
            _ => {},
        }
    }
}

/// Whether every key on the way to the last key of `segs` in `m` is either
/// missing or a standard table, so that storing there succeeds.
pub open spec fn path_settable(m: Map<Seq<char>, TomlNode>, segs: Seq<Seq<char>>) -> bool
    decreases segs.len(),
{
    if segs.len() <= 1 || !m.contains_key(segs[0]) {
        true
    } else {
        match m[segs[0]] {
            TomlNode::Tab(c) => path_settable(c, segs.drop_first()),
            _ => false,
        }
    }
}

/// Whether the key path `a` is a prefix of the key path `b`.
pub open spec fn path_prefix(a: Seq<Seq<char>>, b: Seq<Seq<char>>) -> bool {
    a.len() <= b.len() && b.subrange(0, a.len() as int) == a
}

/// Storing into a document with no entries finds nothing there before.
proof fn lemma_set_on_empty(segs: Seq<Seq<char>>, v: Seq<char>)
    requires
        segs.len() > 0,
    ensures
        set_path(Map::empty(), segs, v).1 is None,
    decreases segs.len(),
{
    if segs.len() > 1 {
        lemma_set_on_empty(segs.drop_first(), v);
    }
}

/// Storing gives back what was there: where every key on the way is a
/// standard table or missing, the string that storing at `segs` returns is
/// what reading `segs` gave before.
pub proof fn law_set_returns_previous(m: Map<Seq<char>, TomlNode>, segs: Seq<Seq<char>>, v: Seq<char>)
    requires
        segs.len() > 0,
        path_settable(m, segs),
    ensures
        set_path(m, segs, v).1 == lookup(TomlNode::Tab(m), segs),
    decreases segs.len(),
{
    let k = segs[0];
    let rest = segs.drop_first();
    if segs.len() == 1 {
        assert(rest =~= Seq::<Seq<char>>::empty());
        if m.contains_key(k) {
            assert(lookup(TomlNode::Tab(m), segs) == lookup(m[k], rest));
        }
    } else if !m.contains_key(k) {
        lemma_set_on_empty(rest, v);
    } else {
        match m[k] {
            TomlNode::Tab(c) => {
                law_set_returns_previous(c, rest, v);
                assert(lookup(TomlNode::Tab(m), segs) == lookup(TomlNode::Tab(c), rest));
            },
            _ => {},
        }
    }
}

/// Storing leaves unrelated keys alone: after storing at `segs`, reading a
/// key path `q` that is neither a prefix nor an extension of `segs` gives
/// what it gave before.
pub proof fn law_set_keeps_other_keys(m: Map<Seq<char>, TomlNode>, segs: Seq<Seq<char>>, v: Seq<char>, q: Seq<Seq<char>>)
    requires
        segs.len() > 0,
        q.len() > 0,
        !path_prefix(segs, q),
        !path_prefix(q, segs),
    ensures
        lookup(TomlNode::Tab(set_path(m, segs, v).0), q) == lookup(TomlNode::Tab(m), q),
    decreases segs.len(),
{
    let k = segs[0];
    let rest = segs.drop_first();
    let qr = q.drop_first();
    let r = set_path(m, segs, v).0;
    if q[0] != k {
        assert(r.contains_key(q[0]) == m.contains_key(q[0]));
        if m.contains_key(q[0]) {
            assert(r[q[0]] == m[q[0]]);
        }
    } else {
        if segs.len() == 1 {
            assert(q.subrange(0, 1) =~= segs);
        }
        if q.len() == 1 {
            assert(segs.subrange(0, 1) =~= q);
        }
        if path_prefix(rest, qr) {
            assert forall|i: int| 0 <= i < segs.len() implies q.subrange(0, segs.len() as int)[i] == segs[i] by {
                if i > 0 {
                    assert(qr.subrange(0, rest.len() as int)[i - 1] == rest[i - 1]);
                }
            }
            assert(q.subrange(0, segs.len() as int) =~= segs);
        }
        if path_prefix(qr, rest) {
            assert forall|i: int| 0 <= i < q.len() implies segs.subrange(0, q.len() as int)[i] == q[i] by {
                if i > 0 {
                    assert(rest.subrange(0, qr.len() as int)[i - 1] == qr[i - 1]);
                }
            }
            assert(segs.subrange(0, q.len() as int) =~= q);
        }
        if !m.contains_key(k) {
            law_set_keeps_other_keys(Map::empty(), rest, v, qr);
            assert(lookup(TomlNode::Tab(Map::<Seq<char>, TomlNode>::empty()), qr) is None);
        } else {
            match m[k] {
                TomlNode::Tab(c) => {
                    law_set_keeps_other_keys(c, rest, v, qr);
                },
                _ => {},
            }
        }
    }
}

} // verus!
