//! Hub package names, and the MCP servers that installing a package adds
//! to the `[mcp_servers]` table of the daemon's configuration document.

use vstd::prelude::*;
use crate::split::{find_from, lemma_find_from};
use crate::text::{from_chars_range, owned, push_str, to_chars, views};
use crate::toml_tree::{
    doc_entries, put_child, put_root, table_entries, table_has, table_insert_empty,
    table_insert_table, table_remove, take_child, take_root, TomlNode,
};
use toml_edit::{DocumentMut, Table};

verus! {

/// A package name that is not of the form `scope/name`.
pub struct PackageError {
    /// The package name as given.
    pub package: String,
}

impl PackageError {
    /// The error's message.
    pub fn message(&self) -> (r: String)
        ensures
            r@ == "package must be in `scope/name` format, got: "@ + self.package@,
    {
        let mut m = owned("package must be in `scope/name` format, got: ");
        push_str(&mut m, self.package.as_str());
        m
    }
}

/// The scope and name of a `scope/name` package: split at the first `/`,
/// both parts non-empty (the name may hold further `/`).
pub open spec fn package_parts(p: Seq<char>) -> Option<(Seq<char>, Seq<char>)> {
    let k = find_from(p, seq!['/'], 0);
    if k < 0 {
        None
    } else if k > 0 && k + 1 < p.len() {
        Some((p.take(k), p.skip(k + 1)))
    } else {
        None
    }
}

/// Parse a `scope/name` package string into `(scope, name)`.
pub fn parse_package(package: &str) -> (r: Result<(String, String), PackageError>)
    ensures
        match r {
            Ok((s, n)) => package_parts(package@) == Some((s@, n@)),
            Err(e) => package_parts(package@) is None && e.package@ == package@,
        },
        r is Ok ==> package@ == r->Ok_0.0@ + seq!['/'] + r->Ok_0.1@ && !r->Ok_0.0@.contains('/'),
{
    let v = to_chars(package);
    let mut k: usize = 0;
    while k < v.len() && v[k] != '/'
        invariant
            k <= v@.len(),
            forall|j: int| 0 <= j < k ==> v@[j] != '/',
        decreases v@.len() - k,
    {
        k = k + 1;
    }
    proof {
        lemma_find_from(v@, seq!['/'], 0);
        assert forall|j: int| 0 <= j < k implies !crate::text::occurs_at(v@, seq!['/'], j) by {
            if crate::text::occurs_at(v@, seq!['/'], j) {
                assert(v@.subrange(j, j + 1)[0] == v@[j]);
            }
        }
        if k < v@.len() {
            assert(v@.subrange(k as int, k + 1) =~= seq!['/']);
            assert(crate::text::occurs_at(v@, seq!['/'], k as int));
        }
    }
    if k == 0 || v.len() - k < 2 {
        return Err(PackageError { package: owned(package) });
    }
    let scope = from_chars_range(v.as_slice(), 0, k);
    let name = from_chars_range(v.as_slice(), k + 1, v.len());
    proof {
        assert(v@ =~= scope@ + seq!['/'] + name@);
        assert(scope@ =~= v@.take(k as int));
        assert(name@ =~= v@.skip(k + 1));
        assert(!scope@.contains('/')) by {
            assert forall|j: int| 0 <= j < scope@.len() implies scope@[j] != '/' by {
                assert(scope@[j] == v@[j]);
            }
        }
    }
    Ok((scope, name))
}

/// The key of the MCP server table in the configuration document.
pub open spec fn servers_key() -> Seq<char> {
    "mcp_servers"@
}

/// The server entries as keys and table contents.
pub open spec fn server_views(s: Seq<(String, Table)>) -> Seq<(Seq<char>, Map<Seq<char>, TomlNode>)> {
    s.map_values(|p: (String, Table)| (p.0@, table_entries(p.1)))
}

/// `m` with each entry of `es` stored in turn as a standard table under its
/// key (a later entry wins over an earlier one with the same key).
pub open spec fn with_servers(m: Map<Seq<char>, TomlNode>, es: Seq<(Seq<char>, Map<Seq<char>, TomlNode>)>)
    -> Map<Seq<char>, TomlNode>
    decreases es.len(),
{
    if es.len() == 0 {
        m
    } else {
        with_servers(m.insert(es[0].0, TomlNode::Tab(es[0].1)), es.drop_first())
    }
}

/// The document `root` with the servers `es` merged into its
/// `[mcp_servers]` table, created empty where missing; `None` where that
/// key holds something other than a standard table.
pub open spec fn merged_servers(root: Map<Seq<char>, TomlNode>, es: Seq<(Seq<char>, Map<Seq<char>, TomlNode>)>)
    -> Option<Map<Seq<char>, TomlNode>>
{
    let cur = if root.contains_key(servers_key()) {
        root[servers_key()]
    } else {
        TomlNode::Tab(Map::empty())
    };
    match cur {
        TomlNode::Tab(m) => Some(root.insert(servers_key(), TomlNode::Tab(with_servers(m, es)))),
        _ => None,
    }
}

/// Merges the MCP servers `servers` (each a name and its configuration as a
/// table) into the `[mcp_servers]` table of `doc`, creating the table where
/// missing. Where `mcp_servers` holds something other than a table, `doc`
/// is left as it is and the error says so.
pub fn merge_mcp_servers(doc: &mut DocumentMut, servers: Vec<(String, Table)>) -> (r: Result<(), String>)
    ensures
        merged_servers(doc_entries(*old(doc)), server_views(servers@)) is Some ==> {
            &&& r is Ok
            &&& doc_entries(*final(doc)) == merged_servers(doc_entries(*old(doc)), server_views(servers@))->0
        },
        merged_servers(doc_entries(*old(doc)), server_views(servers@)) is None ==> {
            &&& r is Err
            &&& r->Err_0@ == "mcp_servers is not a table"@
            &&& doc_entries(*final(doc)) == doc_entries(*old(doc))
        },
{
    let ghost es = server_views(servers@);
    let mut root = take_root(doc);
    let ghost before = table_entries(root);
    if !table_has(&root, "mcp_servers") {
        table_insert_empty(&mut root, "mcp_servers");
    }
    let ghost mid = table_entries(root);
    match take_child(&mut root, "mcp_servers") {
        None => {
            put_root(doc, root);
            Err(owned("mcp_servers is not a table"))
        },
        Some(mut t) => {
            let ghost m0 = table_entries(t);
            let mut rest = servers;
            while rest.len() > 0
                invariant
                    with_servers(table_entries(t), server_views(rest@)) == with_servers(m0, es),
                decreases rest@.len(),
            {
                let ghost vs = server_views(rest@);
                let (key, c) = rest.remove(0);
                assert(server_views(rest@) =~= vs.drop_first());
                table_insert_table(&mut t, key.as_str(), c);
            }
            assert(server_views(rest@) =~= Seq::<(Seq<char>, Map<Seq<char>, TomlNode>)>::empty());
            put_child(&mut root, "mcp_servers", t);
            assert(table_entries(root) =~= mid.insert(servers_key(), TomlNode::Tab(with_servers(m0, es))));
            assert(table_entries(root) =~= before.insert(servers_key(), TomlNode::Tab(with_servers(m0, es))));
            put_root(doc, root);
            Ok(())
        },
    }
}

/// `m` without the keys `ks`.
pub open spec fn without_keys(m: Map<Seq<char>, TomlNode>, ks: Seq<Seq<char>>) -> Map<Seq<char>, TomlNode> {
    Map::new(|k: Seq<char>| m.contains_key(k) && !ks.contains(k), |k: Seq<char>| m[k])
}

/// The document `root` with the keys `ks` removed from its `[mcp_servers]`
/// table, where that key holds a standard table; `root` itself otherwise.
pub open spec fn unmerged_servers(root: Map<Seq<char>, TomlNode>, ks: Seq<Seq<char>>) -> Map<Seq<char>, TomlNode> {
    if root.contains_key(servers_key()) && root[servers_key()] is Tab {
        root.insert(servers_key(), TomlNode::Tab(without_keys(root[servers_key()]->Tab_0, ks)))
    } else {
        root
    }
}

/// Removes the MCP servers named in `keys` from the `[mcp_servers]` table
/// of `doc`; every other entry of the document stays as it was. Where there
/// is no such table, `doc` is left as it is.
pub fn remove_mcp_servers(doc: &mut DocumentMut, keys: &[String])
    ensures
        doc_entries(*final(doc)) == unmerged_servers(doc_entries(*old(doc)), views(keys@)),
{
    let ghost ks = views(keys@);
    let mut root = take_root(doc);
    let ghost before = table_entries(root);
    match take_child(&mut root, "mcp_servers") {
        None => {},
        Some(mut t) => {
            let ghost m0 = table_entries(t);
            let mut j: usize = 0;
            while j < keys.len()
                invariant
                    j <= keys@.len(),
                    ks == views(keys@),
                    table_entries(t) == without_keys(m0, ks.take(j as int)),
                decreases keys@.len() - j,
            {
                let ghost prev = table_entries(t);
                let _ = table_remove(&mut t, keys[j].as_str());
                proof {
                    assert forall|k: Seq<char>| #[trigger] ks.take(j + 1).contains(k)
                        <==> ks.take(j as int).contains(k) || k == ks[j as int] by {
                        if ks.take(j + 1).contains(k) {
                            let w = choose|w: int| 0 <= w < j + 1 && #[trigger] ks.take(j + 1)[w] == k;
                            if w < j {
                                assert(ks.take(j as int)[w] == k);
                            }
                        }
                        if ks.take(j as int).contains(k) {
                            let w = choose|w: int| 0 <= w < j && #[trigger] ks.take(j as int)[w] == k;
                            assert(ks.take(j + 1)[w] == k);
                        }
                        if k == ks[j as int] {
                            assert(ks.take(j + 1)[j as int] == k);
                        }
                    }
                    assert(table_entries(t) =~= without_keys(m0, ks.take(j + 1)));
                }
                j = j + 1;
            }
            assert(ks.take(j as int) =~= ks);
            put_child(&mut root, "mcp_servers", t);
            assert(table_entries(root) =~= before.insert(servers_key(), TomlNode::Tab(without_keys(m0, ks))));
        },
    }
    put_root(doc, root);
}

} // verus!
