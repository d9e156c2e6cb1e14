//! Mathematical model of a manifest document.
//!
//! A document is modelled as a map from top-level keys to [`TomlNode`]s. A
//! node is a standard table, an inline table, a string value, or any other
//! item, identified by the text it renders to. The patch rewrite is specified
//! over this model: [`patch_failure`] says when and how the rewrite is
//! refused, [`patched`] says exactly what document it produces.

use vstd::prelude::*;

verus! {

/// Model of one item of a manifest document.
#[verifier::ext_equal]
pub enum TomlNode {
    /// A standard table, by its entries.
    Table(Map<Seq<char>, TomlNode>),
    /// An inline table value, by its entries.
    Inline(Map<Seq<char>, TomlNode>),
    /// A string value, by its contents.
    Str(Seq<char>),
    /// Any other item — a scalar, an array, an array of tables — identified
    /// by the exact text it contributes to the rendering, its surrounding
    /// whitespace and comments included. Keeping such a node therefore keeps
    /// its bytes.
    Atom(Seq<char>),
}

/// How an entry of a table presents itself to the patch rewrite.
#[derive(PartialEq, Eq, Structural, Clone, Copy, Debug)]
pub enum ItemKind {
    /// No entry under the key.
    Absent,
    /// A standard table.
    TableItem,
    /// An inline table value.
    InlineItem,
    /// Anything else: a scalar, an array, an array of tables.
    OtherItem,
}

/// Why the patch rewrite refuses a document, if it does. An existing value
/// that cannot be traversed as a table at any key on the way is an error,
/// never overwritten: the patch key and the registry key must lead to
/// standard tables, the entry for the dependency to any table-like value,
/// standard or inline.
#[derive(PartialEq, Eq, Structural, Clone, Copy, Debug)]
pub enum PatchError {
    /// The top-level patch key holds something other than a standard table.
    PatchKeyNotTable,
    /// The registry key under the patch table holds something other than a
    /// standard table.
    RegistryKeyNotTable,
    /// The entry for the dependency holds something that is not a table: a
    /// scalar, an array, or an array of tables.
    DependencyKeyNotTable,
}

/// The kind of the entry of `m` under `k`.
pub open spec fn kind_of(m: Map<Seq<char>, TomlNode>, k: Seq<char>) -> ItemKind {
    if !m.dom().contains(k) {
        ItemKind::Absent
    } else {
        match m[k] {
            TomlNode::Table(_) => ItemKind::TableItem,
            TomlNode::Inline(_) => ItemKind::InlineItem,
            TomlNode::Str(_) => ItemKind::OtherItem,
            TomlNode::Atom(_) => ItemKind::OtherItem,
        }
    }
}

/// The entries of the table-like node of `m` under `k`; empty if there is no
/// entry there, or one without entries of its own.
pub open spec fn entries_at(m: Map<Seq<char>, TomlNode>, k: Seq<char>) -> Map<Seq<char>, TomlNode> {
    if !m.dom().contains(k) {
        Map::empty()
    } else {
        match m[k] {
            TomlNode::Table(e) => e,
            TomlNode::Inline(e) => e,
            TomlNode::Str(_) => Map::empty(),
            TomlNode::Atom(_) => Map::empty(),
        }
    }
}

/// The entries of the patch table of a document.
pub open spec fn patch_entries(m: Map<Seq<char>, TomlNode>) -> Map<Seq<char>, TomlNode> {
    entries_at(m, "patch"@)
}

/// The entries of the registry table `reg` under the patch table.
pub open spec fn registry_entries(m: Map<Seq<char>, TomlNode>, reg: Seq<char>) -> Map<
    Seq<char>,
    TomlNode,
> {
    entries_at(patch_entries(m), reg)
}

/// The entries of the patch entry for `dep` in the registry table `reg`.
pub open spec fn dep_entries(m: Map<Seq<char>, TomlNode>, reg: Seq<char>, dep: Seq<char>) -> Map<
    Seq<char>,
    TomlNode,
> {
    entries_at(registry_entries(m, reg), dep)
}

/// The error the patch rewrite for `dep` stops at, `None` if it goes through.
pub open spec fn patch_failure(m: Map<Seq<char>, TomlNode>, reg: Seq<char>, dep: Seq<char>) -> Option<
    PatchError,
> {
    let pk = kind_of(m, "patch"@);
    let rk = kind_of(patch_entries(m), reg);
    let dk = kind_of(registry_entries(m, reg), dep);
    if pk == ItemKind::InlineItem || pk == ItemKind::OtherItem {
        Some(PatchError::PatchKeyNotTable)
    } else if pk == ItemKind::TableItem && (rk == ItemKind::InlineItem || rk == ItemKind::OtherItem) {
        Some(PatchError::RegistryKeyNotTable)
    } else if pk == ItemKind::TableItem && rk == ItemKind::TableItem && dk == ItemKind::OtherItem {
        Some(PatchError::DependencyKeyNotTable)
    } else {
        None
    }
}

/// Whether the patch rewrite for `dep` can traverse the document: every key
/// on the way down is either absent or of the shape the rewrite expects.
pub open spec fn patchable(m: Map<Seq<char>, TomlNode>, reg: Seq<char>, dep: Seq<char>) -> bool {
    patch_failure(m, reg, dep) is None
}

/// The document produced by the patch rewrite: tables on the way down are
/// kept if present and created if absent, the `path` key of the entry for
/// `dep` is set to the string `path`, and every sibling entry at every level
/// is kept. A present entry for `dep` keeps its shape, standard or inline; a
/// created one is inline.
pub open spec fn patched(
    m: Map<Seq<char>, TomlNode>,
    reg: Seq<char>,
    dep: Seq<char>,
    path: Seq<char>,
) -> Map<Seq<char>, TomlNode> {
    let d = dep_entries(m, reg, dep).insert("path"@, TomlNode::Str(path));
    let dnode = if kind_of(registry_entries(m, reg), dep) == ItemKind::TableItem {
        TomlNode::Table(d)
    } else {
        TomlNode::Inline(d)
    };
    let r = registry_entries(m, reg).insert(dep, dnode);
    let p = patch_entries(m).insert(reg, TomlNode::Table(r));
    m.insert("patch"@, TomlNode::Table(p))
}

/// Whether a rewrite for `dep` under `reg` would find everything already in
/// place: the keys on the way are traversable and the entry's `path` key
/// already holds the string `path`.
pub open spec fn already_patched(
    m: Map<Seq<char>, TomlNode>,
    reg: Seq<char>,
    dep: Seq<char>,
    path: Seq<char>,
) -> bool {
    let dk = kind_of(registry_entries(m, reg), dep);
    &&& kind_of(m, "patch"@) == ItemKind::TableItem
    &&& kind_of(patch_entries(m), reg) == ItemKind::TableItem
    &&& (dk == ItemKind::InlineItem || dk == ItemKind::TableItem)
    &&& dep_entries(m, reg, dep).dom().contains("path"@)
    &&& dep_entries(m, reg, dep)["path"@] == TomlNode::Str(path)
}

/// `m` with a standard table at `k2` inside a standard table at `k1`, both
/// kept if already present.
pub open spec fn with_subtable(m: Map<Seq<char>, TomlNode>, k1: Seq<char>, k2: Seq<char>) -> Map<
    Seq<char>,
    TomlNode,
> {
    let t1 = entries_at(m, k1);
    let t1b = if kind_of(t1, k2) == ItemKind::TableItem {
        t1
    } else {
        t1.insert(k2, TomlNode::Table(Map::empty()))
    };
    m.insert(k1, TomlNode::Table(t1b))
}

/// `m` with a table-like entry at `k3` inside the tables at `k1` and `k2`:
/// kept if already a standard or inline table, created inline if absent.
pub open spec fn with_dep_entry(
    m: Map<Seq<char>, TomlNode>,
    k1: Seq<char>,
    k2: Seq<char>,
    k3: Seq<char>,
) -> Map<Seq<char>, TomlNode> {
    let t1 = entries_at(m, k1);
    let r = entries_at(t1, k2);
    let r2 = if kind_of(r, k3) == ItemKind::InlineItem || kind_of(r, k3) == ItemKind::TableItem {
        r
    } else {
        r.insert(k3, TomlNode::Inline(Map::empty()))
    };
    m.insert(k1, TomlNode::Table(t1.insert(k2, TomlNode::Table(r2))))
}

/// `m` with the string `v` under `k4` in the table-like entry at `k3` inside
/// the tables at `k1` and `k2`; the entry at `k3` keeps its shape.
pub open spec fn with_entry_str(
    m: Map<Seq<char>, TomlNode>,
    k1: Seq<char>,
    k2: Seq<char>,
    k3: Seq<char>,
    k4: Seq<char>,
    v: Seq<char>,
) -> Map<Seq<char>, TomlNode> {
    let t1 = entries_at(m, k1);
    let r = entries_at(t1, k2);
    let d = entries_at(r, k3);
    let dnode = if kind_of(r, k3) == ItemKind::TableItem {
        TomlNode::Table(d.insert(k4, TomlNode::Str(v)))
    } else {
        TomlNode::Inline(d.insert(k4, TomlNode::Str(v)))
    };
    m.insert(k1, TomlNode::Table(t1.insert(k2, TomlNode::Table(r.insert(k3, dnode)))))
}

/// The three stages of the rewrite, run in order over the fixed keys of the
/// patch table, produce exactly [`patched`].
pub proof fn lemma_patch_stages(
    m: Map<Seq<char>, TomlNode>,
    reg: Seq<char>,
    dep: Seq<char>,
    path: Seq<char>,
)
    requires
        patchable(m, reg, dep),
    ensures
        with_entry_str(
            with_dep_entry(with_subtable(m, "patch"@, reg), "patch"@, reg, dep),
            "patch"@,
            reg,
            dep,
            "path"@,
            path,
        ) == patched(m, reg, dep, path),
{
    let m1 = with_subtable(m, "patch"@, reg);
    let m2 = with_dep_entry(m1, "patch"@, reg, dep);
    let m3 = with_entry_str(m2, "patch"@, reg, dep, "path"@, path);
    let t1 = patch_entries(m);
    let t1b = entries_at(m1, "patch"@);
    let r2 = entries_at(entries_at(m2, "patch"@), reg);
    assert(entries_at(t1b, reg) =~= registry_entries(m, reg));
    let d3 = entries_at(r2, dep);
    assert(d3 =~= dep_entries(m, reg, dep));
    assert(kind_of(r2, dep) == ItemKind::TableItem <==> kind_of(registry_entries(m, reg), dep)
        == ItemKind::TableItem);
    let leaf = if kind_of(registry_entries(m, reg), dep) == ItemKind::TableItem {
        TomlNode::Table(d3.insert("path"@, TomlNode::Str(path)))
    } else {
        TomlNode::Inline(d3.insert("path"@, TomlNode::Str(path)))
    };
    assert(r2.insert(dep, leaf) =~= registry_entries(m, reg).insert(dep, leaf));
    let mid = TomlNode::Table(r2.insert(dep, leaf));
    assert(entries_at(m2, "patch"@).insert(reg, mid) =~= t1.insert(reg, mid));
    assert(m3 =~= m.insert(
        "patch"@,
        TomlNode::Table(entries_at(m2, "patch"@).insert(reg, mid)),
    ));
    assert(m3 == patched(m, reg, dep, path));
}

/// Applying the rewrite to an already patched document changes nothing: the
/// rewrite is idempotent.
pub proof fn lemma_patch_idempotent(
    m: Map<Seq<char>, TomlNode>,
    reg: Seq<char>,
    dep: Seq<char>,
    path: Seq<char>,
)
    requires
        patchable(m, reg, dep),
    ensures
        patchable(patched(m, reg, dep, path), reg, dep),
        patched(patched(m, reg, dep, path), reg, dep, path) == patched(m, reg, dep, path),
{
    let once = patched(m, reg, dep, path);
    let dd = dep_entries(m, reg, dep).insert("path"@, TomlNode::Str(path));
    let dnode = if kind_of(registry_entries(m, reg), dep) == ItemKind::TableItem {
        TomlNode::Table(dd)
    } else {
        TomlNode::Inline(dd)
    };
    let rr = registry_entries(m, reg).insert(dep, dnode);
    let pp = patch_entries(m).insert(reg, TomlNode::Table(rr));
    assert(patch_entries(once) == pp);
    assert(registry_entries(once, reg) == rr);
    assert(dep_entries(once, reg, dep) == dd);
    assert(kind_of(rr, dep) == ItemKind::TableItem <==> kind_of(registry_entries(m, reg), dep)
        == ItemKind::TableItem);
    assert(dd.insert("path"@, TomlNode::Str(path)) =~= dd);
    assert(rr.insert(dep, dnode) =~= rr);
    assert(pp.insert(reg, TomlNode::Table(rr)) =~= pp);
    assert(once.insert("patch"@, TomlNode::Table(pp)) =~= once);
    assert(patched(once, reg, dep, path) == once);
}

/// The rewrite leaves every top-level entry other than the patch table
/// exactly as it was.
pub proof fn lemma_patch_preserves_unrelated(
    m: Map<Seq<char>, TomlNode>,
    reg: Seq<char>,
    dep: Seq<char>,
    path: Seq<char>,
    k: Seq<char>,
)
    requires
        k != "patch"@,
    ensures
        patched(m, reg, dep, path).dom().contains(k) <==> m.dom().contains(k),
        m.dom().contains(k) ==> patched(m, reg, dep, path)[k] == m[k],
{
}

/// The rewrite leaves the patch entry of every other dependency in the same
/// registry table exactly as it was.
pub proof fn lemma_patch_preserves_other_deps(
    m: Map<Seq<char>, TomlNode>,
    reg: Seq<char>,
    dep: Seq<char>,
    path: Seq<char>,
    other: Seq<char>,
)
    requires
        other != dep,
    ensures
        registry_entries(patched(m, reg, dep, path), reg).dom().contains(other)
            <==> registry_entries(m, reg).dom().contains(other),
        registry_entries(m, reg).dom().contains(other) ==> registry_entries(patched(m, reg, dep, path), reg)[other]
            == registry_entries(m, reg)[other],
{
}

/// A rewritten document is already in place for the same dependency and path:
/// rewriting it again finds nothing to do.
pub proof fn lemma_patched_is_already_patched(
    m: Map<Seq<char>, TomlNode>,
    reg: Seq<char>,
    dep: Seq<char>,
    path: Seq<char>,
)
    requires
        patchable(m, reg, dep),
    ensures
        already_patched(patched(m, reg, dep, path), reg, dep, path),
{
    let once = patched(m, reg, dep, path);
    let dd = dep_entries(m, reg, dep).insert("path"@, TomlNode::Str(path));
    assert(dep_entries(once, reg, dep) == dd);
}

/// Setting the string `v` under `k4` where it already stands changes nothing
/// of the document's content.
pub proof fn lemma_entry_str_noop(
    m: Map<Seq<char>, TomlNode>,
    k1: Seq<char>,
    k2: Seq<char>,
    k3: Seq<char>,
    k4: Seq<char>,
    v: Seq<char>,
)
    requires
        kind_of(m, k1) == ItemKind::TableItem,
        kind_of(entries_at(m, k1), k2) == ItemKind::TableItem,
        kind_of(entries_at(entries_at(m, k1), k2), k3) == ItemKind::InlineItem || kind_of(
            entries_at(entries_at(m, k1), k2),
            k3,
        ) == ItemKind::TableItem,
        entries_at(entries_at(entries_at(m, k1), k2), k3).dom().contains(k4),
        entries_at(entries_at(entries_at(m, k1), k2), k3)[k4] == TomlNode::Str(v),
    ensures
        with_entry_str(m, k1, k2, k3, k4, v) == m,
{
    let t1 = entries_at(m, k1);
    let r = entries_at(t1, k2);
    let d = entries_at(r, k3);
    assert(d.insert(k4, TomlNode::Str(v)) =~= d);
    assert(r.insert(k3, r[k3]) =~= r);
    assert(t1.insert(k2, t1[k2]) =~= t1);
    assert(m.insert(k1, m[k1]) =~= m);
    assert(with_entry_str(m, k1, k2, k3, k4, v) == m);
}

} // verus!
