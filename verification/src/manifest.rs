//! The manifest patcher: loading a manifest into toml_edit's format-keeping
//! document, rewriting its patch table, and rendering it back.
//!
//! The document itself stays opaque: [`doc_model`] names its content as a map
//! of [`TomlNode`]s, and every call into toml_edit is a small trusted wrapper
//! whose contract speaks over that model. The rewrite logic and its error
//! decisions are verified against those contracts: [`apply_patch`] produces
//! exactly [`patched`] on every document it accepts, refuses with the precise
//! [`PatchError`] otherwise, and an accepted rewrite never disturbs a sibling
//! entry.

use vstd::prelude::*;
use vstd::string::StringExecFns;
use crate::model::{
    ItemKind, PatchError, TomlNode, already_patched, dep_entries, entries_at, kind_of,
    lemma_entry_str_noop, lemma_patch_stages, patch_entries, patch_failure, patchable, patched,
    registry_entries, with_dep_entry, with_entry_str, with_subtable,
};
use toml_edit::{DocumentMut, InlineTable, Item, Table, Value};

verus! {

/// Declares toml_edit's editable document type so it can stand in signatures.
#[verifier::external_type_specification]
#[verifier::external_body]
pub struct ExDocumentMut(DocumentMut);

/// The content of a document: its top-level entries as model nodes.
pub uninterp spec fn doc_model(d: DocumentMut) -> Map<Seq<char>, TomlNode>;

/// Whether every part of the document survives rendering: toml_edit hides a
/// table that is marked implicit and has nothing under it, so such a document
/// would lose that table on a render-and-reparse round trip. Parsed documents
/// are tidy, and the rewrite keeps them so.
pub uninterp spec fn doc_tidy(d: DocumentMut) -> bool;

/// The content a text parses to, `None` if it is not well-formed.
pub uninterp spec fn parsed_model(s: Seq<char>) -> Option<Map<Seq<char>, TomlNode>>;

/// The exact text a document renders to: rendering is a pure function of the
/// document, comments, order and formatting included.
pub uninterp spec fn rendered_text(d: DocumentMut) -> Seq<char>;

/// Whether the top-level entry under `k` is a table marked implicit: such a
/// table renders no header of its own, only what is under it, so creating one
/// adds no empty section to the rendering.
pub uninterp spec fn table_implicit(d: DocumentMut, k: Seq<char>) -> bool;

/// `s` without a leading byte-order mark. The parser accepts and drops one,
/// so a parsed document renders back to the stripped text, never to the mark.
pub open spec fn strip_bom(s: Seq<char>) -> Seq<char> {
    if s.len() > 0 && s[0] == '\u{feff}' {
        s.skip(1)
    } else {
        s
    }
}

/// Why a manifest operation failed.
#[derive(PartialEq, Eq, Structural, Clone, Copy, Debug)]
pub enum ManifestError {
    /// The manifest text is not a well-formed document.
    Unparsable,
    /// The patch rewrite refused the document.
    Patch(PatchError),
}

/// Relies on toml_edit's `DocumentMut` `FromStr`: parsing fails exactly on
/// text that is not well-formed, and otherwise yields the document the text
/// describes. A freshly parsed document keeps the text's comments, order and
/// formatting exactly, so it renders back to the input byte for byte — except
/// for a leading byte-order mark, which the parser consumes and rendering
/// does not restore.
#[verifier::external_body]
fn parse_doc(text: &str) -> (r: Option<DocumentMut>)
    ensures
        r is Some <==> parsed_model(text@) is Some,
        r is Some ==> Some(doc_model(r->0)) == parsed_model(text@),
        r is Some ==> doc_tidy(r->0),
        r is Some ==> rendered_text(r->0) == strip_bom(text@),
{
    text.parse::<DocumentMut>().ok()
}

/// Relies on toml_edit's rendering of `DocumentMut`: rendering is a pure
/// function of the document and keeps every visible part of it, so a tidy
/// document parses back from its rendering with the same content.
#[verifier::external_body]
fn render_doc(d: &DocumentMut) -> (r: String)
    ensures
        r@ == rendered_text(*d),
        doc_tidy(*d) ==> parsed_model(r@) == Some(doc_model(*d)),
{
    d.to_string()
}

/// Relies on toml_edit's `Table::get`: classifies the top-level entry under
/// `k`.
#[verifier::external_body]
fn probe_root(d: &DocumentMut, k: &str) -> (r: ItemKind)
    ensures
        r == kind_of(doc_model(*d), k@),
{
    match d.as_table().get(k) {
        None | Some(toml_edit::Item::None) => ItemKind::Absent,
        Some(toml_edit::Item::Table(_)) => ItemKind::TableItem,
        Some(toml_edit::Item::Value(toml_edit::Value::InlineTable(_))) => ItemKind::InlineItem,
        Some(_) => ItemKind::OtherItem,
    }
}

/// Relies on toml_edit's `Table::get`: classifies the entry under `k2` of the
/// standard table under `k1`.
#[verifier::external_body]
fn probe_sub(d: &DocumentMut, k1: &str, k2: &str) -> (r: ItemKind)
    requires
        kind_of(doc_model(*d), k1@) == ItemKind::TableItem,
    ensures
        r == kind_of(entries_at(doc_model(*d), k1@), k2@),
{
    let t1 = match d.as_table().get(k1) { Some(toml_edit::Item::Table(t)) => t, _ => return ItemKind::Absent };
    match t1.get(k2) {
        None | Some(toml_edit::Item::None) => ItemKind::Absent,
        Some(toml_edit::Item::Table(_)) => ItemKind::TableItem,
        Some(toml_edit::Item::Value(toml_edit::Value::InlineTable(_))) => ItemKind::InlineItem,
        Some(_) => ItemKind::OtherItem,
    }
}

/// Relies on toml_edit's `Table::get`: classifies the entry under `k3` of the
/// standard table under `k1.k2`.
#[verifier::external_body]
fn probe_sub2(d: &DocumentMut, k1: &str, k2: &str, k3: &str) -> (r: ItemKind)
    requires
        kind_of(doc_model(*d), k1@) == ItemKind::TableItem,
        kind_of(entries_at(doc_model(*d), k1@), k2@) == ItemKind::TableItem,
    ensures
        r == kind_of(entries_at(entries_at(doc_model(*d), k1@), k2@), k3@),
{
    let t1 = match d.as_table().get(k1) { Some(toml_edit::Item::Table(t)) => t, _ => return ItemKind::Absent };
    let t2 = match t1.get(k2) { Some(toml_edit::Item::Table(t)) => t, _ => return ItemKind::Absent };
    match t2.get(k3) {
        None | Some(toml_edit::Item::None) => ItemKind::Absent,
        Some(toml_edit::Item::Table(_)) => ItemKind::TableItem,
        Some(toml_edit::Item::Value(toml_edit::Value::InlineTable(_))) => ItemKind::InlineItem,
        Some(_) => ItemKind::OtherItem,
    }
}

/// Relies on toml_edit's `Table::get`, `Table::insert` and
/// `Table::set_implicit`: makes the table under `k1` exist and implicit and
/// the table under `k1.k2` exist, keeping present entries. Presence is
/// decided by `get`, which treats a none item as absent, and `insert`
/// replaces whatever held the key, so a none item left behind by other
/// editing is replaced like a missing one. An implicit table renders only
/// when something is under it.
#[verifier::external_body]
fn prepare_tables(d: &mut DocumentMut, k1: &str, k2: &str)
    requires
        kind_of(doc_model(*old(d)), k1@) == ItemKind::Absent || kind_of(
            doc_model(*old(d)),
            k1@,
        ) == ItemKind::TableItem,
        kind_of(entries_at(doc_model(*old(d)), k1@), k2@) == ItemKind::Absent || kind_of(
            entries_at(doc_model(*old(d)), k1@),
            k2@,
        ) == ItemKind::TableItem,
    ensures
        doc_model(*final(d)) == with_subtable(doc_model(*old(d)), k1@, k2@),
        doc_tidy(*old(d)) ==> doc_tidy(*final(d)),
        table_implicit(*final(d), k1@),
        (kind_of(doc_model(*old(d)), k1@) == ItemKind::TableItem && kind_of(
            entries_at(doc_model(*old(d)), k1@),
            k2@,
        ) == ItemKind::TableItem && table_implicit(*old(d), k1@)) ==> *final(d) == *old(d),
{
    let root = d.as_table_mut();
    if root.get(k1).is_none() {
        root.insert(k1, Item::Table(Table::new()));
    }
    if let Some(t) = root.get_mut(k1).and_then(Item::as_table_mut) {
        t.set_implicit(true);
        if t.get(k2).is_none() {
            t.insert(k2, Item::Table(Table::new()));
        }
    }
}

/// Relies on toml_edit's `Table::get` and `Table::insert`: makes the entry
/// under `k3` of the table under `k1.k2` table-like, keeping it if it is a
/// standard or inline table already and creating an inline table otherwise.
/// Presence is decided by `get`, which treats a none item as absent, and
/// `insert` replaces whatever held the key.
#[verifier::external_body]
fn ensure_dep_entry(d: &mut DocumentMut, k1: &str, k2: &str, k3: &str)
    requires
        kind_of(doc_model(*old(d)), k1@) == ItemKind::TableItem,
        kind_of(entries_at(doc_model(*old(d)), k1@), k2@) == ItemKind::TableItem,
        kind_of(entries_at(entries_at(doc_model(*old(d)), k1@), k2@), k3@)
            != ItemKind::OtherItem,
    ensures
        doc_model(*final(d)) == with_dep_entry(doc_model(*old(d)), k1@, k2@, k3@),
        doc_tidy(*old(d)) ==> doc_tidy(*final(d)),
        table_implicit(*final(d), k1@) == table_implicit(*old(d), k1@),
        kind_of(entries_at(entries_at(doc_model(*old(d)), k1@), k2@), k3@) != ItemKind::Absent
            ==> *final(d) == *old(d),
{
    let t1 = match d.as_table_mut().get_mut(k1) { Some(i) => i.as_table_mut(), None => return };
    let t2 = match t1 { Some(t) => t.get_mut(k2), None => return };
    let t2 = match t2 { Some(i) => i.as_table_mut(), None => return };
    if let Some(t) = t2 {
        if t.get(k3).is_none() {
            t.insert(k3, Item::Value(Value::InlineTable(InlineTable::new())));
        }
    }
}

/// Relies on toml_edit's `Table::insert` and `InlineTable::insert`: sets the
/// entry under `k4` of the table-like entry at `k1.k2.k3` to the string `v`,
/// overwriting only that entry and keeping the entry's shape, standard or
/// inline.
#[verifier::external_body]
fn set_dep_str(d: &mut DocumentMut, k1: &str, k2: &str, k3: &str, k4: &str, v: &str)
    requires
        kind_of(doc_model(*old(d)), k1@) == ItemKind::TableItem,
        kind_of(entries_at(doc_model(*old(d)), k1@), k2@) == ItemKind::TableItem,
        kind_of(entries_at(entries_at(doc_model(*old(d)), k1@), k2@), k3@) == ItemKind::InlineItem
            || kind_of(entries_at(entries_at(doc_model(*old(d)), k1@), k2@), k3@)
            == ItemKind::TableItem,
    ensures
        doc_model(*final(d)) == with_entry_str(doc_model(*old(d)), k1@, k2@, k3@, k4@, v@),
        doc_tidy(*old(d)) ==> doc_tidy(*final(d)),
        table_implicit(*final(d), k1@) == table_implicit(*old(d), k1@),
{
    let t1 = match d.as_table_mut().get_mut(k1) { Some(i) => i.as_table_mut(), None => return };
    let t2 = match t1 { Some(t) => t.get_mut(k2), None => return };
    let t2 = match t2 { Some(i) => i.as_table_mut(), None => return };
    let e = match t2 { Some(t) => t.get_mut(k3), None => return };
    match e {
        Some(Item::Table(t)) => { t.insert(k4, Item::Value(v.into())); },
        Some(Item::Value(Value::InlineTable(it))) => { it.insert(k4, v.into()); },
        _ => {},
    }
}

/// Relies on toml_edit's `Table::get` and `InlineTable::get`: reads the
/// string under `k4` of the table-like entry at `k1.k2.k3`, standard or
/// inline, if the document has that shape there.
#[verifier::external_body]
fn read_dep_str(d: &DocumentMut, k1: &str, k2: &str, k3: &str, k4: &str) -> (r: Option<String>)
    ensures
        ({
            let m = doc_model(*d);
            let dk = kind_of(entries_at(entries_at(m, k1@), k2@), k3@);
            let dm = entries_at(entries_at(entries_at(m, k1@), k2@), k3@);
            (kind_of(m, k1@) == ItemKind::TableItem && kind_of(entries_at(m, k1@), k2@)
                == ItemKind::TableItem && (dk == ItemKind::InlineItem || dk
                == ItemKind::TableItem)) ==> {
                &&& r is Some <==> (dm.dom().contains(k4@) && dm[k4@] is Str)
                &&& r is Some ==> (dm[k4@] matches TomlNode::Str(s) ==> r->0@ == s)
            }
        }),
{
    let t1 = match d.as_table().get(k1) { Some(Item::Table(t)) => t, _ => return None };
    let t2 = match t1.get(k2) { Some(Item::Table(t)) => t, _ => return None };
    match t2.get(k3) {
        Some(Item::Table(t)) => match t.get(k4) {
            Some(Item::Value(Value::String(f))) => Some(f.value().clone()),
            _ => None,
        },
        Some(Item::Value(Value::InlineTable(it))) => match it.get(k4) {
            Some(Value::String(f)) => Some(f.value().clone()),
            _ => None,
        },
        _ => None,
    }
}

/// Parses a manifest text into an editable document. Until it is edited, the
/// document renders back to the input byte for byte, less a leading
/// byte-order mark, which the parser drops.
pub fn parse_manifest(text: &str) -> (r: Result<DocumentMut, ManifestError>)
    ensures
        r is Ok <==> parsed_model(text@) is Some,
        r is Ok ==> Some(doc_model(r->Ok_0)) == parsed_model(text@) && doc_tidy(r->Ok_0),
        r is Ok ==> rendered_text(r->Ok_0) == strip_bom(text@),
        r is Err ==> r->Err_0 == ManifestError::Unparsable,
{
    match parse_doc(text) {
        Some(d) => Ok(d),
        None => Err(ManifestError::Unparsable),
    }
}

/// Renders a document back to manifest text: the text the document renders
/// to, comments, order and formatting included. On a tidy document the text
/// parses back to the same content.
pub fn render_manifest(doc: &DocumentMut) -> (r: String)
    ensures
        r@ == rendered_text(*doc),
        doc_tidy(*doc) ==> parsed_model(r@) == Some(doc_model(*doc)),
{
    render_doc(doc)
}

/// Rewrites the patch table of `doc` so that `dep` resolves to the local
/// `path`: the patch table and the sub-table for `registry` — the source
/// registry the dependency was resolved from — are created if absent, the
/// entry for `dep` — standard table, inline table, or created inline — gets
/// its `path` key set with every sibling key kept, and nothing else changes.
/// A value invalid for traversal on the way refuses the whole rewrite and
/// leaves the document untouched.
///
/// A `path` that already holds the wanted string is left exactly as it was
/// written. With the implicit patch table a successful rewrite leaves behind
/// (and [`lemma_patched_is_already_patched`](crate::model::lemma_patched_is_already_patched)),
/// the last `ensures` clause makes rewriting twice the same as rewriting
/// once, byte for byte: the second call does not touch the document at all.
pub fn apply_patch(doc: &mut DocumentMut, registry: &str, dep: &str, path: &str) -> (r: Result<
    (),
    PatchError,
>)
    ensures
        r is Ok <==> patchable(doc_model(*old(doc)), registry@, dep@),
        r is Ok ==> doc_model(*final(doc)) == patched(
            doc_model(*old(doc)),
            registry@,
            dep@,
            path@,
        ),
        r is Err ==> Some(r->Err_0) == patch_failure(doc_model(*old(doc)), registry@, dep@),
        r is Err ==> *final(doc) == *old(doc),
        doc_tidy(*old(doc)) ==> doc_tidy(*final(doc)),
        r is Ok ==> table_implicit(*final(doc), "patch"@),
        already_patched(doc_model(*old(doc)), registry@, dep@, path@) && table_implicit(
            *old(doc),
            "patch"@,
        ) ==> *final(doc) == *old(doc),
{
    let ghost m0 = doc_model(*doc);
    let pk = probe_root(doc, "patch");
    if pk == ItemKind::InlineItem || pk == ItemKind::OtherItem {
        return Err(PatchError::PatchKeyNotTable);
    }
    if pk == ItemKind::TableItem {
        let rk = probe_sub(doc, "patch", registry);
        if rk == ItemKind::InlineItem || rk == ItemKind::OtherItem {
            return Err(PatchError::RegistryKeyNotTable);
        }
        if rk == ItemKind::TableItem {
            let dk = probe_sub2(doc, "patch", registry, dep);
            if dk == ItemKind::OtherItem {
                return Err(PatchError::DependencyKeyNotTable);
            }
        }
    }
    prepare_tables(doc, "patch", registry);
    ensure_dep_entry(doc, "patch", registry, dep);
    let ghost m2 = doc_model(*doc);
    let existing = read_dep_str(doc, "patch", registry, dep, "path");
    let path_owned: String = path.to_owned();
    let in_place = match &existing {
        Some(s) => *s == path_owned,
        None => false,
    };
    if !in_place {
        set_dep_str(doc, "patch", registry, dep, "path", path);
    }
    proof {
        lemma_patch_stages(m0, registry@, dep@, path@);
        if in_place {
            lemma_entry_str_noop(m2, "patch"@, registry@, dep@, "path"@, path@);
        }
    }
    Ok(())
}

/// The whole in-memory pipeline: parse the manifest text, rewrite its patch
/// table so that `dep` resolves to `path` under `registry`, and render it
/// back. The result is text that parses to exactly the patched content of the
/// input.
pub fn patch_manifest_text(text: &str, registry: &str, dep: &str, path: &str) -> (r: Result<
    String,
    ManifestError,
>)
    ensures
        ({
            let pm = parsed_model(text@);
            &&& (r is Ok <==> pm is Some && patchable(pm->0, registry@, dep@))
            &&& (r is Ok ==> parsed_model(r->Ok_0@) == Some(
                patched(pm->0, registry@, dep@, path@),
            ))
            &&& (pm is None ==> r is Err && r->Err_0 == ManifestError::Unparsable)
            &&& (pm is Some ==> (patch_failure(pm->0, registry@, dep@) matches Some(e) ==> r is Err
                && r->Err_0 == ManifestError::Patch(e)))
        }),
{
    let mut d = match parse_manifest(text) {
        Ok(d) => d,
        Err(e) => return Err(e),
    };
    match apply_patch(&mut d, registry, dep, path) {
        Ok(_) => Ok(render_manifest(&d)),
        Err(e) => Err(ManifestError::Patch(e)),
    }
}

/// The path the patch entry of `dep` under `registry` points at, read back
/// from a document.
pub fn patch_path_of(doc: &DocumentMut, registry: &str, dep: &str) -> (r: Option<String>)
    ensures
        ({
            let m = doc_model(*doc);
            (kind_of(m, "patch"@) == ItemKind::TableItem && kind_of(patch_entries(m), registry@)
                == ItemKind::TableItem && (kind_of(registry_entries(m, registry@), dep@)
                == ItemKind::InlineItem || kind_of(registry_entries(m, registry@), dep@)
                == ItemKind::TableItem)) ==> {
                &&& r is Some <==> (dep_entries(m, registry@, dep@).dom().contains("path"@)
                    && dep_entries(m, registry@, dep@)["path"@] is Str)
                &&& r is Some ==> (dep_entries(m, registry@, dep@)["path"@] matches TomlNode::Str(
                    s,
                ) ==> r->0@ == s)
            }
        }),
{
    read_dep_str(doc, "patch", registry, dep, "path")
}

impl ManifestError {
    /// What went wrong, for the error stream.
    pub fn message(&self) -> (r: String)
        ensures
            *self == ManifestError::Unparsable ==> r@ == "could not parse manifest"@,
            *self == ManifestError::Patch(PatchError::PatchKeyNotTable) ==> r@
                == "patch is not a Table"@,
            *self == ManifestError::Patch(PatchError::RegistryKeyNotTable) ==> r@
                == "registry is not a Table"@,
            *self == ManifestError::Patch(PatchError::DependencyKeyNotTable) ==> r@
                == "dependency is not a table"@,
    {
        match self {
            ManifestError::Unparsable => String::from_str("could not parse manifest"),
            ManifestError::Patch(PatchError::PatchKeyNotTable) => String::from_str(
                "patch is not a Table",
            ),
            ManifestError::Patch(PatchError::RegistryKeyNotTable) => String::from_str(
                "registry is not a Table",
            ),
            ManifestError::Patch(PatchError::DependencyKeyNotTable) => String::from_str(
                "dependency is not a table",
            ),
        }
    }
}

} // verus!
