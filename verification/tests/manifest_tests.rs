use forkdep::manifest::{
    apply_patch, parse_manifest, patch_manifest_text, patch_path_of, render_manifest,
    ManifestError,
};
use forkdep::model::PatchError;

#[test]
fn patch_empty_manifest() {
    let mut doc = parse_manifest("").expect("empty text is a valid manifest");
    assert_eq!(apply_patch(&mut doc, "crates-io", "serde", "patches/serde"), Ok(()));
    assert_eq!(
        patch_path_of(&doc, "crates-io", "serde"),
        Some(String::from("patches/serde"))
    );
    let rendered = render_manifest(&doc);
    assert!(rendered.contains("[patch.crates-io]"));
    assert!(rendered.contains("serde"));
    assert!(rendered.contains("patches/serde"));
    assert!(!rendered.contains("[patch]\n"));
}

#[test]
fn patch_is_idempotent_bytewise() {
    let text = "[package]\nname = \"ws\"\n\n[dependencies]\nlibfoo = \"1.2\"\n";
    let mut doc = parse_manifest(text).unwrap();
    assert_eq!(apply_patch(&mut doc, "crates-io", "libfoo", "patches/libfoo"), Ok(()));
    let once = render_manifest(&doc);
    assert_eq!(apply_patch(&mut doc, "crates-io", "libfoo", "patches/libfoo"), Ok(()));
    let twice = render_manifest(&doc);
    assert_eq!(once, twice);
}

#[test]
fn patch_preserves_unrelated_keys() {
    let text = "a = 1\n\n[patch.crates-io]\nother-dep = { path = \"existing\" }\n";
    let mut doc = parse_manifest(text).unwrap();
    assert_eq!(apply_patch(&mut doc, "crates-io", "x", "patches/x"), Ok(()));
    let rendered = render_manifest(&doc);
    assert!(rendered.contains("a = 1\n"));
    assert!(rendered.contains("other-dep = { path = \"existing\" }\n"));
    assert_eq!(
        patch_path_of(&doc, "crates-io", "other-dep"),
        Some(String::from("existing"))
    );
    assert_eq!(patch_path_of(&doc, "crates-io", "x"), Some(String::from("patches/x")));
}

#[test]
fn patch_scalar_patch_key_fails_without_mutation() {
    let text = "patch = 3\n";
    let mut doc = parse_manifest(text).unwrap();
    assert_eq!(
        apply_patch(&mut doc, "crates-io", "serde", "patches/serde"),
        Err(PatchError::PatchKeyNotTable)
    );
    assert_eq!(render_manifest(&doc), text);
}

#[test]
fn patch_scalar_registry_key_fails() {
    let text = "[patch]\ncrates-io = 5\n";
    let mut doc = parse_manifest(text).unwrap();
    assert_eq!(
        apply_patch(&mut doc, "crates-io", "serde", "patches/serde"),
        Err(PatchError::RegistryKeyNotTable)
    );
    assert_eq!(render_manifest(&doc), text);
}

#[test]
fn patch_standard_table_dependency_is_traversed() {
    let text = "[patch.crates-io.serde]\nversion = \"1\"\n";
    let mut doc = parse_manifest(text).unwrap();
    assert_eq!(apply_patch(&mut doc, "crates-io", "serde", "patches/serde"), Ok(()));
    assert_eq!(
        patch_path_of(&doc, "crates-io", "serde"),
        Some(String::from("patches/serde"))
    );
    let rendered = render_manifest(&doc);
    assert!(rendered.contains("[patch.crates-io.serde]"));
    assert!(rendered.contains("version = \"1\"\n"));
    assert!(rendered.contains("path = \"patches/serde\""));
}

#[test]
fn patch_scalar_dependency_entry_fails() {
    let text = "[patch.crates-io]\nserde = 5\n";
    let mut doc = parse_manifest(text).unwrap();
    assert_eq!(
        apply_patch(&mut doc, "crates-io", "serde", "patches/serde"),
        Err(PatchError::DependencyKeyNotTable)
    );
    assert_eq!(render_manifest(&doc), text);
}

#[test]
fn patch_array_of_tables_dependency_fails() {
    let text = "[[patch.crates-io.serde]]\nversion = \"1\"\n";
    let mut doc = parse_manifest(text).unwrap();
    assert_eq!(
        apply_patch(&mut doc, "crates-io", "serde", "patches/serde"),
        Err(PatchError::DependencyKeyNotTable)
    );
    assert_eq!(render_manifest(&doc), text);
}

#[test]
fn parsed_manifest_renders_byte_for_byte() {
    let text = "# keep me\n[package]  # inline comment\nname = 'ws'   \n\n[deps]\nx = [1, 2]\n";
    let doc = parse_manifest(text).unwrap();
    assert_eq!(render_manifest(&doc), text);
}

#[test]
fn equal_path_is_left_as_written() {
    let text = "[patch.crates-io]\nserde = { path = 'patches/serde' }\n";
    let mut doc = parse_manifest(text).unwrap();
    assert_eq!(apply_patch(&mut doc, "crates-io", "serde", "patches/serde"), Ok(()));
    assert_eq!(render_manifest(&doc), text);
}

#[test]
fn leading_byte_order_mark_is_dropped() {
    let text = "\u{feff}a = 1\n";
    let doc = parse_manifest(text).expect("a byte-order mark is accepted");
    assert_eq!(render_manifest(&doc), "a = 1\n");
    let out = patch_manifest_text(text, "crates-io", "libfoo", "patches/libfoo").unwrap();
    assert!(!out.starts_with('\u{feff}'));
    assert!(out.starts_with("a = 1\n"));
    assert!(out.contains("[patch.crates-io]"));
}

#[test]
fn patch_into_another_registry() {
    let text = "[patch.alt-registry]\nlibbar = { path = \"elsewhere\" }\n";
    let mut doc = parse_manifest(text).unwrap();
    assert_eq!(apply_patch(&mut doc, "alt-registry", "libfoo", "patches/libfoo"), Ok(()));
    assert_eq!(
        patch_path_of(&doc, "alt-registry", "libfoo"),
        Some(String::from("patches/libfoo"))
    );
    assert_eq!(
        patch_path_of(&doc, "alt-registry", "libbar"),
        Some(String::from("elsewhere"))
    );
    let rendered = render_manifest(&doc);
    assert!(rendered.contains("[patch.alt-registry]"));
    assert!(!rendered.contains("crates-io"));
}

#[test]
fn patched_document_round_trips() {
    let mut doc = parse_manifest("[workspace]\nmembers = [\"a\"]\n").unwrap();
    assert_eq!(apply_patch(&mut doc, "crates-io", "libfoo", "patches/libfoo"), Ok(()));
    let rendered = render_manifest(&doc);
    let reparsed = parse_manifest(&rendered).expect("rendered manifest parses back");
    assert_eq!(
        patch_path_of(&reparsed, "crates-io", "libfoo"),
        Some(String::from("patches/libfoo"))
    );
    assert_eq!(render_manifest(&reparsed), rendered);
}

#[test]
fn patch_overwrites_path_and_keeps_siblings() {
    let text = "[patch.crates-io]\nserde = { version = \"1.0\", path = \"old\" }\n";
    let mut doc = parse_manifest(text).unwrap();
    assert_eq!(apply_patch(&mut doc, "crates-io", "serde", "patches/serde"), Ok(()));
    assert_eq!(
        patch_path_of(&doc, "crates-io", "serde"),
        Some(String::from("patches/serde"))
    );
    let rendered = render_manifest(&doc);
    assert!(rendered.contains("version = \"1.0\""));
    assert!(!rendered.contains("\"old\""));
}

#[test]
fn patch_manifest_text_pipeline() {
    let out = patch_manifest_text("", "crates-io", "libfoo", "patches/libfoo").unwrap();
    let doc = parse_manifest(&out).unwrap();
    assert_eq!(
        patch_path_of(&doc, "crates-io", "libfoo"),
        Some(String::from("patches/libfoo"))
    );
    assert!(out.contains("[patch.crates-io]"));
}

#[test]
fn patch_manifest_text_rejects_bad_text() {
    let r = patch_manifest_text("= nonsense", "crates-io", "libfoo", "patches/libfoo");
    assert_eq!(r, Err(ManifestError::Unparsable));
}

#[test]
fn patch_manifest_text_reports_patch_error() {
    let r = patch_manifest_text("patch = false\n", "crates-io", "libfoo", "patches/libfoo");
    assert_eq!(r, Err(ManifestError::Patch(PatchError::PatchKeyNotTable)));
}

#[test]
fn manifest_error_messages() {
    assert_eq!(
        ManifestError::Unparsable.message(),
        "could not parse manifest"
    );
    assert_eq!(
        ManifestError::Patch(PatchError::PatchKeyNotTable).message(),
        "patch is not a Table"
    );
    assert_eq!(
        ManifestError::Patch(PatchError::RegistryKeyNotTable).message(),
        "registry is not a Table"
    );
    assert_eq!(
        ManifestError::Patch(PatchError::DependencyKeyNotTable).message(),
        "dependency is not a table"
    );
}

#[test]
fn patch_keeps_sibling_registry_tables() {
    let text = "[patch.some-registry]\nlibbar = { path = \"elsewhere\" }\n";
    let mut doc = parse_manifest(text).unwrap();
    assert_eq!(apply_patch(&mut doc, "crates-io", "libfoo", "patches/libfoo"), Ok(()));
    let rendered = render_manifest(&doc);
    assert!(rendered.contains("[patch.some-registry]"));
    assert!(rendered.contains("libbar = { path = \"elsewhere\" }\n"));
    assert_eq!(
        patch_path_of(&doc, "crates-io", "libfoo"),
        Some(String::from("patches/libfoo"))
    );
}

#[test]
fn patch_keeps_comments() {
    let text = "# top comment\na = 1 # trailing\n";
    let mut doc = parse_manifest(text).unwrap();
    assert_eq!(apply_patch(&mut doc, "crates-io", "libfoo", "patches/libfoo"), Ok(()));
    let rendered = render_manifest(&doc);
    assert!(rendered.contains("# top comment"));
    assert!(rendered.contains("a = 1 # trailing"));
}
