use forkdep::urls::{fork_url, patch_path_for, repo_name_from_url};

#[test]
fn repo_name_is_last_url_segment() {
    assert_eq!(repo_name_from_url("https://github.com/acme/libfoo"), "libfoo");
    assert_eq!(repo_name_from_url("https://github.com/acme/lib-foo.git"), "lib-foo.git");
}

#[test]
fn repo_name_of_bare_name_is_itself() {
    assert_eq!(repo_name_from_url("libfoo"), "libfoo");
    assert_eq!(repo_name_from_url(""), "");
}

#[test]
fn repo_name_after_trailing_slash_is_empty() {
    assert_eq!(repo_name_from_url("https://github.com/acme/"), "");
}

#[test]
fn fork_url_formats_owner_and_repo() {
    assert_eq!(fork_url("me", "libfoo"), "https://www.github.com/me/libfoo");
    assert_eq!(fork_url("", ""), "https://www.github.com//");
}

#[test]
fn patch_path_is_under_patches() {
    assert_eq!(patch_path_for("libfoo"), "patches/libfoo");
    assert_eq!(patch_path_for("serde"), "patches/serde");
}
