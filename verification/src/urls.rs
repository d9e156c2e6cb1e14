//! String computations around forking: the repository name at the end of a
//! URL, the URL of a fork of it, and the conventional local path for a
//! patched dependency.

use vstd::prelude::*;
use vstd::string::StrSliceExecFns;
use vstd::string::StringExecFns;

verus! {

/// The position just after the last '/' of `s`, or 0 if `s` has none.
pub open spec fn cut_after_last_slash(s: Seq<char>) -> int
    decreases s.len(),
{
    if s.len() == 0 {
        0
    } else if s[s.len() - 1] == '/' {
        s.len() as int
    } else {
        cut_after_last_slash(s.drop_last())
    }
}

/// The last segment of a URL: everything after the last '/', or the whole
/// string if it has no '/'.
pub open spec fn last_segment(s: Seq<char>) -> Seq<char> {
    s.subrange(cut_after_last_slash(s), s.len() as int)
}

/// A position `p` with no slash at or after it, and a slash (or the start of
/// the string) just before it, is where `cut_after_last_slash` cuts.
proof fn lemma_cut_characterised(s: Seq<char>, p: int)
    requires
        0 <= p <= s.len(),
        forall|j: int| p <= j < s.len() ==> s[j] != '/',
        p == 0 || s[p - 1] == '/',
    ensures
        cut_after_last_slash(s) == p,
    decreases s.len(),
{
    if s.len() == 0 {
    } else if s[s.len() - 1] == '/' {
        assert(p == s.len());
    } else {
        assert(p < s.len());
        assert(forall|j: int| p <= j < s.drop_last().len() ==> s.drop_last()[j] != '/');
        lemma_cut_characterised(s.drop_last(), p);
    }
}

/// The repository name a URL ends in: its last `/`-separated segment.
pub fn repo_name_from_url(url: &str) -> (r: String)
    ensures
        r@ == last_segment(url@),
{
    let n = url.unicode_len();
    let mut i = n;
    while i > 0 && url.get_char(i - 1) != '/'
        invariant
            i <= n,
            n == url@.len(),
            forall|j: int| i <= j < n ==> url@[j] != '/',
        decreases i,
    {
        i = i - 1;
    }
    proof {
        lemma_cut_characterised(url@, i as int);
    }
    let seg = url.substring_char(i, n);
    seg.to_owned()
}

/// The URL of a fork of repository `repo` owned by `owner`.
pub fn fork_url(owner: &str, repo: &str) -> (r: String)
    ensures
        r@ == "https://www.github.com/"@ + owner@ + "/"@ + repo@,
{
    let mut r = String::from_str("https://www.github.com/");
    r.append(owner);
    r.append("/");
    r.append(repo);
    r
}

/// The conventional workspace-relative path for the local copy of `dep`.
pub fn patch_path_for(dep: &str) -> (r: String)
    ensures
        r@ == "patches/"@ + dep@,
{
    let mut r = String::from_str("patches/");
    r.append(dep);
    r
}

} // verus!
