//! Source resolution planning: classifying a user-supplied source string as a
//! remote repository or a local path, and planning the clone-or-reuse step
//! into the cache directory under the user's home.

use vstd::prelude::*;
use crate::text::{starts_with, str_starts_with};

verus! {

/// A source string names a remote repository exactly when it begins with
/// `http` or `git` (a literal, case-sensitive prefix match).
pub open spec fn is_git_url_spec(s: Seq<char>) -> bool {
    starts_with(s, "http"@) || starts_with(s, "git"@)
}

/// Remote-repository test on the literal source text.
pub fn is_git_url(repo: &str) -> (b: bool)
    ensures
        b == is_git_url_spec(repo@),
{
    str_starts_with(repo, "http") || str_starts_with(repo, "git")
}

/// How a source string is to be treated.
#[derive(Clone, Copy, PartialEq, Eq, Structural, Debug)]
pub enum SourceKind {
    RemoteRepo,
    LocalPath,
}

/// Classifies a source string: remote repository iff it begins with `http`
/// or `git`, a local path otherwise.
pub fn classify_source(source: &str) -> (k: SourceKind)
    ensures
        k == (if is_git_url_spec(source@) {
            SourceKind::RemoteRepo
        } else {
            SourceKind::LocalPath
        }),
{
    if is_git_url(source) {
        SourceKind::RemoteRepo
    } else {
        SourceKind::LocalPath
    }
}

/// The text after the last `/` of `s`; the whole of `s` when it has no `/`.
pub open spec fn last_segment(s: Seq<char>) -> Seq<char>
    decreases s.len(),
{
    if s.len() == 0 {
        s
    } else if s.last() == '/' {
        Seq::<char>::empty()
    } else {
        last_segment(s.drop_last()).push(s.last())
    }
}

/// The directory name the cache uses for a repository URL: the final path
/// segment, or the placeholder `repository` when the URL yields none.
pub open spec fn repo_name_spec(url: Seq<char>) -> Seq<char> {
    if last_segment(url).len() == 0 {
        "repository"@
    } else {
        last_segment(url)
    }
}

proof fn lemma_last_segment_subrange(s: Seq<char>, i: int)
    requires
        0 <= i <= s.len(),
        forall|j: int| i <= j < s.len() ==> s[j] != '/',
        i == 0 || s[i - 1] == '/',
    ensures
        last_segment(s) == s.subrange(i, s.len() as int),
    decreases s.len(),
{
    if s.len() == 0 {
        assert(last_segment(s) =~= s.subrange(0, 0));
    } else if i == s.len() {
        assert(s.last() == '/');
        assert(last_segment(s) =~= s.subrange(i, s.len() as int));
    } else {
        assert(s.last() != '/');
        let t = s.drop_last();
        lemma_last_segment_subrange(t, i);
        assert(last_segment(s) == last_segment(t).push(s.last()));
        assert(t.subrange(i, t.len() as int).push(s.last()) =~= s.subrange(
            i,
            s.len() as int,
        ));
    }
}

/// Derives the cache directory name from a source URL: the text after the
/// last `/`, or `repository` when the URL ends in `/` or is empty.
pub fn repo_dir_name(url: &str) -> (r: String)
    ensures
        r@ == repo_name_spec(url@),
{
    let len = url.unicode_len();
    let mut i: usize = len;
    let mut found = false;
    while i > 0 && !found
        invariant
            i <= len,
            len as nat == url@.len(),
            forall|j: int| i <= j < len ==> url@[j] != '/',
            found ==> i > 0 && url@[i - 1] == '/',
        decreases 2 * i + (if found { 0 as int } else { 1 as int }),
    {
        if url.get_char(i - 1) == '/' {
            found = true;
        } else {
            i -= 1;
        }
    }
    proof {
        lemma_last_segment_subrange(url@, i as int);
    }
    let seg = url.substring_char(i, len);
    if seg.unicode_len() == 0 {
        String::from_str("repository")
    } else {
        String::from_str(seg)
    }
}

/// The cache root for cloned repositories: `<home>/.igor`.
pub open spec fn cache_root_spec(home: Seq<char>) -> Seq<char> {
    home + "/.igor"@
}

/// The directory a repository URL is cloned into (or reused from):
/// `<home>/.igor/<repo name>`.
pub open spec fn cache_repo_dir_spec(home: Seq<char>, url: Seq<char>) -> Seq<char> {
    cache_root_spec(home) + "/"@ + repo_name_spec(url)
}

/// The cache root path `<home>/.igor` as a string.
pub fn cache_root(home: &str) -> (r: String)
    ensures
        r@ == cache_root_spec(home@),
{
    let mut r = String::from_str(home);
    r.append("/.igor");
    r
}

/// What the resolver does about a remote repository once it knows whether
/// the cache directory is already present.
#[derive(Clone, Copy, PartialEq, Eq, Structural, Debug)]
pub enum CloneAction {
    /// The cache directory exists: reuse it as-is, with no freshness check.
    Reuse,
    /// The cache directory is absent: clone the repository into it.
    PerformClone,
}

/// The planned resolution of a remote repository source: where it lives
/// under the cache, and whether a clone is needed.
pub struct ClonePlan {
    pub repo_dir: String,
    pub action: CloneAction,
}

/// The action a clone plan takes, as a function of cache presence alone.
pub open spec fn clone_action_spec(already_present: bool) -> CloneAction {
    if already_present {
        CloneAction::Reuse
    } else {
        CloneAction::PerformClone
    }
}

/// The whole clone plan as a function of its inputs: the target directory
/// and the action taken.
pub open spec fn clone_plan_spec(home: Seq<char>, url: Seq<char>, already_present: bool) -> (
    Seq<char>,
    CloneAction,
) {
    (cache_repo_dir_spec(home, url), clone_action_spec(already_present))
}

/// Plans the clone-or-reuse step for a remote repository URL. The target
/// directory depends only on the home directory and the URL; whether a clone
/// happens depends only on whether that directory already exists.
pub fn clone_plan(home: &str, url: &str, already_present: bool) -> (r: ClonePlan)
    ensures
        r.repo_dir@ == clone_plan_spec(home@, url@, already_present).0,
        r.action == clone_plan_spec(home@, url@, already_present).1,
{
    let name = repo_dir_name(url);
    let mut dir = cache_root(home);
    dir.append("/");
    dir.append(name.as_str());
    let action = if already_present {
        CloneAction::Reuse
    } else {
        CloneAction::PerformClone
    };
    ClonePlan { repo_dir: dir, action }
}

/// Resolving the same remote source twice is idempotent: two runs aim at
/// the same cache directory whatever each finds there, a run that finds the
/// directory absent clones, and a run that finds it present reuses it and
/// performs no clone.
pub proof fn lemma_clone_plan_idempotent(
    home: Seq<char>,
    url: Seq<char>,
    first_present: bool,
    second_present: bool,
)
    ensures
        clone_plan_spec(home, url, first_present).0 == clone_plan_spec(
            home,
            url,
            second_present,
        ).0,
        clone_plan_spec(home, url, false).1 == CloneAction::PerformClone,
        clone_plan_spec(home, url, true).1 == CloneAction::Reuse,
{
}

} // verus!
