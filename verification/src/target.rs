//! What is built: a branch of a repository in a namespace.

use crate::error::Error;
use crate::text;
use vstd::prelude::*;

verus! {

/// A branch of a repository, with the record of its successful builds.
#[derive(Debug, PartialEq, Eq)]
pub struct RepoTarget {
    pub namespace: String,
    pub repo: String,
    pub branch: String,
    pub success_count: u64,
    pub last_success_at: Option<u64>,
}

/// What a `RepoTarget` stands for.
#[verifier::ext_equal]
pub struct RepoTargetView {
    pub namespace: Seq<char>,
    pub repo: Seq<char>,
    pub branch: Seq<char>,
    pub success_count: u64,
    pub last_success_at: Option<u64>,
}

impl View for RepoTarget {
    type V = RepoTargetView;

    open spec fn view(&self) -> RepoTargetView {
        RepoTargetView {
            namespace: self.namespace@,
            repo: self.repo@,
            branch: self.branch@,
            success_count: self.success_count,
            last_success_at: self.last_success_at,
        }
    }
}

impl RepoTargetView {
    /// Whether this is the branch `branch` of `namespace`/`repo`.
    pub open spec fn is_for(self, namespace: Seq<char>, repo: Seq<char>, branch: Seq<char>) -> bool {
        self.namespace == namespace && self.repo == repo && self.branch == branch
    }
}

/// The target that is named by the given texts: each without surrounding white space, and
/// none of them blank. It has no successful build yet.
pub open spec fn named_target(
    namespace: Seq<char>,
    repo: Seq<char>,
    branch: Seq<char>,
) -> Option<RepoTargetView> {
    if text::is_blank(namespace) || text::is_blank(repo) || text::is_blank(branch) {
        None
    } else {
        Some(
            RepoTargetView {
                namespace: text::trimmed(namespace),
                repo: text::trimmed(repo),
                branch: text::trimmed(branch),
                success_count: 0,
                last_success_at: None,
            },
        )
    }
}

impl Clone for RepoTarget {
    fn clone(&self) -> (r: Self)
        ensures
            r == *self,
    {
        RepoTarget {
            namespace: self.namespace.clone(),
            repo: self.repo.clone(),
            branch: self.branch.clone(),
            success_count: self.success_count,
            last_success_at: self.last_success_at,
        }
    }
}

impl RepoTarget {
    /// Names a target, dropping the white space around each part.
    pub fn new(namespace: String, repo: String, branch: String) -> (r: Result<RepoTarget, Error>)
        ensures
            match named_target(namespace@, repo@, branch@) {
                Some(target) => r matches Ok(t) && t@ == target,
                None => r == Err::<RepoTarget, Error>(Error::EmptyTarget),
            },
            match r {
                Ok(t) => {
                    &&& t.namespace@ == text::trimmed(namespace@)
                    &&& t.repo@ == text::trimmed(repo@)
                    &&& t.branch@ == text::trimmed(branch@)
                    &&& t.namespace@.len() > 0
                    &&& t.repo@.len() > 0
                    &&& t.branch@.len() > 0
                    &&& t.success_count == 0
                    &&& t.last_success_at is None
                },
                Err(e) => {
                    &&& e == Error::EmptyTarget
                    &&& text::trimmed(namespace@).len() == 0 || text::trimmed(repo@).len() == 0
                        || text::trimmed(branch@).len() == 0
                },
            },
    {
        proof {
            text::law_trimmed_is_empty_iff_blank(namespace@);
            text::law_trimmed_is_empty_iff_blank(repo@);
            text::law_trimmed_is_empty_iff_blank(branch@);
        }
        let namespace: &str = text::trim(namespace.as_str());
        let repo: &str = text::trim(repo.as_str());
        let branch: &str = text::trim(branch.as_str());
        if namespace.is_empty() || repo.is_empty() || branch.is_empty() {
            return Err(Error::EmptyTarget);
        }
        Ok(
            RepoTarget {
                namespace: namespace.to_owned(),
                repo: repo.to_owned(),
                branch: branch.to_owned(),
                success_count: 0,
                last_success_at: None,
            },
        )
    }

    /// Decides whether this is the given branch of the given repository.
    pub fn matches(&self, namespace: &str, repo: &str, branch: &str) -> (r: bool)
        ensures
            r == self@.is_for(namespace@, repo@, branch@),
            r == (self.namespace@ == namespace@ && self.repo@ == repo@ && self.branch@ == branch@),
    {
        text::same_text(self.namespace.as_str(), namespace) && text::same_text(self.repo.as_str(), repo)
            && text::same_text(self.branch.as_str(), branch)
    }
}

/// A target that was named once can be named again by its own parts, and is the same.
pub proof fn law_naming_is_idempotent(namespace: Seq<char>, repo: Seq<char>, branch: Seq<char>)
    ensures
        named_target(namespace, repo, branch) matches Some(t) ==> named_target(
            t.namespace,
            t.repo,
            t.branch,
        ) == Some(t),
{
    text::law_trim_is_idempotent(namespace);
    text::law_trim_is_idempotent(repo);
    text::law_trim_is_idempotent(branch);
    text::law_trimmed_is_empty_iff_blank(namespace);
    text::law_trimmed_is_empty_iff_blank(repo);
    text::law_trimmed_is_empty_iff_blank(branch);
    text::law_trimmed_is_empty_iff_blank(text::trimmed(namespace));
    text::law_trimmed_is_empty_iff_blank(text::trimmed(repo));
    text::law_trimmed_is_empty_iff_blank(text::trimmed(branch));
}

/// Two targets are the same exactly when their namespaces, repositories and branches are the
/// same texts.
pub proof fn law_targets_are_told_apart_by_their_texts(
    t: RepoTarget,
    namespace: Seq<char>,
    repo: Seq<char>,
    branch: Seq<char>,
)
    ensures
        t@.is_for(namespace, repo, branch) <==> t.namespace@ == namespace && t.repo@ == repo
            && t.branch@ == branch,
        t@.namespace == t.namespace@,
        t@.repo == t.repo@,
        t@.branch == t.branch@,
        t@.success_count == t.success_count,
        t@.last_success_at == t.last_success_at,
{
}

/// A target is named exactly when something is left of each of its texts without the white
/// space around them, and is named by what is left.
pub proof fn law_target_is_named_by_trimmed_texts(
    namespace: Seq<char>,
    repo: Seq<char>,
    branch: Seq<char>,
)
    ensures
        named_target(namespace, repo, branch) == if text::trimmed(namespace).len() > 0
            && text::trimmed(repo).len() > 0 && text::trimmed(branch).len() > 0 {
            Some(
                RepoTargetView {
                    namespace: text::trimmed(namespace),
                    repo: text::trimmed(repo),
                    branch: text::trimmed(branch),
                    success_count: 0,
                    last_success_at: None,
                },
            )
        } else {
            None
        },
{
    text::law_trimmed_is_empty_iff_blank(namespace);
    text::law_trimmed_is_empty_iff_blank(repo);
    text::law_trimmed_is_empty_iff_blank(branch);
}

} // verus!
