//! The repositories that the server lists for an account.

use crate::error::Error;
use crate::order;
use crate::order::Ranked;
use crate::seqs;
use crate::text;
use vstd::prelude::*;

verus! {

/// A repository as the server describes it.
#[derive(Debug)]
pub struct RepoResponse {
    pub namespace: Option<String>,
    pub name: Option<String>,
    pub slug: Option<String>,
    pub default_branch: Option<String>,
    pub active: Option<bool>,
}

/// What a `RepoResponse` stands for.
#[verifier::ext_equal]
pub struct RepoResponseView {
    pub namespace: Option<Seq<char>>,
    pub name: Option<Seq<char>>,
    pub slug: Option<Seq<char>>,
    pub default_branch: Option<Seq<char>>,
    pub active: Option<bool>,
}

impl View for RepoResponse {
    type V = RepoResponseView;

    open spec fn view(&self) -> RepoResponseView {
        RepoResponseView {
            namespace: text::opt_text(self.namespace),
            name: text::opt_text(self.name),
            slug: text::opt_text(self.slug),
            default_branch: text::opt_text(self.default_branch),
            active: self.active,
        }
    }
}

/// A repository that can be chosen.
#[derive(Debug, PartialEq, Eq)]
pub struct AccountRepo {
    pub namespace: String,
    pub repo: String,
    pub default_branch: Option<String>,
    pub active: Option<bool>,
}

/// What an `AccountRepo` stands for.
#[verifier::ext_equal]
pub struct AccountRepoView {
    pub namespace: Seq<char>,
    pub repo: Seq<char>,
    pub default_branch: Option<Seq<char>>,
    pub active: Option<bool>,
}

impl View for AccountRepo {
    type V = AccountRepoView;

    open spec fn view(&self) -> AccountRepoView {
        AccountRepoView {
            namespace: self.namespace@,
            repo: self.repo@,
            default_branch: text::opt_text(self.default_branch),
            active: self.active,
        }
    }
}

impl Clone for AccountRepo {
    fn clone(&self) -> (r: Self)
        ensures
            r == *self,
    {
        AccountRepo {
            namespace: self.namespace.clone(),
            repo: self.repo.clone(),
            default_branch: match &self.default_branch {
                Some(branch) => Some(branch.clone()),
                None => None,
            },
            active: self.active,
        }
    }
}

/// A text without surrounding white space, if anything is left of it.
pub open spec fn non_blank(s: Option<Seq<char>>) -> Option<Seq<char>> {
    match s {
        Some(t) => if text::is_blank(t) {
            None
        } else {
            Some(text::trimmed(t))
        },
        None => None,
    }
}

/// The namespace and name of a repository: the server's own fields where neither is
/// missing or blank, else the two sides of the first slash of its slug.
pub open spec fn repo_name(r: RepoResponseView) -> Option<(Seq<char>, Seq<char>)> {
    match (r.namespace, r.name) {
        (Some(namespace), Some(name)) if !text::is_blank(namespace) && !text::is_blank(name)
            => Some((namespace, name)),
        _ => match r.slug {
            Some(slug) => text::split_at_first(slug, '/'),
            None => None,
        },
    }
}

/// The repository that can be chosen, where its name is known.
pub open spec fn account_repo(r: RepoResponseView) -> Option<AccountRepoView> {
    match repo_name(r) {
        Some((namespace, name)) => Some(
            AccountRepoView {
                namespace: text::trimmed(namespace),
                repo: text::trimmed(name),
                default_branch: non_blank(r.default_branch),
                active: r.active,
            },
        ),
        None => None,
    }
}

/// A text without surrounding white space, if anything is left of it.
pub fn non_blank_text(s: Option<String>) -> (r: Option<String>)
    ensures
        text::opt_text(r) == non_blank(text::opt_text(s)),
        match s {
            Some(t) => if text::trimmed(t@).len() > 0 {
                r matches Some(left) && left@ == text::trimmed(t@)
            } else {
                r is None
            },
            None => r is None,
        },
{
    match s {
        Some(t) => {
            proof {
                text::law_trimmed_is_empty_iff_blank(t@);
            }
            if text::blank(t.as_str()) {
                None
            } else {
                Some(text::trim(t.as_str()).to_owned())
            }
        },
        None => None,
    }
}

impl RepoResponse {
    /// Reads the repository that can be chosen out of the server's description.
    pub fn into_account_repo(self) -> (r: Option<AccountRepo>)
        ensures
            match account_repo(self@) {
                Some(repo) => r matches Some(a) && a@ == repo,
                None => r is None,
            },
    {
        let own: Option<(String, String)> = match (self.namespace, self.name) {
            (Some(namespace), Some(name)) => {
                if !text::blank(namespace.as_str()) && !text::blank(name.as_str()) {
                    Some((namespace, name))
                } else {
                    None
                }
            },
            _ => None,
        };
        let (namespace, repo): (String, String) = match own {
            Some(pair) => pair,
            None => match self.slug {
                Some(slug) => match text::split_once(slug.as_str(), '/') {
                    Some(parts) => (parts.0.to_owned(), parts.1.to_owned()),
                    None => {
                        return None;
                    },
                },
                None => {
                    return None;
                },
            },
        };
        Some(
            AccountRepo {
                namespace: text::trim(namespace.as_str()).to_owned(),
                repo: text::trim(repo.as_str()).to_owned(),
                default_branch: non_blank_text(self.default_branch),
                active: self.active,
            },
        )
    }
}

/// The repositories that can be chosen among those that the server lists, in its order.
pub fn account_repos(responses: Vec<RepoResponse>) -> (r: Vec<AccountRepo>)
    ensures
        order::views(r@) == seqs::filter_map(
            order::views(responses@),
            |v: RepoResponseView| account_repo(v),
        ),
{
    let ghost f = |v: RepoResponseView| account_repo(v);
    let ghost all = order::views(responses@);
    let mut out: Vec<AccountRepo> = Vec::new();
    proof {
        assert(all.take(0) =~= Seq::<RepoResponseView>::empty());
        assert(order::views(out@) =~= Seq::<AccountRepoView>::empty());
    }
    for response in it: responses
        invariant
            f == (|v: RepoResponseView| account_repo(v)),
            all == order::views(it.seq()),
            order::views(out@) == seqs::filter_map(all.take(it.index() as int), f),
    {
        proof {
            let i = it.index() as int;
            seqs::lemma_filter_map_push(all.take(i), f, response@);
            assert(all.take(i + 1) =~= all.take(i).push(response@));
        }
        let ghost before = out@;
        match response.into_account_repo() {
            Some(repo) => {
                out.push(repo);
                assert(order::views(out@) =~= order::views(before).push(repo@));
            },
            None => {},
        }
    }
    assert(all.take(all.len() as int) =~= all);
    out
}

/// Whether `a` comes strictly before `b` by namespace, then name.
pub open spec fn listed_before(a: AccountRepoView, b: AccountRepoView) -> bool {
    ||| text::text_less(a.namespace, b.namespace)
    ||| a.namespace == b.namespace && text::text_less(a.repo, b.repo)
}

proof fn lemma_listed_before(a: AccountRepoView, b: AccountRepoView, c: AccountRepoView)
    ensures
        listed_before(a, b) || listed_before(b, a) || (a.namespace == b.namespace && a.repo
            == b.repo),
        !(listed_before(a, b) && listed_before(b, a)),
        listed_before(a, b) && listed_before(b, c) ==> listed_before(a, c),
{
    text::lemma_text_order(a.namespace, b.namespace, c.namespace);
    text::lemma_text_order(b.namespace, a.namespace, c.namespace);
    text::lemma_text_order(b.namespace, c.namespace, a.namespace);
    text::lemma_text_order(a.repo, b.repo, c.repo);
    text::lemma_text_order(b.repo, a.repo, c.repo);
}

impl Ranked for AccountRepo {
    open spec fn at_most(a: AccountRepoView, b: AccountRepoView) -> bool {
        !listed_before(b, a)
    }

    proof fn lemma_total(a: AccountRepoView, b: AccountRepoView) {
        lemma_listed_before(a, b, b);
    }

    proof fn lemma_transitive(a: AccountRepoView, b: AccountRepoView, c: AccountRepoView) {
        lemma_listed_before(a, b, c);
        lemma_listed_before(b, c, a);
        lemma_listed_before(c, b, a);
        lemma_listed_before(c, a, b);
        lemma_listed_before(b, a, c);
    }

    fn is_at_most(&self, other: &Self) -> (r: bool) {
        proof {
            text::lemma_text_order(other.namespace@, self.namespace@, self.namespace@);
        }
        if text::same_text(other.namespace.as_str(), self.namespace.as_str()) {
            !text::text_before(other.repo.as_str(), self.repo.as_str())
        } else {
            !text::text_before(other.namespace.as_str(), self.namespace.as_str())
        }
    }
}

/// The repositories of `repos` that belong to the namespace `login`.
pub open spec fn own_repos(
    repos: Seq<AccountRepoView>,
    login: Seq<char>,
) -> Seq<AccountRepoView> {
    repos.filter(|r: AccountRepoView| r.namespace == login)
}

/// The repositories to choose from: those of the account itself or, where it has none, all
/// that it can reach.
pub open spec fn offered_repos(
    repos: Seq<AccountRepoView>,
    login: Seq<char>,
) -> Seq<AccountRepoView> {
    if own_repos(repos, login).len() == 0 {
        repos
    } else {
        own_repos(repos, login)
    }
}

/// An account has a repository of its own exactly when one has its login as the namespace.
proof fn lemma_own_repos(repos: Seq<AccountRepoView>, login: Seq<char>)
    ensures
        own_repos(repos, login).len() > 0 <==> exists|i: int|
            0 <= i < repos.len() && (#[trigger] repos[i]).namespace == login,
{
    broadcast use vstd::seq_lib::group_filter_ensures;

    let mine = |r: AccountRepoView| r.namespace == login;
    let own = own_repos(repos, login);
    if own.len() > 0 {
        assert(mine(own[0]));
        seqs::lemma_filter_source(repos, mine, 0);
        let k = choose|k: int| 0 <= k < repos.len() && repos[k] == own[0];
        assert(repos[k].namespace == login);
    }
    if exists|i: int| 0 <= i < repos.len() && (#[trigger] repos[i]).namespace == login {
        let i = choose|i: int| 0 <= i < repos.len() && (#[trigger] repos[i]).namespace == login;
        assert(mine(repos[i]));
        assert(own.contains(repos[i]));
    }
}

/// What an account is shown to choose a repository from.
#[derive(Debug)]
pub struct AccountListing {
    /// What to say before, where the account has no repository of its own.
    pub notice: Option<String>,
    /// The repositories, sorted by namespace and name.
    pub repos: Result<Vec<AccountRepo>, Error>,
}

fn own_of(repos: &Vec<AccountRepo>, login: &str) -> (r: Vec<AccountRepo>)
    ensures
        order::views(r@) == own_repos(order::views(repos@), login@),
{
    let ghost all = order::views(repos@);
    let ghost mine = |r: AccountRepoView| r.namespace == login@;
    let mut out: Vec<AccountRepo> = Vec::new();
    let mut i: usize = 0;
    proof {
        assert(all.take(0) =~= Seq::<AccountRepoView>::empty());
        seqs::lemma_filter_drops_all(all.take(0), mine);
        assert(order::views(out@) =~= Seq::<AccountRepoView>::empty());
    }
    while i < repos.len()
        invariant
            i <= repos.len(),
            all == order::views(repos@),
            mine == (|r: AccountRepoView| r.namespace == login@),
            order::views(out@) == all.take(i as int).filter(mine),
        decreases repos.len() - i,
    {
        let ghost before = out@;
        proof {
            seqs::lemma_filter_push(all.take(i as int), mine, all[i as int]);
            assert(all.take(i + 1) =~= all.take(i as int).push(all[i as int]));
        }
        if text::same_text(repos[i].namespace.as_str(), login) {
            out.push(repos[i].clone());
            assert(order::views(out@) =~= order::views(before).push(out@.last()@));
        }
        i = i + 1;
    }
    assert(all.take(i as int) =~= all);
    out
}

/// Lists the repositories for an account to choose from. There is an error exactly where
/// the account can reach none.
pub fn account_listing(repos: Vec<AccountRepo>, login: &str) -> (r: AccountListing)
    ensures
        text::opt_text(r.notice) == if own_repos(order::views(repos@), login@).len() == 0 {
            Some("未找到 namespace 为 "@ + login@ + " 的仓库，将展示当前账号可访问的仓库"@)
        } else {
            None
        },
        r.notice is None <==> exists|i: int|
            0 <= i < repos@.len() && (#[trigger] repos@[i]).namespace@ == login@,
        if repos@.len() == 0 {
            r.repos == Err::<Vec<AccountRepo>, Error>(Error::NoRepositories)
        } else {
            r.repos matches Ok(list) && order::views(list@) == order::sorted::<AccountRepo>(
                offered_repos(order::views(repos@), login@),
            )
        },
{
    let own: Vec<AccountRepo> = own_of(&repos, login);
    proof {
        assert(order::views(own@).len() == own@.len());
        lemma_own_repos(order::views(repos@), login@);
        assert forall|i: int| 0 <= i < repos@.len() implies order::views(repos@)[i].namespace
            == (#[trigger] repos@[i]).namespace@ by {}
        if exists|i: int| 0 <= i < repos@.len() && (#[trigger] repos@[i]).namespace@ == login@ {
            let i = choose|i: int|
                0 <= i < repos@.len() && (#[trigger] repos@[i]).namespace@ == login@;
            assert(order::views(repos@)[i].namespace == login@);
        }
        if exists|i: int|
            0 <= i < order::views(repos@).len() && (#[trigger] order::views(
                repos@,
            )[i]).namespace == login@ {
            let i = choose|i: int|
                0 <= i < order::views(repos@).len() && (#[trigger] order::views(
                    repos@,
                )[i]).namespace == login@;
            assert(repos@[i].namespace@ == login@);
        }
    }
    if own.len() > 0 {
        proof {
            let mine = |r: AccountRepoView| r.namespace == login@;
            if repos@.len() == 0 {
                seqs::lemma_filter_drops_all(order::views(repos@), mine);
            }
        }
        return AccountListing { notice: None, repos: Ok(order::sort_ranked(own)) };
    }
    let notice: String = "未找到 namespace 为 ".to_owned().concat(login).concat(
        " 的仓库，将展示当前账号可访问的仓库",
    );
    if repos.is_empty() {
        return AccountListing { notice: Some(notice), repos: Err(Error::NoRepositories) };
    }
    AccountListing { notice: Some(notice), repos: Ok(order::sort_ranked(repos)) }
}

/// How a repository is presented for selection.
pub open spec fn repo_label(repo: AccountRepoView) -> Seq<char> {
    if repo.active == Some(false) {
        repo.namespace + "/"@ + repo.repo + " (未激活)"@
    } else {
        repo.namespace + "/"@ + repo.repo
    }
}

/// The line that presents a repository for selection.
pub fn format_account_repo_label(repo: &AccountRepo) -> (r: String)
    ensures
        r@ == repo_label(repo@),
        repo.active == Some(false) ==> r@ == repo.namespace@ + "/"@ + repo.repo@ + " (未激活)"@,
        repo.active != Some(false) ==> r@ == repo.namespace@ + "/"@ + repo.repo@,
{
    let name: String = repo.namespace.clone().concat("/").concat(repo.repo.as_str());
    match repo.active {
        Some(false) => name.concat(" (未激活)"),
        _ => name,
    }
}

/// The lines that present repositories for selection.
pub fn repo_labels(repos: &Vec<AccountRepo>) -> (r: Vec<String>)
    ensures
        order::views(r@) == order::views(repos@).map_values(|v: AccountRepoView| repo_label(v)),
        r@.len() == repos@.len(),
        forall|i: int| 0 <= i < r@.len() ==> (#[trigger] r@[i])@ == repo_label(repos@[i]@),
{
    let ghost wanted = order::views(repos@).map_values(|v: AccountRepoView| repo_label(v));
    let mut out: Vec<String> = Vec::new();
    let mut i: usize = 0;
    assert(order::views(out@) =~= wanted.take(0));
    while i < repos.len()
        invariant
            i <= repos.len(),
            wanted == order::views(repos@).map_values(|v: AccountRepoView| repo_label(v)),
            order::views(out@) == wanted.take(i as int),
        decreases repos.len() - i,
    {
        let ghost before = out@;
        out.push(format_account_repo_label(&repos[i]));
        proof {
            assert(order::views(out@) =~= order::views(before).push(out@.last()@));
            assert(out@.last()@ == wanted[i as int]);
            assert(wanted.take(i + 1) =~= wanted.take(i as int).push(wanted[i as int]));
        }
        i = i + 1;
    }
    assert(wanted.take(i as int) =~= wanted);
    assert(out@.len() == order::views(out@).len());
    assert forall|j: int| 0 <= j < out@.len() implies (#[trigger] out@[j])@ == repo_label(
        repos@[j]@,
    ) by {
        assert(order::views(out@)[j] == wanted[j]);
    }
    out
}

/// An account with repositories of its own is offered no others.
pub proof fn law_own_repos_are_preferred(
    repos: Seq<AccountRepoView>,
    login: Seq<char>,
    offered: AccountRepoView,
)
    requires
        order::sorted::<AccountRepo>(offered_repos(repos, login)).contains(offered),
        exists|i: int| 0 <= i < repos.len() && (#[trigger] repos[i]).namespace == login,
    ensures
        offered.namespace == login,
        repos.contains(offered),
{
    broadcast use vstd::seq_lib::group_filter_ensures;

    let mine = |r: AccountRepoView| r.namespace == login;
    let own = own_repos(repos, login);
    let i = choose|i: int| 0 <= i < repos.len() && (#[trigger] repos[i]).namespace == login;
    assert(mine(repos[i]));
    assert(own.contains(repos[i]));
    order::lemma_sorted_contains::<AccountRepo>(own, offered);
    let k = choose|k: int| 0 <= k < own.len() && own[k] == offered;
    assert(mine(own[k]));
    seqs::lemma_filter_source(repos, mine, k);
}

/// An account without repositories of its own is offered every repository that it can reach,
/// and no other.
pub proof fn law_all_repos_are_offered_without_own_ones(
    repos: Seq<AccountRepoView>,
    login: Seq<char>,
    repo: AccountRepoView,
)
    requires
        forall|i: int| 0 <= i < repos.len() ==> (#[trigger] repos[i]).namespace != login,
    ensures
        order::sorted::<AccountRepo>(offered_repos(repos, login)).contains(repo) <==> repos.contains(
            repo,
        ),
{
    let mine = |r: AccountRepoView| r.namespace == login;
    seqs::lemma_filter_drops_all(repos, mine);
    order::lemma_sorted_contains::<AccountRepo>(repos, repo);
}

/// The repositories on offer stand in the order of their namespaces and, within one, of their
/// names.
pub proof fn law_offered_repos_are_in_order(
    repos: Seq<AccountRepoView>,
    login: Seq<char>,
    i: int,
    j: int,
)
    requires
        0 <= i < j < order::sorted::<AccountRepo>(offered_repos(repos, login)).len(),
    ensures
        !listed_before(
            order::sorted::<AccountRepo>(offered_repos(repos, login))[j],
            order::sorted::<AccountRepo>(offered_repos(repos, login))[i],
        ),
{
    order::law_sorting_orders::<AccountRepo>(offered_repos(repos, login));
    let list = order::sorted::<AccountRepo>(offered_repos(repos, login));
    assert(AccountRepo::at_most(list[i], list[j]));
}

/// Repositories stand for what their fields hold.
pub proof fn law_repositories_stand_for_their_fields(given: RepoResponse, repo: AccountRepo)
    ensures
        given@.namespace == text::opt_text(given.namespace),
        given@.name == text::opt_text(given.name),
        given@.slug == text::opt_text(given.slug),
        given@.default_branch == text::opt_text(given.default_branch),
        given@.active == given.active,
        repo@.namespace == repo.namespace@,
        repo@.repo == repo.repo@,
        repo@.default_branch == text::opt_text(repo.default_branch),
        repo@.active == repo.active,
{
}

/// A repository is named by its namespace and its name, where something is left of both
/// without the white space around them.
pub proof fn law_repository_is_named_by_its_fields(
    r: RepoResponseView,
    namespace: Seq<char>,
    name: Seq<char>,
)
    requires
        r.namespace == Some(namespace),
        r.name == Some(name),
        text::trimmed(namespace).len() > 0,
        text::trimmed(name).len() > 0,
    ensures
        account_repo(r) == Some(
            AccountRepoView {
                namespace: text::trimmed(namespace),
                repo: text::trimmed(name),
                default_branch: match r.default_branch {
                    Some(branch) => if text::trimmed(branch).len() > 0 {
                        Some(text::trimmed(branch))
                    } else {
                        None
                    },
                    None => None,
                },
                active: r.active,
            },
        ),
{
    text::law_trimmed_is_empty_iff_blank(namespace);
    text::law_trimmed_is_empty_iff_blank(name);
    if r.default_branch is Some {
        text::law_trimmed_is_empty_iff_blank(r.default_branch->0);
    }
}

/// Where the namespace or the name of a repository is missing or blank, the two sides of the
/// first slash in its slug take their place.
pub proof fn law_repository_is_named_by_its_slug(
    r: RepoResponseView,
    before: Seq<char>,
    after: Seq<char>,
)
    requires
        match (r.namespace, r.name) {
            (Some(namespace), Some(name)) => text::trimmed(namespace).len() == 0 || text::trimmed(
                name,
            ).len() == 0,
            _ => true,
        },
        r.slug == Some(before + seq!['/'] + after),
        !before.contains('/'),
    ensures
        account_repo(r) == Some(
            AccountRepoView {
                namespace: text::trimmed(before),
                repo: text::trimmed(after),
                default_branch: match r.default_branch {
                    Some(branch) => if text::trimmed(branch).len() > 0 {
                        Some(text::trimmed(branch))
                    } else {
                        None
                    },
                    None => None,
                },
                active: r.active,
            },
        ),
{
    text::law_split_at_the_first_separator(before, after, '/');
    if r.namespace is Some && r.name is Some {
        text::law_trimmed_is_empty_iff_blank(r.namespace->0);
        text::law_trimmed_is_empty_iff_blank(r.name->0);
    }
    if r.default_branch is Some {
        text::law_trimmed_is_empty_iff_blank(r.default_branch->0);
    }
}

/// A repository without a namespace or a name, and without a slash in its slug, cannot be
/// chosen.
pub proof fn law_nameless_repository_is_dropped(r: RepoResponseView)
    requires
        match (r.namespace, r.name) {
            (Some(namespace), Some(name)) => text::trimmed(namespace).len() == 0 || text::trimmed(
                name,
            ).len() == 0,
            _ => true,
        },
        r.slug matches Some(slug) ==> !slug.contains('/'),
    ensures
        account_repo(r) is None,
{
    if r.slug is Some {
        text::law_split_at_the_first_separator(r.slug->0, Seq::empty(), '/');
    }
    if r.namespace is Some && r.name is Some {
        text::law_trimmed_is_empty_iff_blank(r.namespace->0);
        text::law_trimmed_is_empty_iff_blank(r.name->0);
    }
}

/// On offer are the repositories in the account's own namespace, each as often as it was
/// given, and no others; where there is none, all that were given.
pub proof fn law_offer_is_the_own_repositories_or_all(
    repos: Seq<AccountRepoView>,
    login: Seq<char>,
    repo: AccountRepoView,
)
    ensures
        order::sorted::<AccountRepo>(offered_repos(repos, login)).to_multiset().count(repo) == if (
        exists|i: int| 0 <= i < repos.len() && (#[trigger] repos[i]).namespace == login)
            && repo.namespace != login {
            0
        } else {
            repos.to_multiset().count(repo)
        },
{
    let mine = |r: AccountRepoView| r.namespace == login;
    order::law_sorting_keeps_elements::<AccountRepo>(offered_repos(repos, login));
    order::lemma_filter_count(repos, mine, repo);
    lemma_own_repos(repos, login);
}

/// The repositories on offer ascend by namespace and, within one, by name.
pub proof fn law_offer_ascends_by_namespace_and_name(
    repos: Seq<AccountRepoView>,
    login: Seq<char>,
    i: int,
    j: int,
)
    requires
        0 <= i < j < order::sorted::<AccountRepo>(offered_repos(repos, login)).len(),
    ensures
        ({
            let a = order::sorted::<AccountRepo>(offered_repos(repos, login))[i];
            let b = order::sorted::<AccountRepo>(offered_repos(repos, login))[j];
            &&& !text::text_less(b.namespace, a.namespace)
            &&& a.namespace == b.namespace ==> !text::text_less(b.repo, a.repo)
        }),
{
    law_offered_repos_are_in_order(repos, login, i, j);
}

/// The predicate that holds of the repositories with this namespace and this name.
pub open spec fn is_named(namespace: Seq<char>, name: Seq<char>) -> spec_fn(
    AccountRepoView,
) -> bool {
    |r: AccountRepoView| r.namespace == namespace && r.repo == name
}

/// Repositories with the same namespace and the same name stay in the order in which they
/// were given.
pub proof fn law_equal_repositories_stay_in_order(
    repos: Seq<AccountRepoView>,
    login: Seq<char>,
    namespace: Seq<char>,
    name: Seq<char>,
    repo: AccountRepoView,
)
    ensures
        is_named(namespace, name)(repo) <==> repo.namespace == namespace && repo.repo == name,
        namespace == login || (forall|i: int|
            0 <= i < repos.len() ==> (#[trigger] repos[i]).namespace != login) ==> order::sorted::<
            AccountRepo,
        >(offered_repos(repos, login)).filter(is_named(namespace, name)) == repos.filter(
            is_named(namespace, name),
        ),
{
    let rank = AccountRepoView { namespace, repo: name, default_branch: None, active: None };
    let alike = |e: AccountRepoView| order::same_rank::<AccountRepo>(e, rank);
    assert forall|e: AccountRepoView| #[trigger] alike(e) == is_named(namespace, name)(e) by {
        lemma_listed_before(e, rank, rank);
        lemma_listed_before(rank, e, rank);
        text::law_text_order_is_irreflexive(namespace);
        text::law_text_order_is_irreflexive(name);
    }
    assert(alike =~= is_named(namespace, name));
    order::law_sorting_is_stable::<AccountRepo>(offered_repos(repos, login), rank);
    lemma_own_repos(repos, login);
    if namespace == login {
        let mine = |r: AccountRepoView| r.namespace == login;
        seqs::lemma_filter_twice(repos, mine, is_named(namespace, name));
    }
}

} // verus!
