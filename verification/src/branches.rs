//! The branches that the server lists for a repository, and the choice among them.

use crate::config::Config;
use crate::error::Error;
use crate::order;
use crate::order::Ranked;
use crate::repos;
use crate::repos::AccountRepo;
use crate::seqs;
use crate::target;
use crate::target::RepoTarget;
use crate::text;
use vstd::prelude::*;

verus! {

/// A branch as the server describes it: by its name alone, or by an object with a name.
#[derive(Debug)]
pub enum BranchResponse {
    Name(String),
    Object { name: Option<String> },
}

impl View for BranchResponse {
    type V = Option<Seq<char>>;

    /// The name that is given, before it is trimmed.
    open spec fn view(&self) -> Option<Seq<char>> {
        match *self {
            BranchResponse::Name(name) => Some(name@),
            BranchResponse::Object { name } => text::opt_text(name),
        }
    }
}

impl BranchResponse {
    /// The name of the branch, if it has one.
    pub fn into_name(self) -> (r: Option<String>)
        ensures
            text::opt_text(r) == repos::non_blank(self@),
            match self {
                BranchResponse::Name(name) => if text::trimmed(name@).len() > 0 {
                    r matches Some(left) && left@ == text::trimmed(name@)
                } else {
                    r is None
                },
                BranchResponse::Object { name: Some(name) } => if text::trimmed(name@).len() > 0 {
                    r matches Some(left) && left@ == text::trimmed(name@)
                } else {
                    r is None
                },
                BranchResponse::Object { name: None } => r is None,
            },
    {
        match self {
            BranchResponse::Name(name) => repos::non_blank_text(Some(name)),
            BranchResponse::Object { name } => repos::non_blank_text(name),
        }
    }
}

impl Ranked for String {
    open spec fn at_most(a: Seq<char>, b: Seq<char>) -> bool {
        !text::text_less(b, a)
    }

    proof fn lemma_total(a: Seq<char>, b: Seq<char>) {
        text::lemma_text_order(a, b, b);
    }

    proof fn lemma_transitive(a: Seq<char>, b: Seq<char>, c: Seq<char>) {
        text::lemma_text_order(a, b, c);
        text::lemma_text_order(b, a, c);
        text::lemma_text_order(b, c, a);
        text::lemma_text_order(c, a, b);
    }

    fn is_at_most(&self, other: &Self) -> (r: bool) {
        !text::text_before(other.as_str(), self.as_str())
    }
}

/// `s` with every run of equal elements shortened to one.
pub open spec fn deduped<A>(s: Seq<A>) -> Seq<A>
    decreases s.len(),
{
    if s.len() == 0 {
        s
    } else if s.len() > 1 && s[s.len() - 1] == s[s.len() - 2] {
        deduped(s.drop_last())
    } else {
        deduped(s.drop_last()).push(s.last())
    }
}

/// The names of the branches in ascending order, each once.
pub open spec fn listed_branches(responses: Seq<Option<Seq<char>>>) -> Seq<Seq<char>> {
    deduped(
        order::sorted::<String>(
            seqs::filter_map(responses, |v: Option<Seq<char>>| repos::non_blank(v)),
        ),
    )
}

fn dedup_texts(items: Vec<String>) -> (r: Vec<String>)
    ensures
        order::views(r@) == deduped(order::views(items@)),
{
    let ghost all = order::views(items@);
    let mut out: Vec<String> = Vec::new();
    let mut i: usize = 0;
    assert(order::views(out@) =~= all.take(0));
    while i < items.len()
        invariant
            i <= items.len(),
            all == order::views(items@),
            order::views(out@) == deduped(all.take(i as int)),
        decreases items.len() - i,
    {
        let ghost before = out@;
        proof {
            assert(all.take(i + 1).drop_last() =~= all.take(i as int));
        }
        let repeated: bool = i > 0 && text::same_text(items[i].as_str(), items[i - 1].as_str());
        assert(repeated == (i > 0 && all[i as int] == all[i - 1]));
        if !repeated {
            out.push(items[i].clone());
            assert(order::views(out@) =~= order::views(before).push(all[i as int]));
        }
        i = i + 1;
    }
    assert(all.take(i as int) =~= all);
    out
}

/// The names of the branches that the server lists, in ascending order, each once.
pub fn branch_names(responses: Vec<BranchResponse>) -> (r: Vec<String>)
    ensures
        order::views(r@) == listed_branches(order::views(responses@)),
{
    let ghost f = |v: Option<Seq<char>>| repos::non_blank(v);
    let ghost all = order::views(responses@);
    let mut names: Vec<String> = Vec::new();
    proof {
        assert(all.take(0) =~= Seq::<Option<Seq<char>>>::empty());
        assert(order::views(names@) =~= Seq::<Seq<char>>::empty());
    }
    for response in it: responses
        invariant
            f == (|v: Option<Seq<char>>| repos::non_blank(v)),
            all == order::views(it.seq()),
            order::views(names@) == seqs::filter_map(all.take(it.index() as int), f),
    {
        proof {
            let i = it.index() as int;
            seqs::lemma_filter_map_push(all.take(i), f, response@);
            assert(all.take(i + 1) =~= all.take(i).push(response@));
        }
        let ghost before = names@;
        match response.into_name() {
            Some(name) => {
                names.push(name);
                assert(order::views(names@) =~= order::views(before).push(name@));
            },
            None => {},
        }
    }
    assert(all.take(all.len() as int) =~= all);
    dedup_texts(order::sort_ranked(names))
}

/// How the branch of a chosen repository is found out.
#[derive(Debug, PartialEq, Eq)]
pub enum BranchPlan {
    /// By choosing from a list, with one entry marked at first.
    Choose { branches: Vec<String>, default_index: usize },
    /// By typing it in, with one offered; first there may be something to say.
    Type { notice: Option<String>, default: String },
}

/// The branch that is preferred in a list: the repository's default, else the configured one.
pub open spec fn preferred_branch(
    repo_default: Option<Seq<char>>,
    config_default: Seq<char>,
) -> Seq<char> {
    match repo_default {
        Some(branch) => branch,
        None => config_default,
    }
}

/// The predicate that holds of this branch alone.
pub open spec fn is_branch(branch: Seq<char>) -> spec_fn(Seq<char>) -> bool {
    |b: Seq<char>| b == branch
}

/// The place of the preferred branch in a list, or the first place where it is not there.
pub open spec fn marked_index(branches: Seq<Seq<char>>, preferred: Seq<char>) -> int {
    match seqs::first_where(branches, is_branch(preferred)) {
        Some(i) => i,
        None => 0,
    }
}

/// The branch that is offered for typing in: the repository's default unless it is missing
/// or blank, else the configured one.
pub open spec fn offered_branch(
    repo_default: Option<Seq<char>>,
    config_default: Seq<char>,
) -> Seq<char> {
    match repo_default {
        Some(branch) => if text::is_blank(branch) {
            config_default
        } else {
            branch
        },
        None => config_default,
    }
}

fn position_of(branches: &Vec<String>, preferred: &str) -> (r: usize)
    ensures
        r == marked_index(order::views(branches@), preferred@),
{
    let ghost all = order::views(branches@);
    let ghost wanted = is_branch(preferred@);
    let mut i: usize = 0;
    while i < branches.len()
        invariant
            i <= branches.len(),
            all == order::views(branches@),
            wanted == is_branch(preferred@),
            forall|j: int| 0 <= j < i ==> !wanted(#[trigger] all[j]),
        decreases branches.len() - i,
    {
        if text::same_text(branches[i].as_str(), preferred) {
            proof {
                assert(wanted(all[i as int]));
                seqs::lemma_first_where_at(all, wanted, i as int);
            }
            return i;
        }
        i = i + 1;
    }
    proof {
        seqs::lemma_first_where_none(all, wanted);
    }
    0
}

/// Decides how to find out the branch of a chosen repository, once the list of its branches
/// was fetched or, with the given reason, could not be.
pub fn branch_plan(
    config: &Config,
    repo: &AccountRepo,
    fetched: Result<Vec<String>, String>,
) -> (r: BranchPlan)
    ensures
        match fetched {
            Ok(list) => if list@.len() > 0 {
                r matches BranchPlan::Choose { branches, default_index } && order::views(
                    branches@,
                ) == order::views(list@) && default_index == marked_index(
                    order::views(list@),
                    preferred_branch(repo@.default_branch, config@.default_branch),
                )
            } else {
                r matches BranchPlan::Type { notice, default } && notice is None && default@
                    == offered_branch(repo@.default_branch, config@.default_branch)
            },
            Err(reason) => r matches BranchPlan::Type { notice, default } && text::opt_text(notice)
                == Some("获取分支列表失败，将手动输入 branch："@ + reason@) && default@ == offered_branch(
                repo@.default_branch,
                config@.default_branch,
            ),
        },
        match r {
            BranchPlan::Choose { branches, default_index } => {
                &&& fetched matches Ok(list) && branches@ == list@
                &&& default_index < branches@.len()
                &&& ({
                    let preferred = match repo.default_branch {
                        Some(branch) => branch@,
                        None => config.default_branch@,
                    };
                    ||| branches@[default_index as int]@ == preferred && forall|i: int|
                        0 <= i < default_index ==> (#[trigger] branches@[i])@ != preferred
                    ||| default_index == 0 && forall|i: int|
                        0 <= i < branches@.len() ==> (#[trigger] branches@[i])@ != preferred
                })
            },
            BranchPlan::Type { notice, default } => {
                &&& fetched matches Ok(list) ==> list@.len() == 0 && notice is None
                &&& default@ == match repo.default_branch {
                    Some(branch) => if text::trimmed(branch@).len() > 0 {
                        branch@
                    } else {
                        config.default_branch@
                    },
                    None => config.default_branch@,
                }
            },
        },
{
    proof {
        if repo.default_branch is Some {
            text::law_trimmed_is_empty_iff_blank(repo.default_branch->0@);
        }
    }
    let default: String = match &repo.default_branch {
        Some(branch) => {
            if text::blank(branch.as_str()) {
                config.default_branch.clone()
            } else {
                branch.clone()
            }
        },
        None => config.default_branch.clone(),
    };
    match fetched {
        Ok(branches) => {
            if branches.len() > 0 {
                let preferred: &str = match &repo.default_branch {
                    Some(branch) => branch.as_str(),
                    None => config.default_branch.as_str(),
                };
                let default_index: usize = position_of(&branches, preferred);
                proof {
                    let all = order::views(branches@);
                    let wanted = is_branch(preferred@);
                    seqs::lemma_first_where(all, wanted);
                    assert forall|i: int| 0 <= i < branches@.len() implies (
                    #[trigger] branches@[i])@ == all[i] by {}
                    match seqs::first_where(all, wanted) {
                        Some(k) => {
                            assert forall|i: int| 0 <= i < k implies (#[trigger] branches@[i])@
                                != preferred@ by {
                                assert(!wanted(all[i]));
                            }
                        },
                        None => {
                            assert forall|i: int| 0 <= i < branches@.len() implies (
                            #[trigger] branches@[i])@ != preferred@ by {
                                assert(!wanted(all[i]));
                            }
                        },
                    }
                }
                BranchPlan::Choose { branches, default_index }
            } else {
                BranchPlan::Type { notice: None, default }
            }
        },
        Err(reason) => BranchPlan::Type {
            notice: Some(
                "获取分支列表失败，将手动输入 branch：".to_owned().concat(reason.as_str()),
            ),
            default,
        },
    }
}

/// Reads a branch that was typed in. It is accepted where it, and the configured namespace
/// and repository with it, name a target.
pub fn typed_branch(config: &Config, answer: String) -> (r: Result<String, Error>)
    ensures
        match target::named_target(config@.default_namespace, config@.default_repo, answer@) {
            Some(t) => r matches Ok(branch) && branch@ == t.branch,
            None => r == Err::<String, Error>(Error::EmptyTarget),
        },
        match r {
            Ok(branch) => branch@ == text::trimmed(answer@) && branch@.len() > 0 && text::trimmed(
                config.default_namespace@,
            ).len() > 0 && text::trimmed(config.default_repo@).len() > 0,
            Err(e) => e == Error::EmptyTarget && (text::trimmed(answer@).len() == 0
                || text::trimmed(config.default_namespace@).len() == 0 || text::trimmed(
                config.default_repo@,
            ).len() == 0),
        },
{
    match RepoTarget::new(config.default_namespace.clone(), config.default_repo.clone(), answer) {
        Ok(target) => Ok(target.branch),
        Err(_) => Err(Error::EmptyTarget),
    }
}

proof fn lemma_deduped_last<A>(s: Seq<A>)
    ensures
        s.len() > 0 ==> deduped(s).len() > 0 && deduped(s).last() == s.last(),
    decreases s.len(),
{
    if s.len() > 1 && s[s.len() - 1] == s[s.len() - 2] {
        lemma_deduped_last(s.drop_last());
    }
}

proof fn lemma_deduped_contains<A>(s: Seq<A>, x: A)
    ensures
        deduped(s).contains(x) <==> s.contains(x),
    decreases s.len(),
{
    if s.len() > 0 {
        let init = s.drop_last();
        lemma_deduped_contains(init, x);
        assert(s =~= init.push(s.last()));
        assert(s.contains(x) <==> init.contains(x) || x == s.last()) by {
            if init.contains(x) {
                let k = choose|k: int| 0 <= k < init.len() && init[k] == x;
                assert(s[k] == x);
            }
            assert(s[s.len() - 1] == s.last());
        }
        if s.len() > 1 && s[s.len() - 1] == s[s.len() - 2] {
            assert(init[init.len() - 1] == s.last());
        } else {
            let d = deduped(init);
            assert(d.push(s.last()).contains(x) <==> d.contains(x) || x == s.last()) by {
                if d.contains(x) {
                    let k = choose|k: int| 0 <= k < d.len() && d[k] == x;
                    assert(d.push(s.last())[k] == x);
                }
                assert(d.push(s.last())[d.len() as int] == s.last());
            }
        }
    }
}

proof fn lemma_deduped_ascends(s: Seq<Seq<char>>)
    requires
        order::is_ordered::<String>(s),
    ensures
        forall|i: int, j: int|
            0 <= i < j < deduped(s).len() ==> text::text_less(
                #[trigger] deduped(s)[i],
                #[trigger] deduped(s)[j],
            ),
    decreases s.len(),
{
    if s.len() > 0 {
        let init = s.drop_last();
        assert forall|i: int, j: int| 0 <= i < j < init.len() implies String::at_most(
            #[trigger] init[i],
            #[trigger] init[j],
        ) by {
            assert(init[i] == s[i] && init[j] == s[j]);
        }
        lemma_deduped_ascends(init);
        if !(s.len() > 1 && s[s.len() - 1] == s[s.len() - 2]) {
            let d = deduped(init);
            let x = s.last();
            lemma_deduped_last(init);
            assert forall|i: int, j: int| 0 <= i < j < d.push(x).len() implies text::text_less(
                #[trigger] d.push(x)[i],
                #[trigger] d.push(x)[j],
            ) by {
                if j == d.len() {
                    let l = d.len() - 1;
                    assert(d[l] == init.last());
                    assert(String::at_most(s[s.len() - 2], s[s.len() - 1]));
                    text::lemma_text_order(d[l], x, x);
                    if i < l {
                        assert(text::text_less(d[i], d[l]));
                        text::lemma_text_order(d[i], d[l], x);
                    }
                } else {
                    assert(text::text_less(d[i], d[j]));
                }
            }
        }
    }
}

/// The listed branches ascend strictly, so that none is listed twice.
pub proof fn law_listed_branches_ascend(responses: Seq<Option<Seq<char>>>)
    ensures
        forall|i: int, j: int|
            0 <= i < j < listed_branches(responses).len() ==> text::text_less(
                #[trigger] listed_branches(responses)[i],
                #[trigger] listed_branches(responses)[j],
            ),
{
    let names = seqs::filter_map(responses, |v: Option<Seq<char>>| repos::non_blank(v));
    order::law_sorting_orders::<String>(names);
    lemma_deduped_ascends(order::sorted::<String>(names));
}

/// A branch is listed exactly when the server gives it, white space around it aside, as a
/// name that is not blank.
pub proof fn law_listed_branches_are_those_given(
    responses: Seq<Option<Seq<char>>>,
    branch: Seq<char>,
)
    ensures
        listed_branches(responses).contains(branch) <==> exists|i: int|
            0 <= i < responses.len() && repos::non_blank(#[trigger] responses[i]) == Some(branch),
{
    let f = |v: Option<Seq<char>>| repos::non_blank(v);
    let names = seqs::filter_map(responses, f);
    lemma_deduped_contains(order::sorted::<String>(names), branch);
    order::lemma_sorted_contains::<String>(names, branch);
    seqs::lemma_filter_map_contains(responses, f, branch);
    if exists|i: int|
        0 <= i < responses.len() && repos::non_blank(#[trigger] responses[i]) == Some(branch) {
        let i = choose|i: int|
            0 <= i < responses.len() && repos::non_blank(#[trigger] responses[i]) == Some(branch);
        assert(f(responses[i]) == Some(branch));
    }
}

/// The place that is marked at first in a list of branches is a place of the list, and that of
/// the preferred branch wherever the list has it.
pub proof fn law_preferred_branch_is_marked(branches: Seq<Seq<char>>, preferred: Seq<char>)
    requires
        branches.len() > 0,
    ensures
        0 <= marked_index(branches, preferred) < branches.len(),
        branches.contains(preferred) ==> branches[marked_index(branches, preferred)] == preferred,
{
    let wanted = is_branch(preferred);
    seqs::lemma_first_where(branches, wanted);
    if branches.contains(preferred) {
        let i = choose|i: int| 0 <= i < branches.len() && branches[i] == preferred;
        assert(wanted(branches[i]));
    }
}

/// A branch stands for the name that the server gives, in either form.
pub proof fn law_branches_stand_for_their_names(name: String)
    ensures
        BranchResponse::Name(name)@ == Some(name@),
        (BranchResponse::Object { name: Some(name) })@ == Some(name@),
        (BranchResponse::Object { name: None })@ is None,
{
}

/// A text is listed as a branch exactly when it is not empty, and is what is left of some
/// name that the server gives without the white space around it.
pub proof fn law_branches_are_listed_by_their_whole_names(
    responses: Seq<Option<Seq<char>>>,
    branch: Seq<char>,
)
    ensures
        listed_branches(responses).contains(branch) <==> branch.len() > 0 && exists|i: int|
            0 <= i < responses.len() && (#[trigger] responses[i] matches Some(name) && branch
                == text::trimmed(name)),
{
    law_listed_branches_are_those_given(responses, branch);
    if listed_branches(responses).contains(branch) {
        let i = choose|i: int|
            0 <= i < responses.len() && repos::non_blank(#[trigger] responses[i]) == Some(branch);
        text::law_trimmed_is_empty_iff_blank(responses[i]->0);
    }
    if branch.len() > 0 && exists|i: int|
        0 <= i < responses.len() && (#[trigger] responses[i] matches Some(name) && branch
            == text::trimmed(name)) {
        let i = choose|i: int|
            0 <= i < responses.len() && (#[trigger] responses[i] matches Some(name) && branch
                == text::trimmed(name));
        text::law_trimmed_is_empty_iff_blank(responses[i]->0);
        assert(repos::non_blank(responses[i]) == Some(branch));
    }
}

} // verus!
