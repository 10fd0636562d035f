//! The record of successful builds: the newest first, and no more than fifty of them.

use crate::clock;
use crate::config::{Config, ConfigFile, ConfigFileView};
use crate::error::Error;
use crate::order;
use crate::order::Ranked;
use crate::seqs;
use crate::target;
use crate::target::{RepoTarget, RepoTargetView};
use crate::text;
use std::time::SystemTime;
use vstd::prelude::*;

verus! {

/// The number of targets that are kept.
pub const HISTORY_LIMIT: usize = 50;

/// When a target was last built successfully; one that never was comes before all others.
pub open spec fn stamp(at: Option<u64>) -> int {
    match at {
        Some(t) => t as int,
        None => -1,
    }
}

/// Whether `a` comes strictly before `b` by namespace, then repository, then branch.
pub open spec fn named_before(a: RepoTargetView, b: RepoTargetView) -> bool {
    ||| text::text_less(a.namespace, b.namespace)
    ||| a.namespace == b.namespace && text::text_less(a.repo, b.repo)
    ||| a.namespace == b.namespace && a.repo == b.repo && text::text_less(a.branch, b.branch)
}

/// Whether `a` comes strictly before `b` in the record: its last success is later or, at
/// the same time, its name comes first.
pub open spec fn outranks(a: RepoTargetView, b: RepoTargetView) -> bool {
    ||| stamp(a.last_success_at) > stamp(b.last_success_at)
    ||| stamp(a.last_success_at) == stamp(b.last_success_at) && named_before(a, b)
}

proof fn lemma_named_before(a: RepoTargetView, b: RepoTargetView, c: RepoTargetView)
    ensures
        named_before(a, b) || named_before(b, a) || a.is_for(b.namespace, b.repo, b.branch),
        !(named_before(a, b) && named_before(b, a)),
        named_before(a, b) ==> !a.is_for(b.namespace, b.repo, b.branch),
        named_before(a, b) && named_before(b, c) ==> named_before(a, c),
{
    text::lemma_text_order(a.namespace, b.namespace, c.namespace);
    text::lemma_text_order(b.namespace, a.namespace, c.namespace);
    text::lemma_text_order(b.namespace, c.namespace, a.namespace);
    text::lemma_text_order(a.repo, b.repo, c.repo);
    text::lemma_text_order(b.repo, a.repo, c.repo);
    text::lemma_text_order(b.repo, c.repo, a.repo);
    text::lemma_text_order(a.branch, b.branch, c.branch);
    text::lemma_text_order(b.branch, a.branch, c.branch);
}

impl RepoTarget {
    /// Decides whether the name of this target comes strictly before that of another.
    fn is_named_before(&self, other: &RepoTarget) -> (r: bool)
        ensures
            r == named_before(self@, other@),
    {
        proof {
            text::lemma_text_order(self.namespace@, other.namespace@, other.namespace@);
            text::lemma_text_order(self.repo@, other.repo@, other.repo@);
        }
        if !text::same_text(self.namespace.as_str(), other.namespace.as_str()) {
            text::text_before(self.namespace.as_str(), other.namespace.as_str())
        } else if !text::same_text(self.repo.as_str(), other.repo.as_str()) {
            proof {
                text::law_text_order_is_irreflexive(self.namespace@);
            }
            text::text_before(self.repo.as_str(), other.repo.as_str())
        } else {
            proof {
                text::law_text_order_is_irreflexive(self.namespace@);
                text::law_text_order_is_irreflexive(self.repo@);
            }
            text::text_before(self.branch.as_str(), other.branch.as_str())
        }
    }
}

fn later(a: Option<u64>, b: Option<u64>) -> (r: bool)
    ensures
        r == (stamp(a) > stamp(b)),
{
    match (a, b) {
        (Some(x), Some(y)) => x > y,
        (Some(_), None) => true,
        _ => false,
    }
}

impl Ranked for RepoTarget {
    open spec fn at_most(a: RepoTargetView, b: RepoTargetView) -> bool {
        !outranks(b, a)
    }

    proof fn lemma_total(a: RepoTargetView, b: RepoTargetView) {
        lemma_named_before(a, b, b);
    }

    proof fn lemma_transitive(a: RepoTargetView, b: RepoTargetView, c: RepoTargetView) {
        lemma_named_before(a, b, c);
        lemma_named_before(b, c, a);
        lemma_named_before(c, b, a);
        lemma_named_before(c, a, b);
        lemma_named_before(b, a, c);
    }

    fn is_at_most(&self, other: &Self) -> (r: bool) {
        if later(other.last_success_at, self.last_success_at) {
            false
        } else if later(self.last_success_at, other.last_success_at) {
            true
        } else {
            !other.is_named_before(self)
        }
    }
}

/// The entry of `history` for a target after one more success at `now`.
pub open spec fn noted_entry(
    history: Seq<RepoTargetView>,
    key: RepoTargetView,
    now: u64,
) -> RepoTargetView {
    RepoTargetView {
        success_count: match seqs::first_where(
            history,
            |e: RepoTargetView| e.is_for(key.namespace, key.repo, key.branch),
        ) {
            Some(i) => if history[i].success_count < u64::MAX {
                (history[i].success_count + 1) as u64
            } else {
                u64::MAX
            },
            None => 1,
        },
        last_success_at: Some(now),
        ..key
    }
}

/// `history` with that entry in place of the first one for the target, or at the end where
/// there is none.
pub open spec fn noted(
    history: Seq<RepoTargetView>,
    key: RepoTargetView,
    now: u64,
) -> Seq<RepoTargetView> {
    match seqs::first_where(
        history,
        |e: RepoTargetView| e.is_for(key.namespace, key.repo, key.branch),
    ) {
        Some(i) => history.update(i, noted_entry(history, key, now)),
        None => history.push(noted_entry(history, key, now)),
    }
}

/// The part of a list that is kept.
pub open spec fn kept(entries: Seq<RepoTargetView>) -> Seq<RepoTargetView> {
    if entries.len() > HISTORY_LIMIT {
        entries.take(HISTORY_LIMIT as int)
    } else {
        entries
    }
}

/// The record after a target was built successfully at `now`.
pub open spec fn recorded(
    history: Seq<RepoTargetView>,
    key: RepoTargetView,
    now: u64,
) -> Seq<RepoTargetView> {
    kept(order::sorted::<RepoTarget>(noted(history, key, now)))
}

/// Notes in a list of targets that one of them was built successfully at `now`.
fn note_success(list: &mut Vec<RepoTarget>, target: RepoTarget, now: u64)
    ensures
        order::views(final(list)@) == noted(order::views(old(list)@), target@, now),
{
    let ghost history = order::views(list@);
    let ghost wanted = |e: RepoTargetView|
        e.is_for(target@.namespace, target@.repo, target@.branch);
    let n: usize = list.len();
    let mut i: usize = 0;
    while i < n
        invariant
            n == list.len(),
            list@ == old(list)@,
            history == order::views(list@),
            wanted == (|e: RepoTargetView|
                e.is_for(target@.namespace, target@.repo, target@.branch)),
            i <= n,
            forall|j: int| 0 <= j < i ==> !wanted(#[trigger] history[j]),
        decreases n - i,
    {
        if list[i].matches(
            target.namespace.as_str(),
            target.repo.as_str(),
            target.branch.as_str(),
        ) {
            proof {
                assert(wanted(history[i as int]));
                seqs::lemma_first_where_at(history, wanted, i as int);
            }
            let count: u64 = list[i].success_count;
            let entry: RepoTarget = RepoTarget {
                success_count: count.saturating_add(1),
                last_success_at: Some(now),
                ..target
            };
            list.set(i, entry);
            proof {
                assert(history[i as int] == old(list)@[i as int]@);
                assert(entry@ == noted_entry(history, target@, now));
                assert(order::views(list@) =~= history.update(i as int, entry@));
            }
            return;
        }
        i = i + 1;
    }
    proof {
        seqs::lemma_first_where_none(history, wanted);
    }
    let entry: RepoTarget = RepoTarget {
        success_count: 1,
        last_success_at: Some(now),
        ..target
    };
    list.push(entry);
    assert(order::views(list@) =~= history.push(entry@));
}

/// The configuration after a branch was built successfully at `now`, in seconds of the Unix
/// epoch. There is an error exactly where the namespace, the repository or the branch is
/// blank.
pub open spec fn with_success(
    file: ConfigFileView,
    now: u64,
    namespace: Seq<char>,
    repo: Seq<char>,
    branch: Seq<char>,
) -> Result<ConfigFileView, Error> {
    match target::named_target(namespace, repo, branch) {
        Some(key) => Ok(
            ConfigFileView {
                successful_targets: recorded(file.successful_targets, key, now),
                ..file
            },
        ),
        None => Err(Error::EmptyTarget),
    }
}

/// Records in the configuration that a branch was built successfully at `now`, in seconds
/// of the Unix epoch.
pub fn record_success_at(
    cfg: &mut ConfigFile,
    now: u64,
    namespace: &str,
    repo: &str,
    branch: &str,
) -> (r: Result<(), Error>)
    ensures
        match with_success(old(cfg)@, now, namespace@, repo@, branch@) {
            Ok(file) => r is Ok && final(cfg)@ == file,
            Err(e) => r == Err::<(), Error>(e) && *final(cfg) == *old(cfg),
        },
{
    match RepoTarget::new(namespace.to_owned(), repo.to_owned(), branch.to_owned()) {
        Err(_) => Err(Error::EmptyTarget),
        Ok(target) => {
            let mut list: Vec<RepoTarget> = Vec::new();
            std::mem::swap(&mut list, &mut cfg.successful_targets);
            note_success(&mut list, target, now);
            let mut list: Vec<RepoTarget> = order::sort_ranked(list);
            let ghost all = order::views(list@);
            list.truncate(HISTORY_LIMIT);
            assert(order::views(list@) =~= kept(all));
            cfg.successful_targets = list;
            Ok(())
        },
    }
}

/// Records in the configuration that a branch was built successfully just now: at the time
/// of some reading of the clock. Which reading that is, depends on the clock. Without a
/// timestamp nothing is recorded.
pub fn record_successful_target(
    cfg: &mut ConfigFile,
    namespace: &str,
    repo: &str,
    branch: &str,
) -> (r: Result<(), Error>)
    ensures
        exists|reading: SystemTime|
            match #[trigger] clock::timestamp_of(reading) {
                Ok(now) => match with_success(old(cfg)@, now, namespace@, repo@, branch@) {
                    Ok(file) => r is Ok && final(cfg)@ == file,
                    Err(e) => r == Err::<(), Error>(e) && *final(cfg) == *old(cfg),
                },
                Err(e) => r == Err::<(), Error>(e) && *final(cfg) == *old(cfg),
            },
{
    match clock::current_unix_timestamp() {
        Ok(now) => record_success_at(cfg, now, namespace, repo, branch),
        Err(e) => Err(e),
    }
}

/// How a recorded target is presented for selection.
pub open spec fn history_label(target: RepoTargetView) -> Seq<char> {
    let name = target.namespace + "/"@ + target.repo + " @ "@ + target.branch;
    if target.success_count > 0 {
        name + " (成功 "@ + text::decimal(target.success_count as nat) + " 次)"@
    } else {
        name
    }
}

/// The line that presents a recorded target for selection.
pub fn format_target_history_label(target: &RepoTarget) -> (r: String)
    ensures
        r@ == history_label(target@),
        r@ == target.namespace@ + "/"@ + target.repo@ + " @ "@ + target.branch@ + (
        if target.success_count > 0 {
            " (成功 "@ + text::decimal(target.success_count as nat) + " 次)"@
        } else {
            Seq::empty()
        }),
{
    let name: String = target.namespace.clone().concat("/").concat(target.repo.as_str()).concat(
        " @ ",
    ).concat(target.branch.as_str());
    if target.success_count > 0 {
        let label: String = name.concat(" (成功 ").concat(
            text::decimal_text(target.success_count).as_str(),
        ).concat(" 次)");
        assert(label@ =~= name@ + (" (成功 "@ + text::decimal(target.success_count as nat)
            + " 次)"@));
        label
    } else {
        assert(name@ =~= name@ + Seq::<char>::empty());
        name
    }
}

/// The lines that present the recorded targets for selection, in the order of the record.
pub fn history_labels(config: &Config) -> (r: Vec<String>)
    ensures
        order::views(r@) == config@.successful_targets.map_values(
            |t: RepoTargetView| history_label(t),
        ),
        r@.len() == config.successful_targets@.len(),
        forall|i: int|
            0 <= i < r@.len() ==> (#[trigger] r@[i])@ == history_label(
                config.successful_targets@[i]@,
            ),
{
    let ghost wanted = config@.successful_targets.map_values(
        |t: RepoTargetView| history_label(t),
    );
    let mut out: Vec<String> = Vec::new();
    let mut i: usize = 0;
    assert(order::views(out@) =~= wanted.take(0));
    while i < config.successful_targets.len()
        invariant
            i <= config.successful_targets.len(),
            wanted == config@.successful_targets.map_values(
                |t: RepoTargetView| history_label(t),
            ),
            order::views(out@) == wanted.take(i as int),
        decreases config.successful_targets.len() - i,
    {
        let ghost before = out@;
        out.push(format_target_history_label(&config.successful_targets[i]));
        proof {
            assert(order::views(out@) =~= order::views(before).push(out@.last()@));
            assert(out@.last()@ == wanted[i as int]);
            assert(wanted.take(i + 1) =~= wanted.take(i as int).push(wanted[i as int]));
        }
        i = i + 1;
    }
    assert(wanted.take(i as int) =~= wanted);
    assert forall|j: int| 0 <= j < out@.len() implies (#[trigger] out@[j])@ == history_label(
        config.successful_targets@[j]@,
    ) by {
        assert(order::views(out@)[j] == wanted[j]);
    }
    assert(out@.len() == order::views(out@).len());
    out
}

/// The recorded target at a place of the record.
pub fn history_target(config: &Config, selected: usize) -> (r: RepoTarget)
    requires
        selected < config@.successful_targets.len(),
    ensures
        r@ == config@.successful_targets[selected as int],
        r == config.successful_targets@[selected as int],
{
    config.successful_targets[selected].clone()
}

/// The record never holds more entries than the limit.
pub proof fn law_record_is_bounded(history: Seq<RepoTargetView>, key: RepoTargetView, now: u64)
    ensures
        recorded(history, key, now).len() <= HISTORY_LIMIT,
{
}

/// The record lists the latest successes first.
pub proof fn law_record_is_newest_first(
    history: Seq<RepoTargetView>,
    key: RepoTargetView,
    now: u64,
)
    ensures
        ({
            let r = recorded(history, key, now);
            forall|i: int, j: int|
                0 <= i < j < r.len() ==> stamp((#[trigger] r[i]).last_success_at) >= stamp(
                    (#[trigger] r[j]).last_success_at,
                )
        }),
{
    let all = order::sorted::<RepoTarget>(noted(history, key, now));
    let r = recorded(history, key, now);
    order::law_sorting_orders::<RepoTarget>(noted(history, key, now));
    assert forall|i: int, j: int| 0 <= i < j < r.len() implies stamp(
        (#[trigger] r[i]).last_success_at,
    ) >= stamp((#[trigger] r[j]).last_success_at) by {
        assert(r[i] == all[i] && r[j] == all[j]);
        assert(RepoTarget::at_most(all[i], all[j]));
    }
}

/// The place of the target's entry among the noted ones.
proof fn lemma_noted_entry_place(
    history: Seq<RepoTargetView>,
    key: RepoTargetView,
    now: u64,
) -> (i: int)
    ensures
        0 <= i < noted(history, key, now).len(),
        noted(history, key, now)[i] == noted_entry(history, key, now),
        forall|j: int|
            0 <= j < i ==> !(#[trigger] noted(history, key, now)[j]).is_for(
                key.namespace,
                key.repo,
                key.branch,
            ),
        forall|j: int|
            0 <= j < noted(history, key, now).len() && j != i ==> history.contains(
                #[trigger] noted(history, key, now)[j],
            ),
{
    let wanted = |e: RepoTargetView| e.is_for(key.namespace, key.repo, key.branch);
    seqs::lemma_first_where(history, wanted);
    let all = noted(history, key, now);
    let i = match seqs::first_where(history, wanted) {
        Some(i) => i,
        None => history.len() as int,
    };
    assert forall|j: int| 0 <= j < i implies !(#[trigger] all[j]).is_for(
        key.namespace,
        key.repo,
        key.branch,
    ) by {
        assert(all[j] == history[j]);
        assert(!wanted(history[j]));
    }
    assert forall|j: int| 0 <= j < all.len() && j != i implies history.contains(
        #[trigger] all[j],
    ) by {
        assert(all[j] == history[j]);
    }
    i
}

/// A target that was just recorded is in the record, with its success counted, unless as
/// many others as the record can hold come before it.
pub proof fn law_recorded_target_is_kept(
    history: Seq<RepoTargetView>,
    key: RepoTargetView,
    now: u64,
)
    requires
        noted(history, key, now).filter(
            |e: RepoTargetView| outranks(e, noted_entry(history, key, now)),
        ).len() < HISTORY_LIMIT,
    ensures
        recorded(history, key, now).contains(noted_entry(history, key, now)),
{
    let entry = noted_entry(history, key, now);
    let all = noted(history, key, now);
    let i = lemma_noted_entry_place(history, key, now);
    assert forall|j: int| 0 <= j < i implies !order::same_rank::<RepoTarget>(
        #[trigger] all[j],
        all[i],
    ) by {
        lemma_named_before(all[j], all[i], all[i]);
    }
    let k = order::lemma_sorted_position::<RepoTarget>(all, i);
    let before = |e: RepoTargetView| outranks(e, entry);
    let below = |e: RepoTargetView| !RepoTarget::at_most(all[i], e);
    assert(before =~= below);
    assert(k < HISTORY_LIMIT);
    assert(recorded(history, key, now)[k] == entry);
}

/// A success that no other entry outranks puts its target first in the record.
pub proof fn law_unsurpassed_success_comes_first(
    history: Seq<RepoTargetView>,
    key: RepoTargetView,
    now: u64,
)
    requires
        forall|i: int|
            0 <= i < noted(history, key, now).len() ==> !outranks(
                #[trigger] noted(history, key, now)[i],
                noted_entry(history, key, now),
            ),
    ensures
        recorded(history, key, now).len() > 0,
        recorded(history, key, now).first() == noted_entry(history, key, now),
{
    let all = noted(history, key, now);
    let i = lemma_noted_entry_place(history, key, now);
    assert forall|j: int| 0 <= j < i implies !order::same_rank::<RepoTarget>(
        #[trigger] all[j],
        all[i],
    ) by {
        lemma_named_before(all[j], all[i], all[i]);
    }
    let k = order::lemma_sorted_position::<RepoTarget>(all, i);
    seqs::lemma_filter_drops_all(all, |e: RepoTargetView| !RepoTarget::at_most(all[i], e));
    assert(k == 0);
}

/// A success later than all others puts its target first in the record.
pub proof fn law_latest_success_comes_first(
    history: Seq<RepoTargetView>,
    key: RepoTargetView,
    now: u64,
)
    requires
        forall|i: int|
            0 <= i < history.len() ==> stamp((#[trigger] history[i]).last_success_at) < now,
    ensures
        recorded(history, key, now).len() > 0,
        recorded(history, key, now).first() == noted_entry(history, key, now),
{
    let entry = noted_entry(history, key, now);
    let all = noted(history, key, now);
    let i = lemma_noted_entry_place(history, key, now);
    assert forall|j: int| 0 <= j < all.len() implies !outranks(#[trigger] all[j], entry) by {
        if j == i {
            lemma_named_before(entry, entry, entry);
        } else {
            assert(history.contains(all[j]));
        }
    }
    law_unsurpassed_success_comes_first(history, key, now);
}

/// Recording a success changes no other entry: what is in the record is the entry of the
/// target, or stood there before.
pub proof fn law_recording_changes_no_other_entry(
    history: Seq<RepoTargetView>,
    key: RepoTargetView,
    now: u64,
)
    ensures
        forall|e: RepoTargetView| #[trigger]
            recorded(history, key, now).contains(e) ==> e == noted_entry(history, key, now)
                || history.contains(e),
{
    let all = noted(history, key, now);
    let out = order::sorted::<RepoTarget>(all);
    let i = lemma_noted_entry_place(history, key, now);
    assert forall|e: RepoTargetView| #[trigger]
        recorded(history, key, now).contains(e) implies e == noted_entry(history, key, now)
        || history.contains(e) by {
        let r = recorded(history, key, now);
        let k = choose|k: int| 0 <= k < r.len() && r[k] == e;
        assert(out[k] == e);
        order::lemma_sorted_contains::<RepoTarget>(all, e);
        let j = choose|j: int| 0 <= j < all.len() && all[j] == e;
        if j != i {
            assert(history.contains(all[j]));
        }
    }
}

/// What leaves the record is no later than what stays in it.
pub proof fn law_oldest_entries_are_dropped(
    history: Seq<RepoTargetView>,
    key: RepoTargetView,
    now: u64,
    gone: RepoTargetView,
    stays: RepoTargetView,
)
    requires
        noted(history, key, now).contains(gone),
        !recorded(history, key, now).contains(gone),
        recorded(history, key, now).contains(stays),
    ensures
        stamp(gone.last_success_at) <= stamp(stays.last_success_at),
{
    let all = noted(history, key, now);
    let out = order::sorted::<RepoTarget>(all);
    let r = recorded(history, key, now);
    order::law_sorting_orders::<RepoTarget>(all);
    order::lemma_sorted_contains::<RepoTarget>(all, gone);
    let g = choose|g: int| 0 <= g < out.len() && out[g] == gone;
    let k = choose|k: int| 0 <= k < r.len() && r[k] == stays;
    assert(out[k] == stays);
    if g < r.len() {
        assert(r[g] == gone);
    }
    assert(RepoTarget::at_most(out[k], out[g]));
}

/// Nothing leaves the record as long as there is room for all of it.
pub proof fn law_record_with_room_drops_nothing(
    history: Seq<RepoTargetView>,
    key: RepoTargetView,
    now: u64,
)
    requires
        noted(history, key, now).len() <= HISTORY_LIMIT,
    ensures
        recorded(history, key, now).to_multiset() == noted(history, key, now).to_multiset(),
{
    order::law_sorting_keeps_elements::<RepoTarget>(noted(history, key, now));
}

/// Whether no two entries are for the same target.
pub open spec fn has_no_repeats(entries: Seq<RepoTargetView>) -> bool {
    forall|i: int, j: int|
        0 <= i < j < entries.len() ==> !(#[trigger] entries[i]).is_for(
            (#[trigger] entries[j]).namespace,
            entries[j].repo,
            entries[j].branch,
        )
}

/// Recording a success gives no target a second entry.
pub proof fn law_recording_adds_no_repeat(
    history: Seq<RepoTargetView>,
    key: RepoTargetView,
    now: u64,
)
    requires
        has_no_repeats(history),
    ensures
        has_no_repeats(recorded(history, key, now)),
{
    let all = noted(history, key, now);
    let wanted = |e: RepoTargetView| e.is_for(key.namespace, key.repo, key.branch);
    seqs::lemma_first_where(history, wanted);
    assert(has_no_repeats(all)) by {
        assert forall|i: int, j: int| 0 <= i < j < all.len() implies !(#[trigger] all[i]).is_for(
            (#[trigger] all[j]).namespace,
            all[j].repo,
            all[j].branch,
        ) by {
            match seqs::first_where(history, wanted) {
                Some(k) => {
                    assert(wanted(history[k]));
                    assert(!history[i].is_for(
                        history[j].namespace,
                        history[j].repo,
                        history[j].branch,
                    ));
                },
                None => {
                    if j < history.len() {
                        assert(!history[i].is_for(
                            history[j].namespace,
                            history[j].repo,
                            history[j].branch,
                        ));
                    } else {
                        assert(!wanted(history[i]));
                    }
                },
            }
        }
    }
    let out = order::sorted::<RepoTarget>(all);
    let r = recorded(history, key, now);
    assert forall|i: int, j: int| 0 <= i < j < r.len() implies !(#[trigger] r[i]).is_for(
        (#[trigger] r[j]).namespace,
        r[j].repo,
        r[j].branch,
    ) by {
        assert(r[i] == out[i] && r[j] == out[j]);
        let alike = |e: RepoTargetView| e.is_for(r[j].namespace, r[j].repo, r[j].branch);
        if alike(out[i]) {
            seqs::lemma_filter_two(out, alike, i, j);
            order::lemma_sorted_count::<RepoTarget>(all, alike);
            seqs::lemma_filter_at_most_one(all, alike);
        }
    }
}

/// A second success of a target that is still in the record counts one more than the first,
/// up to the largest number.
pub proof fn law_successes_are_counted(
    history: Seq<RepoTargetView>,
    key: RepoTargetView,
    now: u64,
    later: u64,
)
    requires
        has_no_repeats(history),
        recorded(history, key, now).contains(noted_entry(history, key, now)),
    ensures
        ({
            let first = noted_entry(history, key, now).success_count;
            noted_entry(recorded(history, key, now), key, later).success_count == if first
                < u64::MAX {
                first + 1
            } else {
                u64::MAX as int
            }
        }),
{
    let r = recorded(history, key, now);
    let entry = noted_entry(history, key, now);
    law_recording_adds_no_repeat(history, key, now);
    let wanted = |e: RepoTargetView| e.is_for(key.namespace, key.repo, key.branch);
    let m = choose|m: int| 0 <= m < r.len() && r[m] == entry;
    seqs::lemma_first_where(r, wanted);
    assert(wanted(r[m]));
    let i = seqs::first_where(r, wanted)->0;
    assert(wanted(r[i]));
    assert(i == m);
}

/// The first success of a target is added to the list, with a count of one: no entry of the
/// list has the same namespace, repository and branch.
pub proof fn law_first_success_is_added(
    history: Seq<RepoTargetView>,
    key: RepoTargetView,
    now: u64,
)
    requires
        forall|i: int|
            0 <= i < history.len() ==> !((#[trigger] history[i]).namespace == key.namespace
                && history[i].repo == key.repo && history[i].branch == key.branch),
    ensures
        noted(history, key, now) == history.push(
            RepoTargetView {
                namespace: key.namespace,
                repo: key.repo,
                branch: key.branch,
                success_count: 1,
                last_success_at: Some(now),
            },
        ),
{
    let wanted = |e: RepoTargetView| e.is_for(key.namespace, key.repo, key.branch);
    assert forall|j: int| 0 <= j < history.len() implies !wanted(#[trigger] history[j]) by {}
    seqs::lemma_first_where_none(history, wanted);
}

/// A further success is counted in the first entry with the same namespace, repository and
/// branch; every other entry stays as it is.
pub proof fn law_further_success_is_counted(
    history: Seq<RepoTargetView>,
    key: RepoTargetView,
    now: u64,
    i: int,
)
    requires
        0 <= i < history.len(),
        history[i].namespace == key.namespace,
        history[i].repo == key.repo,
        history[i].branch == key.branch,
        forall|j: int|
            0 <= j < i ==> !((#[trigger] history[j]).namespace == key.namespace
                && history[j].repo == key.repo && history[j].branch == key.branch),
    ensures
        noted(history, key, now) == history.update(
            i,
            RepoTargetView {
                namespace: key.namespace,
                repo: key.repo,
                branch: key.branch,
                success_count: if history[i].success_count < u64::MAX {
                    (history[i].success_count + 1) as u64
                } else {
                    u64::MAX
                },
                last_success_at: Some(now),
            },
        ),
{
    let wanted = |e: RepoTargetView| e.is_for(key.namespace, key.repo, key.branch);
    assert forall|j: int| 0 <= j < i implies !wanted(#[trigger] history[j]) by {}
    assert(wanted(history[i]));
    seqs::lemma_first_where_at(history, wanted, i);
}

/// The record stands in order: later successes first, those without a time last and, at the
/// same time, by namespace, repository and branch.
pub proof fn law_record_is_in_order(
    history: Seq<RepoTargetView>,
    key: RepoTargetView,
    now: u64,
    i: int,
    j: int,
)
    requires
        0 <= i < j < recorded(history, key, now).len(),
    ensures
        ({
            let a = recorded(history, key, now)[i];
            let b = recorded(history, key, now)[j];
            &&& a.last_success_at is None ==> b.last_success_at is None
            &&& match (a.last_success_at, b.last_success_at) {
                (Some(s), Some(t)) => s >= t,
                _ => true,
            }
            &&& a.last_success_at == b.last_success_at ==> !text::text_less(
                b.namespace,
                a.namespace,
            )
            &&& a.last_success_at == b.last_success_at && a.namespace == b.namespace
                ==> !text::text_less(b.repo, a.repo)
            &&& a.last_success_at == b.last_success_at && a.namespace == b.namespace && a.repo
                == b.repo ==> !text::text_less(b.branch, a.branch)
        }),
{
    let all = order::sorted::<RepoTarget>(noted(history, key, now));
    order::law_sorting_orders::<RepoTarget>(noted(history, key, now));
    assert(RepoTarget::at_most(all[i], all[j]));
}

/// The record holds what was noted, each entry as often as it was noted, or the first fifty
/// entries of that.
pub proof fn law_record_holds_what_was_noted(
    history: Seq<RepoTargetView>,
    key: RepoTargetView,
    now: u64,
)
    ensures
        recorded(history, key, now).len() == if noted(history, key, now).len() <= 50 {
            noted(history, key, now).len()
        } else {
            50
        },
        noted(history, key, now).len() <= 50 ==> recorded(history, key, now).to_multiset()
            == noted(history, key, now).to_multiset(),
        recorded(history, key, now).to_multiset().subset_of(
            noted(history, key, now).to_multiset(),
        ),
{
    let n = noted(history, key, now);
    let out = order::sorted::<RepoTarget>(n);
    order::law_sorting_keeps_elements::<RepoTarget>(n);
    if out.len() > HISTORY_LIMIT {
        let front = out.take(HISTORY_LIMIT as int);
        let back = out.skip(HISTORY_LIMIT as int);
        assert(out =~= front + back);
        vstd::seq_lib::lemma_multiset_commutative(front, back);
    }
}

/// What is noted but does not fit into the record comes after everything that stays: it was
/// not built later and, at the same time, is not named before.
pub proof fn law_record_drops_from_the_end(
    history: Seq<RepoTargetView>,
    key: RepoTargetView,
    now: u64,
    stays: RepoTargetView,
    gone: RepoTargetView,
)
    requires
        recorded(history, key, now).contains(stays),
        noted(history, key, now).to_multiset().count(gone) > recorded(
            history,
            key,
            now,
        ).to_multiset().count(gone),
    ensures
        recorded(history, key, now).len() == 50,
        stays.last_success_at is None ==> gone.last_success_at is None,
        match (stays.last_success_at, gone.last_success_at) {
            (Some(s), Some(t)) => s >= t,
            _ => true,
        },
        stays.last_success_at == gone.last_success_at ==> !text::text_less(
            gone.namespace,
            stays.namespace,
        ),
        stays.last_success_at == gone.last_success_at && stays.namespace == gone.namespace
            ==> !text::text_less(gone.repo, stays.repo),
        stays.last_success_at == gone.last_success_at && stays.namespace == gone.namespace
            && stays.repo == gone.repo ==> !text::text_less(gone.branch, stays.branch),
{
    let n = noted(history, key, now);
    let r = recorded(history, key, now);
    let out = order::sorted::<RepoTarget>(n);
    order::law_sorting_keeps_elements::<RepoTarget>(n);
    order::law_sorting_orders::<RepoTarget>(n);
    assert(out.len() > HISTORY_LIMIT);
    let back = out.skip(HISTORY_LIMIT as int);
    assert(out =~= r + back);
    vstd::seq_lib::lemma_multiset_commutative(r, back);
    back.to_multiset_ensures();
    assert(back.to_multiset().count(gone) > 0);
    assert(back.contains(gone));
    let g = choose|g: int| 0 <= g < back.len() && back[g] == gone;
    let k = choose|k: int| 0 <= k < r.len() && r[k] == stays;
    assert(out[k] == stays && out[g + 50] == gone);
    assert(RepoTarget::at_most(out[k], out[g + 50]));
}

/// A success is recorded for the trimmed texts, and refused exactly where one of them is
/// blank. Nothing but the record of successes changes.
pub proof fn law_success_changes_the_record_only(
    file: ConfigFileView,
    now: u64,
    namespace: Seq<char>,
    repo: Seq<char>,
    branch: Seq<char>,
)
    ensures
        match with_success(file, now, namespace, repo, branch) {
            Ok(after) => {
                &&& text::trimmed(namespace).len() > 0
                &&& text::trimmed(repo).len() > 0
                &&& text::trimmed(branch).len() > 0
                &&& after.base_url == file.base_url
                &&& after.default_namespace == file.default_namespace
                &&& after.default_repo == file.default_repo
                &&& after.default_branch == file.default_branch
                &&& after.token == file.token
                &&& after.verify_ssl == file.verify_ssl
                &&& after.poll_interval_secs == file.poll_interval_secs
                &&& after.successful_targets == recorded(
                    file.successful_targets,
                    RepoTargetView {
                        namespace: text::trimmed(namespace),
                        repo: text::trimmed(repo),
                        branch: text::trimmed(branch),
                        success_count: 0,
                        last_success_at: None,
                    },
                    now,
                )
            },
            Err(e) => e == Error::EmptyTarget && (text::trimmed(namespace).len() == 0
                || text::trimmed(repo).len() == 0 || text::trimmed(branch).len() == 0),
        },
{
    target::law_target_is_named_by_trimmed_texts(namespace, repo, branch);
}

/// Where no entry has the namespace, the repository and the branch of a success, and there is
/// room, the record afterwards holds all the entries that it held and one more: that of the
/// target, with a count of one.
pub proof fn law_new_target_is_recorded_beside_all_others(
    file: ConfigFileView,
    now: u64,
    namespace: Seq<char>,
    repo: Seq<char>,
    branch: Seq<char>,
)
    requires
        with_success(file, now, namespace, repo, branch) is Ok,
        file.successful_targets.len() < 50,
        forall|i: int|
            0 <= i < file.successful_targets.len() ==> !((
            #[trigger] file.successful_targets[i]).namespace == text::trimmed(namespace)
                && file.successful_targets[i].repo == text::trimmed(repo)
                && file.successful_targets[i].branch == text::trimmed(branch)),
    ensures
        with_success(file, now, namespace, repo, branch)->Ok_0.successful_targets.to_multiset()
            == file.successful_targets.to_multiset().insert(
            RepoTargetView {
                namespace: text::trimmed(namespace),
                repo: text::trimmed(repo),
                branch: text::trimmed(branch),
                success_count: 1,
                last_success_at: Some(now),
            },
        ),
{
    let old_list = file.successful_targets;
    let key = target::named_target(namespace, repo, branch)->0;
    law_success_changes_the_record_only(file, now, namespace, repo, branch);
    law_first_success_is_added(old_list, key, now);
    law_record_holds_what_was_noted(old_list, key, now);
    let entry = noted(old_list, key, now).last();
    assert(old_list.push(entry) =~= old_list.insert(old_list.len() as int, entry));
    order::lemma_multiset_insert(entry, old_list, old_list.len() as int);
}

/// Where an entry has the namespace, the repository and the branch of a success, the first
/// such entry is counted up, and the record afterwards holds all the other entries as they
/// were.
pub proof fn law_known_target_is_counted_beside_all_others(
    file: ConfigFileView,
    now: u64,
    namespace: Seq<char>,
    repo: Seq<char>,
    branch: Seq<char>,
    i: int,
)
    requires
        with_success(file, now, namespace, repo, branch) is Ok,
        file.successful_targets.len() <= 50,
        0 <= i < file.successful_targets.len(),
        file.successful_targets[i].namespace == text::trimmed(namespace),
        file.successful_targets[i].repo == text::trimmed(repo),
        file.successful_targets[i].branch == text::trimmed(branch),
        forall|j: int|
            0 <= j < i ==> !((#[trigger] file.successful_targets[j]).namespace == text::trimmed(
                namespace,
            ) && file.successful_targets[j].repo == text::trimmed(repo)
                && file.successful_targets[j].branch == text::trimmed(branch)),
    ensures
        with_success(file, now, namespace, repo, branch)->Ok_0.successful_targets.to_multiset()
            == file.successful_targets.remove(i).to_multiset().insert(
            RepoTargetView {
                namespace: text::trimmed(namespace),
                repo: text::trimmed(repo),
                branch: text::trimmed(branch),
                success_count: if file.successful_targets[i].success_count < u64::MAX {
                    (file.successful_targets[i].success_count + 1) as u64
                } else {
                    u64::MAX
                },
                last_success_at: Some(now),
            },
        ),
{
    let old_list = file.successful_targets;
    let key = target::named_target(namespace, repo, branch)->0;
    law_success_changes_the_record_only(file, now, namespace, repo, branch);
    law_further_success_is_counted(old_list, key, now, i);
    law_record_holds_what_was_noted(old_list, key, now);
    let entry = noted(old_list, key, now)[i];
    let others = old_list.remove(i);
    assert(old_list.update(i, entry) =~= others.insert(i, entry));
    order::lemma_multiset_insert(entry, others, i);
}

/// Every entry for another target, by its namespace, its repository or its branch, is still
/// in the record after a success, as it was, as long as there is room.
pub proof fn law_other_targets_stay_recorded(
    file: ConfigFileView,
    now: u64,
    namespace: Seq<char>,
    repo: Seq<char>,
    branch: Seq<char>,
    j: int,
)
    requires
        with_success(file, now, namespace, repo, branch) is Ok,
        file.successful_targets.len() < 50,
        0 <= j < file.successful_targets.len(),
        file.successful_targets[j].namespace != text::trimmed(namespace)
            || file.successful_targets[j].repo != text::trimmed(repo)
            || file.successful_targets[j].branch != text::trimmed(branch),
    ensures
        with_success(file, now, namespace, repo, branch)->Ok_0.successful_targets.contains(
            file.successful_targets[j],
        ),
{
    let old_list = file.successful_targets;
    let key = target::named_target(namespace, repo, branch)->0;
    law_success_changes_the_record_only(file, now, namespace, repo, branch);
    let all = noted(old_list, key, now);
    let wanted = |e: RepoTargetView| e.is_for(key.namespace, key.repo, key.branch);
    seqs::lemma_first_where(old_list, wanted);
    assert(!wanted(old_list[j]));
    assert(all[j] == old_list[j]);
    assert(all.contains(all[j]));
    order::lemma_sorted_contains::<RepoTarget>(all, all[j]);
    order::law_sorting_keeps_elements::<RepoTarget>(all);
}

/// A success later than every other puts its target first in the record, with a count of one
/// where no entry has its three texts, and else with one more than the first such entry.
pub proof fn law_latest_success_is_recorded_first(
    file: ConfigFileView,
    now: u64,
    namespace: Seq<char>,
    repo: Seq<char>,
    branch: Seq<char>,
    i: int,
)
    requires
        with_success(file, now, namespace, repo, branch) is Ok,
        forall|j: int|
            0 <= j < file.successful_targets.len() ==> match (
            #[trigger] file.successful_targets[j]).last_success_at {
                Some(t) => t < now,
                None => true,
            },
    ensures
        ({
            let after = with_success(file, now, namespace, repo, branch)->Ok_0.successful_targets;
            &&& after.len() > 0
            &&& after[0].namespace == text::trimmed(namespace)
            &&& after[0].repo == text::trimmed(repo)
            &&& after[0].branch == text::trimmed(branch)
            &&& after[0].last_success_at == Some(now)
            &&& 0 <= i < file.successful_targets.len() && file.successful_targets[i].namespace
                == text::trimmed(namespace) && file.successful_targets[i].repo == text::trimmed(
                repo,
            ) && file.successful_targets[i].branch == text::trimmed(branch) && (forall|j: int|
                0 <= j < i ==> !((#[trigger] file.successful_targets[j]).namespace
                    == text::trimmed(namespace) && file.successful_targets[j].repo
                    == text::trimmed(repo) && file.successful_targets[j].branch == text::trimmed(
                    branch,
                ))) ==> after[0].success_count == if file.successful_targets[i].success_count
                < u64::MAX {
                file.successful_targets[i].success_count + 1
            } else {
                u64::MAX as int
            }
            &&& (forall|j: int|
                0 <= j < file.successful_targets.len() ==> !((
                #[trigger] file.successful_targets[j]).namespace == text::trimmed(namespace)
                    && file.successful_targets[j].repo == text::trimmed(repo)
                    && file.successful_targets[j].branch == text::trimmed(branch)))
                ==> after[0].success_count == 1
        }),
{
    let key = target::named_target(namespace, repo, branch)->0;
    let old_list = file.successful_targets;
    law_success_changes_the_record_only(file, now, namespace, repo, branch);
    law_latest_success_comes_first(old_list, key, now);
    let wanted = |e: RepoTargetView| e.is_for(key.namespace, key.repo, key.branch);
    seqs::lemma_first_where(old_list, wanted);
    match seqs::first_where(old_list, wanted) {
        Some(k) => {
            assert(wanted(old_list[k]));
            if 0 <= i < old_list.len() && wanted(old_list[i]) && k < i {
                assert(old_list[k].is_for(key.namespace, key.repo, key.branch));
            }
            if 0 <= i < k {
                assert(!wanted(old_list[i]));
            }
        },
        None => {
            if 0 <= i < old_list.len() {
                assert(!wanted(old_list[i]));
            }
        },
    }
}

/// The predicate that holds of the entries with this time and these three texts.
pub open spec fn is_entry(
    at: Option<u64>,
    namespace: Seq<char>,
    repo: Seq<char>,
    branch: Seq<char>,
) -> spec_fn(RepoTargetView) -> bool {
    |e: RepoTargetView|
        e.last_success_at == at && e.namespace == namespace && e.repo == repo && e.branch == branch
}

/// Entries with the same time and the same texts stay in the order in which they were noted.
pub proof fn law_equal_entries_stay_in_order(
    history: Seq<RepoTargetView>,
    key: RepoTargetView,
    now: u64,
    at: Option<u64>,
    namespace: Seq<char>,
    repo: Seq<char>,
    branch: Seq<char>,
    entry: RepoTargetView,
)
    requires
        noted(history, key, now).len() <= 50,
    ensures
        is_entry(at, namespace, repo, branch)(entry) <==> entry.last_success_at == at
            && entry.namespace == namespace && entry.repo == repo && entry.branch == branch,
        recorded(history, key, now).filter(is_entry(at, namespace, repo, branch)) == noted(
            history,
            key,
            now,
        ).filter(is_entry(at, namespace, repo, branch)),
{
    let rank = RepoTargetView { namespace, repo, branch, success_count: 0, last_success_at: at };
    let alike = |e: RepoTargetView| order::same_rank::<RepoTarget>(e, rank);
    assert forall|e: RepoTargetView| #[trigger] alike(e) == is_entry(
        at,
        namespace,
        repo,
        branch,
    )(e) by {
        lemma_named_before(e, rank, rank);
        lemma_named_before(rank, e, rank);
    }
    assert(alike =~= is_entry(at, namespace, repo, branch));
    order::law_sorting_keeps_elements::<RepoTarget>(noted(history, key, now));
    order::law_sorting_is_stable::<RepoTarget>(noted(history, key, now), rank);
}

} // verus!
