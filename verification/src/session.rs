//! The course of one build: a look at the last commit, the user's consent, the trigger, and
//! the wait for the end. A session takes events and answers with what to do next; the
//! program around it does so and reports back.

use crate::api::{Endpoint, EndpointView};
use crate::builds;
use crate::builds::{BuildResponse, BuildView, Notice};
use crate::config::{Config, ConfigView};
use crate::order;
use crate::seqs;
use crate::target::{RepoTarget, RepoTargetView};
use crate::text;
use vstd::prelude::*;

verus! {

/// What a session is waiting for.
#[derive(Debug, Clone, Copy, PartialEq, Eq, Structural)]
pub enum Phase {
    /// The recent builds of the repository.
    AwaitingBuilds,
    /// The user's answer.
    AwaitingAnswer,
    /// The build that is being triggered.
    AwaitingTrigger,
    /// The state of the build.
    AwaitingStatus { number: u64 },
    /// The end of a pause between two looks at the build.
    Pausing { number: u64 },
    /// Nothing: the session is over.
    Over,
}

/// What happened outside.
#[derive(Debug)]
pub enum Event {
    /// The recent builds arrived.
    BuildsFetched(Vec<BuildResponse>),
    /// The recent builds could not be had, for this reason.
    BuildsUnavailable(String),
    /// The user answered.
    Answered(bool),
    /// The build was triggered.
    Triggered(BuildResponse),
    /// The state of the build arrived.
    StatusFetched(BuildResponse),
    /// The pause is over.
    Paused,
}

/// What an [`Event`] stands for.
pub enum EventView {
    BuildsFetched(Seq<BuildView>),
    BuildsUnavailable(Seq<char>),
    Answered(bool),
    Triggered(BuildView),
    StatusFetched(BuildView),
    Paused,
}

impl View for Event {
    type V = EventView;

    open spec fn view(&self) -> EventView {
        match *self {
            Event::BuildsFetched(builds) => EventView::BuildsFetched(order::views(builds@)),
            Event::BuildsUnavailable(reason) => EventView::BuildsUnavailable(reason@),
            Event::Answered(yes) => EventView::Answered(yes),
            Event::Triggered(build) => EventView::Triggered(build@),
            Event::StatusFetched(build) => EventView::StatusFetched(build@),
            Event::Paused => EventView::Paused,
        }
    }
}

/// What to do next.
#[derive(Debug, PartialEq, Eq)]
pub enum Action {
    /// Show the lines, and ask whether to go on.
    Ask { lines: Vec<String>, prompt: String, default: bool },
    /// Trigger the build.
    Trigger,
    /// Ask the server for the state of the build; first there may be something to say.
    FetchBuild { announcement: Option<String>, number: u64 },
    /// Wait for this many seconds.
    Pause { secs: u64 },
    /// Print the report, record the success if there is one, and notify the user.
    Finish { report: String, record: bool, notification: Notice },
    /// Say that no build was triggered.
    Cancel { message: String },
}

/// What an [`Action`] stands for.
#[verifier::ext_equal]
pub enum ActionView {
    Ask { lines: Seq<Seq<char>>, prompt: Seq<char>, default: bool },
    Trigger,
    FetchBuild { announcement: Option<Seq<char>>, number: u64 },
    Pause { secs: u64 },
    Finish { report: Seq<char>, record: bool, summary: Seq<char>, body: Seq<char> },
    Cancel { message: Seq<char> },
}

impl View for Action {
    type V = ActionView;

    open spec fn view(&self) -> ActionView {
        match *self {
            Action::Ask { lines, prompt, default } => ActionView::Ask {
                lines: order::views(lines@),
                prompt: prompt@,
                default,
            },
            Action::Trigger => ActionView::Trigger,
            Action::FetchBuild { announcement, number } => ActionView::FetchBuild {
                announcement: text::opt_text(announcement),
                number,
            },
            Action::Pause { secs } => ActionView::Pause { secs },
            Action::Finish { report, record, notification } => ActionView::Finish {
                report: report@,
                record,
                summary: notification.summary@,
                body: notification.body@,
            },
            Action::Cancel { message } => ActionView::Cancel { message: message@ },
        }
    }
}

/// One build of a target, from the look at its last commit to its end.
#[derive(Debug)]
pub struct Session {
    pub config: Config,
    pub target: RepoTarget,
    pub phase: Phase,
}

/// What a [`Session`] stands for.
#[verifier::ext_equal]
pub struct SessionView {
    pub config: ConfigView,
    pub target: RepoTargetView,
    pub phase: Phase,
}

impl View for Session {
    type V = SessionView;

    open spec fn view(&self) -> SessionView {
        SessionView { config: self.config@, target: self.target@, phase: self.phase }
    }
}

/// A session at its start.
pub open spec fn started(config: ConfigView, target: RepoTargetView) -> SessionView {
    SessionView { config, target, phase: Phase::AwaitingBuilds }
}

/// The question after a look at the last build of the branch.
pub open spec fn informed_question(build: BuildView, branch: Seq<char>) -> ActionView {
    ActionView::Ask {
        lines: builds::preview_lines(build, branch),
        prompt: "上述 commit 是否正确，确认后才会触发构建"@,
        default: true,
    }
}

/// The question where the last build of the branch is not known.
pub open spec fn uninformed_question(branch: Seq<char>, reason: Seq<char>) -> ActionView {
    ActionView::Ask {
        lines: seq!["未能获取分支 "@ + branch + " 的 commit 信息，将询问后再决定是否继续："@ + reason],
        prompt: "未获取到 commit 信息，仍要触发构建吗？"@,
        default: false,
    }
}

/// Why the last build of a branch is not known though builds were listed.
pub open spec fn no_build_text(branch: Seq<char>) -> Seq<char> {
    "未在最近的构建列表中找到分支 "@ + branch + " 的记录"@
}

/// The question that the recent builds lead to.
pub open spec fn question_after(builds: Seq<BuildView>, branch: Seq<char>) -> ActionView {
    match builds::latest_of(builds, branch) {
        Some(i) => informed_question(builds[i], branch),
        None => uninformed_question(branch, no_build_text(branch)),
    }
}

/// What to do about a build in this state, given whether it has ended.
pub open spec fn status_action(s: SessionView, build: BuildView, ended: bool) -> ActionView {
    if ended {
        ActionView::Finish {
            report: builds::ended_text(build),
            record: builds::succeeded(build.status),
            summary: builds::notice_summary(build),
            body: builds::notice_body(
                build,
                s.config.base_url,
                s.target.namespace,
                s.target.repo,
            ),
        }
    } else {
        ActionView::Pause { secs: s.config.poll_interval_secs }
    }
}

/// What an event leads to: the next phase and what to do. Nothing, where the session is not
/// waiting for such an event.
pub open spec fn transition(s: SessionView, e: EventView) -> Option<(Phase, ActionView)> {
    match (s.phase, e) {
        (Phase::AwaitingBuilds, EventView::BuildsFetched(builds)) => Some(
            (Phase::AwaitingAnswer, question_after(builds, s.target.branch)),
        ),
        (Phase::AwaitingBuilds, EventView::BuildsUnavailable(reason)) => Some(
            (Phase::AwaitingAnswer, uninformed_question(s.target.branch, reason)),
        ),
        (Phase::AwaitingAnswer, EventView::Answered(yes)) => Some(
            if yes {
                (Phase::AwaitingTrigger, ActionView::Trigger)
            } else {
                (Phase::Over, ActionView::Cancel { message: "已取消触发构建"@ })
            },
        ),
        (Phase::AwaitingTrigger, EventView::Triggered(build)) => Some(
            (
                Phase::AwaitingStatus { number: build.number },
                ActionView::FetchBuild {
                    announcement: Some(builds::triggered_text(build.number, s.target.branch)),
                    number: build.number,
                },
            ),
        ),
        (Phase::AwaitingStatus { number }, EventView::StatusFetched(build)) => Some(
            (
                if builds::ended(build.status) {
                    Phase::Over
                } else {
                    Phase::Pausing { number }
                },
                status_action(s, build, builds::ended(build.status)),
            ),
        ),
        (Phase::Pausing { number }, EventView::Paused) => Some(
            (Phase::AwaitingStatus { number }, ActionView::FetchBuild { announcement: None, number }),
        ),
        _ => None,
    }
}

/// The request for the recent builds of the target's repository.
pub open spec fn recent_builds_of(target: RepoTargetView) -> EndpointView {
    EndpointView::RecentBuilds { namespace: target.namespace, repo: target.repo }
}

/// What an action asks of the server: to build the target's branch, or for a build of the
/// target's repository.
pub open spec fn asked_of_server(target: RepoTargetView, action: ActionView) -> Option<
    EndpointView,
> {
    match action {
        ActionView::Trigger => Some(
            EndpointView::Trigger {
                namespace: target.namespace,
                repo: target.repo,
                branch: target.branch,
            },
        ),
        ActionView::FetchBuild { number, .. } => Some(
            EndpointView::Build { namespace: target.namespace, repo: target.repo, number },
        ),
        _ => None,
    }
}

fn uninformed(branch: &str, reason: &str) -> (r: Action)
    ensures
        r@ == uninformed_question(branch@, reason@),
{
    let mut lines: Vec<String> = Vec::new();
    lines.push(
        "未能获取分支 ".to_owned().concat(branch).concat(
            " 的 commit 信息，将询问后再决定是否继续：",
        ).concat(reason),
    );
    proof {
        let line = "未能获取分支 "@ + branch@ + " 的 commit 信息，将询问后再决定是否继续："@ + reason@;
        assert(order::views(lines@) =~= seq![line]);
    }
    Action::Ask {
        lines,
        prompt: "未获取到 commit 信息，仍要触发构建吗？".to_owned(),
        default: false,
    }
}

/// Turns the recent builds into the question whether to trigger a build of the branch.
pub fn question_about(builds: Vec<BuildResponse>, branch: &str) -> (r: Action)
    ensures
        r@ == question_after(order::views(builds@), branch@),
{
    let ghost all = order::views(builds@);
    proof {
        seqs::lemma_first_where(all, |b: BuildView| b.is_of(branch@));
    }
    match builds::latest_branch_build(builds, branch) {
        Ok(build) => {
            Action::Ask {
                lines: build.commit_preview(branch),
                prompt: "上述 commit 是否正确，确认后才会触发构建".to_owned(),
                default: true,
            }
        },
        Err(e) => uninformed(branch, e.message().as_str()),
    }
}

impl Session {
    /// A session that waits for the recent builds of the target's repository.
    pub fn new(config: Config, target: RepoTarget) -> (r: Session)
        ensures
            r.config == config,
            r.target == target,
            r@ == started(config@, target@),
            r.phase is AwaitingBuilds,
    {
        Session { config, target, phase: Phase::AwaitingBuilds }
    }

    /// What to ask of the server at the start: the recent builds of the target's repository.
    pub fn first_endpoint(&self) -> (r: Endpoint)
        ensures
            r@ == recent_builds_of(self@.target),
            r matches Endpoint::RecentBuilds { namespace, repo } && namespace@
                == self.target.namespace@ && repo@ == self.target.repo@,
    {
        Endpoint::RecentBuilds {
            namespace: self.target.namespace.clone(),
            repo: self.target.repo.clone(),
        }
    }

    /// What an action asks of the server, if anything: always of the target.
    pub fn endpoint(&self, action: &Action) -> (r: Option<Endpoint>)
        ensures
            match asked_of_server(self@.target, action@) {
                Some(endpoint) => r matches Some(e) && e@ == endpoint,
                None => r is None,
            },
            match *action {
                Action::Trigger => r matches Some(Endpoint::Trigger { namespace, repo, branch })
                    && namespace@ == self.target.namespace@ && repo@ == self.target.repo@
                    && branch@ == self.target.branch@,
                Action::FetchBuild { number: n, .. } => r matches Some(
                    Endpoint::Build { namespace, repo, number },
                ) && namespace@ == self.target.namespace@ && repo@ == self.target.repo@ && number
                    == n,
                _ => r is None,
            },
    {
        match action {
            Action::Trigger => Some(
                Endpoint::Trigger {
                    namespace: self.target.namespace.clone(),
                    repo: self.target.repo.clone(),
                    branch: self.target.branch.clone(),
                },
            ),
            Action::FetchBuild { announcement: _, number } => Some(
                Endpoint::Build {
                    namespace: self.target.namespace.clone(),
                    repo: self.target.repo.clone(),
                    number: *number,
                },
            ),
            _ => None,
        }
    }

    /// Decides what to do about a build in this state, given whether it has ended.
    pub fn follow(&self, build: &BuildResponse, ended: bool) -> (r: Action)
        ensures
            r@ == status_action(self@, build@, ended),
            ended ==> (r matches Action::Finish { record, .. } && record == (build.status matches
                Some(s) && text::ascii_lowered(s@) == "success"@)),
            !ended ==> (r matches Action::Pause { secs } && secs == self.config.poll_interval_secs),
    {
        if ended {
            let status: Option<&str> = match &build.status {
                Some(status) => Some(status.as_str()),
                None => None,
            };
            Action::Finish {
                report: builds::ended_report(build),
                record: builds::is_success_status(status),
                notification: builds::build_notice(
                    build,
                    &self.config,
                    self.target.namespace.as_str(),
                    self.target.repo.as_str(),
                ),
            }
        } else {
            Action::Pause { secs: self.config.poll_interval_secs }
        }
    }

    /// Takes an event, and says what to do next. An event that the session is not waiting
    /// for changes nothing.
    pub fn step(&mut self, event: Event) -> (r: Option<Action>)
        ensures
            final(self).config == old(self).config,
            final(self).target == old(self).target,
            match transition(old(self)@, event@) {
                Some((phase, action)) => final(self).phase == phase && (r matches Some(a) && a@
                    == action),
                None => final(self).phase == old(self).phase && r is None,
            },
            // A status in ASCII characters is compared without regard to case.
            (old(self).phase is AwaitingStatus && event@ is StatusFetched) ==> (
            event@->StatusFetched_0.status matches Some(status) ==> builds::all_ascii(status)
                ==> (final(self).phase is Over <==> builds::is_final(
                text::ascii_lowered(status),
            ))),
            // What is recorded goes by the status of the build that has ended.
            r matches Some(Action::Finish { record, .. }) ==> (event matches
                Event::StatusFetched(build) && record == (build.status matches Some(s)
                && text::ascii_lowered(s@) == "success"@)),
            // What is followed is the build that was triggered.
            r matches Some(Action::FetchBuild { number, .. }) ==> match event {
                Event::Triggered(build) => number == build.number,
                _ => old(self).phase == (Phase::Pausing { number }),
            },
    {
        match (self.phase, event) {
            (Phase::AwaitingBuilds, Event::BuildsFetched(builds)) => {
                self.phase = Phase::AwaitingAnswer;
                Some(question_about(builds, self.target.branch.as_str()))
            },
            (Phase::AwaitingBuilds, Event::BuildsUnavailable(reason)) => {
                self.phase = Phase::AwaitingAnswer;
                Some(uninformed(self.target.branch.as_str(), reason.as_str()))
            },
            (Phase::AwaitingAnswer, Event::Answered(yes)) => {
                if yes {
                    self.phase = Phase::AwaitingTrigger;
                    Some(Action::Trigger)
                } else {
                    self.phase = Phase::Over;
                    Some(Action::Cancel { message: "已取消触发构建".to_owned() })
                }
            },
            (Phase::AwaitingTrigger, Event::Triggered(build)) => {
                self.phase = Phase::AwaitingStatus { number: build.number };
                Some(
                    Action::FetchBuild {
                        announcement: Some(
                            builds::triggered_notice(build.number, self.target.branch.as_str()),
                        ),
                        number: build.number,
                    },
                )
            },
            (Phase::AwaitingStatus { number }, Event::StatusFetched(build)) => {
                let ended: bool = builds::has_ended(&build.status);
                let action: Action = self.follow(&build, ended);
                self.phase = if ended {
                    Phase::Over
                } else {
                    Phase::Pausing { number }
                };
                Some(action)
            },
            (Phase::Pausing { number }, Event::Paused) => {
                self.phase = Phase::AwaitingStatus { number };
                Some(Action::FetchBuild { announcement: None, number })
            },
            _ => None,
        }
    }
}

/// Where a series of events takes a session, and what it does at each of them. Nothing, where
/// an event comes that the session is not waiting for.
pub open spec fn run(s: SessionView, events: Seq<EventView>) -> Option<
    (SessionView, Seq<ActionView>),
>
    decreases events.len(),
{
    if events.len() == 0 {
        Some((s, Seq::empty()))
    } else {
        match run(s, events.drop_last()) {
            Some((now, actions)) => match transition(now, events.last()) {
                Some((phase, action)) => Some(
                    (SessionView { phase, ..now }, actions.push(action)),
                ),
                None => None,
            },
            None => None,
        }
    }
}

/// The build that was triggered in the course of these events.
spec fn triggered(events: Seq<EventView>, number: u64) -> bool {
    &&& events.len() >= 3
    &&& events[1] == EventView::Answered(true)
    &&& events[2] matches EventView::Triggered(build) && build.number == number
}

/// Whether the session is asked nothing but to look at this build and to wait, from the
/// third action on.
spec fn only_watches(actions: Seq<ActionView>, number: u64, end: int) -> bool {
    forall|i: int|
        2 <= i < end ==> (#[trigger] actions[i] is Pause || (actions[i] matches
            ActionView::FetchBuild { number: n, .. } && n == number))
}

/// What is known of a session in each phase.
spec fn course(s: SessionView, events: Seq<EventView>, actions: Seq<ActionView>) -> bool {
    let n = events.len();
    &&& actions.len() == n
    &&& n >= 1 ==> actions[0] is Ask && match events[0] {
        EventView::BuildsFetched(builds) => actions[0] == question_after(builds, s.target.branch),
        EventView::BuildsUnavailable(reason) => actions[0] == uninformed_question(
            s.target.branch,
            reason,
        ),
        _ => false,
    }
    &&& match s.phase {
        Phase::AwaitingBuilds => n == 0,
        Phase::AwaitingAnswer => n == 1,
        Phase::AwaitingTrigger => n == 2 && events[1] == EventView::Answered(true) && actions[1]
            is Trigger,
        Phase::AwaitingStatus { number } => triggered(events, number) && actions[1] is Trigger
            && only_watches(actions, number, n as int),
        Phase::Pausing { number } => triggered(events, number) && actions[1] is Trigger
            && only_watches(actions, number, n as int),
        Phase::Over => if n == 2 {
            events[1] == EventView::Answered(false) && actions[1] is Cancel
        } else {
            &&& n >= 4
            &&& actions[1] is Trigger
            &&& actions[n - 1] is Finish
            &&& events[n - 1] matches EventView::StatusFetched(build) && builds::ended(
                build.status,
            ) && actions[n - 1] == status_action(s, build, true)
            &&& exists|number: u64|
                #[trigger] triggered(events, number) && only_watches(actions, number, n - 1)
        },
    }
}

proof fn lemma_course(config: ConfigView, target: RepoTargetView, events: Seq<EventView>)
    requires
        run(started(config, target), events) is Some,
    ensures
        run(started(config, target), events) matches Some((s, actions)) && course(
            s,
            events,
            actions,
        ) && s.config == config && s.target == target,
    decreases events.len(),
{
    if events.len() > 0 {
        let earlier = events.drop_last();
        lemma_course(config, target, earlier);
        let (before, past) = run(started(config, target), earlier).unwrap();
        let (s, actions) = run(started(config, target), events).unwrap();
        let n = events.len();
        assert(forall|i: int| 0 <= i < n - 1 ==> actions[i] == past[i] && events[i] == earlier[i]);
        match before.phase {
            Phase::AwaitingStatus { number } => {
                assert(n >= 4 && triggered(events, number));
                assert(only_watches(actions, number, n - 1));
            },
            Phase::Pausing { number } => {
                assert(n >= 4 && triggered(events, number));
                assert(only_watches(actions, number, n as int));
            },
            _ => {},
        }
    }
}

/// A build is triggered only after the user was asked and agreed, and at most once: the
/// second action of a session is the only one that can trigger a build.
pub proof fn law_build_is_triggered_only_with_consent(
    config: ConfigView,
    target: RepoTargetView,
    events: Seq<EventView>,
    i: int,
)
    requires
        run(started(config, target), events) matches Some((_, actions)) && 0 <= i < actions.len()
            && actions[i] is Trigger,
    ensures
        i == 1,
        events[1] == EventView::Answered(true),
        run(started(config, target), events) matches Some((_, actions)) && actions[0] is Ask,
{
    lemma_course(config, target, events);
    let (s, actions) = run(started(config, target), events).unwrap();
    if s.phase is Over && events.len() > 2 {
        let number = choose|number: u64|
            #[trigger] triggered(events, number) && only_watches(
                actions,
                number,
                events.len() - 1,
            );
        assert(only_watches(actions, number, events.len() - 1));
    }
}

/// A refusal ends the session, and nothing is triggered.
pub proof fn law_refusal_triggers_nothing(
    config: ConfigView,
    target: RepoTargetView,
    events: Seq<EventView>,
)
    requires
        run(started(config, target), events) is Some,
        events.contains(EventView::Answered(false)),
    ensures
        run(started(config, target), events) matches Some((s, actions)) && s.phase is Over
            && actions.len() == 2 && actions[0] is Ask && actions[1] == (ActionView::Cancel {
            message: "已取消触发构建"@,
        }),
    decreases events.len(),
{
    lemma_course(config, target, events);
    let earlier = events.drop_last();
    lemma_course(config, target, earlier);
    let (before, past) = run(started(config, target), earlier).unwrap();
    if events.last() != EventView::Answered(false) {
        let k = choose|k: int|
            0 <= k < events.len() && events[k] == EventView::Answered(false);
        assert(earlier[k] == EventView::Answered(false));
        law_refusal_triggers_nothing(config, target, earlier);
    }
}

/// Before a build is triggered, the commit of the first recent build of the branch is shown;
/// where there is none, the reason is.
pub proof fn law_last_commit_is_shown_before_triggering(
    config: ConfigView,
    target: RepoTargetView,
    events: Seq<EventView>,
    i: int,
)
    requires
        run(started(config, target), events) matches Some((_, actions)) && 0 <= i < actions.len()
            && actions[i] is Trigger,
    ensures
        run(started(config, target), events) matches Some((_, actions)) && match events[0] {
            EventView::BuildsFetched(builds) => match builds::latest_of(builds, target.branch) {
                Some(k) => actions[0] == informed_question(builds[k], target.branch),
                None => actions[0] == uninformed_question(
                    target.branch,
                    no_build_text(target.branch),
                ),
            },
            EventView::BuildsUnavailable(reason) => actions[0] == uninformed_question(
                target.branch,
                reason,
            ),
            _ => false,
        },
{
    lemma_course(config, target, events);
}

/// The build that is followed is the one that was triggered.
pub proof fn law_triggered_build_is_followed(
    config: ConfigView,
    target: RepoTargetView,
    events: Seq<EventView>,
    i: int,
)
    requires
        run(started(config, target), events) matches Some((_, actions)) && 0 <= i < actions.len()
            && actions[i] is FetchBuild,
    ensures
        run(started(config, target), events) matches Some((_, actions)) && events.len() >= 3 && (
        events[2] matches EventView::Triggered(build) && actions[i]->FetchBuild_number
            == build.number),
{
    lemma_course(config, target, events);
    let (s, actions) = run(started(config, target), events).unwrap();
    if s.phase is Over && events.len() > 2 {
        let number = choose|number: u64|
            #[trigger] triggered(events, number) && only_watches(
                actions,
                number,
                events.len() - 1,
            );
        assert(only_watches(actions, number, events.len() - 1));
    }
}

/// Whatever a session asks of the server after the recent builds is a build of the branch
/// that was chosen, or the state of the build that was triggered, in the repository that was
/// chosen.
pub proof fn law_chosen_target_is_built(
    config: ConfigView,
    target: RepoTargetView,
    events: Seq<EventView>,
    i: int,
)
    requires
        run(started(config, target), events) matches Some((s, actions)) && 0 <= i < actions.len()
            && asked_of_server(s.target, actions[i]) is Some,
    ensures
        run(started(config, target), events) matches Some((s, actions)) && match asked_of_server(
            s.target,
            actions[i],
        )->0 {
            EndpointView::Trigger { namespace, repo, branch } => target.is_for(
                namespace,
                repo,
                branch,
            ),
            EndpointView::Build { namespace, repo, number } => namespace == target.namespace
                && repo == target.repo && (events[2] matches EventView::Triggered(build)
                && build.number == number),
            _ => false,
        },
{
    lemma_course(config, target, events);
    let (s, actions) = run(started(config, target), events).unwrap();
    if actions[i] is FetchBuild {
        law_triggered_build_is_followed(config, target, events, i);
    }
}

/// The user is notified, and a success recorded, only when the build has ended, and this is
/// the last that a session does. A success is recorded exactly when the build succeeded.
pub proof fn law_ended_build_is_reported_last(
    config: ConfigView,
    target: RepoTargetView,
    events: Seq<EventView>,
    i: int,
)
    requires
        run(started(config, target), events) matches Some((_, actions)) && 0 <= i < actions.len()
            && actions[i] is Finish,
    ensures
        i == events.len() - 1,
        run(started(config, target), events) matches Some((s, actions)) && s.phase is Over && (
        events[i] matches EventView::StatusFetched(build) && builds::ended(build.status)
            && actions[i]->record == builds::succeeded(build.status)),
{
    lemma_course(config, target, events);
    let (s, actions) = run(started(config, target), events).unwrap();
    if s.phase is Over && events.len() > 2 {
        let number = choose|number: u64|
            #[trigger] triggered(events, number) && only_watches(
                actions,
                number,
                events.len() - 1,
            );
        assert(only_watches(actions, number, events.len() - 1));
    }
}

/// Consent triggers the build.
pub proof fn law_consent_triggers_the_build(s: SessionView)
    requires
        s.phase is AwaitingAnswer,
    ensures
        transition(s, EventView::Answered(true)) == Some(
            (Phase::AwaitingTrigger, ActionView::Trigger),
        ),
{
}

/// As soon as a build is seen to have ended, the user is notified, and the session is over.
pub proof fn law_end_of_the_build_is_notified(s: SessionView, build: BuildView, number: u64)
    requires
        s.phase == (Phase::AwaitingStatus { number }),
        builds::ended(build.status),
    ensures
        transition(s, EventView::StatusFetched(build)) == Some(
            (
                Phase::Over,
                ActionView::Finish {
                    report: builds::ended_text(build),
                    record: builds::succeeded(build.status),
                    summary: builds::notice_summary(build),
                    body: builds::notice_body(
                        build,
                        s.config.base_url,
                        s.target.namespace,
                        s.target.repo,
                    ),
                },
            ),
        ),
{
}

/// As long as a build has not ended, the session waits for the configured time and looks
/// again.
pub proof fn law_running_build_is_looked_at_again(s: SessionView, build: BuildView, number: u64)
    requires
        s.phase == (Phase::AwaitingStatus { number }),
        !builds::ended(build.status),
    ensures
        run(s, seq![EventView::StatusFetched(build), EventView::Paused]) == Some(
            (
                s,
                seq![
                    ActionView::Pause { secs: s.config.poll_interval_secs },
                    ActionView::FetchBuild { announcement: None, number },
                ],
            ),
        ),
{
    let events = seq![EventView::StatusFetched(build), EventView::Paused];
    reveal_with_fuel(run, 3);
    assert(events.drop_last() =~= seq![EventView::StatusFetched(build)]);
    assert(events.drop_last().drop_last().len() == 0);
    let (now, actions) = run(s, events).unwrap();
    assert(actions =~= seq![
        ActionView::Pause { secs: s.config.poll_interval_secs },
        ActionView::FetchBuild { announcement: None, number },
    ]);
    assert(now =~= s);
}

/// Nothing happens in a session that is over.
pub proof fn law_nothing_follows_the_end(s: SessionView, event: EventView)
    requires
        s.phase is Over,
    ensures
        transition(s, event) is None,
{
}

/// Sessions, events and actions stand for what their fields hold.
pub proof fn law_sessions_stand_for_their_fields(
    s: Session,
    fetched: Vec<BuildResponse>,
    build: BuildResponse,
    reason: String,
    yes: bool,
    lines: Vec<String>,
    announcement: Option<String>,
    notification: Notice,
    number: u64,
)
    ensures
        s@.config == s.config@,
        s@.target == s.target@,
        s@.phase == s.phase,
        Event::BuildsFetched(fetched)@ == EventView::BuildsFetched(order::views(fetched@)),
        Event::BuildsUnavailable(reason)@ == EventView::BuildsUnavailable(reason@),
        Event::Answered(yes)@ == EventView::Answered(yes),
        Event::Triggered(build)@ == EventView::Triggered(build@),
        Event::StatusFetched(build)@ == EventView::StatusFetched(build@),
        Event::Paused@ == EventView::Paused,
        (Action::Ask { lines, prompt: reason, default: yes })@ == (ActionView::Ask {
            lines: order::views(lines@),
            prompt: reason@,
            default: yes,
        }),
        Action::Trigger@ == ActionView::Trigger,
        (Action::FetchBuild { announcement, number })@ == (ActionView::FetchBuild {
            announcement: text::opt_text(announcement),
            number,
        }),
        (Action::Pause { secs: number })@ == (ActionView::Pause { secs: number }),
        (Action::Finish { report: reason, record: yes, notification })@ == (ActionView::Finish {
            report: reason@,
            record: yes,
            summary: notification.summary@,
            body: notification.body@,
        }),
        (Action::Cancel { message: reason })@ == (ActionView::Cancel { message: reason@ }),
{
}

/// A session takes an event exactly when it is the one that its phase waits for.
pub proof fn law_sessions_take_what_they_wait_for(s: SessionView, event: EventView)
    ensures
        transition(s, event) is Some <==> match s.phase {
            Phase::AwaitingBuilds => event is BuildsFetched || event is BuildsUnavailable,
            Phase::AwaitingAnswer => event is Answered,
            Phase::AwaitingTrigger => event is Triggered,
            Phase::AwaitingStatus { .. } => event is StatusFetched,
            Phase::Pausing { .. } => event is Paused,
            Phase::Over => false,
        },
{
}

/// When the recent builds arrive, the first of them that is one of the branch is shown, and
/// the offered answer is to go on.
pub proof fn law_last_commit_is_shown(s: SessionView, builds: Seq<BuildView>, i: int)
    requires
        s.phase is AwaitingBuilds,
        builds::latest_of(builds, s.target.branch) == Some(i),
    ensures
        transition(s, EventView::BuildsFetched(builds)) == Some(
            (
                Phase::AwaitingAnswer,
                ActionView::Ask {
                    lines: builds::preview_lines(builds[i], s.target.branch),
                    prompt: "上述 commit 是否正确，确认后才会触发构建"@,
                    default: true,
                },
            ),
        ),
{
}

/// Where no recent build is one of the branch, or they cannot be had, the reason is shown, and
/// the offered answer is not to go on.
pub proof fn law_missing_commit_is_explained(
    s: SessionView,
    builds: Seq<BuildView>,
    reason: Seq<char>,
)
    requires
        s.phase is AwaitingBuilds,
    ensures
        builds::latest_of(builds, s.target.branch) is None ==> transition(
            s,
            EventView::BuildsFetched(builds),
        ) == Some(
            (
                Phase::AwaitingAnswer,
                ActionView::Ask {
                    lines: seq![
                        "未能获取分支 "@ + s.target.branch + " 的 commit 信息，将询问后再决定是否继续："@ + (
                        "未在最近的构建列表中找到分支 "@ + s.target.branch + " 的记录"@),
                    ],
                    prompt: "未获取到 commit 信息，仍要触发构建吗？"@,
                    default: false,
                },
            ),
        ),
        transition(s, EventView::BuildsUnavailable(reason)) == Some(
            (
                Phase::AwaitingAnswer,
                ActionView::Ask {
                    lines: seq![
                        "未能获取分支 "@ + s.target.branch + " 的 commit 信息，将询问后再决定是否继续："@ + reason,
                    ],
                    prompt: "未获取到 commit 信息，仍要触发构建吗？"@,
                    default: false,
                },
            ),
        ),
{
}

/// A refusal ends the session, and says so.
pub proof fn law_refusal_ends_the_session(s: SessionView)
    requires
        s.phase is AwaitingAnswer,
    ensures
        transition(s, EventView::Answered(false)) == Some(
            (Phase::Over, ActionView::Cancel { message: "已取消触发构建"@ }),
        ),
{
}

/// A build that was triggered is announced, and followed by its own number.
pub proof fn law_triggered_build_is_announced(s: SessionView, build: BuildView)
    requires
        s.phase is AwaitingTrigger,
    ensures
        transition(s, EventView::Triggered(build)) == Some(
            (
                Phase::AwaitingStatus { number: build.number },
                ActionView::FetchBuild {
                    announcement: Some(
                        "触发构建 #"@ + text::decimal(build.number as nat) + ", 分支 "@
                            + s.target.branch,
                    ),
                    number: build.number,
                },
            ),
        ),
{
}

/// When the state of the build arrives, the session is over and the build reported exactly
/// when its status, in small letters, is one of the final ones. A success is recorded exactly
/// when the status is that of a success, in either case of its letters.
pub proof fn law_status_decides_the_end(s: SessionView, build: BuildView, number: u64)
    requires
        s.phase == (Phase::AwaitingStatus { number }),
    ensures
        ({
            let over = build.status matches Some(t) && (builds::lowercased(t) == "success"@
                || builds::lowercased(t) == "failure"@ || builds::lowercased(t) == "killed"@
                || builds::lowercased(t) == "canceled"@ || builds::lowercased(t) == "cancelled"@);
            let (phase, action) = transition(s, EventView::StatusFetched(build))->0;
            &&& transition(s, EventView::StatusFetched(build)) is Some
            &&& over ==> phase is Over && (action matches ActionView::Finish { record, .. }
                && record == (build.status matches Some(t) && text::ascii_lowered(t)
                == "success"@))
            &&& !over ==> phase == (Phase::Pausing { number }) && action == (ActionView::Pause {
                secs: s.config.poll_interval_secs,
            })
        }),
{
}

/// After a pause the session looks again at the same build.
pub proof fn law_pause_leads_back_to_the_build(s: SessionView, number: u64)
    requires
        s.phase == (Phase::Pausing { number }),
    ensures
        transition(s, EventView::Paused) == Some(
            (
                Phase::AwaitingStatus { number },
                ActionView::FetchBuild { announcement: None, number },
            ),
        ),
{
}

} // verus!
