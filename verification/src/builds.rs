//! Builds as the server describes them, and what is said about them.

use crate::config::Config;
use crate::error::Error;
use crate::order;
use crate::seqs;
use crate::text;
use vstd::prelude::*;

verus! {

/// A build as the server describes it.
#[derive(Debug, PartialEq, Eq)]
pub struct BuildResponse {
    pub number: u64,
    pub status: Option<String>,
    pub link_url: Option<String>,
    pub message: Option<String>,
    pub after: Option<String>,
    pub git_ref: Option<String>,
    pub source: Option<String>,
    pub target: Option<String>,
    pub author_login: Option<String>,
    pub author_name: Option<String>,
    pub author_email: Option<String>,
}

/// The contents of a [`BuildResponse`].
#[verifier::ext_equal]
pub struct BuildView {
    pub number: u64,
    pub status: Option<Seq<char>>,
    pub link_url: Option<Seq<char>>,
    pub message: Option<Seq<char>>,
    pub after: Option<Seq<char>>,
    pub git_ref: Option<Seq<char>>,
    pub source: Option<Seq<char>>,
    pub target: Option<Seq<char>>,
    pub author_login: Option<Seq<char>>,
    pub author_name: Option<Seq<char>>,
    pub author_email: Option<Seq<char>>,
}

impl View for BuildResponse {
    type V = BuildView;

    open spec fn view(&self) -> BuildView {
        BuildView {
            number: self.number,
            status: text::opt_text(self.status),
            link_url: text::opt_text(self.link_url),
            message: text::opt_text(self.message),
            after: text::opt_text(self.after),
            git_ref: text::opt_text(self.git_ref),
            source: text::opt_text(self.source),
            target: text::opt_text(self.target),
            author_login: text::opt_text(self.author_login),
            author_name: text::opt_text(self.author_name),
            author_email: text::opt_text(self.author_email),
        }
    }
}

impl Clone for BuildResponse {
    fn clone(&self) -> (r: Self)
        ensures
            r == *self,
    {
        BuildResponse {
            number: self.number,
            status: text::copy_opt(&self.status),
            link_url: text::copy_opt(&self.link_url),
            message: text::copy_opt(&self.message),
            after: text::copy_opt(&self.after),
            git_ref: text::copy_opt(&self.git_ref),
            source: text::copy_opt(&self.source),
            target: text::copy_opt(&self.target),
            author_login: text::copy_opt(&self.author_login),
            author_name: text::copy_opt(&self.author_name),
            author_email: text::copy_opt(&self.author_email),
        }
    }
}

impl BuildView {
    /// Whether the build is one of the branch: by the last part of its reference, by its
    /// target or by its source.
    pub open spec fn is_of(self, branch: Seq<char>) -> bool {
        ||| self.git_ref matches Some(r) && text::after_last(r, '/') == branch
        ||| self.target == Some(branch)
        ||| self.source == Some(branch)
    }

    /// The status, or a word that stands for its absence.
    pub open spec fn status_text(self) -> Seq<char> {
        match self.status {
            Some(status) => status,
            None => "unknown"@,
        }
    }

    /// Who wrote the commit: by name, else by login.
    pub open spec fn author(self) -> Option<Seq<char>> {
        match self.author_name {
            Some(name) => Some(name),
            None => self.author_login,
        }
    }
}

fn is_text(o: &Option<String>, s: &str) -> (r: bool)
    ensures
        r == (text::opt_text(*o) == Some(s@)),
{
    match o {
        Some(t) => text::same_text(t.as_str(), s),
        None => false,
    }
}

impl BuildResponse {
    /// Decides whether the build is one of the branch.
    pub fn belongs_to(&self, branch: &str) -> (r: bool)
        ensures
            r == self@.is_of(branch@),
            r == ({
                ||| self.target matches Some(t) && t@ == branch@
                ||| self.source matches Some(t) && t@ == branch@
                ||| self.git_ref matches Some(t) && text::after_last(t@, '/') == branch@
            }),
    {
        let by_ref: bool = match &self.git_ref {
            Some(reference) => {
                text::same_text(text::last_segment(reference.as_str(), '/'), branch)
            },
            None => false,
        };
        by_ref || is_text(&self.target, branch) || is_text(&self.source, branch)
    }

    /// The status of the build, for people to read.
    pub fn status_text(&self) -> (r: String)
        ensures
            r@ == self@.status_text(),
            r@ == (match self.status {
                Some(status) => status@,
                None => "unknown"@,
            }),
    {
        match &self.status {
            Some(status) => status.clone(),
            None => "unknown".to_owned(),
        }
    }
}

/// Where the first build of the branch stands in a list.
pub open spec fn latest_of(builds: Seq<BuildView>, branch: Seq<char>) -> Option<int> {
    seqs::first_where(builds, |b: BuildView| b.is_of(branch))
}

/// Finds the first build of a branch in a list of builds, newest first. There is an error
/// exactly where the list has none.
pub fn latest_branch_build(builds: Vec<BuildResponse>, branch: &str) -> (r: Result<
    BuildResponse,
    Error,
>)
    ensures
        match latest_of(order::views(builds@), branch@) {
            Some(i) => r == Ok::<BuildResponse, Error>(builds@[i]),
            None => r matches Err(Error::BranchBuildNotFound(b)) && b@ == branch@,
        },
{
    let ghost all = order::views(builds@);
    let ghost wanted = |b: BuildView| b.is_of(branch@);
    for build in it: builds
        invariant
            it.seq() == builds@,
            all == order::views(builds@),
            wanted == (|b: BuildView| b.is_of(branch@)),
            forall|j: int| 0 <= j < it.index() ==> !wanted(#[trigger] all[j]),
    {
        if build.belongs_to(branch) {
            proof {
                let i = it.index() as int;
                assert(wanted(all[i]));
                seqs::lemma_first_where_at(all, wanted, i);
            }
            return Ok(build);
        }
        proof {
            assert(!wanted(all[it.index() as int]));
        }
    }
    proof {
        seqs::lemma_first_where_none(all, wanted);
    }
    Err(Error::BranchBuildNotFound(branch.to_owned()))
}

/// The build that is found is one of the branch, and none that stands before it is. One is
/// found wherever there is one.
pub proof fn law_latest_build_is_the_first_of_the_branch(builds: Seq<BuildView>, branch: Seq<char>)
    ensures
        match latest_of(builds, branch) {
            Some(i) => {
                &&& 0 <= i < builds.len()
                &&& builds[i].is_of(branch)
                &&& forall|j: int| 0 <= j < i ==> !(#[trigger] builds[j]).is_of(branch)
            },
            None => forall|j: int| 0 <= j < builds.len() ==> !(#[trigger] builds[j]).is_of(branch),
        },
{
    let wanted = |b: BuildView| b.is_of(branch);
    seqs::lemma_first_where(builds, wanted);
    assert(forall|j: int|
        0 <= j < builds.len() ==> wanted(#[trigger] builds[j]) == builds[j].is_of(branch));
}

/// A line for a part of a preview, where the part is known.
pub open spec fn known_line(label: Seq<char>, value: Option<Seq<char>>) -> Seq<Seq<char>> {
    match value {
        Some(v) => seq![label + v],
        None => Seq::empty(),
    }
}

/// What is shown of the commit that a branch was last built at.
pub open spec fn preview_lines(build: BuildView, branch: Seq<char>) -> Seq<Seq<char>> {
    seq!["即将触发分支 "@ + branch + " 的构建，最近找到的 commit 信息："@] + known_line("  commit: "@, build.after)
        + known_line("  message: "@, build.message) + known_line(
        "  author: "@,
        match build.author() {
            Some(author) => Some(
                match build.author_email {
                    Some(email) => author + " <"@ + email + ">"@,
                    None => author,
                },
            ),
            None => None,
        },
    ) + known_line("  ref: "@, build.git_ref) + known_line("  link: "@, build.link_url)
}

fn push_known(lines: &mut Vec<String>, label: &str, value: &Option<String>)
    ensures
        order::views(final(lines)@) == order::views(old(lines)@) + known_line(
            label@,
            text::opt_text(*value),
        ),
{
    match value {
        Some(v) => {
            lines.push(label.to_owned().concat(v.as_str()));
            assert(order::views(lines@) =~= order::views(old(lines)@) + known_line(
                label@,
                text::opt_text(*value),
            ));
        },
        None => {
            assert(order::views(lines@) =~= order::views(old(lines)@) + known_line(
                label@,
                text::opt_text(*value),
            ));
        },
    }
}

impl BuildResponse {
    fn author_line(&self) -> (r: Option<String>)
        ensures
            text::opt_text(r) == (match self@.author() {
                Some(author) => Some(
                    match self@.author_email {
                        Some(email) => author + " <"@ + email + ">"@,
                        None => author,
                    },
                ),
                None => None,
            }),
    {
        let author: &String = match &self.author_name {
            Some(name) => name,
            None => match &self.author_login {
                Some(login) => login,
                None => {
                    return None;
                },
            },
        };
        match &self.author_email {
            Some(email) => Some(author.clone().concat(" <").concat(email.as_str()).concat(">")),
            None => Some(author.clone()),
        }
    }

    /// The lines that show the commit that a branch was last built at.
    pub fn commit_preview(&self, branch: &str) -> (r: Vec<String>)
        ensures
            order::views(r@) == preview_lines(self@, branch@),
            r@.len() > 0,
            r@[0]@ == "即将触发分支 "@ + branch@ + " 的构建，最近找到的 commit 信息："@,
    {
        let mut lines: Vec<String> = Vec::new();
        lines.push(
            "即将触发分支 ".to_owned().concat(branch).concat(" 的构建，最近找到的 commit 信息："),
        );
        assert(order::views(lines@) =~= seq![
            "即将触发分支 "@ + branch@ + " 的构建，最近找到的 commit 信息："@,
        ]);
        push_known(&mut lines, "  commit: ", &self.after);
        push_known(&mut lines, "  message: ", &self.message);
        push_known(&mut lines, "  author: ", &self.author_line());
        push_known(&mut lines, "  ref: ", &self.git_ref);
        push_known(&mut lines, "  link: ", &self.link_url);
        assert(order::views(lines@).len() == lines@.len());
        assert(order::views(lines@)[0] == lines@[0]@);
        lines
    }
}

/// Whether a status says that a build succeeded, in any case of ASCII letters.
pub open spec fn succeeded(status: Option<Seq<char>>) -> bool {
    status matches Some(s) && text::ascii_lowered(s) == "success"@
}

/// Decides whether a status says that a build succeeded.
pub fn is_success_status(status: Option<&str>) -> (r: bool)
    ensures
        r == (status matches Some(s) && text::ascii_lowered(s@) == "success"@),
{
    proof {
        reveal_strlit("success");
        assert(text::ascii_lowered("success"@) =~= "success"@);
    }
    match status {
        Some(s) => text::same_text_ignoring_ascii_case(s, "success"),
        None => false,
    }
}

/// What `str::to_lowercase` makes of a text.
pub uninterp spec fn lowercased(s: Seq<char>) -> Seq<char>;

/// Whether every character of a text is an ASCII one.
pub open spec fn all_ascii(s: Seq<char>) -> bool {
    forall|i: int| 0 <= i < s.len() ==> (#[trigger] s[i] as u32) < 128
}

/// `str::to_lowercase`: its result is a function of the text, and on a text of ASCII
/// characters replaces each capital letter by its small one.
#[verifier::external_body]
fn lowercase(s: &str) -> (r: String)
    ensures
        r@ == lowercased(s@),
        all_ascii(s@) ==> r@ == text::ascii_lowered(s@),
{
    s.to_lowercase()
}

/// Whether a status, in small letters, is one that no build leaves again.
pub open spec fn is_final(lower: Seq<char>) -> bool {
    lower == "success"@ || lower == "failure"@ || lower == "killed"@ || lower == "canceled"@
        || lower == "cancelled"@
}

/// Decides whether a status, in small letters, is one that no build leaves again.
pub fn is_final_status(lower: &str) -> (r: bool)
    ensures
        r == is_final(lower@),
        r == (lower@ == "success"@ || lower@ == "failure"@ || lower@ == "killed"@ || lower@
            == "canceled"@ || lower@ == "cancelled"@),
{
    text::same_text(lower, "success") || text::same_text(lower, "failure") || text::same_text(
        lower,
        "killed",
    ) || text::same_text(lower, "canceled") || text::same_text(lower, "cancelled")
}

/// Whether a build with this status has ended.
pub open spec fn ended(status: Option<Seq<char>>) -> bool {
    status matches Some(s) && is_final(lowercased(s))
}

proof fn lemma_success_is_ascii(s: Seq<char>)
    requires
        text::ascii_lowered(s) == "success"@,
    ensures
        all_ascii(s),
{
    reveal_strlit("success");
    assert forall|i: int| 0 <= i < s.len() implies (#[trigger] s[i] as u32) < 128 by {
        assert(text::ascii_lowered(s)[i] == text::ascii_lower(s[i]));
        assert(s.len() == "success"@.len());
        assert(i == 0 || i == 1 || i == 2 || i == 3 || i == 4 || i == 5 || i == 6);
    }
}

/// Decides whether a build with this status has ended. Of a status in ASCII characters only
/// the case of its letters is ignored; a build that succeeded has always ended.
pub fn has_ended(status: &Option<String>) -> (r: bool)
    ensures
        r == ended(text::opt_text(*status)),
        text::opt_text(*status) matches Some(s) ==> all_ascii(s) ==> r == is_final(
            text::ascii_lowered(s),
        ),
        succeeded(text::opt_text(*status)) ==> r,
        match *status {
            Some(s) => (forall|i: int| 0 <= i < s@.len() ==> (#[trigger] s@[i] as u32) < 128) ==> r
                == (text::ascii_lowered(s@) == "success"@
                || text::ascii_lowered(s@) == "failure"@ || text::ascii_lowered(s@) == "killed"@
                || text::ascii_lowered(s@) == "canceled"@ || text::ascii_lowered(s@)
                == "cancelled"@),
            None => !r,
        },
{
    match status {
        Some(s) => {
            let lower: String = lowercase(s.as_str());
            proof {
                if succeeded(text::opt_text(*status)) {
                    lemma_success_is_ascii(s@);
                }
            }
            is_final_status(lower.as_str())
        },
        None => false,
    }
}

/// What is said once a build was triggered.
pub open spec fn triggered_text(number: u64, branch: Seq<char>) -> Seq<char> {
    "触发构建 #"@ + text::decimal(number as nat) + ", 分支 "@ + branch
}

/// Says that a build was triggered.
pub fn triggered_notice(number: u64, branch: &str) -> (r: String)
    ensures
        r@ == triggered_text(number, branch@),
        r@ == "触发构建 #"@ + text::decimal(number as nat) + ", 分支 "@ + branch@,
{
    "触发构建 #".to_owned().concat(text::decimal_text(number).as_str()).concat(", 分支 ").concat(branch)
}

/// What is said once a build has ended.
pub open spec fn ended_text(build: BuildView) -> Seq<char> {
    "构建 #"@ + text::decimal(build.number as nat) + " 结束，状态："@ + build.status_text()
}

/// Says that a build has ended.
pub fn ended_report(build: &BuildResponse) -> (r: String)
    ensures
        r@ == ended_text(build@),
        r@ == "构建 #"@ + text::decimal(build.number as nat) + " 结束，状态："@ + (match build.status {
            Some(status) => status@,
            None => "unknown"@,
        }),
{
    "构建 #".to_owned().concat(text::decimal_text(build.number).as_str()).concat(
        " 结束，状态：",
    ).concat(build.status_text().as_str())
}

/// A message for the desktop.
#[derive(Debug, PartialEq, Eq)]
pub struct Notice {
    pub summary: String,
    pub body: String,
}

/// Where to look at a build: at the link that the server gives, else at the address of the
/// build on the server.
pub open spec fn build_link(
    build: BuildView,
    base_url: Seq<char>,
    namespace: Seq<char>,
    repo: Seq<char>,
) -> Seq<char> {
    match build.link_url {
        Some(link) => link,
        None => base_url + "/api/repos/"@ + namespace + "/"@ + repo + "/builds/"@ + text::decimal(
            build.number as nat,
        ),
    }
}

/// The headline of the message about a build that has ended.
pub open spec fn notice_summary(build: BuildView) -> Seq<char> {
    "Drone 构建 "@ + build.status_text()
}

/// The text of the message about a build that has ended.
pub open spec fn notice_body(
    build: BuildView,
    base_url: Seq<char>,
    namespace: Seq<char>,
    repo: Seq<char>,
) -> Seq<char> {
    namespace + "/"@ + repo + " #"@ + text::decimal(build.number as nat) + ", status: "@
        + build.status_text() + (match build.message {
        Some(message) => "\n"@ + message,
        None => Seq::empty(),
    }) + "\n"@ + build_link(build, base_url, namespace, repo)
}

/// The message for the desktop about a build that has ended.
pub fn build_notice(build: &BuildResponse, config: &Config, ns: &str, repo: &str) -> (r: Notice)
    ensures
        r.summary@ == notice_summary(build@),
        r.body@ == notice_body(build@, config@.base_url, ns@, repo@),
        r.summary@ == "Drone 构建 "@ + (match build.status {
            Some(status) => status@,
            None => "unknown"@,
        }),
        r.body@ == ns@ + "/"@ + repo@ + " #"@ + text::decimal(build.number as nat) + ", status: "@
            + (match build.status {
            Some(status) => status@,
            None => "unknown"@,
        }) + (match build.message {
            Some(message) => "\n"@ + message@,
            None => Seq::empty(),
        }) + "\n"@ + (match build.link_url {
            Some(link) => link@,
            None => config.base_url@ + "/api/repos/"@ + ns@ + "/"@ + repo@ + "/builds/"@
                + text::decimal(build.number as nat),
        }),
{
    let status: String = build.status_text();
    let summary: String = "Drone 构建 ".to_owned().concat(status.as_str());
    let number: String = text::decimal_text(build.number);
    let mut body: String = ns.to_owned().concat("/").concat(repo).concat(" #").concat(
        number.as_str(),
    ).concat(", status: ").concat(status.as_str());
    let ghost head = body@;
    match &build.message {
        Some(message) => {
            body = body.concat("\n").concat(message.as_str());
            assert(body@ =~= head + ("\n"@ + message@));
        },
        None => {
            assert(body@ =~= head + Seq::<char>::empty());
        },
    }
    let link: String = match &build.link_url {
        Some(link) => link.clone(),
        None => config.base_url.clone().concat("/api/repos/").concat(ns).concat("/").concat(
            repo,
        ).concat("/builds/").concat(number.as_str()),
    };
    Notice { summary, body: body.concat("\n").concat(link.as_str()) }
}

/// A build stands for what its fields hold.
pub proof fn law_build_stands_for_its_fields(b: BuildResponse)
    ensures
        b@.number == b.number,
        b@.status == text::opt_text(b.status),
        b@.link_url == text::opt_text(b.link_url),
        b@.message == text::opt_text(b.message),
        b@.after == text::opt_text(b.after),
        b@.git_ref == text::opt_text(b.git_ref),
        b@.source == text::opt_text(b.source),
        b@.target == text::opt_text(b.target),
        b@.author_login == text::opt_text(b.author_login),
        b@.author_name == text::opt_text(b.author_name),
        b@.author_email == text::opt_text(b.author_email),
{
}

/// A build is found for a branch wherever one has the branch as its target or its source,
/// whatever its reference is, or ends its reference with the branch right after a slash; it
/// is that build or one that stands before it.
pub proof fn law_build_of_the_branch_is_found(builds: Seq<BuildView>, branch: Seq<char>, j: int)
    requires
        0 <= j < builds.len(),
        ({
            ||| builds[j].target == Some(branch)
            ||| builds[j].source == Some(branch)
            ||| builds[j].git_ref matches Some(r) && !branch.contains('/') && (r == branch || (
            r.len() > branch.len() && r.skip(r.len() - branch.len()) == branch && r[r.len()
                - branch.len() - 1] == '/'))
        }),
    ensures
        latest_of(builds, branch) matches Some(i) && 0 <= i <= j,
{
    law_latest_build_is_the_first_of_the_branch(builds, branch);
    match builds[j].git_ref {
        Some(r) => text::law_last_part_is_an_end(r, '/', branch),
        None => {},
    }
    assert(builds[j].is_of(branch));
}

/// The build that is found for a branch has the branch as its target or its source, or ends
/// its reference with it right after a slash.
pub proof fn law_found_build_names_the_branch(builds: Seq<BuildView>, branch: Seq<char>)
    ensures
        latest_of(builds, branch) matches Some(i) ==> 0 <= i < builds.len() && ({
            ||| builds[i].target == Some(branch)
            ||| builds[i].source == Some(branch)
            ||| builds[i].git_ref matches Some(r) && !branch.contains('/') && (r == branch || (
            r.len() > branch.len() && r.skip(r.len() - branch.len()) == branch && r[r.len()
                - branch.len() - 1] == '/'))
        }),
{
    law_latest_build_is_the_first_of_the_branch(builds, branch);
    match latest_of(builds, branch) {
        Some(i) => {
            assert(builds[i].is_of(branch));
            match builds[i].git_ref {
                Some(r) => text::law_last_part_is_an_end(r, '/', branch),
                None => {},
            }
        },
        None => {},
    }
}

/// A preview names the branch and then shows whatever is known of the commit, a line for
/// each: the commit, the message, the author by name or else by login, with the address where
/// there is one, the reference and the link.
pub proof fn law_preview_shows_what_is_known(build: BuildView, branch: Seq<char>)
    ensures
        preview_lines(build, branch) == seq![
            "即将触发分支 "@ + branch + " 的构建，最近找到的 commit 信息："@,
        ] + (match build.after {
            Some(v) => seq!["  commit: "@ + v],
            None => seq![],
        }) + (match build.message {
            Some(v) => seq!["  message: "@ + v],
            None => seq![],
        }) + (match (build.author_name, build.author_login, build.author_email) {
            (Some(name), _, Some(email)) => seq!["  author: "@ + (name + " <"@ + email + ">"@)],
            (Some(name), _, None) => seq!["  author: "@ + name],
            (None, Some(login), Some(email)) => seq![
                "  author: "@ + (login + " <"@ + email + ">"@),
            ],
            (None, Some(login), None) => seq!["  author: "@ + login],
            (None, None, _) => seq![],
        }) + (match build.git_ref {
            Some(v) => seq!["  ref: "@ + v],
            None => seq![],
        }) + (match build.link_url {
            Some(v) => seq!["  link: "@ + v],
            None => seq![],
        }),
{
}

/// A build succeeded exactly when its status is the seven letters of the word, each of them
/// small or capital.
pub proof fn law_success_is_spelt_in_either_case(status: Option<Seq<char>>)
    ensures
        succeeded(status) <==> (status matches Some(s) && s.len() == 7 && forall|i: int|
            0 <= i < 7 ==> (#[trigger] s[i] as int == "success"@[i] as int || s[i] as int
                == "success"@[i] as int - 32)),
{
    reveal_strlit("success");
    match status {
        Some(s) => {
            let spelt = s.len() == 7 && forall|i: int|
                0 <= i < 7 ==> (#[trigger] s[i] as int == "success"@[i] as int || s[i] as int
                    == "success"@[i] as int - 32);
            let lower = text::ascii_lowered(s);
            assert forall|i: int| 0 <= i < 7 implies 97 <= (#[trigger] "success"@[i]) as int
                <= 122 by {
                assert(i == 0 || i == 1 || i == 2 || i == 3 || i == 4 || i == 5 || i == 6);
            }
            if spelt {
                assert forall|i: int| 0 <= i < 7 implies lower[i] == "success"@[i] by {
                    assert(s[i] as int == "success"@[i] as int || s[i] as int == "success"@[i]
                        as int - 32);
                    assert(lower[i] == text::ascii_lower(s[i]));
                }
                assert(lower =~= "success"@);
            }
            if lower == "success"@ {
                assert(lower.len() == s.len());
                assert forall|i: int| 0 <= i < 7 implies (#[trigger] s[i] as int
                    == "success"@[i] as int || s[i] as int == "success"@[i] as int - 32) by {
                    assert(lower[i] == text::ascii_lower(s[i]));
                }
            }
        },
        None => {},
    }
}

/// A text is ASCII exactly when the code of each of its characters is below 128.
pub proof fn law_ascii_is_below_128(s: Seq<char>)
    ensures
        all_ascii(s) <==> forall|i: int| 0 <= i < s.len() ==> (#[trigger] s[i] as u32) < 128,
{
}

/// A build has ended exactly when its status in small letters is one of five words; without a
/// status it has not.
pub proof fn law_builds_end_in_five_states(status: Option<Seq<char>>)
    ensures
        ended(status) <==> (status matches Some(s) && (lowercased(s) == "success"@ || lowercased(s)
            == "failure"@ || lowercased(s) == "killed"@ || lowercased(s) == "canceled"@
            || lowercased(s) == "cancelled"@)),
{
}

/// What is said of a build gives its number and its status as they are.
pub proof fn law_reports_name_the_build(
    build: BuildView,
    branch: Seq<char>,
    base_url: Seq<char>,
    namespace: Seq<char>,
    repo: Seq<char>,
)
    ensures
        triggered_text(build.number, branch) == "触发构建 #"@ + text::decimal(build.number as nat)
            + ", 分支 "@ + branch,
        ({
            let status = match build.status {
                Some(s) => s,
                None => "unknown"@,
            };
            &&& ended_text(build) == "构建 #"@ + text::decimal(build.number as nat) + " 结束，状态："@
                + status
            &&& notice_summary(build) == "Drone 构建 "@ + status
            &&& notice_body(build, base_url, namespace, repo) == namespace + "/"@ + repo + " #"@
                + text::decimal(build.number as nat) + ", status: "@ + status + (
            match build.message {
                Some(message) => "\n"@ + message,
                None => seq![],
            }) + "\n"@ + (match build.link_url {
                Some(link) => link,
                None => base_url + "/api/repos/"@ + namespace + "/"@ + repo + "/builds/"@
                    + text::decimal(build.number as nat),
            })
        }),
{
}

} // verus!
