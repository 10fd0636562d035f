//! The requests that are made to the server.

use crate::config::Config;
use crate::error;
use crate::error::Error;
use crate::text;
use url::{ParseError, Url};
use vstd::prelude::*;

verus! {

/// The type is opaque: it carries an address that was parsed.
#[verifier::external_type_specification]
#[verifier::external_body]
pub struct ExUrl(Url);

/// What `Url::parse` makes of a text.
pub uninterp spec fn parsed_url(input: Seq<char>) -> Result<Url, ParseError>;

/// The text of a URL, as `Url::as_str` gives it.
pub uninterp spec fn url_text(url: Url) -> Seq<char>;

/// The path of a URL, as `Url::path` gives it.
pub uninterp spec fn url_path(url: Url) -> Seq<char>;

/// What `Url::set_path` makes of a URL.
pub uninterp spec fn url_at_path(url: Url, path: Seq<char>) -> Url;

/// What a URL becomes when `append_pair` adds a parameter to its query.
pub uninterp spec fn url_with_pair(url: Url, name: Seq<char>, value: Seq<char>) -> Url;

/// The number of bytes that a text takes.
pub open spec fn size(text: Seq<char>) -> nat {
    vstd::utf8::encode_utf8(text).len()
}

/// Whether a URL has room for `extra` more bytes once `dropped` bytes of its text have left
/// it. A URL counts the bytes of its text in 32 bits, and a byte that is taken up becomes at
/// most three characters; the rest is for the characters that separate the parts. The `http`
/// crate takes addresses of at most 65534 bytes, so that a request for which there is no room
/// could not be sent either, unless parts of its path cancel each other.
pub open spec fn has_room(text: Seq<char>, dropped: nat, extra: nat) -> bool {
    &&& size(text) <= u32::MAX
    &&& size(text) + 3 * extra + 16 <= u32::MAX + dropped
}

/// Whether the path of a URL can be replaced by this one.
pub open spec fn takes_path(url: Url, path: Seq<char>) -> bool {
    has_room(url_text(url), size(url_path(url)), size(path))
}

/// Whether a URL can take this parameter.
pub open spec fn takes_pair(url: Url, name: Seq<char>, value: Seq<char>) -> bool {
    has_room(url_text(url), 0, size(name) + size(value))
}

/// `Url::parse`: its result is a function of the text. The call counts characters in 32 bits
/// with a sign, and panics where the count overflows.
pub assume_specification[ Url::parse ](input: &str) -> (r: Result<Url, ParseError>)
    requires
        size(input@) <= i32::MAX,
    ensures
        r == parsed_url(input@),
;

/// `Url::as_str`: its result is a function of the URL.
pub assume_specification[ Url::as_str ](url: &Url) -> (r: &str)
    ensures
        r@ == url_text(*url),
;

/// `Url::path`: its result is a function of the URL.
pub assume_specification[ Url::path ](url: &Url) -> (r: &str)
    ensures
        r@ == url_path(*url),
;

/// `Url::set_path`: the URL that results is a function of the one before and of the path.
/// The call panics where the text of the URL would outgrow its counters.
pub assume_specification[ Url::set_path ](url: &mut Url, path: &str)
    requires
        takes_path(*old(url), path@),
    ensures
        *final(url) == url_at_path(*old(url), path@),
;

/// `append_pair` of the serializer that `Url::query_pairs_mut` gives: the URL that results
/// is a function of the one before, of the name and of the value. The call panics where the
/// text of the URL would outgrow its counters.
#[verifier::external_body]
fn append_pair(url: &mut Url, name: &str, value: &str)
    requires
        takes_pair(*old(url), name@, value@),
    ensures
        *final(url) == url_with_pair(*old(url), name@, value@),
{
    url.query_pairs_mut().append_pair(name, value);
}

/// What is asked of the server.
#[derive(Debug, PartialEq, Eq)]
pub enum Endpoint {
    /// The account that the token belongs to.
    User,
    /// The repositories that the account can reach.
    UserRepos,
    /// The branches of a repository.
    Branches { namespace: String, repo: String },
    /// A new build of a branch.
    Trigger { namespace: String, repo: String, branch: String },
    /// The recent builds of a repository.
    RecentBuilds { namespace: String, repo: String },
    /// One build of a repository.
    Build { namespace: String, repo: String, number: u64 },
}

/// How a request is made.
#[derive(Debug, Clone, Copy, PartialEq, Eq, Structural)]
pub enum Method {
    Get,
    Post,
}

/// A request to the server, with the token that it is made under.
#[derive(Debug, PartialEq, Eq)]
pub struct ApiRequest {
    pub method: Method,
    pub url: String,
    pub token: String,
}

/// What an [`Endpoint`] stands for.
pub enum EndpointView {
    User,
    UserRepos,
    Branches { namespace: Seq<char>, repo: Seq<char> },
    Trigger { namespace: Seq<char>, repo: Seq<char>, branch: Seq<char> },
    RecentBuilds { namespace: Seq<char>, repo: Seq<char> },
    Build { namespace: Seq<char>, repo: Seq<char>, number: u64 },
}

impl View for Endpoint {
    type V = EndpointView;

    open spec fn view(&self) -> EndpointView {
        match *self {
            Endpoint::User => EndpointView::User,
            Endpoint::UserRepos => EndpointView::UserRepos,
            Endpoint::Branches { namespace, repo } => EndpointView::Branches {
                namespace: namespace@,
                repo: repo@,
            },
            Endpoint::Trigger { namespace, repo, branch } => EndpointView::Trigger {
                namespace: namespace@,
                repo: repo@,
                branch: branch@,
            },
            Endpoint::RecentBuilds { namespace, repo } => EndpointView::RecentBuilds {
                namespace: namespace@,
                repo: repo@,
            },
            Endpoint::Build { namespace, repo, number } => EndpointView::Build {
                namespace: namespace@,
                repo: repo@,
                number,
            },
        }
    }
}

/// The part of the path that all builds of a repository have in common.
pub open spec fn builds_path(namespace: Seq<char>, repo: Seq<char>) -> Seq<char> {
    "api/repos/"@ + namespace + "/"@ + repo + "/builds"@
}

impl EndpointView {
    /// The path of the address.
    pub open spec fn address_path(self) -> Seq<char> {
        match self {
            EndpointView::User => "api/user"@,
            EndpointView::UserRepos => "api/user/repos"@,
            EndpointView::Branches { namespace, repo } => "api/repos/"@ + namespace + "/"@ + repo
                + "/branches"@,
            EndpointView::Trigger { namespace, repo, .. } => builds_path(namespace, repo),
            EndpointView::RecentBuilds { namespace, repo } => builds_path(namespace, repo),
            EndpointView::Build { namespace, repo, number } => builds_path(namespace, repo) + "/"@
                + text::decimal(number as nat),
        }
    }

    /// The parameters of the address.
    pub open spec fn address_pairs(self) -> Seq<(Seq<char>, Seq<char>)> {
        match self {
            EndpointView::Trigger { branch, .. } => seq![("branch"@, branch)],
            EndpointView::RecentBuilds { .. } => seq![("page"@, "1"@), ("per_page"@, "50"@)],
            _ => Seq::empty(),
        }
    }

    /// Only what starts a build changes anything on the server.
    pub open spec fn request_method(self) -> Method {
        match self {
            EndpointView::Trigger { .. } => Method::Post,
            _ => Method::Get,
        }
    }
}

/// The address at `path` on the server with this base address.
pub open spec fn placed_url(base: Result<Url, ParseError>, path: Seq<char>) -> Result<Url, Error> {
    match base {
        Ok(url) => if takes_path(url, path) {
            Ok(url_at_path(url, path))
        } else {
            Err(Error::UrlTooLong)
        },
        Err(reason) => Err(Error::InvalidBaseUrl(reason)),
    }
}

/// An address with one more parameter.
pub open spec fn paired_url(
    address: Result<Url, Error>,
    pair: (Seq<char>, Seq<char>),
) -> Result<Url, Error> {
    match address {
        Ok(url) => if takes_pair(url, pair.0, pair.1) {
            Ok(url_with_pair(url, pair.0, pair.1))
        } else {
            Err(Error::UrlTooLong)
        },
        Err(e) => Err(e),
    }
}

/// An address with more parameters, in their order.
pub open spec fn with_pairs(
    address: Result<Url, Error>,
    pairs: Seq<(Seq<char>, Seq<char>)>,
) -> Result<Url, Error>
    decreases pairs.len(),
{
    if pairs.len() == 0 {
        address
    } else {
        paired_url(with_pairs(address, pairs.drop_last()), pairs.last())
    }
}

/// The address of a request to the server with this base address.
pub open spec fn endpoint_url(base: Result<Url, ParseError>, endpoint: EndpointView) -> Result<
    Url,
    Error,
> {
    with_pairs(placed_url(base, endpoint.address_path()), endpoint.address_pairs())
}

fn fits(url: &Url, dropped: u128, extra: u128) -> (r: bool)
    requires
        dropped <= u64::MAX,
        extra <= 2 * u64::MAX,
    ensures
        r == has_room(url_text(*url), dropped as nat, extra as nat),
{
    let taken: u128 = url.as_str().as_bytes().len() as u128;
    taken <= 0xffff_ffff && taken + 3 * extra + 16 <= 0xffff_ffff + dropped
}

fn place(base: Result<Url, ParseError>, path: &str) -> (r: Result<Url, Error>)
    ensures
        r == placed_url(base, path@),
{
    match base {
        Ok(url) => {
            let mut placed: Url = url;
            let dropped: u128 = placed.path().as_bytes().len() as u128;
            if !fits(&placed, dropped, path.as_bytes().len() as u128) {
                return Err(Error::UrlTooLong);
            }
            placed.set_path(path);
            Ok(placed)
        },
        Err(reason) => Err(Error::InvalidBaseUrl(reason)),
    }
}

fn add_pair(address: Result<Url, Error>, name: &str, value: &str) -> (r: Result<Url, Error>)
    ensures
        r == paired_url(address, (name@, value@)),
{
    match address {
        Ok(url) => {
            let mut paired: Url = url;
            let extra: u128 = name.as_bytes().len() as u128 + value.as_bytes().len() as u128;
            if !fits(&paired, 0, extra) {
                return Err(Error::UrlTooLong);
            }
            append_pair(&mut paired, name, value);
            Ok(paired)
        },
        Err(e) => Err(e),
    }
}

fn repo_path(namespace: &str, repo: &str, rest: &str) -> (r: String)
    ensures
        r@ == "api/repos/"@ + namespace@ + "/"@ + repo@ + rest@,
{
    "api/repos/".to_owned().concat(namespace).concat("/").concat(repo).concat(rest)
}

impl Endpoint {
    /// The path of the address.
    pub fn path(&self) -> (r: String)
        ensures
            r@ == self@.address_path(),
            r@ == (match *self {
                Endpoint::User => "api/user"@,
                Endpoint::UserRepos => "api/user/repos"@,
                Endpoint::Branches { namespace, repo } => "api/repos/"@ + namespace@ + "/"@ + repo@
                    + "/branches"@,
                Endpoint::Trigger { namespace, repo, .. } => "api/repos/"@ + namespace@ + "/"@
                    + repo@ + "/builds"@,
                Endpoint::RecentBuilds { namespace, repo } => "api/repos/"@ + namespace@ + "/"@
                    + repo@ + "/builds"@,
                Endpoint::Build { namespace, repo, number } => "api/repos/"@ + namespace@ + "/"@
                    + repo@ + "/builds"@ + "/"@ + text::decimal(number as nat),
            }),
    {
        match self {
            Endpoint::User => "api/user".to_owned(),
            Endpoint::UserRepos => "api/user/repos".to_owned(),
            Endpoint::Branches { namespace, repo } => repo_path(
                namespace.as_str(),
                repo.as_str(),
                "/branches",
            ),
            Endpoint::Trigger { namespace, repo, branch: _ } => repo_path(
                namespace.as_str(),
                repo.as_str(),
                "/builds",
            ),
            Endpoint::RecentBuilds { namespace, repo } => repo_path(
                namespace.as_str(),
                repo.as_str(),
                "/builds",
            ),
            Endpoint::Build { namespace, repo, number } => {
                let builds: String = repo_path(namespace.as_str(), repo.as_str(), "/builds");
                builds.concat("/").concat(text::decimal_text(*number).as_str())
            },
        }
    }

    /// How the request is made.
    pub fn method(&self) -> (r: Method)
        ensures
            r == self@.request_method(),
            r is Post <==> *self is Trigger,
    {
        match self {
            Endpoint::Trigger { namespace: _, repo: _, branch: _ } => Method::Post,
            _ => Method::Get,
        }
    }

    fn url(&self, base: Result<Url, ParseError>) -> (r: Result<Url, Error>)
        ensures
            r == endpoint_url(base, self@),
    {
        let path: String = self.path();
        let placed: Result<Url, Error> = place(base, path.as_str());
        proof {
            reveal_with_fuel(with_pairs, 3);
            let listing = seq![("page"@, "1"@), ("per_page"@, "50"@)];
            assert(listing.drop_last() =~= seq![("page"@, "1"@)]);
            assert(listing.drop_last().drop_last().len() == 0);
        }
        match self {
            Endpoint::Trigger { namespace: _, repo: _, branch } => add_pair(
                placed,
                "branch",
                branch.as_str(),
            ),
            Endpoint::RecentBuilds { namespace: _, repo: _ } => add_pair(
                add_pair(placed, "page", "1"),
                "per_page",
                "50",
            ),
            _ => placed,
        }
    }
}

/// Prepares a request to the server whose base address was parsed with this result. There is
/// an error exactly where that address is no URL or the address of the request grows too
/// long.
pub fn request_at(
    base: Result<Url, ParseError>,
    token: &str,
    endpoint: &Endpoint,
) -> (r: Result<ApiRequest, Error>)
    ensures
        match endpoint_url(base, endpoint@) {
            Ok(url) => r matches Ok(request) && request.method == endpoint@.request_method()
                && request.url@ == url_text(url) && request.token@ == token@,
            Err(e) => r == Err::<ApiRequest, Error>(e),
        },
{
    match endpoint.url(base) {
        Ok(url) => Ok(
            ApiRequest {
                method: endpoint.method(),
                url: url.as_str().to_owned(),
                token: token.to_owned(),
            },
        ),
        Err(e) => Err(e),
    }
}

/// Prepares a request to the configured server, under the configured token. A base address
/// that is too long to be parsed is refused.
pub fn request(config: &Config, endpoint: &Endpoint) -> (r: Result<ApiRequest, Error>)
    ensures
        if size(config@.base_url) > i32::MAX {
            r == Err::<ApiRequest, Error>(Error::UrlTooLong)
        } else {
            match endpoint_url(parsed_url(config@.base_url), endpoint@) {
                Ok(url) => r matches Ok(request) && request.method == endpoint@.request_method()
                    && request.url@ == url_text(url) && request.token@ == config@.token,
                Err(e) => r == Err::<ApiRequest, Error>(e),
            }
        },
{
    if config.base_url.as_str().as_bytes().len() > 0x7fff_ffff {
        return Err(Error::UrlTooLong);
    }
    request_at(Url::parse(config.base_url.as_str()), config.token.as_str(), endpoint)
}

/// What is said when a request cannot be sent.
pub open spec fn sending_failure(endpoint: EndpointView) -> Seq<char> {
    match endpoint {
        EndpointView::User => "请求 /api/user 失败"@,
        EndpointView::UserRepos => "获取账号仓库列表失败"@,
        EndpointView::Branches { .. } => "获取分支列表失败"@,
        EndpointView::Trigger { .. } => "触发构建请求失败"@,
        EndpointView::RecentBuilds { .. } => "获取构建列表失败"@,
        EndpointView::Build { number, .. } => "轮询构建 "@ + text::decimal(number as nat) + " 请求失败"@,
    }
}

/// What is said when the server answers with anything but success.
pub open spec fn status_failure(endpoint: EndpointView) -> Seq<char> {
    match endpoint {
        EndpointView::User => "获取 /api/user 非 2xx 响应"@,
        EndpointView::UserRepos => "获取账号仓库列表非 2xx 响应"@,
        EndpointView::Branches { .. } => "获取分支列表非 2xx 响应"@,
        EndpointView::Trigger { .. } => "触发构建非 2xx 响应"@,
        EndpointView::RecentBuilds { .. } => "获取构建列表非 2xx 响应"@,
        EndpointView::Build { .. } => "轮询构建返回非 2xx"@,
    }
}

/// What is said when the answer of the server cannot be read.
pub open spec fn reading_failure(endpoint: EndpointView) -> Seq<char> {
    match endpoint {
        EndpointView::User => "解析用户响应失败"@,
        EndpointView::UserRepos => "解析账号仓库列表失败"@,
        EndpointView::Branches { .. } => "解析分支列表失败"@,
        EndpointView::Trigger { .. } => "解析构建创建响应失败"@,
        EndpointView::RecentBuilds { .. } => "解析构建列表失败"@,
        EndpointView::Build { .. } => "解析构建状态失败"@,
    }
}

/// What is said when a request cannot be prepared. An address that is too long for a URL is
/// one that cannot be sent: HTTP clients take much shorter ones only.
pub open spec fn preparing_failure(endpoint: EndpointView, error: Error) -> Seq<char> {
    match error {
        Error::UrlTooLong => sending_failure(endpoint),
        _ => error::error_message(error),
    }
}

impl Endpoint {
    /// What to say when the request cannot be sent.
    pub fn sending_failed(&self) -> (r: String)
        ensures
            r@ == sending_failure(self@),
    {
        match self {
            Endpoint::User => "请求 /api/user 失败".to_owned(),
            Endpoint::UserRepos => "获取账号仓库列表失败".to_owned(),
            Endpoint::Branches { namespace: _, repo: _ } => "获取分支列表失败".to_owned(),
            Endpoint::Trigger { namespace: _, repo: _, branch: _ } => "触发构建请求失败".to_owned(),
            Endpoint::RecentBuilds { namespace: _, repo: _ } => "获取构建列表失败".to_owned(),
            Endpoint::Build { namespace: _, repo: _, number } => {
                "轮询构建 ".to_owned().concat(text::decimal_text(*number).as_str()).concat(" 请求失败")
            },
        }
    }

    /// What to say when the request cannot be prepared.
    pub fn preparing_failed(&self, error: &Error) -> (r: String)
        ensures
            r@ == preparing_failure(self@, *error),
    {
        match error {
            Error::UrlTooLong => self.sending_failed(),
            _ => error.message(),
        }
    }

    /// What to say when the server answers with anything but success.
    pub fn status_failed(&self) -> (r: String)
        ensures
            r@ == status_failure(self@),
    {
        match self {
            Endpoint::User => "获取 /api/user 非 2xx 响应".to_owned(),
            Endpoint::UserRepos => "获取账号仓库列表非 2xx 响应".to_owned(),
            Endpoint::Branches { namespace: _, repo: _ } => "获取分支列表非 2xx 响应".to_owned(),
            Endpoint::Trigger { namespace: _, repo: _, branch: _ } => {
                "触发构建非 2xx 响应".to_owned()
            },
            Endpoint::RecentBuilds { namespace: _, repo: _ } => "获取构建列表非 2xx 响应".to_owned(),
            Endpoint::Build { namespace: _, repo: _, number: _ } => "轮询构建返回非 2xx".to_owned(),
        }
    }

    /// What to say when the answer of the server cannot be read.
    pub fn reading_failed(&self) -> (r: String)
        ensures
            r@ == reading_failure(self@),
    {
        match self {
            Endpoint::User => "解析用户响应失败".to_owned(),
            Endpoint::UserRepos => "解析账号仓库列表失败".to_owned(),
            Endpoint::Branches { namespace: _, repo: _ } => "解析分支列表失败".to_owned(),
            Endpoint::Trigger { namespace: _, repo: _, branch: _ } => "解析构建创建响应失败".to_owned(),
            Endpoint::RecentBuilds { namespace: _, repo: _ } => "解析构建列表失败".to_owned(),
            Endpoint::Build { namespace: _, repo: _, number: _ } => "解析构建状态失败".to_owned(),
        }
    }
}

/// A request stands for what its fields hold.
pub proof fn law_endpoints_stand_for_their_fields(
    namespace: String,
    repo: String,
    branch: String,
    number: u64,
)
    ensures
        Endpoint::User@ is User,
        Endpoint::UserRepos@ is UserRepos,
        (Endpoint::Branches { namespace, repo })@ == (EndpointView::Branches {
            namespace: namespace@,
            repo: repo@,
        }),
        (Endpoint::Trigger { namespace, repo, branch })@ == (EndpointView::Trigger {
            namespace: namespace@,
            repo: repo@,
            branch: branch@,
        }),
        (Endpoint::RecentBuilds { namespace, repo })@ == (EndpointView::RecentBuilds {
            namespace: namespace@,
            repo: repo@,
        }),
        (Endpoint::Build { namespace, repo, number })@ == (EndpointView::Build {
            namespace: namespace@,
            repo: repo@,
            number,
        }),
{
}

/// A URL has room as long as it, without what leaves it, with three times the bytes of what it
/// takes up and sixteen more, can be counted in 32 bits.
pub proof fn law_room_is_counted_in_bytes(
    url: Url,
    path: Seq<char>,
    name: Seq<char>,
    value: Seq<char>,
)
    ensures
        size(path) == vstd::utf8::encode_utf8(path).len(),
        takes_path(url, path) <==> vstd::utf8::encode_utf8(url_text(url)).len() <= u32::MAX
            && vstd::utf8::encode_utf8(url_text(url)).len() - vstd::utf8::encode_utf8(
            url_path(url),
        ).len() + 3 * vstd::utf8::encode_utf8(path).len() + 16 <= u32::MAX,
        takes_pair(url, name, value) <==> vstd::utf8::encode_utf8(url_text(url)).len() + 3 * (
        vstd::utf8::encode_utf8(name).len() + vstd::utf8::encode_utf8(value).len()) + 16
            <= u32::MAX,
{
}

/// The account, its repositories, the branches of a repository and a single build are asked
/// for at these paths, without parameters.
pub proof fn law_plain_requests_go_to_their_paths(
    url: Url,
    namespace: Seq<char>,
    repo: Seq<char>,
    number: u64,
)
    ensures
        takes_path(url, "api/user"@) ==> endpoint_url(Ok(url), EndpointView::User) == Ok::<
            Url,
            Error,
        >(url_at_path(url, "api/user"@)),
        takes_path(url, "api/user/repos"@) ==> endpoint_url(Ok(url), EndpointView::UserRepos)
            == Ok::<Url, Error>(url_at_path(url, "api/user/repos"@)),
        ({
            let path = "api/repos/"@ + namespace + "/"@ + repo + "/branches"@;
            takes_path(url, path) ==> endpoint_url(
                Ok(url),
                EndpointView::Branches { namespace, repo },
            ) == Ok::<Url, Error>(url_at_path(url, path))
        }),
        ({
            let path = "api/repos/"@ + namespace + "/"@ + repo + "/builds"@ + "/"@ + text::decimal(
                number as nat,
            );
            takes_path(url, path) ==> endpoint_url(
                Ok(url),
                EndpointView::Build { namespace, repo, number },
            ) == Ok::<Url, Error>(url_at_path(url, path))
        }),
{
}

/// A build is triggered at the path of the repository's builds, with the branch as the only
/// parameter.
pub proof fn law_trigger_carries_the_branch(
    url: Url,
    namespace: Seq<char>,
    repo: Seq<char>,
    branch: Seq<char>,
)
    requires
        takes_path(url, "api/repos/"@ + namespace + "/"@ + repo + "/builds"@),
        takes_pair(
            url_at_path(url, "api/repos/"@ + namespace + "/"@ + repo + "/builds"@),
            "branch"@,
            branch,
        ),
    ensures
        endpoint_url(Ok(url), EndpointView::Trigger { namespace, repo, branch }) == Ok::<
            Url,
            Error,
        >(
            url_with_pair(
                url_at_path(url, "api/repos/"@ + namespace + "/"@ + repo + "/builds"@),
                "branch"@,
                branch,
            ),
        ),
{
    reveal_with_fuel(with_pairs, 2);
    assert(seq![("branch"@, branch)].drop_last().len() == 0);
}

/// The recent builds are the first page of fifty at the path of the repository's builds.
pub proof fn law_recent_builds_are_a_page_of_fifty(url: Url, namespace: Seq<char>, repo: Seq<char>)
    requires
        takes_path(url, "api/repos/"@ + namespace + "/"@ + repo + "/builds"@),
        takes_pair(
            url_at_path(url, "api/repos/"@ + namespace + "/"@ + repo + "/builds"@),
            "page"@,
            "1"@,
        ),
        takes_pair(
            url_with_pair(
                url_at_path(url, "api/repos/"@ + namespace + "/"@ + repo + "/builds"@),
                "page"@,
                "1"@,
            ),
            "per_page"@,
            "50"@,
        ),
    ensures
        endpoint_url(Ok(url), EndpointView::RecentBuilds { namespace, repo }) == Ok::<Url, Error>(
            url_with_pair(
                url_with_pair(
                    url_at_path(url, "api/repos/"@ + namespace + "/"@ + repo + "/builds"@),
                    "page"@,
                    "1"@,
                ),
                "per_page"@,
                "50"@,
            ),
        ),
{
    reveal_with_fuel(with_pairs, 3);
    let pairs = seq![("page"@, "1"@), ("per_page"@, "50"@)];
    assert(pairs.drop_last() =~= seq![("page"@, "1"@)]);
    assert(pairs.drop_last().drop_last().len() == 0);
}

/// Every request to a base address that is no URL is refused, with the reason.
pub proof fn law_invalid_base_url_is_refused(reason: ParseError, endpoint: EndpointView)
    ensures
        endpoint_url(Err(reason), endpoint) == Err::<Url, Error>(Error::InvalidBaseUrl(reason)),
{
    reveal_with_fuel(with_pairs, 3);
}

/// A request is refused as too long where there is no room for its path, or for the branch
/// to build.
pub proof fn law_requests_without_room_are_refused(
    url: Url,
    namespace: Seq<char>,
    repo: Seq<char>,
    branch: Seq<char>,
    endpoint: EndpointView,
)
    ensures
        !takes_path(url, endpoint.address_path()) ==> endpoint_url(Ok(url), endpoint) == Err::<
            Url,
            Error,
        >(Error::UrlTooLong),
        ({
            let at = url_at_path(url, "api/repos/"@ + namespace + "/"@ + repo + "/builds"@);
            !takes_pair(at, "branch"@, branch) ==> endpoint_url(
                Ok(url),
                EndpointView::Trigger { namespace, repo, branch },
            ) == Err::<Url, Error>(Error::UrlTooLong)
        }),
{
    reveal_with_fuel(with_pairs, 3);
    assert(seq![("branch"@, branch)].drop_last().len() == 0);
    let pairs = seq![("page"@, "1"@), ("per_page"@, "50"@)];
    assert(pairs.drop_last() =~= seq![("page"@, "1"@)]);
    assert(pairs.drop_last().drop_last().len() == 0);
    match endpoint {
        EndpointView::Trigger { branch: b, .. } => {
            assert(seq![("branch"@, b)].drop_last().len() == 0);
        },
        _ => {},
    }
}

/// Triggering a build is the only request that posts.
pub proof fn law_only_triggering_posts(endpoint: EndpointView)
    ensures
        endpoint.request_method() is Post <==> endpoint is Trigger,
{
}

/// Each request has its own words for what goes wrong with it; one that is too long is one
/// that cannot be sent.
pub proof fn law_failures_have_their_own_words(
    namespace: Seq<char>,
    repo: Seq<char>,
    branch: Seq<char>,
    number: u64,
    endpoint: EndpointView,
    error: Error,
)
    ensures
        sending_failure(EndpointView::User) == "请求 /api/user 失败"@,
        sending_failure(EndpointView::UserRepos) == "获取账号仓库列表失败"@,
        sending_failure(EndpointView::Branches { namespace, repo }) == "获取分支列表失败"@,
        sending_failure(EndpointView::Trigger { namespace, repo, branch }) == "触发构建请求失败"@,
        sending_failure(EndpointView::RecentBuilds { namespace, repo }) == "获取构建列表失败"@,
        sending_failure(EndpointView::Build { namespace, repo, number }) == "轮询构建 "@
            + text::decimal(number as nat) + " 请求失败"@,
        status_failure(EndpointView::User) == "获取 /api/user 非 2xx 响应"@,
        status_failure(EndpointView::UserRepos) == "获取账号仓库列表非 2xx 响应"@,
        status_failure(EndpointView::Branches { namespace, repo }) == "获取分支列表非 2xx 响应"@,
        status_failure(EndpointView::Trigger { namespace, repo, branch }) == "触发构建非 2xx 响应"@,
        status_failure(EndpointView::RecentBuilds { namespace, repo }) == "获取构建列表非 2xx 响应"@,
        status_failure(EndpointView::Build { namespace, repo, number }) == "轮询构建返回非 2xx"@,
        reading_failure(EndpointView::User) == "解析用户响应失败"@,
        reading_failure(EndpointView::UserRepos) == "解析账号仓库列表失败"@,
        reading_failure(EndpointView::Branches { namespace, repo }) == "解析分支列表失败"@,
        reading_failure(EndpointView::Trigger { namespace, repo, branch }) == "解析构建创建响应失败"@,
        reading_failure(EndpointView::RecentBuilds { namespace, repo }) == "解析构建列表失败"@,
        reading_failure(EndpointView::Build { namespace, repo, number }) == "解析构建状态失败"@,
        preparing_failure(endpoint, Error::UrlTooLong) == sending_failure(endpoint),
        !(error is UrlTooLong) ==> preparing_failure(endpoint, error) == error::error_message(
            error,
        ),
{
}

} // verus!
