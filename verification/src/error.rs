//! What can go wrong while a build is chosen, triggered and followed.

use vstd::prelude::*;

verus! {

/// The type is opaque: it only carries the reason why a base address is no URL.
#[verifier::external_type_specification]
#[verifier::external_body]
pub struct ExParseError(url::ParseError);

/// The reasons for which a step cannot be taken.
#[derive(Debug, PartialEq, Eq)]
pub enum Error {
    /// A namespace, repository or branch is blank.
    EmptyTarget,
    /// The account can reach no repository.
    NoRepositories,
    /// None of the recent builds belongs to the branch.
    BranchBuildNotFound(String),
    /// The base address of the server is no URL.
    InvalidBaseUrl(url::ParseError),
    /// The base address of the server, or the address of a request, is longer than a URL can
    /// safely be.
    UrlTooLong,
    /// The clock stands before the start of the Unix epoch.
    ClockBeforeEpoch,
}

/// The message of an error.
pub open spec fn error_message(e: Error) -> Seq<char> {
    match e {
        Error::EmptyTarget => "namespace、repo、branch 不能为空"@,
        Error::NoRepositories => "当前账号没有可选择的仓库"@,
        Error::BranchBuildNotFound(branch) => "未在最近的构建列表中找到分支 "@ + branch@ + " 的记录"@,
        Error::InvalidBaseUrl(_) => "解析 baseUrl 失败"@,
        Error::UrlTooLong => "请求地址过长"@,
        Error::ClockBeforeEpoch => "获取当前时间失败"@,
    }
}

impl Error {
    /// What to tell the user.
    pub fn message(&self) -> (r: String)
        ensures
            r@ == error_message(*self),
            r@ == (match *self {
                Error::EmptyTarget => "namespace、repo、branch 不能为空"@,
                Error::NoRepositories => "当前账号没有可选择的仓库"@,
                Error::BranchBuildNotFound(branch) => "未在最近的构建列表中找到分支 "@ + branch@ + " 的记录"@,
                Error::InvalidBaseUrl(_) => "解析 baseUrl 失败"@,
                Error::UrlTooLong => "请求地址过长"@,
                Error::ClockBeforeEpoch => "获取当前时间失败"@,
            }),
    {
        match self {
            Error::EmptyTarget => "namespace、repo、branch 不能为空".to_owned(),
            Error::NoRepositories => "当前账号没有可选择的仓库".to_owned(),
            Error::BranchBuildNotFound(branch) => {
                "未在最近的构建列表中找到分支 ".to_owned().concat(branch.as_str()).concat(" 的记录")
            },
            Error::InvalidBaseUrl(_) => "解析 baseUrl 失败".to_owned(),
            Error::UrlTooLong => "请求地址过长".to_owned(),
            Error::ClockBeforeEpoch => "获取当前时间失败".to_owned(),
        }
    }
}

} // verus!
