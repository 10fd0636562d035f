use drone_notify::api::{request, request_at, ApiRequest, Endpoint, Method};
use drone_notify::clock::{current_unix_timestamp, unix_timestamp_at};
use drone_notify::config::Config;
use drone_notify::error::Error;
use std::time::{Duration, SystemTime, UNIX_EPOCH};
use url::{ParseError, Url};

fn config(base_url: &str) -> Config {
    Config {
        base_url: base_url.to_string(),
        default_namespace: "ns".to_string(),
        default_repo: "repo".to_string(),
        default_branch: "main".to_string(),
        token: "your-drone-token".to_string(),
        verify_ssl: true,
        poll_interval_secs: 3,
        successful_targets: vec![],
    }
}

fn url_of(base_url: &str, endpoint: &Endpoint) -> String {
    request(&config(base_url), endpoint).unwrap().url
}

fn branches() -> Endpoint {
    Endpoint::Branches { namespace: "ns".to_string(), repo: "repo".to_string() }
}

fn trigger(branch: &str) -> Endpoint {
    Endpoint::Trigger {
        namespace: "ns".to_string(),
        repo: "repo".to_string(),
        branch: branch.to_string(),
    }
}

fn recent() -> Endpoint {
    Endpoint::RecentBuilds { namespace: "ns".to_string(), repo: "repo".to_string() }
}

fn one(number: u64) -> Endpoint {
    Endpoint::Build { namespace: "ns".to_string(), repo: "repo".to_string(), number }
}

#[test]
fn each_request_has_its_address() {
    let base = "https://drone.example.com";
    assert_eq!(url_of(base, &Endpoint::User), "https://drone.example.com/api/user");
    assert_eq!(url_of(base, &Endpoint::UserRepos), "https://drone.example.com/api/user/repos");
    assert_eq!(url_of(base, &branches()), "https://drone.example.com/api/repos/ns/repo/branches");
    assert_eq!(
        url_of(base, &trigger("main")),
        "https://drone.example.com/api/repos/ns/repo/builds?branch=main"
    );
    assert_eq!(
        url_of(base, &recent()),
        "https://drone.example.com/api/repos/ns/repo/builds?page=1&per_page=50"
    );
    assert_eq!(url_of(base, &one(12)), "https://drone.example.com/api/repos/ns/repo/builds/12");
}

#[test]
fn the_path_of_the_base_address_is_replaced() {
    assert_eq!(
        url_of("https://example.com:8080/drone", &Endpoint::User),
        "https://example.com:8080/api/user"
    );
    assert_eq!(
        url_of("https://example.com/?x=1#top", &trigger("dev")),
        "https://example.com/api/repos/ns/repo/builds?x=1&branch=dev#top"
    );
}

#[test]
fn parts_of_addresses_are_escaped() {
    let branch = trigger("feature/a b&c=仓");
    assert_eq!(
        url_of("https://e.com", &branch),
        "https://e.com/api/repos/ns/repo/builds?branch=feature%2Fa+b%26c%3D%E4%BB%93"
    );
    let odd = Endpoint::Branches { namespace: "n s".to_string(), repo: "r?".to_string() };
    assert_eq!(url_of("https://e.com", &odd), "https://e.com/api/repos/n%20s/r%3F/branches");
}

#[test]
fn requests_carry_the_token_and_only_the_trigger_posts() {
    for endpoint in [Endpoint::User, Endpoint::UserRepos, branches(), recent(), one(1)] {
        let r = request(&config("http://e.com"), &endpoint).unwrap();
        assert_eq!(r.method, Method::Get);
        assert_eq!(r.token, "your-drone-token");
    }
    assert_eq!(
        request(&config("http://e.com"), &trigger("main")),
        Ok(ApiRequest {
            method: Method::Post,
            url: "http://e.com/api/repos/ns/repo/builds?branch=main".to_string(),
            token: "your-drone-token".to_string(),
        })
    );
}

#[test]
fn a_base_address_that_is_no_url_is_refused() {
    assert_eq!(
        request(&config("https://"), &Endpoint::User),
        Err(Error::InvalidBaseUrl(ParseError::EmptyHost))
    );
    assert_eq!(
        request(&config("drone"), &one(1)),
        Err(Error::InvalidBaseUrl(ParseError::RelativeUrlWithoutBase))
    );
    assert_eq!(Error::InvalidBaseUrl(ParseError::EmptyHost).message(), "解析 baseUrl 失败");
}

#[test]
fn a_parsed_base_address_can_be_used_directly() {
    let r = request_at(Url::parse("http://e.com/x"), "tok", &one(3)).unwrap();
    assert_eq!(r.url, "http://e.com/api/repos/ns/repo/builds/3");
    assert_eq!(r.token, "tok");
    assert_eq!(
        request_at(Err(ParseError::InvalidPort), "tok", &one(3)),
        Err(Error::InvalidBaseUrl(ParseError::InvalidPort))
    );
}

#[test]
fn an_address_that_grows_too_long_is_refused() {
    let long = String::from_utf8(vec![0u8; 1_431_655_760]).unwrap();
    let endpoint = trigger("");
    let refused = request(&config("http://e.com"), &Endpoint::Trigger {
        namespace: "ns".to_string(),
        repo: "repo".to_string(),
        branch: long,
    });
    assert_eq!(refused, Err(Error::UrlTooLong));
    assert_eq!(Error::UrlTooLong.message(), "请求地址过长");
    assert_eq!(endpoint.preparing_failed(&Error::UrlTooLong), "触发构建请求失败");
    assert_eq!(one(8).preparing_failed(&Error::UrlTooLong), "轮询构建 8 请求失败");
    let invalid = Error::InvalidBaseUrl(ParseError::EmptyHost);
    assert_eq!(endpoint.preparing_failed(&invalid), "解析 baseUrl 失败");
}

#[test]
fn a_base_address_that_is_too_long_is_refused() {
    let mut long = config("");
    long.base_url = String::from_utf8(vec![0u8; 0x8000_0000]).unwrap();
    assert_eq!(request(&long, &Endpoint::User), Err(Error::UrlTooLong));
    assert_eq!(Endpoint::User.preparing_failed(&Error::UrlTooLong), "请求 /api/user 失败");
}

#[test]
fn long_names_are_not_refused() {
    let branch = "x".repeat(0x1000_0001);
    let url = url_of("http://e.com", &trigger(&branch));
    assert_eq!(url.len(), "http://e.com/api/repos/ns/repo/builds?branch=".len() + branch.len());
}

#[test]
fn a_long_path_of_the_base_address_does_not_count() {
    let base = format!("http://e.com/{}", "x".repeat(1_000_000));
    assert_eq!(url_of(&base, &Endpoint::User), "http://e.com/api/user");
}

#[test]
fn paths_and_methods_can_be_read_off() {
    assert_eq!(one(7).path(), "api/repos/ns/repo/builds/7");
    assert_eq!(recent().path(), "api/repos/ns/repo/builds");
    assert_eq!(trigger("x").method(), Method::Post);
    assert_eq!(recent().method(), Method::Get);
}

#[test]
fn failures_are_told_apart() {
    assert_eq!(Endpoint::User.sending_failed(), "请求 /api/user 失败");
    assert_eq!(Endpoint::UserRepos.sending_failed(), "获取账号仓库列表失败");
    assert_eq!(branches().sending_failed(), "获取分支列表失败");
    assert_eq!(trigger("x").sending_failed(), "触发构建请求失败");
    assert_eq!(recent().sending_failed(), "获取构建列表失败");
    assert_eq!(one(8).sending_failed(), "轮询构建 8 请求失败");
    assert_eq!(Endpoint::User.status_failed(), "获取 /api/user 非 2xx 响应");
    assert_eq!(Endpoint::UserRepos.status_failed(), "获取账号仓库列表非 2xx 响应");
    assert_eq!(branches().status_failed(), "获取分支列表非 2xx 响应");
    assert_eq!(trigger("x").status_failed(), "触发构建非 2xx 响应");
    assert_eq!(recent().status_failed(), "获取构建列表非 2xx 响应");
    assert_eq!(one(8).status_failed(), "轮询构建返回非 2xx");
    assert_eq!(Endpoint::User.reading_failed(), "解析用户响应失败");
    assert_eq!(Endpoint::UserRepos.reading_failed(), "解析账号仓库列表失败");
    assert_eq!(branches().reading_failed(), "解析分支列表失败");
    assert_eq!(trigger("x").reading_failed(), "解析构建创建响应失败");
    assert_eq!(recent().reading_failed(), "解析构建列表失败");
    assert_eq!(one(8).reading_failed(), "解析构建状态失败");
}

#[test]
fn readings_of_the_clock_become_timestamps() {
    assert_eq!(unix_timestamp_at(UNIX_EPOCH), Ok(0));
    assert_eq!(unix_timestamp_at(UNIX_EPOCH + Duration::from_millis(1783390000999)), Ok(1783390000));
    assert_eq!(unix_timestamp_at(UNIX_EPOCH - Duration::from_secs(1)), Err(Error::ClockBeforeEpoch));
    assert_eq!(Error::ClockBeforeEpoch.message(), "获取当前时间失败");
}

#[test]
fn the_current_timestamp_follows_the_clock() {
    let before = SystemTime::now().duration_since(UNIX_EPOCH).unwrap().as_secs();
    let now = current_unix_timestamp().unwrap();
    let after = SystemTime::now().duration_since(UNIX_EPOCH).unwrap().as_secs();
    assert!(before <= now && now <= after);
}
