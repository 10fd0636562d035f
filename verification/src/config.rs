//! The configuration: what the file holds, what has to be asked for, and what comes of it.

use crate::order;
use crate::target::{RepoTarget, RepoTargetView};
use crate::text;
use vstd::prelude::*;

verus! {

/// The contents of a configuration file, in which any setting may be missing.
#[derive(Debug)]
pub struct ConfigFile {
    pub base_url: Option<String>,
    pub default_namespace: Option<String>,
    pub default_repo: Option<String>,
    pub default_branch: Option<String>,
    pub token: Option<String>,
    pub verify_ssl: Option<bool>,
    pub poll_interval_secs: Option<u64>,
    pub successful_targets: Vec<RepoTarget>,
}

/// What a `ConfigFile` stands for.
#[verifier::ext_equal]
pub struct ConfigFileView {
    pub base_url: Option<Seq<char>>,
    pub default_namespace: Option<Seq<char>>,
    pub default_repo: Option<Seq<char>>,
    pub default_branch: Option<Seq<char>>,
    pub token: Option<Seq<char>>,
    pub verify_ssl: Option<bool>,
    pub poll_interval_secs: Option<u64>,
    pub successful_targets: Seq<RepoTargetView>,
}

impl View for ConfigFile {
    type V = ConfigFileView;

    open spec fn view(&self) -> ConfigFileView {
        ConfigFileView {
            base_url: text::opt_text(self.base_url),
            default_namespace: text::opt_text(self.default_namespace),
            default_repo: text::opt_text(self.default_repo),
            default_branch: text::opt_text(self.default_branch),
            token: text::opt_text(self.token),
            verify_ssl: self.verify_ssl,
            poll_interval_secs: self.poll_interval_secs,
            successful_targets: order::views(self.successful_targets@),
        }
    }
}

/// The settings that a run works with.
#[derive(Debug)]
pub struct Config {
    pub base_url: String,
    pub default_namespace: String,
    pub default_repo: String,
    pub default_branch: String,
    pub token: String,
    pub verify_ssl: bool,
    pub poll_interval_secs: u64,
    pub successful_targets: Vec<RepoTarget>,
}

/// What a `Config` stands for.
#[verifier::ext_equal]
pub struct ConfigView {
    pub base_url: Seq<char>,
    pub default_namespace: Seq<char>,
    pub default_repo: Seq<char>,
    pub default_branch: Seq<char>,
    pub token: Seq<char>,
    pub verify_ssl: bool,
    pub poll_interval_secs: u64,
    pub successful_targets: Seq<RepoTargetView>,
}

impl View for Config {
    type V = ConfigView;

    open spec fn view(&self) -> ConfigView {
        ConfigView {
            base_url: self.base_url@,
            default_namespace: self.default_namespace@,
            default_repo: self.default_repo@,
            default_branch: self.default_branch@,
            token: self.token@,
            verify_ssl: self.verify_ssl,
            poll_interval_secs: self.poll_interval_secs,
            successful_targets: order::views(self.successful_targets@),
        }
    }
}

/// The settings that are texts.
#[derive(Debug, Clone, Copy, PartialEq, Eq)]
pub enum TextField {
    BaseUrl,
    DefaultNamespace,
    DefaultRepo,
    DefaultBranch,
    Token,
}

/// The settings that a run needs.
#[derive(Debug, Clone, Copy, PartialEq, Eq)]
pub enum ConfigField {
    Text(TextField),
    VerifySsl,
    PollIntervalSecs,
}

/// The settings, in the order in which they are asked for.
pub open spec fn config_fields() -> Seq<ConfigField> {
    seq![
        ConfigField::Text(TextField::BaseUrl),
        ConfigField::Text(TextField::DefaultNamespace),
        ConfigField::Text(TextField::DefaultRepo),
        ConfigField::Text(TextField::DefaultBranch),
        ConfigField::Text(TextField::Token),
        ConfigField::VerifySsl,
        ConfigField::PollIntervalSecs,
    ]
}

impl ConfigFileView {
    /// The value of a text setting.
    pub open spec fn text(self, field: TextField) -> Option<Seq<char>> {
        match field {
            TextField::BaseUrl => self.base_url,
            TextField::DefaultNamespace => self.default_namespace,
            TextField::DefaultRepo => self.default_repo,
            TextField::DefaultBranch => self.default_branch,
            TextField::Token => self.token,
        }
    }

    /// Whether a setting has to be asked for: it is missing, or a blank text.
    pub open spec fn lacks(self, field: ConfigField) -> bool {
        match field {
            ConfigField::Text(f) => match self.text(f) {
                Some(value) => text::is_blank(value),
                None => true,
            },
            ConfigField::VerifySsl => self.verify_ssl is None,
            ConfigField::PollIntervalSecs => self.poll_interval_secs is None,
        }
    }

    /// The file with one text setting replaced.
    pub open spec fn with_text(self, field: TextField, value: Seq<char>) -> ConfigFileView {
        match field {
            TextField::BaseUrl => ConfigFileView { base_url: Some(value), ..self },
            TextField::DefaultNamespace => ConfigFileView {
                default_namespace: Some(value),
                ..self
            },
            TextField::DefaultRepo => ConfigFileView { default_repo: Some(value), ..self },
            TextField::DefaultBranch => ConfigFileView { default_branch: Some(value), ..self },
            TextField::Token => ConfigFileView { token: Some(value), ..self },
        }
    }

    /// The settings to work with: there are some exactly when none is missing. The base
    /// address is taken in its clean form.
    pub open spec fn settings(self) -> Option<ConfigView> {
        match (
            self.base_url,
            self.default_namespace,
            self.default_repo,
            self.default_branch,
            self.token,
            self.verify_ssl,
            self.poll_interval_secs,
        ) {
            (
                Some(base_url),
                Some(default_namespace),
                Some(default_repo),
                Some(default_branch),
                Some(token),
                Some(verify_ssl),
                Some(poll_interval_secs),
            ) => Some(
                ConfigView {
                    base_url: cleaned_base_url(base_url),
                    default_namespace,
                    default_repo,
                    default_branch,
                    token,
                    verify_ssl,
                    poll_interval_secs,
                    successful_targets: self.successful_targets,
                },
            ),
            _ => None,
        }
    }
}

/// The contents of a file that does not exist yet.
pub open spec fn empty_file() -> ConfigFileView {
    ConfigFileView {
        base_url: None,
        default_namespace: None,
        default_repo: None,
        default_branch: None,
        token: None,
        verify_ssl: None,
        poll_interval_secs: None,
        successful_targets: Seq::empty(),
    }
}

impl Default for ConfigFile {
    fn default() -> (r: Self)
        ensures
            r@ == empty_file(),
            r.base_url is None,
            r.default_namespace is None,
            r.default_repo is None,
            r.default_branch is None,
            r.token is None,
            r.verify_ssl is None,
            r.poll_interval_secs is None,
            r.successful_targets@.len() == 0,
    {
        let successful_targets: Vec<RepoTarget> = Vec::new();
        assert(order::views(successful_targets@) =~= Seq::empty());
        ConfigFile {
            base_url: None,
            default_namespace: None,
            default_repo: None,
            default_branch: None,
            token: None,
            verify_ssl: None,
            poll_interval_secs: None,
            successful_targets,
        }
    }
}

/// The base address without surrounding white space and trailing slashes, over HTTPS where
/// it names neither HTTP nor HTTPS.
pub open spec fn cleaned_base_url(raw: Seq<char>) -> Seq<char> {
    let bare = text::stripped_end(text::trimmed(raw), '/');
    if text::begins_with(bare, "http://"@) || text::begins_with(bare, "https://"@) {
        bare
    } else {
        "https://"@ + bare
    }
}

/// Brings the base address of the server into its clean form.
pub fn clean_base_url(raw: String) -> (r: String)
    ensures
        r@ == cleaned_base_url(raw@),
{
    let bare: &str = text::strip_end(text::trim(raw.as_str()), '/');
    if text::starts_with(bare, "http://") || text::starts_with(bare, "https://") {
        bare.to_owned()
    } else {
        "https://".to_owned().concat(bare)
    }
}

fn lacks_text(o: &Option<String>) -> (r: bool)
    ensures
        r == (match text::opt_text(*o) {
            Some(value) => text::is_blank(value),
            None => true,
        }),
{
    match o {
        Some(s) => text::blank(s.as_str()),
        None => true,
    }
}

/// A copy of a list of targets.
pub fn copy_targets(targets: &Vec<RepoTarget>) -> (r: Vec<RepoTarget>)
    ensures
        r@ == targets@,
{
    let mut out: Vec<RepoTarget> = Vec::new();
    let mut i: usize = 0;
    while i < targets.len()
        invariant
            i <= targets.len(),
            out@ == targets@.take(i as int),
        decreases targets.len() - i,
    {
        out.push(targets[i].clone());
        assert(targets@.take(i + 1) =~= targets@.take(i as int).push(targets@[i as int]));
        i = i + 1;
    }
    assert(targets@.take(i as int) =~= targets@);
    out
}

impl ConfigFile {
    /// Decides whether a setting has to be asked for.
    pub fn is_missing(&self, field: ConfigField) -> (r: bool)
        ensures
            r == self@.lacks(field),
            r == (match field {
                ConfigField::Text(f) => match (match f {
                    TextField::BaseUrl => self.base_url,
                    TextField::DefaultNamespace => self.default_namespace,
                    TextField::DefaultRepo => self.default_repo,
                    TextField::DefaultBranch => self.default_branch,
                    TextField::Token => self.token,
                }) {
                    Some(value) => text::trimmed(value@).len() == 0,
                    None => true,
                },
                ConfigField::VerifySsl => self.verify_ssl is None,
                ConfigField::PollIntervalSecs => self.poll_interval_secs is None,
            }),
    {
        proof {
            if let ConfigField::Text(f) = field {
                if self@.text(f) is Some {
                    text::law_trimmed_is_empty_iff_blank(self@.text(f)->0);
                }
            }
        }
        match field {
            ConfigField::Text(TextField::BaseUrl) => lacks_text(&self.base_url),
            ConfigField::Text(TextField::DefaultNamespace) => lacks_text(&self.default_namespace),
            ConfigField::Text(TextField::DefaultRepo) => lacks_text(&self.default_repo),
            ConfigField::Text(TextField::DefaultBranch) => lacks_text(&self.default_branch),
            ConfigField::Text(TextField::Token) => lacks_text(&self.token),
            ConfigField::VerifySsl => self.verify_ssl.is_none(),
            ConfigField::PollIntervalSecs => self.poll_interval_secs.is_none(),
        }
    }

    /// The settings that have to be asked for, in the order in which to ask.
    pub fn missing_fields(&self) -> (r: Vec<ConfigField>)
        ensures
            r@ == config_fields().filter(|f: ConfigField| self@.lacks(f)),
    {
        let all: Vec<ConfigField> = vec![
            ConfigField::Text(TextField::BaseUrl),
            ConfigField::Text(TextField::DefaultNamespace),
            ConfigField::Text(TextField::DefaultRepo),
            ConfigField::Text(TextField::DefaultBranch),
            ConfigField::Text(TextField::Token),
            ConfigField::VerifySsl,
            ConfigField::PollIntervalSecs,
        ];
        assert(all@ =~= config_fields());
        let ghost wanted = |f: ConfigField| self@.lacks(f);
        let mut out: Vec<ConfigField> = Vec::new();
        let mut i: usize = 0;
        proof {
            reveal(Seq::filter);
            assert(all@.take(0) =~= Seq::<ConfigField>::empty());
        }
        while i < all.len()
            invariant
                i <= all.len(),
                wanted == (|f: ConfigField| self@.lacks(f)),
                out@ == all@.take(i as int).filter(wanted),
            decreases all.len() - i,
        {
            let field: ConfigField = all[i];
            proof {
                crate::seqs::lemma_filter_push(all@.take(i as int), wanted, field);
                assert(all@.take(i + 1) =~= all@.take(i as int).push(field));
            }
            if self.is_missing(field) {
                out.push(field);
            }
            i = i + 1;
        }
        assert(all@.take(i as int) =~= all@);
        out
    }

    /// Fills in the answer for a text setting.
    pub fn set_text(&mut self, field: TextField, value: String)
        ensures
            final(self)@ == old(self)@.with_text(field, value@),
            final(self).base_url == (if field is BaseUrl {
                Some(value)
            } else {
                old(self).base_url
            }),
            final(self).default_namespace == (if field is DefaultNamespace {
                Some(value)
            } else {
                old(self).default_namespace
            }),
            final(self).default_repo == (if field is DefaultRepo {
                Some(value)
            } else {
                old(self).default_repo
            }),
            final(self).default_branch == (if field is DefaultBranch {
                Some(value)
            } else {
                old(self).default_branch
            }),
            final(self).token == (if field is Token {
                Some(value)
            } else {
                old(self).token
            }),
            final(self).verify_ssl == old(self).verify_ssl,
            final(self).poll_interval_secs == old(self).poll_interval_secs,
            final(self).successful_targets == old(self).successful_targets,
    {
        match field {
            TextField::BaseUrl => {
                self.base_url = Some(value);
            },
            TextField::DefaultNamespace => {
                self.default_namespace = Some(value);
            },
            TextField::DefaultRepo => {
                self.default_repo = Some(value);
            },
            TextField::DefaultBranch => {
                self.default_branch = Some(value);
            },
            TextField::Token => {
                self.token = Some(value);
            },
        }
    }

    /// Fills in the answer whether to verify certificates.
    pub fn set_verify_ssl(&mut self, value: bool)
        ensures
            final(self)@ == (ConfigFileView { verify_ssl: Some(value), ..old(self)@ }),
            final(self).verify_ssl == Some(value),
            final(self).poll_interval_secs == old(self).poll_interval_secs,
            final(self).successful_targets == old(self).successful_targets,
            final(self).base_url == old(self).base_url,
            final(self).default_namespace == old(self).default_namespace,
            final(self).default_repo == old(self).default_repo,
            final(self).default_branch == old(self).default_branch,
            final(self).token == old(self).token,
    {
        self.verify_ssl = Some(value);
    }

    /// Fills in the answer for the polling interval.
    pub fn set_poll_interval_secs(&mut self, value: u64)
        ensures
            final(self)@ == (ConfigFileView { poll_interval_secs: Some(value), ..old(self)@ }),
            final(self).poll_interval_secs == Some(value),
            final(self).verify_ssl == old(self).verify_ssl,
            final(self).successful_targets == old(self).successful_targets,
            final(self).base_url == old(self).base_url,
            final(self).default_namespace == old(self).default_namespace,
            final(self).default_repo == old(self).default_repo,
            final(self).default_branch == old(self).default_branch,
            final(self).token == old(self).token,
    {
        self.poll_interval_secs = Some(value);
    }

    /// The settings to work with, unless one is still missing.
    pub fn config(&self) -> (r: Option<Config>)
        ensures
            match self@.settings() {
                Some(settings) => r matches Some(c) && c@ == settings,
                None => r is None,
            },
            r is Some <==> self.base_url is Some && self.default_namespace is Some
                && self.default_repo is Some && self.default_branch is Some && self.token is Some
                && self.verify_ssl is Some && self.poll_interval_secs is Some,
            r matches Some(c) ==> {
                &&& c.base_url@ == cleaned_base_url(self.base_url->0@)
                &&& c.default_namespace@ == self.default_namespace->0@
                &&& c.default_repo@ == self.default_repo->0@
                &&& c.default_branch@ == self.default_branch->0@
                &&& c.token@ == self.token->0@
                &&& Some(c.verify_ssl) == self.verify_ssl
                &&& Some(c.poll_interval_secs) == self.poll_interval_secs
                &&& c.successful_targets@ == self.successful_targets@
            },
    {
        match (
            text::copy_opt(&self.base_url),
            text::copy_opt(&self.default_namespace),
            text::copy_opt(&self.default_repo),
            text::copy_opt(&self.default_branch),
            text::copy_opt(&self.token),
            self.verify_ssl,
            self.poll_interval_secs,
        ) {
            (
                Some(base_url),
                Some(default_namespace),
                Some(default_repo),
                Some(default_branch),
                Some(token),
                Some(verify_ssl),
                Some(poll_interval_secs),
            ) => Some(
                Config {
                    base_url: clean_base_url(base_url),
                    default_namespace,
                    default_repo,
                    default_branch,
                    token,
                    verify_ssl,
                    poll_interval_secs,
                    successful_targets: copy_targets(&self.successful_targets),
                },
            ),
            _ => None,
        }
    }
}

/// The question that asks for a text setting.
pub open spec fn text_prompt(field: TextField) -> Seq<char> {
    match field {
        TextField::BaseUrl => "Drone baseUrl (例如 https://drone.example.com)"@,
        TextField::DefaultNamespace => "默认 namespace"@,
        TextField::DefaultRepo => "默认 repo"@,
        TextField::DefaultBranch => "默认 branch"@,
        TextField::Token => "Drone token"@,
    }
}

/// The answer that is offered for a text setting.
pub open spec fn text_default(field: TextField) -> Option<Seq<char>> {
    match field {
        TextField::DefaultBranch => Some("main"@),
        _ => None,
    }
}

impl TextField {
    /// The question that asks for this setting.
    pub fn prompt(self) -> (r: String)
        ensures
            r@ == text_prompt(self),
            r@ == (match self {
                TextField::BaseUrl => "Drone baseUrl (例如 https://drone.example.com)"@,
                TextField::DefaultNamespace => "默认 namespace"@,
                TextField::DefaultRepo => "默认 repo"@,
                TextField::DefaultBranch => "默认 branch"@,
                TextField::Token => "Drone token"@,
            }),
    {
        match self {
            TextField::BaseUrl => "Drone baseUrl (例如 https://drone.example.com)".to_owned(),
            TextField::DefaultNamespace => "默认 namespace".to_owned(),
            TextField::DefaultRepo => "默认 repo".to_owned(),
            TextField::DefaultBranch => "默认 branch".to_owned(),
            TextField::Token => "Drone token".to_owned(),
        }
    }

    /// The answer that is offered for this setting.
    pub fn default_answer(self) -> (r: Option<String>)
        ensures
            text::opt_text(r) == text_default(self),
            self is DefaultBranch ==> (r matches Some(answer) && answer@ == "main"@),
            !(self is DefaultBranch) ==> r is None,
    {
        match self {
            TextField::DefaultBranch => Some("main".to_owned()),
            _ => None,
        }
    }
}

/// The answer that is offered when asking whether to verify certificates.
pub const DEFAULT_VERIFY_SSL: bool = true;

/// The number of seconds that is offered as the polling interval.
pub const DEFAULT_POLL_INTERVAL_SECS: u64 = 3;

/// The question whether to verify certificates.
pub fn verify_ssl_prompt() -> (r: String)
    ensures
        r@ == "验证 SSL 证书？(Yes 验证 / No 跳过验证)"@,
{
    "验证 SSL 证书？(Yes 验证 / No 跳过验证)".to_owned()
}

/// The question for the polling interval.
pub fn poll_interval_prompt() -> (r: String)
    ensures
        r@ == "轮询间隔秒数"@,
{
    "轮询间隔秒数".to_owned()
}

/// The configuration file that the environment names, if it names one.
pub open spec fn named_config_path(variable: Option<Seq<char>>) -> Option<Seq<char>> {
    match variable {
        Some(path) => if text::is_blank(path) {
            None
        } else {
            Some(text::trimmed(path))
        },
        None => None,
    }
}

/// Decides which configuration file the value of the environment variable names. There is
/// none where the variable is unset or blank: the file beside the program is meant then.
pub fn config_path(variable: Option<String>) -> (r: Option<String>)
    ensures
        text::opt_text(r) == named_config_path(text::opt_text(variable)),
        match variable {
            Some(path) => if text::trimmed(path@).len() > 0 {
                r matches Some(named) && named@ == text::trimmed(path@)
            } else {
                r is None
            },
            None => r is None,
        },
{
    proof {
        if variable is Some {
            text::law_trimmed_is_empty_iff_blank(variable->0@);
        }
    }
    match variable {
        Some(path) => {
            if text::blank(path.as_str()) {
                None
            } else {
                Some(text::trim(path.as_str()).to_owned())
            }
        },
        None => None,
    }
}

/// How the connection to the server is set up.
#[derive(Debug, PartialEq, Eq)]
pub struct ClientSettings {
    pub user_agent: String,
    pub timeout_secs: u64,
    pub accept_invalid_certs: bool,
}

/// The connection that a configuration asks for: certificates are not checked exactly when
/// their verification is switched off.
pub fn client_settings(config: &Config) -> (r: ClientSettings)
    ensures
        r.user_agent@ == "drone-cli-helper/0.1"@,
        r.timeout_secs == 30,
        r.accept_invalid_certs == !config@.verify_ssl,
        r.accept_invalid_certs == !config.verify_ssl,
{
    ClientSettings {
        user_agent: "drone-cli-helper/0.1".to_owned(),
        timeout_secs: 30,
        accept_invalid_certs: !config.verify_ssl,
    }
}

/// One answer for each setting.
pub struct Answers {
    pub text: spec_fn(TextField) -> Seq<char>,
    pub verify_ssl: bool,
    pub poll_interval_secs: u64,
}

/// `file` with the given settings filled in from `answers`, one after the other.
pub open spec fn filled(file: ConfigFileView, fields: Seq<ConfigField>, answers: Answers) -> ConfigFileView
    decreases fields.len(),
{
    if fields.len() == 0 {
        file
    } else {
        let before = filled(file, fields.drop_last(), answers);
        match fields.last() {
            ConfigField::Text(f) => before.with_text(f, (answers.text)(f)),
            ConfigField::VerifySsl => ConfigFileView {
                verify_ssl: Some(answers.verify_ssl),
                ..before
            },
            ConfigField::PollIntervalSecs => ConfigFileView {
                poll_interval_secs: Some(answers.poll_interval_secs),
                ..before
            },
        }
    }
}

proof fn lemma_filled(file: ConfigFileView, fields: Seq<ConfigField>, answers: Answers)
    ensures
        ({
            let after = filled(file, fields, answers);
            &&& after.successful_targets == file.successful_targets
            &&& forall|f: TextField| #[trigger]
                after.text(f) == if fields.contains(ConfigField::Text(f)) {
                    Some((answers.text)(f))
                } else {
                    file.text(f)
                }
            &&& after.verify_ssl == if fields.contains(ConfigField::VerifySsl) {
                Some(answers.verify_ssl)
            } else {
                file.verify_ssl
            }
            &&& after.poll_interval_secs == if fields.contains(ConfigField::PollIntervalSecs) {
                Some(answers.poll_interval_secs)
            } else {
                file.poll_interval_secs
            }
        }),
    decreases fields.len(),
{
    if fields.len() > 0 {
        let init = fields.drop_last();
        lemma_filled(file, init, answers);
        assert forall|g: ConfigField| #[trigger] fields.contains(g) == (init.contains(g) || g
            == fields.last()) by {
            if init.contains(g) {
                let k = choose|k: int| 0 <= k < init.len() && init[k] == g;
                assert(fields[k] == g);
            }
            if fields.contains(g) && g != fields.last() {
                let k = choose|k: int| 0 <= k < fields.len() && fields[k] == g;
                assert(init[k] == g);
            }
            assert(fields[fields.len() - 1] == fields.last());
        }
        let before = filled(file, init, answers);
        let after = filled(file, fields, answers);
        assert forall|f: TextField| #[trigger]
            after.text(f) == if fields.contains(ConfigField::Text(f)) {
                Some((answers.text)(f))
            } else {
                file.text(f)
            } by {
            assert(before.text(f) == if init.contains(ConfigField::Text(f)) {
                Some((answers.text)(f))
            } else {
                file.text(f)
            });
        }
        assert(fields.contains(ConfigField::VerifySsl) == (init.contains(ConfigField::VerifySsl)
            || ConfigField::VerifySsl == fields.last()));
    }
}

/// Once every setting that was asked for is answered, whatever the answers, there are
/// settings to work with: each is the answer where it was asked for, and what the file
/// held where it was not. The recorded targets stay as they are.
pub proof fn law_answers_complete_the_file(file: ConfigFileView, answers: Answers)
    ensures
        ({
            let asked = config_fields().filter(|f: ConfigField| file.lacks(f));
            let after = filled(file, asked, answers);
            &&& after.settings() is Some
            &&& after.successful_targets == file.successful_targets
            &&& forall|f: TextField| #[trigger]
                after.text(f) == if file.lacks(ConfigField::Text(f)) {
                    Some((answers.text)(f))
                } else {
                    file.text(f)
                }
            &&& after.verify_ssl == Some(file.verify_ssl.unwrap_or(answers.verify_ssl))
            &&& after.poll_interval_secs == Some(
                file.poll_interval_secs.unwrap_or(answers.poll_interval_secs),
            )
        }),
{
    let wanted = |f: ConfigField| file.lacks(f);
    let asked = config_fields().filter(wanted);
    let after = filled(file, asked, answers);
    lemma_filled(file, asked, answers);
    assert forall|f: ConfigField| #[trigger] asked.contains(f) == file.lacks(f) by {
        broadcast use vstd::seq_lib::group_filter_ensures;

        let all = config_fields();
        assert(all.contains(f)) by {
            match f {
                ConfigField::Text(TextField::BaseUrl) => assert(all[0] == f),
                ConfigField::Text(TextField::DefaultNamespace) => assert(all[1] == f),
                ConfigField::Text(TextField::DefaultRepo) => assert(all[2] == f),
                ConfigField::Text(TextField::DefaultBranch) => assert(all[3] == f),
                ConfigField::Text(TextField::Token) => assert(all[4] == f),
                ConfigField::VerifySsl => assert(all[5] == f),
                ConfigField::PollIntervalSecs => assert(all[6] == f),
            }
        }
        let k = choose|k: int| 0 <= k < all.len() && all[k] == f;
        if wanted(f) {
            assert(wanted(all[k]));
        }
        if asked.contains(f) {
            let j = choose|j: int| 0 <= j < asked.len() && asked[j] == f;
            assert(wanted(asked[j]));
        }
    }
    assert(after.text(TextField::BaseUrl) is Some);
    assert(after.text(TextField::DefaultNamespace) is Some);
    assert(after.text(TextField::DefaultRepo) is Some);
    assert(after.text(TextField::DefaultBranch) is Some);
    assert(after.text(TextField::Token) is Some);
}

/// Where no file exists yet, every setting is asked for.
pub proof fn law_first_run_asks_for_everything()
    ensures
        config_fields().filter(|f: ConfigField| empty_file().lacks(f)) == config_fields(),
{
    let wanted = |f: ConfigField| empty_file().lacks(f);
    reveal_with_fuel(Seq::filter, 8);
    assert(config_fields().filter(wanted) =~= config_fields());
}

/// A clean base address names HTTP or HTTPS.
pub proof fn law_cleaned_base_url_has_scheme(raw: Seq<char>)
    ensures
        text::begins_with(cleaned_base_url(raw), "http://"@) || text::begins_with(
            cleaned_base_url(raw),
            "https://"@,
        ),
{
    let bare = text::stripped_end(text::trimmed(raw), '/');
    assert(("https://"@ + bare).take("https://"@.len() as int) =~= "https://"@);
}

proof fn lemma_stripped_end(s: Seq<char>, c: char)
    ensures
        text::stripped_end(s, c).len() <= s.len(),
        text::stripped_end(s, c) == s.take(text::stripped_end(s, c).len() as int),
        text::stripped_end(s, c).len() > 0 ==> text::stripped_end(s, c).last() != c,
    decreases s.len(),
{
    if s.len() > 0 && s.last() == c {
        let rest = s.drop_last();
        lemma_stripped_end(rest, c);
        let n = text::stripped_end(rest, c).len() as int;
        assert(rest.take(n) =~= s.take(n));
    } else {
        assert(s.take(s.len() as int) =~= s);
    }
}

/// Cleaning a base address a second time changes nothing, provided that something is left
/// of it without its trailing slashes and that this does not end in white space.
pub proof fn law_cleaning_base_url_is_idempotent(raw: Seq<char>)
    requires
        text::stripped_end(text::trimmed(raw), '/').len() > 0,
        !text::is_white_space(text::stripped_end(text::trimmed(raw), '/').last()),
    ensures
        cleaned_base_url(cleaned_base_url(raw)) == cleaned_base_url(raw),
{
    let t = text::trimmed(raw);
    let bare = text::stripped_end(t, '/');
    let clean = cleaned_base_url(raw);
    text::law_trimmed_has_bare_ends(raw);
    lemma_stripped_end(t, '/');
    law_cleaned_base_url_has_scheme(raw);
    reveal_strlit("https://");
    assert(clean.last() == bare.last());
    assert(bare.first() == t.first());
    assert(!text::is_white_space(clean.first()));
    assert(text::trimmed_start(clean) == clean);
    assert(text::trimmed_end(clean) == clean);
    assert(text::stripped_end(clean, '/') == clean);
}

/// A configuration stands for what its fields hold.
pub proof fn law_configurations_stand_for_their_fields(file: ConfigFile, config: Config)
    ensures
        file@.base_url == text::opt_text(file.base_url),
        file@.default_namespace == text::opt_text(file.default_namespace),
        file@.default_repo == text::opt_text(file.default_repo),
        file@.default_branch == text::opt_text(file.default_branch),
        file@.token == text::opt_text(file.token),
        file@.verify_ssl == file.verify_ssl,
        file@.poll_interval_secs == file.poll_interval_secs,
        file@.successful_targets == order::views(file.successful_targets@),
        config@.base_url == config.base_url@,
        config@.default_namespace == config.default_namespace@,
        config@.default_repo == config.default_repo@,
        config@.default_branch == config.default_branch@,
        config@.token == config.token@,
        config@.verify_ssl == config.verify_ssl,
        config@.poll_interval_secs == config.poll_interval_secs,
        config@.successful_targets == order::views(config.successful_targets@),
{
}

/// Settings are asked for in this order: the address, the namespace, the repository, the
/// branch, the token, the certificates, the interval.
pub proof fn law_settings_are_asked_for_in_order()
    ensures
        config_fields() == seq![
            ConfigField::Text(TextField::BaseUrl),
            ConfigField::Text(TextField::DefaultNamespace),
            ConfigField::Text(TextField::DefaultRepo),
            ConfigField::Text(TextField::DefaultBranch),
            ConfigField::Text(TextField::Token),
            ConfigField::VerifySsl,
            ConfigField::PollIntervalSecs,
        ],
{
}

/// A text is asked for exactly where it is missing or nothing is left of it without the white
/// space around it; the certificates and the interval exactly where they are missing.
pub proof fn law_missing_settings_are_asked_for(file: ConfigFileView)
    ensures
        file.lacks(ConfigField::Text(TextField::BaseUrl)) <==> (file.base_url matches Some(t)
            ==> text::trimmed(t).len() == 0),
        file.lacks(ConfigField::Text(TextField::DefaultNamespace)) <==> (
        file.default_namespace matches Some(t) ==> text::trimmed(t).len() == 0),
        file.lacks(ConfigField::Text(TextField::DefaultRepo)) <==> (file.default_repo matches Some(
            t,
        ) ==> text::trimmed(t).len() == 0),
        file.lacks(ConfigField::Text(TextField::DefaultBranch)) <==> (
        file.default_branch matches Some(t) ==> text::trimmed(t).len() == 0),
        file.lacks(ConfigField::Text(TextField::Token)) <==> (file.token matches Some(t)
            ==> text::trimmed(t).len() == 0),
        file.lacks(ConfigField::VerifySsl) <==> file.verify_ssl is None,
        file.lacks(ConfigField::PollIntervalSecs) <==> file.poll_interval_secs is None,
{
    assert forall|t: Seq<char>| #[trigger] text::is_blank(t) <==> text::trimmed(t).len() == 0 by {
        text::law_trimmed_is_empty_iff_blank(t);
    }
}

/// The clean form of a base address is what is left of it without the white space around it
/// and the slashes at its end, behind the scheme of HTTPS unless it begins with one already.
pub proof fn law_base_url_is_cleaned_at_its_ends(raw: Seq<char>, bare: Seq<char>, slashes: Seq<char>)
    requires
        text::trimmed(raw) == bare + slashes,
        forall|i: int| 0 <= i < slashes.len() ==> #[trigger] slashes[i] == '/',
        bare.len() > 0 ==> bare.last() != '/',
    ensures
        (exists|rest: Seq<char>| bare == #[trigger] ("http://"@ + rest)) || (exists|rest: Seq<char>|
            bare == #[trigger] ("https://"@ + rest)) ==> cleaned_base_url(raw) == bare,
        !(exists|rest: Seq<char>| bare == #[trigger] ("http://"@ + rest)) && !(exists|
            rest: Seq<char>,
        |
            bare == #[trigger] ("https://"@ + rest)) ==> cleaned_base_url(raw) == "https://"@
            + bare,
{
    text::law_stripping_drops_the_final_run(bare, slashes, '/');
    text::law_beginnings(bare, "http://"@);
    text::law_beginnings(bare, "https://"@);
}

} // verus!
