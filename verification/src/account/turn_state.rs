//! Routing tickets: kept apart by account and model, and read from an envelope
//! that is otherwise opaque.

use crate::account::cookie_lock::{
    gateway_of, is_gateway_number, RoutingCookie, RoutingCookieStatus,
};
use crate::account::provider::ProviderAccount;
use crate::base64_text::{
    decode_url_safe, decode_url_safe_no_pad, url_safe_bytes, url_safe_no_pad_bytes,
};
use crate::text::{
    all_printable, byte_len, byte_length, chars_of, clone_optional, decimal, decimal_text,
    debug_quoted, glue3, has_control, has_prefix, is_all_digits, is_all_printable,
    is_alphanumeric, is_alphanumeric_char, is_control, optional_text, quoted,
    same_optional_text, same_text, signed_decimal, signed_decimal_text, split, split_on,
    starts_with, texts, trim, trimmed, without_prefix,
};
use vstd::prelude::*;
use vstd::string::*;

verus! {

/// A name of a time zone in the IANA database.
pub uninterp spec fn is_zone_name(name: Seq<char>) -> bool;

/// The parser of `chrono_tz::Tz`: whether it knows a time zone of this name.
#[verifier::external_body]
fn knows_zone(name: &str) -> (r: bool)
    ensures
        r == is_zone_name(name@),
{
    name.parse::<chrono_tz::Tz>().is_ok()
}

/// A time zone, by its name.
#[derive(Debug, PartialEq, Eq)]
pub struct TimeZone {
    name: Option<String>,
}

impl TimeZone {
    #[verifier::type_invariant]
    spec fn is_known(self) -> bool {
        match self.name {
            Some(name) => is_zone_name(name@),
            None => true,
        }
    }

    pub closed spec fn zone(self) -> Seq<char> {
        match self.name {
            Some(name) => name@,
            None => "UTC"@,
        }
    }

    pub fn utc() -> (r: TimeZone)
        ensures
            r.zone() == "UTC"@,
    {
        TimeZone { name: None }
    }

    /// The time zone of this name, if there is one.
    pub fn parse(name: &str) -> (r: Option<TimeZone>)
        ensures
            match r {
                Some(zone) => is_zone_name(name@) && zone.zone() == name@,
                None => !is_zone_name(name@),
            },
    {
        if knows_zone(name) {
            Some(TimeZone { name: Some(name.to_owned()) })
        } else {
            None
        }
    }

    pub fn name(&self) -> (r: String)
        ensures
            r@ == self.zone(),
    {
        match &self.name {
            Some(name) => name.clone(),
            None => "UTC".to_owned(),
        }
    }

}

impl Clone for TimeZone {
    fn clone(&self) -> (r: TimeZone)
        ensures
            r == *self,
    {
        proof {
            use_type_invariant(self);
        }
        TimeZone { name: clone_optional(&self.name) }
    }
}

/// What becomes of business requests while there is no ticket.
#[derive(Debug, Clone, Copy, Default, PartialEq, Eq, Structural)]
pub enum MissingTurnStatePolicy {
    #[default]
    Allow,
    Pause,
}

impl MissingTurnStatePolicy {
    pub open spec fn wire(self) -> Seq<char> {
        match self {
            MissingTurnStatePolicy::Allow => "allow"@,
            MissingTurnStatePolicy::Pause => "pause"@,
        }
    }

    /// The name that stored configurations use.
    pub fn wire_name(&self) -> (r: &'static str)
        ensures
            r@ == self.wire(),
    {
        match self {
            MissingTurnStatePolicy::Allow => "allow",
            MissingTurnStatePolicy::Pause => "pause",
        }
    }

    /// The policy of a name; none for a name that is unknown.
    pub fn from_wire(name: &str) -> (r: Option<MissingTurnStatePolicy>)
        ensures
            match r {
                Some(policy) => policy.wire() == name@,
                None => name@ != "allow"@ && name@ != "pause"@,
            },
    {
        if same_text(name, "allow") {
            Some(MissingTurnStatePolicy::Allow)
        } else if same_text(name, "pause") {
            Some(MissingTurnStatePolicy::Pause)
        } else {
            None
        }
    }
}

/// Whether an account can be scheduled for a model: freely, or only while it has
/// a ticket or a routing cookie. The time is in seconds since 1970.
#[derive(Debug, Clone, Copy, Default, PartialEq, Eq, Structural)]
pub enum TurnStateAvailability {
    #[default]
    Optional,
    Required { expires_at: Option<i64> },
}

impl TurnStateAvailability {
    pub open spec fn allowed(self, now: int) -> bool {
        match self {
            TurnStateAvailability::Optional => true,
            TurnStateAvailability::Required { expires_at } => expires_at is Some && now
                < expires_at->0,
        }
    }

    pub fn allows(self, now: i64) -> (r: bool)
        ensures
            r == self.allowed(now as int),
    {
        match self {
            TurnStateAvailability::Optional => true,
            TurnStateAvailability::Required { expires_at } => match expires_at {
                Some(expiry) => now < expiry,
                None => false,
            },
        }
    }
}

/// When a probe stops reading.
#[derive(Debug, Clone, Copy, Default, PartialEq, Eq, Structural)]
pub enum TurnStateStopStrategy {
    #[default]
    Headers,
    FirstOutput,
    Mixed,
}

impl TurnStateStopStrategy {
    pub open spec fn wire(self) -> Seq<char> {
        match self {
            TurnStateStopStrategy::Headers => "headers"@,
            TurnStateStopStrategy::FirstOutput => "first_output"@,
            TurnStateStopStrategy::Mixed => "mixed"@,
        }
    }

    pub fn wire_name(&self) -> (r: &'static str)
        ensures
            r@ == self.wire(),
    {
        match self {
            TurnStateStopStrategy::Headers => "headers",
            TurnStateStopStrategy::FirstOutput => "first_output",
            TurnStateStopStrategy::Mixed => "mixed",
        }
    }

    pub fn from_wire(name: &str) -> (r: Option<TurnStateStopStrategy>)
        ensures
            match r {
                Some(strategy) => strategy.wire() == name@,
                None => name@ != "headers"@ && name@ != "first_output"@ && name@ != "mixed"@,
            },
    {
        if same_text(name, "headers") {
            Some(TurnStateStopStrategy::Headers)
        } else if same_text(name, "first_output") {
            Some(TurnStateStopStrategy::FirstOutput)
        } else if same_text(name, "mixed") {
            Some(TurnStateStopStrategy::Mixed)
        } else {
            None
        }
    }
}

/// How tickets are obtained, kept and replaced for one account and model.
pub struct TurnStateConfig {
    pub enabled: bool,
    pub cookie_lock_enabled: bool,
    pub cookie_refresh_before_seconds: u64,
    pub cookie_gateway_ids: String,
    pub missing_state_policy: MissingTurnStatePolicy,
    /// While business is paused, a change of the model that a ticket is attached
    /// to makes the ticket void.
    pub detect_actual_model: bool,
    pub target_length: usize,
    pub ttl_seconds: u64,
    pub refresh_after_seconds: u64,
    pub retry_seconds: u64,
    pub jitter_seconds: u64,
    pub budget: u32,
    pub idle_seconds: u64,
    pub timezone: TimeZone,
    pub originator: String,
    pub client_version: String,
    pub user_agent: String,
    pub include_account_proxy: bool,
    pub include_direct: bool,
    pub proxy_ids: Vec<String>,
    pub stop_strategy: TurnStateStopStrategy,
    pub feishu_webhook_url: String,
}

impl Default for TurnStateConfig {
    fn default() -> (r: TurnStateConfig)
        ensures
            !r.enabled,
            !r.cookie_lock_enabled,
            r.cookie_refresh_before_seconds == 300,
            r.cookie_gateway_ids@ == Seq::<char>::empty(),
            r.missing_state_policy == MissingTurnStatePolicy::Allow,
            !r.detect_actual_model,
            r.target_length == 292,
            r.ttl_seconds == 3600,
            r.refresh_after_seconds == 120,
            r.retry_seconds == 30,
            r.jitter_seconds == 15,
            r.budget == 40,
            r.idle_seconds == 300,
            r.timezone.zone() == "UTC"@,
            r.originator@ == "codex-tui"@,
            r.client_version@ == "0.154.0"@,
            r.user_agent@ == Seq::<char>::empty(),
            r.include_account_proxy,
            !r.include_direct,
            r.proxy_ids@ == Seq::<String>::empty(),
            r.stop_strategy == TurnStateStopStrategy::Headers,
            r.feishu_webhook_url@ == Seq::<char>::empty(),
    {
        TurnStateConfig {
            enabled: false,
            cookie_lock_enabled: false,
            cookie_refresh_before_seconds: 300,
            cookie_gateway_ids: String::new(),
            missing_state_policy: MissingTurnStatePolicy::Allow,
            detect_actual_model: false,
            target_length: 292,
            ttl_seconds: 3600,
            refresh_after_seconds: 120,
            retry_seconds: 30,
            jitter_seconds: 15,
            budget: 40,
            idle_seconds: 300,
            timezone: TimeZone::utc(),
            originator: "codex-tui".to_owned(),
            client_version: "0.154.0".to_owned(),
            user_agent: String::new(),
            include_account_proxy: true,
            include_direct: false,
            proxy_ids: Vec::new(),
            stop_strategy: TurnStateStopStrategy::Headers,
            feishu_webhook_url: String::new(),
        }
    }
}

/// The identifiers behind a version number: of a pre-release, and of a build.
pub struct VersionTags {
    pub pre: Seq<char>,
    pub build: Seq<char>,
}

/// What `semver::Version::parse` finds behind the numbers of a version, if it
/// accepts the text.
pub uninterp spec fn version_tags(text: Seq<char>) -> Option<VersionTags>;

/// `Version::parse` of the crate `semver`, as far as the identifiers behind the
/// numbers go.
#[verifier::external_body]
fn parse_version(text: &str) -> (r: Option<(String, String)>)
    ensures
        match r {
            Some((pre, build)) => version_tags(text@) == Some(
                VersionTags { pre: pre@, build: build@ },
            ),
            None => version_tags(text@) is None,
        },
{
    semver::Version::parse(text).ok().map(|version| {
        (version.pre.as_str().to_owned(), version.build.as_str().to_owned())
    })
}

/// A released version: numbers and nothing behind them.
pub open spec fn is_release(version: Seq<char>) -> bool {
    version_tags(version) == Some(VersionTags { pre: Seq::empty(), build: Seq::empty() })
}

/// Nothing stands behind the numbers of a version: no pre-release and no build.
pub fn has_no_tags(pre: &str, build: &str) -> (r: bool)
    ensures
        r == (pre@.len() == 0 && build@.len() == 0),
{
    pre.is_empty() && build.is_empty()
}

fn is_release_version(version: &str) -> (r: bool)
    ensures
        r == is_release(version@),
{
    match parse_version(version) {
        Some((pre, build)) => {
            proof {
                if pre@.len() == 0 {
                    assert(pre@ =~= Seq::empty());
                }
                if build@.len() == 0 {
                    assert(build@ =~= Seq::empty());
                }
            }
            has_no_tags(pre.as_str(), build.as_str())
        },
        None => false,
    }
}

/// The parts of a URL.
pub struct UrlView {
    pub scheme: Seq<char>,
    pub host: Option<Seq<char>>,
    pub port: Option<u16>,
    pub username: Seq<char>,
    pub has_password: bool,
    pub has_query: bool,
    pub has_fragment: bool,
    pub path: Seq<char>,
}

/// The parts of a URL, as `url::Url` gives them; the port is that of the scheme
/// where the URL names none.
pub struct UrlParts {
    pub scheme: String,
    pub host: Option<String>,
    pub port: Option<u16>,
    pub username: String,
    pub has_password: bool,
    pub has_query: bool,
    pub has_fragment: bool,
    pub path: String,
}

impl View for UrlParts {
    type V = UrlView;

    open spec fn view(&self) -> UrlView {
        UrlView {
            scheme: self.scheme@,
            host: optional_text(self.host),
            port: self.port,
            username: self.username@,
            has_password: self.has_password,
            has_query: self.has_query,
            has_fragment: self.has_fragment,
            path: self.path@,
        }
    }
}

/// What `url::Url::parse` makes of a text, if it accepts it.
pub uninterp spec fn url_parts(text: Seq<char>) -> Option<UrlView>;

/// `Url::parse` of the crate `url`, with what `scheme`, `host_str`,
/// `port_or_known_default`, `username`, `password`, `query`, `fragment` and `path`
/// say of the result.
#[verifier::external_body]
pub(crate) fn parse_url(text: &str) -> (r: Option<UrlParts>)
    ensures
        match r {
            Some(parts) => url_parts(text@) == Some(parts@),
            None => url_parts(text@) is None,
        },
{
    url::Url::parse(text).ok().map(|url| UrlParts {
        scheme: url.scheme().to_owned(),
        host: url.host_str().map(str::to_owned),
        port: url.port_or_known_default(),
        username: url.username().to_owned(),
        has_password: url.password().is_some(),
        has_query: url.query().is_some(),
        has_fragment: url.fragment().is_some(),
        path: url.path().to_owned(),
    })
}

pub open spec fn is_hook_char(c: char) -> bool {
    is_alphanumeric(c) || c == '-'
}

/// The path of a bot's hook.
pub open spec fn is_hook_path(path: Seq<char>) -> bool {
    let prefix = "/open-apis/bot/v2/hook/"@;
    starts_with(path, prefix) && {
        let id = path.skip(prefix.len() as int);
        id.len() > 0 && forall|i: int| 0 <= i < id.len() ==> is_hook_char(#[trigger] id[i])
    }
}

/// The parts of the address of a bot of the messenger.
pub open spec fn is_hook_url(parts: UrlView) -> bool {
    &&& parts.scheme == "https"@
    &&& parts.host == Some("open.feishu.cn"@) || parts.host == Some("open.larksuite.com"@)
    &&& parts.port == Some(443u16)
    &&& parts.username.len() == 0
    &&& !parts.has_password
    &&& !parts.has_query
    &&& !parts.has_fragment
    &&& is_hook_path(parts.path)
}

/// A text that is the address of a bot of the messenger, and nothing around it.
pub open spec fn is_webhook(value: Seq<char>) -> bool {
    &&& byte_len(value) <= 512
    &&& trim(value) == value
    &&& url_parts(value) is Some
    &&& is_hook_url(url_parts(value)->0)
}

#[verifier::loop_isolation(false)]
fn is_hook_path_text(path: &str) -> (r: bool)
    ensures
        r == is_hook_path(path@),
{
    let id = match without_prefix(path, "/open-apis/bot/v2/hook/") {
        Some(id) => id,
        None => {
            return false;
        },
    };
    let chars = chars_of(id.as_str());
    let mut i: usize = 0;
    while i < chars.len()
        invariant
            i <= chars@.len(),
            forall|j: int| 0 <= j < i ==> is_hook_char(#[trigger] chars@[j]),
        decreases chars@.len() - i,
    {
        if !(is_alphanumeric_char(chars[i]) || chars[i] == '-') {
            assert(!is_hook_char(chars@[i as int]));
            return false;
        }
        i += 1;
    }
    chars.len() > 0
}

/// The rule for an address that was taken apart.
pub fn is_feishu_hook(parts: &UrlParts) -> (r: bool)
    ensures
        r == is_hook_url(parts@),
{
    let host = match &parts.host {
        Some(host) => same_text(host.as_str(), "open.feishu.cn") || same_text(
            host.as_str(),
            "open.larksuite.com",
        ),
        None => false,
    };
    let port = match parts.port {
        Some(port) => port == 443,
        None => false,
    };
    same_text(parts.scheme.as_str(), "https") && host && port && parts.username.as_str().is_empty()
        && !parts.has_password && !parts.has_query && !parts.has_fragment && is_hook_path_text(
        parts.path.as_str(),
    )
}

pub fn valid_feishu_webhook(value: &str) -> (r: bool)
    ensures
        r == is_webhook(value@),
{
    let parts = match parse_url(value) {
        Some(parts) => parts,
        None => {
            return false;
        },
    };
    byte_length(value) <= 512 && same_text(trimmed(value).as_str(), value) && is_feishu_hook(&parts)
}

pub fn clone_texts(list: &Vec<String>) -> (r: Vec<String>)
    ensures
        r@ == list@,
{
    let mut r: Vec<String> = Vec::new();
    let mut i: usize = 0;
    while i < list.len()
        invariant
            i <= list@.len(),
            r@ == list@.take(i as int),
        decreases list@.len() - i,
    {
        r.push(list[i].clone());
        i += 1;
        assert(list@.take(i as int) =~= list@.take(i - 1).push(list@[i - 1]));
    }
    assert(list@.take(list@.len() as int) =~= list@);
    r
}

impl Clone for TurnStateConfig {
    fn clone(&self) -> (r: TurnStateConfig)
        ensures
            r.same_as(*self),
    {
        TurnStateConfig {
            enabled: self.enabled,
            cookie_lock_enabled: self.cookie_lock_enabled,
            cookie_refresh_before_seconds: self.cookie_refresh_before_seconds,
            cookie_gateway_ids: self.cookie_gateway_ids.clone(),
            missing_state_policy: self.missing_state_policy,
            detect_actual_model: self.detect_actual_model,
            target_length: self.target_length,
            ttl_seconds: self.ttl_seconds,
            refresh_after_seconds: self.refresh_after_seconds,
            retry_seconds: self.retry_seconds,
            jitter_seconds: self.jitter_seconds,
            budget: self.budget,
            idle_seconds: self.idle_seconds,
            timezone: self.timezone.clone(),
            originator: self.originator.clone(),
            client_version: self.client_version.clone(),
            user_agent: self.user_agent.clone(),
            include_account_proxy: self.include_account_proxy,
            include_direct: self.include_direct,
            proxy_ids: clone_texts(&self.proxy_ids),
            stop_strategy: self.stop_strategy,
            feishu_webhook_url: self.feishu_webhook_url.clone(),
        }
    }
}

/// The id of a proxy.
pub open spec fn is_proxy_id(id: Seq<char>) -> bool {
    &&& starts_with(id, "proxy_"@)
    &&& byte_len(id) <= 128
    &&& !exists|i: int| 0 <= i < id.len() && is_control(#[trigger] id[i])
}

/// A list of gateway numbers with bars between them; empty is a list too.
pub open spec fn is_gateway_list(ids: Seq<char>) -> bool {
    &&& byte_len(ids) <= 256
    &&& ids.len() == 0 || {
        let numbers = split(ids, '|');
        numbers.len() <= 32 && forall|i: int|
            0 <= i < numbers.len() ==> is_gateway_number(#[trigger] numbers[i])
    }
}

/// A list of gateway numbers that names the gateway of a host.
pub open spec fn names_gateway(ids: Seq<char>, pod: Seq<char>) -> bool {
    ids.len() > 0 && gateway_of(pod) is Some && split(ids, '|').contains(gateway_of(pod)->0)
}

/// A line of text that can stand in a header.
pub open spec fn is_line(text: Seq<char>, most: nat) -> bool {
    byte_len(text) <= most && all_printable(text)
}

impl TurnStateConfig {
    /// The two say the same: their lists of proxies hold the same texts.
    pub open spec fn same_as(self, other: TurnStateConfig) -> bool {
        self == (TurnStateConfig { proxy_ids: self.proxy_ids, ..other }) && self.proxy_ids@
            == other.proxy_ids@
    }

    pub open spec fn valid(self) -> bool {
        &&& 30 <= self.cookie_refresh_before_seconds <= 1800
        &&& 76 <= self.target_length <= 4096
        &&& 60 <= self.ttl_seconds <= 3600
        &&& 30 <= self.refresh_after_seconds < self.ttl_seconds
        &&& 1 <= self.retry_seconds <= 3600
        &&& self.jitter_seconds <= 3600
        &&& 1 <= self.budget <= 100
        &&& 10 <= self.idle_seconds <= 86400
        &&& byte_len(self.client_version@) <= 64
        &&& is_release(self.client_version@)
        &&& trim(self.originator@).len() > 0
        &&& is_line(self.originator@, 128)
        &&& self.user_agent@.len() == 0 || trim(self.user_agent@).len() > 0
        &&& is_line(self.user_agent@, 1024)
        &&& self.include_account_proxy || self.include_direct || self.proxy_ids@.len() > 0
        &&& self.proxy_ids@.len() <= 32
        &&& forall|i: int| 0 <= i < self.proxy_ids@.len() ==> is_proxy_id(
            (#[trigger] self.proxy_ids@[i])@,
        )
        &&& is_gateway_list(self.cookie_gateway_ids@)
        &&& self.feishu_webhook_url@.len() == 0 || is_webhook(self.feishu_webhook_url@)
    }

    fn proxies_are_valid(&self) -> (r: bool)
        ensures
            r == forall|i: int|
                0 <= i < self.proxy_ids@.len() ==> is_proxy_id((#[trigger] self.proxy_ids@[i])@),
    {
        let mut i: usize = 0;
        while i < self.proxy_ids.len()
            invariant
                i <= self.proxy_ids@.len(),
                forall|j: int| 0 <= j < i ==> is_proxy_id((#[trigger] self.proxy_ids@[j])@),
            decreases self.proxy_ids@.len() - i,
        {
            let id = self.proxy_ids[i].as_str();
            if !has_prefix(id, "proxy_") || byte_length(id) > 128 || has_control(id) {
                assert(!is_proxy_id(self.proxy_ids@[i as int]@));
                return false;
            }
            i += 1;
        }
        true
    }

    pub fn is_valid(&self) -> (r: bool)
        ensures
            r == self.valid(),
    {
        let numbers = 30 <= self.cookie_refresh_before_seconds
            && self.cookie_refresh_before_seconds <= 1800 && 76 <= self.target_length
            && self.target_length <= 4096 && 60 <= self.ttl_seconds && self.ttl_seconds <= 3600
            && 30 <= self.refresh_after_seconds && self.refresh_after_seconds < self.ttl_seconds
            && 1 <= self.retry_seconds && self.retry_seconds <= 3600 && self.jitter_seconds <= 3600
            && 1 <= self.budget && self.budget <= 100 && 10 <= self.idle_seconds
            && self.idle_seconds <= 86400;
        let persona = byte_length(self.client_version.as_str()) <= 64 && is_release_version(
            self.client_version.as_str(),
        ) && !trimmed(self.originator.as_str()).as_str().is_empty() && byte_length(
            self.originator.as_str(),
        ) <= 128 && is_all_printable(self.originator.as_str()) && byte_length(
            self.user_agent.as_str(),
        ) <= 1024 && (self.user_agent.as_str().is_empty() || !trimmed(
            self.user_agent.as_str(),
        ).as_str().is_empty()) && is_all_printable(self.user_agent.as_str());
        let exits = (self.include_account_proxy || self.include_direct || self.proxy_ids.len() > 0)
            && self.proxy_ids.len() <= 32 && self.proxies_are_valid();
        numbers && persona && exits && self.cookie_gateway_ids_valid() && (
        self.feishu_webhook_url.as_str().is_empty() || valid_feishu_webhook(
            self.feishu_webhook_url.as_str(),
        ))
    }

    #[verifier::loop_isolation(false)]
    pub fn cookie_gateway_ids_valid(&self) -> (r: bool)
        ensures
            r == is_gateway_list(self.cookie_gateway_ids@),
    {
        let ids = self.cookie_gateway_ids.as_str();
        if byte_length(ids) > 256 {
            return false;
        }
        if ids.is_empty() {
            return true;
        }
        let numbers = split_on(ids, '|');
        let ghost pieces = split(ids@, '|');
        assert(texts(numbers@) == pieces);
        if numbers.len() > 32 {
            return false;
        }
        let mut i: usize = 0;
        while i < numbers.len()
            invariant
                i <= numbers@.len(),
                texts(numbers@) == pieces,
                forall|j: int| 0 <= j < i ==> is_gateway_number(#[trigger] pieces[j]),
            decreases numbers@.len() - i,
        {
            assert(pieces[i as int] == numbers@[i as int]@);
            let number = numbers[i].as_str();
            let length: usize = chars_of(number).len();
            if length == 0 || length > 10 || !is_all_digits(number) {
                assert(!is_gateway_number(pieces[i as int]));
                return false;
            }
            i += 1;
        }
        true
    }

    #[verifier::loop_isolation(false)]
    pub fn allows_cookie_gateway(&self, pod: &str) -> (r: bool)
        ensures
            r == names_gateway(self.cookie_gateway_ids@, pod@),
    {
        let ids = self.cookie_gateway_ids.as_str();
        if ids.is_empty() {
            return false;
        }
        let gateway = match RoutingCookie::gateway_id_from_pod(pod) {
            Some(gateway) => gateway,
            None => {
                return false;
            },
        };
        let numbers = split_on(ids, '|');
        let ghost pieces = split(ids@, '|');
        assert(texts(numbers@) == pieces);
        let mut i: usize = 0;
        while i < numbers.len()
            invariant
                i <= numbers@.len(),
                texts(numbers@) == pieces,
                forall|j: int| 0 <= j < i ==> #[trigger] pieces[j] != gateway@,
            decreases numbers@.len() - i,
        {
            assert(pieces[i as int] == numbers@[i as int]@);
            if same_text(numbers[i].as_str(), gateway.as_str()) {
                assert(pieces.contains(gateway@));
                return true;
            }
            i += 1;
        }
        false
    }

    /// A detached ticket is made void only where business waits for a ticket.
    pub fn revokes_ticket_when_model_detaches(&self) -> (r: bool)
        ensures
            r == (self.detect_actual_model && self.missing_state_policy
                == MissingTurnStatePolicy::Pause),
    {
        self.detect_actual_model && self.missing_state_policy == MissingTurnStatePolicy::Pause
    }
}

/// A ticket: its envelope, and when the upstream issued it.
pub struct TurnStateToken {
    pub value: String,
    pub issued_at: i64,
}

impl Clone for TurnStateToken {
    fn clone(&self) -> (r: TurnStateToken)
        ensures
            r == *self,
    {
        TurnStateToken { value: self.value.clone(), issued_at: self.issued_at }
    }
}

/// The bytes of an envelope, encoded with or without padding.
pub open spec fn envelope_bytes(value: Seq<char>) -> Option<Seq<u8>> {
    match url_safe_bytes(value) {
        Some(bytes) => Some(bytes),
        None => url_safe_no_pad_bytes(value),
    }
}

/// The eight bytes behind the first, the most significant first.
pub open spec fn stamp(bytes: Seq<u8>) -> nat {
    (bytes[1] * 0x100_0000_0000_0000 + bytes[2] * 0x1_0000_0000_0000 + bytes[3] * 0x100_0000_0000
        + bytes[4] * 0x1_0000_0000 + bytes[5] * 0x100_0000 + bytes[6] * 0x1_0000 + bytes[7] * 0x100
        + bytes[8]) as nat
}

/// When the upstream issued a ticket, if the text is the envelope of one.
pub open spec fn issue_time(value: Seq<char>) -> Option<nat> {
    if 76 <= byte_len(value) <= 4096 && envelope_bytes(value) is Some {
        let bytes = envelope_bytes(value)->0;
        if bytes.len() >= 57 && bytes[0] == 0x80 && stamp(bytes) <= i64::MAX {
            Some(stamp(bytes))
        } else {
            None
        }
    } else {
        None
    }
}

/// The issue time in the bytes of an envelope.
pub fn envelope_issue_time(bytes: &Vec<u8>) -> (r: Option<i64>)
    ensures
        match r {
            Some(time) => bytes@.len() >= 57 && bytes@[0] == 0x80 && stamp(bytes@) == time,
            None => bytes@.len() < 57 || bytes@[0] != 0x80 || stamp(bytes@) > i64::MAX,
        },
{
    if bytes.len() < 57 || bytes[0] != 0x80 {
        return None;
    }
    let time: u64 = bytes[1] as u64 * 0x100_0000_0000_0000 + bytes[2] as u64 * 0x1_0000_0000_0000
        + bytes[3] as u64 * 0x100_0000_0000 + bytes[4] as u64 * 0x1_0000_0000 + bytes[5] as u64
        * 0x100_0000 + bytes[6] as u64 * 0x1_0000 + bytes[7] as u64 * 0x100 + bytes[8] as u64;
    if time <= i64::MAX as u64 {
        Some(time as i64)
    } else {
        None
    }
}

impl TurnStateToken {
    /// Reads the envelope. Neither its signature nor how long the upstream will
    /// accept it can be told from it.
    pub fn parse(value: &str) -> (r: Option<TurnStateToken>)
        ensures
            match r {
                Some(token) => token.value@ == value@ && issue_time(value@) == Some(
                    token.issued_at as nat,
                ) && token.issued_at >= 0,
                None => issue_time(value@) is None,
            },
    {
        let length: usize = byte_length(value);
        if length > 4096 || length < 76 {
            return None;
        }
        let bytes = match decode_url_safe(value) {
            Some(bytes) => bytes,
            None => match decode_url_safe_no_pad(value) {
                Some(bytes) => bytes,
                None => {
                    return None;
                },
            },
        };
        match envelope_issue_time(&bytes) {
            Some(issued_at) => Some(TurnStateToken { value: value.to_owned(), issued_at }),
            None => None,
        }
    }

    /// The ticket has an issue time and is younger than the limit.
    pub open spec fn fresh(self, now: int, ttl_seconds: int) -> bool {
        self.issued_at > 0 && 0 <= now - self.issued_at < ttl_seconds
    }

    pub fn is_fresh(&self, now: i64, ttl_seconds: u64) -> (r: bool)
        ensures
            r == self.fresh(now as int, ttl_seconds as int),
    {
        if self.issued_at <= 0 || now < self.issued_at {
            return false;
        }
        let age: i64 = now - self.issued_at;
        (age as u64) < ttl_seconds
    }

    pub fn is_newer_than(&self, issued_at: Option<i64>) -> (r: bool)
        ensures
            r == (issued_at is None || self.issued_at > issued_at->0),
    {
        match issued_at {
            Some(current) => self.issued_at > current,
            None => true,
        }
    }

    /// The ticket for a log, without its envelope.
    pub fn debug_text(&self) -> (r: String)
        ensures
            r@ == "TurnStateToken { length: "@ + decimal(byte_len(self.value@)) + ", issued_at: "@
                + signed_decimal(self.issued_at as int) + " }"@,
    {
        let length: usize = byte_length(self.value.as_str());
        let mut r = glue3(
            "TurnStateToken { length: ",
            decimal_text(length as u128).as_str(),
            ", issued_at: ",
        );
        r.append(signed_decimal_text(self.issued_at).as_str());
        r.append(" }");
        r
    }
}

/// One look at the upstream's tickets, by a probe or a business request.
pub struct TurnStateObservation {
    pub observation_id: Option<String>,
    pub account_id: String,
    pub upstream_account_id: Option<String>,
    pub upstream_user_id: Option<String>,
    pub model: String,
    pub observed_at: i64,
    pub started_at: Option<i64>,
    pub source: String,
    pub request_state_source: Option<String>,
    pub response_source: Option<String>,
    pub probe_trigger: Option<String>,
    pub outcome: String,
    pub http_status: Option<u16>,
    pub token_length: Option<usize>,
    pub issued_at: Option<i64>,
    /// The model that the upstream named in the same answer.
    pub reported_model: Option<String>,
    pub oailb_host: Option<String>,
    pub cookie_issued_at: Option<i64>,
    pub cookie_expires_at: Option<i64>,
    /// The envelope, where it is valid; what is shown of a history leaves it out.
    pub token: Option<String>,
    /// Set where the envelope was left out of what is shown.
    pub has_token: bool,
    pub is_installed: bool,
    pub hunt_attempts: Option<u64>,
    pub hunt_seconds: Option<u64>,
    pub egress: String,
    pub shape: Option<String>,
    pub effort: Option<String>,
    pub elapsed_ms: u64,
    pub probe_id: Option<String>,
    pub stop_mode: Option<String>,
    pub stop_reason: Option<String>,
    /// What the model answered to a probe, cut to a length.
    pub answer: Option<String>,
    /// Whether the answer held what the question expects.
    pub answer_match: Option<bool>,
}

/// What an observation says.
pub struct ObservationView {
    pub observation_id: Option<Seq<char>>,
    pub account_id: Seq<char>,
    pub upstream_account_id: Option<Seq<char>>,
    pub upstream_user_id: Option<Seq<char>>,
    pub model: Seq<char>,
    pub observed_at: i64,
    pub started_at: Option<i64>,
    pub source: Seq<char>,
    pub request_state_source: Option<Seq<char>>,
    pub response_source: Option<Seq<char>>,
    pub probe_trigger: Option<Seq<char>>,
    pub outcome: Seq<char>,
    pub http_status: Option<u16>,
    pub token_length: Option<usize>,
    pub issued_at: Option<i64>,
    pub reported_model: Option<Seq<char>>,
    pub oailb_host: Option<Seq<char>>,
    pub cookie_issued_at: Option<i64>,
    pub cookie_expires_at: Option<i64>,
    pub token: Option<Seq<char>>,
    pub has_token: bool,
    pub is_installed: bool,
    pub hunt_attempts: Option<u64>,
    pub hunt_seconds: Option<u64>,
    pub egress: Seq<char>,
    pub shape: Option<Seq<char>>,
    pub effort: Option<Seq<char>>,
    pub elapsed_ms: u64,
    pub probe_id: Option<Seq<char>>,
    pub stop_mode: Option<Seq<char>>,
    pub stop_reason: Option<Seq<char>>,
    pub answer: Option<Seq<char>>,
    pub answer_match: Option<bool>,
}

impl View for TurnStateObservation {
    type V = ObservationView;

    open spec fn view(&self) -> ObservationView {
        ObservationView {
            observation_id: optional_text(self.observation_id),
            account_id: self.account_id@,
            upstream_account_id: optional_text(self.upstream_account_id),
            upstream_user_id: optional_text(self.upstream_user_id),
            model: self.model@,
            observed_at: self.observed_at,
            started_at: self.started_at,
            source: self.source@,
            request_state_source: optional_text(self.request_state_source),
            response_source: optional_text(self.response_source),
            probe_trigger: optional_text(self.probe_trigger),
            outcome: self.outcome@,
            http_status: self.http_status,
            token_length: self.token_length,
            issued_at: self.issued_at,
            reported_model: optional_text(self.reported_model),
            oailb_host: optional_text(self.oailb_host),
            cookie_issued_at: self.cookie_issued_at,
            cookie_expires_at: self.cookie_expires_at,
            token: optional_text(self.token),
            has_token: self.has_token,
            is_installed: self.is_installed,
            hunt_attempts: self.hunt_attempts,
            hunt_seconds: self.hunt_seconds,
            egress: self.egress@,
            shape: optional_text(self.shape),
            effort: optional_text(self.effort),
            elapsed_ms: self.elapsed_ms,
            probe_id: optional_text(self.probe_id),
            stop_mode: optional_text(self.stop_mode),
            stop_reason: optional_text(self.stop_reason),
            answer: optional_text(self.answer),
            answer_match: self.answer_match,
        }
    }
}

impl Clone for TurnStateObservation {
    fn clone(&self) -> (r: TurnStateObservation)
        ensures
            r == *self,
    {
        TurnStateObservation {
            observation_id: clone_optional(&self.observation_id),
            account_id: self.account_id.clone(),
            upstream_account_id: clone_optional(&self.upstream_account_id),
            upstream_user_id: clone_optional(&self.upstream_user_id),
            model: self.model.clone(),
            observed_at: self.observed_at,
            started_at: self.started_at,
            source: self.source.clone(),
            request_state_source: clone_optional(&self.request_state_source),
            response_source: clone_optional(&self.response_source),
            probe_trigger: clone_optional(&self.probe_trigger),
            outcome: self.outcome.clone(),
            http_status: self.http_status,
            token_length: self.token_length,
            issued_at: self.issued_at,
            reported_model: clone_optional(&self.reported_model),
            oailb_host: clone_optional(&self.oailb_host),
            cookie_issued_at: self.cookie_issued_at,
            cookie_expires_at: self.cookie_expires_at,
            token: clone_optional(&self.token),
            has_token: self.has_token,
            is_installed: self.is_installed,
            hunt_attempts: self.hunt_attempts,
            hunt_seconds: self.hunt_seconds,
            egress: self.egress.clone(),
            shape: clone_optional(&self.shape),
            effort: clone_optional(&self.effort),
            elapsed_ms: self.elapsed_ms,
            probe_id: clone_optional(&self.probe_id),
            stop_mode: clone_optional(&self.stop_mode),
            stop_reason: clone_optional(&self.stop_reason),
            answer: clone_optional(&self.answer),
            answer_match: self.answer_match,
        }
    }
}

/// An optional text as `Debug` shows it.
pub open spec fn debug_optional_text(text: Option<Seq<char>>) -> Seq<char> {
    match text {
        Some(text) => "Some("@ + debug_quoted(text) + ")"@,
        None => "None"@,
    }
}

pub open spec fn debug_optional_number(number: Option<int>) -> Seq<char> {
    match number {
        Some(number) => "Some("@ + signed_decimal(number) + ")"@,
        None => "None"@,
    }
}

fn debug_of_optional_text(text: &Option<String>) -> (r: String)
    ensures
        r@ == debug_optional_text(optional_text(*text)),
{
    match text {
        Some(text) => glue3("Some(", quoted(text.as_str()).as_str(), ")"),
        None => "None".to_owned(),
    }
}

impl TurnStateObservation {
    /// The observation for a log, without ids, answers and envelopes.
    pub fn debug_text(&self) -> (r: String)
        ensures
            r@ == "TurnStateObservation { observation_id: "@ + debug_optional_text(
                optional_text(self.observation_id),
            ) + ", source: "@ + debug_quoted(self.source@) + ", outcome: "@ + debug_quoted(
                self.outcome@,
            ) + ", token_length: "@ + debug_optional_number(
                match self.token_length {
                    Some(length) => Some(length as int),
                    None => None,
                },
            ) + ", issued_at: "@ + debug_optional_number(
                match self.issued_at {
                    Some(time) => Some(time as int),
                    None => None,
                },
            ) + ", .. }"@,
    {
        let mut r = glue3(
            "TurnStateObservation { observation_id: ",
            debug_of_optional_text(&self.observation_id).as_str(),
            ", source: ",
        );
        r.append(quoted(self.source.as_str()).as_str());
        r.append(", outcome: ");
        r.append(quoted(self.outcome.as_str()).as_str());
        r.append(", token_length: ");
        let length = match self.token_length {
            Some(length) => glue3("Some(", decimal_text(length as u128).as_str(), ")"),
            None => "None".to_owned(),
        };
        r.append(length.as_str());
        r.append(", issued_at: ");
        let issued = match self.issued_at {
            Some(time) => glue3("Some(", signed_decimal_text(time).as_str(), ")"),
            None => "None".to_owned(),
        };
        r.append(issued.as_str());
        r.append(", .. }");
        r
    }
}

/// A ticket that was put to use, and what it took to get it.
#[derive(Debug)]
pub struct TurnStateInstallation {
    pub installed_at: i64,
    pub issued_at: i64,
    pub token_length: usize,
    pub source: String,
    pub acquired_at: i64,
    pub attempts: u64,
    pub hunt_seconds: u64,
}

impl Clone for TurnStateInstallation {
    fn clone(&self) -> (r: TurnStateInstallation)
        ensures
            r == *self,
    {
        TurnStateInstallation {
            installed_at: self.installed_at,
            issued_at: self.issued_at,
            token_length: self.token_length,
            source: self.source.clone(),
            acquired_at: self.acquired_at,
            attempts: self.attempts,
            hunt_seconds: self.hunt_seconds,
        }
    }
}

/// The news of an installed ticket. The ticket is the one that is valid now; what
/// is stored of the news holds no envelope.
pub struct TurnStateNotification {
    pub account_id: String,
    pub account_name: String,
    pub model: String,
    pub webhook_url: String,
    pub token: TurnStateToken,
    pub installation: TurnStateInstallation,
    pub previous_installed_at: Option<i64>,
    pub manual: bool,
}

/// All that is kept for one account and model.
pub struct TurnStateBucket {
    pub account_id: String,
    pub upstream_account_id: Option<String>,
    pub upstream_user_id: Option<String>,
    pub model: String,
    pub config: TurnStateConfig,
    pub routing_cookies: Vec<RoutingCookie>,
    pub cookie_override_pod: Option<String>,
    /// With the host it singles out one cookie of the pool.
    pub cookie_override_issued_at: Option<i64>,
    pub current: Option<TurnStateToken>,
    pub current_issued_at: Option<i64>,
    pub current_length: Option<usize>,
    pub candidate: Option<TurnStateToken>,
    pub hunt_attempts: u64,
    pub next_probe_at: Option<i64>,
    pub manual_probe_requested_at: Option<i64>,
    pub manual_override: bool,
    /// The model that the installed ticket was last seen attached to.
    pub attached_model: Option<String>,
}

/// Of two cookies, the one that is to be used before the other: it expires later,
/// or was seen later.
pub open spec fn outlasts(a: RoutingCookie, b: RoutingCookie) -> bool {
    a.expires_at > b.expires_at || (a.expires_at == b.expires_at && a.observed_at >= b.observed_at)
}

impl TurnStateBucket {
    pub open spec fn is_pinned(self, cookie: RoutingCookie) -> bool {
        optional_text(self.cookie_override_pod) == Some(cookie.pod@)
            && self.cookie_override_issued_at == Some(cookie.issued_at)
    }

    pub open spec fn selectable(self, cookie: RoutingCookie) -> bool {
        names_gateway(self.config.cookie_gateway_ids@, cookie.pod@) || self.is_pinned(cookie)
    }

    /// A cookie that requests may carry now.
    pub open spec fn eligible(self, cookie: RoutingCookie, now: int) -> bool {
        &&& cookie.usable(self.model@, now)
        &&& self.selectable(cookie)
        &&& self.cookie_override_pod is None || self.is_pinned(cookie)
    }

    /// The place of the cookie that requests carry: of those that they may carry
    /// the one that expires last, then the one seen last, then the last.
    pub open spec fn chosen_cookie(self, count: int, now: int) -> Option<int>
        decreases count,
    {
        if count <= 0 {
            None
        } else {
            let before = self.chosen_cookie(count - 1, now);
            let last = self.routing_cookies@[count - 1];
            if self.eligible(last, now) && (before is None || outlasts(
                last,
                self.routing_cookies@[before->0],
            )) {
                Some(count - 1)
            } else {
                before
            }
        }
    }

    /// The cookie is about to expire.
    pub open spec fn expires_soon(self, cookie: RoutingCookie, now: int) -> bool {
        cookie.expires_at <= now + (self.config.cookie_refresh_before_seconds as i64)
    }

    /// The place of the cookie that is to be renewed: of those about to expire
    /// the first that expires first.
    pub open spec fn cookie_to_renew(self, count: int, now: int) -> Option<int>
        decreases count,
    {
        if count <= 0 {
            None
        } else {
            let before = self.cookie_to_renew(count - 1, now);
            let last = self.routing_cookies@[count - 1];
            if self.eligible(last, now) && self.expires_soon(last, now) && (before is None
                || last.expires_at < self.routing_cookies@[before->0].expires_at) {
                Some(count - 1)
            } else {
                before
            }
        }
    }

    /// The time until which cookies count as about to expire can be told.
    pub open spec fn renewal_is_in_range(self, now: int) -> bool {
        (exists|i: int|
            0 <= i < self.routing_cookies@.len() && self.eligible(
                #[trigger] self.routing_cookies@[i],
                now,
            )) ==> i64::MIN <= now + (self.config.cookie_refresh_before_seconds as i64) <= i64::MAX
    }

    /// A pin names one cookie: a renewed cookie is another one.
    pub fn cookie_override_matches(&self, cookie: &RoutingCookie) -> (r: bool)
        ensures
            r == self.is_pinned(*cookie),
    {
        let same_pod = match &self.cookie_override_pod {
            Some(pod) => same_text(pod.as_str(), cookie.pod.as_str()),
            None => false,
        };
        let same_time = match self.cookie_override_issued_at {
            Some(time) => time == cookie.issued_at,
            None => false,
        };
        same_pod && same_time
    }

    pub fn cookie_is_selectable(&self, cookie: &RoutingCookie) -> (r: bool)
        ensures
            r == self.selectable(*cookie),
    {
        self.config.allows_cookie_gateway(cookie.pod.as_str()) || self.cookie_override_matches(
            cookie,
        )
    }

    fn is_eligible(&self, cookie: &RoutingCookie, now: i64) -> (r: bool)
        ensures
            r == self.eligible(*cookie, now as int),
    {
        cookie.is_usable(self.model.as_str(), now) && self.cookie_is_selectable(cookie) && (
        self.cookie_override_pod.is_none() || self.cookie_override_matches(cookie))
    }

    /// The cookie that requests carry now.
    pub fn routing_cookie(&self, now: i64) -> (r: Option<&RoutingCookie>)
        ensures
            match self.chosen_cookie(self.routing_cookies@.len() as int, now as int) {
                Some(i) => 0 <= i < self.routing_cookies@.len() && r == Some(
                    &self.routing_cookies@[i],
                ),
                None => r is None,
            },
    {
        let mut best: Option<usize> = None;
        let mut i: usize = 0;
        while i < self.routing_cookies.len()
            invariant
                i <= self.routing_cookies@.len(),
                match best {
                    Some(b) => b < i && self.chosen_cookie(i as int, now as int) == Some(b as int),
                    None => self.chosen_cookie(i as int, now as int) is None,
                },
            decreases self.routing_cookies@.len() - i,
        {
            let cookie = &self.routing_cookies[i];
            if self.is_eligible(cookie, now) {
                match best {
                    Some(b) => {
                        let other = &self.routing_cookies[b];
                        if cookie.expires_at > other.expires_at || (cookie.expires_at
                            == other.expires_at && cookie.observed_at >= other.observed_at) {
                            best = Some(i);
                        }
                    },
                    None => {
                        best = Some(i);
                    },
                }
            }
            i += 1;
        }
        match best {
            Some(b) => Some(&self.routing_cookies[b]),
            None => None,
        }
    }

    /// The cookie that is to be renewed now.
    pub fn renewal_cookie(&self, now: i64) -> (r: Option<&RoutingCookie>)
        requires
            self.renewal_is_in_range(now as int),
        ensures
            match self.cookie_to_renew(self.routing_cookies@.len() as int, now as int) {
                Some(i) => 0 <= i < self.routing_cookies@.len() && r == Some(
                    &self.routing_cookies@[i],
                ),
                None => r is None,
            },
    {
        let mut best: Option<usize> = None;
        let mut i: usize = 0;
        while i < self.routing_cookies.len()
            invariant
                i <= self.routing_cookies@.len(),
                self.renewal_is_in_range(now as int),
                match best {
                    Some(b) => b < i && self.cookie_to_renew(i as int, now as int) == Some(b as int),
                    None => self.cookie_to_renew(i as int, now as int) is None,
                },
            decreases self.routing_cookies@.len() - i,
        {
            let cookie = &self.routing_cookies[i];
            if self.is_eligible(cookie, now) {
                assert(self.eligible(self.routing_cookies@[i as int], now as int));
                let soon: i64 = now + self.config.cookie_refresh_before_seconds as i64;
                if cookie.expires_at <= soon {
                    match best {
                        Some(b) => {
                            if cookie.expires_at < self.routing_cookies[b].expires_at {
                                best = Some(i);
                            }
                        },
                        None => {
                            best = Some(i);
                        },
                    }
                }
            }
            i += 1;
        }
        match best {
            Some(b) => Some(&self.routing_cookies[b]),
            None => None,
        }
    }

    pub fn cookie_renewal_due(&self, now: i64) -> (r: bool)
        requires
            self.renewal_is_in_range(now as int),
        ensures
            r == (self.cookie_to_renew(self.routing_cookies@.len() as int, now as int) is Some),
    {
        self.renewal_cookie(now).is_some()
    }

    /// There is a ticket in use that fits the target and is still fresh.
    pub open spec fn has_installed_token(self, now: int) -> bool {
        self.current is Some && {
            let token = self.current->0;
            &&& self.current_issued_at == Some(token.issued_at)
            &&& byte_len(token.value@) == self.config.target_length
            &&& token.fresh(now, self.config.ttl_seconds as int)
            &&& issue_time(token.value@) == Some(token.issued_at as nat)
        }
    }

    /// The ticket that requests may carry now. A candidate is no ticket yet.
    pub fn installed_token(&self, now: i64) -> (r: Option<&TurnStateToken>)
        ensures
            r is Some == self.has_installed_token(now as int),
            r is Some ==> *r->0 == self.current->0,
    {
        let token = match &self.current {
            Some(token) => token,
            None => {
                return None;
            },
        };
        let recorded = match self.current_issued_at {
            Some(time) => time == token.issued_at,
            None => false,
        };
        if !recorded || byte_length(token.value.as_str()) != self.config.target_length
            || !token.is_fresh(now, self.config.ttl_seconds) {
            return None;
        }
        match TurnStateToken::parse(token.value.as_str()) {
            Some(parsed) => if parsed.issued_at == token.issued_at {
                Some(token)
            } else {
                None
            },
            None => None,
        }
    }

    pub open spec fn is_of_account(self, account: ProviderAccount, model: Seq<char>) -> bool {
        &&& self.account_id@ == account.id@
        &&& self.model@ == model
        &&& optional_text(self.upstream_account_id) == optional_text(account.upstream_account_id)
        &&& optional_text(self.upstream_user_id) == optional_text(account.upstream_user_id)
        &&& account.authentication_kind@ == "oauth"@
    }

    pub fn matches_account(&self, account: &ProviderAccount, model: &str) -> (r: bool)
        ensures
            r == self.is_of_account(*account, model@),
    {
        same_text(self.account_id.as_str(), account.id().as_str()) && same_text(
            self.model.as_str(),
            model,
        ) && same_optional_text(&self.upstream_account_id, &account.upstream_account_id)
            && same_optional_text(&self.upstream_user_id, &account.upstream_user_id) && same_text(
            account.authentication_kind(),
            "oauth",
        )
    }

    /// Until when an account may be scheduled under a ticket or a cookie.
    pub open spec fn scheduled_until(
        self,
        account: ProviderAccount,
        model: Seq<char>,
        now: int,
    ) -> Option<int> {
        let cookie = self.chosen_cookie(self.routing_cookies@.len() as int, now);
        let end = if !self.is_of_account(account, model) {
            None
        } else if self.config.cookie_lock_enabled {
            match cookie {
                Some(i) => Some(self.routing_cookies@[i].expires_at as int),
                None => None,
            }
        } else if self.has_installed_token(now) {
            Some(self.current->0.issued_at + self.config.ttl_seconds)
        } else {
            None
        };
        match end {
            Some(time) if 0 <= time <= i64::MAX => Some(time),
            _ => None,
        }
    }

    pub fn scheduling_availability(&self, account: &ProviderAccount, model: &str, now: i64) -> (r:
        TurnStateAvailability)
        requires
            self.config.missing_state_policy == MissingTurnStatePolicy::Pause
                && !self.config.cookie_lock_enabled && self.is_of_account(*account, model@)
                && self.has_installed_token(now as int) ==> self.current->0.issued_at
                + self.config.ttl_seconds <= u64::MAX,
        ensures
            self.config.missing_state_policy == MissingTurnStatePolicy::Allow ==> r
                == TurnStateAvailability::Optional,
            self.config.missing_state_policy == MissingTurnStatePolicy::Pause ==> (match r {
                TurnStateAvailability::Required { expires_at: Some(time) } => self.scheduled_until(
                    *account,
                    model@,
                    now as int,
                ) == Some(time as int),
                TurnStateAvailability::Required { expires_at: None } => self.scheduled_until(
                    *account,
                    model@,
                    now as int,
                ) is None,
                TurnStateAvailability::Optional => false,
            }),
    {
        if self.config.missing_state_policy == MissingTurnStatePolicy::Allow {
            return TurnStateAvailability::Optional;
        }
        if !self.matches_account(account, model) {
            return TurnStateAvailability::Required { expires_at: None };
        }
        if self.config.cookie_lock_enabled {
            let expires_at: Option<i64> = match self.routing_cookie(now) {
                Some(cookie) => if cookie.expires_at >= 0 {
                    Some(cookie.expires_at)
                } else {
                    None
                },
                None => None,
            };
            return TurnStateAvailability::Required { expires_at };
        }
        let expires_at: Option<i64> = match self.installed_token(now) {
            Some(token) => {
                let end: u64 = token.issued_at as u64 + self.config.ttl_seconds;
                if end <= i64::MAX as u64 {
                    Some(end as i64)
                } else {
                    None
                }
            },
            None => None,
        };
        TurnStateAvailability::Required { expires_at }
    }

    /// Until when an account may be scheduled, or nothing where the end of the
    /// ticket's time is out of range.
    pub fn checked_scheduling_availability(
        &self,
        account: &ProviderAccount,
        model: &str,
        now: i64,
    ) -> (r: Option<TurnStateAvailability>)
        ensures
            r is None == (self.config.missing_state_policy == MissingTurnStatePolicy::Pause
                && !self.config.cookie_lock_enabled && self.is_of_account(*account, model@)
                && self.has_installed_token(now as int) && self.current->0.issued_at
                + self.config.ttl_seconds > u64::MAX),
            self.config.missing_state_policy == MissingTurnStatePolicy::Allow ==> r == Some(
                TurnStateAvailability::Optional,
            ),
            self.config.missing_state_policy == MissingTurnStatePolicy::Pause && r is Some ==> (
            match r->0 {
                TurnStateAvailability::Required { expires_at: Some(time) } => self.scheduled_until(
                    *account,
                    model@,
                    now as int,
                ) == Some(time as int),
                TurnStateAvailability::Required { expires_at: None } => self.scheduled_until(
                    *account,
                    model@,
                    now as int,
                ) is None,
                TurnStateAvailability::Optional => false,
            }),
    {
        if self.config.missing_state_policy == MissingTurnStatePolicy::Pause
            && !self.config.cookie_lock_enabled && self.matches_account(account, model) {
            if let Some(token) = self.installed_token(now) {
                if token.issued_at as u128 + self.config.ttl_seconds as u128 > u64::MAX as u128 {
                    return None;
                }
            }
        }
        Some(self.scheduling_availability(account, model, now))
    }

    pub fn manages_injection(&self) -> (r: bool)
        ensures
            r == (self.config.enabled || self.manual_override || self.current_issued_at is Some
                || self.config.missing_state_policy == MissingTurnStatePolicy::Pause),
    {
        self.config.enabled || self.manual_override || self.current_issued_at.is_some()
            || self.config.missing_state_policy == MissingTurnStatePolicy::Pause
    }
}

/// What is shown of one account and model.
pub struct TurnStateStatus {
    pub account_id: String,
    pub account_name: String,
    pub account_email: Option<String>,
    pub model: String,
    pub config: TurnStateConfig,
    pub token_length: Option<usize>,
    pub issued_at: Option<i64>,
    pub age_seconds: Option<i64>,
    pub active: bool,
    pub has_installed_state: bool,
    pub routing_cookie: Option<RoutingCookieStatus>,
    pub cookie_pool: Vec<RoutingCookieStatus>,
    pub cookie_override_pod: Option<String>,
    pub cookie_override_issued_at: Option<i64>,
    pub business_status: TurnStateBusinessStatus,
    pub account_enabled: bool,
    pub hunt_attempts: u64,
    pub next_probe_at: Option<i64>,
    pub manual_probe_requested_at: Option<i64>,
    pub manual_override: bool,
    pub candidate_issued_at: Option<i64>,
    pub candidate_length: Option<usize>,
    pub observations: Vec<TurnStateObservation>,
    pub installations: Vec<TurnStateInstallation>,
}

/// Whether an account takes business for a model, and if not, why.
#[derive(Debug, Clone, Copy, PartialEq, Eq, Structural)]
pub enum TurnStateBusinessStatus {
    Ready,
    ManualDisabled,
    WaitingForState,
    ModelDenied,
    QuotaExhausted,
    RateLimited,
    AccountError,
}

/// The chosen cookie is the greatest of those that requests may carry: none of
/// them expires later, none that expires with it was seen later, and where both
/// agree it stands last.
pub proof fn the_chosen_cookie_outlasts_the_others(bucket: TurnStateBucket, now: int, other: int)
    requires
        0 <= other < bucket.routing_cookies@.len(),
        bucket.eligible(bucket.routing_cookies@[other], now),
    ensures
        ({
            let cookies = bucket.routing_cookies@;
            let chosen = bucket.chosen_cookie(cookies.len() as int, now);
            &&& chosen is Some
            &&& 0 <= chosen->0 < cookies.len()
            &&& bucket.eligible(cookies[chosen->0], now)
            &&& outlasts(cookies[chosen->0], cookies[other])
            &&& chosen->0 < other ==> !outlasts(cookies[other], cookies[chosen->0])
        }),
{
    longest_among(bucket, now, bucket.routing_cookies@.len() as int, other);
}

proof fn longest_among(bucket: TurnStateBucket, now: int, count: int, other: int)
    requires
        0 <= count <= bucket.routing_cookies@.len(),
    ensures
        ({
            let cookies = bucket.routing_cookies@;
            let chosen = bucket.chosen_cookie(count, now);
            &&& chosen is Some ==> 0 <= chosen->0 < count && bucket.eligible(
                cookies[chosen->0],
                now,
            )
            &&& 0 <= other < count && bucket.eligible(cookies[other], now) ==> {
                &&& chosen is Some
                &&& outlasts(cookies[chosen->0], cookies[other])
                &&& chosen->0 < other ==> !outlasts(cookies[other], cookies[chosen->0])
            }
        }),
    decreases count,
{
    if count > 0 {
        longest_among(bucket, now, count - 1, other);
    }
}

/// The cookie that is renewed is the first of those about to expire: none of them
/// expires earlier, and none that stands before it expires with it.
pub proof fn the_renewed_cookie_expires_first(bucket: TurnStateBucket, now: int, other: int)
    requires
        0 <= other < bucket.routing_cookies@.len(),
        bucket.eligible(bucket.routing_cookies@[other], now),
        bucket.expires_soon(bucket.routing_cookies@[other], now),
    ensures
        ({
            let cookies = bucket.routing_cookies@;
            let renewed = bucket.cookie_to_renew(cookies.len() as int, now);
            &&& renewed is Some
            &&& 0 <= renewed->0 < cookies.len()
            &&& bucket.eligible(cookies[renewed->0], now)
            &&& bucket.expires_soon(cookies[renewed->0], now)
            &&& cookies[renewed->0].expires_at <= cookies[other].expires_at
            &&& other < renewed->0 ==> cookies[renewed->0].expires_at < cookies[other].expires_at
        }),
{
    first_to_expire_among(bucket, now, bucket.routing_cookies@.len() as int, other);
}

proof fn first_to_expire_among(bucket: TurnStateBucket, now: int, count: int, other: int)
    requires
        0 <= count <= bucket.routing_cookies@.len(),
    ensures
        ({
            let cookies = bucket.routing_cookies@;
            let renewed = bucket.cookie_to_renew(count, now);
            &&& renewed is Some ==> 0 <= renewed->0 < count && bucket.eligible(
                cookies[renewed->0],
                now,
            ) && bucket.expires_soon(cookies[renewed->0], now)
            &&& 0 <= other < count && bucket.eligible(cookies[other], now) && bucket.expires_soon(
                cookies[other],
                now,
            ) ==> {
                &&& renewed is Some
                &&& cookies[renewed->0].expires_at <= cookies[other].expires_at
                &&& other < renewed->0 ==> cookies[renewed->0].expires_at
                    < cookies[other].expires_at
            }
        }),
    decreases count,
{
    if count > 0 {
        first_to_expire_among(bucket, now, count - 1, other);
    }
}

/// While a pin is set, requests carry the pinned cookie or none.
pub proof fn a_pin_excludes_other_cookies(bucket: TurnStateBucket, now: int)
    requires
        bucket.cookie_override_pod is Some,
        bucket.chosen_cookie(bucket.routing_cookies@.len() as int, now) is Some,
    ensures
        bucket.is_pinned(
            bucket.routing_cookies@[bucket.chosen_cookie(
                bucket.routing_cookies@.len() as int,
                now,
            )->0],
        ),
{
    longest_among(bucket, now, bucket.routing_cookies@.len() as int, 0);
}

/// A paused account with a ticket in use may be scheduled until the ticket
/// expires by its issue time, whenever it was observed.
pub proof fn a_ticket_lasts_from_its_issue_time(
    bucket: TurnStateBucket,
    account: ProviderAccount,
    now: int,
)
    requires
        !bucket.config.cookie_lock_enabled,
        bucket.is_of_account(account, bucket.model@),
        bucket.has_installed_token(now),
        bucket.current->0.issued_at + bucket.config.ttl_seconds <= i64::MAX,
    ensures
        bucket.scheduled_until(account, bucket.model@, now) == Some(
            bucket.current->0.issued_at + bucket.config.ttl_seconds,
        ),
        now < bucket.current->0.issued_at + bucket.config.ttl_seconds,
{
}

/// No account but the bucket's own, and no other model, is scheduled by its ticket.
pub proof fn a_ticket_serves_its_own_account_only(
    bucket: TurnStateBucket,
    account: ProviderAccount,
    model: Seq<char>,
    now: int,
)
    requires
        bucket.account_id@ != account.id@ || bucket.model@ != model || optional_text(
            bucket.upstream_user_id,
        ) != optional_text(account.upstream_user_id),
    ensures
        bucket.scheduled_until(account, model, now) is None,
{
}

} // verus!
