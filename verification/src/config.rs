//! Application configuration (from the TOML file) and the runtime settings
//! stored as key/value rows.
use vstd::prelude::*;
use crate::text::{decimal, decimal_spec, text_eq};
use rand::{Rng, SeedableRng};
use crate::toml_doc::{parse_toml, print_toml, set_table_text, toml_parsed, toml_printed, with_table_text};

verus! {

/// Listening address.
#[derive(Debug, Clone)]
pub struct ServerConfig {
    pub host: String,
    pub port: u16,
}

/// Database location.
#[derive(Debug, Clone)]
pub struct DatabaseConfig {
    pub path: String,
}

/// Logging options.
#[derive(Debug, Clone)]
pub struct LoggingConfig {
    pub level: String,
    pub format: String,
    pub file: bool,
    pub file_path: String,
}

/// Token signing options.
#[derive(Debug, Clone)]
pub struct AuthConfig {
    pub jwt_secret: String,
    pub token_expiry_hours: u64,
}

/// The configuration file's contents.
#[derive(Debug, Clone)]
pub struct AppConfig {
    pub server: ServerConfig,
    pub database: DatabaseConfig,
    pub logging: LoggingConfig,
    pub auth: AuthConfig,
}

impl AppConfig {
    /// `host:port` to listen on.
    pub fn server_addr(&self) -> (r: String)
        ensures
            r@ == self.server.host@ + ":"@ + decimal_spec(self.server.port as nat),
    {
        let mut s = self.server.host.clone();
        s.append(":");
        let p = decimal(self.server.port as u64);
        s.append(p.as_str());
        s
    }

    /// The SQLite URL of the database (created when missing).
    pub fn database_url(&self) -> (r: String)
        ensures
            r@ == "sqlite:"@ + self.database.path@ + "?mode=rwc"@,
    {
        let mut s = String::from_str("sqlite:");
        s.append(self.database.path.as_str());
        s.append("?mode=rwc");
        s
    }

    /// Whether a signing secret still has to be generated.
    pub fn needs_jwt_secret(&self) -> (r: bool)
        ensures
            r == (self.auth.jwt_secret@.len() == 0),
    {
        self.auth.jwt_secret.as_str().is_empty()
    }
}

/// The configuration with the command line's port and host, when given, in
/// place of the file's.
pub fn apply_cli_overrides(config: AppConfig, port: Option<u16>, host: Option<String>) -> (r: AppConfig)
    ensures
        r.server.port == match port { Some(p) => p, None => config.server.port },
        r.server.host == match host { Some(h) => h, None => config.server.host },
        r.database == config.database,
        r.logging == config.logging,
        r.auth == config.auth,
{
    let mut config = config;
    match port {
        Some(p) => {
            config.server.port = p;
        },
        None => {},
    }
    match host {
        Some(h) => {
            config.server.host = h;
        },
        None => {},
    }
    config
}

/// Length of a generated signing secret.
pub const SECRET_LEN: usize = 32;

/// Whether a character is an ASCII letter or digit.
pub open spec fn is_alphanumeric(c: char) -> bool {
    ('a' <= c && c <= 'z') || ('A' <= c && c <= 'Z') || ('0' <= c && c <= '9')
}

/// Seeds a `rand::rngs::StdRng` from the operating system
/// (`SeedableRng::try_from_os_rng`) and draws `len` samples of
/// `rand::distr::Alphanumeric` (ASCII letters and digits) as characters;
/// `None` where the operating system gives no random seed. Which characters
/// come out is chance; only their number and kind are stated.
#[verifier::external_body]
fn random_secret(len: usize) -> (r: Option<String>)
    ensures
        r matches Some(s) ==> s@.len() == len && forall|i: int| 0 <= i < s@.len() ==> is_alphanumeric(#[trigger] s@[i]),
{
    let rng = rand::rngs::StdRng::try_from_os_rng().ok()?;
    Some(rng.sample_iter(&rand::distr::Alphanumeric).take(len).map(char::from).collect())
}

/// A fresh signing secret: 32 ASCII letters and digits, or `None` where the
/// operating system gives no randomness.
pub fn generate_jwt_secret() -> (r: Option<String>)
    ensures
        r matches Some(s) ==> s@.len() == SECRET_LEN && forall|i: int| 0 <= i < s@.len() ==> is_alphanumeric(#[trigger] s@[i]),
{
    random_secret(SECRET_LEN)
}

/// The configuration file's text with the new signing secret recorded in
/// it: the document is parsed, the text field `jwt_secret` of its `auth`
/// table is set to `secret` (when it has such a table), and the document is
/// written back; an error met parsing or writing is given as its text.
pub fn config_text_with_secret(content: &str, secret: &str) -> (r: Result<String, String>)
    ensures
        match toml_parsed(content@) {
            Err(e) => r matches Err(x) && x@ == e,
            Ok(d) => match toml_printed(with_table_text(d, "auth"@, "jwt_secret"@, secret@)) {
                Ok(t) => r matches Ok(x) && x@ == t,
                Err(e) => r matches Err(x) && x@ == e,
            },
        },
{
    let doc = match parse_toml(content) {
        Ok(d) => d,
        Err(e) => return Err(e),
    };
    let updated = set_table_text(doc, "auth", "jwt_secret", secret);
    print_toml(updated)
}

/// The configuration signing with `secret`.
pub fn with_jwt_secret(config: AppConfig, secret: String) -> (r: AppConfig)
    ensures
        r.auth.jwt_secret == secret,
        r.auth.token_expiry_hours == config.auth.token_expiry_hours,
        r.server == config.server,
        r.database == config.database,
        r.logging == config.logging,
{
    let mut config = config;
    config.auth.jwt_secret = secret;
    config
}

/// Whether a character is a decimal digit.
pub open spec fn is_digit(c: char) -> bool {
    '0' <= c <= '9'
}

/// Value of a string of decimal digits.
pub open spec fn digits_value(s: Seq<char>) -> nat
    decreases s.len(),
{
    if s.len() == 0 {
        0
    } else {
        digits_value(s.drop_last()) * 10 + ((s.last() as nat) - ('0' as nat)) as nat
    }
}

/// The number an unsigned integer text denotes, as Rust's `FromStr` for
/// unsigned integers reads it: an optional `+`, then at least one digit
/// and nothing else.
pub open spec fn unsigned_value(s: Seq<char>) -> Option<nat> {
    let body = unsigned_body(s);
    if body.len() > 0 && all_digits(body) {
        Some(digits_value(body))
    } else {
        None
    }
}

/// The digits part of an unsigned integer text: without a leading `+`.
pub open spec fn unsigned_body(s: Seq<char>) -> Seq<char> {
    if s.len() > 0 && s[0] == '+' { s.drop_first() } else { s }
}

/// Whether every character is a decimal digit.
pub open spec fn all_digits(s: Seq<char>) -> bool {
    forall|i: int| 0 <= i < s.len() ==> is_digit(#[trigger] s[i])
}

/// `s` parsed as an unsigned integer no greater than `max`.
pub open spec fn parsed_unsigned(s: Seq<char>, max: u64) -> Option<u64> {
    match unsigned_value(s) {
        Some(v) => if v <= max { Some(v as u64) } else { None },
        None => None,
    }
}

/// Parses `s` as an unsigned integer no greater than `max`.
pub fn parse_unsigned(s: &str, max: u64) -> (r: Option<u64>)
    ensures
        r == parsed_unsigned(s@, max),
{
    let n = s.unicode_len();
    let start: usize = if n > 0 && s.get_char(0) == '+' { 1 } else { 0 };
    let ghost body = unsigned_body(s@);
    assert(body =~= s@.subrange(start as int, n as int));
    if start >= n {
        return None;
    }
    let mut i: usize = start;
    while i < n
        invariant
            n == s@.len(),
            start <= i <= n,
            start < n,
            body == s@.subrange(start as int, n as int),
            body == unsigned_body(s@),
            forall|k: int| start <= k < i ==> is_digit(#[trigger] s@[k]),
        decreases n - i,
    {
        let c = s.get_char(i);
        if c < '0' || c > '9' {
            assert(!is_digit(body[i - start]));
            assert(!all_digits(body));
            assert(unsigned_value(s@) is None);
            return None;
        }
        i = i + 1;
    }
    assert(forall|k: int| 0 <= k < body.len() ==> is_digit(#[trigger] body[k])) by {
        assert forall|k: int| 0 <= k < body.len() implies is_digit(#[trigger] body[k]) by {
            assert(body[k] == s@[k + start]);
        }
    }
    let mut acc: u64 = 0;
    let mut j: usize = start;
    while j < n
        invariant
            n == s@.len(),
            start <= j <= n,
            start < n,
            body == s@.subrange(start as int, n as int),
            body == unsigned_body(s@),
            forall|k: int| 0 <= k < body.len() ==> is_digit(#[trigger] body[k]),
            acc as nat == digits_value(s@.subrange(start as int, j as int)),
            acc <= max,
        decreases n - j,
    {
        let c = s.get_char(j);
        assert(is_digit(body[j - start]));
        let d = (c as u32 - '0' as u32) as u64;
        assert(s@.subrange(start as int, j + 1).drop_last() =~= s@.subrange(start as int, j as int));
        assert(digits_value(s@.subrange(start as int, j + 1)) == acc * 10 + d);
        let next: u128 = (acc as u128) * 10 + (d as u128);
        if next > max as u128 {
            proof {
                lemma_digits_monotone(body, j + 1 - start);
                assert(body.subrange(0, j + 1 - start) =~= s@.subrange(start as int, j + 1));
                assert(digits_value(body) > max);
                assert(unsigned_value(s@) == Some(digits_value(body)));
            }
            return None;
        }
        acc = next as u64;
        j = j + 1;
    }
    assert(s@.subrange(start as int, n as int) == body);
    Some(acc)
}

proof fn lemma_digits_monotone(s: Seq<char>, k: int)
    requires
        0 <= k <= s.len(),
        forall|i: int| 0 <= i < s.len() ==> is_digit(#[trigger] s[i]),
    ensures
        digits_value(s.subrange(0, k)) <= digits_value(s),
    decreases s.len() - k,
{
    if k < s.len() {
        lemma_digits_monotone(s, k + 1);
        assert(s.subrange(0, k + 1).drop_last() =~= s.subrange(0, k));
        assert(s.subrange(0, k + 1).last() == s[k]);
        assert(is_digit(s[k]));
    } else {
        assert(s.subrange(0, k) =~= s);
    }
}

/// Sticky-session options.
#[derive(Debug, Clone, Copy, PartialEq, Eq, Structural)]
pub struct StickySessionConfig {
    pub enabled: bool,
    pub ttl_seconds: u64,
}

/// Cost-data options.
#[derive(Debug, Clone)]
pub struct CostConfig {
    pub source: String,
    pub refresh_interval_hours: u64,
}

/// Statistics options.
#[derive(Debug, Clone)]
pub struct StatsConfig {
    pub log_detail_mode: String,
    pub cost: CostConfig,
}

/// Runtime settings read from the settings rows (scheduler weights aside).
#[derive(Debug, Clone)]
pub struct RuntimeSettings {
    pub top_k: usize,
    pub sticky_session: StickySessionConfig,
    pub stats: StatsConfig,
}

/// The value of the last row with this key (a map built from the rows keeps the last).
pub open spec fn setting_value(rows: Seq<(String, String)>, key: Seq<char>) -> Option<Seq<char>>
    decreases rows.len(),
{
    if rows.len() == 0 {
        None
    } else if rows.last().0@ == key {
        Some(rows.last().1@)
    } else {
        setting_value(rows.drop_last(), key)
    }
}

/// The value of the setting `key`, if a row holds it.
pub fn get_setting(rows: &Vec<(String, String)>, key: &str) -> (r: Option<String>)
    ensures
        match r {
            Some(v) => setting_value(rows@, key@) == Some(v@),
            None => setting_value(rows@, key@) is None,
        },
{
    let mut i: usize = rows.len();
    assert(rows@.subrange(0, i as int) =~= rows@);
    while i > 0
        invariant
            i <= rows@.len(),
            setting_value(rows@, key@) == setting_value(rows@.subrange(0, i as int), key@),
        decreases i,
    {
        assert(rows@.subrange(0, i as int).drop_last() =~= rows@.subrange(0, i - 1));
        if text_eq(rows[i - 1].0.as_str(), key) {
            return Some(rows[i - 1].1.clone());
        }
        i = i - 1;
    }
    assert(rows@.subrange(0, 0) =~= Seq::<(String, String)>::empty());
    None
}

/// A numeric setting, or the default when it is missing or not a number in range.
pub open spec fn numeric_setting(rows: Seq<(String, String)>, key: Seq<char>, max: u64, default: u64) -> u64 {
    match setting_value(rows, key) {
        Some(v) => match parsed_unsigned(v, max) {
            Some(n) => n,
            None => default,
        },
        None => default,
    }
}

fn numeric(rows: &Vec<(String, String)>, key: &str, max: u64, default: u64) -> (r: u64)
    ensures
        r == numeric_setting(rows@, key@, max, default),
{
    match get_setting(rows, key) {
        Some(v) => match parse_unsigned(v.as_str(), max) {
            Some(n) => n,
            None => default,
        },
        None => default,
    }
}

/// A text setting, or the default when it is missing.
pub open spec fn text_setting(rows: Seq<(String, String)>, key: Seq<char>, default: Seq<char>) -> Seq<char> {
    match setting_value(rows, key) {
        Some(v) => v,
        None => default,
    }
}

/// Runtime settings from the settings rows: `scheduler.top_k` (default 7),
/// `sticky_session.enabled` (on unless the value is other than `true`;
/// default on), `sticky_session.ttl_seconds` (default 3600),
/// `stats.log_detail_mode` (default `failures_only`), `stats.cost.source`
/// (default `models.dev`) and `stats.cost.refresh_interval_hours` (default 24).
pub fn build_runtime_settings(rows: &Vec<(String, String)>) -> (r: RuntimeSettings)
    ensures
        r.top_k as u64 == numeric_setting(rows@, "scheduler.top_k"@, usize::MAX as u64, 7),
        r.sticky_session.enabled == match setting_value(rows@, "sticky_session.enabled"@) {
            Some(v) => v == "true"@,
            None => true,
        },
        r.sticky_session.ttl_seconds == numeric_setting(rows@, "sticky_session.ttl_seconds"@, u64::MAX, 3600),
        r.stats.log_detail_mode@ == text_setting(rows@, "stats.log_detail_mode"@, "failures_only"@),
        r.stats.cost.source@ == text_setting(rows@, "stats.cost.source"@, "models.dev"@),
        r.stats.cost.refresh_interval_hours == numeric_setting(rows@, "stats.cost.refresh_interval_hours"@, u64::MAX, 24),
{
    let top_k = numeric(rows, "scheduler.top_k", usize::MAX as u64, 7);
    let enabled = match get_setting(rows, "sticky_session.enabled") {
        Some(v) => text_eq(v.as_str(), "true"),
        None => true,
    };
    let ttl = numeric(rows, "sticky_session.ttl_seconds", u64::MAX, 3600);
    let mode = match get_setting(rows, "stats.log_detail_mode") {
        Some(v) => v,
        None => String::from_str("failures_only"),
    };
    let source = match get_setting(rows, "stats.cost.source") {
        Some(v) => v,
        None => String::from_str("models.dev"),
    };
    let refresh = numeric(rows, "stats.cost.refresh_interval_hours", u64::MAX, 24);
    RuntimeSettings {
        top_k: top_k as usize,
        sticky_session: StickySessionConfig { enabled, ttl_seconds: ttl },
        stats: StatsConfig { log_detail_mode: mode, cost: CostConfig { source, refresh_interval_hours: refresh } },
    }
}

/// A setting that no row holds takes its default, whatever the other rows say.
pub proof fn lemma_missing_setting_default(
    rows: Seq<(String, String)>,
    key: Seq<char>,
    max: u64,
    default_number: u64,
    default_text: Seq<char>,
)
    requires
        forall|i: int| 0 <= i < rows.len() ==> (#[trigger] rows[i]).0@ != key,
    ensures
        setting_value(rows, key) is None,
        numeric_setting(rows, key, max, default_number) == default_number,
        text_setting(rows, key, default_text) == default_text,
    decreases rows.len(),
{
    if rows.len() > 0 {
        assert(rows.last() == rows[rows.len() - 1]);
        assert forall|i: int| 0 <= i < rows.drop_last().len() implies (#[trigger] rows.drop_last()[i]).0@ != key by {
            assert(rows.drop_last()[i] == rows[i]);
        }
        lemma_missing_setting_default(rows.drop_last(), key, max, default_number, default_text);
    }
}

} // verus!
