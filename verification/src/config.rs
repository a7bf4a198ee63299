//! Service configuration: defaults, validation, partial updates and the
//! public (token-free) view.

use vstd::prelude::*;
use vstd::utf8::encode_utf8;
use crate::text::{
    all_ws, byte_len, char_range, chars_of, find_last, is_blank, last_index_of,
    lemma_last_index_of_bounds, opt_str, parse_u16, parse_u16_chars, utf8_len_capped, digits_value, path_join, join_path,
};

verus! {

broadcast use vstd::string::group_string_axioms;

/// Largest number of log lines a tail may return.
pub const MAX_TAIL_LINES: usize = 50000;

/// An extra log file the operator may browse.
#[derive(Debug, PartialEq)]
pub struct LogSource {
    pub id: String,
    pub label: String,
    pub path: String,
}

pub ghost struct LogSourceView {
    pub id: Seq<char>,
    pub label: Seq<char>,
    pub path: Seq<char>,
}

impl View for LogSource {
    type V = LogSourceView;

    open spec fn view(&self) -> LogSourceView {
        LogSourceView { id: self.id@, label: self.label@, path: self.path@ }
    }
}

impl Clone for LogSource {
    fn clone(&self) -> (r: Self)
        ensures
            r@ == self@,
    {
        LogSource { id: self.id.clone(), label: self.label.clone(), path: self.path.clone() }
    }
}

/// The views of a list of log sources.
pub open spec fn sources_view(v: Seq<LogSource>) -> Seq<LogSourceView> {
    v.map_values(|s: LogSource| s@)
}

/// A copy of a list of log sources.
pub fn clone_sources(v: &Vec<LogSource>) -> (r: Vec<LogSource>)
    ensures
        sources_view(r@) == sources_view(v@),
{
    let mut out: Vec<LogSource> = Vec::new();
    let mut i: usize = 0;
    while i < v.len()
        invariant
            i <= v.len(),
            out@.len() == i,
            forall|k: int| 0 <= k < i ==> #[trigger] out@[k]@ == v@[k]@,
        decreases v.len() - i,
    {
        out.push(v[i].clone());
        i = i + 1;
    }
    assert(sources_view(out@) =~= sources_view(v@));
    out
}

/// A copy of an optional string.
pub fn clone_opt(o: &Option<String>) -> (r: Option<String>)
    ensures
        opt_str(r) == opt_str(*o),
{
    match o {
        Some(s) => Some(s.clone()),
        None => None,
    }
}

/// Runtime configuration of the service.
#[derive(Debug, PartialEq)]
pub struct SmosConfig {
    /// HTTP bind address (`host:port`).
    pub bind: String,
    /// Optional shared secret for mutating API calls.
    pub auth_token: Option<String>,
    /// Directory for config, audit journal, history and service logs.
    pub data_dir: String,
    /// Default number of lines when tailing a log.
    pub log_tail_lines: usize,
    /// Extra log files the operator may browse.
    pub log_sources: Vec<LogSource>,
    /// Display name of this host.
    pub host_label: String,
    /// Metrics poll interval hint for the UI (seconds).
    pub metrics_poll_secs: u64,
    /// Days of metrics and log history to keep.
    pub history_retention_days: u32,
    /// Seconds between persisted metrics samples.
    pub metrics_history_interval_secs: u64,
}

/// The configuration as plain values.
pub ghost struct ConfigView {
    pub bind: Seq<char>,
    pub auth_token: Option<Seq<char>>,
    pub data_dir: Seq<char>,
    pub log_tail_lines: usize,
    pub log_sources: Seq<LogSourceView>,
    pub host_label: Seq<char>,
    pub metrics_poll_secs: u64,
    pub history_retention_days: u32,
    pub metrics_history_interval_secs: u64,
}

impl View for SmosConfig {
    type V = ConfigView;

    open spec fn view(&self) -> ConfigView {
        ConfigView {
            bind: self.bind@,
            auth_token: opt_str(self.auth_token),
            data_dir: self.data_dir@,
            log_tail_lines: self.log_tail_lines,
            log_sources: sources_view(self.log_sources@),
            host_label: self.host_label@,
            metrics_poll_secs: self.metrics_poll_secs,
            history_retention_days: self.history_retention_days,
            metrics_history_interval_secs: self.metrics_history_interval_secs,
        }
    }
}

/// Why a configuration is rejected.
pub ghost enum ConfigFault {
    EmptyBind,
    InvalidBind(Seq<char>),
    LogTailLines,
    HostLabel,
    MetricsPollSecs,
    HistoryRetentionDays,
    MetricsHistoryInterval,
    EmptyLogSourceId,
    EmptyLogSourceLabel,
    EmptyAuthToken,
}

/// Why a configuration is rejected (see `message` for the text).
#[derive(Debug, PartialEq)]
pub enum ConfigError {
    EmptyBind,
    InvalidBind(String),
    LogTailLines,
    HostLabel,
    MetricsPollSecs,
    HistoryRetentionDays,
    MetricsHistoryInterval,
    EmptyLogSourceId,
    EmptyLogSourceLabel,
    EmptyAuthToken,
}

impl View for ConfigError {
    type V = ConfigFault;

    open spec fn view(&self) -> ConfigFault {
        match self {
            ConfigError::EmptyBind => ConfigFault::EmptyBind,
            ConfigError::InvalidBind(b) => ConfigFault::InvalidBind(b@),
            ConfigError::LogTailLines => ConfigFault::LogTailLines,
            ConfigError::HostLabel => ConfigFault::HostLabel,
            ConfigError::MetricsPollSecs => ConfigFault::MetricsPollSecs,
            ConfigError::HistoryRetentionDays => ConfigFault::HistoryRetentionDays,
            ConfigError::MetricsHistoryInterval => ConfigFault::MetricsHistoryInterval,
            ConfigError::EmptyLogSourceId => ConfigFault::EmptyLogSourceId,
            ConfigError::EmptyLogSourceLabel => ConfigFault::EmptyLogSourceLabel,
            ConfigError::EmptyAuthToken => ConfigFault::EmptyAuthToken,
        }
    }
}

/// True when `b` has the form `host:port`: a non-empty host before the last
/// `:` and a `u16` after it. Every socket address (`1.2.3.4:80`,
/// `[::1]:80`) has this form too, so this is the whole bind check.
pub open spec fn host_port_ok(b: Seq<char>) -> bool {
    let k = last_index_of(b, ':');
    k > 0 && parse_u16(b.subrange(k + 1, b.len() as int)) is Some
}

/// The first log source that is rejected, and why.
pub open spec fn source_fault(s: Seq<LogSourceView>) -> Option<ConfigFault>
    decreases s.len(),
{
    if s.len() == 0 {
        None
    } else if all_ws(s[0].id) {
        Some(ConfigFault::EmptyLogSourceId)
    } else if all_ws(s[0].label) {
        Some(ConfigFault::EmptyLogSourceLabel)
    } else {
        source_fault(s.drop_first())
    }
}

impl ConfigView {
    /// The first rule the configuration breaks, in the order they are checked.
    pub open spec fn fault(self) -> Option<ConfigFault> {
        if all_ws(self.bind) {
            Some(ConfigFault::EmptyBind)
        } else if !host_port_ok(self.bind) {
            Some(ConfigFault::InvalidBind(self.bind))
        } else if self.log_tail_lines == 0 || self.log_tail_lines > MAX_TAIL_LINES {
            Some(ConfigFault::LogTailLines)
        } else if all_ws(self.host_label) || byte_len(self.host_label) > 128 {
            Some(ConfigFault::HostLabel)
        } else if self.metrics_poll_secs == 0 || self.metrics_poll_secs > 3600 {
            Some(ConfigFault::MetricsPollSecs)
        } else if self.history_retention_days == 0 || self.history_retention_days > 3650 {
            Some(ConfigFault::HistoryRetentionDays)
        } else if self.metrics_history_interval_secs < 10 || self.metrics_history_interval_secs
            > 3600 {
            Some(ConfigFault::MetricsHistoryInterval)
        } else if source_fault(self.log_sources) is Some {
            source_fault(self.log_sources)
        } else if self.auth_token matches Some(t) && t.len() == 0 {
            Some(ConfigFault::EmptyAuthToken)
        } else {
            None
        }
    }

    /// A configuration the service accepts.
    pub open spec fn valid(self) -> bool {
        self.fault() is None
    }
}

/// A list of log sources is accepted exactly when every source has an id
/// and a label that are not blank; the first source that breaks this is the
/// one reported.
pub proof fn source_fault_checks_every_source(s: Seq<LogSourceView>)
    ensures
        source_fault(s) is None <==> forall|k: int| 0 <= k < s.len() ==> !all_ws(#[trigger] s[k].id) && !all_ws(s[k].label),
        source_fault(s) == Some(ConfigFault::EmptyLogSourceId) || source_fault(s) == Some(ConfigFault::EmptyLogSourceLabel)
            || source_fault(s) is None,
        source_fault(s) is Some ==> exists|k: int|
            0 <= k < s.len() && (all_ws(#[trigger] s[k].id) || all_ws(s[k].label)) && (forall|j: int|
                0 <= j < k ==> !all_ws(#[trigger] s[j].id) && !all_ws(s[j].label)) && (source_fault(s) == if all_ws(s[k].id) {
                Some(ConfigFault::EmptyLogSourceId)
            } else {
                Some(ConfigFault::EmptyLogSourceLabel)
            }),
    decreases s.len(),
{
    if s.len() > 0 {
        let t = s.drop_first();
        source_fault_checks_every_source(t);
        assert forall|k: int| 1 <= k < s.len() implies s[k] == #[trigger] t[k - 1] by {}
        if !all_ws(s[0].id) && !all_ws(s[0].label) {
            if source_fault(t) is None {
                assert forall|k: int| 0 <= k < s.len() implies !all_ws(#[trigger] s[k].id) && !all_ws(s[k].label) by {
                    if k > 0 {
                        assert(s[k] == t[k - 1]);
                    }
                }
            } else {
                let k = choose|k: int|
                    0 <= k < t.len() && (all_ws(#[trigger] t[k].id) || all_ws(t[k].label)) && (forall|j: int|
                        0 <= j < k ==> !all_ws(#[trigger] t[j].id) && !all_ws(t[j].label)) && (source_fault(t) == if all_ws(t[k].id) {
                        Some(ConfigFault::EmptyLogSourceId)
                    } else {
                        Some(ConfigFault::EmptyLogSourceLabel)
                    });
                assert(s[k + 1] == t[k]);
                assert forall|j: int| 0 <= j < k + 1 implies !all_ws(#[trigger] s[j].id) && !all_ws(s[j].label) by {
                    if j > 0 {
                        assert(s[j] == t[j - 1]);
                    }
                }
                assert(!(all_ws(s[k + 1].id) == false && all_ws(s[k + 1].label) == false));
            }
        }
    }
}

/// A valid configuration has no log source with a blank id or label.
pub proof fn valid_config_has_named_sources(c: ConfigView)
    requires
        c.valid(),
    ensures
        forall|k: int| 0 <= k < c.log_sources.len() ==> !all_ws(#[trigger] c.log_sources[k].id) && !all_ws(
            c.log_sources[k].label,
        ),
{
    assert(source_fault(c.log_sources) is None);
    source_fault_checks_every_source(c.log_sources);
}

/// True when `b` has the form `host:port` (see `host_port_ok`).
pub fn bind_has_host_port(b: &str) -> (r: bool)
    ensures
        r == host_port_ok(b@),
{
    let v = chars_of(b);
    proof {
        lemma_last_index_of_bounds(v@, ':');
    }
    match find_last(&v, ':') {
        None => false,
        Some(k) => {
            if k == 0 {
                false
            } else {
                let port = char_range(&v, k + 1, v.len());
                parse_u16_chars(&port).is_some()
            }
        },
    }
}

/// The first rejected log source, as `source_fault` says.
pub fn check_sources(s: &Vec<LogSource>) -> (r: Result<(), ConfigError>)
    ensures
        match r {
            Ok(()) => source_fault(sources_view(s@)) is None,
            Err(e) => source_fault(sources_view(s@)) == Some(e@),
        },
{
    let ghost all = sources_view(s@);
    let mut i: usize = 0;
    assert(all.skip(0) =~= all);
    while i < s.len()
        invariant
            i <= s.len(),
            all == sources_view(s@),
            source_fault(all) == source_fault(all.skip(i as int)),
        decreases s.len() - i,
    {
        let ghost rest = all.skip(i as int);
        assert(rest[0] == s@[i as int]@);
        if is_blank(s[i].id.as_str()) {
            return Err(ConfigError::EmptyLogSourceId);
        }
        if is_blank(s[i].label.as_str()) {
            return Err(ConfigError::EmptyLogSourceLabel);
        }
        assert(rest.drop_first() =~= all.skip(i + 1));
        i = i + 1;
    }
    assert(all.skip(i as int).len() == 0);
    Ok(())
}

impl ConfigFault {
    /// The message the service reports for this fault.
    pub open spec fn text(self) -> Seq<char> {
        match self {
            ConfigFault::EmptyBind => "bind address must not be empty"@,
            ConfigFault::InvalidBind(b) => "invalid bind address '"@ + b + "'; expected host:port"@,
            ConfigFault::LogTailLines => "log_tail_lines must be between 1 and 50000"@,
            ConfigFault::HostLabel => "host_label must be 1..=128 characters"@,
            ConfigFault::MetricsPollSecs => "metrics_poll_secs must be between 1 and 3600"@,
            ConfigFault::HistoryRetentionDays => "history_retention_days must be between 1 and 3650"@,
            ConfigFault::MetricsHistoryInterval => "metrics_history_interval_secs must be between 10 and 3600"@,
            ConfigFault::EmptyLogSourceId => "log source id must not be empty"@,
            ConfigFault::EmptyLogSourceLabel => "log source label must not be empty"@,
            ConfigFault::EmptyAuthToken => "auth_token if set must not be empty string"@,
        }
    }
}

impl ConfigError {
    /// The message the service reports for this error.
    pub fn message(&self) -> (r: String)
        ensures
            r@ == self@.text(),
    {
        match self {
            ConfigError::EmptyBind => "bind address must not be empty".to_owned(),
            ConfigError::InvalidBind(b) => {
                let mut m = "invalid bind address '".to_owned();
                m.append(b.as_str());
                m.append("'; expected host:port");
                m
            },
            ConfigError::LogTailLines => "log_tail_lines must be between 1 and 50000".to_owned(),
            ConfigError::HostLabel => "host_label must be 1..=128 characters".to_owned(),
            ConfigError::MetricsPollSecs => "metrics_poll_secs must be between 1 and 3600".to_owned(),
            ConfigError::HistoryRetentionDays => "history_retention_days must be between 1 and 3650".to_owned(),
            ConfigError::MetricsHistoryInterval => "metrics_history_interval_secs must be between 10 and 3600".to_owned(),
            ConfigError::EmptyLogSourceId => "log source id must not be empty".to_owned(),
            ConfigError::EmptyLogSourceLabel => "log source label must not be empty".to_owned(),
            ConfigError::EmptyAuthToken => "auth_token if set must not be empty string".to_owned(),
        }
    }
}

impl SmosConfig {
    /// Checks every rule; the error names the first rule broken.
    pub fn validate(&self) -> (r: Result<(), ConfigError>)
        ensures
            match r {
                Ok(()) => self@.valid(),
                Err(e) => self@.fault() == Some(e@),
            },
    {
        if is_blank(self.bind.as_str()) {
            return Err(ConfigError::EmptyBind);
        }
        if !bind_has_host_port(self.bind.as_str()) {
            return Err(ConfigError::InvalidBind(self.bind.clone()));
        }
        if self.log_tail_lines == 0 || self.log_tail_lines > MAX_TAIL_LINES {
            return Err(ConfigError::LogTailLines);
        }
        if is_blank(self.host_label.as_str()) || utf8_len_capped(&chars_of(self.host_label.as_str()), 128) > 128 {
            return Err(ConfigError::HostLabel);
        }
        if self.metrics_poll_secs == 0 || self.metrics_poll_secs > 3600 {
            return Err(ConfigError::MetricsPollSecs);
        }
        if self.history_retention_days == 0 || self.history_retention_days > 3650 {
            return Err(ConfigError::HistoryRetentionDays);
        }
        if self.metrics_history_interval_secs < 10 || self.metrics_history_interval_secs > 3600 {
            return Err(ConfigError::MetricsHistoryInterval);
        }
        check_sources(&self.log_sources)?;
        if let Some(token) = &self.auth_token {
            if token.as_str().is_empty() {
                return Err(ConfigError::EmptyAuthToken);
            }
        }
        Ok(())
    }
}


impl Clone for SmosConfig {
    fn clone(&self) -> (r: Self)
        ensures
            r@ == self@,
    {
        SmosConfig {
            bind: self.bind.clone(),
            auth_token: clone_opt(&self.auth_token),
            data_dir: self.data_dir.clone(),
            log_tail_lines: self.log_tail_lines,
            log_sources: clone_sources(&self.log_sources),
            host_label: self.host_label.clone(),
            metrics_poll_secs: self.metrics_poll_secs,
            history_retention_days: self.history_retention_days,
            metrics_history_interval_secs: self.metrics_history_interval_secs,
        }
    }
}

/// Days of history kept when the configuration file does not say.
pub fn default_history_retention_days() -> (r: u32)
    ensures
        r == 30,
{
    30
}

/// Seconds between persisted metrics samples when the configuration file does not say.
pub fn default_metrics_history_interval_secs() -> (r: u64)
    ensures
        r == 60,
{
    60
}

/// The configuration a fresh installation starts with.
pub open spec fn default_config_view() -> ConfigView {
    ConfigView {
        bind: "127.0.0.1:9090"@,
        auth_token: None,
        data_dir: "smos-data"@,
        log_tail_lines: 200,
        log_sources: Seq::empty(),
        host_label: "smos-host"@,
        metrics_poll_secs: 2,
        history_retention_days: 30,
        metrics_history_interval_secs: 60,
    }
}

impl Default for SmosConfig {
    fn default() -> (r: Self)
        ensures
            r@ == default_config_view(),
    {
        let r = SmosConfig {
            bind: "127.0.0.1:9090".to_owned(),
            auth_token: None,
            data_dir: "smos-data".to_owned(),
            log_tail_lines: 200,
            log_sources: Vec::new(),
            host_label: "smos-host".to_owned(),
            metrics_poll_secs: 2,
            history_retention_days: default_history_retention_days(),
            metrics_history_interval_secs: default_metrics_history_interval_secs(),
        };
        assert(sources_view(r.log_sources@) =~= Seq::empty());
        r
    }
}

/// The default configuration passes validation.
pub proof fn default_config_is_valid()
    ensures
        default_config_view().valid(),
{
    reveal_strlit("127.0.0.1:9090");
    reveal_strlit("smos-host");
    let b = "127.0.0.1:9090"@;
    assert(!crate::text::is_ws(b[0]));
    reveal_with_fuel(last_index_of, 6);
    assert(last_index_of(b, ':') == 9);
    let port = b.subrange(10, 14);
    assert(port =~= seq!['9', '0', '9', '0']);
    reveal_with_fuel(digits_value, 5);
    assert(digits_value(port) == 9090);
    let l = "smos-host"@;
    assert(!crate::text::is_ws(l[0]));
    reveal_with_fuel(encode_utf8, 10);
    assert(byte_len(l) == 9);
    assert(source_fault(Seq::<LogSourceView>::empty()) is None);
}

/// Partial update: only the fields that are `Some` change.
#[derive(Debug)]
pub struct ConfigUpdate {
    pub bind: Option<String>,
    pub auth_token: Option<Option<String>>,
    pub log_tail_lines: Option<usize>,
    pub host_label: Option<String>,
    pub metrics_poll_secs: Option<u64>,
    pub log_sources: Option<Vec<LogSource>>,
    pub history_retention_days: Option<u32>,
    pub metrics_history_interval_secs: Option<u64>,
}

impl Default for ConfigUpdate {
    fn default() -> (r: Self)
        ensures
            r.bind is None,
            r.auth_token is None,
            r.log_tail_lines is None,
            r.host_label is None,
            r.metrics_poll_secs is None,
            r.log_sources is None,
            r.history_retention_days is None,
            r.metrics_history_interval_secs is None,
    {
        ConfigUpdate {
            bind: None,
            auth_token: None,
            log_tail_lines: None,
            host_label: None,
            metrics_poll_secs: None,
            log_sources: None,
            history_retention_days: None,
            metrics_history_interval_secs: None,
        }
    }
}

/// The configuration that results from applying `u` to `c`, before validation.
pub open spec fn merged(c: ConfigView, u: ConfigUpdate) -> ConfigView {
    ConfigView {
        bind: match u.bind {
            Some(b) => b@,
            None => c.bind,
        },
        auth_token: match u.auth_token {
            Some(t) => opt_str(t),
            None => c.auth_token,
        },
        data_dir: c.data_dir,
        log_tail_lines: match u.log_tail_lines {
            Some(n) => n,
            None => c.log_tail_lines,
        },
        log_sources: match u.log_sources {
            Some(s) => sources_view(s@),
            None => c.log_sources,
        },
        host_label: match u.host_label {
            Some(l) => l@,
            None => c.host_label,
        },
        metrics_poll_secs: match u.metrics_poll_secs {
            Some(n) => n,
            None => c.metrics_poll_secs,
        },
        history_retention_days: match u.history_retention_days {
            Some(n) => n,
            None => c.history_retention_days,
        },
        metrics_history_interval_secs: match u.metrics_history_interval_secs {
            Some(n) => n,
            None => c.metrics_history_interval_secs,
        },
    }
}

/// What the operator may see of the configuration: the token's presence, not its value.
#[derive(Debug)]
pub struct PublicConfig {
    pub bind: String,
    pub auth_token_set: bool,
    pub data_dir: String,
    pub log_tail_lines: usize,
    pub log_sources: Vec<LogSource>,
    pub host_label: String,
    pub metrics_poll_secs: u64,
    pub history_retention_days: u32,
    pub metrics_history_interval_secs: u64,
}

/// The on-disk form of the configuration.
#[derive(Debug, PartialEq)]
pub struct SmosConfigFile {
    pub bind: String,
    pub auth_token: Option<String>,
    pub data_dir: String,
    pub log_tail_lines: usize,
    pub log_sources: Vec<LogSource>,
    pub host_label: String,
    pub metrics_poll_secs: u64,
    pub history_retention_days: u32,
    pub metrics_history_interval_secs: u64,
}

impl View for SmosConfigFile {
    type V = ConfigView;

    open spec fn view(&self) -> ConfigView {
        ConfigView {
            bind: self.bind@,
            auth_token: opt_str(self.auth_token),
            data_dir: self.data_dir@,
            log_tail_lines: self.log_tail_lines,
            log_sources: sources_view(self.log_sources@),
            host_label: self.host_label@,
            metrics_poll_secs: self.metrics_poll_secs,
            history_retention_days: self.history_retention_days,
            metrics_history_interval_secs: self.metrics_history_interval_secs,
        }
    }
}

impl SmosConfigFile {
    /// The file form of a configuration; every field is kept.
    pub fn from_config(c: SmosConfig) -> (r: Self)
        ensures
            r@ == c@,
    {
        SmosConfigFile {
            bind: c.bind,
            auth_token: c.auth_token,
            data_dir: c.data_dir,
            log_tail_lines: c.log_tail_lines,
            log_sources: c.log_sources,
            host_label: c.host_label,
            metrics_poll_secs: c.metrics_poll_secs,
            history_retention_days: c.history_retention_days,
            metrics_history_interval_secs: c.metrics_history_interval_secs,
        }
    }
}

impl SmosConfig {
    /// The configuration read from its file form; every field is kept.
    pub fn from_file(c: SmosConfigFile) -> (r: Self)
        ensures
            r@ == c@,
    {
        SmosConfig {
            bind: c.bind,
            auth_token: c.auth_token,
            data_dir: c.data_dir,
            log_tail_lines: c.log_tail_lines,
            log_sources: c.log_sources,
            host_label: c.host_label,
            metrics_poll_secs: c.metrics_poll_secs,
            history_retention_days: c.history_retention_days,
            metrics_history_interval_secs: c.metrics_history_interval_secs,
        }
    }

    /// Path of the configuration file (`<data_dir>/config.json`).
    pub fn config_path(data_dir: &str) -> (r: String)
        ensures
            r@ == path_join(data_dir@, "config.json"@),
    {
        join_path(data_dir, "config.json")
    }

    /// Path of the audit journal (`<data_dir>/audit.jsonl`).
    pub fn audit_path(data_dir: &str) -> (r: String)
        ensures
            r@ == path_join(data_dir@, "audit.jsonl"@),
    {
        join_path(data_dir, "audit.jsonl")
    }

    /// Applies `update` atomically: when the merged configuration is
    /// rejected, `self` is left exactly as it was.
    pub fn apply_update(&mut self, update: ConfigUpdate) -> (r: Result<(), ConfigError>)
        ensures
            match r {
                Ok(()) => final(self)@ == merged(old(self)@, update) && final(self)@.valid(),
                Err(e) => final(self)@ == old(self)@ && merged(old(self)@, update).fault()
                    == Some(e@),
            },
    {
        let ghost u = update;
        let next = SmosConfig {
            bind: match update.bind {
                Some(b) => b,
                None => self.bind.clone(),
            },
            auth_token: match update.auth_token {
                Some(t) => t,
                None => clone_opt(&self.auth_token),
            },
            data_dir: self.data_dir.clone(),
            log_tail_lines: match update.log_tail_lines {
                Some(n) => n,
                None => self.log_tail_lines,
            },
            log_sources: match update.log_sources {
                Some(s) => s,
                None => clone_sources(&self.log_sources),
            },
            host_label: match update.host_label {
                Some(l) => l,
                None => self.host_label.clone(),
            },
            metrics_poll_secs: match update.metrics_poll_secs {
                Some(n) => n,
                None => self.metrics_poll_secs,
            },
            history_retention_days: match update.history_retention_days {
                Some(n) => n,
                None => self.history_retention_days,
            },
            metrics_history_interval_secs: match update.metrics_history_interval_secs {
                Some(n) => n,
                None => self.metrics_history_interval_secs,
            },
        };
        assert(next@ == merged(self@, u));
        next.validate()?;
        *self = next;
        Ok(())
    }

    /// The operator-visible view: the token is reduced to whether one is set.
    pub fn public_view(&self) -> (r: PublicConfig)
        ensures
            r.bind@ == self.bind@,
            r.auth_token_set == (self.auth_token is Some),
            r.data_dir@ == self.data_dir@,
            r.log_tail_lines == self.log_tail_lines,
            sources_view(r.log_sources@) == sources_view(self.log_sources@),
            r.host_label@ == self.host_label@,
            r.metrics_poll_secs == self.metrics_poll_secs,
            r.history_retention_days == self.history_retention_days,
            r.metrics_history_interval_secs == self.metrics_history_interval_secs,
    {
        PublicConfig {
            bind: self.bind.clone(),
            auth_token_set: self.auth_token.is_some(),
            data_dir: self.data_dir.clone(),
            log_tail_lines: self.log_tail_lines,
            log_sources: clone_sources(&self.log_sources),
            host_label: self.host_label.clone(),
            metrics_poll_secs: self.metrics_poll_secs,
            history_retention_days: self.history_retention_days,
            metrics_history_interval_secs: self.metrics_history_interval_secs,
        }
    }
}

} // verus!
