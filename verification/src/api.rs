//! Request policy of the HTTP API: which requests need a session or the token,
//! where the token is read from, query defaults and error codes.

use vstd::prelude::*;
use crate::config::{LogSource, LogSourceView, sources_view, MAX_TAIL_LINES};
use crate::logs::SERVICE_LOG_ID;
use crate::processes::{ProcessAction, ProcessError};
use crate::history::{is_service_log_name, is_service_log_name_spec};
use crate::text::{
    chars_of, contains_char, has_prefix, opt_seq, opt_str, str_eq, string_from_range, trim, trimmed,
};

verus! {

broadcast use vstd::string::group_string_axioms;

/// Query of the audit listing.
#[derive(Debug, Clone, Copy)]
pub struct AuditQuery {
    pub limit: Option<usize>,
}

/// Query of a log tail.
#[derive(Debug, Clone, Copy)]
pub struct LogQuery {
    pub lines: Option<usize>,
}

/// Routes under `/api` that answer without a session: health, auth status,
/// onboarding, login (both steps) and logout.
pub open spec fn is_public_path(path: Seq<char>) -> bool {
    ||| path == "/health"@
    ||| path == "/auth/status"@
    ||| path == "/auth/setup"@
    ||| path == "/auth/login"@
    ||| path == "/auth/login/totp"@
    ||| path == "/auth/logout"@
}

/// True when `path` (relative to `/api`) answers without a session.
pub fn is_public_api_path(path: &str) -> (r: bool)
    ensures
        r == is_public_path(path@),
{
    str_eq(path, "/health") || str_eq(path, "/auth/status") || str_eq(path, "/auth/setup")
        || str_eq(path, "/auth/login") || str_eq(path, "/auth/login/totp") || str_eq(path, "/auth/logout")
}

/// What the API gate does with a request.
#[derive(Debug, Clone, Copy, PartialEq, Eq, Structural)]
pub enum Access {
    /// The handler runs.
    Allow,
    /// Refused with 403: onboarding has not happened yet.
    Forbidden,
    /// Refused with 401: no valid session and no matching machine token.
    Unauthorized,
}

/// Which requests pass: public routes do; while setup is required everything else is
/// refused (403); after it, a request needs a valid session or the
/// configured machine token (401 otherwise).
pub open spec fn access_rule(
    public: bool,
    setup_required: bool,
    session_valid: bool,
    expected: Option<Seq<char>>,
    provided: Option<Seq<char>>,
) -> Access {
    if public {
        Access::Allow
    } else if setup_required {
        Access::Forbidden
    } else if session_valid || (expected is Some && provided == expected) {
        Access::Allow
    } else {
        Access::Unauthorized
    }
}

/// How requests are answered: a public route always passes; any other route
/// is refused with 403 while setup is required; after setup, a valid session
/// passes whatever machine token is configured or carried, the configured
/// machine token passes without a session, and a request with neither is
/// refused with 401.
pub proof fn access_rule_laws(
    public: bool,
    setup_required: bool,
    session_valid: bool,
    expected: Option<Seq<char>>,
    provided: Option<Seq<char>>,
)
    ensures
        public ==> access_rule(public, setup_required, session_valid, expected, provided) == Access::Allow,
        !public && setup_required ==> access_rule(public, setup_required, session_valid, expected, provided)
            == Access::Forbidden,
        !public && !setup_required && session_valid ==> access_rule(public, setup_required, session_valid, expected, provided)
            == Access::Allow,
        !public && !setup_required && expected is Some && provided == expected ==> access_rule(
            public,
            setup_required,
            session_valid,
            expected,
            provided,
        ) == Access::Allow,
        !public && !setup_required && !session_valid && (expected is None || provided != expected) ==> access_rule(
            public,
            setup_required,
            session_valid,
            expected,
            provided,
        ) == Access::Unauthorized,
        access_rule(public, setup_required, session_valid, expected, provided) == access_rule(
            public,
            setup_required,
            session_valid,
            None,
            provided,
        ) || (expected is Some && provided == expected),
{
}

/// Decides a request as `access_rule` says; `expected` is the configured
/// machine token and `provided` the token the request carries.
pub fn access_decision(
    public: bool,
    setup_required: bool,
    session_valid: bool,
    expected: Option<&str>,
    provided: Option<&str>,
) -> (r: Access)
    ensures
        r == access_rule(public, setup_required, session_valid, opt_seq(expected), opt_seq(provided)),
{
    if public {
        return Access::Allow;
    }
    if setup_required {
        return Access::Forbidden;
    }
    if session_valid {
        return Access::Allow;
    }
    let token_ok = match (expected, provided) {
        (Some(e), Some(p)) => str_eq(e, p),
        _ => false,
    };
    if token_ok {
        Access::Allow
    } else {
        Access::Unauthorized
    }
}

/// HTTP status of a refusal.
pub fn access_status(a: Access) -> (r: u16)
    ensures
        r == match a {
            Access::Allow => 200u16,
            Access::Forbidden => 403u16,
            Access::Unauthorized => 401u16,
        },
{
    match a {
        Access::Allow => 200,
        Access::Forbidden => 403,
        Access::Unauthorized => 401,
    }
}

/// The token a request carries: the `X-SMOS-Token` header as is, else the
/// `X-SMOS-Session` header as is, else the trimmed `Authorization` header
/// without a leading `Bearer `.
pub open spec fn token_of(x_smos_token: Option<Seq<char>>, x_smos_session: Option<Seq<char>>, authorization: Option<Seq<char>>) -> Option<Seq<char>> {
    match x_smos_token {
        Some(v) => Some(v),
        None => match x_smos_session {
            Some(v) => Some(v),
            None => match authorization {
                Some(a) => {
                    let t = trimmed(a);
                    if "Bearer "@.is_prefix_of(t) {
                        Some(t.skip(7))
                    } else {
                        Some(t)
                    }
                },
                None => None,
            },
        },
    }
}

/// Reads the token of a request from its headers (each given when present
/// and readable as text), as `token_of` says.
pub fn extract_token(x_smos_token: Option<&str>, x_smos_session: Option<&str>, authorization: Option<&str>) -> (r: Option<String>)
    ensures
        match r {
            Some(t) => token_of(opt_seq(x_smos_token), opt_seq(x_smos_session), opt_seq(authorization)) == Some(t@),
            None => token_of(opt_seq(x_smos_token), opt_seq(x_smos_session), opt_seq(authorization)) is None,
        },
{
    if let Some(v) = x_smos_token {
        return Some(v.to_owned());
    }
    if let Some(v) = x_smos_session {
        return Some(v.to_owned());
    }
    match authorization {
        None => None,
        Some(a) => {
            let t = trim(a);
            let v = chars_of(t.as_str());
            let bearer = chars_of("Bearer ");
            proof {
                reveal_strlit("Bearer ");
            }
            let mut is_bearer = v.len() >= 7;
            let mut i: usize = 0;
            while i < 7 && is_bearer
                invariant
                    i <= 7,
                    bearer@ == "Bearer "@,
                    bearer@.len() == 7,
                    v@ == t@,
                    is_bearer ==> v.len() >= 7 && forall|k: int| 0 <= k < i ==> v@[k] == bearer@[k],
                    !is_bearer ==> !"Bearer "@.is_prefix_of(t@),
                decreases 7 - i,
            {
                if v[i] != bearer[i] {
                    is_bearer = false;
                }
                i = i + 1;
            }
            if is_bearer {
                let rest = string_from_range(&v, 7, v.len());
                assert(rest@ =~= t@.skip(7));
                Some(rest)
            } else {
                Some(t)
            }
        },
    }
}

/// Lines a tail returns: the requested count, else the configured default,
/// clamped to 1..=50000.
pub fn log_tail_line_count(requested: Option<usize>, default_lines: usize) -> (r: usize)
    ensures
        ({
            let n = match requested {
                Some(n) => n,
                None => default_lines,
            };
            r == if n < 1 { 1 } else if n > MAX_TAIL_LINES { MAX_TAIL_LINES } else { n }
        }),
{
    let n = match requested {
        Some(n) => n,
        None => default_lines,
    };
    if n < 1 {
        1
    } else if n > MAX_TAIL_LINES {
        MAX_TAIL_LINES
    } else {
        n
    }
}

/// Audit entries listed: the requested count (100 by default), at most 1000.
pub fn audit_limit(requested: Option<usize>) -> (r: usize)
    ensures
        r == match requested {
            Some(n) => if n > 1000 { 1000 } else { n },
            None => 100,
        },
{
    let n = match requested {
        Some(n) => n,
        None => 100,
    };
    if n > 1000 {
        1000
    } else {
        n
    }
}

/// Where a log source id leads.
#[derive(Debug)]
pub enum LogTarget {
    /// The service's own log.
    Service,
    /// An allowlisted file.
    File(String),
    /// A daily service log in the data directory, by file name.
    History(String),
    /// No such source.
    Unknown,
}

/// Position of the first source with id `id`, or -1.
pub open spec fn first_source_with_id(s: Seq<LogSourceView>, id: Seq<char>) -> int
    decreases s.len(),
{
    if s.len() == 0 {
        -1
    } else if s[0].id == id {
        0
    } else if first_source_with_id(s.drop_first(), id) == -1 {
        -1
    } else {
        first_source_with_id(s.drop_first(), id) + 1
    }
}

proof fn lemma_first_source_with_id(s: Seq<LogSourceView>, id: Seq<char>)
    ensures
        -1 <= first_source_with_id(s, id) < s.len(),
        first_source_with_id(s, id) >= 0 ==> s[first_source_with_id(s, id)].id == id,
        forall|k: int| 0 <= k < s.len() && (first_source_with_id(s, id) == -1 || k < first_source_with_id(s, id)) ==> s[k].id != id,
    decreases s.len(),
{
    if s.len() > 0 && s[0].id != id {
        lemma_first_source_with_id(s.drop_first(), id);
        assert forall|k: int| 0 <= k < s.len() && (first_source_with_id(s, id) == -1 || k < first_source_with_id(s, id)) implies s[k].id != id by {
            if k > 0 {
                assert(s[k] == s.drop_first()[k - 1]);
            }
        }
    }
}

/// The file a `history:<name>` source id names: the live service log or one
/// of its daily rotations, with no path separator in the name.
pub open spec fn history_log_name(id: Seq<char>) -> Option<Seq<char>> {
    let n = id.skip(8);
    if "history:"@.is_prefix_of(id) && is_service_log_name_spec(n) && !n.contains('/') && !n.contains(
        '\\',
    ) {
        Some(n)
    } else {
        None
    }
}

/// The file name of a `history:<name>` source id, as `history_log_name` says.
pub fn history_log_file(id: &str) -> (r: Option<String>)
    ensures
        opt_str(r) == history_log_name(id@),
{
    let v = chars_of(id);
    let p = chars_of("history:");
    proof {
        reveal_strlit("history:");
    }
    if !has_prefix(&v, &p) {
        return None;
    }
    let name = string_from_range(&v, 8, v.len());
    assert(name@ =~= id@.skip(8));
    let nv = chars_of(name.as_str());
    if is_service_log_name(name.as_str()) && !contains_char(&nv, '/') && !contains_char(&nv, '\\') {
        Some(name)
    } else {
        None
    }
}

/// The target of a log source id: the service log for `smos-service`, a
/// daily service log for `history:<name>`, else the first allowlisted
/// source with that id.
pub fn resolve_log_source(sources: &Vec<LogSource>, source_id: &str) -> (r: LogTarget)
    ensures
        source_id@ == SERVICE_LOG_ID@ ==> r is Service,
        source_id@ != SERVICE_LOG_ID@ && history_log_name(source_id@) is Some ==> (r matches LogTarget::History(n)
            && history_log_name(source_id@) == Some(n@)),
        source_id@ != SERVICE_LOG_ID@ && history_log_name(source_id@) is None ==> {
            let k = first_source_with_id(sources_view(sources@), source_id@);
            match r {
                LogTarget::File(p) => k >= 0 && p@ == sources_view(sources@)[k].path,
                LogTarget::Unknown => k == -1,
                LogTarget::Service => false,
                LogTarget::History(_) => false,
            }
        },
{
    if str_eq(source_id, SERVICE_LOG_ID) {
        return LogTarget::Service;
    }
    if let Some(name) = history_log_file(source_id) {
        return LogTarget::History(name);
    }
    let ghost sv = sources_view(sources@);
    proof {
        lemma_first_source_with_id(sv, source_id@);
    }
    let mut i: usize = 0;
    while i < sources.len()
        invariant
            i <= sources.len(),
            source_id@ != SERVICE_LOG_ID@,
            history_log_name(source_id@) is None,
            sv == sources_view(sources@),
            forall|k: int| 0 <= k < i ==> sv[k].id != source_id@,
            -1 <= first_source_with_id(sv, source_id@) < sv.len(),
            first_source_with_id(sv, source_id@) >= 0 ==> sv[first_source_with_id(sv, source_id@)].id == source_id@,
            forall|k: int| 0 <= k < sv.len() && (first_source_with_id(sv, source_id@) == -1 || k < first_source_with_id(sv, source_id@)) ==> sv[k].id != source_id@,
        decreases sources.len() - i,
    {
        assert(sv[i as int] == sources@[i as int]@);
        if str_eq(sources[i].id.as_str(), source_id) {
            return LogTarget::File(sources[i].path.clone());
        }
        i = i + 1;
    }
    LogTarget::Unknown
}

/// HTTP status for a refused process action.
pub fn process_error_status(e: &ProcessError) -> (r: u16)
    ensures
        r == match e {
            ProcessError::NotFound(_) => 404u16,
            ProcessError::SelfProcess(_) => 400u16,
            ProcessError::ActionFailed { .. } => 403u16,
        },
{
    match e {
        ProcessError::NotFound(_) => 404,
        ProcessError::SelfProcess(_) => 400,
        ProcessError::ActionFailed { .. } => 403,
    }
}

/// Audit action name of a process action.
pub fn process_audit_action(action: ProcessAction) -> (r: String)
    ensures
        r@ == match action {
            ProcessAction::Terminate => "process.terminate"@,
            ProcessAction::Kill => "process.kill"@,
        },
{
    match action {
        ProcessAction::Terminate => "process.terminate".to_owned(),
        ProcessAction::Kill => "process.kill".to_owned(),
    }
}

} // verus!
