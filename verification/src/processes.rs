//! Process lifecycle actions (terminate / kill) with the self-process guard.

use vstd::prelude::*;
pub use crate::signals::SignalKind;
use crate::signals::{send_kill, send_signal, SentSignals};

verus! {

broadcast use vstd::string::group_string_axioms;

#[verifier::external_type_specification]
#[verifier::external_body]
pub struct ExSystem(sysinfo::System);

#[verifier::external_type_specification]
#[verifier::external_body]
pub struct ExProcess(sysinfo::Process);

/// What to do to a process.
#[derive(Debug, Clone, Copy, PartialEq, Eq, Structural)]
pub enum ProcessAction {
    /// Graceful termination (SIGTERM on Unix).
    Terminate,
    /// Forced kill (SIGKILL on Unix).
    Kill,
}

/// Body of a process action request.
#[derive(Debug, Clone, Copy)]
pub struct ProcessActionRequest {
    pub action: ProcessAction,
}

/// Outcome of a delivered action.
#[derive(Debug)]
pub struct ProcessActionResult {
    pub pid: u32,
    pub action: ProcessAction,
    pub success: bool,
    pub message: String,
    /// Unix seconds.
    pub timestamp: i64,
}

/// Why an action was not delivered.
#[derive(Debug, PartialEq)]
pub enum ProcessError {
    NotFound(u32),
    SelfProcess(u32),
    ActionFailed { pid: u32, message: String },
}

/// Decimal digits of `n`, most significant first.
pub open spec fn decimal(n: nat) -> Seq<char>
    decreases n,
{
    if n < 10 {
        seq![(0x30 + n) as char]
    } else {
        decimal(n / 10).push((0x30 + n % 10) as char)
    }
}

/// `n` in decimal.
pub fn u32_to_decimal(n: u32) -> (r: String)
    ensures
        r@ == decimal(n as nat),
    decreases n,
{
    if n < 10 {
        let mut s = String::new();
        crate::text::push_char(&mut s, char_of_digit(n));
        assert(s@ =~= decimal(n as nat));
        s
    } else {
        let mut s = u32_to_decimal(n / 10);
        crate::text::push_char(&mut s, char_of_digit(n % 10));
        s
    }
}

fn char_of_digit(d: u32) -> (c: char)
    requires
        d < 10,
    ensures
        c == (0x30 + d) as char,
{
    match d {
        0 => '0',
        1 => '1',
        2 => '2',
        3 => '3',
        4 => '4',
        5 => '5',
        6 => '6',
        7 => '7',
        8 => '8',
        _ => '9',
    }
}

/// Refusal text when the OS rejects both the signal and the kill.
pub open spec fn refused_text() -> Seq<char> {
    "OS refused process signal/kill (permission or unsupported)"@
}

impl ProcessError {
    /// The message the service reports for this error.
    pub fn message(&self) -> (r: String)
        ensures
            self matches ProcessError::NotFound(p) ==> r@ == "process "@ + decimal(p as nat) + " not found"@,
            self matches ProcessError::SelfProcess(p) ==> r@ == "refusing to act on SMOS self process (pid "@
                + decimal(p as nat) + ")"@,
            self matches ProcessError::ActionFailed { pid, message } ==> r@ == "action failed for pid "@
                + decimal(pid as nat) + ": "@ + message@,
    {
        match self {
            ProcessError::NotFound(p) => {
                let mut m = "process ".to_owned();
                m.append(u32_to_decimal(*p).as_str());
                m.append(" not found");
                m
            },
            ProcessError::SelfProcess(p) => {
                let mut m = "refusing to act on SMOS self process (pid ".to_owned();
                m.append(u32_to_decimal(*p).as_str());
                m.append(")");
                m
            },
            ProcessError::ActionFailed { pid, message } => {
                let mut m = "action failed for pid ".to_owned();
                m.append(u32_to_decimal(*pid).as_str());
                m.append(": ");
                m.append(message.as_str());
                m
            },
        }
    }
}

/// The signal an action sends: SIGTERM to terminate, SIGKILL to kill.
pub open spec fn signal_of(action: ProcessAction) -> SignalKind {
    match action {
        ProcessAction::Terminate => SignalKind::Term,
        ProcessAction::Kill => SignalKind::Kill,
    }
}

/// The signal an action sends (see `signal_of`).
pub fn signal_for(action: ProcessAction) -> (r: SignalKind)
    ensures
        r == signal_of(action),
{
    match action {
        ProcessAction::Terminate => SignalKind::Term,
        ProcessAction::Kill => SignalKind::Kill,
    }
}

/// The name a signal prints as.
pub open spec fn signal_name(signal: SignalKind) -> Seq<char> {
    match signal {
        SignalKind::Term => "Term"@,
        SignalKind::Kill => "Kill"@,
    }
}

/// Message for a signal that was delivered.
pub open spec fn signal_delivered_text(signal: SignalKind, pid: u32) -> Seq<char> {
    "signal "@ + signal_name(signal) + " delivered to pid "@ + decimal(pid as nat)
}

/// Message for a plain kill that was delivered.
pub open spec fn kill_delivered_text(pid: u32) -> Seq<char> {
    "kill delivered to pid "@ + decimal(pid as nat)
}

/// A process table with no entries yet (`System::new`).
#[verifier::external_body]
pub(crate) fn new_system() -> (r: sysinfo::System) {
    sysinfo::System::new()
}

/// `System::refresh_processes(ProcessesToUpdate::All, true)`: reloads every
/// process. What the table then holds depends on the machine.
#[verifier::external_body]
pub(crate) fn refresh_all_processes(sys: &mut sysinfo::System) {
    sys.refresh_processes(sysinfo::ProcessesToUpdate::All, true);
}

/// The pids a process table holds.
pub uninterp spec fn process_pids(sys: sysinfo::System) -> Set<u32>;

/// `System::process(Pid::from_u32(pid))`: the table's entry for `pid`, found
/// exactly when the table holds that pid.
#[verifier::external_body]
pub(crate) fn find_process<'a>(sys: &'a sysinfo::System, pid: u32) -> (r: Option<&'a sysinfo::Process>)
    ensures
        r is Some <==> process_pids(*sys).contains(pid),
{
    sys.process(sysinfo::Pid::from_u32(pid))
}

/// What an action on `pid` reports, given whether the process was found,
/// whether `signal` was delivered (or, where the platform lacks it, a plain
/// kill) and whether the fallback kill was delivered.
pub open spec fn outcome_is(
    r: Result<ProcessActionResult, ProcessError>,
    pid: u32,
    action: ProcessAction,
    signal: SignalKind,
    found: bool,
    signal_sent: bool,
    kill_sent: bool,
    now: i64,
) -> bool {
    if !found {
        r == Err::<ProcessActionResult, ProcessError>(ProcessError::NotFound(pid))
    } else if signal_sent {
        r matches Ok(res) && res.pid == pid && res.action == action && res.success
            && res.message@ == signal_delivered_text(signal, pid) && res.timestamp == now
    } else if kill_sent {
        r matches Ok(res) && res.pid == pid && res.action == action && res.success
            && res.message@ == kill_delivered_text(pid) && res.timestamp == now
    } else {
        r matches Err(ProcessError::ActionFailed { pid: p, message }) && p == pid && message@
            == refused_text()
    }
}

/// The report of an action: not found; the signal delivered; else the
/// fallback kill delivered; else refused by the OS.
pub fn action_outcome(
    pid: u32,
    action: ProcessAction,
    signal: SignalKind,
    found: bool,
    signal_sent: bool,
    kill_sent: bool,
    now: i64,
) -> (r: Result<ProcessActionResult, ProcessError>)
    ensures
        outcome_is(r, pid, action, signal, found, signal_sent, kill_sent, now),
{
    if !found {
        return Err(ProcessError::NotFound(pid));
    }
    if signal_sent {
        let mut m = "signal ".to_owned();
        match signal {
            SignalKind::Term => m.append("Term"),
            SignalKind::Kill => m.append("Kill"),
        }
        m.append(" delivered to pid ");
        m.append(u32_to_decimal(pid).as_str());
        Ok(ProcessActionResult { pid, action, success: true, message: m, timestamp: now })
    } else if kill_sent {
        let mut m = "kill delivered to pid ".to_owned();
        m.append(u32_to_decimal(pid).as_str());
        Ok(ProcessActionResult { pid, action, success: true, message: m, timestamp: now })
    } else {
        Err(
            ProcessError::ActionFailed {
                pid,
                message: "OS refused process signal/kill (permission or unsupported)".to_owned(),
            },
        )
    }
}

/// Acts on process `pid` of the table `sys` at Unix time `now`, never on
/// the service's own process `self_pid`: a pid the table lacks is not found;
/// else the action's signal is sent, then a plain kill where the platform
/// lacks that signal, and a plain kill as fallback when the OS refuses.
/// Returns the report and the signals handed to the OS.
pub fn act_on_table(sys: &sysinfo::System, self_pid: u32, pid: u32, action: ProcessAction, now: i64) -> (r: (Result<ProcessActionResult, ProcessError>, SentSignals))
    ensures
        pid == self_pid ==> r.0 == Err::<ProcessActionResult, ProcessError>(ProcessError::SelfProcess(pid))
            && r.1@.len() == 0,
        pid != self_pid && !process_pids(*sys).contains(pid) ==> r.0 == Err::<ProcessActionResult, ProcessError>(
            ProcessError::NotFound(pid),
        ) && r.1@.len() == 0,
        pid != self_pid && process_pids(*sys).contains(pid) ==> {
            &&& 1 <= r.1@.len() <= 3
            &&& r.1@[0] == signal_of(action)
            &&& forall|i: int| 1 <= i < r.1@.len() ==> #[trigger] r.1@[i] == SignalKind::Kill
            &&& exists|signal_sent: bool, kill_sent: bool|
                #[trigger] outcome_is(r.0, pid, action, signal_of(action), true, signal_sent, kill_sent, now)
        },
{
    let mut log = SentSignals::new();
    if pid == self_pid {
        return (Err(ProcessError::SelfProcess(pid)), log);
    }
    let proc_ = match find_process(sys, pid) {
        None => {
            return (action_outcome(pid, action, signal_for(action), false, false, false, now), log);
        },
        Some(p) => p,
    };
    let signal = signal_for(action);
    let signal_sent = match send_signal(proc_, signal, &mut log) {
        Some(b) => b,
        None => send_kill(proc_, &mut log),
    };
    let kill_sent = if signal_sent {
        false
    } else {
        send_kill(proc_, &mut log)
    };
    (action_outcome(pid, action, signal, true, signal_sent, kill_sent, now), log)
}

/// Acts on process `pid` at Unix time `now` (see `act_on_table`) in a
/// freshly loaded process table; what the table holds depends on the machine.
pub fn act_on_process(self_pid: u32, pid: u32, action: ProcessAction, now: i64) -> (r: Result<ProcessActionResult, ProcessError>)
    ensures
        pid == self_pid ==> r == Err::<ProcessActionResult, ProcessError>(ProcessError::SelfProcess(pid)),
        pid != self_pid ==> exists|found: bool, signal_sent: bool, kill_sent: bool|
            #[trigger] outcome_is(r, pid, action, signal_of(action), found, signal_sent, kill_sent, now),
{
    let mut sys = new_system();
    refresh_all_processes(&mut sys);
    let (r, _sent) = act_on_table(&sys, self_pid, pid, action, now);
    proof {
        if pid != self_pid && !process_pids(sys).contains(pid) {
            assert(outcome_is(r, pid, action, signal_of(action), false, false, false, now));
        }
    }
    r
}

} // verus!
