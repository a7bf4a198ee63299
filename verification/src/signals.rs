//! Signals handed to the operating system, each recorded in a log that only
//! this module can extend.

use vstd::prelude::*;

verus! {

/// A signal sent to a process.
#[derive(Debug, Clone, Copy, PartialEq, Eq, Structural)]
pub enum SignalKind {
    /// SIGTERM.
    Term,
    /// SIGKILL.
    Kill,
}

/// The signals handed to the OS, oldest first. Its field is private, so it
/// grows only through `send_signal` and `send_kill`.
pub struct SentSignals {
    sent: Vec<SignalKind>,
}

impl View for SentSignals {
    type V = Seq<SignalKind>;

    closed spec fn view(&self) -> Seq<SignalKind> {
        self.sent@
    }
}

impl SentSignals {
    /// An empty log.
    pub fn new() -> (r: Self)
        ensures
            r@ == Seq::<SignalKind>::empty(),
    {
        SentSignals { sent: Vec::new() }
    }

    /// The signals sent, oldest first.
    pub fn signals(&self) -> (r: Vec<SignalKind>)
        ensures
            r@ == self@,
    {
        self.sent.clone()
    }
}

/// `Process::kill_with`: `None` when the platform lacks the signal, else
/// whether the OS accepted it. The answer depends on the machine.
#[verifier::external_body]
fn kill_with(p: &sysinfo::Process, signal: SignalKind) -> (r: Option<bool>) {
    p.kill_with(
        match signal {
            SignalKind::Term => sysinfo::Signal::Term,
            SignalKind::Kill => sysinfo::Signal::Kill,
        },
    )
}

/// `Process::kill` (which is `kill_with(Signal::Kill)`, `false` where the
/// platform lacks it): whether the OS accepted it.
#[verifier::external_body]
fn kill(p: &sysinfo::Process) -> (r: bool) {
    p.kill()
}

/// Hands `signal` to the OS for process `p` and records it.
pub fn send_signal(p: &sysinfo::Process, signal: SignalKind, log: &mut SentSignals) -> (r: Option<bool>)
    ensures
        final(log)@ == old(log)@.push(signal),
{
    let r = kill_with(p, signal);
    log.sent.push(signal);
    r
}

/// Hands SIGKILL to the OS for process `p` and records it.
pub fn send_kill(p: &sysinfo::Process, log: &mut SentSignals) -> (r: bool)
    ensures
        final(log)@ == old(log)@.push(SignalKind::Kill),
{
    let r = kill(p);
    log.sent.push(SignalKind::Kill);
    r
}

} // verus!
