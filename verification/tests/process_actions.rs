use smos::processes::{
    act_on_process, act_on_table, action_outcome, signal_for, u32_to_decimal, ProcessAction, ProcessError, SignalKind,
};

#[test]
fn refuse_self_kill() {
    let self_pid = 4242;
    let err = act_on_process(self_pid, self_pid, ProcessAction::Kill, 1_700_000_000).unwrap_err();
    match err {
        ProcessError::SelfProcess(p) => assert_eq!(p, self_pid),
        other => panic!("expected SelfProcess, got {}", other.message()),
    }
}

#[test]
fn not_found_for_impossible_pid() {
    let err = act_on_process(1, u32::MAX - 7, ProcessAction::Terminate, 1_700_000_000).unwrap_err();
    match err {
        ProcessError::NotFound(_) => {}
        other => panic!("expected NotFound, got {}", other.message()),
    }
}

#[test]
fn process_error_messages() {
    assert_eq!(ProcessError::NotFound(12).message(), "process 12 not found");
    assert_eq!(
        ProcessError::SelfProcess(7).message(),
        "refusing to act on SMOS self process (pid 7)"
    );
    assert_eq!(
        ProcessError::ActionFailed { pid: 3, message: "no".into() }.message(),
        "action failed for pid 3: no"
    );
    assert_eq!(u32_to_decimal(0), "0");
    assert_eq!(u32_to_decimal(4_294_967_295), "4294967295");
}

#[test]
fn action_outcomes() {
    match action_outcome(9, ProcessAction::Terminate, SignalKind::Term, false, true, true, 5).unwrap_err() {
        ProcessError::NotFound(p) => assert_eq!(p, 9),
        other => panic!("unexpected {}", other.message()),
    }
    let r = action_outcome(9, ProcessAction::Terminate, SignalKind::Term, true, true, false, 5).unwrap();
    assert_eq!(r.message, "signal Term delivered to pid 9");
    assert!(r.success);
    assert_eq!(r.timestamp, 5);
    let r = action_outcome(9, ProcessAction::Kill, SignalKind::Kill, true, false, true, 6).unwrap();
    assert_eq!(r.message, "kill delivered to pid 9");
    assert_eq!(r.action, ProcessAction::Kill);
    match action_outcome(9, ProcessAction::Kill, SignalKind::Kill, true, false, false, 6).unwrap_err() {
        ProcessError::ActionFailed { pid, message } => {
            assert_eq!(pid, 9);
            assert_eq!(message, "OS refused process signal/kill (permission or unsupported)");
        }
        other => panic!("unexpected {}", other.message()),
    }
}

#[test]
fn signals_of_actions() {
    assert_eq!(signal_for(ProcessAction::Terminate), SignalKind::Term);
    assert_eq!(signal_for(ProcessAction::Kill), SignalKind::Kill);
    let r = action_outcome(3, ProcessAction::Kill, SignalKind::Kill, true, true, false, 1).unwrap();
    assert_eq!(r.message, "signal Kill delivered to pid 3");
}

#[test]
fn empty_table_finds_nothing() {
    let sys = sysinfo::System::new();
    let (r, sent) = act_on_table(&sys, 1, 77, ProcessAction::Terminate, 0);
    assert!(sent.signals().is_empty());
    match r.unwrap_err() {
        ProcessError::NotFound(p) => assert_eq!(p, 77),
        other => panic!("unexpected {}", other.message()),
    }
    let (r, sent) = act_on_table(&sys, 77, 77, ProcessAction::Kill, 0);
    assert!(sent.signals().is_empty());
    match r.unwrap_err() {
        ProcessError::SelfProcess(p) => assert_eq!(p, 77),
        other => panic!("unexpected {}", other.message()),
    }
}
