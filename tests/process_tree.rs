use gleam_observer::process::{ppid_from_stat, ProcessInfo, ProcessTree};
use gleam_observer::signals::{
    custom_signal_if_alive, force_kill, process_exists, send_custom_signal, signal_from_number,
    signal_if_alive, terminate, KillAction,
    KillEvent, KillMode, KillOutcome, KillPhase, KillState, ProcessError, Signal,
};
use std::collections::HashSet;

fn info(pid: u32, name: &str, cpu_usage: u32, memory_kb: u64) -> ProcessInfo {
    ProcessInfo {
        pid,
        name: name.to_string(),
        cmd: name.to_string(),
        cpu_usage,
        memory_kb,
        user: "root".to_string(),
    }
}

fn sample_tree() -> ProcessTree {
    let mut tree = ProcessTree::new();
    tree.build_from_processes(vec![
        (info(1, "init", 0, 1000), Some(0)),
        (info(100, "parent", 10_000, 2000), Some(1)),
        (info(200, "child", 5_000, 1500), Some(100)),
    ]);
    tree
}

#[test]
fn test_process_exists() {
    assert!(process_exists(1));
    assert!(!process_exists(99999));
}

#[test]
fn test_tree_building() {
    let tree = sample_tree();
    assert_eq!(tree.len(), 3);
}

#[test]
fn test_collapsed_nodes() {
    let mut tree = sample_tree();
    let mut collapsed = HashSet::new();
    collapsed.insert(100);
    tree.calculate_render_order(&collapsed);
    assert_eq!(tree.render_order().clone(), vec![(1, 0), (100, 1)]);
}

#[test]
fn tree_links_parent_and_child() {
    let tree = sample_tree();
    assert_eq!(tree.get_node(1).unwrap().children, vec![100]);
    assert_eq!(tree.get_node(100).unwrap().children, vec![200]);
    assert!(tree.get_node(200).unwrap().children.is_empty());
    assert!(tree.has_children(100));
    assert!(!tree.has_children(200));
    assert!(!tree.has_children(7));
}

#[test]
fn render_order_is_depth_first() {
    let mut tree = sample_tree();
    tree.calculate_render_order(&HashSet::new());
    assert_eq!(tree.render_order().clone(), vec![(1, 0), (100, 1), (200, 2)]);
    let visible: Vec<(u32, usize)> = tree.iter_visible().iter().map(|(n, d)| (n.pid, *d)).collect();
    assert_eq!(visible, vec![(1, 0), (100, 1), (200, 2)]);
}

#[test]
fn aggregated_cpu_sums_subtree() {
    let tree = sample_tree();
    assert_eq!(tree.get_aggregated_cpu(100), 10_000 + 5_000);
    assert_eq!(tree.get_aggregated_cpu(1), 15_000);
    assert_eq!(tree.get_aggregated_cpu(42), 0);
    assert_eq!(tree.get_aggregated_memory(100), 3500);
    assert_eq!(tree.get_aggregated_memory(1), 4500);
}

#[test]
fn self_parent_and_orphans_are_roots() {
    let mut tree = ProcessTree::new();
    tree.build_from_processes(vec![
        (info(300, "orphan", 0, 1), Some(999)),
        (info(5, "selfish", 0, 1), Some(5)),
        (info(6, "kid", 0, 1), Some(5)),
        (info(7, "unknown", 0, 1), None),
    ]);
    tree.calculate_render_order(&HashSet::new());
    assert_eq!(tree.render_order().clone(), vec![(5, 0), (6, 1), (7, 0), (300, 0)]);
    assert!(tree.get_node(5).unwrap().children == vec![6]);
}

#[test]
fn duplicate_pid_keeps_last_entry() {
    let mut tree = ProcessTree::new();
    tree.build_from_processes(vec![
        (info(10, "old", 1, 1), Some(0)),
        (info(10, "new", 2, 2), Some(0)),
    ]);
    assert_eq!(tree.len(), 1);
    assert_eq!(tree.get_node(10).unwrap().info.name, "new");
}

#[test]
fn children_sorted_by_pid() {
    let mut tree = ProcessTree::new();
    tree.build_from_processes(vec![
        (info(50, "c", 0, 1), Some(1)),
        (info(1, "init", 0, 1), Some(0)),
        (info(20, "b", 0, 1), Some(1)),
        (info(30, "a", 0, 1), Some(1)),
    ]);
    assert_eq!(tree.get_node(1).unwrap().children, vec![20, 30, 50]);
}

#[test]
fn terminate_missing_process_sends_nothing() {
    let (st, act) = KillState::start(4_000_000_000, KillMode::GracefulOnly);
    assert!(matches!(act, KillAction::Probe));
    let (st, act) = st.step(KillEvent::Probed(false));
    assert_eq!(st.phase, KillPhase::Done);
    assert!(matches!(
        act,
        KillAction::Finish(Err(ProcessError::NotFound { pid: 4_000_000_000 }))
    ));
    assert_eq!(terminate(4_000_000_000), Err(ProcessError::NotFound { pid: 4_000_000_000 }));
    assert_eq!(force_kill(4_000_000_000), Err(ProcessError::NotFound { pid: 4_000_000_000 }));
}

#[test]
fn escalation_runs_to_forceful_signal() {
    let (st, _) = KillState::start(1234, KillMode::Escalate);
    let (st, act) = st.step(KillEvent::Probed(true));
    assert!(matches!(act, KillAction::Send(Signal::Term)));
    let (st, act) = st.step(KillEvent::Sent(Ok(())));
    assert!(matches!(act, KillAction::WaitMillis(3000)));
    let (st, act) = st.step(KillEvent::Waited);
    assert!(matches!(act, KillAction::Probe));
    let (st, act) = st.step(KillEvent::Probed(true));
    assert!(matches!(act, KillAction::Send(Signal::Kill)));
    let (st, act) = st.step(KillEvent::Sent(Ok(())));
    assert!(matches!(act, KillAction::WaitMillis(500)));
    let (st, act) = st.step(KillEvent::Waited);
    assert!(matches!(act, KillAction::Probe));
    let (st, act) = st.step(KillEvent::Probed(false));
    assert_eq!(st.phase, KillPhase::Done);
    assert!(matches!(act, KillAction::Finish(Ok(KillOutcome::TerminatedByKill))));
}

#[test]
fn escalation_stops_when_graceful_signal_works() {
    let (st, _) = KillState::start(77, KillMode::Escalate);
    let (st, _) = st.step(KillEvent::Probed(true));
    let (st, _) = st.step(KillEvent::Sent(Ok(())));
    let (st, _) = st.step(KillEvent::Waited);
    let (_, act) = st.step(KillEvent::Probed(false));
    match act {
        KillAction::Finish(Ok(o)) => {
            assert_eq!(o, KillOutcome::TerminatedGracefully);
            assert_eq!(o.message(77), "Process 77 terminated gracefully (SIGTERM)");
        }
        _ => panic!("expected a finished run"),
    }
}

#[test]
fn send_failure_aborts_escalation() {
    let (st, _) = KillState::start(9, KillMode::Escalate);
    let (st, _) = st.step(KillEvent::Probed(true));
    let err = ProcessError::SignalFailed { pid: 9, signal: Signal::Term, errno: 1 };
    let (st, act) = st.step(KillEvent::Sent(Err(err)));
    assert_eq!(st.phase, KillPhase::Done);
    assert!(matches!(act, KillAction::Finish(Err(e)) if e == err));
}

#[test]
fn still_alive_after_kill_is_reported() {
    let (st, _) = KillState::start(5, KillMode::Escalate);
    let (st, _) = st.step(KillEvent::Probed(true));
    let (st, _) = st.step(KillEvent::Sent(Ok(())));
    let (st, _) = st.step(KillEvent::Waited);
    let (st, _) = st.step(KillEvent::Probed(true));
    let (st, _) = st.step(KillEvent::Sent(Ok(())));
    let (st, _) = st.step(KillEvent::Waited);
    let (_, act) = st.step(KillEvent::Probed(true));
    match act {
        KillAction::Finish(Ok(o)) => {
            assert_eq!(o, KillOutcome::KillSentStillAlive);
            assert_eq!(o.message(5), "Sent SIGKILL to process 5 (escalated from SIGTERM)");
        }
        _ => panic!("expected a finished run"),
    }
}

#[test]
fn custom_signal_numbers() {
    assert_eq!(signal_from_number(15), Some(Signal::Term));
    assert_eq!(signal_from_number(9), Some(Signal::Kill));
    assert_eq!(signal_from_number(18), Some(Signal::Cont));
    assert_eq!(signal_from_number(3), None);
    assert_eq!(
        send_custom_signal(4_000_000_000, 15),
        Err(ProcessError::NotFound { pid: 4_000_000_000 })
    );
    assert_eq!(Signal::Usr1.name(), "SIGUSR1");
    assert_eq!(KillOutcome::Delivered(Signal::Term).message(42), "Sent SIGTERM to process 42");
}

#[test]
fn unsupported_signal_number_is_refused() {
    assert_eq!(
        send_custom_signal(1, 3),
        Err(ProcessError::UnsupportedSignal { signal_num: 3 })
    );
}


#[test]
fn parent_pid_from_stat_line() {
    assert_eq!(ppid_from_stat("1234 (bash) S 567 1234 1234 0 -1"), Some(567));
    assert_eq!(ppid_from_stat("99 (odd) name (x)) R 42 99"), Some(42));
    assert_eq!(ppid_from_stat("99 (cut) R"), None);
    assert_eq!(ppid_from_stat("no parenthesis here"), None);
}

#[test]
fn process_error_messages() {
    assert_eq!(ProcessError::NotFound { pid: 99999 }.message(), "Process 99999 does not exist");
    assert_eq!(
        ProcessError::SignalFailed { pid: 7, signal: Signal::Kill, errno: 1 }.message(),
        "Failed to send signal SIGKILL to process 7: OS error 1"
    );
    assert_eq!(
        ProcessError::UnsupportedSignal { signal_num: -3 }.message(),
        "Unsupported signal number: -3"
    );
    assert_eq!(ProcessError::InvalidPid { pid: 0 }.message(), "Invalid process id 0");
}

#[test]
fn dead_process_gets_no_signal() {
    let r = signal_if_alive(1, KillMode::ForcefulOnly, false);
    assert_eq!(r, Err(ProcessError::NotFound { pid: 1 }));
    assert!(r.unwrap_err().message().contains("does not exist"));
}

#[test]
fn live_process_is_never_reported_missing() {
    assert_eq!(
        signal_if_alive(0, KillMode::GracefulOnly, true),
        Err(ProcessError::InvalidPid { pid: 0 })
    );
    assert_eq!(
        signal_if_alive(3_000_000_000, KillMode::ForcefulOnly, true),
        Err(ProcessError::InvalidPid { pid: 3_000_000_000 })
    );
    assert_eq!(
        custom_signal_if_alive(1, 3, true),
        Err(ProcessError::UnsupportedSignal { signal_num: 3 })
    );
    assert_eq!(custom_signal_if_alive(1, 3, false), Err(ProcessError::NotFound { pid: 1 }));
    assert_eq!(
        custom_signal_if_alive(0, 15, true),
        Err(ProcessError::InvalidPid { pid: 0 })
    );
}
