use gleam_observer::listing::{filter_processes, process_matches, sort_processes, top_processes};
use gleam_observer::process::ProcessInfo;
use gleam_observer::ui_state::ProcessSortMode;

fn p(pid: u32, name: &str, cmd: &str, cpu: u32, mem: u64) -> ProcessInfo {
    ProcessInfo {
        pid,
        name: name.to_string(),
        cmd: cmd.to_string(),
        cpu_usage: cpu,
        memory_kb: mem,
        user: "u".to_string(),
    }
}

fn sample() -> Vec<ProcessInfo> {
    vec![
        p(30, "bash", "/bin/bash", 1_000, 500),
        p(10, "Firefox", "firefox --new", 50_000, 9000),
        p(20, "cargo", "cargo build", 20_000, 3000),
        p(40, "zsh", "zsh", 20_000, 100),
    ]
}

fn pids(v: &[ProcessInfo]) -> Vec<u32> {
    v.iter().map(|x| x.pid).collect()
}

#[test]
fn sorting_modes() {
    assert_eq!(pids(&sort_processes(sample(), ProcessSortMode::Cpu)), vec![10, 20, 40, 30]);
    assert_eq!(pids(&sort_processes(sample(), ProcessSortMode::Memory)), vec![10, 20, 30, 40]);
    assert_eq!(pids(&sort_processes(sample(), ProcessSortMode::Name)), vec![10, 30, 20, 40]);
    assert_eq!(pids(&sort_processes(sample(), ProcessSortMode::Pid)), vec![10, 20, 30, 40]);
}

#[test]
fn top_by_cpu() {
    assert_eq!(pids(&top_processes(sample(), ProcessSortMode::Cpu, 2)), vec![10, 20]);
    assert_eq!(top_processes(sample(), ProcessSortMode::Cpu, 10).len(), 4);
    assert!(top_processes(sample(), ProcessSortMode::Cpu, 0).is_empty());
}

#[test]
fn filtering_ignores_case() {
    assert_eq!(pids(&filter_processes(sample(), "FIRE")), vec![10]);
    assert_eq!(pids(&filter_processes(sample(), "build")), vec![20]);
    assert_eq!(pids(&filter_processes(sample(), "4")), vec![40]);
    assert_eq!(filter_processes(sample(), "").len(), 4);
    assert!(filter_processes(sample(), "nothing").is_empty());
    assert!(process_matches("12", "x", "y", 3120));
    assert!(!process_matches("Ab", "ab", "ab", 1));
}
