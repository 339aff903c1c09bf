use gsm_supervisor::errors::InstanceError;
use gsm_supervisor::process::{
    are_processes_running, find_processes, rank_matches, score_entry, score_processes,
    send_interrupt, send_interrupt_to_pid, ProcessEntry, ProcessMatch, SIMILARITY_THRESHOLD,
};

fn entry(pid: u32, name: &str) -> ProcessEntry {
    ProcessEntry { pid, name: Some(name.to_string()) }
}

fn host_table() -> Vec<ProcessEntry> {
    vec![
        entry(1, "systemd"),
        entry(214, "sshd"),
        entry(300, "bash"),
        entry(301, "sleep"),
        ProcessEntry { pid: 400, name: None },
        entry(402, "Sleep"),
        entry(500, "enshrouded_server.exe"),
        entry(501, "wineserver"),
    ]
}

fn bits(score: f64) -> u64 {
    score.to_bits()
}

#[test]
fn threshold_is_three_quarters() {
    assert_eq!(SIMILARITY_THRESHOLD, 0.75f64.to_bits());
    assert_eq!(f64::from_bits(SIMILARITY_THRESHOLD), 0.75);
}

#[test]
fn test_find_processes_none() {
    let processes = find_processes("nonexistent_executable_xyz", &host_table());
    assert!(processes.is_empty());
}

#[test]
fn test_are_processes_running() {
    let running = are_processes_running("sleep", &host_table());
    assert!(running);
}

#[test]
fn test_send_interrupt() {
    let pids = send_interrupt("sleep", &host_table()).unwrap();
    assert!(pids.contains(&301) || pids.contains(&402));
    assert_eq!(pids, vec![301, 402]);
}

#[test]
fn test_send_interrupt_to_pid() {
    assert!(send_interrupt_to_pid(301, &host_table()));
    assert!(!send_interrupt_to_pid(302, &host_table()));
    assert!(!send_interrupt_to_pid(301, &Vec::new()));
}

#[test]
fn similarity_is_that_of_jaro_winkler() {
    let same = score_entry("sleep", &entry(1, "sleep"));
    assert_eq!(same, bits(1.0));
    let none = score_entry("sleep", &entry(1, "xyz"));
    assert_eq!(none, bits(0.0));
    let close = f64::from_bits(score_entry("cheeseburger", &entry(1, "cheese fries")));
    assert!((close - 0.866).abs() < 0.001);
    let nameless = score_entry("unknown", &ProcessEntry { pid: 1, name: None });
    assert_eq!(nameless, bits(1.0));
}

#[test]
fn names_are_compared_in_lower_case() {
    let scores = score_processes("SLEEP", &host_table());
    assert_eq!(scores.len(), 8);
    assert_eq!(scores[3], ProcessMatch { pid: 301, score: bits(1.0) });
    assert_eq!(scores[5], ProcessMatch { pid: 402, score: bits(1.0) });
    assert_eq!(scores[0].pid, 1);
    assert!(scores[0].score < SIMILARITY_THRESHOLD);
}

#[test]
fn only_scores_above_the_threshold_pass() {
    let candidates = vec![
        ProcessMatch { pid: 1, score: bits(0.75) },
        ProcessMatch { pid: 2, score: bits(0.7500000000000001) },
        ProcessMatch { pid: 3, score: bits(0.0) },
        ProcessMatch { pid: 4, score: bits(1.0) },
        ProcessMatch { pid: 5, score: bits(0.7499999999999999) },
        ProcessMatch { pid: 6, score: bits(0.9) },
    ];
    let found = rank_matches(&candidates);
    let pids: Vec<u32> = found.iter().map(|m| m.pid).collect();
    assert_eq!(pids, vec![4, 6, 2]);
}

#[test]
fn equal_scores_keep_the_order_of_the_table() {
    let candidates = vec![
        ProcessMatch { pid: 9, score: bits(0.8) },
        ProcessMatch { pid: 3, score: bits(0.9) },
        ProcessMatch { pid: 7, score: bits(0.8) },
        ProcessMatch { pid: 1, score: bits(0.9) },
    ];
    let pids: Vec<u32> = rank_matches(&candidates).iter().map(|m| m.pid).collect();
    assert_eq!(pids, vec![3, 1, 9, 7]);
    assert!(rank_matches(&Vec::new()).is_empty());
}

#[test]
fn found_processes_are_ordered_by_similarity() {
    let table = vec![entry(1, "server"), entry(2, "game_server"), entry(3, "game_server.exe")];
    let found = find_processes("game_server.exe", &table);
    let pids: Vec<u32> = found.iter().map(|m| m.pid).collect();
    assert_eq!(pids, vec![3, 2]);
    assert_eq!(found[0].score, bits(1.0));
    assert!(found[1].score > SIMILARITY_THRESHOLD && found[1].score < bits(1.0));
    let expected = strsim::jaro_winkler("game_server.exe", "game_server");
    assert_eq!(found[1].score, expected.to_bits());
    assert!(strsim::jaro_winkler("game_server.exe", "server") <= 0.75);
}

#[test]
fn no_process_to_interrupt_is_an_error() {
    match send_interrupt("nonexistent_executable_xyz", &host_table()) {
        Err(InstanceError::ProcessError(message)) => assert_eq!(
            message,
            "Failed to find process with executable name: nonexistent_executable_xyz"
        ),
        other => panic!("unexpected result {:?}", other),
    }
    assert!(matches!(send_interrupt("sleep", &Vec::new()), Err(InstanceError::ProcessError(_))));
    assert!(!are_processes_running("sleep", &Vec::new()));
    assert!(!are_processes_running("nonexistent_executable_xyz", &host_table()));
}
