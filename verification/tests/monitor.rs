use gsm_supervisor::monitor::{
    start_instance_log_monitor, start_monitor_in_thread, strip_terminator, Monitor, TailCommand,
    TailEvent, POLL_INTERVAL_MS,
};
use gsm_supervisor::rules::{Action, Level, LogRules, Matcher};

fn three_rules() -> LogRules {
    let mut rules = LogRules::new();
    rules.add_rule(Matcher::Contains("x".to_string()), Action::Call(1), false, Some(1));
    rules.add_rule(Matcher::Contains("x".to_string()), Action::Call(2), true, Some(2));
    rules.add_rule(Matcher::Contains("x".to_string()), Action::Call(3), false, Some(3));
    rules
}

#[test]
fn line_matching_three_ranked_rules_fires_the_first_two() {
    let monitor = Monitor::new(three_rules());
    assert_eq!(monitor.process_rules("x"), vec![Action::Call(1), Action::Call(2)]);
    assert_eq!(monitor.process_rules("y"), vec![Action::Log(Level::Info)]);
}

#[test]
fn rules_are_ranked_before_each_line() {
    let mut rules = LogRules::new();
    rules.add_rule(Matcher::Any, Action::Call(9), false, Some(10));
    rules.add_rule(Matcher::Any, Action::Call(8), false, Some(-10));
    let monitor = Monitor::new(rules);
    assert_eq!(
        monitor.process_rules("line"),
        vec![Action::Call(8), Action::Call(9), Action::Log(Level::Info)]
    );
}

#[test]
fn terminator_is_stripped_once() {
    assert_eq!(strip_terminator("line\n"), "line");
    assert_eq!(strip_terminator("line\r\n"), "line");
    assert_eq!(strip_terminator("line"), "line");
    assert_eq!(strip_terminator("line \n"), "line ");
    assert_eq!(strip_terminator("line\n\n"), "line\n");
    assert_eq!(strip_terminator("line\r"), "line\r");
    assert_eq!(strip_terminator("\n"), "");
    assert_eq!(strip_terminator("\r\n"), "");
    assert_eq!(strip_terminator(""), "");
}

#[test]
fn monitoring_begins_by_opening_at_the_end() {
    let monitor = Monitor::new(LogRules::new());
    assert!(matches!(monitor.run(&TailEvent::Start), TailCommand::OpenAtEnd));
}

#[test]
fn a_file_that_cannot_be_opened_is_given_up() {
    let monitor = Monitor::new(LogRules::new());
    assert!(matches!(monitor.run(&TailEvent::OpenFailed), TailCommand::Stop));
}

#[test]
fn a_line_is_dispatched_without_its_terminator() {
    let monitor = Monitor::new(three_rules());
    match monitor.run(&TailEvent::Line("x was here\r\n".to_string())) {
        TailCommand::Dispatch { line, actions } => {
            assert_eq!(line, "x was here");
            assert_eq!(actions, vec![Action::Call(1), Action::Call(2)]);
        }
        other => panic!("unexpected command {:?}", other),
    }
}

#[test]
fn truncated_file_is_reopened_at_start() {
    let monitor = Monitor::new(LogRules::new());
    let shrunk = TailEvent::EndOfFile { size: Some(10), offset: Some(11) };
    assert!(matches!(monitor.run(&shrunk), TailCommand::ReopenAtStart));
    let emptied = TailEvent::EndOfFile { size: Some(0), offset: Some(u64::MAX) };
    assert!(matches!(monitor.run(&emptied), TailCommand::ReopenAtStart));
}

#[test]
fn end_of_file_without_truncation_sleeps() {
    let monitor = Monitor::new(LogRules::new());
    for event in [
        TailEvent::EndOfFile { size: Some(11), offset: Some(11) },
        TailEvent::EndOfFile { size: Some(12), offset: Some(11) },
        TailEvent::EndOfFile { size: None, offset: Some(11) },
        TailEvent::EndOfFile { size: Some(1), offset: None },
        TailEvent::EndOfFile { size: None, offset: None },
        TailEvent::ReadFailed,
    ] {
        match monitor.run(&event) {
            TailCommand::Sleep(ms) => assert_eq!(ms, 100),
            other => panic!("unexpected command {:?}", other),
        }
    }
    assert_eq!(POLL_INTERVAL_MS, 100);
}

#[test]
fn lines_after_a_reopen_are_dispatched_once_each() {
    let monitor = Monitor::new(three_rules());
    let events = vec![
        TailEvent::Line("old x\n".to_string()),
        TailEvent::EndOfFile { size: Some(0), offset: Some(6) },
        TailEvent::Line("new x\n".to_string()),
        TailEvent::Line("new y\n".to_string()),
        TailEvent::EndOfFile { size: Some(12), offset: Some(12) },
    ];
    let mut dispatched = Vec::new();
    let mut reopened = 0;
    for event in &events {
        match monitor.run(event) {
            TailCommand::Dispatch { line, .. } => dispatched.push(line),
            TailCommand::ReopenAtStart => reopened += 1,
            TailCommand::Sleep(_) => {}
            other => panic!("unexpected command {:?}", other),
        }
    }
    assert_eq!(reopened, 1);
    assert_eq!(dispatched, vec!["old x", "new x", "new y"]);
}

#[test]
fn one_task_per_log_file() {
    let (out, err) = start_instance_log_monitor("/home/steam/enshrouded", three_rules());
    assert_eq!(out.file, "/home/steam/enshrouded/logs/server.log");
    assert_eq!(err.file, "/home/steam/enshrouded/logs/server.err");
    assert_eq!(out.name, "log-monitor-/home/steam/enshrouded/logs/server.log");
    assert_eq!(err.name, "log-monitor-/home/steam/enshrouded/logs/server.err");
    assert_eq!(out.monitor.rules.rules.len(), 4);
    assert_eq!(err.monitor.rules.rules.len(), 4);
    assert_eq!(out.monitor.process_rules("x"), err.monitor.process_rules("x"));
}

#[test]
fn task_for_one_file() {
    let task = start_monitor_in_thread("a.log", LogRules::default());
    assert_eq!(task.name, "log-monitor-a.log");
    assert_eq!(task.file, "a.log");
    assert_eq!(task.monitor.process_rules("an ERROR"), vec![Action::Log(Level::Error)]);
}
