use gsm_supervisor::rules::{
    default_ranking, evaluate, Action, Level, LogRule, LogRules, Matcher, DEFAULT_STOP_INT,
};

fn rule(matcher: Matcher, action: Action, ranking: i32, stop: bool) -> LogRule {
    LogRule { matcher, action, ranking, stop }
}

fn contains(needle: &str) -> Matcher {
    Matcher::Contains(needle.to_string())
}

#[test]
fn stop_flag_ends_the_chain() {
    let ordered = vec![
        rule(contains("x"), Action::Call(1), 1, false),
        rule(contains("x"), Action::Call(2), 2, true),
        rule(contains("x"), Action::Call(3), 3, false),
    ];
    assert_eq!(evaluate(&ordered, "x marks the spot"), vec![Action::Call(1), Action::Call(2)]);
}

#[test]
fn rules_that_do_not_match_are_passed_over() {
    let ordered = vec![
        rule(contains("a"), Action::Call(1), 1, true),
        rule(contains("b"), Action::Call(2), 2, false),
        rule(contains("c"), Action::Call(3), 3, true),
        rule(Matcher::Any, Action::Call(4), 4, true),
    ];
    assert_eq!(evaluate(&ordered, "b + c"), vec![Action::Call(2), Action::Call(3)]);
    assert_eq!(evaluate(&ordered, "no one"), vec![Action::Call(4)]);
    assert_eq!(evaluate(&ordered, "a b c"), vec![Action::Call(1)]);
}

#[test]
fn no_rule_no_action() {
    assert_eq!(evaluate(&Vec::new(), "line"), Vec::<Action>::new());
    let ordered = vec![rule(contains("a"), Action::Call(1), 1, true)];
    assert_eq!(evaluate(&ordered, "b"), Vec::<Action>::new());
}

#[test]
fn new_rule_set_holds_the_catch_all() {
    let rules = LogRules::new();
    let snapshot = rules.get_rules();
    assert_eq!(snapshot.len(), 1);
    assert_eq!(snapshot[0].ranking, 99999);
    assert_eq!(DEFAULT_STOP_INT, 99999);
    assert!(snapshot[0].stop);
    assert_eq!(snapshot[0].action, Action::Log(Level::Info));
    assert!(snapshot[0].matcher.matches("anything"));
    assert!(snapshot[0].matcher.matches(""));
}

#[test]
fn new_rule_is_the_catch_all() {
    let rule = LogRule::new();
    assert_eq!(rule.ranking, 99999);
    assert!(rule.stop);
    assert_eq!(rule.action, Action::Log(Level::Info));
    assert!(rule.matcher.matches("x"));
}

#[test]
fn default_ranking_counts_up_from_below_the_catch_all() {
    assert_eq!(default_ranking(0), -99999);
    assert_eq!(default_ranking(1), -99998);
    assert_eq!(default_ranking(99999), 0);
    assert_eq!(default_ranking(i32::MAX as usize), i32::MAX - 99999);
    assert_eq!(default_ranking(i32::MAX as usize + 1), i32::MAX - 99999);
    assert_eq!(default_ranking(usize::MAX), i32::MAX - 99999);
}

#[test]
fn rules_without_ranking_are_tried_in_order_of_registration() {
    let mut rules = LogRules::new();
    rules.add_rule(contains("a"), Action::Call(1), false, None);
    rules.add_rule(contains("a"), Action::Call(2), false, None);
    rules.add_rule(contains("a"), Action::Call(3), false, None);
    let snapshot = rules.get_rules();
    let rankings: Vec<i32> = snapshot.iter().map(|r| r.ranking).collect();
    assert_eq!(rankings, vec![-99998, -99997, -99996, 99999]);
    let actions: Vec<Action> = snapshot.iter().map(|r| r.action).collect();
    assert_eq!(
        actions,
        vec![Action::Call(1), Action::Call(2), Action::Call(3), Action::Log(Level::Info)]
    );
}

#[test]
fn snapshot_is_ordered_by_ranking_and_stable() {
    let mut rules = LogRules::new();
    rules.add_rule(contains("a"), Action::Call(1), false, Some(5));
    rules.add_rule(contains("b"), Action::Call(2), false, Some(-3));
    rules.add_rule(contains("c"), Action::Call(3), false, Some(5));
    rules.add_rule(contains("d"), Action::Call(4), false, Some(100000));
    rules.add_rule(contains("e"), Action::Call(5), false, Some(-3));
    let snapshot = rules.get_rules();
    let actions: Vec<Action> = snapshot.iter().map(|r| r.action).collect();
    assert_eq!(
        actions,
        vec![
            Action::Call(2),
            Action::Call(5),
            Action::Call(1),
            Action::Call(3),
            Action::Log(Level::Info),
            Action::Call(4),
        ]
    );
    assert_eq!(rules.rules.len(), 6);
    assert_eq!(rules.rules[1].action, Action::Call(1));
}

#[test]
fn standard_rules_log_warnings_and_errors() {
    let rules = LogRules::default();
    let snapshot = rules.get_rules();
    assert_eq!(snapshot.len(), 3);
    assert_eq!(evaluate(&snapshot, "[12:00] WARNING low memory"), vec![Action::Log(Level::Warn)]);
    assert_eq!(evaluate(&snapshot, "ERROR: disk full"), vec![Action::Log(Level::Error)]);
    assert_eq!(evaluate(&snapshot, "ERROR after WARNING"), vec![Action::Log(Level::Warn)]);
    assert_eq!(evaluate(&snapshot, "player joined"), vec![Action::Log(Level::Info)]);
}

#[test]
fn cloned_rule_set_holds_the_same_rules() {
    let mut rules = LogRules::new();
    rules.add_rule(contains("a"), Action::Call(1), true, Some(7));
    let copy = rules.clone();
    assert_eq!(copy.rules.len(), 2);
    assert_eq!(copy.rules[1].ranking, 7);
    assert_eq!(copy.rules[1].action, Action::Call(1));
    assert!(copy.rules[1].stop);
    assert!(copy.rules[1].matcher.matches("xa"));
    assert!(!copy.rules[1].matcher.matches("xb"));
}
