//! Log rules: what to look for in a line of server output, what to do when
//! it is found, and in which order the rules are tried.
//!
//! A rule set keeps its rules in the order in which they were registered.
//! Evaluation works on a snapshot ordered by ascending ranking; rules of
//! equal ranking keep their registration order.

use vstd::prelude::*;
use crate::text::{contains, has_substring};

verus! {

/// The ranking of the catch-all rule, which is tried after every rule that
/// was registered without a ranking of its own.
pub const DEFAULT_STOP_INT: i32 = 99999;

/// The ranking given to a rule that is registered without one, when the set
/// already holds `current_count` rules.
pub open spec fn default_ranking_spec(current_count: nat) -> int {
    if current_count <= i32::MAX {
        current_count - DEFAULT_STOP_INT
    } else {
        i32::MAX - DEFAULT_STOP_INT
    }
}

/// The ranking given to a rule that is registered without one: the number
/// of rules already in the set, counted from below the catch-all rule.
pub fn default_ranking(current_count: usize) -> (ranking: i32)
    ensures
        ranking == default_ranking_spec(current_count as nat),
{
    if current_count <= 0x7fff_ffff {
        (current_count as i32) - DEFAULT_STOP_INT
    } else {
        0x7fff_ffff - DEFAULT_STOP_INT
    }
}

/// Rules registered earlier get the smaller default ranking, so they are
/// tried first.
pub proof fn lemma_default_ranking_follows_registration(earlier: nat, later: nat)
    requires
        earlier < later <= i32::MAX,
    ensures
        default_ranking_spec(earlier) < default_ranking_spec(later),
{
}

/// How loudly a line is written to the supervisor's own log.
#[derive(Clone, Copy, Debug, PartialEq, Eq, Structural)]
pub enum Level {
    Info,
    Warn,
    Error,
}

/// What a rule asks for when it fires. The rule engine only names the
/// action; whoever runs the engine carries it out with the line at hand.
#[derive(Clone, Copy, Debug, PartialEq, Eq, Structural)]
pub enum Action {
    /// Write the line to the log at the given level.
    Log(Level),
    /// Call the handler that the host keeps under this number.
    Call(u32),
}

/// A predicate over a line of text.
#[derive(Debug)]
pub enum Matcher {
    /// Holds of every line.
    Any,
    /// Holds of the lines in which the given text occurs.
    Contains(String),
}

/// The mathematical content of a [`Matcher`].
pub enum MatcherModel {
    Any,
    Contains(Seq<char>),
}

impl MatcherModel {
    /// Whether the predicate holds of `line`.
    pub open spec fn accepts(self, line: Seq<char>) -> bool {
        match self {
            MatcherModel::Any => true,
            MatcherModel::Contains(needle) => has_substring(line, needle),
        }
    }
}

impl View for Matcher {
    type V = MatcherModel;

    open spec fn view(&self) -> MatcherModel {
        match self {
            Matcher::Any => MatcherModel::Any,
            Matcher::Contains(needle) => MatcherModel::Contains(needle@),
        }
    }
}

impl Clone for Matcher {
    fn clone(&self) -> (copy: Matcher)
        ensures
            copy == *self,
    {
        match self {
            Matcher::Any => Matcher::Any,
            Matcher::Contains(needle) => Matcher::Contains(needle.clone()),
        }
    }
}

impl Matcher {
    /// Whether the predicate holds of `line`.
    pub fn matches(&self, line: &str) -> (hit: bool)
        ensures
            hit == self@.accepts(line@),
    {
        match self {
            Matcher::Any => true,
            Matcher::Contains(needle) => contains(line, needle.as_str()),
        }
    }
}

/// One rule of the log engine.
#[derive(Debug)]
pub struct LogRule {
    /// Which lines the rule is about.
    pub matcher: Matcher,
    /// What to do with such a line.
    pub action: Action,
    /// The place of the rule in the order of evaluation; smaller is earlier.
    pub ranking: i32,
    /// Whether evaluation of a line ends once this rule has fired.
    pub stop: bool,
}

/// The mathematical content of a [`LogRule`].
pub struct RuleModel {
    pub matcher: MatcherModel,
    pub action: Action,
    pub ranking: int,
    pub stop: bool,
}

impl View for LogRule {
    type V = RuleModel;

    open spec fn view(&self) -> RuleModel {
        RuleModel {
            matcher: self.matcher@,
            action: self.action,
            ranking: self.ranking as int,
            stop: self.stop,
        }
    }
}

/// The catch-all rule: it holds of every line, writes the line to the log,
/// ends evaluation, and is ranked last among rules with default rankings.
pub open spec fn catch_all() -> RuleModel {
    RuleModel {
        matcher: MatcherModel::Any,
        action: Action::Log(Level::Info),
        ranking: DEFAULT_STOP_INT as int,
        stop: true,
    }
}

impl Clone for LogRule {
    fn clone(&self) -> (copy: LogRule)
        ensures
            copy == *self,
    {
        LogRule {
            matcher: self.matcher.clone(),
            action: self.action,
            ranking: self.ranking,
            stop: self.stop,
        }
    }
}

impl Default for LogRule {
    /// The catch-all rule.
    fn default() -> (rule: LogRule)
        ensures
            rule@ == catch_all(),
    {
        LogRule {
            matcher: Matcher::Any,
            action: Action::Log(Level::Info),
            ranking: DEFAULT_STOP_INT,
            stop: true,
        }
    }
}

impl LogRule {
    /// The catch-all rule.
    pub fn new() -> (rule: LogRule)
        ensures
            rule@ == catch_all(),
    {
        LogRule::default()
    }
}

/// The models of a sequence of rules, element by element.
pub open spec fn rule_models(rules: Seq<LogRule>) -> Seq<RuleModel> {
    Seq::new(rules.len(), |i: int| rules[i]@)
}

// ---------------------------------------------------------------------------
// The order of evaluation
// ---------------------------------------------------------------------------

/// `rule` put into `rules` behind the last rule whose ranking is not greater
/// than its own.
pub open spec fn insert_ranked(rules: Seq<RuleModel>, rule: RuleModel) -> Seq<RuleModel>
    decreases rules.len(),
{
    if rules.len() == 0 {
        seq![rule]
    } else if rules.last().ranking <= rule.ranking {
        rules.push(rule)
    } else {
        insert_ranked(rules.drop_last(), rule).push(rules.last())
    }
}

/// The rules by ascending ranking; rules of equal ranking stay in the order
/// in which they stand in `rules`.
pub open spec fn ranked(rules: Seq<RuleModel>) -> Seq<RuleModel>
    decreases rules.len(),
{
    if rules.len() == 0 {
        Seq::empty()
    } else {
        insert_ranked(ranked(rules.drop_last()), rules.last())
    }
}

/// Whether the rankings never decrease along `rules`.
pub open spec fn ascending(rules: Seq<RuleModel>) -> bool {
    forall|i: int, j: int| 0 <= i <= j < rules.len() ==> rules[i].ranking <= rules[j].ranking
}

/// Inserting at the position that a backward scan finds is `insert_ranked`.
pub proof fn lemma_insert_ranked_at(rules: Seq<RuleModel>, rule: RuleModel, at: int)
    requires
        0 <= at <= rules.len(),
        forall|k: int| at <= k < rules.len() ==> rules[k].ranking > rule.ranking,
        at > 0 ==> rules[at - 1].ranking <= rule.ranking,
    ensures
        insert_ranked(rules, rule) == rules.insert(at, rule),
    decreases rules.len() - at,
{
    if rules.len() == 0 {
        assert(rules.insert(at, rule) =~= seq![rule]);
    } else if at == rules.len() {
        assert(rules.insert(at, rule) =~= rules.push(rule));
    } else {
        let shorter = rules.drop_last();
        lemma_insert_ranked_at(shorter, rule, at);
        assert(shorter.insert(at, rule).push(rules.last()) =~= rules.insert(at, rule));
    }
}

/// Inserting a rule keeps every rule and adds the new one.
pub proof fn lemma_insert_ranked_keeps(rules: Seq<RuleModel>, rule: RuleModel)
    ensures
        insert_ranked(rules, rule).len() == rules.len() + 1,
        insert_ranked(rules, rule).to_multiset() == rules.to_multiset().insert(rule),
    decreases rules.len(),
{
    broadcast use vstd::seq_lib::group_to_multiset_ensures;

    if rules.len() == 0 {
        assert(rules =~= Seq::empty());
    } else if rules.last().ranking <= rule.ranking {
    } else {
        let shorter = rules.drop_last();
        lemma_insert_ranked_keeps(shorter, rule);
        assert(shorter.push(rules.last()) =~= rules);
        assert(insert_ranked(rules, rule).to_multiset() =~= rules.to_multiset().insert(rule));
    }
}

/// Inserting a rule into an ascending sequence leaves it ascending.
pub proof fn lemma_insert_ranked_ascending(rules: Seq<RuleModel>, rule: RuleModel)
    requires
        ascending(rules),
    ensures
        ascending(insert_ranked(rules, rule)),
        forall|k: int|
            0 <= k < insert_ranked(rules, rule).len() ==> #[trigger] insert_ranked(
                rules,
                rule,
            )[k].ranking == rule.ranking || exists|m: int|
                0 <= m < rules.len() && rules[m].ranking == insert_ranked(rules, rule)[k].ranking,
    decreases rules.len(),
{
    let out = insert_ranked(rules, rule);
    if rules.len() == 0 {
    } else if rules.last().ranking <= rule.ranking {
        assert forall|k: int| 0 <= k < out.len() implies #[trigger] out[k].ranking == rule.ranking
            || exists|m: int| 0 <= m < rules.len() && rules[m].ranking == out[k].ranking by {
            if k < rules.len() {
                assert(rules[k].ranking == out[k].ranking);
            }
        }
    } else {
        let shorter = rules.drop_last();
        let last = rules.last();
        assert(ascending(shorter)) by {
            assert forall|i: int, j: int| 0 <= i <= j < shorter.len() implies shorter[i].ranking
                <= shorter[j].ranking by {
                assert(shorter[i] == rules[i] && shorter[j] == rules[j]);
            }
        }
        lemma_insert_ranked_ascending(shorter, rule);
        let inner = insert_ranked(shorter, rule);
        lemma_insert_ranked_keeps(shorter, rule);
        assert forall|k: int| 0 <= k < inner.len() implies #[trigger] inner[k].ranking
            <= last.ranking by {
            if inner[k].ranking != rule.ranking {
                let m = choose|m: int|
                    0 <= m < shorter.len() && shorter[m].ranking == inner[k].ranking;
                assert(shorter[m] == rules[m]);
            }
        }
        assert forall|i: int, j: int| 0 <= i <= j < out.len() implies out[i].ranking
            <= out[j].ranking by {
            if j < inner.len() {
                assert(out[i] == inner[i] && out[j] == inner[j]);
            } else if i < inner.len() {
                assert(out[i] == inner[i]);
                assert(inner[i].ranking <= last.ranking);
            }
        }
        assert forall|k: int| 0 <= k < out.len() implies #[trigger] out[k].ranking == rule.ranking
            || exists|m: int| 0 <= m < rules.len() && rules[m].ranking == out[k].ranking by {
            if k < inner.len() {
                assert(out[k] == inner[k]);
                if inner[k].ranking != rule.ranking {
                    let m = choose|m: int|
                        0 <= m < shorter.len() && shorter[m].ranking == inner[k].ranking;
                    assert(shorter[m] == rules[m]);
                }
            } else {
                assert(out[k] == rules[rules.len() - 1]);
            }
        }
    }
}

/// The order of evaluation holds every registered rule exactly once and is
/// ascending by ranking.
pub proof fn lemma_ranked_sorts(rules: Seq<RuleModel>)
    ensures
        ranked(rules).len() == rules.len(),
        ranked(rules).to_multiset() == rules.to_multiset(),
        ascending(ranked(rules)),
    decreases rules.len(),
{
    broadcast use vstd::seq_lib::group_to_multiset_ensures;

    if rules.len() == 0 {
        assert(rules =~= Seq::empty());
    } else {
        let shorter = rules.drop_last();
        lemma_ranked_sorts(shorter);
        lemma_insert_ranked_keeps(ranked(shorter), rules.last());
        lemma_insert_ranked_ascending(ranked(shorter), rules.last());
        assert(shorter.push(rules.last()) =~= rules);
    }
}

/// The rules of ranking `ranking`, in the order in which they stand in
/// `rules`.
pub open spec fn with_ranking(rules: Seq<RuleModel>, ranking: int) -> Seq<RuleModel>
    decreases rules.len(),
{
    if rules.len() == 0 {
        Seq::empty()
    } else if rules.last().ranking == ranking {
        with_ranking(rules.drop_last(), ranking).push(rules.last())
    } else {
        with_ranking(rules.drop_last(), ranking)
    }
}

/// An inserted rule comes behind the rules of its own ranking and leaves
/// the rules of every other ranking as they were.
pub proof fn lemma_insert_ranked_is_stable(rules: Seq<RuleModel>, rule: RuleModel, ranking: int)
    ensures
        with_ranking(insert_ranked(rules, rule), ranking) == if rule.ranking == ranking {
            with_ranking(rules, ranking).push(rule)
        } else {
            with_ranking(rules, ranking)
        },
    decreases rules.len(),
{
    if rules.len() == 0 {
        assert(seq![rule].drop_last() =~= rules);
    } else if rules.last().ranking <= rule.ranking {
        assert(rules.push(rule).drop_last() =~= rules);
    } else {
        let shorter = rules.drop_last();
        let inner = insert_ranked(shorter, rule);
        lemma_insert_ranked_is_stable(shorter, rule, ranking);
        assert(inner.push(rules.last()).drop_last() =~= inner);
    }
}

/// Ordering is stable: the rules of any one ranking are evaluated in the
/// order of their registration.
pub proof fn lemma_ranked_is_stable(rules: Seq<RuleModel>, ranking: int)
    ensures
        with_ranking(ranked(rules), ranking) == with_ranking(rules, ranking),
    decreases rules.len(),
{
    if rules.len() > 0 {
        lemma_ranked_is_stable(rules.drop_last(), ranking);
        lemma_insert_ranked_is_stable(ranked(rules.drop_last()), rules.last(), ranking);
    }
}

/// Rules that already stand in ascending order are evaluated in the order
/// in which they stand: ordering changes nothing, and in particular keeps
/// the registration order among rules of equal ranking.
pub proof fn lemma_ranked_keeps_ascending(rules: Seq<RuleModel>)
    requires
        ascending(rules),
    ensures
        ranked(rules) == rules,
    decreases rules.len(),
{
    if rules.len() == 0 {
        assert(rules =~= Seq::empty());
    } else {
        let shorter = rules.drop_last();
        assert(ascending(shorter)) by {
            assert forall|i: int, j: int| 0 <= i <= j < shorter.len() implies shorter[i].ranking
                <= shorter[j].ranking by {
                assert(shorter[i] == rules[i] && shorter[j] == rules[j]);
            }
        }
        lemma_ranked_keeps_ascending(shorter);
        if shorter.len() > 0 {
            assert(shorter.last() == rules[rules.len() - 2]);
        }
        assert(shorter.push(rules.last()) =~= rules);
    }
}

// ---------------------------------------------------------------------------
// Rule sets
// ---------------------------------------------------------------------------

/// The rules of one log-monitoring session, in the order of registration.
#[derive(Debug)]
pub struct LogRules {
    pub rules: Vec<LogRule>,
}

impl View for LogRules {
    type V = Seq<RuleModel>;

    open spec fn view(&self) -> Seq<RuleModel> {
        rule_models(self.rules@)
    }
}

impl Clone for LogRules {
    fn clone(&self) -> (copy: LogRules)
        ensures
            copy@ == self@,
    {
        let mut rules: Vec<LogRule> = Vec::new();
        let mut i: usize = 0;
        while i < self.rules.len()
            invariant
                i <= self.rules.len(),
                rules.len() == i,
                rule_models(rules@) == self@.subrange(0, i as int),
            decreases self.rules.len() - i,
        {
            let ghost before = rules@;
            let rule = self.rules[i].clone();
            rules.push(rule);
            i += 1;
            proof {
                let want = self@.subrange(0, i as int);
                assert forall|k: int| 0 <= k < i implies rule_models(rules@)[k] == want[k] by {
                    if k < i - 1 {
                        assert(rules@[k] == before[k]);
                        assert(rule_models(before)[k] == self@.subrange(0, i - 1)[k]);
                    }
                }
                assert(rule_models(rules@) =~= want);
            }
        }
        assert(self@.subrange(0, self@.len() as int) =~= self@);
        LogRules { rules }
    }
}

/// The rule that `add_rule` registers in a set that holds `count` rules.
pub open spec fn new_rule(
    count: nat,
    matcher: MatcherModel,
    action: Action,
    stop: bool,
    ranking: Option<i32>,
) -> RuleModel {
    RuleModel {
        matcher,
        action,
        ranking: match ranking {
            Some(r) => r as int,
            None => default_ranking_spec(count),
        },
        stop,
    }
}

/// The rule set that `LogRules::default` builds: the catch-all rule, then a
/// rule for lines with `WARNING` and one for lines with `ERROR`.
pub open spec fn standard_rules() -> Seq<RuleModel> {
    seq![
        catch_all(),
        new_rule(1, MatcherModel::Contains("WARNING"@), Action::Log(Level::Warn), true, None),
        new_rule(2, MatcherModel::Contains("ERROR"@), Action::Log(Level::Error), true, None),
    ]
}

impl LogRules {
    /// A rule set that holds the catch-all rule only.
    pub fn new() -> (set: LogRules)
        ensures
            set@ == seq![catch_all()],
    {
        let mut rules: Vec<LogRule> = Vec::new();
        rules.push(LogRule::default());
        let set = LogRules { rules };
        assert(set@ =~= seq![catch_all()]);
        set
    }

    /// Registers a rule. Without a ranking the rule is ranked by the number
    /// of rules registered before it, so that rules are tried in the order
    /// of their registration, all of them before the catch-all rule.
    pub fn add_rule(&mut self, matcher: Matcher, action: Action, stop: bool, ranking: Option<i32>)
        ensures
            final(self)@ == old(self)@.push(
                new_rule(old(self)@.len(), matcher@, action, stop, ranking),
            ),
    {
        let ranking = match ranking {
            Some(r) => r,
            None => default_ranking(self.rules.len()),
        };
        self.rules.push(LogRule { matcher, action, ranking, stop });
        assert(self@ =~= old(self)@.push(
            new_rule(old(self)@.len(), matcher@, action, stop, Some(ranking)),
        ));
    }

    /// A snapshot of the rules in the order of evaluation: ascending by
    /// ranking, rules of equal ranking in the order of registration.
    pub fn get_rules(&self) -> (snapshot: Vec<LogRule>)
        ensures
            rule_models(snapshot@) == ranked(self@),
    {
        let mut out: Vec<LogRule> = Vec::new();
        let mut i: usize = 0;
        assert(self@.subrange(0, 0) =~= Seq::empty());
        assert(rule_models(out@) =~= Seq::empty());
        while i < self.rules.len()
            invariant
                i <= self.rules.len(),
                rule_models(out@) == ranked(self@.subrange(0, i as int)),
                out.len() == i,
            decreases self.rules.len() - i,
        {
            let rule = self.rules[i].clone();
            let mut at: usize = out.len();
            while at > 0 && out[at - 1].ranking > rule.ranking
                invariant
                    at <= out.len(),
                    forall|k: int| at <= k < out.len() ==> out@[k].ranking > rule.ranking,
                decreases at,
            {
                at -= 1;
            }
            let ghost before = rule_models(out@);
            let ghost prefix = self@.subrange(0, i as int);
            proof {
                assert forall|k: int| at <= k < before.len() implies before[k].ranking
                    > rule@.ranking by {
                    assert(before[k] == out@[k]@);
                }
                if at > 0 {
                    assert(before[at - 1] == out@[at - 1]@);
                }
                lemma_insert_ranked_at(before, rule@, at as int);
            }
            out.insert(at, rule);
            i += 1;
            proof {
                let next = self@.subrange(0, i as int);
                assert(next.drop_last() =~= prefix);
                assert(next.last() == self.rules@[i - 1]@);
                assert(rule_models(out@) =~= before.insert(at as int, rule@));
            }
        }
        assert(self@.subrange(0, self@.len() as int) =~= self@);
        out
    }
}

impl Default for LogRules {
    /// The catch-all rule, a rule that logs lines with `WARNING` as
    /// warnings and a rule that logs lines with `ERROR` as errors. Both end
    /// the evaluation of the line.
    fn default() -> (set: LogRules)
        ensures
            set@ == standard_rules(),
    {
        let mut set = LogRules::new();
        set.add_rule(
            Matcher::Contains(String::from_str("WARNING")),
            Action::Log(Level::Warn),
            true,
            None,
        );
        set.add_rule(
            Matcher::Contains(String::from_str("ERROR")),
            Action::Log(Level::Error),
            true,
            None,
        );
        assert(set@ =~= standard_rules());
        set
    }
}

// ---------------------------------------------------------------------------
// Evaluation
// ---------------------------------------------------------------------------

/// The actions that `line` triggers among `ordered[from..]`, tried in that
/// order: each rule whose matcher accepts the line fires, and the first of
/// them that has the stop flag is the last one to fire.
pub open spec fn fired_from(ordered: Seq<RuleModel>, line: Seq<char>, from: int) -> Seq<Action>
    decreases ordered.len() - from,
{
    if from < 0 || from >= ordered.len() {
        Seq::empty()
    } else if !ordered[from].matcher.accepts(line) {
        fired_from(ordered, line, from + 1)
    } else if ordered[from].stop {
        seq![ordered[from].action]
    } else {
        seq![ordered[from].action] + fired_from(ordered, line, from + 1)
    }
}

/// The actions that `line` triggers when the rules are tried in the order
/// `ordered`.
pub open spec fn fired(ordered: Seq<RuleModel>, line: Seq<char>) -> Seq<Action> {
    fired_from(ordered, line, 0)
}

/// Rules that stand behind a matching rule with the stop flag never fire:
/// the outcome is the same as if the order ended with that rule.
pub proof fn lemma_stop_ends_evaluation(ordered: Seq<RuleModel>, line: Seq<char>, k: int)
    requires
        0 <= k < ordered.len(),
        ordered[k].matcher.accepts(line),
        ordered[k].stop,
    ensures
        fired(ordered, line) == fired(ordered.subrange(0, k + 1), line),
{
    lemma_stop_ends_evaluation_from(ordered, line, k, 0);
}

/// The same, for an evaluation that starts at `from`.
pub proof fn lemma_stop_ends_evaluation_from(
    ordered: Seq<RuleModel>,
    line: Seq<char>,
    k: int,
    from: int,
)
    requires
        0 <= from <= k < ordered.len(),
        ordered[k].matcher.accepts(line),
        ordered[k].stop,
    ensures
        fired_from(ordered, line, from) == fired_from(ordered.subrange(0, k + 1), line, from),
    decreases k - from,
{
    let cut = ordered.subrange(0, k + 1);
    assert(cut[from] == ordered[from]);
    if from < k {
        lemma_stop_ends_evaluation_from(ordered, line, k, from + 1);
    }
}

/// Whether a rule at or behind position `from` accepts `line` and has the
/// stop flag.
pub open spec fn stops_from(ordered: Seq<RuleModel>, line: Seq<char>, from: int) -> bool {
    exists|k: int|
        from <= k < ordered.len() && (#[trigger] ordered[k]).matcher.accepts(line) && ordered[k].stop
}

/// A rule that is tried last fires exactly if it accepts the line and no
/// rule before it has ended the evaluation; what fires before it does not
/// depend on it. In particular the catch-all rule, tried last, takes the
/// lines that no other rule has stopped.
pub proof fn lemma_last_rule_takes_the_rest(
    ordered: Seq<RuleModel>,
    last: RuleModel,
    line: Seq<char>,
    from: int,
)
    requires
        0 <= from <= ordered.len(),
    ensures
        fired_from(ordered.push(last), line, from) == fired_from(ordered, line, from) + (if last.matcher.accepts(
            line,
        ) && !stops_from(ordered, line, from) {
            seq![last.action]
        } else {
            Seq::<Action>::empty()
        }),
    decreases ordered.len() - from,
{
    let all = ordered.push(last);
    let tail = if last.matcher.accepts(line) && !stops_from(ordered, line, from) {
        seq![last.action]
    } else {
        Seq::<Action>::empty()
    };
    if from == ordered.len() {
        assert(all[from] == last);
        assert(!stops_from(ordered, line, from));
        assert(fired_from(all, line, from + 1) =~= Seq::<Action>::empty());
        assert(fired_from(ordered, line, from) =~= Seq::<Action>::empty());
        assert(fired_from(all, line, from) =~= fired_from(ordered, line, from) + tail);
    } else {
        assert(all[from] == ordered[from]);
        lemma_last_rule_takes_the_rest(ordered, last, line, from + 1);
        let rule = ordered[from];
        if rule.matcher.accepts(line) && rule.stop {
            assert(stops_from(ordered, line, from));
            assert(fired_from(all, line, from) =~= fired_from(ordered, line, from) + tail);
        } else {
            assert(stops_from(ordered, line, from) == stops_from(ordered, line, from + 1)) by {
                if stops_from(ordered, line, from) {
                    let k = choose|k: int|
                        from <= k < ordered.len() && (#[trigger] ordered[k]).matcher.accepts(line)
                            && ordered[k].stop;
                    assert(k != from);
                    assert(from + 1 <= k);
                }
                if stops_from(ordered, line, from + 1) {
                    let k = choose|k: int|
                        from + 1 <= k < ordered.len() && (#[trigger] ordered[k]).matcher.accepts(
                            line,
                        ) && ordered[k].stop;
                    assert(from <= k);
                }
            }
            assert(fired_from(all, line, from) =~= fired_from(ordered, line, from) + tail);
        }
    }
}

/// The actions that `line` triggers when the rules are tried in the order
/// in which they stand in `ordered`.
pub fn evaluate(ordered: &Vec<LogRule>, line: &str) -> (actions: Vec<Action>)
    ensures
        actions@ == fired(rule_models(ordered@), line@),
{
    let ghost models = rule_models(ordered@);
    let mut actions: Vec<Action> = Vec::new();
    let mut i: usize = 0;
    let mut stopped = false;
    while i < ordered.len() && !stopped
        invariant
            i <= ordered.len(),
            models == rule_models(ordered@),
            !stopped ==> fired(models, line@) == actions@ + fired_from(models, line@, i as int),
            stopped ==> fired(models, line@) == actions@,
        decreases ordered.len() - i + if stopped { 0int } else { 1int },
    {
        assert(models[i as int] == ordered@[i as int]@);
        let rule = &ordered[i];
        if rule.matcher.matches(line) {
            let ghost before = actions@;
            actions.push(rule.action);
            if rule.stop {
                stopped = true;
                assert(actions@ =~= before + seq![rule.action]);
            } else {
                assert(actions@ + fired_from(models, line@, i + 1) =~= before + (seq![rule.action]
                    + fired_from(models, line@, i + 1)));
            }
        }
        i += 1;
    }
    if !stopped {
        assert(actions@ + Seq::<Action>::empty() =~= actions@);
    }
    actions
}

} // verus!
