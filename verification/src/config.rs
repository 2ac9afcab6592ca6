//! The configuration of a matcher: a tree of filters and rulesets, as it is
//! before it is compiled.
use crate::value::{entries_view, Value, ValueView};
use vstd::prelude::*;

verus! {

/// A condition on an event.
#[derive(Debug, PartialEq)]
pub enum Operator {
    And { operators: Vec<Operator> },
    Or { operators: Vec<Operator> },
    Contain { first: Value, second: Value },
    Equal { first: Value, second: Value },
    GreaterEqualThan { first: Value, second: Value },
    GreaterThan { first: Value, second: Value },
    LessEqualThan { first: Value, second: Value },
    LessThan { first: Value, second: Value },
    Regex { regex: String, target: String },
}

/// What a configured [`Operator`] stands for.
pub enum OperatorDef {
    And(Seq<OperatorDef>),
    Or(Seq<OperatorDef>),
    Contain(ValueView, ValueView),
    Equal(ValueView, ValueView),
    GreaterEqualThan(ValueView, ValueView),
    GreaterThan(ValueView, ValueView),
    LessEqualThan(ValueView, ValueView),
    LessThan(ValueView, ValueView),
    Regex(Seq<char>, Seq<char>),
}

/// What `op` stands for.
pub open spec fn operator_def(op: Operator) -> OperatorDef
    decreases op,
{
    match op {
        Operator::And { operators } => OperatorDef::And(
            Seq::new(
                operators@.len(),
                |i: int|
                    if 0 <= i < operators@.len() {
                        operator_def(operators@[i])
                    } else {
                        OperatorDef::And(Seq::empty())
                    },
            ),
        ),
        Operator::Or { operators } => OperatorDef::Or(
            Seq::new(
                operators@.len(),
                |i: int|
                    if 0 <= i < operators@.len() {
                        operator_def(operators@[i])
                    } else {
                        OperatorDef::And(Seq::empty())
                    },
            ),
        ),
        Operator::Contain { first, second } => OperatorDef::Contain(first@, second@),
        Operator::Equal { first, second } => OperatorDef::Equal(first@, second@),
        Operator::GreaterEqualThan { first, second } => OperatorDef::GreaterEqualThan(
            first@,
            second@,
        ),
        Operator::GreaterThan { first, second } => OperatorDef::GreaterThan(first@, second@),
        Operator::LessEqualThan { first, second } => OperatorDef::LessEqualThan(first@, second@),
        Operator::LessThan { first, second } => OperatorDef::LessThan(first@, second@),
        Operator::Regex { regex, target } => OperatorDef::Regex(regex@, target@),
    }
}

impl View for Operator {
    type V = OperatorDef;

    open spec fn view(&self) -> OperatorDef {
        operator_def(*self)
    }
}

/// The views of a list of operators.
pub open spec fn operator_defs(ops: Seq<Operator>) -> Seq<OperatorDef> {
    Seq::new(ops.len(), |i: int| ops[i]@)
}

/// The view of a conjunction is made of the views of its operators.
pub proof fn lemma_view_and(operators: Vec<Operator>)
    ensures
        (Operator::And { operators })@ == OperatorDef::And(operator_defs(operators@)),
{
    assert((Operator::And { operators })@->And_0 =~= operator_defs(operators@));
}

/// The view of a disjunction is made of the views of its operators.
pub proof fn lemma_view_or(operators: Vec<Operator>)
    ensures
        (Operator::Or { operators })@ == OperatorDef::Or(operator_defs(operators@)),
{
    assert((Operator::Or { operators })@->Or_0 =~= operator_defs(operators@));
}

/// The view of an operator that may be absent.
pub open spec fn optional_def(op: Option<Operator>) -> Option<OperatorDef> {
    match op {
        Some(o) => Some(o@),
        None => None,
    }
}

/// The regular expression of an extractor and the group it takes.
#[derive(Debug, PartialEq)]
pub struct ExtractorRegex {
    pub regex: String,
    pub group_match_idx: usize,
    pub all_matches: bool,
}

/// How a rule extracts one variable: from what, and by which regular
/// expression.
#[derive(Debug, PartialEq)]
pub struct Extractor {
    pub from: String,
    pub regex: ExtractorRegex,
}

/// What a configured [`Extractor`] stands for.
pub struct ExtractorDef {
    pub from: Seq<char>,
    pub regex: Seq<char>,
    pub group_match_idx: usize,
    pub all_matches: bool,
}

impl View for Extractor {
    type V = ExtractorDef;

    open spec fn view(&self) -> ExtractorDef {
        ExtractorDef {
            from: self.from@,
            regex: self.regex.regex@,
            group_match_idx: self.regex.group_match_idx,
            all_matches: self.regex.all_matches,
        }
    }
}

/// The views of the extractors of a rule, each under its variable's name.
pub open spec fn extractor_defs(with: Seq<(String, Extractor)>) -> Seq<(Seq<char>, ExtractorDef)> {
    Seq::new(with.len(), |i: int| (with[i].0@, with[i].1@))
}

/// The condition of a rule and the variables it extracts.
#[derive(Debug, PartialEq)]
pub struct Constraint {
    pub where_operator: Option<Operator>,
    pub with: Vec<(String, Extractor)>,
}

/// What a [`Constraint`] stands for.
pub struct ConstraintDef {
    pub where_operator: Option<OperatorDef>,
    pub with: Seq<(Seq<char>, ExtractorDef)>,
}

impl View for Constraint {
    type V = ConstraintDef;

    open spec fn view(&self) -> ConstraintDef {
        ConstraintDef {
            where_operator: optional_def(self.where_operator),
            with: extractor_defs(self.with@),
        }
    }
}

/// The template of an action: an id and a payload whose texts may hold
/// expressions.
#[derive(Debug, PartialEq)]
pub struct Action {
    pub id: String,
    pub payload: Vec<(String, Value)>,
}

/// What a configured [`Action`] stands for.
pub struct ActionDef {
    pub id: Seq<char>,
    pub payload: Seq<(Seq<char>, ValueView)>,
}

impl View for Action {
    type V = ActionDef;

    open spec fn view(&self) -> ActionDef {
        ActionDef { id: self.id@, payload: entries_view(self.payload@) }
    }
}

/// The views of a list of actions.
pub open spec fn action_defs(actions: Seq<Action>) -> Seq<ActionDef> {
    Seq::new(actions.len(), |i: int| actions[i]@)
}

/// A rule of a ruleset.
#[derive(Debug, PartialEq)]
pub struct Rule {
    pub name: String,
    pub description: String,
    pub do_continue: bool,
    pub active: bool,
    pub constraint: Constraint,
    pub actions: Vec<Action>,
}

/// What a [`Rule`] stands for.
pub struct RuleDef {
    pub name: Seq<char>,
    pub description: Seq<char>,
    pub do_continue: bool,
    pub active: bool,
    pub constraint: ConstraintDef,
    pub actions: Seq<ActionDef>,
}

impl View for Rule {
    type V = RuleDef;

    open spec fn view(&self) -> RuleDef {
        RuleDef {
            name: self.name@,
            description: self.description@,
            do_continue: self.do_continue,
            active: self.active,
            constraint: self.constraint@,
            actions: action_defs(self.actions@),
        }
    }
}

/// The views of a list of rules.
pub open spec fn rule_defs(rules: Seq<Rule>) -> Seq<RuleDef> {
    Seq::new(rules.len(), |i: int| rules[i]@)
}

/// The condition that a filter node puts on an event.
#[derive(Debug, PartialEq)]
pub struct Filter {
    pub description: String,
    pub active: bool,
    pub filter: Option<Operator>,
}

/// What a [`Filter`] stands for.
pub struct FilterDef {
    pub description: Seq<char>,
    pub active: bool,
    pub filter: Option<OperatorDef>,
}

impl View for Filter {
    type V = FilterDef;

    open spec fn view(&self) -> FilterDef {
        FilterDef {
            description: self.description@,
            active: self.active,
            filter: optional_def(self.filter),
        }
    }
}

/// A node of the configuration tree.
#[derive(Debug, PartialEq)]
pub enum MatcherConfig {
    Filter { name: String, filter: Filter, nodes: Vec<MatcherConfig> },
    Ruleset { name: String, rules: Vec<Rule> },
}

/// What a [`MatcherConfig`] stands for.
pub enum NodeDef {
    Filter { name: Seq<char>, filter: FilterDef, nodes: Seq<NodeDef> },
    Ruleset { name: Seq<char>, rules: Seq<RuleDef> },
}

/// What `config` stands for.
pub open spec fn node_def(config: MatcherConfig) -> NodeDef
    decreases config,
{
    match config {
        MatcherConfig::Filter { name, filter, nodes } => NodeDef::Filter {
            name: name@,
            filter: filter@,
            nodes: Seq::new(
                nodes@.len(),
                |i: int|
                    if 0 <= i < nodes@.len() {
                        node_def(nodes@[i])
                    } else {
                        NodeDef::Ruleset { name: Seq::empty(), rules: Seq::empty() }
                    },
            ),
        },
        MatcherConfig::Ruleset { name, rules } => NodeDef::Ruleset {
            name: name@,
            rules: rule_defs(rules@),
        },
    }
}

impl View for MatcherConfig {
    type V = NodeDef;

    open spec fn view(&self) -> NodeDef {
        node_def(*self)
    }
}

/// The views of a list of nodes.
pub open spec fn node_defs(nodes: Seq<MatcherConfig>) -> Seq<NodeDef> {
    Seq::new(nodes.len(), |i: int| nodes[i]@)
}

/// The view of a filter node is made of the views of its children.
pub proof fn lemma_view_filter_node(name: String, filter: Filter, nodes: Vec<MatcherConfig>)
    ensures
        (MatcherConfig::Filter { name, filter, nodes })@ == (NodeDef::Filter {
            name: name@,
            filter: filter@,
            nodes: node_defs(nodes@),
        }),
{
    assert((MatcherConfig::Filter { name, filter, nodes })@->nodes =~= node_defs(nodes@));
}

} // verus!
