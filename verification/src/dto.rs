//! The configuration as it travels over the REST interface.
//!
//! Each type here stands for the same thing as its counterpart in
//! [`crate::config`], so the two share their views.
use crate::config::{
    ConstraintDef, ExtractorDef, FilterDef, NodeDef, OperatorDef, RuleDef, ActionDef,
};
use crate::value::{entries_view, Value};
use vstd::prelude::*;

verus! {

/// A condition on an event.
#[derive(Debug, PartialEq)]
pub enum OperatorDto {
    And { operators: Vec<OperatorDto> },
    Or { operators: Vec<OperatorDto> },
    Contain { first: Value, second: Value },
    Equal { first: Value, second: Value },
    GreaterEqualThan { first: Value, second: Value },
    GreaterThan { first: Value, second: Value },
    LessEqualThan { first: Value, second: Value },
    LessThan { first: Value, second: Value },
    Regex { regex: String, target: String },
}

/// What `op` stands for.
pub open spec fn operator_dto_view(op: OperatorDto) -> OperatorDef
    decreases op,
{
    match op {
        OperatorDto::And { operators } => OperatorDef::And(
            Seq::new(
                operators@.len(),
                |i: int|
                    if 0 <= i < operators@.len() {
                        operator_dto_view(operators@[i])
                    } else {
                        OperatorDef::And(Seq::empty())
                    },
            ),
        ),
        OperatorDto::Or { operators } => OperatorDef::Or(
            Seq::new(
                operators@.len(),
                |i: int|
                    if 0 <= i < operators@.len() {
                        operator_dto_view(operators@[i])
                    } else {
                        OperatorDef::And(Seq::empty())
                    },
            ),
        ),
        OperatorDto::Contain { first, second } => OperatorDef::Contain(first@, second@),
        OperatorDto::Equal { first, second } => OperatorDef::Equal(first@, second@),
        OperatorDto::GreaterEqualThan { first, second } => OperatorDef::GreaterEqualThan(
            first@,
            second@,
        ),
        OperatorDto::GreaterThan { first, second } => OperatorDef::GreaterThan(first@, second@),
        OperatorDto::LessEqualThan { first, second } => OperatorDef::LessEqualThan(first@, second@),
        OperatorDto::LessThan { first, second } => OperatorDef::LessThan(first@, second@),
        OperatorDto::Regex { regex, target } => OperatorDef::Regex(regex@, target@),
    }
}

impl View for OperatorDto {
    type V = OperatorDef;

    open spec fn view(&self) -> OperatorDef {
        operator_dto_view(*self)
    }
}

/// The views of a list of operators.
pub open spec fn operator_dtos_view(ops: Seq<OperatorDto>) -> Seq<OperatorDef> {
    Seq::new(ops.len(), |i: int| ops[i]@)
}

/// The view of a conjunction or disjunction is made of the views of its
/// operators.
pub proof fn lemma_view_operator_dtos(operators: Vec<OperatorDto>)
    ensures
        (OperatorDto::And { operators })@ == OperatorDef::And(operator_dtos_view(operators@)),
        (OperatorDto::Or { operators })@ == OperatorDef::Or(operator_dtos_view(operators@)),
{
    assert((OperatorDto::And { operators })@->And_0 =~= operator_dtos_view(operators@));
    assert((OperatorDto::Or { operators })@->Or_0 =~= operator_dtos_view(operators@));
}

/// The view of an operator that may be absent.
pub open spec fn optional_dto_view(op: Option<OperatorDto>) -> Option<OperatorDef> {
    match op {
        Some(o) => Some(o@),
        None => None,
    }
}

/// The regular expression of an extractor and the group it takes.
#[derive(Debug, PartialEq)]
pub struct ExtractorRegexDto {
    pub regex: String,
    pub group_match_idx: usize,
    pub all_matches: bool,
}

/// How a rule extracts one variable.
#[derive(Debug, PartialEq)]
pub struct ExtractorDto {
    pub from: String,
    pub regex: ExtractorRegexDto,
}

impl View for ExtractorDto {
    type V = ExtractorDef;

    open spec fn view(&self) -> ExtractorDef {
        ExtractorDef {
            from: self.from@,
            regex: self.regex.regex@,
            group_match_idx: self.regex.group_match_idx,
            all_matches: self.regex.all_matches,
        }
    }
}

/// The views of the extractors of a rule, each under its variable's name.
pub open spec fn extractor_dtos_view(with: Seq<(String, ExtractorDto)>) -> Seq<
    (Seq<char>, ExtractorDef),
> {
    Seq::new(with.len(), |i: int| (with[i].0@, with[i].1@))
}

/// The condition of a rule and the variables it extracts.
#[derive(Debug, PartialEq)]
pub struct ConstraintDto {
    pub where_operator: Option<OperatorDto>,
    pub with: Vec<(String, ExtractorDto)>,
}

impl View for ConstraintDto {
    type V = ConstraintDef;

    open spec fn view(&self) -> ConstraintDef {
        ConstraintDef {
            where_operator: optional_dto_view(self.where_operator),
            with: extractor_dtos_view(self.with@),
        }
    }
}

/// The template of an action.
#[derive(Debug, PartialEq)]
pub struct ActionDto {
    pub id: String,
    pub payload: Vec<(String, Value)>,
}

impl View for ActionDto {
    type V = ActionDef;

    open spec fn view(&self) -> ActionDef {
        ActionDef { id: self.id@, payload: entries_view(self.payload@) }
    }
}

/// The views of a list of actions.
pub open spec fn action_dtos_view(actions: Seq<ActionDto>) -> Seq<ActionDef> {
    Seq::new(actions.len(), |i: int| actions[i]@)
}

/// A rule of a ruleset.
#[derive(Debug, PartialEq)]
pub struct RuleDto {
    pub name: String,
    pub description: String,
    pub do_continue: bool,
    pub active: bool,
    pub constraint: ConstraintDto,
    pub actions: Vec<ActionDto>,
}

impl View for RuleDto {
    type V = RuleDef;

    open spec fn view(&self) -> RuleDef {
        RuleDef {
            name: self.name@,
            description: self.description@,
            do_continue: self.do_continue,
            active: self.active,
            constraint: self.constraint@,
            actions: action_dtos_view(self.actions@),
        }
    }
}

/// The views of a list of rules.
pub open spec fn rule_dtos_view(rules: Seq<RuleDto>) -> Seq<RuleDef> {
    Seq::new(rules.len(), |i: int| rules[i]@)
}

/// The condition that a filter node puts on an event.
#[derive(Debug, PartialEq)]
pub struct FilterDto {
    pub description: String,
    pub active: bool,
    pub filter: Option<OperatorDto>,
}

impl View for FilterDto {
    type V = FilterDef;

    open spec fn view(&self) -> FilterDef {
        FilterDef {
            description: self.description@,
            active: self.active,
            filter: optional_dto_view(self.filter),
        }
    }
}

/// A node of the configuration tree.
#[derive(Debug, PartialEq)]
pub enum MatcherConfigDto {
    Filter { name: String, filter: FilterDto, nodes: Vec<MatcherConfigDto> },
    Ruleset { name: String, rules: Vec<RuleDto> },
}

/// What `config` stands for.
pub open spec fn node_dto_view(config: MatcherConfigDto) -> NodeDef
    decreases config,
{
    match config {
        MatcherConfigDto::Filter { name, filter, nodes } => NodeDef::Filter {
            name: name@,
            filter: filter@,
            nodes: Seq::new(
                nodes@.len(),
                |i: int|
                    if 0 <= i < nodes@.len() {
                        node_dto_view(nodes@[i])
                    } else {
                        NodeDef::Ruleset { name: Seq::empty(), rules: Seq::empty() }
                    },
            ),
        },
        MatcherConfigDto::Ruleset { name, rules } => NodeDef::Ruleset {
            name: name@,
            rules: rule_dtos_view(rules@),
        },
    }
}

impl View for MatcherConfigDto {
    type V = NodeDef;

    open spec fn view(&self) -> NodeDef {
        node_dto_view(*self)
    }
}

/// The views of a list of nodes.
pub open spec fn node_dtos_view(nodes: Seq<MatcherConfigDto>) -> Seq<NodeDef> {
    Seq::new(nodes.len(), |i: int| nodes[i]@)
}

/// The view of a filter node is made of the views of its children.
pub proof fn lemma_view_filter_dto(name: String, filter: FilterDto, nodes: Vec<MatcherConfigDto>)
    ensures
        (MatcherConfigDto::Filter { name, filter, nodes })@ == (NodeDef::Filter {
            name: name@,
            filter: filter@,
            nodes: node_dtos_view(nodes@),
        }),
{
    assert((MatcherConfigDto::Filter { name, filter, nodes })@->nodes =~= node_dtos_view(nodes@));
}

} // verus!
