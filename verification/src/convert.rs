//! From the configuration to its form for the REST interface and back.
//!
//! A conversion changes the type and nothing else: what comes out stands
//! for the same configuration as what went in.
use crate::config::{
    action_defs, extractor_defs, lemma_view_and, lemma_view_filter_node, lemma_view_or, node_defs,
    operator_defs, rule_defs, Action, Constraint, Extractor, ExtractorRegex, Filter, MatcherConfig,
    Operator, Rule,
};
use crate::dto::{
    action_dtos_view, extractor_dtos_view, lemma_view_filter_dto, lemma_view_operator_dtos,
    node_dtos_view, operator_dtos_view, rule_dtos_view, ActionDto, ConstraintDto, ExtractorDto,
    ExtractorRegexDto, FilterDto, MatcherConfigDto, OperatorDto, RuleDto,
};
use crate::error::MatcherError;
use crate::value::{clone_entries, clone_value};
use vstd::prelude::*;

verus! {

#[verifier::loop_isolation(false)]
fn operator_as_dto(operator: &Operator) -> (dto: OperatorDto)
    ensures
        dto@ == operator@,
    decreases operator,
{
    match operator {
        Operator::And { operators } => {
            let converted = operators_as_dto(operators);
            proof {
                lemma_view_and(*operators);
                lemma_view_operator_dtos(converted);
            }
            OperatorDto::And { operators: converted }
        },
        Operator::Or { operators } => {
            let converted = operators_as_dto(operators);
            proof {
                lemma_view_or(*operators);
                lemma_view_operator_dtos(converted);
            }
            OperatorDto::Or { operators: converted }
        },
        Operator::Contain { first, second } => OperatorDto::Contain {
            first: clone_value(first),
            second: clone_value(second),
        },
        Operator::Equal { first, second } => OperatorDto::Equal {
            first: clone_value(first),
            second: clone_value(second),
        },
        Operator::GreaterEqualThan { first, second } => OperatorDto::GreaterEqualThan {
            first: clone_value(first),
            second: clone_value(second),
        },
        Operator::GreaterThan { first, second } => OperatorDto::GreaterThan {
            first: clone_value(first),
            second: clone_value(second),
        },
        Operator::LessEqualThan { first, second } => OperatorDto::LessEqualThan {
            first: clone_value(first),
            second: clone_value(second),
        },
        Operator::LessThan { first, second } => OperatorDto::LessThan {
            first: clone_value(first),
            second: clone_value(second),
        },
        Operator::Regex { regex, target } => OperatorDto::Regex {
            regex: regex.clone(),
            target: target.clone(),
        },
    }
}

#[verifier::loop_isolation(false)]
fn operators_as_dto(operators: &Vec<Operator>) -> (dtos: Vec<OperatorDto>)
    ensures
        operator_dtos_view(dtos@) == operator_defs(operators@),
    decreases operators,
{
    let mut out: Vec<OperatorDto> = Vec::new();
    let mut i: usize = 0;
    while i < operators.len()
        invariant
            i <= operators@.len(),
            out@.len() == i,
            forall|k: int| 0 <= k < i ==> (#[trigger] out@[k])@ == operators@[k]@,
        decreases operators@.len() - i,
    {
        out.push(operator_as_dto(&operators[i]));
        i = i + 1;
    }
    assert(operator_dtos_view(out@) =~= operator_defs(operators@));
    out
}

fn optional_operator_as_dto(operator: &Option<Operator>) -> (dto: Option<OperatorDto>)
    ensures
        crate::dto::optional_dto_view(dto) == crate::config::optional_def(*operator),
{
    match operator {
        Some(op) => Some(operator_as_dto(op)),
        None => None,
    }
}

fn extractor_as_dto(extractor: &Extractor) -> (dto: ExtractorDto)
    ensures
        dto@ == extractor@,
{
    ExtractorDto {
        from: extractor.from.clone(),
        regex: ExtractorRegexDto {
            regex: extractor.regex.regex.clone(),
            group_match_idx: extractor.regex.group_match_idx,
            all_matches: extractor.regex.all_matches,
        },
    }
}

#[verifier::loop_isolation(false)]
fn constraint_as_dto(constraint: &Constraint) -> (dto: ConstraintDto)
    ensures
        dto@ == constraint@,
{
    let where_operator = optional_operator_as_dto(&constraint.where_operator);
    let mut with: Vec<(String, ExtractorDto)> = Vec::new();
    let mut i: usize = 0;
    while i < constraint.with.len()
        invariant
            i <= constraint.with@.len(),
            with@.len() == i,
            forall|k: int|
                0 <= k < i ==> (#[trigger] with@[k]).0@ == constraint.with@[k].0@ && with@[k].1@
                    == constraint.with@[k].1@,
        decreases constraint.with@.len() - i,
    {
        with.push((constraint.with[i].0.clone(), extractor_as_dto(&constraint.with[i].1)));
        i = i + 1;
    }
    assert(extractor_dtos_view(with@) =~= extractor_defs(constraint.with@));
    ConstraintDto { where_operator, with }
}

fn action_as_dto(action: &Action) -> (dto: ActionDto)
    ensures
        dto@ == action@,
{
    ActionDto { id: action.id.clone(), payload: clone_entries(&action.payload) }
}

#[verifier::loop_isolation(false)]
fn rule_as_dto(rule: &Rule) -> (dto: RuleDto)
    ensures
        dto@ == rule@,
{
    let mut actions: Vec<ActionDto> = Vec::new();
    let mut i: usize = 0;
    while i < rule.actions.len()
        invariant
            i <= rule.actions@.len(),
            actions@.len() == i,
            forall|k: int| 0 <= k < i ==> (#[trigger] actions@[k])@ == rule.actions@[k]@,
        decreases rule.actions@.len() - i,
    {
        actions.push(action_as_dto(&rule.actions[i]));
        i = i + 1;
    }
    assert(action_dtos_view(actions@) =~= action_defs(rule.actions@));
    RuleDto {
        name: rule.name.clone(),
        description: rule.description.clone(),
        do_continue: rule.do_continue,
        active: rule.active,
        constraint: constraint_as_dto(&rule.constraint),
        actions,
    }
}

fn filter_as_dto(filter: &Filter) -> (dto: FilterDto)
    ensures
        dto@ == filter@,
{
    FilterDto {
        description: filter.description.clone(),
        active: filter.active,
        filter: optional_operator_as_dto(&filter.filter),
    }
}

#[verifier::loop_isolation(false)]
fn config_as_dto(config: &MatcherConfig) -> (dto: MatcherConfigDto)
    ensures
        dto@ == config@,
    decreases config,
{
    match config {
        MatcherConfig::Ruleset { name, rules } => {
            let mut converted: Vec<RuleDto> = Vec::new();
            let mut i: usize = 0;
            while i < rules.len()
                invariant
                    i <= rules@.len(),
                    converted@.len() == i,
                    forall|k: int| 0 <= k < i ==> (#[trigger] converted@[k])@ == rules@[k]@,
                decreases rules@.len() - i,
            {
                converted.push(rule_as_dto(&rules[i]));
                i = i + 1;
            }
            assert(rule_dtos_view(converted@) =~= rule_defs(rules@));
            MatcherConfigDto::Ruleset { name: name.clone(), rules: converted }
        },
        MatcherConfig::Filter { name, filter, nodes } => {
            let mut converted: Vec<MatcherConfigDto> = Vec::new();
            let mut i: usize = 0;
            while i < nodes.len()
                invariant
                    i <= nodes@.len(),
                    converted@.len() == i,
                    forall|k: int| 0 <= k < i ==> (#[trigger] converted@[k])@ == nodes@[k]@,
                decreases nodes@.len() - i,
            {
                converted.push(config_as_dto(&nodes[i]));
                i = i + 1;
            }
            let filter_dto = filter_as_dto(filter);
            proof {
                assert(node_dtos_view(converted@) =~= node_defs(nodes@));
                lemma_view_filter_node(*name, *filter, *nodes);
                lemma_view_filter_dto(*name, filter_dto, converted);
            }
            MatcherConfigDto::Filter { name: name.clone(), filter: filter_dto, nodes: converted }
        },
    }
}

/// The configuration tree in its form for the REST interface. It never
/// fails.
pub fn matcher_config_into_dto(config: MatcherConfig) -> (r: Result<MatcherConfigDto, MatcherError>)
    ensures
        r matches Ok(dto) && dto@ == config@,
{
    Ok(config_as_dto(&config))
}

/// A filter in its form for the REST interface. It never fails.
pub fn filter_into_dto(filter: Filter) -> (r: Result<FilterDto, MatcherError>)
    ensures
        r matches Ok(dto) && dto@ == filter@,
{
    Ok(filter_as_dto(&filter))
}

/// A rule in its form for the REST interface. It never fails.
pub fn rule_into_dto(rule: Rule) -> (r: Result<RuleDto, MatcherError>)
    ensures
        r matches Ok(dto) && dto@ == rule@,
{
    Ok(rule_as_dto(&rule))
}

/// An action in its form for the REST interface. It never fails.
pub fn action_into_dto(action: Action) -> (r: Result<ActionDto, MatcherError>)
    ensures
        r matches Ok(dto) && dto@ == action@,
{
    Ok(ActionDto { id: action.id, payload: action.payload })
}

/// A constraint in its form for the REST interface. It never fails.
pub fn constraint_into_dto(constraint: Constraint) -> (r: Result<ConstraintDto, MatcherError>)
    ensures
        r matches Ok(dto) && dto@ == constraint@,
{
    Ok(constraint_as_dto(&constraint))
}

/// An operator in its form for the REST interface. It never fails.
pub fn operator_into_dto(operator: Operator) -> (r: Result<OperatorDto, MatcherError>)
    ensures
        r matches Ok(dto) && dto@ == operator@,
{
    Ok(operator_as_dto(&operator))
}

/// An extractor in its form for the REST interface.
pub fn extractor_into_dto(extractor: Extractor) -> (dto: ExtractorDto)
    ensures
        dto@ == extractor@,
{
    ExtractorDto { from: extractor.from, regex: extractor_regex_into_dto(extractor.regex) }
}

/// The regular expression of an extractor in its form for the REST
/// interface.
pub fn extractor_regex_into_dto(extractor_regex: ExtractorRegex) -> (dto: ExtractorRegexDto)
    ensures
        dto.regex@ == extractor_regex.regex@,
        dto.group_match_idx == extractor_regex.group_match_idx,
        dto.all_matches == extractor_regex.all_matches,
{
    ExtractorRegexDto {
        regex: extractor_regex.regex,
        group_match_idx: extractor_regex.group_match_idx,
        all_matches: extractor_regex.all_matches,
    }
}

#[verifier::loop_isolation(false)]
fn operator_from_dto(dto: &OperatorDto) -> (operator: Operator)
    ensures
        operator@ == dto@,
    decreases dto,
{
    match dto {
        OperatorDto::And { operators } => {
            let converted = operators_from_dto(operators);
            proof {
                lemma_view_operator_dtos(*operators);
                lemma_view_and(converted);
            }
            Operator::And { operators: converted }
        },
        OperatorDto::Or { operators } => {
            let converted = operators_from_dto(operators);
            proof {
                lemma_view_operator_dtos(*operators);
                lemma_view_or(converted);
            }
            Operator::Or { operators: converted }
        },
        OperatorDto::Contain { first, second } => Operator::Contain {
            first: clone_value(first),
            second: clone_value(second),
        },
        OperatorDto::Equal { first, second } => Operator::Equal {
            first: clone_value(first),
            second: clone_value(second),
        },
        OperatorDto::GreaterEqualThan { first, second } => Operator::GreaterEqualThan {
            first: clone_value(first),
            second: clone_value(second),
        },
        OperatorDto::GreaterThan { first, second } => Operator::GreaterThan {
            first: clone_value(first),
            second: clone_value(second),
        },
        OperatorDto::LessEqualThan { first, second } => Operator::LessEqualThan {
            first: clone_value(first),
            second: clone_value(second),
        },
        OperatorDto::LessThan { first, second } => Operator::LessThan {
            first: clone_value(first),
            second: clone_value(second),
        },
        OperatorDto::Regex { regex, target } => Operator::Regex {
            regex: regex.clone(),
            target: target.clone(),
        },
    }
}

#[verifier::loop_isolation(false)]
fn operators_from_dto(dtos: &Vec<OperatorDto>) -> (operators: Vec<Operator>)
    ensures
        operator_defs(operators@) == operator_dtos_view(dtos@),
    decreases dtos,
{
    let mut out: Vec<Operator> = Vec::new();
    let mut i: usize = 0;
    while i < dtos.len()
        invariant
            i <= dtos@.len(),
            out@.len() == i,
            forall|k: int| 0 <= k < i ==> (#[trigger] out@[k])@ == dtos@[k]@,
        decreases dtos@.len() - i,
    {
        out.push(operator_from_dto(&dtos[i]));
        i = i + 1;
    }
    assert(operator_defs(out@) =~= operator_dtos_view(dtos@));
    out
}

fn optional_operator_from_dto(dto: &Option<OperatorDto>) -> (operator: Option<Operator>)
    ensures
        crate::config::optional_def(operator) == crate::dto::optional_dto_view(*dto),
{
    match dto {
        Some(op) => Some(operator_from_dto(op)),
        None => None,
    }
}

fn extractor_from_dto(dto: &ExtractorDto) -> (extractor: Extractor)
    ensures
        extractor@ == dto@,
{
    Extractor {
        from: dto.from.clone(),
        regex: ExtractorRegex {
            regex: dto.regex.regex.clone(),
            group_match_idx: dto.regex.group_match_idx,
            all_matches: dto.regex.all_matches,
        },
    }
}

#[verifier::loop_isolation(false)]
fn constraint_from_dto(dto: &ConstraintDto) -> (constraint: Constraint)
    ensures
        constraint@ == dto@,
{
    let where_operator = optional_operator_from_dto(&dto.where_operator);
    let mut with: Vec<(String, Extractor)> = Vec::new();
    let mut i: usize = 0;
    while i < dto.with.len()
        invariant
            i <= dto.with@.len(),
            with@.len() == i,
            forall|k: int|
                0 <= k < i ==> (#[trigger] with@[k]).0@ == dto.with@[k].0@ && with@[k].1@
                    == dto.with@[k].1@,
        decreases dto.with@.len() - i,
    {
        with.push((dto.with[i].0.clone(), extractor_from_dto(&dto.with[i].1)));
        i = i + 1;
    }
    assert(extractor_defs(with@) =~= extractor_dtos_view(dto.with@));
    Constraint { where_operator, with }
}

fn action_from_dto(dto: &ActionDto) -> (action: Action)
    ensures
        action@ == dto@,
{
    Action { id: dto.id.clone(), payload: clone_entries(&dto.payload) }
}

#[verifier::loop_isolation(false)]
fn rule_from_dto(dto: &RuleDto) -> (rule: Rule)
    ensures
        rule@ == dto@,
{
    let mut actions: Vec<Action> = Vec::new();
    let mut i: usize = 0;
    while i < dto.actions.len()
        invariant
            i <= dto.actions@.len(),
            actions@.len() == i,
            forall|k: int| 0 <= k < i ==> (#[trigger] actions@[k])@ == dto.actions@[k]@,
        decreases dto.actions@.len() - i,
    {
        actions.push(action_from_dto(&dto.actions[i]));
        i = i + 1;
    }
    assert(action_defs(actions@) =~= action_dtos_view(dto.actions@));
    Rule {
        name: dto.name.clone(),
        description: dto.description.clone(),
        do_continue: dto.do_continue,
        active: dto.active,
        constraint: constraint_from_dto(&dto.constraint),
        actions,
    }
}

fn filter_from_dto(dto: &FilterDto) -> (filter: Filter)
    ensures
        filter@ == dto@,
{
    Filter {
        description: dto.description.clone(),
        active: dto.active,
        filter: optional_operator_from_dto(&dto.filter),
    }
}

#[verifier::loop_isolation(false)]
fn config_from_dto(dto: &MatcherConfigDto) -> (config: MatcherConfig)
    ensures
        config@ == dto@,
    decreases dto,
{
    match dto {
        MatcherConfigDto::Ruleset { name, rules } => {
            let mut converted: Vec<Rule> = Vec::new();
            let mut i: usize = 0;
            while i < rules.len()
                invariant
                    i <= rules@.len(),
                    converted@.len() == i,
                    forall|k: int| 0 <= k < i ==> (#[trigger] converted@[k])@ == rules@[k]@,
                decreases rules@.len() - i,
            {
                converted.push(rule_from_dto(&rules[i]));
                i = i + 1;
            }
            assert(rule_defs(converted@) =~= rule_dtos_view(rules@));
            MatcherConfig::Ruleset { name: name.clone(), rules: converted }
        },
        MatcherConfigDto::Filter { name, filter, nodes } => {
            let mut converted: Vec<MatcherConfig> = Vec::new();
            let mut i: usize = 0;
            while i < nodes.len()
                invariant
                    i <= nodes@.len(),
                    converted@.len() == i,
                    forall|k: int| 0 <= k < i ==> (#[trigger] converted@[k])@ == nodes@[k]@,
                decreases nodes@.len() - i,
            {
                converted.push(config_from_dto(&nodes[i]));
                i = i + 1;
            }
            let filter_config = filter_from_dto(filter);
            proof {
                assert(node_defs(converted@) =~= node_dtos_view(nodes@));
                lemma_view_filter_dto(*name, *filter, *nodes);
                lemma_view_filter_node(*name, filter_config, converted);
            }
            MatcherConfig::Filter { name: name.clone(), filter: filter_config, nodes: converted }
        },
    }
}

/// The configuration tree that a form for the REST interface stands for.
/// It never fails.
pub fn dto_into_matcher_config(dto: MatcherConfigDto) -> (r: Result<MatcherConfig, MatcherError>)
    ensures
        r matches Ok(config) && config@ == dto@,
{
    Ok(config_from_dto(&dto))
}

/// The filter that a form for the REST interface stands for. It never
/// fails.
pub fn dto_into_filter(dto: FilterDto) -> (r: Result<Filter, MatcherError>)
    ensures
        r matches Ok(filter) && filter@ == dto@,
{
    Ok(filter_from_dto(&dto))
}

/// The rule that a form for the REST interface stands for. It never fails.
pub fn dto_into_rule(dto: RuleDto) -> (r: Result<Rule, MatcherError>)
    ensures
        r matches Ok(rule) && rule@ == dto@,
{
    Ok(rule_from_dto(&dto))
}

/// The action that a form for the REST interface stands for. It never
/// fails.
pub fn dto_into_action(dto: ActionDto) -> (r: Result<Action, MatcherError>)
    ensures
        r matches Ok(action) && action@ == dto@,
{
    Ok(Action { id: dto.id, payload: dto.payload })
}

/// The constraint that a form for the REST interface stands for. It never
/// fails.
pub fn dto_into_constraint(dto: ConstraintDto) -> (r: Result<Constraint, MatcherError>)
    ensures
        r matches Ok(constraint) && constraint@ == dto@,
{
    Ok(constraint_from_dto(&dto))
}

/// The operator that a form for the REST interface stands for. It never
/// fails.
pub fn dto_into_operator(dto: OperatorDto) -> (r: Result<Operator, MatcherError>)
    ensures
        r matches Ok(operator) && operator@ == dto@,
{
    Ok(operator_from_dto(&dto))
}

/// The extractor that a form for the REST interface stands for.
pub fn dto_into_extractor(dto: ExtractorDto) -> (extractor: Extractor)
    ensures
        extractor@ == dto@,
{
    Extractor { from: dto.from, regex: dto_into_extractor_regex(dto.regex) }
}

/// The regular expression of an extractor that a form for the REST
/// interface stands for.
pub fn dto_into_extractor_regex(dto: ExtractorRegexDto) -> (extractor_regex: ExtractorRegex)
    ensures
        extractor_regex.regex@ == dto.regex@,
        extractor_regex.group_match_idx == dto.group_match_idx,
        extractor_regex.all_matches == dto.all_matches,
{
    ExtractorRegex {
        regex: dto.regex,
        group_match_idx: dto.group_match_idx,
        all_matches: dto.all_matches,
    }
}

/// A configuration that went to its form for the REST interface and came
/// back stands for what it stood for.
pub proof fn law_dto_round_trip(config: MatcherConfig, dto: MatcherConfigDto, back: MatcherConfig)
    requires
        dto@ == config@,
        back@ == dto@,
    ensures
        back@ == config@,
        crate::matcher::node_of(back@) == crate::matcher::node_of(config@),
{
}

} // verus!
