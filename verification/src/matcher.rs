//! The matcher: a configuration compiled once, and the processing of events
//! against it.
//!
//! Processing changes nothing but its result. A filter lets an event through
//! to its children or not. A ruleset tries its rules in the order in which
//! they were declared; the variables that a rule extracts are seen by the
//! rules after it in the same ruleset and nowhere else.
use crate::action::{
    actions_of, matcher_actions_view, render_all, rendered_actions, MatcherAction,
    MatcherActionBuilder, MatcherActionView,
};
use crate::config::{
    lemma_view_filter_node, node_defs, rule_defs, MatcherConfig, NodeDef, Rule, RuleDef,
};
use crate::error::{ErrorView, MatcherError};
use crate::event::{Event, EventView};
use crate::extractor::{
    extraction, extractors_of, ExtractorView, MatcherExtractor, MatcherExtractorBuilder,
};
use crate::model::{
    lemma_view_processed_filter, processed_nodes_view, processed_rules_view, rendered_actions_view,
    ProcessedEvent, ProcessedEventView, ProcessedFilterStatus, ProcessedNode, ProcessedNodeView,
    ProcessedRule, ProcessedRules, ProcessedRuleStatus, ProcessedRulesView, ProcessedRuleView,
    RenderedActionView,
};
use crate::operator::{
    evaluate_optional, holds_or_absent, optional_operator_of, optional_view, Operator,
    OperatorBuilder, OperatorView,
};
use crate::text::join3;
use crate::validator::{
    filter_name_message, is_identifier, rules_fault, ruleset_name_message, IdValidator,
    RuleValidator,
};
use crate::value::{
    clone_entries, clone_value, entries_view, put_entry, with_entry, Value, ValueView,
};
use vstd::prelude::*;

verus! {

/// A compiled rule.
#[derive(Debug)]
pub struct MatcherRule {
    pub name: String,
    pub do_continue: bool,
    pub active: bool,
    pub operator: Option<Operator>,
    pub extractor: MatcherExtractor,
    pub actions: Vec<MatcherAction>,
}

/// What a [`MatcherRule`] stands for.
pub struct RuleView {
    pub name: Seq<char>,
    pub do_continue: bool,
    pub active: bool,
    pub operator: Option<OperatorView>,
    pub extractors: Seq<ExtractorView>,
    pub actions: Seq<MatcherActionView>,
}

impl View for MatcherRule {
    type V = RuleView;

    open spec fn view(&self) -> RuleView {
        RuleView {
            name: self.name@,
            do_continue: self.do_continue,
            active: self.active,
            operator: optional_view(self.operator),
            extractors: self.extractor@,
            actions: matcher_actions_view(self.actions@),
        }
    }
}

/// The views of a list of compiled rules.
pub open spec fn rules_view(rules: Seq<MatcherRule>) -> Seq<RuleView> {
    Seq::new(rules.len(), |i: int| rules[i]@)
}

/// A compiled node of the tree.
#[derive(Debug)]
pub enum MatcherNode {
    Filter { name: String, active: bool, filter: Option<Operator>, nodes: Vec<MatcherNode> },
    Ruleset { name: String, rules: Vec<MatcherRule> },
}

/// What a [`MatcherNode`] stands for.
pub enum NodeView {
    Filter { name: Seq<char>, active: bool, filter: Option<OperatorView>, nodes: Seq<NodeView> },
    Ruleset { name: Seq<char>, rules: Seq<RuleView> },
}

/// What `node` stands for.
pub open spec fn node_view(node: MatcherNode) -> NodeView
    decreases node,
{
    match node {
        MatcherNode::Filter { name, active, filter, nodes } => NodeView::Filter {
            name: name@,
            active,
            filter: optional_view(filter),
            nodes: Seq::new(
                nodes@.len(),
                |i: int|
                    if 0 <= i < nodes@.len() {
                        node_view(nodes@[i])
                    } else {
                        NodeView::Ruleset { name: Seq::empty(), rules: Seq::empty() }
                    },
            ),
        },
        MatcherNode::Ruleset { name, rules } => NodeView::Ruleset {
            name: name@,
            rules: rules_view(rules@),
        },
    }
}

impl View for MatcherNode {
    type V = NodeView;

    open spec fn view(&self) -> NodeView {
        node_view(*self)
    }
}

/// The views of a list of compiled nodes.
pub open spec fn nodes_view(nodes: Seq<MatcherNode>) -> Seq<NodeView> {
    Seq::new(nodes.len(), |i: int| nodes[i]@)
}

/// The view of a compiled filter is made of the views of its children.
pub proof fn lemma_view_filter(
    name: String,
    active: bool,
    filter: Option<Operator>,
    nodes: Vec<MatcherNode>,
)
    ensures
        (MatcherNode::Filter { name, active, filter, nodes })@ == (NodeView::Filter {
            name: name@,
            active,
            filter: optional_view(filter),
            nodes: nodes_view(nodes@),
        }),
{
    assert((MatcherNode::Filter { name, active, filter, nodes })@->nodes =~= nodes_view(nodes@));
}

// ---------------------------------------------------------------------
// Compiling
// ---------------------------------------------------------------------
/// What the rule `def` compiles to. A rule that is not active compiles to
/// a placeholder: nothing of it is compiled, so nothing in it can fail.
pub open spec fn rule_of(def: RuleDef) -> Result<RuleView, ErrorView> {
    if !def.active {
        Ok(
            RuleView {
                name: def.name,
                do_continue: def.do_continue,
                active: false,
                operator: None,
                extractors: Seq::empty(),
                actions: Seq::empty(),
            },
        )
    } else {
        match optional_operator_of(def.name, def.constraint.where_operator) {
            Ok(operator) => match extractors_of(def.name, def.constraint.with) {
                Ok(extractors) => match actions_of(def.name, def.actions) {
                    Ok(actions) => Ok(
                        RuleView {
                            name: def.name,
                            do_continue: def.do_continue,
                            active: true,
                            operator,
                            extractors,
                            actions,
                        },
                    ),
                    Err(e) => Err(e),
                },
                Err(e) => Err(e),
            },
            Err(e) => Err(e),
        }
    }
}

/// What the rules `defs` compile to, one after the other; the first that
/// fails fails the list.
pub open spec fn compiled_rules(defs: Seq<RuleDef>) -> Result<Seq<RuleView>, ErrorView>
    decreases defs.len(),
{
    if defs.len() == 0 {
        Ok(Seq::empty())
    } else {
        match compiled_rules(defs.drop_last()) {
            Ok(rules) => match rule_of(defs.last()) {
                Ok(rule) => Ok(rules.push(rule)),
                Err(e) => Err(e),
            },
            Err(e) => Err(e),
        }
    }
}

/// What the rules `defs` of a ruleset compile to, in the order of their
/// declaration. Their names are validated first: the names of the rules and
/// of their variables must be identifiers, and a name that an earlier rule
/// has is a `NotUniqueName`. Then the rules are compiled, and the first that
/// fails fails the ruleset.
pub open spec fn rules_of(defs: Seq<RuleDef>) -> Result<Seq<RuleView>, ErrorView> {
    match rules_fault(defs) {
        Some(e) => Err(e),
        None => compiled_rules(defs),
    }
}

/// What the node `def` compiles to. The names of filters and rulesets must
/// be identifiers.
pub open spec fn node_of(def: NodeDef) -> Result<NodeView, ErrorView>
    decreases def,
{
    match def {
        NodeDef::Filter { name, filter, nodes } => if !is_identifier(name) {
            Err(ErrorView::NotValidIdOrName { message: filter_name_message(name) })
        } else {
            match optional_operator_of(name, filter.filter) {
                Ok(operator) => match nodes_of(nodes) {
                    Ok(children) => Ok(
                        NodeView::Filter {
                            name,
                            active: filter.active,
                            filter: operator,
                            nodes: children,
                        },
                    ),
                    Err(e) => Err(e),
                },
                Err(e) => Err(e),
            }
        },
        NodeDef::Ruleset { name, rules } => if !is_identifier(name) {
            Err(ErrorView::NotValidIdOrName { message: ruleset_name_message(name) })
        } else {
            match rules_of(rules) {
                Ok(compiled) => Ok(NodeView::Ruleset { name, rules: compiled }),
                Err(e) => Err(e),
            }
        },
    }
}

/// What the nodes `defs` compile to, in order; the first that fails fails
/// the list.
pub open spec fn nodes_of(defs: Seq<NodeDef>) -> Result<Seq<NodeView>, ErrorView>
    decreases defs,
{
    if defs.len() == 0 {
        Ok(Seq::empty())
    } else {
        match nodes_of(defs.drop_last()) {
            Ok(nodes) => match node_of(defs.last()) {
                Ok(node) => Ok(nodes.push(node)),
                Err(e) => Err(e),
            },
            Err(e) => Err(e),
        }
    }
}

/// Once a prefix of `defs` fails to compile, `defs` fails in the same way.
pub proof fn lemma_compiled_rules_err(defs: Seq<RuleDef>, i: int)
    requires
        0 <= i < defs.len(),
        compiled_rules(defs.take(i + 1)) is Err,
    ensures
        compiled_rules(defs) == compiled_rules(defs.take(i + 1)),
    decreases defs.len() - i,
{
    if i + 1 == defs.len() {
        assert(defs.take(i + 1) =~= defs);
    } else {
        assert(defs.take(i + 2).drop_last() =~= defs.take(i + 1));
        lemma_compiled_rules_err(defs, i + 1);
    }
}

/// Once a prefix of `defs` fails to compile, `defs` fails in the same way.
pub proof fn lemma_nodes_of_err(defs: Seq<NodeDef>, i: int)
    requires
        0 <= i < defs.len(),
        nodes_of(defs.take(i + 1)) is Err,
    ensures
        nodes_of(defs) == nodes_of(defs.take(i + 1)),
    decreases defs.len() - i,
{
    reveal_with_fuel(nodes_of, 2);
    if i + 1 == defs.len() {
        assert(defs.take(i + 1) =~= defs);
    } else {
        assert(defs.take(i + 2).drop_last() =~= defs.take(i + 1));
        lemma_nodes_of_err(defs, i + 1);
    }
}

// ---------------------------------------------------------------------
// Processing
// ---------------------------------------------------------------------
/// The sentence that describes why a variable or an action failed.
pub open spec fn failure_text(e: ErrorView) -> Seq<char> {
    match e {
        ErrorView::MissingExtractedVariable { rule, variable } => "Rule ["@ + rule
            + "]: missing extracted variable ["@ + variable + "]"@,
        _ => Seq::empty(),
    }
}

/// The message of a rule whose variables could not all be extracted.
pub open spec fn extraction_message(rule: Seq<char>, e: ErrorView) -> Seq<char> {
    "Matcher process - The event matches the rule ["@ + rule
        + "] but some variables cannot be extracted: ["@ + failure_text(e) + "]"@
}

/// The message of a rule whose actions could not all be rendered.
pub open spec fn rendering_message(rule: Seq<char>, e: ErrorView) -> Seq<char> {
    "Matcher process - The event matches the rule ["@ + rule
        + "] and all variables are extracted correctly; however, some actions cannot be resolved: ["@
        + failure_text(e) + "]"@
}

/// An outcome without actions.
pub open spec fn plain_outcome(
    name: Seq<char>,
    status: ProcessedRuleStatus,
    message: Option<Seq<char>>,
) -> ProcessedRuleView {
    ProcessedRuleView { name, status, actions: Seq::empty(), message }
}

/// How the rule `rule` fares with `event`, given the variables `vars` of
/// its ruleset, and the variables after it.
///
/// A rule that is not active is not processed. A rule whose condition does
/// not hold is not matched. Otherwise its variables are extracted and then
/// its actions rendered, with the variables extracted. Where both succeed
/// the rule is matched and its variables are added. Where one of them fails
/// the rule is partially matched, with a message, and the variables stay as
/// they were.
pub open spec fn rule_outcome(
    rule: RuleView,
    event: EventView,
    vars: Seq<(Seq<char>, ValueView)>,
) -> (ProcessedRuleView, Seq<(Seq<char>, ValueView)>) {
    if !rule.active {
        (plain_outcome(rule.name, ProcessedRuleStatus::NotProcessed, None), vars)
    } else if !holds_or_absent(rule.operator, event, vars) {
        (plain_outcome(rule.name, ProcessedRuleStatus::NotMatched, None), vars)
    } else {
        match extraction(rule.extractors, rule.name, event, vars) {
            Ok((own, running)) => match rendered_actions(rule.actions, rule.name, event, running) {
                Ok(actions) => (
                    ProcessedRuleView {
                        name: rule.name,
                        status: ProcessedRuleStatus::Matched,
                        actions,
                        message: None,
                    },
                    running,
                ),
                Err(e) => (
                    plain_outcome(
                        rule.name,
                        ProcessedRuleStatus::PartiallyMatched,
                        Some(rendering_message(rule.name, e)),
                    ),
                    vars,
                ),
            },
            Err(e) => (
                plain_outcome(
                    rule.name,
                    ProcessedRuleStatus::PartiallyMatched,
                    Some(extraction_message(rule.name, e)),
                ),
                vars,
            ),
        }
    }
}

/// `first` put before the outcomes of `rest`.
pub open spec fn outcome_then(first: ProcessedRuleView, rest: ProcessedRulesView)
    -> ProcessedRulesView {
    ProcessedRulesView { rules: seq![first] + rest.rules, extracted_vars: rest.extracted_vars }
}

/// How the rules from `i` on fare, given the variables `vars`: each in
/// turn, each seeing the variables of those before it. After a matched rule
/// that does not continue, no further rule is tried.
pub open spec fn rules_outcome(
    rules: Seq<RuleView>,
    event: EventView,
    i: int,
    vars: Seq<(Seq<char>, ValueView)>,
) -> ProcessedRulesView
    decreases rules.len() - i,
{
    if i < 0 || i >= rules.len() {
        ProcessedRulesView { rules: Seq::empty(), extracted_vars: vars }
    } else {
        let (outcome, after) = rule_outcome(rules[i], event, vars);
        if outcome.status == ProcessedRuleStatus::Matched && !rules[i].do_continue {
            ProcessedRulesView { rules: seq![outcome], extracted_vars: after }
        } else {
            outcome_then(outcome, rules_outcome(rules, event, i + 1, after))
        }
    }
}

/// How the node `node` fares with `event`.
///
/// A filter that is not active is `Inactive` and a filter whose condition
/// does not hold is `NotMatched`: neither has children in the outcome. A
/// filter whose condition holds, or that has none, is `Matched`, and each of
/// its children is processed. A ruleset starts without variables.
pub open spec fn node_outcome(node: NodeView, event: EventView) -> ProcessedNodeView
    decreases node,
{
    match node {
        NodeView::Filter { name, active, filter, nodes } => if !active {
            ProcessedNodeView::Filter {
                name,
                status: ProcessedFilterStatus::Inactive,
                nodes: Seq::empty(),
            }
        } else if holds_or_absent(filter, event, Seq::empty()) {
            ProcessedNodeView::Filter {
                name,
                status: ProcessedFilterStatus::Matched,
                nodes: nodes_outcome(nodes, event),
            }
        } else {
            ProcessedNodeView::Filter {
                name,
                status: ProcessedFilterStatus::NotMatched,
                nodes: Seq::empty(),
            }
        },
        NodeView::Ruleset { name, rules } => ProcessedNodeView::Ruleset {
            name,
            rules: rules_outcome(rules, event, 0, Seq::empty()),
        },
    }
}

/// How the nodes `nodes` fare with `event`, each by itself.
pub open spec fn nodes_outcome(nodes: Seq<NodeView>, event: EventView) -> Seq<ProcessedNodeView>
    decreases nodes,
{
    if nodes.len() == 0 {
        Seq::empty()
    } else {
        nodes_outcome(nodes.drop_last(), event).push(node_outcome(nodes.last(), event))
    }
}

/// `base` with the entries of `add` put into it, in order.
pub open spec fn overlay(
    base: Seq<(Seq<char>, ValueView)>,
    add: Seq<(Seq<char>, ValueView)>,
) -> Seq<(Seq<char>, ValueView)>
    decreases add.len(),
{
    if add.len() == 0 {
        base
    } else {
        with_entry(overlay(base, add.drop_last()), add.last().0, add.last().1)
    }
}

/// `base` with the variables of every ruleset under `node` put into it, in
/// the order in which the rulesets were processed.
pub open spec fn gathered(base: Seq<(Seq<char>, ValueView)>, node: ProcessedNodeView) -> Seq<
    (Seq<char>, ValueView),
>
    decreases node,
{
    match node {
        ProcessedNodeView::Filter { nodes, .. } => gathered_all(base, nodes),
        ProcessedNodeView::Ruleset { rules, .. } => overlay(base, rules.extracted_vars),
    }
}

/// `base` with the variables of every ruleset under `nodes` put into it.
pub open spec fn gathered_all(
    base: Seq<(Seq<char>, ValueView)>,
    nodes: Seq<ProcessedNodeView>,
) -> Seq<(Seq<char>, ValueView)>
    decreases nodes,
{
    if nodes.len() == 0 {
        base
    } else {
        gathered(gathered_all(base, nodes.drop_last()), nodes.last())
    }
}

/// What processing `event` against the compiled tree `node` gives back.
pub open spec fn processed(node: NodeView, event: EventView) -> ProcessedEventView {
    ProcessedEventView {
        event,
        extracted_vars: gathered(Seq::empty(), node_outcome(node, event)),
        result: node_outcome(node, event),
    }
}

/// An extraction fails with `MissingExtractedVariable` only.
pub proof fn lemma_extraction_error(
    xs: Seq<ExtractorView>,
    rule: Seq<char>,
    event: EventView,
    vars: Seq<(Seq<char>, ValueView)>,
)
    ensures
        extraction(xs, rule, event, vars) matches Err(e) ==> e is MissingExtractedVariable,
    decreases xs.len(),
{
    if xs.len() > 0 {
        lemma_extraction_error(xs.drop_last(), rule, event, vars);
    }
}

/// A rendering fails with `MissingExtractedVariable` only.
pub proof fn lemma_rendering_error(
    actions: Seq<MatcherActionView>,
    rule: Seq<char>,
    event: EventView,
    vars: Seq<(Seq<char>, ValueView)>,
)
    ensures
        rendered_actions(actions, rule, event, vars) matches Err(e)
            ==> e is MissingExtractedVariable,
    decreases actions.len(),
{
    if actions.len() > 0 {
        lemma_rendering_error(actions.drop_last(), rule, event, vars);
        lemma_payload_error(actions.last().payload, rule, event, vars);
    }
}

proof fn lemma_payload_error(
    entries: Seq<(Seq<char>, crate::action::ActionValueView)>,
    rule: Seq<char>,
    event: EventView,
    vars: Seq<(Seq<char>, ValueView)>,
)
    ensures
        crate::action::rendered_payload(entries, rule, event, vars) matches Err(e)
            ==> e is MissingExtractedVariable,
    decreases entries.len(),
{
    if entries.len() > 0 {
        lemma_payload_error(entries.drop_last(), rule, event, vars);
    }
}

fn failure_message(head: &str, rule_name: &str, middle: &str, e: &MatcherError) -> (s: String)
    requires
        e@ is MissingExtractedVariable,
    ensures
        s@ == head@ + rule_name@ + middle@ + failure_text(e@) + "]"@,
{
    let mut s = join3(head, rule_name, middle);
    let detail = e.message();
    s.append(detail.as_str());
    s.append("]");
    s
}

impl MatcherRule {
    /// Processes `event` against the rule, given the variables `vars` of
    /// its ruleset, and adds to them what the rule extracts.
    pub fn process(&self, event: &Event, vars: &mut Vec<(String, Value)>) -> (r: ProcessedRule)
        ensures
            (r@, entries_view(final(vars)@)) == rule_outcome(
                self@,
                event@,
                entries_view(old(vars)@),
            ),
    {
        if !self.active {
            let r = ProcessedRule {
                name: self.name.clone(),
                status: ProcessedRuleStatus::NotProcessed,
                actions: Vec::new(),
                message: None,
            };
            assert(rendered_actions_view(r.actions@) =~= Seq::<RenderedActionView>::empty());
            return r;
        }
        if !evaluate_optional(&self.operator, event, vars) {
            let r = ProcessedRule {
                name: self.name.clone(),
                status: ProcessedRuleStatus::NotMatched,
                actions: Vec::new(),
                message: None,
            };
            assert(rendered_actions_view(r.actions@) =~= Seq::<RenderedActionView>::empty());
            return r;
        }
        let mut running = clone_entries(vars);
        let rule_name = self.name.as_str();
        proof {
            lemma_extraction_error(self@.extractors, self@.name, event@, entries_view(vars@));
        }
        match self.extractor.extract_all(event, &mut running, rule_name) {
            Ok(_) => {
                proof {
                    lemma_rendering_error(
                        self@.actions,
                        self@.name,
                        event@,
                        entries_view(running@),
                    );
                }
                match render_all(&self.actions, rule_name, event, &running) {
                    Ok(actions) => {
                        *vars = running;
                        ProcessedRule {
                            name: self.name.clone(),
                            status: ProcessedRuleStatus::Matched,
                            actions,
                            message: None,
                        }
                    },
                    Err(e) => {
                        let message = failure_message(
                            "Matcher process - The event matches the rule [",
                            rule_name,
                            "] and all variables are extracted correctly; however, some actions cannot be resolved: [",
                            &e,
                        );
                        let r = ProcessedRule {
                            name: self.name.clone(),
                            status: ProcessedRuleStatus::PartiallyMatched,
                            actions: Vec::new(),
                            message: Some(message),
                        };
                        assert(rendered_actions_view(r.actions@) =~= Seq::<
                            RenderedActionView,
                        >::empty());
                        r
                    },
                }
            },
            Err(e) => {
                let message = failure_message(
                    "Matcher process - The event matches the rule [",
                    rule_name,
                    "] but some variables cannot be extracted: [",
                    &e,
                );
                let r = ProcessedRule {
                    name: self.name.clone(),
                    status: ProcessedRuleStatus::PartiallyMatched,
                    actions: Vec::new(),
                    message: Some(message),
                };
                assert(rendered_actions_view(r.actions@) =~= Seq::<RenderedActionView>::empty());
                r
            },
        }
    }
}

/// Processes `event` against the rules of a ruleset.
#[verifier::loop_isolation(false)]
pub fn process_rules(rules: &Vec<MatcherRule>, event: &Event) -> (r: ProcessedRules)
    ensures
        r@ == rules_outcome(rules_view(rules@), event@, 0, Seq::empty()),
{
    let ghost rv = rules_view(rules@);
    let ghost ev = event@;
    let mut out: Vec<ProcessedRule> = Vec::new();
    let mut vars: Vec<(String, Value)> = Vec::new();
    let mut i: usize = 0;
    let mut stopped = false;
    assert(entries_view(vars@) =~= Seq::<(Seq<char>, ValueView)>::empty());
    assert(processed_rules_view(out@) =~= Seq::<ProcessedRuleView>::empty());
    assert(Seq::<ProcessedRuleView>::empty() + rules_outcome(rv, ev, 0, Seq::empty()).rules
        =~= rules_outcome(rv, ev, 0, Seq::empty()).rules);
    while i < rules.len() && !stopped
        invariant
            i <= rules@.len(),
            !stopped ==> rules_outcome(rv, ev, 0, Seq::empty()) == (ProcessedRulesView {
                rules: processed_rules_view(out@) + rules_outcome(
                    rv,
                    ev,
                    i as int,
                    entries_view(vars@),
                ).rules,
                extracted_vars: rules_outcome(rv, ev, i as int, entries_view(vars@)).extracted_vars,
            }),
            stopped ==> rules_outcome(rv, ev, 0, Seq::empty()) == (ProcessedRulesView {
                rules: processed_rules_view(out@),
                extracted_vars: entries_view(vars@),
            }),
        decreases rules@.len() - i, (if stopped { 0int } else { 1int }),
    {
        let ghost before = processed_rules_view(out@);
        let ghost vars_before = entries_view(vars@);
        let outcome = rules[i].process(event, &mut vars);
        let matched = outcome.status == ProcessedRuleStatus::Matched;
        assert(rv[i as int] == rules@[i as int]@);
        let ghost tail = rules_outcome(rv, ev, i + 1, entries_view(vars@));
        out.push(outcome);
        assert(processed_rules_view(out@) =~= before.push(outcome@));
        if matched && !rules[i].do_continue {
            assert(before + seq![outcome@] =~= processed_rules_view(out@));
            stopped = true;
        } else {
            assert(before + (seq![outcome@] + tail.rules) =~= processed_rules_view(out@)
                + tail.rules);
            i = i + 1;
        }
    }
    proof {
        if !stopped {
            assert(processed_rules_view(out@) + Seq::<ProcessedRuleView>::empty()
                =~= processed_rules_view(out@));
        }
    }
    ProcessedRules { rules: out, extracted_vars: vars }
}

/// The outcomes of the first `i + 1` nodes are those of the first `i` and
/// that of the node at place `i`.
pub proof fn lemma_nodes_outcome_take(nodes: Seq<NodeView>, event: EventView, i: int)
    requires
        0 <= i < nodes.len(),
    ensures
        nodes_outcome(nodes.take(i + 1), event) == nodes_outcome(nodes.take(i), event).push(
            node_outcome(nodes[i], event),
        ),
{
    reveal_with_fuel(nodes_outcome, 2);
    assert(nodes.take(i + 1).drop_last() =~= nodes.take(i));
    assert(nodes.take(i + 1).last() == nodes[i]);
}

impl MatcherNode {
    /// Processes `event` against the node and what is under it.
    #[verifier::loop_isolation(false)]
    pub fn process(&self, event: &Event) -> (r: ProcessedNode)
        ensures
            r@ == node_outcome(self@, event@),
        decreases self,
    {
        let ghost ev = event@;
        match self {
            MatcherNode::Filter { name, active, filter, nodes } => {
                proof {
                    lemma_view_filter(*name, *active, *filter, *nodes);
                }
                let no_vars: Vec<(String, Value)> = Vec::new();
                assert(entries_view(no_vars@) =~= Seq::<(Seq<char>, ValueView)>::empty());
                if !*active {
                    let children: Vec<ProcessedNode> = Vec::new();
                    proof {
                        lemma_view_processed_filter(
                            *name,
                            ProcessedFilterStatus::Inactive,
                            children,
                        );
                        assert(processed_nodes_view(children@) =~= Seq::<
                            ProcessedNodeView,
                        >::empty());
                    }
                    ProcessedNode::Filter {
                        name: name.clone(),
                        status: ProcessedFilterStatus::Inactive,
                        nodes: children,
                    }
                } else if evaluate_optional(filter, event, &no_vars) {
                    let ghost nv = nodes_view(nodes@);
                    let mut children: Vec<ProcessedNode> = Vec::new();
                    let mut i: usize = 0;
                    assert(nv.take(0) =~= Seq::<NodeView>::empty());
                    assert(processed_nodes_view(children@) =~= Seq::<ProcessedNodeView>::empty());
                    while i < nodes.len()
                        invariant
                            i <= nodes@.len(),
                            nodes_outcome(nv.take(i as int), ev) == processed_nodes_view(children@),
                        decreases nodes@.len() - i,
                    {
                        let ghost before = processed_nodes_view(children@);
                        proof {
                            lemma_nodes_outcome_take(nv, ev, i as int);
                        }
                        let child = nodes[i].process(event);
                        children.push(child);
                        assert(processed_nodes_view(children@) =~= before.push(child@));
                        i = i + 1;
                    }
                    proof {
                        assert(nv.take(nodes@.len() as int) =~= nv);
                        lemma_view_processed_filter(
                            *name,
                            ProcessedFilterStatus::Matched,
                            children,
                        );
                    }
                    ProcessedNode::Filter {
                        name: name.clone(),
                        status: ProcessedFilterStatus::Matched,
                        nodes: children,
                    }
                } else {
                    let children: Vec<ProcessedNode> = Vec::new();
                    proof {
                        lemma_view_processed_filter(
                            *name,
                            ProcessedFilterStatus::NotMatched,
                            children,
                        );
                        assert(processed_nodes_view(children@) =~= Seq::<
                            ProcessedNodeView,
                        >::empty());
                    }
                    ProcessedNode::Filter {
                        name: name.clone(),
                        status: ProcessedFilterStatus::NotMatched,
                        nodes: children,
                    }
                }
            },
            MatcherNode::Ruleset { name, rules } => ProcessedNode::Ruleset {
                name: name.clone(),
                rules: process_rules(rules, event),
            },
        }
    }
}

/// Puts the entries of `add` into `into`, in order.
#[verifier::loop_isolation(false)]
fn put_all(into: &mut Vec<(String, Value)>, add: &Vec<(String, Value)>)
    ensures
        entries_view(final(into)@) == overlay(entries_view(old(into)@), entries_view(add@)),
{
    let ghost base = entries_view(into@);
    let ghost av = entries_view(add@);
    let mut i: usize = 0;
    assert(av.take(0) =~= Seq::<(Seq<char>, ValueView)>::empty());
    while i < add.len()
        invariant
            i <= add@.len(),
            entries_view(into@) == overlay(base, av.take(i as int)),
        decreases add@.len() - i,
    {
        assert(av.take(i + 1).drop_last() =~= av.take(i as int));
        assert(av.take(i + 1).last() == (add@[i as int].0@, add@[i as int].1@));
        put_entry(into, add[i].0.clone(), clone_value(&add[i].1));
        i = i + 1;
    }
    assert(av.take(add@.len() as int) =~= av);
}

/// Puts the variables of every ruleset under `node` into `into`.
#[verifier::loop_isolation(false)]
pub fn gather(node: &ProcessedNode, into: &mut Vec<(String, Value)>)
    ensures
        entries_view(final(into)@) == gathered(entries_view(old(into)@), node@),
    decreases node,
{
    let ghost base = entries_view(into@);
    proof {
        reveal_with_fuel(gathered, 2);
    }
    match node {
        ProcessedNode::Filter { name, status, nodes } => {
            proof {
                lemma_view_processed_filter(*name, *status, *nodes);
            }
            let ghost nv = processed_nodes_view(nodes@);
            let mut i: usize = 0;
            assert(nv.take(0) =~= Seq::<ProcessedNodeView>::empty());
            while i < nodes.len()
                invariant
                    i <= nodes@.len(),
                    entries_view(into@) == gathered_all(base, nv.take(i as int)),
                decreases nodes@.len() - i,
            {
                assert(nv.take(i + 1).drop_last() =~= nv.take(i as int));
                assert(nv.take(i + 1).last() == nodes@[i as int]@);
                gather(&nodes[i], into);
                i = i + 1;
            }
            assert(nv.take(nodes@.len() as int) =~= nv);
        },
        ProcessedNode::Ruleset { name, rules } => {
            put_all(into, &rules.extracted_vars);
        },
    }
}

// ---------------------------------------------------------------------
// The matcher
// ---------------------------------------------------------------------
/// The matcher: the compiled tree of filters and rulesets. It has no state
/// and is never changed, so one matcher can serve every thread.
#[derive(Debug)]
pub struct Matcher {
    node: MatcherNode,
}

impl View for Matcher {
    type V = NodeView;

    closed spec fn view(&self) -> NodeView {
        self.node@
    }
}

/// The view of what a build returned.
pub open spec fn built_matcher_view(r: Result<Matcher, MatcherError>) -> Result<
    NodeView,
    ErrorView,
> {
    match r {
        Ok(m) => Ok(m@),
        Err(e) => Err(e@),
    }
}

struct Builders {
    id: IdValidator,
    rule: RuleValidator,
    operator: OperatorBuilder,
    extractor: MatcherExtractorBuilder,
    action: MatcherActionBuilder,
}

fn build_rule(builders: &Builders, rule: &Rule) -> (r: Result<MatcherRule, MatcherError>)
    ensures
        r is Ok <==> rule_of(rule@) is Ok,
        r matches Ok(m) ==> rule_of(rule@) == Ok::<RuleView, ErrorView>(m@),
        r matches Err(e) ==> rule_of(rule@) == Err::<RuleView, ErrorView>(e@),
{
    let rule_name = rule.name.as_str();
    if !rule.active {
        let m = MatcherRule {
            name: rule.name.clone(),
            do_continue: rule.do_continue,
            active: false,
            operator: None,
            extractor: MatcherExtractor { extractors: Vec::new() },
            actions: Vec::new(),
        };
        assert(m@.extractors =~= Seq::<ExtractorView>::empty());
        assert(m@.actions =~= Seq::<MatcherActionView>::empty());
        return Ok(m);
    }
    let operator = match builders.operator.build_option(rule_name, &rule.constraint.where_operator) {
        Ok(op) => op,
        Err(e) => {
            return Err(e);
        },
    };
    let extractor = match builders.extractor.build(rule_name, &rule.constraint.with) {
        Ok(x) => x,
        Err(e) => {
            return Err(e);
        },
    };
    let actions = match builders.action.build(rule_name, &rule.actions) {
        Ok(a) => a,
        Err(e) => {
            return Err(e);
        },
    };
    Ok(
        MatcherRule {
            name: rule.name.clone(),
            do_continue: rule.do_continue,
            active: true,
            operator,
            extractor,
            actions,
        },
    )
}

#[verifier::loop_isolation(false)]
fn build_rules(builders: &Builders, rules: &Vec<Rule>) -> (r: Result<Vec<MatcherRule>, MatcherError>)
    ensures
        r is Ok <==> rules_of(rule_defs(rules@)) is Ok,
        r matches Ok(m) ==> rules_of(rule_defs(rules@)) == Ok::<Seq<RuleView>, ErrorView>(
            rules_view(m@),
        ),
        r matches Err(e) ==> rules_of(rule_defs(rules@)) == Err::<Seq<RuleView>, ErrorView>(e@),
{
    let ghost dv = rule_defs(rules@);
    match builders.rule.validate_all(rules) {
        Ok(()) => {},
        Err(e) => {
            return Err(e);
        },
    }
    let mut out: Vec<MatcherRule> = Vec::new();
    let mut i: usize = 0;
    assert(dv.take(0) =~= Seq::<RuleDef>::empty());
    assert(rules_view(out@) =~= Seq::<RuleView>::empty());
    while i < rules.len()
        invariant
            i <= rules@.len(),
            compiled_rules(dv.take(i as int)) == Ok::<Seq<RuleView>, ErrorView>(rules_view(out@)),
        decreases rules@.len() - i,
    {
        let ghost before = rules_view(out@);
        assert(dv.take(i + 1).drop_last() =~= dv.take(i as int));
        assert(dv.take(i + 1).last() == rules@[i as int]@);
        match build_rule(builders, &rules[i]) {
            Ok(m) => {
                out.push(m);
                assert(rules_view(out@) =~= before.push(m@));
            },
            Err(e) => {
                proof {
                    lemma_compiled_rules_err(dv, i as int);
                }
                return Err(e);
            },
        }
        i = i + 1;
    }
    assert(dv.take(rules@.len() as int) =~= dv);
    Ok(out)
}

#[verifier::loop_isolation(false)]
fn build_node(builders: &Builders, config: &MatcherConfig) -> (r: Result<MatcherNode, MatcherError>)
    ensures
        r is Ok <==> node_of(config@) is Ok,
        r matches Ok(m) ==> node_of(config@) == Ok::<NodeView, ErrorView>(m@),
        r matches Err(e) ==> node_of(config@) == Err::<NodeView, ErrorView>(e@),
    decreases config,
{
    proof {
        reveal_with_fuel(node_of, 2);
    }
    match config {
        MatcherConfig::Filter { name, filter, nodes } => {
            proof {
                lemma_view_filter_node(*name, *filter, *nodes);
            }
            match builders.id.validate_filter_name(name.as_str()) {
                Ok(()) => {},
                Err(e) => {
                    return Err(e);
                },
            }
            let operator = match builders.operator.build_option(name.as_str(), &filter.filter) {
                Ok(op) => op,
                Err(e) => {
                    return Err(e);
                },
            };
            let ghost dv = node_defs(nodes@);
            let mut out: Vec<MatcherNode> = Vec::new();
            let mut i: usize = 0;
            assert(dv.take(0) =~= Seq::<NodeDef>::empty());
            assert(nodes_view(out@) =~= Seq::<NodeView>::empty());
            while i < nodes.len()
                invariant
                    i <= nodes@.len(),
                    nodes_of(dv.take(i as int)) == Ok::<Seq<NodeView>, ErrorView>(nodes_view(out@)),
                decreases nodes@.len() - i,
            {
                let ghost before = nodes_view(out@);
                assert(dv.take(i + 1).drop_last() =~= dv.take(i as int));
                assert(dv.take(i + 1).last() == nodes@[i as int]@);
                match build_node(builders, &nodes[i]) {
                    Ok(m) => {
                        out.push(m);
                        assert(nodes_view(out@) =~= before.push(m@));
                    },
                    Err(e) => {
                        proof {
                            lemma_nodes_of_err(dv, i as int);
                        }
                        return Err(e);
                    },
                }
                i = i + 1;
            }
            proof {
                assert(dv.take(nodes@.len() as int) =~= dv);
                lemma_view_filter(*name, filter.active, operator, out);
            }
            Ok(
                MatcherNode::Filter {
                    name: name.clone(),
                    active: filter.active,
                    filter: operator,
                    nodes: out,
                },
            )
        },
        MatcherConfig::Ruleset { name, rules } => {
            match builders.id.validate_ruleset_name(name.as_str()) {
                Ok(()) => {},
                Err(e) => {
                    return Err(e);
                },
            }
            match build_rules(builders, rules) {
                Ok(compiled) => Ok(MatcherNode::Ruleset { name: name.clone(), rules: compiled }),
                Err(e) => Err(e),
            }
        },
    }
}

impl Matcher {
    /// Compiles the configuration. Either the whole tree compiles or nothing
    /// is built: the first node, rule, accessor or regular expression that
    /// is not valid is the error.
    pub fn new(config: &MatcherConfig) -> (r: Result<Matcher, MatcherError>)
        ensures
            built_matcher_view(r) == node_of(config@),
    {
        let builders = Builders {
            id: IdValidator::new(),
            rule: RuleValidator::new(),
            operator: OperatorBuilder::new(),
            extractor: MatcherExtractorBuilder::new(),
            action: MatcherActionBuilder::new(),
        };
        match build_node(&builders, config) {
            Ok(node) => Ok(Matcher { node }),
            Err(e) => Err(e),
        }
    }

    /// Processes `event` against the compiled tree. The result depends on
    /// the matcher and the event alone.
    pub fn process(&self, event: Event) -> (r: ProcessedEvent)
        ensures
            r@ == processed(self@, event@),
    {
        let result = self.node.process(&event);
        let mut extracted_vars: Vec<(String, Value)> = Vec::new();
        assert(entries_view(extracted_vars@) =~= Seq::<(Seq<char>, ValueView)>::empty());
        gather(&result, &mut extracted_vars);
        ProcessedEvent { event, extracted_vars, result }
    }

    /// The compiled tree.
    pub fn root(&self) -> (node: &MatcherNode)
        ensures
            node@ == self@,
    {
        &self.node
    }
}

} // verus!
