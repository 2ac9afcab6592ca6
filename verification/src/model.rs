//! What processing an event gives back: the tree of the filters entered and
//! of the rules tried, with what each rule extracted and rendered.
use crate::event::{Event, EventView};
use crate::value::{clone_entries, entries_view, Value, ValueView};
use vstd::prelude::*;

verus! {

/// How a filter fared.
#[derive(Debug, Clone, Copy, PartialEq, Eq, Structural)]
pub enum ProcessedFilterStatus {
    Matched,
    NotMatched,
    Inactive,
}

/// How a rule fared.
#[derive(Debug, Clone, Copy, PartialEq, Eq, Structural)]
pub enum ProcessedRuleStatus {
    /// The condition held, every variable was extracted and every action was
    /// rendered.
    Matched,
    /// The condition held, but a variable or an action failed.
    PartiallyMatched,
    /// The condition did not hold.
    NotMatched,
    /// The rule is not active.
    NotProcessed,
}

/// An action with its payload filled in.
#[derive(Debug, PartialEq)]
pub struct RenderedAction {
    pub id: String,
    pub payload: Vec<(String, Value)>,
}

/// What a [`RenderedAction`] stands for.
pub struct RenderedActionView {
    pub id: Seq<char>,
    pub payload: Seq<(Seq<char>, ValueView)>,
}

impl View for RenderedAction {
    type V = RenderedActionView;

    open spec fn view(&self) -> RenderedActionView {
        RenderedActionView { id: self.id@, payload: entries_view(self.payload@) }
    }
}

/// The views of a list of rendered actions.
pub open spec fn rendered_actions_view(actions: Seq<RenderedAction>) -> Seq<RenderedActionView> {
    Seq::new(actions.len(), |i: int| actions[i]@)
}

/// The outcome of one rule.
#[derive(Debug, PartialEq)]
pub struct ProcessedRule {
    pub name: String,
    pub status: ProcessedRuleStatus,
    pub actions: Vec<RenderedAction>,
    pub message: Option<String>,
}

/// What a [`ProcessedRule`] stands for.
pub struct ProcessedRuleView {
    pub name: Seq<char>,
    pub status: ProcessedRuleStatus,
    pub actions: Seq<RenderedActionView>,
    pub message: Option<Seq<char>>,
}

/// The view of a message that may be absent.
pub open spec fn message_view(m: Option<String>) -> Option<Seq<char>> {
    match m {
        Some(s) => Some(s@),
        None => None,
    }
}

impl View for ProcessedRule {
    type V = ProcessedRuleView;

    open spec fn view(&self) -> ProcessedRuleView {
        ProcessedRuleView {
            name: self.name@,
            status: self.status,
            actions: rendered_actions_view(self.actions@),
            message: message_view(self.message),
        }
    }
}

/// The views of a list of outcomes.
pub open spec fn processed_rules_view(rules: Seq<ProcessedRule>) -> Seq<ProcessedRuleView> {
    Seq::new(rules.len(), |i: int| rules[i]@)
}

/// The outcome of a ruleset: that of each rule tried, in order, and the
/// variables that the ruleset extracted.
#[derive(Debug, PartialEq)]
pub struct ProcessedRules {
    pub rules: Vec<ProcessedRule>,
    pub extracted_vars: Vec<(String, Value)>,
}

/// What [`ProcessedRules`] stand for.
pub struct ProcessedRulesView {
    pub rules: Seq<ProcessedRuleView>,
    pub extracted_vars: Seq<(Seq<char>, ValueView)>,
}

impl View for ProcessedRules {
    type V = ProcessedRulesView;

    open spec fn view(&self) -> ProcessedRulesView {
        ProcessedRulesView {
            rules: processed_rules_view(self.rules@),
            extracted_vars: entries_view(self.extracted_vars@),
        }
    }
}

/// The outcome of a node of the tree.
#[derive(Debug, PartialEq)]
pub enum ProcessedNode {
    Filter { name: String, status: ProcessedFilterStatus, nodes: Vec<ProcessedNode> },
    Ruleset { name: String, rules: ProcessedRules },
}

/// What a [`ProcessedNode`] stands for.
pub enum ProcessedNodeView {
    Filter { name: Seq<char>, status: ProcessedFilterStatus, nodes: Seq<ProcessedNodeView> },
    Ruleset { name: Seq<char>, rules: ProcessedRulesView },
}

/// What `node` stands for.
pub open spec fn processed_node_view(node: ProcessedNode) -> ProcessedNodeView
    decreases node,
{
    match node {
        ProcessedNode::Filter { name, status, nodes } => ProcessedNodeView::Filter {
            name: name@,
            status,
            nodes: Seq::new(
                nodes@.len(),
                |i: int|
                    if 0 <= i < nodes@.len() {
                        processed_node_view(nodes@[i])
                    } else {
                        ProcessedNodeView::Filter {
                            name: Seq::empty(),
                            status: ProcessedFilterStatus::Inactive,
                            nodes: Seq::empty(),
                        }
                    },
            ),
        },
        ProcessedNode::Ruleset { name, rules } => ProcessedNodeView::Ruleset {
            name: name@,
            rules: rules@,
        },
    }
}

impl View for ProcessedNode {
    type V = ProcessedNodeView;

    open spec fn view(&self) -> ProcessedNodeView {
        processed_node_view(*self)
    }
}

/// The views of a list of nodes.
pub open spec fn processed_nodes_view(nodes: Seq<ProcessedNode>) -> Seq<ProcessedNodeView> {
    Seq::new(nodes.len(), |i: int| nodes[i]@)
}

/// The view of a filter's outcome is made of the views of its children's.
pub proof fn lemma_view_processed_filter(
    name: String,
    status: ProcessedFilterStatus,
    nodes: Vec<ProcessedNode>,
)
    ensures
        (ProcessedNode::Filter { name, status, nodes })@ == (ProcessedNodeView::Filter {
            name: name@,
            status,
            nodes: processed_nodes_view(nodes@),
        }),
{
    assert((ProcessedNode::Filter { name, status, nodes })@->nodes =~= processed_nodes_view(
        nodes@,
    ));
}

/// What processing an event gives back.
#[derive(Debug, PartialEq)]
pub struct ProcessedEvent {
    pub event: Event,
    /// The variables of all the rulesets tried, those of a later ruleset
    /// over those of an earlier one.
    pub extracted_vars: Vec<(String, Value)>,
    pub result: ProcessedNode,
}

/// What a [`ProcessedEvent`] stands for.
pub struct ProcessedEventView {
    pub event: EventView,
    pub extracted_vars: Seq<(Seq<char>, ValueView)>,
    pub result: ProcessedNodeView,
}

impl View for ProcessedEvent {
    type V = ProcessedEventView;

    open spec fn view(&self) -> ProcessedEventView {
        ProcessedEventView {
            event: self.event@,
            extracted_vars: entries_view(self.extracted_vars@),
            result: self.result@,
        }
    }
}

impl RenderedAction {
    /// A copy of the action.
    pub fn duplicate(&self) -> (r: RenderedAction)
        ensures
            r@ == self@,
    {
        RenderedAction { id: self.id.clone(), payload: clone_entries(&self.payload) }
    }
}

impl ProcessedRule {
    /// A copy of the outcome.
    #[verifier::loop_isolation(false)]
    pub fn duplicate(&self) -> (r: ProcessedRule)
        ensures
            r@ == self@,
    {
        let mut actions: Vec<RenderedAction> = Vec::new();
        let mut i: usize = 0;
        while i < self.actions.len()
            invariant
                i <= self.actions@.len(),
                actions@.len() == i,
                forall|k: int| 0 <= k < i ==> (#[trigger] actions@[k])@ == self.actions@[k]@,
            decreases self.actions@.len() - i,
        {
            actions.push(self.actions[i].duplicate());
            i = i + 1;
        }
        assert(rendered_actions_view(actions@) =~= rendered_actions_view(self.actions@));
        let message = match &self.message {
            Some(m) => Some(m.clone()),
            None => None,
        };
        ProcessedRule { name: self.name.clone(), status: self.status, actions, message }
    }
}

impl ProcessedRules {
    /// A copy of the outcomes.
    #[verifier::loop_isolation(false)]
    pub fn duplicate(&self) -> (r: ProcessedRules)
        ensures
            r@ == self@,
    {
        let mut rules: Vec<ProcessedRule> = Vec::new();
        let mut i: usize = 0;
        while i < self.rules.len()
            invariant
                i <= self.rules@.len(),
                rules@.len() == i,
                forall|k: int| 0 <= k < i ==> (#[trigger] rules@[k])@ == self.rules@[k]@,
            decreases self.rules@.len() - i,
        {
            rules.push(self.rules[i].duplicate());
            i = i + 1;
        }
        assert(processed_rules_view(rules@) =~= processed_rules_view(self.rules@));
        ProcessedRules { rules, extracted_vars: clone_entries(&self.extracted_vars) }
    }
}

impl ProcessedNode {
    /// A copy of the node and of what is under it.
    #[verifier::loop_isolation(false)]
    pub fn duplicate(&self) -> (r: ProcessedNode)
        ensures
            r@ == self@,
        decreases self,
    {
        match self {
            ProcessedNode::Filter { name, status, nodes } => {
                let mut copies: Vec<ProcessedNode> = Vec::new();
                let mut i: usize = 0;
                while i < nodes.len()
                    invariant
                        i <= nodes@.len(),
                        copies@.len() == i,
                        forall|k: int| 0 <= k < i ==> (#[trigger] copies@[k])@ == nodes@[k]@,
                    decreases nodes@.len() - i,
                {
                    copies.push(nodes[i].duplicate());
                    i = i + 1;
                }
                proof {
                    assert(processed_nodes_view(copies@) =~= processed_nodes_view(nodes@));
                    lemma_view_processed_filter(*name, *status, *nodes);
                    lemma_view_processed_filter(*name, *status, copies);
                }
                ProcessedNode::Filter { name: name.clone(), status: *status, nodes: copies }
            },
            ProcessedNode::Ruleset { name, rules } => ProcessedNode::Ruleset {
                name: name.clone(),
                rules: rules.duplicate(),
            },
        }
    }
}

impl ProcessedEvent {
    /// A copy of the result.
    pub fn duplicate(&self) -> (r: ProcessedEvent)
        ensures
            r@ == self@,
    {
        ProcessedEvent {
            event: self.event.duplicate(),
            extracted_vars: clone_entries(&self.extracted_vars),
            result: self.result.duplicate(),
        }
    }
}

} // verus!
