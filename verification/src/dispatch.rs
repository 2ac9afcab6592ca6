//! What is to be done with a processed event: which of its actions are
//! handed to the executors.
use crate::model::{
    lemma_view_processed_filter, processed_nodes_view, processed_rules_view,
    rendered_actions_view, ProcessedEvent, ProcessedNode, ProcessedNodeView, ProcessedRuleStatus,
    ProcessedRuleView, RenderedAction, RenderedActionView,
};
use vstd::prelude::*;

verus! {

/// Whether the actions of a processed event are to be executed.
#[derive(Debug, Clone, Copy, PartialEq, Eq, Structural)]
pub enum ProcessType {
    /// The event is processed and its actions are executed.
    Full,
    /// The event is processed and nothing is executed.
    SkipActions,
}

/// The actions of the rules `rules` that matched, in order.
pub open spec fn rules_actions(rules: Seq<ProcessedRuleView>) -> Seq<RenderedActionView>
    decreases rules.len(),
{
    if rules.len() == 0 {
        Seq::empty()
    } else if rules.last().status == ProcessedRuleStatus::Matched {
        rules_actions(rules.drop_last()) + rules.last().actions
    } else {
        rules_actions(rules.drop_last())
    }
}

/// The actions of the matched rules under `node`, in the order in which
/// the rules were processed.
pub open spec fn node_actions(node: ProcessedNodeView) -> Seq<RenderedActionView>
    decreases node,
{
    match node {
        ProcessedNodeView::Filter { nodes, .. } => nodes_actions(nodes),
        ProcessedNodeView::Ruleset { rules, .. } => rules_actions(rules.rules),
    }
}

/// The actions of the matched rules under `nodes`.
pub open spec fn nodes_actions(nodes: Seq<ProcessedNodeView>) -> Seq<RenderedActionView>
    decreases nodes,
{
    if nodes.len() == 0 {
        Seq::empty()
    } else {
        nodes_actions(nodes.drop_last()) + node_actions(nodes.last())
    }
}

/// Adds copies of the actions of the matched rules under `node` to `into`.
#[verifier::loop_isolation(false)]
pub fn collect_actions(node: &ProcessedNode, into: &mut Vec<RenderedAction>)
    ensures
        rendered_actions_view(final(into)@) == rendered_actions_view(old(into)@) + node_actions(
            node@,
        ),
    decreases node,
{
    let ghost base = rendered_actions_view(into@);
    proof {
        reveal_with_fuel(node_actions, 2);
    }
    match node {
        ProcessedNode::Filter { name, status, nodes } => {
            proof {
                lemma_view_processed_filter(*name, *status, *nodes);
            }
            let ghost nv = processed_nodes_view(nodes@);
            let mut i: usize = 0;
            assert(nv.take(0) =~= Seq::<ProcessedNodeView>::empty());
            assert(base + Seq::<RenderedActionView>::empty() =~= base);
            while i < nodes.len()
                invariant
                    i <= nodes@.len(),
                    rendered_actions_view(into@) == base + nodes_actions(nv.take(i as int)),
                decreases nodes@.len() - i,
            {
                assert(nv.take(i + 1).drop_last() =~= nv.take(i as int));
                assert(nv.take(i + 1).last() == nodes@[i as int]@);
                let ghost before = nodes_actions(nv.take(i as int));
                collect_actions(&nodes[i], into);
                assert(base + before + node_actions(nodes@[i as int]@) =~= base + (before
                    + node_actions(nodes@[i as int]@)));
                i = i + 1;
            }
            assert(nv.take(nodes@.len() as int) =~= nv);
        },
        ProcessedNode::Ruleset { name, rules } => {
            let ghost rv = processed_rules_view(rules.rules@);
            let mut i: usize = 0;
            assert(rv.take(0) =~= Seq::<ProcessedRuleView>::empty());
            assert(base + Seq::<RenderedActionView>::empty() =~= base);
            while i < rules.rules.len()
                invariant
                    i <= rules.rules@.len(),
                    rendered_actions_view(into@) == base + rules_actions(rv.take(i as int)),
                decreases rules.rules@.len() - i,
            {
                assert(rv.take(i + 1).drop_last() =~= rv.take(i as int));
                assert(rv.take(i + 1).last() == rules.rules@[i as int]@);
                let ghost before = rules_actions(rv.take(i as int));
                let rule = &rules.rules[i];
                if rule.status == ProcessedRuleStatus::Matched {
                    let ghost av = rendered_actions_view(rule.actions@);
                    let mut j: usize = 0;
                    assert(av.take(0) =~= Seq::<RenderedActionView>::empty());
                    assert(base + before + Seq::<RenderedActionView>::empty() =~= base + before);
                    while j < rule.actions.len()
                        invariant
                            j <= rule.actions@.len(),
                            rendered_actions_view(into@) == base + before + av.take(j as int),
                        decreases rule.actions@.len() - j,
                    {
                        let ghost so_far = rendered_actions_view(into@);
                        let copy = rule.actions[j].duplicate();
                        into.push(copy);
                        assert(rendered_actions_view(into@) =~= so_far.push(copy@));
                        assert(av.take(j + 1) =~= av.take(j as int).push(av[j as int]));
                        assert(base + before + av.take(j + 1) =~= (base + before + av.take(
                            j as int,
                        )).push(av[j as int]));
                        j = j + 1;
                    }
                    assert(av.take(rule.actions@.len() as int) =~= av);
                    assert(base + before + av =~= base + (before + av));
                }
                i = i + 1;
            }
            assert(rv.take(rules.rules@.len() as int) =~= rv);
        },
    }
}

/// The actions to hand to the executors for a processed event: those of
/// its matched rules where the event is processed in full, none where the
/// actions are skipped.
pub fn actions_to_dispatch(processed: &ProcessedEvent, process_type: ProcessType) -> (actions: Vec<
    RenderedAction,
>)
    ensures
        rendered_actions_view(actions@) == match process_type {
            ProcessType::Full => node_actions(processed@.result),
            ProcessType::SkipActions => Seq::empty(),
        },
{
    let mut actions: Vec<RenderedAction> = Vec::new();
    assert(rendered_actions_view(actions@) =~= Seq::<RenderedActionView>::empty());
    match process_type {
        ProcessType::Full => {
            collect_actions(&processed.result, &mut actions);
            assert(Seq::<RenderedActionView>::empty() + node_actions(processed@.result)
                =~= node_actions(processed@.result));
        },
        ProcessType::SkipActions => {},
    }
    actions
}

} // verus!
