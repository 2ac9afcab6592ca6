//! What holds of the matcher whatever the configuration and the event.
use crate::accessor::fetch;
use crate::config::{ExtractorDef, RuleDef};
use crate::event::EventView;
use crate::extractor::{
    extracted, extraction, extractor_of, extractors_of, lemma_extraction_err, place_of,
    ExtractorView,
};
use crate::matcher::{
    compiled_rules, node_outcome, nodes_outcome, overlay, processed, rule_of, rule_outcome,
    rules_outcome, NodeView, RuleView,
};
use crate::model::{ProcessedFilterStatus, ProcessedRuleStatus};
use crate::operator::holds_or_absent;
use crate::pattern::pattern_capture;
use crate::text::{
    lemma_text_less_irreflexive, lemma_text_less_total, lemma_text_less_transitive, text_less,
};
use crate::validator::{has_rule_name, is_identifier, rule_fault, rules_fault};
use crate::value::{first_index, lemma_first_index, lookup, text_of, with_entry, ValueView};
use vstd::prelude::*;

verus! {

/// Processing is a function of the compiled tree and the event: the same
/// tree and the same event give the same result, whenever and wherever they
/// are processed.
pub proof fn law_processing_is_a_function(
    first: NodeView,
    second: NodeView,
    event: EventView,
    again: EventView,
)
    requires
        first == second,
        event == again,
    ensures
        processed(first, event) == processed(second, again),
{
}

/// The outcomes of a ruleset stand in the order in which the rules were
/// declared: the outcome at place `k` is that of the rule at place `k`, and
/// there are no more outcomes than rules.
pub proof fn law_outcomes_in_declaration_order(
    rules: Seq<RuleView>,
    event: EventView,
    i: int,
    vars: Seq<(Seq<char>, ValueView)>,
)
    requires
        0 <= i <= rules.len(),
    ensures
        rules_outcome(rules, event, i, vars).rules.len() <= rules.len() - i,
        forall|k: int|
            0 <= k < rules_outcome(rules, event, i, vars).rules.len() ==> (
            #[trigger] rules_outcome(rules, event, i, vars).rules[k]).name == rules[i + k].name,
    decreases rules.len() - i,
{
    if i < rules.len() {
        let (outcome, after) = rule_outcome(rules[i], event, vars);
        law_outcomes_in_declaration_order(rules, event, i + 1, after);
        let out = rules_outcome(rules, event, i, vars).rules;
        let tail = rules_outcome(rules, event, i + 1, after).rules;
        assert forall|k: int| 0 <= k < out.len() implies (#[trigger] out[k]).name == rules[i
            + k].name by {
            if k > 0 {
                assert(out[k] == tail[k - 1]);
            }
        }
    }
}

/// After a rule that matched and does not continue, no rule of the ruleset
/// is tried: its outcome is the last.
pub proof fn law_short_circuit(
    rules: Seq<RuleView>,
    event: EventView,
    i: int,
    vars: Seq<(Seq<char>, ValueView)>,
    k: int,
)
    requires
        0 <= i <= rules.len(),
        0 <= k < rules_outcome(rules, event, i, vars).rules.len(),
        rules_outcome(rules, event, i, vars).rules[k].status == ProcessedRuleStatus::Matched,
        i + k < rules.len() && !rules[i + k].do_continue,
    ensures
        rules_outcome(rules, event, i, vars).rules.len() == k + 1,
    decreases rules.len() - i,
{
    if i < rules.len() {
        let (outcome, after) = rule_outcome(rules[i], event, vars);
        let out = rules_outcome(rules, event, i, vars).rules;
        if outcome.status == ProcessedRuleStatus::Matched && !rules[i].do_continue {
            assert(out.len() == 1);
        } else {
            let tail = rules_outcome(rules, event, i + 1, after).rules;
            assert(out =~= seq![outcome] + tail);
            if k == 0 {
                assert(out[0] == outcome);
            } else {
                assert(out[k] == tail[k - 1]);
                law_short_circuit(rules, event, i + 1, after, k - 1);
            }
        }
    }
}

/// A rule that is not active is never processed: whatever the event and
/// the variables, it has no actions, and the variables stay as they were.
pub proof fn law_inactive_rule(
    rule: RuleView,
    event: EventView,
    vars: Seq<(Seq<char>, ValueView)>,
)
    requires
        !rule.active,
    ensures
        rule_outcome(rule, event, vars).0.status == ProcessedRuleStatus::NotProcessed,
        rule_outcome(rule, event, vars).0.actions.len() == 0,
        rule_outcome(rule, event, vars).1 == vars,
{
}

/// A matched rule extracted every variable and rendered every action.
pub proof fn law_matched_rule(rule: RuleView, event: EventView, vars: Seq<(Seq<char>, ValueView)>)
    requires
        rule_outcome(rule, event, vars).0.status == ProcessedRuleStatus::Matched,
    ensures
        rule.active,
        holds_or_absent(rule.operator, event, vars),
        extraction(rule.extractors, rule.name, event, vars) is Ok,
        crate::action::rendered_actions(
            rule.actions,
            rule.name,
            event,
            extraction(rule.extractors, rule.name, event, vars)->Ok_0.1,
        ) == Ok::<Seq<crate::model::RenderedActionView>, crate::error::ErrorView>(
            rule_outcome(rule, event, vars).0.actions,
        ),
{
}

/// The children of a filter are processed each by itself.
pub proof fn lemma_nodes_outcome(nodes: Seq<NodeView>, event: EventView)
    ensures
        nodes_outcome(nodes, event).len() == nodes.len(),
        forall|i: int|
            0 <= i < nodes.len() ==> (#[trigger] nodes_outcome(nodes, event)[i]) == node_outcome(
                nodes[i],
                event,
            ),
    decreases nodes.len(),
{
    if nodes.len() > 0 {
        lemma_nodes_outcome(nodes.drop_last(), event);
        assert forall|i: int| 0 <= i < nodes.len() implies (#[trigger] nodes_outcome(
            nodes,
            event,
        )[i]) == node_outcome(nodes[i], event) by {
            if i < nodes.len() - 1 {
                assert(nodes.drop_last()[i] == nodes[i]);
            }
        }
    }
}

/// What a node yields under a filter that lets the event through is what it
/// yields alone: it depends on nothing that is beside it, before or after.
/// A ruleset therefore never sees the variables of another.
pub proof fn law_isolation(filter: NodeView, event: EventView, i: int)
    requires
        filter is Filter,
        node_outcome(filter, event)->status == ProcessedFilterStatus::Matched,
        0 <= i < filter->nodes.len(),
    ensures
        node_outcome(filter, event)->nodes.len() == filter->nodes.len(),
        node_outcome(filter, event)->nodes[i] == node_outcome(filter->nodes[i], event),
{
    lemma_nodes_outcome(filter->nodes, event);
}

/// A filter that does not let the event through has no children in its
/// outcome.
pub proof fn law_filter_gating(filter: NodeView, event: EventView)
    requires
        filter is Filter,
        node_outcome(filter, event)->status != ProcessedFilterStatus::Matched,
    ensures
        node_outcome(filter, event)->nodes.len() == 0,
{
}

/// Putting a value under a key makes it the value under that key and
/// leaves the value under every other key as it was.
pub proof fn lemma_with_entry_lookup(
    entries: Seq<(Seq<char>, ValueView)>,
    key: Seq<char>,
    value: ValueView,
    other: Seq<char>,
)
    ensures
        lookup(with_entry(entries, key, value), other) == if other == key {
            Some(value)
        } else {
            lookup(entries, other)
        },
{
    let after = with_entry(entries, key, value);
    lemma_first_index(entries, key, 0);
    lemma_first_index(entries, other, 0);
    lemma_first_index(after, other, 0);
    let p = first_index(entries, key, 0);
    let q = first_index(entries, other, 0);
    let r = first_index(after, other, 0);
    assert(after.len() >= entries.len());
    assert forall|k: int| 0 <= k < entries.len() implies (#[trigger] after[k]).0
        == entries[k].0 by {}
    if other == key {
        if p < entries.len() {
            assert(after[p].0 == key);
            if r < p {
                assert(after[r].0 == entries[r].0);
            }
        } else {
            assert(after[entries.len() as int].0 == key);
            if r < entries.len() {
                assert(after[r].0 == entries[r].0);
            }
        }
    } else {
        if q < entries.len() {
            assert(after[q].0 == other);
            if r < q {
                assert(after[r].0 == entries[r].0);
            }
            assert(r == q);
            assert(after[q].1 == entries[q].1);
        } else {
            if r < after.len() {
                if r < entries.len() {
                    assert(after[r].0 == entries[r].0);
                } else {
                    assert(after[r].0 == key);
                }
            }
        }
    }
}

/// The extractor contract for one extractor: where `from` yields the text
/// `t` and group `group` of the first match of the expression in `t` is `s`,
/// the extractor yields the text `s`.
pub proof fn law_extractor_contract(
    x: ExtractorView,
    event: EventView,
    vars: Seq<(Seq<char>, ValueView)>,
    v: ValueView,
    t: Seq<char>,
    s: Seq<char>,
)
    requires
        !x.all_matches,
        fetch(x.from, event, vars) == Some(v),
        text_of(v) == Some(t),
        pattern_capture(x.pattern, t, x.group) == Some(s),
    ensures
        extracted(x, event, vars) == Some(ValueView::Text(s)),
{
}

/// Whether the keys of `xs` differ from one another.
pub open spec fn keys_differ(xs: Seq<ExtractorView>) -> bool {
    forall|i: int, j: int|
        0 <= i < j < xs.len() ==> (#[trigger] xs[i]).key != (#[trigger] xs[j]).key
}

/// An extraction that succeeds succeeded up to every point.
pub proof fn lemma_extraction_prefix(
    xs: Seq<ExtractorView>,
    i: int,
    rule: Seq<char>,
    event: EventView,
    vars: Seq<(Seq<char>, ValueView)>,
)
    requires
        0 <= i <= xs.len(),
        extraction(xs, rule, event, vars) is Ok,
    ensures
        extraction(xs.take(i), rule, event, vars) is Ok,
{
    if i == xs.len() {
        assert(xs.take(i) =~= xs);
    } else if i > 0 {
        if extraction(xs.take(i), rule, event, vars) is Err {
            lemma_extraction_err(xs, i - 1, rule, event, vars);
        }
    }
}

/// The extractor contract for a rule: after a successful extraction the
/// variable of the extractor at place `i` is, among the rule's own variables
/// and among the variables of the ruleset, what that extractor yielded when
/// its turn came, under its qualified name.
pub proof fn law_extracted_variable(
    xs: Seq<ExtractorView>,
    i: int,
    rule: Seq<char>,
    event: EventView,
    vars: Seq<(Seq<char>, ValueView)>,
)
    requires
        0 <= i < xs.len(),
        keys_differ(xs),
        extraction(xs, rule, event, vars) is Ok,
    ensures
        extraction(xs.take(i), rule, event, vars) is Ok,
        lookup(extraction(xs, rule, event, vars)->Ok_0.0, xs[i].key) == extracted(
            xs[i],
            event,
            extraction(xs.take(i), rule, event, vars)->Ok_0.1,
        ),
        lookup(extraction(xs, rule, event, vars)->Ok_0.1, xs[i].key) == extracted(
            xs[i],
            event,
            extraction(xs.take(i), rule, event, vars)->Ok_0.1,
        ),
    decreases xs.len(),
{
    lemma_extraction_prefix(xs, i, rule, event, vars);
    let last = xs.last();
    let (own, running) = extraction(xs.drop_last(), rule, event, vars)->Ok_0;
    let v = extracted(last, event, running)->Some_0;
    if i == xs.len() - 1 {
        assert(xs.take(i) =~= xs.drop_last());
        lemma_with_entry_lookup(own, last.key, v, last.key);
        lemma_with_entry_lookup(running, last.key, v, last.key);
    } else {
        assert(xs.drop_last().take(i) =~= xs.take(i));
        assert(keys_differ(xs.drop_last())) by {
            assert forall|a: int, b: int| 0 <= a < b < xs.drop_last().len() implies (
            #[trigger] xs.drop_last()[a]).key != (#[trigger] xs.drop_last()[b]).key by {
                assert(xs.drop_last()[a] == xs[a] && xs.drop_last()[b] == xs[b]);
            }
        }
        assert(xs.drop_last()[i] == xs[i]);
        law_extracted_variable(xs.drop_last(), i, rule, event, vars);
        lemma_with_entry_lookup(own, last.key, v, xs[i].key);
        lemma_with_entry_lookup(running, last.key, v, xs[i].key);
    }
}

/// Whether the names of `xs` stand in rising order.
pub open spec fn names_rise(xs: Seq<ExtractorView>) -> bool {
    forall|i: int, j: int|
        0 <= i < j < xs.len() ==> text_less((#[trigger] xs[i]).name, (#[trigger] xs[j]).name)
}

/// Whether every one of `xs` is kept under the name of the rule, a dot and
/// its own name.
pub open spec fn keys_are_qualified(xs: Seq<ExtractorView>, rule: Seq<char>) -> bool {
    forall|i: int| 0 <= i < xs.len() ==> (#[trigger] xs[i]).key == rule + "."@ + xs[i].name
}

proof fn lemma_place_of(xs: Seq<ExtractorView>, name: Seq<char>, from: int)
    requires
        0 <= from <= xs.len(),
    ensures
        from <= place_of(xs, name, from) <= xs.len(),
        forall|k: int|
            from <= k < place_of(xs, name, from) ==> !text_less(name, (#[trigger] xs[k]).name),
        place_of(xs, name, from) < xs.len() ==> text_less(
            name,
            xs[place_of(xs, name, from)].name,
        ),
    decreases xs.len() - from,
{
    if from < xs.len() && !text_less(name, xs[from].name) {
        lemma_place_of(xs, name, from + 1);
    }
}

/// The extractors of a rule are compiled into the order of their names:
/// there is one for each definition, their names rise, and each is kept
/// under its qualified name.
pub proof fn law_extractors_in_name_order(rule: Seq<char>, defs: Seq<(Seq<char>, ExtractorDef)>)
    requires
        extractors_of(rule, defs) is Ok,
    ensures
        extractors_of(rule, defs)->Ok_0.len() == defs.len(),
        names_rise(extractors_of(rule, defs)->Ok_0),
        keys_are_qualified(extractors_of(rule, defs)->Ok_0, rule),
    decreases defs.len(),
{
    if defs.len() > 0 {
        let xs = extractors_of(rule, defs.drop_last())->Ok_0;
        law_extractors_in_name_order(rule, defs.drop_last());
        let x = extractor_of(rule, defs.last().0, defs.last().1)->Ok_0;
        let p = place_of(xs, x.name, 0);
        lemma_place_of(xs, x.name, 0);
        let ys = xs.insert(p, x);
        assert(ys == extractors_of(rule, defs)->Ok_0);
        assert forall|i: int| 0 <= i < ys.len() implies (#[trigger] ys[i]).key == rule + "."@
            + ys[i].name by {
            if i < p {
                assert(ys[i] == xs[i]);
            } else if i > p {
                assert(ys[i] == xs[i - 1]);
            }
        }
        assert forall|i: int, j: int| 0 <= i < j < ys.len() implies text_less(
            (#[trigger] ys[i]).name,
            (#[trigger] ys[j]).name,
        ) by {
            if j < p {
                assert(ys[i] == xs[i] && ys[j] == xs[j]);
            } else if i > p {
                assert(ys[i] == xs[i - 1] && ys[j] == xs[j - 1]);
            } else if i == p {
                assert(ys[j] == xs[j - 1]);
                if j - 1 > p {
                    assert(text_less(xs[p].name, xs[j - 1].name));
                    lemma_text_less_transitive(x.name, xs[p].name, xs[j - 1].name);
                }
            } else if j == p {
                assert(ys[i] == xs[i]);
                assert(!text_less(x.name, xs[i].name));
                assert(xs[i].name != x.name);
                lemma_text_less_total(xs[i].name, x.name);
            } else {
                assert(ys[i] == xs[i] && ys[j] == xs[j - 1]);
                if i < j - 1 {
                    assert(text_less(xs[i].name, xs[j - 1].name));
                }
            }
        }
    }
}

/// Extractors whose names rise and whose keys are qualified have keys that
/// differ from one another.
pub proof fn lemma_sorted_keys_differ(xs: Seq<ExtractorView>, rule: Seq<char>)
    requires
        names_rise(xs),
        keys_are_qualified(xs, rule),
    ensures
        keys_differ(xs),
{
    assert forall|i: int, j: int| 0 <= i < j < xs.len() implies (#[trigger] xs[i]).key != (
    #[trigger] xs[j]).key by {
        lemma_text_less_irreflexive(xs[i].name);
        let head = rule + "."@;
        assert((head + xs[i].name).subrange(head.len() as int, (head + xs[i].name).len() as int)
            =~= xs[i].name);
        assert((head + xs[j].name).subrange(head.len() as int, (head + xs[j].name).len() as int)
            =~= xs[j].name);
    }
}

/// The variables of a rule are kept in the order in which its extractors
/// ran, which is the order of their names: after a successful extraction
/// from no variables, the own variable at place `i` is that of the
/// extractor at place `i`.
pub proof fn law_variables_in_extractor_order(
    xs: Seq<ExtractorView>,
    rule: Seq<char>,
    event: EventView,
    vars: Seq<(Seq<char>, ValueView)>,
)
    requires
        keys_differ(xs),
        extraction(xs, rule, event, vars) is Ok,
    ensures
        extraction(xs, rule, event, vars)->Ok_0.0.len() == xs.len(),
        forall|i: int|
            0 <= i < xs.len() ==> (#[trigger] extraction(xs, rule, event, vars)->Ok_0.0[i]).0
                == xs[i].key,
    decreases xs.len(),
{
    if xs.len() > 0 {
        let front = xs.drop_last();
        assert(keys_differ(front)) by {
            assert forall|a: int, b: int| 0 <= a < b < front.len() implies (#[trigger] front[a]).key
                != (#[trigger] front[b]).key by {
                assert(front[a] == xs[a] && front[b] == xs[b]);
            }
        }
        law_variables_in_extractor_order(front, rule, event, vars);
        let own = extraction(front, rule, event, vars)->Ok_0.0;
        let key = xs.last().key;
        lemma_first_index(own, key, 0);
        let at = first_index(own, key, 0);
        if at < own.len() {
            assert(own[at].0 == front[at].key);
            assert(front[at] == xs[at]);
            assert(xs[at].key != xs[xs.len() - 1].key);
        }
        let after = extraction(xs, rule, event, vars)->Ok_0.0;
        assert forall|i: int| 0 <= i < xs.len() implies (#[trigger] after[i]).0 == xs[i].key by {
            if i < xs.len() - 1 {
                assert(after[i] == own[i]);
                assert(front[i] == xs[i]);
            }
        }
    }
}

/// Rules that pass validation have names that are identifiers and that
/// differ from one another.
pub proof fn law_rule_names_are_unique_identifiers(defs: Seq<RuleDef>)
    requires
        rules_fault(defs) is None,
    ensures
        forall|i: int| 0 <= i < defs.len() ==> is_identifier((#[trigger] defs[i]).name),
        forall|i: int, j: int|
            0 <= i < j < defs.len() ==> (#[trigger] defs[i]).name != (#[trigger] defs[j]).name,
    decreases defs.len(),
{
    if defs.len() > 0 {
        let front = defs.drop_last();
        law_rule_names_are_unique_identifiers(front);
        assert(rule_fault(front, defs.last()) is None);
        assert forall|i: int| 0 <= i < defs.len() implies is_identifier(
            (#[trigger] defs[i]).name,
        ) by {
            if i < defs.len() - 1 {
                assert(front[i] == defs[i]);
            }
        }
        assert forall|i: int, j: int| 0 <= i < j < defs.len() implies (#[trigger] defs[i]).name != (
        #[trigger] defs[j]).name by {
            assert(front[i] == defs[i]);
            if j < defs.len() - 1 {
                assert(front[j] == defs[j]);
            } else {
                assert(!has_rule_name(front, defs.last().name));
            }
        }
    }
}

/// A ruleset that compiles has one compiled rule for each rule, in the
/// order of declaration and under the same name; so the names of the
/// compiled rules are identifiers that differ from one another.
pub proof fn law_compiled_rules_keep_names(defs: Seq<RuleDef>)
    requires
        compiled_rules(defs) is Ok,
    ensures
        compiled_rules(defs)->Ok_0.len() == defs.len(),
        forall|i: int|
            0 <= i < defs.len() ==> (#[trigger] compiled_rules(defs)->Ok_0[i]).name
                == defs[i].name,
        forall|i: int|
            0 <= i < defs.len() ==> (#[trigger] compiled_rules(defs)->Ok_0[i]).active
                == defs[i].active,
    decreases defs.len(),
{
    if defs.len() > 0 {
        let front = defs.drop_last();
        law_compiled_rules_keep_names(front);
        let rules = compiled_rules(defs)->Ok_0;
        let before = compiled_rules(front)->Ok_0;
        assert(rule_of(defs.last()) is Ok);
        assert forall|i: int| 0 <= i < defs.len() implies (#[trigger] rules[i]).name
            == defs[i].name && rules[i].active == defs[i].active by {
            if i < defs.len() - 1 {
                assert(rules[i] == before[i]);
                assert(front[i] == defs[i]);
            }
        }
    }
}

/// Whether the keys of `vars` differ from one another.
pub open spec fn keys_are_distinct(vars: Seq<(Seq<char>, ValueView)>) -> bool {
    forall|i: int, j: int| 0 <= i < j < vars.len() ==> (#[trigger] vars[i]).0 != (#[trigger] vars[j]).0
}

/// Putting a value under a key keeps the keys distinct.
pub proof fn lemma_with_entry_distinct(
    vars: Seq<(Seq<char>, ValueView)>,
    key: Seq<char>,
    value: ValueView,
)
    requires
        keys_are_distinct(vars),
    ensures
        keys_are_distinct(with_entry(vars, key, value)),
{
    lemma_first_index(vars, key, 0);
    let after = with_entry(vars, key, value);
    let p = first_index(vars, key, 0);
    assert forall|i: int, j: int| 0 <= i < j < after.len() implies (#[trigger] after[i]).0 != (
    #[trigger] after[j]).0 by {
        if p < vars.len() {
            assert(after[i].0 == vars[i].0 && after[j].0 == vars[j].0);
        } else {
            if j < vars.len() {
                assert(after[i] == vars[i] && after[j] == vars[j]);
            } else {
                assert(after[i] == vars[i]);
                assert(after[j].0 == key);
            }
        }
    }
}

/// An extraction keeps the keys of the variables distinct.
pub proof fn lemma_extraction_distinct(
    xs: Seq<ExtractorView>,
    rule: Seq<char>,
    event: EventView,
    vars: Seq<(Seq<char>, ValueView)>,
)
    requires
        keys_are_distinct(vars),
        extraction(xs, rule, event, vars) is Ok,
    ensures
        keys_are_distinct(extraction(xs, rule, event, vars)->Ok_0.1),
    decreases xs.len(),
{
    if xs.len() > 0 {
        lemma_extraction_distinct(xs.drop_last(), rule, event, vars);
        let running = extraction(xs.drop_last(), rule, event, vars)->Ok_0.1;
        let v = extracted(xs.last(), event, running)->Some_0;
        lemma_with_entry_distinct(running, xs.last().key, v);
    }
}

/// The variables of a ruleset have keys that differ from one another.
pub proof fn lemma_rules_outcome_distinct(
    rules: Seq<RuleView>,
    event: EventView,
    i: int,
    vars: Seq<(Seq<char>, ValueView)>,
)
    requires
        0 <= i <= rules.len(),
        keys_are_distinct(vars),
    ensures
        keys_are_distinct(rules_outcome(rules, event, i, vars).extracted_vars),
    decreases rules.len() - i,
{
    if i < rules.len() {
        let rule = rules[i];
        let (outcome, after) = rule_outcome(rule, event, vars);
        if outcome.status == ProcessedRuleStatus::Matched {
            lemma_extraction_distinct(rule.extractors, rule.name, event, vars);
        }
        assert(keys_are_distinct(after));
        lemma_rules_outcome_distinct(rules, event, i + 1, after);
    }
}

/// Putting variables with distinct keys into no variables gives them back.
pub proof fn lemma_overlay_onto_nothing(vars: Seq<(Seq<char>, ValueView)>)
    requires
        keys_are_distinct(vars),
    ensures
        overlay(Seq::empty(), vars) == vars,
    decreases vars.len(),
{
    if vars.len() == 0 {
        assert(vars =~= Seq::empty());
    } else {
        let front = vars.drop_last();
        assert(keys_are_distinct(front)) by {
            assert forall|i: int, j: int| 0 <= i < j < front.len() implies (#[trigger] front[i]).0
                != (#[trigger] front[j]).0 by {
                assert(front[i] == vars[i] && front[j] == vars[j]);
            }
        }
        lemma_overlay_onto_nothing(front);
        lemma_first_index(front, vars.last().0, 0);
        let at = first_index(front, vars.last().0, 0);
        if at < front.len() {
            assert(front[at] == vars[at]);
            assert(vars[at].0 != vars[vars.len() - 1].0);
        }
        assert(front.push((vars.last().0, vars.last().1)) =~= vars);
    }
}

/// Where the whole tree is one ruleset, the variables of the processed
/// event are those of the ruleset.
pub proof fn law_variables_of_a_root_ruleset(name: Seq<char>, rules: Seq<RuleView>, event: EventView)
    ensures
        processed(NodeView::Ruleset { name, rules }, event).extracted_vars == rules_outcome(
            rules,
            event,
            0,
            Seq::empty(),
        ).extracted_vars,
{
    lemma_rules_outcome_distinct(rules, event, 0, Seq::empty());
    lemma_overlay_onto_nothing(rules_outcome(rules, event, 0, Seq::empty()).extracted_vars);
}

} // verus!
