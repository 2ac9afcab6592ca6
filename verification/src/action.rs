//! Actions: the templates that a rule's actions are compiled to, and their
//! rendering against an event.
//!
//! A compiled payload keeps the shape of the configured one: arrays stay
//! arrays, objects keep their entries in order, and each text becomes an
//! accessor.
use crate::accessor::{accessor_of, fetch, Accessor, AccessorBuilder, AccessorView};
use crate::config::{action_defs, Action, ActionDef};
use crate::error::{ErrorView, MatcherError};
use crate::event::{Event, EventView};
use crate::model::{rendered_actions_view, RenderedAction, RenderedActionView};
use crate::value::{
    clone_value, entries_view, lemma_view_array, lemma_view_object, values_view, Value, ValueView,
};
use vstd::prelude::*;

verus! {

/// A compiled value of a payload.
#[derive(Debug)]
pub enum ActionValue {
    Accessor(Accessor),
    Array(Vec<ActionValue>),
    Object(Vec<(String, ActionValue)>),
}

/// What an [`ActionValue`] stands for.
pub enum ActionValueView {
    Accessor(AccessorView),
    Array(Seq<ActionValueView>),
    Object(Seq<(Seq<char>, ActionValueView)>),
}

/// What `v` stands for.
pub open spec fn action_value_view(v: ActionValue) -> ActionValueView
    decreases v,
{
    match v {
        ActionValue::Accessor(a) => ActionValueView::Accessor(a@),
        ActionValue::Array(items) => ActionValueView::Array(
            Seq::new(
                items@.len(),
                |i: int|
                    if 0 <= i < items@.len() {
                        action_value_view(items@[i])
                    } else {
                        ActionValueView::Array(Seq::empty())
                    },
            ),
        ),
        ActionValue::Object(entries) => ActionValueView::Object(
            Seq::new(
                entries@.len(),
                |i: int|
                    if 0 <= i < entries@.len() {
                        (entries@[i].0@, action_value_view(entries@[i].1))
                    } else {
                        (Seq::empty(), ActionValueView::Array(Seq::empty()))
                    },
            ),
        ),
    }
}

impl View for ActionValue {
    type V = ActionValueView;

    open spec fn view(&self) -> ActionValueView {
        action_value_view(*self)
    }
}

/// The views of a list of compiled values.
pub open spec fn action_values_view(items: Seq<ActionValue>) -> Seq<ActionValueView> {
    Seq::new(items.len(), |i: int| items[i]@)
}

/// The views of a list of compiled entries.
pub open spec fn action_entries_view(entries: Seq<(String, ActionValue)>) -> Seq<
    (Seq<char>, ActionValueView),
> {
    Seq::new(entries.len(), |i: int| (entries[i].0@, entries[i].1@))
}

/// The view of a compiled array is made of the views of its items.
pub proof fn lemma_view_action_array(items: Vec<ActionValue>)
    ensures
        ActionValue::Array(items)@ == ActionValueView::Array(action_values_view(items@)),
{
    assert(ActionValue::Array(items)@->Array_0 =~= action_values_view(items@));
}

/// The view of a compiled object is made of the views of its entries.
pub proof fn lemma_view_action_object(entries: Vec<(String, ActionValue)>)
    ensures
        ActionValue::Object(entries)@ == ActionValueView::Object(action_entries_view(entries@)),
{
    assert(ActionValue::Object(entries)@->Object_0 =~= action_entries_view(entries@));
}

/// What the configured value `v` compiles to for the rule `rule`: a text to
/// its accessor, an array or an object part by part, anything else to a
/// constant.
pub open spec fn template_of(rule: Seq<char>, v: ValueView) -> Result<ActionValueView, ErrorView>
    decreases v,
{
    match v {
        ValueView::Text(s) => match accessor_of(rule, s) {
            Ok(a) => Ok(ActionValueView::Accessor(a)),
            Err(e) => Err(e),
        },
        ValueView::Array(items) => match templates_of(rule, items) {
            Ok(ts) => Ok(ActionValueView::Array(ts)),
            Err(e) => Err(e),
        },
        ValueView::Object(entries) => match entry_templates_of(rule, entries) {
            Ok(ts) => Ok(ActionValueView::Object(ts)),
            Err(e) => Err(e),
        },
        _ => Ok(ActionValueView::Accessor(AccessorView::Constant(v))),
    }
}

/// What the values `items` compile to, in order; the first that fails fails
/// the list.
pub open spec fn templates_of(rule: Seq<char>, items: Seq<ValueView>) -> Result<
    Seq<ActionValueView>,
    ErrorView,
>
    decreases items,
{
    if items.len() == 0 {
        Ok(Seq::empty())
    } else {
        match templates_of(rule, items.drop_last()) {
            Ok(ts) => match template_of(rule, items.last()) {
                Ok(t) => Ok(ts.push(t)),
                Err(e) => Err(e),
            },
            Err(e) => Err(e),
        }
    }
}

/// What the entries `entries` compile to, in order and under their keys;
/// the first that fails fails the list.
pub open spec fn entry_templates_of(rule: Seq<char>, entries: Seq<(Seq<char>, ValueView)>)
    -> Result<Seq<(Seq<char>, ActionValueView)>, ErrorView>
    decreases entries,
{
    if entries.len() == 0 {
        Ok(Seq::empty())
    } else {
        match entry_templates_of(rule, entries.drop_last()) {
            Ok(ts) => match template_of(rule, entries.last().1) {
                Ok(t) => Ok(ts.push((entries.last().0, t))),
                Err(e) => Err(e),
            },
            Err(e) => Err(e),
        }
    }
}

/// Once a prefix of `items` fails to compile, `items` fails in the same way.
pub proof fn lemma_templates_of_err(rule: Seq<char>, items: Seq<ValueView>, i: int)
    requires
        0 <= i < items.len(),
        templates_of(rule, items.take(i + 1)) is Err,
    ensures
        templates_of(rule, items) == templates_of(rule, items.take(i + 1)),
    decreases items.len() - i,
{
    reveal_with_fuel(templates_of, 2);
    if i + 1 == items.len() {
        assert(items.take(i + 1) =~= items);
    } else {
        assert(items.take(i + 2).drop_last() =~= items.take(i + 1));
        lemma_templates_of_err(rule, items, i + 1);
    }
}

/// Once a prefix of `entries` fails to compile, `entries` fails in the same
/// way.
pub proof fn lemma_entry_templates_of_err(
    rule: Seq<char>,
    entries: Seq<(Seq<char>, ValueView)>,
    i: int,
)
    requires
        0 <= i < entries.len(),
        entry_templates_of(rule, entries.take(i + 1)) is Err,
    ensures
        entry_templates_of(rule, entries) == entry_templates_of(rule, entries.take(i + 1)),
    decreases entries.len() - i,
{
    reveal_with_fuel(entry_templates_of, 2);
    if i + 1 == entries.len() {
        assert(entries.take(i + 1) =~= entries);
    } else {
        assert(entries.take(i + 2).drop_last() =~= entries.take(i + 1));
        lemma_entry_templates_of_err(rule, entries, i + 1);
    }
}

/// What the compiled value `t` renders to for `event` and the variables
/// `vars`; nothing where an accessor in it yields nothing.
pub open spec fn rendered(
    t: ActionValueView,
    event: EventView,
    vars: Seq<(Seq<char>, ValueView)>,
) -> Option<ValueView>
    decreases t,
{
    match t {
        ActionValueView::Accessor(a) => fetch(a, event, vars),
        ActionValueView::Array(items) => match rendered_items(items, event, vars) {
            Some(vs) => Some(ValueView::Array(vs)),
            None => None,
        },
        ActionValueView::Object(entries) => match rendered_entries(entries, event, vars) {
            Some(es) => Some(ValueView::Object(es)),
            None => None,
        },
    }
}

/// What the compiled values `items` render to, in order.
pub open spec fn rendered_items(
    items: Seq<ActionValueView>,
    event: EventView,
    vars: Seq<(Seq<char>, ValueView)>,
) -> Option<Seq<ValueView>>
    decreases items,
{
    if items.len() == 0 {
        Some(Seq::empty())
    } else {
        match rendered_items(items.drop_last(), event, vars) {
            Some(vs) => match rendered(items.last(), event, vars) {
                Some(v) => Some(vs.push(v)),
                None => None,
            },
            None => None,
        }
    }
}

/// What the compiled entries `entries` render to, in order and under their
/// keys.
pub open spec fn rendered_entries(
    entries: Seq<(Seq<char>, ActionValueView)>,
    event: EventView,
    vars: Seq<(Seq<char>, ValueView)>,
) -> Option<Seq<(Seq<char>, ValueView)>>
    decreases entries,
{
    if entries.len() == 0 {
        Some(Seq::empty())
    } else {
        match rendered_entries(entries.drop_last(), event, vars) {
            Some(es) => match rendered(entries.last().1, event, vars) {
                Some(v) => Some(es.push((entries.last().0, v))),
                None => None,
            },
            None => None,
        }
    }
}

/// Once a prefix of `items` renders to nothing, so does `items`.
pub proof fn lemma_rendered_items_none(
    items: Seq<ActionValueView>,
    i: int,
    event: EventView,
    vars: Seq<(Seq<char>, ValueView)>,
)
    requires
        0 <= i < items.len(),
        rendered_items(items.take(i + 1), event, vars) is None,
    ensures
        rendered_items(items, event, vars) is None,
    decreases items.len() - i,
{
    reveal_with_fuel(rendered_items, 2);
    if i + 1 == items.len() {
        assert(items.take(i + 1) =~= items);
    } else {
        assert(items.take(i + 2).drop_last() =~= items.take(i + 1));
        lemma_rendered_items_none(items, i + 1, event, vars);
    }
}

/// Once a prefix of `entries` renders to nothing, so does `entries`.
pub proof fn lemma_rendered_entries_none(
    entries: Seq<(Seq<char>, ActionValueView)>,
    i: int,
    event: EventView,
    vars: Seq<(Seq<char>, ValueView)>,
)
    requires
        0 <= i < entries.len(),
        rendered_entries(entries.take(i + 1), event, vars) is None,
    ensures
        rendered_entries(entries, event, vars) is None,
    decreases entries.len() - i,
{
    reveal_with_fuel(rendered_entries, 2);
    if i + 1 == entries.len() {
        assert(entries.take(i + 1) =~= entries);
    } else {
        assert(entries.take(i + 2).drop_last() =~= entries.take(i + 1));
        lemma_rendered_entries_none(entries, i + 1, event, vars);
    }
}

/// The payload that the compiled entries `entries` render to for the rule
/// `rule`. The first entry that cannot be rendered fails the payload with
/// `MissingExtractedVariable`, which names the entry's key.
pub open spec fn rendered_payload(
    entries: Seq<(Seq<char>, ActionValueView)>,
    rule: Seq<char>,
    event: EventView,
    vars: Seq<(Seq<char>, ValueView)>,
) -> Result<Seq<(Seq<char>, ValueView)>, ErrorView>
    decreases entries.len(),
{
    if entries.len() == 0 {
        Ok(Seq::empty())
    } else {
        match rendered_payload(entries.drop_last(), rule, event, vars) {
            Ok(es) => match rendered(entries.last().1, event, vars) {
                Some(v) => Ok(es.push((entries.last().0, v))),
                None => Err(
                    ErrorView::MissingExtractedVariable { rule, variable: entries.last().0 },
                ),
            },
            Err(e) => Err(e),
        }
    }
}

/// Once a prefix of a payload fails to render, the payload fails in the
/// same way.
pub proof fn lemma_rendered_payload_err(
    entries: Seq<(Seq<char>, ActionValueView)>,
    i: int,
    rule: Seq<char>,
    event: EventView,
    vars: Seq<(Seq<char>, ValueView)>,
)
    requires
        0 <= i < entries.len(),
        rendered_payload(entries.take(i + 1), rule, event, vars) is Err,
    ensures
        rendered_payload(entries, rule, event, vars) == rendered_payload(
            entries.take(i + 1),
            rule,
            event,
            vars,
        ),
    decreases entries.len() - i,
{
    if i + 1 == entries.len() {
        assert(entries.take(i + 1) =~= entries);
    } else {
        assert(entries.take(i + 2).drop_last() =~= entries.take(i + 1));
        lemma_rendered_payload_err(entries, i + 1, rule, event, vars);
    }
}

impl ActionValue {
    /// Renders the value for `event` and the variables `vars`.
    #[verifier::loop_isolation(false)]
    pub fn render(&self, event: &Event, vars: &Vec<(String, Value)>) -> (r: Option<Value>)
        ensures
            r is Some <==> rendered(self@, event@, entries_view(vars@)) is Some,
            r matches Some(v) ==> rendered(self@, event@, entries_view(vars@)) == Some(v@),
        decreases self,
    {
        let ghost ev = event@;
        let ghost vv = entries_view(vars@);
        proof {
            reveal_with_fuel(rendered, 2);
        }
        match self {
            ActionValue::Accessor(a) => match a.get(event, vars) {
                Some(found) => Some(found.into_value()),
                None => None,
            },
            ActionValue::Array(items) => {
                proof {
                    lemma_view_action_array(*items);
                }
                let ghost iv = action_values_view(items@);
                let mut out: Vec<Value> = Vec::new();
                let mut i: usize = 0;
                assert(iv.take(0) =~= Seq::<ActionValueView>::empty());
                assert(values_view(out@) =~= Seq::<ValueView>::empty());
                while i < items.len()
                    invariant
                        i <= items@.len(),
                        rendered_items(iv.take(i as int), ev, vv) == Some(values_view(out@)),
                    decreases items@.len() - i,
                {
                    let ghost before = values_view(out@);
                    assert(iv.take(i + 1).drop_last() =~= iv.take(i as int));
                    assert(iv.take(i + 1).last() == items@[i as int]@);
                    match items[i].render(event, vars) {
                        Some(v) => {
                            out.push(v);
                            assert(values_view(out@) =~= before.push(v@));
                        },
                        None => {
                            proof {
                                lemma_rendered_items_none(iv, i as int, ev, vv);
                            }
                            return None;
                        },
                    }
                    i = i + 1;
                }
                proof {
                    assert(iv.take(items@.len() as int) =~= iv);
                    lemma_view_array(out);
                }
                Some(Value::Array(out))
            },
            ActionValue::Object(entries) => {
                proof {
                    lemma_view_action_object(*entries);
                }
                let ghost nv = action_entries_view(entries@);
                let mut out: Vec<(String, Value)> = Vec::new();
                let mut i: usize = 0;
                assert(nv.take(0) =~= Seq::<(Seq<char>, ActionValueView)>::empty());
                assert(entries_view(out@) =~= Seq::<(Seq<char>, ValueView)>::empty());
                while i < entries.len()
                    invariant
                        i <= entries@.len(),
                        rendered_entries(nv.take(i as int), ev, vv) == Some(entries_view(out@)),
                    decreases entries@.len() - i,
                {
                    let ghost before = entries_view(out@);
                    assert(nv.take(i + 1).drop_last() =~= nv.take(i as int));
                    assert(nv.take(i + 1).last() == (entries@[i as int].0@, entries@[i as int].1@));
                    match entries[i].1.render(event, vars) {
                        Some(v) => {
                            out.push((entries[i].0.clone(), v));
                            assert(entries_view(out@) =~= before.push((entries@[i as int].0@, v@)));
                        },
                        None => {
                            proof {
                                lemma_rendered_entries_none(nv, i as int, ev, vv);
                            }
                            return None;
                        },
                    }
                    i = i + 1;
                }
                proof {
                    assert(nv.take(entries@.len() as int) =~= nv);
                    lemma_view_object(out);
                }
                Some(Value::Object(out))
            },
        }
    }
}

/// A compiled action.
#[derive(Debug)]
pub struct MatcherAction {
    pub id: String,
    pub payload: Vec<(String, ActionValue)>,
}

/// What a [`MatcherAction`] stands for.
pub struct MatcherActionView {
    pub id: Seq<char>,
    pub payload: Seq<(Seq<char>, ActionValueView)>,
}

impl View for MatcherAction {
    type V = MatcherActionView;

    open spec fn view(&self) -> MatcherActionView {
        MatcherActionView { id: self.id@, payload: action_entries_view(self.payload@) }
    }
}

/// The views of a list of compiled actions.
pub open spec fn matcher_actions_view(actions: Seq<MatcherAction>) -> Seq<MatcherActionView> {
    Seq::new(actions.len(), |i: int| actions[i]@)
}

/// What the action `a` renders to for the rule `rule`.
pub open spec fn rendered_action(
    a: MatcherActionView,
    rule: Seq<char>,
    event: EventView,
    vars: Seq<(Seq<char>, ValueView)>,
) -> Result<RenderedActionView, ErrorView> {
    match rendered_payload(a.payload, rule, event, vars) {
        Ok(payload) => Ok(RenderedActionView { id: a.id, payload }),
        Err(e) => Err(e),
    }
}

/// What the actions `actions` render to, in order; the first that fails
/// fails the list.
pub open spec fn rendered_actions(
    actions: Seq<MatcherActionView>,
    rule: Seq<char>,
    event: EventView,
    vars: Seq<(Seq<char>, ValueView)>,
) -> Result<Seq<RenderedActionView>, ErrorView>
    decreases actions.len(),
{
    if actions.len() == 0 {
        Ok(Seq::empty())
    } else {
        match rendered_actions(actions.drop_last(), rule, event, vars) {
            Ok(rs) => match rendered_action(actions.last(), rule, event, vars) {
                Ok(r) => Ok(rs.push(r)),
                Err(e) => Err(e),
            },
            Err(e) => Err(e),
        }
    }
}

/// Once a prefix of `actions` fails to render, `actions` fails in the same
/// way.
pub proof fn lemma_rendered_actions_err(
    actions: Seq<MatcherActionView>,
    i: int,
    rule: Seq<char>,
    event: EventView,
    vars: Seq<(Seq<char>, ValueView)>,
)
    requires
        0 <= i < actions.len(),
        rendered_actions(actions.take(i + 1), rule, event, vars) is Err,
    ensures
        rendered_actions(actions, rule, event, vars) == rendered_actions(
            actions.take(i + 1),
            rule,
            event,
            vars,
        ),
    decreases actions.len() - i,
{
    if i + 1 == actions.len() {
        assert(actions.take(i + 1) =~= actions);
    } else {
        assert(actions.take(i + 2).drop_last() =~= actions.take(i + 1));
        lemma_rendered_actions_err(actions, i + 1, rule, event, vars);
    }
}

/// The view of what a rendering returned.
pub open spec fn rendering_view(r: Result<RenderedAction, MatcherError>) -> Result<
    RenderedActionView,
    ErrorView,
> {
    match r {
        Ok(a) => Ok(a@),
        Err(e) => Err(e@),
    }
}

/// The view of what the rendering of a list returned.
pub open spec fn renderings_view(r: Result<Vec<RenderedAction>, MatcherError>) -> Result<
    Seq<RenderedActionView>,
    ErrorView,
> {
    match r {
        Ok(a) => Ok(rendered_actions_view(a@)),
        Err(e) => Err(e@),
    }
}

impl MatcherAction {
    /// Renders the action of the rule `rule_name` for `event` and the
    /// variables `vars`.
    #[verifier::loop_isolation(false)]
    pub fn render(&self, rule_name: &str, event: &Event, vars: &Vec<(String, Value)>) -> (r:
        Result<RenderedAction, MatcherError>)
        ensures
            rendering_view(r) == rendered_action(
                self@,
                rule_name@,
                event@,
                entries_view(vars@),
            ),
    {
        let ghost ev = event@;
        let ghost vv = entries_view(vars@);
        let ghost rule = rule_name@;
        let ghost pv = action_entries_view(self.payload@);
        let mut out: Vec<(String, Value)> = Vec::new();
        let mut i: usize = 0;
        assert(pv.take(0) =~= Seq::<(Seq<char>, ActionValueView)>::empty());
        assert(entries_view(out@) =~= Seq::<(Seq<char>, ValueView)>::empty());
        while i < self.payload.len()
            invariant
                i <= self.payload@.len(),
                rendered_payload(pv.take(i as int), rule, ev, vv) == Ok::<
                    Seq<(Seq<char>, ValueView)>,
                    ErrorView,
                >(entries_view(out@)),
            decreases self.payload@.len() - i,
        {
            let ghost before = entries_view(out@);
            assert(pv.take(i + 1).drop_last() =~= pv.take(i as int));
            assert(pv.take(i + 1).last() == (self.payload@[i as int].0@, self.payload@[i as int].1@));
            match self.payload[i].1.render(event, vars) {
                Some(v) => {
                    out.push((self.payload[i].0.clone(), v));
                    assert(entries_view(out@) =~= before.push((self.payload@[i as int].0@, v@)));
                },
                None => {
                    proof {
                        lemma_rendered_payload_err(pv, i as int, rule, ev, vv);
                    }
                    return Err(
                        MatcherError::MissingExtractedVariable {
                            rule: String::from_str(rule_name),
                            variable: self.payload[i].0.clone(),
                        },
                    );
                },
            }
            i = i + 1;
        }
        assert(pv.take(self.payload@.len() as int) =~= pv);
        Ok(RenderedAction { id: self.id.clone(), payload: out })
    }
}

/// Renders the actions of the rule `rule_name`, in order.
#[verifier::loop_isolation(false)]
pub fn render_all(
    actions: &Vec<MatcherAction>,
    rule_name: &str,
    event: &Event,
    vars: &Vec<(String, Value)>,
) -> (r: Result<Vec<RenderedAction>, MatcherError>)
    ensures
        renderings_view(r) == rendered_actions(
            matcher_actions_view(actions@),
            rule_name@,
            event@,
            entries_view(vars@),
        ),
{
    let ghost ev = event@;
    let ghost vv = entries_view(vars@);
    let ghost rule = rule_name@;
    let ghost av = matcher_actions_view(actions@);
    let mut out: Vec<RenderedAction> = Vec::new();
    let mut i: usize = 0;
    assert(av.take(0) =~= Seq::<MatcherActionView>::empty());
    assert(rendered_actions_view(out@) =~= Seq::<RenderedActionView>::empty());
    while i < actions.len()
        invariant
            i <= actions@.len(),
            rendered_actions(av.take(i as int), rule, ev, vv) == Ok::<
                Seq<RenderedActionView>,
                ErrorView,
            >(rendered_actions_view(out@)),
        decreases actions@.len() - i,
    {
        let ghost before = rendered_actions_view(out@);
        assert(av.take(i + 1).drop_last() =~= av.take(i as int));
        assert(av.take(i + 1).last() == actions@[i as int]@);
        match actions[i].render(rule_name, event, vars) {
            Ok(a) => {
                out.push(a);
                assert(rendered_actions_view(out@) =~= before.push(a@));
            },
            Err(e) => {
                proof {
                    lemma_rendered_actions_err(av, i as int, rule, ev, vv);
                }
                return Err(e);
            },
        }
        i = i + 1;
    }
    assert(av.take(actions@.len() as int) =~= av);
    Ok(out)
}

/// What the configured action `def` compiles to for the rule `rule`.
pub open spec fn action_of(rule: Seq<char>, def: ActionDef) -> Result<MatcherActionView, ErrorView> {
    match entry_templates_of(rule, def.payload) {
        Ok(payload) => Ok(MatcherActionView { id: def.id, payload }),
        Err(e) => Err(e),
    }
}

/// What the configured actions `defs` compile to, in order; the first that
/// fails fails the list.
pub open spec fn actions_of(rule: Seq<char>, defs: Seq<ActionDef>) -> Result<
    Seq<MatcherActionView>,
    ErrorView,
>
    decreases defs.len(),
{
    if defs.len() == 0 {
        Ok(Seq::empty())
    } else {
        match actions_of(rule, defs.drop_last()) {
            Ok(xs) => match action_of(rule, defs.last()) {
                Ok(x) => Ok(xs.push(x)),
                Err(e) => Err(e),
            },
            Err(e) => Err(e),
        }
    }
}

/// Once a prefix of `defs` fails to compile, `defs` fails in the same way.
pub proof fn lemma_actions_of_err(rule: Seq<char>, defs: Seq<ActionDef>, i: int)
    requires
        0 <= i < defs.len(),
        actions_of(rule, defs.take(i + 1)) is Err,
    ensures
        actions_of(rule, defs) == actions_of(rule, defs.take(i + 1)),
    decreases defs.len() - i,
{
    if i + 1 == defs.len() {
        assert(defs.take(i + 1) =~= defs);
    } else {
        assert(defs.take(i + 2).drop_last() =~= defs.take(i + 1));
        lemma_actions_of_err(rule, defs, i + 1);
    }
}

/// The view of what a build of a list of actions returned.
pub open spec fn built_actions_view(r: Result<Vec<MatcherAction>, MatcherError>) -> Result<
    Seq<MatcherActionView>,
    ErrorView,
> {
    match r {
        Ok(a) => Ok(matcher_actions_view(a@)),
        Err(e) => Err(e@),
    }
}

/// A builder of actions.
#[derive(Debug, Default)]
pub struct MatcherActionBuilder {
    accessor: AccessorBuilder,
}

impl MatcherActionBuilder {
    /// A new builder.
    pub fn new() -> MatcherActionBuilder {
        MatcherActionBuilder { accessor: AccessorBuilder::new() }
    }

    /// Compiles one value of a payload.
    #[verifier::loop_isolation(false)]
    pub fn build_value(&self, rule_name: &str, value: &Value) -> (r: Result<
        ActionValue,
        MatcherError,
    >)
        ensures
            r is Ok <==> template_of(rule_name@, value@) is Ok,
            r matches Ok(t) ==> template_of(rule_name@, value@) == Ok::<
                ActionValueView,
                ErrorView,
            >(t@),
            r matches Err(e) ==> template_of(rule_name@, value@) == Err::<
                ActionValueView,
                ErrorView,
            >(e@),
        decreases value,
    {
        let ghost rule = rule_name@;
        proof {
            reveal_with_fuel(template_of, 2);
        }
        match value {
            Value::Text(s) => match self.accessor.build(rule_name, s.as_str()) {
                Ok(a) => Ok(ActionValue::Accessor(a)),
                Err(e) => Err(e),
            },
            Value::Array(items) => {
                proof {
                    lemma_view_array(*items);
                }
                let ghost iv = values_view(items@);
                let mut out: Vec<ActionValue> = Vec::new();
                let mut i: usize = 0;
                assert(iv.take(0) =~= Seq::<ValueView>::empty());
                assert(action_values_view(out@) =~= Seq::<ActionValueView>::empty());
                while i < items.len()
                    invariant
                        i <= items@.len(),
                        templates_of(rule, iv.take(i as int)) == Ok::<
                            Seq<ActionValueView>,
                            ErrorView,
                        >(action_values_view(out@)),
                    decreases items@.len() - i,
                {
                    let ghost before = action_values_view(out@);
                    assert(iv.take(i + 1).drop_last() =~= iv.take(i as int));
                    assert(iv.take(i + 1).last() == items@[i as int]@);
                    match self.build_value(rule_name, &items[i]) {
                        Ok(t) => {
                            out.push(t);
                            assert(action_values_view(out@) =~= before.push(t@));
                        },
                        Err(e) => {
                            proof {
                                lemma_templates_of_err(rule, iv, i as int);
                            }
                            return Err(e);
                        },
                    }
                    i = i + 1;
                }
                proof {
                    assert(iv.take(items@.len() as int) =~= iv);
                    lemma_view_action_array(out);
                }
                Ok(ActionValue::Array(out))
            },
            Value::Object(entries) => {
                proof {
                    lemma_view_object(*entries);
                }
                match self.build_entries(rule_name, entries) {
                    Ok(out) => {
                        proof {
                            lemma_view_action_object(out);
                        }
                        Ok(ActionValue::Object(out))
                    },
                    Err(e) => Err(e),
                }
            },
            _ => Ok(ActionValue::Accessor(Accessor::Constant { value: clone_value(value) })),
        }
    }

    /// Compiles the entries of a payload or of an object in it.
    #[verifier::loop_isolation(false)]
    pub fn build_entries(&self, rule_name: &str, entries: &Vec<(String, Value)>) -> (r: Result<
        Vec<(String, ActionValue)>,
        MatcherError,
    >)
        ensures
            r is Ok <==> entry_templates_of(rule_name@, entries_view(entries@)) is Ok,
            r matches Ok(ts) ==> entry_templates_of(rule_name@, entries_view(entries@)) == Ok::<
                Seq<(Seq<char>, ActionValueView)>,
                ErrorView,
            >(action_entries_view(ts@)),
            r matches Err(e) ==> entry_templates_of(rule_name@, entries_view(entries@)) == Err::<
                Seq<(Seq<char>, ActionValueView)>,
                ErrorView,
            >(e@),
        decreases entries,
    {
        let ghost rule = rule_name@;
        let ghost nv = entries_view(entries@);
        let mut out: Vec<(String, ActionValue)> = Vec::new();
        let mut i: usize = 0;
        assert(nv.take(0) =~= Seq::<(Seq<char>, ValueView)>::empty());
        assert(action_entries_view(out@) =~= Seq::<(Seq<char>, ActionValueView)>::empty());
        while i < entries.len()
            invariant
                i <= entries@.len(),
                entry_templates_of(rule, nv.take(i as int)) == Ok::<
                    Seq<(Seq<char>, ActionValueView)>,
                    ErrorView,
                >(action_entries_view(out@)),
            decreases entries@.len() - i,
        {
            let ghost before = action_entries_view(out@);
            assert(nv.take(i + 1).drop_last() =~= nv.take(i as int));
            assert(nv.take(i + 1).last() == (entries@[i as int].0@, entries@[i as int].1@));
            match self.build_value(rule_name, &entries[i].1) {
                Ok(t) => {
                    out.push((entries[i].0.clone(), t));
                    assert(action_entries_view(out@) =~= before.push((entries@[i as int].0@, t@)));
                },
                Err(e) => {
                    proof {
                        lemma_entry_templates_of_err(rule, nv, i as int);
                    }
                    return Err(e);
                },
            }
            i = i + 1;
        }
        assert(nv.take(entries@.len() as int) =~= nv);
        Ok(out)
    }

    /// Compiles the actions of the rule `rule_name`.
    #[verifier::loop_isolation(false)]
    pub fn build(&self, rule_name: &str, actions: &Vec<Action>) -> (r: Result<
        Vec<MatcherAction>,
        MatcherError,
    >)
        ensures
            built_actions_view(r) == actions_of(rule_name@, action_defs(actions@)),
    {
        let ghost rule = rule_name@;
        let ghost dv = action_defs(actions@);
        let mut out: Vec<MatcherAction> = Vec::new();
        let mut i: usize = 0;
        assert(dv.take(0) =~= Seq::<ActionDef>::empty());
        assert(matcher_actions_view(out@) =~= Seq::<MatcherActionView>::empty());
        while i < actions.len()
            invariant
                i <= actions@.len(),
                actions_of(rule, dv.take(i as int)) == Ok::<Seq<MatcherActionView>, ErrorView>(
                    matcher_actions_view(out@),
                ),
            decreases actions@.len() - i,
        {
            let ghost before = matcher_actions_view(out@);
            assert(dv.take(i + 1).drop_last() =~= dv.take(i as int));
            assert(dv.take(i + 1).last() == actions@[i as int]@);
            match self.build_entries(rule_name, &actions[i].payload) {
                Ok(payload) => {
                    let a = MatcherAction { id: actions[i].id.clone(), payload };
                    out.push(a);
                    assert(matcher_actions_view(out@) =~= before.push(a@));
                },
                Err(e) => {
                    proof {
                        lemma_actions_of_err(rule, dv, i as int);
                    }
                    return Err(e);
                },
            }
            i = i + 1;
        }
        assert(dv.take(actions@.len() as int) =~= dv);
        Ok(out)
    }
}

} // verus!
