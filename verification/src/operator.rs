//! Operators: compiled conditions on an event and on the variables
//! extracted so far.
use crate::accessor::{
    accessor_of, accessor_of_value, fetch, fetched_view, Accessor, AccessorBuilder, AccessorView,
    Fetched,
};
use crate::config::{lemma_view_and, lemma_view_or, operator_defs, OperatorDef};
use crate::error::{ErrorView, MatcherError};
use crate::event::{Event, EventView};
use crate::number::{number_equal, number_less};
use crate::pattern::{error_text, pattern_is_valid, pattern_matches, Pattern};
use crate::text::{contains_chars, contains_text, to_chars};
use crate::value::{
    entries_view, equal_values, find_entry, has_key, lemma_view_array, lemma_view_object, text_of,
    value_text, values_equal, values_view, Value, ValueView,
};
use vstd::prelude::*;

verus! {

/// A compiled condition.
#[derive(Debug)]
pub enum Operator {
    /// Every one of `operators` holds.
    And { operators: Vec<Operator> },
    /// One of `operators` holds.
    Or { operators: Vec<Operator> },
    /// `first` holds `second`: as a part of its text, as an element of its
    /// array, or as a key of its object.
    Contain { first: Accessor, second: Accessor },
    /// `first` and `second` are equal values.
    Equal { first: Accessor, second: Accessor },
    /// Both are numbers and `first >= second`.
    GreaterEqualThan { first: Accessor, second: Accessor },
    /// Both are numbers and `first > second`.
    GreaterThan { first: Accessor, second: Accessor },
    /// Both are numbers and `first <= second`.
    LessEqualThan { first: Accessor, second: Accessor },
    /// Both are numbers and `first < second`.
    LessThan { first: Accessor, second: Accessor },
    /// The text of `target` has a match of `regex`.
    Regex { regex: Pattern, target: Accessor },
}

/// What a compiled [`Operator`] stands for. A regular expression is held by
/// its pattern's text.
pub enum OperatorView {
    And(Seq<OperatorView>),
    Or(Seq<OperatorView>),
    Contain(AccessorView, AccessorView),
    Equal(AccessorView, AccessorView),
    GreaterEqualThan(AccessorView, AccessorView),
    GreaterThan(AccessorView, AccessorView),
    LessEqualThan(AccessorView, AccessorView),
    LessThan(AccessorView, AccessorView),
    Regex(Seq<char>, AccessorView),
}

/// What `op` stands for.
pub open spec fn operator_view(op: Operator) -> OperatorView
    decreases op,
{
    match op {
        Operator::And { operators } => OperatorView::And(
            Seq::new(
                operators@.len(),
                |i: int|
                    if 0 <= i < operators@.len() {
                        operator_view(operators@[i])
                    } else {
                        OperatorView::And(Seq::empty())
                    },
            ),
        ),
        Operator::Or { operators } => OperatorView::Or(
            Seq::new(
                operators@.len(),
                |i: int|
                    if 0 <= i < operators@.len() {
                        operator_view(operators@[i])
                    } else {
                        OperatorView::And(Seq::empty())
                    },
            ),
        ),
        Operator::Contain { first, second } => OperatorView::Contain(first@, second@),
        Operator::Equal { first, second } => OperatorView::Equal(first@, second@),
        Operator::GreaterEqualThan { first, second } => OperatorView::GreaterEqualThan(
            first@,
            second@,
        ),
        Operator::GreaterThan { first, second } => OperatorView::GreaterThan(first@, second@),
        Operator::LessEqualThan { first, second } => OperatorView::LessEqualThan(first@, second@),
        Operator::LessThan { first, second } => OperatorView::LessThan(first@, second@),
        Operator::Regex { regex, target } => OperatorView::Regex(regex@, target@),
    }
}

impl View for Operator {
    type V = OperatorView;

    open spec fn view(&self) -> OperatorView {
        operator_view(*self)
    }
}

/// The views of a list of operators.
pub open spec fn operators_view(ops: Seq<Operator>) -> Seq<OperatorView> {
    Seq::new(ops.len(), |i: int| ops[i]@)
}

/// The view of a conjunction or disjunction is made of the views of its
/// operators.
pub proof fn lemma_view_all(operators: Vec<Operator>)
    ensures
        (Operator::And { operators })@ == OperatorView::And(operators_view(operators@)),
        (Operator::Or { operators })@ == OperatorView::Or(operators_view(operators@)),
{
    assert((Operator::And { operators })@->And_0 =~= operators_view(operators@));
    assert((Operator::Or { operators })@->Or_0 =~= operators_view(operators@));
}

/// The view of an operator that may be absent.
pub open spec fn optional_view(op: Option<Operator>) -> Option<OperatorView> {
    match op {
        Some(o) => Some(o@),
        None => None,
    }
}

/// Whether `x` holds `y`: a text holds the text of `y` as a part, an array
/// holds `y` as an element, an object holds the text of `y` as a key.
pub open spec fn contains_value(x: ValueView, y: ValueView) -> bool {
    match x {
        ValueView::Text(t) => match text_of(y) {
            Some(needle) => contains_text(t, needle),
            None => false,
        },
        ValueView::Array(items) => has_element(items, y),
        ValueView::Object(entries) => match text_of(y) {
            Some(key) => has_key(entries, key),
            None => false,
        },
        _ => false,
    }
}

/// Whether an element of `items` equals `y`.
pub open spec fn has_element(items: Seq<ValueView>, y: ValueView) -> bool {
    exists|i: int| 0 <= i < items.len() && values_equal(#[trigger] items[i], y)
}

/// The bits of `x` and `y` where both are numbers.
pub open spec fn both_numbers(x: Option<ValueView>, y: Option<ValueView>) -> Option<(u64, u64)> {
    match (x, y) {
        (Some(ValueView::Number(a)), Some(ValueView::Number(b))) => Some((a.bits, b.bits)),
        _ => None,
    }
}

/// Whether the condition `op` holds of `event` and the variables `vars`.
/// A side that yields nothing makes a comparison false.
pub open spec fn holds(
    op: OperatorView,
    event: EventView,
    vars: Seq<(Seq<char>, ValueView)>,
) -> bool
    decreases op,
{
    match op {
        OperatorView::And(ops) => all_hold(ops, event, vars),
        OperatorView::Or(ops) => one_holds(ops, event, vars),
        OperatorView::Contain(first, second) => match (
            fetch(first, event, vars),
            fetch(second, event, vars),
        ) {
            (Some(x), Some(y)) => contains_value(x, y),
            _ => false,
        },
        OperatorView::Equal(first, second) => match (
            fetch(first, event, vars),
            fetch(second, event, vars),
        ) {
            (Some(x), Some(y)) => values_equal(x, y),
            _ => false,
        },
        OperatorView::GreaterEqualThan(first, second) => match both_numbers(
            fetch(first, event, vars),
            fetch(second, event, vars),
        ) {
            Some((a, b)) => number_less(b, a) || number_equal(a, b),
            None => false,
        },
        OperatorView::GreaterThan(first, second) => match both_numbers(
            fetch(first, event, vars),
            fetch(second, event, vars),
        ) {
            Some((a, b)) => number_less(b, a),
            None => false,
        },
        OperatorView::LessEqualThan(first, second) => match both_numbers(
            fetch(first, event, vars),
            fetch(second, event, vars),
        ) {
            Some((a, b)) => number_less(a, b) || number_equal(a, b),
            None => false,
        },
        OperatorView::LessThan(first, second) => match both_numbers(
            fetch(first, event, vars),
            fetch(second, event, vars),
        ) {
            Some((a, b)) => number_less(a, b),
            None => false,
        },
        OperatorView::Regex(pattern, target) => match fetch(target, event, vars) {
            Some(v) => match text_of(v) {
                Some(text) => pattern_matches(pattern, text),
                None => false,
            },
            None => false,
        },
    }
}

/// Whether every one of `ops` holds; true of none.
pub open spec fn all_hold(
    ops: Seq<OperatorView>,
    event: EventView,
    vars: Seq<(Seq<char>, ValueView)>,
) -> bool
    decreases ops,
{
    forall|i: int| 0 <= i < ops.len() ==> holds(#[trigger] ops[i], event, vars)
}

/// Whether one of `ops` holds; false of none.
pub open spec fn one_holds(
    ops: Seq<OperatorView>,
    event: EventView,
    vars: Seq<(Seq<char>, ValueView)>,
) -> bool
    decreases ops,
{
    exists|i: int| 0 <= i < ops.len() && holds(#[trigger] ops[i], event, vars)
}

/// Whether an absent condition, which is true, or a present one holds.
pub open spec fn holds_or_absent(
    op: Option<OperatorView>,
    event: EventView,
    vars: Seq<(Seq<char>, ValueView)>,
) -> bool {
    match op {
        Some(o) => holds(o, event, vars),
        None => true,
    }
}

/// The name of the kind of `op`.
pub open spec fn operator_name(op: OperatorView) -> Seq<char> {
    match op {
        OperatorView::And(_) => "and"@,
        OperatorView::Or(_) => "or"@,
        OperatorView::Contain(_, _) => "contain"@,
        OperatorView::Equal(_, _) => "equal"@,
        OperatorView::GreaterEqualThan(_, _) => "ge"@,
        OperatorView::GreaterThan(_, _) => "gt"@,
        OperatorView::LessEqualThan(_, _) => "le"@,
        OperatorView::LessThan(_, _) => "lt"@,
        OperatorView::Regex(_, _) => "regex"@,
    }
}

#[verifier::loop_isolation(false)]
fn value_contains(x: &Value, y: &Value) -> (b: bool)
    ensures
        b == contains_value(x@, y@),
{
    match x {
        Value::Text(t) => match value_text(y) {
            Some(needle) => contains_chars(&to_chars(t.as_str()), &to_chars(needle.as_str())),
            None => false,
        },
        Value::Array(items) => {
            proof {
                lemma_view_array(*items);
            }
            let ghost iv = values_view(items@);
            let mut i: usize = 0;
            while i < items.len()
                invariant
                    i <= items@.len(),
                    forall|k: int| 0 <= k < i ==> !values_equal(#[trigger] iv[k], y@),
                decreases items@.len() - i,
            {
                if equal_values(&items[i], y) {
                    assert(values_equal(iv[i as int], y@));
                    return true;
                }
                i = i + 1;
            }
            false
        },
        Value::Object(entries) => {
            proof {
                lemma_view_object(*entries);
            }
            match value_text(y) {
                Some(key) => find_entry(entries, &key).is_some(),
                None => false,
            }
        },
        _ => false,
    }
}

/// The two numbers found, where both sides found one.
fn numbers_of<'a>(x: &'a Option<Fetched<'a>>, y: &'a Option<Fetched<'a>>) -> (r: Option<
    (&'a crate::number::Number, &'a crate::number::Number),
>)
    ensures
        r is Some <==> both_numbers(fetched_view(*x), fetched_view(*y)) is Some,
        r matches Some((a, b)) ==> both_numbers(fetched_view(*x), fetched_view(*y)) == Some(
            (a@.bits, b@.bits),
        ),
{
    match x {
        Some(fx) => match y {
            Some(fy) => match fx.value() {
                Value::Number(a) => match fy.value() {
                    Value::Number(b) => Some((a, b)),
                    _ => None,
                },
                _ => None,
            },
            None => None,
        },
        None => None,
    }
}

impl Operator {
    /// The name of the operator's kind.
    pub fn name(&self) -> (s: &'static str)
        ensures
            s@ == operator_name(self@),
    {
        match self {
            Operator::And { .. } => "and",
            Operator::Or { .. } => "or",
            Operator::Contain { .. } => "contain",
            Operator::Equal { .. } => "equal",
            Operator::GreaterEqualThan { .. } => "ge",
            Operator::GreaterThan { .. } => "gt",
            Operator::LessEqualThan { .. } => "le",
            Operator::LessThan { .. } => "lt",
            Operator::Regex { .. } => "regex",
        }
    }

    /// Whether the condition holds of `event` and the variables `vars`.
    #[verifier::loop_isolation(false)]
    pub fn evaluate(&self, event: &Event, vars: &Vec<(String, Value)>) -> (b: bool)
        ensures
            b == holds(self@, event@, entries_view(vars@)),
        decreases self,
    {
        let ghost ev = event@;
        let ghost vv = entries_view(vars@);
        proof {
            reveal_with_fuel(holds, 2);
        }
        match self {
            Operator::And { operators } => {
                proof {
                    lemma_view_all(*operators);
                }
                let ghost ov = operators_view(operators@);
                let mut i: usize = 0;
                while i < operators.len()
                    invariant
                        i <= operators@.len(),
                        forall|k: int| 0 <= k < i ==> holds(#[trigger] ov[k], ev, vv),
                    decreases operators@.len() - i,
                {
                    if !operators[i].evaluate(event, vars) {
                        assert(!holds(ov[i as int], ev, vv));
                        return false;
                    }
                    i = i + 1;
                }
                true
            },
            Operator::Or { operators } => {
                proof {
                    lemma_view_all(*operators);
                }
                let ghost ov = operators_view(operators@);
                let mut i: usize = 0;
                while i < operators.len()
                    invariant
                        i <= operators@.len(),
                        forall|k: int| 0 <= k < i ==> !holds(#[trigger] ov[k], ev, vv),
                    decreases operators@.len() - i,
                {
                    if operators[i].evaluate(event, vars) {
                        assert(holds(ov[i as int], ev, vv));
                        return true;
                    }
                    i = i + 1;
                }
                false
            },
            Operator::Contain { first, second } => {
                let x = first.get(event, vars);
                let y = second.get(event, vars);
                match x {
                    Some(fx) => match y {
                        Some(fy) => value_contains(fx.value(), fy.value()),
                        None => false,
                    },
                    None => false,
                }
            },
            Operator::Equal { first, second } => {
                let x = first.get(event, vars);
                let y = second.get(event, vars);
                match x {
                    Some(fx) => match y {
                        Some(fy) => equal_values(fx.value(), fy.value()),
                        None => false,
                    },
                    None => false,
                }
            },
            Operator::GreaterEqualThan { first, second } => {
                let x = first.get(event, vars);
                let y = second.get(event, vars);
                match numbers_of(&x, &y) {
                    Some((a, b)) => b.less_than(a) || a.equals(b),
                    None => false,
                }
            },
            Operator::GreaterThan { first, second } => {
                let x = first.get(event, vars);
                let y = second.get(event, vars);
                match numbers_of(&x, &y) {
                    Some((a, b)) => b.less_than(a),
                    None => false,
                }
            },
            Operator::LessEqualThan { first, second } => {
                let x = first.get(event, vars);
                let y = second.get(event, vars);
                match numbers_of(&x, &y) {
                    Some((a, b)) => a.less_than(b) || a.equals(b),
                    None => false,
                }
            },
            Operator::LessThan { first, second } => {
                let x = first.get(event, vars);
                let y = second.get(event, vars);
                match numbers_of(&x, &y) {
                    Some((a, b)) => a.less_than(b),
                    None => false,
                }
            },
            Operator::Regex { regex, target } => match target.get(event, vars) {
                Some(found) => match value_text(found.value()) {
                    Some(text) => regex.is_match(text.as_str()),
                    None => false,
                },
                None => false,
            },
        }
    }
}

/// Whether an absent condition, which is true, or a present one holds.
pub fn evaluate_optional(op: &Option<Operator>, event: &Event, vars: &Vec<(String, Value)>) -> (b:
    bool)
    ensures
        b == holds_or_absent(optional_view(*op), event@, entries_view(vars@)),
{
    match op {
        Some(o) => o.evaluate(event, vars),
        None => true,
    }
}

/// The accessors of the two sides of a comparison: the first side that
/// fails to compile fails the pair.
pub open spec fn pair_of(rule: Seq<char>, first: ValueView, second: ValueView) -> Result<
    (AccessorView, AccessorView),
    ErrorView,
> {
    match accessor_of_value(rule, first) {
        Ok(a) => match accessor_of_value(rule, second) {
            Ok(b) => Ok((a, b)),
            Err(e) => Err(e),
        },
        Err(e) => Err(e),
    }
}

/// The operator that the configuration `def` compiles to for the rule or
/// filter `rule`. It fails where an accessor fails to compile, and with
/// `InvalidRegex` where a regular expression is not accepted.
pub open spec fn operator_of(rule: Seq<char>, def: OperatorDef) -> Result<OperatorView, ErrorView>
    decreases def,
{
    match def {
        OperatorDef::And(defs) => match operators_of(rule, defs) {
            Ok(ops) => Ok(OperatorView::And(ops)),
            Err(e) => Err(e),
        },
        OperatorDef::Or(defs) => match operators_of(rule, defs) {
            Ok(ops) => Ok(OperatorView::Or(ops)),
            Err(e) => Err(e),
        },
        OperatorDef::Contain(first, second) => match pair_of(rule, first, second) {
            Ok((a, b)) => Ok(OperatorView::Contain(a, b)),
            Err(e) => Err(e),
        },
        OperatorDef::Equal(first, second) => match pair_of(rule, first, second) {
            Ok((a, b)) => Ok(OperatorView::Equal(a, b)),
            Err(e) => Err(e),
        },
        OperatorDef::GreaterEqualThan(first, second) => match pair_of(rule, first, second) {
            Ok((a, b)) => Ok(OperatorView::GreaterEqualThan(a, b)),
            Err(e) => Err(e),
        },
        OperatorDef::GreaterThan(first, second) => match pair_of(rule, first, second) {
            Ok((a, b)) => Ok(OperatorView::GreaterThan(a, b)),
            Err(e) => Err(e),
        },
        OperatorDef::LessEqualThan(first, second) => match pair_of(rule, first, second) {
            Ok((a, b)) => Ok(OperatorView::LessEqualThan(a, b)),
            Err(e) => Err(e),
        },
        OperatorDef::LessThan(first, second) => match pair_of(rule, first, second) {
            Ok((a, b)) => Ok(OperatorView::LessThan(a, b)),
            Err(e) => Err(e),
        },
        OperatorDef::Regex(regex, target) => match accessor_of(rule, target) {
            Ok(t) => if pattern_is_valid(regex) {
                Ok(OperatorView::Regex(regex, t))
            } else {
                Err(ErrorView::InvalidRegex { rule, regex })
            },
            Err(e) => Err(e),
        },
    }
}

/// The operators that `defs` compile to, in order; the first that fails
/// fails the list.
pub open spec fn operators_of(rule: Seq<char>, defs: Seq<OperatorDef>) -> Result<
    Seq<OperatorView>,
    ErrorView,
>
    decreases defs,
{
    if defs.len() == 0 {
        Ok(Seq::empty())
    } else {
        match operators_of(rule, defs.drop_last()) {
            Ok(ops) => match operator_of(rule, defs.last()) {
                Ok(op) => Ok(ops.push(op)),
                Err(e) => Err(e),
            },
            Err(e) => Err(e),
        }
    }
}

/// The operator that an optional configuration compiles to.
pub open spec fn optional_operator_of(rule: Seq<char>, def: Option<OperatorDef>) -> Result<
    Option<OperatorView>,
    ErrorView,
> {
    match def {
        Some(d) => match operator_of(rule, d) {
            Ok(op) => Ok(Some(op)),
            Err(e) => Err(e),
        },
        None => Ok(None),
    }
}

/// Once a prefix of `defs` fails, `defs` fails in the same way.
pub proof fn lemma_operators_of_err(rule: Seq<char>, defs: Seq<OperatorDef>, i: int)
    requires
        0 <= i < defs.len(),
        operators_of(rule, defs.take(i + 1)) is Err,
    ensures
        operators_of(rule, defs) == operators_of(rule, defs.take(i + 1)),
    decreases defs.len() - i,
{
    reveal_with_fuel(operators_of, 2);
    if i + 1 == defs.len() {
        assert(defs.take(i + 1) =~= defs);
    } else {
        assert(defs.take(i + 2).drop_last() =~= defs.take(i + 1));
        lemma_operators_of_err(rule, defs, i + 1);
    }
}

/// The view of what a build returned.
pub open spec fn compiled_view(r: Result<Operator, MatcherError>) -> Result<
    OperatorView,
    ErrorView,
> {
    match r {
        Ok(op) => Ok(op@),
        Err(e) => Err(e@),
    }
}

/// The view of what a build of an optional operator returned.
pub open spec fn compiled_optional_view(r: Result<Option<Operator>, MatcherError>) -> Result<
    Option<OperatorView>,
    ErrorView,
> {
    match r {
        Ok(op) => Ok(optional_view(op)),
        Err(e) => Err(e@),
    }
}

/// A builder of operators.
#[derive(Debug, Default)]
pub struct OperatorBuilder {
    accessor: AccessorBuilder,
}

impl OperatorBuilder {
    /// A new builder.
    pub fn new() -> OperatorBuilder {
        OperatorBuilder { accessor: AccessorBuilder::new() }
    }

    fn build_pair(&self, rule_name: &str, first: &Value, second: &Value) -> (r: Result<
        (Accessor, Accessor),
        MatcherError,
    >)
        ensures
            r is Ok <==> pair_of(rule_name@, first@, second@) is Ok,
            r matches Ok(p) ==> pair_of(rule_name@, first@, second@) == Ok::<
                (AccessorView, AccessorView),
                ErrorView,
            >((p.0@, p.1@)),
            r matches Err(e) ==> pair_of(rule_name@, first@, second@) == Err::<
                (AccessorView, AccessorView),
                ErrorView,
            >(e@),
    {
        let a = self.accessor.build_from_value(rule_name, first);
        match a {
            Ok(x) => {
                let b = self.accessor.build_from_value(rule_name, second);
                match b {
                    Ok(y) => Ok((x, y)),
                    Err(e) => Err(e),
                }
            },
            Err(e) => Err(e),
        }
    }

    #[verifier::loop_isolation(false)]
    fn build_all(&self, rule_name: &str, configs: &Vec<crate::config::Operator>) -> (r: Result<
        Vec<Operator>,
        MatcherError,
    >)
        ensures
            r is Ok <==> operators_of(rule_name@, operator_defs(configs@)) is Ok,
            r matches Ok(ops) ==> operators_of(rule_name@, operator_defs(configs@)) == Ok::<
                Seq<OperatorView>,
                ErrorView,
            >(operators_view(ops@)),
            r matches Err(e) ==> operators_of(rule_name@, operator_defs(configs@)) == Err::<
                Seq<OperatorView>,
                ErrorView,
            >(e@),
        decreases configs,
    {
        let ghost rule = rule_name@;
        let ghost dv = operator_defs(configs@);
        let mut out: Vec<Operator> = Vec::new();
        let mut i: usize = 0;
        assert(dv.take(0) =~= Seq::<OperatorDef>::empty());
        assert(operators_view(out@) =~= Seq::<OperatorView>::empty());
        while i < configs.len()
            invariant
                i <= configs@.len(),
                operators_of(rule, dv.take(i as int)) == Ok::<Seq<OperatorView>, ErrorView>(
                    operators_view(out@),
                ),
            decreases configs@.len() - i,
        {
            let ghost before = operators_view(out@);
            assert(dv.take(i + 1).drop_last() =~= dv.take(i as int));
            assert(dv.take(i + 1).last() == configs@[i as int]@);
            match self.build(rule_name, &configs[i]) {
                Ok(op) => {
                    out.push(op);
                    assert(operators_view(out@) =~= before.push(op@));
                },
                Err(e) => {
                    proof {
                        lemma_operators_of_err(rule, dv, i as int);
                    }
                    return Err(e);
                },
            }
            i = i + 1;
        }
        assert(dv.take(configs@.len() as int) =~= dv);
        Ok(out)
    }

    /// Compiles the condition `config` of the rule or filter `rule_name`.
    pub fn build(&self, rule_name: &str, config: &crate::config::Operator) -> (r: Result<
        Operator,
        MatcherError,
    >)
        ensures
            compiled_view(r) == operator_of(rule_name@, config@),
        decreases config,
    {
        match config {
            crate::config::Operator::And { operators } => {
                proof {
                    lemma_view_and(*operators);
                }
                match self.build_all(rule_name, operators) {
                    Ok(ops) => {
                        proof {
                            lemma_view_all(ops);
                        }
                        Ok(Operator::And { operators: ops })
                    },
                    Err(e) => Err(e),
                }
            },
            crate::config::Operator::Or { operators } => {
                proof {
                    lemma_view_or(*operators);
                }
                match self.build_all(rule_name, operators) {
                    Ok(ops) => {
                        proof {
                            lemma_view_all(ops);
                        }
                        Ok(Operator::Or { operators: ops })
                    },
                    Err(e) => Err(e),
                }
            },
            crate::config::Operator::Contain { first, second } => match self.build_pair(
                rule_name,
                first,
                second,
            ) {
                Ok((a, b)) => Ok(Operator::Contain { first: a, second: b }),
                Err(e) => Err(e),
            },
            crate::config::Operator::Equal { first, second } => match self.build_pair(
                rule_name,
                first,
                second,
            ) {
                Ok((a, b)) => Ok(Operator::Equal { first: a, second: b }),
                Err(e) => Err(e),
            },
            crate::config::Operator::GreaterEqualThan { first, second } => match self.build_pair(
                rule_name,
                first,
                second,
            ) {
                Ok((a, b)) => Ok(Operator::GreaterEqualThan { first: a, second: b }),
                Err(e) => Err(e),
            },
            crate::config::Operator::GreaterThan { first, second } => match self.build_pair(
                rule_name,
                first,
                second,
            ) {
                Ok((a, b)) => Ok(Operator::GreaterThan { first: a, second: b }),
                Err(e) => Err(e),
            },
            crate::config::Operator::LessEqualThan { first, second } => match self.build_pair(
                rule_name,
                first,
                second,
            ) {
                Ok((a, b)) => Ok(Operator::LessEqualThan { first: a, second: b }),
                Err(e) => Err(e),
            },
            crate::config::Operator::LessThan { first, second } => match self.build_pair(
                rule_name,
                first,
                second,
            ) {
                Ok((a, b)) => Ok(Operator::LessThan { first: a, second: b }),
                Err(e) => Err(e),
            },
            crate::config::Operator::Regex { regex, target } => {
                match self.accessor.build(rule_name, target.as_str()) {
                    Ok(t) => match Pattern::compile(regex.as_str()) {
                        Ok(p) => Ok(Operator::Regex { regex: p, target: t }),
                        Err(e) => Err(
                            MatcherError::InvalidRegex {
                                rule: String::from_str(rule_name),
                                regex: regex.clone(),
                                cause: error_text(&e),
                            },
                        ),
                    },
                    Err(e) => Err(e),
                }
            },
        }
    }

    /// Compiles a condition that may be absent.
    pub fn build_option(&self, rule_name: &str, config: &Option<crate::config::Operator>) -> (r:
        Result<Option<Operator>, MatcherError>)
        ensures
            compiled_optional_view(r) == optional_operator_of(
                rule_name@,
                crate::config::optional_def(*config),
            ),
    {
        match config {
            Some(c) => match self.build(rule_name, c) {
                Ok(op) => Ok(Some(op)),
                Err(e) => Err(e),
            },
            None => Ok(None),
        }
    }
}

} // verus!
