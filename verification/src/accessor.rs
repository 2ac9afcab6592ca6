//! Accessors: compiled expressions that read a value from an event and from
//! the variables extracted so far.
use crate::error::{ErrorView, MatcherError};
use crate::event::{event_value, Event, EventView};
use crate::number::{number_of, Number};
use crate::path::{
    can_render, is_quotable, keys_view, law_path_round_trip, parse_path, path_of, render_path,
    rendered_key, rendered_path, KeyView, PathKey,
};
use crate::text::{
    find, find_from, has_at, is_whitespace, join3, lemma_decimal_is_digits,
    lemma_find_from_bounds, occurs_at, range_is, slice_to_string, to_chars, trim, trim_bounds,
    trim_end, trim_start,
};
use crate::validator::{accessor_variable_message, is_identifier, IdValidator};
use crate::value::{
    clone_entries, clone_value, element_of, entries_view, field_of, get_entry, lemma_view_array,
    lemma_view_object, lookup, text_of, value_text, Value, ValueView,
};
use vstd::prelude::*;

verus! {

/// A compiled expression.
#[derive(Debug, PartialEq)]
pub enum Accessor {
    /// Always this value.
    Constant { value: Value },
    /// The whole event, as an object.
    Event,
    /// The event's type.
    Type,
    /// The time at which the event was made, in milliseconds.
    CreatedMs,
    /// The event's trace id.
    TraceId,
    /// What the payload holds along the path `keys`.
    Payload { keys: Vec<PathKey> },
    /// The extracted variable of this qualified name.
    ExtractedVar { key: String },
    /// The texts of the parts, joined.
    Interpolated { parts: Vec<Accessor> },
}

/// What an [`Accessor`] stands for.
pub enum AccessorView {
    Constant(ValueView),
    Event,
    Type,
    CreatedMs,
    TraceId,
    Payload(Seq<KeyView>),
    ExtractedVar(Seq<char>),
    Interpolated(Seq<AccessorView>),
}

/// What `a` stands for.
pub open spec fn accessor_view(a: Accessor) -> AccessorView
    decreases a,
{
    match a {
        Accessor::Constant { value } => AccessorView::Constant(value@),
        Accessor::Event => AccessorView::Event,
        Accessor::Type => AccessorView::Type,
        Accessor::CreatedMs => AccessorView::CreatedMs,
        Accessor::TraceId => AccessorView::TraceId,
        Accessor::Payload { keys } => AccessorView::Payload(keys_view(keys@)),
        Accessor::ExtractedVar { key } => AccessorView::ExtractedVar(key@),
        Accessor::Interpolated { parts } => AccessorView::Interpolated(
            Seq::new(
                parts@.len(),
                |i: int|
                    if 0 <= i < parts@.len() {
                        accessor_view(parts@[i])
                    } else {
                        AccessorView::Event
                    },
            ),
        ),
    }
}

impl View for Accessor {
    type V = AccessorView;

    open spec fn view(&self) -> AccessorView {
        accessor_view(*self)
    }
}

/// The views of a list of accessors.
pub open spec fn accessors_view(parts: Seq<Accessor>) -> Seq<AccessorView> {
    Seq::new(parts.len(), |i: int| parts[i]@)
}

/// The view of an interpolation is made of the views of its parts.
pub proof fn lemma_view_interpolated(parts: Vec<Accessor>)
    ensures
        (Accessor::Interpolated { parts })@ == AccessorView::Interpolated(accessors_view(parts@)),
{
    assert((Accessor::Interpolated { parts })@->Interpolated_0 =~= accessors_view(parts@));
}

/// One step down from `v`: into an object by a key, into an array by an
/// index.
pub open spec fn step(v: ValueView, key: KeyView) -> Option<ValueView> {
    match key {
        KeyView::Field(name) => field_of(v, name),
        KeyView::Index(index) => element_of(v, index as int),
    }
}

/// What is found from `v` along `keys`: nothing as soon as a step finds
/// nothing.
pub open spec fn follow(v: Option<ValueView>, keys: Seq<KeyView>) -> Option<ValueView>
    decreases keys.len(),
{
    if keys.len() == 0 {
        v
    } else {
        match v {
            Some(x) => follow(step(x, keys[0]), keys.drop_first()),
            None => None,
        }
    }
}

proof fn lemma_follow_none(keys: Seq<KeyView>)
    ensures
        follow(None, keys) is None,
{
}

/// What the accessor `a` yields for `event` and the variables `vars`.
pub open spec fn fetch(
    a: AccessorView,
    event: EventView,
    vars: Seq<(Seq<char>, ValueView)>,
) -> Option<ValueView>
    decreases a,
{
    match a {
        AccessorView::Constant(value) => Some(value),
        AccessorView::Event => Some(event_value(event)),
        AccessorView::Type => Some(ValueView::Text(event.event_type)),
        AccessorView::CreatedMs => Some(ValueView::Number(number_of(event.created_ms))),
        AccessorView::TraceId => Some(ValueView::Text(event.trace_id)),
        AccessorView::Payload(keys) => follow(Some(ValueView::Object(event.payload)), keys),
        AccessorView::ExtractedVar(key) => lookup(vars, key),
        AccessorView::Interpolated(parts) => match joined(parts, event, vars) {
            Some(text) => Some(ValueView::Text(text)),
            None => None,
        },
    }
}

/// The texts of what `parts` yield, joined in order; nothing where a part
/// yields nothing or yields an array or an object.
pub open spec fn joined(
    parts: Seq<AccessorView>,
    event: EventView,
    vars: Seq<(Seq<char>, ValueView)>,
) -> Option<Seq<char>>
    decreases parts,
{
    if parts.len() == 0 {
        Some(Seq::empty())
    } else {
        match joined(parts.drop_last(), event, vars) {
            Some(text) => match fetch(parts.last(), event, vars) {
                Some(v) => match text_of(v) {
                    Some(t) => Some(text + t),
                    None => None,
                },
                None => None,
            },
            None => None,
        }
    }
}

/// What an accessor found: a value of the event or of the variables, or a
/// value made for the occasion.
#[derive(Debug)]
pub enum Fetched<'a> {
    Borrowed(&'a Value),
    Owned(Value),
}

impl<'a> View for Fetched<'a> {
    type V = ValueView;

    open spec fn view(&self) -> ValueView {
        match self {
            Fetched::Borrowed(v) => v@,
            Fetched::Owned(v) => v@,
        }
    }
}

impl<'a> Fetched<'a> {
    /// The value found.
    pub fn value(&self) -> (v: &Value)
        ensures
            v@ == self@,
    {
        match self {
            Fetched::Borrowed(v) => v,
            Fetched::Owned(v) => v,
        }
    }

    /// The value found, as an owned value.
    pub fn into_value(self) -> (v: Value)
        ensures
            v@ == self@,
    {
        match self {
            Fetched::Borrowed(v) => clone_value(v),
            Fetched::Owned(v) => v,
        }
    }
}

/// The views of what was found, if anything.
pub open spec fn fetched_view(f: Option<Fetched>) -> Option<ValueView> {
    match f {
        Some(x) => Some(x@),
        None => None,
    }
}

fn step_into<'a>(v: &'a Value, key: &PathKey) -> (r: Option<&'a Value>)
    ensures
        r is Some <==> step(v@, key@) is Some,
        r matches Some(x) ==> step(v@, key@) == Some(x@),
{
    match key {
        PathKey::Field(name) => match v {
            Value::Object(entries) => {
                proof {
                    lemma_view_object(*entries);
                }
                get_entry(entries, name)
            },
            _ => None,
        },
        PathKey::Index(index) => match v {
            Value::Array(items) => {
                proof {
                    lemma_view_array(*items);
                }
                if *index < items.len() {
                    Some(&items[*index])
                } else {
                    None
                }
            },
            _ => None,
        },
    }
}

#[verifier::loop_isolation(false)]
fn follow_path<'a>(event: &'a Event, keys: &Vec<PathKey>) -> (r: Option<Fetched<'a>>)
    ensures
        fetched_view(r) == follow(Some(ValueView::Object(event@.payload)), keys_view(keys@)),
{
    let ghost kv = keys_view(keys@);
    if keys.len() == 0 {
        let payload = clone_entries(&event.payload);
        proof {
            lemma_view_object(payload);
        }
        return Some(Fetched::Owned(Value::Object(payload)));
    }
    let first: Option<&Value> = match &keys[0] {
        PathKey::Field(name) => get_entry(&event.payload, name),
        PathKey::Index(_) => None,
    };
    assert(kv[0] == keys@[0]@);
    let mut current: &Value = match first {
        Some(v) => v,
        None => {
            proof {
                lemma_follow_none(kv.drop_first());
            }
            return None;
        },
    };
    let mut i: usize = 1;
    assert(kv.drop_first() =~= kv.skip(1));
    while i < keys.len()
        invariant
            1 <= i <= keys@.len(),
            follow(Some(ValueView::Object(event@.payload)), kv) == follow(
                Some(current@),
                kv.skip(i as int),
            ),
        decreases keys@.len() - i,
    {
        assert(kv.skip(i as int)[0] == keys@[i as int]@);
        assert(kv.skip(i as int).drop_first() =~= kv.skip(i + 1));
        match step_into(current, &keys[i]) {
            Some(v) => {
                current = v;
            },
            None => {
                proof {
                    lemma_follow_none(kv.skip(i + 1));
                }
                return None;
            },
        }
        i = i + 1;
    }
    Some(Fetched::Borrowed(current))
}

impl Accessor {
    /// What the accessor yields for `event` and the variables `vars`.
    #[verifier::loop_isolation(false)]
    pub fn get<'a>(&'a self, event: &'a Event, vars: &'a Vec<(String, Value)>) -> (r: Option<
        Fetched<'a>,
    >)
        ensures
            fetched_view(r) == fetch(self@, event@, entries_view(vars@)),
        decreases self,
    {
        match self {
            Accessor::Constant { value } => Some(Fetched::Borrowed(value)),
            Accessor::Event => Some(Fetched::Owned(event.to_value())),
            Accessor::Type => Some(Fetched::Owned(Value::Text(event.event_type.clone()))),
            Accessor::CreatedMs => Some(
                Fetched::Owned(Value::Number(Number::from_u64(event.created_ms))),
            ),
            Accessor::TraceId => Some(Fetched::Owned(Value::Text(event.trace_id.clone()))),
            Accessor::Payload { keys } => follow_path(event, keys),
            Accessor::ExtractedVar { key } => match get_entry(vars, key) {
                Some(v) => Some(Fetched::Borrowed(v)),
                None => None,
            },
            Accessor::Interpolated { parts } => {
                proof {
                    lemma_view_interpolated(*parts);
                    reveal_with_fuel(fetch, 2);
                }
                let ghost pv = accessors_view(parts@);
                let ghost ev = event@;
                let ghost vv = entries_view(vars@);
                let mut text = String::new();
                let mut i: usize = 0;
                assert(pv.take(0) =~= Seq::<AccessorView>::empty());
                while i < parts.len()
                    invariant
                        i <= parts@.len(),
                        joined(pv.take(i as int), ev, vv) == Some(text@),
                    decreases parts@.len() - i,
                {
                    assert(pv.take(i + 1).drop_last() =~= pv.take(i as int));
                    assert(pv.take(i + 1).last() == parts@[i as int]@);
                    let piece: Option<String> = match parts[i].get(event, vars) {
                        Some(found) => value_text(found.value()),
                        None => None,
                    };
                    match piece {
                        Some(t) => {
                            text.append(t.as_str());
                        },
                        None => {
                            proof {
                                lemma_joined_none(pv, i as int, ev, vv);
                            }
                            return None;
                        },
                    }
                    i = i + 1;
                }
                assert(pv.take(parts@.len() as int) =~= pv);
                Some(Fetched::Owned(Value::Text(text)))
            },
        }
    }
}

/// Once a part yields no text, the whole yields none.
pub proof fn lemma_joined_none(
    parts: Seq<AccessorView>,
    i: int,
    event: EventView,
    vars: Seq<(Seq<char>, ValueView)>,
)
    requires
        0 <= i < parts.len(),
        joined(parts.take(i + 1), event, vars) is None,
    ensures
        joined(parts, event, vars) is None,
    decreases parts.len() - i,
{
    if i + 1 == parts.len() {
        assert(parts.take(i + 1) =~= parts);
    } else {
        assert(parts.take(i + 2).drop_last() =~= parts.take(i + 1));
        lemma_joined_none(parts, i + 1, event, vars);
    }
}

/// The mark that opens an expression in a template.
pub open spec fn open_mark() -> Seq<char> {
    seq!['$', '{']
}

/// The mark that closes an expression in a template.
pub open spec fn close_mark() -> Seq<char> {
    seq!['}']
}

/// Whether `x` reads the payload: `event.payload`, alone or followed by a
/// dot or an opening bracket.
pub open spec fn is_payload_expression(x: Seq<char>) -> bool {
    let p = "event.payload"@;
    occurs_at(x, 0, p) && (x.len() == p.len() || x[p.len() as int] == '.' || x[p.len() as int]
        == '[')
}

/// The message that refuses the path `key` of the accessor `accessor` of
/// the rule `rule`.
pub open spec fn invalid_path_message(key: Seq<char>, accessor: Seq<char>, rule: Seq<char>) -> Seq<
    char,
> {
    "Payload key ["@ + key + "] from accessor ["@ + accessor + "] for rule ["@ + rule
        + "] is not valid"@
}

/// The accessor that the expression `x` names, `x` being what stands between
/// the marks, trimmed; `whole` is the expression with its marks and `rule`
/// the name of the rule or filter that holds it.
pub open spec fn expression_accessor(rule: Seq<char>, x: Seq<char>, whole: Seq<char>) -> Result<
    AccessorView,
    ErrorView,
> {
    if x == "event"@ {
        Ok(AccessorView::Event)
    } else if x == "event.type"@ {
        Ok(AccessorView::Type)
    } else if x == "event.created_ms"@ {
        Ok(AccessorView::CreatedMs)
    } else if x == "event.metadata.trace_id"@ {
        Ok(AccessorView::TraceId)
    } else if is_payload_expression(x) {
        let key = x.subrange("event.payload"@.len() as int, x.len() as int);
        match path_of(key) {
            Some(keys) => Ok(AccessorView::Payload(keys)),
            None => Err(
                ErrorView::NotValidIdOrName { message: invalid_path_message(key, whole, rule) },
            ),
        }
    } else if occurs_at(x, 0, "_variables."@) {
        let id = trim(x.subrange("_variables."@.len() as int, x.len() as int));
        if is_identifier(id) {
            Ok(AccessorView::ExtractedVar(rule + "."@ + id))
        } else {
            Err(
                ErrorView::NotValidIdOrName {
                    message: accessor_variable_message(id, whole, rule),
                },
            )
        }
    } else {
        Err(ErrorView::UnknownAccessor { accessor: whole })
    }
}

/// Whether `t` is one expression between its marks and nothing else.
pub open spec fn is_single_expression(t: Seq<char>) -> bool {
    occurs_at(t, 0, open_mark()) && find_from(t, 2, close_mark()) == t.len() - 1
}

/// Whether `s` holds an expression: an opening mark with a closing mark
/// somewhere after it.
pub open spec fn has_placeholder(s: Seq<char>) -> bool {
    let o = find_from(s, 0, open_mark());
    o < s.len() && find_from(s, o + 2, close_mark()) < s.len()
}

/// `parts` put before the accessors of `rest`.
pub open spec fn parts_then(
    parts: Seq<AccessorView>,
    rest: Result<Seq<AccessorView>, ErrorView>,
) -> Result<Seq<AccessorView>, ErrorView> {
    match rest {
        Ok(more) => Ok(parts + more),
        Err(e) => Err(e),
    }
}

/// The parts of the template `s` from position `from` on: the text before
/// an expression as a constant, the expression as its accessor, and so on;
/// an opening mark that is never closed is text. The first expression that
/// names nothing known fails the whole.
pub open spec fn template_accessors(rule: Seq<char>, s: Seq<char>, from: int) -> Result<
    Seq<AccessorView>,
    ErrorView,
>
    decreases s.len() - from,
{
    if from < 0 || from >= s.len() {
        Ok(Seq::empty())
    } else {
        let o = find_from(s, from, open_mark());
        let c = find_from(s, o + 2, close_mark());
        if o >= s.len() || c >= s.len() || o < from || c < o + 2 {
            Ok(seq![AccessorView::Constant(ValueView::Text(s.subrange(from, s.len() as int)))])
        } else {
            let lead = if o > from {
                seq![AccessorView::Constant(ValueView::Text(s.subrange(from, o)))]
            } else {
                Seq::empty()
            };
            match expression_accessor(rule, trim(s.subrange(o + 2, c)), s.subrange(o, c + 1)) {
                Ok(a) => parts_then(lead.push(a), template_accessors(rule, s, c + 1)),
                Err(e) => Err(e),
            }
        }
    }
}

/// The accessor that `input` compiles to for the rule or filter `rule`.
///
/// An input that is, once trimmed, one expression between `${` and `}` is
/// that expression's accessor. An input that holds expressions among other
/// text is an interpolation of its parts. Any other input is the constant
/// text `input`, untrimmed.
pub open spec fn accessor_of(rule: Seq<char>, input: Seq<char>) -> Result<AccessorView, ErrorView> {
    let t = trim(input);
    if is_single_expression(t) {
        expression_accessor(rule, trim(t.subrange(2, t.len() - 1)), t)
    } else if !has_placeholder(input) {
        Ok(AccessorView::Constant(ValueView::Text(input)))
    } else {
        match template_accessors(rule, input, 0) {
            Ok(parts) => Ok(AccessorView::Interpolated(parts)),
            Err(e) => Err(e),
        }
    }
}

/// The accessor that a value of a configuration compiles to: a text as
/// [`accessor_of`] says, any other value as a constant.
pub open spec fn accessor_of_value(rule: Seq<char>, value: ValueView) -> Result<
    AccessorView,
    ErrorView,
> {
    match value {
        ValueView::Text(input) => accessor_of(rule, input),
        _ => Ok(AccessorView::Constant(value)),
    }
}

/// The view of what a build returned.
pub open spec fn built_view(r: Result<Accessor, MatcherError>) -> Result<AccessorView, ErrorView> {
    match r {
        Ok(a) => Ok(a@),
        Err(e) => Err(e@),
    }
}

/// What trimming leaves of `s`.
pub fn trimmed(s: &str) -> (t: &str)
    ensures
        t@ == trim(s@),
{
    let chars = to_chars(s);
    let (lo, hi) = trim_bounds(&chars, 0, chars.len());
    assert(chars@.subrange(0, chars@.len() as int) =~= chars@);
    s.substring_char(lo, hi)
}

fn is_text(chars: &Vec<char>, lit: &str) -> (b: bool)
    ensures
        b == (chars@ == lit@),
{
    let l = to_chars(lit);
    assert(chars@.subrange(0, chars@.len() as int) =~= chars@);
    range_is(chars, 0, chars.len(), &l)
}

/// A builder of accessors.
#[derive(Debug, Default)]
pub struct AccessorBuilder {
    id_validator: IdValidator,
}

impl AccessorBuilder {
    /// A new builder.
    pub fn new() -> AccessorBuilder {
        AccessorBuilder { id_validator: IdValidator::new() }
    }

    /// Reads the path `key` into a payload. `full_accessor` and `rule_name`
    /// say where the path stands, for the message of the error.
    pub fn parse_event_key(&self, key: &str, full_accessor: &str, rule_name: &str) -> (r: Result<
        Vec<PathKey>,
        MatcherError,
    >)
        ensures
            r is Ok <==> path_of(key@) is Some,
            r matches Ok(keys) ==> path_of(key@) == Some(keys_view(keys@)),
            r matches Err(e) ==> e@ == (ErrorView::NotValidIdOrName {
                message: invalid_path_message(key@, full_accessor@, rule_name@),
            }),
    {
        match parse_path(key) {
            Some(keys) => Ok(keys),
            None => {
                let mut message = join3("Payload key [", key, "] from accessor [");
                message.append(full_accessor);
                message.append("] for rule [");
                message.append(rule_name);
                message.append("] is not valid");
                Err(MatcherError::NotValidIdOrName { message })
            },
        }
    }

    /// The accessor that the expression `x` names.
    fn build_expression(&self, rule_name: &str, x: &str, whole: &str) -> (r: Result<
        Accessor,
        MatcherError,
    >)
        ensures
            built_view(r) == expression_accessor(rule_name@, x@, whole@),
    {
        let xc = to_chars(x);
        let payload = to_chars("event.payload");
        let variables = to_chars("_variables.");
        if is_text(&xc, "event") {
            Ok(Accessor::Event)
        } else if is_text(&xc, "event.type") {
            Ok(Accessor::Type)
        } else if is_text(&xc, "event.created_ms") {
            Ok(Accessor::CreatedMs)
        } else if is_text(&xc, "event.metadata.trace_id") {
            Ok(Accessor::TraceId)
        } else if has_at(&xc, 0, &payload) && (xc.len() == payload.len() || xc[payload.len()]
            == '.' || xc[payload.len()] == '[') {
            let path = x.substring_char(payload.len(), xc.len());
            match self.parse_event_key(path, whole, rule_name) {
                Ok(keys) => Ok(Accessor::Payload { keys }),
                Err(e) => Err(e),
            }
        } else if has_at(&xc, 0, &variables) {
            let (lo, hi) = trim_bounds(&xc, variables.len(), xc.len());
            let id = x.substring_char(lo, hi);
            match self.id_validator.validate_extracted_var_from_accessor(id, whole, rule_name) {
                Ok(()) => Ok(Accessor::ExtractedVar { key: join3(rule_name, ".", id) }),
                Err(e) => Err(e),
            }
        } else {
            Err(MatcherError::UnknownAccessor { accessor: String::from_str(whole) })
        }
    }

    /// The parts of the template `input`.
    fn build_template(&self, rule_name: &str, input: &str) -> (r: Result<
        Vec<Accessor>,
        MatcherError,
    >)
        ensures
            r is Ok <==> template_accessors(rule_name@, input@, 0) is Ok,
            r matches Ok(parts) ==> template_accessors(rule_name@, input@, 0) == Ok::<
                Seq<AccessorView>,
                ErrorView,
            >(accessors_view(parts@)),
            r matches Err(e) ==> template_accessors(rule_name@, input@, 0) == Err::<
                Seq<AccessorView>,
                ErrorView,
            >(e@),
    {
        let chars = to_chars(input);
        let open = to_chars("${");
        let close = to_chars("}");
        proof {
            reveal_strlit("${");
            reveal_strlit("}");
            assert(open@ =~= open_mark());
            assert(close@ =~= close_mark());
        }
        let n = chars.len();
        let ghost s = chars@;
        let ghost rule = rule_name@;
        let mut parts: Vec<Accessor> = Vec::new();
        let mut from: usize = 0;
        assert(accessors_view(parts@) =~= Seq::<AccessorView>::empty());
        proof {
            match template_accessors(rule, s, 0) {
                Ok(more) => {
                    assert(Seq::<AccessorView>::empty() + more =~= more);
                },
                Err(_) => {},
            }
        }
        while from < n
            invariant
                s == chars@,
                s == input@,
                n == s.len(),
                rule == rule_name@,
                open@ == open_mark(),
                close@ == close_mark(),
                from <= n,
                template_accessors(rule, s, 0) == parts_then(
                    accessors_view(parts@),
                    template_accessors(rule, s, from as int),
                ),
            decreases n - from,
        {
            let ghost before = accessors_view(parts@);
            let o = find(&chars, from, &open);
            proof {
                lemma_find_from_bounds(s, from as int, open_mark());
            }
            let c = if o < n {
                find(&chars, o + 2, &close)
            } else {
                n
            };
            proof {
                if o < n {
                    lemma_find_from_bounds(s, o + 2, close_mark());
                }
            }
            if o >= n || c >= n {
                parts.push(Accessor::Constant { value: Value::Text(slice_to_string(input, from, n)) });
                proof {
                    let last = AccessorView::Constant(ValueView::Text(s.subrange(from as int, n as int)));
                    assert(accessors_view(parts@) =~= before + seq![last]);
                    assert(accessors_view(parts@) + Seq::<AccessorView>::empty() =~= accessors_view(
                        parts@,
                    ));
                }
                from = n;
            } else {
                let ghost lead = if o > from {
                    seq![AccessorView::Constant(ValueView::Text(s.subrange(from as int, o as int)))]
                } else {
                    Seq::empty()
                };
                if o > from {
                    parts.push(
                        Accessor::Constant { value: Value::Text(slice_to_string(input, from, o)) },
                    );
                }
                assert(accessors_view(parts@) =~= before + lead);
                let inner = trimmed(input.substring_char(o + 2, c));
                let whole = input.substring_char(o, c + 1);
                match self.build_expression(rule_name, inner, whole) {
                    Ok(a) => {
                        parts.push(a);
                        proof {
                            match template_accessors(rule, s, c + 1) {
                                Ok(more) => {
                                    assert(before + (lead.push(a@) + more) =~= accessors_view(
                                        parts@,
                                    ) + more);
                                },
                                Err(_) => {},
                            }
                        }
                    },
                    Err(e) => {
                        return Err(e);
                    },
                }
                from = c + 1;
            }
        }
        proof {
            assert(accessors_view(parts@) + Seq::<AccessorView>::empty() =~= accessors_view(parts@));
        }
        Ok(parts)
    }

    /// Compiles `input` for the rule or filter `rule_name`: `${event.type}`
    /// reads the event's type, `${event.payload.body}` the entry `body` of
    /// the payload, `${_variables.x}` the variable `x` of the rule, a text
    /// with such expressions among other text is their interpolation, and any
    /// other text stands for itself.
    pub fn build(&self, rule_name: &str, input: &str) -> (r: Result<Accessor, MatcherError>)
        ensures
            built_view(r) == accessor_of(rule_name@, input@),
    {
        let open = to_chars("${");
        let close = to_chars("}");
        proof {
            reveal_strlit("${");
            reveal_strlit("}");
            assert(open@ =~= open_mark());
            assert(close@ =~= close_mark());
        }
        let t = trimmed(input);
        let tc = to_chars(t);
        if has_at(&tc, 0, &open) && find(&tc, 2, &close) == tc.len() - 1 {
            let inner = trimmed(t.substring_char(2, tc.len() - 1));
            return self.build_expression(rule_name, inner, t);
        }
        let chars = to_chars(input);
        let o = find(&chars, 0, &open);
        proof {
            lemma_find_from_bounds(chars@, 0, open_mark());
        }
        if o >= chars.len() || find(&chars, o + 2, &close) >= chars.len() {
            return Ok(Accessor::Constant { value: Value::Text(String::from_str(input)) });
        }
        match self.build_template(rule_name, input) {
            Ok(parts) => {
                proof {
                    lemma_view_interpolated(parts);
                }
                Ok(Accessor::Interpolated { parts })
            },
            Err(e) => Err(e),
        }
    }

    /// Compiles a value of a configuration: a text as [`Self::build`] does,
    /// any other value as a constant.
    pub fn build_from_value(&self, rule_name: &str, value: &Value) -> (r: Result<
        Accessor,
        MatcherError,
    >)
        ensures
            built_view(r) == accessor_of_value(rule_name@, value@),
    {
        match value {
            Value::Text(input) => self.build(rule_name, input.as_str()),
            _ => Ok(Accessor::Constant { value: clone_value(value) }),
        }
    }
}

/// The expression that reads the payload along `keys`, in its canonical
/// form: `${event.payload`, the keys as a path, and `}`.
pub open spec fn payload_expression(keys: Seq<KeyView>) -> Seq<char> {
    open_mark() + "event.payload"@ + rendered_path(keys) + close_mark()
}

/// Whether the names among `keys` can stand in an expression: none holds a
/// double quote or a closing brace.
pub open spec fn can_express(keys: Seq<KeyView>) -> bool {
    &&& can_render(keys)
    &&& forall|i: int|
        0 <= i < keys.len() ==> ((#[trigger] keys[i]) matches KeyView::Field(name) ==> forall|
            k: int,
        | 0 <= k < name.len() ==> (#[trigger] name[k]) != '}')
}

/// Writes the expression that reads the payload along `keys`.
pub fn write_payload_expression(keys: &Vec<PathKey>) -> (out: String)
    ensures
        out@ == payload_expression(keys_view(keys@)),
{
    proof {
        reveal_strlit("${");
        reveal_strlit("}");
        assert("${"@ =~= open_mark());
        assert("}"@ =~= close_mark());
    }
    let mut out = String::from_str("${");
    out.append("event.payload");
    let path = render_path(keys);
    out.append(path.as_str());
    out.append("}");
    out
}

proof fn lemma_find_close(s: Seq<char>, from: int, at: int)
    requires
        0 <= from <= at < s.len(),
        s[at] == '}',
        forall|k: int| from <= k < at ==> (#[trigger] s[k]) != '}',
    ensures
        find_from(s, from, close_mark()) == at,
    decreases at - from,
{
    if from < at {
        assert(!occurs_at(s, from, close_mark())) by {
            if occurs_at(s, from, close_mark()) {
                assert(s.subrange(from, from + 1)[0] == close_mark()[0]);
            }
        }
        lemma_find_close(s, from + 1, at);
    } else {
        assert(s.subrange(at, at + 1) =~= close_mark());
    }
}

proof fn lemma_rendered_path_chars(keys: Seq<KeyView>)
    requires
        can_express(keys),
    ensures
        forall|k: int| 0 <= k < rendered_path(keys).len() ==> (#[trigger] rendered_path(keys)[k])
            != '}',
        keys.len() > 0 ==> rendered_path(keys).len() > 0 && !is_whitespace(
            rendered_path(keys).last(),
        ) && (rendered_path(keys)[0] == '.' || rendered_path(keys)[0] == '['),
    decreases keys.len(),
{
    if keys.len() > 0 {
        let tail = keys.drop_first();
        assert(can_express(tail)) by {
            assert forall|i: int| 0 <= i < tail.len() implies ((
            #[trigger] tail[i]) matches KeyView::Field(name) ==> is_quotable(name) && forall|
                k: int,
            | 0 <= k < name.len() ==> (#[trigger] name[k]) != '}') by {
                assert(tail[i] == keys[i + 1]);
            }
        }
        lemma_rendered_path_chars(tail);
        let head = rendered_key(keys[0]);
        let rest = rendered_path(tail);
        match keys[0] {
            KeyView::Field(name) => {
                if crate::validator::is_identifier(name) {
                    assert(head =~= seq!['.'] + name);
                    assert forall|k: int| 0 <= k < head.len() implies (#[trigger] head[k])
                        != '}' by {
                        if k > 0 {
                            assert(head[k] == name[k - 1]);
                        }
                    }
                    assert(crate::validator::is_id_char(name.last()));
                    assert(head.last() == name.last());
                } else {
                    assert(head =~= seq!['.', '"'] + name + seq!['"']);
                    assert forall|k: int| 0 <= k < head.len() implies (#[trigger] head[k])
                        != '}' by {
                        if 2 <= k < 2 + name.len() {
                            assert(head[k] == name[k - 2]);
                        }
                    }
                    assert(head.last() == '"');
                }
            },
            KeyView::Index(index) => {
                let digits = crate::text::decimal(index as nat);
                lemma_decimal_is_digits(index as nat);
                assert(head =~= seq!['['] + digits + seq![']']);
                assert forall|k: int| 0 <= k < head.len() implies (#[trigger] head[k]) != '}' by {
                    if 1 <= k < 1 + digits.len() {
                        assert(head[k] == digits[k - 1]);
                    }
                }
                assert(head.last() == ']');
            },
        }
        assert forall|k: int| 0 <= k < rendered_path(keys).len() implies (
        #[trigger] rendered_path(keys)[k]) != '}' by {
            if k < head.len() {
                assert(rendered_path(keys)[k] == head[k]);
            } else {
                assert(rendered_path(keys)[k] == rest[k - head.len()]);
            }
        }
        if tail.len() > 0 {
            assert(rendered_path(keys).last() == rest.last());
        } else {
            assert(rendered_path(keys) =~= head);
        }
        assert(rendered_path(keys)[0] == head[0]);
    }
}

/// Compiling the canonical expression of a payload accessor gives the
/// accessor back: for every list of keys whose names hold no double quote
/// and no closing brace, and for every rule.
pub proof fn law_accessor_round_trip(rule: Seq<char>, keys: Seq<KeyView>)
    requires
        can_express(keys),
    ensures
        accessor_of(rule, payload_expression(keys)) == Ok::<AccessorView, ErrorView>(
            AccessorView::Payload(keys),
        ),
{
    let p = "event.payload"@;
    let path = rendered_path(keys);
    let x = p + path;
    let t = payload_expression(keys);
    reveal_strlit("event.payload");
    reveal_strlit("event");
    reveal_strlit("event.type");
    reveal_strlit("event.created_ms");
    reveal_strlit("event.metadata.trace_id");
    lemma_rendered_path_chars(keys);
    law_path_round_trip(keys);
    assert(t =~= open_mark() + x + close_mark());
    assert(t.len() == x.len() + 3);
    assert(t[0] == '$' && t[1] == '{' && t[t.len() - 1] == '}');
    // Trimming leaves the expression and what is in it as they are.
    assert(trim_start(t) == t);
    assert(trim_end(t) == t);
    assert(x[0] == 'e');
    assert(!is_whitespace(x.last())) by {
        if keys.len() > 0 {
            assert(x.last() == path.last());
        } else {
            assert(x =~= p);
        }
    }
    assert(trim_start(x) == x);
    assert(trim_end(x) == x);
    // The closing mark is the last character.
    assert forall|k: int| 2 <= k < t.len() - 1 implies (#[trigger] t[k]) != '}' by {
        assert(t[k] == x[k - 2]);
        if k - 2 < p.len() {
            assert(x[k - 2] == p[k - 2]);
        } else {
            assert(x[k - 2] == path[k - 2 - p.len()]);
        }
    }
    lemma_find_close(t, 2, t.len() - 1);
    assert(t.subrange(0, 2) =~= open_mark());
    assert(is_single_expression(t));
    assert(t.subrange(2, t.len() - 1) =~= x);
    // The expression reads the payload.
    assert(x.subrange(0, p.len() as int) =~= p);
    assert(x[5] == '.' && x[6] == 'p');
    assert(x != "event"@);
    assert(x != "event.type"@) by {
        assert("event.type"@[6] == 't');
    }
    assert(x != "event.created_ms"@) by {
        assert("event.created_ms"@[6] == 'c');
    }
    assert(x != "event.metadata.trace_id"@) by {
        assert("event.metadata.trace_id"@[6] == 'm');
    }
    assert(is_payload_expression(x)) by {
        if keys.len() > 0 {
            assert(x[p.len() as int] == path[0]);
        }
    }
    assert(x.subrange(p.len() as int, x.len() as int) =~= path);
}

} // verus!
