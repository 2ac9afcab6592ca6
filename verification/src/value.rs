//! Dynamically typed values: what an event's payload holds and what an
//! accessor yields.
//!
//! An object keeps its entries in the order in which they were given. A key
//! is looked up by its first entry, so an object reads as a mapping.
use crate::number::{number_equal, Number, NumberView};
use vstd::prelude::*;
use vstd::std_specs::cmp::PartialEqSpecImpl;

verus! {

/// A value of an event's payload.
#[derive(Debug)]
pub enum Value {
    Null,
    Bool(bool),
    Number(Number),
    Text(String),
    Array(Vec<Value>),
    Object(Vec<(String, Value)>),
}

/// What a [`Value`] stands for.
pub enum ValueView {
    Null,
    Bool(bool),
    Number(NumberView),
    Text(Seq<char>),
    Array(Seq<ValueView>),
    Object(Seq<(Seq<char>, ValueView)>),
}

/// What `v` stands for.
pub open spec fn value_view(v: Value) -> ValueView
    decreases v,
{
    match v {
        Value::Null => ValueView::Null,
        Value::Bool(b) => ValueView::Bool(b),
        Value::Number(n) => ValueView::Number(n@),
        Value::Text(s) => ValueView::Text(s@),
        Value::Array(items) => ValueView::Array(
            Seq::new(
                items@.len(),
                |i: int|
                    if 0 <= i < items@.len() {
                        value_view(items@[i])
                    } else {
                        ValueView::Null
                    },
            ),
        ),
        Value::Object(entries) => ValueView::Object(
            Seq::new(
                entries@.len(),
                |i: int|
                    if 0 <= i < entries@.len() {
                        (entries@[i].0@, value_view(entries@[i].1))
                    } else {
                        (Seq::empty(), ValueView::Null)
                    },
            ),
        ),
    }
}

impl View for Value {
    type V = ValueView;

    open spec fn view(&self) -> ValueView {
        value_view(*self)
    }
}

/// The views of a sequence of values.
pub open spec fn values_view(items: Seq<Value>) -> Seq<ValueView> {
    Seq::new(items.len(), |i: int| items[i]@)
}

/// The views of a sequence of entries.
pub open spec fn entries_view(entries: Seq<(String, Value)>) -> Seq<(Seq<char>, ValueView)> {
    Seq::new(entries.len(), |i: int| (entries[i].0@, entries[i].1@))
}

/// The view of an array is made of the views of its items.
pub proof fn lemma_view_array(items: Vec<Value>)
    ensures
        Value::Array(items)@ == ValueView::Array(values_view(items@)),
{
    assert(Value::Array(items)@->Array_0 =~= values_view(items@));
}

/// The view of an object is made of the views of its entries.
pub proof fn lemma_view_object(entries: Vec<(String, Value)>)
    ensures
        Value::Object(entries)@ == ValueView::Object(entries_view(entries@)),
{
    assert(Value::Object(entries)@->Object_0 =~= entries_view(entries@));
}

/// The index of the first entry at or after `from` whose key is `key`, or
/// the number of entries where there is none.
pub open spec fn first_index(entries: Seq<(Seq<char>, ValueView)>, key: Seq<char>, from: int) -> int
    decreases entries.len() - from,
{
    if from < 0 || from >= entries.len() {
        entries.len() as int
    } else if entries[from].0 == key {
        from
    } else {
        first_index(entries, key, from + 1)
    }
}

/// What `first_index` gives lies between `from` and the number of
/// entries; the entry there has the key, and none before it from `from` on
/// has.
pub proof fn lemma_first_index(entries: Seq<(Seq<char>, ValueView)>, key: Seq<char>, from: int)
    requires
        0 <= from <= entries.len(),
    ensures
        from <= first_index(entries, key, from) <= entries.len(),
        first_index(entries, key, from) < entries.len() ==> entries[first_index(
            entries,
            key,
            from,
        )].0 == key,
        forall|i: int| from <= i < first_index(entries, key, from) ==> entries[i].0 != key,
    decreases entries.len() - from,
{
    if from < entries.len() && entries[from].0 != key {
        lemma_first_index(entries, key, from + 1);
    }
}

/// Whether some entry has the key.
pub open spec fn has_key(entries: Seq<(Seq<char>, ValueView)>, key: Seq<char>) -> bool {
    first_index(entries, key, 0) < entries.len()
}

/// The value under `key`: that of the first entry with this key.
pub open spec fn lookup(entries: Seq<(Seq<char>, ValueView)>, key: Seq<char>) -> Option<ValueView> {
    if has_key(entries, key) {
        Some(entries[first_index(entries, key, 0)].1)
    } else {
        None
    }
}

/// The entries with `value` under `key`: the first entry with this key is
/// replaced, and where there is none a new entry is added at the end.
pub open spec fn with_entry(
    entries: Seq<(Seq<char>, ValueView)>,
    key: Seq<char>,
    value: ValueView,
) -> Seq<(Seq<char>, ValueView)> {
    if has_key(entries, key) {
        entries.update(first_index(entries, key, 0), (key, value))
    } else {
        entries.push((key, value))
    }
}

/// The child of an object under `key`; nothing has a child but an object.
pub open spec fn field_of(v: ValueView, key: Seq<char>) -> Option<ValueView> {
    match v {
        ValueView::Object(entries) => lookup(entries, key),
        _ => None,
    }
}

/// The element of an array at `index`; nothing has elements but an array.
pub open spec fn element_of(v: ValueView, index: int) -> Option<ValueView> {
    match v {
        ValueView::Array(items) => if 0 <= index < items.len() {
            Some(items[index])
        } else {
            None
        },
        _ => None,
    }
}

/// The text that stands for a value in a template: a text as it is, a
/// number by its decimal text, a boolean as `true` or `false`, null as
/// `null`. An array or an object has none.
pub open spec fn text_of(v: ValueView) -> Option<Seq<char>> {
    match v {
        ValueView::Null => Some("null"@),
        ValueView::Bool(b) => Some(
            if b {
                "true"@
            } else {
                "false"@
            },
        ),
        ValueView::Number(n) => Some(n.text),
        ValueView::Text(s) => Some(s),
        ValueView::Array(_) => None,
        ValueView::Object(_) => None,
    }
}

/// Equality of values. Numbers are equal as doubles are. Arrays are equal
/// element by element. Objects are equal where they have the same keys and
/// equal values under each key. Values of different kinds are never equal.
pub open spec fn values_equal(a: ValueView, b: ValueView) -> bool
    decreases a,
{
    match a {
        ValueView::Null => b is Null,
        ValueView::Bool(x) => b is Bool && b->Bool_0 == x,
        ValueView::Number(x) => b is Number && number_equal(x.bits, b->Number_0.bits),
        ValueView::Text(x) => b is Text && b->Text_0 == x,
        ValueView::Array(x) => {
            &&& b is Array
            &&& x.len() == b->Array_0.len()
            &&& forall|i: int| 0 <= i < x.len() ==> values_equal(#[trigger] x[i], b->Array_0[i])
        },
        ValueView::Object(x) => b is Object && objects_equal(x, b->Object_0),
    }
}

/// Equality of objects: every key of one is a key of the other, and the
/// values that the two have under a key are equal.
pub open spec fn objects_equal(
    x: Seq<(Seq<char>, ValueView)>,
    y: Seq<(Seq<char>, ValueView)>,
) -> bool
    decreases x,
{
    &&& forall|i: int|
        0 <= i < x.len() ==> {
            let j = first_index(y, (#[trigger] x[i]).0, 0);
            j < y.len() && (first_index(x, x[i].0, 0) == i ==> values_equal(x[i].1, y[j].1))
        }
    &&& forall|j: int| 0 <= j < y.len() ==> has_key(x, (#[trigger] y[j]).0)
}

/// A copy of `v`.
#[verifier::loop_isolation(false)]
pub fn clone_value(v: &Value) -> (r: Value)
    ensures
        r@ == v@,
    decreases v,
{
    match v {
        Value::Null => Value::Null,
        Value::Bool(b) => Value::Bool(*b),
        Value::Number(n) => Value::Number(n.duplicate()),
        Value::Text(s) => Value::Text(s.clone()),
        Value::Array(items) => {
            let mut out: Vec<Value> = Vec::new();
            let mut i: usize = 0;
            while i < items.len()
                invariant
                    i <= items@.len(),
                    out@.len() == i,
                    forall|k: int| 0 <= k < i ==> out@[k]@ == items@[k]@,
                decreases items@.len() - i,
            {
                out.push(clone_value(&items[i]));
                i = i + 1;
            }
            proof {
                lemma_view_array(*items);
                lemma_view_array(out);
                assert(values_view(out@) =~= values_view(items@));
            }
            Value::Array(out)
        },
        Value::Object(entries) => {
            let out = clone_entries(entries);
            proof {
                lemma_view_object(*entries);
                lemma_view_object(out);
            }
            Value::Object(out)
        },
    }
}

/// A copy of `entries`.
#[verifier::loop_isolation(false)]
pub fn clone_entries(entries: &Vec<(String, Value)>) -> (out: Vec<(String, Value)>)
    ensures
        entries_view(out@) == entries_view(entries@),
    decreases entries,
{
    let mut out: Vec<(String, Value)> = Vec::new();
    let mut i: usize = 0;
    while i < entries.len()
        invariant
            i <= entries@.len(),
            out@.len() == i,
            forall|k: int|
                0 <= k < i ==> out@[k].0@ == entries@[k].0@ && out@[k].1@ == entries@[k].1@,
        decreases entries@.len() - i,
    {
        out.push((entries[i].0.clone(), clone_value(&entries[i].1)));
        i = i + 1;
    }
    assert(entries_view(out@) =~= entries_view(entries@));
    out
}

/// Finds the first entry whose key is `key`.
pub fn find_entry(entries: &Vec<(String, Value)>, key: &String) -> (r: Option<usize>)
    ensures
        r is Some <==> has_key(entries_view(entries@), key@),
        r matches Some(i) ==> i == first_index(entries_view(entries@), key@, 0) && i
            < entries@.len(),
{
    let ghost ev = entries_view(entries@);
    let mut i: usize = 0;
    while i < entries.len()
        invariant
            i <= entries@.len(),
            ev == entries_view(entries@),
            first_index(ev, key@, 0) == first_index(ev, key@, i as int),
        decreases entries@.len() - i,
    {
        if entries[i].0 == *key {
            return Some(i);
        }
        i = i + 1;
    }
    None
}

/// The value under `key`, if `entries` has the key.
pub fn get_entry<'a>(entries: &'a Vec<(String, Value)>, key: &String) -> (r: Option<&'a Value>)
    ensures
        r is Some <==> lookup(entries_view(entries@), key@) is Some,
        r matches Some(v) ==> lookup(entries_view(entries@), key@) == Some(v@),
{
    match find_entry(entries, key) {
        Some(i) => Some(&entries[i].1),
        None => None,
    }
}

/// Puts `value` under `key`: in place of the first entry with this key, or
/// at the end where there is none.
pub fn put_entry(entries: &mut Vec<(String, Value)>, key: String, value: Value)
    ensures
        entries_view(final(entries)@) == with_entry(entries_view(old(entries)@), key@, value@),
{
    let ghost before = entries_view(entries@);
    match find_entry(entries, &key) {
        Some(i) => {
            entries.set(i, (key, value));
            assert(entries_view(entries@) =~= with_entry(before, key@, value@));
        },
        None => {
            entries.push((key, value));
            assert(entries_view(entries@) =~= with_entry(before, key@, value@));
        },
    }
}

/// The text that stands for `v` in a template, if it has one.
pub fn value_text(v: &Value) -> (r: Option<String>)
    ensures
        r is Some <==> text_of(v@) is Some,
        r matches Some(s) ==> text_of(v@) == Some(s@),
{
    match v {
        Value::Null => Some(String::from_str("null")),
        Value::Bool(b) => Some(
            if *b {
                String::from_str("true")
            } else {
                String::from_str("false")
            },
        ),
        Value::Number(n) => Some(String::from_str(n.text())),
        Value::Text(s) => Some(s.clone()),
        Value::Array(_) => None,
        Value::Object(_) => None,
    }
}

/// Whether `a` and `b` are equal values.
#[verifier::loop_isolation(false)]
pub fn equal_values(a: &Value, b: &Value) -> (r: bool)
    ensures
        r == values_equal(a@, b@),
    decreases a,
{
    match a {
        Value::Null => matches!(b, Value::Null),
        Value::Bool(x) => match b {
            Value::Bool(y) => *x == *y,
            _ => false,
        },
        Value::Number(x) => match b {
            Value::Number(y) => x.equals(y),
            _ => false,
        },
        Value::Text(x) => match b {
            Value::Text(y) => *x == *y,
            _ => false,
        },
        Value::Array(x) => match b {
            Value::Array(y) => {
                proof {
                    lemma_view_array(*x);
                    lemma_view_array(*y);
                }
                if x.len() != y.len() {
                    return false;
                }
                let mut i: usize = 0;
                while i < x.len()
                    invariant
                        i <= x@.len(),
                        forall|k: int|
                            0 <= k < i ==> values_equal(
                                #[trigger] values_view(x@)[k],
                                values_view(y@)[k],
                            ),
                    decreases x@.len() - i,
                {
                    if !equal_values(&x[i], &y[i]) {
                        assert(!values_equal(values_view(x@)[i as int], values_view(y@)[i as int]));
                        return false;
                    }
                    i = i + 1;
                }
                true
            },
            _ => false,
        },
        Value::Object(x) => match b {
            Value::Object(y) => {
                proof {
                    lemma_view_object(*x);
                    lemma_view_object(*y);
                    reveal_with_fuel(values_equal, 2);
                }
                let ghost xv = entries_view(x@);
                let ghost yv = entries_view(y@);
                let mut i: usize = 0;
                while i < x.len()
                    invariant
                        i <= x@.len(),
                        forall|k: int|
                            0 <= k < i ==> {
                                let j = first_index(yv, (#[trigger] xv[k]).0, 0);
                                j < yv.len() && (first_index(xv, xv[k].0, 0) == k ==> values_equal(
                                    xv[k].1,
                                    yv[j].1,
                                ))
                            },
                    decreases x@.len() - i,
                {
                    let first = find_entry(x, &x[i].0);
                    match find_entry(y, &x[i].0) {
                        None => {
                            assert(xv[i as int].0 == x@[i as int].0@);
                            return false;
                        },
                        Some(j) => {
                            if first == Some(i) {
                                if !equal_values(&x[i].1, &y[j].1) {
                                    assert(xv[i as int].1 == x@[i as int].1@);
                                    return false;
                                }
                            }
                            assert(xv[i as int].0 == x@[i as int].0@);
                        },
                    }
                    i = i + 1;
                }
                let mut j: usize = 0;
                while j < y.len()
                    invariant
                        j <= y@.len(),
                        forall|k: int| 0 <= k < j ==> has_key(xv, (#[trigger] yv[k]).0),
                    decreases y@.len() - j,
                {
                    if find_entry(x, &y[j].0).is_none() {
                        assert(yv[j as int].0 == y@[j as int].0@);
                        return false;
                    }
                    j = j + 1;
                }
                true
            },
            _ => false,
        },
    }
}

impl PartialEq for Value {
    fn eq(&self, other: &Value) -> (b: bool) {
        equal_values(self, other)
    }
}

impl PartialEqSpecImpl for Value {
    open spec fn obeys_eq_spec() -> bool {
        true
    }

    open spec fn eq_spec(&self, other: &Value) -> bool {
        values_equal(self@, other@)
    }
}

} // verus!
