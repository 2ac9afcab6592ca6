//! Paths into a payload: `a.b`, `a."b.c"`, `a[0].b`.
//!
//! A path is a list of keys. A key names an entry of an object or an element
//! of an array. Keys are parted by dots. A key between double quotes may
//! hold dots and brackets. A leading dot and a trailing dot are ignored; two
//! dots in a row hold the empty key between them.
use crate::text::{
    decimal, decimal_text, digit_char, lemma_decimal_is_digits, lemma_digit_char, slice_to_string,
    to_chars,
};
use crate::validator::{is_id_char, is_identifier, range_is_identifier};
use vstd::prelude::*;

verus! {

/// A step of a path.
#[derive(Debug, PartialEq)]
pub enum PathKey {
    /// The entry of an object under this key.
    Field(String),
    /// The element of an array at this index.
    Index(usize),
}

/// What a [`PathKey`] stands for.
pub enum KeyView {
    Field(Seq<char>),
    Index(usize),
}

impl View for PathKey {
    type V = KeyView;

    open spec fn view(&self) -> KeyView {
        match self {
            PathKey::Field(name) => KeyView::Field(name@),
            PathKey::Index(index) => KeyView::Index(*index),
        }
    }
}

/// The views of a list of keys.
pub open spec fn keys_view(keys: Seq<PathKey>) -> Seq<KeyView> {
    Seq::new(keys.len(), |i: int| keys[i]@)
}

/// The characters that end a key written without quotes.
pub open spec fn is_key_stop(c: char) -> bool {
    c == '.' || c == '[' || c == ']' || c == '"'
}

/// Where the run of key characters that starts at `i` ends.
pub open spec fn run_end(s: Seq<char>, i: int) -> int
    decreases s.len() - i,
{
    if i < 0 || i >= s.len() {
        s.len() as int
    } else if is_key_stop(s[i]) {
        i
    } else {
        run_end(s, i + 1)
    }
}

/// The position of the first double quote at or after `i`, or the length
/// of `s`.
pub open spec fn quote_end(s: Seq<char>, i: int) -> int
    decreases s.len() - i,
{
    if i < 0 || i >= s.len() {
        s.len() as int
    } else if s[i] == '"' {
        i
    } else {
        quote_end(s, i + 1)
    }
}

/// Whether `c` is a decimal digit.
pub open spec fn is_digit(c: char) -> bool {
    48 <= c as u32 <= 57
}

/// Where the run of digits that starts at `i` ends.
pub open spec fn digits_end(s: Seq<char>, i: int) -> int
    decreases s.len() - i,
{
    if i < 0 || i >= s.len() {
        s.len() as int
    } else if !is_digit(s[i]) {
        i
    } else {
        digits_end(s, i + 1)
    }
}

/// The number that the digits `s` write in decimal.
pub open spec fn digits_value(s: Seq<char>) -> nat
    decreases s.len(),
{
    if s.len() == 0 {
        0
    } else {
        digits_value(s.drop_last()) * 10 + (s.last() as u32 - 48) as nat
    }
}

/// `key` put before the keys of `rest`.
pub open spec fn key_then(key: KeyView, rest: Option<Seq<KeyView>>) -> Option<Seq<KeyView>> {
    match rest {
        Some(keys) => Some(seq![key] + keys),
        None => None,
    }
}

/// The keys written in `s` from position `i` on, or `None` where the text
/// is no path. With `at_key` a key is expected at `i`; without it, the end
/// of the text, a dot or an index in brackets.
///
/// A quoted key ends at the next double quote and must be followed by a
/// dot, an index or the end. A key without quotes runs up to the next dot or
/// opening bracket; a double quote or a closing bracket in it is refused. An
/// index is one or more digits between brackets, no larger than `usize::MAX`.
#[verifier::opaque]
pub open spec fn keys_from(s: Seq<char>, i: int, at_key: bool) -> Option<Seq<KeyView>>
    decreases s.len() - i, (if at_key { 1int } else { 0int }),
{
    if i < 0 || i > s.len() {
        None
    } else if at_key {
        if i < s.len() && s[i] == '"' {
            let c = quote_end(s, i + 1);
            if c <= i || c >= s.len() {
                None
            } else if c + 1 < s.len() && s[c + 1] != '.' && s[c + 1] != '[' {
                None
            } else {
                key_then(KeyView::Field(s.subrange(i + 1, c)), keys_from(s, c + 1, false))
            }
        } else {
            let j = run_end(s, i);
            if j < i || j > s.len() {
                None
            } else if j < s.len() && (s[j] == '"' || s[j] == ']') {
                None
            } else if j == i && j < s.len() && s[j] == '[' {
                keys_from(s, j, false)
            } else {
                key_then(KeyView::Field(s.subrange(i, j)), keys_from(s, j, false))
            }
        }
    } else {
        if i >= s.len() {
            Some(Seq::empty())
        } else if s[i] == '.' {
            if i + 1 >= s.len() {
                Some(Seq::empty())
            } else {
                keys_from(s, i + 1, true)
            }
        } else if s[i] == '[' {
            let k = digits_end(s, i + 1);
            if k <= i + 1 || k >= s.len() || s[k] != ']' || digits_value(s.subrange(i + 1, k))
                > usize::MAX {
                None
            } else {
                key_then(
                    KeyView::Index(digits_value(s.subrange(i + 1, k)) as usize),
                    keys_from(s, k + 1, false),
                )
            }
        } else {
            None
        }
    }
}

/// The keys that the path `s` writes, or `None` where `s` is no path.
pub open spec fn path_of(s: Seq<char>) -> Option<Seq<KeyView>> {
    keys_from(s, 0, s.len() > 0 && s[0] != '.' && s[0] != '[')
}

/// `keys` put before the keys of `rest`.
pub open spec fn keys_then(keys: Seq<KeyView>, rest: Option<Seq<KeyView>>) -> Option<
    Seq<KeyView>,
> {
    match rest {
        Some(more) => Some(keys + more),
        None => None,
    }
}

proof fn lemma_keys_then_push(keys: Seq<KeyView>, key: KeyView, rest: Option<Seq<KeyView>>)
    ensures
        keys_then(keys, key_then(key, rest)) == keys_then(keys.push(key), rest),
{
    if let Some(more) = rest {
        assert(keys + (seq![key] + more) =~= keys.push(key) + more);
    }
}

fn scan_run(chars: &Vec<char>, from: usize) -> (j: usize)
    requires
        from <= chars@.len(),
    ensures
        j == run_end(chars@, from as int),
        from <= j <= chars@.len(),
{
    let mut j: usize = from;
    while j < chars.len() && !(chars[j] == '.' || chars[j] == '[' || chars[j] == ']' || chars[j]
        == '"')
        invariant
            from <= j <= chars@.len(),
            run_end(chars@, from as int) == run_end(chars@, j as int),
        decreases chars@.len() - j,
    {
        j = j + 1;
    }
    j
}

fn scan_quote(chars: &Vec<char>, from: usize) -> (j: usize)
    requires
        from <= chars@.len(),
    ensures
        j == quote_end(chars@, from as int),
        from <= j <= chars@.len(),
{
    let mut j: usize = from;
    while j < chars.len() && chars[j] != '"'
        invariant
            from <= j <= chars@.len(),
            quote_end(chars@, from as int) == quote_end(chars@, j as int),
        decreases chars@.len() - j,
    {
        j = j + 1;
    }
    j
}

fn char_is_digit(c: char) -> (b: bool)
    ensures
        b == is_digit(c),
{
    let n: u32 = c as u32;
    48 <= n && n <= 57
}

/// Reads the digits that start at `from`: where they end and what they
/// write, or `None` for the value where it is larger than `usize::MAX`.
fn scan_digits(chars: &Vec<char>, from: usize) -> (r: (usize, Option<usize>))
    requires
        from <= chars@.len(),
    ensures
        r.0 == digits_end(chars@, from as int),
        from <= r.0 <= chars@.len(),
        match r.1 {
            Some(v) => v == digits_value(chars@.subrange(from as int, r.0 as int)),
            None => digits_value(chars@.subrange(from as int, r.0 as int)) > usize::MAX,
        },
{
    let mut j: usize = from;
    let mut value: Option<usize> = Some(0);
    assert(chars@.subrange(from as int, from as int) =~= Seq::<char>::empty());
    while j < chars.len() && char_is_digit(chars[j])
        invariant
            from <= j <= chars@.len(),
            digits_end(chars@, from as int) == digits_end(chars@, j as int),
            forall|k: int| from <= k < j ==> is_digit(#[trigger] chars@[k]),
            match value {
                Some(v) => v == digits_value(chars@.subrange(from as int, j as int)),
                None => digits_value(chars@.subrange(from as int, j as int)) > usize::MAX,
            },
        decreases chars@.len() - j,
    {
        let d: usize = (chars[j] as u32 - 48) as usize;
        proof {
            assert(chars@.subrange(from as int, j + 1).drop_last() =~= chars@.subrange(
                from as int,
                j as int,
            ));
        }
        value =
        match value {
            Some(v) => {
                if v > (usize::MAX - d) / 10 {
                    None
                } else {
                    Some(v * 10 + d)
                }
            },
            None => None,
        };
        j = j + 1;
    }
    (j, value)
}

/// Reads the path `text`.
pub fn parse_path(text: &str) -> (r: Option<Vec<PathKey>>)
    ensures
        r is Some <==> path_of(text@) is Some,
        r matches Some(keys) ==> path_of(text@) == Some(keys_view(keys@)),
{
    let chars = to_chars(text);
    let n = chars.len();
    let ghost s = chars@;
    let mut keys: Vec<PathKey> = Vec::new();
    let mut i: usize = 0;
    let mut at_key: bool = n > 0 && chars[0] != '.' && chars[0] != '[';
    proof {
        reveal(keys_from);
    }
    assert(keys_view(keys@) =~= Seq::<KeyView>::empty());
    assert(keys_from(s, 0, at_key) matches Some(more) ==> Seq::<KeyView>::empty() + more =~= more);
    loop
        invariant
            s == chars@,
            s == text@,
            n == s.len(),
            i <= n,
            path_of(s) == keys_then(keys_view(keys@), keys_from(s, i as int, at_key)),
        decreases n - i, (if at_key { 1int } else { 0int }),
    {
        let ghost before = keys_view(keys@);
        proof {
            reveal(keys_from);
        }
        if at_key {
            if i < n && chars[i] == '"' {
                let c = scan_quote(&chars, i + 1);
                if c >= n {
                    return None;
                }
                if c + 1 < n && chars[c + 1] != '.' && chars[c + 1] != '[' {
                    return None;
                }
                keys.push(PathKey::Field(slice_to_string(text, i + 1, c)));
                proof {
                    lemma_keys_then_push(
                        before,
                        KeyView::Field(s.subrange(i + 1, c as int)),
                        keys_from(s, c + 1, false),
                    );
                    assert(keys_view(keys@) =~= before.push(
                        KeyView::Field(s.subrange(i + 1, c as int)),
                    ));
                }
                i = c + 1;
                at_key = false;
            } else {
                let j = scan_run(&chars, i);
                if j < n && (chars[j] == '"' || chars[j] == ']') {
                    return None;
                }
                if j == i && j < n && chars[j] == '[' {
                    at_key = false;
                } else {
                    keys.push(PathKey::Field(slice_to_string(text, i, j)));
                    proof {
                        lemma_keys_then_push(
                            before,
                            KeyView::Field(s.subrange(i as int, j as int)),
                            keys_from(s, j as int, false),
                        );
                        assert(keys_view(keys@) =~= before.push(
                            KeyView::Field(s.subrange(i as int, j as int)),
                        ));
                    }
                    i = j;
                    at_key = false;
                }
            }
        } else {
            if i >= n {
                proof {
                    assert(before + Seq::<KeyView>::empty() =~= before);
                }
                return Some(keys);
            }
            if chars[i] == '.' {
                if i + 1 >= n {
                    proof {
                        assert(before + Seq::<KeyView>::empty() =~= before);
                    }
                    return Some(keys);
                }
                i = i + 1;
                at_key = true;
            } else if chars[i] == '[' {
                let (k, value) = scan_digits(&chars, i + 1);
                if k <= i + 1 || k >= n || chars[k] != ']' {
                    return None;
                }
                match value {
                    None => {
                        return None;
                    },
                    Some(v) => {
                        keys.push(PathKey::Index(v));
                        proof {
                            lemma_keys_then_push(
                                before,
                                KeyView::Index(v),
                                keys_from(s, k + 1, false),
                            );
                            assert(keys_view(keys@) =~= before.push(KeyView::Index(v)));
                        }
                        i = k + 1;
                    },
                }
            } else {
                return None;
            }
        }
    }
}

/// Whether `name` holds no double quote, so that it can stand between
/// quotes.
pub open spec fn is_quotable(name: Seq<char>) -> bool {
    forall|i: int| 0 <= i < name.len() ==> (#[trigger] name[i]) != '"'
}

/// How a key is written in a path: a name after a dot, between quotes
/// unless it is an identifier; an index between brackets.
pub open spec fn rendered_key(key: KeyView) -> Seq<char> {
    match key {
        KeyView::Field(name) => if is_identifier(name) {
            seq!['.'] + name
        } else {
            seq!['.', '"'] + name + seq!['"']
        },
        KeyView::Index(index) => seq!['['] + decimal(index as nat) + seq![']'],
    }
}

/// How a list of keys is written as a path.
pub open spec fn rendered_path(keys: Seq<KeyView>) -> Seq<char>
    decreases keys.len(),
{
    if keys.len() == 0 {
        Seq::empty()
    } else {
        rendered_key(keys[0]) + rendered_path(keys.drop_first())
    }
}

/// Whether every name among `keys` can be written.
pub open spec fn can_render(keys: Seq<KeyView>) -> bool {
    forall|i: int|
        0 <= i < keys.len() ==> ((#[trigger] keys[i]) matches KeyView::Field(name)
            ==> is_quotable(name))
}

proof fn lemma_run_end_over(s: Seq<char>, i: int, n: int)
    requires
        0 <= i,
        0 <= n,
        i + n <= s.len(),
        forall|k: int| i <= k < i + n ==> !is_key_stop(#[trigger] s[k]),
        i + n == s.len() || is_key_stop(s[i + n]),
    ensures
        run_end(s, i) == i + n,
    decreases n,
{
    if n > 0 {
        lemma_run_end_over(s, i + 1, n - 1);
    }
}

proof fn lemma_quote_end_over(s: Seq<char>, i: int, n: int)
    requires
        0 <= i,
        0 <= n,
        i + n < s.len(),
        forall|k: int| i <= k < i + n ==> (#[trigger] s[k]) != '"',
        s[i + n] == '"',
    ensures
        quote_end(s, i) == i + n,
    decreases n,
{
    if n > 0 {
        lemma_quote_end_over(s, i + 1, n - 1);
    }
}

proof fn lemma_digits_end_over(s: Seq<char>, i: int, n: int)
    requires
        0 <= i,
        0 <= n,
        i + n < s.len(),
        forall|k: int| i <= k < i + n ==> is_digit(#[trigger] s[k]),
        !is_digit(s[i + n]),
    ensures
        digits_end(s, i) == i + n,
    decreases n,
{
    if n > 0 {
        lemma_digits_end_over(s, i + 1, n - 1);
    }
}

/// The digits of `n` write `n`.
pub proof fn lemma_digits_of_decimal(n: nat)
    ensures
        digits_value(decimal(n)) == n,
    decreases n,
{
    lemma_digit_char(n % 10);
    if n >= 10 {
        lemma_digits_of_decimal(n / 10);
        assert(decimal(n).drop_last() =~= decimal(n / 10));
        assert(decimal(n).last() == digit_char(n % 10));
    } else {
        assert(decimal(n).drop_last() =~= Seq::<char>::empty());
        assert(decimal(n).last() == digit_char(n));
        assert(digits_value(Seq::<char>::empty()) == 0);
    }
}

proof fn lemma_rendered_path_starts(keys: Seq<KeyView>)
    requires
        keys.len() > 0,
    ensures
        rendered_path(keys).len() > 0,
        rendered_path(keys)[0] == '.' || rendered_path(keys)[0] == '[',
{
}

proof fn lemma_read_plain(s: Seq<char>, i: int, name: Seq<char>)
    requires
        0 <= i,
        i + 1 + name.len() <= s.len(),
        s[i] == '.',
        is_identifier(name),
        s.subrange(i + 1, i + 1 + name.len()) == name,
        i + 1 + name.len() == s.len() || s[i + 1 + name.len()] == '.' || s[i + 1 + name.len()]
            == '[',
    ensures
        keys_from(s, i, false) == key_then(
            KeyView::Field(name),
            keys_from(s, i + 1 + name.len(), false),
        ),
{
    reveal_with_fuel(keys_from, 2);
    assert forall|k: int| i + 1 <= k < i + 1 + name.len() implies !is_key_stop(
        #[trigger] s[k],
    ) by {
        assert(s[k] == s.subrange(i + 1, i + 1 + name.len())[k - i - 1]);
        assert(is_id_char(name[k - i - 1]));
    }
    lemma_run_end_over(s, i + 1, name.len() as int);
    assert(!is_key_stop(s[i + 1]));
}

proof fn lemma_read_quoted(s: Seq<char>, i: int, name: Seq<char>)
    requires
        0 <= i,
        i + 3 + name.len() <= s.len(),
        s[i] == '.',
        s[i + 1] == '"',
        is_quotable(name),
        s.subrange(i + 2, i + 2 + name.len()) == name,
        s[i + 2 + name.len()] == '"',
        i + 3 + name.len() == s.len() || s[i + 3 + name.len()] == '.' || s[i + 3 + name.len()]
            == '[',
    ensures
        keys_from(s, i, false) == key_then(
            KeyView::Field(name),
            keys_from(s, i + 3 + name.len(), false),
        ),
{
    reveal_with_fuel(keys_from, 2);
    assert forall|k: int| i + 2 <= k < i + 2 + name.len() implies (#[trigger] s[k]) != '"' by {
        assert(s[k] == s.subrange(i + 2, i + 2 + name.len())[k - i - 2]);
    }
    lemma_quote_end_over(s, i + 2, name.len() as int);
}

proof fn lemma_read_index(s: Seq<char>, i: int, index: usize)
    requires
        0 <= i,
        i + 2 + decimal(index as nat).len() <= s.len(),
        s[i] == '[',
        s.subrange(i + 1, i + 1 + decimal(index as nat).len()) == decimal(index as nat),
        s[i + 1 + decimal(index as nat).len()] == ']',
    ensures
        keys_from(s, i, false) == key_then(
            KeyView::Index(index),
            keys_from(s, i + 2 + decimal(index as nat).len(), false),
        ),
{
    let digits = decimal(index as nat);
    reveal(keys_from);
    lemma_decimal_is_digits(index as nat);
    lemma_digits_of_decimal(index as nat);
    assert forall|k: int| i + 1 <= k < i + 1 + digits.len() implies is_digit(#[trigger] s[k]) by {
        assert(s[k] == s.subrange(i + 1, i + 1 + digits.len())[k - i - 1]);
    }
    lemma_digits_end_over(s, i + 1, digits.len() as int);
}

proof fn lemma_keys_from_rendered(pre: Seq<char>, keys: Seq<KeyView>)
    requires
        can_render(keys),
    ensures
        keys_from(pre + rendered_path(keys), pre.len() as int, false) == Some(keys),
    decreases keys.len(),
{
    let s = pre + rendered_path(keys);
    let i = pre.len() as int;
    if keys.len() == 0 {
        reveal(keys_from);
        assert(keys =~= Seq::<KeyView>::empty());
    } else {
        let tail = keys.drop_first();
        let rest = rendered_path(tail);
        let head = rendered_key(keys[0]);
        assert(can_render(tail)) by {
            assert forall|k: int| 0 <= k < tail.len() implies ((
            #[trigger] tail[k]) matches KeyView::Field(name) ==> is_quotable(name)) by {
                assert(tail[k] == keys[k + 1]);
            }
        }
        lemma_keys_from_rendered(pre + head, tail);
        assert(s =~= (pre + head) + rest);
        if tail.len() > 0 {
            lemma_rendered_path_starts(tail);
        }
        let after = i + head.len();
        assert(after == s.len() || s[after] == '.' || s[after] == '[') by {
            if tail.len() > 0 {
                assert(s[after] == rest[0]);
            }
        }
        assert(seq![keys[0]] + tail =~= keys);
        match keys[0] {
            KeyView::Field(name) => {
                if is_identifier(name) {
                    assert(head =~= seq!['.'] + name);
                    assert(s[i] == head[0]);
                    assert(s.subrange(i + 1, i + 1 + name.len()) =~= name);
                    lemma_read_plain(s, i, name);
                } else {
                    assert(head =~= seq!['.', '"'] + name + seq!['"']);
                    assert(s[i] == head[0]);
                    assert(s[i + 1] == head[1]);
                    assert(s[i + 2 + name.len()] == head[2 + name.len() as int]);
                    assert(s.subrange(i + 2, i + 2 + name.len()) =~= name);
                    lemma_read_quoted(s, i, name);
                }
            },
            KeyView::Index(index) => {
                let digits = decimal(index as nat);
                assert(head =~= seq!['['] + digits + seq![']']);
                assert(s[i] == head[0]);
                assert(s[i + 1 + digits.len()] == head[1 + digits.len() as int]);
                assert(s.subrange(i + 1, i + 1 + digits.len()) =~= digits);
                lemma_read_index(s, i, index);
            },
        }
    }
}

/// Writing a list of keys as a path and reading the path gives the keys
/// back, whatever the keys, as long as no name holds a double quote.
pub proof fn law_path_round_trip(keys: Seq<KeyView>)
    requires
        can_render(keys),
    ensures
        path_of(rendered_path(keys)) == Some(keys),
{
    lemma_keys_from_rendered(Seq::empty(), keys);
    assert(Seq::<char>::empty() + rendered_path(keys) =~= rendered_path(keys));
    if keys.len() > 0 {
        lemma_rendered_path_starts(keys);
    }
}

fn name_is_identifier(name: &str) -> (b: bool)
    ensures
        b == is_identifier(name@),
{
    let chars = to_chars(name);
    assert(chars@.subrange(0, chars@.len() as int) =~= chars@);
    range_is_identifier(&chars, 0, chars.len())
}

/// Writes `keys` as a path.
#[verifier::loop_isolation(false)]
pub fn render_path(keys: &Vec<PathKey>) -> (out: String)
    ensures
        out@ == rendered_path(keys_view(keys@)),
{
    let ghost kv = keys_view(keys@);
    let mut out = String::new();
    let mut i: usize = 0;
    assert(kv.skip(0) =~= kv);
    assert(out@ + rendered_path(kv) =~= rendered_path(kv));
    proof {
        reveal_strlit(".");
        reveal_strlit("\"");
        reveal_strlit("[");
        reveal_strlit("]");
    }
    while i < keys.len()
        invariant
            i <= keys@.len(),
            kv == keys_view(keys@),
            out@ + rendered_path(kv.skip(i as int)) == rendered_path(kv),
        decreases keys@.len() - i,
    {
        let ghost before = out@;
        assert(kv.skip(i as int)[0] == keys@[i as int]@);
        assert(kv.skip(i as int).drop_first() =~= kv.skip(i + 1));
        match &keys[i] {
            PathKey::Field(name) => {
                out.append(".");
                if name_is_identifier(name.as_str()) {
                    out.append(name.as_str());
                    assert(out@ =~= before + (seq!['.'] + name@));
                } else {
                    out.append("\"");
                    out.append(name.as_str());
                    out.append("\"");
                    assert(out@ =~= before + (seq!['.', '"'] + name@ + seq!['"']));
                }
            },
            PathKey::Index(index) => {
                out.append("[");
                let digits = decimal_text(*index as u128);
                out.append(digits.as_str());
                out.append("]");
                assert(out@ =~= before + (seq!['['] + decimal(*index as nat) + seq![']']));
            },
        }
        assert(out@ + rendered_path(kv.skip(i + 1)) =~= before + (rendered_key(
            keys@[i as int]@,
        ) + rendered_path(kv.skip(i + 1))));
        i = i + 1;
    }
    assert(out@ + Seq::<char>::empty() =~= out@);
    out
}

} // verus!
