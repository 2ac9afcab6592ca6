//! Character-level helpers on texts: conversion to characters, trimming,
//! searching, ordering and decimal rendering.
//!
//! Every text is reasoned about through its view, a `Seq<char>`.
use vstd::prelude::*;
use vstd::std_specs::iter::IteratorSpec;

verus! {

/// The characters of `s`, in order.
pub fn to_chars(s: &str) -> (out: Vec<char>)
    ensures
        out@ == s@,
{
    let mut out: Vec<char> = Vec::new();
    let mut it = s.chars();
    loop
        invariant
            it.remaining() == s@.skip(out@.len() as int),
            out@.len() <= s@.len(),
            out@ == s@.take(out@.len() as int),
        ensures
            out@.len() == s@.len(),
        decreases s@.len() - out@.len(),
    {
        match it.next() {
            Some(c) => {
                out.push(c);
            },
            None => {
                break;
            },
        }
    }
    assert(out@ =~= s@);
    out
}

/// The characters `from..to` of `s` as an owned text.
pub fn slice_to_string(s: &str, from: usize, to: usize) -> (out: String)
    requires
        from <= to <= s@.len(),
    ensures
        out@ == s@.subrange(from as int, to as int),
{
    String::from_str(s.substring_char(from, to))
}

/// White space as Unicode's `White_Space` property defines it.
pub open spec fn is_whitespace(c: char) -> bool {
    let n = c as u32;
    ||| 0x09 <= n <= 0x0D
    ||| n == 0x20
    ||| n == 0x85
    ||| n == 0xA0
    ||| n == 0x1680
    ||| 0x2000 <= n <= 0x200A
    ||| n == 0x2028
    ||| n == 0x2029
    ||| n == 0x202F
    ||| n == 0x205F
    ||| n == 0x3000
}

/// Whether `c` is white space.
pub fn char_is_whitespace(c: char) -> (b: bool)
    ensures
        b == is_whitespace(c),
{
    let n: u32 = c as u32;
    (0x09 <= n && n <= 0x0D) || n == 0x20 || n == 0x85 || n == 0xA0 || n == 0x1680 || (0x2000 <= n
        && n <= 0x200A) || n == 0x2028 || n == 0x2029 || n == 0x202F || n == 0x205F || n == 0x3000
}

/// `s` without its leading white space.
pub open spec fn trim_start(s: Seq<char>) -> Seq<char>
    decreases s.len(),
{
    if s.len() > 0 && is_whitespace(s[0]) {
        trim_start(s.drop_first())
    } else {
        s
    }
}

/// `s` without its trailing white space.
pub open spec fn trim_end(s: Seq<char>) -> Seq<char>
    decreases s.len(),
{
    if s.len() > 0 && is_whitespace(s.last()) {
        trim_end(s.drop_last())
    } else {
        s
    }
}

/// `s` without leading and trailing white space.
pub open spec fn trim(s: Seq<char>) -> Seq<char> {
    trim_end(trim_start(s))
}

/// The bounds `(lo, hi)` of what trimming leaves of the characters `from..to`.
pub fn trim_bounds(chars: &Vec<char>, from: usize, to: usize) -> (r: (usize, usize))
    requires
        from <= to <= chars@.len(),
    ensures
        from <= r.0 <= r.1 <= to,
        chars@.subrange(r.0 as int, r.1 as int) == trim(chars@.subrange(from as int, to as int)),
{
    let mut lo: usize = from;
    while lo < to && char_is_whitespace(chars[lo])
        invariant
            from <= lo <= to <= chars@.len(),
            trim_start(chars@.subrange(from as int, to as int)) == trim_start(
                chars@.subrange(lo as int, to as int),
            ),
        decreases to - lo,
    {
        assert(chars@.subrange(lo as int, to as int).drop_first() =~= chars@.subrange(
            lo as int + 1,
            to as int,
        ));
        lo = lo + 1;
    }
    let mut hi: usize = to;
    while lo < hi && char_is_whitespace(chars[hi - 1])
        invariant
            from <= lo <= hi <= to <= chars@.len(),
            trim_start(chars@.subrange(from as int, to as int)) == chars@.subrange(
                lo as int,
                to as int,
            ),
            trim_end(chars@.subrange(lo as int, to as int)) == trim_end(
                chars@.subrange(lo as int, hi as int),
            ),
        decreases hi - lo,
    {
        assert(chars@.subrange(lo as int, hi as int).drop_last() =~= chars@.subrange(
            lo as int,
            hi as int - 1,
        ));
        hi = hi - 1;
    }
    (lo, hi)
}

/// Whether `lit` stands in `s` at position `at`.
pub open spec fn occurs_at(s: Seq<char>, at: int, lit: Seq<char>) -> bool {
    &&& 0 <= at
    &&& at + lit.len() <= s.len()
    &&& s.subrange(at, at + lit.len()) == lit
}

/// Whether `lit` stands in `chars` at position `at`.
pub fn has_at(chars: &Vec<char>, at: usize, lit: &Vec<char>) -> (b: bool)
    ensures
        b == occurs_at(chars@, at as int, lit@),
{
    if at > chars.len() || lit.len() > chars.len() - at {
        return false;
    }
    let mut i: usize = 0;
    while i < lit.len()
        invariant
            at + lit@.len() <= chars@.len() <= usize::MAX,
            i <= lit@.len(),
            chars@.subrange(at as int, at + i) == lit@.take(i as int),
        decreases lit@.len() - i,
    {
        if chars[at + i] != lit[i] {
            assert(chars@.subrange(at as int, at + lit@.len())[i as int] != lit@[i as int]);
            return false;
        }
        assert(chars@.subrange(at as int, at + i + 1) =~= chars@.subrange(at as int, at + i).push(
            chars@[at + i],
        ));
        assert(lit@.take(i + 1) =~= lit@.take(i as int).push(lit@[i as int]));
        i = i + 1;
    }
    assert(lit@.take(lit@.len() as int) =~= lit@);
    true
}

/// Whether the characters `from..to` of `chars` spell `lit`.
pub fn range_is(chars: &Vec<char>, from: usize, to: usize, lit: &Vec<char>) -> (b: bool)
    requires
        from <= to <= chars@.len(),
    ensures
        b == (chars@.subrange(from as int, to as int) == lit@),
{
    if to - from != lit.len() {
        return false;
    }
    has_at(chars, from, lit)
}

/// Whether `a` and `b` are the same text.
pub fn texts_equal(a: &str, b: &str) -> (r: bool)
    ensures
        r == (a@ == b@),
{
    let x = to_chars(a);
    let y = to_chars(b);
    assert(x@.subrange(0, x@.len() as int) =~= x@);
    range_is(&x, 0, x.len(), &y)
}

/// The first position at or after `from` where `lit` stands in `s`, or the
/// length of `s` where it stands nowhere there.
pub open spec fn find_from(s: Seq<char>, from: int, lit: Seq<char>) -> int
    decreases s.len() - from,
{
    if from < 0 || from >= s.len() {
        s.len() as int
    } else if occurs_at(s, from, lit) {
        from
    } else {
        find_from(s, from + 1, lit)
    }
}

/// What `find_from` gives lies between `from` and the length of `s`, and
/// `lit` stands there unless it is the length.
pub proof fn lemma_find_from_bounds(s: Seq<char>, from: int, lit: Seq<char>)
    requires
        0 <= from <= s.len(),
    ensures
        from <= find_from(s, from, lit) <= s.len(),
        find_from(s, from, lit) < s.len() ==> occurs_at(s, find_from(s, from, lit), lit),
    decreases s.len() - from,
{
    if from < s.len() && !occurs_at(s, from, lit) {
        lemma_find_from_bounds(s, from + 1, lit);
    }
}

/// Finds `lit` in `chars` at or after `from`.
pub fn find(chars: &Vec<char>, from: usize, lit: &Vec<char>) -> (at: usize)
    requires
        from <= chars@.len(),
    ensures
        at == find_from(chars@, from as int, lit@),
        from <= at <= chars@.len(),
{
    let mut i: usize = from;
    while i < chars.len()
        invariant
            from <= i <= chars@.len(),
            find_from(chars@, from as int, lit@) == find_from(chars@, i as int, lit@),
        decreases chars@.len() - i,
    {
        if has_at(chars, i, lit) {
            return i;
        }
        i = i + 1;
    }
    i
}

/// Whether `needle` stands somewhere in `s`.
pub open spec fn contains_text(s: Seq<char>, needle: Seq<char>) -> bool {
    exists|at: int| occurs_at(s, at, needle)
}

proof fn lemma_find_from_none(s: Seq<char>, from: int, lit: Seq<char>, at: int)
    requires
        0 <= from <= at,
        lit.len() > 0,
        find_from(s, from, lit) == s.len(),
    ensures
        !occurs_at(s, at, lit),
    decreases s.len() - from,
{
    if from < s.len() {
        if from < at {
            lemma_find_from_none(s, from + 1, lit, at);
        }
    }
}

/// Whether `needle` stands somewhere in `chars`.
pub fn contains_chars(chars: &Vec<char>, needle: &Vec<char>) -> (b: bool)
    ensures
        b == contains_text(chars@, needle@),
{
    if needle.len() == 0 {
        assert(chars@.subrange(0, 0) =~= needle@);
        assert(occurs_at(chars@, 0, needle@));
        return true;
    }
    let at = find(chars, 0, needle);
    proof {
        lemma_find_from_bounds(chars@, 0, needle@);
        if at == chars@.len() {
            assert forall|k: int| !occurs_at(chars@, k, needle@) by {
                if 0 <= k {
                    lemma_find_from_none(chars@, 0, needle@, k);
                }
            }
        }
    }
    at < chars.len()
}

/// Lexicographic order on texts, character by character.
pub open spec fn text_less(a: Seq<char>, b: Seq<char>) -> bool
    decreases a.len(),
{
    if b.len() == 0 {
        false
    } else if a.len() == 0 {
        true
    } else if a[0] != b[0] {
        (a[0] as u32) < (b[0] as u32)
    } else {
        text_less(a.drop_first(), b.drop_first())
    }
}

/// Whether `a` comes before `b` in lexicographic order.
pub fn chars_less(a: &Vec<char>, b: &Vec<char>) -> (r: bool)
    ensures
        r == text_less(a@, b@),
{
    let mut i: usize = 0;
    assert(a@.skip(0) =~= a@ && b@.skip(0) =~= b@);
    loop
        invariant
            i <= a@.len(),
            i <= b@.len(),
            text_less(a@, b@) == text_less(a@.skip(i as int), b@.skip(i as int)),
        decreases a@.len() - i,
    {
        if i >= b.len() {
            return false;
        }
        if i >= a.len() {
            return true;
        }
        assert(a@.skip(i as int)[0] == a@[i as int] && b@.skip(i as int)[0] == b@[i as int]);
        if a[i] != b[i] {
            let x: char = a[i];
            let y: char = b[i];
            return (x as u32) < (y as u32);
        }
        assert(a@.skip(i as int).drop_first() =~= a@.skip(i + 1));
        assert(b@.skip(i as int).drop_first() =~= b@.skip(i + 1));
        i = i + 1;
    }
}

/// The decimal digits of `n`, most significant first, without leading zeros.
pub open spec fn decimal(n: nat) -> Seq<char>
    decreases n,
{
    if n < 10 {
        seq![digit_char(n)]
    } else {
        decimal(n / 10).push(digit_char(n % 10))
    }
}

/// The character of the digit `d`.
pub open spec fn digit_char(d: nat) -> char {
    if d == 0 {
        '0'
    } else if d == 1 {
        '1'
    } else if d == 2 {
        '2'
    } else if d == 3 {
        '3'
    } else if d == 4 {
        '4'
    } else if d == 5 {
        '5'
    } else if d == 6 {
        '6'
    } else if d == 7 {
        '7'
    } else if d == 8 {
        '8'
    } else {
        '9'
    }
}

fn digit_text(d: u8) -> (s: &'static str)
    requires
        d < 10,
    ensures
        s@ == seq![digit_char(d as nat)],
{
    proof {
        reveal_strlit("0");
        reveal_strlit("1");
        reveal_strlit("2");
        reveal_strlit("3");
        reveal_strlit("4");
        reveal_strlit("5");
        reveal_strlit("6");
        reveal_strlit("7");
        reveal_strlit("8");
        reveal_strlit("9");
    }
    let s = if d == 0 {
        "0"
    } else if d == 1 {
        "1"
    } else if d == 2 {
        "2"
    } else if d == 3 {
        "3"
    } else if d == 4 {
        "4"
    } else if d == 5 {
        "5"
    } else if d == 6 {
        "6"
    } else if d == 7 {
        "7"
    } else if d == 8 {
        "8"
    } else {
        "9"
    };
    assert(s@ =~= seq![digit_char(d as nat)]);
    s
}

/// Renders `n` in decimal.
pub fn decimal_text(n: u128) -> (s: String)
    ensures
        s@ == decimal(n as nat),
    decreases n,
{
    if n < 10 {
        String::from_str(digit_text(n as u8))
    } else {
        let mut s = decimal_text(n / 10);
        s.append(digit_text((n % 10) as u8));
        assert(s@ =~= decimal(n as nat));
        s
    }
}

/// Joins `a` and `b`.
pub fn join2(a: &str, b: &str) -> (s: String)
    ensures
        s@ == a@ + b@,
{
    let mut s = String::from_str(a);
    s.append(b);
    s
}

/// Joins `a`, `b` and `c`.
pub fn join3(a: &str, b: &str, c: &str) -> (s: String)
    ensures
        s@ == a@ + b@ + c@,
{
    let mut s = String::from_str(a);
    s.append(b);
    s.append(c);
    s
}

/// No text comes before itself.
pub proof fn lemma_text_less_irreflexive(a: Seq<char>)
    ensures
        !text_less(a, a),
    decreases a.len(),
{
    if a.len() > 0 {
        lemma_text_less_irreflexive(a.drop_first());
    }
}

proof fn lemma_codes_differ(x: char, y: char)
    requires
        x != y,
    ensures
        x as u32 != y as u32,
{
}

/// Of two different texts one comes before the other.
pub proof fn lemma_text_less_total(a: Seq<char>, b: Seq<char>)
    requires
        a != b,
    ensures
        text_less(a, b) || text_less(b, a),
    decreases a.len(),
{
    if a.len() > 0 && b.len() > 0 {
        if a[0] != b[0] {
            lemma_codes_differ(a[0], b[0]);
        }
        if a[0] == b[0] {
            if a.drop_first() == b.drop_first() {
                assert(a =~= seq![a[0]] + a.drop_first());
                assert(b =~= seq![b[0]] + b.drop_first());
            }
            lemma_text_less_total(a.drop_first(), b.drop_first());
        }
    } else if a.len() == 0 && b.len() == 0 {
        assert(a =~= b);
    }
}

/// The order of texts is transitive.
pub proof fn lemma_text_less_transitive(a: Seq<char>, b: Seq<char>, c: Seq<char>)
    requires
        text_less(a, b),
        text_less(b, c),
    ensures
        text_less(a, c),
    decreases a.len(),
{
    if a.len() > 0 && b.len() > 0 && c.len() > 0 {
        if a[0] == b[0] && b[0] == c[0] {
            lemma_text_less_transitive(a.drop_first(), b.drop_first(), c.drop_first());
        }
    }
}

/// The code of a digit's character.
pub proof fn lemma_digit_char(d: nat)
    requires
        d < 10,
    ensures
        digit_char(d) as u32 == 48 + d,
{
}

/// The digits of `n` are digits.
pub proof fn lemma_decimal_is_digits(n: nat)
    ensures
        decimal(n).len() > 0,
        forall|k: int| 0 <= k < decimal(n).len() ==> 48 <= (#[trigger] decimal(n)[k]) as u32 <= 57,
    decreases n,
{
    if n >= 10 {
        lemma_decimal_is_digits(n / 10);
    }
}

} // verus!
