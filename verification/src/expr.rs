//! The value expressions that the `print` command understands: vector and
//! array literals, `Some(..)` / `None`, numeric literals, and a few
//! well-known demonstration variable names.

use vstd::prelude::*;
use crate::numparse::{parse_i64, parse_i64_spec};
use crate::text::{ends_with, is_ws, starts_with, str_eq, trim, trim_end, trim_start, trim_str};
use crate::types::PrettyValue;

verus! {

/// ASCII lower case of `c`; other characters are left as they are.
pub open spec fn lower(c: char) -> char {
    if 'A' <= c <= 'Z' {
        ((c as u32) + 32) as char
    } else {
        c
    }
}

/// `s` with every character passed through `lower`.
pub open spec fn lower_seq(s: Seq<char>) -> Seq<char> {
    s.map_values(|c: char| lower(c))
}

/// An ASCII decimal digit.
pub open spec fn is_digit(c: char) -> bool {
    '0' <= c <= '9'
}

/// Every character of `s` is a decimal digit.
pub open spec fn all_digits(s: Seq<char>) -> bool {
    forall|i: int| 0 <= i < s.len() ==> is_digit(#[trigger] s[i])
}

/// Position of the first `c` in `s`, or `s.len()` when there is none.
pub open spec fn first_index(s: Seq<char>, c: char) -> int
    decreases s.len(),
{
    if s.len() == 0 {
        0
    } else if s[0] == c {
        0
    } else {
        1 + first_index(s.drop_first(), c)
    }
}

/// A mantissa: digits, optionally a point and more digits, with at least
/// one digit in all.
pub open spec fn mantissa_ok(m: Seq<char>) -> bool {
    let d = first_index(m, '.');
    if d == m.len() {
        m.len() > 0 && all_digits(m)
    } else {
        let int_part = m.subrange(0, d);
        let frac = m.subrange(d + 1, m.len() as int);
        all_digits(int_part) && all_digits(frac) && int_part.len() + frac.len() > 0
    }
}

/// An exponent after the `e`: an optional sign and at least one digit.
pub open spec fn exponent_ok(x: Seq<char>) -> bool {
    let digits = if x.len() > 0 && (x[0] == '+' || x[0] == '-') {
        x.drop_first()
    } else {
        x
    };
    digits.len() > 0 && all_digits(digits)
}

/// A decimal number: a mantissa and an optional exponent.
pub open spec fn number_ok(s: Seq<char>) -> bool {
    let e = first_index(s, 'e');
    if e == s.len() {
        mantissa_ok(s)
    } else {
        mantissa_ok(s.subrange(0, e)) && exponent_ok(s.subrange(e + 1, s.len() as int))
    }
}

/// The text that `str::parse::<f64>` accepts: after lowering the case, an
/// optional sign, then `inf`, `infinity`, `nan` or a decimal number.
pub open spec fn float_syntax(s: Seq<char>) -> bool {
    let l = lower_seq(s);
    let body = if l.len() > 0 && (l[0] == '+' || l[0] == '-') {
        l.drop_first()
    } else {
        l
    };
    body == "inf"@ || body == "infinity"@ || body == "nan"@ || number_ok(body)
}

/// A numeric literal: an `i64` or an `f64`.
pub open spec fn numeric_literal(s: Seq<char>) -> bool {
    parse_i64_spec(s) is Some || float_syntax(s)
}

/// The pieces of `s` between occurrences of `c` (`str::split`), empty ones
/// included.
pub open spec fn split_pieces(s: Seq<char>, c: char) -> Seq<Seq<char>>
    decreases s.len(),
{
    if s.len() == 0 {
        seq![Seq::<char>::empty()]
    } else {
        let rest = split_pieces(s.drop_last(), c);
        if s.last() == c {
            rest.push(Seq::<char>::empty())
        } else {
            rest.update(rest.len() - 1, rest.last().push(s.last()))
        }
    }
}

/// The pieces, trimmed, with empty ones left out.
pub open spec fn scalar_texts(pieces: Seq<Seq<char>>) -> Seq<Seq<char>>
    decreases pieces.len(),
{
    if pieces.len() == 0 {
        Seq::empty()
    } else {
        let r = scalar_texts(pieces.drop_last());
        let t = trim(pieces.last());
        if t.len() == 0 {
            r
        } else {
            r.push(t)
        }
    }
}

/// `items` are scalars holding exactly `texts`.
pub open spec fn scalars_are(items: Seq<PrettyValue>, texts: Seq<Seq<char>>) -> bool {
    &&& items.len() == texts.len()
    &&& forall|i: int| 0 <= i < items.len() ==> (#[trigger] items[i] matches PrettyValue::Scalar(s)
        && s@ == texts[i])
}

/// The value a boxed payload holds.
pub open spec fn unbox(p: Option<Box<PrettyValue>>) -> Option<PrettyValue> {
    match p {
        Some(b) => Some(*b),
        None => None,
    }
}

/// The elements of a `vec![..]` / `[..]` literal whose contents are `inner`.
pub open spec fn list_value(inner: Seq<char>, r: Option<PrettyValue>) -> bool {
    r matches Some(PrettyValue::Sequence(v)) && scalars_are(v@, scalar_texts(split_pieces(inner, ',')))
}

/// An enum value with no payload named `name`.
pub open spec fn bare_variant(r: Option<PrettyValue>, name: Seq<char>) -> bool {
    r matches Some(PrettyValue::Enum { name: n, payload: None }) && n@ == name
}

/// `s` begins with `p` and ends with `q`, with room for both.
pub open spec fn wrapped(s: Seq<char>, p: Seq<char>, q: Seq<char>) -> bool {
    &&& p.len() <= s.len()
    &&& s.subrange(0, p.len() as int) == p
    &&& q.len() <= s.len()
    &&& s.subrange(s.len() - q.len(), s.len() as int) == q
}

/// Trimming never lengthens a text.
pub proof fn lemma_trim_len(s: Seq<char>)
    ensures
        trim_start(s).len() <= s.len(),
        trim_end(s).len() <= s.len(),
        trim(s).len() <= s.len(),
    decreases s.len(),
{
    if s.len() > 0 {
        lemma_trim_len(s.drop_first());
        lemma_trim_len(s.drop_last());
    }
    lemma_trim_end_len(trim_start(s));
}

proof fn lemma_trim_end_len(s: Seq<char>)
    ensures
        trim_end(s).len() <= s.len(),
    decreases s.len(),
{
    if s.len() > 0 {
        lemma_trim_end_len(s.drop_last());
    }
}

/// What evaluating `expr` gives: the value `print` shows for it, or `None`
/// when the expression is not understood.
pub open spec fn eval_result(expr: Seq<char>, r: Option<PrettyValue>) -> bool
    decreases expr.len(),
{
    let t = trim(expr);
    if t == "Vec::<i32>::new()"@ || t == "vec![]"@ {
        r matches Some(PrettyValue::Sequence(v)) && v@.len() == 0
    } else if wrapped(t, "vec!["@, "]"@) && t.len() >= 6 {
        list_value(t.subrange(5, t.len() - 1), r)
    } else if wrapped(t, "["@, "]"@) && t.len() >= 2 {
        list_value(t.subrange(1, t.len() - 1), r)
    } else if wrapped(t, "Some("@, ")"@) && t.len() >= 6 {
        proof {
            lemma_trim_len(expr);
        }
        r matches Some(PrettyValue::Enum { name, payload }) && name@ == "Some"@ && eval_result(
            t.subrange(5, t.len() - 1),
            unbox(payload),
        )
    } else if t == "None"@ {
        bare_variant(r, "None"@)
    } else if numeric_literal(t) {
        r matches Some(PrettyValue::Scalar(s)) && s@ == t
    } else if t == "root"@ || t == "left"@ || t == "right"@ || t == "parent"@ {
        bare_variant(r, "None"@)
    } else if t == "value"@ {
        r matches Some(PrettyValue::Scalar(s)) && s@ == "42"@
    } else {
        r is None
    }
}

fn lower_char(c: char) -> (r: char)
    ensures
        r == lower(c),
{
    if 'A' <= c && c <= 'Z' {
        let u = (c as u32) + 32;
        assert(65 <= u - 32 <= 90);
        ((u as u8) as char)
    } else {
        c
    }
}

/// Whether `s[start..end]`, lowered, equals `w`.
fn lowered_equals(s: &str, start: usize, end: usize, w: &str) -> (r: bool)
    requires
        start <= end <= s@.len(),
    ensures
        r == (lower_seq(s@.subrange(start as int, end as int)) == w@),
{
    let ghost part = s@.subrange(start as int, end as int);
    let n = end - start;
    if n != w.unicode_len() {
        return false;
    }
    let mut i: usize = 0;
    while i < n
        invariant
            start <= end <= s@.len(),
            n == end - start,
            n == w@.len(),
            part == s@.subrange(start as int, end as int),
            i <= n,
            forall|k: int| 0 <= k < i ==> lower(#[trigger] part[k]) == w@[k],
        decreases n - i,
    {
        if lower_char(s.get_char(start + i)) != w.get_char(i) {
            assert(lower_seq(part)[i as int] != w@[i as int]);
            return false;
        }
        i = i + 1;
    }
    assert(lower_seq(part) =~= w@);
    true
}

/// Whether `s[a..b]`, lowered, is all digits.
fn digits_between(s: &str, a: usize, b: usize) -> (r: bool)
    requires
        a <= b <= s@.len(),
    ensures
        r == all_digits(lower_seq(s@.subrange(a as int, b as int))),
{
    let ghost part = lower_seq(s@.subrange(a as int, b as int));
    let mut i: usize = a;
    while i < b
        invariant
            a <= i <= b <= s@.len(),
            part == lower_seq(s@.subrange(a as int, b as int)),
            forall|k: int| 0 <= k < i - a ==> is_digit(#[trigger] part[k]),
        decreases b - i,
    {
        let c = lower_char(s.get_char(i));
        if !('0' <= c && c <= '9') {
            assert(!is_digit(part[i - a]));
            return false;
        }
        i = i + 1;
    }
    true
}

/// Position of the first `c` (compared after lowering) in `s[a..b]`,
/// counted from `a`.
fn first_between(s: &str, a: usize, b: usize, c: char) -> (r: usize)
    requires
        a <= b <= s@.len(),
    ensures
        r == first_index(lower_seq(s@.subrange(a as int, b as int)), c),
        r <= b - a,
{
    let ghost part = lower_seq(s@.subrange(a as int, b as int));
    let mut i: usize = a;
    assert(part.subrange(0, part.len() as int) =~= part);
    while i < b
        invariant
            a <= i <= b <= s@.len(),
            part == lower_seq(s@.subrange(a as int, b as int)),
            first_index(part, c) == (i - a) + first_index(part.subrange(i - a, part.len() as int), c),
        decreases b - i,
    {
        let ghost rest = part.subrange(i - a, part.len() as int);
        assert(rest.drop_first() =~= part.subrange(i - a + 1, part.len() as int));
        assert(rest[0] == lower(s@[i as int]));
        if lower_char(s.get_char(i)) == c {
            return i - a;
        }
        i = i + 1;
    }
    assert(part.subrange(b - a, part.len() as int) =~= Seq::<char>::empty());
    b - a
}

proof fn lemma_lower_sub(s: Seq<char>, a: int, b: int, c: int, d: int)
    requires
        0 <= a <= b <= s.len(),
        0 <= c <= d <= b - a,
    ensures
        lower_seq(s.subrange(a, b)).subrange(c, d) == lower_seq(s.subrange(a + c, a + d)),
{
    assert(lower_seq(s.subrange(a, b)).subrange(c, d) =~= lower_seq(s.subrange(a + c, a + d)));
}

fn mantissa_check(s: &str, a: usize, b: usize) -> (r: bool)
    requires
        a <= b <= s@.len(),
    ensures
        r == mantissa_ok(lower_seq(s@.subrange(a as int, b as int))),
{
    let ghost m = lower_seq(s@.subrange(a as int, b as int));
    let d = first_between(s, a, b, '.');
    if d == b - a {
        b > a && digits_between(s, a, b)
    } else {
        proof {
            lemma_lower_sub(s@, a as int, b as int, 0, d as int);
            lemma_lower_sub(s@, a as int, b as int, d + 1, b - a);
        }
        digits_between(s, a, a + d) && digits_between(s, a + d + 1, b) && (d > 0 || a + d + 1 < b)
    }
}

fn number_check(s: &str, a: usize) -> (r: bool)
    requires
        a <= s@.len(),
    ensures
        r == number_ok(lower_seq(s@.subrange(a as int, s@.len() as int))),
{
    let n = s.unicode_len();
    let ghost body = lower_seq(s@.subrange(a as int, n as int));
    let e = first_between(s, a, n, 'e');
    if e == n - a {
        mantissa_check(s, a, n)
    } else {
        proof {
            lemma_lower_sub(s@, a as int, n as int, 0, e as int);
            lemma_lower_sub(s@, a as int, n as int, e + 1, n - a);
        }
        if !mantissa_check(s, a, a + e) {
            return false;
        }
        let x = a + e + 1;
        let ghost xs = lower_seq(s@.subrange(x as int, n as int));
        assert(xs == body.subrange(e + 1, body.len() as int));
        let start = if x < n && (s.get_char(x) == '+' || s.get_char(x) == '-') {
            assert(xs[0] == s@[x as int]);
            x + 1
        } else {
            proof {
                if x < n {
                    assert(xs[0] == lower(s@[x as int]));
                }
            }
            x
        };
        proof {
            lemma_lower_sub(s@, x as int, n as int, start - x, n - x);
        }
        start < n && digits_between(s, start, n)
    }
}

/// Whether `str::parse::<f64>` accepts `s`.
pub fn parses_as_float(s: &str) -> (r: bool)
    ensures
        r == float_syntax(s@),
{
    let n = s.unicode_len();
    let ghost l = lower_seq(s@);
    let start: usize = if n > 0 && (s.get_char(0) == '+' || s.get_char(0) == '-') {
        1
    } else {
        0
    };
    proof {
        assert(s@.subrange(0, n as int) =~= s@);
        if n > 0 {
            assert(l[0] == lower(s@[0]));
        }
        let body = if l.len() > 0 && (l[0] == '+' || l[0] == '-') {
            l.drop_first()
        } else {
            l
        };
        assert(body =~= lower_seq(s@.subrange(start as int, n as int)));
    }
    lowered_equals(s, start, n, "inf") || lowered_equals(s, start, n, "infinity") || lowered_equals(
        s,
        start,
        n,
        "nan",
    ) || number_check(s, start)
}

/// Whether `s` is an `i64` or `f64` literal.
pub fn is_numeric_literal(s: &str) -> (r: bool)
    ensures
        r == numeric_literal(s@),
{
    parse_i64(s).is_some() || parses_as_float(s)
}

proof fn lemma_split_nonempty(s: Seq<char>, c: char)
    ensures
        split_pieces(s, c).len() >= 1,
    decreases s.len(),
{
    if s.len() > 0 {
        lemma_split_nonempty(s.drop_last(), c);
    }
}

fn push_trimmed(items: &mut Vec<PrettyValue>, piece: &str, Ghost(pieces): Ghost<Seq<Seq<char>>>)
    requires
        pieces.len() >= 1,
        pieces.last() == piece@,
        scalars_are(old(items)@, scalar_texts(pieces.drop_last())),
    ensures
        scalars_are(final(items)@, scalar_texts(pieces)),
{
    let t = trim_str(piece);
    if t.unicode_len() > 0 {
        let ghost before = items@;
        items.push(PrettyValue::Scalar(t.to_owned()));
        assert(scalar_texts(pieces) =~= scalar_texts(pieces.drop_last()).push(t@));
        assert forall|i: int| 0 <= i < items@.len() implies (#[trigger] items@[i] matches PrettyValue::Scalar(
            s,
        ) && s@ == scalar_texts(pieces)[i]) by {
            if i < before.len() {
                assert(items@[i] == before[i]);
            }
        }
    }
}

/// The scalars of a comma-separated list: each piece trimmed, empty pieces
/// left out.
fn list_items(inner: &str) -> (r: Vec<PrettyValue>)
    ensures
        scalars_are(r@, scalar_texts(split_pieces(inner@, ','))),
{
    let n = inner.unicode_len();
    let mut items: Vec<PrettyValue> = Vec::new();
    let mut cur = String::new();
    let mut i: usize = 0;
    proof {
        assert(inner@.subrange(0, 0) =~= Seq::<char>::empty());
        assert(split_pieces(Seq::<char>::empty(), ',').drop_last() =~= Seq::<Seq<char>>::empty());
    }
    while i < n
        invariant
            n == inner@.len(),
            i <= n,
            split_pieces(inner@.subrange(0, i as int), ',').len() >= 1,
            scalars_are(items@, scalar_texts(split_pieces(inner@.subrange(0, i as int), ',').drop_last())),
            cur@ == split_pieces(inner@.subrange(0, i as int), ',').last(),
        decreases n - i,
    {
        let ghost p = inner@.subrange(0, i as int);
        let ghost sp = split_pieces(p, ',');
        let ghost q = inner@.subrange(0, i + 1);
        assert(q.drop_last() =~= p);
        let c = inner.get_char(i);
        if c == ',' {
            assert(split_pieces(q, ',') == sp.push(Seq::<char>::empty()));
            assert(split_pieces(q, ',').drop_last() =~= sp);
            push_trimmed(&mut items, cur.as_str(), Ghost(sp));
            cur = String::new();
            assert(split_pieces(q, ',').last() =~= Seq::<char>::empty());
            assert(scalar_texts(split_pieces(q, ',').drop_last()) == scalar_texts(sp));
        } else {
            assert(split_pieces(q, ',') == sp.update(sp.len() - 1, sp.last().push(c)));
            assert(split_pieces(q, ',').drop_last() =~= sp.drop_last());
            crate::text::push_char(&mut cur, c);
        }
        i = i + 1;
    }
    proof {
        assert(inner@.subrange(0, n as int) =~= inner@);
        lemma_split_nonempty(inner@, ',');
    }
    push_trimmed(&mut items, cur.as_str(), Ghost(split_pieces(inner@, ',')));
    items
}

/// Evaluates a `print` expression (see `eval_result`).
pub fn evaluate_expression(expr: &str) -> (r: Option<PrettyValue>)
    ensures
        eval_result(expr@, r),
    decreases expr@.len(),
{
    let t = trim_str(expr);
    proof {
        lemma_trim_len(expr@);
    }
    if str_eq(t, "Vec::<i32>::new()") || str_eq(t, "vec![]") {
        return Some(PrettyValue::Sequence(Vec::new()));
    }
    let n = t.unicode_len();
    if starts_with(t, "vec![") && ends_with(t, "]") {
        proof {
            reveal_strlit("vec![");
            reveal_strlit("]");
            assert(t@.subrange(0, 5)[4] == t@[4]);
            assert(t@.subrange(n - 1, n as int)[0] == t@[n - 1]);
        }
        let inner = t.substring_char(5, n - 1);
        return Some(PrettyValue::Sequence(list_items(inner)));
    }
    if starts_with(t, "[") && ends_with(t, "]") {
        proof {
            reveal_strlit("[");
            reveal_strlit("]");
            assert(t@.subrange(0, 1)[0] == t@[0]);
            assert(t@.subrange(n - 1, n as int)[0] == t@[n - 1]);
        }
        let inner = t.substring_char(1, n - 1);
        return Some(PrettyValue::Sequence(list_items(inner)));
    }
    if starts_with(t, "Some(") && ends_with(t, ")") {
        proof {
            reveal_strlit("Some(");
            reveal_strlit(")");
            assert(t@.subrange(0, 5)[4] == t@[4]);
            assert(t@.subrange(n - 1, n as int)[0] == t@[n - 1]);
        }
        let inner = t.substring_char(5, n - 1);
        let payload = match evaluate_expression(inner) {
            Some(v) => Some(Box::new(v)),
            None => None,
        };
        return Some(PrettyValue::Enum { name: "Some".to_owned(), payload });
    }
    if str_eq(t, "None") {
        return Some(PrettyValue::Enum { name: "None".to_owned(), payload: None });
    }
    if is_numeric_literal(t) {
        return Some(PrettyValue::Scalar(t.to_owned()));
    }
    if str_eq(t, "root") || str_eq(t, "left") || str_eq(t, "right") || str_eq(t, "parent") {
        return Some(PrettyValue::Enum { name: "None".to_owned(), payload: None });
    }
    if str_eq(t, "value") {
        return Some(PrettyValue::Scalar("42".to_owned()));
    }
    None
}

} // verus!
