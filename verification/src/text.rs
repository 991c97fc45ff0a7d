//! Character-level text building blocks: decimal and hexadecimal rendering,
//! padding, whitespace handling and integer parsing.

use vstd::prelude::*;

verus! {

/// Appends one character to a string (`String::push`).
#[verifier::external_body]
pub(crate) fn push_char(s: &mut String, c: char)
    ensures
        final(s)@ == old(s)@.push(c),
{
    s.push(c);
}

/// The ASCII digit or letter that stands for `d` (`0..=35`), lower case.
pub open spec fn digit_char(d: nat, upper: bool) -> char {
    if d < 10 {
        (d + 48) as char
    } else if upper {
        (d - 10 + 65) as char
    } else {
        (d - 10 + 97) as char
    }
}

/// The base-`radix` representation of `n` without leading zeros ("0" for zero).
pub open spec fn radix_digits(n: nat, radix: nat, upper: bool) -> Seq<char>
    recommends
        radix >= 2,
    decreases n,
{
    if radix < 2 || n < radix {
        seq![digit_char(n, upper)]
    } else {
        proof {
            lemma_div_smaller(n, radix);
        }
        radix_digits(n / radix, radix, upper).push(digit_char(n % radix, upper))
    }
}

/// Decimal rendering of `n`, as `{}` prints it.
pub open spec fn decimal(n: nat) -> Seq<char> {
    radix_digits(n, 10, false)
}

/// Hexadecimal rendering of `n`, as `{:x}` (or `{:X}` when `upper`) prints it.
pub open spec fn hex(n: nat, upper: bool) -> Seq<char> {
    radix_digits(n, 16, upper)
}

fn digit(d: u64, upper: bool) -> (c: char)
    requires
        d < 36,
    ensures
        c == digit_char(d as nat, upper),
{
    if d < 10 {
        ((d + 48) as u8) as char
    } else if upper {
        ((d - 10 + 65) as u8) as char
    } else {
        ((d - 10 + 97) as u8) as char
    }
}

/// Renders `n` in base `radix` (2 to 16).
pub fn radix_string(n: u64, radix: u64, upper: bool) -> (r: String)
    requires
        2 <= radix <= 16,
    ensures
        r@ == radix_digits(n as nat, radix as nat, upper),
    decreases n,
{
    if n < radix {
        let mut out = String::new();
        push_char(&mut out, digit(n, upper));
        out
    } else {
        proof {
            lemma_div_smaller(n as nat, radix as nat);
        }
        let mut out = radix_string(n / radix, radix, upper);
        push_char(&mut out, digit(n % radix, upper));
        out
    }
}

pub proof fn lemma_div_smaller(n: nat, radix: nat)
    requires
        radix >= 2,
        n >= radix,
    ensures
        n / radix < n,
        n / radix >= 1,
{
    assert(n / radix < n && n / radix >= 1) by (nonlinear_arith)
        requires
            radix >= 2,
            n >= radix,
    ;
}


/// Renders `n` in lower-case decimal.
pub fn decimal_string(n: u64) -> (r: String)
    ensures
        r@ == decimal(n as nat),
{
    radix_string(n, 10, false)
}

/// Renders `n` in hexadecimal.
pub fn hex_string(n: u64, upper: bool) -> (r: String)
    ensures
        r@ == hex(n as nat, upper),
{
    radix_string(n, 16, upper)
}

/// `n` copies of `c`.
pub open spec fn repeat(c: char, n: nat) -> Seq<char>
    decreases n,
{
    if n == 0 {
        Seq::empty()
    } else {
        repeat(c, (n - 1) as nat).push(c)
    }
}

/// `s` right-aligned in a field of `width` characters filled with `fill`
/// (what `{:>w}` and, for numbers with `fill == '0'`, `{:0w}` print).
pub open spec fn pad_left(s: Seq<char>, width: nat, fill: char) -> Seq<char> {
    if s.len() >= width {
        s
    } else {
        repeat(fill, (width - s.len()) as nat) + s
    }
}

/// `s` left-aligned in a field of `width` characters filled with `fill`
/// (what `{:<w}` prints, and `{:w}` for strings).
pub open spec fn pad_right(s: Seq<char>, width: nat, fill: char) -> Seq<char> {
    if s.len() >= width {
        s
    } else {
        s + repeat(fill, (width - s.len()) as nat)
    }
}

/// Appends `n` copies of `c`.
pub fn push_repeat(out: &mut String, c: char, n: usize)
    ensures
        final(out)@ == old(out)@ + repeat(c, n as nat),
{
    let mut i: usize = 0;
    while i < n
        invariant
            i <= n,
            out@ == old(out)@ + repeat(c, i as nat),
        decreases n - i,
    {
        push_char(out, c);
        i = i + 1;
        assert(out@ =~= old(out)@ + repeat(c, i as nat));
    }
}

/// Appends `s` left-padded with `fill` to `width` characters.
pub fn push_padded_left(out: &mut String, s: &str, width: usize, fill: char)
    ensures
        final(out)@ == old(out)@ + pad_left(s@, width as nat, fill),
{
    let n = s.unicode_len();
    if n < width {
        push_repeat(out, fill, width - n);
    }
    out.append(s);
    assert(out@ =~= old(out)@ + pad_left(s@, width as nat, fill));
}

/// Appends `s` right-padded with `fill` to `width` characters.
pub fn push_padded_right(out: &mut String, s: &str, width: usize, fill: char)
    ensures
        final(out)@ == old(out)@ + pad_right(s@, width as nat, fill),
{
    let n = s.unicode_len();
    out.append(s);
    if n < width {
        push_repeat(out, fill, width - n);
    }
    assert(out@ =~= old(out)@ + pad_right(s@, width as nat, fill));
}

/// Appends the decimal rendering of `n`.
pub fn push_decimal(out: &mut String, n: u64)
    ensures
        final(out)@ == old(out)@ + decimal(n as nat),
{
    let d = decimal_string(n);
    out.append(d.as_str());
}

/// Appends the hexadecimal rendering of `n`, zero-padded to `width` digits.
pub fn push_hex(out: &mut String, n: u64, width: usize, upper: bool)
    ensures
        final(out)@ == old(out)@ + pad_left(hex(n as nat, upper), width as nat, '0'),
{
    let h = hex_string(n, upper);
    push_padded_left(out, h.as_str(), width, '0');
}

/// Unicode `White_Space`, the property `char::is_whitespace` tests.
pub open spec fn is_ws(c: char) -> bool {
    let u = c as u32;
    (0x9 <= u <= 0xd) || u == 0x20 || u == 0x85 || u == 0xa0 || u == 0x1680 || (0x2000 <= u
        <= 0x200a) || u == 0x2028 || u == 0x2029 || u == 0x202f || u == 0x205f || u == 0x3000
}

/// Whether `c` is white space (`char::is_whitespace`).
pub fn is_whitespace(c: char) -> (r: bool)
    ensures
        r == is_ws(c),
{
    let u = c as u32;
    (0x9 <= u && u <= 0xd) || u == 0x20 || u == 0x85 || u == 0xa0 || u == 0x1680 || (0x2000 <= u
        && u <= 0x200a) || u == 0x2028 || u == 0x2029 || u == 0x202f || u == 0x205f || u == 0x3000
}

/// The state of a left-to-right word split: the finished words and the word
/// being read.
pub open spec fn words_acc(s: Seq<char>) -> (Seq<Seq<char>>, Seq<char>)
    decreases s.len(),
{
    if s.len() == 0 {
        (Seq::empty(), Seq::empty())
    } else {
        let prev = words_acc(s.drop_last());
        if is_ws(s.last()) {
            if prev.1.len() > 0 {
                (prev.0.push(prev.1), Seq::empty())
            } else {
                (prev.0, Seq::empty())
            }
        } else {
            (prev.0, prev.1.push(s.last()))
        }
    }
}

/// The maximal runs of non-white-space characters of `s`, in order
/// (`str::split_whitespace`).
pub open spec fn words(s: Seq<char>) -> Seq<Seq<char>> {
    let p = words_acc(s);
    if p.1.len() > 0 {
        p.0.push(p.1)
    } else {
        p.0
    }
}

pub open spec fn string_views(v: Seq<String>) -> Seq<Seq<char>> {
    v.map_values(|w: String| w@)
}

/// Splits `s` into its white-space separated words.
pub fn split_words(s: &str) -> (r: Vec<String>)
    ensures
        string_views(r@) == words(s@),
{
    let n = s.unicode_len();
    let mut done: Vec<String> = Vec::new();
    let mut cur = String::new();
    let mut i: usize = 0;
    assert(s@.subrange(0, 0) =~= Seq::<char>::empty());
    while i < n
        invariant
            n == s@.len(),
            i <= n,
            words_acc(s@.subrange(0, i as int)) == (string_views(done@), cur@),
        decreases n - i,
    {
        let c = s.get_char(i);
        let ghost prev = s@.subrange(0, i as int);
        assert(s@.subrange(0, i + 1).drop_last() =~= prev);
        assert(s@.subrange(0, i + 1).last() == c);
        if is_whitespace(c) {
            if cur.unicode_len() > 0 {
                let ghost old_done = string_views(done@);
                let w = cur;
                done.push(w);
                cur = String::new();
                assert(string_views(done@) =~= old_done.push(w@));
            }
        } else {
            push_char(&mut cur, c);
        }
        i = i + 1;
    }
    assert(s@.subrange(0, n as int) =~= s@);
    if cur.unicode_len() > 0 {
        let ghost old_done = string_views(done@);
        let w = cur;
        done.push(w);
        assert(string_views(done@) =~= old_done.push(w@));
    }
    done
}

/// `s` without leading white space.
pub open spec fn trim_start(s: Seq<char>) -> Seq<char>
    decreases s.len(),
{
    if s.len() > 0 && is_ws(s[0]) {
        trim_start(s.drop_first())
    } else {
        s
    }
}

/// `s` without trailing white space.
pub open spec fn trim_end(s: Seq<char>) -> Seq<char>
    decreases s.len(),
{
    if s.len() > 0 && is_ws(s.last()) {
        trim_end(s.drop_last())
    } else {
        s
    }
}

/// `s` without leading and trailing white space (`str::trim`).
pub open spec fn trim(s: Seq<char>) -> Seq<char> {
    trim_end(trim_start(s))
}

/// `str::trim`.
pub fn trim_str(s: &str) -> (r: &str)
    ensures
        r@ == trim(s@),
{
    let n = s.unicode_len();
    let mut i: usize = 0;
    assert(s@.subrange(0, n as int) =~= s@);
    while i < n && is_whitespace(s.get_char(i))
        invariant
            n == s@.len(),
            i <= n,
            trim_start(s@) == trim_start(s@.subrange(i as int, n as int)),
        decreases n - i,
    {
        assert(s@.subrange(i as int, n as int).drop_first() =~= s@.subrange(i + 1, n as int));
        i = i + 1;
    }
    assert(trim_start(s@) == s@.subrange(i as int, n as int));
    let mut j: usize = n;
    while j > i && is_whitespace(s.get_char(j - 1))
        invariant
            n == s@.len(),
            i <= j <= n,
            trim(s@) == trim_end(s@.subrange(i as int, j as int)),
        decreases j,
    {
        assert(s@.subrange(i as int, j as int).drop_last() =~= s@.subrange(i as int, j - 1));
        j = j - 1;
    }
    s.substring_char(i, j)
}

/// Whether two strings hold the same characters.
pub fn str_eq(a: &str, b: &str) -> (r: bool)
    ensures
        r == (a@ == b@),
{
    let n = a.unicode_len();
    if n != b.unicode_len() {
        return false;
    }
    let mut i: usize = 0;
    while i < n
        invariant
            n == a@.len(),
            n == b@.len(),
            i <= n,
            a@.subrange(0, i as int) == b@.subrange(0, i as int),
        decreases n - i,
    {
        if a.get_char(i) != b.get_char(i) {
            return false;
        }
        assert(a@.subrange(0, i + 1) =~= a@.subrange(0, i as int).push(a@[i as int]));
        assert(b@.subrange(0, i + 1) =~= b@.subrange(0, i as int).push(b@[i as int]));
        i = i + 1;
    }
    assert(a@ =~= a@.subrange(0, n as int));
    assert(b@ =~= b@.subrange(0, n as int));
    true
}

/// Whether `s` begins with `p`.
pub fn starts_with(s: &str, p: &str) -> (r: bool)
    ensures
        r == (p@.len() <= s@.len() && s@.subrange(0, p@.len() as int) == p@),
{
    let n = p.unicode_len();
    if n > s.unicode_len() {
        return false;
    }
    let head = s.substring_char(0, n);
    str_eq(head, p)
}

/// Whether `s` ends with `p`.
pub fn ends_with(s: &str, p: &str) -> (r: bool)
    ensures
        r == (p@.len() <= s@.len() && s@.subrange(s@.len() - p@.len(), s@.len() as int) == p@),
{
    let n = p.unicode_len();
    let m = s.unicode_len();
    if n > m {
        return false;
    }
    let tail = s.substring_char(m - n, m);
    str_eq(tail, p)
}

/// The parts joined with `sep` between neighbours (`[..].join(sep)`).
pub open spec fn join(parts: Seq<Seq<char>>, sep: Seq<char>) -> Seq<char>
    decreases parts.len(),
{
    if parts.len() == 0 {
        Seq::empty()
    } else if parts.len() == 1 {
        parts[0]
    } else {
        join(parts.drop_last(), sep) + sep + parts.last()
    }
}

/// Joining one more part adds the separator (unless it is the first) and
/// the part.
pub proof fn lemma_join_push(parts: Seq<Seq<char>>, sep: Seq<char>, p: Seq<char>)
    ensures
        join(parts.push(p), sep) == if parts.len() == 0 {
            p
        } else {
            join(parts, sep) + sep + p
        },
{
    assert(parts.push(p).drop_last() =~= parts);
}

/// Appends `part` to a joined text of `count` parts.
pub fn push_part(out: &mut String, count: usize, sep: &str, part: &str)
    ensures
        final(out)@ == if count == 0 {
            old(out)@ + part@
        } else {
            old(out)@ + sep@ + part@
        },
{
    if count > 0 {
        out.append(sep);
    }
    out.append(part);
}

/// What `str::to_lowercase` returns for `s`.
pub uninterp spec fn lowercase(s: Seq<char>) -> Seq<char>;

/// All characters of `s` are ASCII.
pub open spec fn all_ascii(s: Seq<char>) -> bool {
    forall|i: int| 0 <= i < s.len() ==> (#[trigger] s[i] as u32) < 128
}

/// An ASCII character in lower case: `A` to `Z` become `a` to `z`, the rest
/// stay.
pub open spec fn ascii_lower(c: char) -> char {
    if 'A' <= c && c <= 'Z' {
        ((c as u32) + 32) as char
    } else {
        c
    }
}

/// The lower-case form of `s`: letter by letter for ASCII text, else
/// Unicode's case mapping.
pub open spec fn lowered(s: Seq<char>) -> Seq<char> {
    if all_ascii(s) {
        Seq::new(s.len(), |i: int| ascii_lower(s[i]))
    } else {
        lowercase(s)
    }
}

/// `str::to_lowercase`: the lower-case equivalent of `s` under Unicode's
/// case mapping. Claimed: the result is the named function `lowercase` of
/// the text, and ASCII text is lowered letter by letter (`A` to `Z` to `a`
/// to `z`, nothing else changed); what the mapping does beyond ASCII is
/// left to Unicode.
#[verifier::external_body]
pub(crate) fn to_lowercase(s: &str) -> (r: String)
    ensures
        r@ == lowercase(s@),
        all_ascii(s@) ==> r@ == Seq::new(s@.len(), |i: int| ascii_lower(s@[i])),
{
    s.to_lowercase()
}

/// `p` occurs in `s` as a run of consecutive characters.
pub open spec fn occurs_in(p: Seq<char>, s: Seq<char>) -> bool {
    exists|i: int| 0 <= i <= s.len() - p.len() && #[trigger] s.subrange(i, i + p.len()) == p
}

/// `str::contains` with a string pattern.
pub fn contains_str(s: &str, p: &str) -> (r: bool)
    ensures
        r == occurs_in(p@, s@),
{
    let n = s.unicode_len();
    let m = p.unicode_len();
    if m > n {
        return false;
    }
    if m == 0 {
        assert(s@.subrange(0int, 0int + p@.len()) =~= p@);
        return true;
    }
    let mut i: usize = 0;
    while i <= n - m
        invariant
            n == s@.len(),
            m == p@.len(),
            1 <= m <= n,
            i <= n - m + 1,
            forall|j: int| 0 <= j < i ==> #[trigger] s@.subrange(j, j + m) != p@,
        decreases n - m + 1 - i,
    {
        if str_eq(s.substring_char(i, i + m), p) {
            return true;
        }
        i = i + 1;
    }
    false
}

} // verus!

verus! {

/// `n` copies of a character make `n` characters.
pub proof fn lemma_repeat_len(c: char, n: nat)
    ensures
        repeat(c, n).len() == n,
        forall|i: int| 0 <= i < n ==> #[trigger] repeat(c, n)[i] == c,
    decreases n,
{
    if n > 0 {
        lemma_repeat_len(c, (n - 1) as nat);
        assert forall|i: int| 0 <= i < n implies #[trigger] repeat(c, n)[i] == c by {
            if i < n - 1 {
                assert(repeat(c, n)[i] == repeat(c, (n - 1) as nat)[i]);
            }
        }
    }
}

/// Padding a text no wider than the field fills the field exactly.
pub proof fn lemma_pad_len(s: Seq<char>, width: nat, fill: char)
    ensures
        s.len() <= width ==> pad_left(s, width, fill).len() == width,
        s.len() <= width ==> pad_right(s, width, fill).len() == width,
        s.len() > width ==> pad_left(s, width, fill) == s && pad_right(s, width, fill) == s,
{
    if s.len() < width {
        lemma_repeat_len(fill, (width - s.len()) as nat);
    }
}

/// Sixteen to the power `k`.
pub open spec fn pow16(k: nat) -> nat
    decreases k,
{
    if k == 0 {
        1
    } else {
        16 * pow16((k - 1) as nat)
    }
}

/// A number below sixteen to the `k` has at least one and at most `k`
/// hexadecimal digits.
pub proof fn lemma_hex_len(n: nat, k: nat, upper: bool)
    requires
        1 <= k,
        n < pow16(k),
    ensures
        1 <= hex(n, upper).len() <= k,
    decreases n,
{
    if n >= 16 {
        lemma_div_smaller(n, 16);
        if k == 1 {
            assert(pow16(1) == 16 * pow16(0));
        }
        let p = pow16((k - 1) as nat);
        assert(n < 16 * p);
        assert(n / 16 < p) by (nonlinear_arith)
            requires
                n < 16 * p,
        ;
        lemma_hex_len(n / 16, (k - 1) as nat, upper);
    }
}

/// A byte has one or two hexadecimal digits; a 64-bit value at most
/// sixteen.
pub proof fn lemma_hex_len_bounds(b: u8, v: u64, upper: bool)
    ensures
        1 <= hex(b as nat, upper).len() <= 2,
        1 <= hex(v as nat, upper).len() <= 16,
{
    assert(pow16(0) == 1);
    assert(pow16(1) == 16);
    assert(pow16(2) == 256);
    lemma_hex_len(b as nat, 2, upper);
    assert(pow16(3) == 0x1000);
    assert(pow16(4) == 0x10000);
    assert(pow16(5) == 0x100000);
    assert(pow16(6) == 0x1000000);
    assert(pow16(7) == 0x10000000);
    assert(pow16(8) == 0x100000000);
    assert(pow16(9) == 0x1000000000);
    assert(pow16(10) == 0x10000000000);
    assert(pow16(11) == 0x100000000000);
    assert(pow16(12) == 0x1000000000000);
    assert(pow16(13) == 0x10000000000000);
    assert(pow16(14) == 0x100000000000000);
    assert(pow16(15) == 0x1000000000000000);
    assert(pow16(16) == 0x10000000000000000);
    lemma_hex_len(v as nat, 16, upper);
}

} // verus!
