//! Integer parsing with the semantics of `from_str_radix` and `str::parse`.

use vstd::prelude::*;

verus! {

/// The value of an ASCII digit or letter in base 36 (`char::to_digit(36)`).
pub open spec fn digit_value(c: char) -> Option<nat> {
    let u = c as u32;
    if 48 <= u <= 57 {
        Some((u - 48) as nat)
    } else if 97 <= u <= 122 {
        Some((u - 97 + 10) as nat)
    } else if 65 <= u <= 90 {
        Some((u - 65 + 10) as nat)
    } else {
        None
    }
}

/// The value of `c` as a digit in base `radix` (`char::to_digit`).
pub open spec fn digit_in(c: char, radix: nat) -> Option<nat> {
    match digit_value(c) {
        Some(d) => if d < radix {
            Some(d)
        } else {
            None
        },
        None => None,
    }
}

/// The number the digits `s` spell in base `radix` (most significant first),
/// or `None` when a character is not such a digit.
pub open spec fn digits_value(s: Seq<char>, radix: nat) -> Option<nat>
    decreases s.len(),
{
    if s.len() == 0 {
        Some(0)
    } else {
        match (digits_value(s.drop_last(), radix), digit_in(s.last(), radix)) {
            (Some(v), Some(d)) => Some(v * radix + d),
            _ => None,
        }
    }
}

/// `v` if it is present and at most `max`.
pub open spec fn at_most(v: Option<nat>, max: nat) -> Option<nat> {
    match v {
        Some(x) => if x <= max {
            Some(x)
        } else {
            None
        },
        None => None,
    }
}

/// What `from_str_radix` of an unsigned type whose largest value is `max`
/// returns: an optional `+`, then at least one digit, no overflow.
pub open spec fn parse_unsigned(s: Seq<char>, radix: nat, max: nat) -> Option<nat> {
    if s.len() == 0 {
        None
    } else {
        let body = if s[0] == '+' {
            s.drop_first()
        } else {
            s
        };
        if body.len() == 0 {
            None
        } else {
            at_most(digits_value(body, radix), max)
        }
    }
}

/// What `str::parse::<i64>` returns.
pub open spec fn parse_i64_spec(s: Seq<char>) -> Option<int> {
    if s.len() == 0 {
        None
    } else if s[0] == '-' {
        if s.len() == 1 {
            None
        } else {
            match at_most(digits_value(s.drop_first(), 10), 0x8000_0000_0000_0000) {
                Some(v) => Some(-v),
                None => None,
            }
        }
    } else {
        match parse_unsigned(s, 10, 0x7fff_ffff_ffff_ffff) {
            Some(v) => Some(v as int),
            None => None,
        }
    }
}

proof fn lemma_digits_prefix(s: Seq<char>, radix: nat, k: int)
    requires
        radix >= 1,
        0 <= k <= s.len(),
        digits_value(s, radix) is Some,
    ensures
        digits_value(s.subrange(0, k), radix) is Some,
        digits_value(s.subrange(0, k), radix)->0 <= digits_value(s, radix)->0,
    decreases s.len() - k,
{
    if k == s.len() {
        assert(s.subrange(0, k) =~= s);
    } else {
        let t = s.drop_last();
        assert(t.subrange(0, k) =~= s.subrange(0, k));
        lemma_digits_prefix(t, radix, k);
        let v = digits_value(t, radix)->0;
        let d = digit_in(s.last(), radix)->0;
        assert(v * radix + d >= v) by (nonlinear_arith)
            requires
                radix >= 1,
        ;
    }
}

fn digit_of(c: char, radix: u64) -> (r: Option<u64>)
    requires
        2 <= radix <= 36,
    ensures
        r is Some <==> digit_in(c, radix as nat) is Some,
        r matches Some(d) ==> digit_in(c, radix as nat) == Some(d as nat),
{
    let u = c as u32;
    let d: u64 = if 48 <= u && u <= 57 {
        (u - 48) as u64
    } else if 97 <= u && u <= 122 {
        (u - 97 + 10) as u64
    } else if 65 <= u && u <= 90 {
        (u - 65 + 10) as u64
    } else {
        return None;
    };
    if d < radix {
        Some(d)
    } else {
        None
    }
}

/// Reads the digits `s[start..]` in base `radix`, failing on a non-digit or
/// on a value above `max`.
pub fn read_digits(s: &str, start: usize, radix: u64, max: u64) -> (r: Option<u64>)
    requires
        start <= s@.len(),
        2 <= radix <= 36,
    ensures
        r is Some <==> at_most(digits_value(s@.subrange(start as int, s@.len() as int), radix as nat), max as nat) is Some,
        r matches Some(v) ==> at_most(
            digits_value(s@.subrange(start as int, s@.len() as int), radix as nat),
            max as nat,
        ) == Some(v as nat),
{
    let n = s.unicode_len();
    let mut v: u64 = 0;
    let mut i: usize = start;
    assert(s@.subrange(start as int, start as int) =~= Seq::<char>::empty());
    while i < n
        invariant
            n == s@.len(),
            start <= i <= n,
            2 <= radix <= 36,
            digits_value(s@.subrange(start as int, i as int), radix as nat) == Some(v as nat),
            v <= max,
        decreases n - i,
    {
        let ghost full = s@.subrange(start as int, n as int);
        let ghost pre = s@.subrange(start as int, i as int);
        let ghost next = s@.subrange(start as int, i + 1);
        assert(next.drop_last() =~= pre);
        assert(full.subrange(0, i + 1 - start) =~= next);
        let c = s.get_char(i);
        let d = match digit_of(c, radix) {
            Some(d) => d,
            None => {
                proof {
                    if digits_value(full, radix as nat) is Some {
                        lemma_digits_prefix(full, radix as nat, i + 1 - start);
                    }
                }
                return None;
            },
        };
        assert(digits_value(next, radix as nat) == Some((v * radix + d) as nat));
        let w = match v.checked_mul(radix) {
            Some(m) => match m.checked_add(d) {
                Some(w) => w,
                None => {
                    proof {
                        if digits_value(full, radix as nat) is Some {
                            lemma_digits_prefix(full, radix as nat, i + 1 - start);
                        }
                    }
                    return None;
                },
            },
            None => {
                proof {
                    assert(v * radix + d >= v * radix) by (nonlinear_arith)
                        requires
                            d >= 0,
                    ;
                    if digits_value(full, radix as nat) is Some {
                        lemma_digits_prefix(full, radix as nat, i + 1 - start);
                    }
                }
                return None;
            },
        };
        if w > max {
            proof {
                if digits_value(full, radix as nat) is Some {
                    lemma_digits_prefix(full, radix as nat, i + 1 - start);
                }
            }
            return None;
        }
        v = w;
        i = i + 1;
    }
    Some(v)
}

/// `from_str_radix` for an unsigned integer type whose largest value is `max`.
pub fn parse_unsigned_str(s: &str, radix: u64, max: u64) -> (r: Option<u64>)
    requires
        2 <= radix <= 36,
    ensures
        r is Some <==> parse_unsigned(s@, radix as nat, max as nat) is Some,
        r matches Some(v) ==> parse_unsigned(s@, radix as nat, max as nat) == Some(v as nat),
{
    let n = s.unicode_len();
    if n == 0 {
        return None;
    }
    let start: usize = if s.get_char(0) == '+' {
        1
    } else {
        0
    };
    if start == n {
        return None;
    }
    assert(s@.drop_first() =~= s@.subrange(1, n as int));
    assert(s@ =~= s@.subrange(0, n as int));
    read_digits(s, start, radix, max)
}

/// `str::parse::<u64>()`.
pub fn parse_u64(s: &str) -> (r: Option<u64>)
    ensures
        r is Some <==> parse_unsigned(s@, 10, u64::MAX as nat) is Some,
        r matches Some(v) ==> parse_unsigned(s@, 10, u64::MAX as nat) == Some(v as nat),
{
    parse_unsigned_str(s, 10, u64::MAX)
}

/// `str::parse::<i64>()`.
pub fn parse_i64(s: &str) -> (r: Option<i64>)
    ensures
        r is Some <==> parse_i64_spec(s@) is Some,
        r matches Some(v) ==> parse_i64_spec(s@) == Some(v as int),
{
    let n = s.unicode_len();
    if n == 0 {
        return None;
    }
    if s.get_char(0) == '-' {
        if n == 1 {
            return None;
        }
        assert(s@.drop_first() =~= s@.subrange(1, n as int));
        match read_digits(s, 1, 10, 0x8000_0000_0000_0000) {
            Some(m) => {
                if m == 0x8000_0000_0000_0000 {
                    Some(i64::MIN)
                } else {
                    Some(-(m as i64))
                }
            },
            None => None,
        }
    } else {
        match parse_unsigned_str(s, 10, 0x7fff_ffff_ffff_ffff) {
            Some(m) => Some(m as i64),
            None => None,
        }
    }
}

} // verus!
