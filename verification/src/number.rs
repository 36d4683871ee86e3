//! Reading and writing whole numbers in text, as `str::parse` and
//! `u8::from_str_radix` read them and `to_string` writes them.

use vstd::prelude::*;

verus! {

/// The value of the digit `c` in base `radix` (at most 36), as
/// `char::to_digit` gives it.
pub open spec fn digit_value(c: char, radix: nat) -> Option<nat> {
    let n = c as u32;
    if 48 <= n && n <= 57 && n - 48 < radix {
        Some((n - 48) as nat)
    } else if 97 <= n && n <= 122 && n - 87 < radix {
        Some((n - 87) as nat)
    } else if 65 <= n && n <= 90 && n - 55 < radix {
        Some((n - 55) as nat)
    } else {
        None
    }
}

/// Every character of `s` is a digit in base `radix`.
pub open spec fn all_digits(s: Seq<char>, radix: nat) -> bool {
    forall|i: int| 0 <= i < s.len() ==> digit_value(#[trigger] s[i], radix) is Some
}

/// The number the digits `s` write in base `radix`.
pub open spec fn digits_value(s: Seq<char>, radix: nat) -> nat
    decreases s.len(),
{
    if s.len() == 0 {
        0
    } else {
        digits_value(s.drop_last(), radix) * radix + digit_value(s.last(), radix).unwrap_or(0)
    }
}

/// What an unsigned integer parse makes of `s`, before the range check: an
/// optional `+`, then at least one digit.
pub open spec fn parse_unsigned(s: Seq<char>, radix: nat) -> Option<nat> {
    if s.len() == 0 {
        None
    } else {
        let d = if s[0] == '+' {
            s.drop_first()
        } else {
            s
        };
        if d.len() > 0 && all_digits(d, radix) {
            Some(digits_value(d, radix))
        } else {
            None
        }
    }
}

/// What a signed integer parse makes of `s`, before the range check: an
/// optional `+` or `-`, then at least one decimal digit.
pub open spec fn parse_signed(s: Seq<char>) -> Option<int> {
    if s.len() > 0 && s[0] == '-' {
        let d = s.drop_first();
        if d.len() > 0 && all_digits(d, 10) {
            Some(-(digits_value(d, 10) as int))
        } else {
            None
        }
    } else {
        match parse_unsigned(s, 10) {
            Some(v) => Some(v as int),
            None => None,
        }
    }
}

/// `str::parse::<u16>`.
pub open spec fn parse_u16(s: Seq<char>) -> Option<u16> {
    match parse_unsigned(s, 10) {
        Some(v) => if v <= u16::MAX {
            Some(v as u16)
        } else {
            None
        },
        None => None,
    }
}

/// `u8::from_str_radix(s, radix)`.
pub open spec fn parse_u8_radix(s: Seq<char>, radix: nat) -> Option<u8> {
    match parse_unsigned(s, radix) {
        Some(v) => if v <= u8::MAX {
            Some(v as u8)
        } else {
            None
        },
        None => None,
    }
}

/// `str::parse::<i64>`.
pub open spec fn parse_i64(s: Seq<char>) -> Option<i64> {
    match parse_signed(s) {
        Some(v) => if i64::MIN <= v && v <= i64::MAX {
            Some(v as i64)
        } else {
            None
        },
        None => None,
    }
}

/// The value of one digit.
fn digit(c: char, radix: u32) -> (r: Option<u32>)
    requires
        2 <= radix <= 36,
    ensures
        match r {
            Some(d) => digit_value(c, radix as nat) == Some(d as nat) && d < radix,
            None => digit_value(c, radix as nat) is None,
        },
{
    let n = c as u32;
    if 48 <= n && n <= 57 && n - 48 < radix {
        Some(n - 48)
    } else if 97 <= n && n <= 122 && n - 87 < radix {
        Some(n - 87)
    } else if 65 <= n && n <= 90 && n - 55 < radix {
        Some(n - 55)
    } else {
        None
    }
}

proof fn lemma_value_grows(s: Seq<char>, k: int, radix: nat)
    requires
        0 <= k <= s.len(),
        radix >= 1,
    ensures
        digits_value(s.subrange(0, k), radix) <= digits_value(s, radix),
    decreases s.len() - k,
{
    if k < s.len() {
        lemma_value_grows(s, k + 1, radix);
        let a = s.subrange(0, k + 1);
        assert(a.drop_last() =~= s.subrange(0, k));
        let x = digits_value(a.drop_last(), radix);
        assert(x * radix >= x) by (nonlinear_arith)
            requires
                radix >= 1,
        ;
    } else {
        assert(s.subrange(0, k) =~= s);
    }
}

/// The digits `v[lo..]` in base `radix`, if they all are digits and the
/// number is at most `cap`.
fn digits_up_to(v: &[char], lo: usize, radix: u32, cap: u64) -> (r: Option<u64>)
    requires
        lo <= v@.len(),
        2 <= radix <= 36,
    ensures
        ({
            let d = v@.subrange(lo as int, v@.len() as int);
            r == (if all_digits(d, radix as nat) && digits_value(d, radix as nat) <= cap {
                Some(digits_value(d, radix as nat) as u64)
            } else {
                None
            })
        }),
{
    let ghost d = v@.subrange(lo as int, v@.len() as int);
    let mut acc: u64 = 0;
    let mut i: usize = lo;
    assert(d.subrange(0, 0) =~= Seq::<char>::empty());
    while i < v.len()
        invariant
            lo <= i <= v@.len(),
            d == v@.subrange(lo as int, v@.len() as int),
            2 <= radix <= 36,
            all_digits(d.subrange(0, i - lo), radix as nat),
            acc as nat == digits_value(d.subrange(0, i - lo), radix as nat),
            acc <= cap,
        decreases v@.len() - i,
    {
        let ghost pre = d.subrange(0, i - lo);
        let ghost next = d.subrange(0, i - lo + 1);
        assert(next.drop_last() =~= pre);
        assert(next.last() == v@[i as int]);
        match digit(v[i], radix) {
            None => {
                assert(!all_digits(d, radix as nat)) by {
                    assert(d[i - lo] == v@[i as int]);
                }
                return None;
            },
            Some(x) => {
                assert((acc as u128) * (radix as u128) <= 0xffff_ffff_ffff_ffffu128 * 36u128)
                    by (nonlinear_arith)
                    requires
                        acc <= 0xffff_ffff_ffff_ffffu64,
                        radix <= 36,
                ;
                let wide: u128 = (acc as u128) * (radix as u128) + (x as u128);
                assert(wide == digits_value(next, radix as nat));
                if wide > cap as u128 {
                    proof {
                        if all_digits(d, radix as nat) {
                            lemma_value_grows(d, i - lo + 1, radix as nat);
                        }
                    }
                    return None;
                }
                acc = wide as u64;
                assert(all_digits(next, radix as nat)) by {
                    assert forall|j: int| 0 <= j < next.len() implies digit_value(
                        #[trigger] next[j],
                        radix as nat,
                    ) is Some by {
                        if j < pre.len() {
                            assert(next[j] == pre[j]);
                        }
                    }
                }
            },
        }
        i = i + 1;
    }
    assert(d.subrange(0, i - lo) =~= d);
    Some(acc)
}

/// `u16` from `v`, as `str::parse::<u16>` reads it.
pub fn parse_u16_chars(v: &[char]) -> (r: Option<u16>)
    ensures
        r == parse_u16(v@),
{
    if v.len() == 0 {
        return None;
    }
    let lo: usize = if v[0] == '+' { 1 } else { 0 };
    if lo == v.len() {
        return None;
    }
    proof {
        if v@[0] == '+' {
            assert(v@.drop_first() =~= v@.subrange(1, v@.len() as int));
        } else {
            assert(v@ =~= v@.subrange(0, v@.len() as int));
        }
    }
    match digits_up_to(v, lo, 10, 65535) {
        Some(n) => Some(n as u16),
        None => None,
    }
}

/// `u8` from `v` in base `radix`, as `u8::from_str_radix` reads it.
pub fn parse_u8_radix_chars(v: &[char], radix: u32) -> (r: Option<u8>)
    requires
        2 <= radix <= 36,
    ensures
        r == parse_u8_radix(v@, radix as nat),
{
    if v.len() == 0 {
        return None;
    }
    let lo: usize = if v[0] == '+' { 1 } else { 0 };
    if lo == v.len() {
        return None;
    }
    proof {
        if v@[0] == '+' {
            assert(v@.drop_first() =~= v@.subrange(1, v@.len() as int));
        } else {
            assert(v@ =~= v@.subrange(0, v@.len() as int));
        }
    }
    match digits_up_to(v, lo, radix, 255) {
        Some(n) => Some(n as u8),
        None => None,
    }
}

/// `i64` from `v`, as `str::parse::<i64>` reads it.
pub fn parse_i64_chars(v: &[char]) -> (r: Option<i64>)
    ensures
        r == parse_i64(v@),
{
    if v.len() == 0 {
        return None;
    }
    if v[0] == '-' {
        if v.len() == 1 {
            return None;
        }
        assert(v@.drop_first() =~= v@.subrange(1, v@.len() as int));
        match digits_up_to(v, 1, 10, 9223372036854775808) {
            Some(n) => {
                if n == 9223372036854775808 {
                    Some(i64::MIN)
                } else {
                    Some(-(n as i64))
                }
            },
            None => None,
        }
    } else {
        let lo: usize = if v[0] == '+' { 1 } else { 0 };
        if lo == v.len() {
            return None;
        }
        proof {
            if v@[0] == '+' {
                assert(v@.drop_first() =~= v@.subrange(1, v@.len() as int));
            } else {
                assert(v@ =~= v@.subrange(0, v@.len() as int));
            }
        }
        match digits_up_to(v, lo, 10, 9223372036854775807) {
            Some(n) => Some(n as i64),
            None => None,
        }
    }
}

/// The decimal digit for `d`.
pub open spec fn digit_char(d: nat) -> char {
    ((48 + d) as u32) as char
}

/// `n` in decimal, as `to_string` writes it.
pub open spec fn decimal(n: nat) -> Seq<char>
    decreases n,
{
    if n < 10 {
        seq![digit_char(n)]
    } else {
        decimal(n / 10).push(digit_char(n % 10))
    }
}

/// `n` in decimal.
pub fn decimal_chars(n: u64) -> (r: Vec<char>)
    ensures
        r@ == decimal(n as nat),
    decreases n,
{
    if n < 10 {
        let c = ((48 + n) as u8) as char;
        let mut r: Vec<char> = Vec::new();
        r.push(c);
        assert(r@ =~= seq![digit_char(n as nat)]);
        r
    } else {
        let mut r = decimal_chars(n / 10);
        let c = ((48 + n % 10) as u8) as char;
        r.push(c);
        r
    }
}

} // verus!
