//! Modular 16-bit arithmetic: the coordinate space of a text screen.
//!
//! Coordinates and sizes are `i16` values that wrap around; sizes are
//! usually read as unsigned 16-bit numbers.

use vstd::prelude::*;

verus! {

/// The unsigned reading of a 16-bit value.
pub open spec fn uv(x: i16) -> int {
    if x < 0 { x + 0x10000 } else { x as int }
}

/// The 16-bit value that `x` stands for modulo 2^16.
pub open spec fn wrap16(x: int) -> i16 {
    let m = x % 0x10000;
    if m >= 0x8000 { (m - 0x10000) as i16 } else { m as i16 }
}

/// The signed 16-bit value whose unsigned reading is `x` (for `0 <= x < 2^16`).
pub open spec fn from_uv(x: int) -> i16 {
    wrap16(x)
}

pub proof fn lemma_wrap16_id(x: int)
    requires
        i16::MIN <= x <= i16::MAX,
    ensures
        wrap16(x) == x,
{
}

pub proof fn lemma_wrap16_add_right(s: int, c: int)
    ensures
        wrap16(wrap16(s) + c) == wrap16(s + c),
{
}

pub proof fn lemma_wrap16_mod(x: int)
    ensures
        (wrap16(x) as int) % 0x10000 == x % 0x10000,
        uv(wrap16(x)) == x % 0x10000,
{
}

pub proof fn lemma_wrapping_add(a: i16, b: i16)
    ensures
        a.wrapping_add(b) == wrap16(a + b),
{
}

pub proof fn lemma_wrapping_sub(a: i16, b: i16)
    ensures
        a.wrapping_sub(b) == wrap16(a - b),
{
}

pub proof fn lemma_wrap16_congr(a: int, b: int)
    requires
        a % 0x10000 == b % 0x10000,
    ensures
        wrap16(a) == wrap16(b),
{
}

pub proof fn lemma_wrap16_shift(a: int, k: int)
    ensures
        wrap16(a + wrap16(k)) == wrap16(a + k),
        wrap16(a - wrap16(k)) == wrap16(a - k),
{
    lemma_wrap16_mod(k);
    vstd::arithmetic::div_mod::lemma_add_mod_noop(a, wrap16(k) as int, 0x10000);
    vstd::arithmetic::div_mod::lemma_add_mod_noop(a, k, 0x10000);
    vstd::arithmetic::div_mod::lemma_sub_mod_noop(a, wrap16(k) as int, 0x10000);
    vstd::arithmetic::div_mod::lemma_sub_mod_noop(a, k, 0x10000);
    lemma_wrap16_congr(a + wrap16(k), a + k);
    lemma_wrap16_congr(a - wrap16(k), a - k);
}

/// `x.wrapping_add(k as i16)` for an unsigned amount `k`.
pub fn wadd_u(x: i16, k: u16) -> (r: i16)
    ensures
        r == wrap16(x + k),
{
    let ki = from_u16(k);
    proof {
        lemma_wrap16_shift(x as int, k as int);
    }
    x.wrapping_add(ki)
}

/// `x.wrapping_sub(k as i16)` for an unsigned amount `k`.
pub fn wsub_u(x: i16, k: u16) -> (r: i16)
    ensures
        r == wrap16(x - k),
{
    let ki = from_u16(k);
    proof {
        lemma_wrap16_shift(x as int, k as int);
    }
    x.wrapping_sub(ki)
}

/// Reading a 16-bit value as unsigned is its cast to `u16`.
pub proof fn lemma_uv_cast(x: i16)
    ensures
        (x as u16) as int == uv(x),
{
    let r = x as u16;
    assert(x >= 0 ==> r == x) by (bit_vector)
        requires
            r == x as u16;
    assert(x < 0 ==> r == x + 0x10000) by (bit_vector)
        requires
            r == x as u16;
}

/// `x as u16` on a signed coordinate.
pub fn to_u16(x: i16) -> (r: u16)
    ensures
        r == uv(x),
{
    let r = x as u16;
    assert(x >= 0 ==> r == x) by (bit_vector)
        requires
            r == x as u16;
    assert(x < 0 ==> r == x + 0x10000) by (bit_vector)
        requires
            r == x as u16;
    r
}

/// `x as i16` on an unsigned size.
pub fn from_u16(x: u16) -> (r: i16)
    ensures
        uv(r) == x,
        r == from_uv(x as int),
{
    let r = x as i16;
    assert(x < 0x8000 ==> r == x) by (bit_vector)
        requires
            r == x as i16;
    assert(x >= 0x8000 ==> r == x - 0x10000) by (bit_vector)
        requires
            r == x as i16;
    r
}

/// `x.wrapping_add(y)` on coordinates.
pub fn wadd(x: i16, y: i16) -> (r: i16)
    ensures
        r == wrap16(x + y),
{
    x.wrapping_add(y)
}

/// `x.wrapping_sub(y)` on coordinates.
pub fn wsub(x: i16, y: i16) -> (r: i16)
    ensures
        r == wrap16(x - y),
{
    x.wrapping_sub(y)
}

/// A non-empty run of decimal digits.
pub open spec fn is_decimal(s: Seq<char>) -> bool {
    s.len() > 0 && forall|i: int| 0 <= i < s.len() ==> '0' <= #[trigger] s[i] <= '9'
}

/// The value of a run of decimal digits.
pub open spec fn decimal_value(s: Seq<char>) -> int
    decreases s.len(),
{
    if s.len() == 0 {
        0
    } else {
        decimal_value(s.drop_last()) * 10 + (s.last() as int - '0' as int)
    }
}

/// The integer a text reads as, the way `from_str` reads it for an integer
/// type: an optional sign (`-` only for a `signed` type), then decimal
/// digits; nothing else, not even whitespace.
pub open spec fn int_from_text(s: Seq<char>, signed: bool) -> Option<int> {
    if s.len() > 0 && s[0] == '-' && signed {
        if is_decimal(s.skip(1)) { Some(-decimal_value(s.skip(1))) } else { None }
    } else if s.len() > 0 && s[0] == '+' {
        if is_decimal(s.skip(1)) { Some(decimal_value(s.skip(1))) } else { None }
    } else if is_decimal(s) {
        Some(decimal_value(s))
    } else {
        None
    }
}

} // verus!
