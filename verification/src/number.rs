//! Division that rounds toward zero, and game clocks.

use crate::text;
use vstd::prelude::*;

verus! {

/// The quotient of `a` by the positive `b`, rounded toward zero.
pub open spec fn quotient(a: int, b: int) -> int {
    if a < 0 {
        -((-a) / b)
    } else {
        a / b
    }
}

/// What is left of `a` after its quotient by the positive `b`: it has the sign of `a`.
pub open spec fn remainder(a: int, b: int) -> int {
    if a < 0 {
        -((-a) % b)
    } else {
        a % b
    }
}

/// The quotient and the remainder make up the dividend.
pub proof fn lemma_quotient_remainder(a: int, b: int)
    requires
        b > 0,
    ensures
        quotient(a, b) * b + remainder(a, b) == a,
{
    let m = if a < 0 {
        -a
    } else {
        a
    };
    vstd::arithmetic::div_mod::lemma_fundamental_div_mod(m, b);
    assert(b * (m / b) == (m / b) * b) by (nonlinear_arith);
    assert((-(m / b)) * b == -((m / b) * b)) by (nonlinear_arith);
}

/// The quotient of `a` by `b`, rounded toward zero.
pub fn div(a: i64, b: u32) -> (r: i64)
    requires
        b > 0,
    ensures
        r == quotient(a as int, b as int),
{
    if a < 0 {
        let m: u128 = (-(a as i128)) as u128;
        assert(m / b as u128 <= m) by (nonlinear_arith)
            requires
                b > 0,
        ;
        (-((m / b as u128) as i128)) as i64
    } else {
        let m: u64 = a as u64;
        assert(m / b as u64 <= m) by (nonlinear_arith)
            requires
                b > 0,
        ;
        (m / b as u64) as i64
    }
}

/// What is left of `a` after its quotient by `b`.
pub fn modulo(a: i64, b: u32) -> (r: i64)
    requires
        b > 0,
    ensures
        r == remainder(a as int, b as int),
{
    if a < 0 {
        let m: u128 = (-(a as i128)) as u128;
        (-((m % b as u128) as i128)) as i64
    } else {
        let m: u64 = a as u64;
        (m % b as u64) as i64
    }
}

/// The bits of a signed number read as an unsigned one.
pub open spec fn unsigned_bits(n: int) -> nat {
    if n < 0 {
        (n + 0x1_0000_0000_0000_0000) as nat
    } else {
        n as nat
    }
}

/// The bits of a signed number read as an unsigned one.
pub fn to_unsigned(n: i64) -> (r: u64)
    ensures
        r == unsigned_bits(n as int),
{
    if n < 0 {
        (n as i128 + 0x1_0000_0000_0000_0000) as u64
    } else {
        n as u64
    }
}

/// `n`, with a zero in front where it has one digit only.
pub open spec fn two_digits(n: nat) -> Seq<char> {
    if n < 10 {
        "0"@ + text::decimal(n)
    } else {
        text::decimal(n)
    }
}

/// Seconds as minutes and seconds.
pub open spec fn clock(s: nat) -> Seq<char> {
    text::decimal(s / 60) + ":"@ + two_digits(s % 60)
}

/// Seconds as minutes and seconds.
pub fn fmt_secs(s: u64) -> (r: String)
    ensures
        r@ == clock(s as nat),
{
    let secs: u64 = s % 60;
    let tail = if secs < 10 {
        text::cat2("0", text::decimal_text(secs as u128).as_str())
    } else {
        text::decimal_text(secs as u128)
    };
    text::cat3(text::decimal_text((s / 60) as u128).as_str(), ":", tail.as_str())
}

/// The whole part of a quotient by a positive number does not fall as what is divided grows.
pub proof fn lemma_quotient_grows(a: int, b: int, d: int)
    requires
        a <= b,
        d > 0,
    ensures
        quotient(a, d) <= quotient(b, d),
{
    if a < 0 && b < 0 {
        vstd::arithmetic::div_mod::lemma_div_is_ordered(-b, -a, d);
    } else if a < 0 {
        vstd::arithmetic::div_mod::lemma_div_pos_is_pos(-a, d);
        vstd::arithmetic::div_mod::lemma_div_pos_is_pos(b, d);
    } else {
        vstd::arithmetic::div_mod::lemma_div_is_ordered(a, b, d);
    }
}

/// A quotient and a remainder make up the number again, and the remainder is less than the divisor
/// and has the number's sign.
pub proof fn lemma_division(a: i64, b: u32, q: i64, m: i64)
    requires
        b > 0,
        call_ensures(div, (a, b), q),
        call_ensures(modulo, (a, b), m),
    ensures
        q * b + m == a,
        a >= 0 ==> 0 <= m < b,
        a <= 0 ==> -b < m <= 0,
{
    lemma_quotient_remainder(a as int, b as int);
}

/// A time on the clock shows its minutes and, in two digits, its seconds.
pub proof fn lemma_clock(s: u64, r: String)
    requires
        call_ensures(fmt_secs, (s,), r),
    ensures
        ({
            let n = r@.len() - 3;
            &&& n > 0
            &&& r@[n] == ':'
            &&& text::is_number(r@.take(n)) && text::is_number(r@.skip(n + 1))
            &&& text::value(r@.skip(n + 1)) < 60
            &&& text::value(r@.take(n)) * 60 + text::value(r@.skip(n + 1)) == s
        }),
{
    reveal_strlit(":");
    reveal_strlit("0");
    let m = (s / 60) as nat;
    let t = (s % 60) as nat;
    let a = text::decimal(m);
    let b = two_digits(t);
    text::lemma_decimal_reads_back(m);
    text::lemma_decimal_reads_back(t);
    lemma_two_digits(t);
    let n = a.len() as int;
    assert(r@.len() == n + 3);
    assert(r@.take(n) =~= a);
    assert(r@.skip(n + 1) =~= b);
}

proof fn lemma_two_digits(t: nat)
    requires
        t < 60,
    ensures
        two_digits(t).len() == 2,
        text::is_number(two_digits(t)),
        text::value(two_digits(t)) == t,
{
    reveal_strlit("0");
    text::lemma_decimal_reads_back(t);
    reveal_with_fuel(text::decimal, 3);
    reveal_with_fuel(text::value, 3);
    let d = text::decimal(t);
    if t < 10 {
        assert(d.len() == 1);
        let s = "0"@ + d;
        assert(s.drop_last() =~= "0"@);
        assert("0"@.drop_last() =~= Seq::<char>::empty());
        assert(s.last() == d.last());
        assert(d.drop_last() =~= Seq::<char>::empty());
    } else {
        assert(t / 10 < 10);
        assert(d.len() == 2);
    }
}

/// A number that is not negative is itself without a sign, and a negative one stands as far below the
/// end of the numbers as it is below zero.
pub proof fn lemma_to_unsigned(n: i64, r: u64)
    requires
        call_ensures(to_unsigned, (n,), r),
    ensures
        n >= 0 ==> r == n,
        n < 0 ==> r + (-n) == u64::MAX + 1,
{
}

}
