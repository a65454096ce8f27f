//! Decimal numerals, as the kernel's text nodes hold them.
use vstd::prelude::*;

verus! {

/// The byte of the numeral `0`; the other nine follow it.
pub const ZERO: u8 = 48;

/// The byte of a minus sign.
pub const MINUS: u8 = 45;

/// Is `b` one of the ten ASCII digits?
pub open spec fn is_digit(b: u8) -> bool {
    ZERO <= b <= ZERO + 9
}

/// The number that a row of digits denotes, most significant digit first.
pub open spec fn digits_value(s: Seq<u8>) -> nat
    decreases s.len(),
{
    if s.len() == 0 {
        0
    } else {
        (digits_value(s.drop_last()) * 10 + (s.last() - ZERO)) as nat
    }
}

/// The shortest row of digits that denotes `n`.
pub open spec fn nat_digits(n: nat) -> Seq<u8>
    decreases n,
{
    if n < 10 {
        seq![(ZERO + n) as u8]
    } else {
        nat_digits(n / 10).push((ZERO + n % 10) as u8)
    }
}

/// The numeral of an integer: its digits, after a minus sign where it is
/// negative.
pub open spec fn int_digits(i: int) -> Seq<u8> {
    if i < 0 {
        seq![MINUS] + nat_digits((-i) as nat)
    } else {
        nat_digits(i as nat)
    }
}

/// How many digits `s` starts with.
pub open spec fn digit_run(s: Seq<u8>) -> nat
    decreases s.len(),
{
    if s.len() == 0 || !is_digit(s[0]) {
        0
    } else {
        1 + digit_run(s.drop_first())
    }
}

/// The digits that `s` starts with.
pub open spec fn leading_digits(s: Seq<u8>) -> Seq<u8> {
    s.take(digit_run(s) as int)
}

/// Everything before the end of the run is a digit, and what stands at its end
/// is not.
pub proof fn lemma_digit_run(s: Seq<u8>)
    ensures
        digit_run(s) <= s.len(),
        forall|i: int| 0 <= i < digit_run(s) ==> is_digit(#[trigger] s[i]),
        digit_run(s) < s.len() ==> !is_digit(s[digit_run(s) as int]),
    decreases s.len(),
{
    if s.len() > 0 && is_digit(s[0]) {
        lemma_digit_run(s.drop_first());
        let rest = s.drop_first();
        assert forall|i: int| 0 <= i < digit_run(s) implies is_digit(#[trigger] s[i]) by {
            if i > 0 {
                assert(s[i] == rest[i - 1]);
            }
        }
    }
}

/// A place that is preceded by digits only, and that holds no digit or is the
/// end, is the end of the run.
pub proof fn lemma_digit_run_is(s: Seq<u8>, k: int)
    requires
        0 <= k <= s.len(),
        forall|i: int| 0 <= i < k ==> is_digit(#[trigger] s[i]),
        k < s.len() ==> !is_digit(s[k]),
    ensures
        digit_run(s) == k,
{
    lemma_digit_run(s);
    let run = digit_run(s) as int;
    if run < k {
        assert(is_digit(s[run]));
    }
    if k < run {
        assert(is_digit(s[k]));
    }
}

/// A longer row of digits denotes no smaller number than the row it extends.
pub proof fn lemma_digits_value_grows(s: Seq<u8>, k: int)
    requires
        0 <= k <= s.len(),
        forall|i: int| 0 <= i < s.len() ==> is_digit(#[trigger] s[i]),
    ensures
        digits_value(s.take(k)) <= digits_value(s),
    decreases s.len() - k,
{
    if k == s.len() {
        assert(s.take(k) =~= s);
    } else {
        lemma_digits_value_grows(s, k + 1);
        assert(s.take(k + 1).drop_last() =~= s.take(k));
        assert(is_digit(s[k]));
    }
}

/// Nine digits or fewer stay below ten to the ninth.
pub proof fn lemma_short_rows_fit(s: Seq<u8>)
    requires
        s.len() <= 9,
        forall|i: int| 0 <= i < s.len() ==> is_digit(#[trigger] s[i]),
    ensures
        digits_value(s) < 1_000_000_000,
{
    reveal_with_fuel(digits_value, 10);
}

/// The digits of a number are digits, and the first of them is zero only for
/// the number zero.
pub proof fn lemma_nat_digits_shape(n: nat)
    ensures
        nat_digits(n).len() >= 1,
        forall|i: int| 0 <= i < nat_digits(n).len() ==> is_digit(#[trigger] nat_digits(n)[i]),
        n > 0 ==> nat_digits(n)[0] != ZERO,
    decreases n,
{
    if n >= 10 {
        lemma_nat_digits_shape(n / 10);
        let front = nat_digits(n / 10);
        assert forall|i: int| 0 <= i < nat_digits(n).len() implies is_digit(
            #[trigger] nat_digits(n)[i],
        ) by {
            if i < front.len() {
                assert(nat_digits(n)[i] == front[i]);
            }
        }
        assert(nat_digits(n)[0] == front[0]);
    }
}

/// Reading the digits of a number gives the number back.
pub proof fn lemma_nat_digits_value(n: nat)
    ensures
        digits_value(nat_digits(n)) == n,
    decreases n,
{
    if n < 10 {
        assert(nat_digits(n).drop_last() =~= Seq::<u8>::empty());
        assert(digits_value(Seq::<u8>::empty()) == 0);
    } else {
        lemma_nat_digits_value(n / 10);
        assert(nat_digits(n).drop_last() =~= nat_digits(n / 10));
    }
}

/// Appends the digits of `n` to `out`.
pub fn push_digits(out: &mut Vec<u8>, n: u32)
    ensures
        final(out)@ == old(out)@ + nat_digits(n as nat),
    decreases n,
{
    if n >= 10 {
        push_digits(out, n / 10);
    }
    out.push(ZERO + (n % 10) as u8);
    assert(out@ =~= old(out)@ + nat_digits(n as nat));
}

/// The numeral of `i`.
pub fn i32_numeral(i: i32) -> (out: Vec<u8>)
    ensures
        out@ == int_digits(i as int),
{
    let mut out: Vec<u8> = Vec::new();
    if i < 0 {
        out.push(MINUS);
        let magnitude: u32 = (0 - i as i64) as u32;
        push_digits(&mut out, magnitude);
    } else {
        push_digits(&mut out, i as u32);
    }
    assert(out@ =~= int_digits(i as int));
    out
}

/// A digit is one of the ten bytes from `0` to `9`.
pub proof fn law_digits_are_ten_bytes(b: u8)
    ensures
        is_digit(b) <==> 48 <= b <= 57,
{
}

/// Writing one more digit behind a number multiplies it by ten and adds the digit;
/// a number below ten is its digit alone.
pub proof fn law_one_more_digit_is_written(n: nat, d: nat)
    requires
        d < 10,
    ensures
        nat_digits(d) == seq![(48 + d) as u8],
        n > 0 ==> nat_digits(10 * n + d) == nat_digits(n).push((48 + d) as u8),
{
    assert((10 * n + d) / 10 == n && (10 * n + d) % 10 == d);
}

/// Reading one more digit multiplies what was read by ten and adds the digit; no
/// digits at all read as zero.
pub proof fn law_one_more_digit_is_read(s: Seq<u8>, d: nat)
    requires
        d < 10,
    ensures
        digits_value(Seq::<u8>::empty()) == 0,
        digits_value(s.push((48 + d) as u8)) == 10 * digits_value(s) + d,
{
    assert(s.push((48 + d) as u8).drop_last() =~= s);
}

/// The numeral of a negative number is that of its absolute value behind a minus
/// sign, and no numeral of another number has one. No two numbers have the same
/// numeral.
pub proof fn law_numerals_tell_numbers_apart(a: int, b: int)
    ensures
        a >= 0 ==> int_digits(a) == nat_digits(a as nat) && digits_value(int_digits(a)) == a,
        a > 0 ==> int_digits(-a) == seq![45u8] + int_digits(a),
        int_digits(a).len() > 0,
        int_digits(a)[0] == 45 <==> a < 0,
        int_digits(a) == int_digits(b) ==> a == b,
{
    let size = |i: int| -> nat
        {
            (if i < 0 {
                -i
            } else {
                i
            }) as nat
        };
    let (na, nb) = (size(a), size(b));
    lemma_nat_digits_shape(na);
    lemma_nat_digits_shape(nb);
    lemma_nat_digits_value(na);
    lemma_nat_digits_value(nb);
    assert(is_digit(nat_digits(na)[0]) && is_digit(nat_digits(nb)[0]));
    if int_digits(a) == int_digits(b) {
        if a < 0 {
            assert(b < 0);
            assert(int_digits(a).skip(1) =~= nat_digits(na));
            assert(int_digits(b).skip(1) =~= nat_digits(nb));
        }
        assert(na == nb);
    }
}

/// Of a text, the digits before the first byte that is no digit are read, and
/// nothing behind it.
pub proof fn law_reading_stops_behind_digits(digits: Seq<u8>, tail: Seq<u8>)
    requires
        forall|i: int| 0 <= i < digits.len() ==> 48 <= #[trigger] digits[i] <= 57,
        tail.len() > 0 ==> !(48 <= tail[0] <= 57),
    ensures
        leading_digits(digits + tail) == digits,
{
    let all = digits + tail;
    assert forall|i: int| 0 <= i < digits.len() implies is_digit(#[trigger] all[i]) by {
        assert(all[i] == digits[i]);
    }
    lemma_digit_run_is(all, digits.len() as int);
    assert(all.take(digits.len() as int) =~= digits);
}

} // verus!
