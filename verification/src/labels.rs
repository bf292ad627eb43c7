//! Axis labels: decimal writings of evenly spaced values.
//!
//! A short axis (span under 5) gets one label per integer. A longer one
//! gets labels every `(max + 5 - min) / 5` units starting at `min`, up to
//! `max + 5`, so that the last label always clears the top of the data.

use vstd::prelude::*;
use vstd::arithmetic::div_mod::{lemma_fundamental_div_mod, lemma_mod_bound};
use vstd::arithmetic::mul::{lemma_mul_inequality, lemma_mul_nonnegative};
use vstd::string::StringExecFns;

verus! {

/// The decimal digit character for `d`.
pub open spec fn spec_digit_char(d: int) -> char {
    if d == 0 {
        '0'
    } else if d == 1 {
        '1'
    } else if d == 2 {
        '2'
    } else if d == 3 {
        '3'
    } else if d == 4 {
        '4'
    } else if d == 5 {
        '5'
    } else if d == 6 {
        '6'
    } else if d == 7 {
        '7'
    } else if d == 8 {
        '8'
    } else {
        '9'
    }
}

/// The decimal digits of a nonnegative `n`, most significant first.
pub open spec fn spec_nat_digits(n: int) -> Seq<char>
    recommends
        n >= 0,
    decreases n,
{
    if n < 10 {
        seq![spec_digit_char(n)]
    } else {
        spec_nat_digits(n / 10) + seq![spec_digit_char(n % 10)]
    }
}

/// The decimal writing of `n`: the digits, after a minus sign when `n`
/// is negative.
pub open spec fn spec_int_str(n: int) -> Seq<char> {
    if n < 0 {
        seq!['-'] + spec_nat_digits(-n)
    } else {
        spec_nat_digits(n)
    }
}

fn digit_str(d: u64) -> (s: &'static str)
    requires
        d < 10,
    ensures
        s@ == seq![spec_digit_char(d as int)],
{
    proof {
        reveal_strlit("0");
        reveal_strlit("1");
        reveal_strlit("2");
        reveal_strlit("3");
        reveal_strlit("4");
        reveal_strlit("5");
        reveal_strlit("6");
        reveal_strlit("7");
        reveal_strlit("8");
        reveal_strlit("9");
    }
    let s = match d {
        0 => "0",
        1 => "1",
        2 => "2",
        3 => "3",
        4 => "4",
        5 => "5",
        6 => "6",
        7 => "7",
        8 => "8",
        _ => "9",
    };
    proof {
        assert(s@ =~= seq![spec_digit_char(d as int)]);
    }
    s
}

/// The decimal digits of `n`, most significant first.
pub fn u64_digits(n: u64) -> (s: String)
    ensures
        s@ == spec_nat_digits(n as int),
    decreases n,
{
    if n < 10 {
        String::from_str(digit_str(n))
    } else {
        let mut s = u64_digits(n / 10);
        s.append(digit_str(n % 10));
        s
    }
}

/// The decimal writing of `n`, as `to_string` produces it.
pub fn i32_to_string(n: i32) -> (s: String)
    ensures
        s@ == spec_int_str(n as int),
{
    let wide: i64 = n as i64;
    if wide < 0 {
        proof {
            reveal_strlit("-");
        }
        let mut s = String::from_str("-");
        let digits = u64_digits((-wide) as u64);
        s.append(digits.as_str());
        proof {
            assert(s@ =~= spec_int_str(n as int));
        }
        s
    } else {
        u64_digits(wide as u64)
    }
}

/// The gap between labels on an axis spanning `[min, max]` with a span
/// of at least 5.
pub open spec fn spec_label_step(min: int, max: int) -> int {
    (max + 5 - min) / 5
}

/// How many labels the axis `[min, max]` gets: every integer over a span
/// under 5, else exactly six evenly spaced ones.
pub open spec fn spec_label_count(min: int, max: int) -> int {
    if max < min {
        0
    } else if max - min < 5 {
        max - min + 1
    } else {
        6
    }
}

/// The value the `k`-th label of the axis `[min, max]` writes.
pub open spec fn spec_label_value(min: int, max: int, k: int) -> int {
    if max - min < 5 {
        min + k
    } else {
        min + k * spec_label_step(min, max)
    }
}

/// The labels of an axis spanning `[min, max]`: the decimal writings of
/// every integer of the range when its span is under 5, else of exactly
/// six values one step of `(max + 5 - min) / 5` apart starting at `min`,
/// all of them within `[min, max + 5]`.
pub fn get_label_strings(min: i32, max: i32) -> (r: Vec<String>)
    requires
        max as int + 5 <= i32::MAX as int,
    ensures
        r@.len() == spec_label_count(min as int, max as int),
        forall|k: int|
            0 <= k < r@.len() ==> #[trigger] r@[k]@ == spec_int_str(
                spec_label_value(min as int, max as int, k),
            ),
{
    let mut r: Vec<String> = Vec::new();
    let lo: i64 = min as i64;
    let hi: i64 = max as i64;
    if hi - lo < 5 {
        let mut v: i64 = lo;
        while v <= hi
            invariant
                lo == min as int,
                hi == max as int,
                hi - lo < 5,
                hi + 5 <= i32::MAX as int,
                lo <= v,
                v <= hi + 1 || v == lo,
                r@.len() == v - lo,
                forall|k: int|
                    0 <= k < r@.len() ==> #[trigger] r@[k]@ == spec_int_str(
                        spec_label_value(min as int, max as int, k),
                    ),
            decreases hi + 1 - v,
        {
            r.push(i32_to_string(v as i32));
            v = v + 1;
        }
    } else {
        let step: i64 = (hi + 5 - lo) / 5;
        proof {
            vstd::arithmetic::div_mod::lemma_div_is_ordered(10, hi + 5 - lo, 5);
            lemma_fundamental_div_mod(hi + 5 - lo, 5);
            lemma_mod_bound(hi + 5 - lo, 5);
        }
        let mut k: usize = 0;
        while k < 6
            invariant
                lo == min as int,
                hi == max as int,
                hi - lo >= 5,
                hi + 5 <= i32::MAX as int,
                step == spec_label_step(min as int, max as int),
                2 <= step,
                5 * step <= hi + 5 - lo,
                k <= 6,
                r@.len() == k,
                forall|j: int|
                    0 <= j < r@.len() ==> #[trigger] r@[j]@ == spec_int_str(
                        spec_label_value(min as int, max as int, j),
                    ),
            decreases 6 - k,
        {
            proof {
                lemma_mul_nonnegative(k as int, step as int);
                lemma_mul_inequality(k as int, 5, step as int);
            }
            let v: i64 = lo + (k as i64) * step;
            r.push(i32_to_string(v as i32));
            k = k + 1;
        }
    }
    r
}

} // verus!
