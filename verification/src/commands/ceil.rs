//! The `math ceil` command: the least whole number that is not below a
//! number.

use crate::command::{Example, WholeStreamCommand};
use crate::errors::{ShellError, ShellErrorView};
use crate::signature::{Signature, SignatureView};
use crate::value::{
    int_view, Decimal, Primitive, UntaggedValue, UntaggedValueView, Value, ValueView,
};
use bigdecimal::num_bigint::BigInt;
use bigdecimal::{BigDecimal, ToPrimitive};
use vstd::arithmetic::div_mod::{
    lemma_div_multiples_vanish, lemma_fundamental_div_mod, lemma_mod_multiples_basic,
    lemma_mod_pos_bound,
};
use vstd::prelude::*;

verus! {

/// The `math ceil` command.
pub struct SubCommand;

impl WholeStreamCommand for SubCommand {
    open spec fn spec_name(&self) -> Seq<char> {
        "math ceil"@
    }

    open spec fn spec_usage(&self) -> Seq<char> {
        "Applies the ceil function to a list of numbers"@
    }

    open spec fn spec_signature(&self) -> SignatureView {
        SignatureView::new("math ceil"@)
    }

    fn name(&self) -> (n: &str) {
        "math ceil"
    }

    fn signature(&self) -> (s: Signature) {
        Signature::build("math ceil")
    }

    fn usage(&self) -> (u: &str) {
        "Applies the ceil function to a list of numbers"
    }
}

impl SubCommand {
    /// Command lines that show how the command is used, with what they give.
    pub fn examples(&self) -> (r: Vec<Example>)
        ensures
            r.len() == 1,
            r[0].description@ == "Apply the ceil function to a list of numbers"@,
            r[0].example@ == "echo [1.5 2.3 -3.1] | math ceil"@,
            r[0].result.deep_view() == Some(seq![int_view(2), int_view(3), int_view(-3i64)]),
    {
        let mut result: Vec<Value> = Vec::new();
        result.push(Value::from_int(2));
        result.push(Value::from_int(3));
        result.push(Value::from_int(-3));
        assert(result.deep_view() =~= seq![int_view(2), int_view(3), int_view(-3i64)]);
        let mut r: Vec<Example> = Vec::new();
        r.push(
            Example {
                description: "Apply the ceil function to a list of numbers",
                example: "echo [1.5 2.3 -3.1] | math ceil",
                result: Some(result),
            },
        );
        r
    }
}

/// Ten to the power of `n`.
pub open spec fn pow10(n: nat) -> int
    decreases n,
{
    if n == 0 {
        1
    } else {
        10 * pow10((n - 1) as nat)
    }
}

/// `n` divided by `d`, with what is left over dropped: the quotient that lies
/// toward zero.
pub open spec fn cut(n: int, d: int) -> int {
    if n >= 0 {
        n / d
    } else {
        -((-n) / d)
    }
}

/// The digits, without the point, of the decimal `unscaled / 10^scale`
/// rounded to `digits` digits behind the point, if an `i64` can hold them. A
/// decimal that has no more digits than that stays as it is. Else the digits
/// beyond are cut off, and the number moves one step away from zero where the
/// first digit that was cut off is 5 or more.
pub open spec fn rounded(unscaled: i64, scale: u8, digits: u8) -> Option<i64> {
    if digits >= scale {
        Some(unscaled)
    } else {
        let beyond = (scale - digits) as nat;
        let size = if unscaled < 0 {
            -unscaled
        } else {
            unscaled as int
        };
        let first_cut_off = (size / pow10((beyond - 1) as nat)) % 10;
        let kept = cut(unscaled as int, pow10(beyond));
        let r = if first_cut_off <= 4 {
            kept
        } else if unscaled < 0 {
            kept - 1
        } else {
            kept + 1
        };
        if i64::MIN <= r <= i64::MAX {
            Some(r as i64)
        } else {
            None
        }
    }
}

/// `BigDecimal::round`: the digits, without the point, of the decimal rounded
/// to `digits` digits behind the point, half away from zero.
#[verifier::external_body]
fn round_decimal(unscaled: i64, scale: u8, digits: u8) -> (r: Option<i64>)
    ensures
        r == rounded(unscaled, scale, digits),
{
    BigDecimal::new(BigInt::from(unscaled), i64::from(scale)).round(
        i64::from(digits),
    ).into_bigint_and_exponent().0.to_i64()
}

/// Whether the whole number `n` is below the decimal `d`.
pub open spec fn below(n: i64, d: Decimal) -> bool {
    n * pow10(d.scale as nat) < d.unscaled
}

proof fn lemma_pow10_grows(a: nat, b: nat)
    requires
        a <= b,
    ensures
        1 <= pow10(a) <= pow10(b),
    decreases b,
{
    if b > 0 {
        if a == b {
            lemma_pow10_grows((a - 1) as nat, (b - 1) as nat);
        } else {
            lemma_pow10_grows(a, (b - 1) as nat);
        }
    }
}

proof fn lemma_pow10_19()
    ensures
        pow10(19) == 10000000000000000000int,
{
    reveal_with_fuel(pow10, 20);
}

/// Whether the whole number `n` is below the decimal `d`.
pub fn is_below(n: i64, d: Decimal) -> (b: bool)
    ensures
        b == below(n, d),
{
    if d.scale >= 19 {
        proof {
            lemma_pow10_19();
            lemma_pow10_grows(19, d.scale as nat);
            let p = pow10(d.scale as nat);
            if n > 0 {
                assert(n * p >= p) by (nonlinear_arith)
                    requires
                        n >= 1,
                        p >= 1,
                ;
            } else if n < 0 {
                assert(n * p <= -p) by (nonlinear_arith)
                    requires
                        n <= -1,
                        p >= 1,
                ;
            } else {
                assert(n * p == 0) by (nonlinear_arith)
                    requires
                        n == 0,
                ;
            }
        }
        n < 0 || (n == 0 && d.unscaled > 0)
    } else {
        let mut p: i128 = 1;
        let mut k: u8 = 0;
        proof {
            lemma_pow10_19();
        }
        while k < d.scale
            invariant
                k <= d.scale < 19,
                p == pow10(k as nat),
                1 <= p <= pow10(19),
                pow10(19) == 10000000000000000000int,
            decreases d.scale - k,
        {
            proof {
                lemma_pow10_grows((k + 1) as nat, 19);
            }
            p = p * 10;
            k += 1;
        }
        let n_wide: i128 = n as i128;
        assert(-9223372036854775808 * 10000000000000000000 <= n_wide * p
            <= 9223372036854775807 * 10000000000000000000) by (nonlinear_arith)
            requires
                -9223372036854775808 <= n_wide <= 9223372036854775807,
                1 <= p <= 10000000000000000000,
        ;
        n_wide * p < d.unscaled as i128
    }
}

/// The view of the error for a number that is out of range.
pub open spec fn out_of_range() -> ValueView {
    ValueView {
        value: UntaggedValueView::Error(
            ShellErrorView::Unexpected { reason: "Number out of range"@ },
        ),
        tag: crate::span::Tag::spec_unknown(),
    }
}

/// What `math ceil` gives for the decimal `val` whose rounding to a whole
/// number came out as `nearest`: that number, or the next above it if it is
/// below `val`.
pub open spec fn ceiled(val: Decimal, nearest: Option<i64>) -> ValueView {
    match nearest {
        Some(n) => if below(n, val) {
            if n < i64::MAX {
                int_view((n + 1) as i64)
            } else {
                out_of_range()
            }
        } else {
            int_view(n)
        },
        None => out_of_range(),
    }
}

/// What `math ceil` gives for the decimal `val` whose rounding to a whole
/// number came out as `nearest`.
pub fn ceil_from_rounded(val: Decimal, nearest: Option<i64>) -> (v: Value)
    ensures
        v.deep_view() == ceiled(val, nearest),
{
    match nearest {
        Some(n) => {
            if is_below(n, val) {
                if n < i64::MAX {
                    Value::from_int(n + 1)
                } else {
                    UntaggedValue::Error(
                        ShellError::unexpected("Number out of range"),
                    ).into_untagged_value()
                }
            } else {
                Value::from_int(n)
            }
        },
        None => UntaggedValue::Error(
            ShellError::unexpected("Number out of range"),
        ).into_untagged_value(),
    }
}

/// What `math ceil` gives for a whole number: the number itself.
pub fn ceil_big_int(val: i64) -> (v: Value)
    ensures
        v.deep_view() == int_view(val),
{
    Value::from_int(val)
}

/// Whether `c` is the least whole number that is not below the decimal `d`.
pub open spec fn is_ceiling(c: int, d: Decimal) -> bool {
    (c - 1) * pow10(d.scale as nat) < d.unscaled <= c * pow10(d.scale as nat)
}

/// Rounding a decimal to a whole number and stepping up where that lies
/// below the decimal gives the least whole number that is not below it.
pub proof fn law_ceil_is_least_not_below(val: Decimal)
    ensures
        exists|c: i64| #[trigger]
            int_view(c) == ceiled(val, rounded(val.unscaled, val.scale, 0)) && is_ceiling(
                c as int,
                val,
            ),
{
    let u = val.unscaled as int;
    let p = pow10(val.scale as nat);
    if val.scale == 0 {
        assert(p == 1) by {
            reveal_with_fuel(pow10, 1);
        }
        assert(int_view(val.unscaled) == ceiled(val, rounded(val.unscaled, val.scale, 0)));
        assert(is_ceiling(val.unscaled as int, val));
    } else {
        let q = pow10((val.scale - 1) as nat);
        lemma_pow10_grows(0, (val.scale - 1) as nat);
        assert(p == 10 * q);
        assert(q >= 1);
        let size = if u < 0 {
            -u
        } else {
            u
        };
        let a = size / p;
        lemma_fundamental_div_mod(size, p);
        lemma_mod_pos_bound(size, p);
        assert(a * p <= size < (a + 1) * p) by (nonlinear_arith)
            requires
                size == p * a + (size % p),
                0 <= size % p < p,
        ;
        assert(0 <= a <= size) by (nonlinear_arith)
            requires
                a * p <= size < (a + 1) * p,
                size >= 0,
                p >= 10,
        ;
        let digit = (size / q) % 10;
        if u >= 0 && digit >= 5 {
            // The first digit that is cut off is not 0, so something is
            // left over beyond the whole number below.
            if u == a * p {
                assert(u == q * (10 * a)) by (nonlinear_arith)
                    requires
                        u == a * p,
                        p == 10 * q,
                ;
                lemma_div_multiples_vanish(10 * a, q);
                lemma_mod_multiples_basic(a, 10);
                assert(10 * a == a * 10);
                assert(false);
            }
        }
        let n: int = if digit <= 4 {
            cut(u, p)
        } else if u < 0 {
            cut(u, p) - 1
        } else {
            cut(u, p) + 1
        };
        assert(a * 10 <= size) by (nonlinear_arith)
            requires
                a * p <= size,
                p >= 10,
                a >= 0,
        ;
        assert(cut(u, p) == (if u < 0 {
            -a
        } else {
            a
        }));
        assert(-a - 1 <= n <= a + 1);
        assert(i64::MIN < n < i64::MAX);
        assert(rounded(val.unscaled, val.scale, 0) == Some(n as i64));
        let c: int = if u >= 0 {
            if u == a * p {
                a
            } else {
                a + 1
            }
        } else {
            -a
        };
        assert(is_ceiling(c, val) && (n * p < u ==> c == n + 1) && (!(n * p < u) ==> c == n))
            by (nonlinear_arith)
            requires
                a * p <= size < (a + 1) * p,
                p >= 10,
                size == (if u < 0 {
                    -u
                } else {
                    u
                }),
                c == (if u >= 0 {
                    if u == a * p {
                        a
                    } else {
                        a + 1
                    }
                } else {
                    -a
                }),
                n == a || n == a + 1 || n == -a || n == -a - 1,
                u >= 0 ==> (n == a || n == a + 1),
                u < 0 ==> (n == -a || n == -a - 1),
                (u >= 0 && n == a + 1) ==> u != a * p,
                p == pow10(val.scale as nat),
                u == val.unscaled,
        ;
        assert(below(n as i64, val) == (n * p < u));
        assert(int_view(c as i64) == ceiled(val, rounded(val.unscaled, val.scale, 0)));
    }
}

/// What `math ceil` gives for a decimal: the least whole number that is not
/// below it.
pub fn ceil_big_decimal(val: Decimal) -> (v: Value)
    ensures
        v.deep_view() == ceiled(val, rounded(val.unscaled, val.scale, 0)),
        exists|c: i64| #[trigger] int_view(c) == v.deep_view() && is_ceiling(c as int, val),
{
    proof {
        law_ceil_is_least_not_below(val);
    }
    let maybe_ceiled = round_decimal(val.unscaled, val.scale, 0);
    ceil_from_rounded(val, maybe_ceiled)
}

/// What `math ceil` gives for anything that is no number: an error.
pub fn ceil_default(value: UntaggedValue) -> (v: Value)
    ensures
        v.deep_view() == (ValueView {
            value: UntaggedValueView::Error(
                ShellErrorView::Unexpected { reason: "Only numerical values are supported"@ },
            ),
            tag: crate::span::Tag::spec_unknown(),
        }),
{
    UntaggedValue::Error(
        ShellError::unexpected("Only numerical values are supported"),
    ).into_untagged_value()
}

/// What `math ceil` gives for one value of its input.
pub fn ceil(value: Value) -> (v: Value)
    ensures
        v.deep_view() == match value.value {
            UntaggedValue::Primitive(Primitive::Int(i)) => int_view(i),
            UntaggedValue::Primitive(Primitive::Decimal(d)) => ceiled(
                d,
                rounded(d.unscaled, d.scale, 0),
            ),
            _ => ValueView {
                value: UntaggedValueView::Error(
                    ShellErrorView::Unexpected { reason: "Only numerical values are supported"@ },
                ),
                tag: crate::span::Tag::spec_unknown(),
            },
        },
{
    match value.value {
        UntaggedValue::Primitive(Primitive::Int(i)) => ceil_big_int(i),
        UntaggedValue::Primitive(Primitive::Decimal(d)) => ceil_big_decimal(d),
        other => ceil_default(other),
    }
}

} // verus!
