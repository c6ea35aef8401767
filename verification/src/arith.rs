//! Integer arithmetic of the language: sums, differences, products and
//! powers wrap around in 64 bits, quotients are cut off towards zero, and a
//! remainder has the sign of its dividend.

use vstd::prelude::*;
use vstd::arithmetic::div_mod::{lemma_mul_mod_noop_general};
use vstd::arithmetic::power::{
    lemma_pow0, lemma_pow1, lemma_pow_adds, lemma_pow_mod_noop, lemma_pow_multiplies,
    lemma_square_is_pow2, pow,
};
use vstd::string::StringExecFns;
use crate::ast::BinOp;
use crate::value::{Error, ErrorKind, ErrorModel};

verus! {

/// Two to the power 64.
pub open spec fn modulus() -> int {
    0x1_0000_0000_0000_0000
}

/// The 64-bit signed integer that differs from `n` by a multiple of two to
/// the power 64.
pub open spec fn wrap(n: int) -> i64 {
    let m = n % modulus();
    if m >= 0x8000_0000_0000_0000 {
        (m - modulus()) as i64
    } else {
        m as i64
    }
}

/// The quotient of `x` by `y`, cut off towards zero.
pub open spec fn trunc_div(x: int, y: int) -> int
    recommends
        y != 0,
{
    if x >= 0 {
        if y > 0 {
            x / y
        } else {
            -(x / (-y))
        }
    } else {
        if y > 0 {
            -((-x) / y)
        } else {
            (-x) / (-y)
        }
    }
}

/// The remainder of `x` by `y` that has the sign of `x`.
pub open spec fn trunc_rem(x: int, y: int) -> int
    recommends
        y != 0,
{
    let d = if y > 0 {
        y
    } else {
        -y
    };
    if x >= 0 {
        x % d
    } else {
        -((-x) % d)
    }
}

/// The failure of an operation on integers that has no result.
pub open spec fn arithmetic_failure(message: Seq<char>) -> ErrorModel {
    ErrorModel { kind: ErrorKind::Arithmetic, message }
}

/// What a binary operator makes of two integers.
pub open spec fn int_binary(op: BinOp, x: i64, y: i64) -> Result<i64, ErrorModel> {
    match op {
        BinOp::Add => Ok(wrap(x + y)),
        BinOp::Sub => Ok(wrap(x - y)),
        BinOp::Mul => Ok(wrap(x * y)),
        BinOp::Div => if y == 0 {
            Err(arithmetic_failure("division by zero"@))
        } else {
            Ok(wrap(trunc_div(x as int, y as int)))
        },
        BinOp::Mod => if y == 0 {
            Err(arithmetic_failure("division by zero"@))
        } else {
            Ok(wrap(trunc_rem(x as int, y as int)))
        },
        BinOp::Pow => if y < 0 {
            Err(arithmetic_failure("negative exponent not supported"@))
        } else {
            Ok(wrap(pow(x as int, y as nat)))
        },
        BinOp::Gt => Ok(
            if x > y {
                1i64
            } else {
                0i64
            },
        ),
        BinOp::Lt => Ok(
            if x < y {
                1i64
            } else {
                0i64
            },
        ),
    }
}

/// `wrap` leaves the remainder by two to the power 64 as it is.
pub proof fn lemma_wrap_mod(n: int)
    ensures
        (wrap(n) as int) % modulus() == n % modulus(),
{
    let m = n % modulus();
    if m >= 0x8000_0000_0000_0000 {
        assert((m - modulus()) % modulus() == m) by {
            vstd::arithmetic::div_mod::lemma_mod_add_multiples_vanish(m - modulus(), modulus());
            vstd::arithmetic::div_mod::lemma_small_mod(m as nat, modulus() as nat);
        }
    } else {
        vstd::arithmetic::div_mod::lemma_small_mod(m as nat, modulus() as nat);
    }
}

/// An integer that fits in 64 bits wraps to itself.
pub proof fn lemma_wrap_small(n: int)
    requires
        i64::MIN <= n <= i64::MAX,
    ensures
        wrap(n) == n,
{
    if n >= 0 {
        vstd::arithmetic::div_mod::lemma_small_mod(n as nat, modulus() as nat);
    } else {
        vstd::arithmetic::div_mod::lemma_mod_add_multiples_vanish(n, modulus());
        vstd::arithmetic::div_mod::lemma_small_mod((n + modulus()) as nat, modulus() as nat);
    }
}

/// The sum of `x` and `y`, wrapped.
pub fn wrapping_sum(x: i64, y: i64) -> (r: i64)
    ensures
        r == wrap(x + y),
{
    proof {
        let s = x + y;
        if s > i64::MAX {
            lemma_wrap_small(s - modulus());
            vstd::arithmetic::div_mod::lemma_mod_add_multiples_vanish(s - modulus(), modulus());
        } else if s < i64::MIN {
            lemma_wrap_small(s + modulus());
            vstd::arithmetic::div_mod::lemma_mod_add_multiples_vanish(s, modulus());
        } else {
            lemma_wrap_small(s);
        }
    }
    x.wrapping_add(y)
}

/// The difference of `x` and `y`, wrapped.
pub fn wrapping_difference(x: i64, y: i64) -> (r: i64)
    ensures
        r == wrap(x - y),
{
    proof {
        let s = x - y;
        if s > i64::MAX {
            lemma_wrap_small(s - modulus());
            vstd::arithmetic::div_mod::lemma_mod_add_multiples_vanish(s - modulus(), modulus());
        } else if s < i64::MIN {
            lemma_wrap_small(s + modulus());
            vstd::arithmetic::div_mod::lemma_mod_add_multiples_vanish(s, modulus());
        } else {
            lemma_wrap_small(s);
        }
    }
    x.wrapping_sub(y)
}

/// The product of `x` and `y`, wrapped.
pub fn wrapping_product(x: i64, y: i64) -> (r: i64)
    ensures
        r == wrap(x * y),
{
    x.wrapping_mul(y)
}

/// A quotient cut off towards zero is no larger in size than its dividend.
pub proof fn lemma_trunc_div_bound(x: int, y: int)
    requires
        y != 0,
    ensures
        x >= 0 ==> -x <= trunc_div(x, y) <= x,
        x < 0 ==> x <= trunc_div(x, y) <= -x,
        x > 0 && y < -1 ==> trunc_div(x, y) > -x,
        x < 0 && y < -1 ==> trunc_div(x, y) < -x,
{
    let ax = if x >= 0 {
        x
    } else {
        -x
    };
    let ay = if y > 0 {
        y
    } else {
        -y
    };
    vstd::arithmetic::div_mod::lemma_div_pos_is_pos(ax, ay);
    vstd::arithmetic::div_mod::lemma_div_nonincreasing(ax, ay);
    if ax > 0 && ay > 1 {
        vstd::arithmetic::div_mod::lemma_div_decreases(ax, ay);
    }
}

/// The quotient of `x` by `y`, cut off towards zero and wrapped.
fn truncating_quotient(x: i64, y: i64) -> (r: i64)
    requires
        y != 0,
    ensures
        r == wrap(trunc_div(x as int, y as int)),
{
    proof {
        lemma_trunc_div_bound(x as int, y as int);
    }
    if x == i64::MIN && y == -1 {
        assert(trunc_div(x as int, y as int) == 0x8000_0000_0000_0000int);
        proof {
            vstd::arithmetic::div_mod::lemma_small_mod(0x8000_0000_0000_0000nat, modulus() as nat);
        }
        x
    } else {
        proof {
            lemma_wrap_small(trunc_div(x as int, y as int));
        }
        match x.checked_div(y) {
            Some(q) => q,
            None => x,
        }
    }
}

/// The remainder of `x` by `y` with the sign of `x`, wrapped.
fn truncating_remainder(x: i64, y: i64) -> (r: i64)
    requires
        y != 0,
    ensures
        r == wrap(trunc_rem(x as int, y as int)),
{
    proof {
        let ax: int = if x >= 0 {
            x as int
        } else {
            -(x as int)
        };
        let ay: int = if y > 0 {
            y as int
        } else {
            -(y as int)
        };
        vstd::arithmetic::div_mod::lemma_mod_pos_bound(ax, ay);
        if ax == 0 {
            vstd::arithmetic::div_mod::lemma_small_mod(0, ay as nat);
        }
        lemma_wrap_small(trunc_rem(x as int, y as int));
    }
    if x == i64::MIN && y == -1 {
        assert((0x8000_0000_0000_0000int) % 1 == 0);
        0
    } else {
        match x.checked_rem(y) {
            Some(q) => q,
            None => 0,
        }
    }
}

/// The product of wrapped integers wraps as the product of the integers.
pub proof fn lemma_wrap_mul(a: int, b: int)
    ensures
        wrap(wrap(a) * wrap(b)) == wrap(a * b),
{
    lemma_wrap_mod(a);
    lemma_wrap_mod(b);
    lemma_mul_mod_noop_general(wrap(a) as int, wrap(b) as int, modulus());
    lemma_mul_mod_noop_general(a, b, modulus());
}

/// The power of a wrapped integer wraps as the power of the integer.
pub proof fn lemma_wrap_pow(b: int, e: nat)
    ensures
        wrap(pow(wrap(b) as int, e)) == wrap(pow(b, e)),
{
    lemma_wrap_mod(b);
    lemma_pow_mod_noop(wrap(b) as int, e, modulus());
    lemma_pow_mod_noop(b, e, modulus());
}

/// `x` to the power `y`, wrapped.
fn wrapping_power(x: i64, y: i64) -> (r: i64)
    requires
        y >= 0,
    ensures
        r == wrap(pow(x as int, y as nat)),
{
    let mut result: i64 = 1;
    let mut base: i64 = x;
    let mut e: u64 = y as u64;
    proof {
        assert(1 * pow(x as int, y as nat) == pow(x as int, y as nat));
    }
    while e > 0
        invariant
            wrap(result * pow(base as int, e as nat)) == wrap(pow(x as int, y as nat)),
        decreases e,
    {
        let ghost k: nat = (e / 2) as nat;
        let ghost b = base as int;
        let ghost r0 = result as int;
        proof {
            // b^(2k) == (b*b)^k
            lemma_square_is_pow2(b);
            lemma_pow_multiplies(b, 2, k);
            assert(pow(b * b, k) == pow(b, 2 * k));
            lemma_wrap_pow(b * b, k);
        }
        if e % 2 == 1 {
            proof {
                lemma_pow_adds(b, 2 * k, 1);
                lemma_pow1(b);
                assert(pow(b, e as nat) == pow(b * b, k) * b);
                assert(r0 * (pow(b * b, k) * b) == (r0 * b) * pow(b * b, k)) by (nonlinear_arith);
                // wrap((r0*b) * P) == wrap(wrap(r0*b) * wrap(P)) == wrap(wrap(r0*b) * wrap(P'))
                lemma_wrap_mul(r0 * b, pow(b * b, k));
                lemma_wrap_mul(wrap(r0 * b) as int, pow(wrap(b * b) as int, k));
                lemma_wrap_small(wrap(r0 * b) as int);
            }
            result = result.wrapping_mul(base);
        } else {
            proof {
                assert(e as nat == 2 * k);
                lemma_wrap_mul(r0, pow(b * b, k));
                lemma_wrap_mul(r0, pow(wrap(b * b) as int, k));
            }
        }
        base = base.wrapping_mul(base);
        e = e / 2;
    }
    proof {
        lemma_pow0(base as int);
        lemma_wrap_small(result as int);
    }
    result
}

/// The message of an operator that got a value that is no integer.
pub open spec fn operand_message(op: BinOp) -> Seq<char> {
    match op {
        BinOp::Gt => "type error: > expects integers"@,
        BinOp::Lt => "type error: < expects integers"@,
        _ => "type error: expected integers"@,
    }
}

/// The failure of an operator that got a value that is no integer.
pub fn operand_error(op: BinOp) -> (r: Error)
    ensures
        r.view() == (ErrorModel { kind: ErrorKind::Type, message: operand_message(op) }),
{
    let message = match op {
        BinOp::Gt => String::from_str("type error: > expects integers"),
        BinOp::Lt => String::from_str("type error: < expects integers"),
        _ => String::from_str("type error: expected integers"),
    };
    Error { kind: ErrorKind::Type, message }
}

/// Applies a binary operator to two integers.
pub fn int_op(op: BinOp, x: i64, y: i64) -> (r: Result<i64, Error>)
    ensures
        match r {
            Ok(z) => int_binary(op, x, y) == Ok::<i64, ErrorModel>(z),
            Err(e) => int_binary(op, x, y) == Err::<i64, ErrorModel>(e.view()),
        },
{
    match op {
        BinOp::Add => Ok(wrapping_sum(x, y)),
        BinOp::Sub => Ok(wrapping_difference(x, y)),
        BinOp::Mul => Ok(wrapping_product(x, y)),
        BinOp::Div => if y == 0 {
            Err(
                Error {
                    kind: ErrorKind::Arithmetic,
                    message: String::from_str("division by zero"),
                },
            )
        } else {
            Ok(truncating_quotient(x, y))
        },
        BinOp::Mod => if y == 0 {
            Err(
                Error {
                    kind: ErrorKind::Arithmetic,
                    message: String::from_str("division by zero"),
                },
            )
        } else {
            Ok(truncating_remainder(x, y))
        },
        BinOp::Pow => if y < 0 {
            Err(
                Error {
                    kind: ErrorKind::Arithmetic,
                    message: String::from_str("negative exponent not supported"),
                },
            )
        } else {
            Ok(wrapping_power(x, y))
        },
        BinOp::Gt => Ok(
            if x > y {
                1
            } else {
                0
            },
        ),
        BinOp::Lt => Ok(
            if x < y {
                1
            } else {
                0
            },
        ),
    }
}

} // verus!
