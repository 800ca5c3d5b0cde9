//! Checked arithmetic on token amounts.
use crate::types::Error;
use vstd::arithmetic::power::pow;
use vstd::prelude::*;

verus! {

/// The exact value as an amount: `Overflow` above the range of `i128`, `Underflow` below.
pub open spec fn amount_of(exact: int) -> Result<i128, Error> {
    if exact > i128::MAX {
        Err(Error::Overflow)
    } else if exact < i128::MIN {
        Err(Error::Underflow)
    } else {
        Ok(exact as i128)
    }
}

/// Quotient rounded toward zero.
pub open spec fn quotient_toward_zero(a: int, b: int) -> int
    recommends
        b != 0,
{
    let magnitude = abs(a) / abs(b);
    if (a < 0) == (b < 0) {
        magnitude
    } else {
        -magnitude
    }
}

/// Absolute value.
pub open spec fn abs(a: int) -> int {
    if a < 0 {
        -a
    } else {
        a
    }
}

/// Sum of two amounts.
pub fn safe_add(a: i128, b: i128) -> (sum: Result<i128, Error>)
    ensures
        sum == amount_of(a + b),
{
    match a.checked_add(b) {
        Some(sum) => Ok(sum),
        None => if b < 0 {
            Err(Error::Underflow)
        } else {
            Err(Error::Overflow)
        },
    }
}

/// Difference of two amounts.
pub fn safe_sub(a: i128, b: i128) -> (difference: Result<i128, Error>)
    ensures
        difference == amount_of(a - b),
{
    match a.checked_sub(b) {
        Some(difference) => Ok(difference),
        None => if b < 0 {
            Err(Error::Overflow)
        } else {
            Err(Error::Underflow)
        },
    }
}

/// Product of two amounts.
pub fn safe_mul(a: i128, b: i128) -> (product: Result<i128, Error>)
    ensures
        product == amount_of(a * b),
{
    match a.checked_mul(b) {
        Some(product) => Ok(product),
        None => {
            if (a < 0) == (b < 0) {
                assert(a * b >= 0) by (nonlinear_arith)
                    requires
                        (a < 0) == (b < 0),
                ;
                Err(Error::Overflow)
            } else {
                assert(a * b <= 0) by (nonlinear_arith)
                    requires
                        (a < 0) != (b < 0),
                ;
                Err(Error::Underflow)
            }
        },
    }
}

/// Quotient of two amounts, rounded toward zero. A zero divisor is `InvalidInput`.
pub fn safe_div(a: i128, b: i128) -> (quotient: Result<i128, Error>)
    ensures
        quotient == if b == 0 {
            Err::<i128, Error>(Error::InvalidInput)
        } else {
            amount_of(quotient_toward_zero(a as int, b as int))
        },
{
    if b == 0 {
        return Err(Error::InvalidInput);
    }
    match a.checked_div(b) {
        Some(quotient) => Ok(quotient),
        None => Err(Error::Overflow),
    }
}

/// A power of a base of magnitude two or more has the sign that parity gives it and
/// doubles in magnitude, at least, with each further factor.
proof fn lemma_power_grows(base: int, e: nat)
    requires
        base <= -2 || base >= 2,
    ensures
        pow(base, e) >= 1 <==> (base > 0 || e % 2 == 0),
        pow(base, e) <= -1 <==> (base < 0 && e % 2 == 1),
        abs(pow(base, e + 1)) >= 2 * abs(pow(base, e)),
    decreases e,
{
    reveal(pow);
    let p = pow(base, e);
    if e > 0 {
        lemma_power_grows(base, (e - 1) as nat);
        let q = pow(base, (e - 1) as nat);
        assert(p == base * q);
        assert(base > 0 && q >= 1 ==> base * q >= 1) by (nonlinear_arith);
        assert(base < 0 && q >= 1 ==> base * q <= -1) by (nonlinear_arith);
        assert(base < 0 && q <= -1 ==> base * q >= 1) by (nonlinear_arith);
    }
    assert(pow(base, e + 1) == base * p);
    assert(base >= 2 && p >= 1 ==> base * p >= 2 * p) by (nonlinear_arith);
    assert(base >= 2 && p <= -1 ==> base * p <= 2 * p) by (nonlinear_arith);
    assert(base <= -2 && p >= 1 ==> base * p <= -2 * p) by (nonlinear_arith);
    assert(base <= -2 && p <= -1 ==> base * p >= -2 * p) by (nonlinear_arith);
}

/// Magnitudes of powers of such a base do not decrease.
proof fn lemma_power_monotone(base: int, i: nat, e: nat)
    requires
        base <= -2 || base >= 2,
        i < e,
    ensures
        abs(pow(base, e)) >= 2 * abs(pow(base, i)),
    decreases e,
{
    lemma_power_grows(base, (e - 1) as nat);
    if i < e - 1 {
        lemma_power_monotone(base, i, (e - 1) as nat);
    }
}

/// `base` to the power of `exponent`.
pub fn safe_pow(base: i128, exponent: u32) -> (power: Result<i128, Error>)
    ensures
        power == amount_of(pow(base as int, exponent as nat)),
{
    if base == 0 {
        proof {
            reveal(pow);
        }
        return if exponent == 0 {
            Ok(1)
        } else {
            Ok(0)
        };
    }
    if base == 1 {
        proof {
            vstd::arithmetic::power::lemma1_pow(exponent as nat);
        }
        return Ok(1);
    }
    if base == -1 {
        proof {
            lemma_power_of_minus_one(exponent as nat);
        }
        return if exponent % 2 == 0 {
            Ok(1)
        } else {
            Ok(-1)
        };
    }
    let mut acc: i128 = 1;
    let mut i: u32 = 0;
    proof {
        reveal(pow);
    }
    while i < exponent
        invariant
            base <= -2 || base >= 2,
            i <= exponent,
            acc == pow(base as int, i as nat),
        decreases exponent - i,
    {
        proof {
            reveal(pow);
            assert(pow(base as int, (i + 1) as nat) == base * acc);
            assert(base * acc == acc * base) by (nonlinear_arith);
        }
        match safe_mul(acc, base) {
            Ok(next) => {
                acc = next;
            },
            Err(_) => {
                proof {
                    lemma_power_grows(base as int, exponent as nat);
                    if i + 1 < exponent {
                        lemma_power_monotone(base as int, (i + 1) as nat, exponent as nat);
                    }
                }
                return if base < 0 && exponent % 2 == 1 {
                    Err(Error::Underflow)
                } else {
                    Err(Error::Overflow)
                };
            },
        }
        i = i + 1;
    }
    Ok(acc)
}

proof fn lemma_power_of_minus_one(e: nat)
    ensures
        pow(-1, e) == if e % 2 == 0 {
            1int
        } else {
            -1int
        },
    decreases e,
{
    reveal(pow);
    if e > 0 {
        lemma_power_of_minus_one((e - 1) as nat);
    }
}

/// Refuses a negative amount.
pub fn validate_non_negative(amount: i128) -> (checked: Result<(), Error>)
    ensures
        checked == if amount < 0 {
            Err::<(), Error>(Error::InvalidAmount)
        } else {
            Ok(())
        },
{
    if amount < 0 {
        Err(Error::InvalidAmount)
    } else {
        Ok(())
    }
}

/// A balance raised by a non-negative amount.
pub open spec fn raised_balance(balance: i128, amount: i128) -> Result<i128, Error> {
    if amount < 0 {
        Err(Error::InvalidAmount)
    } else {
        amount_of(balance + amount)
    }
}

/// Raises a balance by a non-negative amount.
pub fn safe_add_balance(balance: i128, amount: i128) -> (raised: Result<i128, Error>)
    ensures
        raised == raised_balance(balance, amount),
{
    match validate_non_negative(amount) {
        Err(e) => Err(e),
        Ok(()) => safe_add(balance, amount),
    }
}

/// A balance lowered by a non-negative amount; it must not become negative.
pub open spec fn lowered_balance(balance: i128, amount: i128) -> Result<i128, Error> {
    if amount < 0 {
        Err(Error::InvalidAmount)
    } else if balance < amount {
        Err(Error::Underflow)
    } else {
        amount_of(balance - amount)
    }
}

/// Lowers a balance by a non-negative amount; it must not become negative.
pub fn safe_sub_balance(balance: i128, amount: i128) -> (lowered: Result<i128, Error>)
    ensures
        lowered == lowered_balance(balance, amount),
{
    match validate_non_negative(amount) {
        Err(e) => Err(e),
        Ok(()) => if balance < amount {
            Err(Error::Underflow)
        } else {
            safe_sub(balance, amount)
        },
    }
}

/// Raising a balance and lowering it by the same amount gives it back.
pub proof fn raise_then_lower_is_identity(balance: i128, amount: i128)
    requires
        balance >= 0,
        raised_balance(balance, amount) is Ok,
    ensures
        lowered_balance(raised_balance(balance, amount)->Ok_0, amount) == Ok::<i128, Error>(
            balance,
        ),
{
}

} // verus!
