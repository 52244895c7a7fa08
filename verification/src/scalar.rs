//! Scalars as bit patterns, and the arithmetic that the caller supplies.
//!
//! The engine carries every coordinate, velocity and mass as the 64 bits of an
//! IEEE-754 double: the top bit is the sign, the next eleven the exponent
//! field, the last 52 the mantissa without its hidden leading bit. Sums,
//! products and the like are asked of a function that the caller hands in, one
//! operation at a time. Two things the engine reads or writes in the bits
//! itself. It compares two scalars: below the sign bit the pattern grows with
//! the magnitude, and a magnitude above that of infinity is not a number. And
//! it writes the scalar of an integer, by normalizing the integer as a
//! mantissa.

use vstd::prelude::*;

verus! {

/// Bit pattern of positive zero.
pub const ZERO: u64 = 0;

/// Bit pattern with only the sign bit set: negative zero.
pub const SIGN: u64 = 0x8000_0000_0000_0000;

/// Bit pattern of positive infinity.
pub const INFINITY: u64 = 0x7FF0_0000_0000_0000;

/// Bit pattern of 0.999999, the share of its velocity that a body keeps in a
/// sub-step.
pub const DAMPING: u64 = 0x3FEF_FFFD_E721_0BE9;

/// Bit pattern of 0.00000001, the term that keeps the force finite where a
/// body coincides with an attractor.
pub const EPSILON: u64 = 0x3E45_798E_E230_8C3A;

/// Bit pattern whose only set bit is the lowest of the exponent field: as an
/// integer, the hidden leading bit of a mantissa.
pub const HIDDEN: u64 = 0x0010_0000_0000_0000;

/// The exponent field of a double whose mantissa counts units.
pub const UNIT_EXPONENT: u64 = 1075;

/// An operation of the arithmetic. `Atan2` takes the ordinate first; `Cos`
/// and `Sin` read their first operand only.
#[derive(Clone, Copy, Debug, PartialEq, Eq, Structural)]
pub enum Op {
    Add,
    Sub,
    Mul,
    Div,
    Atan2,
    Cos,
    Sin,
}

/// The arithmetic can be asked for every operation on all operands.
pub open spec fn arith_total<A: Fn(Op, u64, u64) -> u64>(arith: &A) -> bool {
    forall|op: Op, a: u64, b: u64| arith.requires((op, a, b))
}

/// The arithmetic gives one result for one operation on given operands.
pub open spec fn arith_deterministic<A: Fn(Op, u64, u64) -> u64>(arith: &A) -> bool {
    forall|op: Op, a: u64, b: u64, r: u64, s: u64|
        #![trigger arith.ensures((op, a, b), r), arith.ensures((op, a, b), s)]
        arith.ensures((op, a, b), r) && arith.ensures((op, a, b), s) ==> r == s
}

/// The pattern of the double with the mantissa `mantissa`, hidden bit
/// included, and the exponent field `exponent`, once the mantissa has been
/// doubled, and the exponent lowered, until the hidden bit is set.
pub open spec fn normalized(mantissa: nat, exponent: nat) -> nat
    decreases exponent,
{
    if mantissa == 0 {
        0
    } else if exponent == 0 {
        mantissa
    } else if mantissa >= HIDDEN {
        ((exponent - 1) * HIDDEN + mantissa) as nat
    } else {
        normalized(2 * mantissa, (exponent - 1) as nat)
    }
}

/// The pattern of the double whose value is the integer `n`.
pub open spec fn scalar_of(n: u32) -> u64 {
    normalized(n as nat, UNIT_EXPONENT as nat) as u64
}

/// Two to the power `k`.
pub open spec fn two_to(k: nat) -> nat
    decreases k,
{
    if k == 0 {
        1
    } else {
        2 * two_to((k - 1) as nat)
    }
}

/// The pattern with its sign bit cleared.
pub open spec fn magnitude(bits: u64) -> u64 {
    if bits >= SIGN {
        (bits - SIGN) as u64
    } else {
        bits
    }
}

/// The pattern stands for no number.
pub open spec fn is_nan(bits: u64) -> bool {
    magnitude(bits) > INFINITY
}

/// An integer that grows with the number the pattern stands for; both zeros
/// have rank 0.
pub open spec fn rank(bits: u64) -> int {
    if bits >= SIGN {
        -(magnitude(bits) as int)
    } else {
        bits as int
    }
}

/// `a < b` as numbers: false if either is not a number, and false between the
/// two zeros.
pub open spec fn lt(a: u64, b: u64) -> bool {
    !is_nan(a) && !is_nan(b) && rank(a) < rank(b)
}

/// Gives the scalar whose value is the integer `n`.
pub fn from_count(n: u32) -> (bits: u64)
    ensures
        bits == scalar_of(n),
{
    if n == 0 {
        return 0;
    }
    let mut mantissa: u64 = n as u64;
    let mut exponent: u64 = UNIT_EXPONENT;
    while mantissa < HIDDEN && exponent > 0
        invariant
            0 < mantissa < 2 * HIDDEN,
            exponent <= UNIT_EXPONENT,
            normalized(mantissa as nat, exponent as nat) == normalized(
                n as nat,
                UNIT_EXPONENT as nat,
            ),
        decreases exponent,
    {
        mantissa = 2 * mantissa;
        exponent = exponent - 1;
    }
    if exponent == 0 {
        mantissa
    } else {
        (exponent - 1) * HIDDEN + mantissa
    }
}

/// Tells whether the pattern stands for no number.
pub fn not_a_number(bits: u64) -> (r: bool)
    ensures
        r == is_nan(bits),
{
    if bits >= SIGN {
        bits - SIGN > INFINITY
    } else {
        bits > INFINITY
    }
}

/// Compares two scalars as numbers.
pub fn less_than(a: u64, b: u64) -> (r: bool)
    ensures
        r == lt(a, b),
{
    if not_a_number(a) || not_a_number(b) {
        false
    } else if a >= SIGN {
        if b >= SIGN {
            a > b
        } else {
            a > SIGN || b > ZERO
        }
    } else {
        b < SIGN && a < b
    }
}

/// Normalizing doubles the mantissa `k` times, until the hidden bit is set,
/// and lowers the exponent as often, where `k` doublings are known to suffice
/// and the exponent allows them.
pub proof fn lemma_normalized(mantissa: nat, exponent: nat, enough: nat)
    requires
        0 < mantissa < 2 * HIDDEN,
        mantissa * two_to(enough) >= HIDDEN,
        enough < exponent,
    ensures
        exists|k: nat|
            k <= enough && HIDDEN <= mantissa * #[trigger] two_to(k) < 2 * HIDDEN && normalized(
                mantissa,
                exponent,
            ) == (exponent - 1 - k) * HIDDEN + mantissa * two_to(k),
    decreases enough,
{
    assert(mantissa * two_to(0) == mantissa) by (nonlinear_arith)
        requires
            two_to(0) == 1,
    ;
    if mantissa >= HIDDEN {
    } else {
        assert(enough > 0);
        let less = (enough - 1) as nat;
        assert((2 * mantissa) * two_to(less) == mantissa * two_to(enough)) by (nonlinear_arith)
            requires
                two_to(enough) == 2 * two_to(less),
        ;
        lemma_normalized(2 * mantissa, (exponent - 1) as nat, less);
        let k = choose|k: nat|
            k <= less && HIDDEN <= (2 * mantissa) * #[trigger] two_to(k) < 2 * HIDDEN && normalized(
                2 * mantissa,
                (exponent - 1) as nat,
            ) == ((exponent - 1) - 1 - k) * HIDDEN + (2 * mantissa) * two_to(k);
        assert((2 * mantissa) * two_to(k) == mantissa * two_to(k + 1)) by (nonlinear_arith)
            requires
                two_to(k + 1) == 2 * two_to(k),
        ;
        assert(k + 1 <= enough);
    }
}

/// The scalar of a positive integer `n` is the double with the mantissa
/// `n * 2^k`, hidden bit set, and the exponent field `UNIT_EXPONENT - k`: its
/// value is `n * 2^k * 2^-k`, which is `n`. The scalar of zero is zero.
pub proof fn lemma_scalar_of(n: u32)
    ensures
        n == 0 ==> scalar_of(n) == ZERO,
        n > 0 ==> exists|k: nat|
            k <= 52 && HIDDEN <= n * #[trigger] two_to(k) < 2 * HIDDEN && scalar_of(n) == (
            UNIT_EXPONENT - 1 - k) * HIDDEN + n * two_to(k),
{
    if n > 0 {
        assert(two_to(52) == HIDDEN) by {
            reveal_with_fuel(two_to, 53);
        }
        assert(n * two_to(52) >= HIDDEN) by (nonlinear_arith)
            requires
                n >= 1,
                two_to(52) == HIDDEN,
        ;
        lemma_normalized(n as nat, UNIT_EXPONENT as nat, 52);
        let k = choose|k: nat|
            k <= 52 && HIDDEN <= (n as nat) * #[trigger] two_to(k) < 2 * HIDDEN && normalized(
                n as nat,
                UNIT_EXPONENT as nat,
            ) == (UNIT_EXPONENT - 1 - k) * HIDDEN + (n as nat) * two_to(k);
        assert(normalized(n as nat, UNIT_EXPONENT as nat) < 0x1_0000_0000_0000_0000) by (nonlinear_arith)
            requires
                normalized(n as nat, UNIT_EXPONENT as nat) == (UNIT_EXPONENT - 1 - k) * HIDDEN + (
                n as nat) * two_to(k),
                (n as nat) * two_to(k) < 2 * HIDDEN,
                UNIT_EXPONENT == 1075,
                HIDDEN == 0x0010_0000_0000_0000,
        ;
    }
}

} // verus!
