use vstd::prelude::*;

verus! {

/// The number of atomic units that make up one whole: a [`Decimal`] counts
/// in steps of 10^-18.
pub const DECIMAL_FRACTIONAL: u128 = 1_000_000_000_000_000_000;

/// A non-negative fixed-point number with 18 fractional digits, held as its
/// count of atomic units.
#[derive(Clone, Copy, Debug, PartialEq, Eq, Structural)]
pub struct Decimal {
    pub atomics: u128,
}

impl View for Decimal {
    type V = nat;

    open spec fn view(&self) -> nat {
        self.atomics as nat
    }
}

/// `amount` times the fraction of `atomics` atomic units, rounded down.
pub open spec fn mul_floor(amount: nat, atomics: nat) -> nat {
    amount * atomics / (DECIMAL_FRACTIONAL as nat)
}

/// The atomic units of `numerator / denominator`, rounded down.
pub open spec fn ratio_atomics(numerator: nat, denominator: nat) -> nat {
    numerator * (DECIMAL_FRACTIONAL as nat) / denominator
}

/// Calls `cosmwasm_std::Uint128::checked_mul_floor` on `amount` with the
/// `cosmwasm_std::Decimal` of `fraction`'s atomic units.  That function
/// multiplies in 256 bits, divides by 10^18 rounding down, and fails exactly
/// when the quotient does not fit into 128 bits.
#[verifier::external_body]
pub(crate) fn mul_floor_checked(amount: u128, fraction: Decimal) -> (product: Option<u128>)
    ensures
        product == (if mul_floor(amount as nat, fraction@) <= u128::MAX {
            Some(mul_floor(amount as nat, fraction@) as u128)
        } else {
            None
        }),
{
    let factor = cosmwasm_std::Decimal::raw(fraction.atomics);
    match cosmwasm_std::Uint128::new(amount).checked_mul_floor(factor) {
        Ok(product) => Some(product.u128()),
        Err(_) => None,
    }
}

/// `amount * numerator / denominator`, rounded down once, at the end.
pub open spec fn mul_ratio(amount: nat, numerator: nat, denominator: nat) -> nat {
    amount * numerator / denominator
}

/// Calls `cosmwasm_std::Uint128::checked_multiply_ratio` on `amount`.  That
/// function fails on a zero denominator; otherwise it multiplies amount and
/// numerator in 256 bits, divides by the denominator rounding down, and
/// fails exactly when the quotient does not fit into 128 bits.
#[verifier::external_body]
pub(crate) fn multiply_ratio_checked(amount: u128, numerator: u128, denominator: u128) -> (result:
    Option<u128>)
    ensures
        result == (if denominator != 0 && mul_ratio(
            amount as nat,
            numerator as nat,
            denominator as nat,
        ) <= u128::MAX {
            Some(mul_ratio(amount as nat, numerator as nat, denominator as nat) as u128)
        } else {
            None
        }),
{
    match cosmwasm_std::Uint128::new(amount).checked_multiply_ratio(numerator, denominator) {
        Ok(result) => Some(result.u128()),
        Err(_) => None,
    }
}

/// Calls `cosmwasm_std::Decimal::checked_from_ratio`.  That function fails
/// on a zero denominator; otherwise it multiplies the numerator by 10^18 in
/// 256 bits, divides by the denominator rounding down, and fails exactly
/// when the quotient does not fit into 128 bits.
#[verifier::external_body]
pub(crate) fn from_ratio_checked(numerator: u128, denominator: u128) -> (ratio: Option<Decimal>)
    ensures
        ratio == (if denominator != 0 && ratio_atomics(numerator as nat, denominator as nat)
            <= u128::MAX {
            Some(Decimal { atomics: ratio_atomics(numerator as nat, denominator as nat) as u128 })
        } else {
            None
        }),
{
    match cosmwasm_std::Decimal::checked_from_ratio(numerator, denominator) {
        Ok(ratio) => Some(Decimal { atomics: ratio.atomics().u128() }),
        Err(_) => None,
    }
}

/// A fraction of at most one never raises an amount, and a fraction of at
/// least one never lowers it.
pub proof fn lemma_mul_floor_bounds(amount: nat, atomics: nat)
    ensures
        atomics <= DECIMAL_FRACTIONAL ==> mul_floor(amount, atomics) <= amount,
        atomics >= DECIMAL_FRACTIONAL ==> mul_floor(amount, atomics) >= amount,
{
    let unit = DECIMAL_FRACTIONAL as int;
    vstd::arithmetic::div_mod::lemma_div_multiples_vanish(amount as int, unit);
    assert(amount * unit == unit * amount) by (nonlinear_arith);
    if atomics <= DECIMAL_FRACTIONAL {
        assert(amount * atomics <= amount * unit) by (nonlinear_arith)
            requires
                atomics <= unit,
        ;
        vstd::arithmetic::div_mod::lemma_div_is_ordered(
            (amount * atomics) as int,
            amount * unit,
            unit,
        );
    }
    if atomics >= DECIMAL_FRACTIONAL {
        assert(amount * atomics >= amount * unit) by (nonlinear_arith)
            requires
                atomics >= unit,
        ;
        vstd::arithmetic::div_mod::lemma_div_is_ordered(
            amount * unit,
            (amount * atomics) as int,
            unit,
        );
    }
}

/// A part of an amount never exceeds the amount.
pub proof fn lemma_mul_ratio_of_part(amount: nat, part: nat, whole: nat)
    requires
        part <= whole,
        whole > 0,
    ensures
        mul_ratio(amount, part, whole) <= amount,
{
    assert(amount * part <= amount * whole) by (nonlinear_arith)
        requires
            part <= whole,
    ;
    assert(amount * whole == whole * amount) by (nonlinear_arith);
    vstd::arithmetic::div_mod::lemma_div_is_ordered(
        (amount * part) as int,
        (amount * whole) as int,
        whole as int,
    );
    vstd::arithmetic::div_mod::lemma_div_multiples_vanish(amount as int, whole as int);
}

impl Decimal {
    /// The decimal of the given count of atomic units.
    pub fn raw(atomics: u128) -> (d: Decimal)
        ensures
            d@ == atomics,
    {
        Decimal { atomics }
    }

    /// The count of atomic units.
    pub fn atomics(&self) -> (atomics: u128)
        ensures
            atomics == self@,
    {
        self.atomics
    }

    /// The number 1.
    pub fn one() -> (d: Decimal)
        ensures
            d@ == DECIMAL_FRACTIONAL,
    {
        Decimal { atomics: DECIMAL_FRACTIONAL }
    }

    /// The number 0.
    pub fn zero() -> (d: Decimal)
        ensures
            d@ == 0,
    {
        Decimal { atomics: 0 }
    }

    /// Whether the number is at most 1.
    pub open spec fn is_at_most_one(&self) -> bool {
        self@ <= DECIMAL_FRACTIONAL
    }

    /// `numerator / denominator` rounded down to 18 fractional digits, or
    /// `None` where the denominator is zero or the quotient is out of range.
    pub fn checked_from_ratio(numerator: u128, denominator: u128) -> (ratio: Option<Decimal>)
        ensures
            ratio is Some <==> denominator != 0 && ratio_atomics(
                numerator as nat,
                denominator as nat,
            ) <= u128::MAX,
            ratio is Some ==> ratio->0@ == ratio_atomics(numerator as nat, denominator as nat),
    {
        from_ratio_checked(numerator, denominator)
    }

    /// `numerator / denominator` rounded down to 18 fractional digits.
    pub fn from_ratio(numerator: u128, denominator: u128) -> (ratio: Decimal)
        requires
            denominator != 0,
            ratio_atomics(numerator as nat, denominator as nat) <= u128::MAX,
        ensures
            ratio@ == ratio_atomics(numerator as nat, denominator as nat),
    {
        match from_ratio_checked(numerator, denominator) {
            Some(ratio) => ratio,
            None => Decimal { atomics: 0 },
        }
    }
}

} // verus!
