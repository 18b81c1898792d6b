//! Fixed-point numbers with 18 fractional digits.

use vstd::prelude::*;

verus! {

/// Atomic units in one whole.
pub const DECIMAL_FRACTIONAL: i128 = 1_000_000_000_000_000_000;

/// A signed fixed-point number, held as its count of atomic units: the number
/// it stands for is `atomics / 10^18`.
#[derive(Clone, Copy, Debug, PartialEq, Eq, Structural)]
pub struct Decimal {
    pub atomics: i128,
}

impl Decimal {
    /// A quorum is a fraction of the admins: more than none, at most all.
    pub open spec fn is_quorum(self) -> bool {
        0 < self.atomics <= DECIMAL_FRACTIONAL
    }

    /// Whether the number can serve as a quorum.
    pub fn valid_quorum(&self) -> (b: bool)
        ensures
            b == self.is_quorum(),
    {
        0 < self.atomics && self.atomics <= DECIMAL_FRACTIONAL
    }

    /// The number with exactly these atomic units.
    pub fn raw(atomics: i128) -> (d: Decimal)
        ensures
            d.atomics == atomics,
    {
        Decimal { atomics }
    }

    pub fn zero() -> (d: Decimal)
        ensures
            d.atomics == 0,
    {
        Decimal { atomics: 0 }
    }

    pub fn one() -> (d: Decimal)
        ensures
            d.atomics == DECIMAL_FRACTIONAL,
    {
        Decimal { atomics: DECIMAL_FRACTIONAL }
    }

    /// `x` hundredths.
    pub fn percent(x: u64) -> (d: Decimal)
        ensures
            d.atomics == x * 10_000_000_000_000_000,
    {
        let wide: i128 = x as i128;
        Decimal { atomics: wide * 10_000_000_000_000_000 }
    }

    pub fn atomics(&self) -> (a: i128)
        ensures
            a == self.atomics,
    {
        self.atomics
    }

    /// Whether the number is above zero.
    pub fn is_positive(&self) -> (b: bool)
        ensures
            b == (self.atomics > 0),
    {
        self.atomics > 0
    }

    /// One whole less.
    pub(crate) fn minus_one(self) -> (d: Decimal)
        requires
            self.atomics - DECIMAL_FRACTIONAL >= i128::MIN,
        ensures
            d.atomics == self.atomics - DECIMAL_FRACTIONAL,
    {
        Decimal { atomics: self.atomics - DECIMAL_FRACTIONAL }
    }
}

/// `cosmwasm_std::Decimal::from_atomics(count, 0)`, as atomic units: `count`
/// wholes, or nothing where that many wholes exceed the 128 bits of the
/// outside type.
#[verifier::external_body]
fn whole_atomics(count: u128) -> (r: Option<u128>)
    ensures
        count * DECIMAL_FRACTIONAL <= u128::MAX ==> r == Some((count * DECIMAL_FRACTIONAL) as u128),
        count * DECIMAL_FRACTIONAL > u128::MAX ==> r is None,
{
    match cosmwasm_std::Decimal::from_atomics(count, 0u32) {
        Ok(d) => Some(d.atomics().u128()),
        Err(_) => None,
    }
}

/// The product of two `cosmwasm_std::Decimal` values by their `*`, all three
/// as atomic units: the exact product of the two numbers, rounded down to a
/// whole count of atomic units. The outside operator panics where the product
/// exceeds 128 bits, so such operands are left out.
#[verifier::external_body]
fn product_atomics(a: u128, b: u128) -> (r: u128)
    requires
        a * b / (DECIMAL_FRACTIONAL as int) <= u128::MAX,
    ensures
        r == a * b / (DECIMAL_FRACTIONAL as int),
{
    (cosmwasm_std::Decimal::raw(a) * cosmwasm_std::Decimal::raw(b)).atomics().u128()
}

/// The votes a proposal needs: the quorum fraction of the admin count. It need
/// not be a whole number.
pub fn required_votes(quorum: Decimal, admin_count: usize) -> (r: Decimal)
    requires
        quorum.is_quorum(),
    ensures
        r.atomics == quorum.atomics * admin_count,
{
    let count: u128 = admin_count as u128;
    let q: u128 = quorum.atomics as u128;
    assert(count * DECIMAL_FRACTIONAL <= u128::MAX) by (nonlinear_arith)
        requires
            count <= u64::MAX,
    ;
    match whole_atomics(count) {
        Some(wholes) => {
            assert(q * wholes / (DECIMAL_FRACTIONAL as int) == q * count) by (nonlinear_arith)
                requires
                    wholes == count * DECIMAL_FRACTIONAL,
            ;
            assert(q * count <= i128::MAX) by (nonlinear_arith)
                requires
                    q <= DECIMAL_FRACTIONAL,
                    count <= u64::MAX,
            ;
            let product: u128 = product_atomics(q, wholes);
            Decimal { atomics: product as i128 }
        },
        None => vstd::pervasive::unreached(),
    }
}

} // verus!
