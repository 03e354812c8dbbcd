//! Integer arithmetic shared by the ledger: products over a divisor, rounded
//! toward zero, with every overflow reported.

use vstd::prelude::*;
use vstd::arithmetic::div_mod::*;
use vstd::arithmetic::mul::*;
use crate::errors::ErrorCode;

verus! {

/// `a * b / c` rounded toward zero, or the reason it cannot be had.
pub open spec fn mul_div_spec(a: u64, b: u64, c: u64) -> Result<u64, ErrorCode> {
    if c == 0 {
        Err(ErrorCode::DivisionByZero)
    } else if (a * b) / (c as int) > u64::MAX {
        Err(ErrorCode::ArithmeticOverflow)
    } else {
        Ok(((a * b) / (c as int)) as u64)
    }
}

/// The product of two 64-bit numbers fits 128 bits.
pub proof fn lemma_product_fits(a: u64, b: u64)
    ensures
        0 <= a * b <= 0xffff_ffff_ffff_ffff * 0xffff_ffff_ffff_ffff,
        a * b <= u128::MAX,
{
    assert(0 <= a * b <= 0xffff_ffff_ffff_ffff * 0xffff_ffff_ffff_ffff) by (nonlinear_arith)
        requires
            0 <= a <= 0xffff_ffff_ffff_ffff,
            0 <= b <= 0xffff_ffff_ffff_ffff,
    ;
}

/// `a * b / c` rounded toward zero. The product is formed in 128 bits, so only
/// the quotient can be too large.
pub fn mul_div(a: u64, b: u64, c: u64) -> (r: Result<u64, ErrorCode>)
    ensures
        r == mul_div_spec(a, b, c),
{
    if c == 0 {
        return Err(ErrorCode::DivisionByZero);
    }
    proof {
        lemma_product_fits(a, b);
    }
    let wide: u128 = (a as u128) * (b as u128);
    let q: u128 = wide / (c as u128);
    if q > u64::MAX as u128 {
        Err(ErrorCode::ArithmeticOverflow)
    } else {
        Ok(q as u64)
    }
}

/// Whether two keys hold the same bytes.
pub fn same_key(a: &[u8; 32], b: &[u8; 32]) -> (r: bool)
    ensures
        r == (a@ == b@),
{
    let mut i: usize = 0;
    while i < 32
        invariant
            i <= 32,
            forall|j: int| 0 <= j < i ==> a@[j] == b@[j],
        decreases 32 - i,
    {
        if a[i] != b[i] {
            return false;
        }
        i = i + 1;
    }
    assert(a@ =~= b@);
    true
}

} // verus!
