//! IEEE-754 double-precision scalars, carried as their 64-bit patterns.
//!
//! Verified code never computes with such a value directly: each
//! arithmetic operation is a trusted wrapper that reconstitutes the
//! doubles from their bytes, applies the one operation, and hands the
//! result back as a bit pattern. IEEE-754 fixes the result of each basic
//! operation for given operands, so every result is named as a function
//! of the operand bit patterns alone.

use byteorder::ByteOrder;
use vstd::prelude::*;

verus! {

/// Bit pattern of the double-precision number 0.0.
pub const BITS_ZERO: u64 = 0;

/// Bit pattern of the double-precision number 1.0.
pub const BITS_ONE: u64 = 0x3FF0_0000_0000_0000;

/// Bit pattern of the double-precision number 0.5.
pub const BITS_HALF: u64 = 0x3FE0_0000_0000_0000;

pub uninterp spec fn add_bits(a: u64, b: u64) -> u64;

pub uninterp spec fn sub_bits(a: u64, b: u64) -> u64;

pub uninterp spec fn mul_bits(a: u64, b: u64) -> u64;

pub uninterp spec fn div_bits(a: u64, b: u64) -> u64;

pub uninterp spec fn neg_bits(a: u64) -> u64;

pub uninterp spec fn exp_bits(a: u64) -> u64;

pub uninterp spec fn gt_bits(a: u64, b: u64) -> bool;

/// Relies on the double-precision addition operator of std; IEEE-754
/// determines its result from the two operand bit patterns alone.
/// `byteorder::LittleEndian::read_f64` / `write_f64` only move the
/// operands and the result between bit pattern and double.
#[verifier::external_body]
pub fn d_add(a: u64, b: u64) -> (r: u64)
    ensures
        r == add_bits(a, b),
{
    let x = byteorder::LittleEndian::read_f64(&a.to_le_bytes());
    let y = byteorder::LittleEndian::read_f64(&b.to_le_bytes());
    let mut out = [0u8; 8];
    byteorder::LittleEndian::write_f64(&mut out, x + y);
    u64::from_le_bytes(out)
}

/// Relies on the double-precision subtraction operator of std; IEEE-754
/// determines its result from the two operand bit patterns alone.
#[verifier::external_body]
pub fn d_sub(a: u64, b: u64) -> (r: u64)
    ensures
        r == sub_bits(a, b),
{
    let x = byteorder::LittleEndian::read_f64(&a.to_le_bytes());
    let y = byteorder::LittleEndian::read_f64(&b.to_le_bytes());
    let mut out = [0u8; 8];
    byteorder::LittleEndian::write_f64(&mut out, x - y);
    u64::from_le_bytes(out)
}

/// Relies on the double-precision multiplication operator of std; IEEE-754
/// determines its result from the two operand bit patterns alone.
#[verifier::external_body]
pub fn d_mul(a: u64, b: u64) -> (r: u64)
    ensures
        r == mul_bits(a, b),
{
    let x = byteorder::LittleEndian::read_f64(&a.to_le_bytes());
    let y = byteorder::LittleEndian::read_f64(&b.to_le_bytes());
    let mut out = [0u8; 8];
    byteorder::LittleEndian::write_f64(&mut out, x * y);
    u64::from_le_bytes(out)
}

/// Relies on the double-precision division operator of std; IEEE-754
/// determines its result from the two operand bit patterns alone.
#[verifier::external_body]
pub fn d_div(a: u64, b: u64) -> (r: u64)
    ensures
        r == div_bits(a, b),
{
    let x = byteorder::LittleEndian::read_f64(&a.to_le_bytes());
    let y = byteorder::LittleEndian::read_f64(&b.to_le_bytes());
    let mut out = [0u8; 8];
    byteorder::LittleEndian::write_f64(&mut out, x / y);
    u64::from_le_bytes(out)
}

/// Relies on the double-precision negation operator of std; IEEE-754
/// determines its result from the operand bit pattern alone.
#[verifier::external_body]
pub fn d_neg(a: u64) -> (r: u64)
    ensures
        r == neg_bits(a),
{
    let x = byteorder::LittleEndian::read_f64(&a.to_le_bytes());
    let mut out = [0u8; 8];
    byteorder::LittleEndian::write_f64(&mut out, -x);
    u64::from_le_bytes(out)
}

/// Relies on std's double-precision `exp`, whose result depends on the
/// operand bit pattern alone.
#[verifier::external_body]
pub fn d_exp(a: u64) -> (r: u64)
    ensures
        r == exp_bits(a),
{
    let x = byteorder::LittleEndian::read_f64(&a.to_le_bytes());
    let mut out = [0u8; 8];
    byteorder::LittleEndian::write_f64(&mut out, x.exp());
    u64::from_le_bytes(out)
}

/// Relies on the double-precision `>` comparison of std; IEEE-754
/// determines its result from the two operand bit patterns alone.
#[verifier::external_body]
pub fn d_gt(a: u64, b: u64) -> (r: bool)
    ensures
        r == gt_bits(a, b),
{
    let x = byteorder::LittleEndian::read_f64(&a.to_le_bytes());
    let y = byteorder::LittleEndian::read_f64(&b.to_le_bytes());
    x > y
}

} // verus!
