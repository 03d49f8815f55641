//! A 256-bit unsigned integer built from four 64-bit limbs, together
//! with the exact multiply, divide and comparison operations that the
//! fixed-point formulas in this crate need. Every operation is verified
//! against the mathematical value of the limbs.

use vstd::prelude::*;
use vstd::arithmetic::power2::{pow2, lemma_pow2_unfold, lemma_pow2_strictly_increases};
use vstd::arithmetic::div_mod::{lemma_fundamental_div_mod, lemma_fundamental_div_mod_converse};

verus! {

/// 2^64, the limb radix, as a `u128`.
pub const P64: u128 = 0x10000000000000000;

/// A 256-bit unsigned integer; `w0` is the least significant limb.
#[derive(Debug, Clone, Copy, PartialEq, Eq, Structural)]
pub struct U256 {
    pub w0: u64,
    pub w1: u64,
    pub w2: u64,
    pub w3: u64,
}

impl U256 {
    /// The mathematical value of the four limbs.
    pub open spec fn val(self) -> int {
        self.w0 + self.w1 * 0x10000000000000000
            + self.w2 * 0x100000000000000000000000000000000
            + self.w3 * 0x1000000000000000000000000000000000000000000000000
    }

    pub fn zero() -> (r: U256)
        ensures
            r.val() == 0,
    {
        U256 { w0: 0, w1: 0, w2: 0, w3: 0 }
    }

    pub fn from_u128(x: u128) -> (r: U256)
        ensures
            r.val() == x,
    {
        proof {
            lemma_fundamental_div_mod(x as int, P64 as int);
        }
        U256 { w0: (x % P64) as u64, w1: (x / P64) as u64, w2: 0, w3: 0 }
    }

    /// Whether the value fits in a `u128`.
    pub fn fits_u128(&self) -> (b: bool)
        ensures
            b == (self.val() <= u128::MAX),
    {
        self.w2 == 0 && self.w3 == 0
    }

    /// Whether the value fits in a `u64`.
    pub fn fits_u64(&self) -> (b: bool)
        ensures
            b == (self.val() <= u64::MAX),
    {
        self.w1 == 0 && self.w2 == 0 && self.w3 == 0
    }

    pub fn to_u128(&self) -> (r: u128)
        requires
            self.val() <= u128::MAX,
        ensures
            r == self.val(),
    {
        self.w0 as u128 + (self.w1 as u128) * P64
    }

    pub fn to_u64(&self) -> (r: u64)
        requires
            self.val() <= u64::MAX,
        ensures
            r == self.val(),
    {
        self.w0
    }
}

/// The product of two `u64` values fits in a `u128`.
proof fn lemma_u64_mul_fits(x: u64, y: u64)
    by (nonlinear_arith)
    ensures
        x * y <= 0xfffffffffffffffe0000000000000001,
{
}

/// The full 256-bit product of two `u128` values.
pub fn mul_u128(a: u128, b: u128) -> (r: U256)
    ensures
        r.val() == a * b,
{
    let a0: u128 = a % P64;
    let a1: u128 = a / P64;
    let b0: u128 = b % P64;
    let b1: u128 = b / P64;
    proof {
        lemma_fundamental_div_mod(a as int, P64 as int);
        lemma_fundamental_div_mod(b as int, P64 as int);
        lemma_u64_mul_fits(a0 as u64, b0 as u64);
        lemma_u64_mul_fits(a0 as u64, b1 as u64);
        lemma_u64_mul_fits(a1 as u64, b0 as u64);
        lemma_u64_mul_fits(a1 as u64, b1 as u64);
    }
    let p00: u128 = a0 * b0;
    let p01: u128 = a0 * b1;
    let p10: u128 = a1 * b0;
    let p11: u128 = a1 * b1;
    let t1: u128 = p00 / P64 + p01 % P64 + p10 % P64;
    let t2: u128 = t1 / P64 + p01 / P64 + p10 / P64 + p11 % P64;
    let t3: u128 = t2 / P64 + p11 / P64;
    let w0: u64 = (p00 % P64) as u64;
    let w1: u64 = (t1 % P64) as u64;
    let w2: u64 = (t2 % P64) as u64;
    proof {
        lemma_fundamental_div_mod(p00 as int, P64 as int);
        lemma_fundamental_div_mod(p01 as int, P64 as int);
        lemma_fundamental_div_mod(p10 as int, P64 as int);
        lemma_fundamental_div_mod(p11 as int, P64 as int);
        lemma_fundamental_div_mod(t1 as int, P64 as int);
        lemma_fundamental_div_mod(t2 as int, P64 as int);
        assert(a * b == (a1 * P64 + a0) * (b1 * P64 + b0)) by {
            assert(a == a1 * P64 + a0);
            assert(b == b1 * P64 + b0);
        }
        assert((a1 * P64 + a0) * (b1 * P64 + b0) == (a1 * b1) * (P64 * P64) + (a1 * b0) * P64
            + (a0 * b1) * P64 + a0 * b0) by (nonlinear_arith);
        // The mathematical product, written over the partial products.
        assert(a * b == p11 * 0x100000000000000000000000000000000 + p01 * 0x10000000000000000
            + p10 * 0x10000000000000000 + p00);
        // t3 < 2^64, else the reassembled value would exceed the product's range.
        assert(w0 + w1 * 0x10000000000000000 + w2 * 0x100000000000000000000000000000000
            + t3 * 0x1000000000000000000000000000000000000000000000000 == a * b);
        assert(a * b <= 0xfffffffffffffffffffffffffffffffe00000000000000000000000000000001)
            by (nonlinear_arith)
            requires a <= 0xffffffffffffffffffffffffffffffff
                && b <= 0xffffffffffffffffffffffffffffffff;
        assert(t3 < 0x10000000000000000);
    }
    let w3: u64 = t3 as u64;
    U256 { w0, w1, w2, w3 }
}

/// 2^63, half the limb radix, as a `u64`.
const H64: u64 = 0x8000000000000000;

/// Shift one bit left, feeding `bit` into the low end; the bit pushed
/// out at the high end is returned beside the shifted value.
fn shl1_with_bit(x: &U256, bit: u64) -> (r: (U256, u64))
    requires
        bit <= 1,
    ensures
        2 * x.val() + bit == r.1 * 0x10000000000000000000000000000000000000000000000000000000000000000
            + r.0.val(),
        r.1 <= 1,
{
    proof {
        lemma_fundamental_div_mod(x.w0 as int, H64 as int);
        lemma_fundamental_div_mod(x.w1 as int, H64 as int);
        lemma_fundamental_div_mod(x.w2 as int, H64 as int);
        lemma_fundamental_div_mod(x.w3 as int, H64 as int);
    }
    let carry: u64 = x.w3 / H64;
    let w3: u64 = (x.w3 % H64) * 2 + x.w2 / H64;
    let w2: u64 = (x.w2 % H64) * 2 + x.w1 / H64;
    let w1: u64 = (x.w1 % H64) * 2 + x.w0 / H64;
    let w0: u64 = (x.w0 % H64) * 2 + bit;
    (U256 { w0, w1, w2, w3 }, carry)
}

/// Limb-wise comparison.
fn ge(a: &U256, b: &U256) -> (r: bool)
    ensures
        r == (a.val() >= b.val()),
{
    if a.w3 != b.w3 {
        a.w3 > b.w3
    } else if a.w2 != b.w2 {
        a.w2 > b.w2
    } else if a.w1 != b.w1 {
        a.w1 > b.w1
    } else {
        a.w0 >= b.w0
    }
}

/// Subtraction modulo 2^256; the final borrow is returned beside the
/// difference, so `a - b == r.0.val() - r.1 * 2^256`.
fn sub_wrap(a: &U256, b: &U256) -> (r: (U256, u64))
    ensures
        r.0.val() == a.val() - b.val() + r.1 * 0x10000000000000000000000000000000000000000000000000000000000000000,
        r.1 <= 1,
        r.1 == 0 <==> a.val() >= b.val(),
{
    let mut borrow: u64 = 0;
    let d0: u128 = b.w0 as u128;
    let a0: u128 = a.w0 as u128;
    let w0: u64 = if a0 >= d0 {
        borrow = 0;
        (a0 - d0) as u64
    } else {
        borrow = 1;
        (a0 + P64 - d0) as u64
    };
    let d1: u128 = b.w1 as u128 + borrow as u128;
    let a1: u128 = a.w1 as u128;
    let w1: u64 = if a1 >= d1 {
        borrow = 0;
        (a1 - d1) as u64
    } else {
        borrow = 1;
        (a1 + P64 - d1) as u64
    };
    let d2: u128 = b.w2 as u128 + borrow as u128;
    let a2: u128 = a.w2 as u128;
    let w2: u64 = if a2 >= d2 {
        borrow = 0;
        (a2 - d2) as u64
    } else {
        borrow = 1;
        (a2 + P64 - d2) as u64
    };
    let d3: u128 = b.w3 as u128 + borrow as u128;
    let a3: u128 = a.w3 as u128;
    let w3: u64 = if a3 >= d3 {
        borrow = 0;
        (a3 - d3) as u64
    } else {
        borrow = 1;
        (a3 + P64 - d3) as u64
    };
    let r = U256 { w0, w1, w2, w3 };
    proof {
        if borrow == 0 {
            assert(a.val() >= b.val());
        } else {
            assert(a.val() < b.val());
        }
    }
    (r, borrow)
}

/// Exact subtraction.
fn sub_exact(a: &U256, b: &U256) -> (r: U256)
    requires
        a.val() >= b.val(),
    ensures
        r.val() == a.val() - b.val(),
{
    let pair = sub_wrap(a, b);
    pair.0
}

/// The product of a 256-bit value and a `u64` multiplier, when it still
/// fits in 256 bits.
pub fn mul_u256_u64(x: &U256, m: u64) -> (r: Option<U256>)
    ensures
        match r {
            Some(p) => p.val() == x.val() * m && x.val() * m
                < 0x10000000000000000000000000000000000000000000000000000000000000000,
            None => x.val() * m
                >= 0x10000000000000000000000000000000000000000000000000000000000000000,
        },
{
    proof {
        lemma_u64_mul_fits(x.w0, m);
        lemma_u64_mul_fits(x.w1, m);
        lemma_u64_mul_fits(x.w2, m);
        lemma_u64_mul_fits(x.w3, m);
    }
    let c0: u128 = (x.w0 as u128) * (m as u128);
    let c1: u128 = (x.w1 as u128) * (m as u128) + c0 / P64;
    let c2: u128 = (x.w2 as u128) * (m as u128) + c1 / P64;
    let c3: u128 = (x.w3 as u128) * (m as u128) + c2 / P64;
    let w0: u64 = (c0 % P64) as u64;
    let w1: u64 = (c1 % P64) as u64;
    let w2: u64 = (c2 % P64) as u64;
    let w3: u64 = (c3 % P64) as u64;
    let carry: u128 = c3 / P64;
    let r = U256 { w0, w1, w2, w3 };
    proof {
        lemma_fundamental_div_mod(c0 as int, P64 as int);
        lemma_fundamental_div_mod(c1 as int, P64 as int);
        lemma_fundamental_div_mod(c2 as int, P64 as int);
        lemma_fundamental_div_mod(c3 as int, P64 as int);
        assert(x.val() * m == (x.w0 as int) * m + ((x.w1 as int) * m) * 0x10000000000000000
            + ((x.w2 as int) * m) * 0x100000000000000000000000000000000
            + ((x.w3 as int) * m) * 0x1000000000000000000000000000000000000000000000000)
            by (nonlinear_arith);
        assert(r.val() + carry * 0x10000000000000000000000000000000000000000000000000000000000000000
            == x.val() * m);
    }
    if carry == 0 {
        Some(r)
    } else {
        proof {
            assert(x.val() * m
                >= 0x10000000000000000000000000000000000000000000000000000000000000000);
        }
        None
    }
}

/// Multiplication by 2^64 as a limb shift, when the result still fits
/// in 256 bits.
pub fn shl_64(x: &U256) -> (r: Option<U256>)
    ensures
        match r {
            Some(p) => p.val() == x.val() * 0x10000000000000000 && x.val()
                < 0x1000000000000000000000000000000000000000000000000,
            None => x.val() >= 0x1000000000000000000000000000000000000000000000000,
        },
{
    if x.w3 != 0 {
        None
    } else {
        Some(U256 { w0: 0, w1: x.w0, w2: x.w1, w3: x.w2 })
    }
}

/// Division by 2^64 as a limb shift: the quotient and the dropped limb.
pub fn shr_64(x: &U256) -> (r: (U256, u64))
    ensures
        r.0.val() == x.val() / 0x10000000000000000,
        r.1 == x.val() % 0x10000000000000000,
{
    let q = U256 { w0: x.w1, w1: x.w2, w2: x.w3, w3: 0 };
    proof {
        assert(x.val() == q.val() * 0x10000000000000000 + x.w0);
        lemma_fundamental_div_mod_converse(x.val(), 0x10000000000000000, q.val(), x.w0 as int);
    }
    (q, x.w0)
}

/// The concrete value of 2^256.
proof fn lemma_pow2_256()
    ensures
        pow2(0) == 1,
        pow2(128) == 0x100000000000000000000000000000000,
        pow2(256) == 0x10000000000000000000000000000000000000000000000000000000000000000,
{
    vstd::arithmetic::power2::lemma2_to64();
    assert(pow2(64) == 0x10000000000000000);
    vstd::arithmetic::power2::lemma_pow2_adds(64, 64);
    assert(pow2(128) == 0x10000000000000000 * 0x10000000000000000);
    vstd::arithmetic::power2::lemma_pow2_adds(128, 128);
    assert(pow2(256) == 0x100000000000000000000000000000000 * 0x100000000000000000000000000000000);
}

/// One value is no larger than another scaled by at least one.
proof fn lemma_le_scale(a: int, b: int, s: int)
    by (nonlinear_arith)
    requires
        a * s <= b * s,
        s > 0,
    ensures
        a <= b,
{
}

/// Long division: 256-bit numerator by a positive 256-bit divisor,
/// one quotient bit per step.
pub fn div_rem(n: &U256, d: &U256) -> (qr: (U256, U256))
    requires
        d.val() > 0,
    ensures
        n.val() == qr.0.val() * d.val() + qr.1.val(),
        qr.1.val() < d.val(),
{
    let mut c: U256 = *n;
    let mut q: U256 = U256::zero();
    let mut r: U256 = U256::zero();
    let ghost n0: int = n.val();
    let ghost dv: int = d.val();
    proof {
        lemma_pow2_256();
    }
    proof {
        assert(n0 * pow2(0) == n0);
        assert((q.val() * dv + r.val()) * pow2(256) == 0);
    }
    let mut i: usize = 0;
    while i < 256
        invariant
            i <= 256,
            dv == d.val(),
            dv > 0,
            n0 == n.val(),
            0 <= n0 < pow2(256),
            pow2(256) == 0x10000000000000000000000000000000000000000000000000000000000000000,
            n0 * pow2(i as nat) == (q.val() * dv + r.val()) * pow2(256) + c.val(),
            r.val() < dv,
            q.val() * dv + r.val() <= n0,
        decreases 256 - i,
    {
        let ghost qv: int = q.val();
        let ghost rv: int = r.val();
        let ghost p: int = qv * dv + rv;
        let cpair = shl1_with_bit(&c, 0);
        let c2: U256 = cpair.0;
        let bit: u64 = cpair.1;
        let ghost p2: int = 2 * p + bit;
        proof {
            // The shifted prefix still fits below the numerator.
            lemma_pow2_unfold((i + 1) as nat);
            assert(n0 * pow2((i + 1) as nat) == p2 * pow2(256) + c2.val()) by {
                assert(n0 * (2 * pow2(i as nat)) == 2 * (n0 * pow2(i as nat)))
                    by (nonlinear_arith);
                assert((2 * p + bit) * pow2(256) == 2 * (p * pow2(256)) + bit * pow2(256));
            }
            if i + 1 < 256 {
                lemma_pow2_strictly_increases((i + 1) as nat, 256);
            }
            assert(n0 * pow2((i + 1) as nat) <= n0 * pow2(256)) by (nonlinear_arith)
                requires n0 >= 0 && pow2((i + 1) as nat) <= pow2(256);
            assert(p2 * pow2(256) <= n0 * pow2(256));
            lemma_le_scale(p2, n0, pow2(256) as int);
        }
        let rpair = shl1_with_bit(&r, bit);
        let r2: U256 = rpair.0;
        let rcarry: u64 = rpair.1;
        let qbit: u64;
        if rcarry == 1 {
            // The doubled remainder overflowed 256 bits, so it certainly
            // exceeds the divisor; subtracting wraps back into range.
            proof {
                assert(r2.val() == 2 * rv + bit
                    - 0x10000000000000000000000000000000000000000000000000000000000000000);
                assert(r2.val() < dv);
            }
            let spair = sub_wrap(&r2, d);
            r = spair.0;
            qbit = 1;
            proof {
                assert(r.val() == 2 * rv + bit - dv);
            }
        } else {
            if ge(&r2, d) {
                r = sub_exact(&r2, d);
                qbit = 1;
            } else {
                r = r2;
                qbit = 0;
            }
        }
        proof {
            assert(r.val() == 2 * rv + bit - qbit * dv);
            assert(r.val() < dv);
            assert(p2 == (2 * qv + qbit) * dv + r.val()) by {
                assert((2 * qv + qbit) * dv == 2 * (qv * dv) + qbit * dv)
                    by (nonlinear_arith);
            }
            // The new quotient fits in 256 bits.
            assert(2 * qv + qbit <= (2 * qv + qbit) * dv) by (nonlinear_arith)
                requires dv >= 1 && qv >= 0 && qbit >= 0;
        }
        let qpair = shl1_with_bit(&q, qbit);
        q = qpair.0;
        proof {
            assert(q.val() == 2 * qv + qbit);
        }
        c = c2;
        i = i + 1;
    }
    proof {
        // All 256 bits are consumed: the prefix is the whole numerator.
        let p: int = q.val() * dv + r.val();
        assert(n0 * pow2(256) == p * pow2(256) + c.val());
        assert((n0 - p) * pow2(256) == c.val()) by (nonlinear_arith)
            requires n0 * pow2(256) == p * pow2(256) + c.val();
        if n0 > p {
            assert((n0 - p) * pow2(256) >= 1 * pow2(256)) by (nonlinear_arith)
                requires n0 - p >= 1 && pow2(256) > 0;
            assert(false);
        }
        if n0 < p {
            assert((n0 - p) * pow2(256) <= (-1) * pow2(256)) by (nonlinear_arith)
                requires n0 - p <= -1 && pow2(256) > 0;
            assert(false);
        }
    }
    (q, r)
}

} // verus!
