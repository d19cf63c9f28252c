//! The fixed-point 8x8 forward DCT used by the PSNR-HVS engine.
//!
//! This is a specific lifting-scheme butterfly with fixed rounding constants;
//! its exact arithmetic, rounding shifts included, is part of the metric's
//! definition, so the specification below restates every step of it over
//! unbounded integers and the executable code is proved equal to that model.

use vstd::arithmetic::div_mod::lemma_fundamental_div_mod;
use vstd::arithmetic::div_mod::lemma_fundamental_div_mod_converse_div;
use vstd::arithmetic::mul::lemma_mul_unary_negation;
use vstd::prelude::*;

verus! {

/// Truncating (round toward zero) division of `a` by a positive `d`, the
/// meaning of Rust's `/` on signed integers.
pub open spec fn trunc_div(a: int, d: int) -> int {
    if a >= 0 {
        a / d
    } else {
        -((-a) / d)
    }
}

/// Truncating division by two: what `od_dct_rshift(a, 1)` computes.
pub open spec fn tdiv2(a: int) -> int {
    trunc_div(a, 2)
}

/// `2^b` for the shift amounts the DCT uses.
pub open spec fn shift_pow2(b: nat) -> int {
    vstd::arithmetic::power2::pow2(b) as int
}

/// Floor division of `v` by a positive `d`: the meaning of an arithmetic
/// right shift by `log2(d)` bits, which the lifting steps of the DCT use.
/// In spec code `v / d` is already floor division, so the executable form
/// below carries its contract directly.
fn floor_div(v: i64, d: i64) -> (r: i64)
    requires
        2 <= d <= 0x1_0000_0000,
        -0x1000_0000_0000_0000 <= v <= 0x1000_0000_0000_0000,
    ensures
        r == v as int / d as int,
        d * r <= v < d * r + d,
{
    if v >= 0 {
        proof {
            lemma_fundamental_div_mod(v as int, d as int);
            assert(d * (v as int / d as int) == (v as int / d as int) * d) by {
                vstd::arithmetic::mul::lemma_mul_is_commutative(d as int, v as int / d as int);
            }
        }
        v / d
    } else {
        let m = (-v + d - 1) / d;
        proof {
            let a = (-v + d - 1) as int;
            let di = d as int;
            lemma_fundamental_div_mod(a, di);
            let rr = a % di;
            assert(a == di * (a / di) + rr);
            assert(di * (-(a / di)) == -(di * (a / di))) by {
                lemma_mul_unary_negation(di, a / di);
            }
            assert(v as int == (-(a / di)) * di + (di - 1 - rr)) by {
                assert(di * (-(a / di)) == (-(a / di)) * di) by {
                    vstd::arithmetic::mul::lemma_mul_is_commutative(di, -(a / di));
                }
            }
            lemma_fundamental_div_mod_converse_div(v as int, di, -(a / di), di - 1 - rr);
            assert(di * (-(a / di)) == (-(a / di)) * di) by {
                vstd::arithmetic::mul::lemma_mul_is_commutative(di, -(a / di));
            }
        }
        -m
    }
}

/// The strength-reduced form of `a / (1 << b)` with truncation toward zero,
/// exactly as the DCT's butterflies use it.
pub fn od_dct_rshift(a: i64, b: u32) -> (r: i64)
    requires
        1 <= b <= 31,
        -0x1000_0000_0000_0000 <= a <= 0x1000_0000_0000_0000,
    ensures
        r == trunc_div(a as int, shift_pow2(b as nat)),
{
    let mut d: i64 = 1;
    let mut i: u32 = 0;
    proof {
        vstd::arithmetic::power2::lemma2_to64();
    }
    while i < b
        invariant
            0 <= i <= b,
            b <= 31,
            d == shift_pow2(i as nat),
            1 <= d <= 0x8000_0000,
        decreases b - i,
    {
        proof {
            vstd::arithmetic::power2::lemma_pow2_unfold(i as nat + 1);
            vstd::arithmetic::power2::lemma2_to64();
            if i + 1 < 31 {
                vstd::arithmetic::power2::lemma_pow2_strictly_increases(i as nat + 1, 31nat);
            }
        }
        d = d * 2;
        i += 1;
    }
    if a >= 0 {
        proof {
            vstd::arithmetic::div_mod::lemma_div_pos_is_pos(a as int, d as int);
        }
        a / d
    } else {
        -(floor_div(-a, d))
    }
}

/// First stage of the 8-point pass: the input permutation, the +1/-1
/// butterflies and the embedded 4-point type-II DCT head. Returns the eight
/// working values followed by the saved half of the first butterfly, which
/// the last stage consumes.
pub open spec fn fdct8_stage_a(x: Seq<int>) -> Seq<int> {
    let t0 = x[0];
    let t4 = x[1];
    let t2 = x[2];
    let t6 = x[3];
    let t7 = x[4];
    let t3 = x[5];
    let t5 = x[6];
    let t1 = x[7];
    // +1/-1 butterflies
    let t1 = t0 - t1;
    let th1 = tdiv2(t1);
    let t0 = t0 - th1;
    let t4 = t4 + t5;
    let th4 = tdiv2(t4);
    let t5 = t5 - th4;
    let t3 = t2 - t3;
    let t2 = t2 - tdiv2(t3);
    let t6 = t6 + t7;
    let th6 = tdiv2(t6);
    let t7 = th6 - t7;
    // embedded 4-point type-II DCT
    let t0 = t0 + th6;
    let t6 = t0 - t6;
    let t2 = th4 - t2;
    let t4 = t2 - t4;
    seq![t0, t1, t2, t3, t4, t5, t6, t7, th1]
}

/// Second stage: the three 2-point lifting blocks with their fixed-point
/// rounding shifts. The saved butterfly half is passed through unchanged.
pub open spec fn fdct8_stage_b(s: Seq<int>) -> Seq<int> {
    let t0 = s[0];
    let t1 = s[1];
    let t2 = s[2];
    let t3 = s[3];
    let t4 = s[4];
    let t5 = s[5];
    let t6 = s[6];
    let t7 = s[7];
    let th1 = s[8];
    // embedded 2-point type-II DCT
    let t0 = t0 - (t4 * 13573 + 16384) / 32768;
    let t4 = t4 + (t0 * 11585 + 8192) / 16384;
    let t0 = t0 - (t4 * 13573 + 16384) / 32768;
    // embedded 2-point type-IV DST
    let t6 = t6 - (t2 * 21895 + 16384) / 32768;
    let t2 = t2 + (t6 * 15137 + 8192) / 16384;
    let t6 = t6 - (t2 * 21895 + 16384) / 32768;
    // embedded 4-point type-IV DST, first half
    let t3 = t3 + (t5 * 19195 + 16384) / 32768;
    let t5 = t5 + (t3 * 11585 + 8192) / 16384;
    let t3 = t3 - (t5 * 7489 + 4096) / 8192;
    seq![t0, t1, t2, t3, t4, t5, t6, t7, th1]
}

/// Third stage: the tail of the embedded 4-point type-IV DST and the final
/// rotations of the odd coefficients.
pub open spec fn fdct8_stage_c(s: Seq<int>) -> Seq<int> {
    let t0 = s[0];
    let t1 = s[1];
    let t2 = s[2];
    let t3 = s[3];
    let t4 = s[4];
    let t5 = s[5];
    let t6 = s[6];
    let t7 = s[7];
    let th1 = s[8];
    let t7 = tdiv2(t5) - t7;
    let t5 = t5 - t7;
    let t3 = th1 - t3;
    let t1 = t1 - t3;
    let t7 = t7 + (t1 * 3227 + 16384) / 32768;
    let t1 = t1 - (t7 * 6393 + 16384) / 32768;
    let t7 = t7 + (t1 * 3227 + 16384) / 32768;
    let t5 = t5 + (t3 * 2485 + 4096) / 8192;
    let t3 = t3 - (t5 * 18205 + 16384) / 32768;
    let t5 = t5 + (t3 * 2485 + 4096) / 8192;
    seq![t0, t1, t2, t3, t4, t5, t6, t7]
}

/// One 8-point pass of the fixed-point forward DCT: the exact chain of
/// butterflies, lifting multiplies and rounding shifts, restated over `int`.
/// Input is the 8-element column being transformed, output the 8 transform
/// coefficients in their permuted output order.
pub open spec fn fdct8_spec(x: Seq<int>) -> Seq<int> {
    fdct8_stage_c(fdct8_stage_b(fdct8_stage_a(x)))
}

/// The 8 elements of the column starting at `off` in a grid stored with a
/// row stride of 8.
pub open spec fn col8(s: Seq<int>, off: int) -> Seq<int> {
    Seq::new(8, |k: int| s[off + 8 * k])
}

/// View of a vector of machine integers as unbounded integers.
pub open spec fn ints(s: Seq<i64>) -> Seq<int> {
    s.map(|i: int, v: i64| v as int)
}

/// Truncating halving, used by the butterflies.
fn rshift1(a: i64) -> (r: i64)
    requires
        -0x1000_0000_0000_0000 <= a <= 0x1000_0000_0000_0000,
    ensures
        r == tdiv2(a as int),
        a >= 0 ==> 2 * r <= a && a <= 2 * r + 1,
        a < 0 ==> 2 * r - 1 <= a && a <= 2 * r,
{
    if a >= 0 {
        a / 2
    } else {
        -((-a) / 2)
    }
}

/// Executable first stage, proved equal to `fdct8_stage_a`.
fn fdct8_exec_a(x: &Vec<i64>, x_off: usize) -> (s: Vec<i64>)
    requires
        x_off + 57 <= x@.len(),
        forall|k: int|
            0 <= k < 8 ==> -0x40_0000 <= #[trigger] x@[x_off + 8 * k] <= 0x40_0000,
    ensures
        s@.len() == 9,
        forall|i: int| 0 <= i < 9 ==> s@[i] == fdct8_stage_a(col8(ints(x@), x_off as int))[i],
        forall|i: int| 0 <= i < 9 ==> -0x160_0000 <= #[trigger] s@[i] <= 0x160_0000,
{
    let ghost c = col8(ints(x@), x_off as int);
    let n = x.len();
    assert(x_off + 57 <= n);
    let mut t0: i64 = x[x_off];
    let mut t4: i64 = x[x_off + 8];
    let mut t2: i64 = x[x_off + 16];
    let mut t6: i64 = x[x_off + 24];
    let mut t7: i64 = x[x_off + 32];
    let mut t3: i64 = x[x_off + 40];
    let mut t5: i64 = x[x_off + 48];
    let mut t1: i64 = x[x_off + 56];
    proof {
        assert(c[0] == t0 && c[1] == t4 && c[2] == t2 && c[3] == t6 && c[4] == t7 && c[5] == t3
            && c[6] == t5 && c[7] == t1);
    }
    // +1/-1 butterflies
    t1 = t0 - t1;
    let th1: i64 = rshift1(t1);
    t0 = t0 - th1;
    t4 = t4 + t5;
    let th4: i64 = rshift1(t4);
    t5 = t5 - th4;
    t3 = t2 - t3;
    t2 = t2 - rshift1(t3);
    t6 = t6 + t7;
    let th6: i64 = rshift1(t6);
    t7 = th6 - t7;
    // embedded 4-point type-II DCT
    t0 = t0 + th6;
    t6 = t0 - t6;
    t2 = th4 - t2;
    t4 = t2 - t4;
    let mut s: Vec<i64> = Vec::new();
    s.push(t0);
    s.push(t1);
    s.push(t2);
    s.push(t3);
    s.push(t4);
    s.push(t5);
    s.push(t6);
    s.push(t7);
    s.push(th1);
    s
}

/// Executable second stage, proved equal to `fdct8_stage_b`.
fn fdct8_exec_b(v: &Vec<i64>) -> (s: Vec<i64>)
    requires
        v@.len() == 9,
        forall|i: int| 0 <= i < 9 ==> -0x160_0000 <= #[trigger] v@[i] <= 0x160_0000,
    ensures
        s@.len() == 9,
        forall|i: int| 0 <= i < 9 ==> s@[i] == fdct8_stage_b(ints(v@))[i],
        forall|i: int| 0 <= i < 9 ==> -0x600_0000 <= #[trigger] s@[i] <= 0x600_0000,
{
    let mut t0: i64 = v[0];
    let t1: i64 = v[1];
    let mut t2: i64 = v[2];
    let mut t3: i64 = v[3];
    let mut t4: i64 = v[4];
    let mut t5: i64 = v[5];
    let mut t6: i64 = v[6];
    let t7: i64 = v[7];
    let th1: i64 = v[8];
    // embedded 2-point type-II DCT
    t0 = t0 - floor_div(t4 * 13573 + 16384, 32768);
    t4 = t4 + floor_div(t0 * 11585 + 8192, 16384);
    t0 = t0 - floor_div(t4 * 13573 + 16384, 32768);
    // embedded 2-point type-IV DST
    t6 = t6 - floor_div(t2 * 21895 + 16384, 32768);
    t2 = t2 + floor_div(t6 * 15137 + 8192, 16384);
    t6 = t6 - floor_div(t2 * 21895 + 16384, 32768);
    // embedded 4-point type-IV DST, first half
    t3 = t3 + floor_div(t5 * 19195 + 16384, 32768);
    t5 = t5 + floor_div(t3 * 11585 + 8192, 16384);
    t3 = t3 - floor_div(t5 * 7489 + 4096, 8192);
    let mut s: Vec<i64> = Vec::new();
    s.push(t0);
    s.push(t1);
    s.push(t2);
    s.push(t3);
    s.push(t4);
    s.push(t5);
    s.push(t6);
    s.push(t7);
    s.push(th1);
    s
}

/// Executable third stage, proved equal to `fdct8_stage_c`.
fn fdct8_exec_c(v: &Vec<i64>) -> (y: Vec<i64>)
    requires
        v@.len() == 9,
        forall|i: int| 0 <= i < 9 ==> -0x600_0000 <= #[trigger] v@[i] <= 0x600_0000,
    ensures
        y@.len() == 8,
        forall|i: int| 0 <= i < 8 ==> y@[i] == fdct8_stage_c(ints(v@))[i],
        forall|i: int| 0 <= i < 8 ==> -0x2000_0000 <= #[trigger] y@[i] <= 0x2000_0000,
{
    let t0: i64 = v[0];
    let mut t1: i64 = v[1];
    let t2: i64 = v[2];
    let mut t3: i64 = v[3];
    let t4: i64 = v[4];
    let mut t5: i64 = v[5];
    let t6: i64 = v[6];
    let mut t7: i64 = v[7];
    let th1: i64 = v[8];
    t7 = rshift1(t5) - t7;
    t5 = t5 - t7;
    t3 = th1 - t3;
    t1 = t1 - t3;
    t7 = t7 + floor_div(t1 * 3227 + 16384, 32768);
    t1 = t1 - floor_div(t7 * 6393 + 16384, 32768);
    t7 = t7 + floor_div(t1 * 3227 + 16384, 32768);
    t5 = t5 + floor_div(t3 * 2485 + 4096, 8192);
    t3 = t3 - floor_div(t5 * 18205 + 16384, 32768);
    t5 = t5 + floor_div(t3 * 2485 + 4096, 8192);
    let mut y: Vec<i64> = Vec::new();
    y.push(t0);
    y.push(t1);
    y.push(t2);
    y.push(t3);
    y.push(t4);
    y.push(t5);
    y.push(t6);
    y.push(t7);
    y
}

/// One 8-point pass of the fixed-point forward DCT over the column starting
/// at `x_off` of a grid with a row stride of 8: computes exactly
/// `fdct8_spec` of that column.
pub fn od_bin_fdct8(x: &Vec<i64>, x_off: usize) -> (y: Vec<i64>)
    requires
        x_off + 57 <= x@.len(),
        forall|k: int|
            0 <= k < 8 ==> -0x40_0000 <= #[trigger] x@[x_off + 8 * k] <= 0x40_0000,
    ensures
        y@.len() == 8,
        forall|i: int| 0 <= i < 8 ==> y@[i] == fdct8_spec(col8(ints(x@), x_off as int))[i],
        forall|i: int| 0 <= i < 8 ==> -0x2000_0000 <= #[trigger] y@[i] <= 0x2000_0000,
{
    let ghost c = col8(ints(x@), x_off as int);
    let a = fdct8_exec_a(x, x_off);
    proof {
        assert(ints(a@) =~= fdct8_stage_a(c));
    }
    let b = fdct8_exec_b(&a);
    proof {
        assert(ints(b@) =~= fdct8_stage_b(fdct8_stage_a(c)));
    }
    let y = fdct8_exec_c(&b);
    proof {
        assert(forall|i: int|
            0 <= i < 8 ==> y@[i] == #[trigger] fdct8_stage_c(fdct8_stage_b(fdct8_stage_a(c)))[i]);
    }
    y
}

/// Bound on the growth of the first stage.
proof fn lemma_stage_a_bound(x: Seq<int>)
    requires
        x.len() >= 8,
        forall|i: int| 0 <= i < 8 ==> -0x8100 <= #[trigger] x[i] <= 0x8100,
    ensures
        forall|i: int| 0 <= i < 9 ==> -0x2_9000 <= #[trigger] fdct8_stage_a(x)[i] <= 0x2_9000,
{
}

/// Bound on the growth of the second stage.
proof fn lemma_stage_b_bound(s: Seq<int>)
    requires
        s.len() >= 9,
        forall|i: int| 0 <= i < 9 ==> -0x2_9000 <= #[trigger] s[i] <= 0x2_9000,
    ensures
        forall|i: int| 0 <= i < 9 ==> -0xB_0000 <= #[trigger] fdct8_stage_b(s)[i] <= 0xB_0000,
{
}

/// Bound on the growth of the third stage.
proof fn lemma_stage_c_bound(s: Seq<int>)
    requires
        s.len() >= 9,
        forall|i: int| 0 <= i < 9 ==> -0xB_0000 <= #[trigger] s[i] <= 0xB_0000,
    ensures
        forall|i: int| 0 <= i < 8 ==> -0x40_0000 <= #[trigger] fdct8_stage_c(s)[i] <= 0x40_0000,
{
}

/// An 8-point pass over samples no larger than a 16-bit magnitude keeps
/// every coefficient within `0x40_0000`, so a second pass can follow.
pub proof fn lemma_fdct8_bound(x: Seq<int>)
    requires
        x.len() >= 8,
        forall|i: int| 0 <= i < 8 ==> -0x8100 <= #[trigger] x[i] <= 0x8100,
    ensures
        forall|i: int| 0 <= i < 8 ==> -0x40_0000 <= #[trigger] fdct8_spec(x)[i] <= 0x40_0000,
{
    lemma_stage_a_bound(x);
    lemma_stage_b_bound(fdct8_stage_a(x));
    lemma_stage_c_bound(fdct8_stage_b(fdct8_stage_a(x)));
}

/// First pass of the separable 8x8 transform: entry `8*i + j` is coefficient
/// `j` of the 8-point transform of column `i`. Kept opaque so that proofs
/// about whole blocks stay at the level of this definition.
#[verifier::opaque]
pub open spec fn fdct8x8_pass_spec(d: Seq<int>) -> Seq<int> {
    Seq::new(64, |idx: int| fdct8_spec(col8(d, idx / 8))[idx % 8])
}

/// The full fixed-point 8x8 forward DCT: an 8-point pass down each column,
/// then an 8-point pass down each column of the transposed intermediate.
pub open spec fn fdct8x8_spec(d: Seq<int>) -> Seq<int> {
    fdct8x8_pass_spec(fdct8x8_pass_spec(d))
}

/// The first-pass grid always has 64 entries.
proof fn lemma_pass_spec_len(d: Seq<int>)
    ensures
        fdct8x8_pass_spec(d).len() == 64,
{
    reveal(fdct8x8_pass_spec);
}

/// One pass of the separable transform over all eight columns.
fn fdct8x8_pass(data: &Vec<i64>) -> (z: Vec<i64>)
    requires
        data@.len() == 64,
        forall|k: int| 0 <= k < 64 ==> -0x40_0000 <= #[trigger] data@[k] <= 0x40_0000,
    ensures
        z@.len() == 64,
        forall|k: int| 0 <= k < 64 ==> z@[k] == fdct8x8_pass_spec(ints(data@))[k],
        (forall|k: int| 0 <= k < 64 ==> -0x8100 <= #[trigger] data@[k] <= 0x8100) ==> forall|k: int|
            0 <= k < 64 ==> -0x40_0000 <= #[trigger] z@[k] <= 0x40_0000,
{
    let ghost d = ints(data@);
    let ghost small = forall|k: int| 0 <= k < 64 ==> -0x8100 <= #[trigger] data@[k] <= 0x8100;
    let mut z: Vec<i64> = Vec::new();
    let mut i: usize = 0;
    while i < 8
        invariant
            0 <= i <= 8,
            data@.len() == 64,
            forall|k: int| 0 <= k < 64 ==> -0x40_0000 <= #[trigger] data@[k] <= 0x40_0000,
            d == ints(data@),
            z@.len() == 8 * i,
            forall|k: int| 0 <= k < 8 * i ==> z@[k] == fdct8x8_pass_spec(d)[k],
            small == (forall|k: int| 0 <= k < 64 ==> -0x8100 <= #[trigger] data@[k] <= 0x8100),
            small ==> forall|k: int| 0 <= k < 8 * i ==> -0x40_0000 <= #[trigger] z@[k] <= 0x40_0000,
        decreases 8 - i,
    {
        let y = od_bin_fdct8(data, i);
        let ghost zprev = z@;
        z.push(y[0]);
        z.push(y[1]);
        z.push(y[2]);
        z.push(y[3]);
        z.push(y[4]);
        z.push(y[5]);
        z.push(y[6]);
        z.push(y[7]);
        proof {
            assert forall|k: int| 8 * i <= k < 8 * (i + 1) implies z@[k] == fdct8x8_pass_spec(d)[k]
            by {
                reveal(fdct8x8_pass_spec);
                assert(z@[k] == y@[k - 8 * i]);
                assert(k / 8 == i && k % 8 == k - 8 * i);
            }
            assert(forall|k: int| 0 <= k < 8 * i ==> z@[k] == zprev[k]);
            if small {
                lemma_fdct8_bound(col8(d, i as int));
                assert(forall|j: int|
                    0 <= j < 8 ==> #[trigger] col8(d, i as int)[j] == d[i as int + 8 * j]);
                assert(forall|j: int|
                    0 <= j < 8 ==> -0x40_0000 <= #[trigger] y@[j] <= 0x40_0000);
            }
        }
        i += 1;
    }
    z
}

/// The fixed-point separable 8x8 forward DCT, applied in place to a
/// row-major 8x8 block of (signed) sample values.
pub fn od_bin_fdct8x8(data: &mut Vec<i64>)
    requires
        old(data)@.len() == 64,
        forall|k: int| 0 <= k < 64 ==> -0x8000 <= #[trigger] old(data)@[k] <= 0x8000,
    ensures
        final(data)@.len() == 64,
        forall|k: int| 0 <= k < 64 ==> final(data)@[k] == fdct8x8_spec(ints(old(data)@))[k],
{
    let ghost d = ints(old(data)@);
    let z = fdct8x8_pass(data);
    proof {
        lemma_pass_spec_len(d);
        assert(ints(z@) =~= fdct8x8_pass_spec(d));
    }
    let out = fdct8x8_pass(&z);
    proof {
        assert(ints(z@) =~= fdct8x8_pass_spec(d));
        assert forall|k: int| 0 <= k < 64 implies out@[k] == fdct8x8_spec(d)[k] by {
            assert(out@[k] == fdct8x8_pass_spec(ints(z@))[k]);
        }
    }
    *data = out;
}

} // verus!
