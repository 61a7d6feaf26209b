//! Load weights and the scaling of run times by them.
use vstd::arithmetic::div_mod::*;
use vstd::arithmetic::mul::*;
use vstd::arithmetic::power2::*;
use vstd::bits::*;
use vstd::prelude::*;
use vstd::std_specs::bits::axiom_u32_leading_zeros;

verus! {

/// The share of the processor that is due to a task, with the inverse of it
/// kept beside it once it has been worked out.
#[derive(Debug, Clone, Copy, PartialEq, Eq, Structural)]
pub struct LoadWeight {
    /// The weight.
    pub weight: u64,
    /// The inverse of the weight, or 0 where it has not been worked out.
    pub inv_weight: u32,
}

/// The number of low bits that `v` has to lose until it fits into 32 bits.
pub open spec fn excess_bits(v: nat) -> nat
    decreases v,
{
    if v < 0x1_0000_0000 {
        0
    } else {
        1 + excess_bits(v / 2)
    }
}

/// A value without its excess bits.
pub open spec fn trimmed(v: nat) -> nat {
    v / pow2(excess_bits(v))
}

impl LoadWeight {
    /// The number of fraction bits of a weight.
    pub const SCHED_FIXEDPOINT_SHIFT: u32 = 10;

    /// The number of fraction bits of an inverse.
    pub const WMULT_SHIFT: u32 = 32;

    /// The largest inverse.
    pub const WMULT_CONST: u32 = 0xffff_ffff;

    pub const NICE_0_LOAD_SHIFT: u32 = 20;

    /// The weight of nice value 0.
    pub const NICE_0_LOAD: u64 = 0x10_0000;

    pub open spec fn spec_scale_load_down(weight: u64) -> u64 {
        if weight == 0 {
            0
        } else if weight / 1024 < 2 {
            2
        } else {
            weight / 1024
        }
    }

    /// The inverse of a weight.
    pub open spec fn inverse_of(weight: u64) -> u32 {
        let w = LoadWeight::spec_scale_load_down(weight);
        if w >= LoadWeight::WMULT_CONST {
            1
        } else if w == 0 {
            LoadWeight::WMULT_CONST
        } else {
            (LoadWeight::WMULT_CONST as u64 / w) as u32
        }
    }

    /// The inverse of the weight: the one that is kept, or else the one that
    /// would be worked out.
    pub open spec fn effective_inverse(self) -> u32 {
        if self.inv_weight != 0 {
            self.inv_weight
        } else {
            LoadWeight::inverse_of(self.weight)
        }
    }

    /// Adds to the weight and forgets the inverse.
    pub fn update_load_add(&mut self, inc: u64)
        requires
            old(self).weight + inc <= u64::MAX,
        ensures
            final(self).weight == old(self).weight + inc,
            final(self).inv_weight == 0,
    {
        self.weight = self.weight + inc;
        self.inv_weight = 0;
    }

    /// Takes from the weight and forgets the inverse.
    pub fn update_load_sub(&mut self, dec: u64)
        requires
            old(self).weight >= dec,
        ensures
            final(self).weight == old(self).weight - dec,
            final(self).inv_weight == 0,
    {
        self.weight = self.weight - dec;
        self.inv_weight = 0;
    }

    /// Replaces the weight and forgets the inverse.
    pub fn update_load_set(&mut self, weight: u64)
        ensures
            final(self).weight == weight,
            final(self).inv_weight == 0,
    {
        self.weight = weight;
        self.inv_weight = 0;
    }

    /// Works out the inverse of the weight where it is not kept yet.
    pub fn update_inv_weight(&mut self)
        ensures
            final(self).weight == old(self).weight,
            final(self).inv_weight == old(self).effective_inverse(),
            final(self).inv_weight != 0,
    {
        if self.inv_weight != 0 {
            return ;
        }
        let w = LoadWeight::scale_load_down(self.weight);
        if w >= LoadWeight::WMULT_CONST as u64 {
            self.inv_weight = 1;
        } else if w == 0 {
            self.inv_weight = LoadWeight::WMULT_CONST;
        } else {
            self.inv_weight = LoadWeight::WMULT_CONST / w as u32;
            proof {
                let m = LoadWeight::WMULT_CONST as int;
                lemma_div_non_zero(m, w as int);
            }
        }
    }

    /// The scaled-down weight with its excess bits cut off.
    pub open spec fn factor(weight: u64) -> nat {
        trimmed(LoadWeight::spec_scale_load_down(weight) as nat)
    }

    /// That weight multiplied by an inverse.
    pub open spec fn product(weight: u64, inv: u32) -> nat {
        LoadWeight::factor(weight) * inv as nat
    }

    /// The number of bits that the computation cuts off on the way.
    pub open spec fn dropped_bits(weight: u64, inv: u32) -> nat {
        excess_bits(LoadWeight::spec_scale_load_down(weight) as nat) + excess_bits(
            LoadWeight::product(weight, inv),
        )
    }

    /// `delta_exec` scaled by `weight` and by the inverse `inv`, with 32 bits
    /// kept of each intermediate value.
    pub open spec fn scaled_delta(delta_exec: u64, weight: u64, inv: u32) -> nat {
        (delta_exec as nat * trimmed(LoadWeight::product(weight, inv))) / pow2(
            (LoadWeight::WMULT_SHIFT - LoadWeight::dropped_bits(weight, inv)) as nat,
        )
    }

    /// Scales a run time: `delta_exec * weight / self.weight`, worked out as
    /// `(delta_exec * (weight * inverse)) >> WMULT_SHIFT`. Of the result the low
    /// 64 bits are returned.
    pub fn calculate_delta(&mut self, delta_exec: u64, weight: u64) -> (delta: u64)
        requires
            LoadWeight::dropped_bits(weight, old(self).effective_inverse())
                <= LoadWeight::WMULT_SHIFT,
        ensures
            final(self).weight == old(self).weight,
            final(self).inv_weight == old(self).effective_inverse(),
            delta == LoadWeight::scaled_delta(
                delta_exec,
                weight,
                old(self).effective_inverse(),
            ) % 0x1_0000_0000_0000_0000,
    {
        let scaled = LoadWeight::scale_load_down(weight);
        let mut fact: u64 = scaled;
        let mut fact_hi: u32 = (fact >> 32) as u32;
        let mut shift: u32 = LoadWeight::WMULT_SHIFT;
        self.update_inv_weight();
        let ghost inv = self.inv_weight;
        let fs1: u32 = 32 - leading_zeros(fact_hi);
        proof {
            lemma_excess_bits(fact, fact_hi, fs1);
        }
        if fact_hi != 0 {
            shift = shift - fs1;
            fact = fact >> fs1;
        }
        proof {
            lemma2_to64();
            assert(fact_hi == 0 ==> fs1 == 0);
            assert(fact == LoadWeight::factor(weight)) by {
                lemma_div_basics(scaled as int);
            }
            assert(fact * inv < 0x1_0000_0000_0000_0000) by (nonlinear_arith)
                requires
                    fact < 0x1_0000_0000,
                    inv < 0x1_0000_0000,
                    0 <= fact,
                    0 <= inv,
            ;
        }
        fact = fact * self.inv_weight as u64;
        let ghost prod = fact;
        fact_hi = (fact >> 32) as u32;
        let fs2: u32 = 32 - leading_zeros(fact_hi);
        proof {
            lemma_excess_bits(fact, fact_hi, fs2);
        }
        if fact_hi != 0 {
            shift = shift - fs2;
            fact = fact >> fs2;
        }
        proof {
            assert(fact_hi == 0 ==> fs2 == 0);
            assert(fact == trimmed(prod as nat)) by {
                lemma_div_basics(prod as int);
            }
            assert(delta_exec * fact <= u128::MAX) by (nonlinear_arith)
                requires
                    fact < 0x1_0000_0000,
                    0 <= fact,
                    0 <= delta_exec <= u64::MAX,
            ;
        }
        let wide: u128 = delta_exec as u128 * fact as u128;
        let shifted: u128 = wide >> shift;
        proof {
            lemma_u128_shr_is_div(wide, shift as u128);
            assert(wide >> shift == wide >> (shift as u128)) by (bit_vector)
                requires
                    shift <= 32,
            ;
            assert((shifted as u64) == shifted % 0x1_0000_0000_0000_0000) by (bit_vector);
        }
        shifted as u64
    }

    /// A weight with its fraction bits cut off, but no less than 2 unless it
    /// is 0.
    pub fn scale_load_down(weight: u64) -> (w: u64)
        ensures
            w == LoadWeight::spec_scale_load_down(weight),
    {
        let mut weight: u64 = weight;
        if weight != 0 {
            proof {
                assert(weight >> 10u32 == weight / 1024) by (bit_vector);
            }
            weight = weight >> LoadWeight::SCHED_FIXEDPOINT_SHIFT;
            if weight < 2 {
                weight = 2;
            }
        }
        weight
    }

    /// A weight with fraction bits put behind it; what does not fit into 64 bits
    /// is lost.
    pub fn scale_load(weight: u64) -> (w: u64)
        ensures
            w == (weight % 0x40_0000_0000_0000) * 1024,
    {
        proof {
            assert(weight << 10u32 == (weight % 0x40_0000_0000_0000) * 1024) by (bit_vector);
        }
        weight << LoadWeight::SCHED_FIXEDPOINT_SHIFT
    }
}

impl Default for LoadWeight {
    fn default() -> (w: LoadWeight)
        ensures
            w.weight == 0,
            w.inv_weight == 0,
    {
        LoadWeight { weight: 0, inv_weight: 0 }
    }
}

/// The number of zero bits in front of the highest one bit.
fn leading_zeros(hi: u32) -> (n: u32)
    ensures
        n == hi.leading_zeros(),
        n <= 32,
        hi == 0 <==> n == 32,
{
    proof {
        axiom_u32_leading_zeros(hi);
    }
    hi.leading_zeros()
}

/// The excess bits of a 64-bit value are the bits of its upper half.
proof fn lemma_excess_bits(v: u64, hi: u32, fs: u32)
    requires
        hi == (v >> 32) as u32,
        fs == 32 - hi.leading_zeros(),
        hi.leading_zeros() <= 32,
    ensures
        excess_bits(v as nat) == fs,
        trimmed(v as nat) == v >> fs,
        v >> fs < 0x1_0000_0000,
{
    axiom_u32_leading_zeros(hi);
    lemma2_to64();
    let lz = hi.leading_zeros();
    assert(v >> fs < 0x1_0000_0000) by (bit_vector)
        requires
            hi == (v >> 32) as u32,
            fs <= 32,
            hi >> fs == 0,
    ;
    lemma_u64_shr_is_div(v, fs as u64);
    assert(v >> fs == v >> (fs as u64)) by (bit_vector)
        requires
            fs <= 32,
    ;
    if fs > 0 {
        let below: u32 = (fs - 1) as u32;
        assert(31u32 - lz == below);
        assert((hi >> below) & 1u32 != 0u32);
        assert(v >> below >= 0x1_0000_0000) by (bit_vector)
            requires
                hi == (v >> 32) as u32,
                below < 32,
                (hi >> below) & 1u32 != 0u32,
        ;
        lemma_u64_shr_is_div(v, below as u64);
        assert(v >> below == v >> (below as u64)) by (bit_vector)
            requires
                below < 32,
        ;
    }
    lemma_excess_bits_unique(v as nat, fs as nat);
}

/// Only one number of bits is enough and not too many.
proof fn lemma_excess_bits_unique(v: nat, n: nat)
    requires
        v / pow2(n) < 0x1_0000_0000,
        n > 0 ==> v / pow2((n - 1) as nat) >= 0x1_0000_0000,
    ensures
        excess_bits(v) == n,
    decreases n,
{
    lemma2_to64();
    if n > 0 {
        let m = (n - 1) as nat;
        lemma_pow2_pos(m);
        lemma_div_is_ordered_by_denominator(v as int, 1, pow2(m) as int);
        assert(v >= 0x1_0000_0000);
        lemma_pow2_unfold(n);
        lemma_div_denominator(v as int, 2, pow2(m) as int);
        if m > 0 {
            let k = (m - 1) as nat;
            lemma_pow2_pos(k);
            lemma_pow2_unfold(m);
            lemma_div_denominator(v as int, 2, pow2(k) as int);
        }
        lemma_excess_bits_unique(v / 2, m);
    } else {
        lemma_div_basics(v as int);
    }
}

/// A heavier weight never has a larger inverse.
pub proof fn law_inverse_shrinks_with_weight(a: u64, b: u64)
    requires
        a <= b,
    ensures
        LoadWeight::inverse_of(b) <= LoadWeight::inverse_of(a),
        LoadWeight::inverse_of(a) > 0,
{
    let wa = LoadWeight::spec_scale_load_down(a);
    let wb = LoadWeight::spec_scale_load_down(b);
    let m = LoadWeight::WMULT_CONST as int;
    assert(wa <= wb);
    if 0 < wa < m {
        lemma_div_non_zero(m, wa as int);
        if wb < m {
            lemma_div_is_ordered_by_denominator(m, wa as int, wb as int);
        }
        assert(m / wa as int <= m) by {
            lemma_div_is_ordered_by_denominator(m, 1, wa as int);
        }
    }
    if 0 < wb < m {
        assert(m / wb as int <= m) by {
            lemma_div_is_ordered_by_denominator(m, 1, wb as int);
        }
    }
}

/// Cutting bits off on the way never makes the scaled run time larger than
/// `delta_exec * weight * inverse / 2^32`, and it is exactly that where no bit
/// is cut off.
pub proof fn law_scaled_delta_is_never_too_large(delta_exec: u64, weight: u64, inv: u32)
    requires
        LoadWeight::dropped_bits(weight, inv) <= LoadWeight::WMULT_SHIFT,
    ensures
        LoadWeight::scaled_delta(delta_exec, weight, inv) <= (delta_exec
            * LoadWeight::spec_scale_load_down(weight) * inv) / 0x1_0000_0000,
        LoadWeight::dropped_bits(weight, inv) == 0 ==> LoadWeight::scaled_delta(
            delta_exec,
            weight,
            inv,
        ) == (delta_exec * LoadWeight::spec_scale_load_down(weight) * inv) / 0x1_0000_0000,
{
    lemma2_to64();
    let d = delta_exec as int;
    let w = LoadWeight::spec_scale_load_down(weight) as int;
    let i = inv as int;
    let e1 = excess_bits(w as nat);
    let f1 = LoadWeight::factor(weight) as int;
    let p = LoadWeight::product(weight, inv) as int;
    let e2 = excess_bits(p as nat);
    let f2 = trimmed(p as nat) as int;
    let s = (32 - e1 - e2) as nat;
    let p1 = pow2(e1) as int;
    let p2 = pow2(e2) as int;
    let ps = pow2(s) as int;
    lemma_pow2_pos(e1);
    lemma_pow2_pos(e2);
    lemma_pow2_pos(s);
    lemma_pow2_adds(e1, e2);
    lemma_pow2_adds(e1 + e2, s);
    assert(p1 * p2 * ps == 0x1_0000_0000);
    lemma_fundamental_div_mod(w, p1);
    lemma_fundamental_div_mod(p, p2);
    assert(f1 * p1 <= w) by (nonlinear_arith)
        requires
            w == p1 * f1 + w % p1,
            w % p1 >= 0,
    ;
    assert(f2 * p2 <= p) by (nonlinear_arith)
        requires
            p == p2 * f2 + p % p2,
            p % p2 >= 0,
    ;
    let t = (d * f2) / ps;
    lemma_fundamental_div_mod(d * f2, ps);
    assert(t * ps <= d * f2) by (nonlinear_arith)
        requires
            d * f2 == ps * t + (d * f2) % ps,
            (d * f2) % ps >= 0,
    ;
    assert(f2 * p2 * p1 <= w * i) by (nonlinear_arith)
        requires
            f2 * p2 <= p,
            p == f1 * i,
            f1 * p1 <= w,
            p1 > 0,
            i >= 0,
    ;
    assert(t * 0x1_0000_0000 <= d * (w * i)) by (nonlinear_arith)
        requires
            t * ps <= d * f2,
            f2 * p2 * p1 <= w * i,
            p1 * p2 * ps == 0x1_0000_0000,
            p1 > 0,
            p2 > 0,
            d >= 0,
    ;
    assert(d * (w * i) == d * w * i) by (nonlinear_arith);
    let e = d * w * i;
    lemma_div_is_ordered(t * 0x1_0000_0000, e, 0x1_0000_0000);
    lemma_div_by_multiple(t, 0x1_0000_0000);
    if e1 + e2 == 0 {
        lemma_div_basics(w);
        lemma_div_basics(p);
        assert(d * (f1 * i) == d * w * i) by (nonlinear_arith)
            requires
                f1 == w,
        ;
    }
}

/// A weight loses its ten fraction bits, but is no less than 2 then unless it was 0. Its inverse
/// is as often in the largest inverse as it fits; without a weight it is the largest one, and for
/// a weight beyond that it is 1.
pub proof fn law_inverse_of_a_weight(weight: u64)
    ensures
        weight == 0 ==> LoadWeight::spec_scale_load_down(weight) == 0,
        0 < weight < 2048 ==> LoadWeight::spec_scale_load_down(weight) == 2,
        weight >= 2048 ==> LoadWeight::spec_scale_load_down(weight) == weight / 1024,
        weight == 0 ==> LoadWeight::inverse_of(weight) == 0xffff_ffff,
        ({
            let w = LoadWeight::spec_scale_load_down(weight) as int;
            let inv = LoadWeight::inverse_of(weight) as int;
            &&& w >= 0xffff_ffff ==> inv == 1
            &&& 0 < w < 0xffff_ffff ==> inv * w <= 0xffff_ffff < (inv + 1) * w
        }),
{
    let w = LoadWeight::spec_scale_load_down(weight) as int;
    if 0 < w < 0xffff_ffff {
        lemma_fundamental_div_mod(0xffff_ffff, w);
        lemma_mod_bound(0xffff_ffff, w);
        let q = 0xffff_ffffint / w;
        lemma_div_is_ordered_by_denominator(0xffff_ffff, 1, w);
        assert(w * q == q * w) by (nonlinear_arith);
        assert((q + 1) * w == q * w + w) by (nonlinear_arith);
    }
}

/// The inverse that is kept is used, and where none is kept the one of the weight.
pub proof fn law_inverse_that_is_used(load: LoadWeight)
    ensures
        load.inv_weight != 0 ==> load.effective_inverse() == load.inv_weight,
        load.inv_weight == 0 ==> load.effective_inverse() == LoadWeight::inverse_of(load.weight),
{
}

/// How a run time is scaled: by the scaled-down weight, less the `e1` low bits by which that is
/// too large for 32 bits, times the inverse, less the `e2` low bits by which that product is too
/// large, and divided by what is left of 32 bits.
pub proof fn law_run_time_is_scaled(delta_exec: u64, weight: u64, inv: u32, e1: nat, e2: nat)
    requires
        ({
            let w = LoadWeight::spec_scale_load_down(weight) as nat;
            let p = (w / pow2(e1)) * inv as nat;
            &&& w / pow2(e1) < 0x1_0000_0000
            &&& e1 > 0 ==> w / pow2((e1 - 1) as nat) >= 0x1_0000_0000
            &&& p / pow2(e2) < 0x1_0000_0000
            &&& e2 > 0 ==> p / pow2((e2 - 1) as nat) >= 0x1_0000_0000
            &&& e1 + e2 <= 32
        }),
    ensures
        ({
            let w = LoadWeight::spec_scale_load_down(weight) as nat;
            let p = (w / pow2(e1)) * inv as nat;
            LoadWeight::scaled_delta(delta_exec, weight, inv) == (delta_exec as nat * (p / pow2(
                e2,
            ))) / pow2((32 - e1 - e2) as nat)
        }),
        LoadWeight::dropped_bits(weight, inv) == e1 + e2,
{
    let w = LoadWeight::spec_scale_load_down(weight) as nat;
    lemma_excess_bits_unique(w, e1);
    let p = (w / pow2(e1)) * inv as nat;
    lemma_excess_bits_unique(p, e2);
}

} // verus!
