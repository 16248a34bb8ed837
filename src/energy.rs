//! Frame energy: the root mean square of a frame's samples, in fixed point.
use vstd::prelude::*;

verus! {

/// `r` is the integer square root of `x`.
pub open spec fn is_sqrt(r: nat, x: nat) -> bool {
    r * r <= x && x < (r + 1) * (r + 1)
}

/// The integer square root, rounded down.
pub open spec fn sqrt(x: nat) -> nat
    decreases x,
{
    if x == 0 {
        0
    } else {
        let r = sqrt((x - 1) as nat);
        if (r + 1) * (r + 1) <= x {
            r + 1
        } else {
            r
        }
    }
}

pub proof fn lemma_sqrt_is_sqrt(x: nat)
    ensures
        is_sqrt(sqrt(x), x),
    decreases x,
{
    if x > 0 {
        lemma_sqrt_is_sqrt((x - 1) as nat);
        let r = sqrt((x - 1) as nat);
        assert((r + 1) * (r + 1) <= x || x < (r + 1) * (r + 1));
        if (r + 1) * (r + 1) <= x {
            let r1 = r + 1;
            assert(x < (r1 + 1) * (r1 + 1)) by (nonlinear_arith)
                requires
                    x - 1 < r1 * r1,
            ;
            assert(sqrt(x) == r1);
            assert(is_sqrt(r1, x));
        } else {
            assert(sqrt(x) == r);
            assert(r * r <= x);
            assert(is_sqrt(r, x));
        }
    } else {
        assert(0nat * 0nat <= 0 && 0 < (0nat + 1) * (0nat + 1)) by (nonlinear_arith);
    }
}

pub proof fn lemma_sqrt_unique(r: nat, x: nat)
    requires
        is_sqrt(r, x),
    ensures
        r == sqrt(x),
{
    lemma_sqrt_is_sqrt(x);
    let s = sqrt(x);
    if r < s {
        assert((r + 1) * (r + 1) <= s * s) by (nonlinear_arith)
            requires
                r + 1 <= s,
        ;
    } else if s < r {
        assert((s + 1) * (s + 1) <= r * r) by (nonlinear_arith)
            requires
                s + 1 <= r,
        ;
    }
}

/// Integer square root by bisection.
pub fn isqrt(x: u64) -> (r: u64)
    ensures
        r == sqrt(x as nat),
{
    let mut lo: u64 = 0;
    let mut hi: u64 = 0x1_0000_0000;
    while hi - lo > 1
        invariant
            lo < hi <= 0x1_0000_0000,
            lo * lo <= x,
            x < hi * hi,
        decreases hi - lo,
    {
        let mid: u64 = lo + (hi - lo) / 2;
        assert((mid as u128) * (mid as u128) <= 0x1_0000_0000u128 * 0x1_0000_0000u128)
            by (nonlinear_arith)
            requires
                mid <= 0x1_0000_0000u64,
        ;
        let sq: u128 = (mid as u128) * (mid as u128);
        if sq <= x as u128 {
            lo = mid;
        } else {
            hi = mid;
        }
    }
    proof {
        assert(hi == lo + 1);
        lemma_sqrt_unique(lo as nat, x as nat);
    }
    lo
}

/// Sum of the squares of the samples.
pub open spec fn sum_squares(s: Seq<i16>) -> nat
    decreases s.len(),
{
    if s.len() == 0 {
        0
    } else {
        sum_squares(s.drop_last()) + (s.last() * s.last()) as nat
    }
}

/// The energy of a frame: its root mean square amplitude, in units of
/// 1/256 of a sample step, rounded down. An empty frame has no energy.
pub open spec fn energy(s: Seq<i16>) -> nat {
    if s.len() == 0 {
        0
    } else {
        sqrt(sum_squares(s) * 65536 / s.len())
    }
}

proof fn lemma_square_bound(v: i16)
    ensures
        0 <= v * v <= 0x4000_0000,
{
    assert(0 <= v * v <= 0x4000_0000) by (nonlinear_arith)
        requires
            -32768 <= v <= 32767,
    ;
}

/// The largest energy that a frame can have.
pub proof fn lemma_energy_bound(s: Seq<i16>)
    ensures
        energy(s) <= 0x80_0000,
{
    if s.len() > 0 {
        lemma_sum_squares_bound(s);
        let q = sum_squares(s) * 65536 / s.len();
        assert(sum_squares(s) * 65536 <= s.len() * 0x4000_0000 * 65536) by (nonlinear_arith)
            requires
                sum_squares(s) <= s.len() * 0x4000_0000,
        ;
        assert(q <= 0x4000_0000 * 65536) by (nonlinear_arith)
            requires
                sum_squares(s) * 65536 <= s.len() * 0x4000_0000 * 65536,
                q == sum_squares(s) * 65536 / s.len(),
                s.len() > 0,
        ;
        lemma_sqrt_is_sqrt(q);
        let r = sqrt(q);
        if r > 0x80_0000 {
            assert(r * r > 0x80_0000 * 0x80_0000) by (nonlinear_arith)
                requires
                    r > 0x80_0000,
            ;
        }
    }
}

proof fn lemma_sum_squares_bound(s: Seq<i16>)
    ensures
        sum_squares(s) <= s.len() * 0x4000_0000,
    decreases s.len(),
{
    if s.len() > 0 {
        lemma_sum_squares_bound(s.drop_last());
        lemma_square_bound(s.last());
    }
}

/// Energy of a frame, as `energy` states it.
pub fn frame_energy(frame: &[i16]) -> (e: u64)
    ensures
        e == energy(frame@),
        e <= 0x80_0000,
{
    let n = frame.len();
    if n == 0 {
        return 0;
    }
    let mut acc: u128 = 0;
    let mut i: usize = 0;
    while i < n
        invariant
            n == frame@.len(),
            i <= n,
            acc == sum_squares(frame@.take(i as int)),
            acc <= i * 0x4000_0000,
        decreases n - i,
    {
        let v = frame[i];
        proof {
            lemma_square_bound(v);
            assert(frame@.take(i + 1).drop_last() =~= frame@.take(i as int));
        }
        let sq: i64 = (v as i64) * (v as i64);
        acc = acc + sq as u128;
        i = i + 1;
    }
    proof {
        assert(frame@.take(n as int) =~= frame@);
        assert(acc * 65536 <= n * 0x4000_0000 * 65536) by (nonlinear_arith)
            requires
                acc <= n * 0x4000_0000,
        ;
        lemma_energy_bound(frame@);
    }
    let scaled: u128 = acc * 65536;
    let q: u128 = scaled / (n as u128);
    proof {
        assert(q <= 0x4000_0000 * 65536) by (nonlinear_arith)
            requires
                scaled <= n * 0x4000_0000 * 65536,
                q as int == (scaled as int) / (n as int),
                n > 0,
        ;
    }
    isqrt(q as u64)
}

} // verus!
