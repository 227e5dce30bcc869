//! Bisection on a dyadic grid.
//!
//! The search domain is cut into `2^depth` equal cells, so its points are the
//! integers `0..=2^depth`. Each step halves the current interval exactly, as
//! halving a real interval does, and asks the caller whether its target has
//! been reached at the midpoint. The search stops at the first interval whose
//! width falls under the tolerance (or that can no longer be halved).
use vstd::prelude::*;
use vstd::arithmetic::power2::*;
use vstd::arithmetic::div_mod::lemma_mod_multiples_basic;

verus! {

/// A closed search interval `[lo, hi]` of grid points.
#[derive(Clone, Copy, Debug, PartialEq, Eq)]
pub struct Interval {
    pub lo: u64,
    pub hi: u64,
}

impl Interval {
    /// The midpoint the search would test next, rounded down.
    pub open spec fn spec_mid(self) -> int {
        (self.lo + self.hi) / 2
    }

    /// The midpoint of the interval, rounded down.
    pub fn mid(&self) -> (r: u64)
        requires
            self.lo <= self.hi,
        ensures
            r == self.spec_mid(),
    {
        self.lo + (self.hi - self.lo) / 2
    }
}

/// Whether an interval of `width` grid steps is narrow enough to stop at.
pub open spec fn converged(width: int, tolerance: int) -> bool {
    width < tolerance || width <= 1
}

/// What the comparison `reaches` may have answered at the ends of `iv`: the
/// target is not reached at `lo` unless `lo` is the start of the grid, and
/// is reached at `hi` unless `hi` is its end.
pub open spec fn brackets<F: Fn(u64) -> bool>(reaches: F, iv: Interval, span: int) -> bool {
    &&& (iv.lo == 0 || reaches.ensures((iv.lo,), false))
    &&& (iv.hi == span || reaches.ensures((iv.hi,), true))
}

/// Whether `iv` is one of the intervals that repeated halving of
/// `[0, 2^depth]` passes through: its width is a power of two and its lower
/// end a multiple of that width.
pub open spec fn dyadic(iv: Interval, depth: nat) -> bool {
    exists|e: nat|
        e <= depth && iv.hi - iv.lo == pow2(e) && #[trigger] ((iv.lo as nat) % pow2(e)) == 0
}

/// Bisection over the grid `0..=2^depth`. `reaches(x)` says whether the
/// searched-for threshold lies at or below grid point `x`; for a threshold
/// that is monotone in `x` the returned interval holds it. The search stops
/// at the first interval of width under `tolerance` grid steps, or of one step.
pub fn bisect<F: Fn(u64) -> bool>(depth: u32, tolerance: u64, reaches: F) -> (r: Interval)
    requires
        depth <= 63,
        forall|x: u64| x <= pow2(depth as nat) ==> #[trigger] reaches.requires((x,)),
    ensures
        r.lo <= r.hi <= pow2(depth as nat),
        dyadic(r, depth as nat),
        converged(r.hi - r.lo, tolerance as int),
        r.hi - r.lo == pow2(depth as nat) || !converged(2 * (r.hi - r.lo), tolerance as int),
        brackets(reaches, r, pow2(depth as nat) as int),
{
    proof {
        lemma2_to64();
        lemma2_to64_rest();
    }
    let mut span: u64 = 1;
    let mut k: u32 = 0;
    while k < depth
        invariant
            k <= depth <= 63,
            span == pow2(k as nat),
            pow2(63) == 0x8000_0000_0000_0000,
        decreases depth - k,
    {
        proof {
            lemma_pow2_unfold((k + 1) as nat);
            if k + 1 < 63 {
                lemma_pow2_strictly_increases((k + 1) as nat, 63);
            }
        }
        span = span * 2;
        k = k + 1;
    }
    let ghost full = span as int;
    let mut iv = Interval { lo: 0, hi: span };
    let ghost mut e: nat = depth as nat;
    let ghost mut q: int = 0;
    proof {
        lemma_pow2_pos(depth as nat);
    }
    while !converged_exec(iv.hi - iv.lo, tolerance)
        invariant
            iv.lo <= iv.hi <= full,
            full == pow2(depth as nat),
            forall|x: u64| x <= full ==> #[trigger] reaches.requires((x,)),
            e <= depth,
            iv.hi - iv.lo == pow2(e),
            q >= 0,
            iv.lo == q * pow2(e),
            iv.hi - iv.lo == full || !converged(2 * (iv.hi - iv.lo), tolerance as int),
            brackets(reaches, iv, full),
        decreases iv.hi - iv.lo,
    {
        proof {
            if e == 0 {
                assert(pow2(0) == 1) by {
                    lemma2_to64();
                }
            }
            lemma_pow2_unfold(e);
            lemma_pow2_pos((e - 1) as nat);
        }
        let ghost half = pow2((e - 1) as nat);
        let m = iv.mid();
        assert(m == iv.lo + half);
        if reaches(m) {
            iv = Interval { lo: iv.lo, hi: m };
            proof {
                assert(iv.lo == (2 * q) * half) by (nonlinear_arith)
                    requires
                        iv.lo == q * (2 * half),
                ;
                q = 2 * q;
            }
        } else {
            let ghost old_lo = iv.lo;
            iv = Interval { lo: m, hi: iv.hi };
            proof {
                assert(iv.lo == (2 * q + 1) * half) by (nonlinear_arith)
                    requires
                        old_lo == q * (2 * half),
                        iv.lo == old_lo + half,
                ;
                q = 2 * q + 1;
            }
        }
        proof {
            e = (e - 1) as nat;
        }
    }
    proof {
        lemma_mod_multiples_basic(q, pow2(e) as int);
        assert((iv.lo as nat) % pow2(e) == 0);
    }
    iv
}

/// The executable form of `converged`.
fn converged_exec(width: u64, tolerance: u64) -> (r: bool)
    ensures
        r == converged(width as int, tolerance as int),
{
    width < tolerance || width <= 1
}

/// Whether `reaches` is monotone on the grid `0..=span`: once it holds, it
/// holds at every later point.
pub open spec fn monotone_on(reaches: spec_fn(u64) -> bool, span: u64) -> bool {
    forall|x: u64, y: u64| x <= y <= span && #[trigger] reaches(x) ==> #[trigger] reaches(y)
}

/// An interval that brackets a monotone threshold holds it: the test fails at
/// every grid point up to `lo` (unless `lo` is the start of the grid) and holds
/// at every point from `hi` on (unless `hi` is its end). So the midpoint of a
/// converged interval lies within the tolerance of the threshold.
pub proof fn lemma_bracket_holds_threshold(reaches: spec_fn(u64) -> bool, span: u64, iv: Interval)
    requires
        monotone_on(reaches, span),
        iv.lo <= iv.hi <= span,
        iv.lo == 0 || !reaches(iv.lo),
        iv.hi == span || reaches(iv.hi),
    ensures
        forall|x: u64| 0 < iv.lo && x <= iv.lo ==> !#[trigger] reaches(x),
        forall|x: u64| iv.hi < span && iv.hi <= x <= span ==> #[trigger] reaches(x),
{
    assert forall|x: u64| 0 < iv.lo && x <= iv.lo implies !#[trigger] reaches(x) by {
        if reaches(x) {
            assert(reaches(iv.lo));
        }
    }
}

} // verus!
