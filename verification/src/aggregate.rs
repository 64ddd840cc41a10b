//! Joystick vote aggregation.
//!
//! Every active vote for one joystick is a polar target; the aggregate is
//! computed by summing the votes as 2-D vectors (in fixed-point milli
//! units), recovering the direction of the summed vector with a
//! full-circle search (correct in all four quadrants), and taking the
//! summed vector's magnitude for the strength, rounded to the nearest
//! percent and clamped to full deflection.  An empty vote set aggregates
//! to the neutral position.

use vstd::prelude::*;
use crate::trig::{cos_milli, sin_milli, spec_cos_milli, spec_sin_milli, lemma_cos_milli_range, lemma_sin_milli_range, lemma_cardinal_values};

verus! {

/// Cap on how many votes one aggregation accepts; keeps the fixed-point
/// vector sums comfortably inside `i64`.
pub const MAX_VOTES: usize = 100_000_000;

/// A polar joystick position: a whole-degree direction and a strength
/// percentage (100 = full deflection).  Used both for a single vote and
/// for an aggregated result.
#[derive(Clone, Copy, PartialEq, Eq, Structural, Debug)]
pub struct Polar {
    pub direction_deg: u16,
    pub strength_pct: u8,
}

impl Polar {
    pub open spec fn valid(self) -> bool {
        self.direction_deg < 360 && self.strength_pct <= 100
    }
}

pub open spec fn abs_val(x: int) -> int {
    if x < 0 {
        -x
    } else {
        x
    }
}

/// The x component of one vote's vector, in milli units times percent.
pub open spec fn vote_x(v: Polar) -> int {
    spec_cos_milli(v.direction_deg as int) * v.strength_pct
}

/// The y component of one vote's vector.
pub open spec fn vote_y(v: Polar) -> int {
    spec_sin_milli(v.direction_deg as int) * v.strength_pct
}

/// Componentwise sum of all votes' x components.
pub open spec fn sum_x(vs: Seq<Polar>) -> int
    decreases vs.len(),
{
    if vs.len() == 0 {
        0
    } else {
        sum_x(vs.drop_last()) + vote_x(vs.last())
    }
}

/// Componentwise sum of all votes' y components.
pub open spec fn sum_y(vs: Seq<Polar>) -> int
    decreases vs.len(),
{
    if vs.len() == 0 {
        0
    } else {
        sum_y(vs.drop_last()) + vote_y(vs.last())
    }
}

/// Cross product of the summed vector `(x, y)` with the unit vector of
/// direction `d`; zero exactly when `d` points along `(x, y)`.
pub open spec fn dir_cross(x: int, y: int, d: int) -> int {
    y * spec_cos_milli(d) - x * spec_sin_milli(d)
}

/// Dot product of the summed vector `(x, y)` with the unit vector of
/// direction `d`; non-negative when `d` points into the same half plane.
pub open spec fn dir_dot(x: int, y: int, d: int) -> int {
    x * spec_cos_milli(d) + y * spec_sin_milli(d)
}

/// `d` is the direction the search returns for the summed vector `(x, y)`:
/// among all whole degrees whose unit vector lies in the same half plane,
/// it minimises the cross product's magnitude, ties going to the smallest
/// degree.
pub open spec fn is_best_direction(x: int, y: int, d: int) -> bool {
    &&& 0 <= d < 360
    &&& dir_dot(x, y, d) >= 0
    &&& forall|e: int|
        0 <= e < 360 && #[trigger] dir_dot(x, y, e) >= 0 ==> {
            ||| abs_val(dir_cross(x, y, d)) < abs_val(dir_cross(x, y, e))
            ||| (abs_val(dir_cross(x, y, d)) == abs_val(dir_cross(x, y, e)) && d <= e)
        }
}

/// The integer square root: the largest `r` with `r * r <= n`.
pub open spec fn spec_isqrt(n: nat) -> nat
    decreases n,
{
    if n == 0 {
        0
    } else {
        let r = spec_isqrt((n - 1) as nat);
        if (r + 1) * (r + 1) <= n {
            r + 1
        } else {
            r
        }
    }
}

pub proof fn lemma_isqrt_bounds(n: nat)
    ensures
        spec_isqrt(n) * spec_isqrt(n) <= n,
        n < (spec_isqrt(n) + 1) * (spec_isqrt(n) + 1),
    decreases n,
{
    if n == 0 {
        assert(spec_isqrt(n) == 0);
        assert(spec_isqrt(n) * spec_isqrt(n) == 0 && (spec_isqrt(n) + 1) * (spec_isqrt(n) + 1)
            == 1) by (nonlinear_arith)
            requires
                spec_isqrt(n) == 0,
        ;
    } else {
        lemma_isqrt_bounds((n - 1) as nat);
        let r = spec_isqrt((n - 1) as nat);
        assert(spec_isqrt(n) == (if (r + 1) * (r + 1) <= n {
            r + 1
        } else {
            r
        }));
        if (r + 1) * (r + 1) <= n {
            assert(n - 1 < (r + 1) * (r + 1));
            assert(n == (r + 1) * (r + 1));
            assert(spec_isqrt(n) == r + 1);
            assert(spec_isqrt(n) * spec_isqrt(n) == (r + 1) * (r + 1) && (spec_isqrt(n) + 1) * (
            spec_isqrt(n) + 1) == (r + 2) * (r + 2)) by (nonlinear_arith)
                requires
                    spec_isqrt(n) == r + 1,
            ;
            assert((r + 2) * (r + 2) > (r + 1) * (r + 1)) by (nonlinear_arith)
                requires
                    r >= 0,
            ;
        } else {
            assert(spec_isqrt(n) == r);
            assert(spec_isqrt(n) * spec_isqrt(n) == r * r && (spec_isqrt(n) + 1) * (spec_isqrt(n)
                + 1) == (r + 1) * (r + 1)) by (nonlinear_arith)
                requires
                    spec_isqrt(n) == r,
            ;
        }
    }
}

/// `spec_isqrt` is the only value squeezed between the two squares.
pub proof fn lemma_isqrt_unique(n: nat, r: nat)
    requires
        r * r <= n,
        n < (r + 1) * (r + 1),
    ensures
        r == spec_isqrt(n),
{
    lemma_isqrt_bounds(n);
    let q = spec_isqrt(n);
    if r < q {
        assert((r + 1) * (r + 1) <= q * q) by (nonlinear_arith)
            requires
                0 <= r,
                r + 1 <= q,
        ;
    }
    if q < r {
        assert((q + 1) * (q + 1) <= r * r) by (nonlinear_arith)
            requires
                0 <= q,
                q + 1 <= r,
        ;
    }
}

/// Aggregate strength: the magnitude of the summed vote vectors, rounded
/// to the nearest whole percent and clamped to full deflection.
pub open spec fn spec_strength(x: int, y: int) -> int {
    let m = ((spec_isqrt((x * x + y * y) as nat) + 500) / 1000) as int;
    if m > 100 {
        100
    } else {
        m
    }
}

/// Recover a whole-degree direction from a summed vote vector by scanning
/// the full circle: exact in every quadrant, also when `x` is zero or
/// negative.
#[verifier::rlimit(100)]
pub fn best_direction(x: i64, y: i64) -> (d: u16)
    requires
        -0x2000_0000_0000 <= x <= 0x2000_0000_0000,
        -0x2000_0000_0000 <= y <= 0x2000_0000_0000,
    ensures
        is_best_direction(x as int, y as int, d as int),
{
    let mut found = false;
    let mut best_d: u16 = 0;
    let mut best_a: i64 = 0;
    let mut e: u16 = 0;
    while e < 360
        invariant
            -0x2000_0000_0000 <= x <= 0x2000_0000_0000,
            -0x2000_0000_0000 <= y <= 0x2000_0000_0000,
            e <= 360,
            !found ==> forall|f: int| 0 <= f < e ==> !(#[trigger] dir_dot(x as int, y as int, f) >= 0),
            found ==> {
                &&& best_d < e
                &&& dir_dot(x as int, y as int, best_d as int) >= 0
                &&& best_a == abs_val(dir_cross(x as int, y as int, best_d as int))
                &&& forall|f: int|
                    0 <= f < e && #[trigger] dir_dot(x as int, y as int, f) >= 0 ==> {
                        ||| best_a < abs_val(dir_cross(x as int, y as int, f))
                        ||| (best_a == abs_val(dir_cross(x as int, y as int, f)) && best_d <= f)
                    }
            },
        decreases 360 - e,
    {
        let c = cos_milli(e) as i64;
        let s = sin_milli(e) as i64;
        proof {
            lemma_cos_milli_range(e as int);
            lemma_sin_milli_range(e as int);
            assert(-0x2000_0000_0000_000 <= x * c <= 0x2000_0000_0000_000) by (nonlinear_arith)
                requires
                    -0x2000_0000_0000 <= x <= 0x2000_0000_0000,
                    -1000 <= c <= 1000,
            ;
            assert(-0x2000_0000_0000_000 <= y * s <= 0x2000_0000_0000_000) by (nonlinear_arith)
                requires
                    -0x2000_0000_0000 <= y <= 0x2000_0000_0000,
                    -1000 <= s <= 1000,
            ;
            assert(-0x2000_0000_0000_000 <= y * c <= 0x2000_0000_0000_000) by (nonlinear_arith)
                requires
                    -0x2000_0000_0000 <= y <= 0x2000_0000_0000,
                    -1000 <= c <= 1000,
            ;
            assert(-0x2000_0000_0000_000 <= x * s <= 0x2000_0000_0000_000) by (nonlinear_arith)
                requires
                    -0x2000_0000_0000 <= x <= 0x2000_0000_0000,
                    -1000 <= s <= 1000,
            ;
        }
        let dot: i64 = x * c + y * s;
        let cross: i64 = y * c - x * s;
        let across: i64 = if cross < 0 {
            -cross
        } else {
            cross
        };
        if dot >= 0 {
            if !found || across < best_a {
                found = true;
                best_d = e;
                best_a = across;
            }
        }
        e = e + 1;
    }
    proof {
        if !found {
            lemma_cardinal_values();
            assert(dir_dot(x as int, y as int, 0) == x * 1000);
            assert(dir_dot(x as int, y as int, 180) == x * (-1000));
        }
    }
    best_d
}

/// Merge the active votes for one joystick into a single polar target.
///
/// The votes are summed as vectors; the result's direction is the scan
/// direction of the summed vector, and its strength is the summed
/// vector's magnitude, rounded to the nearest whole percent and clamped
/// to full deflection.  No votes means neutral.  The result never
/// depends on the order of the votes beyond the fixed whole-degree
/// tie-break of the direction scan.
#[verifier::rlimit(100)]
pub fn aggregate(votes: &Vec<Polar>) -> (r: Polar)
    requires
        forall|i: int| 0 <= i < votes@.len() ==> (#[trigger] votes@[i]).valid(),
        votes@.len() <= MAX_VOTES,
    ensures
        r.valid(),
        votes@.len() == 0 ==> r == (Polar { direction_deg: 0u16, strength_pct: 0u8 }),
        votes@.len() > 0 ==> {
            &&& is_best_direction(sum_x(votes@), sum_y(votes@), r.direction_deg as int)
            &&& r.strength_pct == spec_strength(sum_x(votes@), sum_y(votes@))
        },
{
    if votes.len() == 0 {
        return Polar { direction_deg: 0, strength_pct: 0 };
    }
    let n = votes.len();
    let mut xs: i64 = 0;
    let mut ys: i64 = 0;
    let mut i: usize = 0;
    while i < n
        invariant
            n == votes@.len(),
            n <= MAX_VOTES,
            i <= n,
            forall|k: int| 0 <= k < votes@.len() ==> (#[trigger] votes@[k]).valid(),
            xs == sum_x(votes@.take(i as int)),
            ys == sum_y(votes@.take(i as int)),
            -100_000 * i <= xs <= 100_000 * i,
            -100_000 * i <= ys <= 100_000 * i,
        decreases n - i,
    {
        let v = votes[i];
        proof {
            lemma_cos_milli_range(v.direction_deg as int);
            lemma_sin_milli_range(v.direction_deg as int);
            assert(votes@.take(i + 1).drop_last() =~= votes@.take(i as int));
            assert(votes@.take(i + 1).last() == v);
            assert(-100_000 <= vote_x(v) <= 100_000) by (nonlinear_arith)
                requires
                    -1000 <= spec_cos_milli(v.direction_deg as int) <= 1000,
                    0 <= v.strength_pct <= 100,
                    vote_x(v) == spec_cos_milli(v.direction_deg as int) * v.strength_pct,
            ;
            assert(-100_000 <= vote_y(v) <= 100_000) by (nonlinear_arith)
                requires
                    -1000 <= spec_sin_milli(v.direction_deg as int) <= 1000,
                    0 <= v.strength_pct <= 100,
                    vote_y(v) == spec_sin_milli(v.direction_deg as int) * v.strength_pct,
            ;
        }
        let c = cos_milli(v.direction_deg) as i64;
        let s = sin_milli(v.direction_deg) as i64;
        xs = xs + c * (v.strength_pct as i64);
        ys = ys + s * (v.strength_pct as i64);
        i = i + 1;
    }
    proof {
        assert(votes@.take(n as int) =~= votes@);
    }
    let direction_deg = best_direction(xs, ys);
    let ax: u64 = if xs < 0 {
        (-xs) as u64
    } else {
        xs as u64
    };
    let ay: u64 = if ys < 0 {
        (-ys) as u64
    } else {
        ys as u64
    };
    proof {
        assert(ax * ax == xs * xs && ay * ay == ys * ys) by (nonlinear_arith)
            requires
                ax == abs_val(xs as int),
                ay == abs_val(ys as int),
                ax == (if xs < 0 {
                    -(xs as int)
                } else {
                    xs as int
                }),
                ay == (if ys < 0 {
                    -(ys as int)
                } else {
                    ys as int
                }),
        ;
    }
    proof {
        assert(ax <= 10_000_000_000_000 && ay <= 10_000_000_000_000);
        assert((ax as int) * (ax as int) <= 100_000_000_000_000_000_000_000_000) by (nonlinear_arith)
            requires
                ax <= 10_000_000_000_000u64,
        ;
        assert((ay as int) * (ay as int) <= 100_000_000_000_000_000_000_000_000) by (nonlinear_arith)
            requires
                ay <= 10_000_000_000_000u64,
        ;
    }
    let sq: u128 = (ax as u128) * (ax as u128) + (ay as u128) * (ay as u128);
    let m = isqrt_u128(sq);
    proof {
        lemma_isqrt_bounds(sq as nat);
        if m >= 20_000_000_000_000 {
            assert((m as int) * (m as int) >= 400_000_000_000_000_000_000_000_000)
                by (nonlinear_arith)
                requires
                    m >= 20_000_000_000_000u64,
            ;
            assert(false);
        }
    }
    let mr: u64 = (m + 500) / 1000;
    let strength_pct: u8 = if mr > 100 {
        100
    } else {
        mr as u8
    };
    Polar { direction_deg, strength_pct }
}

/// Integer square root by bisection.
fn isqrt_u128(n: u128) -> (r: u64)
    ensures
        r == spec_isqrt(n as nat),
{
    let mut lo: u64 = 0;
    let mut hi: u64 = 0xFFFF_FFFF_FFFF_FFFF;
    proof {
        assert((n as int) < ((hi as int) + 1) * ((hi as int) + 1));
    }
    while lo < hi
        invariant
            lo <= hi,
            (lo as int) * (lo as int) <= n as int,
            (n as int) < ((hi as int) + 1) * ((hi as int) + 1),
        decreases hi - lo,
    {
        let mid = lo + (hi - lo) / 2 + 1;
        proof {
            assert((mid as u128) * (mid as u128) < 0x1_0000_0000_0000_0000_0000_0000_0000_0000)
                by (nonlinear_arith)
                requires
                    mid <= 0xFFFF_FFFF_FFFF_FFFFu64,
            ;
        }
        let m2: u128 = (mid as u128) * (mid as u128);
        if m2 <= n {
            lo = mid;
        } else {
            hi = mid - 1;
        }
    }
    proof {
        lemma_isqrt_unique(n as nat, lo as nat);
    }
    lo
}

} // verus!

use vstd::prelude::*;

verus! {

/// A single vote's vector sums are exactly its own components.
proof fn lemma_single_vote_sums(v: Polar)
    ensures
        sum_x(seq![v]) == spec_cos_milli(v.direction_deg as int) * v.strength_pct,
        sum_y(seq![v]) == spec_sin_milli(v.direction_deg as int) * v.strength_pct,
{
    let vs = seq![v];
    assert(vs.drop_last() =~= Seq::<Polar>::empty());
    assert(vs.last() == v);
    assert(sum_x(Seq::<Polar>::empty()) == 0);
    assert(sum_y(Seq::<Polar>::empty()) == 0);
}

/// Strength round trip of a single vote, at every direction: the
/// magnitude of one vote's vector, rounded to the nearest percent, is
/// exactly the vote's strength, because the table vector's norm stays
/// within the rounding band.
pub proof fn lemma_single_vote_strength(v: Polar)
    requires
        v.valid(),
    ensures
        spec_strength(sum_x(seq![v]), sum_y(seq![v])) == v.strength_pct,
{
    let s = v.strength_pct as int;
    let vd = v.direction_deg as int;
    lemma_single_vote_sums(v);
    let c = spec_cos_milli(vd);
    let sn = spec_sin_milli(vd);
    let x = sum_x(seq![v]);
    let y = sum_y(seq![v]);
    crate::trig::lemma_unit_norm(vd);
    let q = c * c + sn * sn;
    assert(x * x + y * y == s * s * q) by (nonlinear_arith)
        requires
            x == c * s,
            y == sn * s,
            q == c * c + sn * sn,
    ;
    assert(s * s * q >= 0) by (nonlinear_arith)
        requires
            s >= 0,
            q >= 999200,
    ;
    let nsq = (x * x + y * y) as nat;
    lemma_isqrt_bounds(nsq);
    let m = spec_isqrt(nsq);
    if s == 0 {
        assert(nsq == 0) by (nonlinear_arith)
            requires
                nsq == s * s * q,
                s == 0,
        ;
        assert(m == 0);
        assert((0nat + 500nat) / 1000nat == 0nat);
    } else {
        assert(s * s <= 100 * s) by (nonlinear_arith)
            requires
                1 <= s <= 100,
        ;
        assert((1000 * s - 500) * (1000 * s - 500) <= s * s * 999200) by (nonlinear_arith)
            requires
                1 <= s <= 100,
                s * s <= 100 * s,
        ;
        assert(s * s * 999200 <= s * s * q && s * s * q <= s * s * 1001192) by (nonlinear_arith)
            requires
                999200 <= q <= 1001192,
                s >= 1,
        ;
        assert(s * s * 1001192 < (1000 * s + 500) * (1000 * s + 500)) by (nonlinear_arith)
            requires
                1 <= s <= 100,
                s * s <= 100 * s,
        ;
        if m < 1000 * s - 500 {
            assert((m + 1) * (m + 1) <= (1000 * s - 500) * (1000 * s - 500)) by (nonlinear_arith)
                requires
                    0 <= m + 1 <= 1000 * s - 500,
            ;
            assert(false);
        }
        if m > 1000 * s + 499 {
            assert((1000 * s + 500) * (1000 * s + 500) <= m * m) by (nonlinear_arith)
                requires
                    0 <= 1000 * s + 500 <= m,
            ;
            assert(false);
        }
        assert((m + 500) / 1000 == s) by (nonlinear_arith)
            requires
                1000 * s <= m + 500,
                m + 500 <= 1000 * s + 999,
        ;
    }
}

/// Round trip of a single vote: one active vote aggregates back to
/// exactly its own direction and strength.  Together with `aggregate`'s
/// contract this says `aggregate(vec![v])` returns `v` for any vote with
/// positive strength.  (A zero-strength vote carries no direction.)
pub proof fn lemma_single_vote_round_trip(v: Polar, d: int)
    requires
        v.valid(),
        v.strength_pct >= 1,
        is_best_direction(sum_x(seq![v]), sum_y(seq![v]), d),
    ensures
        d == v.direction_deg,
        spec_strength(sum_x(seq![v]), sum_y(seq![v])) == v.strength_pct,
{
    let s = v.strength_pct as int;
    let vd = v.direction_deg as int;
    lemma_single_vote_sums(v);
    lemma_single_vote_strength(v);
    let c = spec_cos_milli(vd);
    let sn = spec_sin_milli(vd);
    let x = sum_x(seq![v]);
    let y = sum_y(seq![v]);
    crate::trig::lemma_unit_norm(vd);
    // The vote's own direction has an exactly zero cross product and a
    // strictly positive dot product, so it is a candidate of the scan.
    let cr0 = dir_cross(x, y, vd);
    let dt0 = dir_dot(x, y, vd);
    assert(cr0 == y * c - x * sn);
    assert(dt0 == x * c + y * sn);
    assert(cr0 == 0 && dt0 == s * (c * c + sn * sn)) by (nonlinear_arith)
        requires
            x == c * s,
            y == sn * s,
            cr0 == y * c - x * sn,
            dt0 == x * c + y * sn,
    ;
    assert(dt0 > 0) by (nonlinear_arith)
        requires
            dt0 == s * (c * c + sn * sn),
            s >= 1,
            c * c + sn * sn >= 999200,
    ;
    assert(abs_val(dir_cross(x, y, d)) == 0 && d <= vd);
    let cd = spec_cos_milli(d);
    let sd = spec_sin_milli(d);
    let cr1 = dir_cross(x, y, d);
    let dt1 = dir_dot(x, y, d);
    assert(cr1 == y * cd - x * sd);
    assert(dt1 == x * cd + y * sd);
    assert(cr1 == 0);
    // The scan's direction is exactly parallel to the vote as well, and
    // points into the same half plane.
    assert(sn * cd - c * sd == 0) by (nonlinear_arith)
        requires
            cr1 == y * cd - x * sd,
            cr1 == 0,
            x == c * s,
            y == sn * s,
            s >= 1,
    ;
    if d != vd {
        crate::trig::lemma_direction_distinct(vd, d);
        assert(dt1 == s * (c * cd + sn * sd)) by (nonlinear_arith)
            requires
                dt1 == x * cd + y * sd,
                x == c * s,
                y == sn * s,
        ;
        assert(s * (c * cd + sn * sd) < 0) by (nonlinear_arith)
            requires
                s >= 1,
                c * cd + sn * sd < 0,
        ;
        assert(false);
    }
}

} // verus!

verus! {

/// Removing one vote takes its vector out of the sums.
#[verifier::rlimit(100)]
proof fn lemma_sum_remove(s: Seq<Polar>, i: int)
    requires
        0 <= i < s.len(),
    ensures
        sum_x(s) == sum_x(s.remove(i)) + vote_x(s[i]),
        sum_y(s) == sum_y(s.remove(i)) + vote_y(s[i]),
    decreases s.len(),
{
    if i == s.len() - 1 {
        assert(s.remove(i) =~= s.drop_last());
    } else {
        let t = s.drop_last();
        lemma_sum_remove(t, i);
        assert(s.remove(i).drop_last() =~= t.remove(i));
        assert(s.remove(i).last() == s.last());
    }
}

/// Vote aggregation is order-independent: two vote lists holding the
/// same votes (as a multiset) have equal vector sums, and therefore the
/// same aggregate direction criterion and the same aggregate strength.
pub proof fn lemma_sums_order_independent(s1: Seq<Polar>, s2: Seq<Polar>)
    requires
        s1.to_multiset() == s2.to_multiset(),
    ensures
        s1.len() == s2.len(),
        sum_x(s1) == sum_x(s2),
        sum_y(s1) == sum_y(s2),
    decreases s1.len(),
{
    broadcast use vstd::seq_lib::group_to_multiset_ensures;

    if s1.len() == 0 {
        assert(s2.to_multiset().len() == 0);
    } else {
        let v = s1.last();
        assert(s1[s1.len() - 1] == v);
        assert(s1.to_multiset().count(v) > 0);
        assert(s2.contains(v));
        let j = choose|j: int| 0 <= j < s2.len() && s2[j] == v;
        lemma_sum_remove(s2, j);
        assert(s1.drop_last() =~= s1.remove(s1.len() - 1));
        assert(s1.remove(s1.len() - 1).to_multiset() =~= s1.to_multiset().remove(v));
        assert(s2.remove(j).to_multiset() =~= s2.to_multiset().remove(v));
        lemma_sums_order_independent(s1.drop_last(), s2.remove(j));
    }
}

} // verus!
