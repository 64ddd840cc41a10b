//! Fixed-point trigonometry at whole-degree resolution.
//!
//! Joystick directions are whole degrees, so a 91-entry quarter-circle
//! cosine table in thousandths ("milli" units) is exact enough for the
//! vote-aggregation arithmetic, and keeps every computation in integers.
//! `spec_cos_milli(d)` is the rounded value of `1000 * cos(d degrees)`;
//! sine is read from the same table a quarter turn away.

use vstd::prelude::*;

verus! {

/// Quarter-circle cosine table: `cos_q(i)` is `1000 * cos(i degrees)`,
/// rounded to the nearest integer, for `0 <= i <= 90`.
pub open spec fn cos_q(i: int) -> int {
    if i == 0 { 1000 }
    else if i == 1 { 1000 }
    else if i == 2 { 999 }
    else if i == 3 { 999 }
    else if i == 4 { 998 }
    else if i == 5 { 996 }
    else if i == 6 { 995 }
    else if i == 7 { 993 }
    else if i == 8 { 990 }
    else if i == 9 { 988 }
    else if i == 10 { 985 }
    else if i == 11 { 982 }
    else if i == 12 { 978 }
    else if i == 13 { 974 }
    else if i == 14 { 970 }
    else if i == 15 { 966 }
    else if i == 16 { 961 }
    else if i == 17 { 956 }
    else if i == 18 { 951 }
    else if i == 19 { 946 }
    else if i == 20 { 940 }
    else if i == 21 { 934 }
    else if i == 22 { 927 }
    else if i == 23 { 921 }
    else if i == 24 { 914 }
    else if i == 25 { 906 }
    else if i == 26 { 899 }
    else if i == 27 { 891 }
    else if i == 28 { 883 }
    else if i == 29 { 875 }
    else if i == 30 { 866 }
    else if i == 31 { 857 }
    else if i == 32 { 848 }
    else if i == 33 { 839 }
    else if i == 34 { 829 }
    else if i == 35 { 819 }
    else if i == 36 { 809 }
    else if i == 37 { 799 }
    else if i == 38 { 788 }
    else if i == 39 { 777 }
    else if i == 40 { 766 }
    else if i == 41 { 755 }
    else if i == 42 { 743 }
    else if i == 43 { 731 }
    else if i == 44 { 719 }
    else if i == 45 { 707 }
    else if i == 46 { 695 }
    else if i == 47 { 682 }
    else if i == 48 { 669 }
    else if i == 49 { 656 }
    else if i == 50 { 643 }
    else if i == 51 { 629 }
    else if i == 52 { 616 }
    else if i == 53 { 602 }
    else if i == 54 { 588 }
    else if i == 55 { 574 }
    else if i == 56 { 559 }
    else if i == 57 { 545 }
    else if i == 58 { 530 }
    else if i == 59 { 515 }
    else if i == 60 { 500 }
    else if i == 61 { 485 }
    else if i == 62 { 469 }
    else if i == 63 { 454 }
    else if i == 64 { 438 }
    else if i == 65 { 423 }
    else if i == 66 { 407 }
    else if i == 67 { 391 }
    else if i == 68 { 375 }
    else if i == 69 { 358 }
    else if i == 70 { 342 }
    else if i == 71 { 326 }
    else if i == 72 { 309 }
    else if i == 73 { 292 }
    else if i == 74 { 276 }
    else if i == 75 { 259 }
    else if i == 76 { 242 }
    else if i == 77 { 225 }
    else if i == 78 { 208 }
    else if i == 79 { 191 }
    else if i == 80 { 174 }
    else if i == 81 { 156 }
    else if i == 82 { 139 }
    else if i == 83 { 122 }
    else if i == 84 { 105 }
    else if i == 85 { 87 }
    else if i == 86 { 70 }
    else if i == 87 { 52 }
    else if i == 88 { 35 }
    else if i == 89 { 17 }
    else { 0 }
}

/// `1000 * cos(d degrees)` for `0 <= d < 360`, by quadrant symmetry.
pub open spec fn spec_cos_milli(d: int) -> int {
    if d <= 90 {
        cos_q(d)
    } else if d <= 180 {
        -cos_q(180 - d)
    } else if d <= 270 {
        -cos_q(d - 180)
    } else {
        cos_q(360 - d)
    }
}

/// `1000 * sin(d degrees)` for `0 <= d < 360`: the cosine a quarter turn
/// earlier.
pub open spec fn spec_sin_milli(d: int) -> int {
    spec_cos_milli((d + 270) % 360)
}

pub broadcast proof fn lemma_cos_q_range(i: int)
    requires
        0 <= i <= 90,
    ensures
        0 <= #[trigger] cos_q(i) <= 1000,
        cos_q(i) == 0 <==> i == 90,
        cos_q(i) == 1000 <==> i <= 1,
{
}

pub broadcast proof fn lemma_cos_milli_range(d: int)
    requires
        0 <= d < 360,
    ensures
        -1000 <= #[trigger] spec_cos_milli(d) <= 1000,
        spec_cos_milli(d) == 0 <==> (d == 90 || d == 270),
        spec_cos_milli(d) > 0 <==> (d < 90 || d > 270),
{
    if d <= 90 {
        lemma_cos_q_range(d);
    } else if d <= 180 {
        lemma_cos_q_range(180 - d);
    } else if d <= 270 {
        lemma_cos_q_range(d - 180);
    } else {
        lemma_cos_q_range(360 - d);
    }
}

pub broadcast proof fn lemma_sin_milli_range(d: int)
    requires
        0 <= d < 360,
    ensures
        -1000 <= #[trigger] spec_sin_milli(d) <= 1000,
        spec_sin_milli(d) == 0 <==> (d == 0 || d == 180),
        spec_sin_milli(d) > 0 <==> (0 < d < 180),
{
    lemma_cos_milli_range((d + 270) % 360);
}

/// The table row and its complement form an almost-unit vector: the
/// squared norm of `(cos_q(i), cos_q(90 - i))` stays within the rounding
/// band around one million at every degree of the quarter circle.
pub proof fn lemma_unit_norm_q()
    ensures
        forall|i: int|
            0 <= i <= 90 ==> 999200 <= #[trigger] (cos_q(i) * cos_q(i)) + cos_q(90 - i) * cos_q(
                90 - i,
            ) <= 1001192,
{
}

/// Every whole-degree direction's table vector has a squared norm within
/// the rounding band around one million.
#[verifier::rlimit(100)]
pub proof fn lemma_unit_norm(d: int)
    requires
        0 <= d < 360,
    ensures
        999200 <= spec_cos_milli(d) * spec_cos_milli(d) + spec_sin_milli(d) * spec_sin_milli(d)
            <= 1001192,
{
    lemma_unit_norm_q();
    let c = spec_cos_milli(d);
    let s = spec_sin_milli(d);
    if d < 90 {
        assert(c == cos_q(d));
        assert(s == cos_q(90 - d));
        assert(999200 <= cos_q(d) * cos_q(d) + cos_q(90 - d) * cos_q(90 - d) <= 1001192);
    } else if d < 180 {
        let b = d - 90;
        assert(c == -cos_q(90 - b));
        assert(s == cos_q(b));
        assert(999200 <= cos_q(b) * cos_q(b) + cos_q(90 - b) * cos_q(90 - b) <= 1001192);
        assert(c * c == cos_q(90 - b) * cos_q(90 - b)) by (nonlinear_arith)
            requires
                c == -cos_q(90 - b),
        ;
    } else if d < 270 {
        let b = d - 180;
        assert(c == -cos_q(b));
        assert(s == -cos_q(90 - b));
        assert(999200 <= cos_q(b) * cos_q(b) + cos_q(90 - b) * cos_q(90 - b) <= 1001192);
        assert(c * c == cos_q(b) * cos_q(b) && s * s == cos_q(90 - b) * cos_q(90 - b))
            by (nonlinear_arith)
            requires
                c == -cos_q(b),
                s == -cos_q(90 - b),
        ;
    } else {
        let b = d - 270;
        assert(c == cos_q(90 - b));
        assert(s == -cos_q(b));
        assert(999200 <= cos_q(b) * cos_q(b) + cos_q(90 - b) * cos_q(90 - b) <= 1001192);
        assert(s * s == cos_q(b) * cos_q(b)) by (nonlinear_arith)
            requires
                s == -cos_q(b),
        ;
    }
}

/// The four cardinal directions have exact table entries.
pub proof fn lemma_cardinal_values()
    ensures
        spec_cos_milli(0) == 1000 && spec_sin_milli(0) == 0,
        spec_cos_milli(90) == 0 && spec_sin_milli(90) == 1000,
        spec_cos_milli(180) == -1000 && spec_sin_milli(180) == 0,
        spec_cos_milli(270) == 0 && spec_sin_milli(270) == -1000,
{
}

/// Quarter-circle cosine table lookup.
fn cos_q_x(i: u16) -> (r: i32)
    requires
        i <= 90,
    ensures
        r == cos_q(i as int),
{
    if i == 0 { 1000 }
    else if i == 1 { 1000 }
    else if i == 2 { 999 }
    else if i == 3 { 999 }
    else if i == 4 { 998 }
    else if i == 5 { 996 }
    else if i == 6 { 995 }
    else if i == 7 { 993 }
    else if i == 8 { 990 }
    else if i == 9 { 988 }
    else if i == 10 { 985 }
    else if i == 11 { 982 }
    else if i == 12 { 978 }
    else if i == 13 { 974 }
    else if i == 14 { 970 }
    else if i == 15 { 966 }
    else if i == 16 { 961 }
    else if i == 17 { 956 }
    else if i == 18 { 951 }
    else if i == 19 { 946 }
    else if i == 20 { 940 }
    else if i == 21 { 934 }
    else if i == 22 { 927 }
    else if i == 23 { 921 }
    else if i == 24 { 914 }
    else if i == 25 { 906 }
    else if i == 26 { 899 }
    else if i == 27 { 891 }
    else if i == 28 { 883 }
    else if i == 29 { 875 }
    else if i == 30 { 866 }
    else if i == 31 { 857 }
    else if i == 32 { 848 }
    else if i == 33 { 839 }
    else if i == 34 { 829 }
    else if i == 35 { 819 }
    else if i == 36 { 809 }
    else if i == 37 { 799 }
    else if i == 38 { 788 }
    else if i == 39 { 777 }
    else if i == 40 { 766 }
    else if i == 41 { 755 }
    else if i == 42 { 743 }
    else if i == 43 { 731 }
    else if i == 44 { 719 }
    else if i == 45 { 707 }
    else if i == 46 { 695 }
    else if i == 47 { 682 }
    else if i == 48 { 669 }
    else if i == 49 { 656 }
    else if i == 50 { 643 }
    else if i == 51 { 629 }
    else if i == 52 { 616 }
    else if i == 53 { 602 }
    else if i == 54 { 588 }
    else if i == 55 { 574 }
    else if i == 56 { 559 }
    else if i == 57 { 545 }
    else if i == 58 { 530 }
    else if i == 59 { 515 }
    else if i == 60 { 500 }
    else if i == 61 { 485 }
    else if i == 62 { 469 }
    else if i == 63 { 454 }
    else if i == 64 { 438 }
    else if i == 65 { 423 }
    else if i == 66 { 407 }
    else if i == 67 { 391 }
    else if i == 68 { 375 }
    else if i == 69 { 358 }
    else if i == 70 { 342 }
    else if i == 71 { 326 }
    else if i == 72 { 309 }
    else if i == 73 { 292 }
    else if i == 74 { 276 }
    else if i == 75 { 259 }
    else if i == 76 { 242 }
    else if i == 77 { 225 }
    else if i == 78 { 208 }
    else if i == 79 { 191 }
    else if i == 80 { 174 }
    else if i == 81 { 156 }
    else if i == 82 { 139 }
    else if i == 83 { 122 }
    else if i == 84 { 105 }
    else if i == 85 { 87 }
    else if i == 86 { 70 }
    else if i == 87 { 52 }
    else if i == 88 { 35 }
    else if i == 89 { 17 }
    else { 0 }
}

/// `1000 * cos(d degrees)`, rounded, for a whole-degree direction.
pub fn cos_milli(d: u16) -> (r: i32)
    requires
        d < 360,
    ensures
        r == spec_cos_milli(d as int),
{
    if d <= 90 {
        cos_q_x(d)
    } else if d <= 180 {
        -cos_q_x(180 - d)
    } else if d <= 270 {
        -cos_q_x(d - 180)
    } else {
        cos_q_x(360 - d)
    }
}

/// `1000 * sin(d degrees)`, rounded, for a whole-degree direction.
pub fn sin_milli(d: u16) -> (r: i32)
    requires
        d < 360,
    ensures
        r == spec_sin_milli(d as int),
{
    let e: u16 = (d + 270) % 360;
    cos_milli(e)
}

} // verus!

verus! {

/// Quarter-circle sine: the cosine of the complementary angle.
pub open spec fn sin_q(i: int) -> int {
    cos_q(90 - i)
}

/// The table's tangent grows strictly from each degree to the next.
#[verifier::rlimit(100)]
proof fn lemma_tan_adjacent()
    ensures
        forall|i: int|
            0 <= i < 90 ==> #[trigger] (sin_q(i) * cos_q(i + 1)) < cos_q(i) * sin_q(i + 1),
{
}

/// The table's tangent grows strictly across the whole quarter circle.
proof fn lemma_tan_mono(i: int, j: int)
    requires
        0 <= i < j <= 90,
    ensures
        sin_q(i) * cos_q(j) < cos_q(i) * sin_q(j),
    decreases j - i,
{
    lemma_cos_q_range(i);
    lemma_cos_q_range(j);
    lemma_cos_q_range(90 - i);
    lemma_cos_q_range(90 - j);
    if j == i + 1 {
        lemma_tan_adjacent();
        assert(sin_q(i) * cos_q(i + 1) < cos_q(i) * sin_q(i + 1));
    } else {
        lemma_tan_mono(i, j - 1);
        lemma_tan_mono(j - 1, j);
        lemma_cos_q_range(j - 1);
        lemma_cos_q_range(90 - (j - 1));
        let a = sin_q(i);
        let b = cos_q(i);
        let cm = sin_q(j - 1);
        let dm = cos_q(j - 1);
        let e = sin_q(j);
        let f = cos_q(j);
        if f == 0 {
            assert(a * f == 0 && b * e > 0) by (nonlinear_arith)
                requires
                    f == 0,
                    b > 0,
                    e > 0,
            ;
        } else {
            assert(a * dm * f < b * cm * f) by (nonlinear_arith)
                requires
                    a * dm < b * cm,
                    f > 0,
            ;
            assert(b * cm * f < b * dm * e) by (nonlinear_arith)
                requires
                    cm * f < dm * e,
                    b > 0,
            ;
            assert(a * f < b * e) by (nonlinear_arith)
                requires
                    a * dm * f < b * dm * e,
                    dm > 0,
            ;
        }
    }
}

/// The table vector of any direction is the quarter-table vector of its
/// in-quadrant angle, rotated by the quadrant.
#[verifier::rlimit(100)]
proof fn lemma_quadrant_rep(d: int)
    requires
        0 <= d < 360,
    ensures
        0 <= d < 90 ==> spec_cos_milli(d) == cos_q(d) && spec_sin_milli(d) == sin_q(d),
        90 <= d < 180 ==> spec_cos_milli(d) == -sin_q(d - 90) && spec_sin_milli(d) == cos_q(d - 90),
        180 <= d < 270 ==> spec_cos_milli(d) == -cos_q(d - 180) && spec_sin_milli(d) == -sin_q(
            d - 180,
        ),
        270 <= d < 360 ==> spec_cos_milli(d) == sin_q(d - 270) && spec_sin_milli(d) == -cos_q(
            d - 270,
        ),
{
}

/// Distinct whole-degree directions are never positively parallel: when
/// two table vectors are proportional, they point into opposite half
/// planes.  This is what makes the direction scan's result unique.
#[verifier::rlimit(100)]
pub proof fn lemma_direction_distinct(d: int, e: int)
    requires
        0 <= d < 360,
        0 <= e < 360,
        d != e,
        spec_sin_milli(d) * spec_cos_milli(e) == spec_cos_milli(d) * spec_sin_milli(e),
    ensures
        spec_cos_milli(d) * spec_cos_milli(e) + spec_sin_milli(d) * spec_sin_milli(e) < 0,
{
    let cd = spec_cos_milli(d);
    let sd = spec_sin_milli(d);
    let ce = spec_cos_milli(e);
    let se = spec_sin_milli(e);
    lemma_quadrant_rep(d);
    lemma_quadrant_rep(e);
    let a = if d < 90 {
        d
    } else if d < 180 {
        d - 90
    } else if d < 270 {
        d - 180
    } else {
        d - 270
    };
    let b = if e < 90 {
        e
    } else if e < 180 {
        e - 90
    } else if e < 270 {
        e - 180
    } else {
        e - 270
    };
    lemma_cos_q_range(a);
    lemma_cos_q_range(90 - a);
    lemma_cos_q_range(b);
    lemma_cos_q_range(90 - b);
    let ca = cos_q(a);
    let sa = sin_q(a);
    let cb = cos_q(b);
    let sb = sin_q(b);
    if d < 90 {
        if e < 90 {
        assert(sa * cb - ca * sb == 0) by (nonlinear_arith)
            requires
                sd * ce == cd * se,
                cd == ca,
                sd == sa,
                ce == cb,
                se == sb,
        ;
        if a < b {
            lemma_tan_mono(a, b);
            assert(false);
        } else {
            lemma_tan_mono(b, a);
            assert(false);
        }
        }
        else if e < 180 {
        assert(sd * ce - cd * se == -(ca * cb + sa * sb)) by (nonlinear_arith)
            requires
                cd == ca,
                sd == sa,
                ce == (-sb),
                se == cb,
        ;
        assert(ca * cb + sa * sb > 0) by (nonlinear_arith)
            requires
                ca > 0,
                cb > 0,
                sa >= 0,
                sb >= 0,
        ;
        assert(false);
        }
        else if e < 270 {
        assert(sd * ce - cd * se == ca * sb - sa * cb) by (nonlinear_arith)
            requires
                cd == ca,
                sd == sa,
                ce == (-cb),
                se == (-sb),
        ;
        if a < b {
            lemma_tan_mono(a, b);
            assert(false);
        }
        if b < a {
            lemma_tan_mono(b, a);
            assert(false);
        }
        assert(cd * ce + sd * se == -(ca * ca + sa * sa)) by (nonlinear_arith)
            requires
                a == b,
                cb == ca,
                sb == sa,
                cd == ca,
                sd == sa,
                ce == (-cb),
                se == (-sb),
        ;
        assert(ca * ca + sa * sa > 0) by (nonlinear_arith)
            requires
                ca > 0,
                sa >= 0,
        ;
        }
        else {
        assert(sd * ce - cd * se == ca * cb + sa * sb) by (nonlinear_arith)
            requires
                cd == ca,
                sd == sa,
                ce == sb,
                se == (-cb),
        ;
        assert(ca * cb + sa * sb > 0) by (nonlinear_arith)
            requires
                ca > 0,
                cb > 0,
                sa >= 0,
                sb >= 0,
        ;
        assert(false);
        }
    }
    else if d < 180 {
        if e < 90 {
        assert(sd * ce - cd * se == ca * cb + sa * sb) by (nonlinear_arith)
            requires
                cd == (-sa),
                sd == ca,
                ce == cb,
                se == sb,
        ;
        assert(ca * cb + sa * sb > 0) by (nonlinear_arith)
            requires
                ca > 0,
                cb > 0,
                sa >= 0,
                sb >= 0,
        ;
        assert(false);
        }
        else if e < 180 {
        assert(sa * cb - ca * sb == 0) by (nonlinear_arith)
            requires
                sd * ce == cd * se,
                cd == (-sa),
                sd == ca,
                ce == (-sb),
                se == cb,
        ;
        if a < b {
            lemma_tan_mono(a, b);
            assert(false);
        } else {
            lemma_tan_mono(b, a);
            assert(false);
        }
        }
        else if e < 270 {
        assert(sd * ce - cd * se == -(ca * cb + sa * sb)) by (nonlinear_arith)
            requires
                cd == (-sa),
                sd == ca,
                ce == (-cb),
                se == (-sb),
        ;
        assert(ca * cb + sa * sb > 0) by (nonlinear_arith)
            requires
                ca > 0,
                cb > 0,
                sa >= 0,
                sb >= 0,
        ;
        assert(false);
        }
        else {
        assert(sd * ce - cd * se == ca * sb - sa * cb) by (nonlinear_arith)
            requires
                cd == (-sa),
                sd == ca,
                ce == sb,
                se == (-cb),
        ;
        if a < b {
            lemma_tan_mono(a, b);
            assert(false);
        }
        if b < a {
            lemma_tan_mono(b, a);
            assert(false);
        }
        assert(cd * ce + sd * se == -(ca * ca + sa * sa)) by (nonlinear_arith)
            requires
                a == b,
                cb == ca,
                sb == sa,
                cd == (-sa),
                sd == ca,
                ce == sb,
                se == (-cb),
        ;
        assert(ca * ca + sa * sa > 0) by (nonlinear_arith)
            requires
                ca > 0,
                sa >= 0,
        ;
        }
    }
    else if d < 270 {
        if e < 90 {
        assert(sd * ce - cd * se == ca * sb - sa * cb) by (nonlinear_arith)
            requires
                cd == (-ca),
                sd == (-sa),
                ce == cb,
                se == sb,
        ;
        if a < b {
            lemma_tan_mono(a, b);
            assert(false);
        }
        if b < a {
            lemma_tan_mono(b, a);
            assert(false);
        }
        assert(cd * ce + sd * se == -(ca * ca + sa * sa)) by (nonlinear_arith)
            requires
                a == b,
                cb == ca,
                sb == sa,
                cd == (-ca),
                sd == (-sa),
                ce == cb,
                se == sb,
        ;
        assert(ca * ca + sa * sa > 0) by (nonlinear_arith)
            requires
                ca > 0,
                sa >= 0,
        ;
        }
        else if e < 180 {
        assert(sd * ce - cd * se == ca * cb + sa * sb) by (nonlinear_arith)
            requires
                cd == (-ca),
                sd == (-sa),
                ce == (-sb),
                se == cb,
        ;
        assert(ca * cb + sa * sb > 0) by (nonlinear_arith)
            requires
                ca > 0,
                cb > 0,
                sa >= 0,
                sb >= 0,
        ;
        assert(false);
        }
        else if e < 270 {
        assert(sa * cb - ca * sb == 0) by (nonlinear_arith)
            requires
                sd * ce == cd * se,
                cd == (-ca),
                sd == (-sa),
                ce == (-cb),
                se == (-sb),
        ;
        if a < b {
            lemma_tan_mono(a, b);
            assert(false);
        } else {
            lemma_tan_mono(b, a);
            assert(false);
        }
        }
        else {
        assert(sd * ce - cd * se == -(ca * cb + sa * sb)) by (nonlinear_arith)
            requires
                cd == (-ca),
                sd == (-sa),
                ce == sb,
                se == (-cb),
        ;
        assert(ca * cb + sa * sb > 0) by (nonlinear_arith)
            requires
                ca > 0,
                cb > 0,
                sa >= 0,
                sb >= 0,
        ;
        assert(false);
        }
    }
    else {
        if e < 90 {
        assert(sd * ce - cd * se == -(ca * cb + sa * sb)) by (nonlinear_arith)
            requires
                cd == sa,
                sd == (-ca),
                ce == cb,
                se == sb,
        ;
        assert(ca * cb + sa * sb > 0) by (nonlinear_arith)
            requires
                ca > 0,
                cb > 0,
                sa >= 0,
                sb >= 0,
        ;
        assert(false);
        }
        else if e < 180 {
        assert(sd * ce - cd * se == ca * sb - sa * cb) by (nonlinear_arith)
            requires
                cd == sa,
                sd == (-ca),
                ce == (-sb),
                se == cb,
        ;
        if a < b {
            lemma_tan_mono(a, b);
            assert(false);
        }
        if b < a {
            lemma_tan_mono(b, a);
            assert(false);
        }
        assert(cd * ce + sd * se == -(ca * ca + sa * sa)) by (nonlinear_arith)
            requires
                a == b,
                cb == ca,
                sb == sa,
                cd == sa,
                sd == (-ca),
                ce == (-sb),
                se == cb,
        ;
        assert(ca * ca + sa * sa > 0) by (nonlinear_arith)
            requires
                ca > 0,
                sa >= 0,
        ;
        }
        else if e < 270 {
        assert(sd * ce - cd * se == ca * cb + sa * sb) by (nonlinear_arith)
            requires
                cd == sa,
                sd == (-ca),
                ce == (-cb),
                se == (-sb),
        ;
        assert(ca * cb + sa * sb > 0) by (nonlinear_arith)
            requires
                ca > 0,
                cb > 0,
                sa >= 0,
                sb >= 0,
        ;
        assert(false);
        }
        else {
        assert(sa * cb - ca * sb == 0) by (nonlinear_arith)
            requires
                sd * ce == cd * se,
                cd == sa,
                sd == (-ca),
                ce == sb,
                se == (-cb),
        ;
        if a < b {
            lemma_tan_mono(a, b);
            assert(false);
        } else {
            lemma_tan_mono(b, a);
            assert(false);
        }
        }
    }
}

} // verus!
