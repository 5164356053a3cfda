//! Gravity accumulation: the acceleration that point sources give a position.
use vstd::prelude::*;

use crate::fixed::{abs, div_trunc, div_trunc_wide, in_range, Vector2, LIMIT, SCALE};

verus! {

/// A point source of gravity: where it stands and how strong it pulls.
#[derive(Clone, Copy, Debug, PartialEq, Eq, Structural)]
pub struct GravitySource {
    pub position: Vector2,
    /// Strength coefficient, in raw fixed-point units.
    pub force: i64,
}

impl GravitySource {
    pub open spec fn wf(self) -> bool {
        self.position.wf() && in_range(self.force as int)
    }
}

/// Squared distance between `a` and `b`, in raw units squared.
pub open spec fn dist_sq(a: Vector2, b: Vector2) -> int {
    (a.x - b.x) * (a.x - b.x) + (a.y - b.y) * (a.y - b.y)
}

/// The source and the position are at most 0.1 world units apart:
/// `sqrt(d2) / SCALE <= 1 / 10`.
pub open spec fn too_close(d2: int) -> bool {
    100 * d2 <= SCALE * SCALE
}

/// Acceleration that `src` gives a body at `at`: `offset * (force / distance^2)`
/// with `offset = src.position - at`, each coordinate rounded toward zero;
/// zero where the two are too close.
pub open spec fn contribution(src: GravitySource, at: Vector2) -> (int, int) {
    let ox = src.position.x - at.x;
    let oy = src.position.y - at.y;
    let d2 = dist_sq(src.position, at);
    if too_close(d2) {
        (0, 0)
    } else {
        (div_trunc(ox * src.force * SCALE, d2), div_trunc(oy * src.force * SCALE, d2))
    }
}

/// Sum of the contributions of all `sources` at `at`.
pub open spec fn total_gravity(sources: Seq<GravitySource>, at: Vector2) -> (int, int)
    decreases sources.len(),
{
    if sources.len() == 0 {
        (0, 0)
    } else {
        let rest = total_gravity(sources.drop_last(), at);
        let c = contribution(sources.last(), at);
        (rest.0 + c.0, rest.1 + c.1)
    }
}

/// `SCALE * SCALE`.
pub const SCALE_SQ: i128 = 281474976710656;

/// Bound of a single contribution: `10 * LIMIT`, below 2^45.
pub open spec fn term_bound() -> int {
    10 * LIMIT
}

proof fn lemma_offset_scaled(o: int, d2: int)
    requires
        o * o <= d2,
        !too_close(d2),
    ensures
        abs(o) * SCALE < 10 * d2,
{
    let a = abs(o);
    assert(a * a == o * o) by (nonlinear_arith)
        requires a == o || a == -o;
    if 10 * a <= SCALE {
        assert(a * SCALE <= SCALE * SCALE / 10) by (nonlinear_arith)
            requires 10 * a <= SCALE, a >= 0;
    } else {
        assert(a * SCALE < 10 * (a * a)) by (nonlinear_arith)
            requires 10 * a > SCALE, a >= 0;
    }
}

proof fn lemma_term_bounded(o: int, f: int, d2: int)
    requires
        o * o <= d2,
        !too_close(d2),
        in_range(f),
        -2 * LIMIT <= o <= 2 * LIMIT,
    ensures
        abs(div_trunc(o * f * SCALE, d2)) <= term_bound(),
        abs(o * f * SCALE) <= 2 * LIMIT * LIMIT * SCALE,
{
    lemma_offset_scaled(o, d2);
    let a = abs(o);
    let g = abs(f);
    let n = abs(o * f * SCALE);
    assert(n == a * SCALE * g) by (nonlinear_arith)
        requires
            a == o || a == -o,
            g == f || g == -f,
            a >= 0,
            g >= 0,
            n == o * f * SCALE || n == -(o * f * SCALE),
            n >= 0,
    ;
    assert(d2 > 0);
    assert(n <= 10 * d2 * g) by (nonlinear_arith)
        requires n == a * SCALE * g, a * SCALE < 10 * d2, g >= 0;
    assert(g <= LIMIT);
    assert(n <= d2 * (10 * LIMIT)) by (nonlinear_arith)
        requires n <= 10 * d2 * g, g <= LIMIT, d2 > 0;
    assert(n / d2 <= 10 * LIMIT) by (nonlinear_arith)
        requires n <= d2 * (10 * LIMIT), d2 > 0, n >= 0;
    assert(n <= 2 * LIMIT * LIMIT * SCALE) by (nonlinear_arith)
        requires n == a * SCALE * g, a <= 2 * LIMIT, g <= LIMIT, a >= 0, g >= 0;
}

proof fn lemma_force_product(o: int, f: int)
    requires
        -2 * LIMIT <= o <= 2 * LIMIT,
        in_range(f),
    ensures
        abs(o * f) <= 2 * LIMIT * LIMIT,
        abs(o * f * SCALE) <= 2 * LIMIT * LIMIT * SCALE,
{
    assert(abs(o * f) <= 2 * LIMIT * LIMIT) by (nonlinear_arith)
        requires -2 * LIMIT <= o <= 2 * LIMIT, -LIMIT <= f <= LIMIT;
    assert(abs(o * f * SCALE) <= 2 * LIMIT * LIMIT * SCALE) by (nonlinear_arith)
        requires abs(o * f) <= 2 * LIMIT * LIMIT;
}

/// Acceleration that `src` gives a body at `at`; zero where the two are at
/// most 0.1 world units apart.
pub fn contribution_at(src: GravitySource, at: Vector2) -> (r: (i128, i128))
    requires
        src.wf(),
        at.wf(),
    ensures
        r.0 == contribution(src, at).0,
        r.1 == contribution(src, at).1,
        too_close(dist_sq(src.position, at)) ==> r.0 == 0 && r.1 == 0,
        abs(r.0 as int) <= term_bound(),
        abs(r.1 as int) <= term_bound(),
{
    let o = src.position.sub(at);
    let d2 = o.dot(o);
    if 100 * d2 <= SCALE_SQ {
        (0, 0)
    } else {
        proof {
            assert(o.x * o.x >= 0 && o.y * o.y >= 0) by (nonlinear_arith);
            lemma_force_product(o.x as int, src.force as int);
            lemma_force_product(o.y as int, src.force as int);
            lemma_term_bounded(o.x as int, src.force as int, d2 as int);
            lemma_term_bounded(o.y as int, src.force as int, d2 as int);
        }
        let nx = (o.x as i128) * (src.force as i128) * (SCALE as i128);
        let ny = (o.y as i128) * (src.force as i128) * (SCALE as i128);
        (div_trunc_wide(nx, d2), div_trunc_wide(ny, d2))
    }
}

/// Sum of the contributions of all `sources` at `at`.
pub fn total_gravity_at(sources: &Vec<GravitySource>, at: Vector2) -> (r: (i128, i128))
    requires
        forall|i: int| 0 <= i < sources@.len() ==> (#[trigger] sources@[i]).wf(),
        at.wf(),
    ensures
        r.0 == total_gravity(sources@, at).0,
        r.1 == total_gravity(sources@, at).1,
        abs(r.0 as int) <= 0x1_0000_0000_0000_0000 * term_bound(),
        abs(r.1 as int) <= 0x1_0000_0000_0000_0000 * term_bound(),
{
    let mut ax: i128 = 0;
    let mut ay: i128 = 0;
    let mut j: usize = 0;
    while j < sources.len()
        invariant
            j <= sources@.len(),
            forall|i: int| 0 <= i < sources@.len() ==> (#[trigger] sources@[i]).wf(),
            at.wf(),
            ax == total_gravity(sources@.take(j as int), at).0,
            ay == total_gravity(sources@.take(j as int), at).1,
            abs(ax as int) <= j * term_bound(),
            abs(ay as int) <= j * term_bound(),
        decreases sources@.len() - j,
    {
        let c = contribution_at(sources[j], at);
        proof {
            assert((j + 1) * term_bound() <= 0x1_0000_0000_0000_0000 * term_bound()) by (nonlinear_arith)
                requires j < 0x1_0000_0000_0000_0000int, term_bound() > 0;
            assert(j * term_bound() + term_bound() == (j + 1) * term_bound()) by (nonlinear_arith);
            let next = sources@.take(j + 1);
            assert(next.drop_last() =~= sources@.take(j as int));
            assert(next.last() == sources@[j as int]);
        }
        ax = ax + c.0;
        ay = ay + c.1;
        j = j + 1;
    }
    proof {
        assert(sources@.take(j as int) =~= sources@);
        assert(j * term_bound() <= 0x1_0000_0000_0000_0000 * term_bound()) by (nonlinear_arith)
            requires j < 0x1_0000_0000_0000_0000int, term_bound() > 0;
    }
    (ax, ay)
}

/// Superposition over a concatenation: the sources of `a` and of `b`
/// together give the sum of what each group gives.
pub proof fn lemma_total_concat(a: Seq<GravitySource>, b: Seq<GravitySource>, at: Vector2)
    ensures
        total_gravity(a + b, at).0 == total_gravity(a, at).0 + total_gravity(b, at).0,
        total_gravity(a + b, at).1 == total_gravity(a, at).1 + total_gravity(b, at).1,
    decreases b.len(),
{
    if b.len() == 0 {
        assert(a + b =~= a);
    } else {
        lemma_total_concat(a, b.drop_last(), at);
        assert((a + b).drop_last() =~= a + b.drop_last());
        assert((a + b).last() == b.last());
    }
}

/// Gravity superposition: two sources together give a body the vector sum of
/// what each gives alone, whichever of them is listed first.
pub proof fn gravity_superposition(s1: GravitySource, s2: GravitySource, at: Vector2)
    ensures
        total_gravity(seq![s1, s2], at).0 == contribution(s1, at).0 + contribution(s2, at).0,
        total_gravity(seq![s1, s2], at).1 == contribution(s1, at).1 + contribution(s2, at).1,
        total_gravity(seq![s2, s1], at) == total_gravity(seq![s1, s2], at),
{
    assert(seq![s1, s2].drop_last() =~= seq![s1]);
    assert(seq![s1, s2].last() == s2);
    assert(seq![s2, s1].last() == s1);
    assert(seq![s1].last() == s1);
    assert(seq![s2].last() == s2);
    assert(seq![s2, s1].drop_last() =~= seq![s2]);
    assert(seq![s1].drop_last() =~= Seq::<GravitySource>::empty());
    assert(seq![s2].drop_last() =~= Seq::<GravitySource>::empty());
    let e = Seq::<GravitySource>::empty();
    assert(total_gravity(e, at) == (0int, 0int));
    assert(total_gravity(seq![s1], at).0 == contribution(s1, at).0);
    assert(total_gravity(seq![s1], at).1 == contribution(s1, at).1);
    assert(total_gravity(seq![s2], at).0 == contribution(s2, at).0);
    assert(total_gravity(seq![s2], at).1 == contribution(s2, at).1);
}

/// The order in which sources are listed does not change the total: the
/// sources of `a` then `b` give what those of `b` then `a` give.
pub proof fn gravity_order_independent(a: Seq<GravitySource>, b: Seq<GravitySource>, at: Vector2)
    ensures
        total_gravity(a + b, at) == total_gravity(b + a, at),
{
    lemma_total_concat(a, b, at);
    lemma_total_concat(b, a, at);
}

} // verus!
