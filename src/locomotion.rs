//! One step of the player's locomotion on the surface of a gravitating body.
use vstd::prelude::*;
use vstd::arithmetic::div_mod::{lemma_fundamental_div_mod, lemma_mod_bound};

use crate::components::{Motion, Player};
use crate::fixed::{abs, clamp, clamp_wide, div_trunc, div_trunc_wide, in_range, sum_clamped, Vector2, LIMIT, SCALE};
use crate::gravity::{dist_sq, SCALE_SQ};
use crate::physics::{Pose, Rotation};

verus! {

pub open spec fn is_floor_sqrt(n: int, r: int) -> bool {
    r >= 0 && r * r <= n && n < (r + 1) * (r + 1)
}

/// The largest integer whose square is at most `n`.
pub open spec fn floor_sqrt(n: int) -> int {
    choose|r: int| is_floor_sqrt(n, r)
}

proof fn lemma_floor_sqrt_unique(n: int, a: int, b: int)
    requires
        is_floor_sqrt(n, a),
        is_floor_sqrt(n, b),
    ensures
        a == b,
{
    if a < b {
        assert((a + 1) * (a + 1) <= b * b) by (nonlinear_arith)
            requires a + 1 <= b, a >= 0;
    } else if b < a {
        assert((b + 1) * (b + 1) <= a * a) by (nonlinear_arith)
            requires b + 1 <= a, b >= 0;
    }
}

/// Bound on the radicands used here: squared offsets stay below it.
pub const SQRT_INPUT_MAX: u128 = 0x40_0000_0000_0000_0000_0000;

/// Integer square root, rounded down.
pub fn isqrt(n: u128) -> (r: u128)
    requires
        n <= SQRT_INPUT_MAX,
    ensures
        r == floor_sqrt(n as int),
        is_floor_sqrt(n as int, r as int),
        r < 0x800_0000_0001,
{
    let mut lo: u128 = 0;
    let mut hi: u128 = 0x800_0000_0001;
    assert(hi * hi > SQRT_INPUT_MAX) by (nonlinear_arith)
        requires hi == 0x800_0000_0001u128;
    while hi - lo > 1
        invariant
            lo < hi <= 0x800_0000_0001,
            lo * lo <= n,
            n < hi * hi,
        decreases hi - lo,
    {
        let mid = lo + (hi - lo) / 2;
        assert(mid * mid <= 0x800_0000_0001 * 0x800_0000_0001) by (nonlinear_arith)
            requires mid <= 0x800_0000_0001u128;
        if mid * mid <= n {
            lo = mid;
        } else {
            hi = mid;
        }
    }
    proof {
        assert(is_floor_sqrt(n as int, lo as int));
        lemma_floor_sqrt_unique(n as int, lo as int, floor_sqrt(n as int));
    }
    lo
}

/// `|a - b * div_trunc(a, b)| < b`.
proof fn lemma_div_trunc_rem(a: int, b: int)
    requires
        b > 0,
    ensures
        abs(a - b * div_trunc(a, b)) < b,
        abs(div_trunc(a, b)) <= abs(a),
{
    if a >= 0 {
        lemma_fundamental_div_mod(a, b);
        lemma_mod_bound(a, b);
        assert(a / b <= a) by (nonlinear_arith)
            requires a == b * (a / b) + a % b, a % b >= 0, b >= 1, a >= 0;
    } else {
        lemma_fundamental_div_mod(-a, b);
        lemma_mod_bound(-a, b);
        assert((-a) / b <= -a) by (nonlinear_arith)
            requires -a == b * ((-a) / b) + (-a) % b, (-a) % b >= 0, b >= 1, -a >= 0;
        let q = (-a) / b;
        assert(div_trunc(a, b) == -q);
        assert(b * (-q) == -(b * q)) by (nonlinear_arith);
        assert(a - b * div_trunc(a, b) == -((-a) % b));
    }
}

/// Offset from the ground's centre to the player: its two coordinates.
pub open spec fn offset_x(pose: Pose, ground: Vector2) -> int {
    pose.translation.x - ground.x
}

pub open spec fn offset_y(pose: Pose, ground: Vector2) -> int {
    pose.translation.y - ground.y
}

/// There is a ground to stand on: a reference body at a distinct position.
pub open spec fn has_reference(pose: Pose, ground: Option<Vector2>) -> bool {
    ground is Some && dist_sq(pose.translation, ground.unwrap()) > 0
}

/// The radial unit vector (from the ground's centre toward the player), in
/// fixed point, each coordinate rounded toward zero.
pub open spec fn normal_x(pose: Pose, ground: Vector2) -> int {
    div_trunc(
        offset_x(pose, ground) * SCALE,
        floor_sqrt(dist_sq(pose.translation, ground)),
    )
}

pub open spec fn normal_y(pose: Pose, ground: Vector2) -> int {
    div_trunc(
        offset_y(pose, ground) * SCALE,
        floor_sqrt(dist_sq(pose.translation, ground)),
    )
}

/// Velocity coordinate `vc` with its component along the offset removed:
/// `vc - oc * dot(v, o) / |o|^2`, rounded toward zero.
pub open spec fn locked(vc: int, oc: int, v: Vector2, pose: Pose, ground: Vector2) -> int {
    let k = v.x * offset_x(pose, ground) + v.y * offset_y(pose, ground);
    vc - div_trunc(oc * k, dist_sq(pose.translation, ground))
}

/// The player stands on the ground and has a reference to it.
pub open spec fn grounded(player: Player, pose: Pose, ground: Option<Vector2>) -> bool {
    player.on_ground && has_reference(pose, ground)
}

/// Velocity before this step's acceleration: radially locked when grounded.
pub open spec fn base_velocity(player: Player, motion: Motion, pose: Pose, ground: Option<Vector2>) -> (int, int) {
    let v = motion.velocity;
    if grounded(player, pose, ground) {
        let g = ground.unwrap();
        (locked(v.x as int, offset_x(pose, g), v, pose, g), locked(v.y as int, offset_y(pose, g), v, pose, g))
    } else {
        (v.x as int, v.y as int)
    }
}

/// Acceleration of this step. Grounded: a jump impulse of one radial unit
/// when jumping, plus the run push, the radial unit turned by a quarter turn
/// and scaled by run speed and run acceleration. Otherwise: what was gathered.
pub open spec fn step_acceleration(player: Player, motion: Motion, pose: Pose, ground: Option<Vector2>) -> (int, int) {
    if grounded(player, pose, ground) {
        let g = ground.unwrap();
        let nx = normal_x(pose, g);
        let ny = normal_y(pose, g);
        let run = player.velocity * player.run_acceleration;
        let jx = if player.jumping { nx } else { 0 };
        let jy = if player.jumping { ny } else { 0 };
        (jx + div_trunc(-ny * run, SCALE * SCALE), jy + div_trunc(nx * run, SCALE * SCALE))
    } else {
        (motion.acceleration.x as int, motion.acceleration.y as int)
    }
}

/// Player state after the step: a grounded jump leaves the ground at once;
/// the run speed grows by the run acceleration.
pub open spec fn stepped_player(player: Player, pose: Pose, ground: Option<Vector2>) -> Player {
    Player {
        on_ground: if grounded(player, pose, ground) && player.jumping {
            false
        } else {
            player.on_ground
        },
        velocity: clamp(player.velocity + player.run_acceleration) as i64,
        ..player
    }
}

/// Motion after the step: the acceleration is integrated, then cleared.
pub open spec fn stepped_motion(player: Player, motion: Motion, pose: Pose, ground: Option<Vector2>) -> Motion {
    let b = base_velocity(player, motion, pose, ground);
    let a = step_acceleration(player, motion, pose, ground);
    Motion {
        velocity: Vector2 { x: clamp(b.0 + a.0) as i64, y: clamp(b.1 + a.1) as i64 },
        acceleration: Vector2 { x: 0, y: 0 },
    }
}

/// Pose after the step: translated by the new velocity; with a ground
/// reference, turned upright, its up axis along the radial direction
/// (angle `atan2(offset.x, -offset.y)`: cosine `-normal.y`, sine `normal.x`).
pub open spec fn stepped_pose(player: Player, motion: Motion, pose: Pose, ground: Option<Vector2>) -> Pose {
    Pose {
        translation: sum_clamped(pose.translation, stepped_motion(player, motion, pose, ground).velocity),
        rotation: if has_reference(pose, ground) {
            Rotation {
                cos: -normal_y(pose, ground.unwrap()) as i64,
                sin: normal_x(pose, ground.unwrap()) as i64,
            }
        } else {
            pose.rotation
        },
    }
}

proof fn lemma_coord_le_root(o: int, d2: int, len: int)
    requires
        o * o <= d2,
        is_floor_sqrt(d2, len),
    ensures
        abs(o) <= len,
{
    if abs(o) > len {
        assert(abs(o) * abs(o) >= (len + 1) * (len + 1)) by (nonlinear_arith)
            requires abs(o) >= len + 1, len >= 0;
        assert(abs(o) * abs(o) == o * o) by (nonlinear_arith)
            requires abs(o) == o || abs(o) == -o;
    }
}

proof fn lemma_unit_bound(o: int, len: int)
    requires
        abs(o) <= len,
        len >= 1,
    ensures
        abs(div_trunc(o * SCALE, len)) <= SCALE,
{
    let a = abs(o * SCALE);
    assert(a == abs(o) * SCALE) by (nonlinear_arith)
        requires a == o * SCALE || a == -(o * SCALE), a >= 0, SCALE > 0;
    assert(a <= len * SCALE) by (nonlinear_arith)
        requires a == abs(o) * SCALE, abs(o) <= len;
    assert(a / len <= SCALE) by (nonlinear_arith)
        requires a <= len * SCALE, len >= 1, a >= 0;
}

proof fn lemma_product_bound(a: int, b: int, ma: int, mb: int)
    requires
        abs(a) <= ma,
        abs(b) <= mb,
    ensures
        abs(a * b) <= ma * mb,
{
    assert(abs(a * b) == abs(a) * abs(b)) by (nonlinear_arith)
        requires
            abs(a) == a || abs(a) == -a,
            abs(b) == b || abs(b) == -b,
            abs(a) >= 0,
            abs(b) >= 0,
            abs(a * b) == a * b || abs(a * b) == -(a * b),
            abs(a * b) >= 0;
    assert(abs(a) * abs(b) <= ma * mb) by (nonlinear_arith)
        requires abs(a) <= ma, abs(b) <= mb, abs(a) >= 0, abs(b) >= 0;
}

/// One locomotion step of the player, given its state, its motion, its pose
/// and the position of the ground body, if it has one.
pub fn locomotion_step(player: Player, motion: Motion, pose: Pose, ground: Option<Vector2>) -> (r: (
    Player,
    Motion,
    Pose,
))
    requires
        player.wf(),
        motion.wf(),
        pose.wf(),
        ground is Some ==> ground.unwrap().wf(),
    ensures
        r.0 == stepped_player(player, pose, ground),
        r.1 == stepped_motion(player, motion, pose, ground),
        r.2 == stepped_pose(player, motion, pose, ground),
        r.0.wf(),
        r.1.wf(),
        r.2.wf(),
{
    let p = pose.translation;
    let v = motion.velocity;
    let mut bx: i128 = v.x as i128;
    let mut by: i128 = v.y as i128;
    let mut ax: i128 = motion.acceleration.x as i128;
    let mut ay: i128 = motion.acceleration.y as i128;
    let mut rotation = pose.rotation;
    let mut on_ground = player.on_ground;
    let ghost big: int = 8 * LIMIT * LIMIT * LIMIT;
    assert(big == 0x4000_0000_0000_0000_0000_0000_0000_0000);
    if let Some(g) = ground {
        let o = p.sub(g);
        let d2 = o.dot(o);
        if d2 > 0 {
            assert(8 * LIMIT * LIMIT <= SQRT_INPUT_MAX);
            let len = isqrt(d2 as u128) as i128;
            proof {
                assert(o.x * o.x >= 0 && o.y * o.y >= 0) by (nonlinear_arith);
                assert(d2 == dist_sq(p, g));
                lemma_coord_le_root(o.x as int, d2 as int, len as int);
                lemma_coord_le_root(o.y as int, d2 as int, len as int);
                if len < 1 {
                    assert(d2 < 1) by (nonlinear_arith)
                        requires d2 < (len + 1) * (len + 1), len == 0;
                }
                lemma_unit_bound(o.x as int, len as int);
                lemma_unit_bound(o.y as int, len as int);
            }
            let nx = div_trunc_wide(o.x as i128 * SCALE as i128, len);
            let ny = div_trunc_wide(o.y as i128 * SCALE as i128, len);
            rotation = Rotation { cos: (-ny) as i64, sin: nx as i64 };
            if player.on_ground {
                proof {
                    lemma_product_bound(v.x as int, o.x as int, LIMIT as int, 2 * LIMIT);
                    lemma_product_bound(v.y as int, o.y as int, LIMIT as int, 2 * LIMIT);
                }
                let k = (v.x as i128) * (o.x as i128) + (v.y as i128) * (o.y as i128);
                proof {
                    assert(abs(k as int) <= 4 * LIMIT * LIMIT);
                    lemma_product_bound(o.x as int, k as int, 2 * LIMIT, 4 * LIMIT * LIMIT);
                    lemma_product_bound(o.y as int, k as int, 2 * LIMIT, 4 * LIMIT * LIMIT);
                    assert(2 * LIMIT * (4 * LIMIT * LIMIT) == big);
                    lemma_div_trunc_rem(o.x * k, d2 as int);
                    lemma_div_trunc_rem(o.y * k, d2 as int);
                }
                let qx = div_trunc_wide(o.x as i128 * k, d2);
                let qy = div_trunc_wide(o.y as i128 * k, d2);
                bx = v.x as i128 - qx;
                by = v.y as i128 - qy;
                proof {
                    lemma_product_bound(player.velocity as int, player.run_acceleration as int, LIMIT as int, LIMIT as int);
                }
                let run = player.velocity as i128 * player.run_acceleration as i128;
                proof {
                    lemma_product_bound(-ny as int, run as int, SCALE as int, LIMIT * LIMIT);
                    lemma_product_bound(nx as int, run as int, SCALE as int, LIMIT * LIMIT);
                    lemma_div_trunc_rem(-ny * run, SCALE * SCALE);
                    lemma_div_trunc_rem(nx * run, SCALE * SCALE);
                }
                let rx = div_trunc_wide(-ny * run, SCALE_SQ);
                let ry = div_trunc_wide(nx * run, SCALE_SQ);
                if player.jumping {
                    ax = nx + rx;
                    ay = ny + ry;
                    on_ground = false;
                } else {
                    ax = rx;
                    ay = ry;
                }
            }
        }
    }
    let nv = Vector2 { x: clamp_wide(bx + ax), y: clamp_wide(by + ay) };
    let np = Player {
        on_ground,
        velocity: clamp_wide(player.velocity as i128 + player.run_acceleration as i128),
        ..player
    };
    let nm = Motion { velocity: nv, acceleration: Vector2::zero() };
    let npose = Pose { translation: p.add_clamped(nv), rotation };
    (np, nm, npose)
}

proof fn lemma_radial_residual(vx: int, vy: int, ox: int, oy: int)
    requires
        ox * ox + oy * oy > 0,
    ensures
        ({
            let d2 = ox * ox + oy * oy;
            let k = vx * ox + vy * oy;
            let wx = vx - div_trunc(ox * k, d2);
            let wy = vy - div_trunc(oy * k, d2);
            abs(wx * ox + wy * oy) < abs(ox) + abs(oy)
        }),
{
    let d2 = ox * ox + oy * oy;
    let k = vx * ox + vy * oy;
    let qx = div_trunc(ox * k, d2);
    let qy = div_trunc(oy * k, d2);
    let rx = ox * k - d2 * qx;
    let ry = oy * k - d2 * qy;
    lemma_div_trunc_rem(ox * k, d2);
    lemma_div_trunc_rem(oy * k, d2);
    let dd = (vx - qx) * ox + (vy - qy) * oy;
    assert(d2 * dd == ox * rx + oy * ry) by (nonlinear_arith)
        requires
            d2 == ox * ox + oy * oy,
            k == vx * ox + vy * oy,
            rx == ox * k - d2 * qx,
            ry == oy * k - d2 * qy,
            dd == (vx - qx) * ox + (vy - qy) * oy;
    lemma_product_bound(ox, rx, abs(ox), d2 - 1);
    lemma_product_bound(oy, ry, abs(oy), d2 - 1);
    let m = abs(ox) + abs(oy);
    assert(m >= 1) by (nonlinear_arith)
        requires ox * ox + oy * oy > 0, m == abs(ox) + abs(oy), abs(ox) >= 0, abs(oy) >= 0,
            abs(ox) == ox || abs(ox) == -ox, abs(oy) == oy || abs(oy) == -oy;
    assert(abs(d2 * dd) < m * d2) by (nonlinear_arith)
        requires
            d2 * dd == ox * rx + oy * ry,
            abs(ox * rx) <= abs(ox) * (d2 - 1),
            abs(oy * ry) <= abs(oy) * (d2 - 1),
            m == abs(ox) + abs(oy),
            m >= 1;
    assert(abs(dd) < m) by (nonlinear_arith)
        requires
            abs(d2 * dd) < m * d2,
            d2 > 0,
            abs(d2 * dd) == d2 * dd || abs(d2 * dd) == -(d2 * dd),
            abs(dd) == dd || abs(dd) == -dd;
}

/// Radial lock while grounded: a step that starts on the ground, without a
/// jump and with no run push, leaves a velocity whose component along the
/// offset from the ground is zero up to rounding:
/// `|dot(velocity, offset)| < |offset.x| + |offset.y|` (raw units squared),
/// a radial speed below `sqrt(2)` raw units. Stated where the locked
/// velocity needs no saturation.
pub proof fn radial_lock(player: Player, motion: Motion, pose: Pose, ground: Vector2)
    requires
        player.on_ground,
        !player.jumping,
        player.velocity * player.run_acceleration == 0,
        dist_sq(pose.translation, ground) > 0,
        in_range(locked(motion.velocity.x as int, offset_x(pose, ground), motion.velocity, pose, ground)),
        in_range(locked(motion.velocity.y as int, offset_y(pose, ground), motion.velocity, pose, ground)),
    ensures
        ({
            let v = stepped_motion(player, motion, pose, Some(ground)).velocity;
            let ox = offset_x(pose, ground);
            let oy = offset_y(pose, ground);
            abs(v.x * ox + v.y * oy) < abs(ox) + abs(oy)
        }),
{
    let ox = offset_x(pose, ground);
    let oy = offset_y(pose, ground);
    let g = Some(ground);
    assert(grounded(player, pose, g));
    let nx = normal_x(pose, ground);
    let ny = normal_y(pose, ground);
    assert(-ny * 0 == 0 && nx * 0 == 0) by (nonlinear_arith);
    assert(div_trunc(0, SCALE * SCALE) == 0);
    let a = step_acceleration(player, motion, pose, g);
    assert(a.0 == 0 && a.1 == 0);
    lemma_radial_residual(motion.velocity.x as int, motion.velocity.y as int, ox, oy);
}

} // verus!
