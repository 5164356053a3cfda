//! Turning the physics world's contact events into gameplay state.
use vstd::prelude::*;

use crate::components::{Motion, Player};
use crate::error::CoreError;
use crate::fixed::{clamp, clamp_wide, div_trunc, div_trunc_wide, Vector2, LIMIT, SCALE};
use crate::gravity::SCALE_SQ;
use crate::physics::{is_live, Handle};
use crate::world::{World, WorldView};

verus! {

/// Two physics objects started or stopped touching.
#[derive(Clone, Copy, Debug, PartialEq, Eq, Structural)]
pub enum ContactEvent {
    Started(Handle, Handle),
    Stopped(Handle, Handle),
}

/// A contact event with the normal of the first point of its contact
/// manifold; `None` where the manifold holds no point.
#[derive(Clone, Copy, Debug, PartialEq, Eq, Structural)]
pub struct ContactReport {
    pub event: ContactEvent,
    pub normal: Option<Vector2>,
}

pub open spec fn first_handle(e: ContactEvent) -> Handle {
    match e {
        ContactEvent::Started(a, _) => a,
        ContactEvent::Stopped(a, _) => a,
    }
}

pub open spec fn second_handle(e: ContactEvent) -> Handle {
    match e {
        ContactEvent::Started(_, b) => b,
        ContactEvent::Stopped(_, b) => b,
    }
}

/// A report that changes nothing: a start of contact without contact points.
pub open spec fn is_noop(r: ContactReport) -> bool {
    r.event is Started && r.normal is None
}

/// The report can be resolved: it is a no-op, or both handles are live.
pub open spec fn report_ok(w: WorldView, r: ContactReport) -> bool {
    is_noop(r) || (is_live(w.objects, first_handle(r.event)) && is_live(w.objects, second_handle(r.event)))
}

/// The owner of the object `h`, if it carries a player state, gets
/// `on_ground` set to `flag`.
pub open spec fn set_ground(w: WorldView, h: Handle, flag: bool) -> WorldView {
    let e = w.objects[h.index as int].unwrap().owner.id as int;
    if w.entities[e].player is Some {
        w.with_player(e, Player { on_ground: flag, ..w.entities[e].player.unwrap() })
    } else {
        w
    }
}

/// A start of contact puts the players among the two owners on the ground;
/// an end of contact takes them off it.
pub open spec fn apply_report(w: WorldView, r: ContactReport) -> WorldView {
    if is_noop(r) {
        w
    } else {
        let flag = r.event is Started;
        set_ground(set_ground(w, first_handle(r.event), flag), second_handle(r.event), flag)
    }
}

/// The reports applied in order.
pub open spec fn apply_reports(w: WorldView, rs: Seq<ContactReport>) -> WorldView
    decreases rs.len(),
{
    if rs.len() == 0 {
        w
    } else {
        apply_report(apply_reports(w, rs.drop_last()), rs.last())
    }
}

proof fn lemma_set_ground_keeps(w: WorldView, h: Handle, flag: bool)
    requires
        w.wf(),
        is_live(w.objects, h),
    ensures
        set_ground(w, h, flag).wf(),
        set_ground(w, h, flag).objects == w.objects,
        set_ground(w, h, flag).entities.len() == w.entities.len(),
        set_ground(w, h, flag).quit == w.quit,
{
    assert(w.object_linked(h.index as int));
    let e = w.objects[h.index as int].unwrap().owner.id as int;
    if w.entities[e].player is Some {
        let w2 = set_ground(w, h, flag);
        assert(w.entities[e].wf());
        assert forall|i: int| 0 <= i < w2.entities.len() implies (#[trigger] w2.entities[i]).wf() by {
            assert(w.entities[i].wf());
        }
        assert forall|k: int| 0 <= k < w2.entities.len() && (#[trigger] w2.entities[k]).collider is Some
            implies w2.entity_linked(k) by {
            assert(w.entity_linked(k));
        }
        assert forall|j: int| 0 <= j < w2.objects.len() && (#[trigger] w2.objects[j]) is Some
            implies w2.object_linked(j) by {
            assert(w.object_linked(j));
        }
    }
}

proof fn lemma_apply_reports_keeps(w: WorldView, rs: Seq<ContactReport>)
    requires
        w.wf(),
        forall|j: int| 0 <= j < rs.len() ==> report_ok(w, #[trigger] rs[j]),
    ensures
        apply_reports(w, rs).wf(),
        apply_reports(w, rs).objects == w.objects,
        apply_reports(w, rs).entities.len() == w.entities.len(),
        apply_reports(w, rs).quit == w.quit,
    decreases rs.len(),
{
    if rs.len() > 0 {
        let rest = rs.drop_last();
        assert forall|j: int| 0 <= j < rest.len() implies report_ok(w, #[trigger] rest[j]) by {
            assert(rest[j] == rs[j]);
        }
        lemma_apply_reports_keeps(w, rest);
        let w1 = apply_reports(w, rest);
        let r = rs.last();
        assert(report_ok(w, rs[rs.len() - 1]));
        if !is_noop(r) {
            let flag = r.event is Started;
            lemma_set_ground_keeps(w1, first_handle(r.event), flag);
            lemma_set_ground_keeps(set_ground(w1, first_handle(r.event), flag), second_handle(r.event), flag);
        }
    }
}

/// Sets `on_ground` of the owner of `h`, where that owner is a player.
fn ground_owner(world: &mut World, h: Handle, flag: bool)
    requires
        old(world).wf(),
        is_live(old(world)@.objects, h),
    ensures
        final(world)@ == set_ground(old(world)@, h, flag),
        final(world).wf(),
{
    proof {
        assert(old(world)@.object_linked(h.index as int));
    }
    match world.collision_object(h) {
        Ok(o) => {
            let d = world.entity(o.owner).unwrap();
            match d.player {
                Some(p) => {
                    proof {
                        assert(old(world)@.entities[o.owner.id as int].wf());
                    }
                    world.set_player(o.owner.id, Player { on_ground: flag, ..p });
                },
                None => {},
            }
        },
        Err(_) => {},
    }
}

/// Applies the reports in order. Where a report that is not a no-op names a
/// handle that is not live, nothing is changed and the first such handle is
/// returned as a stale handle.
pub fn resolve_contacts(world: &mut World, reports: &Vec<ContactReport>) -> (r: Result<(), CoreError>)
    requires
        old(world).wf(),
    ensures
        r is Ok <==> forall|j: int| 0 <= j < reports@.len() ==> report_ok(old(world)@, #[trigger] reports@[j]),
        r is Ok ==> final(world)@ == apply_reports(old(world)@, reports@),
        r is Err ==> final(world)@ == old(world)@ && exists|j: int|
            0 <= j < reports@.len() && !report_ok(old(world)@, #[trigger] reports@[j]) && (r
                == Err::<(), CoreError>(CoreError::StaleHandle { handle: first_handle(reports@[j].event) })
                || r == Err::<(), CoreError>(CoreError::StaleHandle { handle: second_handle(reports@[j].event) })),
        final(world).wf(),
{
    let n = reports.len();
    let mut j: usize = 0;
    while j < n
        invariant
            n == reports@.len(),
            j <= n,
            world.wf(),
            world@ == old(world)@,
            forall|i: int| 0 <= i < j ==> report_ok(world@, #[trigger] reports@[i]),
        decreases n - j,
    {
        let rep = reports[j];
        let (a, b) = match rep.event {
            ContactEvent::Started(a, b) => (a, b),
            ContactEvent::Stopped(a, b) => (a, b),
        };
        let noop = match rep.event {
            ContactEvent::Started(_, _) => rep.normal.is_none(),
            ContactEvent::Stopped(_, _) => false,
        };
        if !noop {
            if let Err(e) = world.collision_object(a) {
                return Err(e);
            }
            if let Err(e) = world.collision_object(b) {
                return Err(e);
            }
        }
        j = j + 1;
    }
    let ghost w0 = world@;
    let mut i: usize = 0;
    while i < n
        invariant
            n == reports@.len(),
            i <= n,
            w0 == old(world)@,
            w0.wf(),
            forall|k: int| 0 <= k < n ==> report_ok(w0, #[trigger] reports@[k]),
            world.wf(),
            world@ == apply_reports(w0, reports@.take(i as int)),
        decreases n - i,
    {
        proof {
            let next = reports@.take(i + 1);
            assert(next.drop_last() =~= reports@.take(i as int));
            assert(next.last() == reports@[i as int]);
            let prefix = reports@.take(i as int);
            assert forall|k: int| 0 <= k < prefix.len() implies report_ok(w0, #[trigger] prefix[k]) by {
                assert(prefix[k] == reports@[k]);
            }
            lemma_apply_reports_keeps(w0, prefix);
            assert(report_ok(w0, reports@[i as int]));
        }
        let rep = reports[i];
        match rep.event {
            ContactEvent::Started(a, b) => {
                if rep.normal.is_some() {
                    ground_owner(world, a, true);
                    proof {
                        lemma_set_ground_keeps(apply_reports(w0, reports@.take(i as int)), a, true);
                    }
                    ground_owner(world, b, true);
                }
            },
            ContactEvent::Stopped(a, b) => {
                ground_owner(world, a, false);
                proof {
                    lemma_set_ground_keeps(apply_reports(w0, reports@.take(i as int)), a, false);
                }
                ground_owner(world, b, false);
            },
        }
        i = i + 1;
    }
    proof {
        assert(reports@.take(n as int) =~= reports@);
    }
    Ok(())
}

/// The owner of object `h`.
pub open spec fn owner_of(w: WorldView, h: Handle) -> int {
    w.objects[h.index as int].unwrap().owner.id as int
}

proof fn lemma_set_ground_player(w: WorldView, h: Handle, flag: bool, p: int)
    requires
        w.wf(),
        is_live(w.objects, h),
        0 <= p < w.entities.len(),
        w.entities[p].player is Some,
    ensures
        set_ground(w, h, flag).entities[p].player is Some,
        owner_of(w, h) == p ==> set_ground(w, h, flag).entities[p].player.unwrap().on_ground == flag,
{
    assert(w.object_linked(h.index as int));
}

/// Ground-flag correctness: a start of contact, with contact points, between
/// the player's object `hp` and a terrain object `ht` puts the player on the
/// ground; an end of contact for the same pair right after takes it off.
pub proof fn ground_flag(w: WorldView, hp: Handle, ht: Handle, normal: Vector2, end_normal: Option<Vector2>)
    requires
        w.wf(),
        is_live(w.objects, hp),
        is_live(w.objects, ht),
        w.entities[owner_of(w, hp)].player is Some,
    ensures
        ({
            let p = owner_of(w, hp);
            let started = ContactReport { event: ContactEvent::Started(hp, ht), normal: Some(normal) };
            let stopped = ContactReport { event: ContactEvent::Stopped(hp, ht), normal: end_normal };
            &&& apply_reports(w, seq![started]).entities[p].player.unwrap().on_ground
            &&& !apply_reports(w, seq![started, stopped]).entities[p].player.unwrap().on_ground
        }),
{
    let p = owner_of(w, hp);
    assert(w.object_linked(hp.index as int));
    let started = ContactReport { event: ContactEvent::Started(hp, ht), normal: Some(normal) };
    let stopped = ContactReport { event: ContactEvent::Stopped(hp, ht), normal: end_normal };
    assert(seq![started].drop_last() =~= Seq::<ContactReport>::empty());
    assert(seq![started, stopped].drop_last() =~= seq![started]);
    assert(seq![started].last() == started);
    assert(seq![started, stopped].last() == stopped);
    let w0 = apply_reports(w, Seq::<ContactReport>::empty());
    assert(w0 == w);
    lemma_set_ground_keeps(w, hp, true);
    lemma_set_ground_player(w, hp, true, p);
    let w1 = set_ground(w, hp, true);
    lemma_set_ground_keeps(w1, ht, true);
    lemma_set_ground_player(w1, ht, true, p);
    assert(owner_of(w1, ht) == owner_of(w, ht));
    let w2 = set_ground(w1, ht, true);
    assert(apply_reports(w, seq![started]) == w2);
    lemma_set_ground_keeps(w2, hp, false);
    lemma_set_ground_player(w2, hp, false, p);
    let w3 = set_ground(w2, hp, false);
    lemma_set_ground_player(w3, ht, false, p);
    assert(owner_of(w2, hp) == p);
}

/// `c` limited to `[-SCALE, SCALE]`, the range of a unit vector's coordinate.
pub open spec fn unit_coord(c: int) -> int {
    if c > SCALE {
        SCALE as int
    } else if c < -SCALE {
        -SCALE
    } else {
        c
    }
}

/// `v` reflected across the unit normal `n`: `v - 2 * dot(v, n) * n`, the
/// product rounded toward zero and the result saturated.
pub open spec fn reflected(v: Vector2, n: Vector2) -> Vector2 {
    let k = v.x * n.x + v.y * n.y;
    Vector2 {
        x: clamp(v.x - div_trunc(2 * k * n.x, SCALE * SCALE)) as i64,
        y: clamp(v.y - div_trunc(2 * k * n.y, SCALE * SCALE)) as i64,
    }
}

/// Velocity after an elastic bounce on a surface of unit normal `n`.
pub fn reflect_velocity(v: Vector2, n: Vector2) -> (r: Vector2)
    requires
        v.wf(),
        -SCALE <= n.x <= SCALE,
        -SCALE <= n.y <= SCALE,
    ensures
        r == reflected(v, n),
        r.wf(),
{
    proof {
        assert(-LIMIT * SCALE <= v.x * n.x <= LIMIT * SCALE) by (nonlinear_arith)
            requires -LIMIT <= v.x <= LIMIT, -SCALE <= n.x <= SCALE;
        assert(-LIMIT * SCALE <= v.y * n.y <= LIMIT * SCALE) by (nonlinear_arith)
            requires -LIMIT <= v.y <= LIMIT, -SCALE <= n.y <= SCALE;
    }
    let k = v.x as i128 * n.x as i128 + v.y as i128 * n.y as i128;
    proof {
        assert(-4 * LIMIT * SCALE * SCALE <= 2 * k * n.x <= 4 * LIMIT * SCALE * SCALE) by (nonlinear_arith)
            requires -2 * LIMIT * SCALE <= k <= 2 * LIMIT * SCALE, -SCALE <= n.x <= SCALE;
        assert(-4 * LIMIT * SCALE * SCALE <= 2 * k * n.y <= 4 * LIMIT * SCALE * SCALE) by (nonlinear_arith)
            requires -2 * LIMIT * SCALE <= k <= 2 * LIMIT * SCALE, -SCALE <= n.y <= SCALE;
    }
    let qx = div_trunc_wide(2 * k * n.x as i128, SCALE_SQ);
    let qy = div_trunc_wide(2 * k * n.y as i128, SCALE_SQ);
    proof {
        assert(-4 * LIMIT * SCALE * SCALE <= 2 * k * n.x <= 4 * LIMIT * SCALE * SCALE);
        assert(SCALE_SQ == SCALE * SCALE);
        assert((4 * LIMIT * SCALE * SCALE) / (SCALE * SCALE) == 4 * LIMIT) by (nonlinear_arith);
        let ax = 2 * k * n.x;
        let ay = 2 * k * n.y;
        assert(ax >= 0 ==> ax / (SCALE * SCALE) <= 4 * LIMIT) by (nonlinear_arith)
            requires ax <= 4 * LIMIT * SCALE * SCALE;
        assert(ax < 0 ==> (-ax) / (SCALE * SCALE) <= 4 * LIMIT) by (nonlinear_arith)
            requires -ax <= 4 * LIMIT * SCALE * SCALE;
        assert(ay >= 0 ==> ay / (SCALE * SCALE) <= 4 * LIMIT) by (nonlinear_arith)
            requires ay <= 4 * LIMIT * SCALE * SCALE;
        assert(ay < 0 ==> (-ay) / (SCALE * SCALE) <= 4 * LIMIT) by (nonlinear_arith)
            requires -ay <= 4 * LIMIT * SCALE * SCALE;
    }
    Vector2 { x: clamp_wide(v.x as i128 - qx), y: clamp_wide(v.y as i128 - qy) }
}

/// The owner of object `h`, where it has motion, bounces off normal `n`.
pub open spec fn bounce_owner(w: WorldView, h: Handle, n: Vector2) -> WorldView {
    let e = w.objects[h.index as int].unwrap().owner.id as int;
    if w.entities[e].motion is Some {
        let m = w.entities[e].motion.unwrap();
        w.with_motion(e, Motion { velocity: reflected(m.velocity, n), ..m })
    } else {
        w
    }
}

/// The report makes its two owners bounce: a start of contact with a point.
pub open spec fn is_bounce(r: ContactReport) -> bool {
    r.event is Started && r.normal is Some
}

/// Bounce variant of the resolution: at a start of contact both owners
/// bounce off the first contact point's normal, each coordinate limited to
/// the unit range; nothing else changes anything.
pub open spec fn apply_bounce(w: WorldView, r: ContactReport) -> WorldView {
    if is_bounce(r) {
        let raw = r.normal.unwrap();
        let n = Vector2 { x: unit_coord(raw.x as int) as i64, y: unit_coord(raw.y as int) as i64 };
        bounce_owner(bounce_owner(w, first_handle(r.event), n), second_handle(r.event), n)
    } else {
        w
    }
}

pub open spec fn apply_bounces(w: WorldView, rs: Seq<ContactReport>) -> WorldView
    decreases rs.len(),
{
    if rs.len() == 0 {
        w
    } else {
        apply_bounce(apply_bounces(w, rs.drop_last()), rs.last())
    }
}

/// A bounce report can be resolved: its handles are live where it bounces.
pub open spec fn bounce_ok(w: WorldView, r: ContactReport) -> bool {
    !is_bounce(r) || (is_live(w.objects, first_handle(r.event)) && is_live(w.objects, second_handle(r.event)))
}

proof fn lemma_bounce_owner_keeps(w: WorldView, h: Handle, n: Vector2)
    requires
        w.wf(),
        is_live(w.objects, h),
    ensures
        bounce_owner(w, h, n).wf(),
        bounce_owner(w, h, n).objects == w.objects,
        bounce_owner(w, h, n).entities.len() == w.entities.len(),
        bounce_owner(w, h, n).quit == w.quit,
{
    assert(w.object_linked(h.index as int));
    let e = w.objects[h.index as int].unwrap().owner.id as int;
    if w.entities[e].motion is Some {
        let w2 = bounce_owner(w, h, n);
        assert(w.entities[e].wf());
        assert forall|i: int| 0 <= i < w2.entities.len() implies (#[trigger] w2.entities[i]).wf() by {
            assert(w.entities[i].wf());
        }
        assert forall|k: int| 0 <= k < w2.entities.len() && (#[trigger] w2.entities[k]).collider is Some
            implies w2.entity_linked(k) by {
            assert(w.entity_linked(k));
        }
        assert forall|j: int| 0 <= j < w2.objects.len() && (#[trigger] w2.objects[j]) is Some
            implies w2.object_linked(j) by {
            assert(w.object_linked(j));
        }
    }
}

proof fn lemma_apply_bounces_keeps(w: WorldView, rs: Seq<ContactReport>)
    requires
        w.wf(),
        forall|j: int| 0 <= j < rs.len() ==> bounce_ok(w, #[trigger] rs[j]),
    ensures
        apply_bounces(w, rs).wf(),
        apply_bounces(w, rs).objects == w.objects,
        apply_bounces(w, rs).entities.len() == w.entities.len(),
        apply_bounces(w, rs).quit == w.quit,
    decreases rs.len(),
{
    if rs.len() > 0 {
        let rest = rs.drop_last();
        assert forall|j: int| 0 <= j < rest.len() implies bounce_ok(w, #[trigger] rest[j]) by {
            assert(rest[j] == rs[j]);
        }
        lemma_apply_bounces_keeps(w, rest);
        let w1 = apply_bounces(w, rest);
        let r = rs.last();
        assert(bounce_ok(w, rs[rs.len() - 1]));
        if is_bounce(r) {
            let raw = r.normal.unwrap();
            let n = Vector2 { x: unit_coord(raw.x as int) as i64, y: unit_coord(raw.y as int) as i64 };
            lemma_bounce_owner_keeps(w1, first_handle(r.event), n);
            lemma_bounce_owner_keeps(bounce_owner(w1, first_handle(r.event), n), second_handle(r.event), n);
        }
    }
}

/// Reflects the velocity of the owner of `h`, where it has motion.
fn bounce_one(world: &mut World, h: Handle, n: Vector2)
    requires
        old(world).wf(),
        is_live(old(world)@.objects, h),
        -SCALE <= n.x <= SCALE,
        -SCALE <= n.y <= SCALE,
    ensures
        final(world)@ == bounce_owner(old(world)@, h, n),
        final(world).wf(),
{
    proof {
        assert(old(world)@.object_linked(h.index as int));
    }
    match world.collision_object(h) {
        Ok(o) => {
            let d = world.entity(o.owner).unwrap();
            match d.motion {
                Some(m) => {
                    proof {
                        assert(old(world)@.entities[o.owner.id as int].wf());
                    }
                    let v = reflect_velocity(m.velocity, n);
                    world.set_motion(o.owner.id, Motion { velocity: v, ..m });
                },
                None => {},
            }
        },
        Err(_) => {},
    }
}

fn unit_coord_exec(c: i64) -> (r: i64)
    ensures
        r == unit_coord(c as int),
{
    if c > SCALE {
        SCALE
    } else if c < -SCALE {
        -SCALE
    } else {
        c
    }
}

/// Bounce variant of `resolve_contacts`: applies the reports in order, each
/// start of contact with a contact point reflecting both owners' velocities.
/// Where such a report names a handle that is not live, nothing is changed
/// and that handle is returned as stale.
pub fn resolve_bounces(world: &mut World, reports: &Vec<ContactReport>) -> (r: Result<(), CoreError>)
    requires
        old(world).wf(),
    ensures
        r is Ok <==> forall|j: int| 0 <= j < reports@.len() ==> bounce_ok(old(world)@, #[trigger] reports@[j]),
        r is Ok ==> final(world)@ == apply_bounces(old(world)@, reports@),
        r is Err ==> final(world)@ == old(world)@,
        final(world).wf(),
{
    let n = reports.len();
    let mut j: usize = 0;
    while j < n
        invariant
            n == reports@.len(),
            j <= n,
            world.wf(),
            world@ == old(world)@,
            forall|i: int| 0 <= i < j ==> bounce_ok(world@, #[trigger] reports@[i]),
        decreases n - j,
    {
        let rep = reports[j];
        if let ContactEvent::Started(a, b) = rep.event {
            if rep.normal.is_some() {
                if let Err(e) = world.collision_object(a) {
                    return Err(e);
                }
                if let Err(e) = world.collision_object(b) {
                    return Err(e);
                }
            }
        }
        j = j + 1;
    }
    let ghost w0 = world@;
    let mut i: usize = 0;
    while i < n
        invariant
            n == reports@.len(),
            i <= n,
            w0 == old(world)@,
            w0.wf(),
            forall|k: int| 0 <= k < n ==> bounce_ok(w0, #[trigger] reports@[k]),
            world.wf(),
            world@ == apply_bounces(w0, reports@.take(i as int)),
        decreases n - i,
    {
        proof {
            let next = reports@.take(i + 1);
            assert(next.drop_last() =~= reports@.take(i as int));
            assert(next.last() == reports@[i as int]);
            let prefix = reports@.take(i as int);
            assert forall|k: int| 0 <= k < prefix.len() implies bounce_ok(w0, #[trigger] prefix[k]) by {
                assert(prefix[k] == reports@[k]);
            }
            lemma_apply_bounces_keeps(w0, prefix);
            assert(bounce_ok(w0, reports@[i as int]));
        }
        let rep = reports[i];
        if let ContactEvent::Started(a, b) = rep.event {
            if let Some(raw) = rep.normal {
                let nrm = Vector2 { x: unit_coord_exec(raw.x), y: unit_coord_exec(raw.y) };
                bounce_one(world, a, nrm);
                proof {
                    lemma_bounce_owner_keeps(apply_bounces(w0, reports@.take(i as int)), a, nrm);
                }
                bounce_one(world, b, nrm);
            }
        }
        i = i + 1;
    }
    proof {
        assert(reports@.take(n as int) =~= reports@);
    }
    Ok(())
}

} // verus!
