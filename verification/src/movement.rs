//! The movement integrator: straight-line advance toward the waypoint.
//!
//! A unit moves only while its activity state is moving or
//! firing-and-moving.  When the remaining distance squared exceeds the
//! squared step the unit advances by the step along the line to the
//! waypoint; otherwise it snaps exactly onto the waypoint and reports
//! arrival.  All geometry is exact fixed-point arithmetic; the step along
//! the line divides by the integer square root of the squared distance.

use vstd::prelude::*;

verus! {

use crate::DT_LIMIT;
use crate::EntityId;
use crate::POS_LIMIT;
use crate::UnitState;
use crate::UnitUserCommand;
use crate::WaypointComponent;
use crate::XyPos;
use crate::world::UnitEntry;
use crate::world::UnitModel;
use crate::world::World;
use crate::world::spec_id_valid_in;
use crate::world::spec_wf_model;

/// Upper bound on a single tick's step length, in thousandths of a world
/// unit: the speed limit times the tick limit.
pub const MAX_STEP: u64 = 1_000_000_000_000;

/// The largest `r` with `r * r <= n`.
pub open spec fn spec_sqrt_floor(n: nat) -> nat
    decreases n,
{
    if n == 0 {
        0
    } else {
        let r = spec_sqrt_floor((n - 1) as nat);
        if (r + 1) * (r + 1) <= n {
            r + 1
        } else {
            r
        }
    }
}


pub proof fn lemma_sqrt_floor_bounds(n: nat)
    ensures
        spec_sqrt_floor(n) * spec_sqrt_floor(n) <= n,
        (spec_sqrt_floor(n) + 1) * (spec_sqrt_floor(n) + 1) > n,
    decreases n,
{
    let s = spec_sqrt_floor(n);
    if n > 0 {
        lemma_sqrt_floor_bounds((n - 1) as nat);
        let r = spec_sqrt_floor((n - 1) as nat);
        assert(r * r <= n - 1);
        assert((r + 1) * (r + 1) > n - 1);
        if (r + 1) * (r + 1) <= n {
            assert(s == r + 1);
            assert(s * s <= n) by (nonlinear_arith)
                requires
                    s == r + 1,
                    (r + 1) * (r + 1) <= n,
            ;
            assert((s + 1) * (s + 1) > n) by (nonlinear_arith)
                requires
                    s == r + 1,
                    (r + 1) * (r + 1) > n - 1,
                    (r + 1) * (r + 1) <= n,
                    r >= 0,
            ;
        } else {
            assert(s == r);
            assert(s * s <= n) by (nonlinear_arith)
                requires
                    s == r,
                    r * r <= n - 1,
                    n >= 1,
            ;
            assert((s + 1) * (s + 1) > n) by (nonlinear_arith)
                requires
                    s == r,
                    !((r + 1) * (r + 1) <= n),
            ;
        }
    } else {
        assert(s == 0);
        assert((s + 1) * (s + 1) > n) by (nonlinear_arith)
            requires
                s == 0,
                n == 0,
        ;
    }
}

pub proof fn lemma_sqrt_floor_unique(n: nat, r: nat)
    requires
        r * r <= n,
        (r + 1) * (r + 1) > n,
    ensures
        spec_sqrt_floor(n) == r,
{
    lemma_sqrt_floor_bounds(n);
    let s = spec_sqrt_floor(n);
    if s < r {
        assert(false) by (nonlinear_arith)
            requires
                s < r,
                r * r <= n,
                (s + 1) * (s + 1) > n,
        ;
    }
    if r < s {
        assert(false) by (nonlinear_arith)
            requires
                r < s,
                s * s <= n,
                (r + 1) * (r + 1) > n,
        ;
    }
}

/// Binary search for the integer square root.
fn isqrt_u128(n: u128) -> (r: u128)
    ensures
        r * r <= n,
        (r + 1) * (r + 1) > n,
        r == spec_sqrt_floor(n as nat),
{
    let mut lo: u128 = 0;
    let mut hi: u128 = 0x1_0000_0000_0000_0000;
    proof {
        assert(hi * hi > u128::MAX) by (nonlinear_arith)
            requires
                hi == 0x1_0000_0000_0000_0000u128,
        ;
    }
    while lo + 1 < hi
        invariant
            lo < hi,
            hi <= 0x1_0000_0000_0000_0000,
            lo * lo <= n,
            hi * hi > n,
        decreases hi - lo,
    {
        let mid = lo + (hi - lo) / 2;
        proof {
            assert(lo < mid < hi);
            assert(mid <= 0xFFFF_FFFF_FFFF_FFFFu128);
            assert(mid * mid <= u128::MAX) by (nonlinear_arith)
                requires
                    mid <= 0xFFFF_FFFF_FFFF_FFFFu128,
            ;
        }
        if mid * mid <= n {
            lo = mid;
        } else {
            hi = mid;
        }
    }
    proof {
        lemma_sqrt_floor_unique(n as nat, lo as nat);
    }
    lo
}

/// The squared distance between two points.
pub open spec fn spec_dist_sq(a: XyPos, b: XyPos) -> int {
    (b.x - a.x) * (b.x - a.x) + (b.y - a.y) * (b.y - a.y)
}

/// Does a step of this length reach the destination?
pub open spec fn spec_step_reaches(pos: XyPos, dest: XyPos, step: int) -> bool {
    step * step >= spec_dist_sq(pos, dest)
}

/// One coordinate advanced toward its destination: the offset scaled by
/// `step / dist`, truncated toward the starting point.
pub open spec fn spec_move_coord(from: int, to: int, step: int, dist: int) -> int {
    if to >= from {
        from + ((to - from) * step) / dist
    } else {
        from - ((from - to) * step) / dist
    }
}

/// The position after one movement step: the destination itself when the
/// step reaches it, else an advance of `step` along the straight line.
pub open spec fn spec_moved_pos(pos: XyPos, dest: XyPos, step: int) -> XyPos {
    if spec_step_reaches(pos, dest, step) {
        dest
    } else {
        let dist = spec_sqrt_floor(spec_dist_sq(pos, dest) as nat) as int;
        XyPos {
            x: spec_move_coord(pos.x as int, dest.x as int, step, dist) as i64,
            y: spec_move_coord(pos.y as int, dest.y as int, step, dist) as i64,
        }
    }
}

/// One coordinate of the partial step.
fn move_coord(from: i64, to: i64, step: u64, dist: u128) -> (r: i64)
    requires
        -POS_LIMIT <= from <= POS_LIMIT,
        -POS_LIMIT <= to <= POS_LIMIT,
        1 <= dist,
        step as int <= dist,
        step <= MAX_STEP,
    ensures
        r == spec_move_coord(from as int, to as int, step as int, dist as int),
        (from <= to ==> from <= r <= to),
        (to <= from ==> to <= r <= from),
{
    let diff_abs: u128 = if to >= from {
        (to as i128 - from as i128) as u128
    } else {
        (from as i128 - to as i128) as u128
    };
    proof {
        assert(diff_abs <= 2_000_000_000_000_000u128);
        assert(diff_abs * (step as u128) <= u128::MAX) by (nonlinear_arith)
            requires
                diff_abs <= 2_000_000_000_000_000u128,
                step as u128 <= 1_000_000_000_000u128,
        ;
    }
    let delta_wide: u128 = (diff_abs * step as u128) / dist;
    proof {
        assert(delta_wide <= diff_abs) by (nonlinear_arith)
            requires
                1 <= dist,
                step as int <= dist,
                delta_wide == (diff_abs * step as u128) / (dist as int),
                diff_abs >= 0,
        ;
    }
    let delta = delta_wide as i64;
    if to >= from {
        from + delta
    } else {
        from - delta
    }
}

/// One movement step toward a destination.  Returns the new position and
/// whether the destination was reached; the new position always lies
/// between the old position and the destination, coordinate by coordinate.
pub fn move_toward(pos: XyPos, dest: XyPos, step: u64) -> (r: (XyPos, bool))
    requires
        -POS_LIMIT <= pos.x <= POS_LIMIT,
        -POS_LIMIT <= pos.y <= POS_LIMIT,
        -POS_LIMIT <= dest.x <= POS_LIMIT,
        -POS_LIMIT <= dest.y <= POS_LIMIT,
        step <= MAX_STEP,
    ensures
        r.1 == spec_step_reaches(pos, dest, step as int),
        r.0 == spec_moved_pos(pos, dest, step as int),
        (pos.x <= dest.x ==> pos.x <= r.0.x <= dest.x) || r.0 == dest,
        (dest.x <= pos.x ==> dest.x <= r.0.x <= pos.x) || r.0 == dest,
        (pos.y <= dest.y ==> pos.y <= r.0.y <= dest.y) || r.0 == dest,
        (dest.y <= pos.y ==> dest.y <= r.0.y <= pos.y) || r.0 == dest,
{
    let dxi: i128 = dest.x as i128 - pos.x as i128;
    let dyi: i128 = dest.y as i128 - pos.y as i128;
    proof {
        assert(-2_000_000_000_000_000i128 <= dxi <= 2_000_000_000_000_000i128);
        assert(-2_000_000_000_000_000i128 <= dyi <= 2_000_000_000_000_000i128);
        assert(dxi * dxi >= 0 && dxi * dxi <= 4_000_000_000_000_000_000_000_000_000_000i128)
            by (nonlinear_arith)
            requires
                -2_000_000_000_000_000i128 <= dxi <= 2_000_000_000_000_000i128,
        ;
        assert(dyi * dyi >= 0 && dyi * dyi <= 4_000_000_000_000_000_000_000_000_000_000i128)
            by (nonlinear_arith)
            requires
                -2_000_000_000_000_000i128 <= dyi <= 2_000_000_000_000_000i128,
        ;
    }
    let dsq: u128 = (dxi * dxi + dyi * dyi) as u128;
    let step_wide: u128 = step as u128;
    proof {
        assert(step_wide * step_wide <= 1_000_000_000_000_000_000_000_000u128)
            by (nonlinear_arith)
            requires
                step_wide <= 1_000_000_000_000u128,
        ;
    }
    if step_wide * step_wide >= dsq {
        (dest, true)
    } else {
        let dist = isqrt_u128(dsq);
        proof {
            assert(dist >= step_wide) by (nonlinear_arith)
                requires
                    step_wide * step_wide < dsq,
                    (dist + 1) * (dist + 1) > dsq,
                    dist >= 0,
                    step_wide >= 0,
            ;
            assert(dsq >= 1);
            assert(dist >= 1) by (nonlinear_arith)
                requires
                    (dist + 1) * (dist + 1) > dsq,
                    dsq >= 1,
                    dist >= 0,
            ;
            assert(dist * dist <= dsq);
        }
        let new_x = move_coord(pos.x, dest.x, step, dist);
        let new_y = move_coord(pos.y, dest.y, step, dist);
        (XyPos { x: new_x, y: new_y }, false)
    }
}

/// Does this unit advance this tick?  Only a moving or firing-and-moving
/// activity moves, and only under a standing order with a resolved
/// waypoint.
pub open spec fn spec_unit_moves(e: UnitModel) -> bool {
    &&& (e.unit.state is Moving || e.unit.state is FiringAndMoving)
    &&& !(e.unit.current_command is None_)
    &&& e.waypoint is Position
}

/// This tick's step length for one unit: its current speed over the tick,
/// in thousandths of a world unit.
pub open spec fn spec_step_len(e: UnitModel, dt_ms: u64) -> int {
    (e.unit.spec_current_speed() * dt_ms) / 1000
}

/// One unit after the movement pass.
pub open spec fn spec_moved_unit(e: UnitModel, dt_ms: u64) -> UnitModel {
    if spec_unit_moves(e) {
        let dest = e.waypoint->Position_0;
        UnitModel { pos: spec_moved_pos(e.pos, dest, spec_step_len(e, dt_ms)), ..e }
    } else {
        e
    }
}

pub open spec fn spec_movement_pass(m: Seq<UnitModel>, dt_ms: u64) -> Seq<UnitModel> {
    m.map_values(|e: UnitModel| spec_moved_unit(e, dt_ms))
}

/// The units that reach their waypoint this tick, in arena order.
pub open spec fn spec_reached_ids(m: Seq<UnitModel>, dt_ms: u64) -> Seq<EntityId>
    decreases m.len(),
{
    if m.len() == 0 {
        Seq::empty()
    } else {
        let r = spec_reached_ids(m.drop_last(), dt_ms);
        let e = m.last();
        if spec_unit_moves(e) && spec_step_reaches(
            e.pos,
            e.waypoint->Position_0,
            spec_step_len(e, dt_ms),
        ) {
            r.push(e.id)
        } else {
            r
        }
    }
}

/// A movement pass keeps the world well formed: a unit only ever moves
/// between its old position and its waypoint, and both are bounded.
pub proof fn lemma_movement_pass_wf(m: Seq<UnitModel>, dt_ms: u64)
    requires
        spec_wf_model(m),
        dt_ms <= DT_LIMIT,
    ensures
        spec_wf_model(spec_movement_pass(m, dt_ms)),
        spec_movement_pass(m, dt_ms).len() == m.len(),
        forall|i: int|
            0 <= i < m.len() ==> (#[trigger] spec_movement_pass(m, dt_ms)[i]).id == m[i].id,
{
    let m2 = spec_movement_pass(m, dt_ms);
    assert forall|i: int| 0 <= i < m.len() implies (#[trigger] m2[i]).id == m[i].id by {}
    assert forall|t: EntityId| #[trigger] spec_id_valid_in(m, t) implies spec_id_valid_in(m2, t) by {
        let w = choose|w: int| 0 <= w < m.len() && (#[trigger] m[w]).id == t;
        assert(m2[w].id == t);
    }
    assert forall|i: int| 0 <= i < m2.len() implies (#[trigger] m2[i]).spec_local_wf() by {
        assert(m[i].spec_local_wf());
        let e = m[i];
        if spec_unit_moves(e) {
            let dest = e.waypoint->Position_0;
            let step = spec_step_len(e, dt_ms);
            assert(step >= 0);
            if !spec_step_reaches(e.pos, dest, step) {
                let dsq = spec_dist_sq(e.pos, dest);
                let dist = spec_sqrt_floor(dsq as nat) as int;
                lemma_sqrt_floor_bounds(dsq as nat);
                assert(dist >= step) by (nonlinear_arith)
                    requires
                        step * step < dsq,
                        (dist + 1) * (dist + 1) > dsq,
                        dist >= 0,
                        step >= 0,
                ;
                assert(dsq >= 1);
                assert(dist >= 1) by (nonlinear_arith)
                    requires
                        (dist + 1) * (dist + 1) > dsq,
                        dsq >= 1,
                        dist >= 0,
                ;
                lemma_move_coord_between(e.pos.x as int, dest.x as int, step, dist);
                lemma_move_coord_between(e.pos.y as int, dest.y as int, step, dist);
            }
        }
    }
    assert forall|i: int| 0 <= i < m2.len() implies crate::world::spec_refs_ok_at(m2, i) by {
        assert(crate::world::spec_refs_ok_at(m, i));
        let e = m[i];
        let e2 = m2[i];
        assert(e2.unit == e.unit && e2.melee_range == e.melee_range && e2.missile_range
            == e.missile_range);
        assert forall|k: int| 0 <= k < e2.melee_range.len() implies spec_id_valid_in(
            m2,
            #[trigger] e2.melee_range[k],
        ) by {
            assert(spec_id_valid_in(m, e.melee_range[k]));
        }
        assert forall|k: int| 0 <= k < e2.missile_range.len() implies spec_id_valid_in(
            m2,
            #[trigger] e2.missile_range[k],
        ) by {
            assert(spec_id_valid_in(m, e.missile_range[k]));
        }
    }
}

/// A partial step lies between the starting coordinate and the
/// destination.
proof fn lemma_move_coord_between(from: int, to: int, step: int, dist: int)
    requires
        1 <= dist,
        0 <= step <= dist,
    ensures
        from <= to ==> from <= spec_move_coord(from, to, step, dist) <= to,
        to <= from ==> to <= spec_move_coord(from, to, step, dist) <= from,
{
    if to >= from {
        let delta = ((to - from) * step) / dist;
        assert(0 <= delta <= to - from) by (nonlinear_arith)
            requires
                1 <= dist,
                0 <= step <= dist,
                to - from >= 0,
                delta == ((to - from) * step) / dist,
        ;
    } else {
        let delta = ((from - to) * step) / dist;
        assert(0 <= delta <= from - to) by (nonlinear_arith)
            requires
                1 <= dist,
                0 <= step <= dist,
                from - to >= 0,
                delta == ((from - to) * step) / dist,
        ;
    }
}

/// Advances every moving unit toward its waypoint by this tick's step and
/// reports which units arrived, in arena order; a no-op while the game is
/// paused.  A unit that can reach its waypoint within the step snaps
/// exactly onto it.
pub fn unit_movement_system(
    world: &mut World,
    game_speed: &crate::game_speed::GameSpeed,
    dt_ms: u64,
) -> (reached: Vec<EntityId>)
    requires
        dt_ms <= DT_LIMIT,
        !game_speed.is_paused ==> old(world).spec_wf(),
    ensures
        game_speed.is_paused ==> final(world)@ == old(world)@ && reached@ == Seq::<
            EntityId,
        >::empty(),
        !game_speed.is_paused ==> final(world)@ == spec_movement_pass(old(world)@, dt_ms),
        !game_speed.is_paused ==> reached@ == spec_reached_ids(old(world)@, dt_ms),
        !game_speed.is_paused ==> final(world).spec_wf(),
{
    let mut reached: Vec<EntityId> = Vec::new();
    if game_speed.is_paused() {
        return reached;
    }
    let ghost m0 = world@;
    let ghost u0 = world.units@;
    let n = world.units.len();
    let mut i: usize = 0;
    while i < n
        invariant
            n == world.units@.len(),
            0 <= i <= n,
            dt_ms <= DT_LIMIT,
            spec_wf_model(m0),
            m0 == u0.map_values(|e: UnitEntry| e@),
            world.units@.len() == u0.len(),
            forall|j: int|
                0 <= j < i ==> (#[trigger] world.units@[j])@ == spec_moved_unit(u0[j]@, dt_ms),
            forall|j: int| i <= j < n ==> #[trigger] world.units@[j] == u0[j],
            reached@ == spec_reached_ids(m0.take(i as int), dt_ms),
        decreases n - i,
    {
        proof {
            assert(m0.take(i + 1 as int).drop_last() =~= m0.take(i as int));
            assert(m0.take(i + 1 as int).last() == m0[i as int]);
            assert(m0[i as int] == u0[i as int]@);
            assert(world.units@[i as int]@ == m0[i as int]);
            assert(m0[i as int].spec_local_wf());
        }
        let moves = {
            let e = &world.units[i];
            let state_moves = match e.unit.state {
                UnitState::Moving => true,
                UnitState::FiringAndMoving(_) => true,
                _ => false,
            };
            let has_command = match e.unit.current_command {
                UnitUserCommand::None_ => false,
                _ => true,
            };
            let has_waypoint = match e.waypoint {
                WaypointComponent::Position(_) => true,
                WaypointComponent::Idle => false,
            };
            state_moves && has_command && has_waypoint
        };
        if moves {
            let dest = match world.units[i].waypoint {
                WaypointComponent::Position(xy) => xy,
                WaypointComponent::Idle => {
                    proof {
                        assert(false);
                    }
                    XyPos { x: 0, y: 0 }
                },
            };
            let speed = world.units[i].unit.current_speed();
            proof {
                assert(speed <= crate::SPEED_LIMIT);
                assert(speed * dt_ms <= crate::SPEED_LIMIT * DT_LIMIT) by (nonlinear_arith)
                    requires
                        speed <= crate::SPEED_LIMIT,
                        dt_ms <= DT_LIMIT,
                ;
            }
            let step = (speed * dt_ms) / 1000;
            let pos = world.units[i].pos;
            let (new_pos, arrived) = move_toward(pos, dest, step);
            world.units[i].pos = new_pos;
            if arrived {
                let id = world.units[i].id;
                reached.push(id);
            }
            proof {
                assert(world.units@[i as int]@ =~~= spec_moved_unit(u0[i as int]@, dt_ms));
            }
        } else {
            proof {
                assert(world.units@[i as int]@ =~~= spec_moved_unit(u0[i as int]@, dt_ms));
            }
        }
        proof {
            assert(reached@ == spec_reached_ids(m0.take(i + 1 as int), dt_ms));
        }
        i = i + 1;
    }
    proof {
        assert(m0.take(n as int) =~= m0);
        assert forall|j: int| 0 <= j < n implies world@[j] == spec_moved_unit(m0[j], dt_ms) by {
            assert(world@[j] == world.units@[j]@);
            assert(m0[j] == u0[j]@);
        }
        assert(world@ =~~= spec_movement_pass(m0, dt_ms));
        lemma_movement_pass_wf(m0, dt_ms);
    }
    reached
}

} // verus!
