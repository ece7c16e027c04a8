//! One whole simulation tick, in the fixed five-phase order.
//!
//! Events are ingested first, then every unit's activity state is
//! recomputed from the pre-tick snapshot, then waypoints are resolved and
//! movement advances, then combat applies all damage for states computed
//! this tick, and last the death propagator scrubs and removes this tick's
//! dead — so exactly one frame of dangling-target cleanup happens before
//! the next tick's decisions.  While the game is paused the whole tick is
//! a no-op.

use vstd::prelude::*;

verus! {

use crate::DT_LIMIT;
use crate::EntityId;
use crate::ROLL_ONE;
use crate::UnitInteractionEvent;
use crate::combat::spec_melee_pass;
use crate::combat::spec_missile_pass;
use crate::game_speed::GameSpeed;
use crate::movement::spec_movement_pass;
use crate::movement::spec_reached_ids;
use crate::units::spec_apply_events;
use crate::units::spec_cleanup;
use crate::units::spec_dead_of;
use crate::units::spec_event_wf;
use crate::units::spec_firing_have_ammo;
use crate::units::spec_state_machine_pass;
use crate::units::spec_waypoint_pass;
use crate::world::UnitModel;
use crate::world::World;

/// The world models a tick steps through, phase by phase, for given
/// events, step and rolls.
pub open spec fn spec_tick_after_events(
    m: Seq<UnitModel>,
    events: Seq<UnitInteractionEvent>,
) -> Seq<UnitModel> {
    spec_cleanup(spec_apply_events(m, events), spec_dead_of(events))
}

pub open spec fn spec_tick_after_movement(
    m: Seq<UnitModel>,
    events: Seq<UnitInteractionEvent>,
    dt_ms: u64,
) -> Seq<UnitModel> {
    spec_movement_pass(
        spec_waypoint_pass(spec_state_machine_pass(spec_tick_after_events(m, events))),
        dt_ms,
    )
}

/// The arrival notices a tick emits: the units that reached their
/// waypoint, in arena order.
pub open spec fn spec_tick_reached(
    m: Seq<UnitModel>,
    events: Seq<UnitInteractionEvent>,
    dt_ms: u64,
) -> Seq<EntityId> {
    spec_reached_ids(spec_waypoint_pass(spec_state_machine_pass(spec_tick_after_events(m, events))), dt_ms)
}

/// The whole tick for fixed rolls.
pub open spec fn spec_tick_result(
    m: Seq<UnitModel>,
    events: Seq<UnitInteractionEvent>,
    dt_ms: u64,
    melee_rolls: Seq<(u64, u64, u64)>,
    missile_rolls: Seq<u64>,
) -> Seq<UnitModel> {
    let m4 = spec_tick_after_movement(m, events, dt_ms);
    let melee = spec_melee_pass(m4, melee_rolls, m4.len());
    let missile = spec_missile_pass(melee.0, missile_rolls, melee.0.len());
    spec_cleanup(missile.0, melee.1 + missile.1)
}

/// The arrival notices wrapped as events for the next tick's ingestion.
pub open spec fn spec_waypoint_events(ids: Seq<EntityId>) -> Seq<UnitInteractionEvent> {
    ids.map_values(|id: EntityId| UnitInteractionEvent::UnitWaypointReached(id))
}

/// Runs one tick with the given combat rolls: melee fighter `i` uses
/// `melee_rolls[i]`, firing unit `i` uses `missile_rolls[i]`.  Returns the
/// arrival notices to feed into the next tick's events.
pub fn run_tick_with_rolls(
    world: &mut World,
    game_speed: &GameSpeed,
    events: &Vec<UnitInteractionEvent>,
    dt_ms: u64,
    melee_rolls: &Vec<(u64, u64, u64)>,
    missile_rolls: &Vec<u64>,
) -> (out: Vec<UnitInteractionEvent>)
    requires
        dt_ms <= DT_LIMIT,
        !game_speed.is_paused ==> old(world).spec_wf(),
        !game_speed.is_paused ==> forall|k: int|
            0 <= k < events@.len() ==> spec_event_wf(old(world)@, #[trigger] events@[k]),
        !game_speed.is_paused ==> melee_rolls@.len() >= old(world)@.len(),
        !game_speed.is_paused ==> forall|k: int|
            0 <= k < melee_rolls@.len() ==> (#[trigger] melee_rolls@[k]).0 <= ROLL_ONE
                && melee_rolls@[k].1 <= ROLL_ONE && melee_rolls@[k].2 <= ROLL_ONE,
        !game_speed.is_paused ==> missile_rolls@.len() >= old(world)@.len(),
        !game_speed.is_paused ==> forall|k: int|
            0 <= k < missile_rolls@.len() ==> #[trigger] missile_rolls@[k] <= ROLL_ONE,
    ensures
        game_speed.is_paused ==> final(world)@ == old(world)@ && out@ == Seq::<
            UnitInteractionEvent,
        >::empty(),
        !game_speed.is_paused ==> final(world)@ == spec_tick_result(
            old(world)@,
            events@,
            dt_ms,
            melee_rolls@,
            missile_rolls@,
        ),
        !game_speed.is_paused ==> out@ == spec_waypoint_events(
            spec_tick_reached(old(world)@, events@, dt_ms),
        ),
        !game_speed.is_paused ==> final(world).spec_wf(),
{
    let mut out: Vec<UnitInteractionEvent> = Vec::new();
    if game_speed.is_paused() {
        return out;
    }
    let ghost m0 = world@;

    // Phase 1: ingest proximity, command and death events.
    crate::units::unit_event_system(world, game_speed, events);
    proof {
        crate::units::lemma_apply_events_wf(m0, events@);
        crate::units::lemma_despawn_len(
            crate::units::spec_purge_nearby(
                crate::units::spec_clear_dead_refs(
                    spec_apply_events(m0, events@),
                    spec_dead_of(events@),
                ),
                spec_dead_of(events@),
            ),
            spec_dead_of(events@),
        );
        assert(world@.len() <= m0.len());
    }
    let ghost m1 = world@;

    // Phase 2: recompute every unit's activity state.
    crate::units::unit_state_machine_system(world, game_speed);
    let ghost m2 = world@;

    // Phase 3: resolve waypoints, then advance movement.
    crate::units::unit_waypoint_system(world, game_speed);
    let ghost m3 = world@;
    proof {
        assert(spec_firing_have_ammo(m3)) by {
            assert forall|i: int|
                0 <= i < m3.len() implies (match (#[trigger] m3[i]).unit.state {
                crate::UnitState::Firing(_) => m3[i].missile.spec_is_missile_attack_available(),
                crate::UnitState::FiringAndMoving(_) => m3[i].missile.spec_is_missile_attack_available(),
                _ => true,
            }) by {
                assert(m3[i].unit == m2[i].unit && m3[i].missile == m2[i].missile);
            }
        }
    }
    let reached = crate::movement::unit_movement_system(world, game_speed, dt_ms);
    let ghost m4 = world@;
    proof {
        assert(spec_firing_have_ammo(m4)) by {
            assert forall|i: int|
                0 <= i < m4.len() implies (match (#[trigger] m4[i]).unit.state {
                crate::UnitState::Firing(_) => m4[i].missile.spec_is_missile_attack_available(),
                crate::UnitState::FiringAndMoving(_) => m4[i].missile.spec_is_missile_attack_available(),
                _ => true,
            }) by {
                assert(m4[i].unit == m3[i].unit && m4[i].missile == m3[i].missile);
            }
        }
    }

    // Phase 4: melee first, then missile fire, on the states computed this
    // tick.
    let died_melee = crate::combat::unit_melee_system_with_rolls(world, game_speed, melee_rolls);
    let ghost m5 = world@;
    proof {
        crate::combat::lemma_melee_pass_shape(m4, melee_rolls@, m4.len());
        assert(spec_firing_have_ammo(m5)) by {
            assert forall|i: int|
                0 <= i < m5.len() implies (match (#[trigger] m5[i]).unit.state {
                crate::UnitState::Firing(_) => m5[i].missile.spec_is_missile_attack_available(),
                crate::UnitState::FiringAndMoving(_) => m5[i].missile.spec_is_missile_attack_available(),
                _ => true,
            }) by {
                assert(m5[i] == (UnitModel { health: m5[i].health, ..m4[i] }));
            }
        }
    }
    let mut died = died_melee;
    let died_missile = crate::combat::unit_missile_system_with_rolls(
        world,
        game_speed,
        missile_rolls,
    );
    let ghost dm = died@;
    let n2 = died_missile.len();
    let mut k: usize = 0;
    while k < n2
        invariant
            n2 == died_missile@.len(),
            0 <= k <= n2,
            died@ == dm + died_missile@.take(k as int),
        decreases n2 - k,
    {
        proof {
            assert(died_missile@.take(k + 1 as int).drop_last() =~= died_missile@.take(k as int));
            assert(died_missile@.take(k + 1 as int).last() == died_missile@[k as int]);
            assert((dm + died_missile@.take(k as int)).push(died_missile@[k as int]) =~= dm
                + died_missile@.take(k + 1 as int));
        }
        let d = died_missile[k];
        died.push(d);
        k = k + 1;
    }
    proof {
        assert(died_missile@.take(n2 as int) =~= died_missile@);
        assert(died@ == dm + died_missile@);
    }

    // Phase 5: the death propagator scrubs and removes this tick's dead.
    let ghost m6 = world@;
    crate::units::death_propagator(world, &died);
    proof {
        crate::units::lemma_cleanup_wf(m6, died@);
    }

    // Hand the arrival notices back as events for the next tick.
    let n3 = reached.len();
    let mut j: usize = 0;
    while j < n3
        invariant
            n3 == reached@.len(),
            0 <= j <= n3,
            out@ == spec_waypoint_events(reached@.take(j as int)),
        decreases n3 - j,
    {
        let id = reached[j];
        out.push(UnitInteractionEvent::UnitWaypointReached(id));
        proof {
            assert(out@ =~= spec_waypoint_events(reached@.take(j + 1 as int)));
        }
        j = j + 1;
    }
    proof {
        assert(reached@.take(n3 as int) =~= reached@);
    }
    out
}

/// Runs one tick, drawing the combat rolls.  Whatever the draws, the tick
/// is `spec_tick_result` for some roll sequences inside the unit interval,
/// the arrival notices are exactly the units that reached their waypoint,
/// and the world stays well formed.
pub fn run_tick(
    world: &mut World,
    game_speed: &GameSpeed,
    events: &Vec<UnitInteractionEvent>,
    dt_ms: u64,
) -> (out: Vec<UnitInteractionEvent>)
    requires
        dt_ms <= DT_LIMIT,
        !game_speed.is_paused ==> old(world).spec_wf(),
        !game_speed.is_paused ==> forall|k: int|
            0 <= k < events@.len() ==> spec_event_wf(old(world)@, #[trigger] events@[k]),
    ensures
        game_speed.is_paused ==> final(world)@ == old(world)@ && out@ == Seq::<
            UnitInteractionEvent,
        >::empty(),
        !game_speed.is_paused ==> exists|mr: Seq<(u64, u64, u64)>, sr: Seq<u64>|
            {
                &&& mr.len() == old(world)@.len()
                &&& sr.len() == old(world)@.len()
                &&& (forall|k: int|
                    0 <= k < mr.len() ==> (#[trigger] mr[k]).0 < ROLL_ONE && mr[k].1 < ROLL_ONE
                        && mr[k].2 < ROLL_ONE)
                &&& (forall|k: int| 0 <= k < sr.len() ==> #[trigger] sr[k] < ROLL_ONE)
                &&& final(world)@ == spec_tick_result(old(world)@, events@, dt_ms, mr, sr)
            },
        !game_speed.is_paused ==> out@ == spec_waypoint_events(
            spec_tick_reached(old(world)@, events@, dt_ms),
        ),
        !game_speed.is_paused ==> final(world).spec_wf(),
{
    let mut out: Vec<UnitInteractionEvent> = Vec::new();
    if game_speed.is_paused() {
        return out;
    }
    let n = world.units.len();
    let mut melee_rolls: Vec<(u64, u64, u64)> = Vec::new();
    let mut missile_rolls: Vec<u64> = Vec::new();
    let mut i: usize = 0;
    while i < n
        invariant
            0 <= i <= n,
            melee_rolls@.len() == i,
            missile_rolls@.len() == i,
            forall|k: int|
                0 <= k < melee_rolls@.len() ==> (#[trigger] melee_rolls@[k]).0 < ROLL_ONE
                    && melee_rolls@[k].1 < ROLL_ONE && melee_rolls@[k].2 < ROLL_ONE,
            forall|k: int| 0 <= k < missile_rolls@.len() ==> #[trigger] missile_rolls@[k] < ROLL_ONE,
        decreases n - i,
    {
        let r0 = crate::combat::draw_roll();
        let r1 = crate::combat::draw_roll();
        let r2 = crate::combat::draw_roll();
        let r3 = crate::combat::draw_roll();
        melee_rolls.push((r0, r1, r2));
        missile_rolls.push(r3);
        i = i + 1;
    }
    run_tick_with_rolls(world, game_speed, events, dt_ms, &melee_rolls, &missile_rolls)
}


/// Ammunition never rises: across a whole tick, every unit that survives
/// keeps or loses ammunition, never gains any — there is no reload.
pub proof fn lemma_tick_ammo_monotone(
    m: Seq<UnitModel>,
    events: Seq<UnitInteractionEvent>,
    dt_ms: u64,
    melee_rolls: Seq<(u64, u64, u64)>,
    missile_rolls: Seq<u64>,
)
    requires
        crate::world::spec_wf_model(m),
        dt_ms <= DT_LIMIT,
        forall|k: int| 0 <= k < events.len() ==> spec_event_wf(m, #[trigger] events[k]),
    ensures
        forall|id: EntityId|
            #[trigger] crate::world::spec_id_valid_in(
                spec_tick_result(m, events, dt_ms, melee_rolls, missile_rolls),
                id,
            ) ==> crate::world::spec_id_valid_in(m, id) && crate::world::spec_ammo_of(
                spec_tick_result(m, events, dt_ms, melee_rolls, missile_rolls),
                id,
            ) <= crate::world::spec_ammo_of(m, id),
{
    let a = spec_apply_events(m, events);
    let dead = spec_dead_of(events);
    let m1 = spec_cleanup(a, dead);
    let m2 = spec_state_machine_pass(m1);
    let m3 = spec_waypoint_pass(m2);
    let m4 = spec_movement_pass(m3, dt_ms);
    let melee = spec_melee_pass(m4, melee_rolls, m4.len());
    let m5 = melee.0;
    let missile = spec_missile_pass(m5, missile_rolls, m5.len());
    let m6 = missile.0;
    let deaths = melee.1 + missile.1;
    let m7 = spec_cleanup(m6, deaths);

    crate::units::lemma_apply_events_wf(m, events);
    crate::units::lemma_cleanup_wf(a, dead);
    crate::units::lemma_cleanup_preserves_survivors(a, dead);
    crate::units::lemma_state_machine_pass_wf(m1);
    crate::units::lemma_waypoint_pass_wf(m2);
    crate::movement::lemma_movement_pass_wf(m3, dt_ms);
    crate::combat::lemma_melee_pass_shape(m4, melee_rolls, m4.len());
    crate::combat::lemma_melee_pass_wf(m4, melee_rolls, m4.len());
    // The unit and weapon components ride through the decision, waypoint,
    // movement and melee passes untouched.
    assert forall|i: int| 0 <= i < m1.len() implies (#[trigger] m5[i]).missile == m1[i].missile
        && m5[i].id == m1[i].id && m5[i].unit.state == m2[i].unit.state by {
        assert(m5[i] == (UnitModel { health: m5[i].health, ..m4[i] }));
    }
    assert(spec_firing_have_ammo(m5)) by {
        assert forall|i: int|
            0 <= i < m5.len() implies (match (#[trigger] m5[i]).unit.state {
            crate::UnitState::Firing(_) => m5[i].missile.spec_is_missile_attack_available(),
            crate::UnitState::FiringAndMoving(_) => m5[i].missile.spec_is_missile_attack_available(),
            _ => true,
        }) by {
            assert(m5[i] == (UnitModel { health: m5[i].health, ..m4[i] }));
            assert(m4[i].unit == m2[i].unit && m4[i].missile == m2[i].missile);
        }
    }
    crate::combat::lemma_missile_pass_shape(m5, missile_rolls, m5.len());
    crate::combat::lemma_missile_pass_wf(m5, missile_rolls, m5.len());
    crate::combat::lemma_missile_pass_ammo(m5, missile_rolls, m5.len());
    crate::units::lemma_cleanup_wf(m6, deaths);
    crate::units::lemma_cleanup_preserves_survivors(m6, deaths);

    assert forall|id: EntityId| #[trigger] crate::world::spec_id_valid_in(m7, id) implies
        crate::world::spec_id_valid_in(m, id) && crate::world::spec_ammo_of(m7, id)
            <= crate::world::spec_ammo_of(m, id) by {
        // The survivor's entry in the post-combat world.
        let j = choose|j: int| 0 <= j < m7.len() && (#[trigger] m7[j]).id == id;
        crate::world::lemma_index_of_id(m7, id, j);
        let w = choose|w: int|
            0 <= w < m6.len() && m7[j].id == m6[w].id && m7[j].missile == m6[w].missile;
        crate::world::lemma_index_of_id(m6, id, w);
        // Combat only ever spends ammunition.
        assert(m6[w].missile.spec_ammo_count() <= m5[w].missile.spec_ammo_count());
        assert(m5[w].missile == m1[w].missile);
        // The survivor entered the tick from the pre-tick world.
        assert(m1[w].id == id);
        let i = choose|i: int|
            0 <= i < a.len() && m1[w].id == a[i].id && m1[w].missile == a[i].missile;
        assert(a[i].id == m[i].id && a[i].missile == m[i].missile);
        assert(m[i].id == id);
        crate::world::lemma_index_of_id(m, id, i);
        assert(crate::world::spec_id_valid_in(m, id));
        assert(crate::world::spec_ammo_of(m7, id) == m7[j].missile.spec_ammo_count());
        assert(crate::world::spec_ammo_of(m, id) == m[i].missile.spec_ammo_count());
    }
}

/// The round trip from a move order to rest: a move order given to an
/// idle, isolated unit — no enemy in any range — puts it in the moving
/// state with its waypoint at exactly the ordered point; once one step
/// reaches the point the unit snaps onto it and its arrival is reported
/// exactly once; the arrival notice clears the order, and the next
/// decision leaves the unit idle.
pub proof fn lemma_move_order_round_trip(
    e: UnitModel,
    p: crate::XyPos,
    speed: crate::UnitUiSpeedCommand,
    dt_ms: u64,
)
    requires
        e.melee_range.len() == 0,
        e.missile_range.len() == 0,
    ensures
        ({
            let u1 = crate::units::spec_apply_ui(
                seq![e],
                e.id,
                crate::UnitUiCommand::Move(p, speed),
            );
            let u2 = spec_state_machine_pass(u1);
            let u3 = spec_waypoint_pass(u2);
            let step = crate::movement::spec_step_len(u3[0], dt_ms);
            &&& u1[0].unit.current_command == crate::UnitUserCommand::Move(p)
            &&& u2[0].unit.state == crate::UnitState::Moving
            &&& u3[0].waypoint == crate::WaypointComponent::Position(p)
            &&& (crate::movement::spec_step_reaches(e.pos, p, step) ==> {
                let u4 = spec_movement_pass(u3, dt_ms);
                let u5 = crate::units::spec_apply_waypoint_reached(u4, e.id);
                &&& u4[0].pos == p
                &&& spec_reached_ids(u3, dt_ms) == seq![e.id]
                &&& u5[0].unit.current_command == crate::UnitUserCommand::None_
                &&& crate::units::spec_decide(u5[0]) == crate::UnitState::Idle
            })
        }),
{
    let u0 = seq![e];
    let u1 = crate::units::spec_apply_ui(u0, e.id, crate::UnitUiCommand::Move(p, speed));
    assert(u1[0] == (UnitModel {
        unit: crate::units::spec_apply_command(e.unit, crate::UnitUiCommand::Move(p, speed)),
        ..e
    }));
    let u2 = spec_state_machine_pass(u1);
    assert(u2[0] == crate::units::spec_with_decided_state(u1[0]));
    assert(crate::units::spec_pick_target(e.melee_range) is None);
    assert(crate::units::spec_pick_target(e.missile_range) is None);
    assert(u2[0].unit.state == crate::UnitState::Moving);
    let u3 = spec_waypoint_pass(u2);
    assert(u3[0] == (UnitModel { waypoint: crate::units::spec_waypoint_for(u2, u2[0]), ..u2[0] }));
    assert(u3[0].waypoint == crate::WaypointComponent::Position(p));
    let step = crate::movement::spec_step_len(u3[0], dt_ms);
    if crate::movement::spec_step_reaches(e.pos, p, step) {
        let u4 = spec_movement_pass(u3, dt_ms);
        assert(crate::movement::spec_unit_moves(u3[0]));
        assert(u3[0].pos == e.pos);
        assert(u4[0] == crate::movement::spec_moved_unit(u3[0], dt_ms));
        assert(u4[0].pos == p);
        assert(spec_reached_ids(u3, dt_ms) =~= seq![e.id]) by {
            assert(u3.drop_last() =~= Seq::<UnitModel>::empty());
            assert(u3.last() == u3[0]);
            assert(spec_reached_ids(u3.drop_last(), dt_ms) =~= Seq::<EntityId>::empty());
        }
        let u5 = crate::units::spec_apply_waypoint_reached(u4, e.id);
        assert(u4[0].id == e.id);
        assert(u4[0].unit.current_command is Move);
        assert(u5[0].unit.current_command == crate::UnitUserCommand::None_);
        assert(u5[0].unit.state == crate::UnitState::Moving);
        assert(u5[0].melee_range.len() == 0 && u5[0].missile_range.len() == 0);
        assert(u5[0].unit.state.spec_actively_fighting() is None);
        assert(crate::units::spec_decide(u5[0]) == crate::UnitState::Idle);
    }
}

} // verus!
