//! The unit decision engine and the per-tick unit systems.
//!
//! The centre is `calculate_next_unit_state_and_target`: a pure function
//! from a unit's standing order, proximity sets, toggles, ammunition
//! availability and previously engaged opponent to its activity state this
//! tick.  It is re-evaluated from scratch every tick; the previously engaged
//! opponent is the only carried history, kept to stop units flickering
//! between targets.

use vstd::prelude::*;

verus! {

use crate::AttackType;
use crate::EntityId;
use crate::POS_LIMIT;
use crate::UnitInteractionEvent;
use crate::physics::ContactType;
use crate::UnitComponent;
use crate::UnitState;
use crate::UnitUiCommand;
use crate::UnitUiSpeedCommand;
use crate::UnitUserCommand;
use crate::physics::EnterOrExit;
use crate::world::UnitEntry;
use crate::world::UnitModel;
use crate::world::World;
use crate::world::spec_id_valid_in;
use crate::world::spec_ids_unique_in;
use crate::world::spec_wf_model;

/// The enemies currently inside this unit's melee reach and missile range.
/// Both lists are event-sourced from proximity reports and never hold
/// duplicates or dead units after a tick's cleanup.
#[derive(Debug)]
pub struct NearbyUnitsComponent {
    pub melee_range: Vec<EntityId>,
    pub missile_range: Vec<EntityId>,
}

impl Default for NearbyUnitsComponent {
    fn default() -> (r: NearbyUnitsComponent)
        ensures
            r.melee_range@ =~= Seq::<EntityId>::empty(),
            r.missile_range@ =~= Seq::<EntityId>::empty(),
    {
        NearbyUnitsComponent { melee_range: Vec::new(), missile_range: Vec::new() }
    }
}

/// Target-selection policy: the first entry of the list, or nothing.  A
/// deliberately simple, stable tie-break that depends only on the order in
/// which enemies entered range.
pub open spec fn spec_pick_target(available_targets: Seq<EntityId>) -> Option<EntityId> {
    if available_targets.len() == 0 {
        None
    } else {
        Some(available_targets[0])
    }
}

/// Returns `None` if no targets are available.
pub fn pick_missile_target(available_targets: &Vec<EntityId>) -> (r: Option<EntityId>)
    ensures
        r == spec_pick_target(available_targets@),
{
    if available_targets.len() == 0 {
        None
    } else {
        Some(available_targets[0])
    }
}

/// Returns `None` if no targets are available.
pub fn pick_melee_target(available_targets: &Vec<EntityId>) -> (r: Option<EntityId>)
    ensures
        r == spec_pick_target(available_targets@),
{
    if available_targets.len() == 0 {
        None
    } else {
        Some(available_targets[0])
    }
}

/// The target named by an attack order, if the order names one.
pub open spec fn spec_command_target(cmd: UnitUserCommand) -> Option<EntityId> {
    match cmd {
        UnitUserCommand::AttackMelee(t) => Some(t),
        UnitUserCommand::AttackMissile(t) => Some(t),
        _ => None,
    }
}

/// The transition table of the decision engine.
///
/// Priorities, per order:
/// - An attack-in-melee order engages its own target whenever that target
///   is in reach, else keeps the opponent already being fought, else picks
///   any enemy in reach; with no melee contact at all the unit chases its
///   target, unless guard mode holds it in place, idle.
/// - Any enemy inside melee reach pre-empts a missile order or a move
///   order: melee always overrides ranged combat.
/// - A missile order with no ammunition leaves the unit idle.  With its
///   target in range the unit fires at it; with the target out of range a
///   guarding unit fires at an opportunistic target when firing at will,
///   else stands idle, and a chasing unit advances, firing on the move when
///   it can fire while moving, is firing at will and has such a target.
/// - A move order advances, firing on the move for units that can.
/// - With no order, a unit fires at will at an opportunistic target if it
///   has ammunition, else stands idle.
pub open spec fn spec_next_unit_state(
    current_command: UnitUserCommand,
    enemies_within_melee_range: Seq<EntityId>,
    enemies_within_missile_range: Seq<EntityId>,
    guard_mode_enabled: bool,
    fire_at_will_enabled: bool,
    missile_attack_available: bool,
    can_fire_while_moving: bool,
    currently_fighting: Option<EntityId>,
) -> UnitState {
    match current_command {
        UnitUserCommand::AttackMelee(cmd_target) => {
            if enemies_within_melee_range.contains(cmd_target) {
                UnitState::Melee(Some(cmd_target))
            } else if currently_fighting is Some {
                UnitState::Melee(currently_fighting)
            } else if spec_pick_target(enemies_within_melee_range) is Some {
                UnitState::Melee(spec_pick_target(enemies_within_melee_range))
            } else if guard_mode_enabled {
                UnitState::Idle
            } else {
                UnitState::Moving
            }
        },
        UnitUserCommand::AttackMissile(cmd_target) => {
            if spec_pick_target(enemies_within_melee_range) is Some {
                UnitState::Melee(spec_pick_target(enemies_within_melee_range))
            } else if !missile_attack_available {
                UnitState::Idle
            } else if enemies_within_missile_range.contains(cmd_target) {
                UnitState::Firing(Some(cmd_target))
            } else if guard_mode_enabled {
                if fire_at_will_enabled && spec_pick_target(enemies_within_missile_range) is Some {
                    UnitState::Firing(spec_pick_target(enemies_within_missile_range))
                } else {
                    UnitState::Idle
                }
            } else {
                if can_fire_while_moving && fire_at_will_enabled && spec_pick_target(
                    enemies_within_missile_range,
                ) is Some {
                    UnitState::FiringAndMoving(spec_pick_target(enemies_within_missile_range))
                } else {
                    UnitState::Moving
                }
            }
        },
        UnitUserCommand::Move(_) => {
            if spec_pick_target(enemies_within_melee_range) is Some {
                UnitState::Melee(spec_pick_target(enemies_within_melee_range))
            } else if can_fire_while_moving && missile_attack_available && spec_pick_target(
                enemies_within_missile_range,
            ) is Some {
                UnitState::FiringAndMoving(spec_pick_target(enemies_within_missile_range))
            } else {
                UnitState::Moving
            }
        },
        UnitUserCommand::None_ => {
            if spec_pick_target(enemies_within_melee_range) is Some {
                UnitState::Melee(spec_pick_target(enemies_within_melee_range))
            } else if missile_attack_available && fire_at_will_enabled && spec_pick_target(
                enemies_within_missile_range,
            ) is Some {
                UnitState::Firing(spec_pick_target(enemies_within_missile_range))
            } else {
                UnitState::Idle
            }
        },
    }
}

/// Computes the unit's activity state for this tick; see
/// `spec_next_unit_state` for the full transition table.
pub fn calculate_next_unit_state_and_target(
    current_command: &UnitUserCommand,
    enemies_within_melee_range: &Vec<EntityId>,
    enemies_within_missile_range: &Vec<EntityId>,
    guard_mode_enabled: bool,
    fire_at_will_enabled: bool,
    missile_attack_available: bool,
    can_fire_while_moving: bool,
    currently_fighting: Option<EntityId>,
) -> (r: UnitState)
    ensures
        r == spec_next_unit_state(
            *current_command,
            enemies_within_melee_range@,
            enemies_within_missile_range@,
            guard_mode_enabled,
            fire_at_will_enabled,
            missile_attack_available,
            can_fire_while_moving,
            currently_fighting,
        ),
{
    match current_command {
        UnitUserCommand::AttackMelee(cmd_target) => {
            if crate::world::vec_contains_id(enemies_within_melee_range, *cmd_target) {
                UnitState::Melee(Some(*cmd_target))
            } else if currently_fighting.is_some() {
                UnitState::Melee(currently_fighting)
            } else if let Some(next_target) = pick_melee_target(enemies_within_melee_range) {
                UnitState::Melee(Some(next_target))
            } else {
                if guard_mode_enabled {
                    UnitState::Idle
                } else {
                    UnitState::Moving
                }
            }
        }
        UnitUserCommand::AttackMissile(cmd_target) => {
            if let Some(next_melee) = pick_melee_target(enemies_within_melee_range) {
                UnitState::Melee(Some(next_melee))
            } else if !missile_attack_available {
                UnitState::Idle
            } else if crate::world::vec_contains_id(enemies_within_missile_range, *cmd_target) {
                UnitState::Firing(Some(*cmd_target))
            } else {
                if guard_mode_enabled {
                    let next_target = pick_missile_target(enemies_within_missile_range);
                    if fire_at_will_enabled && next_target.is_some() {
                        UnitState::Firing(next_target)
                    } else {
                        UnitState::Idle
                    }
                } else {
                    let next_target = pick_missile_target(enemies_within_missile_range);
                    if can_fire_while_moving && fire_at_will_enabled && next_target.is_some() {
                        UnitState::FiringAndMoving(next_target)
                    } else {
                        UnitState::Moving
                    }
                }
            }
        }
        UnitUserCommand::Move(_) => {
            let melee_target = pick_melee_target(enemies_within_melee_range);
            let missile_target = pick_missile_target(enemies_within_missile_range);
            if melee_target.is_some() {
                UnitState::Melee(melee_target)
            } else if can_fire_while_moving && missile_attack_available && missile_target.is_some() {
                UnitState::FiringAndMoving(missile_target)
            } else {
                UnitState::Moving
            }
        }
        UnitUserCommand::None_ => {
            let next_melee = pick_melee_target(enemies_within_melee_range);
            if next_melee.is_some() {
                UnitState::Melee(next_melee)
            } else {
                let next_missile = pick_missile_target(enemies_within_missile_range);
                if missile_attack_available && fire_at_will_enabled && next_missile.is_some() {
                    UnitState::Firing(next_missile)
                } else {
                    UnitState::Idle
                }
            }
        }
    }
}

/// Melee pre-emption: whatever the standing order and toggles, a unit with
/// at least one enemy inside melee reach always resolves to fighting hand
/// to hand with a live target — never to firing, moving or standing idle.
pub proof fn lemma_melee_preemption(
    current_command: UnitUserCommand,
    enemies_within_melee_range: Seq<EntityId>,
    enemies_within_missile_range: Seq<EntityId>,
    guard_mode_enabled: bool,
    fire_at_will_enabled: bool,
    missile_attack_available: bool,
    can_fire_while_moving: bool,
    currently_fighting: Option<EntityId>,
)
    requires
        enemies_within_melee_range.len() > 0,
    ensures
        spec_next_unit_state(
            current_command,
            enemies_within_melee_range,
            enemies_within_missile_range,
            guard_mode_enabled,
            fire_at_will_enabled,
            missile_attack_available,
            can_fire_while_moving,
            currently_fighting,
        ) matches UnitState::Melee(t) && t is Some,
{
}

/// Target persistence: a unit ordered to melee a target it cannot reach
/// keeps fighting the opponent it was already engaged with, rather than
/// snapping to the front of the proximity list.
pub proof fn lemma_target_persistence(
    cmd_target: EntityId,
    enemies_within_melee_range: Seq<EntityId>,
    enemies_within_missile_range: Seq<EntityId>,
    guard_mode_enabled: bool,
    fire_at_will_enabled: bool,
    missile_attack_available: bool,
    can_fire_while_moving: bool,
    engaged: EntityId,
)
    requires
        !enemies_within_melee_range.contains(cmd_target),
    ensures
        spec_next_unit_state(
            UnitUserCommand::AttackMelee(cmd_target),
            enemies_within_melee_range,
            enemies_within_missile_range,
            guard_mode_enabled,
            fire_at_will_enabled,
            missile_attack_available,
            can_fire_while_moving,
            Some(engaged),
        ) == UnitState::Melee(Some(engaged)),
{
}

/// A firing state is only ever entered while a missile attack is available:
/// the decision engine never commits a unit to fire with an empty weapon.
pub proof fn lemma_firing_needs_ammo(
    current_command: UnitUserCommand,
    enemies_within_melee_range: Seq<EntityId>,
    enemies_within_missile_range: Seq<EntityId>,
    guard_mode_enabled: bool,
    fire_at_will_enabled: bool,
    missile_attack_available: bool,
    can_fire_while_moving: bool,
    currently_fighting: Option<EntityId>,
)
    ensures
        (match spec_next_unit_state(
            current_command,
            enemies_within_melee_range,
            enemies_within_missile_range,
            guard_mode_enabled,
            fire_at_will_enabled,
            missile_attack_available,
            can_fire_while_moving,
            currently_fighting,
        ) {
            UnitState::Firing(_) => missile_attack_available,
            UnitState::FiringAndMoving(_) => missile_attack_available,
            _ => true,
        }),
{
}

/// Every target the next state fights comes from the melee list, the
/// missile list, the opponent already engaged or the order's own target.
pub proof fn lemma_next_state_target_source(
    current_command: UnitUserCommand,
    enemies_within_melee_range: Seq<EntityId>,
    enemies_within_missile_range: Seq<EntityId>,
    guard_mode_enabled: bool,
    fire_at_will_enabled: bool,
    missile_attack_available: bool,
    can_fire_while_moving: bool,
    currently_fighting: Option<EntityId>,
)
    ensures
        (match spec_next_unit_state(
            current_command,
            enemies_within_melee_range,
            enemies_within_missile_range,
            guard_mode_enabled,
            fire_at_will_enabled,
            missile_attack_available,
            can_fire_while_moving,
            currently_fighting,
        ).spec_actively_fighting() {
            Some(t) => enemies_within_melee_range.contains(t) || enemies_within_missile_range.contains(
                t,
            ) || currently_fighting == Some(t) || spec_command_target(current_command) == Some(t),
            None => true,
        }),
{
    let melee = enemies_within_melee_range;
    let missile = enemies_within_missile_range;
    if melee.len() > 0 {
        assert(melee.contains(melee[0]));
    }
    if missile.len() > 0 {
        assert(missile.contains(missile[0]));
    }
}


// ---------------------------------------------------------------------------
// Command interpreter and proximity tracker
// ---------------------------------------------------------------------------

/// The command interpreter: how one user action changes a unit's standing
/// order and toggles.  An attack action resolves to a melee or a missile
/// order according to the unit's primary attack type.
pub open spec fn spec_apply_command(unit: UnitComponent, cmd: UnitUiCommand) -> UnitComponent {
    match cmd {
        UnitUiCommand::Attack(target, speed) => UnitComponent {
            is_running: speed == UnitUiSpeedCommand::Run,
            current_command: if unit.spec_primary_attack_type() == AttackType::Melee {
                UnitUserCommand::AttackMelee(target)
            } else {
                UnitUserCommand::AttackMissile(target)
            },
            ..unit
        },
        UnitUiCommand::Move(pos, speed) => UnitComponent {
            current_command: UnitUserCommand::Move(pos),
            is_running: speed == UnitUiSpeedCommand::Run,
            ..unit
        },
        UnitUiCommand::Stop => UnitComponent { current_command: UnitUserCommand::None_, ..unit },
        UnitUiCommand::ToggleGuardMode => UnitComponent {
            guard_mode_enabled: !unit.guard_mode_enabled,
            ..unit
        },
        UnitUiCommand::ToggleFireAtWill => UnitComponent { fire_at_will: !unit.fire_at_will, ..unit },
        UnitUiCommand::ToggleSpeed => UnitComponent { is_running: !unit.is_running, ..unit },
    }
}

/// `e` with `other` recorded inside the given range, absent duplicates.
pub open spec fn spec_with_contact_added(e: UnitModel, other: EntityId, range_type: AttackType) -> UnitModel {
    match range_type {
        AttackType::Melee => UnitModel {
            melee_range: if e.melee_range.contains(other) {
                e.melee_range
            } else {
                e.melee_range.push(other)
            },
            ..e
        },
        AttackType::Ranged => UnitModel {
            missile_range: if e.missile_range.contains(other) {
                e.missile_range
            } else {
                e.missile_range.push(other)
            },
            ..e
        },
    }
}

/// `e` with every occurrence of `other` removed from the given range.
pub open spec fn spec_with_contact_removed(e: UnitModel, other: EntityId, range_type: AttackType) -> UnitModel {
    match range_type {
        AttackType::Melee => UnitModel {
            melee_range: crate::world::spec_remove_id(e.melee_range, other),
            ..e
        },
        AttackType::Ranged => UnitModel {
            missile_range: crate::world::spec_remove_id(e.missile_range, other),
            ..e
        },
    }
}

/// Applies `f` to the unit carrying `id` and leaves every other unit alone.
pub open spec fn spec_map_unit(
    m: Seq<UnitModel>,
    id: EntityId,
    f: spec_fn(UnitModel) -> UnitModel,
) -> Seq<UnitModel> {
    m.map_values(|e: UnitModel| if e.id == id { f(e) } else { e })
}

/// One proximity report applied to the subject's lists.
pub open spec fn spec_apply_proximity(
    m: Seq<UnitModel>,
    subject: EntityId,
    other: EntityId,
    e_or_e: EnterOrExit,
    range_type: AttackType,
) -> Seq<UnitModel> {
    spec_map_unit(
        m,
        subject,
        |e: UnitModel|
            if e_or_e == EnterOrExit::Enter {
                spec_with_contact_added(e, other, range_type)
            } else {
                spec_with_contact_removed(e, other, range_type)
            },
    )
}

/// One user action applied to the unit it addresses.
pub open spec fn spec_apply_ui(m: Seq<UnitModel>, id: EntityId, cmd: UnitUiCommand) -> Seq<UnitModel> {
    spec_map_unit(
        m,
        id,
        |e: UnitModel| UnitModel { unit: spec_apply_command(e.unit, cmd), ..e },
    )
}

/// An arrival notice clears a bare move order; an attack order survives
/// reaching its waypoint, since the decision engine owns its lifecycle.
pub open spec fn spec_apply_waypoint_reached(m: Seq<UnitModel>, id: EntityId) -> Seq<UnitModel> {
    spec_map_unit(
        m,
        id,
        |e: UnitModel|
            if e.unit.current_command is Move {
                UnitModel {
                    unit: UnitComponent { current_command: UnitUserCommand::None_, ..e.unit },
                    ..e
                }
            } else {
                e
            },
    )
}

/// Rewriting one unit in place is the same as mapping over the whole world
/// when ids are unique.
proof fn lemma_map_unit_update(
    m: Seq<UnitModel>,
    idx: int,
    id: EntityId,
    f: spec_fn(UnitModel) -> UnitModel,
)
    requires
        0 <= idx < m.len(),
        m[idx].id == id,
        spec_ids_unique_in(m),
    ensures
        m.update(idx, f(m[idx])) =~= spec_map_unit(m, id, f),
{
    assert forall|i: int| 0 <= i < m.len() implies m.update(idx, f(m[idx]))[i] == spec_map_unit(
        m,
        id,
        f,
    )[i] by {
        if i != idx {
            assert(m[i].id != id);
        }
    }
}

/// Records one proximity report for `unit_id`: on enter, `target_id` is
/// appended to the matching range list if absent; on exit, every occurrence
/// is removed.
pub fn process_unit_proximity(
    world: &mut World,
    unit_id: EntityId,
    target_id: EntityId,
    e_or_e: EnterOrExit,
    range_type: AttackType,
)
    requires
        spec_ids_unique_in(old(world)@),
        old(world).spec_id_valid(unit_id),
    ensures
        final(world)@ == spec_apply_proximity(old(world)@, unit_id, target_id, e_or_e, range_type),
{
    let ghost m0 = world@;
    let idx = match world.find_index(unit_id) {
        Some(i) => i,
        None => {
            proof {
                assert(false);
            }
            0
        },
    };
    let is_enter = match e_or_e {
        EnterOrExit::Enter => true,
        EnterOrExit::Exit => false,
    };
    match range_type {
        AttackType::Melee => {
            if is_enter {
                crate::world::vec_push_if_absent(&mut world.units[idx].nearby.melee_range, target_id);
            } else {
                crate::world::vec_remove_id(&mut world.units[idx].nearby.melee_range, target_id);
            }
        }
        AttackType::Ranged => {
            if is_enter {
                crate::world::vec_push_if_absent(
                    &mut world.units[idx].nearby.missile_range,
                    target_id,
                );
            } else {
                crate::world::vec_remove_id(&mut world.units[idx].nearby.missile_range, target_id);
            }
        }
    }
    proof {
        let f = |e: UnitModel|
            if e_or_e == EnterOrExit::Enter {
                spec_with_contact_added(e, target_id, range_type)
            } else {
                spec_with_contact_removed(e, target_id, range_type)
            };
        assert(world.units@[idx as int]@ =~= f(m0[idx as int]));
        assert(world@ =~~= m0.update(idx as int, f(m0[idx as int])));
        lemma_map_unit_update(m0, idx as int, unit_id, f);
        assert(world@ =~~= spec_apply_proximity(m0, unit_id, target_id, e_or_e, range_type));
    }
}

/// Interprets one user action for `unit_id`; see `spec_apply_command`.
pub fn process_unit_command(world: &mut World, unit_id: EntityId, cmd: UnitUiCommand)
    requires
        spec_ids_unique_in(old(world)@),
        old(world).spec_id_valid(unit_id),
    ensures
        final(world)@ == spec_apply_ui(old(world)@, unit_id, cmd),
{
    let ghost m0 = world@;
    let idx = match world.find_index(unit_id) {
        Some(i) => i,
        None => {
            proof {
                assert(false);
            }
            0
        },
    };
    let unit = &mut world.units[idx].unit;
    match cmd {
        UnitUiCommand::Attack(target, speed) => {
            unit.is_running = match speed {
                UnitUiSpeedCommand::Run => true,
                UnitUiSpeedCommand::Walk => false,
            };
            unit.current_command = match unit.primary_attack_type() {
                AttackType::Melee => UnitUserCommand::AttackMelee(target),
                AttackType::Ranged => UnitUserCommand::AttackMissile(target),
            };
        }
        UnitUiCommand::Move(pos, speed) => {
            unit.current_command = UnitUserCommand::Move(pos);
            unit.is_running = match speed {
                UnitUiSpeedCommand::Run => true,
                UnitUiSpeedCommand::Walk => false,
            };
        }
        UnitUiCommand::Stop => {
            unit.current_command = UnitUserCommand::None_;
        }
        UnitUiCommand::ToggleGuardMode => {
            unit.guard_mode_enabled = !unit.guard_mode_enabled;
        }
        UnitUiCommand::ToggleFireAtWill => {
            unit.fire_at_will = !unit.fire_at_will;
        }
        UnitUiCommand::ToggleSpeed => {
            unit.is_running = !unit.is_running;
        }
    }
    proof {
        let f = |e: UnitModel| UnitModel { unit: spec_apply_command(e.unit, cmd), ..e };
        assert(world.units@[idx as int]@ =~= f(m0[idx as int]));
        assert(world@ =~~= m0.update(idx as int, f(m0[idx as int])));
        lemma_map_unit_update(m0, idx as int, unit_id, f);
        assert(world@ =~~= spec_apply_ui(m0, unit_id, cmd));
    }
}

/// Handles an arrival notice for `unit_id`; see
/// `spec_apply_waypoint_reached`.
pub fn process_waypoint_reached(world: &mut World, unit_id: EntityId)
    requires
        spec_ids_unique_in(old(world)@),
        old(world).spec_id_valid(unit_id),
    ensures
        final(world)@ == spec_apply_waypoint_reached(old(world)@, unit_id),
{
    let ghost m0 = world@;
    let idx = match world.find_index(unit_id) {
        Some(i) => i,
        None => {
            proof {
                assert(false);
            }
            0
        },
    };
    let unit = &mut world.units[idx].unit;
    match unit.current_command {
        UnitUserCommand::Move(_) => {
            unit.current_command = UnitUserCommand::None_;
        }
        _ => {}
    }
    proof {
        let f = |e: UnitModel|
            if e.unit.current_command is Move {
                UnitModel {
                    unit: UnitComponent { current_command: UnitUserCommand::None_, ..e.unit },
                    ..e
                }
            } else {
                e
            };
        assert(world.units@[idx as int]@ =~= f(m0[idx as int]));
        assert(world@ =~~= m0.update(idx as int, f(m0[idx as int])));
        lemma_map_unit_update(m0, idx as int, unit_id, f);
        assert(world@ =~~= spec_apply_waypoint_reached(m0, unit_id));
    }
}


// ---------------------------------------------------------------------------
// Event ingestion and death cleanup
// ---------------------------------------------------------------------------

/// One live event applied to the world: proximity reports update range
/// lists (a melee contact is symmetric and lands on both units, a
/// firing-range contact only on the unit owning the range), a user action
/// goes through the command interpreter, an arrival notice clears a bare
/// move order.  A death notice changes nothing here; the dead are collected
/// separately and handled by the cleanup pass.
pub open spec fn spec_apply_live_event(m: Seq<UnitModel>, event: UnitInteractionEvent) -> Seq<
    UnitModel,
> {
    match event {
        UnitInteractionEvent::Proximity(contact) => match contact {
            ContactType::UnitFiringRangeEnter { range_of, target } => spec_apply_proximity(
                m,
                range_of,
                target,
                EnterOrExit::Enter,
                AttackType::Ranged,
            ),
            ContactType::UnitFiringRangeExit { range_of, target } => spec_apply_proximity(
                m,
                range_of,
                target,
                EnterOrExit::Exit,
                AttackType::Ranged,
            ),
            ContactType::UnitUnitMeleeEnter(e1, e2) => spec_apply_proximity(
                spec_apply_proximity(m, e1, e2, EnterOrExit::Enter, AttackType::Melee),
                e2,
                e1,
                EnterOrExit::Enter,
                AttackType::Melee,
            ),
            ContactType::UnitUnitMeleeExit(e1, e2) => spec_apply_proximity(
                spec_apply_proximity(m, e1, e2, EnterOrExit::Exit, AttackType::Melee),
                e2,
                e1,
                EnterOrExit::Exit,
                AttackType::Melee,
            ),
        },
        UnitInteractionEvent::Ui(id, cmd) => spec_apply_ui(m, id, cmd),
        UnitInteractionEvent::UnitWaypointReached(id) => spec_apply_waypoint_reached(m, id),
        UnitInteractionEvent::UnitDied(_) => m,
    }
}

/// The events of one tick applied in order.
pub open spec fn spec_apply_events(m: Seq<UnitModel>, events: Seq<UnitInteractionEvent>) -> Seq<
    UnitModel,
>
    decreases events.len(),
{
    if events.len() == 0 {
        m
    } else {
        spec_apply_live_event(spec_apply_events(m, events.drop_last()), events.last())
    }
}

/// The ids whose death the tick's events report, in order.
pub open spec fn spec_dead_of(events: Seq<UnitInteractionEvent>) -> Seq<EntityId>
    decreases events.len(),
{
    if events.len() == 0 {
        Seq::empty()
    } else {
        let r = spec_dead_of(events.drop_last());
        match events.last() {
            UnitInteractionEvent::UnitDied(e) => r.push(e),
            _ => r,
        }
    }
}

/// What the core assumes of an inbound event: every unit it names is live,
/// and a move destination lies inside the coordinate limits.  The physics
/// and interface collaborators only report on live units.
pub open spec fn spec_event_wf(m: Seq<UnitModel>, event: UnitInteractionEvent) -> bool {
    match event {
        UnitInteractionEvent::Proximity(contact) => match contact {
            ContactType::UnitFiringRangeEnter { range_of, target } => spec_id_valid_in(m, range_of)
                && spec_id_valid_in(m, target),
            ContactType::UnitFiringRangeExit { range_of, target } => spec_id_valid_in(m, range_of)
                && spec_id_valid_in(m, target),
            ContactType::UnitUnitMeleeEnter(e1, e2) => spec_id_valid_in(m, e1) && spec_id_valid_in(
                m,
                e2,
            ),
            ContactType::UnitUnitMeleeExit(e1, e2) => spec_id_valid_in(m, e1) && spec_id_valid_in(
                m,
                e2,
            ),
        },
        UnitInteractionEvent::Ui(id, cmd) => spec_id_valid_in(m, id) && (match cmd {
            UnitUiCommand::Attack(t, _) => spec_id_valid_in(m, t),
            UnitUiCommand::Move(p, _) => -POS_LIMIT <= p.x <= POS_LIMIT && -POS_LIMIT <= p.y
                <= POS_LIMIT,
            _ => true,
        }),
        UnitInteractionEvent::UnitWaypointReached(id) => spec_id_valid_in(m, id),
        UnitInteractionEvent::UnitDied(_) => true,
    }
}

// ---------------------------------------------------------------------------
// Cleanup of references to dead units
// ---------------------------------------------------------------------------

/// `e` with its fighting target and its attack order dropped where they
/// name a dead unit.  The activity kind survives: a unit whose opponent
/// just died shows as fighting with no target for one tick.
pub open spec fn spec_cleared_of_dead(e: UnitModel, dead: Seq<EntityId>) -> UnitModel {
    let new_state = match e.unit.state.spec_actively_fighting() {
        Some(t) => if dead.contains(t) {
            e.unit.state.spec_clear_target()
        } else {
            e.unit.state
        },
        None => e.unit.state,
    };
    let new_command = match spec_command_target(e.unit.current_command) {
        Some(t) => if dead.contains(t) {
            UnitUserCommand::None_
        } else {
            e.unit.current_command
        },
        None => e.unit.current_command,
    };
    UnitModel {
        unit: UnitComponent { state: new_state, current_command: new_command, ..e.unit },
        ..e
    }
}

/// `e` with every dead id purged from both range lists.
pub open spec fn spec_purged_of_dead(e: UnitModel, dead: Seq<EntityId>) -> UnitModel {
    UnitModel {
        melee_range: crate::world::spec_remove_ids(e.melee_range, dead),
        missile_range: crate::world::spec_remove_ids(e.missile_range, dead),
        ..e
    }
}

pub open spec fn spec_clear_dead_refs(m: Seq<UnitModel>, dead: Seq<EntityId>) -> Seq<UnitModel> {
    m.map_values(|e: UnitModel| spec_cleared_of_dead(e, dead))
}

pub open spec fn spec_purge_nearby(m: Seq<UnitModel>, dead: Seq<EntityId>) -> Seq<UnitModel> {
    m.map_values(|e: UnitModel| spec_purged_of_dead(e, dead))
}

/// The world with every dead unit removed, order otherwise kept.
pub open spec fn spec_despawn(m: Seq<UnitModel>, dead: Seq<EntityId>) -> Seq<UnitModel>
    decreases m.len(),
{
    if m.len() == 0 {
        Seq::empty()
    } else {
        let r = spec_despawn(m.drop_last(), dead);
        if dead.contains(m.last().id) {
            r
        } else {
            r.push(m.last())
        }
    }
}

/// The whole death-cleanup pass: first every reference to a dead unit is
/// scrubbed — fighting targets, attack orders, range lists — and only then
/// are the dead units themselves removed.
pub open spec fn spec_cleanup(m: Seq<UnitModel>, dead: Seq<EntityId>) -> Seq<UnitModel> {
    spec_despawn(spec_purge_nearby(spec_clear_dead_refs(m, dead), dead), dead)
}

/// No part of `e` — its own id, its fighting target, its attack order or
/// its range lists — names a dead unit.
pub open spec fn spec_no_dead_refs(e: UnitModel, dead: Seq<EntityId>) -> bool {
    &&& !dead.contains(e.id)
    &&& (match e.unit.state.spec_actively_fighting() {
        Some(t) => !dead.contains(t),
        None => true,
    })
    &&& (match spec_command_target(e.unit.current_command) {
        Some(t) => !dead.contains(t),
        None => true,
    })
    &&& (forall|k: int| 0 <= k < e.melee_range.len() ==> !dead.contains(#[trigger] e.melee_range[k]))
    &&& (forall|k: int|
        0 <= k < e.missile_range.len() ==> !dead.contains(#[trigger] e.missile_range[k]))
}

/// Every surviving entry of a despawn pass is an entry of the original
/// world whose id is not dead.
pub proof fn lemma_despawn_source(m: Seq<UnitModel>, dead: Seq<EntityId>)
    ensures
        forall|j: int|
            0 <= j < spec_despawn(m, dead).len() ==> exists|i: int|
                0 <= i < m.len() && #[trigger] spec_despawn(m, dead)[j] == m[i] && !dead.contains(
                    m[i].id,
                ),
    decreases m.len(),
{
    if m.len() > 0 {
        lemma_despawn_source(m.drop_last(), dead);
        let d = spec_despawn(m, dead);
        let r = spec_despawn(m.drop_last(), dead);
        assert forall|j: int| 0 <= j < d.len() implies exists|i: int|
            0 <= i < m.len() && #[trigger] d[j] == m[i] && !dead.contains(m[i].id) by {
            if j < r.len() {
                let i = choose|i: int|
                    0 <= i < m.drop_last().len() && #[trigger] r[j] == m.drop_last()[i]
                        && !dead.contains(m.drop_last()[i].id);
                assert(m.drop_last()[i] == m[i]);
                assert(d[j] == m[i] && !dead.contains(m[i].id));
            } else {
                assert(!dead.contains(m.last().id));
                assert(d[j] == m[m.len() - 1]);
                assert(!dead.contains(m[m.len() - 1].id));
            }
        }
    }
}

/// An id is live after a despawn pass exactly when it was live before and
/// is not dead.
pub proof fn lemma_despawn_valid(m: Seq<UnitModel>, dead: Seq<EntityId>, t: EntityId)
    ensures
        spec_id_valid_in(spec_despawn(m, dead), t) <==> (spec_id_valid_in(m, t) && !dead.contains(
            t,
        )),
    decreases m.len(),
{
    if m.len() > 0 {
        lemma_despawn_valid(m.drop_last(), dead, t);
        let d = spec_despawn(m, dead);
        let r = spec_despawn(m.drop_last(), dead);
        assert(spec_id_valid_in(m, t) <==> (spec_id_valid_in(m.drop_last(), t) || m.last().id == t))
            by {
            if spec_id_valid_in(m, t) {
                let w = choose|w: int| 0 <= w < m.len() && (#[trigger] m[w]).id == t;
                if w < m.len() - 1 {
                    assert(m.drop_last()[w].id == t);
                }
            } else {
                if spec_id_valid_in(m.drop_last(), t) {
                    let w = choose|w: int|
                        0 <= w < m.drop_last().len() && (#[trigger] m.drop_last()[w]).id == t;
                    assert(m[w].id == t);
                }
            }
        }
        if !dead.contains(m.last().id) {
            assert(spec_id_valid_in(d, t) <==> (spec_id_valid_in(r, t) || m.last().id == t)) by {
                if spec_id_valid_in(d, t) {
                    let w = choose|w: int| 0 <= w < d.len() && (#[trigger] d[w]).id == t;
                    if w < r.len() {
                        assert(r[w].id == t);
                    }
                } else {
                    if spec_id_valid_in(r, t) {
                        let w = choose|w: int| 0 <= w < r.len() && (#[trigger] r[w]).id == t;
                        assert(d[w].id == t);
                    }
                    assert(d[d.len() - 1] == m.last());
                }
            }
        }
    }
}

/// A despawn pass keeps ids unique.
pub proof fn lemma_despawn_unique(m: Seq<UnitModel>, dead: Seq<EntityId>)
    requires
        spec_ids_unique_in(m),
    ensures
        spec_ids_unique_in(spec_despawn(m, dead)),
    decreases m.len(),
{
    if m.len() > 0 {
        assert(spec_ids_unique_in(m.drop_last())) by {
            assert forall|i: int, j: int|
                0 <= i < j < m.drop_last().len() implies (#[trigger] m.drop_last()[i]).id != (
            #[trigger] m.drop_last()[j]).id by {
                assert(m.drop_last()[i] == m[i] && m.drop_last()[j] == m[j]);
            }
        }
        lemma_despawn_unique(m.drop_last(), dead);
        if !dead.contains(m.last().id) {
            let d = spec_despawn(m, dead);
            let r = spec_despawn(m.drop_last(), dead);
            assert(!spec_id_valid_in(m.drop_last(), m.last().id)) by {
                if spec_id_valid_in(m.drop_last(), m.last().id) {
                    let w = choose|w: int|
                        0 <= w < m.drop_last().len() && (#[trigger] m.drop_last()[w]).id
                            == m.last().id;
                    assert(m[w].id == m[m.len() - 1].id);
                }
            }
            lemma_despawn_valid(m.drop_last(), dead, m.last().id);
            assert forall|i: int, j: int| 0 <= i < j < d.len() implies (#[trigger] d[i]).id != (
            #[trigger] d[j]).id by {
                if j < r.len() {
                } else {
                    assert(d[j] == m.last());
                    assert(d[i] == r[i]);
                    assert(spec_id_valid_in(r, r[i].id));
                }
            }
        }
    }
}

/// A despawn pass never grows the world.
pub proof fn lemma_despawn_len(m: Seq<UnitModel>, dead: Seq<EntityId>)
    ensures
        spec_despawn(m, dead).len() <= m.len(),
    decreases m.len(),
{
    if m.len() > 0 {
        lemma_despawn_len(m.drop_last(), dead);
    }
}

/// Despawning when no unit is dead changes nothing.
pub proof fn lemma_despawn_all_live(m: Seq<UnitModel>, dead: Seq<EntityId>)
    requires
        forall|i: int| 0 <= i < m.len() ==> !dead.contains((#[trigger] m[i]).id),
    ensures
        spec_despawn(m, dead) == m,
    decreases m.len(),
{
    if m.len() > 0 {
        assert forall|i: int| 0 <= i < m.drop_last().len() implies !dead.contains(
            (#[trigger] m.drop_last()[i]).id,
        ) by {
            assert(m.drop_last()[i] == m[i]);
        }
        lemma_despawn_all_live(m.drop_last(), dead);
        assert(!dead.contains(m[m.len() - 1].id));
        assert(spec_despawn(m, dead) =~= m);
    }
}

/// Death cleanup scrubs every reference: afterwards no surviving unit's id,
/// fighting target, attack order or range list names a dead unit.
pub proof fn lemma_cleanup_scrubs(m: Seq<UnitModel>, dead: Seq<EntityId>)
    ensures
        forall|j: int|
            0 <= j < spec_cleanup(m, dead).len() ==> spec_no_dead_refs(
                #[trigger] spec_cleanup(m, dead)[j],
                dead,
            ),
{
    let c = spec_clear_dead_refs(m, dead);
    let p = spec_purge_nearby(c, dead);
    let d = spec_cleanup(m, dead);
    lemma_despawn_source(p, dead);
    assert forall|j: int| 0 <= j < d.len() implies spec_no_dead_refs(#[trigger] d[j], dead) by {
        let i = choose|i: int| 0 <= i < p.len() && d[j] == p[i] && !dead.contains(p[i].id);
        let e = p[i];
        assert(e == spec_purged_of_dead(spec_cleared_of_dead(m[i], dead), dead));
        assert forall|k: int| 0 <= k < e.melee_range.len() implies !dead.contains(
            #[trigger] e.melee_range[k],
        ) by {
            crate::world::lemma_remove_ids_contains(
                spec_cleared_of_dead(m[i], dead).melee_range,
                dead,
                e.melee_range[k],
            );
            assert(e.melee_range.contains(e.melee_range[k]));
        }
        assert forall|k: int| 0 <= k < e.missile_range.len() implies !dead.contains(
            #[trigger] e.missile_range[k],
        ) by {
            crate::world::lemma_remove_ids_contains(
                spec_cleared_of_dead(m[i], dead).missile_range,
                dead,
                e.missile_range[k],
            );
            assert(e.missile_range.contains(e.missile_range[k]));
        }
    }
}

/// Death cleanup preserves world well-formedness.
pub proof fn lemma_cleanup_wf(m: Seq<UnitModel>, dead: Seq<EntityId>)
    requires
        spec_wf_model(m),
    ensures
        spec_wf_model(spec_cleanup(m, dead)),
{
    let c = spec_clear_dead_refs(m, dead);
    let p = spec_purge_nearby(c, dead);
    let d = spec_cleanup(m, dead);
    assert(spec_ids_unique_in(p)) by {
        assert forall|i: int, j: int| 0 <= i < j < p.len() implies (#[trigger] p[i]).id != (
        #[trigger] p[j]).id by {
            assert(m[i].id != m[j].id);
        }
    }
    lemma_despawn_unique(p, dead);
    lemma_despawn_source(p, dead);
    lemma_cleanup_scrubs(m, dead);
    // Local well-formedness of each purged entry.
    assert forall|i: int| 0 <= i < p.len() implies (#[trigger] p[i]).spec_local_wf() by {
        assert(m[i].spec_local_wf());
        crate::world::lemma_remove_ids_no_duplicates(c[i].melee_range, dead);
        crate::world::lemma_remove_ids_no_duplicates(c[i].missile_range, dead);
    }
    assert forall|j: int| 0 <= j < d.len() implies (#[trigger] d[j]).spec_local_wf() by {
        let i = choose|i: int| 0 <= i < p.len() && d[j] == p[i] && !dead.contains(p[i].id);
    }
    // Reference validity in the despawned world.
    assert forall|j: int| 0 <= j < d.len() implies crate::world::spec_refs_ok_at(d, j) by {
        let i = choose|i: int| 0 <= i < p.len() && d[j] == p[i] && !dead.contains(p[i].id);
        let e = p[i];
        assert(crate::world::spec_refs_ok_at(m, i));
        assert forall|t: EntityId|
            spec_id_valid_in(m, t) && !dead.contains(t) implies spec_id_valid_in(d, t) by {
            assert(spec_id_valid_in(p, t)) by {
                let w = choose|w: int| 0 <= w < m.len() && (#[trigger] m[w]).id == t;
                assert(p[w].id == t);
            }
            lemma_despawn_valid(p, dead, t);
        }
        match e.unit.state.spec_actively_fighting() {
            Some(t) => {
                assert(e.unit.state == spec_cleared_of_dead(m[i], dead).unit.state);
                assert(spec_id_valid_in(m, t) && !dead.contains(t));
            },
            None => {},
        }
        match e.unit.current_command {
            UnitUserCommand::AttackMelee(t) => {
                assert(spec_id_valid_in(m, t) && !dead.contains(t));
            },
            UnitUserCommand::AttackMissile(t) => {
                assert(spec_id_valid_in(m, t) && !dead.contains(t));
            },
            _ => {},
        }
        assert forall|k: int| 0 <= k < e.melee_range.len() implies spec_id_valid_in(
            d,
            #[trigger] e.melee_range[k],
        ) by {
            let t = e.melee_range[k];
            crate::world::lemma_remove_ids_contains(c[i].melee_range, dead, t);
            assert(e.melee_range.contains(t));
            assert(c[i].melee_range == m[i].melee_range);
            let w = choose|w: int| 0 <= w < m[i].melee_range.len() && m[i].melee_range[w] == t;
            assert(spec_id_valid_in(m, m[i].melee_range[w]));
        }
        assert forall|k: int| 0 <= k < e.missile_range.len() implies spec_id_valid_in(
            d,
            #[trigger] e.missile_range[k],
        ) by {
            let t = e.missile_range[k];
            crate::world::lemma_remove_ids_contains(c[i].missile_range, dead, t);
            assert(e.missile_range.contains(t));
            assert(c[i].missile_range == m[i].missile_range);
            let w = choose|w: int| 0 <= w < m[i].missile_range.len() && m[i].missile_range[w] == t;
            assert(spec_id_valid_in(m, m[i].missile_range[w]));
        }
    }
}

/// Every survivor of a death cleanup is a unit of the old world with the
/// same id and the same weapon: cleanup touches orders, targets and range
/// lists, never ammunition.
pub proof fn lemma_cleanup_preserves_survivors(m: Seq<UnitModel>, dead: Seq<EntityId>)
    ensures
        forall|j: int|
            0 <= j < spec_cleanup(m, dead).len() ==> exists|i: int|
                0 <= i < m.len() && (#[trigger] spec_cleanup(m, dead)[j]).id == m[i].id
                    && spec_cleanup(m, dead)[j].missile == m[i].missile,
{
    let c = spec_clear_dead_refs(m, dead);
    let p = spec_purge_nearby(c, dead);
    let d = spec_cleanup(m, dead);
    lemma_despawn_source(p, dead);
    assert forall|j: int| 0 <= j < d.len() implies exists|i: int|
        0 <= i < m.len() && (#[trigger] d[j]).id == m[i].id && d[j].missile == m[i].missile by {
        let i = choose|i: int| 0 <= i < p.len() && d[j] == p[i] && !dead.contains(p[i].id);
        assert(p[i].id == m[i].id && p[i].missile == m[i].missile);
    }
}

/// Running death cleanup twice over the same death set is a no-op the
/// second time.
pub proof fn lemma_cleanup_idempotent(m: Seq<UnitModel>, dead: Seq<EntityId>)
    ensures
        spec_cleanup(spec_cleanup(m, dead), dead) == spec_cleanup(m, dead),
{
    let d = spec_cleanup(m, dead);
    lemma_cleanup_scrubs(m, dead);
    let c2 = spec_clear_dead_refs(d, dead);
    let p2 = spec_purge_nearby(c2, dead);
    assert(c2 =~~= d) by {
        assert forall|j: int| 0 <= j < d.len() implies c2[j] =~~= d[j] by {
            assert(spec_no_dead_refs(d[j], dead));
        }
    }
    assert(p2 =~~= d) by {
        assert forall|j: int| 0 <= j < d.len() implies p2[j] =~~= d[j] by {
            assert(spec_no_dead_refs(d[j], dead));
            assert forall|x: EntityId| c2[j].melee_range.contains(x) implies !dead.contains(x) by {
                let k = choose|k: int|
                    0 <= k < c2[j].melee_range.len() && c2[j].melee_range[k] == x;
                assert(d[j].melee_range[k] == x);
            }
            assert forall|x: EntityId| c2[j].missile_range.contains(x) implies !dead.contains(
                x,
            ) by {
                let k = choose|k: int|
                    0 <= k < c2[j].missile_range.len() && c2[j].missile_range[k] == x;
                assert(d[j].missile_range[k] == x);
            }
            crate::world::lemma_remove_ids_absent(c2[j].melee_range, dead);
            crate::world::lemma_remove_ids_absent(c2[j].missile_range, dead);
        }
    }
    assert forall|i: int| 0 <= i < p2.len() implies !dead.contains((#[trigger] p2[i]).id) by {
        assert(p2[i] == d[i]);
        assert(spec_no_dead_refs(d[i], dead));
    }
    lemma_despawn_all_live(p2, dead);
}

/// Scrubs one unit's fighting target and attack order of dead ids.
fn clear_entry_dead_refs(entry: &mut UnitEntry, dead_units: &Vec<EntityId>)
    ensures
        final(entry)@ == spec_cleared_of_dead(old(entry)@, dead_units@),
{
    match entry.unit.state.current_actively_fighting() {
        Some(t) => {
            if crate::world::vec_contains_id(dead_units, t) {
                entry.unit.state.clear_target();
            }
        },
        None => {},
    }
    match entry.unit.current_command {
        UnitUserCommand::AttackMelee(t) => {
            if crate::world::vec_contains_id(dead_units, t) {
                entry.unit.current_command = UnitUserCommand::None_;
            }
        },
        UnitUserCommand::AttackMissile(t) => {
            if crate::world::vec_contains_id(dead_units, t) {
                entry.unit.current_command = UnitUserCommand::None_;
            }
        },
        _ => {},
    }
    proof {
        assert(final(entry)@ =~~= spec_cleared_of_dead(old(entry)@, dead_units@));
    }
}

/// Purges every dead id from one unit's range lists.
fn purge_entry_nearby(entry: &mut UnitEntry, dead_units: &Vec<EntityId>)
    ensures
        final(entry)@ == spec_purged_of_dead(old(entry)@, dead_units@),
{
    crate::world::vec_remove_ids(&mut entry.nearby.melee_range, dead_units);
    crate::world::vec_remove_ids(&mut entry.nearby.missile_range, dead_units);
    proof {
        assert(final(entry)@ =~~= spec_purged_of_dead(old(entry)@, dead_units@));
    }
}

/// One step of the despawn recursion, phrased over a prefix.
proof fn lemma_despawn_take_step(m: Seq<UnitModel>, dead: Seq<EntityId>, k: int)
    requires
        0 <= k < m.len(),
    ensures
        spec_despawn(m.take(k + 1), dead) == (if dead.contains(m[k].id) {
            spec_despawn(m.take(k), dead)
        } else {
            spec_despawn(m.take(k), dead).push(m[k])
        }),
{
    assert(m.take(k + 1).drop_last() =~= m.take(k));
    assert(m.take(k + 1).last() == m[k]);
}

/// The death propagator: scrubs every reference to the dead — fighting
/// targets, attack orders, range lists — and then removes the dead units
/// themselves, so nothing ever dereferences a dead id.
pub fn death_propagator(world: &mut World, dead_units: &Vec<EntityId>)
    ensures
        final(world)@ == spec_cleanup(old(world)@, dead_units@),
{
    let ghost m0 = world@;
    let ghost dead = dead_units@;
    let ghost u0 = world.units@;

    // Scrub fighting targets and attack orders.
    let n = world.units.len();
    let mut idx: usize = 0;
    while idx < n
        invariant
            n == world.units@.len(),
            0 <= idx <= n,
            dead == dead_units@,
            world.units@.len() == u0.len(),
            forall|j: int|
                0 <= j < idx ==> (#[trigger] world.units@[j])@ == spec_cleared_of_dead(u0[j]@, dead),
            forall|j: int| idx <= j < n ==> #[trigger] world.units@[j] == u0[j],
        decreases n - idx,
    {
        clear_entry_dead_refs(&mut world.units[idx], dead_units);
        idx = idx + 1;
    }
    proof {
        assert(m0 == u0.map_values(|e: UnitEntry| e@));
        assert forall|j: int| 0 <= j < n implies world@[j] == spec_cleared_of_dead(m0[j], dead) by {
            assert(world@[j] == world.units@[j]@);
            assert(m0[j] == u0[j]@);
        }
        assert(world@ =~~= spec_clear_dead_refs(m0, dead));
    }

    // Purge the dead from every range list.
    let ghost m1 = spec_clear_dead_refs(m0, dead);
    let ghost u1 = world.units@;
    let mut idx2: usize = 0;
    while idx2 < n
        invariant
            n == world.units@.len(),
            0 <= idx2 <= n,
            dead == dead_units@,
            world.units@.len() == u1.len(),
            forall|j: int|
                0 <= j < idx2 ==> (#[trigger] world.units@[j])@ == spec_purged_of_dead(u1[j]@, dead),
            forall|j: int| idx2 <= j < n ==> #[trigger] world.units@[j] == u1[j],
        decreases n - idx2,
    {
        purge_entry_nearby(&mut world.units[idx2], dead_units);
        idx2 = idx2 + 1;
    }
    proof {
        assert(m1 == u1.map_values(|e: UnitEntry| e@)) by {
            assert(m1 =~~= u1.map_values(|e: UnitEntry| e@));
        }
        assert forall|j: int| 0 <= j < n implies world@[j] == spec_purged_of_dead(m1[j], dead) by {
            assert(world@[j] == world.units@[j]@);
            assert(m1[j] == u1[j]@);
        }
        assert(world@ =~~= spec_purge_nearby(m1, dead));
    }

    // Remove the dead units themselves.
    let ghost m2 = spec_purge_nearby(m1, dead);
    let mut j: usize = 0;
    let ghost mut k: int = 0;
    while j < world.units.len()
        invariant
            0 <= k <= m2.len(),
            dead == dead_units@,
            world@ == spec_despawn(m2.take(k), dead) + m2.skip(k),
            j == spec_despawn(m2.take(k), dead).len(),
            j <= world.units@.len(),
            world.units@.len() == world@.len(),
        decreases m2.len() - k,
    {
        proof {
            assert(world@.len() == j + m2.skip(k).len());
            assert(m2.skip(k).len() > 0);
            assert(k < m2.len());
            assert(world@[j as int] == m2.skip(k)[0]);
            assert(m2.skip(k)[0] == m2[k]);
            lemma_despawn_take_step(m2, dead, k);
            assert(world.units@[j as int]@ == world@[j as int]);
            assert(world.units@[j as int].id == m2[k].id);
        }
        let is_dead = crate::world::vec_contains_id(dead_units, world.units[j].id);
        if is_dead {
            let ghost w_before = world@;
            world.units.remove(j);
            proof {
                assert(world@ =~~= w_before.remove(j as int));
                assert(world@ =~~= spec_despawn(m2.take(k + 1), dead) + m2.skip(k + 1)) by {
                    assert((spec_despawn(m2.take(k), dead) + m2.skip(k)).remove(j as int) =~~= (
                    spec_despawn(m2.take(k), dead) + m2.skip(k + 1)));
                }
                k = k + 1;
            }
        } else {
            proof {
                assert(world@ =~~= spec_despawn(m2.take(k + 1), dead) + m2.skip(k + 1)) by {
                    assert((spec_despawn(m2.take(k), dead) + m2.skip(k)) =~~= (spec_despawn(
                        m2.take(k),
                        dead,
                    ).push(m2[k]) + m2.skip(k + 1)));
                }
                k = k + 1;
            }
            j = j + 1;
        }
    }
    proof {
        assert(m2.skip(k).len() == 0);
        assert(k == m2.len());
        assert(m2.take(k) =~= m2);
        assert(world@ =~~= spec_despawn(m2, dead));
    }
}


// ---------------------------------------------------------------------------
// Well-formedness through event ingestion
// ---------------------------------------------------------------------------

/// Two worlds with the same ids validate the same ids.
proof fn lemma_valid_transfer(m1: Seq<UnitModel>, m2: Seq<UnitModel>)
    requires
        m2.len() == m1.len(),
        forall|i: int| 0 <= i < m1.len() ==> (#[trigger] m2[i]).id == m1[i].id,
    ensures
        forall|t: EntityId| #[trigger] spec_id_valid_in(m2, t) <==> spec_id_valid_in(m1, t),
{
    assert forall|t: EntityId| #[trigger] spec_id_valid_in(m2, t) <==> spec_id_valid_in(m1, t) by {
        if spec_id_valid_in(m1, t) {
            let w = choose|w: int| 0 <= w < m1.len() && (#[trigger] m1[w]).id == t;
            assert(m2[w].id == t);
        }
        if spec_id_valid_in(m2, t) {
            let w = choose|w: int| 0 <= w < m2.len() && (#[trigger] m2[w]).id == t;
            assert(m1[w].id == t);
        }
    }
}

/// A proximity report keeps the world well formed: it only adds a live id
/// to one list or removes entries from one.
proof fn lemma_apply_proximity_wf(
    m: Seq<UnitModel>,
    subject: EntityId,
    other: EntityId,
    e_or_e: EnterOrExit,
    range_type: AttackType,
)
    requires
        spec_wf_model(m),
        spec_id_valid_in(m, subject),
        spec_id_valid_in(m, other),
    ensures
        spec_wf_model(spec_apply_proximity(m, subject, other, e_or_e, range_type)),
        spec_apply_proximity(m, subject, other, e_or_e, range_type).len() == m.len(),
        forall|i: int|
            0 <= i < m.len() ==> (#[trigger] spec_apply_proximity(
                m,
                subject,
                other,
                e_or_e,
                range_type,
            )[i]).id == m[i].id,
        forall|i: int|
            0 <= i < m.len() ==> (#[trigger] spec_apply_proximity(
                m,
                subject,
                other,
                e_or_e,
                range_type,
            )[i]).missile == m[i].missile,
{
    let m2 = spec_apply_proximity(m, subject, other, e_or_e, range_type);
    assert forall|i: int| 0 <= i < m.len() implies (#[trigger] m2[i]).id == m[i].id by {}
    lemma_valid_transfer(m, m2);
    assert forall|i: int| 0 <= i < m2.len() implies (#[trigger] m2[i]).spec_local_wf() by {
        assert(m[i].spec_local_wf());
        if m[i].id == subject {
            match range_type {
                AttackType::Melee => {
                    if e_or_e == EnterOrExit::Enter {
                        if !m[i].melee_range.contains(other) {
                            crate::world::lemma_push_absent_no_duplicates(m[i].melee_range, other);
                        }
                    } else {
                        crate::world::lemma_remove_id_no_duplicates(m[i].melee_range, other);
                    }
                },
                AttackType::Ranged => {
                    if e_or_e == EnterOrExit::Enter {
                        if !m[i].missile_range.contains(other) {
                            crate::world::lemma_push_absent_no_duplicates(
                                m[i].missile_range,
                                other,
                            );
                        }
                    } else {
                        crate::world::lemma_remove_id_no_duplicates(m[i].missile_range, other);
                    }
                },
            }
        }
    }
    assert forall|i: int| 0 <= i < m2.len() implies crate::world::spec_refs_ok_at(m2, i) by {
        assert(crate::world::spec_refs_ok_at(m, i));
        let e = m[i];
        let e2 = m2[i];
        assert(e2.unit == e.unit);
        assert forall|k: int| 0 <= k < e2.melee_range.len() implies spec_id_valid_in(
            m2,
            #[trigger] e2.melee_range[k],
        ) by {
            let t = e2.melee_range[k];
            if e.id == subject && range_type == AttackType::Melee {
                if e_or_e == EnterOrExit::Enter {
                    if !e.melee_range.contains(other) && k == e.melee_range.len() {
                        assert(t == other);
                    } else {
                        assert(spec_id_valid_in(m, e.melee_range[k]));
                    }
                } else {
                    crate::world::lemma_remove_id_contains(e.melee_range, other, t);
                    assert(e2.melee_range.contains(t));
                    let w = choose|w: int| 0 <= w < e.melee_range.len() && e.melee_range[w] == t;
                    assert(spec_id_valid_in(m, e.melee_range[w]));
                }
            } else {
                assert(e2.melee_range == e.melee_range);
                assert(spec_id_valid_in(m, e.melee_range[k]));
            }
        }
        assert forall|k: int| 0 <= k < e2.missile_range.len() implies spec_id_valid_in(
            m2,
            #[trigger] e2.missile_range[k],
        ) by {
            let t = e2.missile_range[k];
            if e.id == subject && range_type == AttackType::Ranged {
                if e_or_e == EnterOrExit::Enter {
                    if !e.missile_range.contains(other) && k == e.missile_range.len() {
                        assert(t == other);
                    } else {
                        assert(spec_id_valid_in(m, e.missile_range[k]));
                    }
                } else {
                    crate::world::lemma_remove_id_contains(e.missile_range, other, t);
                    assert(e2.missile_range.contains(t));
                    let w = choose|w: int|
                        0 <= w < e.missile_range.len() && e.missile_range[w] == t;
                    assert(spec_id_valid_in(m, e.missile_range[w]));
                }
            } else {
                assert(e2.missile_range == e.missile_range);
                assert(spec_id_valid_in(m, e.missile_range[k]));
            }
        }
    }
}

/// A user action keeps the world well formed: it only rewrites the
/// addressed unit's order and toggles, to values the event guarantees.
proof fn lemma_apply_ui_wf(m: Seq<UnitModel>, id: EntityId, cmd: UnitUiCommand)
    requires
        spec_wf_model(m),
        spec_id_valid_in(m, id),
        (match cmd {
            UnitUiCommand::Attack(t, _) => spec_id_valid_in(m, t),
            UnitUiCommand::Move(p, _) => -POS_LIMIT <= p.x <= POS_LIMIT && -POS_LIMIT <= p.y
                <= POS_LIMIT,
            _ => true,
        }),
    ensures
        spec_wf_model(spec_apply_ui(m, id, cmd)),
        spec_apply_ui(m, id, cmd).len() == m.len(),
        forall|i: int| 0 <= i < m.len() ==> (#[trigger] spec_apply_ui(m, id, cmd)[i]).id == m[i].id,
        forall|i: int|
            0 <= i < m.len() ==> (#[trigger] spec_apply_ui(m, id, cmd)[i]).missile == m[i].missile,
{
    let m2 = spec_apply_ui(m, id, cmd);
    assert forall|i: int| 0 <= i < m.len() implies (#[trigger] m2[i]).id == m[i].id by {}
    lemma_valid_transfer(m, m2);
    assert forall|i: int| 0 <= i < m2.len() implies (#[trigger] m2[i]).spec_local_wf() by {
        assert(m[i].spec_local_wf());
    }
    assert forall|i: int| 0 <= i < m2.len() implies crate::world::spec_refs_ok_at(m2, i) by {
        assert(crate::world::spec_refs_ok_at(m, i));
        let e = m[i];
        let e2 = m2[i];
        assert(e2.melee_range == e.melee_range && e2.missile_range == e.missile_range);
        assert forall|k: int| 0 <= k < e2.melee_range.len() implies spec_id_valid_in(
            m2,
            #[trigger] e2.melee_range[k],
        ) by {
            assert(spec_id_valid_in(m, e.melee_range[k]));
        }
        assert forall|k: int| 0 <= k < e2.missile_range.len() implies spec_id_valid_in(
            m2,
            #[trigger] e2.missile_range[k],
        ) by {
            assert(spec_id_valid_in(m, e.missile_range[k]));
        }
    }
}

/// An arrival notice keeps the world well formed: it only clears a move
/// order.
proof fn lemma_apply_waypoint_reached_wf(m: Seq<UnitModel>, id: EntityId)
    requires
        spec_wf_model(m),
        spec_id_valid_in(m, id),
    ensures
        spec_wf_model(spec_apply_waypoint_reached(m, id)),
        spec_apply_waypoint_reached(m, id).len() == m.len(),
        forall|i: int|
            0 <= i < m.len() ==> (#[trigger] spec_apply_waypoint_reached(m, id)[i]).id == m[i].id,
        forall|i: int|
            0 <= i < m.len() ==> (#[trigger] spec_apply_waypoint_reached(m, id)[i]).missile
                == m[i].missile,
{
    let m2 = spec_apply_waypoint_reached(m, id);
    assert forall|i: int| 0 <= i < m.len() implies (#[trigger] m2[i]).id == m[i].id by {}
    lemma_valid_transfer(m, m2);
    assert forall|i: int| 0 <= i < m2.len() implies (#[trigger] m2[i]).spec_local_wf() by {
        assert(m[i].spec_local_wf());
    }
    assert forall|i: int| 0 <= i < m2.len() implies crate::world::spec_refs_ok_at(m2, i) by {
        assert(crate::world::spec_refs_ok_at(m, i));
        let e = m[i];
        let e2 = m2[i];
        assert forall|k: int| 0 <= k < e2.melee_range.len() implies spec_id_valid_in(
            m2,
            #[trigger] e2.melee_range[k],
        ) by {
            assert(spec_id_valid_in(m, e.melee_range[k]));
        }
        assert forall|k: int| 0 <= k < e2.missile_range.len() implies spec_id_valid_in(
            m2,
            #[trigger] e2.missile_range[k],
        ) by {
            assert(spec_id_valid_in(m, e.missile_range[k]));
        }
    }
}

/// Event validity carries over between worlds with the same ids.
proof fn lemma_event_wf_transfer(m1: Seq<UnitModel>, m2: Seq<UnitModel>, event: UnitInteractionEvent)
    requires
        m2.len() == m1.len(),
        forall|i: int| 0 <= i < m1.len() ==> (#[trigger] m2[i]).id == m1[i].id,
        spec_event_wf(m1, event),
    ensures
        spec_event_wf(m2, event),
{
    lemma_valid_transfer(m1, m2);
}

/// One live event keeps the world well formed and changes no id.
proof fn lemma_apply_live_event_wf(m: Seq<UnitModel>, event: UnitInteractionEvent)
    requires
        spec_wf_model(m),
        spec_event_wf(m, event),
    ensures
        spec_wf_model(spec_apply_live_event(m, event)),
        spec_apply_live_event(m, event).len() == m.len(),
        forall|i: int|
            0 <= i < m.len() ==> (#[trigger] spec_apply_live_event(m, event)[i]).id == m[i].id,
        forall|i: int|
            0 <= i < m.len() ==> (#[trigger] spec_apply_live_event(m, event)[i]).missile
                == m[i].missile,
{
    match event {
        UnitInteractionEvent::Proximity(contact) => match contact {
            ContactType::UnitFiringRangeEnter { range_of, target } => {
                lemma_apply_proximity_wf(m, range_of, target, EnterOrExit::Enter, AttackType::Ranged);
            },
            ContactType::UnitFiringRangeExit { range_of, target } => {
                lemma_apply_proximity_wf(m, range_of, target, EnterOrExit::Exit, AttackType::Ranged);
            },
            ContactType::UnitUnitMeleeEnter(e1, e2) => {
                lemma_apply_proximity_wf(m, e1, e2, EnterOrExit::Enter, AttackType::Melee);
                let mid = spec_apply_proximity(m, e1, e2, EnterOrExit::Enter, AttackType::Melee);
                lemma_valid_transfer(m, mid);
                lemma_apply_proximity_wf(mid, e2, e1, EnterOrExit::Enter, AttackType::Melee);
            },
            ContactType::UnitUnitMeleeExit(e1, e2) => {
                lemma_apply_proximity_wf(m, e1, e2, EnterOrExit::Exit, AttackType::Melee);
                let mid = spec_apply_proximity(m, e1, e2, EnterOrExit::Exit, AttackType::Melee);
                lemma_valid_transfer(m, mid);
                lemma_apply_proximity_wf(mid, e2, e1, EnterOrExit::Exit, AttackType::Melee);
            },
        },
        UnitInteractionEvent::Ui(id, cmd) => {
            lemma_apply_ui_wf(m, id, cmd);
        },
        UnitInteractionEvent::UnitWaypointReached(id) => {
            lemma_apply_waypoint_reached_wf(m, id);
        },
        UnitInteractionEvent::UnitDied(_) => {},
    }
}

/// A whole tick's events keep the world well formed and change no id.
pub proof fn lemma_apply_events_wf(m: Seq<UnitModel>, events: Seq<UnitInteractionEvent>)
    requires
        spec_wf_model(m),
        forall|k: int| 0 <= k < events.len() ==> spec_event_wf(m, #[trigger] events[k]),
    ensures
        spec_wf_model(spec_apply_events(m, events)),
        spec_apply_events(m, events).len() == m.len(),
        forall|i: int|
            0 <= i < m.len() ==> (#[trigger] spec_apply_events(m, events)[i]).id == m[i].id,
        forall|i: int|
            0 <= i < m.len() ==> (#[trigger] spec_apply_events(m, events)[i]).missile
                == m[i].missile,
    decreases events.len(),
{
    if events.len() > 0 {
        let evs = events.drop_last();
        assert forall|k: int| 0 <= k < evs.len() implies spec_event_wf(m, #[trigger] evs[k]) by {
            assert(evs[k] == events[k]);
        }
        lemma_apply_events_wf(m, evs);
        let prev = spec_apply_events(m, evs);
        lemma_event_wf_transfer(m, prev, events.last());
        lemma_apply_live_event_wf(prev, events.last());
    }
}

/// Ingests one tick's events and runs death cleanup, unless the game is
/// paused, in which case nothing at all is applied.
///
/// Proximity reports and user actions are applied in event order; death
/// notices are collected and handed to the death propagator after every
/// other event has been applied, so a unit that died this tick is scrubbed
/// from every order, target and range list before the next decision pass.
pub fn unit_event_system(
    world: &mut World,
    game_speed: &crate::game_speed::GameSpeed,
    events: &Vec<UnitInteractionEvent>,
)
    requires
        !game_speed.is_paused ==> old(world).spec_wf(),
        !game_speed.is_paused ==> forall|k: int|
            0 <= k < events@.len() ==> spec_event_wf(old(world)@, #[trigger] events@[k]),
    ensures
        game_speed.is_paused ==> final(world)@ == old(world)@,
        !game_speed.is_paused ==> final(world)@ == spec_cleanup(
            spec_apply_events(old(world)@, events@),
            spec_dead_of(events@),
        ),
        !game_speed.is_paused ==> final(world).spec_wf(),
{
    if game_speed.is_paused() {
        return ;
    }
    let ghost m0 = world@;
    let mut dead_units: Vec<EntityId> = Vec::new();
    let n = events.len();
    let mut i: usize = 0;
    while i < n
        invariant
            n == events@.len(),
            0 <= i <= n,
            forall|k: int| 0 <= k < n ==> spec_event_wf(m0, #[trigger] events@[k]),
            world@ == spec_apply_events(m0, events@.take(i as int)),
            dead_units@ == spec_dead_of(events@.take(i as int)),
            spec_wf_model(m0),
            spec_wf_model(world@),
            world@.len() == m0.len(),
            forall|j: int| 0 <= j < m0.len() ==> (#[trigger] world@[j]).id == m0[j].id,
        decreases n - i,
    {
        let event = events[i];
        proof {
            assert(events@.take(i + 1 as int).drop_last() =~= events@.take(i as int));
            assert(events@.take(i + 1 as int).last() == events@[i as int]);
            lemma_event_wf_transfer(m0, world@, event);
            lemma_apply_live_event_wf(world@, event);
        }
        let ghost m_before = world@;
        match event {
            UnitInteractionEvent::Proximity(contact) => {
                match contact {
                    ContactType::UnitFiringRangeEnter { range_of, target } => {
                        process_unit_proximity(
                            world,
                            range_of,
                            target,
                            EnterOrExit::Enter,
                            AttackType::Ranged,
                        );
                    }
                    ContactType::UnitFiringRangeExit { range_of, target } => {
                        process_unit_proximity(
                            world,
                            range_of,
                            target,
                            EnterOrExit::Exit,
                            AttackType::Ranged,
                        );
                    }
                    ContactType::UnitUnitMeleeEnter(e1, e2) => {
                        process_unit_proximity(world, e1, e2, EnterOrExit::Enter, AttackType::Melee);
                        proof {
                            lemma_apply_proximity_wf(
                                m_before,
                                e1,
                                e2,
                                EnterOrExit::Enter,
                                AttackType::Melee,
                            );
                            lemma_valid_transfer(m_before, world@);
                        }
                        process_unit_proximity(world, e2, e1, EnterOrExit::Enter, AttackType::Melee);
                    }
                    ContactType::UnitUnitMeleeExit(e1, e2) => {
                        process_unit_proximity(world, e1, e2, EnterOrExit::Exit, AttackType::Melee);
                        proof {
                            lemma_apply_proximity_wf(
                                m_before,
                                e1,
                                e2,
                                EnterOrExit::Exit,
                                AttackType::Melee,
                            );
                            lemma_valid_transfer(m_before, world@);
                        }
                        process_unit_proximity(world, e2, e1, EnterOrExit::Exit, AttackType::Melee);
                    }
                }
            }
            UnitInteractionEvent::Ui(entity, cmd) => {
                process_unit_command(world, entity, cmd);
            }
            UnitInteractionEvent::UnitWaypointReached(e1) => {
                process_waypoint_reached(world, e1);
            }
            UnitInteractionEvent::UnitDied(e) => {
                dead_units.push(e);
            }
        }
        proof {
            assert(world@ == spec_apply_live_event(m_before, event));
            assert(world@ == spec_apply_events(m0, events@.take(i + 1 as int)));
            assert(dead_units@ == spec_dead_of(events@.take(i + 1 as int)));
        }
        i = i + 1;
    }
    proof {
        assert(events@.take(n as int) =~= events@);
    }
    let ghost m_applied = world@;
    death_propagator(world, &dead_units);
    proof {
        lemma_cleanup_wf(m_applied, dead_units@);
    }
}


// ---------------------------------------------------------------------------
// The per-tick decision pass
// ---------------------------------------------------------------------------

/// The decision engine applied to one unit's own components.
pub open spec fn spec_decide(e: UnitModel) -> UnitState {
    spec_next_unit_state(
        e.unit.current_command,
        e.melee_range,
        e.missile_range,
        e.unit.guard_mode_enabled,
        e.unit.fire_at_will,
        e.missile.spec_is_missile_attack_available(),
        e.unit.spec_can_fire_while_moving(),
        e.unit.state.spec_actively_fighting(),
    )
}

pub open spec fn spec_with_decided_state(e: UnitModel) -> UnitModel {
    UnitModel { unit: UnitComponent { state: spec_decide(e), ..e.unit }, ..e }
}

/// The whole population's activity states recomputed from the pre-tick
/// snapshot: no unit's decision sees another unit's freshly written state,
/// because a decision reads only the deciding unit's own components.
pub open spec fn spec_state_machine_pass(m: Seq<UnitModel>) -> Seq<UnitModel> {
    m.map_values(|e: UnitModel| spec_with_decided_state(e))
}

/// After a decision pass every unit in a firing state has a missile attack
/// available: ammunition was checked on the way into the state.
pub open spec fn spec_firing_have_ammo(m: Seq<UnitModel>) -> bool {
    forall|i: int|
        0 <= i < m.len() ==> (match (#[trigger] m[i]).unit.state {
            UnitState::Firing(_) => m[i].missile.spec_is_missile_attack_available(),
            UnitState::FiringAndMoving(_) => m[i].missile.spec_is_missile_attack_available(),
            _ => true,
        })
}

/// A decision pass keeps the world well formed and leaves every firing
/// unit with ammunition.
pub proof fn lemma_state_machine_pass_wf(m: Seq<UnitModel>)
    requires
        spec_wf_model(m),
    ensures
        spec_wf_model(spec_state_machine_pass(m)),
        spec_state_machine_pass(m).len() == m.len(),
        forall|i: int|
            0 <= i < m.len() ==> (#[trigger] spec_state_machine_pass(m)[i]).id == m[i].id,
        spec_firing_have_ammo(spec_state_machine_pass(m)),
{
    let m2 = spec_state_machine_pass(m);
    assert forall|i: int| 0 <= i < m.len() implies (#[trigger] m2[i]).id == m[i].id by {}
    lemma_valid_transfer(m, m2);
    assert forall|i: int| 0 <= i < m2.len() implies (#[trigger] m2[i]).spec_local_wf() by {
        assert(m[i].spec_local_wf());
    }
    assert forall|i: int| 0 <= i < m2.len() implies crate::world::spec_refs_ok_at(m2, i) by {
        assert(crate::world::spec_refs_ok_at(m, i));
        let e = m[i];
        let e2 = m2[i];
        lemma_next_state_target_source(
            e.unit.current_command,
            e.melee_range,
            e.missile_range,
            e.unit.guard_mode_enabled,
            e.unit.fire_at_will,
            e.missile.spec_is_missile_attack_available(),
            e.unit.spec_can_fire_while_moving(),
            e.unit.state.spec_actively_fighting(),
        );
        match e2.unit.state.spec_actively_fighting() {
            Some(t) => {
                if e.melee_range.contains(t) {
                    let w = choose|w: int| 0 <= w < e.melee_range.len() && e.melee_range[w] == t;
                    assert(spec_id_valid_in(m, e.melee_range[w]));
                } else if e.missile_range.contains(t) {
                    let w = choose|w: int|
                        0 <= w < e.missile_range.len() && e.missile_range[w] == t;
                    assert(spec_id_valid_in(m, e.missile_range[w]));
                }
            },
            None => {},
        }
        assert forall|k: int| 0 <= k < e2.melee_range.len() implies spec_id_valid_in(
            m2,
            #[trigger] e2.melee_range[k],
        ) by {
            assert(spec_id_valid_in(m, e.melee_range[k]));
        }
        assert forall|k: int| 0 <= k < e2.missile_range.len() implies spec_id_valid_in(
            m2,
            #[trigger] e2.missile_range[k],
        ) by {
            assert(spec_id_valid_in(m, e.missile_range[k]));
        }
    }
    assert forall|i: int|
        0 <= i < m2.len() implies (match (#[trigger] m2[i]).unit.state {
        UnitState::Firing(_) => m2[i].missile.spec_is_missile_attack_available(),
        UnitState::FiringAndMoving(_) => m2[i].missile.spec_is_missile_attack_available(),
        _ => true,
    }) by {
        let e = m[i];
        lemma_firing_needs_ammo(
            e.unit.current_command,
            e.melee_range,
            e.missile_range,
            e.unit.guard_mode_enabled,
            e.unit.fire_at_will,
            e.missile.spec_is_missile_attack_available(),
            e.unit.spec_can_fire_while_moving(),
            e.unit.state.spec_actively_fighting(),
        );
    }
}

/// Melee pre-emption across the whole population: after a decision pass,
/// every unit with at least one enemy inside melee reach — whatever its
/// standing order and toggles — is fighting hand to hand with a live
/// target, never firing, moving or idle.
pub proof fn lemma_melee_preemption_pass(m: Seq<UnitModel>)
    ensures
        forall|i: int|
            0 <= i < m.len() && (#[trigger] m[i]).melee_range.len() > 0 ==> (
            spec_state_machine_pass(m)[i].unit.state matches UnitState::Melee(t) && t is Some),
{
    assert forall|i: int|
        0 <= i < m.len() && (#[trigger] m[i]).melee_range.len() > 0 implies (spec_state_machine_pass(
        m,
    )[i].unit.state matches UnitState::Melee(t) && t is Some) by {
        let e = m[i];
        lemma_melee_preemption(
            e.unit.current_command,
            e.melee_range,
            e.missile_range,
            e.unit.guard_mode_enabled,
            e.unit.fire_at_will,
            e.missile.spec_is_missile_attack_available(),
            e.unit.spec_can_fire_while_moving(),
            e.unit.state.spec_actively_fighting(),
        );
    }
}

/// Firing is for ranged-primary units only: in a well-formed world a
/// melee-primary unit has no missile attack available, so a decision pass
/// never puts one in a firing state — melee can arise for any unit
/// opportunistically, firing cannot.
pub proof fn lemma_firing_is_ranged_only(m: Seq<UnitModel>)
    requires
        spec_wf_model(m),
    ensures
        forall|i: int|
            0 <= i < m.len() && (#[trigger] m[i]).unit.spec_primary_attack_type()
                == AttackType::Melee ==> {
                let next = spec_state_machine_pass(m)[i].unit.state;
                !(next is Firing) && !(next is FiringAndMoving)
            },
{
    assert forall|i: int|
        0 <= i < m.len() && (#[trigger] m[i]).unit.spec_primary_attack_type()
            == AttackType::Melee implies {
        let next = spec_state_machine_pass(m)[i].unit.state;
        !(next is Firing) && !(next is FiringAndMoving)
    } by {
        let e = m[i];
        assert(e.spec_local_wf());
        assert(!e.missile.spec_is_missile_attack_available());
        lemma_firing_needs_ammo(
            e.unit.current_command,
            e.melee_range,
            e.missile_range,
            e.unit.guard_mode_enabled,
            e.unit.fire_at_will,
            e.missile.spec_is_missile_attack_available(),
            e.unit.spec_can_fire_while_moving(),
            e.unit.state.spec_actively_fighting(),
        );
    }
}

/// Recomputes every unit's activity state for this tick from its standing
/// order, proximity sets, toggles, ammunition and previously engaged
/// opponent; a no-op while the game is paused.
pub fn unit_state_machine_system(world: &mut World, game_speed: &crate::game_speed::GameSpeed)
    requires
        !game_speed.is_paused ==> old(world).spec_wf(),
    ensures
        game_speed.is_paused ==> final(world)@ == old(world)@,
        !game_speed.is_paused ==> final(world)@ == spec_state_machine_pass(old(world)@),
        !game_speed.is_paused ==> final(world).spec_wf(),
        !game_speed.is_paused ==> spec_firing_have_ammo(final(world)@),
{
    if game_speed.is_paused() {
        return ;
    }
    let ghost m0 = world@;
    let ghost u0 = world.units@;
    let n = world.units.len();
    let mut i: usize = 0;
    while i < n
        invariant
            n == world.units@.len(),
            0 <= i <= n,
            world.units@.len() == u0.len(),
            forall|j: int|
                0 <= j < i ==> (#[trigger] world.units@[j])@ == spec_with_decided_state(u0[j]@),
            forall|j: int| i <= j < n ==> #[trigger] world.units@[j] == u0[j],
        decreases n - i,
    {
        let new_state = {
            let e = &world.units[i];
            calculate_next_unit_state_and_target(
                &e.unit.current_command,
                &e.nearby.melee_range,
                &e.nearby.missile_range,
                e.unit.guard_mode_enabled,
                e.unit.fire_at_will,
                e.missile.is_missile_attack_available(),
                e.unit.can_fire_while_moving(),
                e.unit.state.current_actively_fighting(),
            )
        };
        world.units[i].unit.state = new_state;
        proof {
            assert(world.units@[i as int]@ =~~= spec_with_decided_state(u0[i as int]@));
        }
        i = i + 1;
    }
    proof {
        assert(m0 == u0.map_values(|e: UnitEntry| e@));
        assert forall|j: int| 0 <= j < n implies world@[j] == spec_with_decided_state(m0[j]) by {
            assert(world@[j] == world.units@[j]@);
            assert(m0[j] == u0[j]@);
        }
        assert(world@ =~~= spec_state_machine_pass(m0));
        lemma_state_machine_pass_wf(m0);
    }
}

// ---------------------------------------------------------------------------
// The waypoint resolver
// ---------------------------------------------------------------------------

/// The position of the unit carrying `id`; meaningful when some unit does.
pub open spec fn spec_pos_of(m: Seq<UnitModel>, id: EntityId) -> crate::XyPos {
    let i = choose|i: int| 0 <= i < m.len() && (#[trigger] m[i]).id == id;
    m[i].pos
}

/// With unique ids, any index carrying `id` gives the position.
pub proof fn lemma_pos_of(m: Seq<UnitModel>, id: EntityId, w: int)
    requires
        spec_ids_unique_in(m),
        0 <= w < m.len(),
        m[w].id == id,
    ensures
        spec_pos_of(m, id) == m[w].pos,
{
    let i = choose|i: int| 0 <= i < m.len() && (#[trigger] m[i]).id == id;
    if i != w {
        assert(m[i].id != m[w].id);
    }
}

/// Where one unit is heading, a pure derivation from the standing order:
/// an attack order tracks the target's live position, a move order carries
/// its own point, and with no order there is no waypoint — the unit holds
/// position.
pub open spec fn spec_waypoint_for(m: Seq<UnitModel>, e: UnitModel) -> crate::WaypointComponent {
    match e.unit.current_command {
        UnitUserCommand::AttackMelee(t) => crate::WaypointComponent::Position(spec_pos_of(m, t)),
        UnitUserCommand::AttackMissile(t) => crate::WaypointComponent::Position(spec_pos_of(m, t)),
        UnitUserCommand::Move(p) => crate::WaypointComponent::Position(p),
        UnitUserCommand::None_ => crate::WaypointComponent::Idle,
    }
}

/// The whole waypoint pass, reading positions from the pre-pass world;
/// positions do not change during the pass, so the live position and the
/// snapshot agree.
pub open spec fn spec_waypoint_pass(m: Seq<UnitModel>) -> Seq<UnitModel> {
    m.map_values(|e: UnitModel| UnitModel { waypoint: spec_waypoint_for(m, e), ..e })
}

/// A waypoint pass keeps the world well formed: a target's position is
/// bounded like every position, a move order's point is bounded by the
/// order's own well-formedness.
pub proof fn lemma_waypoint_pass_wf(m: Seq<UnitModel>)
    requires
        spec_wf_model(m),
    ensures
        spec_wf_model(spec_waypoint_pass(m)),
        spec_waypoint_pass(m).len() == m.len(),
        forall|i: int| 0 <= i < m.len() ==> (#[trigger] spec_waypoint_pass(m)[i]).id == m[i].id,
{
    let m2 = spec_waypoint_pass(m);
    assert forall|i: int| 0 <= i < m.len() implies (#[trigger] m2[i]).id == m[i].id by {}
    lemma_valid_transfer(m, m2);
    assert forall|i: int| 0 <= i < m2.len() implies (#[trigger] m2[i]).spec_local_wf() by {
        assert(m[i].spec_local_wf());
        let e = m[i];
        match e.unit.current_command {
            UnitUserCommand::AttackMelee(t) => {
                assert(crate::world::spec_refs_ok_at(m, i));
                let w = choose|w: int| 0 <= w < m.len() && (#[trigger] m[w]).id == t;
                lemma_pos_of(m, t, w);
                assert(m[w].spec_local_wf());
            },
            UnitUserCommand::AttackMissile(t) => {
                assert(crate::world::spec_refs_ok_at(m, i));
                let w = choose|w: int| 0 <= w < m.len() && (#[trigger] m[w]).id == t;
                lemma_pos_of(m, t, w);
                assert(m[w].spec_local_wf());
            },
            _ => {},
        }
    }
    assert forall|i: int| 0 <= i < m2.len() implies crate::world::spec_refs_ok_at(m2, i) by {
        assert(crate::world::spec_refs_ok_at(m, i));
        let e = m[i];
        let e2 = m2[i];
        assert forall|k: int| 0 <= k < e2.melee_range.len() implies spec_id_valid_in(
            m2,
            #[trigger] e2.melee_range[k],
        ) by {
            assert(spec_id_valid_in(m, e.melee_range[k]));
        }
        assert forall|k: int| 0 <= k < e2.missile_range.len() implies spec_id_valid_in(
            m2,
            #[trigger] e2.missile_range[k],
        ) by {
            assert(spec_id_valid_in(m, e.missile_range[k]));
        }
    }
}

/// Recomputes every unit's movement destination from its standing order:
/// an attack order follows the target's current position, a move order its
/// point, and no order leaves no waypoint; a no-op while the game is
/// paused.
pub fn unit_waypoint_system(world: &mut World, game_speed: &crate::game_speed::GameSpeed)
    requires
        !game_speed.is_paused ==> old(world).spec_wf(),
    ensures
        game_speed.is_paused ==> final(world)@ == old(world)@,
        !game_speed.is_paused ==> final(world)@ == spec_waypoint_pass(old(world)@),
        !game_speed.is_paused ==> final(world).spec_wf(),
{
    if game_speed.is_paused() {
        return ;
    }
    let ghost m0 = world@;
    let ghost u0 = world.units@;
    let n = world.units.len();
    let mut i: usize = 0;
    while i < n
        invariant
            n == world.units@.len(),
            0 <= i <= n,
            spec_wf_model(m0),
            m0 == u0.map_values(|e: UnitEntry| e@),
            world.units@.len() == u0.len(),
            forall|j: int|
                0 <= j < i ==> (#[trigger] world.units@[j])@ == (UnitModel {
                    waypoint: spec_waypoint_for(m0, u0[j]@),
                    ..u0[j]@
                }),
            forall|j: int| i <= j < n ==> #[trigger] world.units@[j] == u0[j],
            forall|j: int| 0 <= j < n ==> (#[trigger] world.units@[j]).pos == u0[j].pos,
            forall|j: int| 0 <= j < n ==> (#[trigger] world.units@[j]).id == u0[j].id,
        decreases n - i,
    {
        let cmd = world.units[i].unit.current_command;
        match cmd {
            UnitUserCommand::AttackMelee(target) | UnitUserCommand::AttackMissile(target) => {
                proof {
                    assert(world.units@[i as int]@ == u0[i as int]@);
                    assert(m0[i as int] == u0[i as int]@);
                    assert(crate::world::spec_refs_ok_at(m0, i as int));
                    assert(spec_id_valid_in(m0, target));
                    lemma_valid_transfer(m0, world@);
                }
                let w = match world.find_index(target) {
                    Some(w) => w,
                    None => {
                        proof {
                            assert(spec_id_valid_in(world@, target));
                            assert(false);
                        }
                        0
                    },
                };
                let target_pos = world.units[w].pos;
                proof {
                    assert(world@[w as int].id == target);
                    assert(m0[w as int].id == target);
                    lemma_pos_of(m0, target, w as int);
                    assert(target_pos == m0[w as int].pos);
                }
                world.units[i].waypoint = crate::WaypointComponent::Position(target_pos);
            }
            UnitUserCommand::Move(wp) => {
                world.units[i].waypoint = crate::WaypointComponent::Position(wp);
            }
            UnitUserCommand::None_ => {
                world.units[i].waypoint = crate::WaypointComponent::Idle;
            }
        }
        proof {
            assert(world.units@[i as int]@ =~~= (UnitModel {
                waypoint: spec_waypoint_for(m0, u0[i as int]@),
                ..u0[i as int]@
            }));
        }
        i = i + 1;
    }
    proof {
        assert forall|j: int| 0 <= j < n implies world@[j] == (UnitModel {
            waypoint: spec_waypoint_for(m0, m0[j]),
            ..m0[j]
        }) by {
            assert(world@[j] == world.units@[j]@);
            assert(m0[j] == u0[j]@);
        }
        assert(world@ =~~= spec_waypoint_pass(m0));
        lemma_waypoint_pass_wf(m0);
    }
}


} // verus!
