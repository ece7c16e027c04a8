use tntw::game_speed::GameSpeed;
use tntw::units::{death_propagator, unit_event_system};
use tntw::world::World;
use tntw::{
    CombatComponent, HealthComponent, MissileWeaponComponent, UnitComponent, UnitInteractionEvent,
    UnitState, UnitUserCommand, XyPos,
};

fn spawn_plain(world: &mut World, id: u64, x: i64) {
    world.spawn(
        id,
        UnitComponent::default(),
        MissileWeaponComponent::Unarmed,
        HealthComponent::default(),
        CombatComponent::default(),
        XyPos { x, y: 0 },
    );
}

fn cross_referenced_world() -> World {
    let mut world = World::new();
    spawn_plain(&mut world, 1, 0);
    spawn_plain(&mut world, 2, 10_000);
    spawn_plain(&mut world, 3, 20_000);
    world.units[0].unit.state = UnitState::Melee(Some(3));
    world.units[0].unit.current_command = UnitUserCommand::AttackMelee(3);
    world.units[1].nearby.melee_range = vec![3, 1];
    world.units[1].nearby.missile_range = vec![3];
    world
}

#[test]
fn death_cleanup_scrubs_every_reference() {
    let mut world = cross_referenced_world();
    death_propagator(&mut world, &vec![3]);
    assert_eq!(world.units.len(), 2);
    assert!(world.find_index(3).is_none());
    // The fighting posture survives for one tick with its target gone.
    assert_eq!(world.units[0].unit.state, UnitState::Melee(None));
    assert!(matches!(world.units[0].unit.current_command, UnitUserCommand::None_));
    assert_eq!(world.units[1].nearby.melee_range, vec![1]);
    assert!(world.units[1].nearby.missile_range.is_empty());
}

#[test]
fn death_cleanup_twice_is_a_no_op_the_second_time() {
    let mut once = cross_referenced_world();
    death_propagator(&mut once, &vec![3]);
    let mut twice = cross_referenced_world();
    death_propagator(&mut twice, &vec![3]);
    death_propagator(&mut twice, &vec![3]);
    assert_eq!(once.units.len(), twice.units.len());
    for (a, b) in once.units.iter().zip(twice.units.iter()) {
        assert_eq!(a.id, b.id);
        assert_eq!(a.unit.state, b.unit.state);
        assert!(matches!(b.unit.current_command, UnitUserCommand::None_) == matches!(
            a.unit.current_command,
            UnitUserCommand::None_
        ));
        assert_eq!(a.nearby.melee_range, b.nearby.melee_range);
        assert_eq!(a.nearby.missile_range, b.nearby.missile_range);
    }
}

#[test]
fn event_system_tracks_proximity_both_ways_for_melee() {
    let mut world = World::new();
    spawn_plain(&mut world, 1, 0);
    spawn_plain(&mut world, 2, 10_000);
    let gs = GameSpeed::default();
    let events = vec![UnitInteractionEvent::Proximity(
        tntw::physics::ContactType::UnitUnitMeleeEnter(1, 2),
    )];
    unit_event_system(&mut world, &gs, &events);
    assert_eq!(world.units[0].nearby.melee_range, vec![2]);
    assert_eq!(world.units[1].nearby.melee_range, vec![1]);
    // A second enter for the same pair adds no duplicate.
    unit_event_system(&mut world, &gs, &events);
    assert_eq!(world.units[0].nearby.melee_range, vec![2]);
    let exits = vec![UnitInteractionEvent::Proximity(
        tntw::physics::ContactType::UnitUnitMeleeExit(1, 2),
    )];
    unit_event_system(&mut world, &gs, &exits);
    assert!(world.units[0].nearby.melee_range.is_empty());
    assert!(world.units[1].nearby.melee_range.is_empty());
}

#[test]
fn firing_range_proximity_is_one_sided() {
    let mut world = World::new();
    spawn_plain(&mut world, 1, 0);
    spawn_plain(&mut world, 2, 10_000);
    let gs = GameSpeed::default();
    let events = vec![UnitInteractionEvent::Proximity(
        tntw::physics::ContactType::UnitFiringRangeEnter { range_of: 1, target: 2 },
    )];
    unit_event_system(&mut world, &gs, &events);
    assert_eq!(world.units[0].nearby.missile_range, vec![2]);
    assert!(world.units[1].nearby.missile_range.is_empty());
}

#[test]
fn died_event_cleans_up_within_the_same_ingestion() {
    let mut world = cross_referenced_world();
    let gs = GameSpeed::default();
    let events = vec![UnitInteractionEvent::UnitDied(3)];
    unit_event_system(&mut world, &gs, &events);
    assert_eq!(world.units.len(), 2);
    assert_eq!(world.units[0].unit.state, UnitState::Melee(None));
    assert!(world.units[1].nearby.missile_range.is_empty());
}

#[test]
fn paused_event_system_applies_nothing() {
    let mut world = cross_referenced_world();
    let mut gs = GameSpeed::default();
    gs.pause();
    let events = vec![UnitInteractionEvent::UnitDied(3)];
    unit_event_system(&mut world, &gs, &events);
    assert_eq!(world.units.len(), 3);
    assert_eq!(world.units[0].unit.state, UnitState::Melee(Some(3)));
}

#[test]
fn spawn_and_find_index_round_trip() {
    let mut world = World::new();
    spawn_plain(&mut world, 42, 0);
    spawn_plain(&mut world, 7, 5_000);
    assert_eq!(world.len(), 2);
    assert_eq!(world.find_index(42), Some(0));
    assert_eq!(world.find_index(7), Some(1));
    assert_eq!(world.find_index(9), None);
}
