//! A two-unit battle driven tick by tick: a wounded melee infantryman
//! stands still while a missile infantryman is ordered to attack him,
//! closes to firing range, and shoots him down.

use tntw::game_speed::GameSpeed;
use tntw::tick::run_tick_with_rolls;
use tntw::world::World;
use tntw::{
    CombatComponent, HealthComponent, MissileWeaponComponent, UnitComponent, UnitInteractionEvent,
    UnitState, UnitUiCommand, UnitUiSpeedCommand, UnitType, XyPos,
};

const A: u64 = 1;
const B: u64 = 2;

fn battlefield() -> World {
    let mut world = World::new();
    let (ua, ma) = UnitComponent::default_from_type(UnitType::MeleeInfantry, 1);
    let (ub, mb) = UnitComponent::default_from_type(UnitType::MissileInfantry, 2);
    // A starts wounded at half of the default 100 hit points.
    world.spawn(
        A,
        ua,
        ma,
        HealthComponent::new(50_000, 100_000),
        CombatComponent::default(),
        XyPos { x: 0, y: 0 },
    );
    // B spawns 300 world units away; its bow reaches 100.
    world.spawn(
        B,
        ub,
        mb,
        HealthComponent::default(),
        CombatComponent::default(),
        XyPos { x: 300_000, y: 0 },
    );
    world
}

fn ammo_of(world: &World, idx: usize) -> usize {
    match world.units[idx].missile {
        MissileWeaponComponent::Primary(stats) => stats.current_ammunition,
        _ => panic!("expected a primary weapon"),
    }
}

#[test]
fn missile_infantry_closes_and_shoots_down_its_target() {
    let mut world = battlefield();
    let gs = GameSpeed::default();
    let zero_melee = vec![(0, 0, 0), (0, 0, 0)];
    let zero_missile = vec![0, 0];
    let dt = 1000;

    // B is ordered to attack A; its primary attack is ranged, so the
    // order becomes a missile attack, and with A far outside the 100-unit
    // range B chases at a run: 80 units per tick.
    let order = vec![UnitInteractionEvent::Ui(
        B,
        UnitUiCommand::Attack(A, UnitUiSpeedCommand::Run),
    )];
    run_tick_with_rolls(&mut world, &gs, &order, dt, &zero_melee, &zero_missile);
    assert_eq!(world.units[1].unit.state, UnitState::Moving);
    assert_eq!(world.units[1].pos, XyPos { x: 220_000, y: 0 });
    assert_eq!(ammo_of(&world, 1), 500);
    assert_eq!(world.units[0].health.current_health, 50_000);

    let none: Vec<UnitInteractionEvent> = Vec::new();
    run_tick_with_rolls(&mut world, &gs, &none, dt, &zero_melee, &zero_missile);
    assert_eq!(world.units[1].pos, XyPos { x: 140_000, y: 0 });
    run_tick_with_rolls(&mut world, &gs, &none, dt, &zero_melee, &zero_missile);
    assert_eq!(world.units[1].pos, XyPos { x: 60_000, y: 0 });
    assert_eq!(world.units[1].unit.state, UnitState::Moving);

    // A is now 60 units away, inside B's 100-unit firing radius: the
    // physics collaborator reports the range contact, B stands and fires.
    // With armour rolls of zero each arrow takes 25 - 0 + 3 = 28 points.
    let contact = vec![UnitInteractionEvent::Proximity(
        tntw::physics::ContactType::UnitFiringRangeEnter { range_of: B, target: A },
    )];
    run_tick_with_rolls(&mut world, &gs, &contact, dt, &zero_melee, &zero_missile);
    assert_eq!(world.units[1].unit.state, UnitState::Firing(Some(A)));
    assert_eq!(world.units[1].pos, XyPos { x: 60_000, y: 0 });
    assert_eq!(ammo_of(&world, 1), 499);
    assert_eq!(world.units[0].health.current_health, 22_000);

    // The second arrow drops A below zero: A dies and is removed the same
    // tick, and every reference to it is scrubbed before the next one.
    run_tick_with_rolls(&mut world, &gs, &none, dt, &zero_melee, &zero_missile);
    assert_eq!(world.units.len(), 1);
    assert_eq!(world.units[0].id, B);
    assert_eq!(ammo_of(&world, 0), 498);
    assert_eq!(world.units[0].unit.state, UnitState::Firing(None));
    assert!(matches!(
        world.units[0].unit.current_command,
        tntw::UnitUserCommand::None_
    ));
    assert!(world.units[0].nearby.missile_range.is_empty());

    // With its target gone and no one in range, B falls idle.
    run_tick_with_rolls(&mut world, &gs, &none, dt, &vec![(0, 0, 0)], &vec![0]);
    assert_eq!(world.units[0].unit.state, UnitState::Idle);
    assert_eq!(ammo_of(&world, 0), 498);
}
