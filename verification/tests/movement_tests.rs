use tntw::game_speed::GameSpeed;
use tntw::movement::move_toward;
use tntw::tick::run_tick_with_rolls;
use tntw::world::World;
use tntw::{
    CombatComponent, HealthComponent, MissileWeaponComponent, UnitComponent, UnitInteractionEvent,
    UnitState, UnitUiCommand, UnitUiSpeedCommand, UnitUserCommand, XyPos,
};

#[test]
fn a_long_step_snaps_onto_the_destination() {
    let (pos, reached) = move_toward(XyPos { x: 0, y: 0 }, XyPos { x: 10_000, y: 0 }, 25_000);
    assert!(reached);
    assert_eq!(pos, XyPos { x: 10_000, y: 0 });
}

#[test]
fn a_short_step_advances_exactly_along_the_line() {
    // 300 world units away on the x axis, stepping 80: the distance root
    // is exact and the step lands exactly 80 units closer.
    let (pos, reached) = move_toward(XyPos { x: 300_000, y: 0 }, XyPos { x: 0, y: 0 }, 80_000);
    assert!(!reached);
    assert_eq!(pos, XyPos { x: 220_000, y: 0 });
}

#[test]
fn a_diagonal_step_uses_the_rounded_distance() {
    // From the origin toward (3000, 4000): distance 5000, step 1000 moves
    // exactly one fifth of each offset.
    let (pos, reached) = move_toward(XyPos { x: 0, y: 0 }, XyPos { x: 3_000, y: 4_000 }, 1_000);
    assert!(!reached);
    assert_eq!(pos, XyPos { x: 600, y: 800 });
}

fn lone_walker() -> World {
    let mut world = World::new();
    let (unit, missile) = UnitComponent::default_from_type(tntw::UnitType::MeleeInfantry, 1);
    world.spawn(
        9,
        unit,
        missile,
        HealthComponent::default(),
        CombatComponent::default(),
        XyPos { x: 0, y: 0 },
    );
    world
}

#[test]
fn move_order_round_trip_reaches_idle() {
    // A move order to an isolated unit: the unit goes into the moving
    // state, arrives, the arrival fires exactly once, and afterwards the
    // unit is idle with no standing order.
    let mut world = lone_walker();
    let gs = GameSpeed::default();
    let target = XyPos { x: 10_000, y: 0 };
    let order = vec![UnitInteractionEvent::Ui(
        9,
        UnitUiCommand::Move(target, UnitUiSpeedCommand::Walk),
    )];
    let melee_rolls = vec![(0, 0, 0)];
    let missile_rolls = vec![0];
    // Walking speed 25 units per second covers the 10 units in one tick.
    let out = run_tick_with_rolls(&mut world, &gs, &order, 1000, &melee_rolls, &missile_rolls);
    assert_eq!(world.units[0].pos, target);
    assert_eq!(out.len(), 1);
    assert!(matches!(out[0], UnitInteractionEvent::UnitWaypointReached(9)));
    assert!(matches!(world.units[0].unit.current_command, UnitUserCommand::Move(_)));

    // The arrival notice clears the bare move order; the next decision
    // leaves the unit idle and no further arrival fires.
    let out2 = run_tick_with_rolls(&mut world, &gs, &out, 1000, &melee_rolls, &missile_rolls);
    assert!(matches!(world.units[0].unit.current_command, UnitUserCommand::None_));
    assert_eq!(world.units[0].unit.state, UnitState::Idle);
    assert!(out2.is_empty());
    assert_eq!(world.units[0].pos, target);
}

#[test]
fn only_moving_states_move() {
    let mut world = lone_walker();
    world.units[0].unit.current_command = UnitUserCommand::Move(XyPos { x: 50_000, y: 0 });
    world.units[0].waypoint = tntw::WaypointComponent::Position(XyPos { x: 50_000, y: 0 });
    world.units[0].unit.state = UnitState::Idle;
    let gs = GameSpeed::default();
    let reached = tntw::movement::unit_movement_system(&mut world, &gs, 1000);
    assert!(reached.is_empty());
    assert_eq!(world.units[0].pos, XyPos { x: 0, y: 0 });
}

#[test]
fn paused_tick_is_a_complete_no_op() {
    let mut world = lone_walker();
    let mut gs = GameSpeed::default();
    gs.pause();
    let order = vec![UnitInteractionEvent::Ui(
        9,
        UnitUiCommand::Move(XyPos { x: 10_000, y: 0 }, UnitUiSpeedCommand::Run),
    )];
    let out = run_tick_with_rolls(&mut world, &gs, &order, 1000, &vec![(0, 0, 0)], &vec![0]);
    assert!(out.is_empty());
    assert_eq!(world.units[0].pos, XyPos { x: 0, y: 0 });
    assert!(matches!(world.units[0].unit.current_command, UnitUserCommand::None_));
    assert_eq!(world.units[0].unit.state, UnitState::Idle);
}

#[test]
fn running_doubles_walking_speed() {
    let (unit, _missile) = UnitComponent::default_from_type(tntw::UnitType::MeleeInfantry, 1);
    let mut running = unit;
    running.is_running = true;
    assert_eq!(running.current_speed(), 50_000);
    let mut walking = unit;
    walking.is_running = false;
    assert_eq!(walking.current_speed(), 25_000);
}

#[test]
fn missile_weapon_availability_follows_ammo() {
    let (_unit, missile) = UnitComponent::default_from_type(tntw::UnitType::MissileInfantry, 1);
    assert!(missile.is_missile_attack_available());
    let mut spent = missile;
    for _ in 0..500 {
        spent.use_ammo();
    }
    assert!(!spent.is_missile_attack_available());
    assert!(!MissileWeaponComponent::Unarmed.is_missile_attack_available());
}

#[test]
fn guarded_attacker_holds_position_and_keeps_its_order() {
    // A guarding unit whose ordered target is out of every range stands
    // idle but holds its attack order; nothing ever clears it while the
    // target lives.
    let mut world = lone_walker();
    world.units[0].unit.guard_mode_enabled = true;
    let (enemy, enemy_missile) = UnitComponent::default_from_type(tntw::UnitType::MeleeInfantry, 2);
    world.spawn(
        8,
        enemy,
        enemy_missile,
        HealthComponent::default(),
        CombatComponent::default(),
        XyPos { x: 300_000, y: 0 },
    );
    let gs = GameSpeed::default();
    let rolls = vec![(0, 0, 0), (0, 0, 0)];
    let shot_rolls = vec![0, 0];
    let order = vec![UnitInteractionEvent::Ui(
        9,
        UnitUiCommand::Attack(8, UnitUiSpeedCommand::Walk),
    )];
    run_tick_with_rolls(&mut world, &gs, &order, 1000, &rolls, &shot_rolls);
    assert_eq!(world.units[0].unit.state, UnitState::Idle);
    assert!(matches!(world.units[0].unit.current_command, UnitUserCommand::AttackMelee(8)));
    assert_eq!(world.units[0].pos, XyPos { x: 0, y: 0 });
    let none: Vec<UnitInteractionEvent> = Vec::new();
    run_tick_with_rolls(&mut world, &gs, &none, 1000, &rolls, &shot_rolls);
    assert_eq!(world.units[0].unit.state, UnitState::Idle);
    assert!(matches!(world.units[0].unit.current_command, UnitUserCommand::AttackMelee(8)));
}

#[test]
fn no_order_derives_no_waypoint() {
    // The waypoint is a pure derivation from the standing order: with no
    // order there is none, and a stale destination does not survive the
    // resolver pass.
    let mut world = lone_walker();
    world.units[0].waypoint = tntw::WaypointComponent::Position(XyPos { x: 50_000, y: 0 });
    let gs = GameSpeed::default();
    tntw::units::unit_waypoint_system(&mut world, &gs);
    assert!(matches!(world.units[0].waypoint, tntw::WaypointComponent::Idle));
}
