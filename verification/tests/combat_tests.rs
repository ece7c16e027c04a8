use tntw::combat::{calc_damage, calc_melee_hit, unit_melee_system_with_rolls, unit_missile_system_with_rolls};
use tntw::game_speed::GameSpeed;
use tntw::world::World;
use tntw::{
    CombatComponent, HealthComponent, MissileWeaponComponent, UnitComponent, UnitState, UnitType,
    XyPos,
};

fn stock_combat() -> CombatComponent {
    // armour 50, ap 3, melee attack 30, melee defence 30, normal damage 25.
    CombatComponent::default()
}

#[test]
fn damage_formula_is_exact() {
    let c = stock_combat();
    // damage = normal - armour * r + ap, in thousandths of a hit point.
    assert_eq!(calc_damage(&c, &c, 0), 28_000);
    assert_eq!(calc_damage(&c, &c, 1000), -22_000);
    assert_eq!(calc_damage(&c, &c, 500), 3_000);
}

#[test]
fn damage_formula_with_custom_stats() {
    let source = CombatComponent::new(0, 7_000, 10_000, 10_000, 40_000);
    let target = CombatComponent::new(20_000, 0, 10_000, 10_000, 10_000);
    // 40 - 20 * 0.25 + 7 = 42 hit points.
    assert_eq!(calc_damage(&source, &target, 250), 42_000);
}

#[test]
fn melee_hit_check_is_a_strict_contest() {
    let c = stock_combat();
    assert!(calc_melee_hit(&c, &c, 500, 400));
    assert!(!calc_melee_hit(&c, &c, 400, 500));
    assert!(!calc_melee_hit(&c, &c, 500, 500));
}

fn two_unit_world() -> World {
    let mut world = World::new();
    let (ua, ma) = UnitComponent::default_from_type(UnitType::MeleeInfantry, 1);
    let (ub, mb) = UnitComponent::default_from_type(UnitType::MissileInfantry, 2);
    world.spawn(1, ua, ma, HealthComponent::default(), CombatComponent::default(), XyPos {
        x: 0,
        y: 0,
    });
    world.spawn(2, ub, mb, HealthComponent::default(), CombatComponent::default(), XyPos {
        x: 50_000,
        y: 0,
    });
    world
}

#[test]
fn melee_hit_applies_damage_once() {
    let mut world = two_unit_world();
    world.units[0].unit.state = UnitState::Melee(Some(2));
    let gs = GameSpeed::default();
    // Attack roll 1000 against defence roll 0 hits; armour roll 0 gives
    // full damage of 28 hit points.
    let rolls = vec![(1000, 0, 0), (0, 0, 0)];
    let died = unit_melee_system_with_rolls(&mut world, &gs, &rolls);
    assert!(died.is_empty());
    assert_eq!(world.units[1].health.current_health, 72_000);
    assert_eq!(world.units[0].health.current_health, 100_000);
}

#[test]
fn melee_miss_changes_nothing() {
    let mut world = two_unit_world();
    world.units[0].unit.state = UnitState::Melee(Some(2));
    let gs = GameSpeed::default();
    let rolls = vec![(0, 0, 0), (0, 0, 0)];
    let died = unit_melee_system_with_rolls(&mut world, &gs, &rolls);
    assert!(died.is_empty());
    assert_eq!(world.units[1].health.current_health, 100_000);
}

#[test]
fn melee_death_is_reported_when_health_crosses_zero() {
    let mut world = two_unit_world();
    world.units[0].unit.state = UnitState::Melee(Some(2));
    world.units[1].health = HealthComponent::new(20_000, 100_000);
    let gs = GameSpeed::default();
    let rolls = vec![(1000, 0, 0), (0, 0, 0)];
    let died = unit_melee_system_with_rolls(&mut world, &gs, &rolls);
    assert_eq!(died, vec![2]);
    assert_eq!(world.units[1].health.current_health, -8_000);
}

#[test]
fn missile_fire_spends_exactly_one_round() {
    // Ammo conservation: one round per shot, and only the firing unit's
    // ammunition changes.
    let mut world = two_unit_world();
    world.units[1].unit.state = UnitState::Firing(Some(1));
    let gs = GameSpeed::default();
    let rolls = vec![0, 0];
    let died = unit_missile_system_with_rolls(&mut world, &gs, &rolls);
    assert!(died.is_empty());
    match world.units[1].missile {
        MissileWeaponComponent::Primary(stats) => assert_eq!(stats.current_ammunition, 499),
        _ => panic!("missile infantry carries a primary weapon"),
    }
    // Missile fire has no hit check: full damage lands.
    assert_eq!(world.units[0].health.current_health, 72_000);
}

#[test]
fn paused_combat_applies_nothing() {
    let mut world = two_unit_world();
    world.units[0].unit.state = UnitState::Melee(Some(2));
    let mut gs = GameSpeed::default();
    gs.pause();
    let rolls = vec![(1000, 0, 0), (1000, 0, 0)];
    let died = unit_melee_system_with_rolls(&mut world, &gs, &rolls);
    assert!(died.is_empty());
    assert_eq!(world.units[1].health.current_health, 100_000);
}

#[test]
fn drawn_rolls_change_only_healths() {
    let mut world = two_unit_world();
    world.units[0].unit.state = UnitState::Melee(Some(2));
    let gs = GameSpeed::default();
    let before_ammo = match world.units[1].missile {
        MissileWeaponComponent::Primary(stats) => stats.current_ammunition,
        _ => 0,
    };
    let _died = tntw::combat::unit_melee_system(&mut world, &gs);
    assert_eq!(world.units.len(), 2);
    assert_eq!(world.units[0].unit.state, UnitState::Melee(Some(2)));
    match world.units[1].missile {
        MissileWeaponComponent::Primary(stats) => {
            assert_eq!(stats.current_ammunition, before_ammo)
        }
        _ => panic!("missile infantry carries a primary weapon"),
    }
    // The defender's health moved by at most one hit of the formula's
    // range, whatever the draws.
    let h = world.units[1].health.current_health;
    assert!(h <= 100_000 + 22_000 && h >= 100_000 - 28_000);
}

#[test]
fn an_overwhelming_armour_roll_heals() {
    // The damage formula is applied as it stands: a full armour roll
    // against low normal damage makes the total negative, and negative
    // damage raises the target's health.
    let mut world = two_unit_world();
    world.units[0].unit.state = UnitState::Melee(Some(2));
    let gs = GameSpeed::default();
    let rolls = vec![(1000, 0, 1000), (0, 0, 0)];
    let died = unit_melee_system_with_rolls(&mut world, &gs, &rolls);
    assert!(died.is_empty());
    assert_eq!(world.units[1].health.current_health, 122_000);
}
