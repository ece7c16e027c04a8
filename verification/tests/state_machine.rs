use tntw::units::calculate_next_unit_state_and_target;
use tntw::{EntityId, UnitState, UnitUserCommand};

fn next(
    cmd: UnitUserCommand,
    melee: Vec<EntityId>,
    missile: Vec<EntityId>,
    guard: bool,
    faw: bool,
    ammo: bool,
    cfwm: bool,
    fighting: Option<EntityId>,
) -> UnitState {
    calculate_next_unit_state_and_target(&cmd, &melee, &missile, guard, faw, ammo, cfwm, fighting)
}

#[test]
fn test_unit_state_machine() {}

#[test]
fn melee_order_engages_ordered_target_in_reach() {
    let s = next(
        UnitUserCommand::AttackMelee(7),
        vec![3, 7],
        vec![],
        false,
        true,
        false,
        false,
        Some(3),
    );
    assert_eq!(s, UnitState::Melee(Some(7)));
}

#[test]
fn melee_order_keeps_current_fight_when_target_unreachable() {
    // Target persistence: the engaged opponent wins over the front of the
    // proximity list while the ordered target is out of reach.
    let s = next(
        UnitUserCommand::AttackMelee(7),
        vec![3, 4],
        vec![],
        false,
        true,
        false,
        false,
        Some(4),
    );
    assert_eq!(s, UnitState::Melee(Some(4)));
}

#[test]
fn melee_order_picks_opportunistic_target() {
    let s = next(
        UnitUserCommand::AttackMelee(7),
        vec![3, 4],
        vec![],
        false,
        true,
        false,
        false,
        None,
    );
    assert_eq!(s, UnitState::Melee(Some(3)));
}

#[test]
fn melee_order_chases_unless_guarding() {
    let chasing = next(
        UnitUserCommand::AttackMelee(7),
        vec![],
        vec![],
        false,
        true,
        false,
        false,
        None,
    );
    assert_eq!(chasing, UnitState::Moving);
    let guarding = next(
        UnitUserCommand::AttackMelee(7),
        vec![],
        vec![],
        true,
        true,
        false,
        false,
        None,
    );
    assert_eq!(guarding, UnitState::Idle);
}

#[test]
fn melee_contact_preempts_missile_order() {
    // Melee pre-emption: any enemy in melee reach overrides ranged combat.
    let s = next(
        UnitUserCommand::AttackMissile(7),
        vec![9],
        vec![7],
        false,
        true,
        true,
        false,
        None,
    );
    assert_eq!(s, UnitState::Melee(Some(9)));
}

#[test]
fn melee_contact_preempts_move_and_idle_orders() {
    let moving = next(
        UnitUserCommand::Move(tntw::XyPos { x: 0, y: 0 }),
        vec![5],
        vec![],
        false,
        true,
        true,
        true,
        None,
    );
    assert_eq!(moving, UnitState::Melee(Some(5)));
    let idle = next(UnitUserCommand::None_, vec![5], vec![], false, true, true, false, None);
    assert_eq!(idle, UnitState::Melee(Some(5)));
}

#[test]
fn missile_order_without_ammo_goes_idle() {
    let s = next(
        UnitUserCommand::AttackMissile(7),
        vec![],
        vec![7],
        false,
        true,
        false,
        false,
        None,
    );
    assert_eq!(s, UnitState::Idle);
}

#[test]
fn missile_order_fires_at_target_in_range() {
    let s = next(
        UnitUserCommand::AttackMissile(7),
        vec![],
        vec![2, 7],
        false,
        false,
        true,
        false,
        None,
    );
    assert_eq!(s, UnitState::Firing(Some(7)));
}

#[test]
fn missile_order_guarding_fires_at_will_or_stands() {
    let firing = next(
        UnitUserCommand::AttackMissile(7),
        vec![],
        vec![2],
        true,
        true,
        true,
        false,
        None,
    );
    assert_eq!(firing, UnitState::Firing(Some(2)));
    let idle = next(
        UnitUserCommand::AttackMissile(7),
        vec![],
        vec![2],
        true,
        false,
        true,
        false,
        None,
    );
    assert_eq!(idle, UnitState::Idle);
}

#[test]
fn missile_order_chasing_fires_on_the_move_only_when_able() {
    let horse_archer = next(
        UnitUserCommand::AttackMissile(7),
        vec![],
        vec![2],
        false,
        true,
        true,
        true,
        None,
    );
    assert_eq!(horse_archer, UnitState::FiringAndMoving(Some(2)));
    let infantry = next(
        UnitUserCommand::AttackMissile(7),
        vec![],
        vec![2],
        false,
        true,
        true,
        false,
        None,
    );
    assert_eq!(infantry, UnitState::Moving);
}

#[test]
fn move_order_fires_on_the_move_when_able() {
    let p = tntw::XyPos { x: 1000, y: 2000 };
    let firing = next(UnitUserCommand::Move(p), vec![], vec![4], false, false, true, true, None);
    assert_eq!(firing, UnitState::FiringAndMoving(Some(4)));
    let plain = next(UnitUserCommand::Move(p), vec![], vec![4], false, false, true, false, None);
    assert_eq!(plain, UnitState::Moving);
}

#[test]
fn no_order_fires_at_will_or_idles() {
    let firing = next(UnitUserCommand::None_, vec![], vec![4], false, true, true, false, None);
    assert_eq!(firing, UnitState::Firing(Some(4)));
    let idle_no_faw = next(UnitUserCommand::None_, vec![], vec![4], false, false, true, false, None);
    assert_eq!(idle_no_faw, UnitState::Idle);
    let idle_empty = next(UnitUserCommand::None_, vec![], vec![], false, true, true, false, None);
    assert_eq!(idle_empty, UnitState::Idle);
}
