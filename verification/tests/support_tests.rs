use tntw::game_speed::{GameSpeed, GameSpeedRequest};
use tntw::physics::{classify_contact, ColliderType, ContactType, EnterOrExit};
use tntw::teams::TeamsResource;
use tntw::ui::{health_band, HealthBand};
use tntw::user_input::{
    action_for_click, apply_selection, is_double_click_interval, is_position_within_sprite,
    is_translation_within_box, resolve_left_release, ui_command_for_key, MouseCommand,
};
use tntw::{
    AttackType, HealthComponent, UnitComponent, UnitType, UnitUiCommand, UnitUiSpeedCommand, XyPos,
};

#[test]
fn free_for_all_marks_other_teams_as_enemies() {
    let mut teams = TeamsResource::new();
    teams.add_player(1, 1);
    teams.add_player(2, 2);
    teams.add_player(3, 1);
    teams.free_for_all();
    assert!(teams.is_foe(1, 2));
    assert!(!teams.is_own(1, 2));
    assert!(teams.is_own(1, 3));
    assert!(!teams.is_foe(1, 3));
}

#[test]
fn relations_are_only_answerable_once_recorded() {
    let mut teams = TeamsResource::new();
    teams.add_player(1, 1);
    teams.add_player(2, 2);
    assert!(!teams.relation_known(1, 2));
    assert!(!teams.relation_known(1, 9));
    teams.free_for_all();
    assert!(teams.relation_known(1, 2));
    assert!(!teams.relation_known(9, 1));
}

#[test]
fn a_player_keeps_its_first_team() {
    let mut teams = TeamsResource::new();
    teams.add_player(5, 1);
    teams.add_player(5, 2);
    teams.add_player(6, 1);
    teams.free_for_all();
    assert!(teams.is_own(5, 6));
}

#[test]
fn pause_flag_round_trips() {
    let mut gs = GameSpeed::default();
    assert!(!gs.is_paused());
    gs.pause();
    assert!(gs.is_paused());
    gs.toggle_pause();
    assert!(!gs.is_paused());
    gs.apply_request(&GameSpeedRequest::Pause);
    assert!(gs.is_paused());
    gs.apply_request(&GameSpeedRequest::TogglePause);
    assert!(!gs.is_paused());
    gs.apply_request(&GameSpeedRequest::SetSpeed(2000));
    assert_eq!(gs.game_speed, 2000);
}

#[test]
fn clock_accumulates_scaled_time_above_the_minimum_step() {
    let mut gs = GameSpeed::default();
    gs.apply_request(&GameSpeedRequest::SetSpeed(1000));
    gs.advance(1000);
    assert_eq!(gs.delta, 1000);
    assert_eq!(gs.elapsed_time, 1000);
    // A scaled step below ten milliseconds is recorded but not
    // accumulated.
    gs.advance(5);
    assert_eq!(gs.delta, 5);
    assert_eq!(gs.elapsed_time, 1000);
    gs.apply_request(&GameSpeedRequest::SetSpeed(2000));
    gs.advance(100);
    assert_eq!(gs.delta, 200);
    assert_eq!(gs.elapsed_time, 1200);
}

#[test]
fn health_ratio_and_bands() {
    assert_eq!(HealthComponent::new(50_000, 100_000).ratio(), 500);
    assert_eq!(HealthComponent::new(100_000, 100_000).ratio(), 1000);
    assert_eq!(HealthComponent::new(-6_000, 100_000).ratio(), -60);
    assert_eq!(health_band(1000), HealthBand::High);
    assert_eq!(health_band(750), HealthBand::High);
    assert_eq!(health_band(500), HealthBand::Medium);
    assert_eq!(health_band(250), HealthBand::Medium);
    assert_eq!(health_band(249), HealthBand::Low);
    assert_eq!(health_band(-60), HealthBand::Low);
}

#[test]
fn ui_state_reflects_activity() {
    let mut unit = UnitComponent::default();
    assert_eq!(unit.ui_state(), tntw::UnitUiState::Idle);
    unit.state = tntw::UnitState::Melee(None);
    assert_eq!(unit.ui_state(), tntw::UnitUiState::Melee);
    unit.state = tntw::UnitState::Firing(Some(3));
    assert_eq!(unit.ui_state(), tntw::UnitUiState::Firing);
    unit.state = tntw::UnitState::Moving;
    unit.is_running = true;
    assert_eq!(unit.ui_state(), tntw::UnitUiState::MovingFast);
    unit.is_running = false;
    assert_eq!(unit.ui_state(), tntw::UnitUiState::MovingSlow);
}

#[test]
fn archetypes_determine_attack_type_and_mobility() {
    let (melee, melee_weapon) = UnitComponent::default_from_type(UnitType::MeleeInfantry, 1);
    assert_eq!(melee.primary_attack_type(), AttackType::Melee);
    assert!(!melee.can_fire_while_moving());
    assert!(matches!(melee_weapon, tntw::MissileWeaponComponent::Unarmed));
    let (missile, missile_weapon) = UnitComponent::default_from_type(UnitType::MissileInfantry, 1);
    assert_eq!(missile.primary_attack_type(), AttackType::Ranged);
    assert!(!missile.can_fire_while_moving());
    match missile_weapon {
        tntw::MissileWeaponComponent::Primary(stats) => {
            assert_eq!(stats.current_ammunition, 500);
            assert_eq!(stats.range, 100_000);
        }
        _ => panic!("missile infantry carries a primary weapon"),
    }
}

#[test]
fn proximity_contacts_classify_by_sensor_pair() {
    match classify_contact(ColliderType::Melee, ColliderType::Melee, 1, 2, true) {
        Some(ContactType::UnitUnitMeleeEnter(1, 2)) => {}
        _ => panic!("melee sensors touching is a melee contact"),
    }
    match classify_contact(ColliderType::FiringRange, ColliderType::Melee, 1, 2, true) {
        Some(ContactType::UnitFiringRangeEnter { range_of: 1, target: 2 }) => {}
        _ => panic!("a firing-range sensor belongs to its owner"),
    }
    match classify_contact(ColliderType::Melee, ColliderType::FiringRange, 1, 2, false) {
        Some(ContactType::UnitFiringRangeExit { range_of: 2, target: 1 }) => {}
        _ => panic!("the melee unit leaves the other unit's range"),
    }
    assert!(classify_contact(ColliderType::FiringRange, ColliderType::FiringRange, 1, 2, true)
        .is_none());
    let c = ContactType::UnitUnitMeleeEnter(1, 2);
    assert_eq!(c.enter_or_exit(), EnterOrExit::Enter);
    let c = ContactType::UnitFiringRangeExit { range_of: 1, target: 2 };
    assert_eq!(c.enter_or_exit(), EnterOrExit::Exit);
}

#[test]
fn keys_map_to_unit_actions() {
    assert!(matches!(ui_command_for_key('s'), Some(UnitUiCommand::Stop)));
    assert!(matches!(ui_command_for_key('r'), Some(UnitUiCommand::ToggleSpeed)));
    assert!(matches!(ui_command_for_key('g'), Some(UnitUiCommand::ToggleGuardMode)));
    assert!(matches!(ui_command_for_key('f'), Some(UnitUiCommand::ToggleFireAtWill)));
    assert!(ui_command_for_key('x').is_none());
}

#[test]
fn double_click_window_is_half_a_second() {
    assert!(is_double_click_interval(1000, 501));
    assert!(!is_double_click_interval(1000, 500));
}

#[test]
fn click_boxes_and_drag_boxes() {
    let sprite = XyPos { x: 0, y: 0 };
    let size = XyPos { x: 30_000, y: 30_000 };
    assert!(is_position_within_sprite(&XyPos { x: 29_000, y: -29_000 }, &sprite, &size));
    assert!(!is_position_within_sprite(&XyPos { x: 30_000, y: 0 }, &sprite, &size));
    let corner = XyPos { x: 0, y: 100_000 };
    let end = XyPos { x: 100_000, y: 0 };
    assert!(is_translation_within_box(&XyPos { x: 50_000, y: 50_000 }, &corner, &end));
    assert!(!is_translation_within_box(&XyPos { x: 150_000, y: 50_000 }, &corner, &end));
}

#[test]
fn short_drags_are_single_selects() {
    let release = XyPos { x: 0, y: 0 };
    match resolve_left_release(Some(XyPos { x: 90_000, y: 200_000 }), release) {
        MouseCommand::SingleSelect(p) => assert_eq!(p, release),
        _ => panic!("a sweep short on one axis is a click"),
    }
    match resolve_left_release(Some(XyPos { x: 200_000, y: 200_000 }), release) {
        MouseCommand::DragSelect { start, end } => {
            assert_eq!(start, XyPos { x: 200_000, y: 200_000 });
            assert_eq!(end, release);
        }
        _ => panic!("a sweep long on both axes is a drag"),
    }
    match resolve_left_release(None, release) {
        MouseCommand::SingleSelect(_) => {}
        _ => panic!("no drag start means a click"),
    }
}

#[test]
fn action_click_attacks_a_unit_or_moves_to_the_spot() {
    let spot = XyPos { x: 7, y: 8 };
    assert!(matches!(
        action_for_click(Some(3), spot, true),
        UnitUiCommand::Attack(3, UnitUiSpeedCommand::Run)
    ));
    assert!(matches!(
        action_for_click(None, spot, false),
        UnitUiCommand::Move(_, UnitUiSpeedCommand::Walk)
    ));
}

#[test]
fn selection_modes_hit_and_miss() {
    let mut unit = UnitComponent::default();
    apply_selection(&mut unit, true, false, false);
    assert!(unit.is_selected());
    apply_selection(&mut unit, true, true, false);
    assert!(!unit.is_selected());
    apply_selection(&mut unit, true, false, true);
    assert!(unit.is_selected());
    // A missed unit keeps its selection under multi- or toggle-select.
    apply_selection(&mut unit, false, false, true);
    assert!(unit.is_selected());
    apply_selection(&mut unit, false, true, false);
    assert!(unit.is_selected());
    apply_selection(&mut unit, false, false, false);
    assert!(!unit.is_selected());
}

#[test]
fn selection_methods_round_trip() {
    let mut unit = UnitComponent::default();
    assert!(!unit.is_selected());
    unit.select();
    assert!(unit.is_selected());
    unit.invert_select();
    assert!(!unit.is_selected());
    unit.deselect();
    assert!(!unit.is_selected());
}
