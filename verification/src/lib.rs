//! Gameplay core of a real-time-strategy combat simulation.
//!
//! Every simulation tick the library decides what each military unit is doing
//! (idle, moving, melee-fighting, missile-firing) and resolves the
//! consequences: damage, ammunition use, death and the cleanup of references
//! to dead units.  Rendering, physics integration and raw input handling are
//! collaborators outside this crate; they feed the core plain events and read
//! plain state back.
//!
//! All quantities are fixed-point integers: positions, speeds, health and
//! combat statistics carry a factor of `MILLI` (one thousandth of a world
//! unit, hit point or stat point), and random rolls are thousandths of the
//! unit interval.

use vstd::prelude::*;

verus! {

/// Stable identifier of a unit.  Units refer to each other only through ids,
/// never through owning references, so a dead unit's id can be scrubbed from
/// every place it appears before the unit itself is removed.
pub type EntityId = u64;

/// Fixed-point scale: one world unit, hit point or stat point.
pub const MILLI: i64 = 1000;

/// A random roll is a thousandth of the unit interval `[0, 1)`:
/// a draw yields a value in `0 .. ROLL_ONE`.
pub const ROLL_ONE: u64 = 1000;

/// Default maximum health, in thousandths of a hit point (100 hit points).
pub const MAX_HP: i64 = 100_000;

/// Upper bound on any combat statistic, in thousandths of a stat point.
/// Keeping stats under this bound keeps every damage computation inside
/// `i64` range.
pub const STAT_LIMIT: i64 = 1_000_000_000;

/// Upper bound on the magnitude of any coordinate, in thousandths of a
/// world unit.
pub const POS_LIMIT: i64 = 1_000_000_000_000;

/// Upper bound on a unit's speed, in thousandths of a world unit per second.
pub const SPEED_LIMIT: u64 = 1_000_000_000;

/// Upper bound on a single tick's duration, in milliseconds.
pub const DT_LIMIT: u64 = 1_000_000;

/// A position or waypoint in the plane, in thousandths of a world unit.
#[derive(Clone, Copy, Debug, PartialEq, Eq, Structural)]
pub struct XyPos {
    pub x: i64,
    pub y: i64,
}

/// Events exchanged between the core and its collaborators: proximity
/// reports from the physics collaborator, commands from the user interface,
/// and the core's own death and arrival notifications.
#[derive(Clone, Copy, Debug)]
pub enum UnitInteractionEvent {
    Proximity(crate::physics::ContactType),
    Ui(EntityId, UnitUiCommand),
    UnitDied(EntityId),
    UnitWaypointReached(EntityId),
}

#[derive(Clone, Copy, Debug)]
pub enum MissileType {
    Bow,
    Javelin,
    Sling,
}

/// State of a ranged weapon: ammunition counts and the range of its
/// firing-radius sensor, in thousandths of a world unit.
#[derive(Clone, Copy, Debug)]
pub struct MissileStats {
    pub max_ammunition: usize,
    pub current_ammunition: usize,
    pub range: i64,
    pub type_: MissileType,
}

/// A unit's ranged weapon, if it has one.
#[derive(Clone, Copy, Debug)]
pub enum MissileWeaponComponent {
    Primary(MissileStats),
    Secondary(MissileStats),
    Unarmed,
}

/// The central entity: standing order, derived activity state and the
/// behavioural toggles that steer the decision engine.
#[derive(Clone, Copy, Debug)]
pub struct UnitComponent {
    /// The persistent order the user gave this unit.
    pub current_command: UnitUserCommand,
    /// The activity the unit is actually carrying out this tick; written
    /// exclusively by the decision engine.
    pub state: UnitState,
    /// Running speed, in thousandths of a world unit per second.
    pub max_speed: u64,
    pub is_selected: bool,
    pub player_id: crate::teams::PlayerId,
    pub unit_type: UnitType,
    pub is_running: bool,
    /// Guard mode: the unit holds position rather than chasing a target
    /// that disengages or stands out of range.
    pub guard_mode_enabled: bool,
    /// Fire at will: the unit automatically engages opportunistic ranged
    /// targets that enter its firing range.
    pub fire_at_will: bool,
    pub remaining_ammo: usize,
}

/// Current and maximum health, in thousandths of a hit point.  A unit is
/// dead when its current health is strictly below zero.
#[derive(Clone, Copy, Debug)]
pub struct HealthComponent {
    pub current_health: i64,
    pub max_health: i64,
}

/// Read-only combat statistics, in thousandths of a stat point.
#[derive(Clone, Copy, Debug)]
pub struct CombatComponent {
    pub armour: i64,
    pub ap_damage: i64,
    pub melee_attack: i64,
    pub melee_defence: i64,
    pub normal_damage: i64,
}

/// The unit's current movement destination, derived every tick from its
/// standing order.
#[derive(Clone, Copy, Debug)]
pub enum WaypointComponent {
    Idle,
    Position(XyPos),
}

#[derive(Clone, Copy, Debug, PartialEq, Eq, Structural)]
pub enum AttackType {
    Melee,
    Ranged,
}

#[derive(Clone, Copy, Debug, PartialEq, Eq, Structural)]
pub enum UnitType {
    MeleeCalvary,
    ShockCalvary,
    MissileCalvary,
    MeleeInfantry,
    PikeInfantry,
    ShockInfantry,
    SpearInfantry,
    MissileInfantry,
}

/// Coarse activity classification for display.
#[derive(Clone, Copy, Debug, PartialEq, Eq, Structural)]
pub enum UnitUiState {
    Idle,
    Firing,
    Melee,
    MovingFast,
    MovingSlow,
}

/// The standing order currently given to a unit by the user.
#[derive(Clone, Copy, Debug)]
pub enum UnitUserCommand {
    AttackMelee(EntityId),
    AttackMissile(EntityId),
    Move(XyPos),
    None_,
}

/// The activity a unit is carrying out this tick.  A combat state's target
/// is `Some` while the opponent is confirmed alive; it is `None` for the one
/// tick between the target's death and the next decision pass.
#[derive(Clone, Copy, Debug, PartialEq)]
pub enum UnitState {
    Idle,
    /// Firing a missile weapon while standing.
    Firing(Option<EntityId>),
    /// Firing a missile weapon while advancing; only units that can fire
    /// while moving ever enter this state.
    FiringAndMoving(Option<EntityId>),
    /// Fighting hand to hand.
    Melee(Option<EntityId>),
    Moving,
}

/// Possible actions given to a unit by the user.
#[derive(Clone, Copy, Debug)]
pub enum UnitUiCommand {
    Attack(EntityId, UnitUiSpeedCommand),
    Move(XyPos, UnitUiSpeedCommand),
    ToggleSpeed,
    ToggleGuardMode,
    ToggleFireAtWill,
    Stop,
}

#[derive(Clone, Copy, Debug, PartialEq, Eq, Structural)]
pub enum UnitUiSpeedCommand {
    Run,
    Walk,
}

impl UnitState {
    /// The opponent this state is actively fighting, if any.
    pub open spec fn spec_actively_fighting(self) -> Option<EntityId> {
        match self {
            UnitState::Melee(e) => e,
            UnitState::Firing(e) => e,
            UnitState::FiringAndMoving(e) => e,
            _ => None,
        }
    }

    /// The same state with its target dropped; the kind of activity is kept,
    /// so a unit whose opponent just died shows as "fighting, target gone"
    /// for one tick.
    pub open spec fn spec_clear_target(self) -> UnitState {
        match self {
            UnitState::Melee(_) => UnitState::Melee(None),
            UnitState::Firing(_) => UnitState::Firing(None),
            UnitState::FiringAndMoving(_) => UnitState::FiringAndMoving(None),
            _ => self,
        }
    }

    /// Is `Some` if the unit is in a combat state whose target is alive,
    /// `None` otherwise.
    pub fn current_actively_fighting(&self) -> (r: Option<EntityId>)
        ensures
            r == self.spec_actively_fighting(),
    {
        match self {
            UnitState::Melee(e) | UnitState::Firing(e) | UnitState::FiringAndMoving(e) => *e,
            _ => None,
        }
    }

    pub fn clear_target(&mut self)
        ensures
            *final(self) == old(self).spec_clear_target(),
    {
        match self {
            UnitState::Melee(_) => {
                *self = UnitState::Melee(None);
            }
            UnitState::Firing(_) => {
                *self = UnitState::Firing(None);
            }
            UnitState::FiringAndMoving(_) => {
                *self = UnitState::FiringAndMoving(None);
            }
            _ => {}
        }
    }
}

impl UnitComponent {
    /// Display classification of the current activity state.
    pub open spec fn spec_ui_state(self) -> UnitUiState {
        match self.state {
            UnitState::Melee(_) => UnitUiState::Melee,
            UnitState::Moving => if self.is_running {
                UnitUiState::MovingFast
            } else {
                UnitUiState::MovingSlow
            },
            UnitState::Idle => UnitUiState::Idle,
            UnitState::Firing(_) => UnitUiState::Firing,
            UnitState::FiringAndMoving(_) => UnitUiState::Firing,
        }
    }

    pub fn ui_state(&self) -> (r: UnitUiState)
        ensures
            r == self.spec_ui_state(),
    {
        match &self.state {
            UnitState::Melee(_) => UnitUiState::Melee,
            UnitState::Moving => {
                if self.is_running {
                    UnitUiState::MovingFast
                } else {
                    UnitUiState::MovingSlow
                }
            }
            UnitState::Idle => UnitUiState::Idle,
            UnitState::Firing(_) | UnitState::FiringAndMoving(_) => UnitUiState::Firing,
        }
    }

    pub open spec fn spec_is_selected(self) -> bool {
        self.is_selected
    }

    pub fn select(&mut self)
        ensures
            *final(self) == (UnitComponent { is_selected: true, ..*old(self) }),
    {
        self.is_selected = true;
    }

    pub fn deselect(&mut self)
        ensures
            *final(self) == (UnitComponent { is_selected: false, ..*old(self) }),
    {
        self.is_selected = false;
    }

    pub fn invert_select(&mut self)
        ensures
            *final(self) == (UnitComponent { is_selected: !old(self).is_selected, ..*old(self) }),
    {
        self.is_selected = !self.is_selected;
    }

    pub fn is_selected(&self) -> (r: bool)
        ensures
            r == self.spec_is_selected(),
    {
        self.is_selected
    }

    pub open spec fn spec_max_speed(self) -> u64 {
        self.max_speed
    }

    /// Effective speed this tick: full speed when running, half when
    /// walking, in thousandths of a world unit per second.
    pub open spec fn spec_current_speed(self) -> u64 {
        if self.is_running {
            self.max_speed
        } else {
            (self.max_speed / 2) as u64
        }
    }

    pub fn max_speed(&self) -> (r: u64)
        ensures
            r == self.spec_max_speed(),
    {
        self.max_speed
    }

    pub fn current_speed(&self) -> (r: u64)
        ensures
            r == self.spec_current_speed(),
    {
        if self.is_running {
            self.max_speed
        } else {
            self.max_speed / 2
        }
    }

    /// Builds the unit and missile-weapon records for a freshly spawned unit
    /// of the given type.  Only the two infantry archetypes exist so far;
    /// spawning any other type is a caller error.
    pub fn default_from_type(unit_type: UnitType, player_id: crate::teams::PlayerId) -> (r: (
        UnitComponent,
        MissileWeaponComponent,
    ))
        requires
            unit_type == UnitType::MeleeInfantry || unit_type == UnitType::MissileInfantry,
        ensures
            r.0 == (UnitComponent {
                max_speed: if unit_type == UnitType::MeleeInfantry {
                    50_000u64
                } else {
                    80_000u64
                },
                unit_type,
                player_id,
                ..UnitComponent::spec_default()
            }),
            r.1 == (if unit_type == UnitType::MissileInfantry {
                MissileWeaponComponent::Primary(
                    MissileStats {
                        max_ammunition: 500,
                        current_ammunition: 500,
                        range: 100_000,
                        type_: MissileType::Bow,
                    },
                )
            } else {
                MissileWeaponComponent::Unarmed
            }),
    {
        let unit = match unit_type {
            UnitType::MeleeInfantry => UnitComponent {
                max_speed: 50_000,
                unit_type,
                player_id,
                ..UnitComponent::default()
            },
            _ => UnitComponent { max_speed: 80_000, unit_type, player_id, ..UnitComponent::default() },
        };

        let missile = match unit_type {
            UnitType::MissileInfantry | UnitType::MissileCalvary => MissileWeaponComponent::Primary(
                MissileStats {
                    max_ammunition: 500,
                    current_ammunition: 500,
                    range: 100_000,
                    type_: MissileType::Bow,
                },
            ),
            _ => MissileWeaponComponent::Unarmed,
        };

        (unit, missile)
    }

    /// How an "attack" command resolves for this unit: missile archetypes
    /// fire, every other archetype closes to melee.
    pub open spec fn spec_primary_attack_type(self) -> AttackType {
        match self.unit_type {
            UnitType::MissileInfantry => AttackType::Ranged,
            UnitType::MissileCalvary => AttackType::Ranged,
            _ => AttackType::Melee,
        }
    }

    pub fn primary_attack_type(&self) -> (r: AttackType)
        ensures
            r == self.spec_primary_attack_type(),
    {
        match self.unit_type {
            UnitType::MissileInfantry | UnitType::MissileCalvary => AttackType::Ranged,
            _ => AttackType::Melee,
        }
    }

    pub open spec fn spec_can_fire_while_moving(self) -> bool {
        self.unit_type == UnitType::MissileCalvary
    }

    pub fn can_fire_while_moving(&self) -> (r: bool)
        ensures
            r == self.spec_can_fire_while_moving(),
    {
        self.unit_type == UnitType::MissileCalvary
    }

    pub open spec fn spec_default() -> UnitComponent {
        UnitComponent {
            current_command: UnitUserCommand::None_,
            state: UnitState::Idle,
            max_speed: 50_000,
            is_selected: false,
            is_running: false,
            guard_mode_enabled: false,
            unit_type: UnitType::MeleeInfantry,
            remaining_ammo: 10,
            fire_at_will: true,
            player_id: 0,
        }
    }
}

impl MissileWeaponComponent {
    /// A missile attack is available when the unit carries a weapon with at
    /// least one round of ammunition.
    pub open spec fn spec_is_missile_attack_available(self) -> bool {
        match self {
            MissileWeaponComponent::Primary(stats) => stats.current_ammunition > 0,
            MissileWeaponComponent::Secondary(stats) => stats.current_ammunition > 0,
            MissileWeaponComponent::Unarmed => false,
        }
    }

    /// The weapon after one round of ammunition is spent.
    pub open spec fn spec_after_ammo_use(self) -> MissileWeaponComponent {
        match self {
            MissileWeaponComponent::Primary(stats) => MissileWeaponComponent::Primary(
                MissileStats { current_ammunition: (stats.current_ammunition - 1) as usize, ..stats },
            ),
            MissileWeaponComponent::Secondary(stats) => MissileWeaponComponent::Secondary(
                MissileStats { current_ammunition: (stats.current_ammunition - 1) as usize, ..stats },
            ),
            MissileWeaponComponent::Unarmed => self,
        }
    }

    /// Rounds left in the weapon; an unarmed unit has none.
    pub open spec fn spec_ammo_count(self) -> int {
        match self {
            MissileWeaponComponent::Primary(stats) => stats.current_ammunition as int,
            MissileWeaponComponent::Secondary(stats) => stats.current_ammunition as int,
            MissileWeaponComponent::Unarmed => 0,
        }
    }

    pub fn is_missile_attack_available(&self) -> (r: bool)
        ensures
            r == self.spec_is_missile_attack_available(),
    {
        match self {
            MissileWeaponComponent::Primary(stats) | MissileWeaponComponent::Secondary(stats) => {
                stats.current_ammunition > 0
            }
            MissileWeaponComponent::Unarmed => false,
        }
    }

    /// Spends one round.  Callers validate availability first: firing with
    /// an empty weapon is a logic error, not a runtime condition.
    pub fn use_ammo(&mut self)
        requires
            ((*old(self)) is Primary || (*old(self)) is Secondary) ==> old(
                self,
            ).spec_is_missile_attack_available(),
        ensures
            *final(self) == old(self).spec_after_ammo_use(),
    {
        match self {
            MissileWeaponComponent::Primary(s) => {
                s.current_ammunition = s.current_ammunition - 1;
            }
            MissileWeaponComponent::Secondary(s) => {
                s.current_ammunition = s.current_ammunition - 1;
            }
            MissileWeaponComponent::Unarmed => {}
        }
    }
}

impl Default for UnitComponent {
    fn default() -> (r: UnitComponent)
        ensures
            r == UnitComponent::spec_default(),
    {
        UnitComponent {
            current_command: UnitUserCommand::None_,
            state: UnitState::Idle,
            max_speed: 50_000,
            is_selected: false,
            is_running: false,
            guard_mode_enabled: false,
            unit_type: UnitType::MeleeInfantry,
            remaining_ammo: 10,
            fire_at_will: true,
            player_id: 0,
        }
    }
}

impl Default for WaypointComponent {
    fn default() -> (r: WaypointComponent)
        ensures
            r == WaypointComponent::Idle,
    {
        WaypointComponent::Idle
    }
}

impl HealthComponent {
    pub open spec fn spec_current(self) -> i64 {
        self.current_health
    }

    pub open spec fn spec_max(self) -> i64 {
        self.max_health
    }

    /// A freshly built health record; `current` may start below `max` for
    /// scenarios that begin with a wounded unit.
    pub fn new(current: i64, max: i64) -> (r: HealthComponent)
        ensures
            r.spec_current() == current,
            r.spec_max() == max,
    {
        HealthComponent { current_health: current, max_health: max }
    }

    pub fn current(&self) -> (r: i64)
        ensures
            r == self.spec_current(),
    {
        self.current_health
    }

    pub fn max(&self) -> (r: i64)
        ensures
            r == self.spec_max(),
    {
        self.max_health
    }
}

impl Default for HealthComponent {
    fn default() -> (r: HealthComponent)
        ensures
            r.spec_current() == MAX_HP,
            r.spec_max() == MAX_HP,
    {
        HealthComponent { max_health: MAX_HP, current_health: MAX_HP }
    }
}

impl CombatComponent {
    pub open spec fn spec_armour(self) -> i64 {
        self.armour
    }

    pub open spec fn spec_ap_damage(self) -> i64 {
        self.ap_damage
    }

    pub open spec fn spec_melee_attack(self) -> i64 {
        self.melee_attack
    }

    pub open spec fn spec_melee_defence(self) -> i64 {
        self.melee_defence
    }

    pub open spec fn spec_normal_damage(self) -> i64 {
        self.normal_damage
    }

    /// All statistics nonnegative and under `STAT_LIMIT`, which keeps every
    /// damage computation inside `i64` range.
    pub open spec fn wf(self) -> bool {
        &&& 0 <= self.armour <= STAT_LIMIT
        &&& 0 <= self.ap_damage <= STAT_LIMIT
        &&& 0 <= self.melee_attack <= STAT_LIMIT
        &&& 0 <= self.melee_defence <= STAT_LIMIT
        &&& 0 <= self.normal_damage <= STAT_LIMIT
    }

    /// A combat record with the given statistics, in thousandths of a stat
    /// point.
    pub fn new(armour: i64, ap_damage: i64, melee_attack: i64, melee_defence: i64, normal_damage: i64) -> (r:
        CombatComponent)
        requires
            0 <= armour <= STAT_LIMIT,
            0 <= ap_damage <= STAT_LIMIT,
            0 <= melee_attack <= STAT_LIMIT,
            0 <= melee_defence <= STAT_LIMIT,
            0 <= normal_damage <= STAT_LIMIT,
        ensures
            r == (CombatComponent { armour, ap_damage, melee_attack, melee_defence, normal_damage }),
            r.wf(),
    {
        CombatComponent { armour, ap_damage, melee_attack, melee_defence, normal_damage }
    }
}

impl Default for CombatComponent {
    fn default() -> (r: CombatComponent)
        ensures
            r == (CombatComponent {
                armour: 50_000,
                ap_damage: 3_000,
                melee_attack: 30_000,
                melee_defence: 30_000,
                normal_damage: 25_000,
            }),
            r.wf(),
    {
        CombatComponent {
            armour: 50_000,
            ap_damage: 3_000,
            melee_attack: 30_000,
            melee_defence: 30_000,
            normal_damage: 25_000,
        }
    }
}

impl Default for MissileWeaponComponent {
    fn default() -> (r: MissileWeaponComponent)
        ensures
            r == MissileWeaponComponent::Unarmed,
    {
        MissileWeaponComponent::Unarmed
    }
}

} // verus!

pub mod combat;
pub mod game_speed;
pub mod movement;
pub mod physics;
pub mod teams;
pub mod tick;
pub mod ui;
pub mod units;
pub mod user_input;
pub mod world;
