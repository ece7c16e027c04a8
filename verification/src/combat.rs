//! The combat resolver.
//!
//! Combat runs after the decision pass, so no unit fights an opponent that
//! was removed earlier in the same tick.  Every melee fighter rolls a
//! contested hit check and, on a hit, deals damage; every firing unit
//! spends one round of ammunition and deals damage unconditionally.  A
//! target whose health falls below zero is reported dead; the death
//! propagator removes it at the end of the tick.
//!
//! Random draws are thousandths of the unit interval.  Each resolution is
//! exact for given draws; the drawing variants state what holds for every
//! outcome.

use vstd::prelude::*;

verus! {

use crate::CombatComponent;
use crate::EntityId;
use crate::ROLL_ONE;
use crate::UnitState;
use crate::world::UnitModel;
use crate::world::World;
use crate::world::lemma_index_of_id;
use crate::world::spec_id_valid_in;
use crate::world::spec_ids_unique_in;
use crate::world::spec_index_of_id;
use crate::world::spec_wf_model;

/// Melee damage for a fixed armour roll, in thousandths of a hit point:
/// armour absorbs a rolled fraction of its value from the normal damage,
/// and armour-piercing damage always applies in full.  Overwhelming armour
/// rolls can push the total negative.
pub open spec fn spec_damage(source: CombatComponent, target: CombatComponent, roll: u64) -> int {
    source.normal_damage - (target.armour * roll) / (ROLL_ONE as int) + source.ap_damage
}

/// The contested melee hit check: attack and defence are independently
/// rolled, and a hit is scored when the attack roll is strictly higher.
pub open spec fn spec_melee_hit(
    source: CombatComponent,
    target: CombatComponent,
    roll_attack: u64,
    roll_defence: u64,
) -> bool {
    source.melee_attack * roll_attack > target.melee_defence * roll_defence
}

/// Health after taking `damage`, sticking at the ends of the `i64` range
/// rather than wrap.  Negative damage heals: an armour roll larger than
/// the incoming normal damage pushes the total below zero.
pub open spec fn spec_health_after_hit(health: i64, damage: int) -> i64 {
    if health - damage < i64::MIN {
        i64::MIN
    } else if health - damage > i64::MAX {
        i64::MAX
    } else {
        (health - damage) as i64
    }
}

/// AP damage is always applied; armour is rolled between zero and its full
/// value and subtracted from the source's normal attack damage.
pub fn calc_damage(source: &CombatComponent, target: &CombatComponent, roll: u64) -> (r: i64)
    requires
        source.wf(),
        target.wf(),
        roll <= ROLL_ONE,
    ensures
        r == spec_damage(*source, *target, roll),
{
    proof {
        assert(target.armour * roll <= 1_000_000_000_000i64) by (nonlinear_arith)
            requires
                0 <= target.armour <= 1_000_000_000i64,
                0 <= roll <= 1000u64,
        ;
    }
    let armour_roll = (target.armour * roll as i64) / 1000;
    source.normal_damage - armour_roll + source.ap_damage
}

/// Melee attack and melee defence are independently rolled; if the attack
/// roll is higher a hit is scored.
pub fn calc_melee_hit(
    source: &CombatComponent,
    target: &CombatComponent,
    roll_attack: u64,
    roll_defence: u64,
) -> (r: bool)
    requires
        source.wf(),
        target.wf(),
        roll_attack <= ROLL_ONE,
        roll_defence <= ROLL_ONE,
    ensures
        r == spec_melee_hit(*source, *target, roll_attack, roll_defence),
{
    proof {
        assert(source.melee_attack * roll_attack <= 1_000_000_000_000i64) by (nonlinear_arith)
            requires
                0 <= source.melee_attack <= 1_000_000_000i64,
                0 <= roll_attack <= 1000u64,
        ;
        assert(target.melee_defence * roll_defence <= 1_000_000_000_000i64) by (nonlinear_arith)
            requires
                0 <= target.melee_defence <= 1_000_000_000i64,
                0 <= roll_defence <= 1000u64,
        ;
    }
    source.melee_attack * (roll_attack as i64) > target.melee_defence * (roll_defence as i64)
}

/// Health after a hit, computed exactly with saturation at the `i64` ends.
fn apply_damage(health: i64, damage: i64) -> (r: i64)
    ensures
        r == spec_health_after_hit(health, damage as int),
{
    let wide: i128 = health as i128 - damage as i128;
    if wide < i64::MIN as i128 {
        i64::MIN
    } else if wide > i64::MAX as i128 {
        i64::MAX
    } else {
        wide as i64
    }
}

/// Relies on rand::random: a uniformly drawn machine word.  Nothing is
/// promised of the value; callers state what holds for every outcome.
#[verifier::external_body]
fn draw_random_u64() -> u64 {
    rand::random::<u64>()
}

/// One random roll in `0 .. ROLL_ONE`.
pub(crate) fn draw_roll() -> (r: u64)
    ensures
        r < ROLL_ONE,
{
    draw_random_u64() % ROLL_ONE
}

/// One melee fighter's attack resolved for fixed rolls: on a hit the
/// target's health drops by the rolled damage, and the target is reported
/// dead if its health ends below zero.  A fighter without a live target,
/// or whose target id resolves to no unit, does nothing.
pub open spec fn spec_melee_attack_result(
    m: Seq<UnitModel>,
    attacker: int,
    rolls: (u64, u64, u64),
) -> (Seq<UnitModel>, Seq<EntityId>) {
    match m[attacker].unit.state {
        UnitState::Melee(target_opt) => match target_opt {
            Some(t) => if spec_id_valid_in(m, t) {
                let w = spec_index_of_id(m, t);
                if spec_melee_hit(m[attacker].combat, m[w].combat, rolls.0, rolls.1) {
                    let dmg = spec_damage(m[attacker].combat, m[w].combat, rolls.2);
                    let newh = spec_health_after_hit(m[w].health.current_health, dmg);
                    let m2 = m.update(
                        w,
                        UnitModel {
                            health: crate::HealthComponent {
                                current_health: newh,
                                ..m[w].health
                            },
                            ..m[w]
                        },
                    );
                    if newh < 0 {
                        (m2, seq![t])
                    } else {
                        (m2, Seq::empty())
                    }
                } else {
                    (m, Seq::empty())
                }
            } else {
                (m, Seq::empty())
            },
            None => (m, Seq::empty()),
        },
        _ => (m, Seq::empty()),
    }
}

/// One melee resolution in general: in any world with unique ids, for any
/// fighter with a live target and any rolls, a hit occurs exactly when the
/// attack roll beats the defence roll; on a hit the target's health drops
/// by exactly the damage formula — health sticking only at the `i64` ends
/// — and a death notice is produced exactly when the new health is below
/// zero; on a miss nothing at all changes.
pub proof fn lemma_melee_resolution(
    m: Seq<UnitModel>,
    attacker: int,
    t: EntityId,
    w: int,
    rolls: (u64, u64, u64),
)
    requires
        spec_ids_unique_in(m),
        0 <= attacker < m.len(),
        m[attacker].unit.state == UnitState::Melee(Some(t)),
        0 <= w < m.len(),
        m[w].id == t,
    ensures
        ({
            let r = spec_melee_attack_result(m, attacker, rolls);
            if spec_melee_hit(m[attacker].combat, m[w].combat, rolls.0, rolls.1) {
                let newh = spec_health_after_hit(
                    m[w].health.current_health,
                    spec_damage(m[attacker].combat, m[w].combat, rolls.2),
                );
                &&& r.0 == m.update(
                    w,
                    UnitModel {
                        health: crate::HealthComponent { current_health: newh, ..m[w].health },
                        ..m[w]
                    },
                )
                &&& r.1 == (if newh < 0 {
                    seq![t]
                } else {
                    Seq::<EntityId>::empty()
                })
            } else {
                r.0 == m && r.1 == Seq::<EntityId>::empty()
            }
        }),
{
    assert(spec_id_valid_in(m, t));
    lemma_index_of_id(m, t, w);
}

/// The first `n` units' melee attacks resolved in arena order, with the
/// death notices they produced.
pub open spec fn spec_melee_pass(m: Seq<UnitModel>, rolls: Seq<(u64, u64, u64)>, n: nat) -> (
    Seq<UnitModel>,
    Seq<EntityId>,
)
    decreases n,
{
    if n == 0 {
        (m, Seq::empty())
    } else {
        let prev = spec_melee_pass(m, rolls, (n - 1) as nat);
        let step = spec_melee_attack_result(prev.0, n - 1, rolls[n - 1]);
        (step.0, prev.1 + step.1)
    }
}

/// A melee pass changes nothing but healths.
pub proof fn lemma_melee_pass_shape(m: Seq<UnitModel>, rolls: Seq<(u64, u64, u64)>, n: nat)
    requires
        n <= m.len(),
    ensures
        spec_melee_pass(m, rolls, n).0.len() == m.len(),
        forall|j: int|
            0 <= j < m.len() ==> #[trigger] spec_melee_pass(m, rolls, n).0[j] == (UnitModel {
                health: spec_melee_pass(m, rolls, n).0[j].health,
                ..m[j]
            }),
    decreases n,
{
    if n > 0 {
        lemma_melee_pass_shape(m, rolls, (n - 1) as nat);
        let prev = spec_melee_pass(m, rolls, (n - 1) as nat).0;
        let mp = spec_melee_pass(m, rolls, n).0;
        assert forall|j: int| 0 <= j < m.len() implies #[trigger] mp[j] == (UnitModel {
            health: mp[j].health,
            ..m[j]
        }) by {
            assert(prev[j] == (UnitModel { health: prev[j].health, ..m[j] }));
        }
    }
}

/// A melee pass keeps the world well formed.
pub proof fn lemma_melee_pass_wf(m: Seq<UnitModel>, rolls: Seq<(u64, u64, u64)>, n: nat)
    requires
        spec_wf_model(m),
        n <= m.len(),
    ensures
        spec_wf_model(spec_melee_pass(m, rolls, n).0),
{
    lemma_melee_pass_shape(m, rolls, n);
    let mp = spec_melee_pass(m, rolls, n).0;
    assert forall|t: EntityId| #[trigger] spec_id_valid_in(m, t) implies spec_id_valid_in(mp, t) by {
        let w = choose|w: int| 0 <= w < m.len() && (#[trigger] m[w]).id == t;
        assert(mp[w] == (UnitModel { health: mp[w].health, ..m[w] }));
        assert(mp[w].id == t);
    }
    assert forall|i: int, j: int| 0 <= i < j < mp.len() implies (#[trigger] mp[i]).id != (
    #[trigger] mp[j]).id by {
        assert(mp[i] == (UnitModel { health: mp[i].health, ..m[i] }));
        assert(mp[j] == (UnitModel { health: mp[j].health, ..m[j] }));
        assert(m[i].id != m[j].id);
    }
    assert forall|i: int| 0 <= i < mp.len() implies (#[trigger] mp[i]).spec_local_wf() by {
        assert(mp[i] == (UnitModel { health: mp[i].health, ..m[i] }));
        assert(m[i].spec_local_wf());
    }
    assert forall|i: int| 0 <= i < mp.len() implies crate::world::spec_refs_ok_at(mp, i) by {
        assert(mp[i] == (UnitModel { health: mp[i].health, ..m[i] }));
        assert(crate::world::spec_refs_ok_at(m, i));
        let e = m[i];
        assert forall|k: int| 0 <= k < e.melee_range.len() implies spec_id_valid_in(
            mp,
            #[trigger] e.melee_range[k],
        ) by {
            assert(spec_id_valid_in(m, e.melee_range[k]));
        }
        assert forall|k: int| 0 <= k < e.missile_range.len() implies spec_id_valid_in(
            mp,
            #[trigger] e.missile_range[k],
        ) by {
            assert(spec_id_valid_in(m, e.missile_range[k]));
        }
    }
}

/// Resolves every melee fight for this tick with the given rolls: unit `i`
/// uses `rolls[i]` as its attack, defence and armour draw.  Returns the
/// death notices, in arena order; a no-op while the game is paused.
pub fn unit_melee_system_with_rolls(
    world: &mut World,
    game_speed: &crate::game_speed::GameSpeed,
    rolls: &Vec<(u64, u64, u64)>,
) -> (died: Vec<EntityId>)
    requires
        !game_speed.is_paused ==> old(world).spec_wf(),
        !game_speed.is_paused ==> rolls@.len() >= old(world)@.len(),
        !game_speed.is_paused ==> forall|k: int|
            0 <= k < rolls@.len() ==> (#[trigger] rolls@[k]).0 <= ROLL_ONE && rolls@[k].1
                <= ROLL_ONE && rolls@[k].2 <= ROLL_ONE,
    ensures
        game_speed.is_paused ==> final(world)@ == old(world)@ && died@ == Seq::<EntityId>::empty(),
        !game_speed.is_paused ==> final(world)@ == spec_melee_pass(
            old(world)@,
            rolls@,
            old(world)@.len(),
        ).0,
        !game_speed.is_paused ==> died@ == spec_melee_pass(old(world)@, rolls@, old(world)@.len()).1,
        !game_speed.is_paused ==> final(world).spec_wf(),
{
    let mut died: Vec<EntityId> = Vec::new();
    if game_speed.is_paused() {
        return died;
    }
    let ghost m0 = world@;
    let n = world.units.len();
    let mut i: usize = 0;
    while i < n
        invariant
            n == world.units@.len(),
            0 <= i <= n,
            n == m0.len(),
            spec_wf_model(m0),
            rolls@.len() >= m0.len(),
            forall|k: int|
                0 <= k < rolls@.len() ==> (#[trigger] rolls@[k]).0 <= ROLL_ONE && rolls@[k].1
                    <= ROLL_ONE && rolls@[k].2 <= ROLL_ONE,
            world@ == spec_melee_pass(m0, rolls@, i as nat).0,
            died@ == spec_melee_pass(m0, rolls@, i as nat).1,
        decreases n - i,
    {
        let ghost mc = spec_melee_pass(m0, rolls@, i as nat).0;
        proof {
            lemma_melee_pass_shape(m0, rolls@, i as nat);
            lemma_melee_pass_wf(m0, rolls@, i as nat);
            assert(mc[i as int] == (UnitModel { health: mc[i as int].health, ..m0[i as int] }));
        }
        let state = world.units[i].unit.state;
        match state {
            UnitState::Melee(Some(target)) => {
                proof {
                    assert(crate::world::spec_refs_ok_at(m0, i as int));
                    assert(spec_id_valid_in(m0, target));
                    assert forall|t: EntityId|
                        #[trigger] spec_id_valid_in(m0, t) implies spec_id_valid_in(mc, t) by {
                        let w = choose|w: int| 0 <= w < m0.len() && (#[trigger] m0[w]).id == t;
                        assert(mc[w] == (UnitModel { health: mc[w].health, ..m0[w] }));
                        assert(mc[w].id == t);
                    }
                    assert(spec_id_valid_in(world@, target));
                }
                let w = match world.find_index(target) {
                    Some(w) => w,
                    None => {
                        proof {
                            assert(false);
                        }
                        0
                    },
                };
                proof {
                    lemma_index_of_id(mc, target, w as int);
                    assert(mc[w as int].spec_local_wf());
                    assert(mc[i as int].spec_local_wf());
                }
                let source_combat = world.units[i].combat;
                let target_combat = world.units[w].combat;
                let roll = rolls[i];
                let hit = calc_melee_hit(&source_combat, &target_combat, roll.0, roll.1);
                if hit {
                    let dmg = calc_damage(&source_combat, &target_combat, roll.2);
                    let newh = apply_damage(world.units[w].health.current_health, dmg);
                    world.units[w].health.current_health = newh;
                    if newh < 0 {
                        died.push(target);
                    }
                    proof {
                        assert(world@ =~~= spec_melee_attack_result(
                            mc,
                            i as int,
                            rolls@[i as int],
                        ).0);
                        assert(died@ =~= spec_melee_pass(m0, rolls@, (i + 1) as nat).1);
                    }
                } else {
                    proof {
                        assert(world@ =~~= spec_melee_attack_result(
                            mc,
                            i as int,
                            rolls@[i as int],
                        ).0);
                        assert(died@ =~= spec_melee_pass(m0, rolls@, (i + 1) as nat).1);
                    }
                }
            }
            _ => {
                proof {
                    assert(world@ =~~= spec_melee_attack_result(mc, i as int, rolls@[i as int]).0);
                    assert(died@ =~= spec_melee_pass(m0, rolls@, (i + 1) as nat).1);
                }
            }
        }
        i = i + 1;
    }
    proof {
        lemma_melee_pass_wf(m0, rolls@, n as nat);
    }
    died
}

/// Resolves every melee fight for this tick, drawing the rolls.  Whatever
/// the draws, the outcome is a melee pass for some roll sequence: only
/// healths change, and every death notice names a unit whose health went
/// below zero under the damage formula.
pub fn unit_melee_system(world: &mut World, game_speed: &crate::game_speed::GameSpeed) -> (died:
    Vec<EntityId>)
    requires
        !game_speed.is_paused ==> old(world).spec_wf(),
    ensures
        game_speed.is_paused ==> final(world)@ == old(world)@ && died@ == Seq::<EntityId>::empty(),
        !game_speed.is_paused ==> exists|rolls: Seq<(u64, u64, u64)>|
            {
                &&& rolls.len() == old(world)@.len()
                &&& (forall|k: int|
                    0 <= k < rolls.len() ==> (#[trigger] rolls[k]).0 < ROLL_ONE && rolls[k].1
                        < ROLL_ONE && rolls[k].2 < ROLL_ONE)
                &&& final(world)@ == spec_melee_pass(old(world)@, rolls, old(world)@.len()).0
                &&& died@ == spec_melee_pass(old(world)@, rolls, old(world)@.len()).1
            },
        !game_speed.is_paused ==> final(world).spec_wf(),
{
    let mut died: Vec<EntityId> = Vec::new();
    if game_speed.is_paused() {
        return died;
    }
    let n = world.units.len();
    let mut rolls: Vec<(u64, u64, u64)> = Vec::new();
    let mut i: usize = 0;
    while i < n
        invariant
            0 <= i <= n,
            rolls@.len() == i,
            forall|k: int|
                0 <= k < rolls@.len() ==> (#[trigger] rolls@[k]).0 < ROLL_ONE && rolls@[k].1
                    < ROLL_ONE && rolls@[k].2 < ROLL_ONE,
        decreases n - i,
    {
        let r0 = draw_roll();
        let r1 = draw_roll();
        let r2 = draw_roll();
        rolls.push((r0, r1, r2));
        i = i + 1;
    }
    unit_melee_system_with_rolls(world, game_speed, &rolls)
}


// ---------------------------------------------------------------------------
// Missile fire
// ---------------------------------------------------------------------------

/// Does unit `i` release a missile this tick: it stands in a firing state
/// with a live target.
pub open spec fn spec_unit_fires(m: Seq<UnitModel>, i: int) -> bool {
    match m[i].unit.state {
        UnitState::Firing(target_opt) => match target_opt {
            Some(t) => spec_id_valid_in(m, t),
            None => false,
        },
        UnitState::FiringAndMoving(target_opt) => match target_opt {
            Some(t) => spec_id_valid_in(m, t),
            None => false,
        },
        _ => false,
    }
}

/// The target of unit `i`'s missile, when it fires.
pub open spec fn spec_fire_target(m: Seq<UnitModel>, i: int) -> EntityId {
    m[i].unit.state.spec_actively_fighting().unwrap()
}

/// One firing unit's shot resolved for a fixed armour roll: one round of
/// ammunition is spent and the damage formula applies unconditionally —
/// missile fire has no hit check.  A unit not in a firing state, without a
/// live target, does nothing.
pub open spec fn spec_missile_attack_result(m: Seq<UnitModel>, attacker: int, roll: u64) -> (
    Seq<UnitModel>,
    Seq<EntityId>,
) {
    if spec_unit_fires(m, attacker) {
        let t = spec_fire_target(m, attacker);
        let w = spec_index_of_id(m, t);
        let m1 = m.update(
            attacker,
            UnitModel { missile: m[attacker].missile.spec_after_ammo_use(), ..m[attacker] },
        );
        let dmg = spec_damage(m1[attacker].combat, m1[w].combat, roll);
        let newh = spec_health_after_hit(m1[w].health.current_health, dmg);
        let m2 = m1.update(
            w,
            UnitModel {
                health: crate::HealthComponent { current_health: newh, ..m1[w].health },
                ..m1[w]
            },
        );
        if newh < 0 {
            (m2, seq![t])
        } else {
            (m2, Seq::empty())
        }
    } else {
        (m, Seq::empty())
    }
}

/// One missile resolution in general: in any world with unique ids, for
/// any firing unit with a live target and any armour roll, one round of
/// ammunition is spent and the target's health drops by exactly the damage
/// formula, unconditionally — missile fire has no hit check — with a death
/// notice exactly when the new health is below zero.
pub proof fn lemma_missile_resolution(
    m: Seq<UnitModel>,
    attacker: int,
    t: EntityId,
    w: int,
    roll: u64,
)
    requires
        spec_ids_unique_in(m),
        0 <= attacker < m.len(),
        m[attacker].unit.state == UnitState::Firing(Some(t)) || m[attacker].unit.state
            == UnitState::FiringAndMoving(Some(t)),
        0 <= w < m.len(),
        m[w].id == t,
    ensures
        ({
            let r = spec_missile_attack_result(m, attacker, roll);
            let m1 = m.update(
                attacker,
                UnitModel { missile: m[attacker].missile.spec_after_ammo_use(), ..m[attacker] },
            );
            let newh = spec_health_after_hit(
                m1[w].health.current_health,
                spec_damage(m1[attacker].combat, m1[w].combat, roll),
            );
            &&& r.0 == m1.update(
                w,
                UnitModel {
                    health: crate::HealthComponent { current_health: newh, ..m1[w].health },
                    ..m1[w]
                },
            )
            &&& r.1 == (if newh < 0 {
                seq![t]
            } else {
                Seq::<EntityId>::empty()
            })
            &&& (m[attacker].missile.spec_is_missile_attack_available() ==> r.0[
                attacker
            ].missile.spec_ammo_count() == m[attacker].missile.spec_ammo_count() - 1)
        }),
{
    assert(spec_id_valid_in(m, t));
    assert(spec_unit_fires(m, attacker));
    lemma_index_of_id(m, t, w);
}

/// The first `n` units' missile shots resolved in arena order, with the
/// death notices they produced.
pub open spec fn spec_missile_pass(m: Seq<UnitModel>, rolls: Seq<u64>, n: nat) -> (
    Seq<UnitModel>,
    Seq<EntityId>,
)
    decreases n,
{
    if n == 0 {
        (m, Seq::empty())
    } else {
        let prev = spec_missile_pass(m, rolls, (n - 1) as nat);
        let step = spec_missile_attack_result(prev.0, n - 1, rolls[n - 1]);
        (step.0, prev.1 + step.1)
    }
}

/// A missile pass changes nothing but healths and the firing units' own
/// ammunition; ammunition of the units not yet processed is untouched.
pub proof fn lemma_missile_pass_shape(m: Seq<UnitModel>, rolls: Seq<u64>, n: nat)
    requires
        n <= m.len(),
        spec_ids_unique_in(m),
    ensures
        spec_missile_pass(m, rolls, n).0.len() == m.len(),
        forall|j: int|
            0 <= j < m.len() ==> #[trigger] spec_missile_pass(m, rolls, n).0[j] == (UnitModel {
                health: spec_missile_pass(m, rolls, n).0[j].health,
                missile: spec_missile_pass(m, rolls, n).0[j].missile,
                ..m[j]
            }),
        forall|j: int|
            n <= j < m.len() ==> #[trigger] spec_missile_pass(m, rolls, n).0[j].missile
                == m[j].missile,
        forall|j: int|
            0 <= j < n ==> #[trigger] spec_missile_pass(m, rolls, n).0[j].missile == (if
            spec_unit_fires(m, j) {
                m[j].missile.spec_after_ammo_use()
            } else {
                m[j].missile
            }),
    decreases n,
{
    if n > 0 {
        lemma_missile_pass_shape(m, rolls, (n - 1) as nat);
        let prev = spec_missile_pass(m, rolls, (n - 1) as nat).0;
        let mp = spec_missile_pass(m, rolls, n).0;
        let a = n - 1;
        assert forall|t: EntityId|
            #[trigger] spec_id_valid_in(m, t) implies spec_id_valid_in(prev, t) by {
            let w = choose|w: int| 0 <= w < m.len() && (#[trigger] m[w]).id == t;
            assert(prev[w] == (UnitModel { health: prev[w].health, missile: prev[w].missile, ..m[w] }));
            assert(prev[w].id == t);
        }
        assert forall|t: EntityId|
            #[trigger] spec_id_valid_in(prev, t) implies spec_id_valid_in(m, t) by {
            let w = choose|w: int| 0 <= w < prev.len() && (#[trigger] prev[w]).id == t;
            assert(prev[w] == (UnitModel { health: prev[w].health, missile: prev[w].missile, ..m[w] }));
            assert(m[w].id == t);
        }
        assert(prev[a] == (UnitModel { health: prev[a].health, missile: prev[a].missile, ..m[a] }));
        assert(spec_unit_fires(prev, a) == spec_unit_fires(m, a));
        if spec_unit_fires(prev, a) {
            let t = spec_fire_target(prev, a);
            assert(spec_id_valid_in(prev, t));
            let w = spec_index_of_id(prev, t);
            assert(0 <= w < prev.len() && prev[w].id == t);
            assert forall|j: int| 0 <= j < m.len() implies #[trigger] mp[j] == (UnitModel {
                health: mp[j].health,
                missile: mp[j].missile,
                ..m[j]
            }) by {
                assert(prev[j] == (UnitModel {
                    health: prev[j].health,
                    missile: prev[j].missile,
                    ..m[j]
                }));
            }
            assert(prev[a].missile == m[a].missile);
            assert(mp[a].missile == m[a].missile.spec_after_ammo_use() || (w == a && mp[a].missile
                == m[a].missile.spec_after_ammo_use()));
            assert forall|j: int| n <= j < m.len() implies #[trigger] mp[j].missile
                == m[j].missile by {
                assert(j != a);
                if j != w {
                } else {
                    assert(mp[j].missile == prev[j].missile);
                }
            }
            assert forall|j: int| 0 <= j < n implies #[trigger] mp[j].missile == (if
            spec_unit_fires(m, j) {
                m[j].missile.spec_after_ammo_use()
            } else {
                m[j].missile
            }) by {
                if j == a {
                } else {
                    if j == w {
                        assert(mp[j].missile == prev[j].missile);
                    } else {
                        assert(mp[j].missile == prev[j].missile);
                    }
                }
            }
        }
    }
}

/// A missile pass keeps the world well formed.  Every firing unit must
/// have ammunition, which the decision pass guarantees; without that, a
/// shot from an empty weapon would wrap its round count.
pub proof fn lemma_missile_pass_wf(m: Seq<UnitModel>, rolls: Seq<u64>, n: nat)
    requires
        spec_wf_model(m),
        crate::units::spec_firing_have_ammo(m),
        n <= m.len(),
    ensures
        spec_wf_model(spec_missile_pass(m, rolls, n).0),
{
    lemma_missile_pass_shape(m, rolls, n);
    let mp = spec_missile_pass(m, rolls, n).0;
    assert forall|t: EntityId| #[trigger] spec_id_valid_in(m, t) implies spec_id_valid_in(mp, t) by {
        let w = choose|w: int| 0 <= w < m.len() && (#[trigger] m[w]).id == t;
        assert(mp[w] == (UnitModel { health: mp[w].health, missile: mp[w].missile, ..m[w] }));
        assert(mp[w].id == t);
    }
    assert forall|i: int, j: int| 0 <= i < j < mp.len() implies (#[trigger] mp[i]).id != (
    #[trigger] mp[j]).id by {
        assert(mp[i] == (UnitModel { health: mp[i].health, missile: mp[i].missile, ..m[i] }));
        assert(mp[j] == (UnitModel { health: mp[j].health, missile: mp[j].missile, ..m[j] }));
        assert(m[i].id != m[j].id);
    }
    assert forall|i: int| 0 <= i < mp.len() implies (#[trigger] mp[i]).spec_local_wf() by {
        assert(mp[i] == (UnitModel { health: mp[i].health, missile: mp[i].missile, ..m[i] }));
        assert(m[i].spec_local_wf());
        // A melee-primary unit never fires — it has no attack available —
        // so its weapon rides through unchanged and stays unavailable.
        if m[i].unit.spec_primary_attack_type() == crate::AttackType::Melee {
            assert(!spec_unit_fires(m, i));
            if i < n {
                assert(mp[i].missile == m[i].missile);
            }
        }
    }
    assert forall|i: int| 0 <= i < mp.len() implies crate::world::spec_refs_ok_at(mp, i) by {
        assert(mp[i] == (UnitModel { health: mp[i].health, missile: mp[i].missile, ..m[i] }));
        assert(crate::world::spec_refs_ok_at(m, i));
        let e = m[i];
        assert forall|k: int| 0 <= k < e.melee_range.len() implies spec_id_valid_in(
            mp,
            #[trigger] e.melee_range[k],
        ) by {
            assert(spec_id_valid_in(m, e.melee_range[k]));
        }
        assert forall|k: int| 0 <= k < e.missile_range.len() implies spec_id_valid_in(
            mp,
            #[trigger] e.missile_range[k],
        ) by {
            assert(spec_id_valid_in(m, e.missile_range[k]));
        }
    }
}

/// Ammunition conservation: in a world where every firing unit has a
/// missile attack available, a missile pass takes exactly one round from
/// each unit that fires and touches no other unit's ammunition; firing
/// never happens with an empty weapon.
pub proof fn lemma_missile_pass_ammo(m: Seq<UnitModel>, rolls: Seq<u64>, n: nat)
    requires
        spec_ids_unique_in(m),
        crate::units::spec_firing_have_ammo(m),
        n <= m.len(),
    ensures
        forall|j: int|
            0 <= j < n && spec_unit_fires(m, j) ==> {
                &&& (#[trigger] spec_missile_pass(m, rolls, n).0[j]).missile.spec_ammo_count()
                    == m[j].missile.spec_ammo_count() - 1
                &&& m[j].missile.spec_ammo_count() >= 1
            },
        forall|j: int|
            0 <= j < n && !spec_unit_fires(m, j) ==> (#[trigger] spec_missile_pass(
                m,
                rolls,
                n,
            ).0[j]).missile == m[j].missile,
        forall|j: int|
            n <= j < m.len() ==> (#[trigger] spec_missile_pass(m, rolls, n).0[j]).missile
                == m[j].missile,
{
    lemma_missile_pass_shape(m, rolls, n);
    assert forall|j: int| 0 <= j < n && spec_unit_fires(m, j) implies {
        &&& (#[trigger] spec_missile_pass(m, rolls, n).0[j]).missile.spec_ammo_count()
            == m[j].missile.spec_ammo_count() - 1
        &&& m[j].missile.spec_ammo_count() >= 1
    } by {
        assert(m[j].missile.spec_is_missile_attack_available());
    }
}

/// Resolves every missile shot for this tick with the given rolls: unit
/// `i` uses `rolls[i]` as its armour draw.  Every firing unit must have
/// ammunition, which the decision pass guarantees.  Returns the death
/// notices, in arena order; a no-op while the game is paused.
pub fn unit_missile_system_with_rolls(
    world: &mut World,
    game_speed: &crate::game_speed::GameSpeed,
    rolls: &Vec<u64>,
) -> (died: Vec<EntityId>)
    requires
        !game_speed.is_paused ==> old(world).spec_wf(),
        !game_speed.is_paused ==> crate::units::spec_firing_have_ammo(old(world)@),
        !game_speed.is_paused ==> rolls@.len() >= old(world)@.len(),
        !game_speed.is_paused ==> forall|k: int|
            0 <= k < rolls@.len() ==> #[trigger] rolls@[k] <= ROLL_ONE,
    ensures
        game_speed.is_paused ==> final(world)@ == old(world)@ && died@ == Seq::<EntityId>::empty(),
        !game_speed.is_paused ==> final(world)@ == spec_missile_pass(
            old(world)@,
            rolls@,
            old(world)@.len(),
        ).0,
        !game_speed.is_paused ==> died@ == spec_missile_pass(
            old(world)@,
            rolls@,
            old(world)@.len(),
        ).1,
        !game_speed.is_paused ==> final(world).spec_wf(),
{
    let mut died: Vec<EntityId> = Vec::new();
    if game_speed.is_paused() {
        return died;
    }
    let ghost m0 = world@;
    let n = world.units.len();
    let mut i: usize = 0;
    while i < n
        invariant
            n == world.units@.len(),
            0 <= i <= n,
            n == m0.len(),
            spec_wf_model(m0),
            crate::units::spec_firing_have_ammo(m0),
            rolls@.len() >= m0.len(),
            forall|k: int| 0 <= k < rolls@.len() ==> #[trigger] rolls@[k] <= ROLL_ONE,
            world@ == spec_missile_pass(m0, rolls@, i as nat).0,
            died@ == spec_missile_pass(m0, rolls@, i as nat).1,
        decreases n - i,
    {
        let ghost mc = spec_missile_pass(m0, rolls@, i as nat).0;
        proof {
            lemma_missile_pass_shape(m0, rolls@, i as nat);
            lemma_missile_pass_wf(m0, rolls@, i as nat);
            assert(mc[i as int] == (UnitModel {
                health: mc[i as int].health,
                missile: mc[i as int].missile,
                ..m0[i as int]
            }));
            assert(mc[i as int].missile == m0[i as int].missile);
        }
        let state = world.units[i].unit.state;
        match state {
            UnitState::Firing(Some(target)) | UnitState::FiringAndMoving(Some(target)) => {
                proof {
                    assert(crate::world::spec_refs_ok_at(m0, i as int));
                    assert(spec_id_valid_in(m0, target));
                    assert forall|t: EntityId|
                        #[trigger] spec_id_valid_in(m0, t) implies spec_id_valid_in(mc, t) by {
                        let w = choose|w: int| 0 <= w < m0.len() && (#[trigger] m0[w]).id == t;
                        assert(mc[w] == (UnitModel {
                            health: mc[w].health,
                            missile: mc[w].missile,
                            ..m0[w]
                        }));
                        assert(mc[w].id == t);
                    }
                    assert(spec_id_valid_in(world@, target));
                    assert(spec_unit_fires(mc, i as int));
                }
                let w = match world.find_index(target) {
                    Some(w) => w,
                    None => {
                        proof {
                            assert(false);
                        }
                        0
                    },
                };
                proof {
                    lemma_index_of_id(mc, target, w as int);
                    assert(mc[w as int].spec_local_wf());
                    assert(mc[i as int].spec_local_wf());
                    assert(m0[i as int].missile.spec_is_missile_attack_available());
                }
                world.units[i].missile.use_ammo();
                let ghost m_ammo = mc.update(
                    i as int,
                    UnitModel { missile: mc[i as int].missile.spec_after_ammo_use(), ..mc[i as int] },
                );
                proof {
                    assert(world@ =~~= m_ammo);
                }
                let source_combat = world.units[i].combat;
                let target_combat = world.units[w].combat;
                let roll = rolls[i];
                let dmg = calc_damage(&source_combat, &target_combat, roll);
                let newh = apply_damage(world.units[w].health.current_health, dmg);
                world.units[w].health.current_health = newh;
                if newh < 0 {
                    died.push(target);
                }
                proof {
                    assert(world@ =~~= spec_missile_attack_result(mc, i as int, rolls@[i as int]).0);
                    assert(died@ =~= spec_missile_pass(m0, rolls@, (i + 1) as nat).1);
                }
            }
            _ => {
                proof {
                    assert(!spec_unit_fires(mc, i as int));
                    assert(world@ =~~= spec_missile_attack_result(mc, i as int, rolls@[i as int]).0);
                    assert(died@ =~= spec_missile_pass(m0, rolls@, (i + 1) as nat).1);
                }
            }
        }
        i = i + 1;
    }
    proof {
        lemma_missile_pass_wf(m0, rolls@, n as nat);
    }
    died
}

/// Resolves every missile shot for this tick, drawing the armour rolls.
/// Whatever the draws, the outcome is a missile pass for some roll
/// sequence: ammunition falls by exactly one round per firing unit, and
/// only targets' healths change besides.
pub fn unit_missile_system(world: &mut World, game_speed: &crate::game_speed::GameSpeed) -> (died:
    Vec<EntityId>)
    requires
        !game_speed.is_paused ==> old(world).spec_wf(),
        !game_speed.is_paused ==> crate::units::spec_firing_have_ammo(old(world)@),
    ensures
        game_speed.is_paused ==> final(world)@ == old(world)@ && died@ == Seq::<EntityId>::empty(),
        !game_speed.is_paused ==> exists|rolls: Seq<u64>|
            {
                &&& rolls.len() == old(world)@.len()
                &&& (forall|k: int| 0 <= k < rolls.len() ==> #[trigger] rolls[k] < ROLL_ONE)
                &&& final(world)@ == spec_missile_pass(old(world)@, rolls, old(world)@.len()).0
                &&& died@ == spec_missile_pass(old(world)@, rolls, old(world)@.len()).1
            },
        !game_speed.is_paused ==> final(world).spec_wf(),
{
    let mut died: Vec<EntityId> = Vec::new();
    if game_speed.is_paused() {
        return died;
    }
    let n = world.units.len();
    let mut rolls: Vec<u64> = Vec::new();
    let mut i: usize = 0;
    while i < n
        invariant
            0 <= i <= n,
            rolls@.len() == i,
            forall|k: int| 0 <= k < rolls@.len() ==> #[trigger] rolls@[k] < ROLL_ONE,
        decreases n - i,
    {
        let r = draw_roll();
        rolls.push(r);
        i = i + 1;
    }
    unit_missile_system_with_rolls(world, game_speed, &rolls)
}

} // verus!
