//! The unit arena: every live unit with its components, keyed by stable id.
//!
//! Units refer to each other only by id; each lookup goes through the arena.
//! `spec_wf` is the world's well-formedness: unique ids, bounded stats,
//! positions and speeds, duplicate-free proximity lists, and no reference —
//! target, order or proximity entry — to an id that is not in the arena.
//! Every tick phase preserves it.

use vstd::prelude::*;

verus! {

use crate::AttackType;
use crate::CombatComponent;
use crate::EntityId;
use crate::HealthComponent;
use crate::MissileWeaponComponent;
use crate::POS_LIMIT;
use crate::SPEED_LIMIT;
use crate::UnitComponent;
use crate::UnitUserCommand;
use crate::WaypointComponent;
use crate::XyPos;
use crate::units::NearbyUnitsComponent;

/// `s` with every occurrence of `id` removed, order otherwise kept.
pub open spec fn spec_remove_id(s: Seq<EntityId>, id: EntityId) -> Seq<EntityId>
    decreases s.len(),
{
    if s.len() == 0 {
        Seq::empty()
    } else {
        let r = spec_remove_id(s.drop_last(), id);
        if s.last() == id {
            r
        } else {
            r.push(s.last())
        }
    }
}

/// `s` with every occurrence of any id in `dead` removed, order otherwise
/// kept.
pub open spec fn spec_remove_ids(s: Seq<EntityId>, dead: Seq<EntityId>) -> Seq<EntityId>
    decreases s.len(),
{
    if s.len() == 0 {
        Seq::empty()
    } else {
        let r = spec_remove_ids(s.drop_last(), dead);
        if dead.contains(s.last()) {
            r
        } else {
            r.push(s.last())
        }
    }
}

pub proof fn lemma_remove_id_contains(s: Seq<EntityId>, id: EntityId, x: EntityId)
    ensures
        spec_remove_id(s, id).contains(x) <==> (s.contains(x) && x != id),
    decreases s.len(),
{
    if s.len() > 0 {
        lemma_remove_id_contains(s.drop_last(), id, x);
        assert(s.drop_last().contains(x) || s.last() == x <==> s.contains(x)) by {
            if s.contains(x) {
                let w = choose|w: int| 0 <= w < s.len() && s[w] == x;
                if w < s.len() - 1 {
                    assert(s.drop_last()[w] == x);
                }
            } else {
                if s.drop_last().contains(x) {
                    let w = choose|w: int| 0 <= w < s.drop_last().len() && s.drop_last()[w] == x;
                    assert(s[w] == x);
                }
            }
        }
        if s.last() != id {
            let r = spec_remove_id(s.drop_last(), id);
            assert(r.push(s.last()).contains(x) <==> (r.contains(x) || s.last() == x)) by {
                if r.push(s.last()).contains(x) {
                    let w = choose|w: int|
                        0 <= w < r.push(s.last()).len() && r.push(s.last())[w] == x;
                    if w < r.len() {
                        assert(r[w] == x);
                    }
                } else {
                    if r.contains(x) {
                        let w = choose|w: int| 0 <= w < r.len() && r[w] == x;
                        assert(r.push(s.last())[w] == x);
                    }
                    assert(r.push(s.last())[r.len() as int] == s.last());
                }
            }
        }
    }
}

pub proof fn lemma_remove_ids_contains(s: Seq<EntityId>, dead: Seq<EntityId>, x: EntityId)
    ensures
        spec_remove_ids(s, dead).contains(x) <==> (s.contains(x) && !dead.contains(x)),
    decreases s.len(),
{
    if s.len() > 0 {
        lemma_remove_ids_contains(s.drop_last(), dead, x);
        assert(s.drop_last().contains(x) || s.last() == x <==> s.contains(x)) by {
            if s.contains(x) {
                let w = choose|w: int| 0 <= w < s.len() && s[w] == x;
                if w < s.len() - 1 {
                    assert(s.drop_last()[w] == x);
                }
            } else {
                if s.drop_last().contains(x) {
                    let w = choose|w: int| 0 <= w < s.drop_last().len() && s.drop_last()[w] == x;
                    assert(s[w] == x);
                }
            }
        }
        if !dead.contains(s.last()) {
            let r = spec_remove_ids(s.drop_last(), dead);
            assert(r.push(s.last()).contains(x) <==> (r.contains(x) || s.last() == x)) by {
                if r.push(s.last()).contains(x) {
                    let w = choose|w: int|
                        0 <= w < r.push(s.last()).len() && r.push(s.last())[w] == x;
                    if w < r.len() {
                        assert(r[w] == x);
                    }
                } else {
                    if r.contains(x) {
                        let w = choose|w: int| 0 <= w < r.len() && r[w] == x;
                        assert(r.push(s.last())[w] == x);
                    }
                    assert(r.push(s.last())[r.len() as int] == s.last());
                }
            }
        }
    }
}

pub proof fn lemma_remove_id_no_duplicates(s: Seq<EntityId>, id: EntityId)
    requires
        s.no_duplicates(),
    ensures
        spec_remove_id(s, id).no_duplicates(),
    decreases s.len(),
{
    if s.len() > 0 {
        assert(s.drop_last().no_duplicates());
        lemma_remove_id_no_duplicates(s.drop_last(), id);
        if s.last() != id {
            let r = spec_remove_id(s.drop_last(), id);
            assert(!r.contains(s.last())) by {
                if r.contains(s.last()) {
                    lemma_remove_id_contains(s.drop_last(), id, s.last());
                    let w = choose|w: int|
                        0 <= w < s.drop_last().len() && s.drop_last()[w] == s.last();
                    assert(s[w] == s[s.len() - 1]);
                }
            }
            assert(r.push(s.last()).no_duplicates()) by {
                let rp = r.push(s.last());
                assert forall|i: int, j: int| 0 <= i < j < rp.len() implies rp[i] != rp[j] by {
                    if j < r.len() {
                        assert(r[i] != r[j]);
                    } else {
                        assert(rp[j] == s.last());
                        assert(rp[i] == r[i]);
                        assert(r.contains(r[i]));
                    }
                }
            }
        }
    }
}

pub proof fn lemma_remove_ids_no_duplicates(s: Seq<EntityId>, dead: Seq<EntityId>)
    requires
        s.no_duplicates(),
    ensures
        spec_remove_ids(s, dead).no_duplicates(),
    decreases s.len(),
{
    if s.len() > 0 {
        assert(s.drop_last().no_duplicates());
        lemma_remove_ids_no_duplicates(s.drop_last(), dead);
        if !dead.contains(s.last()) {
            let r = spec_remove_ids(s.drop_last(), dead);
            assert(!r.contains(s.last())) by {
                if r.contains(s.last()) {
                    lemma_remove_ids_contains(s.drop_last(), dead, s.last());
                    let w = choose|w: int|
                        0 <= w < s.drop_last().len() && s.drop_last()[w] == s.last();
                    assert(s[w] == s[s.len() - 1]);
                }
            }
            assert(r.push(s.last()).no_duplicates()) by {
                let rp = r.push(s.last());
                assert forall|i: int, j: int| 0 <= i < j < rp.len() implies rp[i] != rp[j] by {
                    if j < r.len() {
                        assert(r[i] != r[j]);
                    } else {
                        assert(rp[j] == s.last());
                        assert(rp[i] == r[i]);
                        assert(r.contains(r[i]));
                    }
                }
            }
        }
    }
}

/// Removing ids that do not occur leaves the list unchanged.
pub proof fn lemma_remove_ids_absent(s: Seq<EntityId>, dead: Seq<EntityId>)
    requires
        forall|x: EntityId| s.contains(x) ==> !dead.contains(x),
    ensures
        spec_remove_ids(s, dead) == s,
    decreases s.len(),
{
    if s.len() > 0 {
        assert forall|x: EntityId| s.drop_last().contains(x) implies !dead.contains(x) by {
            let w = choose|w: int| 0 <= w < s.drop_last().len() && s.drop_last()[w] == x;
            assert(s[w] == x);
        }
        lemma_remove_ids_absent(s.drop_last(), dead);
        assert(s[s.len() - 1] == s.last());
        assert(s.contains(s.last()));
        assert(!dead.contains(s.last()));
        assert(spec_remove_ids(s, dead) =~= s);
    }
}

/// Does the id list contain `id`?
pub fn vec_contains_id(v: &Vec<EntityId>, id: EntityId) -> (r: bool)
    ensures
        r == v@.contains(id),
{
    let n = v.len();
    let mut i: usize = 0;
    while i < n
        invariant
            n == v@.len(),
            0 <= i <= n,
            forall|m: int| 0 <= m < i ==> v@[m] != id,
        decreases n - i,
    {
        if v[i] == id {
            return true;
        }
        i = i + 1;
    }
    false
}

/// Appends `id` unless it is already present, keeping the list
/// duplicate-free.
pub fn vec_push_if_absent(v: &mut Vec<EntityId>, id: EntityId)
    ensures
        final(v)@ == (if old(v)@.contains(id) {
            old(v)@
        } else {
            old(v)@.push(id)
        }),
{
    if !vec_contains_id(v, id) {
        v.push(id);
    }
}

/// Removes every occurrence of `id`.
pub fn vec_remove_id(v: &mut Vec<EntityId>, id: EntityId)
    ensures
        final(v)@ == spec_remove_id(old(v)@, id),
{
    let ghost orig = v@;
    let n = v.len();
    let mut out: Vec<EntityId> = Vec::new();
    let mut i: usize = 0;
    while i < n
        invariant
            n == orig.len(),
            v@ == orig,
            0 <= i <= n,
            out@ == spec_remove_id(orig.take(i as int), id),
        decreases n - i,
    {
        let x = v[i];
        proof {
            assert(orig.take(i + 1 as int).drop_last() =~= orig.take(i as int));
            assert(orig.take(i + 1 as int).last() == orig[i as int]);
        }
        if x != id {
            out.push(x);
        }
        i = i + 1;
    }
    proof {
        assert(orig.take(n as int) =~= orig);
    }
    *v = out;
}

/// Removes every occurrence of every id in `dead`.
pub fn vec_remove_ids(v: &mut Vec<EntityId>, dead: &Vec<EntityId>)
    ensures
        final(v)@ == spec_remove_ids(old(v)@, dead@),
{
    let ghost orig = v@;
    let n = v.len();
    let mut out: Vec<EntityId> = Vec::new();
    let mut i: usize = 0;
    while i < n
        invariant
            n == orig.len(),
            v@ == orig,
            0 <= i <= n,
            out@ == spec_remove_ids(orig.take(i as int), dead@),
        decreases n - i,
    {
        let x = v[i];
        proof {
            assert(orig.take(i + 1 as int).drop_last() =~= orig.take(i as int));
            assert(orig.take(i + 1 as int).last() == orig[i as int]);
        }
        if !vec_contains_id(dead, x) {
            out.push(x);
        }
        i = i + 1;
    }
    proof {
        assert(orig.take(n as int) =~= orig);
    }
    *v = out;
}

/// Appending an id that is not present keeps a list duplicate-free.
pub proof fn lemma_push_absent_no_duplicates(s: Seq<EntityId>, x: EntityId)
    requires
        s.no_duplicates(),
        !s.contains(x),
    ensures
        s.push(x).no_duplicates(),
{
    let sp = s.push(x);
    assert forall|i: int, j: int| 0 <= i < j < sp.len() implies sp[i] != sp[j] by {
        if j < s.len() {
            assert(s[i] != s[j]);
        } else {
            assert(sp[j] == x);
            assert(sp[i] == s[i]);
            assert(s.contains(s[i]));
        }
    }
}

/// One live unit with all of its components.
#[derive(Debug)]
pub struct UnitEntry {
    pub id: EntityId,
    pub unit: UnitComponent,
    pub missile: MissileWeaponComponent,
    pub health: HealthComponent,
    pub combat: CombatComponent,
    pub nearby: NearbyUnitsComponent,
    pub waypoint: WaypointComponent,
    pub pos: XyPos,
}

/// The mathematical view of one unit: the same components, with the two
/// proximity lists abstracted to sequences.  Every contract over the world
/// speaks of sequences of these models.
#[verifier::ext_equal]
pub ghost struct UnitModel {
    pub id: EntityId,
    pub unit: UnitComponent,
    pub missile: MissileWeaponComponent,
    pub health: HealthComponent,
    pub combat: CombatComponent,
    pub melee_range: Seq<EntityId>,
    pub missile_range: Seq<EntityId>,
    pub waypoint: WaypointComponent,
    pub pos: XyPos,
}

impl View for UnitEntry {
    type V = UnitModel;

    open spec fn view(&self) -> UnitModel {
        UnitModel {
            id: self.id,
            unit: self.unit,
            missile: self.missile,
            health: self.health,
            combat: self.combat,
            melee_range: self.nearby.melee_range@,
            missile_range: self.nearby.missile_range@,
            waypoint: self.waypoint,
            pos: self.pos,
        }
    }
}

/// Is some unit of the model carrying this id?
pub open spec fn spec_id_valid_in(m: Seq<UnitModel>, id: EntityId) -> bool {
    exists|i: int| 0 <= i < m.len() && (#[trigger] m[i]).id == id
}

pub open spec fn spec_ids_unique_in(m: Seq<UnitModel>) -> bool {
    forall|i: int, j: int| 0 <= i < j < m.len() ==> (#[trigger] m[i]).id != (#[trigger] m[j]).id
}

impl UnitModel {
    /// Bounds and shape conditions on one unit alone: statistics, speed,
    /// position and waypoint inside their limits, proximity lists free of
    /// duplicates, and the archetype consistent with the weapon — a
    /// melee-primary unit never has a missile attack available, so firing
    /// states only ever arise for ranged-primary units.
    pub open spec fn spec_local_wf(self) -> bool {
        &&& self.combat.wf()
        &&& self.unit.max_speed <= SPEED_LIMIT
        &&& (self.unit.spec_primary_attack_type() == AttackType::Melee
            ==> !self.missile.spec_is_missile_attack_available())
        &&& -POS_LIMIT <= self.pos.x <= POS_LIMIT
        &&& -POS_LIMIT <= self.pos.y <= POS_LIMIT
        &&& (match self.waypoint {
            WaypointComponent::Position(p) => -POS_LIMIT <= p.x <= POS_LIMIT && -POS_LIMIT <= p.y
                <= POS_LIMIT,
            WaypointComponent::Idle => true,
        })
        &&& (match self.unit.current_command {
            UnitUserCommand::Move(p) => -POS_LIMIT <= p.x <= POS_LIMIT && -POS_LIMIT <= p.y
                <= POS_LIMIT,
            _ => true,
        })
        &&& self.melee_range.no_duplicates()
        &&& self.missile_range.no_duplicates()
    }
}

/// Every id unit `i`'s state, standing order or proximity lists mention
/// names a live unit.
pub open spec fn spec_refs_ok_at(m: Seq<UnitModel>, i: int) -> bool {
    let e = m[i];
    &&& (match e.unit.state.spec_actively_fighting() {
        Some(t) => spec_id_valid_in(m, t),
        None => true,
    })
    &&& (match e.unit.current_command {
        UnitUserCommand::AttackMelee(t) => spec_id_valid_in(m, t),
        UnitUserCommand::AttackMissile(t) => spec_id_valid_in(m, t),
        _ => true,
    })
    &&& (forall|k: int|
        0 <= k < e.melee_range.len() ==> spec_id_valid_in(m, #[trigger] e.melee_range[k]))
    &&& (forall|k: int|
        0 <= k < e.missile_range.len() ==> spec_id_valid_in(m, #[trigger] e.missile_range[k]))
}

/// Well-formedness of a whole world model.
pub open spec fn spec_wf_model(m: Seq<UnitModel>) -> bool {
    &&& spec_ids_unique_in(m)
    &&& (forall|i: int| 0 <= i < m.len() ==> (#[trigger] m[i]).spec_local_wf())
    &&& (forall|i: int| 0 <= i < m.len() ==> spec_refs_ok_at(m, i))
}

/// The index of the unit carrying `id`; meaningful when some unit does.
pub open spec fn spec_index_of_id(m: Seq<UnitModel>, id: EntityId) -> int {
    choose|i: int| 0 <= i < m.len() && (#[trigger] m[i]).id == id
}

/// With unique ids, any index carrying `id` is the index.
pub proof fn lemma_index_of_id(m: Seq<UnitModel>, id: EntityId, w: int)
    requires
        spec_ids_unique_in(m),
        0 <= w < m.len(),
        m[w].id == id,
    ensures
        spec_index_of_id(m, id) == w,
{
    let i = choose|i: int| 0 <= i < m.len() && (#[trigger] m[i]).id == id;
    if i != w {
        assert(m[i].id != m[w].id);
    }
}

/// The ammunition count of the unit carrying `id`; meaningful when some
/// unit does.
pub open spec fn spec_ammo_of(m: Seq<UnitModel>, id: EntityId) -> int {
    m[spec_index_of_id(m, id)].missile.spec_ammo_count()
}

/// The world: every live unit, in spawn order.
#[derive(Debug)]
pub struct World {
    pub units: Vec<UnitEntry>,
}

impl View for World {
    type V = Seq<UnitModel>;

    open spec fn view(&self) -> Seq<UnitModel> {
        self.units@.map_values(|e: UnitEntry| e@)
    }
}

impl World {
    pub open spec fn spec_len(self) -> nat {
        self@.len()
    }

    /// Is some live unit carrying this id?
    pub open spec fn spec_id_valid(self, id: EntityId) -> bool {
        spec_id_valid_in(self@, id)
    }

    /// Well-formedness of the whole world.
    pub open spec fn spec_wf(self) -> bool {
        spec_wf_model(self@)
    }

    pub fn new() -> (r: World)
        ensures
            r@ =~= Seq::<UnitModel>::empty(),
            r.spec_wf(),
    {
        World { units: Vec::new() }
    }

    pub fn len(&self) -> (r: usize)
        ensures
            r == self.spec_len(),
    {
        self.units.len()
    }

    /// The position in the arena of the unit carrying `id`.
    pub fn find_index(&self, id: EntityId) -> (r: Option<usize>)
        ensures
            match r {
                Some(i) => i < self@.len() && self@[i as int].id == id,
                None => !self.spec_id_valid(id),
            },
    {
        let n = self.units.len();
        let mut i: usize = 0;
        while i < n
            invariant
                n == self.units@.len(),
                0 <= i <= n,
                forall|m: int| 0 <= m < i ==> (#[trigger] self.units@[m]).id != id,
            decreases n - i,
        {
            if self.units[i].id == id {
                assert(self@[i as int] == self.units@[i as int]@);
                return Some(i);
            }
            i = i + 1;
        }
        assert forall|m: int| 0 <= m < self@.len() implies (#[trigger] self@[m]).id != id by {
            assert(self@[m] == self.units@[m]@);
        }
        None
    }

    /// Adds a freshly spawned unit: idle, no order, no waypoint and no
    /// proximity contacts yet.
    pub fn spawn(
        &mut self,
        id: EntityId,
        unit: UnitComponent,
        missile: MissileWeaponComponent,
        health: HealthComponent,
        combat: CombatComponent,
        pos: XyPos,
    )
        requires
            old(self).spec_wf(),
            !old(self).spec_id_valid(id),
            unit.state == crate::UnitState::Idle,
            unit.current_command is None_,
            unit.max_speed <= SPEED_LIMIT,
            unit.spec_primary_attack_type() == AttackType::Melee
                ==> !missile.spec_is_missile_attack_available(),
            combat.wf(),
            -POS_LIMIT <= pos.x <= POS_LIMIT,
            -POS_LIMIT <= pos.y <= POS_LIMIT,
        ensures
            final(self)@ == old(self)@.push(
                UnitModel {
                    id,
                    unit,
                    missile,
                    health,
                    combat,
                    melee_range: Seq::empty(),
                    missile_range: Seq::empty(),
                    waypoint: WaypointComponent::Idle,
                    pos,
                },
            ),
            final(self).spec_wf(),
    {
        let entry = UnitEntry {
            id,
            unit,
            missile,
            health,
            combat,
            nearby: NearbyUnitsComponent { melee_range: Vec::new(), missile_range: Vec::new() },
            waypoint: WaypointComponent::Idle,
            pos,
        };
        self.units.push(entry);
        proof {
            let m0 = old(self)@;
            let m2 = self@;
            let em = UnitModel {
                id,
                unit,
                missile,
                health,
                combat,
                melee_range: Seq::empty(),
                missile_range: Seq::empty(),
                waypoint: WaypointComponent::Idle,
                pos,
            };
            assert(entry@ =~= em);
            assert(m2 =~= m0.push(em));
            let n = m2.len() as int;
            assert forall|i: int| 0 <= i < n implies spec_refs_ok_at(m2, i) by {
                if i < n - 1 {
                    assert(spec_refs_ok_at(m0, i));
                    assert(m2[i] == m0[i]);
                    assert forall|t: EntityId|
                        spec_id_valid_in(m0, t) implies spec_id_valid_in(m2, t) by {
                        let w = choose|w: int| 0 <= w < m0.len() && (#[trigger] m0[w]).id == t;
                        assert(m2[w].id == t);
                    }
                } else {
                    assert(m2[i] == em);
                }
            }
        }
    }
}

} // verus!
