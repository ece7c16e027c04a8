//! Team membership and the friend-or-foe relation between players.
//!
//! Both lookups are association lists searched from the front; the spec view
//! of a lookup is `spec_assoc`, the first binding of a key.

use vstd::prelude::*;

verus! {

pub type TeamId = usize;

pub type PlayerId = usize;

#[derive(Clone, Copy, Debug, PartialEq, Eq, Structural)]
pub enum TeamRelation {
    Same,
    Allied,
    Enemy,
}

/// The first value bound to `k`, if any.
pub open spec fn spec_assoc<K, V>(s: Seq<(K, V)>, k: K) -> Option<V>
    decreases s.len(),
{
    if s.len() == 0 {
        None
    } else if s[0].0 == k {
        Some(s[0].1)
    } else {
        spec_assoc(s.drop_first(), k)
    }
}

/// Skipping a prefix that does not bind `k` leaves the lookup unchanged.
proof fn lemma_assoc_skip<K, V>(s: Seq<(K, V)>, k: K, i: int)
    requires
        0 <= i <= s.len(),
        forall|m: int| 0 <= m < i ==> (#[trigger] s[m]).0 != k,
    ensures
        spec_assoc(s, k) == spec_assoc(s.skip(i), k),
    decreases i,
{
    if i > 0 {
        lemma_assoc_skip(s, k, i - 1);
        assert(s.skip(i - 1)[0] == s[i - 1]);
        assert(s.skip(i - 1).drop_first() =~= s.skip(i));
    } else {
        assert(s.skip(0) =~= s);
    }
}

/// Overwriting the first binding of `k` rebinds `k` and nothing else.
proof fn lemma_assoc_update_first<K, V>(s: Seq<(K, V)>, k: K, v: V, idx: int)
    requires
        0 <= idx < s.len(),
        s[idx].0 == k,
        forall|m: int| 0 <= m < idx ==> (#[trigger] s[m]).0 != k,
    ensures
        spec_assoc(s.update(idx, (k, v)), k) == Some(v),
        forall|k2: K| k2 != k ==> spec_assoc(s.update(idx, (k, v)), k2) == spec_assoc(s, k2),
    decreases idx,
{
    let s2 = s.update(idx, (k, v));
    if idx == 0 {
        assert(s2[0] == (k, v));
        assert forall|k2: K| k2 != k implies spec_assoc(s2, k2) == spec_assoc(s, k2) by {
            assert(s2.drop_first() =~= s.drop_first());
        }
    } else {
        lemma_assoc_update_first(s.drop_first(), k, v, idx - 1);
        assert(s2[0] == s[0]);
        assert(s2.drop_first() =~= s.drop_first().update(idx - 1, (k, v)));
        assert(s[0].0 != k);
        assert forall|k2: K| k2 != k implies spec_assoc(s2, k2) == spec_assoc(s, k2) by {
            if s[0].0 != k2 {
                assert(spec_assoc(s2, k2) == spec_assoc(s2.drop_first(), k2));
                assert(spec_assoc(s, k2) == spec_assoc(s.drop_first(), k2));
            }
        }
    }
}

/// Appending a binding for an unbound key binds that key and nothing else.
proof fn lemma_assoc_push<K, V>(s: Seq<(K, V)>, k: K, v: V)
    requires
        spec_assoc(s, k) is None,
    ensures
        spec_assoc(s.push((k, v)), k) == Some(v),
        forall|k2: K| k2 != k ==> spec_assoc(s.push((k, v)), k2) == spec_assoc(s, k2),
    decreases s.len(),
{
    let s2 = s.push((k, v));
    if s.len() == 0 {
        assert(s2[0] == (k, v));
        assert(s2.drop_first() =~= Seq::<(K, V)>::empty());
        assert forall|k2: K| k2 != k implies spec_assoc(s2, k2) == spec_assoc(s, k2) by {
            assert(spec_assoc(s2, k2) == spec_assoc(s2.drop_first(), k2));
        }
    } else {
        assert(s[0].0 != k);
        lemma_assoc_push(s.drop_first(), k, v);
        assert(s2[0] == s[0]);
        assert(s2.drop_first() =~= s.drop_first().push((k, v)));
        assert forall|k2: K| k2 != k implies spec_assoc(s2, k2) == spec_assoc(s, k2) by {
            if s[0].0 != k2 {
                assert(spec_assoc(s2, k2) == spec_assoc(s2.drop_first(), k2));
                assert(spec_assoc(s, k2) == spec_assoc(s.drop_first(), k2));
            }
        }
    }
}

/// Identifies friends and foes: what team each player is on, and how each
/// pair of teams stands to each other.
#[derive(Debug)]
pub struct TeamsResource {
    /// A lookup from a pair of teams to their relation.
    pub team_relationship_lookup: Vec<((TeamId, TeamId), TeamRelation)>,
    /// What team a player is on.
    pub player_team_lookup: Vec<(PlayerId, TeamId)>,
}

impl TeamsResource {
    pub open spec fn spec_team_of(self, p: PlayerId) -> Option<TeamId> {
        spec_assoc(self.player_team_lookup@, p)
    }

    pub open spec fn spec_relation_of(self, t1: TeamId, t2: TeamId) -> Option<TeamRelation> {
        spec_assoc(self.team_relationship_lookup@, (t1, t2))
    }

    /// Both players are registered and their team pair has a recorded
    /// relation, in this order.
    pub open spec fn spec_relation_known(self, p1: PlayerId, p2: PlayerId) -> bool {
        &&& self.spec_team_of(p1) is Some
        &&& self.spec_team_of(p2) is Some
        &&& self.spec_relation_of(
            self.spec_team_of(p1).unwrap(),
            self.spec_team_of(p2).unwrap(),
        ) is Some
    }

    pub open spec fn spec_relation(self, p1: PlayerId, p2: PlayerId) -> TeamRelation {
        self.spec_relation_of(self.spec_team_of(p1).unwrap(), self.spec_team_of(p2).unwrap()).unwrap()
    }

    pub fn new() -> (r: TeamsResource)
        ensures
            r.player_team_lookup@ =~= Seq::<(PlayerId, TeamId)>::empty(),
            r.team_relationship_lookup@ =~= Seq::<((TeamId, TeamId), TeamRelation)>::empty(),
    {
        TeamsResource { team_relationship_lookup: Vec::new(), player_team_lookup: Vec::new() }
    }

    /// The team a player is on; `None` for an unregistered player.
    fn team_of(&self, p: PlayerId) -> (r: Option<TeamId>)
        ensures
            r == self.spec_team_of(p),
    {
        let n = self.player_team_lookup.len();
        let mut i: usize = 0;
        while i < n
            invariant
                n == self.player_team_lookup@.len(),
                0 <= i <= n,
                forall|m: int| 0 <= m < i ==> (#[trigger] self.player_team_lookup@[m]).0 != p,
            decreases n - i,
        {
            if self.player_team_lookup[i].0 == p {
                proof {
                    lemma_assoc_skip(self.player_team_lookup@, p, i as int);
                }
                return Some(self.player_team_lookup[i].1);
            }
            i = i + 1;
        }
        proof {
            lemma_assoc_skip(self.player_team_lookup@, p, n as int);
        }
        None
    }

    /// The recorded relation between two teams, in this order; the lookup is
    /// not symmetric.
    fn relation_of(&self, t1: TeamId, t2: TeamId) -> (r: Option<TeamRelation>)
        ensures
            r == self.spec_relation_of(t1, t2),
    {
        let n = self.team_relationship_lookup.len();
        let mut i: usize = 0;
        while i < n
            invariant
                n == self.team_relationship_lookup@.len(),
                0 <= i <= n,
                forall|m: int|
                    0 <= m < i ==> (#[trigger] self.team_relationship_lookup@[m]).0 != (t1, t2),
            decreases n - i,
        {
            let key = self.team_relationship_lookup[i].0;
            if key.0 == t1 && key.1 == t2 {
                proof {
                    lemma_assoc_skip(self.team_relationship_lookup@, (t1, t2), i as int);
                }
                return Some(self.team_relationship_lookup[i].1);
            }
            i = i + 1;
        }
        proof {
            lemma_assoc_skip(self.team_relationship_lookup@, (t1, t2), n as int);
        }
        None
    }

    /// Can the relation between these two players be answered at all:
    /// both are registered and their team pair has a recorded relation.
    /// Callers from outside the crate check this before asking `is_foe`
    /// or `is_own`.
    pub fn relation_known(&self, p1: PlayerId, p2: PlayerId) -> (r: bool)
        ensures
            r == self.spec_relation_known(p1, p2),
    {
        match (self.team_of(p1), self.team_of(p2)) {
            (Some(t1), Some(t2)) => self.relation_of(t1, t2).is_some(),
            _ => false,
        }
    }

    pub fn is_foe(&self, p1: PlayerId, p2: PlayerId) -> (r: bool)
        requires
            self.spec_relation_known(p1, p2),
        ensures
            r == (self.spec_relation(p1, p2) == TeamRelation::Enemy),
    {
        self.get_relation(p1, p2) == TeamRelation::Enemy
    }

    pub fn is_own(&self, p1: PlayerId, p2: PlayerId) -> (r: bool)
        requires
            self.spec_relation_known(p1, p2),
        ensures
            r == (self.spec_relation(p1, p2) == TeamRelation::Same),
    {
        self.get_relation(p1, p2) == TeamRelation::Same
    }

    fn get_relation(&self, p1: PlayerId, p2: PlayerId) -> (r: TeamRelation)
        requires
            self.spec_relation_known(p1, p2),
        ensures
            r == self.spec_relation(p1, p2),
    {
        let t1 = self.team_of(p1).unwrap();
        let t2 = self.team_of(p2).unwrap();
        self.relation_of(t1, t2).unwrap()
    }

    /// Registers a player on a team; a player already registered keeps the
    /// team it first joined.
    pub fn add_player(&mut self, p: PlayerId, t: TeamId)
        ensures
            final(self).team_relationship_lookup@ == old(self).team_relationship_lookup@,
            old(self).spec_team_of(p) is Some ==> final(self).player_team_lookup@
                == old(self).player_team_lookup@,
            old(self).spec_team_of(p) is None ==> {
                &&& final(self).spec_team_of(p) == Some(t)
                &&& final(self).player_team_lookup@ == old(self).player_team_lookup@.push((p, t))
                &&& forall|p2: PlayerId|
                    p2 != p ==> final(self).spec_team_of(p2) == old(self).spec_team_of(p2)
            },
    {
        if self.team_of(p).is_none() {
            proof {
                lemma_assoc_push(self.player_team_lookup@, p, t);
            }
            self.player_team_lookup.push((p, t));
        }
    }

    /// Records a relation for a team pair, overwriting an earlier record for
    /// the same ordered pair.
    fn insert_relation(&mut self, t1: TeamId, t2: TeamId, rel: TeamRelation)
        ensures
            final(self).player_team_lookup@ == old(self).player_team_lookup@,
            final(self).spec_relation_of(t1, t2) == Some(rel),
            forall|u1: TeamId, u2: TeamId|
                (u1, u2) != (t1, t2) ==> final(self).spec_relation_of(u1, u2) == old(
                    self,
                ).spec_relation_of(u1, u2),
            final(self).team_relationship_lookup@.len() <= old(
                self,
            ).team_relationship_lookup@.len() + 1,
    {
        let n = self.team_relationship_lookup.len();
        let mut i: usize = 0;
        while i < n
            invariant
                n == self.team_relationship_lookup@.len(),
                0 <= i <= n,
                self.player_team_lookup@ == old(self).player_team_lookup@,
                self.team_relationship_lookup@ == old(self).team_relationship_lookup@,
                forall|m: int|
                    0 <= m < i ==> (#[trigger] self.team_relationship_lookup@[m]).0 != (t1, t2),
            decreases n - i,
        {
            let key = self.team_relationship_lookup[i].0;
            if key.0 == t1 && key.1 == t2 {
                proof {
                    lemma_assoc_update_first(
                        self.team_relationship_lookup@,
                        (t1, t2),
                        rel,
                        i as int,
                    );
                }
                self.team_relationship_lookup.set(i, ((t1, t2), rel));
                return ;
            }
            i = i + 1;
        }
        proof {
            lemma_assoc_skip(self.team_relationship_lookup@, (t1, t2), n as int);
            lemma_assoc_push(self.team_relationship_lookup@, (t1, t2), rel);
        }
        self.team_relationship_lookup.push(((t1, t2), rel));
    }

    /// Marks every pair of registered players as enemies, except pairs that
    /// share a team, which are marked as the same side.  Relations are
    /// recorded for each pair of registration positions `(i, j)` with
    /// `i < j`, in the order the players registered.
    pub fn free_for_all(&mut self)
        ensures
            final(self).player_team_lookup@ == old(self).player_team_lookup@,
            forall|i: int, j: int|
                0 <= i < j < old(self).player_team_lookup@.len() ==> {
                    let ti = (#[trigger] old(self).player_team_lookup@[i]).1;
                    let tj = (#[trigger] old(self).player_team_lookup@[j]).1;
                    final(self).spec_relation_of(ti, tj) == Some(
                        if ti == tj {
                            TeamRelation::Same
                        } else {
                            TeamRelation::Enemy
                        },
                    )
                },
    {
        let ghost players = self.player_team_lookup@;
        let n = self.player_team_lookup.len();
        let mut i: usize = 0;
        while i < n
            invariant
                n == players.len(),
                self.player_team_lookup@ == players,
                0 <= i <= n,
                forall|a: int, b: int|
                    0 <= a < b < n && a < i ==> {
                        let ta = (#[trigger] players[a]).1;
                        let tb = (#[trigger] players[b]).1;
                        self.spec_relation_of(ta, tb) == Some(
                            if ta == tb {
                                TeamRelation::Same
                            } else {
                                TeamRelation::Enemy
                            },
                        )
                    },
            decreases n - i,
        {
            let mut j: usize = i + 1;
            while j < n
                invariant
                    n == players.len(),
                    self.player_team_lookup@ == players,
                    0 <= i < n,
                    i < j <= n,
                    forall|a: int, b: int|
                        0 <= a < b < n && (a < i || (a == i && b < j)) ==> {
                            let ta = (#[trigger] players[a]).1;
                            let tb = (#[trigger] players[b]).1;
                            self.spec_relation_of(ta, tb) == Some(
                                if ta == tb {
                                    TeamRelation::Same
                                } else {
                                    TeamRelation::Enemy
                                },
                            )
                        },
                decreases n - j,
            {
                let t1 = self.player_team_lookup[i].1;
                let t2 = self.player_team_lookup[j].1;
                let rel = if t1 == t2 {
                    TeamRelation::Same
                } else {
                    TeamRelation::Enemy
                };
                self.insert_relation(t1, t2, rel);
                j = j + 1;
            }
            i = i + 1;
        }
    }
}

} // verus!
