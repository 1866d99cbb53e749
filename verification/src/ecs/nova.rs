//! The nova: a blast around the player that burns every monster within
//! its radius on the active plane.

use vstd::prelude::*;
use crate::ecs::resources::texts;
use crate::ecs::store::{descends, holds, lemma_positions_kept_housed, stays_housed, EntityRecord};
use crate::ecs::world::EcsWorld;
use crate::geometry::{is_within_distance, within_distance, Point};
use crate::map::world::{FloorId, World};
use crate::messages::{disintegrate, disintegrate_line, harmless, harmless_line, sear, sear_line};

verus! {

/// A nova: where it goes off, how hard it burns and how far it reaches.
pub ghost struct Blast {
    pub origin: Point,
    pub floor: FloorId,
    pub world: World,
    pub damage: int,
    pub radius: int,
}

impl Blast {
    /// Whether the blast burns the entity: a named monster with combat
    /// stats on the plane of the blast, within its radius. The player is
    /// never burnt.
    pub open spec fn scorches(self, rec: EntityRecord) -> bool {
        &&& rec.player is None
        &&& rec.monster is Some
        &&& rec.stats is Some
        &&& rec.stands_on(self.floor, self.world)
        &&& within_distance(self.origin, rec.position->0.point, self.radius)
    }

    /// The burnt entity.
    pub open spec fn seared(self, rec: EntityRecord) -> EntityRecord {
        EntityRecord { stats: Some(rec.stats->0.hurt(self.damage)), ..rec }
    }

    /// Whether the blast leaves the entity without hit points.
    pub open spec fn kills(self, rec: EntityRecord) -> bool {
        self.scorches(rec) && self.seared(rec).stats->0.hp == 0
    }

    /// The entity as the blast leaves it, before the dead are removed.
    pub open spec fn singed(self, rec: EntityRecord) -> EntityRecord {
        if self.scorches(rec) {
            self.seared(rec)
        } else {
            rec
        }
    }

    /// The lines about the burns among the first `n` entities.
    pub open spec fn sear_lines(self, entities: Seq<EntityRecord>, n: nat) -> Seq<Seq<char>>
        decreases n,
    {
        if n == 0 {
            Seq::empty()
        } else {
            let before = self.sear_lines(entities, (n - 1) as nat);
            if self.scorches(entities[n - 1]) {
                before.push(sear_line(entities[n - 1].log_name(), self.damage))
            } else {
                before
            }
        }
    }

    /// The lines about the deaths among the first `n` entities.
    pub open spec fn death_lines(self, entities: Seq<EntityRecord>, n: nat) -> Seq<Seq<char>>
        decreases n,
    {
        if n == 0 {
            Seq::empty()
        } else {
            let before = self.death_lines(entities, (n - 1) as nat);
            if self.kills(entities[n - 1]) {
                before.push(disintegrate_line(entities[n - 1].log_name()))
            } else {
                before
            }
        }
    }

    /// Those of the first `n` entities that outlive the blast, as it leaves them.
    pub open spec fn survivors(self, entities: Seq<EntityRecord>, n: nat) -> Seq<EntityRecord>
        decreases n,
    {
        if n == 0 {
            Seq::empty()
        } else {
            let before = self.survivors(entities, (n - 1) as nat);
            if self.kills(entities[n - 1]) {
                before
            } else {
                before.push(self.singed(entities[n - 1]))
            }
        }
    }

    /// Whether the blast burns anyone.
    pub open spec fn burns_any(self, entities: Seq<EntityRecord>) -> bool {
        exists|i: int| 0 <= i < entities.len() && self.scorches(#[trigger] entities[i])
    }

    /// Everything the blast writes: the burns in the order of the store,
    /// then the deaths in the same order, or a single line when nobody was
    /// in reach.
    pub open spec fn lines(self, entities: Seq<EntityRecord>) -> Seq<Seq<char>> {
        if self.sear_lines(entities, entities.len()).len() == 0 {
            seq![harmless_line()]
        } else {
            self.sear_lines(entities, entities.len()) + self.death_lines(entities, entities.len())
        }
    }

    /// A blast that burns nobody writes nothing about burns, and leaves
    /// every entity as it was.
    pub proof fn lemma_out_of_reach(self, entities: Seq<EntityRecord>, n: nat)
        requires
            n <= entities.len(),
            !self.burns_any(entities),
        ensures
            self.sear_lines(entities, n).len() == 0,
            self.death_lines(entities, n).len() == 0,
            self.survivors(entities, n) == entities.take(n as int),
        decreases n,
    {
        if n > 0 {
            self.lemma_out_of_reach(entities, (n - 1) as nat);
            assert(!self.scorches(entities[n - 1]));
            assert(entities.take(n as int) =~= entities.take(n - 1).push(entities[n - 1]));
        } else {
            assert(entities.take(0) =~= Seq::<EntityRecord>::empty());
        }
    }

    /// Nobody dies of the blast without having been burnt by it.
    pub proof fn lemma_deaths_follow_burns(self, entities: Seq<EntityRecord>, n: nat)
        ensures
            self.death_lines(entities, n).len() <= self.sear_lines(entities, n).len(),
        decreases n,
    {
        if n > 0 {
            self.lemma_deaths_follow_burns(entities, (n - 1) as nat);
        }
    }

    /// A blast that burns somebody writes about it.
    pub proof fn lemma_in_reach(self, entities: Seq<EntityRecord>, n: nat, i: int)
        requires
            0 <= i < n <= entities.len(),
            self.scorches(entities[i]),
        ensures
            self.sear_lines(entities, n).len() > 0,
        decreases n,
    {
        if i < n - 1 {
            self.lemma_in_reach(entities, (n - 1) as nat, i);
        }
    }
}

impl EcsWorld {
    /// The nova that the player sets off on the given plane.
    pub open spec fn blast(self, damage: i32, radius: i32, floor: FloorId, world: World) -> Blast {
        Blast {
            origin: self.hero_position().point,
            floor,
            world,
            damage: damage as int,
            radius: radius as int,
        }
    }

    /// Sets off a nova around the player: every monster within `radius` on
    /// the given plane takes `damage`, and those left without hit points
    /// are removed once all have been burnt. Returns what there is to tell.
    pub fn spectral_nova(&mut self, damage: i32, radius: i32, floor: FloorId, world: World) -> (log:
        Vec<String>)
        requires
            old(self).wf(),
        ensures
            final(self).wf(),
            *final(self) == (EcsWorld { entities: final(self).entities, ..*old(self) }),
            final(self).entities@ == old(self).blast(damage, radius, floor, world).survivors(
                old(self).entities@,
                old(self).entities.len() as nat,
            ),
            texts(log@) == old(self).blast(damage, radius, floor, world).lines(old(self).entities@),
            final(self).entities[0] == old(self).entities[0],
            descends(old(self).entities@, old(self).next_entity, final(self).entities@),
            stays_housed(old(self).entities@, None, final(self).entities@),
            forall|k: int|
                0 <= k < old(self).entities.len() && old(self).blast(
                    damage,
                    radius,
                    floor,
                    world,
                ).kills(#[trigger] old(self).entities[k]) ==> !holds(
                    final(self).entities@,
                    old(self).entities[k].entity,
                ),
    {
        let ghost blast = self.blast(damage, radius, floor, world);
        let ghost pre = self.entities@;
        let origin = self.player_point();
        let mut log: Vec<String> = Vec::new();
        let mut obituaries: Vec<String> = Vec::new();
        let mut doomed: Vec<bool> = Vec::new();
        let mut i: usize = 0;
        assert(texts(log@) =~= blast.sear_lines(pre, 0));
        assert(texts(obituaries@) =~= blast.death_lines(pre, 0));
        while i < self.entities.len()
            invariant
                i <= self.entities.len(),
                self.entities.len() == pre.len(),
                pre == old(self).entities@,
                old(self).wf(),
                blast == old(self).blast(damage, radius, floor, world),
                origin == blast.origin,
                *self == (EcsWorld { entities: self.entities, ..*old(self) }),
                forall|k: int| 0 <= k < i ==> #[trigger] self.entities[k] == blast.singed(pre[k]),
                forall|k: int| i <= k < pre.len() ==> #[trigger] self.entities[k] == pre[k],
                texts(log@) == blast.sear_lines(pre, i as nat),
                texts(obituaries@) == blast.death_lines(pre, i as nat),
                doomed.len() == i,
                forall|k: int| 0 <= k < i ==> #[trigger] doomed[k] == blast.kills(pre[k]),
            decreases self.entities.len() - i,
        {
            let mut dies = false;
            if Self::in_blast(&self.entities[i], origin, radius, floor, world) {
                let name = self.entities[i].name_for_log();
                match &mut self.entities[i].stats {
                    Some(stat) => {
                        stat.take_damage(damage as i64);
                        dies = stat.hp == 0;
                    },
                    None => {},
                }
                let ghost before = texts(log@);
                log.push(sear(name.as_str(), damage as i64));
                assert(texts(log@) =~= before.push(sear_line(pre[i as int].log_name(), blast.damage)));
                if dies {
                    let ghost before = texts(obituaries@);
                    obituaries.push(disintegrate(name.as_str()));
                    assert(texts(obituaries@) =~= before.push(
                        disintegrate_line(pre[i as int].log_name()),
                    ));
                }
            }
            doomed.push(dies);
            i += 1;
        }
        let ghost singed = self.entities@;
        proof {
            assert forall|x: int| 0 <= x < singed.len() implies exists|j: int|
                0 <= j < pre.len() && (#[trigger] pre[j]).position == (
                #[trigger] singed[x]).position by {
                assert(singed[x] == blast.singed(pre[x]));
                assert(pre[x].position == singed[x].position);
            }
        }
        let total = doomed.len();
        let mut k: usize = 0;
        let mut at: usize = 0;
        assert(self.entities@ =~= blast.survivors(pre, 0) + singed.skip(0));
        while k < total
            invariant
                k <= total,
                total == pre.len(),
                doomed.len() == total,
                singed.len() == total,
                pre == old(self).entities@,
                old(self).wf(),
                *self == (EcsWorld { entities: self.entities, ..*old(self) }),
                forall|j: int| 0 <= j < total ==> #[trigger] singed[j] == blast.singed(pre[j]),
                forall|j: int| 0 <= j < total ==> #[trigger] doomed[j] == blast.kills(pre[j]),
                at == blast.survivors(pre, k as nat).len(),
                at + (total - k) == self.entities.len(),
                self.entities@ == blast.survivors(pre, k as nat) + singed.skip(k as int),
                k >= 1 ==> at >= 1 && self.entities[0] == pre[0],
                forall|x: int| 0 <= x < at ==> (#[trigger] self.entities[x]).entity.id
                    < self.next_entity,
                forall|x: int| 1 <= x < at ==> (#[trigger] self.entities[x]).player is None,
                forall|x: int| 0 <= x < at ==> holds(pre, (#[trigger] self.entities[x]).entity),
                forall|x: int|
                    0 <= x < self.entities.len() ==> exists|j: int|
                        0 <= j < pre.len() && (#[trigger] pre[j]).position == (
                        #[trigger] self.entities[x]).position,
                forall|x: int|
                    0 <= x < at ==> match (#[trigger] self.entities[x]).stats {
                        Some(s) => s.wf(),
                        None => true,
                    },
                forall|x: int, j: int|
                    0 <= x < at && k <= j < total ==> (#[trigger] self.entities[x]).entity != (
                    #[trigger] pre[j]).entity,
                forall|x: int, y: int|
                    0 <= x < y < at ==> (#[trigger] self.entities[x]).entity != (
                    #[trigger] self.entities[y]).entity,
                forall|x: int, j: int|
                    0 <= x < at && 0 <= j < k && doomed[j] ==> (#[trigger] self.entities[x]).entity
                        != (#[trigger] pre[j]).entity,
            decreases total - k,
        {
            let ghost before = self.entities@;
            assert(before[at as int] == singed[k as int]);
            assert(pre[k as int].entity == singed[k as int].entity);
            if doomed[k] {
                self.entities.remove(at);
                assert(self.entities@ =~= blast.survivors(pre, (k + 1) as nat) + singed.skip(
                    k + 1,
                ));
                proof {
                    assert forall|x: int| 0 <= x < self.entities.len() implies exists|j: int|
                        0 <= j < pre.len() && (#[trigger] pre[j]).position == (
                        #[trigger] self.entities[x]).position by {
                        if x < at {
                            assert(self.entities[x] == before[x]);
                        } else {
                            assert(self.entities[x] == before[x + 1]);
                        }
                        let y = if x < at {
                            x
                        } else {
                            x + 1
                        };
                        let j = choose|j: int|
                            0 <= j < pre.len() && (#[trigger] pre[j]).position == before[y].position;
                        assert(pre[j].position == self.entities[x].position);
                    }
                }
            } else {
                assert(self.entities@ =~= blast.survivors(pre, (k + 1) as nat) + singed.skip(
                    k + 1,
                ));
                at += 1;
            }
            k += 1;
        }
        assert(self.entities@ =~= blast.survivors(pre, total as nat));
        proof {
            lemma_positions_kept_housed(pre, self.entities@);
            assert forall|j: int| 0 <= j < pre.len() && blast.kills(#[trigger] pre[j]) implies !holds(
                self.entities@,
                pre[j].entity,
            ) by {
                assert(doomed[j]);
            }
        }
        let affected = log.len();
        proof {
            blast.lemma_deaths_follow_burns(pre, pre.len());
        }
        let mut j: usize = 0;
        let ghost sears = texts(log@);
        while j < obituaries.len()
            invariant
                j <= obituaries.len(),
                texts(log@) == sears + texts(obituaries@).take(j as int),
            decreases obituaries.len() - j,
        {
            let ghost before = texts(log@);
            log.push(obituaries[j].clone());
            assert(texts(log@) =~= before.push(obituaries[j as int]@));
            assert(texts(obituaries@).take(j + 1) =~= texts(obituaries@).take(j as int).push(
                obituaries[j as int]@,
            ));
            j += 1;
        }
        assert(texts(obituaries@).take(obituaries.len() as int) =~= texts(obituaries@));
        if affected == 0 {
            log.push(harmless());
            assert(texts(log@) =~= seq![harmless_line()]);
        }
        log
    }

    /// Whether a nova around `origin` burns the entity.
    fn in_blast(rec: &EntityRecord, origin: Point, radius: i32, floor: FloorId, world: World) -> (r:
        bool)
        ensures
            r == (Blast {
                origin,
                floor,
                world,
                damage: 0,
                radius: radius as int,
            }).scorches(*rec),
    {
        if rec.player.is_some() || rec.monster.is_none() || rec.stats.is_none() {
            return false;
        }
        match &rec.position {
            Some(pos) => pos.is_on(floor, world) && is_within_distance(origin, pos.point, radius),
            None => false,
        }
    }
}

} // verus!
