//! What the player sees: the tiles in view are marked as seen on the map,
//! and the player is told how many of them are new.

use vstd::prelude::*;
use crate::ecs::systems::{absorbed, has_point};
use crate::game::state::RainbowRogueState;
use crate::geometry::Point;
use crate::map::dungeon::Dungeon;
use crate::map::layer::MapLayer;
use crate::map::tile::Tile;
use crate::map::world::{FloorId, World};
use crate::messages::{glimpsed, glimpsed_line};

verus! {

/// How many of `tiles` are not among `previous`.
pub open spec fn newly_seen(previous: Seq<Point>, tiles: Seq<Point>) -> nat
    decreases tiles.len(),
{
    if tiles.len() == 0 {
        0
    } else if previous.contains(tiles.last()) {
        newly_seen(previous, tiles.drop_last())
    } else {
        newly_seen(previous, tiles.drop_last()) + 1
    }
}

/// The tile once it has been seen, if there is a tile.
pub open spec fn seen_tile(tile: Option<Tile>) -> Option<Tile> {
    match tile {
        Some(t) => Some(t.seen()),
        None => None,
    }
}

/// Whether `post` is `pre` with the tiles on `seen` marked as seen and
/// nothing else changed.
pub open spec fn reveals(pre: MapLayer, post: MapLayer, seen: Seq<Point>) -> bool {
    &&& post.world == pre.world
    &&& post.width == pre.width
    &&& post.height == pre.height
    &&& forall|p: Point|
        #[trigger] post.tile(p) == if seen.contains(p) {
            seen_tile(pre.tile(p))
        } else {
            pre.tile(p)
        }
}

/// Seeing only ever adds to what has been seen, and changes nothing else
/// about a tile: a tile seen before stays seen, every tile looked at is seen
/// afterwards, and what can be walked on or seen through is as it was.
pub proof fn lemma_reveals_only_add(pre: MapLayer, post: MapLayer, seen: Seq<Point>, p: Point)
    requires
        reveals(pre, post, seen),
    ensures
        pre.revealed(p) ==> post.revealed(p),
        seen.contains(p) && pre.tile(p) is Some ==> post.revealed(p),
        post.walkable(p) == pre.walkable(p),
        post.opaque(p) == pre.opaque(p),
{
    assert(post.tile(p) == if seen.contains(p) {
        seen_tile(pre.tile(p))
    } else {
        pre.tile(p)
    });
}

/// Looking at the same tiles a second time changes nothing.
pub proof fn lemma_reveals_twice(
    first: MapLayer,
    second: MapLayer,
    third: MapLayer,
    seen: Seq<Point>,
    p: Point,
)
    requires
        reveals(first, second, seen),
        reveals(second, third, seen),
    ensures
        third.tile(p) == second.tile(p),
{
    assert(second.tile(p) == if seen.contains(p) {
        seen_tile(first.tile(p))
    } else {
        first.tile(p)
    });
    assert(third.tile(p) == if seen.contains(p) {
        seen_tile(second.tile(p))
    } else {
        second.tile(p)
    });
}

/// Whether `post` is `pre` with the tiles on `seen` of one plane of one
/// floor marked as seen and nothing else changed.
pub open spec fn dungeon_reveals(
    pre: Dungeon,
    post: Dungeon,
    floor: FloorId,
    world: World,
    seen: Seq<Point>,
) -> bool {
    &&& post.floors.len() == pre.floors.len()
    &&& forall|i: int|
        0 <= i < pre.floors.len() && i != floor.0 ==> #[trigger] post.floors[i] == pre.floors[i]
    &&& floor.0 < pre.floors.len() ==> {
        &&& post.floors[floor.0 as int].id == pre.floors[floor.0 as int].id
        &&& post.floors[floor.0 as int].substrate == pre.floors[floor.0 as int].substrate
        &&& forall|w: World|
            w != world ==> #[trigger] post.floors[floor.0 as int].plane(w)
                == pre.floors[floor.0 as int].plane(w)
        &&& reveals(
            pre.floors[floor.0 as int].plane(world),
            post.floors[floor.0 as int].plane(world),
            seen,
        )
    }
}

impl RainbowRogueState {
    /// What the player's viewshed holds as visible.
    pub open spec fn in_view(self) -> Seq<Point> {
        match self.ecs.hero().viewshed {
            Some(vs) => vs.visible@,
            None => Seq::empty(),
        }
    }

    /// Whether `post` is `pre` after the player's view has been taken
    /// over: the tiles in view are marked as seen on the active plane, each
    /// visible point is kept once, and a line tells how many of them were
    /// not visible before, if any.
    pub open spec fn sighted(pre: Self, post: Self) -> bool {
        &&& pre.in_view().len() == 0 ==> post.dungeon == pre.dungeon
        &&& post.visible_tiles@ == absorbed(Seq::empty(), pre.in_view())
        &&& dungeon_reveals(
            pre.dungeon,
            post.dungeon,
            pre.active_floor,
            pre.active_world,
            pre.in_view(),
        )
        &&& Self::wrote(
            RainbowRogueState {
                dungeon: post.dungeon,
                visible_tiles: post.visible_tiles,
                ..pre
            },
            post,
            if newly_seen(pre.visible_tiles@, post.visible_tiles@) > 0 {
                seq![
                    glimpsed_line(
                        newly_seen(pre.visible_tiles@, post.visible_tiles@) as int,
                        pre.active_world.name(),
                    ),
                ]
            } else {
                Seq::empty()
            },
        )
    }

    /// Takes over what the player sees from the simulation.
    pub fn update_visibility(&mut self)
        requires
            old(self).wf(),
        ensures
            final(self).wf(),
            Self::sighted(*old(self), *final(self)),
    {
        let visible = self.ecs.player_visible_tiles();
        let mut previous: Vec<Point> = Vec::new();
        std::mem::swap(&mut previous, &mut self.visible_tiles);
        let floor = self.active_floor.0 as usize;
        let world = self.active_world;
        let ghost before = old(self).dungeon.floors[floor as int].plane(world);
        let mut fresh: u64 = 0;
        let mut i: usize = 0;
        assert(visible@.take(0) =~= Seq::<Point>::empty());
        while i < visible.len()
            invariant
                i <= visible.len(),
                visible@ == old(self).in_view(),
                previous@ == old(self).visible_tiles@,
                floor == old(self).active_floor.0,
                world == old(self).active_world,
                before == old(self).dungeon.floors[floor as int].plane(world),
                old(self).wf(),
                self.wf(),
                *self == (RainbowRogueState {
                    dungeon: self.dungeon,
                    visible_tiles: self.visible_tiles,
                    ..*old(self)
                }),
                self.visible_tiles@ == absorbed(Seq::empty(), visible@.take(i as int)),
                self.visible_tiles.len() <= i,
                i == 0 ==> self.dungeon == old(self).dungeon,
                fresh == newly_seen(previous@, self.visible_tiles@),
                fresh <= self.visible_tiles.len(),
                dungeon_reveals(
                    old(self).dungeon,
                    self.dungeon,
                    old(self).active_floor,
                    world,
                    visible@.take(i as int),
                ),
            decreases visible.len() - i,
        {
            let point = visible[i];
            let ghost done = visible@.take(i as int);
            let ghost next = visible@.take(i + 1);
            let ghost mid = self.dungeon.floors[floor as int];
            self.dungeon.floors[floor].reveal_point(world, point);
            proof {
                assert(next =~= done.push(point));
                assert(next.drop_last() =~= done);
                assert forall|p: Point| next.contains(p) <==> (done.contains(p) || p == point) by {
                    if done.contains(p) {
                        let k = choose|k: int| 0 <= k < done.len() && done[k] == p;
                        assert(next[k] == p);
                    }
                    if p == point {
                        assert(next[i as int] == p);
                    }
                }
                let after = self.dungeon.floors[floor as int];
                assert forall|p: Point| #[trigger] after.plane(world).tile(p) == if next.contains(p) {
                    seen_tile(before.tile(p))
                } else {
                    before.tile(p)
                } by {
                    assert(mid.plane(world).tile(p) == if done.contains(p) {
                        seen_tile(before.tile(p))
                    } else {
                        before.tile(p)
                    });
                }
                assert(mid.plane(world).world == before.world);
                assert(after.plane(world).world == mid.plane(world).world) by {
                    assert(crate::map::dungeon::paints(
                        after.layers[world.index()],
                        after.substrate@,
                        World::at(world.index()),
                    ));
                    assert(crate::map::dungeon::paints(
                        mid.layers[world.index()],
                        mid.substrate@,
                        World::at(world.index()),
                    ));
                }
            }
            if !has_point(&self.visible_tiles, point) {
                let ghost kept = self.visible_tiles@;
                self.visible_tiles.push(point);
                proof {
                    assert(self.visible_tiles@.drop_last() =~= kept);
                }
                if !has_point(&previous, point) {
                    fresh += 1;
                }
            }
            i += 1;
        }
        assert(visible@.take(visible.len() as int) =~= visible@);
        proof {
            assert(self.history() =~= self.history() + Seq::<Seq<char>>::empty());
        }
        if fresh > 0 {
            self.push_log_entry(glimpsed(fresh, world.as_str()));
        }
    }
}

} // verus!
