use vstd::prelude::*;

use crate::collision::{collide, collides, CollisionMatrices};
use crate::position::Position;

verus! {

/// An entry of the spatial index: where an enemy stood when the index was
/// last refreshed, and which enemy it is (its number in the caller's list).
#[derive(Clone, Copy, Debug, PartialEq, Eq, Structural)]
pub struct IndexEntry {
    pub position: Position,
    pub entity: usize,
}

/// The live enemies' positions, in the order in which they were added, for
/// nearest-neighbour queries.
#[derive(Clone, Debug, PartialEq, Eq)]
pub struct SpatialIndex {
    entries: Vec<IndexEntry>,
}

impl View for SpatialIndex {
    type V = Seq<IndexEntry>;

    closed spec fn view(&self) -> Seq<IndexEntry> {
        self.entries@
    }
}

/// Square of the Euclidean distance between `a` and `b`.
pub open spec fn dist2(a: Position, b: Position) -> int {
    (a.x - b.x) * (a.x - b.x) + (a.y - b.y) * (a.y - b.y)
}

/// Entry `i` is the one that a query at `point` returns: no entry is closer
/// to `point`, and every entry added before it is farther.
pub open spec fn is_nearest(entries: Seq<IndexEntry>, point: Position, i: int) -> bool {
    &&& 0 <= i < entries.len()
    &&& forall|j: int|
        0 <= j < entries.len() ==> dist2(entries[i].position, point) <= #[trigger] dist2(entries[j].position, point)
    &&& forall|j: int| 0 <= j < i ==> dist2(entries[i].position, point) < #[trigger] dist2(entries[j].position, point)
}

/// At most one entry is the nearest: among entries at the same least
/// distance, the one added first wins.
pub proof fn lemma_nearest_unique(entries: Seq<IndexEntry>, point: Position, i: int, j: int)
    requires
        is_nearest(entries, point, i),
        is_nearest(entries, point, j),
    ensures
        i == j,
{
    if i < j {
        assert(dist2(entries[j].position, point) < dist2(entries[i].position, point));
        assert(dist2(entries[j].position, point) <= dist2(entries[i].position, point));
    } else if j < i {
        assert(dist2(entries[i].position, point) < dist2(entries[j].position, point));
        assert(dist2(entries[i].position, point) <= dist2(entries[j].position, point));
    }
}

/// The nearest entry to `point` (see `is_nearest`); meaningful when the
/// entries are not empty, where exactly one entry is the nearest.
pub open spec fn nearest_index(entries: Seq<IndexEntry>, point: Position) -> int {
    choose|i: int| is_nearest(entries, point, i)
}

/// What a query at `point` returns: nothing for an empty index, and otherwise
/// the position and entity of the nearest entry.
pub open spec fn nearest_of(entries: Seq<IndexEntry>, point: Position) -> Option<(Position, usize)> {
    if entries.len() == 0 {
        None
    } else {
        let e = entries[nearest_index(entries, point)];
        Some((e.position, e.entity))
    }
}

/// A non-empty index has a nearest entry to every point.
pub proof fn lemma_nearest_exists(entries: Seq<IndexEntry>, point: Position)
    requires
        entries.len() > 0,
    ensures
        is_nearest(entries, point, nearest_index(entries, point)),
    decreases entries.len(),
{
    if entries.len() == 1 {
        assert(is_nearest(entries, point, 0));
    } else {
        let init = entries.drop_last();
        lemma_nearest_exists(init, point);
        let k = nearest_index(init, point);
        let last = entries.len() - 1;
        if dist2(entries[last].position, point) < dist2(entries[k].position, point) {
            assert(is_nearest(entries, point, last)) by {
                assert forall|j: int| 0 <= j < last implies dist2(entries[last].position, point) < #[trigger] dist2(
                    entries[j].position,
                    point,
                ) by {
                    assert(init[j] == entries[j]);
                }
            }
        } else {
            assert(is_nearest(entries, point, k)) by {
                assert forall|j: int| 0 <= j < entries.len() implies dist2(entries[k].position, point) <= #[trigger] dist2(
                    entries[j].position,
                    point,
                ) by {
                    if j < last {
                        assert(init[j] == entries[j]);
                    }
                }
                assert forall|j: int| 0 <= j < k implies dist2(entries[k].position, point) < #[trigger] dist2(
                    entries[j].position,
                    point,
                ) by {
                    assert(init[j] == entries[j]);
                }
            }
        }
    }
}

fn distance_squared(a: Position, b: Position) -> (d: i128)
    ensures
        d == dist2(a, b),
{
    let dx = a.x as i64 - b.x as i64;
    let dy = a.y as i64 - b.y as i64;
    proof {
        assert(dx * dx <= 0x1_0000_0000_0000_0000) by (nonlinear_arith)
            requires
                -0x1_0000_0000 <= dx <= 0x1_0000_0000,
        ;
        assert(dy * dy <= 0x1_0000_0000_0000_0000) by (nonlinear_arith)
            requires
                -0x1_0000_0000 <= dy <= 0x1_0000_0000,
        ;
        assert(0 <= dx * dx) by (nonlinear_arith);
        assert(0 <= dy * dy) by (nonlinear_arith);
    }
    (dx as i128) * (dx as i128) + (dy as i128) * (dy as i128)
}

impl SpatialIndex {
    /// An index with no entries.
    pub fn new() -> (s: SpatialIndex)
        ensures
            s@.len() == 0,
    {
        SpatialIndex { entries: Vec::new() }
    }

    /// An index holding `entries`, in that order.
    pub fn from_entries(entries: Vec<IndexEntry>) -> (s: SpatialIndex)
        ensures
            s@ == entries@,
    {
        SpatialIndex { entries }
    }

    /// Replaces every entry by `entries`: the index then reflects the
    /// positions that the caller holds now.
    pub fn refresh(&mut self, entries: Vec<IndexEntry>)
        ensures
            final(self)@ == entries@,
    {
        self.entries = entries;
    }

    /// Adds `entity` at `position` after every entry already there.
    pub fn insert(&mut self, position: Position, entity: usize)
        ensures
            final(self)@ == old(self)@.push(IndexEntry { position, entity }),
    {
        self.entries.push(IndexEntry { position, entity });
    }

    /// Number of entries.
    pub fn len(&self) -> (n: usize)
        ensures
            n == self@.len(),
    {
        self.entries.len()
    }

    /// The entry closest to `point` by Euclidean distance, as its position
    /// and entity; of entries equally close, the one added first. Nothing when
    /// the index is empty, which means that nothing can be hit.
    pub fn nearest_neighbour(&self, point: Position) -> (r: Option<(Position, usize)>)
        ensures
            r == nearest_of(self@, point),
    {
        if self.entries.len() == 0 {
            return None;
        }
        let mut best: usize = 0;
        let mut best_d = distance_squared(self.entries[0].position, point);
        let mut i: usize = 1;
        while i < self.entries.len()
            invariant
                1 <= i <= self@.len(),
                best < i,
                best_d == dist2(self@[best as int].position, point),
                forall|j: int| 0 <= j < i ==> best_d <= #[trigger] dist2(self@[j].position, point),
                forall|j: int| 0 <= j < best ==> best_d < #[trigger] dist2(self@[j].position, point),
            decreases self@.len() - i,
        {
            let d = distance_squared(self.entries[i].position, point);
            if d < best_d {
                best = i;
                best_d = d;
            }
            i = i + 1;
        }
        assert(is_nearest(self@, point, best as int));
        proof {
            lemma_nearest_unique(self@, point, best as int, nearest_index(self@, point));
        }
        let e = self.entries[best];
        Some((e.position, e.entity))
    }
}

/// What the laser at `laser_pos` hits this tick: the index's nearest entry to
/// the laser, when its entity has a sprite in `sprites` and collides with the
/// laser at the position the index holds; nothing otherwise.
pub open spec fn laser_target(
    matrices: Seq<Seq<Seq<bool>>>,
    entries: Seq<IndexEntry>,
    sprites: Seq<usize>,
    laser_sprite: usize,
    laser_pos: Position,
) -> Option<usize> {
    match nearest_of(entries, laser_pos) {
        None => None,
        Some((alien_pos, e)) => if e < sprites.len() && collides(
            matrices[laser_sprite as int],
            matrices[sprites[e as int] as int],
            laser_pos,
            alien_pos,
        ) {
            Some(e)
        } else {
            None
        },
    }
}

/// Tests a laser against the one enemy nearest to it: looks the laser's
/// position up in `index`, finds the enemy's current sprite in `sprites`
/// (indexed by entity), and runs `collide` on the two sprites. Returns the
/// entity that was hit.
pub fn laser_collision(
    matrices: &CollisionMatrices,
    index: &SpatialIndex,
    sprites: &Vec<usize>,
    laser_sprite: usize,
    laser_pos: Position,
) -> (hit: Option<usize>)
    requires
        laser_sprite < matrices@.len(),
        forall|e: int| 0 <= e < sprites@.len() ==> #[trigger] sprites@[e] < matrices@.len(),
    ensures
        hit == laser_target(matrices@, index@, sprites@, laser_sprite, laser_pos),
{
    match index.nearest_neighbour(laser_pos) {
        None => None,
        Some((alien_pos, entity)) => {
            if entity >= sprites.len() {
                return None;
            }
            let sprite = sprites[entity];
            if collide(matrices, laser_sprite, sprite, laser_pos, alien_pos) {
                Some(entity)
            } else {
                None
            }
        },
    }
}

/// Tests every laser of the tick against its nearest enemy: entry `i` of
/// the result is what laser `i` hits, as `laser_collision` tells.
pub fn laser_collisions(
    matrices: &CollisionMatrices,
    index: &SpatialIndex,
    sprites: &Vec<usize>,
    laser_sprite: usize,
    lasers: &Vec<Position>,
) -> (hits: Vec<Option<usize>>)
    requires
        laser_sprite < matrices@.len(),
        forall|e: int| 0 <= e < sprites@.len() ==> #[trigger] sprites@[e] < matrices@.len(),
    ensures
        hits@.len() == lasers@.len(),
        forall|i: int|
            0 <= i < lasers@.len() ==> #[trigger] hits@[i] == laser_target(
                matrices@,
                index@,
                sprites@,
                laser_sprite,
                lasers@[i],
            ),
{
    let mut hits: Vec<Option<usize>> = Vec::new();
    let mut i: usize = 0;
    while i < lasers.len()
        invariant
            laser_sprite < matrices@.len(),
            forall|e: int| 0 <= e < sprites@.len() ==> #[trigger] sprites@[e] < matrices@.len(),
            i <= lasers@.len(),
            hits@.len() == i,
            forall|j: int|
                0 <= j < i ==> #[trigger] hits@[j] == laser_target(matrices@, index@, sprites@, laser_sprite, lasers@[j]),
        decreases lasers@.len() - i,
    {
        let hit = laser_collision(matrices, index, sprites, laser_sprite, lasers[i]);
        hits.push(hit);
        i = i + 1;
    }
    hits
}

/// When the spatial index is rebuilt: once `period()` milliseconds of game
/// time have gathered since the last rebuild, at the next tick. Between two
/// rebuilds less than one period plus one tick goes by, which bounds how old
/// the index's positions can be.
#[derive(Clone, Copy, Debug, PartialEq, Eq, Structural)]
pub struct RefreshSchedule {
    period_ms: u32,
    elapsed_ms: u32,
}

impl RefreshSchedule {
    pub closed spec fn spec_period(&self) -> u32 {
        self.period_ms
    }

    pub closed spec fn spec_elapsed(&self) -> u32 {
        self.elapsed_ms
    }

    /// Less than one period has gathered since the last rebuild.
    pub open spec fn wf(&self) -> bool {
        self.spec_elapsed() < self.spec_period()
    }

    /// A schedule that rebuilds every `period_ms` milliseconds, starting now.
    pub fn new(period_ms: u32) -> (s: RefreshSchedule)
        requires
            period_ms > 0,
        ensures
            s.wf(),
            s.period() == period_ms,
            s.elapsed() == 0,
    {
        RefreshSchedule { period_ms, elapsed_ms: 0 }
    }

    /// Milliseconds between rebuilds.
    #[verifier::when_used_as_spec(spec_period)]
    pub fn period(&self) -> (p: u32)
        ensures
            p == self.spec_period(),
    {
        self.period_ms
    }

    /// Milliseconds gathered since the last rebuild.
    #[verifier::when_used_as_spec(spec_elapsed)]
    pub fn elapsed(&self) -> (e: u32)
        ensures
            e == self.spec_elapsed(),
    {
        self.elapsed_ms
    }

    /// Lets `dt_ms` milliseconds pass; tells whether the index is to be
    /// rebuilt in this tick, which starts the count again.
    pub fn tick(&mut self, dt_ms: u32) -> (due: bool)
        requires
            old(self).wf(),
        ensures
            final(self).wf(),
            final(self).period() == old(self).period(),
            due == (old(self).elapsed() + dt_ms >= old(self).period()),
            final(self).elapsed() == if due { 0 } else { (old(self).elapsed() + dt_ms) as u32 },
    {
        if dt_ms >= self.period_ms - self.elapsed_ms {
            self.elapsed_ms = 0;
            true
        } else {
            self.elapsed_ms = self.elapsed_ms + dt_ms;
            false
        }
    }
}

} // verus!
