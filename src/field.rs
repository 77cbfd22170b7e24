//! The tile graph: a fixed grid whose tiles carry an owning entity, contents,
//! a pathability flag derived from the contents, a traversal cost, and the
//! enemies currently standing on them.
use vstd::prelude::*;
use crate::enemies::EnemyType;
use crate::towers::{TowerClass, TowerType};

verus! {

/// The largest width or height a field can have.
pub const MAX_FIELD_SIDE: i32 = 16384;

/// A tile, by column and row.
#[derive(Debug, Clone, Copy, PartialEq, Eq, Structural, Hash)]
pub struct FieldLocation(pub i32, pub i32);

/// What occupies a tile. Entities are named by their id.
#[derive(Debug, Clone, Copy, PartialEq, Eq, Structural)]
pub enum FieldLocationContents {
    Empty,
    BlockingEnemy(u64, EnemyType),
    Tower(u64, TowerType),
    Spawner,
    Goal,
}

impl FieldLocationContents {
    pub fn is_empty(&self) -> (r: bool)
        ensures
            r == (*self is Empty),
    {
        match self {
            FieldLocationContents::Empty => true,
            _ => false,
        }
    }
}

#[derive(Debug, Clone, Copy, PartialEq, Eq, Structural)]
pub enum Pathability {
    Pathable,
    Unpathable,
}

/// Pathability follows from contents: towers block, nothing else does.
pub open spec fn pathability_of(contents: FieldLocationContents) -> Pathability {
    if contents is Tower {
        Pathability::Unpathable
    } else {
        Pathability::Pathable
    }
}

/// The number of orthogonal steps between two tiles.
pub open spec fn manhattan_distance(a: FieldLocation, b: FieldLocation) -> int {
    (if a.0 >= b.0 {
        a.0 - b.0
    } else {
        b.0 - a.0
    }) + (if a.1 >= b.1 {
        a.1 - b.1
    } else {
        b.1 - a.1
    })
}

/// Squared straight-line distance between two tiles.
pub open spec fn squared_distance(a: FieldLocation, b: (i32, i32)) -> int {
    (a.0 - b.0) * (a.0 - b.0) + (a.1 - b.1) * (a.1 - b.1)
}

/// The grid. Geometry is in whole pixels.
pub struct Field {
    width: i32,
    height: i32,
    tile_size: i32,
    offset: (i32, i32),
    source: (i32, i32),
    target: (i32, i32),
    field_locations: Vec<(u64, FieldLocationContents, Pathability)>,
    tile_costs: Vec<i32>,
    enemies_in_tiles: Vec<Vec<(u64, (i32, i32))>>,
}

impl Field {
    pub closed spec fn spec_width(self) -> int {
        self.width as int
    }

    pub closed spec fn spec_height(self) -> int {
        self.height as int
    }

    pub closed spec fn spec_tile_size(self) -> int {
        self.tile_size as int
    }

    pub closed spec fn spec_offset(self) -> (i32, i32) {
        self.offset
    }

    pub closed spec fn spec_source(self) -> FieldLocation {
        FieldLocation(self.source.0, self.source.1)
    }

    pub closed spec fn spec_target(self) -> FieldLocation {
        FieldLocation(self.target.0, self.target.1)
    }

    pub open spec fn in_bounds(self, l: FieldLocation) -> bool {
        0 <= l.0 < self.spec_width() && 0 <= l.1 < self.spec_height()
    }

    /// Where the data of tile `l` is kept.
    pub open spec fn index_of(self, l: FieldLocation) -> int {
        l.1 * self.spec_width() + l.0
    }

    pub open spec fn tile_count(self) -> int {
        self.spec_width() * self.spec_height()
    }

    /// The per-tile entity, contents and pathability, by index.
    pub closed spec fn locations(self) -> Seq<(u64, FieldLocationContents, Pathability)> {
        self.field_locations@
    }

    /// The per-tile traversal costs, by index.
    pub closed spec fn costs(self) -> Seq<i32> {
        self.tile_costs@
    }

    /// The enemies on each tile with their positions, by index.
    pub closed spec fn enemies(self) -> Seq<Seq<(u64, (i32, i32))>> {
        self.enemies_in_tiles@.map_values(|v: Vec<(u64, (i32, i32))>| v@)
    }

    pub open spec fn cost_at(self, l: FieldLocation) -> int {
        self.costs()[self.index_of(l)] as int
    }

    pub open spec fn contents_at(self, l: FieldLocation) -> FieldLocationContents {
        self.locations()[self.index_of(l)].1
    }

    pub open spec fn pathable_at(self, l: FieldLocation) -> bool {
        self.locations()[self.index_of(l)].2 == Pathability::Pathable
    }

    pub open spec fn enemies_at(self, l: FieldLocation) -> Seq<(u64, (i32, i32))> {
        self.enemies()[self.index_of(l)]
    }

    /// Well-formedness: the grid fits the size bounds, every per-tile table
    /// has one entry per tile, costs are at least 1, and pathability agrees
    /// with the contents.
    pub closed spec fn wf(self) -> bool {
        &&& 1 <= self.width <= MAX_FIELD_SIDE
        &&& 1 <= self.height <= MAX_FIELD_SIDE
        &&& self.field_locations@.len() == self.tile_count()
        &&& self.tile_costs@.len() == self.tile_count()
        &&& self.enemies_in_tiles@.len() == self.tile_count()
        &&& forall|i: int| 0 <= i < self.tile_count() ==> #[trigger] self.tile_costs@[i] >= 1
        &&& forall|i: int|
            0 <= i < self.tile_count() ==> (#[trigger] self.field_locations@[i]).2
                == pathability_of(self.field_locations@[i].1)
        &&& self.tile_size >= 1
        &&& self.in_bounds(self.spec_source())
        &&& self.in_bounds(self.spec_target())
    }

    /// Facts that callers rely on from well-formedness.
    pub proof fn lemma_wf(self, l: FieldLocation)
        requires
            self.wf(),
            self.in_bounds(l),
        ensures
            0 <= self.index_of(l) < self.tile_count(),
            self.tile_count() <= MAX_FIELD_SIDE * MAX_FIELD_SIDE,
            self.locations().len() == self.tile_count(),
            self.costs().len() == self.tile_count(),
            self.enemies().len() == self.tile_count(),
            self.cost_at(l) >= 1,
            self.pathable_at(l) == (pathability_of(self.contents_at(l)) == Pathability::Pathable),
            self.in_bounds(self.spec_target()),
            self.in_bounds(self.spec_source()),
            1 <= self.spec_width() <= MAX_FIELD_SIDE,
            1 <= self.spec_height() <= MAX_FIELD_SIDE,
            self.spec_tile_size() >= 1,
    {
        lemma_tile_index(self.width as int, self.height as int, l.0 as int, l.1 as int);
        assert(self.tile_count() <= MAX_FIELD_SIDE * MAX_FIELD_SIDE) by (nonlinear_arith)
            requires
                1 <= self.width <= MAX_FIELD_SIDE,
                1 <= self.height <= MAX_FIELD_SIDE,
        ;
        assert(self.tile_costs@[self.index_of(l)] >= 1);
        assert(self.field_locations@[self.index_of(l)].2 == pathability_of(
            self.field_locations@[self.index_of(l)].1,
        ));
    }

    /// The spawner and goal tiles lie on the grid.
    pub proof fn lemma_endpoints(self)
        requires
            self.wf(),
        ensures
            self.in_bounds(self.spec_source()),
            self.in_bounds(self.spec_target()),
    {
    }

    /// Distinct tiles are kept at distinct places.
    pub proof fn lemma_index_injective(self, a: FieldLocation, b: FieldLocation)
        requires
            self.in_bounds(a),
            self.in_bounds(b),
            a != b,
        ensures
            self.index_of(a) != self.index_of(b),
    {
        if self.index_of(a) == self.index_of(b) {
            lemma_same_index(self.width as int, a.0 as int, a.1 as int, b.0 as int, b.1 as int);
        }
    }
}

/// `a` and `b` have the same size, geometry and endpoints.
pub open spec fn same_geometry(a: Field, b: Field) -> bool {
    &&& a.spec_width() == b.spec_width()
    &&& a.spec_height() == b.spec_height()
    &&& a.spec_tile_size() == b.spec_tile_size()
    &&& a.spec_offset() == b.spec_offset()
    &&& a.spec_source() == b.spec_source()
    &&& a.spec_target() == b.spec_target()
}

fn pathability(contents: &FieldLocationContents) -> (p: Pathability)
    ensures
        p == pathability_of(*contents),
{
    match contents {
        FieldLocationContents::Tower(_, _) => Pathability::Unpathable,
        _ => Pathability::Pathable,
    }
}

impl Field {
    /// The tiles next to `l`, in the order left, down, right, up, that lie
    /// inside the grid (and are pathable, when `pathable_only`), each with the
    /// cost of entering it (1 for every tile, when `flat`).
    pub open spec fn adjacent(self, l: FieldLocation, pathable_only: bool, flat: bool) -> Seq<
        (FieldLocation, int),
    > {
        self.adjacent_entry(FieldLocation((l.0 - 1) as i32, l.1), l.0 > 0, pathable_only, flat)
            + self.adjacent_entry(FieldLocation(l.0, (l.1 - 1) as i32), l.1 > 0, pathable_only, flat)
            + self.adjacent_entry(
            FieldLocation((l.0 + 1) as i32, l.1),
            l.0 < self.spec_width() - 1,
            pathable_only,
            flat,
        ) + self.adjacent_entry(
            FieldLocation(l.0, (l.1 + 1) as i32),
            l.1 < self.spec_height() - 1,
            pathable_only,
            flat,
        )
    }

    pub open spec fn adjacent_entry(
        self,
        n: FieldLocation,
        inside: bool,
        pathable_only: bool,
        flat: bool,
    ) -> Seq<(FieldLocation, int)> {
        if inside && (!pathable_only || self.pathable_at(n)) {
            seq![(n, if flat { 1 } else { self.cost_at(n) })]
        } else {
            Seq::empty()
        }
    }

    /// The enemies on `l` followed by those on each tile next to it, in the
    /// order left, down, right, up.
    pub open spec fn enemies_near(self, l: FieldLocation) -> Seq<(u64, (i32, i32))> {
        self.enemies_at(l) + self.enemies_if(FieldLocation((l.0 - 1) as i32, l.1), l.0 > 0)
            + self.enemies_if(FieldLocation(l.0, (l.1 - 1) as i32), l.1 > 0) + self.enemies_if(
            FieldLocation((l.0 + 1) as i32, l.1),
            l.0 < self.spec_width() - 1,
        ) + self.enemies_if(FieldLocation(l.0, (l.1 + 1) as i32), l.1 < self.spec_height() - 1)
    }

    pub open spec fn enemies_if(self, n: FieldLocation, inside: bool) -> Seq<(u64, (i32, i32))> {
        if inside {
            self.enemies_at(n)
        } else {
            Seq::empty()
        }
    }

    /// A field of `width` by `height` tiles whose tile `(x, y)` holds entry
    /// `y * width + x` of `field_locations`. Every tile starts at cost 1 with
    /// no enemies, and its pathability is derived from its contents (the one
    /// given is not kept).
    pub fn new(
        width: i32,
        height: i32,
        tile_size: i32,
        offset: (i32, i32),
        source: (i32, i32),
        target: (i32, i32),
        field_locations: Vec<(u64, FieldLocationContents, Pathability)>,
    ) -> (field: Field)
        requires
            1 <= width <= MAX_FIELD_SIDE,
            1 <= height <= MAX_FIELD_SIDE,
            tile_size >= 1,
            field_locations@.len() == width * height,
            0 <= source.0 < width && 0 <= source.1 < height,
            0 <= target.0 < width && 0 <= target.1 < height,
        ensures
            field.wf(),
            field.spec_width() == width,
            field.spec_height() == height,
            field.spec_tile_size() == tile_size,
            field.spec_offset() == offset,
            field.spec_source() == FieldLocation(source.0, source.1),
            field.spec_target() == FieldLocation(target.0, target.1),
            forall|i: int|
                0 <= i < width * height ==> #[trigger] field.locations()[i] == (
                    field_locations@[i].0,
                    field_locations@[i].1,
                    pathability_of(field_locations@[i].1),
                ),
            forall|i: int| 0 <= i < width * height ==> #[trigger] field.costs()[i] == 1,
            forall|i: int| 0 <= i < width * height ==> #[trigger] field.enemies()[i].len() == 0,
    {
        let n = field_locations.len();
        let mut locations: Vec<(u64, FieldLocationContents, Pathability)> = Vec::new();
        let mut tile_costs: Vec<i32> = Vec::new();
        let mut enemies_in_tiles: Vec<Vec<(u64, (i32, i32))>> = Vec::new();
        let mut i: usize = 0;
        while i < n
            invariant
                n == field_locations@.len(),
                i <= n,
                locations@.len() == i,
                tile_costs@.len() == i,
                enemies_in_tiles@.len() == i,
                forall|j: int|
                    0 <= j < i ==> #[trigger] locations@[j] == (
                        field_locations@[j].0,
                        field_locations@[j].1,
                        pathability_of(field_locations@[j].1),
                    ),
                forall|j: int| 0 <= j < i ==> #[trigger] tile_costs@[j] == 1,
                forall|j: int| 0 <= j < i ==> #[trigger] enemies_in_tiles@[j]@.len() == 0,
            decreases n - i,
        {
            let (entity, contents, _) = field_locations[i];
            locations.push((entity, contents, pathability(&contents)));
            tile_costs.push(1);
            enemies_in_tiles.push(Vec::new());
            i = i + 1;
        }
        let field = Field {
            width,
            height,
            tile_size,
            offset,
            source,
            target,
            field_locations: locations,
            tile_costs,
            enemies_in_tiles,
        };
        assert forall|i: int| 0 <= i < width * height implies #[trigger] field.enemies()[i].len()
            == 0 by {
            assert(field.enemies()[i] == field.enemies_in_tiles@[i]@);
        }
        field
    }

    pub fn width(&self) -> (r: i32)
        ensures
            r == self.spec_width(),
    {
        self.width
    }

    pub fn height(&self) -> (r: i32)
        ensures
            r == self.spec_height(),
    {
        self.height
    }

    pub fn tile_size(&self) -> (r: i32)
        ensures
            r == self.spec_tile_size(),
    {
        self.tile_size
    }

    pub fn offset(&self) -> (r: (i32, i32))
        ensures
            r == self.spec_offset(),
    {
        self.offset
    }

    pub fn source(&self) -> (r: (i32, i32))
        ensures
            FieldLocation(r.0, r.1) == self.spec_source(),
    {
        self.source
    }

    pub fn target(&self) -> (r: (i32, i32))
        ensures
            FieldLocation(r.0, r.1) == self.spec_target(),
    {
        self.target
    }

    /// Where the data of `l` is kept.
    pub fn tile_index(&self, l: &FieldLocation) -> (i: usize)
        requires
            self.wf(),
            self.in_bounds(*l),
        ensures
            i == self.index_of(*l),
            i < self.tile_count(),
    {
        proof {
            self.lemma_wf(*l);
        }
        (l.1 as usize) * (self.width as usize) + (l.0 as usize)
    }

    /// Forgets every enemy position.
    pub fn clear_enemies_in_tiles(&mut self)
        requires
            old(self).wf(),
        ensures
            final(self).wf(),
            same_geometry(*old(self), *final(self)),
            final(self).locations() == old(self).locations(),
            final(self).costs() == old(self).costs(),
            final(self).enemies().len() == old(self).enemies().len(),
            forall|i: int|
                0 <= i < final(self).tile_count() ==> #[trigger] final(self).enemies()[i].len()
                    == 0,
    {
        let n = self.field_locations.len();
        let mut enemies_in_tiles: Vec<Vec<(u64, (i32, i32))>> = Vec::new();
        let mut i: usize = 0;
        while i < n
            invariant
                i <= n,
                enemies_in_tiles@.len() == i,
                forall|j: int| 0 <= j < i ==> #[trigger] enemies_in_tiles@[j]@.len() == 0,
            decreases n - i,
        {
            enemies_in_tiles.push(Vec::new());
            i = i + 1;
        }
        self.enemies_in_tiles = enemies_in_tiles;
        assert forall|i: int| 0 <= i < self.tile_count() implies #[trigger] self.enemies()[i].len()
            == 0 by {
            assert(self.enemies()[i] == self.enemies_in_tiles@[i]@);
        }
    }

    /// Records that `enemy` stands at `position` on tile `location`.
    pub fn add_enemy_in_tile(&mut self, location: &FieldLocation, enemy: u64, position: (i32, i32))
        requires
            old(self).wf(),
            old(self).in_bounds(*location),
        ensures
            final(self).wf(),
            same_geometry(*old(self), *final(self)),
            final(self).locations() == old(self).locations(),
            final(self).costs() == old(self).costs(),
            final(self).enemies() == old(self).enemies().update(
                old(self).index_of(*location),
                old(self).enemies_at(*location).push((enemy, position)),
            ),
    {
        let idx = self.tile_index(location);
        let mut tile: Vec<(u64, (i32, i32))> = Vec::new();
        std::mem::swap(&mut tile, &mut self.enemies_in_tiles[idx]);
        tile.push((enemy, position));
        self.enemies_in_tiles.set(idx, tile);
        assert(self.enemies() =~= old(self).enemies().update(
            old(self).index_of(*location),
            old(self).enemies_at(*location).push((enemy, position)),
        ));
    }

    /// The enemies on `location`, with their positions.
    pub fn get_enemies_in_tile(&self, location: &FieldLocation) -> (r: &Vec<(u64, (i32, i32))>)
        requires
            self.wf(),
            self.in_bounds(*location),
        ensures
            r@ == self.enemies_at(*location),
    {
        let idx = self.tile_index(location);
        &self.enemies_in_tiles[idx]
    }

    /// The enemies on `location` and on the tiles next to it.
    pub fn get_enemies_in_or_near_tile(&self, location: &FieldLocation) -> (r: Vec<
        (u64, (i32, i32)),
    >)
        requires
            self.wf(),
            self.in_bounds(*location),
        ensures
            r@ == self.enemies_near(*location),
    {
        let mut in_or_near: Vec<(u64, (i32, i32))> = Vec::new();
        append_all(&mut in_or_near, self.get_enemies_in_tile(location));
        if location.0 > 0 {
            append_all(&mut in_or_near, self.get_enemies_in_tile(&FieldLocation(location.0 - 1, location.1)));
        }
        assert(in_or_near@ =~= self.enemies_at(*location) + self.enemies_if(
            FieldLocation((location.0 - 1) as i32, location.1),
            location.0 > 0,
        ));
        if location.1 > 0 {
            append_all(&mut in_or_near, self.get_enemies_in_tile(&FieldLocation(location.0, location.1 - 1)));
        }
        if location.0 < self.width - 1 {
            append_all(&mut in_or_near, self.get_enemies_in_tile(&FieldLocation(location.0 + 1, location.1)));
        }
        if location.1 < self.height - 1 {
            append_all(&mut in_or_near, self.get_enemies_in_tile(&FieldLocation(location.0, location.1 + 1)));
        }
        assert(in_or_near@ =~= self.enemies_near(*location));
        in_or_near
    }

    pub fn get_entity_contents_pathability(&self, location: &FieldLocation) -> (r: &(
        u64,
        FieldLocationContents,
        Pathability,
    ))
        requires
            self.wf(),
            self.in_bounds(*location),
        ensures
            *r == self.locations()[self.index_of(*location)],
    {
        let idx = self.tile_index(location);
        &self.field_locations[idx]
    }

    pub fn get_tile_cost(&self, location: &FieldLocation) -> (r: i32)
        requires
            self.wf(),
            self.in_bounds(*location),
        ensures
            r == self.cost_at(*location),
    {
        let idx = self.tile_index(location);
        self.tile_costs[idx]
    }

    /// Raises the cost of entering `location` by `amount`.
    pub fn increment_tile_cost(&mut self, location: &FieldLocation, amount: i32)
        requires
            old(self).wf(),
            old(self).in_bounds(*location),
            amount >= 0,
            old(self).cost_at(*location) + amount <= i32::MAX,
        ensures
            final(self).wf(),
            same_geometry(*old(self), *final(self)),
            final(self).locations() == old(self).locations(),
            final(self).enemies() == old(self).enemies(),
            final(self).costs() == old(self).costs().update(
                old(self).index_of(*location),
                (old(self).cost_at(*location) + amount) as i32,
            ),
    {
        let idx = self.tile_index(location);
        let cost = self.tile_costs[idx] + amount;
        self.tile_costs.set(idx, cost);
    }

    /// Lowers the cost of entering `location` by `amount`, but never below 1.
    pub fn decrement_tile_cost(&mut self, location: &FieldLocation, amount: i32)
        requires
            old(self).wf(),
            old(self).in_bounds(*location),
            old(self).cost_at(*location) - amount <= i32::MAX,
        ensures
            final(self).wf(),
            same_geometry(*old(self), *final(self)),
            final(self).locations() == old(self).locations(),
            final(self).enemies() == old(self).enemies(),
            final(self).costs() == old(self).costs().update(
                old(self).index_of(*location),
                if old(self).cost_at(*location) - amount < 1 {
                    1i32
                } else {
                    (old(self).cost_at(*location) - amount) as i32
                },
            ),
            final(self).cost_at(*location) >= 1,
    {
        let idx = self.tile_index(location);
        proof {
            self.lemma_wf(*location);
        }
        let lowered = self.tile_costs[idx] as i64 - amount as i64;
        let cost: i32 = if lowered < 1 {
            1
        } else {
            lowered as i32
        };
        self.tile_costs.set(idx, cost);
    }

    pub fn get_entity(&self, location: &FieldLocation) -> (r: &u64)
        requires
            self.wf(),
            self.in_bounds(*location),
        ensures
            *r == self.locations()[self.index_of(*location)].0,
    {
        &self.get_entity_contents_pathability(location).0
    }

    pub fn get_contents(&self, location: &FieldLocation) -> (r: &FieldLocationContents)
        requires
            self.wf(),
            self.in_bounds(*location),
        ensures
            *r == self.contents_at(*location),
    {
        &self.get_entity_contents_pathability(location).1
    }

    /// Replaces what occupies `location`; its pathability follows.
    pub fn update_contents(&mut self, location: &FieldLocation, contents: &FieldLocationContents)
        requires
            old(self).wf(),
            old(self).in_bounds(*location),
        ensures
            final(self).wf(),
            same_geometry(*old(self), *final(self)),
            final(self).costs() == old(self).costs(),
            final(self).enemies() == old(self).enemies(),
            final(self).locations() == old(self).locations().update(
                old(self).index_of(*location),
                (
                    old(self).locations()[old(self).index_of(*location)].0,
                    *contents,
                    pathability_of(*contents),
                ),
            ),
    {
        let idx = self.tile_index(location);
        let entity = self.field_locations[idx].0;
        self.field_locations.set(idx, (entity, *contents, pathability(contents)));
    }

    pub fn is_pathable(&self, location: &FieldLocation) -> (r: bool)
        requires
            self.wf(),
            self.in_bounds(*location),
        ensures
            r == self.pathable_at(*location),
    {
        self.get_entity_contents_pathability(location).2 == Pathability::Pathable
    }

    fn adjacent_tiles(&self, location: &FieldLocation, pathable_only: bool, flat: bool) -> (r: Vec<
        (FieldLocation, i32),
    >)
        requires
            self.wf(),
            self.in_bounds(*location),
        ensures
            r@.map_values(|p: (FieldLocation, i32)| (p.0, p.1 as int)) == self.adjacent(
                *location,
                pathable_only,
                flat,
            ),
    {
        let l = *location;
        let mut r: Vec<(FieldLocation, i32)> = Vec::new();
        if l.0 > 0 {
            let n = FieldLocation(l.0 - 1, l.1);
            if !pathable_only || self.is_pathable(&n) {
                r.push((n, if flat { 1 } else { self.get_tile_cost(&n) }));
            }
        }
        assert(r@.map_values(|p: (FieldLocation, i32)| (p.0, p.1 as int)) =~= self.adjacent_entry(
            FieldLocation((l.0 - 1) as i32, l.1),
            l.0 > 0,
            pathable_only,
            flat,
        ));
        let ghost r1 = r@;
        if l.1 > 0 {
            let n = FieldLocation(l.0, l.1 - 1);
            if !pathable_only || self.is_pathable(&n) {
                r.push((n, if flat { 1 } else { self.get_tile_cost(&n) }));
            }
        }
        assert(r@.map_values(|p: (FieldLocation, i32)| (p.0, p.1 as int)) =~= r1.map_values(
            |p: (FieldLocation, i32)| (p.0, p.1 as int),
        ) + self.adjacent_entry(FieldLocation(l.0, (l.1 - 1) as i32), l.1 > 0, pathable_only, flat));
        let ghost r2 = r@;
        if l.0 < self.width - 1 {
            let n = FieldLocation(l.0 + 1, l.1);
            if !pathable_only || self.is_pathable(&n) {
                r.push((n, if flat { 1 } else { self.get_tile_cost(&n) }));
            }
        }
        assert(r@.map_values(|p: (FieldLocation, i32)| (p.0, p.1 as int)) =~= r2.map_values(
            |p: (FieldLocation, i32)| (p.0, p.1 as int),
        ) + self.adjacent_entry(
            FieldLocation((l.0 + 1) as i32, l.1),
            l.0 < self.spec_width() - 1,
            pathable_only,
            flat,
        ));
        let ghost r3 = r@;
        if l.1 < self.height - 1 {
            let n = FieldLocation(l.0, l.1 + 1);
            if !pathable_only || self.is_pathable(&n) {
                r.push((n, if flat { 1 } else { self.get_tile_cost(&n) }));
            }
        }
        assert(r@.map_values(|p: (FieldLocation, i32)| (p.0, p.1 as int)) =~= r3.map_values(
            |p: (FieldLocation, i32)| (p.0, p.1 as int),
        ) + self.adjacent_entry(
            FieldLocation(l.0, (l.1 + 1) as i32),
            l.1 < self.spec_height() - 1,
            pathable_only,
            flat,
        ));
        r
    }

    /// The tiles next to `location` that lie inside the grid, with the cost
    /// of entering each.
    pub fn get_neighbors(&self, location: &FieldLocation) -> (r: Vec<(FieldLocation, i32)>)
        requires
            self.wf(),
            self.in_bounds(*location),
        ensures
            r@.map_values(|p: (FieldLocation, i32)| (p.0, p.1 as int)) == self.adjacent(
                *location,
                false,
                false,
            ),
    {
        self.adjacent_tiles(location, false, false)
    }

    /// The pathable tiles next to `location`, with the cost of entering each.
    pub fn get_pathable_neighbors(&self, location: &FieldLocation) -> (r: Vec<(FieldLocation, i32)>)
        requires
            self.wf(),
            self.in_bounds(*location),
        ensures
            r@.map_values(|p: (FieldLocation, i32)| (p.0, p.1 as int)) == self.adjacent(
                *location,
                true,
                false,
            ),
    {
        self.adjacent_tiles(location, true, false)
    }

    /// The pathable tiles next to `location`, each at cost 1.
    pub fn get_pathable_neighbors_flat_cost(&self, location: &FieldLocation) -> (r: Vec<
        (FieldLocation, i32),
    >)
        requires
            self.wf(),
            self.in_bounds(*location),
        ensures
            r@.map_values(|p: (FieldLocation, i32)| (p.0, p.1 as int)) == self.adjacent(
                *location,
                true,
                true,
            ),
    {
        self.adjacent_tiles(location, true, true)
    }

    /// The squared distance from `location` to the goal tile.
    pub fn estimate_distance_to_goal(&self, location: &FieldLocation) -> (r: i32)
        requires
            self.wf(),
            self.in_bounds(*location),
        ensures
            r == squared_distance(*location, (self.spec_target().0, self.spec_target().1)),
    {
        proof {
            self.lemma_wf(*location);
        }
        let dx = location.0 - self.target.0;
        let dy = location.1 - self.target.1;
        assert(0 <= dx * dx <= 268435456 && 0 <= dy * dy <= 268435456) by (nonlinear_arith)
            requires
                -16384 <= dx <= 16384,
                -16384 <= dy <= 16384,
        ;
        dx * dx + dy * dy
    }

    /// Whether `location` is the goal tile.
    pub fn is_in_goal(&self, location: &FieldLocation) -> (r: bool)
        requires
            self.wf(),
            self.in_bounds(*location),
        ensures
            r == (*location == self.spec_target()),
    {
        let d = self.estimate_distance_to_goal(location);
        let ghost dx = location.0 as int - self.target.0 as int;
        let ghost dy = location.1 as int - self.target.1 as int;
        assert(d == 0 <==> (dx == 0 && dy == 0)) by (nonlinear_arith)
            requires
                d == dx * dx + dy * dy,
        ;
        d == 0
    }

    pub fn get_goal(&self) -> (r: FieldLocation)
        ensures
            r == self.spec_target(),
    {
        FieldLocation(self.target.0, self.target.1)
    }

    /// The pixel at the center of `location`.
    pub fn tile_center(&self, location: &FieldLocation) -> (r: (i64, i64))
        requires
            self.wf(),
            self.in_bounds(*location),
        ensures
            r.0 == self.spec_offset().0 + self.spec_tile_size() * location.0 + self.spec_tile_size()
                / 2,
            r.1 == self.spec_offset().1 + self.spec_tile_size() * location.1 + self.spec_tile_size()
                / 2,
    {
        proof {
            self.lemma_wf(*location);
        }
        let ts = self.tile_size as i64;
        assert(0 <= ts * location.0 <= 2147483647 * 16384 && 0 <= ts * location.1 <= 2147483647
            * 16384) by (nonlinear_arith)
            requires
                1 <= ts <= 2147483647,
                0 <= location.0 <= 16384,
                0 <= location.1 <= 16384,
        ;
        (
            self.offset.0 as i64 + ts * location.0 as i64 + ts / 2,
            self.offset.1 as i64 + ts * location.1 as i64 + ts / 2,
        )
    }

    /// The pixel where enemies spawn: the center of the source tile.
    pub fn get_spawn_transform(&self) -> (r: (i64, i64))
        requires
            self.wf(),
        ensures
            r.0 == self.spec_offset().0 + self.spec_tile_size() * self.spec_source().0
                + self.spec_tile_size() / 2,
            r.1 == self.spec_offset().1 + self.spec_tile_size() * self.spec_source().1
                + self.spec_tile_size() / 2,
    {
        self.tile_center(&FieldLocation(self.source.0, self.source.1))
    }
}

impl Field {
    /// A step a search may take: `to` is a pathable tile next to `from`, and
    /// it is not `avoid`.
    pub open spec fn step_allowed(
        self,
        from: FieldLocation,
        to: FieldLocation,
        avoid: Option<FieldLocation>,
    ) -> bool {
        &&& exists|i: int|
            0 <= i < self.adjacent(from, true, false).len() && #[trigger] self.adjacent(
                from,
                true,
                false,
            )[i].0 == to
        &&& avoid != Some(to)
    }

    /// The steps a search may take from `location`, with the cost of each: the
    /// tile's cost, or 1 for every tile when `flat`.
    pub fn search_successors(
        &self,
        location: &FieldLocation,
        flat: bool,
        avoid: Option<FieldLocation>,
    ) -> (r: Vec<(FieldLocation, i64)>)
        requires
            self.wf(),
            self.in_bounds(*location),
        ensures
            forall|i: int|
                0 <= i < r@.len() ==> self.step_allowed(*location, (#[trigger] r@[i]).0, avoid)
                    && r@[i].1 == if flat {
                    1
                } else {
                    self.cost_at(r@[i].0)
                },
            forall|to: FieldLocation|
                #[trigger] self.step_allowed(*location, to, avoid) ==> exists|i: int|
                    0 <= i < r@.len() && (#[trigger] r@[i]).0 == to,
    {
        let adj = self.adjacent_tiles(location, true, flat);
        let ghost spec_adj = self.adjacent(*location, true, false);
        let ghost flat_adj = self.adjacent(*location, true, flat);
        assert(flat_adj.len() == spec_adj.len());
        assert forall|j: int| 0 <= j < spec_adj.len() implies #[trigger] spec_adj[j].0 == flat_adj[j].0 by {
        }
        let mut r: Vec<(FieldLocation, i64)> = Vec::new();
        let mut i: usize = 0;
        while i < adj.len()
            invariant
                i <= adj@.len(),
                adj@.map_values(|p: (FieldLocation, i32)| (p.0, p.1 as int)) == flat_adj,
                flat_adj == self.adjacent(*location, true, flat),
                spec_adj == self.adjacent(*location, true, false),
                flat_adj.len() == spec_adj.len(),
                forall|j: int| 0 <= j < spec_adj.len() ==> #[trigger] spec_adj[j].0 == flat_adj[j].0,
                forall|k: int|
                    0 <= k < r@.len() ==> self.step_allowed(*location, (#[trigger] r@[k]).0, avoid)
                        && r@[k].1 == if flat {
                        1
                    } else {
                        self.cost_at(r@[k].0)
                    },
                forall|j: int|
                    0 <= j < i && avoid != Some(#[trigger] spec_adj[j].0) ==> exists|k: int|
                        0 <= k < r@.len() && (#[trigger] r@[k]).0 == spec_adj[j].0,
            decreases adj@.len() - i,
        {
            let (n, cost) = adj[i];
            assert(flat_adj[i as int] == (n, cost as int));
            assert(spec_adj[i as int].0 == n);
            let keep = match avoid {
                Some(a) => n != a,
                None => true,
            };
            let ghost r_before = r@;
            let ghost i_before = i as int;
            if keep {
                r.push((n, cost as i64));
            }
            assert forall|j: int|
                0 <= j < i_before + 1 && avoid != Some(#[trigger] spec_adj[j].0) implies exists|k: int|
                0 <= k < r@.len() && (#[trigger] r@[k]).0 == spec_adj[j].0 by {
                if j < i_before {
                    let k = choose|k: int| 0 <= k < r_before.len() && (#[trigger] r_before[k]).0 == spec_adj[j].0;
                    assert(r@[k] == r_before[k]);
                } else {
                    assert(r@[r@.len() - 1].0 == spec_adj[j].0);
                }
            }
            i = i + 1;
        }
        r
    }

    /// The number of orthogonal steps from `location` to the goal, as a
    /// search estimate. Every step costs at least 1, so it never overestimates.
    pub fn search_estimate(&self, location: &FieldLocation) -> (r: i64)
        requires
            self.wf(),
            self.in_bounds(*location),
        ensures
            r == manhattan_distance(*location, self.spec_target()),
    {
        proof {
            self.lemma_wf(*location);
        }
        let dx = location.0 as i64 - self.target.0 as i64;
        let dy = location.1 as i64 - self.target.1 as i64;
        let ax = if dx < 0 {
            -dx
        } else {
            dx
        };
        let ay = if dy < 0 {
            -dy
        } else {
            dy
        };
        ax + ay
    }
}

pub const FIELD_WIDTH: i32 = 29;
pub const FIELD_HEIGHT: i32 = 20;
pub const TILE_SIZE: i32 = 32;
pub const OFFSET: (i32, i32) = (16, 16);
pub const SOURCE: (i32, i32) = (0, 10);
pub const TARGET: (i32, i32) = (28, 10);

/// What tile `(x, y)` of a fresh field holds.
pub open spec fn initial_contents(x: int, y: int) -> FieldLocationContents {
    if x == SOURCE.0 && y == SOURCE.1 {
        FieldLocationContents::Spawner
    } else if x == TARGET.0 && y == TARGET.1 {
        FieldLocationContents::Goal
    } else {
        FieldLocationContents::Empty
    }
}

/// The playing field: `FIELD_WIDTH` by `FIELD_HEIGHT` tiles, spawner and goal
/// at either end of the middle row, everything else empty. Tile `(x, y)` is
/// owned by entity `entities[y * FIELD_WIDTH + x]`.
pub fn spawn_field(entities: &Vec<u64>) -> (field: Field)
    requires
        entities@.len() == FIELD_WIDTH * FIELD_HEIGHT,
    ensures
        field.wf(),
        field.spec_width() == FIELD_WIDTH,
        field.spec_height() == FIELD_HEIGHT,
        field.spec_source() == FieldLocation(SOURCE.0, SOURCE.1),
        field.spec_target() == FieldLocation(TARGET.0, TARGET.1),
        forall|i: int| 0 <= i < FIELD_WIDTH * FIELD_HEIGHT ==> #[trigger] field.costs()[i] == 1,
        forall|i: int| 0 <= i < FIELD_WIDTH * FIELD_HEIGHT ==> #[trigger] field.enemies()[i].len() == 0,
        forall|x: int, y: int|
            0 <= x < FIELD_WIDTH && 0 <= y < FIELD_HEIGHT ==> #[trigger] field.locations()[y
                * FIELD_WIDTH + x] == (
                entities@[y * FIELD_WIDTH + x],
                initial_contents(x, y),
                pathability_of(initial_contents(x, y)),
            ),
{
    let mut locations: Vec<(u64, FieldLocationContents, Pathability)> = Vec::new();
    let mut y: i32 = 0;
    while y < FIELD_HEIGHT
        invariant
            0 <= y <= FIELD_HEIGHT,
            entities@.len() == FIELD_WIDTH * FIELD_HEIGHT,
            locations@.len() == y * FIELD_WIDTH,
            forall|i: int|
                0 <= i < locations@.len() ==> #[trigger] locations@[i] == (
                    entities@[i],
                    initial_contents(i % FIELD_WIDTH as int, i / FIELD_WIDTH as int),
                    Pathability::Pathable,
                ),
        decreases FIELD_HEIGHT - y,
    {
        let mut x: i32 = 0;
        while x < FIELD_WIDTH
            invariant
                0 <= x <= FIELD_WIDTH,
                0 <= y < FIELD_HEIGHT,
                entities@.len() == FIELD_WIDTH * FIELD_HEIGHT,
                locations@.len() == y * FIELD_WIDTH + x,
                forall|i: int|
                    0 <= i < locations@.len() ==> #[trigger] locations@[i] == (
                        entities@[i],
                        initial_contents(i % FIELD_WIDTH as int, i / FIELD_WIDTH as int),
                        Pathability::Pathable,
                    ),
            decreases FIELD_WIDTH - x,
        {
            let contents = if x == SOURCE.0 && y == SOURCE.1 {
                FieldLocationContents::Spawner
            } else if x == TARGET.0 && y == TARGET.1 {
                FieldLocationContents::Goal
            } else {
                FieldLocationContents::Empty
            };
            let i = (y * FIELD_WIDTH + x) as usize;
            assert((i as int) % FIELD_WIDTH as int == x && (i as int) / FIELD_WIDTH as int == y)
                by (nonlinear_arith)
                requires
                    i == y * 29 + x,
                    0 <= x < 29,
                    0 <= y,
            ;
            locations.push((entities[i], contents, Pathability::Pathable));
            x = x + 1;
        }
        y = y + 1;
    }
    let field = Field::new(FIELD_WIDTH, FIELD_HEIGHT, TILE_SIZE, OFFSET, SOURCE, TARGET, locations);
    assert forall|x: int, y: int| 0 <= x < FIELD_WIDTH && 0 <= y < FIELD_HEIGHT implies #[trigger] field.locations()[y
        * FIELD_WIDTH + x] == (
        entities@[y * FIELD_WIDTH + x],
        initial_contents(x, y),
        pathability_of(initial_contents(x, y)),
    ) by {
        let i = y * FIELD_WIDTH + x;
        assert(i % FIELD_WIDTH as int == x && i / FIELD_WIDTH as int == y) by (nonlinear_arith)
            requires
                i == y * 29 + x,
                0 <= x < 29,
                0 <= y,
        ;
        assert(0 <= i < FIELD_WIDTH * FIELD_HEIGHT) by (nonlinear_arith)
            requires
                i == y * 29 + x,
                0 <= x < 29,
                0 <= y < 20,
        ;
    }
    field
}

impl Field {
    pub open spec fn towers_if(self, n: FieldLocation, inside: bool) -> Seq<(u64, TowerType)> {
        if inside {
            match self.contents_at(n) {
                FieldLocationContents::Tower(entity, tower) => seq![(entity, tower)],
                _ => Seq::empty(),
            }
        } else {
            Seq::empty()
        }
    }

    /// The towers on the tiles next to `l`, in the order left, down, right, up.
    pub open spec fn towers_near(self, l: FieldLocation) -> Seq<(u64, TowerType)> {
        self.towers_if(FieldLocation((l.0 - 1) as i32, l.1), l.0 > 0) + self.towers_if(
            FieldLocation(l.0, (l.1 - 1) as i32),
            l.1 > 0,
        ) + self.towers_if(FieldLocation((l.0 + 1) as i32, l.1), l.0 < self.spec_width() - 1)
            + self.towers_if(FieldLocation(l.0, (l.1 + 1) as i32), l.1 < self.spec_height() - 1)
    }

    fn push_tower_at(&self, towers: &mut Vec<(u64, TowerType)>, n: &FieldLocation)
        requires
            self.wf(),
            self.in_bounds(*n),
        ensures
            final(towers)@ == old(towers)@ + self.towers_if(*n, true),
    {
        match self.get_contents(n) {
            FieldLocationContents::Tower(entity, tower) => {
                towers.push((*entity, *tower));
            },
            _ => {},
        }
        assert(towers@ =~= old(towers)@ + self.towers_if(*n, true));
    }

    /// The towers on the tiles next to `location`, with their entities.
    pub fn get_neighbor_towers(&self, location: &FieldLocation) -> (r: Vec<(u64, TowerType)>)
        requires
            self.wf(),
            self.in_bounds(*location),
        ensures
            r@ == self.towers_near(*location),
    {
        let l = *location;
        let mut towers: Vec<(u64, TowerType)> = Vec::new();
        if l.0 > 0 {
            self.push_tower_at(&mut towers, &FieldLocation(l.0 - 1, l.1));
        }
        assert(towers@ =~= self.towers_if(FieldLocation((l.0 - 1) as i32, l.1), l.0 > 0));
        let ghost t1 = towers@;
        if l.1 > 0 {
            self.push_tower_at(&mut towers, &FieldLocation(l.0, l.1 - 1));
        }
        assert(towers@ =~= t1 + self.towers_if(FieldLocation(l.0, (l.1 - 1) as i32), l.1 > 0));
        let ghost t2 = towers@;
        if l.0 < self.width - 1 {
            self.push_tower_at(&mut towers, &FieldLocation(l.0 + 1, l.1));
        }
        assert(towers@ =~= t2 + self.towers_if(
            FieldLocation((l.0 + 1) as i32, l.1),
            l.0 < self.spec_width() - 1,
        ));
        let ghost t3 = towers@;
        if l.1 < self.height - 1 {
            self.push_tower_at(&mut towers, &FieldLocation(l.0, l.1 + 1));
        }
        assert(towers@ =~= t3 + self.towers_if(
            FieldLocation(l.0, (l.1 + 1) as i32),
            l.1 < self.spec_height() - 1,
        ));
        towers
    }

    /// The tower on `location` when it is of class `class`: buying that class
    /// there upgrades it.
    pub fn get_upgraded_tower_at_location(&self, location: &FieldLocation, class: TowerClass) -> (r:
        Option<(u64, TowerType)>)
        requires
            self.wf(),
            self.in_bounds(*location),
        ensures
            r == match self.contents_at(*location) {
                FieldLocationContents::Tower(entity, tower) => if tower.class == class {
                    Some((entity, tower))
                } else {
                    None
                },
                _ => None,
            },
    {
        match self.get_contents(location) {
            FieldLocationContents::Tower(entity, tower) => {
                if tower.class == class {
                    Some((*entity, *tower))
                } else {
                    None
                }
            },
            _ => None,
        }
    }
}

/// The tile under pixel `location`, if it lies on the field.
pub open spec fn tile_under(field: Field, location: (i32, i32)) -> Option<(i32, i32)> {
    let x = (location.0 - field.spec_offset().0) / field.spec_tile_size();
    let y = (location.1 - field.spec_offset().1) / field.spec_tile_size();
    if 0 <= x < field.spec_width() && 0 <= y < field.spec_height() {
        Some((x as i32, y as i32))
    } else {
        None
    }
}

/// The tile under pixel `location`, if it lies on the field.
pub fn get_tile_from_location(location: (i32, i32), field: &Field) -> (r: Option<(i32, i32)>)
    requires
        field.wf(),
    ensures
        r == tile_under(*field, location),
{
    proof {
        field.lemma_wf(field.spec_source());
    }
    let ts = field.tile_size as i64;
    let fx = location.0 as i64 - field.offset.0 as i64;
    let fy = location.1 as i64 - field.offset.1 as i64;
    let tx = fx.checked_div_euclid(ts);
    let ty = fy.checked_div_euclid(ts);
    match (tx, ty) {
        (Some(tx), Some(ty)) => {
            if 0 <= tx && tx < field.width as i64 && 0 <= ty && ty < field.height as i64 {
                Some((tx as i32, ty as i32))
            } else {
                None
            }
        },
        _ => None,
    }
}

fn append_all<T: Copy>(dst: &mut Vec<T>, src: &Vec<T>)
    ensures
        final(dst)@ == old(dst)@ + src@,
{
    let mut i: usize = 0;
    while i < src.len()
        invariant
            i <= src@.len(),
            dst@ == old(dst)@ + src@.subrange(0, i as int),
        decreases src@.len() - i,
    {
        dst.push(src[i]);
        i = i + 1;
        assert(dst@ =~= old(dst)@ + src@.subrange(0, i as int));
    }
    assert(src@.subrange(0, src@.len() as int) =~= src@);
}

/// A tile's traversal cost never drops below 1: every operation on a field
/// keeps it well formed, decrements included, and a well-formed field has no
/// cost below 1.
pub proof fn tile_cost_never_below_one(field: Field, l: FieldLocation)
    requires
        field.wf(),
        field.in_bounds(l),
    ensures
        field.cost_at(l) >= 1,
{
    field.lemma_wf(l);
}

proof fn lemma_tile_index(w: int, h: int, x: int, y: int)
    requires
        0 <= x < w,
        0 <= y < h,
    ensures
        0 <= y * w + x < w * h,
{
    assert(0 <= y * w + x < w * h) by (nonlinear_arith)
        requires
            0 <= x < w,
            0 <= y < h,
    ;
}

proof fn lemma_same_index(w: int, x1: int, y1: int, x2: int, y2: int)
    requires
        0 <= x1 < w,
        0 <= x2 < w,
        0 <= y1,
        0 <= y2,
        y1 * w + x1 == y2 * w + x2,
    ensures
        x1 == x2 && y1 == y2,
{
    if y1 < y2 {
        assert(y1 * w + w <= y2 * w) by (nonlinear_arith)
            requires
                y1 < y2,
                0 <= w,
        ;
    } else if y2 < y1 {
        assert(y2 * w + w <= y1 * w) by (nonlinear_arith)
            requires
                y2 < y1,
                0 <= w,
        ;
    }
}

} // verus!
