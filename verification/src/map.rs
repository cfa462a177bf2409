//! The tile map: texture grid, the placeable area, and the placement and
//! demolition rules.
//!
//! Texture indices follow the tile sheet's conventions: 0 marks ground that
//! cannot be built on, 1 marks a placeable tile, and anything at 2 or above
//! is a placed structure.

use vstd::prelude::*;
use crate::budget::{Budget, BuildingDemolished, BuildingPlaced, BuildingType, TransactionFailed};
use crate::spatial::{within_chebyshev, SpatialGrid, TilePos};

verus! {

/// Texture index for ground that is out of the placeable area.
pub const GROUND_TEXTURE_INDEX: u32 = 0;

/// Texture index for a tile that may be built on.
pub const PLACEABLE_TEXTURE_INDEX: u32 = 1;

/// Texture index for abandoned/demolished structures in the tile sheet.
pub const ABANDONED_TEXTURE_INDEX: u32 = 4;

/// Any placed structure has a texture index of at least this.
pub const FIRST_PLACED_TEXTURE_INDEX: u32 = 2;

/// Chebyshev radius around a placed tile within which ground becomes
/// placeable.
pub const PLACEABLE_EXPANSION_RADIUS: i64 = 2;

/// The tile map's texture grid, row-major with stride `width`.
pub struct TileGrid {
    pub width: u32,
    pub height: u32,
    pub textures: Vec<u32>,
}

impl TileGrid {
    /// One texture per tile.
    pub open spec fn wf(self) -> bool {
        self.textures@.len() == (self.width as int) * (self.height as int)
    }

    /// Is the position on the map?
    pub open spec fn spec_in_bounds(self, p: TilePos) -> bool {
        p.x < self.width && p.y < self.height
    }

    /// Linear index of a position.
    pub open spec fn index_of(self, p: TilePos) -> int {
        (p.y as int) * (self.width as int) + (p.x as int)
    }

    /// Texture at a position (meaningful in bounds).
    pub open spec fn spec_texture(self, p: TilePos) -> int {
        self.textures@[self.index_of(p)] as int
    }

    /// A grid of the given size with every tile set to `initial`.
    pub fn new(width: u32, height: u32, initial: u32) -> (r: Self)
        requires
            (width as int) * (height as int) <= usize::MAX,
        ensures
            r.wf(),
            r.width == width,
            r.height == height,
            forall|i: int| 0 <= i < r.textures@.len() ==> r.textures@[i] == initial,
    {
        proof {
            assert(0 <= (width as int) * (height as int)) by (nonlinear_arith)
                requires
                    0 <= width as int,
                    0 <= height as int,
            ;
        }
        let n: usize = (width as usize) * (height as usize);
        let textures: Vec<u32> = vec![initial; n];
        TileGrid { width, height, textures }
    }

    /// Is the position on the map?
    pub fn in_bounds(&self, p: &TilePos) -> (r: bool)
        ensures
            r == self.spec_in_bounds(*p),
    {
        p.x < self.width && p.y < self.height
    }

    /// Read a tile's texture.
    pub fn texture(&self, p: &TilePos) -> (r: u32)
        requires
            self.wf(),
            self.spec_in_bounds(*p),
        ensures
            r == self.spec_texture(*p),
    {
        let n = self.textures.len();
        proof {
            lemma_index_in_range(*self, *p);
        }
        self.textures[(p.y as usize) * (self.width as usize) + (p.x as usize)]
    }

    /// Overwrite a tile's texture.
    pub fn set_texture(&mut self, p: &TilePos, texture: u32)
        requires
            old(self).wf(),
            old(self).spec_in_bounds(*p),
        ensures
            final(self).wf(),
            final(self).width == old(self).width,
            final(self).height == old(self).height,
            final(self).textures@ == old(self).textures@.update(old(self).index_of(*p), texture),
    {
        let n = self.textures.len();
        proof {
            lemma_index_in_range(*self, *p);
        }
        let i: usize = (p.y as usize) * (self.width as usize) + (p.x as usize);
        self.textures[i] = texture;
    }
}

/// A position's linear index lies inside the texture vector, and two
/// distinct in-bounds positions have distinct indices.
proof fn lemma_index_in_range(g: TileGrid, p: TilePos)
    requires
        g.wf(),
        g.spec_in_bounds(p),
    ensures
        0 <= g.index_of(p) < g.textures@.len(),
        0 <= (p.y as int) * (g.width as int) <= g.index_of(p),
{
    let w = g.width as int;
    let h = g.height as int;
    assert((p.y as int) * w + (p.x as int) < h * w) by (nonlinear_arith)
        requires
            0 <= p.x as int,
            (p.x as int) < w,
            0 <= p.y as int,
            (p.y as int) < h,
    ;
    assert(h * w == w * h) by (nonlinear_arith);
    assert(0 <= (p.y as int) * w) by (nonlinear_arith)
        requires
            0 <= p.y as int,
            0 <= w,
    ;
}

/// How many tiles hold a placed structure in a texture sequence.
pub open spec fn spec_placed_count(s: Seq<u32>) -> int
    decreases s.len(),
{
    if s.len() == 0 {
        0
    } else {
        spec_placed_count(s.drop_last()) + if s.last() >= FIRST_PLACED_TEXTURE_INDEX {
            1int
        } else {
            0int
        }
    }
}

/// Count the tiles that hold a placed structure, saturating at `u32::MAX`.
pub fn count_placed_tiles(grid: &TileGrid) -> (r: u32)
    ensures
        r as int == crate::spatial::sat_u32(spec_placed_count(grid.textures@)),
{
    let n = grid.textures.len();
    let mut count: u32 = 0;
    let mut i: usize = 0;
    while i < n
        invariant
            i <= n,
            n == grid.textures@.len(),
            count as int == crate::spatial::sat_u32(spec_placed_count(grid.textures@.take(i as int))),
            spec_placed_count(grid.textures@.take(i as int)) >= 0,
        decreases n - i,
    {
        proof {
            assert(grid.textures@.take(i as int + 1).drop_last() =~= grid.textures@.take(i as int));
            assert(grid.textures@.take(i as int + 1).last() == grid.textures@[i as int]);
        }
        if grid.textures[i] >= FIRST_PLACED_TEXTURE_INDEX {
            if count < u32::MAX {
                count = count + 1;
            }
        }
        i = i + 1;
    }
    proof {
        assert(grid.textures@.take(n as int) =~= grid.textures@);
    }
    count
}

/// The tiles a building may currently be placed on.
pub struct PlaceableMap {
    pub placeable_tiles: Vec<TilePos>,
}

impl Default for PlaceableMap {
    /// Nothing is placeable yet.
    fn default() -> (r: Self)
        ensures
            r.wf(),
            r.placeable_set() == Set::<TilePos>::empty(),
    {
        let r = PlaceableMap { placeable_tiles: Vec::new() };
        proof {
            assert(r.placeable_set() =~= Set::<TilePos>::empty());
        }
        r
    }
}

impl PlaceableMap {
    /// Tiles are listed at most once.
    pub open spec fn wf(self) -> bool {
        self.placeable_tiles@.no_duplicates()
    }

    /// The set of placeable tiles.
    pub open spec fn placeable_set(self) -> Set<TilePos> {
        self.placeable_tiles@.to_set()
    }

    /// May a building stand here?
    pub fn is_placeable(&self, pos: &TilePos) -> (r: bool)
        ensures
            r == self.placeable_set().contains(*pos),
    {
        let n = self.placeable_tiles.len();
        let mut i: usize = 0;
        while i < n
            invariant
                i <= n,
                n == self.placeable_tiles@.len(),
                forall|j: int| 0 <= j < i ==> self.placeable_tiles@[j] != *pos,
            decreases n - i,
        {
            if self.placeable_tiles[i].x == pos.x && self.placeable_tiles[i].y == pos.y {
                proof {
                    assert(self.placeable_tiles@.contains(*pos));
                }
                return true;
            }
            i = i + 1;
        }
        proof {
            if self.placeable_tiles@.contains(*pos) {
                let j = choose|j: int|
                    0 <= j < self.placeable_tiles@.len() && self.placeable_tiles@[j] == *pos;
            }
        }
        false
    }

    /// Allow building on this tile.
    pub fn mark_placeable(&mut self, pos: TilePos)
        requires
            old(self).wf(),
        ensures
            final(self).wf(),
            final(self).placeable_set() == old(self).placeable_set().insert(pos),
    {
        if !self.is_placeable(&pos) {
            let ghost before = self.placeable_tiles@;
            self.placeable_tiles.push(pos);
            proof {
                assert forall|a: int, b: int|
                    0 <= a < b < self.placeable_tiles@.len() implies self.placeable_tiles@[a]
                    != self.placeable_tiles@[b] by {
                    if b < before.len() {
                        assert(before[a] != before[b]);
                    } else {
                        assert(self.placeable_tiles@[b] == pos);
                        assert(self.placeable_tiles@[a] == before[a]);
                        assert(before.contains(before[a]));
                        assert(!before.to_set().contains(pos));
                    }
                }
                assert forall|q: TilePos| #[trigger]
                    self.placeable_set().contains(q) <==> old(self).placeable_set().contains(q) || q
                    == pos by {
                    if self.placeable_tiles@.contains(q) {
                        let j = choose|j: int|
                            0 <= j < self.placeable_tiles@.len() && self.placeable_tiles@[j] == q;
                        if j < before.len() {
                            assert(before[j] == q);
                        }
                    }
                    if before.contains(q) {
                        let j = choose|j: int| 0 <= j < before.len() && before[j] == q;
                        assert(self.placeable_tiles@[j] == q);
                    }
                    if q == pos {
                        assert(self.placeable_tiles@[self.placeable_tiles@.len() - 1] == pos);
                    }
                }
                assert(final(self).placeable_set() =~= old(self).placeable_set().insert(pos));
            }
        } else {
            proof {
                assert(final(self).placeable_set() =~= old(self).placeable_set().insert(pos));
            }
        }
    }

    /// Forbid building on this tile; absent tiles are a silent no-op.
    pub fn unmark_placeable(&mut self, pos: &TilePos)
        requires
            old(self).wf(),
        ensures
            final(self).wf(),
            final(self).placeable_set() == old(self).placeable_set().remove(*pos),
    {
        let n = self.placeable_tiles.len();
        let mut i: usize = 0;
        while i < n
            invariant
                i <= n,
                n == self.placeable_tiles@.len(),
                self.wf(),
                *self == *old(self),
                forall|j: int| 0 <= j < i ==> self.placeable_tiles@[j] != *pos,
            decreases n - i,
        {
            if self.placeable_tiles[i].x == pos.x && self.placeable_tiles[i].y == pos.y {
                self.placeable_tiles.remove(i);
                proof {
                    old(self).placeable_tiles@.remove_ensures(i as int);
                    crate::spatial::lemma_remove_keeps_no_duplicates(
                        old(self).placeable_tiles@,
                        i as int,
                    );
                    assert forall|q: TilePos| #[trigger]
                        self.placeable_set().contains(q) <==> old(self).placeable_set().contains(q)
                        && q != *pos by {
                        crate::spatial::lemma_remove_membership(
                            old(self).placeable_tiles@,
                            i as int,
                            q,
                        );
                    }
                    assert(final(self).placeable_set() =~= old(self).placeable_set().remove(*pos));
                }
                return ;
            }
            i = i + 1;
        }
        proof {
            assert(!self.placeable_tiles@.contains(*pos)) by {
                if self.placeable_tiles@.contains(*pos) {
                    let j = choose|j: int|
                        0 <= j < self.placeable_tiles@.len() && self.placeable_tiles@[j] == *pos;
                }
            }
            assert(final(self).placeable_set() =~= old(self).placeable_set().remove(*pos));
        }
    }
}

/// Is another building within the expansion radius of this tile?
pub fn is_within_range_of_placed_tile(tile_pos: &TilePos, spatial_grid: &SpatialGrid) -> (r: bool)
    requires
        spatial_grid.wf(),
    ensures
        r == exists|p: TilePos|
            #[trigger] spatial_grid.all_buildings.pos_set().contains(p) && p != *tile_pos
                && within_chebyshev(p, *tile_pos, PLACEABLE_EXPANSION_RADIUS as int),
{
    spatial_grid.has_building_in_radius(tile_pos, PLACEABLE_EXPANSION_RADIUS)
}

/// Step a variant selection by `delta`, wrapping around `variants`.
pub fn cycle_variant(current: u32, delta: i32, variants: u32) -> (r: u32)
    requires
        variants > 0,
    ensures
        r as int == (current as int + delta as int) % (variants as int),
        r < variants,
{
    let m: i128 = variants as i128;
    let a: i128 = current as i128 + delta as i128;
    let shifted: i128 = a + m * 2147483648;
    proof {
        assert(shifted as int >= 0) by (nonlinear_arith)
            requires
                m as int >= 1,
                a as int >= -2147483648,
                shifted as int == a as int + (m as int) * 2147483648,
        ;
        vstd::arithmetic::div_mod::lemma_mod_multiples_vanish(2147483648, a as int, m as int);
        assert((m as int) * 2147483648 + a as int == shifted as int);
        vstd::arithmetic::div_mod::lemma_mod_bound(shifted as int, m as int);
    }
    let r: i128 = shifted % m;
    r as u32
}

/// A request to place one building on one tile.
#[derive(Clone, Copy, PartialEq, Eq, Debug, Structural)]
pub struct PlacementIntent {
    pub tile_pos: TilePos,
    pub building_type: BuildingType,
}

/// The texture a newly placed building shows: residential buildings pick a
/// tile by variant, everything else shares one index.
pub open spec fn spec_placed_texture(bt: BuildingType, variant: int) -> int {
    match bt {
        BuildingType::Residential => if variant <= 1 {
            3int
        } else {
            2int
        },
        _ => 4int,
    }
}

/// What one placement intent does to the map's textures and the balance.
pub struct PlacementStep {
    pub textures: Seq<u32>,
    pub money: int,
    pub placed: Option<BuildingPlaced>,
    pub failed: bool,
}

/// One intent: it is dropped silently off the map; it fails on a tile that
/// is off limits or occupied, or when unaffordable; otherwise the cost is
/// paid, the tile takes the building's texture, and a placement event is
/// produced.
pub open spec fn spec_apply_intent(
    width: int,
    height: int,
    placeable: Set<TilePos>,
    textures: Seq<u32>,
    money: int,
    intent: PlacementIntent,
    variant: int,
) -> PlacementStep {
    let pos = intent.tile_pos;
    let index = (pos.y as int) * width + (pos.x as int);
    if !(pos.x < width && pos.y < height) {
        PlacementStep { textures, money, placed: None, failed: false }
    } else if !placeable.contains(pos) || textures[index] != PLACEABLE_TEXTURE_INDEX as int
        || money < intent.building_type.spec_cost() {
        PlacementStep { textures, money, placed: None, failed: true }
    } else {
        PlacementStep {
            textures: textures.update(
                index,
                spec_placed_texture(intent.building_type, variant) as u32,
            ),
            money: money - intent.building_type.spec_cost(),
            placed: Some(
                BuildingPlaced { building_type: intent.building_type, tile_pos: pos },
            ),
            failed: false,
        }
    }
}

/// A whole batch of intents, in order.
pub struct PlacementBatch {
    pub textures: Seq<u32>,
    pub money: int,
    pub placed: Seq<BuildingPlaced>,
    pub failed: int,
}

/// Fold `spec_apply_intent` over a batch.
pub open spec fn spec_apply_intents(
    width: int,
    height: int,
    placeable: Set<TilePos>,
    textures: Seq<u32>,
    money: int,
    intents: Seq<PlacementIntent>,
    variant: int,
) -> PlacementBatch
    decreases intents.len(),
{
    if intents.len() == 0 {
        PlacementBatch { textures, money, placed: Seq::empty(), failed: 0 }
    } else {
        let prev = spec_apply_intents(
            width,
            height,
            placeable,
            textures,
            money,
            intents.drop_last(),
            variant,
        );
        let step = spec_apply_intent(
            width,
            height,
            placeable,
            prev.textures,
            prev.money,
            intents.last(),
            variant,
        );
        PlacementBatch {
            textures: step.textures,
            money: step.money,
            placed: match step.placed {
                Some(e) => prev.placed.push(e),
                None => prev.placed,
            },
            failed: prev.failed + if step.failed {
                1int
            } else {
                0int
            },
        }
    }
}

/// Try to execute each placement intent in order: check the placeable
/// area, the tile's occupancy and the budget; charge the cost, stamp the
/// tile's texture and emit a `BuildingPlaced` event for each success, and
/// count a failed transaction for each rejection.  `variant` selects the
/// residential tile art.
pub fn execute_placement_intents(
    placeable: &PlaceableMap,
    grid: &mut TileGrid,
    budget: &mut Budget,
    intents: &Vec<PlacementIntent>,
    variant: usize,
) -> (r: (Vec<BuildingPlaced>, Vec<TransactionFailed>))
    requires
        old(grid).wf(),
    ensures
        final(grid).wf(),
        final(grid).width == old(grid).width,
        final(grid).height == old(grid).height,
        ({
            let batch = spec_apply_intents(
                old(grid).width as int,
                old(grid).height as int,
                placeable.placeable_set(),
                old(grid).textures@,
                old(budget).money as int,
                intents@,
                variant as int,
            );
            &&& final(grid).textures@ == batch.textures
            &&& final(budget).money == batch.money
            &&& r.0@ == batch.placed
            &&& r.1@.len() == batch.failed
        }),
{
    let ghost width = grid.width as int;
    let ghost height = grid.height as int;
    let ghost pset = placeable.placeable_set();
    let mut placed_events: Vec<BuildingPlaced> = Vec::new();
    let mut failed_events: Vec<TransactionFailed> = Vec::new();
    let n = intents.len();
    let mut i: usize = 0;
    while i < n
        invariant
            i <= n,
            n == intents@.len(),
            grid.wf(),
            grid.width == old(grid).width,
            grid.height == old(grid).height,
            width == old(grid).width as int,
            height == old(grid).height as int,
            pset == placeable.placeable_set(),
            ({
                let batch = spec_apply_intents(
                    width,
                    height,
                    pset,
                    old(grid).textures@,
                    old(budget).money as int,
                    intents@.take(i as int),
                    variant as int,
                );
                &&& grid.textures@ == batch.textures
                &&& budget.money == batch.money
                &&& placed_events@ == batch.placed
                &&& failed_events@.len() == batch.failed
            }),
        decreases n - i,
    {
        let intent = intents[i];
        let pos = intent.tile_pos;
        if grid.in_bounds(&pos) {
            let occupied = grid.texture(&pos) != PLACEABLE_TEXTURE_INDEX;
            let cost = intent.building_type.cost();
            if !placeable.is_placeable(&pos) || occupied || !budget.can_afford(cost) {
                failed_events.push(TransactionFailed);
            } else {
                budget.spend(cost);
                let tex: u32 = match intent.building_type {
                    BuildingType::Residential => if variant <= 1 {
                        3
                    } else {
                        2
                    },
                    _ => 4,
                };
                grid.set_texture(&pos, tex);
                placed_events.push(
                    BuildingPlaced { building_type: intent.building_type, tile_pos: pos },
                );
            }
        }
        i = i + 1;
        proof {
            assert(intents@.take(i as int).drop_last() =~= intents@.take(i as int - 1));
            assert(intents@.take(i as int).last() == intents@[i as int - 1]);
        }
    }
    proof {
        assert(intents@.take(n as int) =~= intents@);
    }
    (placed_events, failed_events)
}

/// Is there a placed structure other than `q` itself within the expansion
/// radius of `q` on the texture grid?
pub open spec fn near_placed(g: TileGrid, q: TilePos) -> bool {
    exists|p: TilePos|
        g.spec_in_bounds(p) && #[trigger] g.spec_texture(p) >= FIRST_PLACED_TEXTURE_INDEX as int
            && p != q && within_chebyshev(p, q, PLACEABLE_EXPANSION_RADIUS as int)
}

/// Scan the 5-by-5 window around `q` for a placed structure other than
/// `q` itself.
fn has_placed_neighbor(grid: &TileGrid, q: &TilePos) -> (r: bool)
    requires
        grid.wf(),
    ensures
        r == near_placed(*grid, *q),
{
    let mut d: u64 = 0;
    while d < 25
        invariant
            d <= 25,
            grid.wf(),
            forall|p: TilePos|
                grid.spec_in_bounds(p) && #[trigger] grid.spec_texture(p)
                    >= FIRST_PLACED_TEXTURE_INDEX as int && p != *q && within_chebyshev(
                    p,
                    *q,
                    PLACEABLE_EXPANSION_RADIUS as int,
                ) ==> offset_order(p, *q) >= d,
        decreases 25 - d,
    {
        let dx: i64 = (d / 5) as i64 - 2;
        let dy: i64 = (d % 5) as i64 - 2;
        if !(dx == 0 && dy == 0) {
            let px = q.x as i64 + dx;
            let py = q.y as i64 + dy;
            if px >= 0 && px < grid.width as i64 && py >= 0 && py < grid.height as i64 {
                let p = TilePos { x: px as u32, y: py as u32 };
                if grid.texture(&p) >= FIRST_PLACED_TEXTURE_INDEX {
                    proof {
                        assert(grid.spec_in_bounds(p) && grid.spec_texture(p)
                            >= FIRST_PLACED_TEXTURE_INDEX as int && p != *q && within_chebyshev(
                            p,
                            *q,
                            PLACEABLE_EXPANSION_RADIUS as int,
                        ));
                    }
                    return true;
                }
            }
        }
        d = d + 1;
        proof {
            assert forall|p: TilePos|
                grid.spec_in_bounds(p) && #[trigger] grid.spec_texture(p)
                    >= FIRST_PLACED_TEXTURE_INDEX as int && p != *q && within_chebyshev(
                    p,
                    *q,
                    PLACEABLE_EXPANSION_RADIUS as int,
                ) implies offset_order(p, *q) >= d by {
                if offset_order(p, *q) == d - 1 {
                    assert(p.x as int == q.x as int + ((d - 1) as int / 5 - 2));
                    assert(p.y as int == q.y as int + ((d - 1) as int % 5 - 2));
                }
            }
        }
    }
    proof {
        assert forall|p: TilePos|
            grid.spec_in_bounds(p) && #[trigger] grid.spec_texture(p)
                >= FIRST_PLACED_TEXTURE_INDEX as int && p != *q implies !within_chebyshev(
            p,
            *q,
            PLACEABLE_EXPANSION_RADIUS as int,
        ) by {
            if within_chebyshev(p, *q, PLACEABLE_EXPANSION_RADIUS as int) {
                assert(0 <= offset_order(p, *q) < 25);
            }
        }
    }
    false
}

/// Position of `p` in the scan order of the 5-by-5 window around `q`.
pub open spec fn offset_order(p: TilePos, q: TilePos) -> int {
    (p.x - q.x + 2) * 5 + (p.y - q.y + 2)
}

/// The tile at a linear texture index.
pub open spec fn pos_of_index(g: TileGrid, i: int) -> TilePos {
    TilePos { x: (i % (g.width as int)) as u32, y: (i / (g.width as int)) as u32 }
}

/// Grow the placeable area: every tile within the expansion radius of a
/// placed structure (the structure's own tile aside) becomes placeable.
/// Already placeable tiles stay placeable.
pub fn expand_placeable_area(placeable: &mut PlaceableMap, grid: &TileGrid)
    requires
        old(placeable).wf(),
        grid.wf(),
    ensures
        final(placeable).wf(),
        forall|q: TilePos| #[trigger]
            final(placeable).placeable_set().contains(q) <==> (old(
                placeable,
            ).placeable_set().contains(q) || (grid.spec_in_bounds(q) && near_placed(*grid, q))),
{
    let w = grid.width;
    let h = grid.height;
    let mut yi: u32 = 0;
    while yi < h
        invariant
            yi <= h,
            w == grid.width,
            h == grid.height,
            grid.wf(),
            placeable.wf(),
            forall|q: TilePos| #[trigger]
                placeable.placeable_set().contains(q) <==> (old(
                    placeable,
                ).placeable_set().contains(q) || (grid.spec_in_bounds(q) && near_placed(*grid, q)
                    && q.y < yi)),
        decreases h - yi,
    {
        let mut xi: u32 = 0;
        while xi < w
            invariant
                xi <= w,
                yi < h,
                w == grid.width,
                h == grid.height,
                grid.wf(),
                placeable.wf(),
                forall|q: TilePos| #[trigger]
                    placeable.placeable_set().contains(q) <==> (old(
                        placeable,
                    ).placeable_set().contains(q) || (grid.spec_in_bounds(q) && near_placed(
                        *grid,
                        q,
                    ) && (q.y < yi || (q.y == yi && q.x < xi)))),
            decreases w - xi,
        {
            let q = TilePos { x: xi, y: yi };
            if has_placed_neighbor(grid, &q) {
                placeable.mark_placeable(q);
            }
            xi = xi + 1;
        }
        yi = yi + 1;
    }
}

/// Repaint ground tiles: placeable tiles show the placeable texture and
/// other ground shows bare ground.  Placed structures are untouched.
pub fn update_placeable_indicators(placeable: &PlaceableMap, grid: &mut TileGrid)
    requires
        old(grid).wf(),
    ensures
        final(grid).wf(),
        final(grid).width == old(grid).width,
        final(grid).height == old(grid).height,
        final(grid).textures@.len() == old(grid).textures@.len(),
        forall|i: int|
            0 <= i < old(grid).textures@.len() ==> #[trigger] final(grid).textures@[i] == (
            if old(grid).textures@[i] >= FIRST_PLACED_TEXTURE_INDEX {
                old(grid).textures@[i]
            } else if placeable.placeable_set().contains(pos_of_index(*old(grid), i)) {
                PLACEABLE_TEXTURE_INDEX
            } else {
                GROUND_TEXTURE_INDEX
            }),
{
    let w = grid.width;
    if w == 0 {
        proof {
            assert((grid.width as int) * (grid.height as int) == 0) by (nonlinear_arith)
                requires
                    grid.width as int == 0,
            ;
        }
        return ;
    }
    let n = grid.textures.len();
    let mut i: usize = 0;
    while i < n
        invariant
            i <= n,
            w == grid.width,
            w > 0,
            grid.width == old(grid).width,
            grid.height == old(grid).height,
            grid.wf(),
            n == grid.textures@.len(),
            n == old(grid).textures@.len(),
            forall|j: int|
                i <= j < n ==> #[trigger] grid.textures@[j] == old(grid).textures@[j],
            forall|j: int|
                0 <= j < i ==> #[trigger] grid.textures@[j] == (if old(grid).textures@[j]
                    >= FIRST_PLACED_TEXTURE_INDEX {
                    old(grid).textures@[j]
                } else if placeable.placeable_set().contains(pos_of_index(*old(grid), j)) {
                    PLACEABLE_TEXTURE_INDEX
                } else {
                    GROUND_TEXTURE_INDEX
                }),
        decreases n - i,
    {
        if grid.textures[i] < FIRST_PLACED_TEXTURE_INDEX {
            proof {
                assert((i as int) < (w as int) * (grid.height as int));
                vstd::arithmetic::div_mod::lemma_multiply_divide_lt(
                    i as int,
                    w as int,
                    grid.height as int,
                );
                vstd::arithmetic::div_mod::lemma_div_pos_is_pos(i as int, w as int);
                vstd::arithmetic::div_mod::lemma_mod_bound(i as int, w as int);
            }
            let q = TilePos { x: (i % (w as usize)) as u32, y: (i / (w as usize)) as u32 };
            proof {
                assert(q == pos_of_index(*old(grid), i as int));
            }
            let tex: u32 = if placeable.is_placeable(&q) {
                PLACEABLE_TEXTURE_INDEX
            } else {
                GROUND_TEXTURE_INDEX
            };
            let ghost before = grid.textures@;
            grid.textures[i] = tex;
            proof {
                assert(grid.textures@ =~= before.update(i as int, tex));
            }
        }
        i = i + 1;
    }
}

/// Position of `q` in the scan order of the 9-by-9 window around `c`.
pub open spec fn window_order(q: TilePos, c: TilePos) -> int {
    (q.x - c.x + 4) * 9 + (q.y - c.y + 4)
}

/// After a demolition, recompute placeability for every ground tile in the
/// 9-by-9 window around the demolished position: a tile stays placeable
/// only while another building remains within the expansion radius.
pub fn incremental_update_placeable_area(
    demolished_pos: &TilePos,
    placeable: &mut PlaceableMap,
    grid: &TileGrid,
    spatial: &SpatialGrid,
)
    requires
        old(placeable).wf(),
        grid.wf(),
        spatial.wf(),
    ensures
        final(placeable).wf(),
        forall|q: TilePos| #[trigger]
            final(placeable).placeable_set().contains(q) <==> (if within_chebyshev(
                q,
                *demolished_pos,
                4,
            ) && grid.spec_in_bounds(q) && grid.spec_texture(q) < FIRST_PLACED_TEXTURE_INDEX as int {
                exists|p: TilePos|
                    #[trigger] spatial.all_buildings.pos_set().contains(p) && p != q
                        && within_chebyshev(p, q, PLACEABLE_EXPANSION_RADIUS as int)
            } else {
                old(placeable).placeable_set().contains(q)
            }),
{
    let mut d: u64 = 0;
    while d < 81
        invariant
            d <= 81,
            grid.wf(),
            spatial.wf(),
            placeable.wf(),
            forall|q: TilePos| #[trigger]
                placeable.placeable_set().contains(q) <==> (if within_chebyshev(
                    q,
                    *demolished_pos,
                    4,
                ) && grid.spec_in_bounds(q) && grid.spec_texture(q) < FIRST_PLACED_TEXTURE_INDEX as int
                    && window_order(q, *demolished_pos) < d {
                    exists|p: TilePos|
                        #[trigger] spatial.all_buildings.pos_set().contains(p) && p != q
                            && within_chebyshev(p, q, PLACEABLE_EXPANSION_RADIUS as int)
                } else {
                    old(placeable).placeable_set().contains(q)
                }),
        decreases 81 - d,
    {
        let dx: i64 = (d / 9) as i64 - 4;
        let dy: i64 = (d % 9) as i64 - 4;
        let qx = demolished_pos.x as i64 + dx;
        let qy = demolished_pos.y as i64 + dy;
        if qx >= 0 && qx < grid.width as i64 && qy >= 0 && qy < grid.height as i64 {
            let q = TilePos { x: qx as u32, y: qy as u32 };
            if grid.texture(&q) < FIRST_PLACED_TEXTURE_INDEX {
                let should = is_within_range_of_placed_tile(&q, spatial);
                if should {
                    placeable.mark_placeable(q);
                } else {
                    placeable.unmark_placeable(&q);
                }
            }
        }
        d = d + 1;
        proof {
            assert forall|q: TilePos|
                within_chebyshev(q, *demolished_pos, 4) implies 0 <= window_order(
                q,
                *demolished_pos,
            ) < 81 by {}
        }
    }
}

/// Demolish the structure on `pos` if one is there and it is not the last
/// structure on the map.  The tile reverts to placeable ground while
/// another building is within the expansion radius, and to bare ground
/// (leaving the placeable set) otherwise.  A demolition event is produced
/// when the texture encodes a known category.  Callers follow up with
/// `incremental_update_placeable_area`, as the click handler does.
pub fn demolish_tile(
    grid: &mut TileGrid,
    placeable: &mut PlaceableMap,
    spatial: &SpatialGrid,
    pos: &TilePos,
) -> (r: Option<BuildingDemolished>)
    requires
        old(grid).wf(),
        old(placeable).wf(),
        spatial.wf(),
    ensures
        final(grid).wf(),
        final(placeable).wf(),
        final(grid).width == old(grid).width,
        final(grid).height == old(grid).height,
        ({
            let can = old(grid).spec_in_bounds(*pos) && old(grid).spec_texture(*pos)
                >= FIRST_PLACED_TEXTURE_INDEX as int && spec_placed_count(old(grid).textures@) > 1;
            let keep = exists|p: TilePos|
                #[trigger] spatial.all_buildings.pos_set().contains(p) && p != *pos
                    && within_chebyshev(p, *pos, PLACEABLE_EXPANSION_RADIUS as int);
            if can {
                &&& final(grid).textures@ == old(grid).textures@.update(
                    old(grid).index_of(*pos),
                    if keep {
                        PLACEABLE_TEXTURE_INDEX
                    } else {
                        GROUND_TEXTURE_INDEX
                    },
                )
                &&& final(placeable).placeable_set() == if keep {
                    old(placeable).placeable_set()
                } else {
                    old(placeable).placeable_set().remove(*pos)
                }
                &&& r == match crate::budget::spec_from_texture_index(
                    old(grid).spec_texture(*pos),
                ) {
                    Some(bt) => Some(BuildingDemolished { building_type: bt, tile_pos: *pos }),
                    None => None::<BuildingDemolished>,
                }
            } else {
                &&& *final(grid) == *old(grid)
                &&& *final(placeable) == *old(placeable)
                &&& r is None
            }
        }),
{
    if !grid.in_bounds(pos) {
        return None;
    }
    let current_texture = grid.texture(pos);
    if current_texture < FIRST_PLACED_TEXTURE_INDEX {
        return None;
    }
    let placed_tile_count = count_placed_tiles(grid);
    proof {
        lemma_placed_count_nonneg(grid.textures@);
    }
    if placed_tile_count <= 1 {
        return None;
    }
    let should_be_placeable = is_within_range_of_placed_tile(pos, spatial);
    if should_be_placeable {
        grid.set_texture(pos, PLACEABLE_TEXTURE_INDEX);
    } else {
        grid.set_texture(pos, GROUND_TEXTURE_INDEX);
        placeable.unmark_placeable(pos);
    }
    proof {
        if should_be_placeable {
            assert(final(placeable).placeable_set() =~= old(placeable).placeable_set());
        }
    }
    match BuildingType::from_texture_index(current_texture) {
        Some(building_type) => Some(BuildingDemolished { building_type, tile_pos: *pos }),
        None => None,
    }
}

/// The placed-structure count of a texture sequence is never negative.
proof fn lemma_placed_count_nonneg(s: Seq<u32>)
    ensures
        spec_placed_count(s) >= 0,
    decreases s.len(),
{
    if s.len() > 0 {
        lemma_placed_count_nonneg(s.drop_last());
    }
}

} // verus!
