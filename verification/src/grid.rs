//! The tile grid: materials, tiles, and the mutable tile storage that the
//! generator writes into.
//!
//! The storage itself is the engine's hash map; its contents are exposed to
//! specifications as a [`Map`] from positions to tiles through
//! [`store_contents`], and every operation of [`Grid`] is specified against
//! that map.

use vstd::prelude::*;

use crate::position::min_max_aabb_from_rect;
use crate::position::Position;

verus! {

/// Coordinate bound for tile positions: grid operations that step to a
/// neighboring cell or walk a box need room for the arithmetic to stay
/// within `i32`.
pub const GRID_LIMIT: i32 = 1_000_000_000;

/// Whether a position lies within the coordinate bound of the grid.
pub open spec fn pos_bounded(p: Position) -> bool {
    -GRID_LIMIT <= p.x <= GRID_LIMIT && -GRID_LIMIT <= p.y <= GRID_LIMIT
}

/// Whether every tile of a grid lies within the coordinate bound.
pub open spec fn grid_bounded(g: Map<Position, Tile>) -> bool {
    forall|p: Position| g.contains_key(p) ==> pos_bounded(p)
}

/// Behavioral flags of a material.
#[derive(Clone, Copy, PartialEq, Eq, Structural, Hash, Debug)]
pub struct TileFlags {
    pub bits: u16,
}

impl TileFlags {
    /// Flags of a material that can be walked through.
    pub fn passthrough() -> (r: TileFlags)
        ensures
            r.bits == 0,
    {
        TileFlags { bits: 0 }
    }

    /// Flags of a solid material.
    pub fn solid() -> (r: TileFlags)
        ensures
            r.bits == 1,
    {
        TileFlags { bits: 1 }
    }
}

/// A tile material: an immutable descriptor compared by its content.
#[derive(PartialEq, Eq, Debug)]
pub struct Material {
    pub display_name: String,
    pub resource_name: String,
    pub flags: TileFlags,
}

/// Equality of materials, the comparison the wall scan uses to recognize
/// floor tiles.
pub open spec fn mat_eq(a: Material, b: Material) -> bool {
    a.display_name@ == b.display_name@ && a.resource_name@ == b.resource_name@ && a.flags
        == b.flags
}

/// A shared material descriptor handed to the grid and the generator.
pub type MaterialHandle = Material;

impl Material {
    pub fn new(display_name: String, resource_name: String, flags: TileFlags) -> (r:
        MaterialHandle)
        ensures
            r == (Material { display_name, resource_name, flags }),
    {
        Material { display_name, resource_name, flags }
    }

    /// Whether two materials are the same descriptor.
    pub fn same(&self, other: &Material) -> (r: bool)
        ensures
            r == mat_eq(*self, *other),
    {
        self.display_name == other.display_name && self.resource_name == other.resource_name
            && self.flags.bits == other.flags.bits
    }
}

impl Clone for Material {
    fn clone(&self) -> (r: Material)
        ensures
            r == *self,
    {
        Material {
            display_name: self.display_name.clone(),
            resource_name: self.resource_name.clone(),
            flags: self.flags,
        }
    }
}

/// An opaque reference to an actor standing on a tile; actor storage itself
/// lives outside this crate.
#[derive(Clone, Copy, PartialEq, Eq, Structural, Debug)]
pub struct ActorHandle {
    pub id: u64,
}

/// One grid cell: its position, its material, and an optional occupant.
#[derive(PartialEq, Eq, Debug)]
pub struct Tile {
    pub position: Position,
    pub material: MaterialHandle,
    pub occupier: Option<ActorHandle>,
}

impl Tile {
    pub fn is_occupied(&self) -> (r: bool)
        ensures
            r == self.occupier is Some,
    {
        self.occupier.is_some()
    }

    pub fn flags(&self) -> (r: TileFlags)
        ensures
            r == self.material.flags,
    {
        self.material.flags
    }
}

impl Clone for Tile {
    fn clone(&self) -> (r: Tile)
        ensures
            r == *self,
    {
        Tile {
            position: self.position,
            material: self.material.clone(),
            occupier: self.occupier,
        }
    }
}

/// The backing tile storage: the engine's hash map from positions to tiles.
/// Specifications see only the abstract contents [`store_contents`].
#[verifier::external_body]
pub struct TileStore {
    map: hashbrown::HashMap<Position, Tile>,
}

/// The contents of a [`TileStore`] as a map from positions to tiles.
pub uninterp spec fn store_contents(s: TileStore) -> Map<Position, Tile>;

/// The contents of a grid with no tiles.
pub open spec fn empty_grid() -> Map<Position, Tile> {
    Map::empty()
}

impl TileStore {
    /// Relies on `hashbrown::HashMap::new`: a freshly created map is empty.
    #[verifier::external_body]
    fn new() -> (r: TileStore)
        ensures
            store_contents(r) == empty_grid(),
    {
        TileStore { map: hashbrown::HashMap::new() }
    }

    /// Relies on `hashbrown::HashMap::insert`: after the call the key maps to
    /// the value, nothing else changes, and the displaced value, if any, is
    /// returned.
    #[verifier::external_body]
    fn insert(&mut self, p: Position, t: Tile) -> (prev: Option<Tile>)
        ensures
            store_contents(*final(self)) == store_contents(*old(self)).insert(p, t),
            match prev {
                Some(pt) => store_contents(*old(self)).contains_key(p) && pt == store_contents(
                    *old(self),
                )[p],
                None => !store_contents(*old(self)).contains_key(p),
            },
    {
        self.map.insert(p, t)
    }

    /// Relies on `hashbrown::HashMap::get`: returns the value the key maps
    /// to, if any.
    #[verifier::external_body]
    fn get(&self, p: &Position) -> (r: Option<&Tile>)
        ensures
            match r {
                Some(t) => store_contents(*self).contains_key(*p) && *t == store_contents(*self)[*p],
                None => !store_contents(*self).contains_key(*p),
            },
    {
        self.map.get(p)
    }

    /// Relies on `hashbrown::HashMap::iter`: yields every entry of the map
    /// exactly once, in an arbitrary order.
    #[verifier::external_body]
    fn entries(&self) -> (r: Vec<(Position, Tile)>)
        ensures
            forall|i: int, j: int| 0 <= i < j < r@.len() ==> r@[i].0 != r@[j].0,
            forall|i: int|
                0 <= i < r@.len() ==> store_contents(*self).contains_key((#[trigger] r@[i]).0)
                    && r@[i].1 == store_contents(*self)[r@[i].0],
            forall|p: Position|
                store_contents(*self).contains_key(p) ==> exists|i: int|
                    0 <= i < r@.len() && (#[trigger] r@[i]).0 == p,
    {
        self.map.iter().map(|(p, t)| (*p, t.clone())).collect()
    }
}

/// The tile value a single write produces: the material at its position,
/// with no occupant.
pub open spec fn written_tile(p: Position, m: Material) -> Tile {
    Tile { position: p, material: m, occupier: None }
}

/// Whether a position lies in the half-open box `[from, to)`.
pub open spec fn in_box(p: Position, from: Position, to: Position) -> bool {
    from.x <= p.x < to.x && from.y <= p.y < to.y
}

/// The tiles a box fill writes: every position of `[from, to)` mapped to the
/// fill material.
pub open spec fn box_map(from: Position, to: Position, m: Material) -> Map<Position, Tile> {
    Map::new(|p: Position| in_box(p, from, to), |p: Position| written_tile(p, m))
}

/// The grid of tiles the generator sculpts. Its abstract value, written
/// `grid@`, is a map from positions to tiles.
pub struct Grid {
    pub size: Position,
    pub store: TileStore,
}

impl View for Grid {
    type V = Map<Position, Tile>;

    open spec fn view(&self) -> Map<Position, Tile> {
        store_contents(self.store)
    }
}

impl Grid {
    pub fn new(width: u16, height: u16) -> (r: Grid)
        ensures
            r@ == empty_grid(),
            r.size.x == width as i32,
            r.size.y == height as i32,
    {
        Grid { size: Position { x: width as i32, y: height as i32 }, store: TileStore::new() }
    }

    /// The tile at a position, if any.
    pub fn tile_at(&self, position: Position) -> (r: Option<&Tile>)
        ensures
            match r {
                Some(t) => self@.contains_key(position) && *t == self@[position],
                None => !self@.contains_key(position),
            },
    {
        self.store.get(&position)
    }

    /// Write (or overwrite) a single tile, returning the displaced tile, if
    /// any, and a reference to the tile just written.
    pub fn make_tile_at(&mut self, position: Position, material: MaterialHandle) -> (r: (
        Option<Tile>,
        &Tile,
    ))
        ensures
            final(self)@ == old(self)@.insert(position, written_tile(position, material)),
            final(self).size == old(self).size,
            match r.0 {
                Some(pt) => old(self)@.contains_key(position) && pt == old(self)@[position],
                None => !old(self)@.contains_key(position),
            },
            *r.1 == written_tile(position, material),
    {
        let displaced = self.store.insert(
            position,
            Tile { position, material, occupier: None },
        );
        match self.store.get(&position) {
            Some(t) => (displaced, t),
            None => vstd::pervasive::unreached(),
        }
    }

    /// Fill the axis-aligned box between the two corners (normalized per
    /// axis, max corner exclusive) with the given material.
    pub fn make_tile_box(&mut self, from: Position, to: Position, fill: MaterialHandle)
        requires
            pos_bounded(from),
            pos_bounded(to),
        ensures
            ({
                let (f, t) = min_max_corners(from, to);
                final(self)@ == old(self)@.union_prefer_right(box_map(f, t, fill))
            }),
            final(self).size == old(self).size,
    {
        let (nf, nt) = min_max_aabb_from_rect(from, to);
        let width = nt.x - nf.x;
        let height = nt.y - nf.y;

        proof {
            assert(nf == min_max_corners(from, to).0);
            assert(nt == min_max_corners(from, to).1);
            assert(old(self)@.union_prefer_right(row_prefix_map(nf, nt, fill, nf.y as int)) =~= old(
                self,
            )@);
        }

        let mut i: i32 = 0;
        while i < height
            invariant
                0 <= i <= height,
                width == nt.x - nf.x,
                height == nt.y - nf.y,
                pos_bounded(from),
                pos_bounded(to),
                nf.x <= nt.x,
                nf.y <= nt.y,
                self@ == old(self)@.union_prefer_right(
                    row_prefix_map(nf, nt, fill, nf.y + i),
                ),
                self.size == old(self).size,
            decreases height - i,
        {
            let y = i + nf.y;
            let mut j: i32 = 0;
            proof {
                assert(row_prefix_map(nf, nt, fill, nf.y + i) =~= cell_prefix_map(
                    nf,
                    nt,
                    fill,
                    nf.y + i,
                    nf.x as int,
                ));
            }
            while j < width
                invariant
                    0 <= j <= width,
                    0 <= i < height,
                    width == nt.x - nf.x,
                    height == nt.y - nf.y,
                    pos_bounded(from),
                    pos_bounded(to),
                    nf.x <= nt.x,
                    nf.y <= nt.y,
                    y == nf.y + i,
                    self@ == old(self)@.union_prefer_right(
                        cell_prefix_map(nf, nt, fill, nf.y + i, nf.x + j),
                    ),
                    self.size == old(self).size,
                decreases width - j,
            {
                let x = j + nf.x;
                let p = Position { x, y };
                let fill_clone = fill.clone();
                self.make_tile_at(p, fill_clone);
                proof {
                    assert(old(self)@.union_prefer_right(
                        cell_prefix_map(nf, nt, fill, nf.y + i, nf.x + j),
                    ).insert(p, written_tile(p, fill)) =~= old(self)@.union_prefer_right(
                        cell_prefix_map(nf, nt, fill, nf.y + i, nf.x + j + 1),
                    ));
                }
                j = j + 1;
            }
            proof {
                assert(cell_prefix_map(nf, nt, fill, nf.y + i, nf.x + width) =~=
                    row_prefix_map(nf, nt, fill, nf.y + i + 1));
            }
            i = i + 1;
        }
        proof {
            assert(row_prefix_map(nf, nt, fill, nf.y + height) =~= box_map(nf, nt, fill));
        }
    }

    /// Fill the axis-aligned box between the two corners with `fill` and
    /// surround it with a one-tile ring of `border`.
    pub fn make_tile_bordered_box(
        &mut self,
        from: Position,
        to: Position,
        fill: MaterialHandle,
        border: MaterialHandle,
    )
        requires
            pos_bounded(from),
            pos_bounded(to),
        ensures
            ({
                let (f, t) = min_max_corners(from, to);
                final(self)@ == old(self)@.union_prefer_right(box_map(f, t, fill))
                    .union_prefer_right(border_map(f, t, border))
            }),
            final(self).size == old(self).size,
    {
        let (nf, nt) = min_max_aabb_from_rect(from, to);
        let width = nt.x - nf.x;
        let height = nt.y - nf.y;

        self.make_tile_box(from, to, fill);
        let ghost boxed = self@;

        proof {
            assert(boxed.union_prefer_right(border_cols_map(nf, nt, border, nf.y - 1)) =~= boxed);
        }
        let mut i: i32 = -1;
        while i < height + 1
            invariant
                -1 <= i <= height + 1,
                width == nt.x - nf.x,
                height == nt.y - nf.y,
                pos_bounded(nf),
                pos_bounded(nt),
                nf.x <= nt.x,
                nf.y <= nt.y,
                self@ == boxed.union_prefer_right(border_cols_map(nf, nt, border, nf.y + i)),
                self.size == old(self).size,
            decreases height + 1 - i,
        {
            let y = i + nf.y;
            let ghost mid = self@;
            self.make_tile_at(Position { x: nf.x - 1, y }, border.clone());
            self.make_tile_at(Position { x: nf.x + width, y }, border.clone());
            proof {
                assert(mid.insert(
                    Position { x: (nf.x - 1) as i32, y },
                    written_tile(Position { x: (nf.x - 1) as i32, y }, border),
                ).insert(Position { x: nt.x, y }, written_tile(Position { x: nt.x, y }, border))
                    =~= boxed.union_prefer_right(border_cols_map(nf, nt, border, nf.y + i + 1)));
            }
            i = i + 1;
        }
        let ghost cols = self@;
        proof {
            assert(cols.union_prefer_right(border_rows_map(nf, nt, border, nf.x as int)) =~= cols);
        }
        let mut j: i32 = 0;
        while j < width
            invariant
                0 <= j <= width || (width < 0 && j == 0),
                width == nt.x - nf.x,
                height == nt.y - nf.y,
                pos_bounded(nf),
                pos_bounded(nt),
                nf.x <= nt.x,
                nf.y <= nt.y,
                self@ == cols.union_prefer_right(border_rows_map(nf, nt, border, nf.x + j)),
                self.size == old(self).size,
            decreases width - j,
        {
            let x = j + nf.x;
            let ghost mid = self@;
            self.make_tile_at(Position { x, y: nf.y - 1 }, border.clone());
            self.make_tile_at(Position { x, y: nf.y + height }, border.clone());
            proof {
                assert(mid.insert(
                    Position { x, y: (nf.y - 1) as i32 },
                    written_tile(Position { x, y: (nf.y - 1) as i32 }, border),
                ).insert(Position { x, y: nt.y }, written_tile(Position { x, y: nt.y }, border))
                    =~= cols.union_prefer_right(border_rows_map(nf, nt, border, nf.x + j + 1)));
            }
            j = j + 1;
        }
        proof {
            assert(cols.union_prefer_right(border_rows_map(nf, nt, border, nf.x + width)) =~= (
            boxed.union_prefer_right(border_cols_map(nf, nt, border, nf.y + height + 1))
                .union_prefer_right(border_rows_map(nf, nt, border, nt.x as int))));
            assert(boxed.union_prefer_right(border_cols_map(nf, nt, border, nf.y + height + 1))
                .union_prefer_right(border_rows_map(nf, nt, border, nt.x as int)) =~= boxed
                .union_prefer_right(border_map(nf, nt, border)));
        }
    }

    /// The 4 grid-adjacent positions of `at` and whatever tile each holds.
    pub fn tile_neumann_neighbours(&self, at: Position) -> (r: Vec<(Position, Option<&Tile>)>)
        requires
            pos_bounded(at),
        ensures
            r@.len() == 4,
            forall|k: int|
                0 <= k < 4 ==> (#[trigger] r@[k]).0.x == at.x + neumann_offset(k).x && r@[k].0.y
                    == at.y + neumann_offset(k).y,
            forall|k: int|
                0 <= k < 4 ==> match (#[trigger] r@[k]).1 {
                    Some(t) => self@.contains_key(r@[k].0) && *t == self@[r@[k].0],
                    None => !self@.contains_key(r@[k].0),
                },
    {
        let mut r: Vec<(Position, Option<&Tile>)> = Vec::new();
        let p0 = Position { x: at.x, y: at.y + 1 };
        let p1 = Position { x: at.x + 1, y: at.y };
        let p2 = Position { x: at.x, y: at.y - 1 };
        let p3 = Position { x: at.x - 1, y: at.y };
        r.push((p0, self.store.get(&p0)));
        r.push((p1, self.store.get(&p1)));
        r.push((p2, self.store.get(&p2)));
        r.push((p3, self.store.get(&p3)));
        r
    }

    /// The 8 Moore-adjacent positions of `at` (diagonals included) and
    /// whatever tile each holds.
    pub fn tile_moore_neighbours(&self, at: Position) -> (r: Vec<(Position, Option<&Tile>)>)
        requires
            pos_bounded(at),
        ensures
            r@.len() == 8,
            forall|k: int|
                0 <= k < 8 ==> (#[trigger] r@[k]).0.x == at.x + moore_offset(k).x && r@[k].0.y
                    == at.y + moore_offset(k).y,
            forall|k: int|
                0 <= k < 8 ==> match (#[trigger] r@[k]).1 {
                    Some(t) => self@.contains_key(r@[k].0) && *t == self@[r@[k].0],
                    None => !self@.contains_key(r@[k].0),
                },
    {
        let mut r: Vec<(Position, Option<&Tile>)> = Vec::new();
        let p0 = Position { x: at.x, y: at.y + 1 };
        let p1 = Position { x: at.x + 1, y: at.y + 1 };
        let p2 = Position { x: at.x + 1, y: at.y };
        let p3 = Position { x: at.x + 1, y: at.y - 1 };
        let p4 = Position { x: at.x, y: at.y - 1 };
        let p5 = Position { x: at.x - 1, y: at.y - 1 };
        let p6 = Position { x: at.x - 1, y: at.y };
        let p7 = Position { x: at.x - 1, y: at.y + 1 };
        r.push((p0, self.store.get(&p0)));
        r.push((p1, self.store.get(&p1)));
        r.push((p2, self.store.get(&p2)));
        r.push((p3, self.store.get(&p3)));
        r.push((p4, self.store.get(&p4)));
        r.push((p5, self.store.get(&p5)));
        r.push((p6, self.store.get(&p6)));
        r.push((p7, self.store.get(&p7)));
        r
    }

    /// Every tile currently placed, as (position, tile) pairs in an
    /// arbitrary order: one pair per placed tile.
    pub fn existing_tiles(&self) -> (r: Vec<(Position, Tile)>)
        ensures
            forall|i: int, j: int| 0 <= i < j < r@.len() ==> r@[i].0 != r@[j].0,
            forall|i: int|
                0 <= i < r@.len() ==> self@.contains_key((#[trigger] r@[i]).0) && r@[i].1
                    == self@[r@[i].0],
            forall|p: Position|
                self@.contains_key(p) ==> exists|i: int| 0 <= i < r@.len() && (#[trigger] r@[i]).0
                    == p,
    {
        self.store.entries()
    }
}

/// The offsets of the 4 grid-adjacent (von Neumann) neighbors, in query
/// order.
pub open spec fn neumann_offset(k: int) -> Position {
    if k == 0 {
        Position { x: 0, y: 1 }
    } else if k == 1 {
        Position { x: 1, y: 0 }
    } else if k == 2 {
        Position { x: 0, y: -1i32 }
    } else {
        Position { x: -1i32, y: 0 }
    }
}

/// The offsets of the 8 Moore neighbors (diagonals included), in query
/// order.
pub open spec fn moore_offset(k: int) -> Position {
    if k == 0 {
        Position { x: 0, y: 1 }
    } else if k == 1 {
        Position { x: 1, y: 1 }
    } else if k == 2 {
        Position { x: 1, y: 0 }
    } else if k == 3 {
        Position { x: 1, y: -1i32 }
    } else if k == 4 {
        Position { x: 0, y: -1i32 }
    } else if k == 5 {
        Position { x: -1i32, y: -1i32 }
    } else if k == 6 {
        Position { x: -1i32, y: 0 }
    } else {
        Position { x: -1i32, y: 1 }
    }
}

/// Whether `q` is one of the 8 Moore neighbors of `p`.
pub open spec fn moore_adj(p: Position, q: Position) -> bool {
    p != q && -1 <= q.x - p.x <= 1 && -1 <= q.y - p.y <= 1
}

/// Every Moore neighbor of `p` is reached by one of the 8 offsets.
pub proof fn lemma_moore_adj_covered(p: Position, q: Position)
    requires
        moore_adj(p, q),
    ensures
        exists|k: int| 0 <= k < 8 && q.x == p.x + moore_offset(k).x && q.y == p.y + moore_offset(
            k,
        ).y,
{
    let dx = q.x - p.x;
    let dy = q.y - p.y;
    if dx == 0 && dy == 1 {
        assert(q.x == p.x + moore_offset(0).x && q.y == p.y + moore_offset(0).y);
    } else if dx == 1 && dy == 1 {
        assert(q.x == p.x + moore_offset(1).x && q.y == p.y + moore_offset(1).y);
    } else if dx == 1 && dy == 0 {
        assert(q.x == p.x + moore_offset(2).x && q.y == p.y + moore_offset(2).y);
    } else if dx == 1 && dy == -1 {
        assert(q.x == p.x + moore_offset(3).x && q.y == p.y + moore_offset(3).y);
    } else if dx == 0 && dy == -1 {
        assert(q.x == p.x + moore_offset(4).x && q.y == p.y + moore_offset(4).y);
    } else if dx == -1 && dy == -1 {
        assert(q.x == p.x + moore_offset(5).x && q.y == p.y + moore_offset(5).y);
    } else if dx == -1 && dy == 0 {
        assert(q.x == p.x + moore_offset(6).x && q.y == p.y + moore_offset(6).y);
    } else {
        assert(dx == -1 && dy == 1);
        assert(q.x == p.x + moore_offset(7).x && q.y == p.y + moore_offset(7).y);
    }
}

/// The normalized (min, max) corners of a box given by two arbitrary
/// corners, each axis ordered independently.
pub open spec fn min_max_corners(a: Position, b: Position) -> (Position, Position) {
    (
        Position {
            x: if a.x <= b.x {
                a.x
            } else {
                b.x
            },
            y: if a.y <= b.y {
                a.y
            } else {
                b.y
            },
        },
        Position {
            x: if a.x <= b.x {
                b.x
            } else {
                a.x
            },
            y: if a.y <= b.y {
                b.y
            } else {
                a.y
            },
        },
    )
}

/// Whether `p` lies on the one-tile border ring around the box `[f, t)`:
/// the two full columns just left and just right of the box, or the two
/// rows just below and just above it.
pub open spec fn in_border(p: Position, f: Position, t: Position) -> bool {
    ((p.x == f.x - 1 || p.x == t.x) && f.y - 1 <= p.y <= t.y) || ((p.y == f.y - 1 || p.y == t.y)
        && f.x <= p.x < t.x)
}

/// The tiles the border ring around the box `[f, t)` writes.
pub open spec fn border_map(f: Position, t: Position, m: Material) -> Map<Position, Tile> {
    Map::new(|p: Position| in_border(p, f, t), |p: Position| written_tile(p, m))
}

/// The part of the border's two columns written below row `y_end`.
pub open spec fn border_cols_map(f: Position, t: Position, m: Material, y_end: int) -> Map<
    Position,
    Tile,
> {
    Map::new(
        |p: Position| (p.x == f.x - 1 || p.x == t.x) && f.y - 1 <= p.y <= t.y && p.y < y_end,
        |p: Position| written_tile(p, m),
    )
}

/// The part of the border's two rows written left of column `x_end`.
pub open spec fn border_rows_map(f: Position, t: Position, m: Material, x_end: int) -> Map<
    Position,
    Tile,
> {
    Map::new(
        |p: Position| (p.y == f.y - 1 || p.y == t.y) && f.x <= p.x < t.x && p.x < x_end,
        |p: Position| written_tile(p, m),
    )
}

/// The part of a box fill committed after all rows below `y_end` are done.
pub open spec fn row_prefix_map(from: Position, to: Position, m: Material, y_end: int) -> Map<
    Position,
    Tile,
> {
    Map::new(
        |p: Position| from.x <= p.x < to.x && from.y <= p.y && p.y < y_end && p.y < to.y,
        |p: Position| written_tile(p, m),
    )
}

/// The part of a box fill committed while row `y` is underway: all rows
/// below `y`, plus the cells of row `y` left of `x_end`.
pub open spec fn cell_prefix_map(from: Position, to: Position, m: Material, y: int, x_end: int)
    -> Map<Position, Tile> {
    Map::new(
        |p: Position| from.x <= p.x < to.x && from.y <= p.y && p.y < to.y && (p.y < y || (p.y == y
            && p.x < x_end)),
        |p: Position| written_tile(p, m),
    )
}

} // verus!
