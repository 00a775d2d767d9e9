//! Rasterization: corridors and rooms become floor tiles, and a deferred
//! two-phase pass surrounds every floor region with wall tiles.
//!
//! The painter's effect on the grid is a single map union: positions covered
//! by a room or a corridor all receive the floor material, so the write
//! order does not matter and repainting changes nothing. The wall pass first
//! scans every tile, collecting each empty Moore neighbor of a floor tile,
//! and only then commits the wall writes: writing during the scan would
//! change the neighbor set being examined.

use vstd::prelude::*;

use crate::corridor::seg_bounded;
use crate::graph::rects_bounded;
use crate::grid::box_map;
use crate::grid::grid_bounded;
use crate::grid::in_box;
use crate::grid::lemma_moore_adj_covered;
use crate::grid::mat_eq;
use crate::grid::min_max_corners;
use crate::grid::moore_adj;
use crate::grid::moore_offset;
use crate::grid::pos_bounded;
use crate::grid::written_tile;
use crate::grid::Grid;
use crate::grid::Material;
use crate::grid::MaterialHandle;
use crate::grid::Tile;
use crate::position::Position;
use crate::rect::Rectangle;

verus! {

/// Whether painting a corridor segment covers position `p`: the box between
/// the segment's start shifted by `(1, 1)` and its end (corners normalized
/// per axis, max exclusive), plus the start cell itself.
pub open spec fn corr_covers(seg: (Position, Position), p: Position) -> bool {
    let shifted = Position { x: (seg.0.x + 1) as i32, y: (seg.0.y + 1) as i32 };
    let (bmin, bmax) = min_max_corners(shifted, seg.1);
    in_box(p, bmin, bmax) || p == seg.0
}

/// Whether `p` is covered by one of the first `ci` corridor segments or one
/// of the first `ri` rooms.
pub open spec fn painted(
    p: Position,
    corrs: Seq<(Position, Position)>,
    rooms: Seq<Rectangle>,
    ci: int,
    ri: int,
) -> bool {
    (exists|i: int| 0 <= i < ci && corr_covers(#[trigger] corrs[i], p)) || (exists|j: int|
        0 <= j < ri && in_box(p, (#[trigger] rooms[j]).min, rooms[j].max))
}

/// The floor tiles written by the first `ci` corridor segments and the
/// first `ri` rooms.
pub open spec fn floor_map_upto(
    corrs: Seq<(Position, Position)>,
    rooms: Seq<Rectangle>,
    ci: int,
    ri: int,
    m: Material,
) -> Map<Position, Tile> {
    Map::new(|p: Position| painted(p, corrs, rooms, ci, ri), |p: Position| written_tile(p, m))
}

/// The grid after the tile painter: the old tiles, overwritten with a floor
/// tile at every position a corridor or a room covers.
pub open spec fn paint_model(
    g: Map<Position, Tile>,
    corrs: Seq<(Position, Position)>,
    rooms: Seq<Rectangle>,
    m: Material,
) -> Map<Position, Tile> {
    g.union_prefer_right(floor_map_upto(corrs, rooms, corrs.len() as int, rooms.len() as int, m))
}

/// Whether a tile is a floor tile: its material is the floor material.
pub open spec fn is_floor(t: Tile, f: Material) -> bool {
    mat_eq(t.material, f)
}

/// Whether the wall pass fills position `q`: no tile is there, and some
/// floor tile sits on one of its 8 Moore-adjacent cells.
pub open spec fn wall_pos(g: Map<Position, Tile>, f: Material, q: Position) -> bool {
    !g.contains_key(q) && exists|p: Position|
        #[trigger] g.contains_key(p) && is_floor(g[p], f) && moore_adj(p, q)
}

/// The wall tiles the wall pass writes.
pub open spec fn wall_map(g: Map<Position, Tile>, f: Material, w: Material) -> Map<Position, Tile> {
    Map::new(|q: Position| wall_pos(g, f, q), |q: Position| written_tile(q, w))
}

/// The grid after the wall pass: the old tiles, plus a wall tile at every
/// empty position Moore-adjacent to a floor tile.
pub open spec fn wall_model(g: Map<Position, Tile>, f: Material, w: Material) -> Map<
    Position,
    Tile,
> {
    g.union_prefer_right(wall_map(g, f, w))
}

/// Materialize all corridor segments and all rooms as floor tiles: for each
/// segment, fill the box from its start shifted by `(1, 1)` to its end and
/// write the start cell; for each room, fill its extent.
pub fn paint_tiles(
    grid: &mut Grid,
    corridors: &Vec<(Position, Position)>,
    rooms: &Vec<Rectangle>,
    floor: &MaterialHandle,
)
    requires
        forall|i: int| 0 <= i < corridors@.len() ==> seg_bounded(#[trigger] corridors@[i]),
        rects_bounded(rooms@),
    ensures
        final(grid)@ == paint_model(old(grid)@, corridors@, rooms@, *floor),
        final(grid).size == old(grid).size,
{
    let mut ci: usize = 0;
    proof {
        assert(old(grid)@.union_prefer_right(floor_map_upto(corridors@, rooms@, 0, 0, *floor))
            =~= old(grid)@);
    }
    while ci < corridors.len()
        invariant
            0 <= ci <= corridors@.len(),
            forall|i: int| 0 <= i < corridors@.len() ==> seg_bounded(#[trigger] corridors@[i]),
            rects_bounded(rooms@),
            grid@ == old(grid)@.union_prefer_right(
                floor_map_upto(corridors@, rooms@, ci as int, 0, *floor),
            ),
            grid.size == old(grid).size,
        decreases corridors@.len() - ci,
    {
        let seg = corridors[ci];
        let (f, t) = seg;
        let shifted = f.plus(Position::new(1, 1));
        let ghost mid0 = grid@;
        grid.make_tile_box(shifted, t, floor.clone());
        grid.make_tile_at(f, floor.clone());
        proof {
            let (bmin, bmax) = min_max_corners(shifted, t);
            assert(mid0.union_prefer_right(box_map(bmin, bmax, *floor)).insert(
                f,
                written_tile(f, *floor),
            ) =~= old(grid)@.union_prefer_right(
                floor_map_upto(corridors@, rooms@, ci as int + 1, 0, *floor),
            ));
        }
        ci = ci + 1;
    }
    let mut ri: usize = 0;
    while ri < rooms.len()
        invariant
            0 <= ri <= rooms@.len(),
            rects_bounded(rooms@),
            grid@ == old(grid)@.union_prefer_right(
                floor_map_upto(corridors@, rooms@, corridors@.len() as int, ri as int, *floor),
            ),
            grid.size == old(grid).size,
        decreases rooms@.len() - ri,
    {
        let room = rooms[ri];
        let ghost mid0 = grid@;
        grid.make_tile_box(room.min(), room.max(), floor.clone());
        proof {
            let (bmin, bmax) = min_max_corners(room.min, room.max);
            assert(bmin == room.min && bmax == room.max);
            assert(mid0.union_prefer_right(box_map(room.min, room.max, *floor)) =~= old(
                grid,
            )@.union_prefer_right(
                floor_map_upto(
                    corridors@,
                    rooms@,
                    corridors@.len() as int,
                    ri as int + 1,
                    *floor,
                ),
            ));
        }
        ri = ri + 1;
    }
}

/// Painting leaves every tile within the coordinate bound when the inputs
/// are bounded.
pub proof fn lemma_paint_bounded(
    g: Map<Position, Tile>,
    corrs: Seq<(Position, Position)>,
    rooms: Seq<Rectangle>,
    m: Material,
)
    requires
        grid_bounded(g),
        forall|i: int| 0 <= i < corrs.len() ==> seg_bounded(#[trigger] corrs[i]),
        rects_bounded(rooms),
    ensures
        grid_bounded(paint_model(g, corrs, rooms, m)),
{
    let pm = paint_model(g, corrs, rooms, m);
    assert forall|p: Position| pm.contains_key(p) implies pos_bounded(p) by {
        if !g.contains_key(p) {
            assert(painted(p, corrs, rooms, corrs.len() as int, rooms.len() as int));
        }
    }
}

/// Painting is idempotent: running the tile painter a second time over the
/// same corridors and rooms leaves the grid unchanged.
pub proof fn lemma_paint_idempotent(
    g: Map<Position, Tile>,
    corrs: Seq<(Position, Position)>,
    rooms: Seq<Rectangle>,
    m: Material,
)
    ensures
        paint_model(paint_model(g, corrs, rooms, m), corrs, rooms, m) == paint_model(
            g,
            corrs,
            rooms,
            m,
        ),
{
    assert(paint_model(paint_model(g, corrs, rooms, m), corrs, rooms, m) =~= paint_model(
        g,
        corrs,
        rooms,
        m,
    ));
}

/// Every cell a room or a corridor covers is a floor tile in the finished
/// dungeon: painting writes it, and the wall pass never overwrites an
/// occupied cell.
pub proof fn lemma_painted_cells_are_floor(
    g: Map<Position, Tile>,
    corrs: Seq<(Position, Position)>,
    rooms: Seq<Rectangle>,
    f: Material,
    w: Material,
    p: Position,
)
    requires
        painted(p, corrs, rooms, corrs.len() as int, rooms.len() as int),
    ensures
        wall_model(paint_model(g, corrs, rooms, f), f, w).contains_key(p),
        wall_model(paint_model(g, corrs, rooms, f), f, w)[p] == written_tile(p, f),
{
    let g1 = paint_model(g, corrs, rooms, f);
    assert(floor_map_upto(corrs, rooms, corrs.len() as int, rooms.len() as int, f).contains_key(
        p,
    ));
    assert(g1[p] == written_tile(p, f));
    assert(!wall_map(g1, f, w).contains_key(p));
}

/// After the wall pass, every Moore neighbor of every floor tile holds a
/// tile: floors keep their neighbors, empty neighbors received a wall. The
/// wall material must differ from the floor material, else the freshly
/// written ring would itself consist of floor tiles with open neighbors.
pub proof fn lemma_wall_coverage(g: Map<Position, Tile>, f: Material, w: Material)
    requires
        !mat_eq(f, w),
    ensures
        forall|p: Position, q: Position|
            (#[trigger] wall_model(g, f, w).contains_key(p) && is_floor(wall_model(g, f, w)[p], f)
                && #[trigger] moore_adj(p, q)) ==> wall_model(g, f, w).contains_key(q),
{
    let m = wall_model(g, f, w);
    assert forall|p: Position, q: Position|
        (#[trigger] m.contains_key(p) && is_floor(m[p], f) && #[trigger] moore_adj(p, q)) implies m
        .contains_key(q) by {
        if g.contains_key(p) {
            if !g.contains_key(q) {
                assert(g.contains_key(p) && is_floor(g[p], f) && moore_adj(p, q));
                assert(wall_pos(g, f, q));
            }
        } else {
            assert(wall_pos(g, f, p));
            assert(m[p] == written_tile(p, w));
            assert(!is_floor(m[p], f));
        }
    }
}

/// Synthesize walls in two phases: scan every placed tile, recording each
/// empty Moore neighbor of a floor tile, then write a wall tile at every
/// recorded position. The deferred commit keeps the scan's view of the grid
/// fixed.
pub fn synthesize_walls(grid: &mut Grid, floor: &MaterialHandle, wall: &MaterialHandle)
    requires
        grid_bounded(old(grid)@),
    ensures
        final(grid)@ == wall_model(old(grid)@, *floor, *wall),
        final(grid).size == old(grid).size,
{
    let ghost g0 = grid@;
    let tiles = grid.existing_tiles();
    let mut walls: Vec<Position> = Vec::new();
    let mut i: usize = 0;
    while i < tiles.len()
        invariant
            0 <= i <= tiles@.len(),
            g0 == grid@,
            g0 == old(grid)@,
            grid_bounded(g0),
            forall|a: int, b: int| 0 <= a < b < tiles@.len() ==> tiles@[a].0 != tiles@[b].0,
            forall|k: int|
                0 <= k < tiles@.len() ==> g0.contains_key((#[trigger] tiles@[k]).0) && tiles@[k].1
                    == g0[tiles@[k].0],
            forall|p: Position|
                g0.contains_key(p) ==> exists|k: int|
                    0 <= k < tiles@.len() && (#[trigger] tiles@[k]).0 == p,
            forall|qi: int|
                0 <= qi < walls@.len() ==> wall_pos(g0, *floor, #[trigger] walls@[qi]),
            forall|k: int, q: Position|
                0 <= k < i && is_floor((#[trigger] tiles@[k]).1, *floor) && #[trigger] moore_adj(
                    tiles@[k].0,
                    q,
                ) && !g0.contains_key(q) ==> walls@.contains(q),
        decreases tiles@.len() - i,
    {
        let p = tiles[i].0;
        let is_fl = tiles[i].1.material.same(floor);
        if is_fl {
            let nbrs = grid.tile_moore_neighbours(p);
            let mut k: usize = 0;
            while k < 8
                invariant
                    0 <= k <= 8,
                    0 <= i < tiles@.len(),
                    g0 == grid@,
                    grid_bounded(g0),
                    p == tiles@[i as int].0,
                    is_floor(tiles@[i as int].1, *floor),
                    g0.contains_key(p),
                    g0[p] == tiles@[i as int].1,
                    nbrs@.len() == 8,
                    forall|kk: int|
                        0 <= kk < 8 ==> (#[trigger] nbrs@[kk]).0.x == p.x + moore_offset(kk).x
                            && nbrs@[kk].0.y == p.y + moore_offset(kk).y,
                    forall|kk: int|
                        0 <= kk < 8 ==> match (#[trigger] nbrs@[kk]).1 {
                            Some(t) => g0.contains_key(nbrs@[kk].0) && *t == g0[nbrs@[kk].0],
                            None => !g0.contains_key(nbrs@[kk].0),
                        },
                    forall|qi: int|
                        0 <= qi < walls@.len() ==> wall_pos(g0, *floor, #[trigger] walls@[qi]),
                    forall|kk: int, q: Position|
                        0 <= kk < i && is_floor((#[trigger] tiles@[kk]).1, *floor)
                            && #[trigger] moore_adj(tiles@[kk].0, q) && !g0.contains_key(q)
                            ==> walls@.contains(q),
                    forall|kk: int|
                        0 <= kk < k && !g0.contains_key((#[trigger] nbrs@[kk]).0)
                            ==> walls@.contains(nbrs@[kk].0),
                decreases 8 - k,
            {
                let q = nbrs[k].0;
                match nbrs[k].1 {
                    Some(_) => {},
                    None => {
                        let ghost before = walls@;
                        walls.push(q);
                        proof {
                            assert(-1 <= moore_offset(k as int).x <= 1 && -1 <= moore_offset(
                                k as int,
                            ).y <= 1 && !(moore_offset(k as int).x == 0 && moore_offset(k as int).y
                                == 0));
                            assert(moore_adj(p, q));
                            assert(g0.contains_key(p) && is_floor(g0[p], *floor) && moore_adj(
                                p,
                                q,
                            ));
                            assert(wall_pos(g0, *floor, q));
                            assert(walls@[before.len() as int] == q);
                            assert forall|x: Position| before.contains(x) implies walls@.contains(
                                x,
                            ) by {
                                let idx = choose|idx: int|
                                    0 <= idx < before.len() && before[idx] == x;
                                assert(walls@[idx] == x);
                            }
                            assert(walls@.contains(q));
                        }
                    },
                }
                k = k + 1;
            }
            proof {
                assert forall|q: Position|
                    moore_adj(p, q) && !g0.contains_key(q) implies walls@.contains(q) by {
                    lemma_moore_adj_covered(p, q);
                    let kk = choose|kk: int|
                        0 <= kk < 8 && q.x == p.x + moore_offset(kk).x && q.y == p.y
                            + moore_offset(kk).y;
                    assert(nbrs@[kk].0 == q);
                }
            }
        }
        i = i + 1;
    }
    proof {
        assert forall|q: Position| wall_pos(g0, *floor, q) implies walls@.contains(q) by {
            let p = choose|p: Position|
                #[trigger] g0.contains_key(p) && is_floor(g0[p], *floor) && moore_adj(p, q);
            let k = choose|k: int| 0 <= k < tiles@.len() && (#[trigger] tiles@[k]).0 == p;
            assert(is_floor(tiles@[k].1, *floor));
        }
    }
    let mut j: usize = 0;
    proof {
        assert(g0.union_prefer_right(
            Map::new(
                |q: Position| exists|jj: int| 0 <= jj < 0 && walls@[jj] == q,
                |q: Position| written_tile(q, *wall),
            ),
        ) =~= g0);
    }
    while j < walls.len()
        invariant
            0 <= j <= walls@.len(),
            g0 == old(grid)@,
            forall|qi: int|
                0 <= qi < walls@.len() ==> wall_pos(g0, *floor, #[trigger] walls@[qi]),
            forall|q: Position| wall_pos(g0, *floor, q) ==> walls@.contains(q),
            grid@ == g0.union_prefer_right(
                Map::new(
                    |q: Position| exists|jj: int| 0 <= jj < j && walls@[jj] == q,
                    |q: Position| written_tile(q, *wall),
                ),
            ),
            grid.size == old(grid).size,
        decreases walls@.len() - j,
    {
        let q = walls[j];
        let ghost mid0 = grid@;
        grid.make_tile_at(q, wall.clone());
        proof {
            assert(mid0.insert(q, written_tile(q, *wall)) =~= g0.union_prefer_right(
                Map::new(
                    |qq: Position| exists|jj: int| 0 <= jj < j + 1 && walls@[jj] == qq,
                    |qq: Position| written_tile(qq, *wall),
                ),
            ));
        }
        j = j + 1;
    }
    proof {
        assert(Map::new(
            |q: Position| exists|jj: int| 0 <= jj < walls@.len() && walls@[jj] == q,
            |q: Position| written_tile(q, *wall),
        ) =~= wall_map(g0, *floor, *wall));
        assert(grid@ =~= wall_model(g0, *floor, *wall));
    }
}

} // verus!
