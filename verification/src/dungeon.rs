//! The dungeon sculptor: configuration, validation, and the generation
//! pipeline.

use vstd::prelude::*;

use crate::corridor::corridors_model;
use crate::corridor::plan_corridors;
use crate::graph::kruskal_of;
use crate::graph::pairs_model;
use crate::graph::plan_spanning_edges;
use crate::graph::rect_bounded;
use crate::grid::grid_bounded;
use crate::grid::mat_eq;
use crate::grid::moore_adj;
use crate::grid::Grid;
use crate::grid::MaterialHandle;
use crate::grid::Tile;
use crate::paint::is_floor;
use crate::paint::lemma_paint_bounded;
use crate::paint::lemma_wall_coverage;
use crate::paint::paint_model;
use crate::paint::paint_tiles;
use crate::paint::synthesize_walls;
use crate::paint::wall_model;
use crate::position::Position;
use crate::rng::RandomStream;
use crate::sampler::area_ok;
use crate::sampler::place_rooms;
use crate::sampler::sample_rooms;
use crate::sampler::size_range_ok;
use crate::sampler::COORD_LIMIT;

verus! {

/// Why a generation request was rejected or failed.
#[derive(Clone, Copy, PartialEq, Eq, Structural, Debug)]
pub enum DungeonError {
    /// The configuration is invalid: a zero room count, a size range with
    /// `min > max` or out of coordinate bounds, or a degenerate target area.
    InvalidConfig,
    /// The requested rooms could not be placed without overlap within the
    /// trial budget.
    Unsatisfiable,
}

/// A sculptor that carves a connected, walled dungeon into a grid.
#[derive(Debug)]
pub struct DungeonSculptor {
    pub room_amount: u16,
    pub max_trials: u32,
    pub floor: MaterialHandle,
    pub wall: MaterialHandle,
    pub max_room_size: Position,
    pub min_room_size: Position,
    pub rng: RandomStream,
}

impl DungeonSculptor {
    /// A well-configured sculptor: at least one room, a valid size range,
    /// and a positive trial budget.
    pub open spec fn wf(self) -> bool {
        self.room_amount >= 1 && self.max_trials >= 1 && size_range_ok(
            self.min_room_size,
            self.max_room_size,
        )
    }

    /// Create a sculptor for `room_amount` rooms with extents drawn from
    /// `[room_size.0, room_size.1)`, writing the two given materials, with
    /// randomness seeded by `seed`. An empty room count or an invalid size
    /// range is rejected here, before any generation starts.
    pub fn new(
        room_amount: u16,
        room_size: (Position, Position),
        floor: MaterialHandle,
        wall: MaterialHandle,
        seed: u64,
    ) -> (r: Result<DungeonSculptor, DungeonError>)
        ensures
            match r {
                Ok(s) => room_amount >= 1 && size_range_ok(room_size.0, room_size.1) && s == (
                    DungeonSculptor {
                        room_amount,
                        max_trials: 0xFFFF,
                        floor,
                        wall,
                        max_room_size: room_size.1,
                        min_room_size: room_size.0,
                        rng: RandomStream { state: seed },
                    }) && s.wf(),
                Err(e) => e == DungeonError::InvalidConfig && !(room_amount >= 1 && size_range_ok(
                    room_size.0,
                    room_size.1,
                )),
            },
    {
        let (min_s, max_s) = room_size;
        if room_amount == 0 {
            return Err(DungeonError::InvalidConfig);
        }
        if min_s.x < 0 || min_s.y < 0 || min_s.x > max_s.x || min_s.y > max_s.y || max_s.x
            > COORD_LIMIT || max_s.y > COORD_LIMIT {
            return Err(DungeonError::InvalidConfig);
        }
        Ok(
            DungeonSculptor {
                room_amount,
                max_trials: 0xFFFF,
                floor,
                wall,
                max_room_size: max_s,
                min_room_size: min_s,
                rng: RandomStream::new(seed),
            },
        )
    }

    /// Carve one dungeon into the grid, over the area `[from, to)`. The
    /// whole result is a pure function of the sculptor's state and the
    /// grid's prior contents, given by [`sculpt_model`]: two sculptors with
    /// equal configuration and seed produce equal tile maps.
    pub fn sculpt(&mut self, from: Position, to: Position, grid: &mut Grid) -> (r: Result<
        (),
        DungeonError,
    >)
        requires
            old(self).wf(),
            grid_bounded(old(grid)@),
        ensures
            final(self).wf(),
            final(grid).size == old(grid).size,
            same_config(*old(self), *final(self)),
            !area_ok(from, to) ==> r == Err::<(), DungeonError>(DungeonError::InvalidConfig)
                && final(grid)@ == old(grid)@ && *final(self) == *old(self),
            area_ok(from, to) ==> ({
                let (out, s_end) = sculpt_model(*old(self), from, to, old(grid)@);
                final(self).rng.state == s_end && match r {
                    Ok(()) => out == Some(final(grid)@),
                    Err(e) => e == DungeonError::Unsatisfiable && out is None && final(grid)@
                        == old(grid)@,
                }
            }),
            r is Ok && !mat_eq(old(self).floor, old(self).wall) ==> (forall|
                p: Position,
                q: Position,
            |
                (#[trigger] final(grid)@.contains_key(p) && is_floor(
                    final(grid)@[p],
                    old(self).floor,
                ) && #[trigger] moore_adj(p, q)) ==> final(grid)@.contains_key(q)),
    {
        if !(from.x >= -COORD_LIMIT && from.x < to.x && to.x <= COORD_LIMIT && from.y
            >= -COORD_LIMIT && from.y < to.y && to.y <= COORD_LIMIT) {
            return Err(DungeonError::InvalidConfig);
        }
        let rooms = match sample_rooms(
            &mut self.rng,
            self.room_amount,
            self.max_trials,
            from,
            to,
            self.min_room_size,
            self.max_room_size,
        ) {
            Ok(rs) => rs,
            Err(e) => {
                return Err(e);
            },
        };
        proof {
            assert forall|i: int| 0 <= i < rooms@.len() implies rect_bounded(
                #[trigger] rooms@[i],
            ) by {
                assert(crate::sampler::room_ok(from, to, rooms@[i]));
            }
        }
        let mst = plan_spanning_edges(&rooms);
        let corridors = plan_corridors(&rooms, &mst, &mut self.rng);
        paint_tiles(grid, &corridors, &rooms, &self.floor);
        proof {
            lemma_paint_bounded(old(grid)@, corridors@, rooms@, self.floor);
        }
        synthesize_walls(grid, &self.floor, &self.wall);
        proof {
            if !mat_eq(self.floor, self.wall) {
                lemma_wall_coverage(
                    paint_model(old(grid)@, corridors@, rooms@, self.floor),
                    self.floor,
                    self.wall,
                );
            }
        }
        Ok(())
    }
}

/// Whether two sculptors agree on everything but the random stream.
pub open spec fn same_config(a: DungeonSculptor, b: DungeonSculptor) -> bool {
    a.room_amount == b.room_amount && a.max_trials == b.max_trials && a.floor == b.floor && a.wall
        == b.wall && a.max_room_size == b.max_room_size && a.min_room_size == b.min_room_size
}

/// The complete generation pipeline as a pure function of the sculptor's
/// state, the target area and the grid's prior contents: the final tile map
/// (or the placement failure) and the random-stream state afterwards. Two
/// runs from equal states produce equal tile maps.
pub open spec fn sculpt_model(
    cfg: DungeonSculptor,
    from: Position,
    to: Position,
    g0: Map<Position, Tile>,
) -> (Option<Map<Position, Tile>>, u64) {
    let (rooms_opt, s1) = place_rooms(
        cfg.room_amount as nat,
        Seq::empty(),
        cfg.rng.state,
        cfg.max_trials as nat,
        from,
        to,
        cfg.min_room_size,
        cfg.max_room_size,
    );
    match rooms_opt {
        None => (None::<Map<Position, Tile>>, s1),
        Some(rooms) => {
            let mst = kruskal_of(rooms.len() as int, pairs_model(rooms));
            let (corrs, s2) = corridors_model(rooms, mst, s1);
            let g1 = paint_model(g0, corrs, rooms, cfg.floor);
            let g2 = wall_model(g1, cfg.floor, cfg.wall);
            (Some(g2), s2)
        },
    }
}

} // verus!
