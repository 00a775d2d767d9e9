use std::collections::HashSet;
use std::collections::VecDeque;

use dungeon_sculptor::plan_corridors;
use dungeon_sculptor::plan_spanning_edges;
use dungeon_sculptor::sample_rooms;
use dungeon_sculptor::DungeonError;
use dungeon_sculptor::DungeonSculptor;
use dungeon_sculptor::Grid;
use dungeon_sculptor::Material;
use dungeon_sculptor::MaterialHandle;
use dungeon_sculptor::Position;
use dungeon_sculptor::RandomStream;
use dungeon_sculptor::TileFlags;

fn floor_mat() -> MaterialHandle {
    Material::new("Floor".to_string(), "floor".to_string(), TileFlags::passthrough())
}

fn wall_mat() -> MaterialHandle {
    Material::new("Wall".to_string(), "wall".to_string(), TileFlags::solid())
}

fn floor_positions(grid: &Grid) -> HashSet<(i32, i32)> {
    let floor = floor_mat();
    grid.existing_tiles()
        .into_iter()
        .filter(|(_, t)| t.material == floor)
        .map(|(p, _)| (p.x, p.y))
        .collect()
}

fn tile_set(grid: &Grid) -> Vec<((i32, i32), String, String, u16)> {
    let mut v: Vec<_> = grid
        .existing_tiles()
        .into_iter()
        .map(|(p, t)| {
            ((p.x, p.y), t.material.display_name.clone(), t.material.resource_name.clone(),
                t.material.flags.bits)
        })
        .collect();
    v.sort();
    v
}

/// Breadth-first search over 4-adjacent floor tiles.
fn reachable_from(floors: &HashSet<(i32, i32)>, start: (i32, i32)) -> HashSet<(i32, i32)> {
    let mut seen = HashSet::new();
    let mut queue = VecDeque::new();
    if floors.contains(&start) {
        seen.insert(start);
        queue.push_back(start);
    }
    while let Some((x, y)) = queue.pop_front() {
        for (dx, dy) in [(0, 1), (1, 0), (0, -1), (-1, 0)] {
            let n = (x + dx, y + dy);
            if floors.contains(&n) && seen.insert(n) {
                queue.push_back(n);
            }
        }
    }
    seen
}

#[test]
fn invalid_configuration_is_rejected_at_construction() {
    let e = DungeonSculptor::new(
        0,
        (Position::new(3, 3), Position::new(6, 6)),
        floor_mat(),
        wall_mat(),
        1,
    )
    .unwrap_err();
    assert_eq!(e, DungeonError::InvalidConfig);

    let e = DungeonSculptor::new(
        2,
        (Position::new(7, 3), Position::new(6, 6)),
        floor_mat(),
        wall_mat(),
        1,
    )
    .unwrap_err();
    assert_eq!(e, DungeonError::InvalidConfig);

    assert!(DungeonSculptor::new(
        2,
        (Position::new(3, 3), Position::new(6, 6)),
        floor_mat(),
        wall_mat(),
        1,
    )
    .is_ok());
}

#[test]
fn degenerate_area_is_rejected_and_grid_untouched() {
    let mut s = DungeonSculptor::new(
        2,
        (Position::new(3, 3), Position::new(6, 6)),
        floor_mat(),
        wall_mat(),
        1,
    )
    .unwrap();
    let mut grid = Grid::new(16, 16);
    let e = s.sculpt(Position::new(10, 10), Position::new(10, 20), &mut grid).unwrap_err();
    assert_eq!(e, DungeonError::InvalidConfig);
    assert!(grid.existing_tiles().is_empty());
}

#[test]
fn oversized_rooms_fail_as_unsatisfiable_not_a_hang() {
    let mut s = DungeonSculptor::new(
        1,
        (Position::new(25, 25), Position::new(26, 26)),
        floor_mat(),
        wall_mat(),
        3,
    )
    .unwrap();
    let mut grid = Grid::new(20, 20);
    let e = s.sculpt(Position::new(0, 0), Position::new(20, 20), &mut grid).unwrap_err();
    assert_eq!(e, DungeonError::Unsatisfiable);
    assert!(grid.existing_tiles().is_empty());
}

#[test]
fn identical_seed_and_config_give_identical_tile_sets() {
    let mk = || {
        DungeonSculptor::new(
            4,
            (Position::new(3, 3), Position::new(6, 6)),
            floor_mat(),
            wall_mat(),
            0xDEADBEEF,
        )
        .unwrap()
    };
    let mut g1 = Grid::new(32, 32);
    let mut g2 = Grid::new(32, 32);
    mk().sculpt(Position::new(0, 0), Position::new(28, 28), &mut g1).unwrap();
    mk().sculpt(Position::new(0, 0), Position::new(28, 28), &mut g2).unwrap();
    assert_eq!(tile_set(&g1), tile_set(&g2));
    assert!(!tile_set(&g1).is_empty());
}

#[test]
fn three_rooms_connected_and_walled() {
    let seed = 2024;
    let mut s = DungeonSculptor::new(
        3,
        (Position::new(3, 3), Position::new(6, 6)),
        floor_mat(),
        wall_mat(),
        seed,
    )
    .unwrap();
    let mut grid = Grid::new(20, 20);
    s.sculpt(Position::new(0, 0), Position::new(20, 20), &mut grid).unwrap();

    // replay the deterministic pipeline to recover the rooms and the tree
    let mut rng = RandomStream::new(seed);
    let rooms = sample_rooms(
        &mut rng,
        3,
        0xFFFF,
        Position::new(0, 0),
        Position::new(20, 20),
        Position::new(3, 3),
        Position::new(6, 6),
    )
    .unwrap();
    assert_eq!(rooms.len(), 3);
    for i in 0..3 {
        for j in 0..i {
            assert!(!rooms[i].overlaps(&rooms[j]));
        }
    }
    let mst = plan_spanning_edges(&rooms);
    assert_eq!(mst.len(), 2);
    let corridors = plan_corridors(&rooms, &mst, &mut rng);
    assert!(corridors.len() >= 4 && corridors.len() <= 4 + 8);

    // every room must be rasterized as floor
    let floors = floor_positions(&grid);
    for r in &rooms {
        for x in r.min().x..r.max().x {
            for y in r.min().y..r.max().y {
                assert!(floors.contains(&(x, y)), "room cell ({x},{y}) not floor");
            }
        }
    }

    // every room reachable from every other through floor tiles
    let c0 = rooms[0].centroid();
    let reach = reachable_from(&floors, (c0.x, c0.y));
    for r in &rooms {
        let c = r.centroid();
        assert!(reach.contains(&(c.x, c.y)), "room at {c:?} unreachable");
    }

    // every floor tile fully bordered by tiles (floor or wall)
    for &(x, y) in &floors {
        for dx in -1..=1 {
            for dy in -1..=1 {
                if (dx, dy) != (0, 0) {
                    assert!(
                        grid.tile_at(Position::new(x + dx, y + dy)).is_some(),
                        "open cell next to floor ({x},{y})"
                    );
                }
            }
        }
    }
}

#[test]
fn single_room_has_no_corridors_and_a_tight_wall_ring() {
    let seed = 77;
    let mut s = DungeonSculptor::new(
        1,
        (Position::new(4, 4), Position::new(5, 5)),
        floor_mat(),
        wall_mat(),
        seed,
    )
    .unwrap();
    let mut grid = Grid::new(20, 20);
    s.sculpt(Position::new(2, 2), Position::new(14, 14), &mut grid).unwrap();

    let mut rng = RandomStream::new(seed);
    let rooms = sample_rooms(
        &mut rng,
        1,
        0xFFFF,
        Position::new(2, 2),
        Position::new(14, 14),
        Position::new(4, 4),
        Position::new(5, 5),
    )
    .unwrap();
    assert_eq!(rooms.len(), 1);
    let mst = plan_spanning_edges(&rooms);
    assert!(mst.is_empty());
    let corridors = plan_corridors(&rooms, &mst, &mut rng);
    assert!(corridors.is_empty());

    let room = rooms[0];
    let (min, max) = (room.min(), room.max());
    let wall = wall_mat();
    let floor = floor_mat();
    for (p, t) in grid.existing_tiles() {
        let inside = (min.x..max.x).contains(&p.x) && (min.y..max.y).contains(&p.y);
        let on_ring = !inside && (min.x - 1..=max.x).contains(&p.x)
            && (min.y - 1..=max.y).contains(&p.y);
        if inside {
            assert_eq!(t.material, floor);
        } else if on_ring {
            assert_eq!(t.material, wall);
        } else {
            panic!("tile at {p:?} outside the room and its one-tile ring");
        }
    }
    // the ring is complete
    for x in min.x - 1..=max.x {
        for y in min.y - 1..=max.y {
            assert!(grid.tile_at(Position::new(x, y)).is_some(), "missing ({x},{y})");
        }
    }
}

#[test]
fn sculpt_draws_nothing_but_floor_and_wall() {
    let mut s = DungeonSculptor::new(
        5,
        (Position::new(3, 3), Position::new(7, 7)),
        floor_mat(),
        wall_mat(),
        31337,
    )
    .unwrap();
    let mut grid = Grid::new(40, 40);
    s.sculpt(Position::new(0, 0), Position::new(36, 36), &mut grid).unwrap();
    let floor = floor_mat();
    let wall = wall_mat();
    let tiles = grid.existing_tiles();
    assert!(!tiles.is_empty());
    for (_, t) in &tiles {
        assert!(t.material == floor || t.material == wall);
        assert!(!t.is_occupied());
    }
}
