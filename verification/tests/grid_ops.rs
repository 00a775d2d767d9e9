use dungeon_sculptor::min_max_aabb_from_rect;
use dungeon_sculptor::ActorHandle;
use dungeon_sculptor::Grid;
use dungeon_sculptor::Material;
use dungeon_sculptor::MaterialHandle;
use dungeon_sculptor::Position;
use dungeon_sculptor::Rectangle;
use dungeon_sculptor::Tile;
use dungeon_sculptor::TileFlags;

fn floor_mat() -> MaterialHandle {
    Material::new("Floor".to_string(), "floor".to_string(), TileFlags::passthrough())
}

fn wall_mat() -> MaterialHandle {
    Material::new("Wall".to_string(), "wall".to_string(), TileFlags::solid())
}

#[test]
fn min_max_aabb_normalizes_each_axis() {
    let (a, b) = min_max_aabb_from_rect(Position::new(5, 1), Position::new(2, 3));
    assert_eq!((a.x, a.y), (2, 1));
    assert_eq!((b.x, b.y), (5, 3));

    let (a, b) = min_max_aabb_from_rect(Position::new(-1, -2), Position::new(-4, 7));
    assert_eq!((a.x, a.y), (-4, -2));
    assert_eq!((b.x, b.y), (-1, 7));
}

#[test]
fn position_addition_is_componentwise() {
    let p = Position::new(3, -2).plus(Position::new(1, 1));
    assert_eq!((p.x, p.y), (4, -1));
}

#[test]
fn rectangle_centroid_is_midpoint() {
    let r = Rectangle::new(Position::new(0, 0), Position::new(4, 4));
    let c = r.centroid();
    assert_eq!((c.x, c.y), (2, 2));

    let r = Rectangle::new(Position::new(-5, -5), Position::new(0, 0));
    let c = r.centroid();
    assert_eq!((c.x, c.y), (-2, -2));

    let r = Rectangle::new(Position::new(1, 2), Position::new(4, 7));
    let c = r.centroid();
    assert_eq!((c.x, c.y), (2, 4));
}

#[test]
fn rectangles_sharing_an_edge_do_not_overlap() {
    let r1 = Rectangle::new(Position::new(0, 0), Position::new(4, 4));
    let r2 = Rectangle::new(Position::new(4, 0), Position::new(8, 4));
    let r3 = Rectangle::new(Position::new(3, 0), Position::new(5, 4));
    assert!(!r1.overlaps(&r2));
    assert!(!r2.overlaps(&r1));
    assert!(r1.overlaps(&r3));
    assert!(r3.overlaps(&r1));
}

#[test]
fn material_compares_by_content() {
    let a = floor_mat();
    let b = floor_mat();
    let w = wall_mat();
    assert!(a.same(&b));
    assert!(!a.same(&w));
    assert_eq!(a, b);
    assert_ne!(a, w);
}

#[test]
fn tile_occupancy_and_flags() {
    let t = Tile { position: Position::new(0, 0), material: floor_mat(), occupier: None };
    assert!(!t.is_occupied());
    assert_eq!(t.flags().bits, TileFlags::passthrough().bits);

    let t = Tile {
        position: Position::new(0, 0),
        material: wall_mat(),
        occupier: Some(ActorHandle { id: 3 }),
    };
    assert!(t.is_occupied());
    assert_eq!(t.flags().bits, TileFlags::solid().bits);
}

#[test]
fn make_tile_at_overwrites_and_returns_displaced() {
    let mut grid = Grid::new(8, 8);
    assert!(grid.tile_at(Position::new(1, 1)).is_none());

    let (prev, placed) = grid.make_tile_at(Position::new(1, 1), floor_mat());
    assert!(prev.is_none());
    assert_eq!(placed.material, floor_mat());
    assert_eq!(placed.position, Position::new(1, 1));

    let (prev, placed) = grid.make_tile_at(Position::new(1, 1), wall_mat());
    let displaced = prev.expect("the floor tile should have been displaced");
    assert_eq!(displaced.material, floor_mat());
    assert_eq!(placed.material, wall_mat());

    let tile = grid.tile_at(Position::new(1, 1)).expect("tile should exist");
    assert_eq!(tile.material, wall_mat());
}

#[test]
fn make_tile_box_fills_half_open_box() {
    let mut grid = Grid::new(8, 8);
    grid.make_tile_box(Position::new(1, 1), Position::new(4, 3), floor_mat());
    for x in 1..4 {
        for y in 1..3 {
            assert!(grid.tile_at(Position::new(x, y)).is_some(), "missing ({x},{y})");
        }
    }
    assert!(grid.tile_at(Position::new(4, 1)).is_none());
    assert!(grid.tile_at(Position::new(1, 3)).is_none());
    assert!(grid.tile_at(Position::new(0, 0)).is_none());
    assert_eq!(grid.existing_tiles().len(), 6);
}

#[test]
fn make_tile_box_accepts_swapped_corners() {
    let mut a = Grid::new(8, 8);
    let mut b = Grid::new(8, 8);
    a.make_tile_box(Position::new(4, 3), Position::new(1, 1), floor_mat());
    b.make_tile_box(Position::new(1, 1), Position::new(4, 3), floor_mat());
    assert_eq!(a.existing_tiles().len(), b.existing_tiles().len());
}

#[test]
fn make_tile_bordered_box_rings_the_box() {
    let mut grid = Grid::new(8, 8);
    grid.make_tile_bordered_box(
        Position::new(2, 2),
        Position::new(4, 4),
        floor_mat(),
        wall_mat(),
    );
    for x in 2..4 {
        for y in 2..4 {
            let t = grid.tile_at(Position::new(x, y)).expect("fill tile missing");
            assert_eq!(t.material, floor_mat());
        }
    }
    // the two full columns beside the box
    for y in 1..=4 {
        for x in [1, 4] {
            let t = grid.tile_at(Position::new(x, y)).expect("border tile missing");
            assert_eq!(t.material, wall_mat());
        }
    }
    // the rows below and above the box
    for x in 2..4 {
        for y in [1, 4] {
            let t = grid.tile_at(Position::new(x, y)).expect("border tile missing");
            assert_eq!(t.material, wall_mat());
        }
    }
    assert!(grid.tile_at(Position::new(0, 0)).is_none());
    assert!(grid.tile_at(Position::new(5, 2)).is_none());
}

#[test]
fn moore_neighbours_report_all_eight_cells() {
    let mut grid = Grid::new(8, 8);
    grid.make_tile_at(Position::new(3, 3), floor_mat());
    grid.make_tile_at(Position::new(2, 2), wall_mat());

    let nbrs = grid.tile_moore_neighbours(Position::new(3, 3));
    assert_eq!(nbrs.len(), 8);
    let expected = [
        (0, 1),
        (1, 1),
        (1, 0),
        (1, -1),
        (0, -1),
        (-1, -1),
        (-1, 0),
        (-1, 1),
    ];
    for (k, (dx, dy)) in expected.iter().enumerate() {
        assert_eq!(nbrs[k].0, Position::new(3 + dx, 3 + dy));
    }
    let occupied: Vec<bool> = nbrs.iter().map(|(_, t)| t.is_some()).collect();
    // only the diagonal neighbor at (2, 2) holds a tile
    assert_eq!(occupied, vec![false, false, false, false, false, true, false, false]);
}

#[test]
fn neumann_neighbours_report_four_cells() {
    let grid = Grid::new(8, 8);
    let nbrs = grid.tile_neumann_neighbours(Position::new(0, 0));
    assert_eq!(nbrs.len(), 4);
    assert_eq!(nbrs[0].0, Position::new(0, 1));
    assert_eq!(nbrs[1].0, Position::new(1, 0));
    assert_eq!(nbrs[2].0, Position::new(0, -1));
    assert_eq!(nbrs[3].0, Position::new(-1, 0));
    assert!(nbrs.iter().all(|(_, t)| t.is_none()));
}

#[test]
fn existing_tiles_lists_each_tile_once() {
    let mut grid = Grid::new(8, 8);
    grid.make_tile_at(Position::new(0, 0), floor_mat());
    grid.make_tile_at(Position::new(1, 0), floor_mat());
    grid.make_tile_at(Position::new(0, 0), wall_mat());
    let mut tiles = grid.existing_tiles();
    tiles.sort_by_key(|(p, _)| (p.x, p.y));
    assert_eq!(tiles.len(), 2);
    assert_eq!(tiles[0].0, Position::new(0, 0));
    assert_eq!(tiles[0].1.material, wall_mat());
    assert_eq!(tiles[1].0, Position::new(1, 0));
}
