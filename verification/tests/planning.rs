use dungeon_sculptor::build_edges;
use dungeon_sculptor::paint_tiles;
use dungeon_sculptor::plan_corridors;
use dungeon_sculptor::plan_spanning_edges;
use dungeon_sculptor::sample_rooms;
use dungeon_sculptor::Grid;
use dungeon_sculptor::Material;
use dungeon_sculptor::MaterialHandle;
use dungeon_sculptor::Position;
use dungeon_sculptor::RandomStream;
use dungeon_sculptor::Rectangle;
use dungeon_sculptor::TileFlags;

fn floor_mat() -> MaterialHandle {
    Material::new("Floor".to_string(), "floor".to_string(), TileFlags::passthrough())
}

fn rooms_overlap(a: &Rectangle, b: &Rectangle) -> bool {
    a.overlaps(b)
}

#[test]
fn random_stream_is_seed_deterministic() {
    let mut a = RandomStream::new(99);
    let mut b = RandomStream::new(99);
    for _ in 0..100 {
        assert_eq!(a.gen_range(0, 1000), b.gen_range(0, 1000));
        assert_eq!(a.gen_bool(), b.gen_bool());
    }
    let mut c = RandomStream::new(100);
    let same = (0..100).all(|_| a.gen_range(0, 1000) == c.gen_range(0, 1000));
    assert!(!same, "different seeds should give different draws");
}

#[test]
fn random_stream_follows_the_xorshift_formula() {
    let mut rng = RandomStream::new(1);
    assert_eq!(rng.next(), 1082269761);
    assert_eq!(rng.next(), 1152992998833853505);

    let mut rng = RandomStream::new(1);
    assert_eq!(rng.gen_range(0, 10), 1);
    assert_eq!(rng.gen_range(0, 10), 5);
}

#[test]
fn gen_range_stays_in_bounds() {
    let mut rng = RandomStream::new(7);
    for _ in 0..1000 {
        let v = rng.gen_range(-3, 11);
        assert!((-3..11).contains(&v));
    }
    assert_eq!(rng.gen_range(5, 5), 5);
}

#[test]
fn sampler_produces_exactly_n_disjoint_rooms() {
    let mut rng = RandomStream::new(12345);
    let rooms = sample_rooms(
        &mut rng,
        5,
        0xFFFF,
        Position::new(0, 0),
        Position::new(30, 30),
        Position::new(3, 3),
        Position::new(6, 6),
    )
    .expect("placement should succeed");
    assert_eq!(rooms.len(), 5);
    for i in 0..rooms.len() {
        for j in 0..i {
            assert!(!rooms_overlap(&rooms[i], &rooms[j]));
        }
        let r = &rooms[i];
        let (min, max) = (r.min(), r.max());
        assert!(min.x >= 0 && min.y >= 0 && max.x <= 30 && max.y <= 30);
        assert!((3..6).contains(&(max.x - min.x)));
        assert!((3..6).contains(&(max.y - min.y)));
    }
}

#[test]
fn sampler_with_equal_min_max_uses_that_size() {
    let mut rng = RandomStream::new(4);
    let rooms = sample_rooms(
        &mut rng,
        2,
        0xFFFF,
        Position::new(0, 0),
        Position::new(30, 30),
        Position::new(4, 4),
        Position::new(4, 4),
    )
    .expect("placement should succeed");
    for r in &rooms {
        assert_eq!(r.max().x - r.min().x, 4);
        assert_eq!(r.max().y - r.min().y, 4);
    }
}

#[test]
fn sampler_reports_unsatisfiable_constraints() {
    let mut rng = RandomStream::new(1);
    let r = sample_rooms(
        &mut rng,
        1,
        0xFFFF,
        Position::new(0, 0),
        Position::new(10, 10),
        Position::new(12, 12),
        Position::new(13, 13),
    );
    assert_eq!(r.unwrap_err(), dungeon_sculptor::DungeonError::Unsatisfiable);
}

#[test]
fn candidate_edges_pair_every_two_rooms() {
    let rooms = vec![
        Rectangle::new(Position::new(0, 0), Position::new(2, 2)),
        Rectangle::new(Position::new(10, 0), Position::new(12, 2)),
        Rectangle::new(Position::new(0, 10), Position::new(2, 12)),
        Rectangle::new(Position::new(10, 10), Position::new(12, 12)),
    ];
    let edges = build_edges(&rooms);
    assert_eq!(edges.len(), 6);
    // centroids are (1,1), (11,1), (1,11), (11,11): sides 100, diagonals 200
    let (a, b, w) = edges[0];
    assert_eq!((a, b, w), (0, 1, 100));
    let diagonals = edges.iter().filter(|&&(_, _, w)| w == 200).count();
    assert_eq!(diagonals, 2);
}

#[test]
fn spanning_edges_form_a_tree_not_the_whole_graph() {
    let rooms = vec![
        Rectangle::new(Position::new(0, 0), Position::new(2, 2)),
        Rectangle::new(Position::new(0, 10), Position::new(2, 12)),
        Rectangle::new(Position::new(0, 24), Position::new(2, 26)),
    ];
    // centroids (1,1), (1,11), (1,25): weights 100, 196, 576
    assert_eq!(build_edges(&rooms).len(), 3);
    let mut mst = plan_spanning_edges(&rooms);
    mst.sort();
    assert_eq!(mst.len(), 2);
    assert_eq!(mst[0], (0, 1, 100));
    assert_eq!(mst[1], (1, 2, 196));
}

#[test]
fn spanning_edges_of_a_single_room_are_empty() {
    let rooms = vec![Rectangle::new(Position::new(0, 0), Position::new(2, 2))];
    assert!(plan_spanning_edges(&rooms).is_empty());
    assert!(build_edges(&rooms).is_empty());
}

#[test]
fn corridor_legs_are_axis_aligned_elbows() {
    let rooms = vec![
        Rectangle::new(Position::new(0, 0), Position::new(3, 3)),
        Rectangle::new(Position::new(10, 0), Position::new(13, 3)),
        Rectangle::new(Position::new(0, 10), Position::new(3, 13)),
    ];
    let mst = plan_spanning_edges(&rooms);
    let mut rng = RandomStream::new(8);
    let corridors = plan_corridors(&rooms, &mst, &mut rng);
    assert!(corridors.len() >= 2 * mst.len());
    assert_eq!(corridors.len() % 2, 0);
    for (from, to) in &corridors {
        assert!(from.x == to.x || from.y == to.y, "leg is not axis-aligned");
    }
    for pair in corridors.chunks(2) {
        let (s1, s2) = (pair[0], pair[1]);
        // the two legs meet at the elbow, which shares one axis with each far end
        let (a, e) = s1;
        let elbow_meets = (s2.0 == e || s2.1 == e)
            && {
                let far = if s2.0 == e { s2.1 } else { s2.0 };
                (e.x == a.x && e.y == far.y) || (e.x == far.x && e.y == a.y)
            };
        assert!(elbow_meets, "segments {s1:?} {s2:?} do not form an elbow");
    }
}

#[test]
fn corridors_of_a_single_room_are_empty() {
    let rooms = vec![Rectangle::new(Position::new(0, 0), Position::new(3, 3))];
    let mst = plan_spanning_edges(&rooms);
    let mut rng = RandomStream::new(21);
    let corridors = plan_corridors(&rooms, &mst, &mut rng);
    assert!(corridors.is_empty());
}

#[test]
fn repainting_the_same_layout_changes_nothing() {
    let rooms = vec![
        Rectangle::new(Position::new(0, 0), Position::new(3, 3)),
        Rectangle::new(Position::new(8, 8), Position::new(11, 11)),
    ];
    let mst = plan_spanning_edges(&rooms);
    let mut rng = RandomStream::new(5);
    let corridors = plan_corridors(&rooms, &mst, &mut rng);

    let mut once = Grid::new(16, 16);
    let mut twice = Grid::new(16, 16);
    paint_tiles(&mut once, &corridors, &rooms, &floor_mat());
    paint_tiles(&mut twice, &corridors, &rooms, &floor_mat());
    paint_tiles(&mut twice, &corridors, &rooms, &floor_mat());

    let mut a = once.existing_tiles();
    let mut b = twice.existing_tiles();
    a.sort_by_key(|(p, _)| (p.x, p.y));
    b.sort_by_key(|(p, _)| (p.x, p.y));
    assert_eq!(a, b);
}
