//! Elbow corridors: each selected room pair is joined by two axis-aligned
//! legs that meet at an elbow point sharing one axis with each centroid; a
//! random handful of extra connections breaks the pure tree shape.

use vstd::prelude::*;

use crate::graph::rects_bounded;
use crate::position::Position;
use crate::rect::centroid_of;
use crate::rect::Rectangle;
use crate::rng::coin_val;
use crate::rng::next_state;
use crate::rng::range_state;
use crate::rng::range_val;
use crate::rng::RandomStream;
use crate::sampler::COORD_LIMIT;

verus! {

/// The elbow point of a connection between centroids `a` and `b`: one of
/// the two axis-aligned corner choices, picked by the coin.
pub open spec fn elbow(a: Position, b: Position, c: bool) -> Position {
    if c {
        Position { x: a.x, y: b.y }
    } else {
        Position { x: b.x, y: a.y }
    }
}

/// The elbow property: `e` shares its x-coordinate with one of the two
/// points and its y-coordinate with the other.
pub open spec fn elbow_between(a: Position, b: Position, e: Position) -> bool {
    (e.x == a.x && e.y == b.y) || (e.x == b.x && e.y == a.y)
}

/// Two consecutive corridor segments forming one elbow connection: they
/// meet at the elbow point, which lies between the two far endpoints.
pub open spec fn elbow_pair(s1: (Position, Position), s2: (Position, Position)) -> bool {
    (s2.0 == s1.1 && elbow_between(s1.0, s2.1, s1.1)) || (s2.1 == s1.1 && elbow_between(
        s1.0,
        s2.0,
        s1.1,
    ))
}

/// Both endpoints of a segment lie within the coordinate bound.
pub open spec fn seg_bounded(s: (Position, Position)) -> bool {
    -COORD_LIMIT <= s.0.x <= COORD_LIMIT && -COORD_LIMIT <= s.0.y <= COORD_LIMIT && -COORD_LIMIT
        <= s.1.x <= COORD_LIMIT && -COORD_LIMIT <= s.1.y <= COORD_LIMIT
}

/// The corridor segments of the spanning edges from index `i` on, threading
/// the stream state: one coin per edge, two segments per edge, running
/// centroid-to-elbow then elbow-to-centroid.
pub open spec fn tree_corridors(
    rooms: Seq<Rectangle>,
    mst: Seq<(usize, usize, i64)>,
    i: int,
    s: u64,
) -> (Seq<(Position, Position)>, u64)
    decreases mst.len() - i,
{
    if i < 0 || i >= mst.len() {
        (Seq::empty(), s)
    } else {
        let a = centroid_of(rooms[mst[i].0 as int]);
        let b = centroid_of(rooms[mst[i].1 as int]);
        let e = elbow(a, b, coin_val(s));
        let (rest, s_end) = tree_corridors(rooms, mst, i + 1, next_state(s));
        (seq![(a, e), (e, b)] + rest, s_end)
    }
}

/// The extra elbow connections: `k` attempts, each drawing two room
/// indices; an attempt that draws the same room twice is skipped. Both
/// segments of an accepted attempt run centroid-to-elbow.
pub open spec fn extra_corridors(rooms: Seq<Rectangle>, s: u64, k: nat) -> (
    Seq<(Position, Position)>,
    u64,
)
    decreases k,
{
    if k == 0 {
        (Seq::empty(), s)
    } else {
        let n = rooms.len() as i32;
        let ai = range_val(s, 0, n);
        let s1 = range_state(s, 0, n);
        let bi = range_val(s1, 0, n);
        let s2 = range_state(s1, 0, n);
        if ai == bi {
            extra_corridors(rooms, s2, (k - 1) as nat)
        } else {
            let a = centroid_of(rooms[ai as int]);
            let b = centroid_of(rooms[bi as int]);
            let e = elbow(a, b, coin_val(s2));
            let (rest, s_end) = extra_corridors(rooms, next_state(s2), (k - 1) as nat);
            (seq![(a, e), (b, e)] + rest, s_end)
        }
    }
}

/// All corridor segments of a generation: the spanning-tree corridors, then
/// a uniformly drawn number (up to 4) of extra connections.
pub open spec fn corridors_model(
    rooms: Seq<Rectangle>,
    mst: Seq<(usize, usize, i64)>,
    s: u64,
) -> (Seq<(Position, Position)>, u64) {
    let (tc, s1) = tree_corridors(rooms, mst, 0, s);
    let k = range_val(s1, 0, 5);
    let s2 = range_state(s1, 0, 5);
    let (ec, s3) = extra_corridors(rooms, s2, k as nat);
    (tc + ec, s3)
}

/// With a single room, every extra attempt draws that room twice and is
/// skipped.
proof fn lemma_extras_empty_single(rooms: Seq<Rectangle>, s: u64, k: nat)
    requires
        rooms.len() == 1,
    ensures
        extra_corridors(rooms, s, k).0 == Seq::<(Position, Position)>::empty(),
    decreases k,
{
    if k > 0 {
        let n = rooms.len() as i32;
        let s1 = range_state(s, 0, n);
        let s2 = range_state(s1, 0, n);
        assert(range_val(s, 0, n) == 0 && range_val(s1, 0, n) == 0);
        lemma_extras_empty_single(rooms, s2, (k - 1) as nat);
    }
}

/// A single room yields no corridors at all: the spanning tree has no
/// edges, and every extra connection is skipped as a self-pairing.
pub proof fn lemma_single_room_no_corridors(
    rooms: Seq<Rectangle>,
    mst: Seq<(usize, usize, i64)>,
    s: u64,
)
    requires
        rooms.len() == 1,
        mst.len() == 0,
    ensures
        corridors_model(rooms, mst, s).0 == Seq::<(Position, Position)>::empty(),
{
    let (tc, s1) = tree_corridors(rooms, mst, 0, s);
    let k = range_val(s1, 0, 5);
    lemma_extras_empty_single(rooms, range_state(s1, 0, 5), k as nat);
    assert(corridors_model(rooms, mst, s).0 =~= Seq::<(Position, Position)>::empty());
}

/// Plan every corridor segment: two axis-aligned legs per spanning edge,
/// plus two per accepted extra connection. The result, and the stream
/// consumed, is exactly [`corridors_model`] of the starting state; the
/// segments come in consecutive pairs that meet at an elbow point sharing
/// one axis with each far endpoint.
pub fn plan_corridors(
    rooms: &Vec<Rectangle>,
    mst: &Vec<(usize, usize, i64)>,
    rng: &mut RandomStream,
) -> (r: Vec<(Position, Position)>)
    requires
        1 <= rooms@.len() <= 0x7FFF_FFFF,
        rects_bounded(rooms@),
        forall|i: int|
            0 <= i < mst@.len() ==> (#[trigger] mst@[i]).0 < rooms@.len() && mst@[i].1
                < rooms@.len(),
    ensures
        ({
            let (cs, s_end) = corridors_model(rooms@, mst@, old(rng).state);
            r@ == cs && final(rng).state == s_end
        }),
        r@.len() % 2 == 0,
        r@.len() >= 2 * mst@.len(),
        forall|j: int| 0 <= j && 2 * j + 1 < r@.len() ==> elbow_pair(r@[2 * j], #[trigger] r@[2 * j
            + 1]),
        forall|i: int| 0 <= i < r@.len() ==> seg_bounded(#[trigger] r@[i]),
{
    let ghost s0 = rng.state;
    let ghost total = corridors_model(rooms@, mst@, s0);
    let ghost tree_total = tree_corridors(rooms@, mst@, 0, s0);
    let mut corr: Vec<(Position, Position)> = Vec::new();
    let mut i: usize = 0;
    while i < mst.len()
        invariant
            0 <= i <= mst@.len(),
            1 <= rooms@.len() <= 0x7FFF_FFFF,
            rects_bounded(rooms@),
            forall|k: int|
                0 <= k < mst@.len() ==> (#[trigger] mst@[k]).0 < rooms@.len() && mst@[k].1
                    < rooms@.len(),
            s0 == old(rng).state,
            tree_total == tree_corridors(rooms@, mst@, 0, s0),
            corr@.len() == 2 * i,
            tree_total.0 == corr@ + tree_corridors(rooms@, mst@, i as int, rng.state).0,
            tree_total.1 == tree_corridors(rooms@, mst@, i as int, rng.state).1,
            forall|j: int| 0 <= j && 2 * j + 1 < corr@.len() ==> elbow_pair(
                corr@[2 * j],
                #[trigger] corr@[2 * j + 1],
            ),
            forall|k: int| 0 <= k < corr@.len() ==> seg_bounded(#[trigger] corr@[k]),
        decreases mst@.len() - i,
    {
        let ghost s_i = rng.state;
        let edge = mst[i];
        let a = rooms[edge.0].centroid();
        let b = rooms[edge.1].centroid();
        let c = rng.gen_bool();
        let e = if c {
            Position { x: a.x, y: b.y }
        } else {
            Position { x: b.x, y: a.y }
        };
        let ghost before = corr@;
        corr.push((a, e));
        corr.push((e, b));
        proof {
            assert(tree_corridors(rooms@, mst@, i as int, s_i).0 == seq![(a, e), (e, b)]
                + tree_corridors(rooms@, mst@, i as int + 1, rng.state).0);
            assert(before + tree_corridors(rooms@, mst@, i as int, s_i).0 =~= corr@
                + tree_corridors(rooms@, mst@, i as int + 1, rng.state).0);
            assert(elbow_pair((a, e), (e, b)));
        }
        i = i + 1;
    }
    proof {
        assert(tree_corridors(rooms@, mst@, mst@.len() as int, rng.state).0 =~= Seq::empty());
        assert(corr@ + tree_corridors(rooms@, mst@, mst@.len() as int, rng.state).0 =~= corr@);
        assert(corr@ == tree_total.0);
    }
    let ghost s_tree = rng.state;
    let extra_count = rng.gen_range(0, 5);
    let ghost extras_total = extra_corridors(rooms@, rng.state, extra_count as nat);
    let n = rooms.len();
    let mut t: i32 = 0;
    while t < extra_count
        invariant
            0 <= t <= extra_count,
            0 <= extra_count < 5,
            1 <= rooms@.len() <= 0x7FFF_FFFF,
            n == rooms@.len(),
            rects_bounded(rooms@),
            s0 == old(rng).state,
            tree_total == tree_corridors(rooms@, mst@, 0, s0),
            s_tree == tree_total.1,
            extra_count == range_val(s_tree, 0, 5),
            extras_total == extra_corridors(rooms@, range_state(s_tree, 0, 5), extra_count as nat),
            corr@.len() % 2 == 0,
            corr@.len() >= 2 * mst@.len(),
            extras_total.0 == corr@.subrange(tree_total.0.len() as int, corr@.len() as int)
                + extra_corridors(rooms@, rng.state, (extra_count - t) as nat).0,
            extras_total.1 == extra_corridors(rooms@, rng.state, (extra_count - t) as nat).1,
            corr@.subrange(0, tree_total.0.len() as int) == tree_total.0,
            corr@.len() >= tree_total.0.len(),
            forall|j: int| 0 <= j && 2 * j + 1 < corr@.len() ==> elbow_pair(
                corr@[2 * j],
                #[trigger] corr@[2 * j + 1],
            ),
            forall|k: int| 0 <= k < corr@.len() ==> seg_bounded(#[trigger] corr@[k]),
        decreases extra_count - t,
    {
        let ghost s_t = rng.state;
        let ai = rng.gen_range(0, n as i32);
        let bi = rng.gen_range(0, n as i32);
        if ai != bi {
            let a = rooms[ai as usize].centroid();
            let b = rooms[bi as usize].centroid();
            let c = rng.gen_bool();
            let e = if c {
                Position { x: a.x, y: b.y }
            } else {
                Position { x: b.x, y: a.y }
            };
            let ghost before = corr@;
            corr.push((a, e));
            corr.push((b, e));
            proof {
                assert(extra_corridors(rooms@, s_t, (extra_count - t) as nat).0 == seq![
                    (a, e),
                    (b, e),
                ] + extra_corridors(rooms@, rng.state, (extra_count - t - 1) as nat).0);
                assert(before.subrange(tree_total.0.len() as int, before.len() as int) + seq![
                    (a, e),
                    (b, e),
                ] =~= corr@.subrange(tree_total.0.len() as int, corr@.len() as int));
                assert(before.subrange(tree_total.0.len() as int, before.len() as int)
                    + extra_corridors(rooms@, s_t, (extra_count - t) as nat).0 =~= corr@.subrange(
                    tree_total.0.len() as int,
                    corr@.len() as int,
                ) + extra_corridors(rooms@, rng.state, (extra_count - t - 1) as nat).0);
                assert(corr@.subrange(0, tree_total.0.len() as int) =~= before.subrange(
                    0,
                    tree_total.0.len() as int,
                ));
                assert(elbow_pair((a, e), (b, e)));
            }
        } else {
            proof {
                assert(extra_corridors(rooms@, s_t, (extra_count - t) as nat)
                    == extra_corridors(rooms@, rng.state, (extra_count - t - 1) as nat));
            }
        }
        t = t + 1;
    }
    proof {
        assert(extra_corridors(rooms@, rng.state, 0nat).0 =~= Seq::empty());
        assert(corr@.subrange(tree_total.0.len() as int, corr@.len() as int)
            + extra_corridors(rooms@, rng.state, 0nat).0 =~= corr@.subrange(
            tree_total.0.len() as int,
            corr@.len() as int,
        ));
        assert(corr@ =~= corr@.subrange(0, tree_total.0.len() as int) + corr@.subrange(
            tree_total.0.len() as int,
            corr@.len() as int,
        ));
        assert(corr@ =~= tree_total.0 + extras_total.0);
        assert(corridors_model(rooms@, mst@, s0).0 == tree_total.0 + extras_total.0);
        assert(corridors_model(rooms@, mst@, s0).1 == extras_total.1);
        assert(extras_total.1 == rng.state);
    }
    corr
}

} // verus!
