//! The connectivity graph over room centroids and its spanning tree.
//!
//! The candidate edge set contains every pair of rooms, weighted by the
//! squared distance of their centroids; a minimum-weight spanning subset is
//! then selected with Kruskal's algorithm. The candidate graph trivially
//! connects every pair of rooms, so the selected subset connects all rooms
//! with exactly one edge less than there are rooms.

use vstd::prelude::*;

use crate::position::Position;
use crate::rect::centroid_of;
use crate::rect::Rectangle;
use crate::sampler::COORD_LIMIT;

verus! {

/// A rectangle whose corners lie within the coordinate bound; keeps centroid
/// differences and their squares within machine range.
pub open spec fn rect_bounded(r: Rectangle) -> bool {
    r.wf() && -COORD_LIMIT <= r.min.x && r.max.x <= COORD_LIMIT && -COORD_LIMIT <= r.min.y
        && r.max.y <= COORD_LIMIT
}

/// Every rectangle of the list lies within the coordinate bound.
pub open spec fn rects_bounded(rooms: Seq<Rectangle>) -> bool {
    forall|i: int| 0 <= i < rooms.len() ==> rect_bounded(#[trigger] rooms[i])
}

/// The weight of the edge between two rooms: the squared Euclidean distance
/// of their centroids.
pub open spec fn edge_weight(a: Rectangle, b: Rectangle) -> i64 {
    let ca = centroid_of(a);
    let cb = centroid_of(b);
    ((ca.x - cb.x) * (ca.x - cb.x) + (ca.y - cb.y) * (ca.y - cb.y)) as i64
}

/// The candidate edges pairing room `a` with every room from `b` upward.
pub open spec fn pairs_from_row(rooms: Seq<Rectangle>, a: int, b: int) -> Seq<(usize, usize, i64)>
    decreases rooms.len() - b,
{
    if b < 0 || b >= rooms.len() {
        Seq::empty()
    } else {
        seq![(a as usize, b as usize, edge_weight(rooms[a], rooms[b]))] + pairs_from_row(
            rooms,
            a,
            b + 1,
        )
    }
}

/// The candidate edges among the rooms from `a` upward.
pub open spec fn pairs_from(rooms: Seq<Rectangle>, a: int) -> Seq<(usize, usize, i64)>
    decreases rooms.len() - a,
{
    if a < 0 || a >= rooms.len() {
        Seq::empty()
    } else {
        pairs_from_row(rooms, a, a + 1) + pairs_from(rooms, a + 1)
    }
}

/// The whole candidate edge set: every unordered pair of distinct rooms,
/// listed once with the lower index first.
pub open spec fn pairs_model(rooms: Seq<Rectangle>) -> Seq<(usize, usize, i64)> {
    pairs_from(rooms, 0)
}

/// Whether some edge of the list joins vertices `a` and `b`, in either
/// orientation.
pub open spec fn links(edges: Seq<(usize, usize, i64)>, a: int, b: int) -> bool {
    exists|i: int|
        0 <= i < edges.len() && ((#[trigger] edges[i]).0 == a && edges[i].1 == b || (edges[i].0
            == b && edges[i].1 == a))
}

/// A walk through vertices `0..n` along edges of the list.
pub open spec fn is_path(n: int, edges: Seq<(usize, usize, i64)>, p: Seq<int>) -> bool {
    p.len() >= 1 && (forall|k: int| 0 <= k < p.len() ==> 0 <= #[trigger] p[k] < n) && (forall|
        k: int,
    |
        0 <= k < p.len() - 1 ==> links(edges, p[k], #[trigger] p[k + 1]))
}

/// Whether vertices `a` and `b` are joined by some walk.
pub open spec fn connected(n: int, edges: Seq<(usize, usize, i64)>, a: int, b: int) -> bool {
    exists|p: Seq<int>| is_path(n, edges, p) && p[0] == a && p[p.len() - 1] == b
}

/// Whether the edge list joins every pair of the `n` vertices.
pub open spec fn connects_all(n: int, edges: Seq<(usize, usize, i64)>) -> bool {
    forall|a: int, b: int| 0 <= a < n && 0 <= b < n ==> connected(n, edges, a, b)
}

/// Each row lists exactly the pairs of `a` with `b`, `b + 1`, and so on.
proof fn lemma_row_shape(rooms: Seq<Rectangle>, a: int, b: int)
    requires
        0 <= a < rooms.len(),
        a < b,
        rooms.len() <= usize::MAX,
    ensures
        ({
            let row = pairs_from_row(rooms, a, b);
            (row.len() == if b <= rooms.len() {
                rooms.len() - b
            } else {
                0
            }) && forall|i: int|
                0 <= i < row.len() ==> #[trigger] row[i] == (
                    a as usize,
                    (b + i) as usize,
                    edge_weight(rooms[a], rooms[b + i]),
                )
        }),
    decreases rooms.len() - b,
{
    if 0 <= b && b < rooms.len() {
        lemma_row_shape(rooms, a, b + 1);
    }
}

/// The candidate edges from `a` upward: well-formed indices, correct
/// weights, and every pair present.
proof fn lemma_pairs_from_props(rooms: Seq<Rectangle>, a: int)
    requires
        0 <= a,
        rooms.len() <= usize::MAX,
    ensures
        ({
            let pf = pairs_from(rooms, a);
            (forall|i: int|
                0 <= i < pf.len() ==> a <= (#[trigger] pf[i]).0 < pf[i].1 < rooms.len() && pf[i].2
                    == edge_weight(rooms[pf[i].0 as int], rooms[pf[i].1 as int])) && (forall|
                x: int,
                y: int,
            |
                a <= x < y < rooms.len() ==> pf.contains(
                    (x as usize, y as usize, edge_weight(rooms[x], rooms[y])),
                ))
        }),
    decreases rooms.len() - a,
{
    if a < rooms.len() {
        let row = pairs_from_row(rooms, a, a + 1);
        let rest = pairs_from(rooms, a + 1);
        let pf = pairs_from(rooms, a);
        lemma_row_shape(rooms, a, a + 1);
        lemma_pairs_from_props(rooms, a + 1);
        assert forall|i: int|
            0 <= i < pf.len() implies a <= (#[trigger] pf[i]).0 < pf[i].1 < rooms.len() && pf[i].2
            == edge_weight(rooms[pf[i].0 as int], rooms[pf[i].1 as int]) by {
            if i < row.len() {
                assert(pf[i] == row[i]);
            } else {
                assert(pf[i] == rest[i - row.len()]);
            }
        }
        assert forall|x: int, y: int| a <= x < y < rooms.len() implies pf.contains(
            (x as usize, y as usize, edge_weight(rooms[x], rooms[y])),
        ) by {
            let e = (x as usize, y as usize, edge_weight(rooms[x], rooms[y]));
            if x == a {
                assert(row[y - a - 1] == e);
                assert(pf[y - a - 1] == e);
            } else {
                assert(rest.contains(e));
                let i = choose|i: int| 0 <= i < rest.len() && rest[i] == e;
                assert(pf[row.len() + i] == e);
            }
        }
    }
}

/// The candidate edge set joins every pair of rooms.
proof fn lemma_pairs_connect(rooms: Seq<Rectangle>)
    requires
        rooms.len() >= 1,
        rooms.len() <= usize::MAX,
    ensures
        connects_all(rooms.len() as int, pairs_model(rooms)),
{
    let n = rooms.len() as int;
    let edges = pairs_model(rooms);
    lemma_pairs_from_props(rooms, 0);
    assert forall|a: int, b: int| 0 <= a < n && 0 <= b < n implies connected(n, edges, a, b) by {
        if a == b {
            let p = seq![a];
            assert(is_path(n, edges, p) && p[0] == a && p[p.len() - 1] == b);
        } else {
            let (x, y) = if a < b {
                (a, b)
            } else {
                (b, a)
            };
            let e = (x as usize, y as usize, edge_weight(rooms[x], rooms[y]));
            assert(edges.contains(e));
            let i = choose|i: int| 0 <= i < edges.len() && edges[i] == e;
            assert(links(edges, a, b));
            let p = seq![a, b];
            assert(p[0] == a && p[p.len() - 1] == b);
            assert(forall|k: int| 0 <= k < p.len() ==> 0 <= #[trigger] p[k] < n);
            assert(links(edges, p[0], p[1]));
            assert(is_path(n, edges, p));
        }
    }
}

/// The squared centroid distance of two bounded rooms.
fn edge_weight_exec(a: &Rectangle, b: &Rectangle) -> (w: i64)
    requires
        rect_bounded(*a),
        rect_bounded(*b),
    ensures
        w == edge_weight(*a, *b),
{
    let ca = a.centroid();
    let cb = b.centroid();
    let dx = ca.x as i64 - cb.x as i64;
    let dy = ca.y as i64 - cb.y as i64;
    proof {
        assert(-2 * COORD_LIMIT <= dx <= 2 * COORD_LIMIT);
        assert(-2 * COORD_LIMIT <= dy <= 2 * COORD_LIMIT);
        assert(dx * dx <= 4 * (COORD_LIMIT as int) * (COORD_LIMIT as int) && dx * dx >= 0)
            by (nonlinear_arith)
            requires
                -2 * COORD_LIMIT <= dx <= 2 * COORD_LIMIT,
        ;
        assert(dy * dy <= 4 * (COORD_LIMIT as int) * (COORD_LIMIT as int) && dy * dy >= 0)
            by (nonlinear_arith)
            requires
                -2 * COORD_LIMIT <= dy <= 2 * COORD_LIMIT,
        ;
    }
    dx * dx + dy * dy
}

/// Build the candidate edge set over the rooms: one weighted edge for every
/// unordered pair of distinct rooms.
pub fn build_edges(rooms: &Vec<Rectangle>) -> (r: Vec<(usize, usize, i64)>)
    requires
        rects_bounded(rooms@),
    ensures
        r@ == pairs_model(rooms@),
        forall|i: int|
            0 <= i < r@.len() ==> (#[trigger] r@[i]).0 < r@[i].1 < rooms@.len() && r@[i].2
                == edge_weight(rooms@[r@[i].0 as int], rooms@[r@[i].1 as int]),
        forall|x: int, y: int|
            0 <= x < y < rooms@.len() ==> links(r@, x, y),
{
    let n = rooms.len();
    let mut edges: Vec<(usize, usize, i64)> = Vec::new();
    let mut a: usize = 0;
    while a < n
        invariant
            0 <= a <= n,
            n == rooms@.len(),
            rects_bounded(rooms@),
            pairs_model(rooms@) == edges@ + pairs_from(rooms@, a as int),
        decreases n - a,
    {
        let mut b: usize = a + 1;
        proof {
            assert(edges@ + pairs_from(rooms@, a as int) =~= edges@ + pairs_from_row(
                rooms@,
                a as int,
                a + 1,
            ) + pairs_from(rooms@, a as int + 1));
        }
        while b < n
            invariant
                a < b <= n || (a + 1 > n && b == a + 1),
                a < n,
                n == rooms@.len(),
                rects_bounded(rooms@),
                pairs_model(rooms@) == edges@ + pairs_from_row(rooms@, a as int, b as int)
                    + pairs_from(rooms@, a as int + 1),
            decreases n - b,
        {
            let w = edge_weight_exec(&rooms[a], &rooms[b]);
            let ghost eds = edges@;
            edges.push((a, b, w));
            proof {
                assert(pairs_from_row(rooms@, a as int, b as int) == seq![
                    (a, b, edge_weight(rooms@[a as int], rooms@[b as int])),
                ] + pairs_from_row(rooms@, a as int, b as int + 1));
                assert(eds + pairs_from_row(rooms@, a as int, b as int) + pairs_from(
                    rooms@,
                    a as int + 1,
                ) =~= edges@ + pairs_from_row(rooms@, a as int, b as int + 1) + pairs_from(
                    rooms@,
                    a as int + 1,
                ));
            }
            b = b + 1;
        }
        proof {
            assert(pairs_from_row(rooms@, a as int, n as int) =~= Seq::empty());
            assert(edges@ + pairs_from_row(rooms@, a as int, n as int) + pairs_from(
                rooms@,
                a as int + 1,
            ) =~= edges@ + pairs_from(rooms@, a as int + 1));
        }
        a = a + 1;
    }
    proof {
        assert(pairs_from(rooms@, n as int) =~= Seq::empty());
        assert(edges@ + pairs_from(rooms@, n as int) =~= edges@);
        lemma_pairs_from_props(rooms@, 0);
        assert forall|x: int, y: int| 0 <= x < y < rooms@.len() implies links(edges@, x, y) by {
            let e = (x as usize, y as usize, edge_weight(rooms@[x], rooms@[y]));
            assert(edges@.contains(e));
            let i = choose|i: int| 0 <= i < edges@.len() && edges@[i] == e;
            assert((edges@[i]).0 == x && edges@[i].1 == y);
        }
    }
    edges
}

/// What Kruskal's algorithm of the `pathfinding` crate returns for `n`
/// vertices and the given edge list.
pub uninterp spec fn kruskal_of(n: int, edges: Seq<(usize, usize, i64)>) -> Seq<(usize, usize, i64)>;

/// Relies on `pathfinding::undirected::kruskal::kruskal_indices`: from a
/// list of weighted edges over the vertices `0..n`, it returns a
/// minimum-weight spanning subset of the edges: a forest that keeps every
/// pair of vertices connected that the input connects, with one edge fewer
/// than there are vertices when the input connects them all. Vertex indices
/// at or above `n` would make it panic, so they are excluded here.
#[verifier::external_body]
fn kruskal_mst(n: usize, edges: &Vec<(usize, usize, i64)>) -> (r: Vec<(usize, usize, i64)>)
    requires
        forall|i: int| 0 <= i < edges@.len() ==> (#[trigger] edges@[i]).0 < n && edges@[i].1 < n,
    ensures
        r@ == kruskal_of(n as int, edges@),
        forall|i: int| 0 <= i < r@.len() ==> edges@.contains(#[trigger] r@[i]),
        n >= 1 && connects_all(n as int, edges@) ==> r@.len() == n as int - 1,
        connects_all(n as int, edges@) ==> connects_all(n as int, r@),
{
    pathfinding::undirected::kruskal::kruskal_indices(n, edges.as_slice()).collect()
}

/// Select the corridor backbone: a minimum-weight spanning subset of the
/// candidate edges, connecting all rooms with exactly one edge per room less
/// one.
pub fn plan_spanning_edges(rooms: &Vec<Rectangle>) -> (r: Vec<(usize, usize, i64)>)
    requires
        rooms@.len() >= 1,
        rects_bounded(rooms@),
    ensures
        r@ == kruskal_of(rooms@.len() as int, pairs_model(rooms@)),
        r@.len() == rooms@.len() - 1,
        connects_all(rooms@.len() as int, r@),
        forall|i: int| 0 <= i < r@.len() ==> (#[trigger] r@[i]).0 < r@[i].1 < rooms@.len(),
{
    let edges = build_edges(rooms);
    let n = rooms.len();
    proof {
        assert(rooms@.len() == n as int);
        lemma_pairs_connect(rooms@);
    }
    let mst = kruskal_mst(n, &edges);
    proof {
        assert forall|i: int| 0 <= i < mst@.len() implies (#[trigger] mst@[i]).0 < mst@[i].1
            < rooms@.len() by {
            assert(edges@.contains(mst@[i]));
            let j = choose|j: int| 0 <= j < edges@.len() && edges@[j] == mst@[i];
            assert(edges@[j].0 < edges@[j].1 < rooms@.len());
        }
    }
    mst
}

} // verus!
