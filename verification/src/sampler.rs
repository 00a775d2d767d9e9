//! Rejection-sampled room placement.
//!
//! Each room is drawn as a random corner within the target area and a random
//! extent within the configured size range; a candidate is accepted when it
//! fits inside the area and overlaps no previously accepted room. Trials per
//! room are capped, and exhaustion is an explicit failure. The whole process
//! is a pure function of the random-stream state, given by [`place_rooms`].

use vstd::prelude::*;

use crate::dungeon::DungeonError;
use crate::position::Position;
use crate::rect::rects_overlap;
use crate::rect::Rectangle;
use crate::rng::range_state;
use crate::rng::range_val;
use crate::rng::RandomStream;

verus! {

/// Coordinate bound on the target area and the room extents; keeps every
/// derived coordinate, and every squared centroid distance, within machine
/// range.
pub const COORD_LIMIT: i32 = 100_000_000;

/// A valid room-size range: componentwise `0 <= min <= max`, within the
/// coordinate bound.
pub open spec fn size_range_ok(min_s: Position, max_s: Position) -> bool {
    0 <= min_s.x <= max_s.x <= COORD_LIMIT && 0 <= min_s.y <= max_s.y <= COORD_LIMIT
}

/// A valid target area `[from, to)`: nonempty on both axes, within the
/// coordinate bound.
pub open spec fn area_ok(from: Position, to: Position) -> bool {
    -COORD_LIMIT <= from.x < to.x <= COORD_LIMIT && -COORD_LIMIT <= from.y < to.y <= COORD_LIMIT
}

/// The candidate rectangle one trial draws at stream state `s`, and the
/// state after its four draws: corner x, corner y, width, height.
pub open spec fn trial_rect(
    s: u64,
    from: Position,
    to: Position,
    min_s: Position,
    max_s: Position,
) -> (Rectangle, u64) {
    let x = range_val(s, from.x, to.x);
    let s1 = range_state(s, from.x, to.x);
    let y = range_val(s1, from.y, to.y);
    let s2 = range_state(s1, from.y, to.y);
    let w = range_val(s2, min_s.x, max_s.x);
    let s3 = range_state(s2, min_s.x, max_s.x);
    let h = range_val(s3, min_s.y, max_s.y);
    let s4 = range_state(s3, min_s.y, max_s.y);
    (
        Rectangle {
            min: Position { x, y },
            max: Position { x: (x + w) as i32, y: (y + h) as i32 },
        },
        s4,
    )
}

/// Whether a candidate overlaps any accepted room.
pub open spec fn overlaps_any(rooms: Seq<Rectangle>, c: Rectangle) -> bool {
    exists|i: int| 0 <= i < rooms.len() && rects_overlap(rooms[i], c)
}

/// Whether a candidate is accepted: it stays inside the area and overlaps no
/// accepted room.
pub open spec fn room_accepted(to: Position, rooms: Seq<Rectangle>, c: Rectangle) -> bool {
    c.max.x <= to.x && c.max.y <= to.y && !overlaps_any(rooms, c)
}

/// The result of placing one room by repeated trials: the accepted
/// rectangle, if any trial within the budget succeeds, and the stream state
/// after the trials consumed.
pub open spec fn place_one(
    rooms: Seq<Rectangle>,
    s: u64,
    trials: nat,
    from: Position,
    to: Position,
    min_s: Position,
    max_s: Position,
) -> (Option<Rectangle>, u64)
    decreases trials,
{
    if trials == 0 {
        (None::<Rectangle>, s)
    } else {
        let (c, s1) = trial_rect(s, from, to, min_s, max_s);
        if room_accepted(to, rooms, c) {
            (Some(c), s1)
        } else {
            place_one(rooms, s1, (trials - 1) as nat, from, to, min_s, max_s)
        }
    }
}

/// The result of placing `k` further rooms after `rooms`: the final room
/// list, or `None` when some room exhausts its trial budget, and the stream
/// state afterwards.
pub open spec fn place_rooms(
    k: nat,
    rooms: Seq<Rectangle>,
    s: u64,
    trials: nat,
    from: Position,
    to: Position,
    min_s: Position,
    max_s: Position,
) -> (Option<Seq<Rectangle>>, u64)
    decreases k,
{
    if k == 0 {
        (Some(rooms), s)
    } else {
        let (c, s1) = place_one(rooms, s, trials, from, to, min_s, max_s);
        match c {
            None => (None::<Seq<Rectangle>>, s1),
            Some(c) => place_rooms(
                (k - 1) as nat,
                rooms.push(c),
                s1,
                trials,
                from,
                to,
                min_s,
                max_s,
            ),
        }
    }
}

/// A room acceptable within the area: well-formed and contained in
/// `[from, to)` componentwise.
pub open spec fn room_ok(from: Position, to: Position, r: Rectangle) -> bool {
    r.wf() && from.x <= r.min.x && from.y <= r.min.y && r.max.x <= to.x && r.max.y <= to.y
}

/// A valid room list: every room acceptable, and no two rooms overlapping.
pub open spec fn rooms_ok(from: Position, to: Position, rooms: Seq<Rectangle>) -> bool {
    (forall|i: int| 0 <= i < rooms.len() ==> room_ok(from, to, #[trigger] rooms[i])) && (forall|
        i: int,
        j: int,
    |
        0 <= i < j < rooms.len() ==> !rects_overlap(rooms[i], rooms[j]))
}

/// A room accepted by [`place_one`] is acceptable and overlap-free.
proof fn lemma_place_one_ok(
    rooms: Seq<Rectangle>,
    s: u64,
    trials: nat,
    from: Position,
    to: Position,
    min_s: Position,
    max_s: Position,
)
    requires
        area_ok(from, to),
        size_range_ok(min_s, max_s),
    ensures
        ({
            let (c, s1) = place_one(rooms, s, trials, from, to, min_s, max_s);
            match c {
                Some(c) => room_ok(from, to, c) && !overlaps_any(rooms, c),
                None => true,
            }
        }),
    decreases trials,
{
    if trials > 0 {
        let (c, s1) = trial_rect(s, from, to, min_s, max_s);
        if room_accepted(to, rooms, c) {
        } else {
            lemma_place_one_ok(rooms, s1, (trials - 1) as nat, from, to, min_s, max_s);
        }
    }
}

/// Whether a candidate overlaps any room of the list.
fn overlaps_any_exec(rooms: &Vec<Rectangle>, c: &Rectangle) -> (r: bool)
    ensures
        r == overlaps_any(rooms@, *c),
{
    let mut any = false;
    let mut idx: usize = 0;
    while idx < rooms.len()
        invariant
            0 <= idx <= rooms@.len(),
            any == exists|i: int| 0 <= i < idx && rects_overlap(rooms@[i], *c),
        decreases rooms@.len() - idx,
    {
        if rooms[idx].overlaps(c) {
            any = true;
        }
        idx = idx + 1;
    }
    any
}

/// Place exactly `n` pairwise non-overlapping rooms inside `[from, to)`, or
/// report that the constraints could not be satisfied within the trial
/// budget. The outcome, including the stream consumed, is exactly
/// [`place_rooms`] of the starting stream state.
pub fn sample_rooms(
    rng: &mut RandomStream,
    n: u16,
    max_trials: u32,
    from: Position,
    to: Position,
    min_s: Position,
    max_s: Position,
) -> (r: Result<Vec<Rectangle>, DungeonError>)
    requires
        n >= 1,
        max_trials >= 1,
        area_ok(from, to),
        size_range_ok(min_s, max_s),
    ensures
        ({
            let (res, s_end) = place_rooms(
                n as nat,
                Seq::empty(),
                old(rng).state,
                max_trials as nat,
                from,
                to,
                min_s,
                max_s,
            );
            final(rng).state == s_end && match r {
                Ok(rooms) => res == Some(rooms@),
                Err(e) => e == DungeonError::Unsatisfiable && res is None,
            }
        }),
        match r {
            Ok(rooms) => rooms@.len() == n as int && rooms_ok(from, to, rooms@),
            Err(_) => true,
        },
{
    let ghost s0 = rng.state;
    let ghost total = place_rooms(
        n as nat,
        Seq::empty(),
        s0,
        max_trials as nat,
        from,
        to,
        min_s,
        max_s,
    );
    let mut rooms: Vec<Rectangle> = Vec::new();
    let mut k: u16 = 0;
    while k < n
        invariant
            0 <= k <= n,
            n >= 1,
            max_trials >= 1,
            s0 == old(rng).state,
            area_ok(from, to),
            size_range_ok(min_s, max_s),
            rooms@.len() == k as int,
            rooms_ok(from, to, rooms@),
            total == place_rooms(
                n as nat,
                Seq::empty(),
                s0,
                max_trials as nat,
                from,
                to,
                min_s,
                max_s,
            ),
            total == place_rooms(
                (n - k) as nat,
                rooms@,
                rng.state,
                max_trials as nat,
                from,
                to,
                min_s,
                max_s,
            ),
        decreases n - k,
    {
        let ghost s_in = rng.state;
        let ghost one = place_one(
            rooms@,
            s_in,
            max_trials as nat,
            from,
            to,
            min_s,
            max_s,
        );
        let mut found: Option<Rectangle> = None;
        let mut t: u32 = 0;
        while t < max_trials && found.is_none()
            invariant
                0 <= t <= max_trials,
                area_ok(from, to),
                size_range_ok(min_s, max_s),
                one == place_one(
                    rooms@,
                    s_in,
                    max_trials as nat,
                    from,
                    to,
                    min_s,
                    max_s,
                ),
                match found {
                    Some(c) => one == (Some(c), rng.state),
                    None => one == place_one(
                        rooms@,
                        rng.state,
                        (max_trials - t) as nat,
                        from,
                        to,
                        min_s,
                        max_s,
                    ),
                },
            decreases max_trials - t,
        {
            let ghost s_t = rng.state;
            let min_x = rng.gen_range(from.x, to.x);
            let min_y = rng.gen_range(from.y, to.y);
            let w = rng.gen_range(min_s.x, max_s.x);
            let h = rng.gen_range(min_s.y, max_s.y);
            let cand = Rectangle::new(
                Position { x: min_x, y: min_y },
                Position { x: min_x + w, y: min_y + h },
            );
            proof {
                assert(cand == trial_rect(s_t, from, to, min_s, max_s).0);
                assert(rng.state == trial_rect(s_t, from, to, min_s, max_s).1);
            }
            let fits = cand.max.x <= to.x && cand.max.y <= to.y;
            let overl = overlaps_any_exec(&rooms, &cand);
            if fits && !overl {
                found = Some(cand);
                proof {
                    assert(room_accepted(to, rooms@, cand));
                    assert(place_one(
                        rooms@,
                        s_t,
                        (max_trials - t) as nat,
                        from,
                        to,
                        min_s,
                        max_s,
                    ) == (Some(cand), rng.state));
                }
            } else {
                proof {
                    assert(!room_accepted(to, rooms@, cand));
                    assert(place_one(
                        rooms@,
                        s_t,
                        (max_trials - t) as nat,
                        from,
                        to,
                        min_s,
                        max_s,
                    ) == place_one(
                        rooms@,
                        rng.state,
                        (max_trials - t - 1) as nat,
                        from,
                        to,
                        min_s,
                        max_s,
                    ));
                }
            }
            t = t + 1;
        }
        match found {
            Some(c) => {
                proof {
                    lemma_place_one_ok(
                        rooms@,
                        s_in,
                        max_trials as nat,
                        from,
                        to,
                        min_s,
                        max_s,
                    );
                    assert(place_rooms(
                        (n - k) as nat,
                        rooms@,
                        s_in,
                        max_trials as nat,
                        from,
                        to,
                        min_s,
                        max_s,
                    ) == place_rooms(
                        (n - k - 1) as nat,
                        rooms@.push(c),
                        rng.state,
                        max_trials as nat,
                        from,
                        to,
                        min_s,
                        max_s,
                    ));
                }
                rooms.push(c);
            },
            None => {
                proof {
                    assert(t == max_trials);
                    assert(place_one(rooms@, rng.state, 0nat, from, to, min_s, max_s) == (
                    None::<Rectangle>, rng.state));
                    assert(one == (None::<Rectangle>, rng.state));
                    assert(place_rooms(
                        (n - k) as nat,
                        rooms@,
                        s_in,
                        max_trials as nat,
                        from,
                        to,
                        min_s,
                        max_s,
                    ) == (None::<Seq<Rectangle>>, rng.state));
                }
                return Err(DungeonError::Unsatisfiable);
            },
        }
        k = k + 1;
    }
    proof {
        assert(place_rooms(0nat, rooms@, rng.state, max_trials as nat, from, to, min_s, max_s)
            == (Some(rooms@), rng.state));
    }
    Ok(rooms)
}

} // verus!
