//! The single-ply safety check of a candidate cell.
use vstd::prelude::*;
use crate::types::{in_bounds, coords_equal, Battlesnake, Board, BoardView, Coord, SnakeView};

verus! {

/// `p` is one of the segments of `body`.
pub open spec fn hits(body: Seq<Coord>, p: Coord) -> bool {
    exists|i: int| 0 <= i < body.len() && body[i] == p
}

/// The first segment of `body` at `p` is its tail, and the body has more
/// than one segment: the cell is vacated this tick unless the snake grows.
pub open spec fn hits_only_tail(body: Seq<Coord>, p: Coord) -> bool {
    &&& body.len() > 1
    &&& body[body.len() - 1] == p
    &&& forall|i: int| 0 <= i < body.len() - 1 ==> body[i] != p
}

pub open spec fn abs_int(v: int) -> int {
    if v < 0 {
        -v
    } else {
        v
    }
}

pub open spec fn manhattan(a: Coord, b: Coord) -> int {
    abs_int(a.x - b.x) + abs_int(a.y - b.y)
}

/// Snake `s` can reach `p` with its head next tick (or is there) and would
/// not lose a head-to-head against `you`.
pub open spec fn threatens(s: SnakeView, p: Coord, you: SnakeView) -> bool {
    (manhattan(s.head, p) == 1 || s.head == p) && s.length >= you.length
}

/// The verdict of the other snakes `snakes[n..]` on `p`: the first of them
/// that `p` touches decides, every other snake having `you`'s id is skipped.
pub open spec fn others_safe(
    snakes: Seq<SnakeView>,
    p: Coord,
    you: SnakeView,
    look_ahead: bool,
    n: int,
) -> bool
    decreases snakes.len() - n,
{
    if n < 0 || n >= snakes.len() {
        true
    } else {
        let s = snakes[n];
        if s.id == you.id {
            others_safe(snakes, p, you, look_ahead, n + 1)
        } else if hits(s.body, p) {
            hits_only_tail(s.body, p) && !look_ahead
        } else if look_ahead && threatens(s, p, you) {
            false
        } else {
            others_safe(snakes, p, you, look_ahead, n + 1)
        }
    }
}

/// Whether `you` may move into `p` this tick on board `b`.
pub open spec fn position_safe(p: Coord, b: BoardView, you: SnakeView, look_ahead: bool) -> bool {
    if !in_bounds(p, b.width, b.height) {
        false
    } else if hits(you.body, p) {
        hits_only_tail(you.body, p) && !look_ahead && you.health < 100
    } else {
        others_safe(b.snakes, p, you, look_ahead, 0)
    }
}

/// Whether `p` is in `body`, and whether its first occurrence there is the tail
/// of a body of more than one segment.
pub fn body_hit(body: &Vec<Coord>, p: &Coord) -> (r: (bool, bool))
    ensures
        r.0 == hits(body@, *p),
        r.1 == hits_only_tail(body@, *p),
{
    let n = body.len();
    let mut i: usize = 0;
    while i < n
        invariant
            n == body@.len(),
            i <= n,
            forall|j: int| 0 <= j < i ==> body@[j] != *p,
        decreases n - i,
    {
        if coords_equal(&body[i], p) {
            let tail = i == n - 1 && n > 1;
            proof {
                if !tail && n > 1 {
                    assert(0 <= i < body@.len() - 1);
                }
            }
            return (true, tail);
        }
        i += 1;
    }
    (false, false)
}

/// `|a - b|` for two `i32` values, in `i64`.
fn abs_diff(a: i32, b: i32) -> (r: i64)
    ensures
        r == abs_int(a - b),
{
    let d = a as i64 - b as i64;
    if d < 0 {
        -d
    } else {
        d
    }
}

/// Whether `you` may move into `pos` this tick. With `look_ahead`, a cell
/// that a not-shorter opponent's head can reach next tick is unsafe too, and
/// tails are not taken to vacate.
pub fn is_position_safe(pos: &Coord, board: &Board, you: &Battlesnake, look_ahead: bool) -> (r: bool)
    ensures
        r == position_safe(*pos, board@, you@, look_ahead),
{
    if pos.x < 0 || pos.x >= board.width || pos.y < 0 || pos.y >= board.height {
        return false;
    }
    let (own_hit, own_tail) = body_hit(&you.body, pos);
    if own_hit {
        return own_tail && !look_ahead && you.health < 100;
    }
    let ghost sv = board@.snakes;
    let mut i: usize = 0;
    while i < board.snakes.len()
        invariant
            sv == board@.snakes,
            in_bounds(*pos, board@.width, board@.height),
            !hits(you@.body, *pos),
            sv.len() == board.snakes@.len(),
            i <= sv.len(),
            others_safe(sv, *pos, you@, look_ahead, 0) == others_safe(
                sv,
                *pos,
                you@,
                look_ahead,
                i as int,
            ),
        decreases board.snakes.len() - i,
    {
        let snake = &board.snakes[i];
        assert(sv[i as int] == snake@);
        if snake.id == you.id {
            i += 1;
            continue;
        }
        let (hit, tail) = body_hit(&snake.body, pos);
        if hit {
            return tail && !look_ahead;
        }
        if look_ahead {
            let distance = abs_diff(snake.head.x, pos.x) + abs_diff(snake.head.y, pos.y);
            if (distance == 1 || coords_equal(&snake.head, pos)) && snake.length >= you.length {
                return false;
            }
        }
        i += 1;
    }
    true
}

} // verus!
