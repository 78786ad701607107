//! The depth-bounded look-ahead: how many move sequences starting with a
//! given move keep our snake alive to the horizon.
use vstd::prelude::*;
use crate::types::{
    coords_equal, in_bounds, move_at, move_of_index, simulate_move, snakes_view, step_coord,
    Battlesnake, Board, BoardView, Coord, Move, SnakeView,
};
use crate::safety::{is_position_safe, position_safe};
use crate::transition::{
    advanced, board_ok, id_lost, moved, next_board, on_food, opponent_choice,
    opponent_feasible, simulate_step, snake_ok, survivors,
};

verus! {

/// The deepest look-ahead whose score fits in an `i32`.
pub const MAX_DEPTH: i32 = 15;

pub open spec fn pow4(n: int) -> int
    decreases n,
{
    if n <= 0 {
        1
    } else {
        4 * pow4(n - 1)
    }
}

/// The first snake of `ss[n..]` with identifier `id`.
pub open spec fn find_id(ss: Seq<SnakeView>, id: Seq<char>, n: int) -> Option<SnakeView>
    decreases ss.len() - n,
{
    if n < 0 || n >= ss.len() {
        None
    } else if ss[n].id == id {
        Some(ss[n])
    } else {
        find_id(ss, id, n + 1)
    }
}

/// A segment of `s` at `p` stays there next tick: any but its tail, and the
/// tail too when the body has one segment or the head sits on food.
pub open spec fn blocks_next(s: SnakeView, food: Seq<Coord>, p: Coord) -> bool {
    exists|i: int|
        0 <= i < s.body.len() && !(i == s.body.len() - 1 && s.body.len() > 1 && !on_food(
            food,
            s.head,
        )) && s.body[i] == p
}

/// The cheap filter a continuation passes before it is explored: `p` is on
/// the board and no segment that stays is there.
pub open spec fn next_open(b: BoardView, p: Coord) -> bool {
    &&& in_bounds(p, b.width, b.height)
    &&& forall|k: int| 0 <= k < b.snakes.len() ==> !blocks_next(#[trigger] b.snakes[k], b.food, p)
}

/// The branch-survival score of moving `you` in direction `dir` on `b`
/// with `depth` ticks to the horizon.
pub open spec fn move_score(b: BoardView, you: SnakeView, dir: Move, depth: int) -> int
    decreases depth,
{
    if depth <= 0 {
        1
    } else if !position_safe(step_coord(you.head, dir), b, you, true) {
        0
    } else {
        let nb = next_board(b, you, dir);
        match find_id(nb.snakes, you.id, 0) {
            None => 0,
            Some(o) => {
                (if next_open(nb, step_coord(o.head, Move::Up)) {
                    move_score(nb, o, Move::Up, depth - 1)
                } else {
                    0
                }) + (if next_open(nb, step_coord(o.head, Move::Down)) {
                    move_score(nb, o, Move::Down, depth - 1)
                } else {
                    0
                }) + (if next_open(nb, step_coord(o.head, Move::Left)) {
                    move_score(nb, o, Move::Left, depth - 1)
                } else {
                    0
                }) + (if next_open(nb, step_coord(o.head, Move::Right)) {
                    move_score(nb, o, Move::Right, depth - 1)
                } else {
                    0
                })
            },
        }
    }
}

/// The score of the continuation in direction `move_at(j)`, 0 if filtered out.
pub open spec fn branch(nb: BoardView, o: SnakeView, j: int, depth: int) -> int {
    if next_open(nb, step_coord(o.head, move_at(j))) {
        move_score(nb, o, move_at(j), depth)
    } else {
        0
    }
}

/// The sum of the first `n` continuation scores.
pub open spec fn branch_sum(nb: BoardView, o: SnakeView, n: int, depth: int) -> int
    decreases n,
{
    if n <= 0 {
        0
    } else {
        branch_sum(nb, o, n - 1, depth) + branch(nb, o, n - 1, depth)
    }
}

proof fn lemma_pow4_mono(a: int, b: int)
    requires
        0 <= a <= b,
    ensures
        1 <= pow4(a) <= pow4(b),
    decreases b,
{
    if a < b {
        lemma_pow4_mono(a, b - 1);
    } else if a > 0 {
        lemma_pow4_mono(a - 1, a - 1);
    }
}

proof fn lemma_pow4_max()
    ensures
        pow4(MAX_DEPTH as int) == 1073741824,
{
    reveal_with_fuel(pow4, 16);
}

/// A snake that ends in bounds after a tick with room for `d` ticks keeps
/// room for `d - 1`.
proof fn lemma_advanced_ok(s: SnakeView, h: Coord, food: Seq<Coord>, d: int)
    requires
        d >= 1,
        snake_ok(s, d),
        0 <= h.x < i32::MAX,
        0 <= h.y < i32::MAX,
    ensures
        snake_ok(advanced(s, h, food), d - 1),
{
    let body = seq![h] + s.body;
    assert(body[0] == h);
    if body.len() > s.length {
        assert(body.drop_last()[0] == h);
    }
}

proof fn lemma_moved_ok(b: BoardView, you: SnakeView, dir: Move, n: int, d: int)
    requires
        d >= 1,
        snake_ok(you, d),
        board_ok(b, d),
        in_bounds(step_coord(you.head, dir), b.width, b.height),
        n <= b.snakes.len(),
    ensures
        forall|i: int|
            0 <= i < moved(b, you, dir, n).0.len() ==> snake_ok(
                #[trigger] moved(b, you, dir, n).0[i],
                d - 1,
            ),
    decreases n,
{
    if n <= 0 {
        lemma_advanced_ok(you, step_coord(you.head, dir), b.food, d);
    } else {
        lemma_moved_ok(b, you, dir, n - 1, d);
        let (ss, f) = moved(b, you, dir, n - 1);
        let s = b.snakes[n - 1];
        assert(snake_ok(s, d));
        if s.id != you.id {
            match opponent_choice(b, s) {
                None => {
                    assert(moved(b, you, dir, n).0 == ss.push(s));
                },
                Some(m) => {
                    assert(opponent_feasible(b, s.head, m));
                    lemma_advanced_ok(s, step_coord(s.head, m), f, d);
                    assert(moved(b, you, dir, n).0 == ss.push(advanced(s, step_coord(s.head, m), f)));
                },
            }
        }
    }
}

/// Every survivor of a head-to-head resolution is one of the snakes that moved.
pub proof fn lemma_survivors_from(ss: Seq<SnakeView>, n: int)
    requires
        n <= ss.len(),
    ensures
        forall|i: int|
            0 <= i < survivors(ss, n).len() ==> exists|j: int|
                0 <= j < n && #[trigger] survivors(ss, n)[i] == ss[j] && !id_lost(ss, ss[j].id),
    decreases n,
{
    if n > 0 {
        lemma_survivors_from(ss, n - 1);
        let p = survivors(ss, n - 1);
        if !id_lost(ss, ss[n - 1].id) {
            assert forall|i: int| 0 <= i < survivors(ss, n).len() implies exists|j: int|
                0 <= j < n && #[trigger] survivors(ss, n)[i] == ss[j] && !id_lost(ss, ss[j].id) by {
                if i < p.len() {
                    assert(survivors(ss, n)[i] == p[i]);
                } else {
                    assert(survivors(ss, n)[i] == ss[n - 1]);
                }
            }
        }
    }
}

/// A tick from a board with room for `d` ticks, in which our head stays on
/// the board, leaves a board with room for `d - 1`.
pub proof fn lemma_next_board_ok(b: BoardView, you: SnakeView, dir: Move, d: int)
    requires
        d >= 1,
        snake_ok(you, d),
        board_ok(b, d),
        in_bounds(step_coord(you.head, dir), b.width, b.height),
    ensures
        board_ok(next_board(b, you, dir), d - 1),
{
    let n = b.snakes.len() as int;
    lemma_moved_ok(b, you, dir, n, d);
    let ss = moved(b, you, dir, n).0;
    lemma_survivors_from(ss, ss.len() as int);
    let nb = next_board(b, you, dir);
    assert forall|k: int| 0 <= k < nb.snakes.len() implies snake_ok(#[trigger] nb.snakes[k], d - 1) by {
        let j = choose|j: int|
            0 <= j < ss.len() && survivors(ss, ss.len() as int)[k] == ss[j] && !id_lost(ss, ss[j].id);
        assert(snake_ok(ss[j], d - 1));
    }
}

/// What `find_id` finds is a snake of the sequence with the identifier asked for.
pub proof fn lemma_find_id_in(ss: Seq<SnakeView>, id: Seq<char>, n: int)
    requires
        0 <= n,
    ensures
        find_id(ss, id, n) matches Some(o) ==> o.id == id && exists|j: int|
            0 <= j < ss.len() && ss[j] == o,
    decreases ss.len() - n,
{
    if n < ss.len() && ss[n].id != id {
        lemma_find_id_in(ss, id, n + 1);
    }
}

/// The index of the first snake of `snakes` with identifier `id`.
fn find_snake(snakes: &Vec<Battlesnake>, id: &String) -> (r: Option<usize>)
    ensures
        match r {
            None => find_id(snakes_view(snakes@), id@, 0) is None,
            Some(k) => k < snakes@.len() && find_id(snakes_view(snakes@), id@, 0) == Some(
                snakes@[k as int]@,
            ),
        },
{
    let ghost sv = snakes_view(snakes@);
    let mut i: usize = 0;
    while i < snakes.len()
        invariant
            sv == snakes_view(snakes@),
            i <= snakes@.len(),
            find_id(sv, id@, 0) == find_id(sv, id@, i as int),
        decreases snakes.len() - i,
    {
        if snakes[i].id == *id {
            return Some(i);
        }
        i += 1;
    }
    None
}

/// Whether `p` is on food of `food`.
fn food_at(food: &Vec<Coord>, p: &Coord) -> (r: bool)
    ensures
        r == on_food(food@, *p),
{
    let mut i: usize = 0;
    while i < food.len()
        invariant
            i <= food@.len(),
            forall|j: int| 0 <= j < i ==> food@[j] != *p,
        decreases food.len() - i,
    {
        if coords_equal(&food[i], p) {
            return true;
        }
        i += 1;
    }
    false
}

/// Whether a continuation into `p` passes the cheap filter on board `nb`.
fn next_cell_open(nb: &Board, p: &Coord) -> (r: bool)
    ensures
        r == next_open(nb@, *p),
{
    if p.x < 0 || p.x >= nb.width || p.y < 0 || p.y >= nb.height {
        return false;
    }
    let mut k: usize = 0;
    while k < nb.snakes.len()
        invariant
            k <= nb.snakes@.len(),
            in_bounds(*p, nb@.width, nb@.height),
            forall|m: int| 0 <= m < k ==> !blocks_next(#[trigger] nb@.snakes[m], nb@.food, *p),
        decreases nb.snakes.len() - k,
    {
        let snake = &nb.snakes[k];
        assert(nb@.snakes[k as int] == snake@);
        let tail_moves = !food_at(&nb.food, &snake.head);
        let n = snake.body.len();
        let mut i: usize = 0;
        while i < n
            invariant
                n == snake.body@.len(),
                nb@.snakes[k as int] == snake@,
                k < nb@.snakes.len(),
                tail_moves == !on_food(nb@.food, snake.head),
                i <= n,
                forall|j: int|
                    0 <= j < i && !(j == n - 1 && n > 1 && tail_moves) ==> snake.body@[j] != *p,
            decreases n - i,
        {
            if !(i == n - 1 && n > 1 && tail_moves) && coords_equal(&snake.body[i], p) {
                assert(snake@.body[i as int] == *p);
                assert(blocks_next(nb@.snakes[k as int], nb@.food, *p));
                return false;
            }
            i += 1;
        }
        k += 1;
    }
    true
}

/// The branch-survival score of moving `you` in direction `move_dir` with
/// `depth` ticks to the horizon: 1 at the horizon, 0 when the projected head
/// cell is unsafe or our snake does not survive the tick, and otherwise the
/// sum of the scores of the continuations that pass the cheap filter.
pub fn evaluate_move_safety(board: &Board, you: &Battlesnake, move_dir: &Move, depth: i32) -> (r:
    i32)
    requires
        0 <= depth <= MAX_DEPTH,
        snake_ok(you@, depth as int),
        board_ok(board@, depth as int),
    ensures
        r == move_score(board@, you@, *move_dir, depth as int),
        0 <= r <= pow4(depth as int),
    decreases depth,
{
    proof {
        lemma_pow4_mono(depth as int, MAX_DEPTH as int);
        lemma_pow4_max();
    }
    if depth == 0 {
        return 1;
    }
    let new_head = simulate_move(&you.head, move_dir);
    if !is_position_safe(&new_head, board, you, true) {
        return 0;
    }
    proof {
        assert forall|k: int| 0 <= k < board@.snakes.len() implies snake_ok(
            #[trigger] board@.snakes[k],
            1,
        ) by {
            assert(snake_ok(board@.snakes[k], depth as int));
        }
    }
    let simulated_board = simulate_step(board, you, move_dir);
    let ghost nb = simulated_board@;
    proof {
        lemma_next_board_ok(board@, you@, *move_dir, depth as int);
    }
    let found = find_snake(&simulated_board.snakes, &you.id);
    match found {
        None => 0,
        Some(idx) => {
            let our_snake = &simulated_board.snakes[idx];
            let ghost o = our_snake@;
            proof {
                lemma_find_id_in(nb.snakes, you@.id, 0);
                assert(nb.snakes[idx as int] == o);
                assert(snake_ok(o, depth - 1));
                lemma_pow4_mono(depth - 1, depth - 1);
                assert(pow4(depth as int) == 4 * pow4(depth - 1));
            }
            let mut total_safety: i32 = 0;
            let mut j: usize = 0;
            while j < 4
                invariant
                    1 <= depth <= MAX_DEPTH,
                    nb == simulated_board@,
                    o == our_snake@,
                    snake_ok(o, depth - 1),
                    board_ok(nb, depth - 1),
                    pow4(depth as int) <= 1073741824,
                    pow4(depth as int) == 4 * pow4(depth - 1),
                    pow4(depth - 1) >= 1,
                    j <= 4,
                    total_safety == branch_sum(nb, o, j as int, depth - 1),
                    0 <= total_safety <= j * pow4(depth - 1),
                decreases 4 - j,
            {
                let next_move = move_of_index(j);
                let next_pos = simulate_move(&our_snake.head, &next_move);
                if next_cell_open(&simulated_board, &next_pos) {
                    let s = evaluate_move_safety(&simulated_board, our_snake, &next_move, depth - 1);
                    proof {
                        let p = pow4(depth - 1);
                        assert(j * p + p == (j + 1) * p) by (nonlinear_arith);
                        assert((j + 1) * p <= 4 * p) by (nonlinear_arith)
                            requires
                                j < 4,
                                p >= 0,
                        ;
                    }
                    total_safety = total_safety + s;
                }
                proof {
                    let p = pow4(depth - 1);
                    assert(j * p <= (j + 1) * p) by (nonlinear_arith)
                        requires
                            p >= 0,
                    ;
                }
                j += 1;
            }
            proof {
                reveal_with_fuel(branch_sum, 5);
                assert(move_score(board@, you@, *move_dir, depth as int) == branch_sum(
                    nb,
                    o,
                    4,
                    depth - 1,
                ));
            }
            total_safety
        },
    }
}

} // verus!
