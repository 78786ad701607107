//! The per-turn move choice: rule out moves by the walls and by adjacent
//! bodies, drop those the look-ahead scores 0, then prefer moves away from
//! the walls, toward the quadrant least filled by our body and onto the
//! nearest food there, picking at random among what is left.
use vstd::prelude::*;
use crate::types::{
    move_at, move_of_index, simulate_move, step_coord, steppable, Battlesnake, Board,
    BoardView, Coord, Game, Move, SnakeView,
};
use crate::safety::{abs_int, body_hit, hits};
use crate::transition::{board_ok, snake_ok};
use crate::lookahead::{evaluate_move_safety, move_score};

verus! {

/// How many ticks the move choice looks ahead.
pub const LOOKAHEAD_DEPTH: i32 = 3;

/// The chosen move and a short remark to go with it (empty for none).
pub struct MoveResponse {
    pub chosen: Move,
    pub shout: &'static str,
}

/// Called when a game begins; there is nothing to set up.
pub fn start(_game: &Game, _turn: &i32, _board: &Board, _you: &Battlesnake) {
}

/// Called when a game ends; there is nothing to tear down.
pub fn end(_game: &Game, _turn: &i32, _board: &Board, _you: &Battlesnake) {
}

/// Moving `m` from `head` leaves the board.
pub open spec fn edge_unsafe(head: Coord, w: i32, h: i32, m: Move) -> bool {
    match m {
        Move::Left => head.x == 0,
        Move::Right => head.x > 1 && head.x >= w - 1,
        Move::Down => head.y == 0,
        Move::Up => head.y > 1 && head.y == h - 1,
    }
}

/// Moving `m` from `head` ends next to a wall.
pub open spec fn edge_undesirable(head: Coord, w: i32, h: i32, m: Move) -> bool {
    match m {
        Move::Left => head.x == 1,
        Move::Right => head.x > 1 && head.x >= w - 2 && head.x < w - 1,
        Move::Down => head.y == 1,
        Move::Up => head.y > 1 && head.y >= h - 2 && head.y != h - 1,
    }
}

/// The cell next to our head in direction `m` holds a segment of ours or of
/// any snake on the board.
pub open spec fn body_adjacent(b: BoardView, you: SnakeView, m: Move) -> bool {
    let p = step_coord(you.head, m);
    hits(you.body, p) || exists|k: int| 0 <= k < b.snakes.len() && hits(#[trigger] b.snakes[k].body, p)
}

/// Move `m` survives the wall and body checks and the look-ahead.
pub open spec fn move_safe(b: BoardView, you: SnakeView, m: Move) -> bool {
    &&& !edge_unsafe(you.head, b.width, b.height, m)
    &&& !body_adjacent(b, you, m)
    &&& move_score(b, you, m, LOOKAHEAD_DEPTH as int) != 0
}

/// The moves `move_at(j)`, `j < n`, whose flag is set, in order.
pub open spec fn pick(flags: Seq<bool>, n: int) -> Seq<Move>
    decreases n,
{
    if n <= 0 {
        seq![]
    } else if flags[n - 1] {
        pick(flags, n - 1).push(move_at(n - 1))
    } else {
        pick(flags, n - 1)
    }
}

/// The quadrant of `c`, numbered 1 to 4: west half first, south half first.
pub open spec fn quadrant_of(c: Coord, w: i32, h: i32) -> int {
    if c.x < w / 2 {
        if c.y < h / 2 {
            1
        } else {
            2
        }
    } else {
        if c.y < h / 2 {
            3
        } else {
            4
        }
    }
}

/// How many of `s[..n]` lie in quadrant `q`.
pub open spec fn count_in(s: Seq<Coord>, q: int, w: i32, h: i32, n: int) -> int
    decreases n,
{
    if n <= 0 {
        0
    } else {
        count_in(s, q, w, h, n - 1) + if quadrant_of(s[n - 1], w, h) == q {
            1int
        } else {
            0
        }
    }
}

/// The count of `s` in each quadrant, the first quadrant at index 0.
pub open spec fn quadrant_counts(s: Seq<Coord>, w: i32, h: i32) -> Seq<int> {
    Seq::new(4, |i: int| count_in(s, i + 1, w, h, s.len() as int))
}

/// Scanning indices `1..n` from index 0: the index with the fewest body
/// segments, a later index with as few taking over when it has more food
/// than the best seen since the last strict minimum; with that minimum and
/// that food count.
pub open spec fn least_quadrant(bc: Seq<int>, fc: Seq<int>, n: int) -> (int, int, int)
    decreases n,
{
    if n <= 1 {
        (0, bc[0], 0)
    } else {
        let (q, mc, mf) = least_quadrant(bc, fc, n - 1);
        let i = n - 1;
        if bc[i] < mc {
            (i, bc[i], 0)
        } else if bc[i] == mc && fc[i] > mf {
            (i, mc, fc[i])
        } else {
            (q, mc, mf)
        }
    }
}

/// Move `m` heads toward the quadrant numbered `q`.
pub open spec fn toward_quadrant(m: Move, q: int) -> bool {
    match m {
        Move::Up => q == 1 || q == 2,
        Move::Down => q == 3 || q == 4,
        Move::Left => q == 1 || q == 3,
        Move::Right => q == 2 || q == 4,
    }
}

pub open spec fn food_distance(f: Coord, head: Coord) -> int {
    abs_int(f.x - head.x) + abs_int(f.y - head.y)
}

/// The first of the nearest items of `food[..n]` in quadrant `q`.
pub open spec fn nearest_food(food: Seq<Coord>, head: Coord, q: int, w: i32, h: i32, n: int) -> Option<
    Coord,
>
    decreases n,
{
    if n <= 0 {
        None
    } else {
        let best = nearest_food(food, head, q, w, h, n - 1);
        let f = food[n - 1];
        if quadrant_of(f, w, h) != q {
            best
        } else {
            match best {
                None => Some(f),
                Some(g) => if food_distance(f, head) < food_distance(g, head) {
                    Some(f)
                } else {
                    Some(g)
                },
            }
        }
    }
}

/// The cell that the food preference takes move `m` to lead to (Up is -y here).
pub open spec fn food_step(head: Coord, m: Move) -> Coord {
    match m {
        Move::Up => Coord { x: head.x, y: (head.y - 1) as i32 },
        Move::Down => Coord { x: head.x, y: (head.y + 1) as i32 },
        Move::Left => Coord { x: (head.x - 1) as i32, y: head.y },
        Move::Right => Coord { x: (head.x + 1) as i32, y: head.y },
    }
}

pub open spec fn safe_flags(b: BoardView, you: SnakeView) -> Seq<bool> {
    Seq::new(4, |j: int| move_safe(b, you, move_at(j)))
}

pub open spec fn desirable_flags(b: BoardView, you: SnakeView) -> Seq<bool> {
    Seq::new(
        4,
        |j: int|
            safe_flags(b, you)[j] && !edge_undesirable(you.head, b.width, b.height, move_at(j)),
    )
}

/// The quadrant index that the move choice steers to.
pub open spec fn target_quadrant(b: BoardView, you: SnakeView) -> int {
    least_quadrant(
        quadrant_counts(you.body, b.width, b.height),
        quadrant_counts(b.food, b.width, b.height),
        4,
    ).0
}

pub open spec fn quadrant_flags(b: BoardView, you: SnakeView) -> Seq<bool> {
    Seq::new(
        4,
        |j: int|
            desirable_flags(b, you)[j] && toward_quadrant(move_at(j), target_quadrant(b, you)),
    )
}

pub open spec fn food_flags(b: BoardView, you: SnakeView) -> Seq<bool> {
    let target = nearest_food(
        b.food,
        you.head,
        target_quadrant(b, you),
        b.width,
        b.height,
        b.food.len() as int,
    );
    Seq::new(
        4,
        |j: int|
            quadrant_flags(b, you)[j] && match target {
                Some(f) => food_step(you.head, move_at(j)) == f,
                None => false,
            },
    )
}

/// The moves the choice is drawn from; empty when no move is safe.
pub open spec fn candidates(b: BoardView, you: SnakeView) -> Seq<Move> {
    let safe = pick(safe_flags(b, you), 4);
    let desirable = pick(desirable_flags(b, you), 4);
    let toward = pick(quadrant_flags(b, you), 4);
    let onto_food = pick(food_flags(b, you), 4);
    if safe.len() > 1 && desirable.len() > 0 {
        if toward.len() > 0 {
            if onto_food.len() > 0 {
                onto_food
            } else {
                toward
            }
        } else {
            desirable
        }
    } else {
        safe
    }
}

/// What the move choice needs of a board: non-negative dimensions and room
/// for the look-ahead.
pub open spec fn turn_ok(b: BoardView, you: SnakeView) -> bool {
    &&& b.width >= 0
    &&& b.height >= 0
    &&& snake_ok(you, LOOKAHEAD_DEPTH as int)
    &&& board_ok(b, LOOKAHEAD_DEPTH as int)
}

/// Whether the cell next to our head in direction `m` holds any segment.
fn is_body_adjacent(board: &Board, you: &Battlesnake, m: &Move) -> (r: bool)
    requires
        steppable(you.head),
    ensures
        r == body_adjacent(board@, you@, *m),
{
    let p = simulate_move(&you.head, m);
    let (own, _) = body_hit(&you.body, &p);
    if own {
        return true;
    }
    let mut k: usize = 0;
    while k < board.snakes.len()
        invariant
            k <= board.snakes@.len(),
            p == step_coord(you.head, *m),
            forall|j: int| 0 <= j < k ==> !hits(#[trigger] board@.snakes[j].body, p),
        decreases board.snakes.len() - k,
    {
        assert(board@.snakes[k as int].body == board.snakes@[k as int].body@);
        let (hit, _) = body_hit(&board.snakes[k].body, &p);
        if hit {
            return true;
        }
        k += 1;
    }
    false
}

/// For each of Up, Down, Left, Right: whether the move is safe.
pub fn safe_move_flags(board: &Board, you: &Battlesnake) -> (r: Vec<bool>)
    requires
        turn_ok(board@, you@),
    ensures
        r@ == safe_flags(board@, you@),
{
    let mut r: Vec<bool> = Vec::new();
    let mut j: usize = 0;
    while j < 4
        invariant
            turn_ok(board@, you@),
            j <= 4,
            r@.len() == j,
            forall|t: int| 0 <= t < j ==> r@[t] == move_safe(board@, you@, move_at(t)),
        decreases 4 - j,
    {
        let m = move_of_index(j);
        let head = you.head;
        let off_board = match m {
            Move::Left => head.x == 0,
            Move::Right => head.x > 1 && head.x >= board.width - 1,
            Move::Down => head.y == 0,
            Move::Up => head.y > 1 && head.y == board.height - 1,
        };
        let safe = !off_board && !is_body_adjacent(board, you, &m) && evaluate_move_safety(
            board,
            you,
            &m,
            LOOKAHEAD_DEPTH,
        ) != 0;
        r.push(safe);
        j += 1;
    }
    assert(r@ =~= safe_flags(board@, you@));
    r
}

/// The moves whose flag is set, in the order Up, Down, Left, Right.
fn pick_moves(flags: &Vec<bool>) -> (r: Vec<Move>)
    requires
        flags@.len() == 4,
    ensures
        r@ == pick(flags@, 4),
{
    let mut r: Vec<Move> = Vec::new();
    let mut j: usize = 0;
    while j < 4
        invariant
            flags@.len() == 4,
            j <= 4,
            r@ == pick(flags@, j as int),
        decreases 4 - j,
    {
        if flags[j] {
            r.push(move_of_index(j));
        }
        j += 1;
    }
    r
}

/// The quadrant of `c`, numbered 1 to 4.
fn quadrant(c: &Coord, w: i32, h: i32) -> (r: usize)
    requires
        w >= 0,
        h >= 0,
    ensures
        r == quadrant_of(*c, w, h),
{
    if c.x < w / 2 {
        if c.y < h / 2 {
            1
        } else {
            2
        }
    } else {
        if c.y < h / 2 {
            3
        } else {
            4
        }
    }
}

/// How many cells of `s` lie in each quadrant.
fn count_quadrants(s: &Vec<Coord>, w: i32, h: i32) -> (r: Vec<usize>)
    requires
        w >= 0,
        h >= 0,
    ensures
        r@.len() == 4,
        forall|i: int| 0 <= i < 4 ==> r@[i] == quadrant_counts(s@, w, h)[i],
{
    let mut r: Vec<usize> = vec![0, 0, 0, 0];
    let mut i: usize = 0;
    while i < s.len()
        invariant
            w >= 0,
            h >= 0,
            i <= s@.len(),
            r@.len() == 4,
            forall|q: int| 0 <= q < 4 ==> r@[q] == count_in(s@, q + 1, w, h, i as int),
            forall|q: int| 0 <= q < 4 ==> r@[q] <= i,
        decreases s.len() - i,
    {
        let q = quadrant(&s[i], w, h);
        r.set(q - 1, r[q - 1] + 1);
        i += 1;
        assert forall|t: int| 0 <= t < 4 implies r@[t] == count_in(s@, t + 1, w, h, i as int)
            && r@[t] <= i by {
            assert(count_in(s@, t + 1, w, h, i as int) == count_in(s@, t + 1, w, h, i - 1) + if
                quadrant_of(s@[i - 1], w, h) == t + 1 {
                1int
            } else {
                0
            });
        }
    }
    r
}

/// The quadrant index that `least_quadrant` gives over four counts.
fn least_quadrant_index(bc: &Vec<usize>, fc: &Vec<usize>) -> (r: usize)
    requires
        bc@.len() == 4,
        fc@.len() == 4,
    ensures
        r == least_quadrant(
            Seq::new(4, |i: int| bc@[i] as int),
            Seq::new(4, |i: int| fc@[i] as int),
            4,
        ).0,
{
    let ghost bs = Seq::new(4, |i: int| bc@[i] as int);
    let ghost fs = Seq::new(4, |i: int| fc@[i] as int);
    let mut min_quadrant: usize = 0;
    let mut min_count: usize = bc[0];
    let mut max_food: usize = 0;
    let mut i: usize = 1;
    while i < 4
        invariant
            bc@.len() == 4,
            fc@.len() == 4,
            bs == Seq::new(4, |i: int| bc@[i] as int),
            fs == Seq::new(4, |i: int| fc@[i] as int),
            1 <= i <= 4,
            least_quadrant(bs, fs, i as int) == (
                min_quadrant as int,
                min_count as int,
                max_food as int,
            ),
        decreases 4 - i,
    {
        if bc[i] < min_count {
            min_quadrant = i;
            min_count = bc[i];
            max_food = 0;
        } else if bc[i] == min_count {
            if fc[i] > max_food {
                min_quadrant = i;
                max_food = fc[i];
            }
        }
        i += 1;
    }
    min_quadrant
}

/// `|f - head|` in the Manhattan metric, in `i64`.
fn distance(f: &Coord, head: &Coord) -> (r: i64)
    ensures
        r == food_distance(*f, *head),
{
    let dx = f.x as i64 - head.x as i64;
    let dy = f.y as i64 - head.y as i64;
    (if dx < 0 {
        -dx
    } else {
        dx
    }) + (if dy < 0 {
        -dy
    } else {
        dy
    })
}

/// The first of the nearest food items in quadrant `q`.
fn nearest_food_in(food: &Vec<Coord>, head: &Coord, q: usize, w: i32, h: i32) -> (r: Option<Coord>)
    requires
        w >= 0,
        h >= 0,
    ensures
        r == nearest_food(food@, *head, q as int, w, h, food@.len() as int),
{
    let mut best: Option<Coord> = None;
    let mut i: usize = 0;
    while i < food.len()
        invariant
            w >= 0,
            h >= 0,
            i <= food@.len(),
            best == nearest_food(food@, *head, q as int, w, h, i as int),
        decreases food.len() - i,
    {
        let f = food[i];
        if quadrant(&f, w, h) == q {
            best = match best {
                None => Some(f),
                Some(g) => if distance(&f, head) < distance(&g, head) {
                    Some(f)
                } else {
                    Some(g)
                },
            };
        }
        i += 1;
    }
    best
}

/// The moves the choice is drawn from: the safe ones, narrowed (when more
/// than one is safe) to those away from the walls, then to those toward the
/// least filled quadrant, then to those onto its nearest food, each
/// narrowing only when it leaves something.
pub fn move_candidates(board: &Board, you: &Battlesnake) -> (r: Vec<Move>)
    requires
        turn_ok(board@, you@),
    ensures
        r@ == candidates(board@, you@),
{
    let head = you.head;
    let w = board.width;
    let h = board.height;
    let safe = safe_move_flags(board, you);
    let mut desirable: Vec<bool> = Vec::new();
    let mut j: usize = 0;
    while j < 4
        invariant
            safe@ == safe_flags(board@, you@),
            head == you.head,
            w == board.width,
            h == board.height,
            w >= 0,
            h >= 0,
            j <= 4,
            desirable@.len() == j,
            forall|t: int| 0 <= t < j ==> desirable@[t] == desirable_flags(board@, you@)[t],
        decreases 4 - j,
    {
        let near_wall = match move_of_index(j) {
            Move::Left => head.x == 1,
            Move::Right => head.x > 1 && head.x >= w - 2 && head.x < w - 1,
            Move::Down => head.y == 1,
            Move::Up => head.y > 1 && head.y >= h - 2 && head.y != h - 1,
        };
        desirable.push(safe[j] && !near_wall);
        j += 1;
    }
    assert(desirable@ =~= desirable_flags(board@, you@));
    let safe_list = pick_moves(&safe);
    let desirable_list = pick_moves(&desirable);
    if !(safe_list.len() > 1 && desirable_list.len() > 0) {
        return safe_list;
    }
    let bc = count_quadrants(&you.body, w, h);
    let fc = count_quadrants(&board.food, w, h);
    let q = least_quadrant_index(&bc, &fc);
    proof {
        assert(Seq::new(4, |i: int| bc@[i] as int) =~= quadrant_counts(you@.body, w, h));
        assert(Seq::new(4, |i: int| fc@[i] as int) =~= quadrant_counts(board@.food, w, h));
    }
    let mut toward: Vec<bool> = Vec::new();
    let mut j: usize = 0;
    while j < 4
        invariant
            desirable@ == desirable_flags(board@, you@),
            q == target_quadrant(board@, you@),
            j <= 4,
            toward@.len() == j,
            forall|t: int| 0 <= t < j ==> toward@[t] == quadrant_flags(board@, you@)[t],
        decreases 4 - j,
    {
        let fits = match move_of_index(j) {
            Move::Up => q == 1 || q == 2,
            Move::Down => q == 3 || q == 4,
            Move::Left => q == 1 || q == 3,
            Move::Right => q == 2 || q == 4,
        };
        toward.push(desirable[j] && fits);
        j += 1;
    }
    assert(toward@ =~= quadrant_flags(board@, you@));
    let toward_list = pick_moves(&toward);
    if toward_list.len() == 0 {
        return desirable_list;
    }
    let target = nearest_food_in(&board.food, &head, q, w, h);
    let mut onto_food: Vec<bool> = Vec::new();
    let mut j: usize = 0;
    while j < 4
        invariant
            toward@ == quadrant_flags(board@, you@),
            head == you.head,
            steppable(head),
            q == target_quadrant(board@, you@),
            target == nearest_food(board@.food, head, q as int, w, h, board@.food.len() as int),
            w == board.width,
            h == board.height,
            j <= 4,
            onto_food@.len() == j,
            forall|t: int| 0 <= t < j ==> onto_food@[t] == food_flags(board@, you@)[t],
        decreases 4 - j,
    {
        let next = match move_of_index(j) {
            Move::Up => Coord { x: head.x, y: head.y - 1 },
            Move::Down => Coord { x: head.x, y: head.y + 1 },
            Move::Left => Coord { x: head.x - 1, y: head.y },
            Move::Right => Coord { x: head.x + 1, y: head.y },
        };
        let hit = match target {
            Some(f) => next.x == f.x && next.y == f.y,
            None => false,
        };
        onto_food.push(toward[j] && hit);
        j += 1;
    }
    assert(onto_food@ =~= food_flags(board@, you@));
    let food_list = pick_moves(&onto_food);
    if food_list.len() > 0 {
        food_list
    } else {
        toward_list
    }
}

/// Relies on rand's `Rng::random_range` over `..n` with the thread-local
/// generator of `rand::rng`: a value below `n`. The range must not be empty,
/// as `random_range` panics on an empty one. The generator itself panics if
/// the operating system cannot seed it.
#[verifier::external_body]
fn random_index(n: usize) -> (r: usize)
    requires
        n > 0,
    ensures
        r < n,
{
    rand::Rng::random_range(&mut rand::rng(), ..n)
}

/// The move at index `pick` of `moves`, or Up with a remark when `moves` is
/// empty.
pub fn choose_move(moves: &Vec<Move>, pick: usize) -> (r: MoveResponse)
    requires
        moves@.len() == 0 || pick < moves@.len(),
    ensures
        moves@.len() == 0 ==> r.chosen == Move::Up && r.shout@
            == "The only winning move is not to play..."@,
        moves@.len() > 0 ==> r.chosen == moves@[pick as int] && r.shout@ == ""@,
{
    if moves.len() == 0 {
        MoveResponse { chosen: Move::Up, shout: "The only winning move is not to play..." }
    } else {
        MoveResponse { chosen: moves[pick], shout: "" }
    }
}

/// The move for this turn: one of `candidates`, drawn at random, or Up with
/// a remark when no move is safe.
pub fn get_move(_game: &Game, _turn: &i32, board: &Board, you: &Battlesnake) -> (r: MoveResponse)
    requires
        turn_ok(board@, you@),
    ensures
        candidates(board@, you@).len() == 0 ==> r.chosen == Move::Up && r.shout@
            == "The only winning move is not to play..."@,
        candidates(board@, you@).len() > 0 ==> candidates(board@, you@).contains(r.chosen)
            && r.shout@ == ""@,
{
    let moves = move_candidates(board, you);
    let pick = if moves.len() == 0 {
        0
    } else {
        random_index(moves.len())
    };
    choose_move(&moves, pick)
}

/// Whether `board` and `you` meet what the move choice needs of them.
pub fn turn_fits(board: &Board, you: &Battlesnake) -> (r: bool)
    ensures
        r == turn_ok(board@, you@),
{
    if board.width < 0 || board.height < 0 || !snake_fits(you, LOOKAHEAD_DEPTH) {
        return false;
    }
    let mut k: usize = 0;
    while k < board.snakes.len()
        invariant
            k <= board.snakes@.len(),
            forall|j: int| 0 <= j < k ==> snake_ok(#[trigger] board@.snakes[j], LOOKAHEAD_DEPTH as int),
        decreases board.snakes.len() - k,
    {
        assert(board@.snakes[k as int] == board.snakes@[k as int]@);
        if !snake_fits(&board.snakes[k], LOOKAHEAD_DEPTH) {
            return false;
        }
        k += 1;
    }
    true
}

/// Whether snake `s` has room for `depth` ticks of look-ahead.
pub fn snake_fits(s: &Battlesnake, depth: i32) -> (r: bool)
    requires
        depth >= 0,
    ensures
        r == snake_ok(s@, depth as int),
{
    let d = depth as i64;
    s.head.x > i32::MIN && s.head.x < i32::MAX && s.head.y > i32::MIN && s.head.y < i32::MAX
        && s.body.len() >= 1 && s.body[0].x == s.head.x && s.body[0].y == s.head.y
        && s.health as i64 > i32::MIN as i64 + d && s.length >= 0 && s.length as i64 + d
        < i32::MAX as i64
}

} // verus!
