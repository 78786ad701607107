//! One synchronized tick of the whole board: our snake moves as told, every
//! opponent takes its first feasible move, food is eaten, tails retract and
//! head-to-head collisions are resolved.
use vstd::prelude::*;
use crate::types::{
    copy_coords, copy_snake, coords_equal, in_bounds, move_at, move_of_index, simulate_move,
    snakes_view, step_coord, steppable, Battlesnake, Board, BoardView, Coord, Move, SnakeView,
};

verus! {

/// `i` is the first index of `c` in `food`.
pub open spec fn first_at(food: Seq<Coord>, c: Coord, i: int) -> bool {
    &&& 0 <= i < food.len()
    &&& food[i] == c
    &&& forall|j: int| 0 <= j < i ==> food[j] != c
}

/// `c` is on one of the food cells.
pub open spec fn on_food(food: Seq<Coord>, c: Coord) -> bool {
    exists|i: int| 0 <= i < food.len() && food[i] == c
}

/// The food left once a head has entered `c`: its first item at `c` is eaten.
pub open spec fn food_after(food: Seq<Coord>, c: Coord) -> Seq<Coord> {
    if on_food(food, c) {
        food.remove(choose|i: int| first_at(food, c, i))
    } else {
        food
    }
}

/// Snake `s` after its head has entered `h` with `food` on the board: it
/// eats (health 100, one more to grow) or starves a little and retracts its
/// tail once the body is longer than its length.
pub open spec fn advanced(s: SnakeView, h: Coord, food: Seq<Coord>) -> SnakeView {
    let body = seq![h] + s.body;
    if on_food(food, h) {
        SnakeView { health: 100, body: body, head: h, length: (s.length + 1) as i32, ..s }
    } else {
        SnakeView {
            health: (s.health - 1) as i32,
            body: if body.len() > s.length { body.drop_last() } else { body },
            head: h,
            ..s
        }
    }
}

/// `p` holds a segment of `body` that stays there this tick (any but the tail
/// of a body of more than one segment).
pub open spec fn blocks_opponent(body: Seq<Coord>, p: Coord) -> bool {
    exists|i: int|
        0 <= i < body.len() && !(i == body.len() - 1 && body.len() > 1) && body[i] == p
}

/// An opponent at `head` may move in direction `dir`.
pub open spec fn opponent_feasible(b: BoardView, head: Coord, dir: Move) -> bool {
    let p = step_coord(head, dir);
    &&& in_bounds(p, b.width, b.height)
    &&& forall|k: int| 0 <= k < b.snakes.len() ==> !blocks_opponent(#[trigger] b.snakes[k].body, p)
}

/// The move the opponent stand-in takes: the first feasible one of Up, Down,
/// Left, Right, or none.
pub open spec fn opponent_choice(b: BoardView, s: SnakeView) -> Option<Move> {
    if opponent_feasible(b, s.head, Move::Up) {
        Some(Move::Up)
    } else if opponent_feasible(b, s.head, Move::Down) {
        Some(Move::Down)
    } else if opponent_feasible(b, s.head, Move::Left) {
        Some(Move::Left)
    } else if opponent_feasible(b, s.head, Move::Right) {
        Some(Move::Right)
    } else {
        None
    }
}

/// The snakes that have moved, and the food left, once our snake and the
/// opponents among `b.snakes[..n]` have moved; an opponent without a feasible
/// move is kept as it was, frozen in place.
pub open spec fn moved(b: BoardView, you: SnakeView, dir: Move, n: int) -> (
    Seq<SnakeView>,
    Seq<Coord>,
)
    decreases n,
{
    if n <= 0 {
        let h = step_coord(you.head, dir);
        (seq![advanced(you, h, b.food)], food_after(b.food, h))
    } else {
        let (ss, f) = moved(b, you, dir, n - 1);
        let s = b.snakes[n - 1];
        if s.id == you.id {
            (ss, f)
        } else {
            match opponent_choice(b, s) {
                None => (ss.push(s), f),
                Some(m) => {
                    let h = step_coord(s.head, m);
                    (ss.push(advanced(s, h, f)), food_after(f, h))
                },
            }
        }
    }
}

/// Snake `s` shares its head cell with a longer snake of `ss`.
pub open spec fn loses(ss: Seq<SnakeView>, s: SnakeView) -> bool {
    exists|j: int| 0 <= j < ss.len() && ss[j].head == s.head && ss[j].length > s.length
}

/// Some snake of `ss` with identifier `id` lost a head-to-head.
pub open spec fn id_lost(ss: Seq<SnakeView>, id: Seq<char>) -> bool {
    exists|j: int| 0 <= j < ss.len() && ss[j].id == id && loses(ss, ss[j])
}

/// The snakes of `ss[..n]`, in order, whose identifier lost no head-to-head.
pub open spec fn survivors(ss: Seq<SnakeView>, n: int) -> Seq<SnakeView>
    decreases n,
{
    if n <= 0 {
        seq![]
    } else {
        let p = survivors(ss, n - 1);
        if id_lost(ss, ss[n - 1].id) {
            p
        } else {
            p.push(ss[n - 1])
        }
    }
}

/// The board after one tick in which our snake `you` moves in direction `dir`.
pub open spec fn next_board(b: BoardView, you: SnakeView, dir: Move) -> BoardView {
    let (ss, f) = moved(b, you, dir, b.snakes.len() as int);
    BoardView {
        height: b.height,
        width: b.width,
        food: f,
        snakes: survivors(ss, ss.len() as int),
        hazards: b.hazards,
    }
}

/// A snake on which `depth` more ticks keep every field within `i32`: a head
/// from which any step is representable, a non-empty body led by the head,
/// and room for `depth` decrements of health and increments of length.
pub open spec fn snake_ok(s: SnakeView, depth: int) -> bool {
    &&& steppable(s.head)
    &&& s.body.len() >= 1
    &&& s.body[0] == s.head
    &&& s.health > i32::MIN + depth
    &&& 0 <= s.length
    &&& s.length + depth < i32::MAX
}

/// Every snake of `b` satisfies `snake_ok`.
pub open spec fn board_ok(b: BoardView, depth: int) -> bool {
    forall|k: int| 0 <= k < b.snakes.len() ==> snake_ok(#[trigger] b.snakes[k], depth)
}

/// Eats the first item of `food` at `c`, if any; tells whether one was eaten.
pub fn eat_at(food: &mut Vec<Coord>, c: &Coord) -> (r: bool)
    ensures
        r == on_food(old(food)@, *c),
        final(food)@ == food_after(old(food)@, *c),
{
    let mut i: usize = 0;
    while i < food.len()
        invariant
            i <= food@.len(),
            food@ == old(food)@,
            forall|j: int| 0 <= j < i ==> food@[j] != *c,
        decreases food.len() - i,
    {
        if coords_equal(&food[i], c) {
            proof {
                let k = choose|k: int| first_at(food@, *c, k);
                assert(first_at(food@, *c, i as int));
                assert(k == i);
            }
            food.remove(i);
            return true;
        }
        i += 1;
    }
    false
}

/// Snake `s` with its head moved to `new_head`, eating from `food`: health
/// is reset to 100 and length grows by one on food, otherwise health drops
/// by one and the tail retracts once the body exceeds its length.
pub fn advance_snake(s: &Battlesnake, new_head: Coord, food: &mut Vec<Coord>) -> (r: Battlesnake)
    requires
        s.health > i32::MIN,
        0 <= s.length < i32::MAX,
    ensures
        r@ == advanced(s@, new_head, old(food)@),
        final(food)@ == food_after(old(food)@, new_head),
{
    let mut r = copy_snake(s);
    r.head = new_head;
    r.body.insert(0, new_head);
    assert(r.body@ =~= seq![new_head] + s.body@);
    if eat_at(food, &new_head) {
        r.health = 100;
        r.length = r.length + 1;
    } else {
        r.health = r.health - 1;
        if r.body.len() > r.length as usize {
            r.body.pop();
            assert(r.body@ =~= (seq![new_head] + s.body@).drop_last());
        }
    }
    r
}

/// Whether a segment of some snake of `board` that stays this tick is at `p`.
fn blocked_for_opponent(board: &Board, p: &Coord) -> (r: bool)
    ensures
        r == exists|k: int|
            0 <= k < board@.snakes.len() && blocks_opponent(#[trigger] board@.snakes[k].body, *p),
{
    let mut k: usize = 0;
    while k < board.snakes.len()
        invariant
            k <= board.snakes@.len(),
            forall|m: int| 0 <= m < k ==> !blocks_opponent(#[trigger] board@.snakes[m].body, *p),
        decreases board.snakes.len() - k,
    {
        let body = &board.snakes[k].body;
        assert(board@.snakes[k as int].body == body@);
        let n = body.len();
        let mut i: usize = 0;
        while i < n
            invariant
                n == body@.len(),
                board@.snakes[k as int].body == body@,
                k < board@.snakes.len(),
                i <= n,
                forall|j: int| 0 <= j < i && !(j == n - 1 && n > 1) ==> body@[j] != *p,
            decreases n - i,
        {
            if !(i == n - 1 && n > 1) && coords_equal(&body[i], p) {
                assert(blocks_opponent(board@.snakes[k as int].body, *p));
                return true;
            }
            i += 1;
        }
        k += 1;
    }
    false
}

/// The move the opponent stand-in takes for `snake` on `board`.
pub fn opponent_move(board: &Board, snake: &Battlesnake) -> (r: Option<Move>)
    requires
        steppable(snake.head),
    ensures
        r == opponent_choice(board@, snake@),
{
    let mut i: usize = 0;
    while i < 4
        invariant
            i <= 4,
            steppable(snake.head),
            forall|j: int| 0 <= j < i ==> !opponent_feasible(board@, snake.head, move_at(j)),
        decreases 4 - i,
    {
        let m = move_of_index(i);
        let p = simulate_move(&snake.head, &m);
        if p.x >= 0 && p.x < board.width && p.y >= 0 && p.y < board.height
            && !blocked_for_opponent(board, &p) {
            assert(opponent_feasible(board@, snake.head, m));
            assert(i == 0 || !opponent_feasible(board@, snake.head, move_at(0)));
            assert(i <= 1 || !opponent_feasible(board@, snake.head, move_at(1)));
            assert(i <= 2 || !opponent_feasible(board@, snake.head, move_at(2)));
            return Some(m);
        }
        i += 1;
    }
    assert(!opponent_feasible(board@, snake.head, move_at(0)));
    assert(!opponent_feasible(board@, snake.head, move_at(1)));
    assert(!opponent_feasible(board@, snake.head, move_at(2)));
    assert(!opponent_feasible(board@, snake.head, move_at(3)));
    None
}

/// Whether snake `ss[i]` shares its head cell with a longer snake of `ss`.
fn loses_at(ss: &Vec<Battlesnake>, i: usize) -> (r: bool)
    requires
        i < ss@.len(),
    ensures
        r == loses(snakes_view(ss@), ss@[i as int]@),
{
    let ghost sv = snakes_view(ss@);
    let mut j: usize = 0;
    while j < ss.len()
        invariant
            sv == snakes_view(ss@),
            i < ss@.len(),
            j <= ss@.len(),
            forall|m: int|
                0 <= m < j ==> !(sv[m].head == ss@[i as int].head && sv[m].length
                    > ss@[i as int].length),
        decreases ss.len() - j,
    {
        if coords_equal(&ss[j].head, &ss[i].head) && ss[j].length > ss[i].length {
            assert(sv[j as int].head == ss@[i as int]@.head);
            return true;
        }
        j += 1;
    }
    false
}

/// The snakes of `snakes`, in order, but those whose identifier belongs to
/// a snake that met a longer one head-to-head. Snakes tied at the longest
/// length of a cell all stay.
pub fn resolve_head_to_head(snakes: &Vec<Battlesnake>) -> (r: Vec<Battlesnake>)
    ensures
        snakes_view(r@) == survivors(snakes_view(snakes@), snakes@.len() as int),
{
    let ghost sv = snakes_view(snakes@);
    let n = snakes.len();
    let mut lost: Vec<bool> = Vec::new();
    let mut i: usize = 0;
    while i < n
        invariant
            n == snakes@.len(),
            sv == snakes_view(snakes@),
            i <= n,
            lost@.len() == i,
            forall|m: int| 0 <= m < i ==> lost@[m] == loses(sv, sv[m]),
        decreases n - i,
    {
        lost.push(loses_at(snakes, i));
        i += 1;
    }
    let mut r: Vec<Battlesnake> = Vec::new();
    let mut i: usize = 0;
    while i < n
        invariant
            n == snakes@.len(),
            sv == snakes_view(snakes@),
            i <= n,
            lost@.len() == n,
            forall|m: int| 0 <= m < n ==> lost@[m] == loses(sv, sv[m]),
            snakes_view(r@) == survivors(sv, i as int),
        decreases n - i,
    {
        let mut gone = false;
        let mut j: usize = 0;
        while j < n
            invariant
                n == snakes@.len(),
                sv == snakes_view(snakes@),
                i < n,
                j <= n,
                lost@.len() == n,
                forall|m: int| 0 <= m < n ==> lost@[m] == loses(sv, sv[m]),
                gone == exists|m: int| 0 <= m < j && sv[m].id == sv[i as int].id && loses(sv, sv[m]),
            decreases n - j,
        {
            if lost[j] && snakes[j].id == snakes[i].id {
                assert(sv[j as int].id == sv[i as int].id);
                gone = true;
            }
            j += 1;
        }
        if !gone {
            let c = copy_snake(&snakes[i]);
            r.push(c);
            assert(snakes_view(r@) =~= survivors(sv, i as int).push(sv[i as int]));
        }
        i += 1;
    }
    r
}

/// The board one tick later, when our snake `you` moves in direction
/// `move_dir` and each opponent of `board` takes its stand-in move.
pub fn simulate_step(board: &Board, you: &Battlesnake, move_dir: &Move) -> (r: Board)
    requires
        snake_ok(you@, 1),
        board_ok(board@, 1),
    ensures
        r@ == next_board(board@, you@, *move_dir),
{
    let mut food = copy_coords(&board.food);
    let new_head = simulate_move(&you.head, move_dir);
    let ours = advance_snake(you, new_head, &mut food);
    let mut moved_snakes: Vec<Battlesnake> = Vec::new();
    moved_snakes.push(ours);
    assert(snakes_view(moved_snakes@) =~= moved(board@, you@, *move_dir, 0).0);
    let mut i: usize = 0;
    while i < board.snakes.len()
        invariant
            i <= board.snakes@.len(),
            board_ok(board@, 1),
            snakes_view(moved_snakes@) == moved(board@, you@, *move_dir, i as int).0,
            food@ == moved(board@, you@, *move_dir, i as int).1,
        decreases board.snakes.len() - i,
    {
        let snake = &board.snakes[i];
        assert(board@.snakes[i as int] == snake@);
        if snake.id != you.id {
            assert(snake_ok(board@.snakes[i as int], 1));
            match opponent_move(board, snake) {
                None => {
                    moved_snakes.push(copy_snake(snake));
                    assert(snakes_view(moved_snakes@) =~= moved(
                        board@,
                        you@,
                        *move_dir,
                        i as int,
                    ).0.push(snake@));
                },
                Some(m) => {
                    let h = simulate_move(&snake.head, &m);
                    let s2 = advance_snake(snake, h, &mut food);
                    moved_snakes.push(s2);
                    assert(snakes_view(moved_snakes@) =~= moved(
                        board@,
                        you@,
                        *move_dir,
                        i as int,
                    ).0.push(s2@));
                },
            }
        }
        i += 1;
    }
    let snakes = resolve_head_to_head(&moved_snakes);
    Board {
        height: board.height,
        width: board.width,
        food: food,
        snakes: snakes,
        hazards: copy_coords(&board.hazards),
    }
}

} // verus!
