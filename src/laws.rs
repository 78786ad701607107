//! What holds of the safety check, the transition and the look-ahead for
//! every input.
use vstd::prelude::*;
use crate::types::{can_step, in_bounds, opposite, step_coord, BoardView, Coord, Move, SnakeView};
use crate::safety::{hits, hits_only_tail, others_safe, position_safe};
use crate::transition::{advanced, food_after, id_lost, loses, moved, next_board, on_food, survivors};
use crate::lookahead::{find_id, lemma_find_id_in, lemma_survivors_from, move_score};

verus! {

/// A step and the opposite step bring a head back where it was; the second
/// step always has room when the first had.
pub proof fn lemma_step_round_trip(head: Coord, dir: Move)
    requires
        can_step(head, dir),
    ensures
        can_step(step_coord(head, dir), opposite(dir)),
        step_coord(step_coord(head, dir), opposite(dir)) == head,
{
}

/// No cell off the board is ever safe, whichever kind of check is made.
pub proof fn lemma_off_board_unsafe(p: Coord, b: BoardView, you: SnakeView, look_ahead: bool)
    requires
        !in_bounds(p, b.width, b.height),
    ensures
        !position_safe(p, b, you, look_ahead),
{
}

/// Without look-ahead, our own tail cell (on the board, and held by no other
/// segment of ours) is safe exactly when the body has more than one segment
/// and health is below 100.
pub proof fn lemma_own_tail_safe(b: BoardView, you: SnakeView)
    requires
        you.body.len() >= 1,
        in_bounds(you.body[you.body.len() - 1], b.width, b.height),
        forall|i: int| 0 <= i < you.body.len() - 1 ==> #[trigger] you.body[i] != you.body[you.body.len() - 1],
    ensures
        position_safe(you.body[you.body.len() - 1], b, you, false) == (you.body.len() > 1
            && you.health < 100),
{
    let t = you.body[you.body.len() - 1];
    assert(hits(you.body, t));
}

/// The transition is a function of its inputs: equal inputs give equal boards.
pub proof fn lemma_next_board_deterministic(
    b1: BoardView,
    you1: SnakeView,
    b2: BoardView,
    you2: SnakeView,
    dir: Move,
)
    requires
        b1 == b2,
        you1 == you2,
    ensures
        next_board(b1, you1, dir) == next_board(b2, you2, dir),
{
}

/// A snake that eats ends the tick at health 100 and one longer in length,
/// the food item gone; one that does not eat loses one health and, from a
/// body as long as its length, keeps its body length.
pub proof fn lemma_growth(s: SnakeView, h: Coord, food: Seq<Coord>)
    requires
        s.health > i32::MIN,
        0 <= s.length < i32::MAX,
    ensures
        on_food(food, h) ==> {
            &&& advanced(s, h, food).health == 100
            &&& advanced(s, h, food).length == s.length + 1
            &&& food_after(food, h).len() == food.len() - 1
        },
        !on_food(food, h) ==> {
            &&& advanced(s, h, food).health == s.health - 1
            &&& advanced(s, h, food).length == s.length
            &&& food_after(food, h) == food
            &&& (s.body.len() == s.length ==> advanced(s, h, food).body.len() == s.body.len())
        },
{
    if on_food(food, h) {
        let w = choose|i: int| 0 <= i < food.len() && food[i] == h;
        lemma_first_exists(food, h, w);
    }
}

proof fn lemma_first_exists(food: Seq<Coord>, c: Coord, w: int)
    requires
        0 <= w < food.len(),
        food[w] == c,
    ensures
        exists|i: int| crate::transition::first_at(food, c, i),
    decreases w,
{
    if exists|j: int| 0 <= j < w && food[j] == c {
        let j = choose|j: int| 0 <= j < w && food[j] == c;
        lemma_first_exists(food, c, j);
    } else {
        assert(crate::transition::first_at(food, c, w));
    }
}

/// After head-to-head resolution, every surviving snake is at least as long
/// as each snake that moved its head into the same cell: at a shared cell,
/// only snakes of the cell's greatest length remain.
pub proof fn lemma_head_to_head(b: BoardView, you: SnakeView, dir: Move)
    ensures
        ({
            let ss = moved(b, you, dir, b.snakes.len() as int).0;
            let nb = next_board(b, you, dir);
            forall|i: int, j: int|
                0 <= i < nb.snakes.len() && 0 <= j < ss.len() && #[trigger] ss[j].head
                    == #[trigger] nb.snakes[i].head ==> ss[j].length <= nb.snakes[i].length
        }),
{
    let ss = moved(b, you, dir, b.snakes.len() as int).0;
    let nb = next_board(b, you, dir);
    lemma_survivors_from(ss, ss.len() as int);
    assert forall|i: int, j: int|
        0 <= i < nb.snakes.len() && 0 <= j < ss.len() && #[trigger] ss[j].head
            == #[trigger] nb.snakes[i].head implies ss[j].length <= nb.snakes[i].length by {
        let m = choose|m: int|
            0 <= m < ss.len() && survivors(ss, ss.len() as int)[i] == ss[m] && !id_lost(
                ss,
                ss[m].id,
            );
        assert(!loses(ss, ss[m]));
    }
}

/// No two snakes of `ss` share an identifier.
pub open spec fn ids_distinct(ss: Seq<SnakeView>) -> bool {
    forall|i: int, j: int| 0 <= i < j < ss.len() ==> #[trigger] ss[i].id != #[trigger] ss[j].id
}

proof fn lemma_survivors_keep(ss: Seq<SnakeView>, n: int)
    requires
        n <= ss.len(),
    ensures
        forall|j: int|
            0 <= j < n && !id_lost(ss, #[trigger] ss[j].id) ==> survivors(ss, n).contains(ss[j]),
    decreases n,
{
    if n > 0 {
        lemma_survivors_keep(ss, n - 1);
        let p = survivors(ss, n - 1);
        assert forall|j: int|
            0 <= j < n && !id_lost(ss, #[trigger] ss[j].id) implies survivors(ss, n).contains(
            ss[j],
        ) by {
            if j < n - 1 {
                let k = choose|k: int| 0 <= k < p.len() && p[k] == ss[j];
                assert(survivors(ss, n)[k] == ss[j]);
            } else {
                assert(survivors(ss, n)[p.len() as int] == ss[j]);
            }
        }
    }
}

/// With distinct identifiers, a snake that met no longer snake head-to-head
/// survives the resolution: a head alone in its cell, and every snake tied at
/// the longest length of its cell, stays on the board.
pub proof fn lemma_head_to_head_keeps(b: BoardView, you: SnakeView, dir: Move)
    ensures
        ({
            let ss = moved(b, you, dir, b.snakes.len() as int).0;
            let nb = next_board(b, you, dir);
            ids_distinct(ss) ==> forall|j: int|
                0 <= j < ss.len() && !loses(ss, #[trigger] ss[j]) ==> nb.snakes.contains(ss[j])
        }),
{
    let ss = moved(b, you, dir, b.snakes.len() as int).0;
    lemma_survivors_keep(ss, ss.len() as int);
    if ids_distinct(ss) {
        assert forall|j: int| 0 <= j < ss.len() && !loses(ss, #[trigger] ss[j]) implies !id_lost(
            ss,
            ss[j].id,
        ) by {
            if id_lost(ss, ss[j].id) {
                let m = choose|m: int| 0 <= m < ss.len() && ss[m].id == ss[j].id && loses(ss, ss[m]);
                if m < j {
                    assert(ss[m].id != ss[j].id);
                } else if m > j {
                    assert(ss[j].id != ss[m].id);
                }
            }
        }
    }
}

proof fn lemma_moved_first(b: BoardView, you: SnakeView, dir: Move, n: int)
    ensures
        moved(b, you, dir, n).0.len() >= 1,
        moved(b, you, dir, n).0[0] == advanced(you, step_coord(you.head, dir), b.food),
    decreases n,
{
    if n > 0 {
        lemma_moved_first(b, you, dir, n - 1);
    }
}

proof fn lemma_survivors_first(ss: Seq<SnakeView>, n: int)
    requires
        1 <= n <= ss.len(),
        !id_lost(ss, ss[0].id),
    ensures
        survivors(ss, n).len() >= 1,
        survivors(ss, n)[0] == ss[0],
    decreases n,
{
    if n > 1 {
        lemma_survivors_first(ss, n - 1);
    } else {
        assert(survivors(ss, 0).len() == 0);
    }
}

/// Our snake on the board after a tick, when it is still there, is our snake
/// moved into the projected head cell: on food, at health 100, one longer in
/// length and with its whole body kept; otherwise one health lower, as long,
/// and with its tail retracted once the body would exceed its length.
pub proof fn lemma_our_snake_after_step(b: BoardView, you: SnakeView, dir: Move)
    requires
        you.body.len() >= 1,
        you.health > i32::MIN,
        0 <= you.length < i32::MAX,
    ensures
        ({
            let h = step_coord(you.head, dir);
            let body = seq![h] + you.body;
            find_id(next_board(b, you, dir).snakes, you.id, 0) matches Some(o) ==> {
                &&& o == advanced(you, h, b.food)
                &&& o.head == h
                &&& o.body[0] == h
                &&& on_food(b.food, h) ==> o.health == 100 && o.length == you.length + 1
                    && o.body == body
                &&& !on_food(b.food, h) ==> o.health == you.health - 1 && o.length
                    == you.length && o.body == if body.len() > you.length {
                    body.drop_last()
                } else {
                    body
                }
            }
        }),
{
    let h = step_coord(you.head, dir);
    let ss = moved(b, you, dir, b.snakes.len() as int).0;
    let nb = next_board(b, you, dir);
    lemma_moved_first(b, you, dir, b.snakes.len() as int);
    lemma_find_id_in(nb.snakes, you.id, 0);
    lemma_survivors_from(ss, ss.len() as int);
    let body = seq![h] + you.body;
    assert(body[0] == h);
    if body.len() > you.length {
        assert(body.drop_last()[0] == h);
    }
    if !id_lost(ss, ss[0].id) {
        lemma_survivors_first(ss, ss.len() as int);
    } else if let Some(o) = find_id(nb.snakes, you.id, 0) {
        let k = choose|k: int| 0 <= k < nb.snakes.len() && nb.snakes[k] == o;
        let j = choose|j: int|
            0 <= j < ss.len() && survivors(ss, ss.len() as int)[k] == ss[j] && !id_lost(
                ss,
                ss[j].id,
            );
        assert(ss[j].id == ss[0].id);
    }
}

/// The score is a function of its inputs: equal boards, snakes, moves and
/// depths give equal scores.
pub proof fn lemma_score_deterministic(
    b1: BoardView,
    you1: SnakeView,
    b2: BoardView,
    you2: SnakeView,
    dir: Move,
    depth: int,
)
    requires
        b1 == b2,
        you1 == you2,
    ensures
        move_score(b1, you1, dir, depth) == move_score(b2, you2, dir, depth),
{
}

/// At the horizon every move scores 1.
pub proof fn lemma_horizon_scores_one(b: BoardView, you: SnakeView, dir: Move)
    ensures
        move_score(b, you, dir, 0) == 1,
{
}

/// Board `b` with segment `c` inserted at index `j` of snake `k`'s body.
pub open spec fn with_segment(b: BoardView, k: int, j: int, c: Coord) -> BoardView {
    BoardView {
        snakes: b.snakes.update(
            k,
            SnakeView { body: b.snakes[k].body.insert(j, c), ..b.snakes[k] },
        ),
        ..b
    }
}

proof fn lemma_others_monotone(
    b: BoardView,
    p: Coord,
    you: SnakeView,
    look_ahead: bool,
    k: int,
    j: int,
    c: Coord,
    n: int,
)
    requires
        0 <= k < b.snakes.len(),
        b.snakes[k].id != you.id,
        1 <= j < b.snakes[k].body.len(),
    ensures
        others_safe(with_segment(b, k, j, c).snakes, p, you, look_ahead, n) ==> others_safe(
            b.snakes,
            p,
            you,
            look_ahead,
            n,
        ),
    decreases b.snakes.len() - n,
{
    let s2 = with_segment(b, k, j, c).snakes;
    if 0 <= n < b.snakes.len() {
        lemma_others_monotone(b, p, you, look_ahead, k, j, c, n + 1);
        if n == k {
            let body = b.snakes[k].body;
            let body2 = body.insert(j, c);
            body.insert_ensures(j, c);
            assert(s2[n].body == body2);
            if hits(body, p) {
                let i = choose|i: int| 0 <= i < body.len() && body[i] == p;
                if i < j {
                    assert(body2[i] == p);
                } else {
                    assert(body2[i + 1] == p);
                }
                if hits_only_tail(body2, p) {
                    assert forall|i: int| 0 <= i < body.len() - 1 implies body[i] != p by {
                        if i < j {
                            assert(body2[i] == body[i]);
                        } else {
                            assert(body2[i + 1] == body[i]);
                        }
                    }
                    assert(body2[body2.len() - 1] == body[body.len() - 1]);
                }
            } else if hits(body2, p) {
                assert(body2[body2.len() - 1] == body[body.len() - 1]);
            }
        } else {
            assert(s2[n] == b.snakes[n]);
        }
    }
}

/// Adding a segment to an opponent's body, anywhere behind its head and
/// before its tail, never turns an unsafe cell safe.
pub proof fn lemma_added_segment_never_helps(
    p: Coord,
    b: BoardView,
    you: SnakeView,
    look_ahead: bool,
    k: int,
    j: int,
    c: Coord,
)
    requires
        0 <= k < b.snakes.len(),
        b.snakes[k].id != you.id,
        1 <= j < b.snakes[k].body.len(),
    ensures
        position_safe(p, with_segment(b, k, j, c), you, look_ahead) ==> position_safe(
            p,
            b,
            you,
            look_ahead,
        ),
{
    lemma_others_monotone(b, p, you, look_ahead, k, j, c, 0);
}

/// A move whose projected head cell is rejected keeps a score of 0 when an
/// opponent gains a segment behind its head and before its tail.
pub proof fn lemma_added_segment_keeps_zero(
    b: BoardView,
    you: SnakeView,
    dir: Move,
    depth: int,
    k: int,
    j: int,
    c: Coord,
)
    requires
        depth >= 1,
        0 <= k < b.snakes.len(),
        b.snakes[k].id != you.id,
        1 <= j < b.snakes[k].body.len(),
        !position_safe(step_coord(you.head, dir), b, you, true),
    ensures
        move_score(b, you, dir, depth) == 0,
        move_score(with_segment(b, k, j, c), you, dir, depth) == 0,
{
    lemma_added_segment_never_helps(step_coord(you.head, dir), b, you, true, k, j, c);
}

} // verus!
