use snake_logic::decision::{
    choose_move, end, get_move, move_candidates, safe_move_flags, start, turn_fits,
};
use snake_logic::lookahead::evaluate_move_safety;
use snake_logic::safety::is_position_safe;
use snake_logic::transition::{advance_snake, opponent_move, resolve_head_to_head, simulate_step};
use snake_logic::types::{coords_equal, simulate_move, Battlesnake, Board, Coord, Game, Move};

fn c(x: i32, y: i32) -> Coord {
    Coord { x, y }
}

fn snake(id: &str, body: Vec<Coord>, health: i32) -> Battlesnake {
    let length = body.len() as i32;
    Battlesnake {
        id: id.to_string(),
        name: format!("snake {}", id),
        health,
        head: body[0],
        body,
        length,
        latency: "0".to_string(),
        shout: String::new(),
    }
}

fn board(width: i32, height: i32, food: Vec<Coord>, snakes: Vec<Battlesnake>) -> Board {
    Board { height, width, food, snakes, hazards: Vec::new() }
}

fn copy(s: &Battlesnake) -> Battlesnake {
    Battlesnake {
        id: s.id.clone(),
        name: s.name.clone(),
        health: s.health,
        body: s.body.clone(),
        head: s.head,
        length: s.length,
        latency: s.latency.clone(),
        shout: s.shout.clone(),
    }
}

fn same_snake(a: &Battlesnake, b: &Battlesnake) -> bool {
    a.id == b.id && a.health == b.health && a.body == b.body && a.head == b.head
        && a.length == b.length
}

fn lone_snake() -> (Board, Battlesnake) {
    let us = snake("us", vec![c(5, 5), c(5, 4), c(5, 3)], 90);
    let b = board(11, 11, Vec::new(), vec![copy(&us)]);
    (b, us)
}

fn game() -> Game {
    Game { id: "g".to_string(), timeout: 500 }
}

#[test]
fn lone_snake_scores_every_move_but_its_neck() {
    let (b, us) = lone_snake();
    assert!(evaluate_move_safety(&b, &us, &Move::Up, 3) > 0);
    assert!(evaluate_move_safety(&b, &us, &Move::Left, 3) > 0);
    assert!(evaluate_move_safety(&b, &us, &Move::Right, 3) > 0);
    assert_eq!(evaluate_move_safety(&b, &us, &Move::Down, 3), 0);
}

#[test]
fn lone_snake_exact_scores() {
    let (b, us) = lone_snake();
    assert_eq!(evaluate_move_safety(&b, &us, &Move::Up, 1), 3);
    assert_eq!(evaluate_move_safety(&b, &us, &Move::Up, 2), 9);
    assert_eq!(evaluate_move_safety(&b, &us, &Move::Up, 3), 27);
}

#[test]
fn horizon_scores_one() {
    let (b, us) = lone_snake();
    assert_eq!(evaluate_move_safety(&b, &us, &Move::Down, 0), 1);
    assert_eq!(evaluate_move_safety(&b, &us, &Move::Up, 0), 1);
}

#[test]
fn equal_heads_make_shared_cell_unsafe_for_both() {
    let a = snake("a", vec![c(5, 5), c(4, 5), c(3, 5)], 90);
    let o = snake("b", vec![c(7, 5), c(8, 5), c(9, 5)], 90);
    let b = board(11, 11, Vec::new(), vec![copy(&a), copy(&o)]);
    assert!(!is_position_safe(&c(6, 5), &b, &a, true));
    assert!(!is_position_safe(&c(6, 5), &b, &o, true));
    assert!(is_position_safe(&c(6, 5), &b, &a, false));
}

#[test]
fn shorter_opponent_head_is_no_threat() {
    let a = snake("a", vec![c(5, 5), c(4, 5), c(3, 5), c(2, 5)], 90);
    let o = snake("b", vec![c(7, 5), c(8, 5), c(9, 5)], 90);
    let b = board(11, 11, Vec::new(), vec![copy(&a), copy(&o)]);
    assert!(is_position_safe(&c(6, 5), &b, &a, true));
    assert!(!is_position_safe(&c(6, 5), &b, &o, true));
}

#[test]
fn east_wall_is_unsafe_either_way() {
    let us = snake("us", vec![c(10, 5), c(9, 5), c(8, 5)], 90);
    let b = board(11, 11, Vec::new(), vec![copy(&us)]);
    let next = simulate_move(&us.head, &Move::Right);
    assert_eq!(next, c(11, 5));
    assert!(!is_position_safe(&next, &b, &us, true));
    assert!(!is_position_safe(&next, &b, &us, false));
}

#[test]
fn off_board_cells_are_unsafe() {
    let (b, us) = lone_snake();
    for p in [c(-1, 0), c(0, -1), c(11, 0), c(0, 11)] {
        assert!(!is_position_safe(&p, &b, &us, false));
        assert!(!is_position_safe(&p, &b, &us, true));
    }
    assert!(is_position_safe(&c(0, 0), &b, &us, true));
}

#[test]
fn own_tail_is_safe_only_when_it_vacates() {
    let (b, us) = lone_snake();
    assert!(is_position_safe(&c(5, 3), &b, &us, false));
    assert!(!is_position_safe(&c(5, 3), &b, &us, true));
    let full = snake("us", vec![c(5, 5), c(5, 4), c(5, 3)], 100);
    assert!(!is_position_safe(&c(5, 3), &b, &full, false));
    let single = snake("us", vec![c(5, 5)], 50);
    assert!(!is_position_safe(&c(5, 5), &b, &single, false));
    assert!(!is_position_safe(&c(5, 4), &b, &us, false));
}

#[test]
fn opponent_tail_vacates_without_look_ahead() {
    let us = snake("us", vec![c(1, 1), c(1, 2), c(1, 3)], 90);
    let o = snake("o", vec![c(4, 4), c(4, 3), c(4, 2)], 100);
    let b = board(11, 11, Vec::new(), vec![copy(&us), copy(&o)]);
    assert!(is_position_safe(&c(4, 2), &b, &us, false));
    assert!(!is_position_safe(&c(4, 2), &b, &us, true));
    assert!(!is_position_safe(&c(4, 3), &b, &us, false));
}

#[test]
fn moves_step_one_cell() {
    let h = c(3, 3);
    assert_eq!(simulate_move(&h, &Move::Up), c(3, 4));
    assert_eq!(simulate_move(&h, &Move::Down), c(3, 2));
    assert_eq!(simulate_move(&h, &Move::Left), c(2, 3));
    assert_eq!(simulate_move(&h, &Move::Right), c(4, 3));
    assert!(coords_equal(&h, &c(3, 3)));
    assert!(!coords_equal(&h, &c(3, 4)));
    assert_eq!(Move::Left.as_str(), "left");
}

#[test]
fn eating_resets_health_and_grows() {
    let s = snake("s", vec![c(2, 2), c(2, 1), c(2, 0)], 40);
    let mut food = vec![c(7, 7), c(2, 3), c(2, 3)];
    let r = advance_snake(&s, c(2, 3), &mut food);
    assert_eq!(r.health, 100);
    assert_eq!(r.length, 4);
    assert_eq!(r.body, vec![c(2, 3), c(2, 2), c(2, 1), c(2, 0)]);
    assert_eq!(r.head, c(2, 3));
    assert_eq!(food, vec![c(7, 7), c(2, 3)]);
}

#[test]
fn starving_step_keeps_body_length() {
    let s = snake("s", vec![c(2, 2), c(2, 1), c(2, 0)], 40);
    let mut food = vec![c(7, 7)];
    let r = advance_snake(&s, c(3, 2), &mut food);
    assert_eq!(r.health, 39);
    assert_eq!(r.length, 3);
    assert_eq!(r.body, vec![c(3, 2), c(2, 2), c(2, 1)]);
    assert_eq!(food, vec![c(7, 7)]);
}

#[test]
fn step_is_repeatable() {
    let us = snake("us", vec![c(5, 5), c(5, 4), c(5, 3)], 90);
    let o = snake("o", vec![c(2, 2), c(2, 1), c(2, 0)], 80);
    let b = board(11, 11, vec![c(5, 6), c(2, 3)], vec![copy(&us), copy(&o)]);
    let n1 = simulate_step(&b, &us, &Move::Up);
    let n2 = simulate_step(&b, &us, &Move::Up);
    assert_eq!(n1.food, n2.food);
    assert_eq!(n1.snakes.len(), n2.snakes.len());
    for i in 0..n1.snakes.len() {
        assert!(same_snake(&n1.snakes[i], &n2.snakes[i]));
    }
    assert!(n1.food.is_empty());
    assert_eq!(n1.snakes[0].health, 100);
    assert_eq!(n1.snakes[0].length, 4);
    assert_eq!(n1.snakes[1].head, c(2, 3));
    assert_eq!(n1.snakes[1].health, 100);
}

#[test]
fn opponent_takes_first_feasible_move() {
    let us = snake("us", vec![c(5, 5), c(5, 4), c(5, 3)], 90);
    let o = snake("o", vec![c(0, 0), c(1, 0), c(2, 0)], 80);
    let b = board(11, 11, Vec::new(), vec![copy(&us), copy(&o)]);
    assert_eq!(opponent_move(&b, &o), Some(Move::Up));
    let top = snake("t", vec![c(0, 10), c(1, 10), c(2, 10)], 80);
    let b2 = board(11, 11, Vec::new(), vec![copy(&top)]);
    assert_eq!(opponent_move(&b2, &top), Some(Move::Down));
    let boxed = snake("x", vec![c(0, 0)], 80);
    let wall = snake("w", vec![c(0, 1), c(1, 1), c(1, 0), c(2, 0)], 80);
    let b3 = board(11, 11, Vec::new(), vec![copy(&boxed), copy(&wall)]);
    assert_eq!(opponent_move(&b3, &boxed), None);
}

#[test]
fn shorter_snake_loses_head_to_head() {
    let mut a = snake("a", vec![c(3, 3), c(2, 3), c(1, 3)], 90);
    let mut b = snake("b", vec![c(3, 3), c(4, 3), c(5, 3), c(6, 3)], 90);
    let d = snake("d", vec![c(8, 8), c(8, 7)], 90);
    a.length = 3;
    b.length = 4;
    let r = resolve_head_to_head(&vec![copy(&a), copy(&b), copy(&d)]);
    assert_eq!(r.len(), 2);
    assert_eq!(r[0].id, "b");
    assert_eq!(r[1].id, "d");
    b.length = 3;
    let tied = resolve_head_to_head(&vec![copy(&a), copy(&b), copy(&d)]);
    assert_eq!(tied.len(), 3);
}

#[test]
fn our_loss_head_to_head_scores_zero() {
    let us = snake("us", vec![c(5, 5), c(5, 4), c(5, 3)], 90);
    let o = snake("o", vec![c(6, 7), c(7, 7), c(8, 7), c(9, 7)], 90);
    let b = board(11, 11, Vec::new(), vec![copy(&us), copy(&o)]);
    assert_eq!(evaluate_move_safety(&b, &us, &Move::Up, 1), 3);
    let near = snake("o", vec![c(6, 6), c(7, 6), c(8, 6), c(9, 6)], 90);
    let b2 = board(11, 11, Vec::new(), vec![copy(&us), copy(&near)]);
    assert_eq!(evaluate_move_safety(&b2, &us, &Move::Up, 1), 0);
    assert_eq!(evaluate_move_safety(&b2, &us, &Move::Right, 3), 0);
}

#[test]
fn added_segment_on_path_lowers_score() {
    let us = snake("us", vec![c(5, 5), c(5, 4), c(5, 3)], 90);
    let o = snake("o", vec![c(9, 9), c(9, 8), c(9, 7)], 90);
    let b = board(11, 11, Vec::new(), vec![copy(&us), copy(&o)]);
    let before = evaluate_move_safety(&b, &us, &Move::Up, 2);
    let mut o2 = copy(&o);
    o2.body.insert(1, c(5, 6));
    let b2 = board(11, 11, Vec::new(), vec![copy(&us), o2]);
    let after = evaluate_move_safety(&b2, &us, &Move::Up, 2);
    assert!(before > 0);
    assert_eq!(after, 0);
    assert!(after <= before);
}

#[test]
fn move_choice_on_open_board() {
    let (b, us) = lone_snake();
    assert!(turn_fits(&b, &us));
    assert_eq!(safe_move_flags(&b, &us), vec![true, false, true, true]);
    let candidates = move_candidates(&b, &us);
    assert!(!candidates.is_empty());
    let r = get_move(&game(), &1, &b, &us);
    assert!(candidates.contains(&r.chosen));
    assert_ne!(r.chosen, Move::Down);
    assert_eq!(r.shout, "");
    start(&game(), &0, &b, &us);
    end(&game(), &9, &b, &us);
}

#[test]
fn move_choice_steers_to_emptier_quadrant() {
    // Body all in the south-west quadrant (index 0); the other three are
    // empty, and the last of them with the most food wins the tie.
    let us = snake("us", vec![c(2, 2), c(2, 1), c(2, 0)], 90);
    let b = board(11, 11, vec![c(9, 9)], vec![copy(&us)]);
    let candidates = move_candidates(&b, &us);
    // Target index 3 selects Down and Left by the quadrant table; Down is
    // our neck, and the nearest-food step finds no food in quadrant 3.
    assert_eq!(candidates, vec![Move::Left]);
}

#[test]
fn trapped_snake_gives_up() {
    let us = snake("us", vec![c(0, 0), c(0, 1), c(1, 1), c(1, 0)], 90);
    let b = board(11, 11, Vec::new(), vec![copy(&us)]);
    assert!(move_candidates(&b, &us).is_empty());
    let r = get_move(&game(), &3, &b, &us);
    assert_eq!(r.chosen, Move::Up);
    assert_eq!(r.shout, "The only winning move is not to play...");
}

#[test]
fn single_safe_move_is_taken() {
    let us = snake("us", vec![c(0, 0), c(0, 1), c(0, 2)], 90);
    let b = board(11, 11, Vec::new(), vec![copy(&us)]);
    let r = get_move(&game(), &3, &b, &us);
    assert_eq!(r.chosen, Move::Right);
    assert_eq!(r.shout, "");
}

#[test]
fn degenerate_snake_does_not_fit() {
    let (b, _) = lone_snake();
    let mut empty = snake("e", vec![c(1, 1)], 90);
    empty.body.clear();
    assert!(!turn_fits(&b, &empty));
    let mut negative = snake("n", vec![c(1, 1)], 90);
    negative.length = -1;
    assert!(!turn_fits(&b, &negative));
}

#[test]
fn added_segment_can_reroute_opponent() {
    // A segment that blocks an opponent's stand-in move sends it elsewhere,
    // which here frees a continuation of ours: the score goes up.
    let us = snake("us", vec![c(5, 5), c(5, 4), c(5, 3)], 90);
    let o = snake("o", vec![c(4, 7), c(4, 8), c(4, 9)], 90);
    let p = snake("p", vec![c(8, 1), c(8, 2)], 90);
    let b = board(11, 11, Vec::new(), vec![copy(&us), copy(&o), copy(&p)]);
    assert_eq!(evaluate_move_safety(&b, &us, &Move::Up, 1), 2);
    let mut p2 = copy(&p);
    p2.body.insert(1, c(4, 6));
    let b2 = board(11, 11, Vec::new(), vec![copy(&us), copy(&o), p2]);
    assert_eq!(evaluate_move_safety(&b2, &us, &Move::Up, 1), 3);
}

#[test]
fn stuck_opponent_stays_frozen() {
    let us = snake("us", vec![c(5, 5), c(5, 4), c(5, 3)], 90);
    let boxed = snake("x", vec![c(0, 0)], 80);
    let wall = snake("w", vec![c(0, 1), c(1, 1), c(1, 0), c(2, 0)], 80);
    let b = board(11, 11, Vec::new(), vec![copy(&us), copy(&boxed), copy(&wall)]);
    assert_eq!(opponent_move(&b, &boxed), None);
    let n = simulate_step(&b, &us, &Move::Up);
    assert_eq!(n.snakes.len(), 3);
    assert_eq!(n.snakes[0].head, c(5, 6));
    assert!(same_snake(&n.snakes[1], &boxed));
    assert_eq!(n.snakes[2].id, "w");
    assert_eq!(n.snakes[2].head, c(0, 2));
}

#[test]
fn chosen_move_follows_the_pick() {
    let moves = vec![Move::Left, Move::Right];
    let r = choose_move(&moves, 1);
    assert_eq!(r.chosen, Move::Right);
    assert_eq!(r.shout, "");
    assert_eq!(choose_move(&moves, 0).chosen, Move::Left);
    let none = choose_move(&Vec::new(), 0);
    assert_eq!(none.chosen, Move::Up);
    assert_eq!(none.shout, "The only winning move is not to play...");
}

#[test]
fn step_and_back_at_the_integer_edge() {
    let edge = c(i32::MAX, i32::MIN);
    let left = simulate_move(&edge, &Move::Left);
    assert_eq!(left, c(i32::MAX - 1, i32::MIN));
    assert_eq!(simulate_move(&left, &Move::Right), edge);
    let up = simulate_move(&edge, &Move::Up);
    assert_eq!(simulate_move(&up, &Move::Down), edge);
}
