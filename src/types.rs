//! Grid, snakes and board: plain values, copied for every simulated branch.
use vstd::prelude::*;

verus! {

/// A cell of the grid.
#[derive(Clone, Copy, Debug, PartialEq, Eq, Structural)]
pub struct Coord {
    pub x: i32,
    pub y: i32,
}

/// One of the four cardinal moves.
#[derive(Clone, Copy, Debug, PartialEq, Eq, Structural)]
pub enum Move {
    Up,
    Down,
    Left,
    Right,
}

/// A snake: `body[0]` is the head, `length` the body length it is heading for.
#[derive(Debug)]
pub struct Battlesnake {
    pub id: String,
    pub name: String,
    pub health: i32,
    pub body: Vec<Coord>,
    pub head: Coord,
    pub length: i32,
    pub latency: String,
    pub shout: String,
}

/// The board of one turn; valid cells are `[0, width) x [0, height)`.
#[derive(Debug)]
pub struct Board {
    pub height: i32,
    pub width: i32,
    pub food: Vec<Coord>,
    pub snakes: Vec<Battlesnake>,
    pub hazards: Vec<Coord>,
}

/// A snake as a mathematical value.
pub struct SnakeView {
    pub id: Seq<char>,
    pub name: Seq<char>,
    pub health: i32,
    pub body: Seq<Coord>,
    pub head: Coord,
    pub length: i32,
    pub latency: Seq<char>,
    pub shout: Seq<char>,
}

impl View for Battlesnake {
    type V = SnakeView;

    open spec fn view(&self) -> SnakeView {
        SnakeView {
            id: self.id@,
            name: self.name@,
            health: self.health,
            body: self.body@,
            head: self.head,
            length: self.length,
            latency: self.latency@,
            shout: self.shout@,
        }
    }
}

/// A board as a mathematical value.
pub struct BoardView {
    pub height: i32,
    pub width: i32,
    pub food: Seq<Coord>,
    pub snakes: Seq<SnakeView>,
    pub hazards: Seq<Coord>,
}

/// The views of a sequence of snakes.
pub open spec fn snakes_view(v: Seq<Battlesnake>) -> Seq<SnakeView> {
    v.map_values(|s: Battlesnake| s@)
}

impl View for Board {
    type V = BoardView;

    open spec fn view(&self) -> BoardView {
        BoardView {
            height: self.height,
            width: self.width,
            food: self.food@,
            snakes: snakes_view(self.snakes@),
            hazards: self.hazards@,
        }
    }
}

/// The game a turn belongs to.
#[derive(Debug)]
pub struct Game {
    pub id: String,
    pub timeout: u32,
}

/// The four moves in the order in which they are tried.
pub open spec fn move_at(i: int) -> Move {
    if i == 0 {
        Move::Up
    } else if i == 1 {
        Move::Down
    } else if i == 2 {
        Move::Left
    } else {
        Move::Right
    }
}

/// The cell one step from `c` in direction `dir` (Up is +y).
pub open spec fn step_coord(c: Coord, dir: Move) -> Coord {
    match dir {
        Move::Up => Coord { x: c.x, y: (c.y + 1) as i32 },
        Move::Down => Coord { x: c.x, y: (c.y - 1) as i32 },
        Move::Left => Coord { x: (c.x - 1) as i32, y: c.y },
        Move::Right => Coord { x: (c.x + 1) as i32, y: c.y },
    }
}

/// A step from `c` in direction `dir` stays within `i32`.
pub open spec fn can_step(c: Coord, dir: Move) -> bool {
    match dir {
        Move::Up => c.y < i32::MAX,
        Move::Down => c.y > i32::MIN,
        Move::Left => c.x > i32::MIN,
        Move::Right => c.x < i32::MAX,
    }
}

/// The direction that undoes `dir`.
pub open spec fn opposite(dir: Move) -> Move {
    match dir {
        Move::Up => Move::Down,
        Move::Down => Move::Up,
        Move::Left => Move::Right,
        Move::Right => Move::Left,
    }
}

/// A coordinate from which a step in any direction stays within `i32`.
pub open spec fn steppable(c: Coord) -> bool {
    i32::MIN < c.x < i32::MAX && i32::MIN < c.y < i32::MAX
}

pub open spec fn in_bounds(c: Coord, width: i32, height: i32) -> bool {
    0 <= c.x < width && 0 <= c.y < height
}

impl Move {
    /// The move's name on the wire.
    pub fn as_str(&self) -> (r: &'static str)
        ensures
            r@ == move_name(*self),
    {
        match self {
            Move::Up => "up",
            Move::Down => "down",
            Move::Left => "left",
            Move::Right => "right",
        }
    }
}

pub open spec fn move_name(m: Move) -> Seq<char> {
    match m {
        Move::Up => "up"@,
        Move::Down => "down"@,
        Move::Left => "left"@,
        Move::Right => "right"@,
    }
}

/// The move `i` of `move_at`, as an executable value.
pub fn move_of_index(i: usize) -> (r: Move)
    requires
        i < 4,
    ensures
        r == move_at(i as int),
{
    if i == 0 {
        Move::Up
    } else if i == 1 {
        Move::Down
    } else if i == 2 {
        Move::Left
    } else {
        Move::Right
    }
}

/// Advances `head` by one step in direction `move_dir`.
pub fn simulate_move(head: &Coord, move_dir: &Move) -> (r: Coord)
    requires
        can_step(*head, *move_dir),
    ensures
        r == step_coord(*head, *move_dir),
{
    match move_dir {
        Move::Up => Coord { x: head.x, y: head.y + 1 },
        Move::Down => Coord { x: head.x, y: head.y - 1 },
        Move::Left => Coord { x: head.x - 1, y: head.y },
        Move::Right => Coord { x: head.x + 1, y: head.y },
    }
}

/// Whether two coordinates name the same cell.
pub fn coords_equal(a: &Coord, b: &Coord) -> (r: bool)
    ensures
        r == (*a == *b),
{
    a.x == b.x && a.y == b.y
}

/// A copy of a body, segment for segment.
pub fn copy_coords(v: &Vec<Coord>) -> (r: Vec<Coord>)
    ensures
        r@ == v@,
{
    let mut r: Vec<Coord> = Vec::new();
    let mut i: usize = 0;
    while i < v.len()
        invariant
            i <= v.len(),
            r@ == v@.subrange(0, i as int),
        decreases v.len() - i,
    {
        r.push(v[i]);
        i += 1;
    }
    assert(r@ =~= v@);
    r
}

/// A copy of a snake, field for field.
pub fn copy_snake(s: &Battlesnake) -> (r: Battlesnake)
    ensures
        r@ == s@,
{
    Battlesnake {
        id: s.id.clone(),
        name: s.name.clone(),
        health: s.health,
        body: copy_coords(&s.body),
        head: s.head,
        length: s.length,
        latency: s.latency.clone(),
        shout: s.shout.clone(),
    }
}

} // verus!
