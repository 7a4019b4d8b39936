use vstd::prelude::*;

use std::collections::VecDeque;

use crate::coord::Coord;
use crate::error::MyError;
use crate::field::{cell_at, lines_of, lemma_lines_nonempty, scan_pos, Cell};
use crate::text::chars_of;

verus! {

#[derive(Copy, Clone, Debug, PartialEq, Eq, Structural)]
pub enum Direction {
    UP,
    DOWN,
    LEFT,
    RIGHT,
}

/// Whether `b` is the exact reverse of `a`.
pub open spec fn is_opposite(a: Direction, b: Direction) -> bool {
    match a {
        Direction::UP => b == Direction::DOWN,
        Direction::DOWN => b == Direction::UP,
        Direction::LEFT => b == Direction::RIGHT,
        Direction::RIGHT => b == Direction::LEFT,
    }
}

/// The heading a level character sets, if any.
pub open spec fn marker_direction(c: char) -> Option<Direction> {
    if c == 'r' {
        Some(Direction::RIGHT)
    } else if c == 'l' {
        Some(Direction::LEFT)
    } else if c == 'u' {
        Some(Direction::UP)
    } else if c == 'd' {
        Some(Direction::DOWN)
    } else {
        None
    }
}

/// Whether a level character is a body cell of the snake.
pub open spec fn is_body_marker(c: char) -> bool {
    marker_direction(c) is Some || c == '='
}

/// The cell where the character at index `i` of `s` stands.
pub open spec fn cell_of_index(s: Seq<char>, i: int) -> Cell {
    cell_at(scan_pos(s.take(i)).0, scan_pos(s.take(i)).1)
}

/// The body a level text describes: each marker met in the row-major scan
/// goes in front of those met before it.
pub open spec fn body_of(s: Seq<char>) -> Seq<Cell>
    decreases s.len(),
{
    if s.len() == 0 {
        Seq::empty()
    } else {
        let p = s.drop_last();
        if is_body_marker(s.last()) {
            seq![cell_at(scan_pos(p).0, scan_pos(p).1)] + body_of(p)
        } else {
            body_of(p)
        }
    }
}

/// The heading of the last direction marker of a level text.
pub open spec fn direction_of(s: Seq<char>) -> Option<Direction>
    decreases s.len(),
{
    if s.len() == 0 {
        None
    } else if marker_direction(s.last()) is Some {
        marker_direction(s.last())
    } else {
        direction_of(s.drop_last())
    }
}

/// A level text with none of the direction markers `r`, `l`, `u`, `d` gives
/// no heading, whatever `=` markers it holds; loading a snake from it fails.
pub proof fn lemma_no_marker_no_direction(s: Seq<char>)
    requires
        forall|i: int| 0 <= i < s.len() ==> marker_direction(#[trigger] s[i]) is None,
    ensures
        direction_of(s) is None,
    decreases s.len(),
{
    if s.len() > 0 {
        let p = s.drop_last();
        assert(marker_direction(s[s.len() - 1]) is None);
        assert forall|i: int| 0 <= i < p.len() implies marker_direction(#[trigger] p[i]) is None by {
            assert(p[i] == s[i]);
        }
        lemma_no_marker_no_direction(p);
    }
}

/// The neighbour of `c` one step towards `d`; `None` past the coordinate range.
pub open spec fn moved(c: Cell, d: Direction) -> Option<Cell> {
    let x = c.0.0 as int;
    let y = c.1.0 as int;
    match d {
        Direction::UP => if y >= 1 { Some(cell_at(x, y - 1)) } else { None },
        Direction::DOWN => if y + 1 <= u32::MAX { Some(cell_at(x, y + 1)) } else { None },
        Direction::LEFT => if x >= 1 { Some(cell_at(x - 1, y)) } else { None },
        Direction::RIGHT => if x + 1 <= u32::MAX { Some(cell_at(x + 1, y)) } else { None },
    }
}

/// The state of a snake as values.
pub struct SnakeModel {
    /// Head first, tail last.
    pub body: Seq<Cell>,
    /// Swallowed food not yet grown into; the oldest is last.
    pub food: Seq<Cell>,
    pub direction: Direction,
    /// The cell the tail left on the last tick.
    pub prev_tail: Cell,
}

impl SnakeModel {
    /// The snake has a head.
    pub open spec fn wf(self) -> bool {
        self.body.len() > 0
    }

    pub open spec fn head(self) -> Cell {
        self.body[0]
    }

    /// The oldest queued food is due: the tail just left its cell.
    pub open spec fn grows(self) -> bool {
        self.food.len() > 0 && self.food.last() == self.prev_tail
    }

    /// The next head cell, if it is within the coordinate range.
    pub open spec fn next_head(self) -> Option<Cell> {
        moved(self.head(), self.direction)
    }

    /// The snake after one tick.
    pub open spec fn stepped(self) -> SnakeModel {
        let h = self.next_head().unwrap();
        if self.grows() {
            SnakeModel {
                body: seq![h] + self.body,
                food: self.food.drop_last(),
                direction: self.direction,
                prev_tail: self.prev_tail,
            }
        } else {
            SnakeModel {
                body: seq![h] + self.body.drop_last(),
                food: self.food,
                direction: self.direction,
                prev_tail: self.body.last(),
            }
        }
    }

    /// The snake with one more unit of food queued.
    pub open spec fn fed(self, c: Cell) -> SnakeModel {
        SnakeModel { food: seq![c] + self.food, ..self }
    }

    /// The snake after a request to head towards `d`.
    pub open spec fn turned(self, d: Direction) -> SnakeModel {
        if is_opposite(self.direction, d) {
            self
        } else {
            SnakeModel { direction: d, ..self }
        }
    }
}

/// Queuing food `c` on a snake that has none queued makes the next tick grow
/// the body by one cell exactly when that tick's previous tail is `c`; any
/// other tick keeps the length.
pub proof fn lemma_growth_commit(m: SnakeModel, c: Cell)
    requires
        m.wf(),
        m.food.len() == 0,
        m.next_head() is Some,
    ensures
        m.fed(c).stepped().body.len() == m.body.len() + 1 <==> m.prev_tail == c,
        m.fed(c).stepped().body.len() == m.body.len() || m.fed(c).stepped().body.len() == m.body.len() + 1,
{
    assert((seq![c] + m.food).last() == c);
}

proof fn lemma_body_of_dir(s: Seq<char>)
    ensures
        direction_of(s) is Some ==> body_of(s).len() > 0,
    decreases s.len(),
{
    if s.len() > 0 {
        lemma_body_of_dir(s.drop_last());
    }
}

proof fn lemma_head_stays(s: Seq<char>, j: int, n: int)
    requires
        0 <= j < n <= s.len(),
        is_body_marker(s[j]),
        forall|k: int| j < k < s.len() ==> !is_body_marker(#[trigger] s[k]),
    ensures
        body_of(s.take(n)).len() > 0,
        body_of(s.take(n))[0] == cell_of_index(s, j),
        direction_of(s.take(n)) == direction_of(s.take(j + 1)),
    decreases n - j,
{
    assert(s.take(n).drop_last() =~= s.take(n - 1));
    if n > j + 1 {
        lemma_head_stays(s, j, n - 1);
    }
}

/// The head of a loaded snake is the last body marker of the level in
/// row-major order; if that marker is a direction marker it also sets the
/// heading.
pub proof fn lemma_head_is_last_marker(s: Seq<char>, j: int)
    requires
        0 <= j < s.len(),
        is_body_marker(s[j]),
        forall|k: int| j < k < s.len() ==> !is_body_marker(#[trigger] s[k]),
    ensures
        body_of(s).len() > 0,
        body_of(s)[0] == cell_of_index(s, j),
        marker_direction(s[j]) is Some ==> direction_of(s) == marker_direction(s[j]),
{
    lemma_head_stays(s, j, s.len() as int);
    assert(s.take(s.len() as int) =~= s);
    assert(s.take(j + 1).drop_last() =~= s.take(j));
}

/// A snake: its body, heading and queue of swallowed food.
#[derive(Debug)]
pub struct Snake {
    body: VecDeque<Cell>,
    direction: Direction,
    food: VecDeque<Cell>,
    prev_tail: Cell,
}

impl View for Snake {
    type V = SnakeModel;

    closed spec fn view(&self) -> SnakeModel {
        SnakeModel {
            body: self.body@,
            food: self.food@,
            direction: self.direction,
            prev_tail: self.prev_tail,
        }
    }
}

impl Snake {
    /// Reads the snake from a level text: `r`, `l`, `u`, `d` and `=` are body
    /// cells, the last direction marker gives the heading.
    pub fn load_from_file(level: &str) -> (r: Result<Snake, MyError>)
        requires
            level@.len() < u32::MAX,
        ensures
            r is Err <==> direction_of(level@) is None,
            r matches Err(e) ==> e == MyError::NoDirection,
            r matches Ok(sn) ==> {
                &&& sn@.wf()
                &&& sn@.body == body_of(level@)
                &&& Some(sn@.direction) == direction_of(level@)
                &&& sn@.food.len() == 0
                &&& sn@.prev_tail == sn@.body.last()
            },
    {
        let cs = chars_of(level);
        let ghost s = level@;
        let mut body: VecDeque<Cell> = VecDeque::new();
        let mut direction: Option<Direction> = None;
        let mut x: u32 = 0;
        let mut y: u32 = 0;
        let mut i: usize = 0;
        proof {
            assert(s.take(0) =~= Seq::<char>::empty());
        }
        while i < cs.len()
            invariant
                cs@ == s,
                s.len() < u32::MAX,
                0 <= i <= s.len(),
                x <= i,
                y <= i,
                scan_pos(s.take(i as int)) == (x as int, y as int),
                body@ == body_of(s.take(i as int)),
                direction == direction_of(s.take(i as int)),
            decreases s.len() - i,
        {
            proof {
                assert(s.take(i + 1).drop_last() =~= s.take(i as int));
                lemma_lines_nonempty(s.take(i as int));
            }
            let c = cs[i];
            let d = marker_of(c);
            if d.is_some() || c == '=' {
                body.push_front((Coord::new(x), Coord::new(y)));
            }
            if d.is_some() {
                direction = d;
            }
            if c == '\n' {
                x = 0;
                y = y + 1;
            } else {
                x = x + 1;
            }
            i = i + 1;
        }
        proof {
            assert(s.take(s.len() as int) =~= s);
            lemma_body_of_dir(s);
        }
        match direction {
            None => Err(MyError::NoDirection),
            Some(direction) => {
                let prev_tail = body[body.len() - 1];
                Ok(Snake { body, direction, food: VecDeque::new(), prev_tail })
            },
        }
    }

    /// The next head cell, if it is within the coordinate range.
    pub fn next_head(&self) -> (r: Option<Cell>)
        requires
            self@.wf(),
        ensures
            r == self@.next_head(),
    {
        let head = self.body[0];
        match self.direction {
            Direction::UP => match head.1.checked_sub(1) {
                Some(v) => Some((head.0, v)),
                None => None,
            },
            Direction::DOWN => match head.1.checked_add(1) {
                Some(v) => Some((head.0, v)),
                None => None,
            },
            Direction::LEFT => match head.0.checked_sub(1) {
                Some(v) => Some((v, head.1)),
                None => None,
            },
            Direction::RIGHT => match head.0.checked_add(1) {
                Some(v) => Some((v, head.1)),
                None => None,
            },
        }
    }

    /// Advances one tick: commits due growth, moves the head one cell on and
    /// retracts the tail.
    pub fn update(&mut self)
        requires
            old(self)@.wf(),
            old(self)@.next_head() is Some,
        ensures
            final(self)@ == old(self)@.stepped(),
            final(self)@.wf(),
            final(self)@.body.len() == old(self)@.body.len() + if old(self)@.grows() { 1int } else { 0int },
    {
        let ghost m = self@;
        if let Some(grow) = self.food.pop_back() {
            if same_cell(&self.prev_tail, &grow) {
                self.body.push_back(grow);
            } else {
                self.food.push_back(grow);
            }
        }
        let head = match self.next_head() {
            Some(h) => h,
            None => self.body[0],
        };
        self.body.push_front(head);
        let len = self.body.len();
        let tail = self.body[len - 1];
        self.body.pop_back();
        self.prev_tail = tail;
        proof {
            if m.grows() {
                assert(self.body@ =~= seq![head] + m.body);
                assert(self.food@ =~= m.food.drop_last());
            } else {
                assert(self.body@ =~= seq![head] + m.body.drop_last());
                if m.food.len() > 0 {
                    assert(self.food@ =~= m.food);
                }
            }
        }
    }

    /// Queues one unit of growth for the food eaten at `food_cell`.
    pub fn put_food(&mut self, food_cell: Cell)
        ensures
            final(self)@ == old(self)@.fed(food_cell),
    {
        self.food.push_front(food_cell);
    }

    fn opposite_direction(&self, direction: Direction) -> (r: bool)
        ensures
            r == is_opposite(self.direction, direction),
    {
        match self.direction {
            Direction::UP => direction == Direction::DOWN,
            Direction::DOWN => direction == Direction::UP,
            Direction::LEFT => direction == Direction::RIGHT,
            Direction::RIGHT => direction == Direction::LEFT,
        }
    }

    /// Heads towards `direction`, unless that is the reverse of the current
    /// heading.
    pub fn update_direction(&mut self, direction: Direction)
        ensures
            final(self)@ == old(self)@.turned(direction),
    {
        if !self.opposite_direction(direction) {
            self.direction = direction;
        }
    }

    pub fn direction(&self) -> (r: Direction)
        ensures
            r == self@.direction,
    {
        self.direction
    }

    pub fn body(&self) -> (r: &VecDeque<Cell>)
        ensures
            r@ == self@.body,
    {
        &self.body
    }

    /// The queued food, newest first.
    pub fn pending_growth(&self) -> (r: &VecDeque<Cell>)
        ensures
            r@ == self@.food,
    {
        &self.food
    }
}

/// Whether two cells are the same position.
pub fn same_cell(a: &Cell, b: &Cell) -> (r: bool)
    ensures
        r == (*a == *b),
{
    a.0.0 == b.0.0 && a.1.0 == b.1.0
}

/// The heading a level character sets, if any.
fn marker_of(c: char) -> (r: Option<Direction>)
    ensures
        r == marker_direction(c),
{
    if c == 'r' {
        Some(Direction::RIGHT)
    } else if c == 'l' {
        Some(Direction::LEFT)
    } else if c == 'u' {
        Some(Direction::UP)
    } else if c == 'd' {
        Some(Direction::DOWN)
    } else {
        None
    }
}

} // verus!
