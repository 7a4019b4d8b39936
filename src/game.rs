use vstd::prelude::*;

use crate::field::{empty_cells_of, grid_of, lines_of, max_len, type_at, Cell, CellType, Field};
use crate::random::random_index;
use crate::snake::{body_of, direction_of, same_cell, Direction, Snake, SnakeModel};
use crate::error::MyError;

verus! {

/// Time between two moves of the snake, in microseconds.
pub const MOVING_PERIOD: u64 = 200_000;

/// An input key as the game reads it.
#[derive(Copy, Clone, Debug, PartialEq, Eq, Structural)]
pub enum Key {
    Up,
    Down,
    Left,
    Right,
    Other,
}

/// The heading a key asks for, if any.
pub open spec fn key_direction(k: Key) -> Option<Direction> {
    match k {
        Key::Up => Some(Direction::UP),
        Key::Down => Some(Direction::DOWN),
        Key::Left => Some(Direction::LEFT),
        Key::Right => Some(Direction::RIGHT),
        Key::Other => None,
    }
}

/// The cells of `pool`, in order, that `body` does not occupy.
pub open spec fn free_cells(pool: Seq<Cell>, body: Seq<Cell>) -> Seq<Cell>
    decreases pool.len(),
{
    if pool.len() == 0 {
        Seq::empty()
    } else {
        let p = free_cells(pool.drop_last(), body);
        if body.contains(pool.last()) {
            p
        } else {
            p.push(pool.last())
        }
    }
}

/// The candidate at `r` (taken modulo their number), or `None` when there
/// are no candidates.
pub open spec fn pick(candidates: Seq<Cell>, r: int) -> Option<Cell> {
    if candidates.len() == 0 {
        None
    } else {
        Some(candidates[r % candidates.len() as int])
    }
}

/// Whether body cell `i` collides: it lies on a wall, or (past the head) it
/// is where the head is.
pub open spec fn collides_at(rows: Seq<Seq<CellType>>, body: Seq<Cell>, i: int) -> bool {
    type_at(rows, body[i].0.0 as int, body[i].1.0 as int) == CellType::WALL || (i > 0 && body[i]
        == body[0])
}

/// The first colliding body cell from index `i` on, head to tail.
pub open spec fn collision_from(rows: Seq<Seq<CellType>>, body: Seq<Cell>, i: int) -> Option<Cell>
    decreases body.len() - i,
{
    if i < 0 || i >= body.len() {
        None
    } else if collides_at(rows, body, i) {
        Some(body[i])
    } else {
        collision_from(rows, body, i + 1)
    }
}

/// The food cell, when some body cell lies on it.
pub open spec fn eaten(food: Option<Cell>, body: Seq<Cell>) -> Option<Cell> {
    match food {
        Some(f) => if body.contains(f) { Some(f) } else { None },
        None => None,
    }
}

/// The state of a game as values.
pub struct GameModel {
    /// Microseconds since the last move.
    pub waiting_time: nat,
    pub game_over: bool,
    pub collision: Option<Cell>,
    pub field: Field,
    pub snake: SnakeModel,
    pub food: Option<Cell>,
    /// The empty cells of the field, in row-major order.
    pub pool: Seq<Cell>,
    pub direction_buffer: Direction,
}

impl GameModel {
    pub open spec fn wf(self) -> bool {
        self.field.wf() && self.snake.wf()
    }

    /// Where food may go now.
    pub open spec fn candidates(self) -> Seq<Cell> {
        free_cells(self.pool, self.snake.body)
    }

    /// The game after its collision check, its feeding check and, once the
    /// waiting time reaches the period, a move; `r1` and `r2` choose the food
    /// placed when there is none and after a meal.
    pub open spec fn ticked(self, delta: nat, r1: int, r2: int) -> GameModel {
        if self.game_over {
            self
        } else if collision_from(self.field.rows(), self.snake.body, 0) is Some {
            GameModel {
                collision: collision_from(self.field.rows(), self.snake.body, 0),
                game_over: true,
                ..self
            }
        } else {
            let f1 = if self.food is None {
                pick(self.candidates(), r1)
            } else {
                self.food
            };
            let snake1 = match eaten(f1, self.snake.body) {
                Some(e) => self.snake.fed(e),
                None => self.snake,
            };
            let f2 = if eaten(f1, self.snake.body) is Some {
                pick(self.candidates(), r2)
            } else {
                f1
            };
            let w = if self.waiting_time + delta > u64::MAX {
                u64::MAX as nat
            } else {
                self.waiting_time + delta
            };
            if w >= MOVING_PERIOD {
                let s2 = snake1.turned(self.direction_buffer);
                if s2.next_head() is Some {
                    GameModel { snake: s2.stepped(), food: f2, waiting_time: 0, ..self }
                } else {
                    GameModel {
                        snake: s2,
                        food: f2,
                        waiting_time: 0,
                        game_over: true,
                        collision: Some(s2.head()),
                        ..self
                    }
                }
            } else {
                GameModel { snake: snake1, food: f2, waiting_time: w, ..self }
            }
        }
    }
}

/// The game a level text starts, up to the choice `r` of its first food.
pub open spec fn fresh(s: Seq<char>, g: GameModel, r: int) -> bool {
    &&& g.wf()
    &&& g.field.rows() == grid_of(s)
    &&& g.field.spec_height() == lines_of(s).len()
    &&& g.field.spec_width() == max_len(lines_of(s))
    &&& g.snake.body == body_of(s)
    &&& Some(g.snake.direction) == direction_of(s)
    &&& g.snake.food.len() == 0
    &&& g.snake.prev_tail == g.snake.body.last()
    &&& g.pool == empty_cells_of(grid_of(s), max_len(lines_of(s)) as int, lines_of(s).len() as int)
    &&& g.direction_buffer == g.snake.direction
    &&& g.waiting_time == 0
    &&& !g.game_over
    &&& g.collision is None
    &&& g.food == pick(g.candidates(), r)
}

proof fn lemma_push_contains(s: Seq<Cell>, x: Cell, c: Cell)
    ensures
        s.push(x).contains(c) <==> (s.contains(c) || c == x),
{
    if s.contains(c) {
        let i = choose|i: int| 0 <= i < s.len() && s[i] == c;
        assert(s.push(x)[i] == c);
    }
    if c == x {
        assert(s.push(x)[s.len() as int] == c);
    }
    if s.push(x).contains(c) && c != x {
        let i = choose|i: int| 0 <= i < s.push(x).len() && s.push(x)[i] == c;
        assert(s[i] == c);
    }
}

proof fn lemma_free_cells(pool: Seq<Cell>, body: Seq<Cell>)
    ensures
        forall|c: Cell| #[trigger] free_cells(pool, body).contains(c) <==> (pool.contains(c) && !body.contains(c)),
    decreases pool.len(),
{
    if pool.len() > 0 {
        let q = pool.drop_last();
        let x = pool.last();
        lemma_free_cells(q, body);
        assert(pool =~= q.push(x));
        assert forall|c: Cell| #[trigger] free_cells(pool, body).contains(c) <==> (pool.contains(c) && !body.contains(c)) by {
            lemma_push_contains(q, x, c);
            lemma_push_contains(free_cells(q, body), x, c);
        }
    }
}

/// Food is only ever placed on an empty cell of the field that the snake
/// does not occupy, and none is placed when the snake covers every empty
/// cell.
pub proof fn lemma_food_off_snake(pool: Seq<Cell>, body: Seq<Cell>, r: int)
    ensures
        pick(free_cells(pool, body), r) matches Some(c) ==> pool.contains(c) && !body.contains(c),
        (forall|c: Cell| pool.contains(c) ==> body.contains(c)) ==> pick(free_cells(pool, body), r) is None,
{
    lemma_free_cells(pool, body);
    let f = free_cells(pool, body);
    if f.len() > 0 {
        let i = r % f.len() as int;
        assert(f.contains(f[i]));
        if forall|c: Cell| pool.contains(c) ==> body.contains(c) {
            assert(!(pool.contains(f[i]) && !body.contains(f[i])));
        }
    }
}

/// When a body cell of the snake, the head included, lies on a wall, a tick
/// ends the game and records that cell, and nothing else changes: no food is
/// placed or eaten and the snake does not move.
pub proof fn lemma_wall_ends_game(g: GameModel, delta: nat, r1: int, r2: int)
    requires
        g.wf(),
        !g.game_over,
        type_at(g.field.rows(), g.snake.head().0.0 as int, g.snake.head().1.0 as int) == CellType::WALL,
    ensures
        ({
            let t = g.ticked(delta, r1, r2);
            &&& t.game_over
            &&& t.collision == Some(g.snake.head())
            &&& t.snake == g.snake
            &&& t.food == g.food
            &&& t.waiting_time == g.waiting_time
        }),
{
}

/// Starting again on the same level text gives the same game as the first
/// start, but for where the first food lies: not over, with no collision,
/// the snake's initial body and heading, and a fresh clock.
pub proof fn lemma_restart(s: Seq<char>, g1: GameModel, k1: int, g2: GameModel, k2: int)
    requires
        fresh(s, g1, k1),
        fresh(s, g2, k2),
    ensures
        !g2.game_over,
        g2.collision is None,
        g2.waiting_time == 0,
        g2.snake == g1.snake,
        g2.snake.body == body_of(s),
        Some(g2.snake.direction) == direction_of(s),
        g2.field.rows() == g1.field.rows(),
        g2.pool == g1.pool,
        g2.direction_buffer == g1.direction_buffer,
{
    assert(g2.snake.food =~= g1.snake.food);
}

/// A game: the field, the snake, the food and the clock of moves.
pub struct Game {
    waiting_time: u64,
    game_over: bool,
    collision: Option<Cell>,
    field: Field,
    snake: Snake,
    food: Option<Cell>,
    empty_cells: Vec<Cell>,
    direction_buffer: Direction,
}

impl View for Game {
    type V = GameModel;

    closed spec fn view(&self) -> GameModel {
        GameModel {
            waiting_time: self.waiting_time as nat,
            game_over: self.game_over,
            collision: self.collision,
            field: self.field,
            snake: self.snake@,
            food: self.food,
            pool: self.empty_cells@,
            direction_buffer: self.direction_buffer,
        }
    }
}

impl Game {
    /// Starts a game on a level text.
    pub fn create_form_level_file(level: &str) -> (r: Result<Game, MyError>)
        requires
            level@.len() < u32::MAX,
        ensures
            r is Err <==> direction_of(level@) is None,
            r matches Err(e) ==> e == MyError::NoDirection,
            r matches Ok(g) ==> exists|k: int| fresh(level@, g@, k),
    {
        let field = Field::load_from_file(level);
        let snake = match Snake::load_from_file(level) {
            Ok(s) => s,
            Err(e) => {
                return Err(e);
            },
        };
        let empty_cells = field.get_empty_cells();
        let direction_buffer = snake.direction();
        let mut game = Game {
            waiting_time: 0,
            game_over: false,
            collision: None,
            field,
            snake,
            food: None,
            empty_cells,
            direction_buffer,
        };
        let (food, Ghost(k)) = game.generate_food();
        game.food = food;
        assert(fresh(level@, game@, k));
        Ok(game)
    }

    pub open spec fn wf(&self) -> bool {
        self@.wf()
    }

    pub fn field_width(&self) -> (r: u32)
        ensures
            r == self@.field.spec_width(),
    {
        self.field.width()
    }

    pub fn field_height(&self) -> (r: u32)
        ensures
            r == self@.field.spec_height(),
    {
        self.field.height()
    }

    /// Advances the game by `delta_time` microseconds.
    pub fn update(&mut self, delta_time: u64)
        requires
            old(self).wf(),
        ensures
            final(self).wf(),
            exists|r1: int, r2: int| final(self)@ == old(self)@.ticked(delta_time as nat, r1, r2),
    {
        let ghost g = self@;
        if self.game_over {
            assert(self@ == g.ticked(delta_time as nat, 0, 0));
            return;
        }
        if let Some(collision) = self.get_collision() {
            self.collision = Some(collision);
            self.game_over = true;
            assert(self@ == g.ticked(delta_time as nat, 0, 0));
            return;
        }
        let ghost mut r1: int = 0;
        let ghost mut r2: int = 0;
        if self.food.is_none() {
            let (f, Ghost(k)) = self.generate_food();
            self.food = f;
            proof {
                r1 = k;
            }
        }
        if let Some(eating) = self.get_eating() {
            self.snake.put_food(eating);
            let (f, Ghost(k)) = self.generate_food();
            self.food = f;
            proof {
                r2 = k;
            }
        }
        if delta_time > u64::MAX - self.waiting_time {
            self.waiting_time = u64::MAX;
        } else {
            self.waiting_time = self.waiting_time + delta_time;
        }
        if self.waiting_time >= MOVING_PERIOD {
            self.snake.update_direction(self.direction_buffer);
            match self.snake.next_head() {
                Some(_) => {
                    self.snake.update();
                },
                None => {
                    self.game_over = true;
                    self.collision = Some(self.snake.body()[0]);
                },
            }
            self.waiting_time = 0;
        }
        assert(self@ == g.ticked(delta_time as nat, r1, r2));
    }

    /// Buffers the heading an arrow key asks for; other keys change nothing.
    pub fn key_pressed(&mut self, key: Key)
        ensures
            final(self)@ == (match key_direction(key) {
                Some(d) => GameModel { direction_buffer: d, ..old(self)@ },
                None => old(self)@,
            }),
    {
        match key {
            Key::Up => self.direction_buffer = Direction::UP,
            Key::Down => self.direction_buffer = Direction::DOWN,
            Key::Left => self.direction_buffer = Direction::LEFT,
            Key::Right => self.direction_buffer = Direction::RIGHT,
            Key::Other => {},
        }
    }

    pub fn is_over(&self) -> (r: bool)
        ensures
            r == self@.game_over,
    {
        self.game_over
    }

    pub fn food(&self) -> (r: Option<Cell>)
        ensures
            r == self@.food,
    {
        self.food
    }

    pub fn collision(&self) -> (r: Option<Cell>)
        ensures
            r == self@.collision,
    {
        self.collision
    }

    pub fn field(&self) -> (r: &Field)
        ensures
            *r == self@.field,
    {
        &self.field
    }

    pub fn snake(&self) -> (r: &Snake)
        ensures
            r@ == self@.snake,
    {
        &self.snake
    }

    /// The empty cells of the field that the snake does not occupy, in
    /// row-major order.
    pub fn food_candidates(&self) -> (r: Vec<Cell>)
        ensures
            r@ == self@.candidates(),
    {
        let body = self.snake.body();
        let mut r: Vec<Cell> = Vec::new();
        let mut i: usize = 0;
        while i < self.empty_cells.len()
            invariant
                body@ == self@.snake.body,
                0 <= i <= self.empty_cells@.len(),
                r@ == free_cells(self.empty_cells@.take(i as int), body@),
            decreases self.empty_cells@.len() - i,
        {
            let cell = self.empty_cells[i];
            proof {
                assert(self.empty_cells@.take(i + 1).drop_last() =~= self.empty_cells@.take(i as int));
            }
            if !contains_cell(body, &cell) {
                r.push(cell);
            }
            i = i + 1;
        }
        proof {
            assert(self.empty_cells@.take(i as int) =~= self.empty_cells@);
        }
        r
    }

    /// The food placed when the draw gives `r`: the candidate at `r` modulo
    /// their number, or `None` when there is no candidate.
    pub fn pick_food(candidates: &Vec<Cell>, r: usize) -> (f: Option<Cell>)
        ensures
            f == pick(candidates@, r as int),
    {
        if candidates.len() == 0 {
            None
        } else {
            Some(candidates[r % candidates.len()])
        }
    }

    /// Food at a uniformly drawn free cell, or `None` when none is free.
    fn generate_food(&self) -> (r: (Option<Cell>, Ghost<int>))
        ensures
            r.0 == pick(self@.candidates(), r.1@),
    {
        let candidates = self.food_candidates();
        if candidates.len() == 0 {
            (None, Ghost(0))
        } else {
            let k = random_index(candidates.len());
            (Game::pick_food(&candidates, k), Ghost(k as int))
        }
    }

    /// The first body cell, head to tail, on a wall or (past the head) on
    /// the head.
    fn get_collision(&self) -> (r: Option<Cell>)
        requires
            self.wf(),
        ensures
            r == collision_from(self@.field.rows(), self@.snake.body, 0),
    {
        let body = self.snake.body();
        let head = body[0];
        let mut i: usize = 0;
        while i < body.len()
            invariant
                body@ == self@.snake.body,
                body@.len() > 0,
                head == body@[0],
                0 <= i <= body@.len(),
                collision_from(self@.field.rows(), body@, 0) == collision_from(self@.field.rows(), body@, i as int),
            decreases body@.len() - i,
        {
            let cell = body[i];
            if self.field.get_cell_type(&cell) == CellType::WALL {
                return Some(cell);
            }
            if i > 0 && same_cell(&head, &cell) {
                return Some(cell);
            }
            i = i + 1;
        }
        None
    }

    /// The food cell, when some body cell lies on it.
    fn get_eating(&self) -> (r: Option<Cell>)
        ensures
            r == eaten(self@.food, self@.snake.body),
    {
        match self.food {
            Some(f) => if contains_cell(self.snake.body(), &f) {
                Some(f)
            } else {
                None
            },
            None => None,
        }
    }
}

/// Whether `cells` holds `c`.
fn contains_cell(cells: &std::collections::VecDeque<Cell>, c: &Cell) -> (r: bool)
    ensures
        r == cells@.contains(*c),
{
    let mut i: usize = 0;
    while i < cells.len()
        invariant
            0 <= i <= cells@.len(),
            forall|k: int| 0 <= k < i ==> cells@[k] != *c,
        decreases cells@.len() - i,
    {
        if same_cell(&cells[i], c) {
            return true;
        }
        i = i + 1;
    }
    false
}

} // verus!
