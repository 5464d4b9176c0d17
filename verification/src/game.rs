//! One game: field, snake, food, score and speed, and the steps of a tick.
use vstd::prelude::*;
use vstd::set_lib::{lemma_int_range, lemma_len_subset, lemma_map_size_bound, set_int_range};
use crate::direction::{
    end_choice, interpret_end_key, interpret_key, key_action, next_heading, Direction, EndChoice,
    KeyAction,
};
use crate::field::{init_array, Field};
use crate::food::{food_gen, food_in_range, FOOD_MAX_X, FOOD_MAX_Y, FOOD_MIN};
use crate::snake::{
    crashed, grown, initial_body, lemma_grow_keeps_shape, lemma_initial_well_formed,
    lemma_length_bounded, lemma_move_keeps_shape, moved, occupied, on_grid, stepped, well_formed,
    BodyPart, Snake,
};

verus! {

/// Milliseconds between two ticks at the start of a round.
pub const START_SPEED: u64 = 300;

/// The shortest time between two ticks.
pub const MIN_SPEED: u64 = 140;

/// By how much the time between two ticks shrinks with each food eaten.
pub const SPEED_STEP: u64 = 20;

/// Points for each food eaten.
pub const SCORE_STEP: i32 = 10;

/// How many random cells are tried for new food before the field is searched
/// cell by cell.
pub const MAX_DRAWS: u32 = 1000;

/// The state of the game. `highscore` outlives the rounds.
pub struct Game {
    pub field: Field,
    pub snake: Snake,
    pub food: (u16, u16),
    pub score: i32,
    pub highscore: i32,
    pub speed: u64,
}

/// The time between two ticks after one more food, from the time before: one
/// step shorter, but not shorter than the shortest time.
pub open spec fn sped_up(speed: u64) -> u64 {
    if speed > MIN_SPEED + SPEED_STEP {
        (speed - SPEED_STEP) as u64
    } else if speed > MIN_SPEED {
        MIN_SPEED
    } else {
        speed
    }
}

/// The time between two ticks at a given score.
pub open spec fn interval_for_score(score: int) -> int {
    let eaten = score / (SCORE_STEP as int);
    if START_SPEED - SPEED_STEP * eaten > MIN_SPEED {
        START_SPEED - SPEED_STEP * eaten
    } else {
        MIN_SPEED as int
    }
}

/// Some cell on which food may be placed is free of the snake.
pub open spec fn has_free_cell(body: Seq<BodyPart>) -> bool {
    exists|x: u16, y: u16| food_in_range((x, y)) && !occupied(body, x, y)
}

/// The number of cells on which food may be placed.
pub open spec fn food_cells() -> int {
    (FOOD_MAX_X - FOOD_MIN) * (FOOD_MAX_Y - FOOD_MIN)
}

/// A snake with fewer segments than there are cells for food leaves one of
/// them free.
pub proof fn lemma_short_snake_leaves_room(body: Seq<BodyPart>)
    requires
        body.len() < food_cells(),
    ensures
        has_free_cell(body),
        food_cells() == 896,
{
    if !has_free_cell(body) {
        let indices = set_int_range(0, body.len() as int);
        let cell_of = |i: int| (body[i].y - 2) * 56 + (body[i].x - 2);
        let covered = indices.map(cell_of);
        lemma_int_range(0, body.len() as int);
        lemma_int_range(0, 896);
        lemma_map_size_bound(indices, covered, cell_of);
        assert forall|c: int| set_int_range(0, 896).contains(c) implies covered.contains(c) by {
            let x = (c % 56 + 2) as u16;
            let y = (c / 56 + 2) as u16;
            assert(food_in_range((x, y)));
            assert(occupied(body, x, y));
            let i = choose|i: int| 0 <= i < body.len() && body[i].x == x && body[i].y == y;
            assert(indices.contains(i) && c == cell_of(i));
        }
        lemma_len_subset(set_int_range(0, 896), covered);
    }
}

/// Whether (`x`, `y`) comes before `cell` when the field is read row by row.
pub open spec fn comes_before(x: u16, y: u16, cell: (u16, u16)) -> bool {
    y < cell.1 || (y == cell.1 && x < cell.0)
}

/// The larger of two scores.
pub open spec fn higher(a: int, b: int) -> int {
    if a >= b {
        a
    } else {
        b
    }
}

/// The time between two ticks never grows as the score grows, and stays
/// between the shortest and the starting time.
pub proof fn lemma_interval_monotone(a: int, b: int)
    requires
        0 <= a <= b,
    ensures
        interval_for_score(b) <= interval_for_score(a),
        MIN_SPEED <= interval_for_score(a) <= START_SPEED,
        interval_for_score(0) == START_SPEED,
{
    assert(a / 10 <= b / 10);
}

/// One more food at a score that is a multiple of the points per food shortens
/// the time between ticks by one step, down to the shortest time.
pub proof fn lemma_interval_step(eaten: int)
    requires
        0 <= eaten,
        SCORE_STEP * eaten <= i32::MAX,
    ensures
        sped_up(interval_for_score(SCORE_STEP * eaten) as u64) == interval_for_score(
            SCORE_STEP * (eaten + 1),
        ),
{
    assert(SCORE_STEP == 10);
    assert((10 * eaten) / 10 == eaten);
    assert((10 * (eaten + 1)) / 10 == eaten + 1);
}

/// The time between two ticks at a given score.
pub fn speed_at(score: i32) -> (ms: u64)
    requires
        0 <= score,
    ensures
        ms == interval_for_score(score as int),
{
    let eaten: i32 = score / SCORE_STEP;
    // Eight steps lead from the starting time to the shortest.
    if eaten < 8 {
        let step: u64 = eaten as u64;
        START_SPEED - SPEED_STEP * step
    } else {
        MIN_SPEED
    }
}

/// Where the game stands between two events.
#[derive(PartialEq, Eq, Structural, Copy, Clone, Debug)]
pub enum Phase {
    /// A round is in play: ticks follow each other.
    Playing,
    /// The round is over: the game waits for the player's choice.
    GameOver,
    /// The player has left the game.
    Terminated,
}

impl Game {
    /// The snake's segments, head first.
    pub open spec fn body(self) -> Seq<BodyPart> {
        self.snake.body@
    }

    /// The round is over: the head lies in a wall or on another segment.
    pub open spec fn game_over(self) -> bool {
        crashed(self.body())
    }

    /// A step in `dir` brings the head onto the food.
    pub open spec fn eats_in(self, dir: Direction) -> bool {
        let head = stepped(self.body()[0], dir);
        head.x == self.food.0 && head.y == self.food.1
    }

    /// A round in play between two ticks: the field is built, the snake is
    /// inside it with its segments apart, food lies where it may, the score
    /// counts the segments grown, the highscore is no less, and the speed is
    /// that of the score.
    pub open spec fn playing(self) -> bool {
        &&& self.field.wf()
        &&& well_formed(self.body())
        &&& food_in_range(self.food)
        &&& self.score == SCORE_STEP * (self.body().len() - 2)
        &&& self.score <= self.highscore
        &&& self.speed == interval_for_score(self.score as int)
    }

    /// What holds of the game in each phase: while playing, a round in play;
    /// once the round is over, a highscore that is not negative.
    pub open spec fn ready(self, phase: Phase) -> bool {
        match phase {
            Phase::Playing => self.playing(),
            Phase::GameOver => self.highscore >= 0,
            Phase::Terminated => true,
        }
    }

    /// Nothing but the food differs between `self` and `before`.
    pub open spec fn same_but_food(self, before: Game) -> bool {
        &&& self.field == before.field
        &&& self.snake == before.snake
        &&& self.score == before.score
        &&& self.highscore == before.highscore
        &&& self.speed == before.speed
    }

    /// Nothing but the snake differs between `self` and `before`.
    pub open spec fn same_but_snake(self, before: Game) -> bool {
        &&& self.field == before.field
        &&& self.food == before.food
        &&& self.score == before.score
        &&& self.highscore == before.highscore
        &&& self.speed == before.speed
    }

    /// `self` is `before` after a round was started anew: the snake, the score
    /// and the speed are those of a first round, the food lies on a free cell,
    /// and the highscore is kept.
    pub open spec fn restarted_from(self, before: Game) -> bool {
        &&& self.field.wf()
        &&& self.body() == initial_body()
        &&& self.score == 0
        &&& self.speed == START_SPEED
        &&& self.highscore == before.highscore
        &&& food_in_range(self.food)
        &&& !occupied(self.body(), self.food.0, self.food.1)
    }

    /// `self` is what the check for food makes of a game whose snake is `body`
    /// and whose other parts are those of `before`. With the head on the food,
    /// the snake grows by one segment, the score by one step, the highscore
    /// follows, the speed goes up, and the food lies on a new cell, free of
    /// `body` if there is one. Otherwise only the snake may differ from
    /// `before`, and it is `body`.
    pub open spec fn fed_from(self, body: Seq<BodyPart>, before: Game) -> bool {
        &&& self.field == before.field
        &&& if body[0].x == before.food.0 && body[0].y == before.food.1 {
            &&& self.body() == grown(body)
            &&& self.score == before.score + SCORE_STEP
            &&& self.highscore == higher(before.highscore as int, self.score as int)
            &&& self.speed == sped_up(before.speed)
            &&& food_in_range(self.food)
            &&& has_free_cell(body) || body.len() < food_cells() ==> !occupied(
                body,
                self.food.0,
                self.food.1,
            )
        } else {
            &&& self.body() == body
            &&& self.same_but_snake(before)
        }
    }

    /// Moves the snake one cell in `dir`.
    pub fn take_direction(&mut self, dir: Direction)
        requires
            old(self).body().len() >= 1,
            on_grid(old(self).body()[0]),
        ensures
            final(self).body() == moved(old(self).body(), dir),
            final(self).same_but_snake(*old(self)),
    {
        self.snake.advance(dir);
    }

    /// Moves the snake one cell in the heading of its head.
    pub fn automove(&mut self)
        requires
            old(self).body().len() >= 1,
            on_grid(old(self).body()[0]),
        ensures
            final(self).body() == moved(old(self).body(), old(self).body()[0].direction),
            final(self).same_but_snake(*old(self)),
    {
        let dir = self.snake.body[0].direction;
        self.take_direction(dir);
    }

    /// The snake has eaten: it grows by one segment behind its tail, the score
    /// by one step, the highscore follows, and the time between ticks shrinks
    /// by one step unless it is the shortest already.
    pub fn grow_snake(&mut self)
        requires
            old(self).body().len() >= 1,
            on_grid(old(self).body().last()),
            old(self).score <= i32::MAX - SCORE_STEP,
        ensures
            final(self).body() == grown(old(self).body()),
            final(self).score == old(self).score + SCORE_STEP,
            final(self).highscore == higher(old(self).highscore as int, final(self).score as int),
            final(self).speed == sped_up(old(self).speed),
            old(self).speed >= MIN_SPEED ==> MIN_SPEED <= final(self).speed <= old(self).speed,
            final(self).food == old(self).food,
            final(self).field == old(self).field,
    {
        self.snake.extend();
        self.score += SCORE_STEP;
        if self.score > self.highscore {
            self.highscore = self.score;
        }
        if self.speed > MIN_SPEED + SPEED_STEP {
            self.speed -= SPEED_STEP;
        } else if self.speed > MIN_SPEED {
            self.speed = MIN_SPEED;
        }
    }

    /// Whether the round is over: the head lies in a wall of the field, or on
    /// another segment.
    pub fn check_game_over(&self) -> (over: bool)
        requires
            self.field.wf(),
            self.body().len() >= 1,
        ensures
            over == self.game_over(),
    {
        let head = self.snake.body[0];
        if self.field.is_wall(head.x, head.y) {
            return true;
        }
        self.snake.hits_itself()
    }

    /// Accepts the food's cell if no segment lies on it. Otherwise draws a new
    /// cell at random and reports `false`: the new cell is yet to be checked.
    pub fn validate_food(&mut self) -> (valid: bool)
        ensures
            valid == !occupied(old(self).body(), old(self).food.0, old(self).food.1),
            valid ==> final(self).food == old(self).food,
            !valid ==> food_in_range(final(self).food),
            final(self).same_but_food(*old(self)),
    {
        if self.snake.occupies(self.food.0, self.food.1) {
            self.food = food_gen();
            return false;
        }
        true
    }

    /// The first cell, row by row, on which food may be placed and no segment
    /// lies; `None` if the snake covers them all.
    pub fn first_free_cell(&self) -> (cell: Option<(u16, u16)>)
        ensures
            cell is None <==> !has_free_cell(self.body()),
            cell is Some ==> {
                &&& food_in_range(cell.unwrap())
                &&& !occupied(self.body(), cell.unwrap().0, cell.unwrap().1)
                &&& forall|x: u16, y: u16|
                    food_in_range((x, y)) && comes_before(x, y, cell.unwrap()) ==> occupied(
                        self.body(),
                        x,
                        y,
                    )
            },
    {
        let mut y: u16 = FOOD_MIN;
        while y < FOOD_MAX_Y
            invariant
                FOOD_MIN <= y <= FOOD_MAX_Y,
                forall|cx: u16, cy: u16|
                    food_in_range((cx, cy)) && cy < y ==> occupied(self.body(), cx, cy),
            decreases FOOD_MAX_Y - y,
        {
            let mut x: u16 = FOOD_MIN;
            while x < FOOD_MAX_X
                invariant
                    FOOD_MIN <= x <= FOOD_MAX_X,
                    FOOD_MIN <= y < FOOD_MAX_Y,
                    forall|cx: u16, cy: u16|
                        food_in_range((cx, cy)) && (cy < y || (cy == y && cx < x)) ==> occupied(
                            self.body(),
                            cx,
                            cy,
                        ),
                decreases FOOD_MAX_X - x,
            {
                if !self.snake.occupies(x, y) {
                    assert(food_in_range((x, y)));
                    return Some((x, y));
                }
                x += 1;
            }
            y += 1;
        }
        None
    }

    /// Puts the food on a new cell: random cells are drawn until one is free of
    /// the snake; after `MAX_DRAWS` draws the first free cell is taken. Only if
    /// the snake covers every cell on which food may lie does the food end on
    /// a segment.
    pub fn place_food(&mut self)
        ensures
            final(self).same_but_food(*old(self)),
            food_in_range(final(self).food),
            has_free_cell(old(self).body()) || old(self).body().len() < food_cells() ==> !occupied(
                old(self).body(),
                final(self).food.0,
                final(self).food.1,
            ),
    {
        proof {
            if old(self).body().len() < food_cells() {
                lemma_short_snake_leaves_room(old(self).body());
            }
        }
        self.food = food_gen();
        let mut draws: u32 = 1;
        let mut placed = self.validate_food();
        while !placed && draws < MAX_DRAWS
            invariant
                self.same_but_food(*old(self)),
                food_in_range(self.food),
                placed ==> !occupied(self.body(), self.food.0, self.food.1),
            decreases MAX_DRAWS - draws,
        {
            placed = self.validate_food();
            draws += 1;
        }
        if !placed {
            match self.first_free_cell() {
                Some(cell) => {
                    self.food = cell;
                },
                None => {},
            }
        }
    }

    /// If the head lies on the food, the food moves to a new cell and the snake
    /// grows; otherwise nothing changes.
    pub fn check_food(&mut self)
        requires
            old(self).body().len() >= 1,
            on_grid(old(self).body().last()),
            old(self).score <= i32::MAX - SCORE_STEP,
        ensures
            final(self).fed_from(old(self).body(), *old(self)),
    {
        let head = self.snake.body[0];
        if head.x == self.food.0 && head.y == self.food.1 {
            self.place_food();
            self.grow_snake();
        }
    }

    /// One tick of a round in play. A quit key ends the round and changes
    /// nothing. Otherwise the snake moves one cell, in the heading that the key
    /// asks for or in its own, and then eats if its head has reached the food.
    /// Unless the head has crashed, the round is in play again afterwards.
    pub fn move_snake(&mut self, key: Option<u8>) -> (running: bool)
        requires
            old(self).playing(),
        ensures
            running == !(key_action(key, old(self).body()[0].direction) is Quit),
            !running ==> *final(self) == *old(self),
            running ==> final(self).fed_from(
                moved(old(self).body(), next_heading(key, old(self).body()[0].direction)),
                *old(self),
            ),
            running ==> final(self).body().len() == old(self).body().len() + (if old(
                self).eats_in(next_heading(key, old(self).body()[0].direction)) {
                1int
            } else {
                0int
            }),
            !running ==> final(self).body().len() == old(self).body().len(),
            running ==> final(self).field.wf() && on_grid(final(self).body()[0]),
            running && !final(self).game_over() ==> final(self).playing(),
            final(self).highscore >= old(self).highscore >= 0,
    {
        let heading = self.snake.body[0].direction;
        let ghost dir = next_heading(key, heading);
        proof {
            lemma_move_keeps_shape(self.body(), dir);
            lemma_grow_keeps_shape(self.body(), dir);
            lemma_length_bounded(self.body());
            lemma_interval_step(self.body().len() - 2);
        }
        match interpret_key(key, heading) {
            KeyAction::Quit => {
                return false;
            },
            KeyAction::Turn(d) => self.take_direction(d),
            KeyAction::Keep => self.automove(),
        }
        self.check_food();
        true
    }

    /// Whether a round is in play.
    pub fn in_play(&self) -> (ok: bool)
        ensures
            ok == self.playing(),
    {
        if !self.field.is_built() || !self.snake.is_well_formed() {
            return false;
        }
        proof {
            lemma_length_bounded(self.body());
        }
        let grown_by: i32 = (self.snake.body.len() - 2) as i32;
        let (x, y) = self.food;
        FOOD_MIN <= x && x < FOOD_MAX_X && FOOD_MIN <= y && y < FOOD_MAX_Y
            && self.score == SCORE_STEP * grown_by && self.score <= self.highscore
            && self.speed == speed_at(self.score)
    }

    /// Whether the game is fit for `phase`.
    pub fn is_ready(&self, phase: Phase) -> (ok: bool)
        ensures
            ok == self.ready(phase),
    {
        match phase {
            Phase::Playing => self.in_play(),
            Phase::GameOver => self.highscore >= 0,
            Phase::Terminated => true,
        }
    }

    /// Takes the game from one event to the next. While playing, the event is
    /// a tick with the key read in it, if any: a quit key leaves the game, a
    /// crash ends the round, otherwise play goes on. Once the round is over,
    /// the event is a key: retry starts a new round, quit leaves the game, any
    /// other key, or none, is waited out. After the game was left nothing
    /// changes any more.
    pub fn step(&mut self, phase: Phase, key: Option<u8>) -> (next: Phase)
        requires
            old(self).ready(phase),
        ensures
            final(self).ready(next),
            phase is Playing && key_action(key, old(self).body()[0].direction) is Quit ==> next
                is Terminated && *final(self) == *old(self),
            phase is Playing && !(key_action(key, old(self).body()[0].direction) is Quit) ==> {
                &&& final(self).fed_from(
                    moved(old(self).body(), next_heading(key, old(self).body()[0].direction)),
                    *old(self),
                )
                &&& next == (if final(self).game_over() {
                    Phase::GameOver
                } else {
                    Phase::Playing
                })
            },
            phase is GameOver && key.is_some() && end_choice(key.unwrap()) is Retry ==> next
                is Playing && final(self).restarted_from(*old(self)),
            phase is GameOver && key.is_some() && end_choice(key.unwrap()) is Quit ==> next
                is Terminated && *final(self) == *old(self),
            phase is GameOver && (key.is_none() || end_choice(key.unwrap()) is Wait) ==> next
                is GameOver && *final(self) == *old(self),
            phase is Terminated ==> next is Terminated && *final(self) == *old(self),
    {
        match phase {
            Phase::Playing => {
                if !self.move_snake(key) {
                    Phase::Terminated
                } else if self.check_game_over() {
                    Phase::GameOver
                } else {
                    Phase::Playing
                }
            },
            Phase::GameOver => match key {
                None => Phase::GameOver,
                Some(k) => match self.end_game(k) {
                    EndChoice::Retry => Phase::Playing,
                    EndChoice::Quit => Phase::Terminated,
                    EndChoice::Wait => Phase::GameOver,
                },
            },
            Phase::Terminated => Phase::Terminated,
        }
    }

    /// Starts the round anew: the snake, the score and the speed are those of
    /// a first round, the field is built again and the food moves to a free
    /// cell. The highscore is kept.
    pub fn restart(&mut self)
        ensures
            final(self).restarted_from(*old(self)),
            old(self).highscore >= 0 ==> final(self).playing(),
    {
        self.field = init_array();
        self.snake = Snake::new();
        self.score = 0;
        self.speed = START_SPEED;
        proof {
            lemma_initial_well_formed();
            lemma_free_cell_at_start();
        }
        self.place_food();
    }

    /// Acts on a key pressed after the round has ended: a retry key starts the
    /// round anew, any other key changes nothing.
    pub fn end_game(&mut self, key: u8) -> (choice: EndChoice)
        ensures
            choice == end_choice(key),
            choice is Retry ==> final(self).restarted_from(*old(self)),
            choice is Retry && old(self).highscore >= 0 ==> final(self).playing(),
            !(choice is Retry) ==> *final(self) == *old(self),
    {
        let choice = interpret_end_key(key);
        match choice {
            EndChoice::Retry => self.restart(),
            _ => {},
        }
        choice
    }
}

/// The starting snake leaves a cell free for food.
pub proof fn lemma_free_cell_at_start()
    ensures
        has_free_cell(initial_body()),
{
    let b = initial_body();
    assert(b[0].y == 10 && b[1].y == 10);
    assert(food_in_range((2u16, 2u16)) && !occupied(b, 2u16, 2u16));
}

/// A new game: a first round in play, with no score and no highscore yet.
pub fn init() -> (game: Game)
    ensures
        game.playing(),
        game.body() == initial_body(),
        game.score == 0,
        game.highscore == 0,
        game.speed == START_SPEED,
        !occupied(game.body(), game.food.0, game.food.1),
{
    let mut game = Game {
        field: init_array(),
        snake: Snake::new(),
        food: (FOOD_MIN, FOOD_MIN),
        score: 0,
        highscore: 0,
        speed: START_SPEED,
    };
    proof {
        lemma_initial_well_formed();
        lemma_free_cell_at_start();
    }
    game.place_food();
    game
}

} // verus!
