//! Headings and the meaning of key presses.
use vstd::prelude::*;

verus! {

/// One of the four headings on the grid.
#[derive(PartialEq, Eq, Structural, Copy, Clone, Debug)]
pub enum Direction {
    Up,
    Down,
    Left,
    Right,
}

impl Direction {
    /// The heading that points the other way.
    pub open spec fn reverse(self) -> Direction {
        match self {
            Direction::Up => Direction::Down,
            Direction::Down => Direction::Up,
            Direction::Left => Direction::Right,
            Direction::Right => Direction::Left,
        }
    }

    /// Change of the column when moving one cell in this heading.
    pub open spec fn dx(self) -> int {
        match self {
            Direction::Left => -1,
            Direction::Right => 1,
            _ => 0,
        }
    }

    /// Change of the row when moving one cell in this heading. Rows grow
    /// downward.
    pub open spec fn dy(self) -> int {
        match self {
            Direction::Up => -1,
            Direction::Down => 1,
            _ => 0,
        }
    }

    /// The heading that points the other way.
    pub fn opposite(self) -> (r: Direction)
        ensures
            r == self.reverse(),
    {
        match self {
            Direction::Up => Direction::Down,
            Direction::Down => Direction::Up,
            Direction::Left => Direction::Right,
            Direction::Right => Direction::Left,
        }
    }
}

/// What a key press asks of a running round.
#[derive(PartialEq, Eq, Structural, Copy, Clone, Debug)]
pub enum KeyAction {
    /// Leave the round at once.
    Quit,
    /// Turn the head to the given heading.
    Turn(Direction),
    /// Go on in the current heading.
    Keep,
}

/// What a key press asks once a round is over.
#[derive(PartialEq, Eq, Structural, Copy, Clone, Debug)]
pub enum EndChoice {
    /// Start a new round.
    Retry,
    /// Leave the game.
    Quit,
    /// The key means nothing here: wait for another.
    Wait,
}

// The byte values of the keys that the game reads.
pub const KEY_W: u8 = 119;
pub const KEY_K: u8 = 107;
pub const KEY_A: u8 = 97;
pub const KEY_H: u8 = 104;
pub const KEY_D: u8 = 100;
pub const KEY_L: u8 = 108;
pub const KEY_S: u8 = 115;
pub const KEY_J: u8 = 106;
pub const KEY_Q: u8 = 113;
pub const KEY_SHIFT_Q: u8 = 81;
pub const KEY_R: u8 = 114;
pub const KEY_SHIFT_R: u8 = 82;

/// `q` and `Q` leave the round.
pub open spec fn is_quit_key(key: u8) -> bool {
    key == KEY_Q || key == KEY_SHIFT_Q
}

/// `r` and `R` start a new round.
pub open spec fn is_retry_key(key: u8) -> bool {
    key == KEY_R || key == KEY_SHIFT_R
}

/// The heading that a movement key names: `w a s d` or `k h j l`.
pub open spec fn key_direction(key: u8) -> Option<Direction> {
    if key == KEY_W || key == KEY_K {
        Some(Direction::Up)
    } else if key == KEY_A || key == KEY_H {
        Some(Direction::Left)
    } else if key == KEY_D || key == KEY_L {
        Some(Direction::Right)
    } else if key == KEY_S || key == KEY_J {
        Some(Direction::Down)
    } else {
        None
    }
}

/// The meaning of what was read in one tick, for a head that moves in
/// `heading`. No key, an unknown key, the current heading and its reverse all
/// keep the heading.
pub open spec fn key_action(key: Option<u8>, heading: Direction) -> KeyAction {
    match key {
        None => KeyAction::Keep,
        Some(k) => if is_quit_key(k) {
            KeyAction::Quit
        } else {
            match key_direction(k) {
                Some(d) => if d == heading || d == heading.reverse() {
                    KeyAction::Keep
                } else {
                    KeyAction::Turn(d)
                },
                None => KeyAction::Keep,
            }
        },
    }
}

/// The heading in which the head moves in a tick that read `key`.
pub open spec fn next_heading(key: Option<u8>, heading: Direction) -> Direction {
    match key_action(key, heading) {
        KeyAction::Turn(d) => d,
        _ => heading,
    }
}

/// The meaning of a key once the round is over.
pub open spec fn end_choice(key: u8) -> EndChoice {
    if is_retry_key(key) {
        EndChoice::Retry
    } else if is_quit_key(key) {
        EndChoice::Quit
    } else {
        EndChoice::Wait
    }
}

/// The heading that a movement key names, if it is one.
pub fn direction_of_key(key: u8) -> (r: Option<Direction>)
    ensures
        r == key_direction(key),
{
    if key == KEY_W || key == KEY_K {
        Some(Direction::Up)
    } else if key == KEY_A || key == KEY_H {
        Some(Direction::Left)
    } else if key == KEY_D || key == KEY_L {
        Some(Direction::Right)
    } else if key == KEY_S || key == KEY_J {
        Some(Direction::Down)
    } else {
        None
    }
}

/// Reads what one tick's input asks of a head that moves in `heading`.
pub fn interpret_key(key: Option<u8>, heading: Direction) -> (action: KeyAction)
    ensures
        action == key_action(key, heading),
{
    match key {
        None => KeyAction::Keep,
        Some(k) => {
            if k == KEY_Q || k == KEY_SHIFT_Q {
                return KeyAction::Quit;
            }
            match direction_of_key(k) {
                Some(d) => {
                    if d == heading || d == heading.opposite() {
                        KeyAction::Keep
                    } else {
                        KeyAction::Turn(d)
                    }
                },
                None => KeyAction::Keep,
            }
        },
    }
}

/// Reads a key pressed after the round has ended.
pub fn interpret_end_key(key: u8) -> (choice: EndChoice)
    ensures
        choice == end_choice(key),
{
    if key == KEY_R || key == KEY_SHIFT_R {
        EndChoice::Retry
    } else if key == KEY_Q || key == KEY_SHIFT_Q {
        EndChoice::Quit
    } else {
        EndChoice::Wait
    }
}

/// Whatever is read, the head never turns to the reverse of its heading: it
/// either keeps the heading or turns by a quarter.
pub proof fn lemma_heading_never_reverses(key: Option<u8>, heading: Direction)
    ensures
        next_heading(key, heading) != heading.reverse(),
        key.is_some() && key_direction(key.unwrap()) == Some(heading.reverse())
            ==> next_heading(key, heading) == heading,
        !(key_action(key, heading) is Turn) ==> next_heading(key, heading) == heading,
{
}

} // verus!
