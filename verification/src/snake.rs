//! The snake: an ordered chain of segments, head first.
use vstd::prelude::*;
use vstd::set_lib::{lemma_int_range, lemma_len_subset, set_int_range};
use crate::direction::Direction;
use crate::field::{hits_wall, on_field, HEIGHT, WIDTH};

verus! {

/// The symbol with which a segment is drawn.
#[derive(PartialEq, Eq, Structural, Copy, Clone, Debug)]
pub enum Glyph {
    HeadUp,
    HeadDown,
    HeadLeft,
    HeadRight,
    Body,
}

impl Glyph {
    /// The symbol of a head that moves in `dir`.
    pub open spec fn head(dir: Direction) -> Glyph {
        match dir {
            Direction::Up => Glyph::HeadUp,
            Direction::Down => Glyph::HeadDown,
            Direction::Left => Glyph::HeadLeft,
            Direction::Right => Glyph::HeadRight,
        }
    }

    /// The characters of the symbol.
    pub open spec fn text(self) -> Seq<char> {
        match self {
            Glyph::HeadUp => "▲"@,
            Glyph::HeadDown => "▼"@,
            Glyph::HeadLeft => "◀"@,
            Glyph::HeadRight => "▶"@,
            Glyph::Body => "▪"@,
        }
    }

    /// The symbol of a head that moves in `dir`.
    pub fn for_head(dir: Direction) -> (g: Glyph)
        ensures
            g == Glyph::head(dir),
    {
        match dir {
            Direction::Up => Glyph::HeadUp,
            Direction::Down => Glyph::HeadDown,
            Direction::Left => Glyph::HeadLeft,
            Direction::Right => Glyph::HeadRight,
        }
    }

    /// The symbol as text to draw.
    pub fn symbol(self) -> (s: &'static str)
        ensures
            s@ == self.text(),
    {
        match self {
            Glyph::HeadUp => "▲",
            Glyph::HeadDown => "▼",
            Glyph::HeadLeft => "◀",
            Glyph::HeadRight => "▶",
            Glyph::Body => "▪",
        }
    }
}

/// One segment: its 1-indexed cell, its symbol, and the heading of its last
/// move.
#[derive(PartialEq, Eq, Structural, Copy, Clone, Debug)]
pub struct BodyPart {
    pub x: u16,
    pub y: u16,
    pub part: Glyph,
    pub direction: Direction,
}

/// The snake's segments, head at index 0, tail last.
pub struct Snake {
    pub body: Vec<BodyPart>,
}

/// Two segments lie on one cell.
pub open spec fn same_cell(a: BodyPart, b: BodyPart) -> bool {
    a.x == b.x && a.y == b.y
}

/// The segment lies on an interior cell of the field.
pub open spec fn inside(p: BodyPart) -> bool {
    !hits_wall(p.x as int, p.y as int)
}

/// The segment lies on the field, border included.
pub open spec fn on_grid(p: BodyPart) -> bool {
    on_field(p.x as int, p.y as int)
}

/// The head after one step in `dir`.
pub open spec fn stepped(head: BodyPart, dir: Direction) -> BodyPart {
    BodyPart {
        x: (head.x + dir.dx()) as u16,
        y: (head.y + dir.dy()) as u16,
        part: Glyph::head(dir),
        direction: dir,
    }
}

/// A segment that takes the place and heading of the one before it.
pub open spec fn follower(lead: BodyPart) -> BodyPart {
    BodyPart { x: lead.x, y: lead.y, part: Glyph::Body, direction: lead.direction }
}

/// The segment one cell behind `p`, against the heading of `p`.
pub open spec fn trailing(p: BodyPart) -> BodyPart {
    BodyPart {
        x: (p.x - p.direction.dx()) as u16,
        y: (p.y - p.direction.dy()) as u16,
        part: Glyph::Body,
        direction: p.direction,
    }
}

/// The segments after one move in `dir`: the head steps, every other segment
/// takes over from its predecessor.
pub open spec fn moved(body: Seq<BodyPart>, dir: Direction) -> Seq<BodyPart> {
    Seq::new(
        body.len(),
        |i: int|
            if i == 0 {
                stepped(body[0], dir)
            } else {
                follower(body[i - 1])
            },
    )
}

/// The segments after growth: one more, behind the tail.
pub open spec fn grown(body: Seq<BodyPart>) -> Seq<BodyPart> {
    body.push(trailing(body.last()))
}

/// Some segment lies on the cell (`x`, `y`).
pub open spec fn occupied(body: Seq<BodyPart>, x: u16, y: u16) -> bool {
    exists|i: int| 0 <= i < body.len() && body[i].x == x && body[i].y == y
}

/// The head lies on a cell of another segment.
pub open spec fn self_hit(body: Seq<BodyPart>) -> bool {
    exists|i: int| 1 <= i < body.len() && same_cell(body[i], body[0])
}

/// The head has run into a wall or into the snake itself.
pub open spec fn crashed(body: Seq<BodyPart>) -> bool {
    hits_wall(body[0].x as int, body[0].y as int) || self_hit(body)
}

/// Each segment lies one cell behind its predecessor.
pub open spec fn connected(body: Seq<BodyPart>) -> bool {
    forall|i: int| 0 <= i < body.len() - 1 ==> same_cell(trailing(body[i]), body[i + 1])
}

/// No two segments share a cell.
pub open spec fn distinct(body: Seq<BodyPart>) -> bool {
    forall|i: int, j: int| 0 <= i < j < body.len() ==> !same_cell(body[i], body[j])
}

/// Every segment lies on an interior cell.
pub open spec fn all_inside(body: Seq<BodyPart>) -> bool {
    forall|i: int| 0 <= i < body.len() ==> inside(body[i])
}

/// A snake in play: at least two segments, all inside the field, on
/// different cells, each behind its predecessor.
pub open spec fn well_formed(body: Seq<BodyPart>) -> bool {
    &&& body.len() >= 2
    &&& all_inside(body)
    &&& distinct(body)
    &&& connected(body)
}

/// The snake at the start of a round: two segments in the middle of the
/// field, heading left.
pub open spec fn initial_body() -> Seq<BodyPart> {
    seq![
        BodyPart { x: 30, y: 10, part: Glyph::HeadLeft, direction: Direction::Left },
        BodyPart { x: 31, y: 10, part: Glyph::Body, direction: Direction::Left },
    ]
}

/// The number of interior cells.
pub open spec fn interior_cells() -> int {
    (WIDTH - 2) * (HEIGHT - 2)
}

/// The starting snake is in play.
pub proof fn lemma_initial_well_formed()
    ensures
        well_formed(initial_body()),
        !crashed(initial_body()),
{
    let b = initial_body();
    assert(b.len() == 2);
    assert(b[0].x == 30 && b[1].x == 31);
}

/// After a move from a snake in play the chain is still connected, every
/// segment but the head is inside and apart from the others, and the head is
/// on the field. So if the head has not crashed, the snake is in play again:
/// a collision shows in the tick in which it happens.
pub proof fn lemma_move_keeps_shape(body: Seq<BodyPart>, dir: Direction)
    requires
        well_formed(body),
    ensures
        moved(body, dir).len() == body.len(),
        connected(moved(body, dir)),
        on_grid(moved(body, dir)[0]),
        same_cell(trailing(moved(body, dir).last()), body.last()),
        forall|i: int| 1 <= i < body.len() ==> inside(#[trigger] moved(body, dir)[i]),
        forall|i: int, j: int|
            1 <= i < j < body.len() ==> !same_cell(
                #[trigger] moved(body, dir)[i],
                #[trigger] moved(body, dir)[j],
            ),
        !crashed(moved(body, dir)) ==> well_formed(moved(body, dir)),
{
    let m = moved(body, dir);
    assert(inside(body[0]));
    assert forall|i: int| 0 <= i < m.len() - 1 implies same_cell(trailing(m[i]), m[i + 1]) by {
        if i > 0 {
            assert(same_cell(trailing(body[i - 1]), body[i]));
            assert(inside(body[i - 1]));
        }
    }
    assert forall|i: int| 1 <= i < body.len() implies inside(#[trigger] m[i]) by {
        assert(inside(body[i - 1]));
    }
    assert forall|i: int, j: int| 1 <= i < j < body.len() implies !same_cell(
        #[trigger] m[i],
        #[trigger] m[j],
    ) by {
        assert(!same_cell(body[i - 1], body[j - 1]));
    }
    let n = body.len() as int;
    assert(same_cell(trailing(body[n - 2]), body[n - 1]));
    assert(inside(body[n - 2]));
    if !crashed(m) {
        assert forall|i: int, j: int| 0 <= i < j < m.len() implies !same_cell(m[i], m[j]) by {
            if i == 0 {
                assert(!same_cell(m[j], m[0]));
            } else {
                assert(!same_cell(m[i], m[j]));
            }
        }
        assert forall|i: int| 0 <= i < m.len() implies inside(m[i]) by {
            if i > 0 {
                assert(inside(m[i]));
            }
        }
    }
}

/// After a move and growth from a snake in play, the new last segment lies on
/// the cell that the tail left. So if the head has not crashed, the longer
/// snake is in play again.
pub proof fn lemma_grow_keeps_shape(body: Seq<BodyPart>, dir: Direction)
    requires
        well_formed(body),
    ensures
        grown(moved(body, dir)).len() == body.len() + 1,
        same_cell(grown(moved(body, dir)).last(), body.last()),
        crashed(moved(body, dir)) ==> crashed(grown(moved(body, dir))),
        !crashed(grown(moved(body, dir))) ==> well_formed(grown(moved(body, dir))),
{
    let m = moved(body, dir);
    let g = grown(m);
    let n = body.len() as int;
    lemma_move_keeps_shape(body, dir);
    assert(g[n] == trailing(m[n - 1]));
    assert(inside(body[n - 1]));
    assert(forall|i: int| 0 <= i < n ==> g[i] == m[i]);
    if self_hit(m) {
        let k = choose|k: int| 1 <= k < m.len() && same_cell(m[k], m[0]);
        assert(same_cell(g[k], g[0]));
    }
    if !crashed(g) {
        assert(!self_hit(m)) by {
            if self_hit(m) {
                let k = choose|k: int| 1 <= k < m.len() && same_cell(m[k], m[0]);
                assert(same_cell(g[k], g[0]));
            }
        }
        assert(well_formed(m));
        assert forall|i: int| 0 <= i < g.len() implies inside(g[i]) by {
            if i < n {
                assert(inside(m[i]));
            }
        }
        assert forall|i: int, j: int| 0 <= i < j < g.len() implies !same_cell(g[i], g[j]) by {
            if j < n {
                assert(!same_cell(m[i], m[j]));
            } else if i == 0 {
                assert(!same_cell(g[n], g[0]));
            } else {
                assert(!same_cell(body[i - 1], body[n - 1]));
            }
        }
        assert forall|i: int| 0 <= i < g.len() - 1 implies same_cell(trailing(g[i]), g[i + 1]) by {
            if i < n - 1 {
                assert(same_cell(trailing(m[i]), m[i + 1]));
            }
        }
    }
}

/// Segments on different interior cells are no more than there are interior
/// cells.
pub proof fn lemma_length_bounded(body: Seq<BodyPart>)
    requires
        all_inside(body),
        distinct(body),
    ensures
        body.len() <= interior_cells(),
        interior_cells() == 1044,
{
    let ids = Seq::new(body.len(), |i: int| (body[i].y - 2) * 58 + (body[i].x - 2));
    assert forall|i: int, j: int| 0 <= i < ids.len() && 0 <= j < ids.len() && i != j implies ids[i]
        != ids[j] by {
        assert(inside(body[i]) && inside(body[j]));
        if i < j {
            assert(!same_cell(body[i], body[j]));
        } else {
            assert(!same_cell(body[j], body[i]));
        }
    }
    ids.unique_seq_to_set();
    lemma_int_range(0, 1044);
    assert forall|v: int| ids.to_set().contains(v) implies set_int_range(0, 1044).contains(v) by {
        let i = choose|i: int| 0 <= i < ids.len() && ids[i] == v;
        assert(inside(body[i]));
    }
    lemma_len_subset(ids.to_set(), set_int_range(0, 1044));
}

impl Snake {
    /// The snake at the start of a round.
    pub fn new() -> (snake: Snake)
        ensures
            snake.body@ == initial_body(),
    {
        let mut body: Vec<BodyPart> = Vec::new();
        body.push(BodyPart { x: 30, y: 10, part: Glyph::HeadLeft, direction: Direction::Left });
        body.push(BodyPart { x: 31, y: 10, part: Glyph::Body, direction: Direction::Left });
        assert(body@ =~= initial_body());
        Snake { body }
    }

    /// Whether the snake is in play: at least two segments, all inside the
    /// field, on different cells, each behind its predecessor.
    pub fn is_well_formed(&self) -> (ok: bool)
        ensures
            ok == well_formed(self.body@),
    {
        let n = self.body.len();
        if n < 2 {
            return false;
        }
        let mut i: usize = 0;
        while i < n
            invariant
                i <= n,
                n == self.body@.len(),
                forall|k: int| 0 <= k < i ==> inside(self.body@[k]),
                forall|k: int| 0 <= k < i - 1 ==> same_cell(trailing(self.body@[k]), self.body@[k + 1]),
                forall|k: int, j: int| 0 <= k < j < i ==> !same_cell(self.body@[k], self.body@[j]),
            decreases n - i,
        {
            let p = self.body[i];
            if p.x < 2 || p.x > WIDTH - 1 || p.y < 2 || p.y > HEIGHT - 1 {
                assert(!inside(self.body@[i as int]));
                return false;
            }
            if i > 0 {
                let lead = self.body[i - 1];
                let (bx, by): (u16, u16) = match lead.direction {
                    Direction::Up => (lead.x, lead.y + 1),
                    Direction::Down => (lead.x, lead.y - 1),
                    Direction::Left => (lead.x + 1, lead.y),
                    Direction::Right => (lead.x - 1, lead.y),
                };
                if bx != p.x || by != p.y {
                    assert(!same_cell(trailing(self.body@[i - 1]), self.body@[i - 1 + 1]));
                    return false;
                }
            }
            let mut j: usize = 0;
            while j < i
                invariant
                    j <= i < n,
                    n == self.body@.len(),
                    p == self.body@[i as int],
                    forall|k: int| 0 <= k < j ==> !same_cell(self.body@[k], self.body@[i as int]),
                decreases i - j,
            {
                if self.body[j].x == p.x && self.body[j].y == p.y {
                    assert(same_cell(self.body@[j as int], self.body@[i as int]));
                    return false;
                }
                j += 1;
            }
            i += 1;
        }
        true
    }

    /// Whether some segment lies on the cell (`x`, `y`).
    pub fn occupies(&self, x: u16, y: u16) -> (hit: bool)
        ensures
            hit == occupied(self.body@, x, y),
    {
        let mut i: usize = 0;
        while i < self.body.len()
            invariant
                i <= self.body@.len(),
                forall|k: int| 0 <= k < i ==> !(self.body@[k].x == x && self.body@[k].y == y),
            decreases self.body@.len() - i,
        {
            if self.body[i].x == x && self.body[i].y == y {
                return true;
            }
            i += 1;
        }
        false
    }

    /// Whether the head lies on a cell of another segment.
    pub fn hits_itself(&self) -> (hit: bool)
        requires
            self.body@.len() >= 1,
        ensures
            hit == self_hit(self.body@),
    {
        let head = self.body[0];
        let mut i: usize = 1;
        while i < self.body.len()
            invariant
                1 <= i,
                self.body@.len() >= 1,
                head == self.body@[0],
                forall|k: int| 1 <= k < i && k < self.body@.len() ==> !same_cell(self.body@[k], self.body@[0]),
            decreases self.body@.len() - i,
        {
            if self.body[i].x == head.x && self.body[i].y == head.y {
                assert(same_cell(self.body@[i as int], self.body@[0]));
                return true;
            }
            i += 1;
        }
        false
    }

    /// Moves the snake one cell in `dir`: the head steps, every other segment
    /// takes the place and heading that its predecessor had.
    pub fn advance(&mut self, dir: Direction)
        requires
            old(self).body@.len() >= 1,
            on_grid(old(self).body@[0]),
        ensures
            final(self).body@ == moved(old(self).body@, dir),
    {
        let head = self.body[0];
        let mut next: Vec<BodyPart> = Vec::new();
        let (x, y): (u16, u16) = match dir {
            Direction::Up => (head.x, head.y - 1),
            Direction::Down => (head.x, head.y + 1),
            Direction::Left => (head.x - 1, head.y),
            Direction::Right => (head.x + 1, head.y),
        };
        next.push(BodyPart { x, y, part: Glyph::for_head(dir), direction: dir });
        let mut i: usize = 1;
        while i < self.body.len()
            invariant
                1 <= i <= self.body@.len(),
                self.body@ == old(self).body@,
                next@.len() == i,
                forall|k: int| 0 <= k < i ==> next@[k] == moved(old(self).body@, dir)[k],
            decreases self.body@.len() - i,
        {
            let lead = self.body[i - 1];
            next.push(BodyPart { x: lead.x, y: lead.y, part: Glyph::Body, direction: lead.direction });
            i += 1;
        }
        assert(next@ =~= moved(old(self).body@, dir));
        self.body = next;
    }

    /// Appends one segment behind the tail, against the tail's heading.
    pub fn extend(&mut self)
        requires
            old(self).body@.len() >= 1,
            on_grid(old(self).body@.last()),
        ensures
            final(self).body@ == grown(old(self).body@),
    {
        let tail = self.body[self.body.len() - 1];
        let (x, y): (u16, u16) = match tail.direction {
            Direction::Up => (tail.x, tail.y + 1),
            Direction::Down => (tail.x, tail.y - 1),
            Direction::Left => (tail.x + 1, tail.y),
            Direction::Right => (tail.x - 1, tail.y),
        };
        self.body.push(BodyPart { x, y, part: Glyph::Body, direction: tail.direction });
    }
}

} // verus!
