//! A library to efficiently simulate Conway's Game of Life using the HashLife algorithm.
//!
//! Positions, bounding boxes and cells live here; the packed leaf grids and the quadtree
//! node types live in `node`; the bookkeeping of the GPU-driven simulation lives in `gpu`.
pub mod gpu;
pub mod node;

use vstd::prelude::*;

verus! {

use crate::node::Quadrant;

/// The standard library's I/O error, carried unchanged inside [`Error::Io`].
#[verifier::external_type_specification]
#[verifier::external_body]
pub struct ExIoError(std::io::Error);

/// An error that can occur.
#[derive(Debug)]
pub enum Error {
    /// An IO error.
    Io { io: std::io::Error },
}

/// A cell in a Life grid.
#[derive(Clone, Copy, Debug, PartialEq, Eq, Structural)]
pub enum Cell {
    /// An alive cell.
    Alive,
    /// A dead cell.
    Dead,
}

impl Cell {
    /// The cell that is alive exactly when `alive` holds.
    pub open spec fn from_alive(alive: bool) -> Cell {
        if alive {
            Cell::Alive
        } else {
            Cell::Dead
        }
    }

    /// Whether the cell is alive.
    pub open spec fn alive(self) -> bool {
        self == Cell::Alive
    }

    /// Creates a new `Cell`.
    pub fn new(alive: bool) -> (c: Cell)
        ensures
            c == Cell::from_alive(alive),
    {
        if alive {
            Cell::Alive
        } else {
            Cell::Dead
        }
    }

    /// Returns true for `Cell::Alive` and false for `Cell::Dead`.
    pub fn is_alive(self) -> (b: bool)
        ensures
            b == self.alive(),
    {
        match self {
            Cell::Alive => true,
            Cell::Dead => false,
        }
    }
}

/// Building a cell from a flag and reading the flag back gives the flag, and
/// reading a cell's flag and building a cell from it gives the cell.
pub proof fn lemma_cell_alive_round_trip(alive: bool, c: Cell)
    ensures
        Cell::from_alive(alive).alive() == alive,
        Cell::from_alive(c.alive()) == c,
{
}

/// A flag builds the alive cell exactly when it is set, and a cell reads as alive exactly
/// when it is the alive cell.
pub proof fn lemma_cell_alive_meaning(alive: bool, c: Cell)
    ensures
        (Cell::from_alive(alive) == Cell::Alive) <==> alive,
        (Cell::from_alive(alive) == Cell::Dead) <==> !alive,
        c.alive() <==> c == Cell::Alive,
{
}

/// A position's quadrant is decided by the signs of its coordinates alone: it is a northern
/// quadrant exactly when `y` is negative and a western one exactly when `x` is negative.
pub proof fn lemma_quadrant_by_signs(p: Position)
    ensures
        (p.quadrant_of() == Quadrant::Northwest || p.quadrant_of() == Quadrant::Northeast) <==> p.y
            < 0,
        (p.quadrant_of() == Quadrant::Northwest || p.quadrant_of() == Quadrant::Southwest) <==> p.x
            < 0,
{
}

/// The position of a cell in a Life grid.
#[derive(Clone, Copy, Debug, PartialEq, Eq, Structural, Hash, PartialOrd, Ord)]
pub struct Position {
    /// The x coordinate.
    pub x: i64,
    /// The y coordinate.
    pub y: i64,
}

/// Whether `v` fits in an `i64`.
pub open spec fn fits_i64(v: int) -> bool {
    i64::MIN <= v <= i64::MAX
}

impl Position {
    /// Whether offsetting this position by the given amounts stays within `i64`.
    pub open spec fn can_offset(self, x_offset: int, y_offset: int) -> bool {
        fits_i64(self.x + x_offset) && fits_i64(self.y + y_offset)
    }

    /// The position moved by the given amounts.
    pub open spec fn shifted(self, x_offset: int, y_offset: int) -> Position {
        Position { x: (self.x + x_offset) as i64, y: (self.y + y_offset) as i64 }
    }

    /// The quadrant of a node that a position falls in, by the signs of its coordinates.
    pub open spec fn quadrant_of(self) -> Quadrant {
        if self.x < 0 {
            if self.y < 0 {
                Quadrant::Northwest
            } else {
                Quadrant::Southwest
            }
        } else {
            if self.y < 0 {
                Quadrant::Northeast
            } else {
                Quadrant::Southeast
            }
        }
    }

    /// Creates a new position with the given coordinates.
    pub fn new(x: i64, y: i64) -> (p: Self)
        ensures
            p.x == x,
            p.y == y,
    {
        Self { x, y }
    }

    /// Offsets the position by the given amounts in the x and y directions.
    pub fn offset(&self, x_offset: i64, y_offset: i64) -> (p: Self)
        requires
            self.can_offset(x_offset as int, y_offset as int),
        ensures
            p.x == self.x + x_offset,
            p.y == self.y + y_offset,
            p == self.shifted(x_offset as int, y_offset as int),
    {
        Self { x: self.x + x_offset, y: self.y + y_offset }
    }

    /// Returns which quadrant of a node the position is in.
    pub fn quadrant(&self) -> (q: Quadrant)
        ensures
            q == self.quadrant_of(),
    {
        match (self.x < 0, self.y < 0) {
            (true, true) => Quadrant::Northwest,
            (false, true) => Quadrant::Northeast,
            (true, false) => Quadrant::Southwest,
            (false, false) => Quadrant::Southeast,
        }
    }
}

/// Offsetting twice is offsetting once by the sums of the amounts, offsetting by
/// zero changes nothing, and offsetting back by the negated amounts restores the position.
pub proof fn lemma_position_offset_composes(p: Position, a: int, b: int, c: int, d: int)
    requires
        p.can_offset(a, b),
        p.can_offset(a + c, b + d),
    ensures
        p.shifted(a, b).can_offset(c, d),
        p.shifted(a, b).shifted(c, d) == p.shifted(a + c, b + d),
        p.can_offset(0, 0),
        p.shifted(0, 0) == p,
        p.shifted(a, b).can_offset(-a, -b),
        p.shifted(a, b).shifted(-a, -b) == p,
{
}

/// A rectangular region of a Life grid.
#[derive(Clone, Copy, Debug, PartialEq, Eq, Structural, Hash, PartialOrd, Ord)]
pub struct BoundingBox {
    upper_left: Position,
    lower_right: Position,
}

/// Whether the box with corners `upper_left` and `lower_right` covers `p`.
pub open spec fn covers(upper_left: Position, lower_right: Position, p: Position) -> bool {
    upper_left.x <= p.x <= lower_right.x && upper_left.y <= p.y <= lower_right.y
}

/// Whether `upper_left` lies above and to the left of `lower_right` (or on them).
pub open spec fn corners_ordered(upper_left: Position, lower_right: Position) -> bool {
    upper_left.x <= lower_right.x && upper_left.y <= lower_right.y
}

impl BoundingBox {
    #[verifier::type_invariant]
    spec fn corners_in_order(self) -> bool {
        corners_ordered(self.upper_left, self.lower_right)
    }

    /// The upper left corner.
    pub closed spec fn ul(self) -> Position {
        self.upper_left
    }

    /// The lower right corner.
    pub closed spec fn lr(self) -> Position {
        self.lower_right
    }

    /// Whether the box covers the given position.
    pub open spec fn contains(self, p: Position) -> bool {
        covers(self.ul(), self.lr(), p)
    }

    /// The corners of the smallest box around this box and `other`.
    pub open spec fn combination(self, other: BoundingBox) -> (Position, Position) {
        (
            Position { x: min_i64(self.ul().x, other.ul().x), y: min_i64(self.ul().y, other.ul().y) },
            Position { x: max_i64(self.lr().x, other.lr().x), y: max_i64(self.lr().y, other.lr().y) },
        )
    }

    /// The corners of the overlap of this box and `other`, if they overlap.
    pub open spec fn intersection(self, other: BoundingBox) -> Option<(Position, Position)> {
        let ul = Position {
            x: max_i64(self.ul().x, other.ul().x),
            y: max_i64(self.ul().y, other.ul().y),
        };
        let lr = Position {
            x: min_i64(self.lr().x, other.lr().x),
            y: min_i64(self.lr().y, other.lr().y),
        };
        if corners_ordered(ul, lr) {
            Some((ul, lr))
        } else {
            None
        }
    }

    /// Whether the corners are in order; every bounding box value is.
    pub open spec fn well_formed(self) -> bool {
        corners_ordered(self.ul(), self.lr())
    }

    /// Creates a new bounding box with the given upper-left corner position and lower-right corner
    /// position.
    pub fn new(upper_left: Position, lower_right: Position) -> (b: Self)
        requires
            corners_ordered(upper_left, lower_right),
        ensures
            b.ul() == upper_left,
            b.lr() == lower_right,
            b.well_formed(),
    {
        Self { upper_left, lower_right }
    }

    /// Returns the upper left corner position of the bounding box.
    pub fn upper_left(&self) -> (p: Position)
        ensures
            p == self.ul(),
            self.well_formed(),
    {
        proof {
            use_type_invariant(self);
        }
        self.upper_left
    }

    /// Returns the lower right corner position of the bounding box.
    pub fn lower_right(&self) -> (p: Position)
        ensures
            p == self.lr(),
            self.well_formed(),
    {
        proof {
            use_type_invariant(self);
        }
        self.lower_right
    }

    /// Combines two bounding boxes, returning a bounding box that surrounds both boxes.
    pub fn combine(&self, other: BoundingBox) -> (b: Self)
        ensures
            (b.ul(), b.lr()) == self.combination(other),
            b.well_formed(),
    {
        proof {
            use_type_invariant(self);
            use_type_invariant(other);
        }
        let min_x = min_of(self.upper_left.x, other.upper_left.x);
        let min_y = min_of(self.upper_left.y, other.upper_left.y);
        let max_x = max_of(self.lower_right.x, other.lower_right.x);
        let max_y = max_of(self.lower_right.y, other.lower_right.y);

        Self::new(Position::new(min_x, min_y), Position::new(max_x, max_y))
    }

    /// Intersects two bounding boxes, returning a bounding box that both boxes contain.
    pub fn intersect(&self, other: BoundingBox) -> (r: Option<Self>)
        ensures
            match r {
                None => self.intersection(other) is None,
                Some(b) => {
                    &&& self.intersection(other) == Some((b.ul(), b.lr()))
                    &&& b.well_formed()
                },
            },
    {
        let min_x = max_of(self.upper_left.x, other.upper_left.x);
        let min_y = max_of(self.upper_left.y, other.upper_left.y);
        let max_x = min_of(self.lower_right.x, other.lower_right.x);
        let max_y = min_of(self.lower_right.y, other.lower_right.y);

        if min_x > max_x || min_y > max_y {
            None
        } else {
            Some(Self::new(Position::new(min_x, min_y), Position::new(max_x, max_y)))
        }
    }

    /// Offsets the bounding box by the given amounts in the x and y directions.
    pub fn offset(&self, x_offset: i64, y_offset: i64) -> (b: Self)
        requires
            self.ul().can_offset(x_offset as int, y_offset as int),
            self.lr().can_offset(x_offset as int, y_offset as int),
        ensures
            b.ul().x == self.ul().x + x_offset,
            b.ul().y == self.ul().y + y_offset,
            b.lr().x == self.lr().x + x_offset,
            b.lr().y == self.lr().y + y_offset,
            b.ul() == self.ul().shifted(x_offset as int, y_offset as int),
            b.lr() == self.lr().shifted(x_offset as int, y_offset as int),
            b.well_formed(),
    {
        proof {
            use_type_invariant(self);
        }
        Self::new(
            self.upper_left.offset(x_offset, y_offset),
            self.lower_right.offset(x_offset, y_offset),
        )
    }

    /// Pads the outside of the bounding box by the given amount.
    pub fn pad(&self, amount: i64) -> (b: Self)
        requires
            amount >= 0,
            self.ul().can_offset(-amount, -amount),
            self.lr().can_offset(amount as int, amount as int),
        ensures
            b.ul().x == self.ul().x - amount,
            b.ul().y == self.ul().y - amount,
            b.lr().x == self.lr().x + amount,
            b.lr().y == self.lr().y + amount,
            b.ul() == self.ul().shifted(-amount, -amount),
            b.lr() == self.lr().shifted(amount as int, amount as int),
            b.well_formed(),
    {
        proof {
            use_type_invariant(self);
        }
        Self {
            upper_left: self.upper_left.offset(-amount, -amount),
            lower_right: self.lower_right.offset(amount, amount),
        }
    }
}

/// The box that `combine` returns covers every position that either box covers, and lies
/// inside every box that covers both boxes.
pub proof fn lemma_combine_is_smallest_cover(a: BoundingBox, b: BoundingBox, c: BoundingBox, p: Position)
    requires
        a.well_formed(),
        b.well_formed(),
    ensures
        corners_ordered(a.combination(b).0, a.combination(b).1),
        a.contains(p) || b.contains(p) ==> covers(a.combination(b).0, a.combination(b).1, p),
        c.contains(a.ul()) && c.contains(a.lr()) && c.contains(b.ul()) && c.contains(b.lr())
            ==> c.contains(a.combination(b).0) && c.contains(a.combination(b).1),
{
}

/// Combining and intersecting do not depend on the order of the two boxes, and a box
/// combined or intersected with itself is itself.
pub proof fn lemma_combine_intersect_symmetric(a: BoundingBox, b: BoundingBox)
    requires
        a.well_formed(),
    ensures
        a.combination(b) == b.combination(a),
        a.intersection(b) == b.intersection(a),
        a.combination(a) == (a.ul(), a.lr()),
        a.intersection(a) == Some((a.ul(), a.lr())),
{
}

/// A position lies in both boxes exactly when the boxes overlap and the position lies in
/// the box that `intersect` returns.
pub proof fn lemma_intersect_is_overlap(a: BoundingBox, b: BoundingBox, p: Position)
    ensures
        (a.contains(p) && b.contains(p)) <==> (match a.intersection(b) {
            Some(corners) => covers(corners.0, corners.1, p),
            None => false,
        }),
{
}

/// Offsetting a box moves what it covers by the same amounts.
pub proof fn lemma_offset_moves_cover(a: BoundingBox, p: Position, dx: int, dy: int)
    requires
        a.ul().can_offset(dx, dy),
        a.lr().can_offset(dx, dy),
        p.can_offset(dx, dy),
    ensures
        a.contains(p) <==> covers(a.ul().shifted(dx, dy), a.lr().shifted(dx, dy), p.shifted(dx, dy)),
{
}

/// Padding a box by a non-negative amount keeps every position that it covered.
pub proof fn lemma_pad_keeps_cover(a: BoundingBox, p: Position, amount: int)
    requires
        amount >= 0,
        a.ul().can_offset(-amount, -amount),
        a.lr().can_offset(amount, amount),
    ensures
        a.contains(p) ==> covers(a.ul().shifted(-amount, -amount), a.lr().shifted(amount, amount), p),
{
}

/// `min_i64` is the smaller and `max_i64` the larger of their two arguments.
pub proof fn lemma_min_max_i64(a: i64, b: i64)
    ensures
        min_i64(a, b) <= a && min_i64(a, b) <= b && (min_i64(a, b) == a || min_i64(a, b) == b),
        max_i64(a, b) >= a && max_i64(a, b) >= b && (max_i64(a, b) == a || max_i64(a, b) == b),
{
}

/// The smaller of two `i64` values.
pub open spec fn min_i64(a: i64, b: i64) -> i64 {
    if a <= b {
        a
    } else {
        b
    }
}

/// The larger of two `i64` values.
pub open spec fn max_i64(a: i64, b: i64) -> i64 {
    if a >= b {
        a
    } else {
        b
    }
}

fn min_of(a: i64, b: i64) -> (m: i64)
    ensures
        m == min_i64(a, b),
{
    if a <= b {
        a
    } else {
        b
    }
}

fn max_of(a: i64, b: i64) -> (m: i64)
    ensures
        m == max_i64(a, b),
{
    if a >= b {
        a
    } else {
        b
    }
}

} // verus!
