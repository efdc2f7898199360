//! The playfield: a grid of squares with a falling piece, a hold piece, lock
//! delay and the bookkeeping that spin detection needs.

use vstd::prelude::*;

use crate::kicks::{KickTable, KickTable180, RotationState};
use crate::pieces::mino1234::Mino1234;
use crate::pieces::tetromino::{TetrominoAsc, TetrominoSrs};
use crate::pieces::{lemma_pivot_turns_with_piece, quarter_turn, PieceKind};

use crate::spins::{kind_spin, SpinDetector};
use crate::{fits_i32, to_coords, Coords, Randomizer};

verus! {

/// Largest field width, height and number of hidden rows; every coordinate
/// computed from squares of such a field (shifts, turns, kicks) fits in an `i32`.
pub const MAX_DIM: usize = 0x1000_0000;

/// A square of the field.
#[derive(Copy, Clone, PartialEq, Eq, Debug, Structural)]
pub enum Square {
    Empty,
    Filled(PieceKind),
}

impl Square {
    pub fn is_empty(&self) -> (r: bool)
        ensures
            r == (*self is Empty),
    {
        match self {
            Square::Empty => true,
            Square::Filled(_) => false,
        }
    }

    pub fn is_filled(&self) -> (r: bool)
        ensures
            r == (*self is Filled),
    {
        match self {
            Square::Empty => false,
            Square::Filled(_) => true,
        }
    }
}

/// Every square of the line is filled.
pub open spec fn full_line(line: Seq<Square>) -> bool {
    forall|i: int| 0 <= i < line.len() ==> #[trigger] line[i] is Filled
}

/// Every square of the line is empty.
pub open spec fn empty_line(line: Seq<Square>) -> bool {
    forall|i: int| 0 <= i < line.len() ==> #[trigger] line[i] is Empty
}

/// Every square of the grid is empty.
pub open spec fn empty_grid(grid: Seq<Seq<Square>>) -> bool {
    forall|r: int| 0 <= r < grid.len() ==> empty_line(#[trigger] grid[r])
}

/// A line of `width` empty squares.
pub open spec fn blank_line(width: nat) -> Seq<Square> {
    Seq::new(width, |i: int| Square::Empty)
}

/// A row of the field.
pub struct Line {
    squares: Vec<Square>,
}

impl View for Line {
    type V = Seq<Square>;

    closed spec fn view(&self) -> Seq<Square> {
        self.squares@
    }
}

impl Line {
    /// A line of `width` empty squares.
    pub fn new(width: usize) -> (r: Line)
        ensures
            r@ == blank_line(width as nat),
    {
        let mut squares: Vec<Square> = Vec::new();
        let mut i: usize = 0;
        while i < width
            invariant
                i <= width,
                squares@ == blank_line(i as nat),
            decreases width - i,
        {
            squares.push(Square::Empty);
            i += 1;
            assert(squares@ == blank_line(i as nat));
        }
        Line { squares }
    }

    pub fn squares(&self) -> (r: &[Square])
        ensures
            r@ == self@,
    {
        self.squares.as_slice()
    }

    fn is_empty(&self) -> (r: bool)
        ensures
            r == empty_line(self@),
    {
        let mut i: usize = 0;
        while i < self.squares.len()
            invariant
                i <= self.squares.len(),
                forall|j: int| 0 <= j < i ==> #[trigger] self.squares@[j] is Empty,
            decreases self.squares.len() - i,
        {
            if !self.squares[i].is_empty() {
                return false;
            }
            i += 1;
        }
        true
    }

    /// All squares are filled.
    fn is_clear(&self) -> (r: bool)
        ensures
            r == full_line(self@),
    {
        let mut i: usize = 0;
        while i < self.squares.len()
            invariant
                i <= self.squares.len(),
                forall|j: int| 0 <= j < i ==> #[trigger] self.squares@[j] is Filled,
            decreases self.squares.len() - i,
        {
            if !self.squares[i].is_filled() {
                return false;
            }
            i += 1;
        }
        true
    }

    fn get(&self, i: usize) -> (r: Square)
        requires
            i < self@.len(),
        ensures
            r == self@[i as int],
    {
        self.squares[i]
    }

    /// A line with the same squares.
    fn copy(&self) -> (r: Line)
        ensures
            r@ == self@,
    {
        let mut squares: Vec<Square> = Vec::new();
        let mut i: usize = 0;
        while i < self.squares.len()
            invariant
                i <= self.squares.len(),
                squares@ == self.squares@.take(i as int),
            decreases self.squares.len() - i,
        {
            squares.push(self.squares[i]);
            i += 1;
            assert(squares@ == self.squares@.take(i as int));
        }
        assert(self.squares@.take(self.squares.len() as int) == self.squares@);
        Line { squares }
    }
}

/// What a hard drop cleared: the number of lines, the kind of the spin (if the
/// piece was spun into place) and whether the spin was a mini spin; also
/// whether the field was left empty (a perfect clear).
#[derive(Clone, Copy, Debug, PartialEq, Eq, Structural)]
pub struct LineClear {
    n_lines: usize,
    spin: Option<PieceKind>,
    is_mini: bool,
    perfect_clear: bool,
}

impl View for LineClear {
    type V = (usize, Option<PieceKind>, bool);

    closed spec fn view(&self) -> (usize, Option<PieceKind>, bool) {
        (self.n_lines, self.spin, self.is_mini)
    }
}

impl LineClear {
    /// The clear left the field empty.
    pub closed spec fn perfect(&self) -> bool {
        self.perfect_clear
    }

    /// A line clear that is no perfect clear.
    pub fn new(n_lines: usize, spin: Option<PieceKind>, is_mini: bool) -> (r: LineClear)
        ensures
            r@ == (n_lines, spin, is_mini),
            !r.perfect(),
    {
        LineClear { n_lines, spin, is_mini, perfect_clear: false }
    }

    /// The same line clear, a perfect clear or not as `perfect` says.
    pub fn with_perfect_clear(self, perfect: bool) -> (r: LineClear)
        ensures
            r@ == self@,
            r.perfect() == perfect,
    {
        LineClear { perfect_clear: perfect, ..self }
    }

    pub fn is_perfect_clear(&self) -> (r: bool)
        ensures
            r == self.perfect(),
    {
        self.perfect_clear
    }

    pub fn n_lines(&self) -> (r: usize)
        ensures
            r == self@.0,
    {
        self.n_lines
    }

    pub fn spin(&self) -> (r: Option<PieceKind>)
        ensures
            r == self@.1,
    {
        self.spin
    }

    pub fn is_mini(&self) -> (r: bool)
        ensures
            r == self@.2,
    {
        self.is_mini
    }
}

/// A piece as coordinates on the field.
pub ghost struct PieceView {
    pub kind: PieceKind,
    pub coords: Seq<Coords>,
    pub rotation: RotationState,
}

/// Every coordinate shifted by `rows` and `cols` still fits in an `i32`.
pub open spec fn shift_fits(coords: Seq<Coords>, rows: int, cols: int) -> bool {
    forall|i: int|
        0 <= i < coords.len() ==> fits_i32((#[trigger] coords[i].0 + rows, coords[i].1 + cols))
}

/// Every coordinate shifted by `rows` and `cols`.
pub open spec fn shifted_coords(coords: Seq<Coords>, rows: int, cols: int) -> Seq<Coords> {
    Seq::new(coords.len(), |i: int| to_coords((coords[i].0 + rows, coords[i].1 + cols)))
}

/// The coordinates of `shape` placed at `origin`.
pub open spec fn placed(origin: Coords, shape: Seq<Coords>) -> Seq<Coords> {
    Seq::new(shape.len(), |i: int| to_coords((origin.0 + shape[i].0, origin.1 + shape[i].1)))
}

/// The pivot of a piece, in half squares: twice the pivot square plus the pivot offset.
pub open spec fn pivot2(p: PieceView) -> (int, int) {
    let pivot = p.kind.pivot(p.rotation);
    (2 * p.coords[pivot.0].0 + pivot.1.0, 2 * p.coords[pivot.0].1 + pivot.1.1)
}

/// The square `c` after a clockwise quarter turn about the pivot `p2` (in half squares).
pub open spec fn turn(c: Coords, p2: (int, int)) -> (int, int) {
    (c.1 + (p2.0 - p2.1) / 2, (p2.0 + p2.1) / 2 - c.0)
}

/// Bound (in half squares) on the pivot and on each square's distance to it
/// under which turning a piece stays within `i32` coordinates.
pub open spec fn turn_bound() -> int {
    0x4000_0000
}

/// A piece whose shape matches its kind and which is close enough to the
/// origin for its turns to fit in `i32` coordinates.
pub open spec fn turnable(p: PieceView) -> bool {
    let p2 = pivot2(p);
    &&& p.coords.len() == p.kind.shape().len()
    &&& -turn_bound() <= p2.0 <= turn_bound()
    &&& -turn_bound() <= p2.1 <= turn_bound()
    &&& forall|i: int|
        0 <= i < p.coords.len() ==> {
            &&& -turn_bound() <= 2 * #[trigger] p.coords[i].0 - p2.0 <= turn_bound()
            &&& -turn_bound() <= 2 * p.coords[i].1 - p2.1 <= turn_bound()
        }
}

impl PieceView {
    pub open spec fn shifted(self, rows: int, cols: int) -> PieceView {
        PieceView { coords: shifted_coords(self.coords, rows, cols), ..self }
    }

    /// The piece after a clockwise quarter turn about its pivot.
    pub open spec fn turned(self) -> PieceView {
        let p2 = pivot2(self);
        PieceView {
            kind: self.kind,
            coords: Seq::new(self.coords.len(), |i: int| to_coords(turn(self.coords[i], p2))),
            rotation: RotationState::from_quarter_turns(self.rotation.quarter_turns() + 1),
        }
    }
}

/// The J, L, S, T and Z tetrominoes, of every family that has them (SRS, ASC,
/// and the SRS tetrominoes among the one-to-four-square pieces).
pub open spec fn is_jlstz(kind: PieceKind) -> bool {
    match kind {
        PieceKind::TetrominoSrs(k) => k != TetrominoSrs::I && k != TetrominoSrs::O,
        PieceKind::TetrominoAsc(k) => k != TetrominoAsc::I && k != TetrominoAsc::O,
        PieceKind::Mino1234(Mino1234::TetrominoSrs(k)) => k != TetrominoSrs::I && k != TetrominoSrs::O,
        _ => false,
    }
}

/// The SRS I or O tetromino (on its own or among the one-to-four-square
/// pieces).
pub open spec fn is_srs_i_or_o(kind: PieceKind) -> (bool, bool) {
    match kind {
        PieceKind::TetrominoSrs(k) => (k == TetrominoSrs::I, k == TetrominoSrs::O),
        PieceKind::Mino1234(Mino1234::TetrominoSrs(k)) => (k == TetrominoSrs::I, k == TetrominoSrs::O),
        _ => (false, false),
    }
}

/// Tetrominoes turn as in SRS: placed at `origin` in their spawn orientation
/// and turned clockwise, the J, L, S, T and Z turn about the square at
/// `origin` (a square at (r, c) from it goes to (c, -r), so that square stays
/// put), the I turns about the corner below and right of `origin`, and the O
/// about the corner above and right of `origin`, the centres of their boxes.
pub proof fn lemma_spawn_turn(kind: PieceKind, origin: Coords)
    requires
        -MAX_DIM <= origin.0 <= MAX_DIM,
        -MAX_DIM <= origin.1 <= MAX_DIM,
    ensures
        ({
            let shape = kind.shape();
            let t = PieceView { kind, coords: placed(origin, shape), rotation: RotationState::Initial }.turned();
            &&& t.coords.len() == shape.len()
            &&& t.rotation == RotationState::Cw
            &&& is_jlstz(kind) ==> forall|i: int|
                0 <= i < shape.len() ==> #[trigger] t.coords[i] == to_coords(
                    (origin.0 + shape[i].1, origin.1 - shape[i].0),
                )
            &&& is_srs_i_or_o(kind).0 ==> forall|i: int|
                0 <= i < shape.len() ==> #[trigger] t.coords[i] == to_coords(
                    (origin.0 + shape[i].1, origin.1 + 1 - shape[i].0),
                )
            &&& is_srs_i_or_o(kind).1 ==> forall|i: int|
                0 <= i < shape.len() ==> #[trigger] t.coords[i] == to_coords(
                    (origin.0 + shape[i].1 - 1, origin.1 - shape[i].0),
                )
        }),
{
    let shape = kind.shape();
    crate::pieces::lemma_shape_small(kind);
    let p = PieceView { kind, coords: placed(origin, shape), rotation: RotationState::Initial };
    let t = p.turned();
    let pv = kind.pivot(RotationState::Initial);
    lemma_pivot_turns_with_piece(kind, RotationState::Initial);
    assert forall|i: int| 0 <= i < shape.len() implies #[trigger] p.coords[i] == to_coords(
        (origin.0 + shape[i].0, origin.1 + shape[i].1),
    ) && p.coords[i].0 == origin.0 + shape[i].0 && p.coords[i].1 == origin.1 + shape[i].1 by {}
}

/// A quarter turn keeps the pivot of a piece in place, and keeps every square
/// at the same distance from it.
pub proof fn lemma_turn_keeps_pivot(p: PieceView)
    requires
        turnable(p),
    ensures
        turnable(p.turned()),
        pivot2(p.turned()) == pivot2(p),
{
    let t = p.turned();
    let p2 = pivot2(p);
    let pv = p.kind.pivot(p.rotation);
    lemma_pivot_turns_with_piece(p.kind, p.rotation);
    let c = p.coords[pv.0];
    assert((p2.0 - p2.1) % 2 == 0);
    assert((p2.0 + p2.1) % 2 == 0);
    assert forall|i: int| 0 <= i < p.coords.len() implies {
        let x = #[trigger] p.coords[i];
        &&& 2 * turn(x, p2).0 - p2.0 == 2 * x.1 - p2.1
        &&& 2 * turn(x, p2).1 - p2.1 == -(2 * x.0 - p2.0)
        &&& fits_i32(turn(x, p2))
    } by {}
    assert(t.coords[pv.0] == to_coords(turn(c, p2)));
}

/// Four quarter turns bring a piece back to where it started.
pub proof fn lemma_four_turns(p: PieceView)
    requires
        turnable(p),
    ensures
        p.turned().turned().turned().turned() == p,
{
    let p2 = pivot2(p);
    lemma_turn_keeps_pivot(p);
    lemma_turn_keeps_pivot(p.turned());
    lemma_turn_keeps_pivot(p.turned().turned());
    lemma_turn_keeps_pivot(p.turned().turned().turned());
    lemma_pivot_turns_with_piece(p.kind, p.rotation);
    let q = p.turned().turned().turned().turned();
    assert((p2.0 - p2.1) % 2 == 0);
    assert(q.coords =~= p.coords);
    crate::kicks::lemma_rotation_state_cycle(p.rotation);
}

/// The falling piece.
pub struct LivePiece {
    kind: PieceKind,
    coords: Vec<Coords>,
    rotation_state: RotationState,
}

impl View for LivePiece {
    type V = PieceView;

    closed spec fn view(&self) -> PieceView {
        PieceView { kind: self.kind, coords: self.coords@, rotation: self.rotation_state }
    }
}

/// Whether `coords` holds `c`.
fn contains_coords(coords: &Vec<Coords>, c: Coords) -> (r: bool)
    ensures
        r == coords@.contains(c),
{
    let mut i: usize = 0;
    while i < coords.len()
        invariant
            i <= coords.len(),
            forall|j: int| 0 <= j < i ==> coords@[j] != c,
        decreases coords.len() - i,
    {
        if coords[i] == c {
            return true;
        }
        i += 1;
    }
    false
}

impl LivePiece {
    /// A piece of `kind` in its spawn orientation at `origin`.
    fn new(kind: PieceKind, origin: &Coords) -> (r: LivePiece)
        requires
            -MAX_DIM <= origin.0 <= MAX_DIM,
            -MAX_DIM <= origin.1 <= MAX_DIM,
        ensures
            r@ == spawned(*origin, kind),
    {
        let offsets = kind.spawn_offsets();
        proof {
            crate::pieces::lemma_shape_small(kind);
        }
        let mut coords: Vec<Coords> = Vec::new();
        let mut i: usize = 0;
        while i < offsets.len()
            invariant
                i <= offsets.len(),
                offsets@ == kind.shape(),
                -MAX_DIM <= origin.0 <= MAX_DIM,
                -MAX_DIM <= origin.1 <= MAX_DIM,
                crate::pieces::small_shape(kind.shape()),
                coords@ == placed(*origin, kind.shape()).take(i as int),
            decreases offsets.len() - i,
        {
            let offset = offsets[i];
            coords.push(origin.add(offset));
            i += 1;
            assert(coords@ == placed(*origin, kind.shape()).take(i as int));
        }
        assert(placed(*origin, kind.shape()).take(offsets.len() as int) == placed(*origin, kind.shape()));
        LivePiece { kind, coords, rotation_state: RotationState::Initial }
    }

    pub fn coords(&self) -> (r: &Vec<Coords>)
        ensures
            r@ == self@.coords,
    {
        &self.coords
    }

    pub fn kind(&self) -> (r: PieceKind)
        ensures
            r == self@.kind,
    {
        self.kind
    }

    pub fn rotation_state(&self) -> (r: RotationState)
        ensures
            r == self@.rotation,
    {
        self.rotation_state
    }

    /// The same piece at the same place.
    fn copy(&self) -> (r: LivePiece)
        ensures
            r@ == self@,
    {
        let mut coords: Vec<Coords> = Vec::new();
        let mut i: usize = 0;
        while i < self.coords.len()
            invariant
                i <= self.coords.len(),
                coords@ == self.coords@.take(i as int),
            decreases self.coords.len() - i,
        {
            coords.push(self.coords[i]);
            i += 1;
            assert(coords@ == self.coords@.take(i as int));
        }
        assert(self.coords@.take(self.coords.len() as int) == self.coords@);
        LivePiece { kind: self.kind, coords, rotation_state: self.rotation_state }
    }

    /// The piece moved by `rows` and `cols`.
    pub fn shifted(&self, rows: i32, cols: i32) -> (r: LivePiece)
        requires
            shift_fits(self@.coords, rows as int, cols as int),
        ensures
            r@ == self@.shifted(rows as int, cols as int),
    {
        let mut coords: Vec<Coords> = Vec::new();
        let mut i: usize = 0;
        while i < self.coords.len()
            invariant
                i <= self.coords.len(),
                shift_fits(self@.coords, rows as int, cols as int),
                coords@ == shifted_coords(self.coords@, rows as int, cols as int).take(i as int),
            decreases self.coords.len() - i,
        {
            let c = self.coords[i];
            coords.push(Coords(c.0 + rows, c.1 + cols));
            i += 1;
            assert(coords@ == shifted_coords(self.coords@, rows as int, cols as int).take(i as int));
        }
        assert(shifted_coords(self.coords@, rows as int, cols as int).take(self.coords.len() as int)
            == shifted_coords(self.coords@, rows as int, cols as int));
        LivePiece { kind: self.kind, coords, rotation_state: self.rotation_state }
    }

    /// The piece after a clockwise quarter turn about its pivot (no kicks).
    pub fn rotated_cw(&self) -> (r: LivePiece)
        requires
            turnable(self@),
        ensures
            r@ == self@.turned(),
    {
        proof {
            lemma_turn_keeps_pivot(self@);
            lemma_pivot_turns_with_piece(self.kind, self.rotation_state);
        }
        let (pivot_index, offset) = self.kind.pivot_offset(self.rotation_state);
        let pivot_square = self.coords[pivot_index];
        let pr: i64 = 2 * (pivot_square.0 as i64) + (offset.0 as i64);
        let pc: i64 = 2 * (pivot_square.1 as i64) + (offset.1 as i64);
        let ghost p2 = pivot2(self@);
        assert(pr == p2.0 && pc == p2.1);
        let half_diff: i64 = (pr - pc) / 2;
        let half_sum: i64 = (pr + pc) / 2;
        assert(half_diff == (p2.0 - p2.1) / 2) by {
            assert((p2.0 - p2.1) % 2 == 0);
        }
        assert(half_sum == (p2.0 + p2.1) / 2) by {
            assert((p2.0 + p2.1) % 2 == 0);
        }
        let rotation_state = self.rotation_state.next_cw();
        let ghost target = self@.turned().coords;
        let mut coords: Vec<Coords> = Vec::new();
        let mut i: usize = 0;
        while i < self.coords.len()
            invariant
                i <= self.coords.len(),
                turnable(self@),
                turnable(self@.turned()),
                p2 == pivot2(self@),
                half_diff == (p2.0 - p2.1) / 2,
                half_sum == (p2.0 + p2.1) / 2,
                target == self@.turned().coords,
                coords@ == target.take(i as int),
            decreases self.coords.len() - i,
        {
            let c = self.coords[i];
            assert(fits_i32(turn(c, p2))) by {
                assert(-turn_bound() <= 2 * c.0 - p2.0 <= turn_bound());
                assert(-turn_bound() <= 2 * c.1 - p2.1 <= turn_bound());
            }
            let row: i64 = (c.1 as i64) + half_diff;
            let col: i64 = half_sum - (c.0 as i64);
            coords.push(Coords(row as i32, col as i32));
            i += 1;
            assert(coords@ == target.take(i as int));
        }
        assert(target.take(self.coords.len() as int) == target);
        LivePiece { kind: self.kind, coords, rotation_state }
    }

    /// The piece after a counterclockwise quarter turn (three clockwise turns).
    pub fn rotated_ccw(&self) -> (r: LivePiece)
        requires
            turnable(self@),
        ensures
            r@ == self@.turned().turned().turned(),
    {
        proof {
            lemma_turn_keeps_pivot(self@);
            lemma_turn_keeps_pivot(self@.turned());
        }
        self.rotated_cw().rotated_cw().rotated_cw()
    }

    /// The piece after a half turn (two clockwise turns).
    pub fn rotated_180(&self) -> (r: LivePiece)
        requires
            turnable(self@),
        ensures
            r@ == self@.turned().turned(),
    {
        proof {
            lemma_turn_keeps_pivot(self@);
        }
        self.rotated_cw().rotated_cw()
    }
}

/// A piece of `kind` in its spawn orientation at `origin`.
pub open spec fn spawned(origin: Coords, kind: PieceKind) -> PieceView {
    PieceView { kind, coords: placed(origin, kind.shape()), rotation: RotationState::Initial }
}

/// The whole state of a field, as mathematical values.
pub ghost struct FieldView {
    pub width: nat,
    pub height: nat,
    pub hidden: nat,
    pub queue_len: nat,
    /// `grid[row][col]`; the falling piece is drawn in it.
    pub grid: Seq<Seq<Square>>,
    pub cur: PieceView,
    pub hold: Option<PieceKind>,
    pub hold_swapped: bool,
    /// Where pieces spawn.
    pub origin: Coords,
    /// Actions taken since lock delay started, if it has.
    pub lock_delay: Option<usize>,
    /// The last kick (other than the plain rotation) applied to the current piece.
    pub last_kick: Option<Coords>,
    pub last_rotated: bool,
}

/// Coordinates on a field of the given size.
pub open spec fn in_bounds(height: nat, width: nat, c: Coords) -> bool {
    0 <= c.0 < height && 0 <= c.1 < width
}

/// The squares of `grid`, with those at `coords` set to `square`.
pub open spec fn paint(grid: Seq<Seq<Square>>, coords: Seq<Coords>, square: Square) -> Seq<Seq<Square>> {
    Seq::new(
        grid.len(),
        |r: int|
            Seq::new(
                grid[r].len(),
                |c: int|
                    if coords.contains(Coords(r as i32, c as i32)) {
                        square
                    } else {
                        grid[r][c]
                    },
            ),
    )
}

/// A grid of `height` lines of `width` empty squares.
pub open spec fn blank_grid(height: nat, width: nat) -> Seq<Seq<Square>> {
    Seq::new(height, |r: int| blank_line(width))
}

/// Where pieces spawn on a field: the left-aligned center of the bottom line
/// of spawned pieces, two lines above the visible part.
pub open spec fn spawn_origin(width: nat, hidden: nat) -> Coords {
    Coords((hidden - 2) as i32, (width / 2 - 1) as i32)
}

/// Actions since lock delay started, after one more action.
pub open spec fn bumped(lock_delay: Option<usize>) -> Option<usize> {
    match lock_delay {
        Some(n) => Some((n + 1) as usize),
        None => None,
    }
}

/// The field just created, with a piece of `kind` spawned.
pub open spec fn initial_view(width: nat, height: nat, hidden: nat, queue_len: nat, kind: PieceKind) -> FieldView {
    let origin = spawn_origin(width, hidden);
    let piece = spawned(origin, kind);
    FieldView {
        width,
        height,
        hidden,
        queue_len,
        grid: paint(blank_grid(height, width), piece.coords, Square::Filled(kind)),
        cur: piece,
        hold: None,
        hold_swapped: false,
        origin,
        lock_delay: None,
        last_kick: None,
        last_rotated: false,
    }
}

/// A piece of `kind` spawned on an empty field of the given size lies inside it.
pub open spec fn spawn_fits(width: nat, height: nat, hidden: nat, kind: PieceKind) -> bool {
    let coords = spawned(spawn_origin(width, hidden), kind).coords;
    forall|i: int| 0 <= i < coords.len() ==> in_bounds(height, width, #[trigger] coords[i])
}

impl FieldView {
    pub open spec fn in_bounds(self, c: Coords) -> bool {
        in_bounds(self.height, self.width, c)
    }

    /// The square at `c` (which must be in bounds).
    pub open spec fn at(self, c: Coords) -> Square {
        self.grid[c.0 as int][c.1 as int]
    }

    pub open spec fn get(self, c: Coords) -> Option<Square> {
        if self.in_bounds(c) {
            Some(self.at(c))
        } else {
            None
        }
    }

    /// A piece cannot take the square `c` when it is outside the field, or
    /// filled by something other than the piece's previous squares `old`.
    pub open spec fn square_blocked(self, c: Coords, old: Option<Seq<Coords>>) -> bool {
        ||| !self.in_bounds(c)
        ||| self.at(c) is Filled && match old {
            Some(o) => !o.contains(c),
            None => true,
        }
    }

    /// Some square of `coords` is blocked.
    pub open spec fn blocked(self, coords: Seq<Coords>, old: Option<Seq<Coords>>) -> bool {
        exists|i: int| 0 <= i < coords.len() && self.square_blocked(#[trigger] coords[i], old)
    }

    /// The field is consistent: the grid has the field's size, the size is
    /// within bounds, and the current piece lies inside the field with as many
    /// squares as its kind has.
    pub open spec fn wf(self) -> bool {
        &&& self.grid.len() == self.height
        &&& forall|r: int| 0 <= r < self.height ==> (#[trigger] self.grid[r]).len() == self.width
        &&& self.width <= MAX_DIM
        &&& self.height <= MAX_DIM
        &&& self.hidden <= MAX_DIM
        &&& self.origin == spawn_origin(self.width, self.hidden)
        &&& self.cur.coords.len() == self.cur.kind.shape().len()
        &&& forall|i: int| 0 <= i < self.cur.coords.len() ==> self.in_bounds(#[trigger] self.cur.coords[i])
    }

    /// The field with the current piece erased and `piece` drawn as the new
    /// current piece.
    pub open spec fn moved_to(self, piece: PieceView) -> FieldView {
        FieldView {
            grid: paint(paint(self.grid, self.cur.coords, Square::Empty), piece.coords, Square::Filled(piece.kind)),
            cur: piece,
            ..self
        }
    }

    /// Replace the current piece by `piece` if it fits, as
    /// `try_update_cur_piece` does.
    pub open spec fn update_cur(self, piece: PieceView) -> (bool, FieldView) {
        if self.blocked(piece.coords, Some(self.cur.coords)) {
            (false, self)
        } else {
            (true, self.moved_to(piece))
        }
    }

    /// Shifting the current piece by `rows` and `cols`: whether it moved
    /// (it moves unless blocked) and the field after. A move is an action
    /// for lock delay and is no rotation.
    pub open spec fn shift_outcome(self, rows: int, cols: int) -> (bool, FieldView) {
        let (moved, v) = self.update_cur(self.cur.shifted(rows, cols));
        if moved {
            (true, FieldView { last_rotated: false, lock_delay: bumped(v.lock_delay), ..v })
        } else {
            (false, self)
        }
    }

    /// How many more times the current piece can shift by one square in the
    /// direction of `cols` (left or right), or down, before it leaves the
    /// field, counted from its first square.
    pub open spec fn room(self, rows: int, cols: int) -> int {
        let c = self.cur.coords[0];
        if cols < 0 {
            c.1 as int
        } else if cols > 0 {
            self.width - c.1
        } else {
            self.height - c.0
        }
    }

    /// Shifting the current piece of a consistent field by at most one
    /// square each way stays within `i32` coordinates.
    pub proof fn lemma_unit_shift_fits(self, rows: int, cols: int)
        requires
            self.wf(),
            -1 <= rows <= 1,
            -1 <= cols <= 1,
        ensures
            shift_fits(self.cur.coords, rows, cols),
    {
        assert forall|i: int| 0 <= i < self.cur.coords.len() implies fits_i32(
            (#[trigger] self.cur.coords[i].0 + rows, self.cur.coords[i].1 + cols),
        ) by {
            assert(self.in_bounds(self.cur.coords[i]));
        }
    }

    /// A piece that shifts by one square left, right or down uses up one
    /// square of room, and room is never negative.
    pub proof fn lemma_room(self, rows: int, cols: int)
        requires
            self.wf(),
            (rows, cols) == (0int, -1int) || (rows, cols) == (0int, 1int) || (rows, cols) == (1int, 0int),
        ensures
            self.room(rows, cols) >= 0,
            self.shift_outcome(rows, cols).0 ==> self.shift_outcome(rows, cols).1.room(rows, cols)
                == self.room(rows, cols) - 1,
    {
        crate::pieces::lemma_shape_small(self.cur.kind);
        assert(self.in_bounds(self.cur.coords[0]));
        self.lemma_unit_shift_fits(rows, cols);
        assert(fits_i32((self.cur.coords[0].0 + rows, self.cur.coords[0].1 + cols)));
    }

    /// `piece` falls `d` lines: each step down fits, given the step before,
    /// and the step after the last does not.
    pub open spec fn drop_spot(self, piece: PieceView, d: int) -> bool {
        &&& d >= 0
        &&& forall|j: int|
            0 <= j < d ==> !self.blocked(
                #[trigger] piece.shifted(j + 1, 0).coords,
                Some(piece.shifted(j, 0).coords),
            )
        &&& self.blocked(piece.shifted(d + 1, 0).coords, Some(piece.shifted(d, 0).coords))
    }

    /// How far `piece` falls.
    pub open spec fn drop_distance(self, piece: PieceView) -> int {
        choose|d: int| self.drop_spot(piece, d)
    }

    /// `piece` after it fell as far as it does (shadow piece, hard drop position).
    pub open spec fn dropped(self, piece: PieceView) -> PieceView {
        piece.shifted(self.drop_distance(piece), 0)
    }
}

/// A piece falls by exactly one distance.
pub proof fn lemma_drop_spot_unique(v: FieldView, piece: PieceView, d: int)
    requires
        v.drop_spot(piece, d),
    ensures
        v.drop_distance(piece) == d,
{
    let e = v.drop_distance(piece);
    assert(v.drop_spot(piece, e));
    if e < d {
        assert(!v.blocked(piece.shifted(e + 1, 0).coords, Some(piece.shifted(e, 0).coords)));
    } else if d < e {
        assert(!v.blocked(piece.shifted(d + 1, 0).coords, Some(piece.shifted(d, 0).coords)));
    }
}

/// Painting no squares changes nothing.
pub proof fn lemma_paint_nothing(grid: Seq<Seq<Square>>, square: Square)
    ensures
        paint(grid, Seq::empty(), square) == grid,
{
    assert forall|r: int| 0 <= r < grid.len() implies paint(grid, Seq::empty(), square)[r] == grid[r] by {
        assert(paint(grid, Seq::empty(), square)[r] =~= grid[r]);
    }
    assert(paint(grid, Seq::empty(), square) =~= grid);
}

/// Painting one more square is updating that square.
pub proof fn lemma_paint_step(grid: Seq<Seq<Square>>, coords: Seq<Coords>, i: int, square: Square)
    requires
        0 <= i < coords.len(),
        0 <= coords[i].0 < grid.len(),
        0 <= coords[i].1 < grid[coords[i].0 as int].len(),
        grid.len() <= MAX_DIM,
        forall|r: int| 0 <= r < grid.len() ==> (#[trigger] grid[r]).len() <= MAX_DIM,
    ensures
        ({
            let g = paint(grid, coords.take(i), square);
            let r = coords[i].0 as int;
            let c = coords[i].1 as int;
            paint(grid, coords.take(i + 1), square) == g.update(r, g[r].update(c, square))
        }),
{
    let g = paint(grid, coords.take(i), square);
    let h = paint(grid, coords.take(i + 1), square);
    let r0 = coords[i].0 as int;
    let c0 = coords[i].1 as int;
    let u = g.update(r0, g[r0].update(c0, square));
    assert forall|r: int| 0 <= r < grid.len() implies h[r] == u[r] by {
        assert forall|c: int| 0 <= c < grid[r].len() implies h[r][c] == u[r][c] by {
            let x = Coords(r as i32, c as i32);
            assert(coords.take(i + 1) == coords.take(i).push(coords[i]));
            if coords.take(i + 1).contains(x) {
                let j = choose|j: int| 0 <= j < i + 1 && #[trigger] coords.take(i + 1)[j] == x;
                if j < i {
                    assert(coords.take(i)[j] == x);
                }
            }
            if coords.take(i).contains(x) {
                let j = choose|j: int| 0 <= j < i && #[trigger] coords.take(i)[j] == x;
                assert(coords.take(i + 1)[j] == x);
            }
            if coords[i] == x {
                assert(coords.take(i + 1)[i] == x);
            }
            assert(coords[i] == x <==> (r == r0 && c == c0));
        }
        assert(h[r] =~= u[r]);
    }
    assert(h =~= u);
}

/// The squares of each line.
pub open spec fn line_views(lines: Seq<Line>) -> Seq<Seq<Square>> {
    lines.map_values(|l: Line| l@)
}

/// A playfield of `height` lines of `width` squares, the top `hidden` of which
/// are above the visible part.
pub struct DefaultField {
    width: usize,
    height: usize,
    hidden: usize,
    queue_len: usize,
    lines: Vec<Line>,
    cur_piece: LivePiece,
    hold_piece: Option<PieceKind>,
    hold_swapped: bool,
    piece_origin: Coords,
    lock_delay_actions: Option<usize>,
    // used for spin detection (e.g. t-spins)
    last_cur_piece_kick: Option<Coords>,
    last_move_rotated: bool,
}

impl View for DefaultField {
    type V = FieldView;

    closed spec fn view(&self) -> FieldView {
        FieldView {
            width: self.width as nat,
            height: self.height as nat,
            hidden: self.hidden as nat,
            queue_len: self.queue_len as nat,
            grid: line_views(self.lines@),
            cur: self.cur_piece@,
            hold: self.hold_piece,
            hold_swapped: self.hold_swapped,
            origin: self.piece_origin,
            lock_delay: self.lock_delay_actions,
            last_kick: self.last_cur_piece_kick,
            last_rotated: self.last_move_rotated,
        }
    }
}

impl LivePiece {
    /// Whether the piece cannot stand where it is: some square is outside the
    /// field or filled by something other than `old_piece` (the state the piece
    /// is moving from, if any).
    pub fn is_blocked(&self, old_piece: Option<&LivePiece>, field: &DefaultField) -> (r: bool)
        requires
            field.wf(),
        ensures
            r == field@.blocked(
                self@.coords,
                match old_piece {
                    Some(p) => Some(p@.coords),
                    None => None,
                },
            ),
    {
        let ghost old = match old_piece {
            Some(p) => Some(p@.coords),
            None => None,
        };
        let mut i: usize = 0;
        while i < self.coords.len()
            invariant
                i <= self.coords.len(),
                field.wf(),
                old == match old_piece {
                    Some(p) => Some(p@.coords),
                    None => None,
                },
                forall|j: int| 0 <= j < i ==> !field@.square_blocked(#[trigger] self.coords@[j], old),
            decreases self.coords.len() - i,
        {
            let c = self.coords[i];
            if !field.coords_in_bounds(&c) {
                assert(field@.square_blocked(self.coords@[i as int], old));
                return true;
            }
            if !field.get_square(&c).is_empty() {
                let taken_by_other = match old_piece {
                    Some(p) => !contains_coords(&p.coords, c),
                    None => true,
                };
                if taken_by_other {
                    assert(field@.square_blocked(self.coords@[i as int], old));
                    return true;
                }
            }
            i += 1;
        }
        false
    }
}

impl DefaultField {
    /// The field is consistent (see `FieldView::wf`).
    pub open spec fn wf(&self) -> bool {
        self@.wf()
    }

    proof fn lemma_view_facts(&self)
        ensures
            self@.grid.len() == self.lines@.len(),
            forall|r: int| 0 <= r < self.lines@.len() ==> #[trigger] self@.grid[r] == self.lines@[r]@,
    {
    }

    pub fn width(&self) -> (r: usize)
        ensures
            r == self@.width,
    {
        self.width
    }

    pub fn height(&self) -> (r: usize)
        ensures
            r == self@.height,
    {
        self.height
    }

    pub fn hidden(&self) -> (r: usize)
        ensures
            r == self@.hidden,
    {
        self.hidden
    }

    pub fn queue_len(&self) -> (r: usize)
        ensures
            r == self@.queue_len,
    {
        self.queue_len
    }

    pub fn lines(&self) -> (r: &[Line])
        ensures
            line_views(r@) == self@.grid,
    {
        self.lines.as_slice()
    }

    pub fn coords_in_bounds(&self, c: &Coords) -> (r: bool)
        ensures
            r == self@.in_bounds(*c),
    {
        0 <= c.0 && (c.0 as usize) < self.height && 0 <= c.1 && (c.1 as usize) < self.width
    }

    /// The square at `c`, which is in bounds.
    fn get_square(&self, c: &Coords) -> (r: Square)
        requires
            self.wf(),
            self@.in_bounds(*c),
        ensures
            r == self@.at(*c),
    {
        self.lines[c.0 as usize].get(c.1 as usize)
    }

    /// The square at `c`, if `c` is in bounds.
    pub fn get_at(&self, c: &Coords) -> (r: Option<Square>)
        requires
            self.wf(),
        ensures
            r == self@.get(*c),
    {
        if self.coords_in_bounds(c) {
            Some(self.get_square(c))
        } else {
            None
        }
    }

    pub fn cur_piece(&self) -> (r: &LivePiece)
        ensures
            r@ == self@.cur,
    {
        &self.cur_piece
    }

    pub fn hold_piece(&self) -> (r: Option<PieceKind>)
        ensures
            r == self@.hold,
    {
        self.hold_piece
    }

    /// Whether the hold piece was swapped in since the last piece locked.
    pub fn hold_swapped(&self) -> (r: bool)
        ensures
            r == self@.hold_swapped,
    {
        self.hold_swapped
    }

    pub fn actions_since_lock_delay(&self) -> (r: Option<usize>)
        ensures
            r == self@.lock_delay,
    {
        self.lock_delay_actions
    }

    pub fn last_cur_piece_kick(&self) -> (r: Option<Coords>)
        ensures
            r == self@.last_kick,
    {
        self.last_cur_piece_kick
    }

    pub fn last_move_rotated(&self) -> (r: bool)
        ensures
            r == self@.last_rotated,
    {
        self.last_move_rotated
    }

    fn set_at(&mut self, c: &Coords, square: Square)
        requires
            old(self).wf(),
            old(self)@.in_bounds(*c),
        ensures
            final(self)@ == (FieldView {
                grid: old(self)@.grid.update(
                    c.0 as int,
                    old(self)@.grid[c.0 as int].update(c.1 as int, square),
                ),
                ..old(self)@
            }),
            final(self).wf(),
    {
        let ghost g = old(self)@.grid;
        self.lines[c.0 as usize].squares.set(c.1 as usize, square);
        assert(self@.grid =~= g.update(c.0 as int, g[c.0 as int].update(c.1 as int, square)));
    }

    /// Set the squares at `piece_coords` (all in bounds) to `square`.
    fn paint_squares(&mut self, piece_coords: &Vec<Coords>, square: Square)
        requires
            old(self).wf(),
            forall|i: int| 0 <= i < piece_coords@.len() ==> old(self)@.in_bounds(#[trigger] piece_coords@[i]),
        ensures
            final(self)@ == (FieldView { grid: paint(old(self)@.grid, piece_coords@, square), ..old(self)@ }),
            final(self).wf(),
    {
        let ghost v0 = self@;
        proof {
            lemma_paint_nothing(v0.grid, square);
            assert(piece_coords@.take(0) =~= Seq::<Coords>::empty());
        }
        let mut i: usize = 0;
        while i < piece_coords.len()
            invariant
                i <= piece_coords.len(),
                self.wf(),
                v0.wf(),
                forall|j: int| 0 <= j < piece_coords@.len() ==> v0.in_bounds(#[trigger] piece_coords@[j]),
                self@ == (FieldView { grid: paint(v0.grid, piece_coords@.take(i as int), square), ..v0 }),
            decreases piece_coords.len() - i,
        {
            let c = piece_coords[i];
            proof {
                lemma_paint_step(v0.grid, piece_coords@, i as int, square);
            }
            self.set_at(&c, square);
            i += 1;
        }
        assert(piece_coords@.take(piece_coords.len() as int) == piece_coords@);
    }

    fn erase_cur_piece(&mut self)
        requires
            old(self).wf(),
        ensures
            final(self)@ == (FieldView {
                grid: paint(old(self)@.grid, old(self)@.cur.coords, Square::Empty),
                ..old(self)@
            }),
            final(self).wf(),
    {
        let coords = self.cur_piece.copy().coords;
        self.paint_squares(&coords, Square::Empty);
    }

    fn draw_piece(&mut self, piece: &LivePiece)
        requires
            old(self).wf(),
            forall|i: int| 0 <= i < piece@.coords.len() ==> old(self)@.in_bounds(#[trigger] piece@.coords[i]),
        ensures
            final(self)@ == (FieldView {
                grid: paint(old(self)@.grid, piece@.coords, Square::Filled(piece@.kind)),
                ..old(self)@
            }),
            final(self).wf(),
    {
        self.paint_squares(&piece.coords, Square::Filled(piece.kind));
    }

    fn draw_cur_piece(&mut self)
        requires
            old(self).wf(),
        ensures
            final(self)@ == (FieldView {
                grid: paint(old(self)@.grid, old(self)@.cur.coords, Square::Filled(old(self)@.cur.kind)),
                ..old(self)@
            }),
            final(self).wf(),
    {
        let piece = self.cur_piece.copy();
        self.draw_piece(&piece);
    }

    /// Replace and redraw the current piece if the new piece isn't blocked.
    fn try_update_cur_piece(&mut self, new_piece: LivePiece) -> (r: bool)
        requires
            old(self).wf(),
            new_piece@.coords.len() == new_piece@.kind.shape().len(),
        ensures
            (r, final(self)@) == old(self)@.update_cur(new_piece@),
            final(self).wf(),
    {
        let blocked = new_piece.is_blocked(Some(&self.cur_piece), self);
        if !blocked {
            assert forall|i: int| 0 <= i < new_piece@.coords.len() implies self@.in_bounds(
                #[trigger] new_piece@.coords[i],
            ) by {
                if !self@.in_bounds(new_piece@.coords[i]) {
                    assert(self@.square_blocked(new_piece@.coords[i], Some(self@.cur.coords)));
                }
            }
            self.erase_cur_piece();
            self.draw_piece(&new_piece);
            self.cur_piece = new_piece;
        }
        !blocked
    }
}

impl LivePiece {
    /// The piece moved down as far as it falls on `field` (shadow piece,
    /// hard drop position).
    fn projected_down(&self, field: &DefaultField) -> (r: LivePiece)
        requires
            field.wf(),
            self@.coords.len() > 0,
            forall|i: int| 0 <= i < self@.coords.len() ==> field@.in_bounds(#[trigger] self@.coords[i]),
        ensures
            r@ == field@.dropped(self@),
    {
        let ghost v = field@;
        let ghost p = self@;
        let mut cur = self.copy();
        let ghost mut d: int = 0;
        proof {
            assert(p.shifted(0, 0).coords =~= p.coords);
        }
        loop
            invariant
                field.wf(),
                v == field@,
                p == self@,
                d >= 0,
                p.coords.len() > 0,
                cur@ == p.shifted(d, 0),
                forall|i: int|
                    0 <= i < p.coords.len() ==> 0 <= #[trigger] p.coords[i].0 + d < v.height && 0
                        <= p.coords[i].1 < v.width,
                forall|j: int|
                    0 <= j < d ==> !v.blocked(
                        #[trigger] p.shifted(j + 1, 0).coords,
                        Some(p.shifted(j, 0).coords),
                    ),
            decreases v.height - (p.coords[0].0 + d),
        {
            assert(shift_fits(cur@.coords, 1, 0)) by {
                assert forall|i: int| 0 <= i < cur@.coords.len() implies fits_i32(
                    (#[trigger] cur@.coords[i].0 + 1, cur@.coords[i].1 + 0),
                ) by {
                    assert(0 <= p.coords[i].0 + d < v.height);
                }
            }
            let next = cur.shifted(1, 0);
            assert(next@ == p.shifted(d + 1, 0)) by {
                assert forall|i: int| 0 <= i < p.coords.len() implies #[trigger] next@.coords[i]
                    == p.shifted(d + 1, 0).coords[i] by {
                    assert(0 <= p.coords[i].0 + d < v.height);
                }
                assert(next@.coords =~= p.shifted(d + 1, 0).coords);
            }
            if next.is_blocked(Some(&cur), field) {
                proof {
                    assert(v.drop_spot(p, d));
                    lemma_drop_spot_unique(v, p, d);
                }
                return cur;
            }
            assert forall|i: int|
                0 <= i < p.coords.len() implies 0 <= #[trigger] p.coords[i].0 + d + 1 < v.height && 0
                    <= p.coords[i].1 < v.width by {
                assert(0 <= p.coords[i].0 + d < v.height);
                if !v.in_bounds(next@.coords[i]) {
                    assert(v.square_blocked(next@.coords[i], Some(cur@.coords)));
                }
            }
            proof {
                assert forall|j: int| 0 <= j < d + 1 implies !v.blocked(
                    #[trigger] p.shifted(j + 1, 0).coords,
                    Some(p.shifted(j, 0).coords),
                ) by {
                    if j == d {
                    }
                }
                d = d + 1;
            }
            cur = next;
        }
    }
}

impl DefaultField {
    /// A field of `height` lines of `width` squares (the top `hidden` lines
    /// hidden) with a piece of `kind` spawned on it.
    pub fn new_with_kind(width: usize, height: usize, hidden: usize, queue_len: usize, kind: PieceKind) -> (r: DefaultField)
        requires
            width <= MAX_DIM,
            height <= MAX_DIM,
            hidden <= MAX_DIM,
            spawn_fits(width as nat, height as nat, hidden as nat, kind),
        ensures
            r.wf(),
            r@ == initial_view(width as nat, height as nat, hidden as nat, queue_len as nat, kind),
            cur_drawn(r@),
    {
        // coordinates of the center (left-aligned) of the bottom-most line of pieces spawned on this field
        let piece_origin = Coords(hidden as i32 - 2, width as i32 / 2 - 1);
        assert(piece_origin == spawn_origin(width as nat, hidden as nat));
        let mut lines: Vec<Line> = Vec::new();
        let mut i: usize = 0;
        while i < height
            invariant
                i <= height,
                lines@.len() == i,
                line_views(lines@) == blank_grid(i as nat, width as nat),
            decreases height - i,
        {
            let ghost before = lines@;
            let line = Line::new(width);
            lines.push(line);
            i += 1;
            assert forall|j: int| 0 <= j < i implies #[trigger] line_views(lines@)[j]
                == blank_line(width as nat) by {
                if j < i - 1 {
                    assert(lines@[j] == before[j]);
                    assert(line_views(before)[j] == blank_grid((i - 1) as nat, width as nat)[j]);
                }
            }
            assert(line_views(lines@) =~= blank_grid(i as nat, width as nat));
        }
        let cur_piece = LivePiece::new(kind, &piece_origin);
        proof {
            crate::pieces::lemma_shape_small(kind);
        }
        let mut field = DefaultField {
            width,
            height,
            hidden,
            queue_len,
            lines,
            cur_piece,
            hold_piece: None,
            hold_swapped: false,
            piece_origin,
            lock_delay_actions: None,
            last_cur_piece_kick: None,
            last_move_rotated: false,
        };
        assert(field.wf());
        field.draw_cur_piece();
        proof {
            let v = field@;
            assert forall|i: int| 0 <= i < v.cur.coords.len() implies v.at(#[trigger] v.cur.coords[i])
                == Square::Filled(v.cur.kind) by {
                let x = v.cur.coords[i];
                assert(v.in_bounds(x));
                assert(Coords(x.0 as i32, x.1 as i32) == x);
                assert(v.cur.coords.contains(x));
            }
        }
        field
    }

    /// A field of `height` lines of `width` squares (the top `hidden` lines
    /// hidden) with the first piece from `bag` spawned on it.
    pub fn new(width: usize, height: usize, hidden: usize, queue_len: usize, bag: &mut impl Randomizer) -> (r: DefaultField)
        requires
            old(bag).can_deal(),
            width <= MAX_DIM,
            height <= MAX_DIM,
            hidden <= MAX_DIM,
            forall|k: PieceKind| old(bag).deals(k) ==> spawn_fits(width as nat, height as nat, hidden as nat, k),
        ensures
            r.wf(),
            old(bag).deals(r@.cur.kind),
            r@ == initial_view(width as nat, height as nat, hidden as nat, queue_len as nat, r@.cur.kind),
            final(bag).can_deal(),
            forall|k: PieceKind| final(bag).deals(k) == old(bag).deals(k),
    {
        let kind = bag.next();
        DefaultField::new_with_kind(width, height, hidden, queue_len, kind)
    }

    /// Whether the field holds nothing but the current piece. The current
    /// piece is erased and drawn again in the process.
    pub fn is_empty(&mut self) -> (r: bool)
        requires
            old(self).wf(),
        ensures
            final(self).wf(),
            r == (forall|row: int|
                0 <= row < old(self)@.height ==> empty_line(
                    #[trigger] paint(old(self)@.grid, old(self)@.cur.coords, Square::Empty)[row],
                )),
            final(self)@ == (FieldView {
                grid: paint(
                    paint(old(self)@.grid, old(self)@.cur.coords, Square::Empty),
                    old(self)@.cur.coords,
                    Square::Filled(old(self)@.cur.kind),
                ),
                ..old(self)@
            }),
    {
        self.erase_cur_piece();
        let mut is_empty = true;
        let mut i: usize = 0;
        while i < self.lines.len()
            invariant
                i <= self.lines.len(),
                self.wf(),
                is_empty == (forall|row: int| 0 <= row < i ==> empty_line(#[trigger] self@.grid[row])),
            decreases self.lines.len() - i,
        {
            let e = self.lines[i].is_empty();
            proof {
                self.lemma_view_facts();
                assert(self@.grid[i as int] == self.lines@[i as int]@);
            }
            is_empty = is_empty && e;
            i += 1;
        }
        self.draw_cur_piece();
        is_empty
    }

    /// The current piece moved down as far as it falls.
    pub fn shadow_piece(&self) -> (r: LivePiece)
        requires
            self.wf(),
        ensures
            r@ == self@.dropped(self@.cur),
    {
        proof {
            crate::pieces::lemma_shape_small(self@.cur.kind);
        }
        self.cur_piece.projected_down(self)
    }

    /// Whether the current piece cannot move down (used to start lock delay).
    pub fn cur_piece_cannot_move_down(&self) -> (r: bool)
        requires
            self.wf(),
        ensures
            r == self@.blocked(self@.cur.shifted(1, 0).coords, Some(self@.cur.coords)),
    {
        assert(shift_fits(self@.cur.coords, 1, 0)) by {
            assert forall|i: int| 0 <= i < self@.cur.coords.len() implies fits_i32(
                (#[trigger] self@.cur.coords[i].0 + 1, self@.cur.coords[i].1 + 0),
            ) by {
                assert(self@.in_bounds(self@.cur.coords[i]));
            }
        }
        self.cur_piece.shifted(1, 0).is_blocked(Some(&self.cur_piece), self)
    }

    /// Start counting actions for lock delay, unless already counting.
    pub fn activate_lock_delay(&mut self)
        ensures
            final(self)@ == (FieldView {
                lock_delay: Some(
                    match old(self)@.lock_delay {
                        Some(n) => n,
                        None => 0,
                    },
                ),
                ..old(self)@
            }),
    {
        if self.lock_delay_actions.is_none() {
            self.lock_delay_actions = Some(0);
        }
    }

    /// Count an action for lock delay (if counting), returning `action`.
    fn update_lock_delay(&mut self, action: bool) -> (r: bool)
        requires
            old(self)@.lock_delay != Some(usize::MAX),
        ensures
            r == action,
            final(self)@ == (FieldView {
                lock_delay: if action {
                    bumped(old(self)@.lock_delay)
                } else {
                    old(self)@.lock_delay
                },
                ..old(self)@
            }),
    {
        if action {
            match self.lock_delay_actions {
                Some(n) => {
                    self.lock_delay_actions = Some(n + 1);
                },
                None => {},
            }
        }
        action
    }

    /// Move the current piece by `rows` and `cols`; fails (and changes
    /// nothing) if the piece would be blocked.
    pub fn try_shift(&mut self, rows: i32, cols: i32) -> (r: bool)
        requires
            old(self).wf(),
            old(self)@.lock_delay != Some(usize::MAX),
            shift_fits(old(self)@.cur.coords, rows as int, cols as int),
        ensures
            final(self).wf(),
            (r, final(self)@) == old(self)@.shift_outcome(rows as int, cols as int),
            cur_drawn(old(self)@) ==> cur_drawn(final(self)@),
    {
        proof {
            if cur_drawn(self@) {
                lemma_shift_keeps_stack(self@, rows as int, cols as int);
            }
        }
        let shifted = self.cur_piece.shifted(rows, cols);
        let action = self.try_update_cur_piece(shifted);
        self.last_move_rotated = self.last_move_rotated && !action;
        self.update_lock_delay(action)
    }
}

/// Every kick shifts the turned piece to coordinates that fit in an `i32`.
pub open spec fn kicks_fit(rotated: PieceView, kicks: Seq<Coords>) -> bool {
    forall|i: int| 0 <= i < kicks.len() ==> shift_fits(rotated.coords, #[trigger] kicks[i].0 as int, kicks[i].1 as int)
}

/// Small kicks fit a piece that can turn: its squares are within half the
/// `i32` range, so a shift by at most two squares still fits.
pub proof fn lemma_small_kicks_fit(p: PieceView, kicks: Seq<Coords>)
    requires
        turnable(p),
        crate::kicks::small_kicks(kicks),
    ensures
        kicks_fit(p, kicks),
{
    assert forall|i: int| 0 <= i < kicks.len() implies shift_fits(p.coords, #[trigger] kicks[i].0 as int, kicks[i].1 as int) by {
        assert forall|j: int| 0 <= j < p.coords.len() implies fits_i32(
            (#[trigger] p.coords[j].0 + kicks[i].0 as int, p.coords[j].1 + kicks[i].1 as int),
        ) by {
            assert(-turn_bound() <= 2 * p.coords[j].0 - pivot2(p).0 <= turn_bound());
            assert(-turn_bound() <= 2 * p.coords[j].1 - pivot2(p).1 <= turn_bound());
        }
    }
}

/// The first kick with which the turned piece `rotated` fits on the field.
pub open spec fn first_fit(v: FieldView, rotated: PieceView, kicks: Seq<Coords>) -> Option<Coords>
    decreases kicks.len(),
{
    if kicks.len() == 0 {
        None
    } else if !v.blocked(rotated.shifted(kicks[0].0 as int, kicks[0].1 as int).coords, Some(v.cur.coords)) {
        Some(kicks[0])
    } else {
        first_fit(v, rotated, kicks.drop_first())
    }
}

/// Trying the kicks in order on the turned piece: the result and the field after.
/// A kick other than the plain rotation is remembered for spin detection.
pub open spec fn kicked(v: FieldView, rotated: PieceView, kicks: Seq<Coords>) -> (bool, FieldView) {
    match first_fit(v, rotated, kicks) {
        None => (false, v),
        Some(k) => (
            true,
            FieldView {
                last_kick: if k != Coords(0, 0) {
                    Some(k)
                } else {
                    v.last_kick
                },
                ..v
            }.moved_to(rotated.shifted(k.0 as int, k.1 as int)),
        ),
    }
}

/// A rotation attempt: the kicks are tried, the field records whether the last
/// move was a rotation, and a successful rotation counts for lock delay.
pub open spec fn rotation_outcome(v: FieldView, rotated: PieceView, kicks: Seq<Coords>) -> (bool, FieldView) {
    let (ok, w) = kicked(v, rotated, kicks);
    (
        ok,
        FieldView {
            last_rotated: ok,
            lock_delay: if ok {
                bumped(w.lock_delay)
            } else {
                w.lock_delay
            },
            ..w
        },
    )
}

/// The current piece of a consistent field can turn.
pub proof fn lemma_wf_turnable(v: FieldView)
    requires
        v.wf(),
    ensures
        turnable(v.cur),
        turnable(v.cur.turned()),
        turnable(v.cur.turned().turned()),
        v.cur.turned().coords.len() == v.cur.coords.len(),
        v.cur.turned().turned().coords.len() == v.cur.coords.len(),
        v.cur.turned().turned().turned().coords.len() == v.cur.coords.len(),
        v.cur.turned().kind == v.cur.kind,
        v.cur.turned().turned().kind == v.cur.kind,
        v.cur.turned().turned().turned().kind == v.cur.kind,
{
    let p = v.cur;
    lemma_pivot_turns_with_piece(p.kind, p.rotation);
    let pv = p.kind.pivot(p.rotation);
    assert(v.in_bounds(p.coords[pv.0]));
    assert forall|i: int| 0 <= i < p.coords.len() implies {
        &&& -turn_bound() <= 2 * #[trigger] p.coords[i].0 - pivot2(p).0 <= turn_bound()
        &&& -turn_bound() <= 2 * p.coords[i].1 - pivot2(p).1 <= turn_bound()
    } by {
        assert(v.in_bounds(p.coords[i]));
    }
    lemma_turn_keeps_pivot(p);
    lemma_turn_keeps_pivot(p.turned());
}

impl DefaultField {
    /// Try the kicks in order on the turned piece, and make the first that fits
    /// the current piece.
    fn try_rotate_with_kicks(&mut self, kicks: Vec<Coords>, rotated: LivePiece) -> (r: bool)
        requires
            old(self).wf(),
            kicks_fit(rotated@, kicks@),
            rotated@.coords.len() == rotated@.kind.shape().len(),
        ensures
            final(self).wf(),
            (r, final(self)@) == kicked(old(self)@, rotated@, kicks@),
    {
        let ghost v = self@;
        proof {
            assert(kicks@.skip(0) == kicks@);
        }
        let mut i: usize = 0;
        while i < kicks.len()
            invariant
                i <= kicks.len(),
                self.wf(),
                self@ == v,
                v == old(self)@,
                kicks_fit(rotated@, kicks@),
                rotated@.coords.len() == rotated@.kind.shape().len(),
                first_fit(v, rotated@, kicks@) == first_fit(v, rotated@, kicks@.skip(i as int)),
            decreases kicks.len() - i,
        {
            let kick = kicks[i];
            assert(kicks@.skip(i as int)[0] == kick);
            assert(kicks@.skip(i as int).drop_first() == kicks@.skip(i + 1));
            let piece = rotated.shifted(kick.0, kick.1);
            if !piece.is_blocked(Some(&self.cur_piece), self) {
                assert(first_fit(v, rotated@, kicks@) == Some(kick));
                if kick != Coords(0, 0) {
                    // used for checking spins (e.g t-spins)
                    self.last_cur_piece_kick = Some(kick);
                }
                let ghost w = self@;
                assert(w == (FieldView {
                    last_kick: if kick != Coords(0, 0) {
                        Some(kick)
                    } else {
                        v.last_kick
                    },
                    ..v
                }));
                assert(w.blocked(piece@.coords, Some(w.cur.coords)) == v.blocked(piece@.coords, Some(v.cur.coords)));
                let ok = self.try_update_cur_piece(piece);
                return ok;
            }
            i += 1;
        }
        false
    }

    /// Turn the current piece clockwise, trying the kicks of `kick_table`.
    pub fn try_rotate_cw(&mut self, kick_table: &impl KickTable) -> (r: bool)
        requires
            old(self).wf(),
            old(self)@.lock_delay != Some(usize::MAX),
            kicks_fit(old(self)@.cur.turned(), kick_table.cw_kicks(old(self)@.cur.kind, old(self)@.cur.rotation)),
        ensures
            final(self).wf(),
            (r, final(self)@) == rotation_outcome(
                old(self)@,
                old(self)@.cur.turned(),
                kick_table.cw_kicks(old(self)@.cur.kind, old(self)@.cur.rotation),
            ),
            cur_drawn(old(self)@) ==> cur_drawn(final(self)@),
    {
        proof {
            lemma_wf_turnable(self@);
            if cur_drawn(self@) {
                lemma_turn_keeps_stack(self@, self@.cur.turned(), kick_table.cw_kicks(self@.cur.kind, self@.cur.rotation));
            }
        }
        let kicks = kick_table.rotate_cw(self.cur_piece.kind(), self.cur_piece.rotation_state());
        let rotated = self.cur_piece.rotated_cw();
        let rotated_ok = self.try_rotate_with_kicks(kicks, rotated);
        self.last_move_rotated = rotated_ok;
        self.update_lock_delay(rotated_ok)
    }

    /// Turn the current piece counterclockwise, trying the kicks of `kick_table`.
    pub fn try_rotate_ccw(&mut self, kick_table: &impl KickTable) -> (r: bool)
        requires
            old(self).wf(),
            old(self)@.lock_delay != Some(usize::MAX),
            kicks_fit(
                old(self)@.cur.turned().turned().turned(),
                kick_table.ccw_kicks(old(self)@.cur.kind, old(self)@.cur.rotation),
            ),
        ensures
            final(self).wf(),
            (r, final(self)@) == rotation_outcome(
                old(self)@,
                old(self)@.cur.turned().turned().turned(),
                kick_table.ccw_kicks(old(self)@.cur.kind, old(self)@.cur.rotation),
            ),
            cur_drawn(old(self)@) ==> cur_drawn(final(self)@),
    {
        proof {
            lemma_wf_turnable(self@);
            if cur_drawn(self@) {
                lemma_turn_keeps_stack(self@, self@.cur.turned().turned().turned(), kick_table.ccw_kicks(self@.cur.kind, self@.cur.rotation));
            }
        }
        let kicks = kick_table.rotate_ccw(self.cur_piece.kind(), self.cur_piece.rotation_state());
        let rotated = self.cur_piece.rotated_ccw();
        let rotated_ok = self.try_rotate_with_kicks(kicks, rotated);
        self.last_move_rotated = rotated_ok;
        self.update_lock_delay(rotated_ok)
    }

    /// Turn the current piece by half a turn, trying the kicks of `kick_table`.
    pub fn try_rotate_180(&mut self, kick_table: &impl KickTable180) -> (r: bool)
        requires
            old(self).wf(),
            old(self)@.lock_delay != Some(usize::MAX),
            kicks_fit(
                old(self)@.cur.turned().turned(),
                kick_table.half_turn_kicks(old(self)@.cur.kind, old(self)@.cur.rotation),
            ),
        ensures
            final(self).wf(),
            (r, final(self)@) == rotation_outcome(
                old(self)@,
                old(self)@.cur.turned().turned(),
                kick_table.half_turn_kicks(old(self)@.cur.kind, old(self)@.cur.rotation),
            ),
            cur_drawn(old(self)@) ==> cur_drawn(final(self)@),
    {
        proof {
            lemma_wf_turnable(self@);
            if cur_drawn(self@) {
                lemma_turn_keeps_stack(self@, self@.cur.turned().turned(), kick_table.half_turn_kicks(self@.cur.kind, self@.cur.rotation));
            }
        }
        let kicks = kick_table.rotate_180(self.cur_piece.kind(), self.cur_piece.rotation_state());
        let rotated = self.cur_piece.rotated_180();
        let rotated_ok = self.try_rotate_with_kicks(kicks, rotated);
        self.last_move_rotated = rotated_ok;
        self.update_lock_delay(rotated_ok)
    }
}

/// The lines of `grid` that are not full, in order.
pub open spec fn uncleared(grid: Seq<Seq<Square>>) -> Seq<Seq<Square>>
    decreases grid.len(),
{
    if grid.len() == 0 {
        Seq::empty()
    } else {
        let rest = uncleared(grid.drop_last());
        if full_line(grid.last()) {
            rest
        } else {
            rest.push(grid.last())
        }
    }
}

impl FieldView {
    /// Spawn a piece of `kind` without erasing the current piece (as after
    /// locking it), if the new piece fits.
    pub open spec fn spawn_no_erase(self, kind: PieceKind) -> (bool, FieldView) {
        let piece = spawned(self.origin, kind);
        if self.blocked(piece.coords, None) {
            (false, self)
        } else {
            (true, FieldView { grid: paint(self.grid, piece.coords, Square::Filled(kind)), cur: piece, ..self })
        }
    }

    /// Replace the current piece by a new piece of `kind` (as when swapping
    /// with the hold piece), if the new piece fits.
    pub open spec fn spawn(self, kind: PieceKind) -> (bool, FieldView) {
        self.update_cur(spawned(self.origin, kind))
    }

    /// Swap the current piece with the hold piece; when nothing is held, the
    /// piece `drawn` takes the current piece's place.  Only one swap is allowed
    /// per piece.
    pub open spec fn swap_hold(self, drawn: PieceKind) -> (bool, FieldView) {
        if self.hold_swapped {
            (false, self)
        } else {
            let w = FieldView {
                last_kick: None,
                hold_swapped: true,
                lock_delay: None,
                hold: Some(self.cur.kind),
                ..self
            };
            let next = match self.hold {
                Some(k) => k,
                None => drawn,
            };
            w.spawn(next)
        }
    }

    /// Move the current piece to where it falls; the last move stays a
    /// rotation only for a hard drop.
    pub open spec fn project_down(self, is_hard_drop: bool) -> (bool, FieldView) {
        FieldView { last_rotated: self.last_rotated && is_hard_drop, ..self }.update_cur(self.dropped(self.cur))
    }

    /// Number of full lines.
    pub open spec fn n_cleared(self) -> int {
        self.height - uncleared(self.grid).len()
    }

    /// The full lines removed, the lines above them moved down, and empty lines
    /// added at the top.
    pub open spec fn cleared(self) -> FieldView {
        FieldView { grid: blank_grid(self.n_cleared() as nat, self.width) + uncleared(self.grid), ..self }
    }

    /// What clearing `n_cleared` lines counts as: the number of lines and the
    /// spin that the current piece's kind detects.
    pub open spec fn clear_type(self, n_cleared: usize) -> (usize, Option<PieceKind>, bool) {
        let spin = kind_spin(self.cur.kind, self);
        (n_cleared, spin.0, spin.1)
    }

    /// Hard drop: lock the current piece where it falls, clear full lines and
    /// spawn a piece of `next` (if it fits). Returns what was cleared and the
    /// field after.
    pub open spec fn hard_drop(self, next: PieceKind) -> ((usize, Option<PieceKind>, bool), FieldView) {
        let v2 = self.locked();
        let clear = v2.clear_type(v2.n_cleared() as usize);
        (clear, v2.cleared_and_spawned(next).1)
    }

    /// The current piece moved to where it falls, as a hard drop locks it
    /// (before any line is cleared).
    pub open spec fn locked(self) -> FieldView {
        FieldView { hold_swapped: false, lock_delay: None, ..self }.project_down(true).1
    }

    /// Full lines cleared and a piece of `next` spawned (if it fits), after
    /// the current piece was locked; tells whether the new piece fits.
    pub open spec fn cleared_and_spawned(self, next: PieceKind) -> (bool, FieldView) {
        FieldView { last_kick: None, ..self.cleared() }.spawn_no_erase(next)
    }
}

/// The uncleared lines are lines of the grid: at most as many, each of them
/// a line of the grid.
pub proof fn lemma_uncleared_lines(grid: Seq<Seq<Square>>)
    ensures
        uncleared(grid).len() <= grid.len(),
        forall|i: int| 0 <= i < uncleared(grid).len() ==> grid.contains(#[trigger] uncleared(grid)[i]),
        forall|i: int| 0 <= i < uncleared(grid).len() ==> !full_line(#[trigger] uncleared(grid)[i]),
    decreases grid.len(),
{
    if grid.len() > 0 {
        let init = grid.drop_last();
        lemma_uncleared_lines(init);
        assert forall|i: int| 0 <= i < uncleared(grid).len() implies grid.contains(#[trigger] uncleared(grid)[i]) by {
            if i < uncleared(init).len() {
                let j = choose|j: int| 0 <= j < init.len() && #[trigger] init[j] == uncleared(init)[i];
                assert(grid[j] == init[j]);
            } else {
                assert(grid[grid.len() - 1] == grid.last());
            }
        }
    }
}

impl DefaultField {
    /// Spawn a piece of `kind` without erasing the current piece (the current
    /// piece is treated as locked); fails if the new piece is blocked.
    pub fn try_spawn_no_erase_with(&mut self, kind: PieceKind) -> (r: bool)
        requires
            old(self).wf(),
        ensures
            final(self).wf(),
            (r, final(self)@) == old(self)@.spawn_no_erase(kind),
            r ==> cur_drawn(final(self)@),
    {
        let new_piece = LivePiece::new(kind, &self.piece_origin);
        let blocked = new_piece.is_blocked(None, self);
        if !blocked {
            assert forall|i: int| 0 <= i < new_piece@.coords.len() implies self@.in_bounds(
                #[trigger] new_piece@.coords[i],
            ) by {
                if !self@.in_bounds(new_piece@.coords[i]) {
                    assert(self@.square_blocked(new_piece@.coords[i], None));
                }
            }
            self.cur_piece = new_piece;
            self.draw_cur_piece();
            proof {
                let v = self@;
                assert forall|i: int| 0 <= i < v.cur.coords.len() implies v.at(#[trigger] v.cur.coords[i])
                    == Square::Filled(v.cur.kind) by {
                    let x = v.cur.coords[i];
                    assert(v.in_bounds(x));
                    assert(Coords(x.0 as i32, x.1 as i32) == x);
                    assert(v.cur.coords.contains(x));
                }
            }
        }
        !blocked
    }

    /// Spawn a new piece from `bag` without erasing the current piece (the
    /// current piece is treated as locked); fails if the new piece is blocked.
    pub fn try_spawn_no_erase(&mut self, bag: &mut impl Randomizer) -> (r: bool)
        requires
            old(self).wf(),
            old(bag).can_deal(),
        ensures
            final(self).wf(),
            final(bag).can_deal(),
            forall|k: PieceKind| final(bag).deals(k) == old(bag).deals(k),
            exists|kind: PieceKind|
                old(bag).deals(kind) && (r, final(self)@) == old(self)@.spawn_no_erase(kind),
    {
        let kind = bag.next();
        self.try_spawn_no_erase_with(kind)
    }

    /// Replace the current piece by a new piece of `kind`; fails if the new
    /// piece is blocked.
    pub fn try_spawn_with(&mut self, kind: PieceKind) -> (r: bool)
        requires
            old(self).wf(),
        ensures
            final(self).wf(),
            (r, final(self)@) == old(self)@.spawn(kind),
    {
        let new_piece = LivePiece::new(kind, &self.piece_origin);
        self.try_update_cur_piece(new_piece)
    }

    /// Replace the current piece by a new piece from `bag`; fails if the new
    /// piece is blocked.
    pub fn try_spawn(&mut self, bag: &mut impl Randomizer) -> (r: bool)
        requires
            old(self).wf(),
            old(bag).can_deal(),
        ensures
            final(self).wf(),
            final(bag).can_deal(),
            forall|k: PieceKind| final(bag).deals(k) == old(bag).deals(k),
            exists|kind: PieceKind| old(bag).deals(kind) && (r, final(self)@) == old(self)@.spawn(kind),
    {
        let kind = bag.next();
        self.try_spawn_with(kind)
    }

    /// Swap the current piece with the hold piece; when nothing is held yet,
    /// a piece of `drawn` replaces the current piece.
    pub fn swap_hold_piece_with(&mut self, drawn: PieceKind) -> (r: bool)
        requires
            old(self).wf(),
        ensures
            final(self).wf(),
            (r, final(self)@) == old(self)@.swap_hold(drawn),
    {
        if self.hold_swapped {
            false
        } else {
            self.last_cur_piece_kick = None;
            self.hold_swapped = true;
            self.lock_delay_actions = None;
            let hold_kind = self.hold_piece;
            self.hold_piece = Some(self.cur_piece.kind());
            match hold_kind {
                Some(kind) => self.try_spawn_with(kind),
                None => self.try_spawn_with(drawn),
            }
        }
    }

    /// Swap the current piece with the hold piece; when nothing is held yet,
    /// a new piece from `bag` replaces the current piece.
    pub fn swap_hold_piece(&mut self, bag: &mut impl Randomizer) -> (r: bool)
        requires
            old(self).wf(),
            old(bag).can_deal(),
        ensures
            final(self).wf(),
            final(bag).can_deal(),
            forall|k: PieceKind| final(bag).deals(k) == old(bag).deals(k),
            old(self)@.hold_swapped || old(self)@.hold is Some ==> *final(bag) == *old(bag),
            exists|drawn: PieceKind|
                (old(self)@.hold_swapped || old(self)@.hold is Some || old(bag).deals(drawn)) && (
                r,
                final(self)@,
            ) == old(self)@.swap_hold(drawn),
    {
        if self.hold_swapped {
            return self.swap_hold_piece_with(self.cur_piece.kind());
        }
        match self.hold_piece {
            Some(kind) => self.swap_hold_piece_with(kind),
            None => {
                let drawn = bag.next();
                self.swap_hold_piece_with(drawn)
            },
        }
    }

    /// Move the current piece to where it falls; `is_hard_drop` tells whether
    /// a rotation before the move still counts as the last move.
    pub fn project_down(&mut self, is_hard_drop: bool) -> (r: bool)
        requires
            old(self).wf(),
        ensures
            final(self).wf(),
            (r, final(self)@) == old(self)@.project_down(is_hard_drop),
    {
        proof {
            crate::pieces::lemma_shape_small(self@.cur.kind);
        }
        let projected = self.cur_piece.projected_down(self);
        self.last_move_rotated = self.last_move_rotated && is_hard_drop;
        self.try_update_cur_piece(projected)
    }

    /// What clearing `n_cleared` lines counts as, with the spin that the
    /// current piece's kind detects.
    pub fn line_clear_type(&self, n_cleared: usize) -> (r: LineClear)
        requires
            self.wf(),
        ensures
            r@ == self@.clear_type(n_cleared),
    {
        let (spin, is_mini) = self.cur_piece.kind().detect_spin(self);
        LineClear::new(n_cleared, spin, is_mini)
    }

    /// Remove full lines, moving the lines above them down and adding empty
    /// lines at the top; returns what was cleared (with the spin detected on
    /// the field before the lines were removed).
    pub fn clear_lines(&mut self) -> (r: LineClear)
        requires
            old(self).wf(),
        ensures
            final(self).wf(),
            r@ == old(self)@.clear_type(old(self)@.n_cleared() as usize),
            final(self)@ == old(self)@.cleared(),
            r.perfect() == empty_grid(final(self)@.grid),
    {
        let ghost v = self@;
        let mut uncleared_lines: Vec<Line> = Vec::new();
        let mut i: usize = 0;
        while i < self.lines.len()
            invariant
                i <= self.lines.len(),
                self.wf(),
                self@ == v,
                line_views(uncleared_lines@) == uncleared(v.grid.take(i as int)),
            decreases self.lines.len() - i,
        {
            proof {
                self.lemma_view_facts();
                assert(v.grid.take(i + 1).drop_last() == v.grid.take(i as int));
                assert(v.grid.take(i + 1).last() == self.lines@[i as int]@);
            }
            if !self.lines[i].is_clear() {
                let line = self.lines[i].copy();
                let ghost before = uncleared_lines@;
                uncleared_lines.push(line);
                assert(line_views(uncleared_lines@) =~= line_views(before).push(line@));
            }
            i += 1;
        }
        proof {
            assert(v.grid.take(v.grid.len() as int) == v.grid);
            lemma_uncleared_lines(v.grid);
        }
        let n_cleared = self.height - uncleared_lines.len();
        let clear_type = self.line_clear_type(n_cleared);
        let mut lines: Vec<Line> = Vec::new();
        let mut j: usize = 0;
        while j < n_cleared
            invariant
                j <= n_cleared,
                self@ == v,
                lines@.len() == j,
                line_views(lines@) == blank_grid(j as nat, v.width),
            decreases n_cleared - j,
        {
            let ghost before = lines@;
            lines.push(Line::new(self.width));
            j += 1;
            assert forall|k: int| 0 <= k < j implies #[trigger] line_views(lines@)[k] == blank_line(v.width) by {
                if k < j - 1 {
                    assert(lines@[k] == before[k]);
                    assert(line_views(before)[k] == blank_grid((j - 1) as nat, v.width)[k]);
                }
            }
            assert(line_views(lines@) =~= blank_grid(j as nat, v.width));
        }
        let ghost blank = lines@;
        let ghost kept = uncleared_lines@;
        lines.append(&mut uncleared_lines);
        assert(line_views(lines@) =~= line_views(blank) + line_views(kept));
        self.lines = lines;
        proof {
            assert(self@.grid == v.cleared().grid);
            assert forall|r: int| 0 <= r < self@.height implies (#[trigger] self@.grid[r]).len() == self@.width by {
                if r >= n_cleared {
                    let k = r - n_cleared;
                    assert(self@.grid[r] == uncleared(v.grid)[k]);
                    let m = choose|m: int| 0 <= m < v.grid.len() && #[trigger] v.grid[m] == uncleared(v.grid)[k];
                }
            }
        }
        let perfect = self.grid_is_empty();
        clear_type.with_perfect_clear(perfect)
    }

    /// Whether every square of the field, the current piece's included, is empty.
    fn grid_is_empty(&self) -> (r: bool)
        requires
            self.wf(),
        ensures
            r == empty_grid(self@.grid),
    {
        let mut i: usize = 0;
        while i < self.lines.len()
            invariant
                i <= self.lines.len(),
                self.wf(),
                forall|row: int| 0 <= row < i ==> empty_line(#[trigger] self@.grid[row]),
            decreases self.lines.len() - i,
        {
            proof {
                self.lemma_view_facts();
                assert(self@.grid[i as int] == self.lines@[i as int]@);
            }
            if !self.lines[i].is_empty() {
                return false;
            }
            i += 1;
        }
        proof {
            self.lemma_view_facts();
        }
        true
    }

    /// Lock the current piece where it falls, clear full lines, and spawn a
    /// piece of `next` (if it fits); returns what was cleared.
    pub fn hard_drop_with(&mut self, next: PieceKind) -> (r: LineClear)
        requires
            old(self).wf(),
        ensures
            final(self).wf(),
            (r@, final(self)@) == old(self)@.hard_drop(next),
            r.perfect() == empty_grid(old(self)@.locked().cleared().grid),
    {
        let ghost v = self@;
        self.hold_swapped = false;
        self.lock_delay_actions = None;
        assert(self@ == FieldView { hold_swapped: false, lock_delay: None, ..v });
        self.project_down(true);
        assert(self@ == v.locked());
        let clear_type = self.clear_lines();
        self.last_cur_piece_kick = None;
        self.try_spawn_no_erase_with(next);
        clear_type
    }

    /// Lock the current piece where it falls, clear full lines, and spawn the
    /// next piece from `bag` (if it fits); returns what was cleared, with the
    /// spin that `detector` sees on the locked piece, and whether the new
    /// piece fit.
    pub fn hard_drop_detecting(&mut self, bag: &mut impl Randomizer, detector: &impl SpinDetector) -> (r: (
        LineClear,
        bool,
    ))
        requires
            old(self).wf(),
            old(bag).can_deal(),
        ensures
            final(self).wf(),
            final(bag).can_deal(),
            forall|k: PieceKind| final(bag).deals(k) == old(bag).deals(k),
            exists|next: PieceKind|
                #![trigger old(self)@.locked().cleared_and_spawned(next)]
                {
                    let locked = old(self)@.locked();
                    let spin = detector.spin(locked);
                    &&& old(bag).deals(next)
                    &&& r.0@ == (locked.n_cleared() as usize, spin.0, spin.1)
                    &&& (r.1, final(self)@) == locked.cleared_and_spawned(next)
                },
    {
        let next = bag.next();
        self.hard_drop_detecting_with(next, detector)
    }

    /// Lock the current piece where it falls, clear full lines, and spawn a
    /// piece of `next` (if it fits); returns what was cleared, with the spin
    /// that `detector` sees on the locked piece, and whether the new piece
    /// fit.
    pub fn hard_drop_detecting_with(&mut self, next: PieceKind, detector: &impl SpinDetector) -> (r: (
        LineClear,
        bool,
    ))
        requires
            old(self).wf(),
        ensures
            final(self).wf(),
            ({
                let locked = old(self)@.locked();
                let spin = detector.spin(locked);
                &&& r.0@ == (locked.n_cleared() as usize, spin.0, spin.1)
                &&& r.0.perfect() == empty_grid(locked.cleared().grid)
                &&& (r.1, final(self)@) == locked.cleared_and_spawned(next)
            }),
            r.1 ==> cur_drawn(final(self)@),
    {
        let ghost v = self@;
        self.hold_swapped = false;
        self.lock_delay_actions = None;
        assert(self@ == FieldView { hold_swapped: false, lock_delay: None, ..v });
        self.project_down(true);
        assert(self@ == v.locked());
        let (spin, is_mini) = detector.detect(self);
        let cleared = self.clear_lines();
        self.last_cur_piece_kick = None;
        assert(self@ == FieldView { last_kick: None, ..v.locked().cleared() });
        let spawned = self.try_spawn_no_erase_with(next);
        let r = (LineClear::new(cleared.n_lines(), spin, is_mini).with_perfect_clear(cleared.is_perfect_clear()), spawned);
        assert((r.1, self@) == v.locked().cleared_and_spawned(next));
        r
    }

    /// Lock the current piece where it falls, clear full lines, and spawn the
    /// next piece from `bag` (if it fits); returns what was cleared.
    pub fn hard_drop(&mut self, bag: &mut impl Randomizer) -> (r: LineClear)
        requires
            old(self).wf(),
            old(bag).can_deal(),
        ensures
            final(self).wf(),
            final(bag).can_deal(),
            forall|k: PieceKind| final(bag).deals(k) == old(bag).deals(k),
            exists|next: PieceKind| old(bag).deals(next) && (r@, final(self)@) == old(self)@.hard_drop(next),
    {
        let next = bag.next();
        self.hard_drop_with(next)
    }
}

/// The current piece is drawn on the grid: each of its squares holds its kind.
pub open spec fn cur_drawn(v: FieldView) -> bool {
    forall|i: int| 0 <= i < v.cur.coords.len() ==> v.at(#[trigger] v.cur.coords[i]) == Square::Filled(v.cur.kind)
}

/// Moves never overwrite the stack: when the current piece is drawn on the
/// grid and is replaced by a piece that is not blocked, the new piece lies
/// on squares that were empty or the old piece's, it is drawn on the grid,
/// and every square that is neither the old nor the new piece's stays as it
/// was.
pub proof fn lemma_move_keeps_stack(v: FieldView, piece: PieceView)
    requires
        v.wf(),
        cur_drawn(v),
        !v.blocked(piece.coords, Some(v.cur.coords)),
    ensures
        forall|i: int|
            0 <= i < piece.coords.len() ==> v.in_bounds(#[trigger] piece.coords[i]) && (v.at(piece.coords[i]) is Empty
                || v.cur.coords.contains(piece.coords[i])),
        cur_drawn(v.moved_to(piece)),
        forall|r: int, c: int|
            0 <= r < v.height && 0 <= c < v.width && !v.cur.coords.contains(Coords(r as i32, c as i32))
                && !piece.coords.contains(Coords(r as i32, c as i32)) ==> #[trigger] v.moved_to(piece).grid[r][c]
                == v.grid[r][c],
{
    let w = v.moved_to(piece);
    assert forall|i: int| 0 <= i < piece.coords.len() implies v.in_bounds(#[trigger] piece.coords[i]) && (v.at(
        piece.coords[i],
    ) is Empty || v.cur.coords.contains(piece.coords[i])) by {
        if v.square_blocked(piece.coords[i], Some(v.cur.coords)) {
            assert(v.blocked(piece.coords, Some(v.cur.coords)));
        }
    }
    assert forall|i: int| 0 <= i < w.cur.coords.len() implies w.at(#[trigger] w.cur.coords[i]) == Square::Filled(
        w.cur.kind,
    ) by {
        let x = piece.coords[i];
        assert(v.in_bounds(x));
        assert(Coords(x.0 as i32, x.1 as i32) == x);
        assert(piece.coords.contains(x));
    }
}

/// Every square of the grid that is neither in `a` nor in `b` is the same
/// in `w` as in `v`.
pub open spec fn same_outside(v: FieldView, w: FieldView, a: Seq<Coords>, b: Seq<Coords>) -> bool {
    forall|r: int, c: int|
        0 <= r < v.height && 0 <= c < v.width && !a.contains(Coords(r as i32, c as i32)) && !b.contains(
            Coords(r as i32, c as i32),
        ) ==> #[trigger] w.grid[r][c] == v.grid[r][c]
}

/// Shifting the current piece keeps it drawn and leaves the stack alone:
/// every square that is neither the old nor the new piece's is unchanged.
pub proof fn lemma_shift_keeps_stack(v: FieldView, rows: int, cols: int)
    requires
        v.wf(),
        cur_drawn(v),
    ensures
        cur_drawn(v.shift_outcome(rows, cols).1),
        same_outside(v, v.shift_outcome(rows, cols).1, v.cur.coords, v.shift_outcome(rows, cols).1.cur.coords),
{
    if v.shift_outcome(rows, cols).0 {
        lemma_move_keeps_stack(v, v.cur.shifted(rows, cols));
    }
}

/// The kick that a turn picks fits: the turned piece shifted by it is not
/// blocked.
proof fn lemma_first_fit_fits(v: FieldView, rotated: PieceView, kicks: Seq<Coords>)
    requires
        first_fit(v, rotated, kicks) is Some,
    ensures
        ({
            let k = first_fit(v, rotated, kicks)->0;
            !v.blocked(rotated.shifted(k.0 as int, k.1 as int).coords, Some(v.cur.coords))
        }),
    decreases kicks.len(),
{
    if kicks.len() > 0 && v.blocked(rotated.shifted(kicks[0].0 as int, kicks[0].1 as int).coords, Some(v.cur.coords)) {
        lemma_first_fit_fits(v, rotated, kicks.drop_first());
    }
}

/// Turning the current piece (with kicks) keeps it drawn and leaves the
/// stack alone: every square that is neither the old nor the new piece's is
/// unchanged.
pub proof fn lemma_turn_keeps_stack(v: FieldView, rotated: PieceView, kicks: Seq<Coords>)
    requires
        v.wf(),
        cur_drawn(v),
    ensures
        cur_drawn(rotation_outcome(v, rotated, kicks).1),
        same_outside(v, rotation_outcome(v, rotated, kicks).1, v.cur.coords, rotation_outcome(v, rotated, kicks).1.cur.coords),
{
    if first_fit(v, rotated, kicks) is Some {
        let k = first_fit(v, rotated, kicks)->0;
        lemma_first_fit_fits(v, rotated, kicks);
        let piece = rotated.shifted(k.0 as int, k.1 as int);
        lemma_move_keeps_stack(v, piece);
        let u = FieldView {
            last_kick: if k != Coords(0, 0) {
                Some(k)
            } else {
                v.last_kick
            },
            ..v
        };
        assert(u.moved_to(piece).grid == v.moved_to(piece).grid);
    }
}

/// Replacing the current piece by a piece of the same kind that is not
/// blocked, and then putting the old piece back, succeeds and gives back the
/// same grid and piece.
proof fn lemma_replace_and_back(v: FieldView, piece: PieceView)
    requires
        v.wf(),
        cur_drawn(v),
        piece.kind == v.cur.kind,
        !v.blocked(piece.coords, Some(v.cur.coords)),
    ensures
        !v.moved_to(piece).blocked(v.cur.coords, Some(piece.coords)),
        v.moved_to(piece).moved_to(v.cur).grid == v.grid,
        v.moved_to(piece).moved_to(v.cur).cur == v.cur,
{
    let a = v.cur.coords;
    let b = piece.coords;
    let w = v.moved_to(piece);
    let kind = v.cur.kind;
    let mid = paint(v.grid, a, Square::Empty);
    assert forall|i: int| 0 <= i < a.len() implies !w.square_blocked(#[trigger] a[i], Some(b)) by {
        let c = a[i];
        assert(v.in_bounds(c));
        assert(a.contains(Coords(c.0 as i32, c.1 as i32))) by {
            assert(Coords(c.0 as i32, c.1 as i32) == c);
        }
        assert(mid[c.0 as int][c.1 as int] == Square::Empty);
    }
    assert forall|i: int| 0 <= i < b.len() implies !v.square_blocked(#[trigger] b[i], Some(a)) by {
        if v.square_blocked(b[i], Some(a)) {
            assert(v.blocked(b, Some(a)));
        }
    }
    let g2 = paint(paint(w.grid, b, Square::Empty), a, Square::Filled(kind));
    assert forall|r: int| 0 <= r < v.grid.len() implies #[trigger] g2[r] == v.grid[r] by {
        assert forall|c: int| 0 <= c < v.grid[r].len() implies g2[r][c] == v.grid[r][c] by {
            let x = Coords(r as i32, c as i32);
            assert(x.0 == r && x.1 == c);
            if a.contains(x) {
                let i = choose|i: int| 0 <= i < a.len() && a[i] == x;
                assert(v.at(a[i]) == Square::Filled(kind));
            } else if b.contains(x) {
                let i = choose|i: int| 0 <= i < b.len() && b[i] == x;
                assert(!v.square_blocked(b[i], Some(a)));
            }
        }
        assert(g2[r] =~= v.grid[r]);
    }
    assert(g2 =~= v.grid);
}

/// A turn undone restores the field: when the current piece is drawn on the
/// grid and a clockwise quarter turn fits without a kick, turning back
/// counterclockwise (with a table whose first kick is none, as every table
/// has) succeeds without a kick and gives back the same grid and piece.
pub proof fn lemma_turn_and_back(v: FieldView, cw_kicks: Seq<Coords>, ccw_kicks: Seq<Coords>)
    requires
        v.wf(),
        cur_drawn(v),
        cw_kicks.len() > 0,
        cw_kicks[0] == Coords(0, 0),
        ccw_kicks.len() > 0,
        ccw_kicks[0] == Coords(0, 0),
        !v.blocked(v.cur.turned().coords, Some(v.cur.coords)),
    ensures
        ({
            let (turned, w) = rotation_outcome(v, v.cur.turned(), cw_kicks);
            let (back, u) = rotation_outcome(w, w.cur.turned().turned().turned(), ccw_kicks);
            &&& turned
            &&& back
            &&& w.cur == v.cur.turned()
            &&& u.grid == v.grid
            &&& u.cur == v.cur
        }),
{
    lemma_wf_turnable(v);
    let t = v.cur.turned();
    assert forall|i: int| 0 <= i < t.coords.len() implies fits_i32((#[trigger] t.coords[i].0 + 0, t.coords[i].1 + 0)) by {
        assert(-turn_bound() <= 2 * t.coords[i].0 - pivot2(t).0 <= turn_bound());
        assert(-turn_bound() <= 2 * t.coords[i].1 - pivot2(t).1 <= turn_bound());
    }
    assert(t.shifted(0, 0).coords =~= t.coords);
    assert(t.shifted(0, 0) == t);
    assert(first_fit(v, t, cw_kicks) == Some(Coords(0, 0)));
    let w = rotation_outcome(v, t, cw_kicks).1;
    assert(w.grid == v.moved_to(t).grid);
    lemma_replace_and_back(v, t);
    lemma_four_turns(v.cur);
    let back = w.cur.turned().turned().turned();
    assert(back == v.cur);
    assert forall|i: int| 0 <= i < back.coords.len() implies fits_i32((#[trigger] back.coords[i].0 + 0, back.coords[i].1 + 0)) by {
        assert(v.in_bounds(v.cur.coords[i]));
    }
    assert(back.shifted(0, 0).coords =~= back.coords);
    assert(back.shifted(0, 0) == back);
    assert(w.blocked(v.cur.coords, Some(t.coords)) == v.moved_to(t).blocked(v.cur.coords, Some(t.coords)));
    assert(first_fit(w, back, ccw_kicks) == Some(Coords(0, 0)));
}

/// A move undone restores the field: when the current piece is drawn on the
/// grid and moves by `rows` and `cols`, moving it back by `-rows` and `-cols`
/// succeeds and gives back the same grid and piece.
pub proof fn lemma_move_and_back(v: FieldView, rows: int, cols: int)
    requires
        v.wf(),
        cur_drawn(v),
        shift_fits(v.cur.coords, rows, cols),
        v.update_cur(v.cur.shifted(rows, cols)).0,
    ensures
        ({
            let w = v.update_cur(v.cur.shifted(rows, cols)).1;
            w.update_cur(w.cur.shifted(-rows, -cols)) == (true, v)
        }),
{
    let w = v.update_cur(v.cur.shifted(rows, cols)).1;
    let back = w.cur.shifted(-rows, -cols);
    assert(back.coords =~= v.cur.coords);
    assert(back == v.cur);
    lemma_replace_and_back(v, v.cur.shifted(rows, cols));
}

/// The current piece cannot move down exactly when it falls no further: lock
/// delay starts where the shadow piece is the piece itself.
pub proof fn lemma_cannot_move_down_iff_landed(v: FieldView)
    requires
        v.wf(),
    ensures
        v.blocked(v.cur.shifted(1, 0).coords, Some(v.cur.coords)) <==> v.drop_distance(v.cur) == 0,
        v.blocked(v.cur.shifted(1, 0).coords, Some(v.cur.coords)) ==> v.dropped(v.cur) == v.cur,
{
    let p = v.cur;
    assert forall|i: int| 0 <= i < p.coords.len() implies fits_i32((#[trigger] p.coords[i].0 + 0, p.coords[i].1 + 0)) by {
        assert(v.in_bounds(p.coords[i]));
    }
    assert(p.shifted(0, 0).coords =~= p.coords);
    assert(p.shifted(0, 0) == p);
    if v.blocked(p.shifted(1, 0).coords, Some(p.coords)) {
        assert(v.drop_spot(p, 0));
        lemma_drop_spot_unique(v, p, 0);
    } else {
        if v.drop_distance(p) == 0 {
            // the choice falls on a drop spot only if one exists; show one does
            lemma_drop_spot_exists(v, p);
            assert(v.drop_spot(p, 0));
        }
    }
}

/// A piece that has fallen `d` lines (each step fitting) falls to some spot.
proof fn lemma_drop_spot_from(v: FieldView, p: PieceView, d: int)
    requires
        v.wf(),
        d >= 0,
        p.coords.len() > 0,
        forall|i: int| 0 <= i < p.coords.len() ==> 0 <= #[trigger] p.coords[i].0 + d < v.height,
        forall|j: int|
            0 <= j < d ==> !v.blocked(#[trigger] p.shifted(j + 1, 0).coords, Some(p.shifted(j, 0).coords)),
    ensures
        exists|e: int| v.drop_spot(p, e),
    decreases v.height - (p.coords[0].0 + d),
{
    if v.blocked(p.shifted(d + 1, 0).coords, Some(p.shifted(d, 0).coords)) {
        assert(v.drop_spot(p, d));
    } else {
        assert forall|i: int| 0 <= i < p.coords.len() implies 0 <= #[trigger] p.coords[i].0 + d + 1 < v.height by {
            let c = p.shifted(d + 1, 0).coords[i];
            assert(0 <= p.coords[i].0 + d < v.height);
            if !(p.coords[i].0 + d + 1 < v.height) {
                assert(!v.in_bounds(c));
                assert(v.square_blocked(c, Some(p.shifted(d, 0).coords)));
            }
        }
        assert forall|j: int| 0 <= j < d + 1 implies !v.blocked(
            #[trigger] p.shifted(j + 1, 0).coords,
            Some(p.shifted(j, 0).coords),
        ) by {}
        lemma_drop_spot_from(v, p, d + 1);
    }
}

/// No column of the squares has a gap: below a square with another square
/// further down its column, the next square down is one of the squares too.
pub open spec fn column_convex(coords: Seq<Coords>) -> bool {
    forall|i: int, j: int|
        #![trigger coords[i], coords[j]]
        0 <= i < coords.len() && 0 <= j < coords.len() && coords[i].1 == coords[j].1 && coords[i].0 < coords[j].0
            ==> coords.contains(Coords((coords[i].0 + 1) as i32, coords[i].1))
}

/// For squares without gaps in their columns, a square that the squares
/// cover both where they are and `d + 1` lines lower is covered `d` lines
/// lower too.
proof fn lemma_convex_fall(p: Seq<Coords>, d: int, x: Coords)
    requires
        column_convex(p),
        0 <= d <= MAX_DIM,
        forall|i: int| 0 <= i < p.len() ==> 0 <= #[trigger] p[i].0 <= MAX_DIM,
        shifted_coords(p, d + 1, 0).contains(x),
        p.contains(x),
    ensures
        shifted_coords(p, d, 0).contains(x),
{
    let i = choose|i: int| 0 <= i < p.len() && #[trigger] shifted_coords(p, d + 1, 0)[i] == x;
    let j = choose|j: int| 0 <= j < p.len() && #[trigger] p[j] == x;
    assert(x.0 == p[i].0 + d + 1 && x.1 == p[i].1);
    assert(p.contains(Coords((p[i].0 + 1) as i32, p[i].1)));
    let k = choose|k: int| 0 <= k < p.len() && #[trigger] p[k] == Coords((p[i].0 + 1) as i32, p[i].1);
    assert(shifted_coords(p, d, 0)[k] == x);
}

/// The squares a piece passes through while it falls by `m` lines (within
/// its drop distance `d`) are inside the field, and each is empty or the
/// piece's own.
proof fn lemma_fall_path_free(v: FieldView, d: int, m: int)
    requires
        v.wf(),
        0 <= m <= d,
        forall|j: int|
            0 <= j < d ==> !v.blocked(#[trigger] v.cur.shifted(j + 1, 0).coords, Some(v.cur.shifted(j, 0).coords)),
    ensures
        forall|i: int|
            0 <= i < v.cur.shifted(m, 0).coords.len() ==> v.in_bounds(#[trigger] v.cur.shifted(m, 0).coords[i]) && (v.at(
                v.cur.shifted(m, 0).coords[i],
            ) is Empty || v.cur.coords.contains(v.cur.shifted(m, 0).coords[i])),
    decreases m,
{
    let s = v.cur.shifted(m, 0).coords;
    if m == 0 {
        assert forall|i: int| 0 <= i < s.len() implies v.in_bounds(#[trigger] s[i]) && (v.at(s[i]) is Empty
            || v.cur.coords.contains(s[i])) by {
            assert(v.in_bounds(v.cur.coords[i]));
            assert(s[i] == v.cur.coords[i]);
        }
    } else {
        lemma_fall_path_free(v, d, m - 1);
        let prev = v.cur.shifted(m - 1, 0).coords;
        assert(!v.blocked(v.cur.shifted((m - 1) + 1, 0).coords, Some(prev)));
        assert forall|i: int| 0 <= i < s.len() implies v.in_bounds(#[trigger] s[i]) && (v.at(s[i]) is Empty
            || v.cur.coords.contains(s[i])) by {
            assert(!v.square_blocked(s[i], Some(prev)));
            if prev.contains(s[i]) {
                let k = choose|k: int| 0 <= k < prev.len() && #[trigger] prev[k] == s[i];
                assert(v.in_bounds(prev[k]));
            }
        }
    }
}

/// Projecting the current piece down always succeeds and moves it to where
/// it falls (the shadow piece), whose squares lie inside the field, each
/// empty or one of the piece's own before the fall; the field is otherwise
/// unchanged. This holds of every piece, whatever its shape.
pub proof fn lemma_projected_piece_is_shadow(v: FieldView, is_hard_drop: bool)
    requires
        v.wf(),
    ensures
        v.project_down(is_hard_drop).0,
        v.project_down(is_hard_drop).1 == (FieldView { last_rotated: v.last_rotated && is_hard_drop, ..v }).moved_to(
            v.dropped(v.cur),
        ),
        v.dropped(v.cur).coords.len() == v.cur.coords.len(),
        v.dropped(v.cur).kind == v.cur.kind,
        (forall|i: int|
            0 <= i < v.cur.coords.len() ==> v.in_bounds(#[trigger] v.dropped(v.cur).coords[i]) && (v.at(
                v.dropped(v.cur).coords[i],
            ) is Empty || v.cur.coords.contains(v.dropped(v.cur).coords[i]))),
{
    let p = v.cur.coords;
    crate::pieces::lemma_shape_small(v.cur.kind);
    lemma_drop_spot_exists(v, v.cur);
    let d = v.drop_distance(v.cur);
    assert(v.drop_spot(v.cur, d));
    lemma_fall_path_free(v, d, d);
    let sd = v.cur.shifted(d, 0).coords;
    assert forall|i: int| 0 <= i < sd.len() implies !v.square_blocked(#[trigger] sd[i], Some(p)) by {
        assert(v.in_bounds(sd[i]));
    }
    assert(!v.blocked(sd, Some(p)));
    let u = FieldView { last_rotated: v.last_rotated && is_hard_drop, ..v };
    assert(u.blocked(sd, Some(p)) == v.blocked(sd, Some(p)));
}

/// A dropped piece rests on the stack or the floor, for pieces whose columns
/// have no gaps: projecting the current piece down moves it to where it
/// falls (the shadow piece), and from there it cannot move down. (A piece
/// with a gap in a column can stop early: its squares are checked against
/// the field with the piece still at its starting place.)
pub proof fn lemma_dropped_piece_rests(v: FieldView, is_hard_drop: bool)
    requires
        v.wf(),
        column_convex(v.cur.coords),
    ensures
        v.project_down(is_hard_drop).0,
        v.project_down(is_hard_drop).1.cur == v.dropped(v.cur),
        ({
            let w = v.project_down(is_hard_drop).1;
            w.blocked(w.cur.shifted(1, 0).coords, Some(w.cur.coords))
        }),
{
    let p = v.cur.coords;
    crate::pieces::lemma_shape_small(v.cur.kind);
    lemma_drop_spot_exists(v, v.cur);
    let d = v.drop_distance(v.cur);
    assert(v.drop_spot(v.cur, d));
    lemma_fall_path_free(v, d, d);
    let sd = v.cur.shifted(d, 0).coords;
    let sd1 = v.cur.shifted(d + 1, 0).coords;
    // the piece fits where it falls
    assert forall|i: int| 0 <= i < sd.len() implies !v.square_blocked(#[trigger] sd[i], Some(p)) by {
        assert(v.in_bounds(sd[i]));
    }
    assert(!v.blocked(sd, Some(p)));
    let u = FieldView { last_rotated: v.last_rotated && is_hard_drop, ..v };
    assert(u.blocked(sd, Some(p)) == v.blocked(sd, Some(p)));
    let w = v.project_down(is_hard_drop).1;
    assert(w == u.moved_to(v.dropped(v.cur)));
    // the piece falls no further than the floor
    assert(v.in_bounds(p[0]));
    let j0 = v.height - p[0].0 - 1;
    if j0 < d {
        let c = v.cur.shifted(j0 + 1, 0).coords[0];
        assert(c.0 == v.height);
        assert(v.square_blocked(c, Some(v.cur.shifted(j0, 0).coords)));
        assert(v.blocked(v.cur.shifted(j0 + 1, 0).coords, Some(v.cur.shifted(j0, 0).coords)));
    }
    assert(d <= j0);
    // rows stay small
    assert forall|i: int| 0 <= i < p.len() implies 0 <= #[trigger] p[i].0 && p[i].0 + d < v.height by {
        assert(v.in_bounds(p[i]));
        assert(v.in_bounds(sd[i]));
    }
    assert(w.cur.shifted(1, 0).coords =~= sd1);
    // the square that stopped the fall still blocks it
    let i = choose|i: int| 0 <= i < sd1.len() && v.square_blocked(#[trigger] sd1[i], Some(sd));
    let x = sd1[i];
    if v.in_bounds(x) {
        if p.contains(x) {
            assert forall|k: int| 0 <= k < p.len() implies 0 <= #[trigger] p[k].0 <= MAX_DIM by {}
            lemma_convex_fall(p, d, x);
        }
        assert(!p.contains(x));
        assert(Coords(x.0 as i32, x.1 as i32) == x);
        assert(w.at(x) == v.at(x));
    }
    assert(w.square_blocked(x, Some(sd)));
}

/// Every piece inside the field falls some distance.
pub proof fn lemma_drop_spot_exists(v: FieldView, p: PieceView)
    requires
        v.wf(),
        p.coords.len() > 0,
        forall|i: int| 0 <= i < p.coords.len() ==> v.in_bounds(#[trigger] p.coords[i]),
    ensures
        v.drop_spot(p, v.drop_distance(p)),
{
    assert forall|i: int| 0 <= i < p.coords.len() implies 0 <= #[trigger] p.coords[i].0 + 0 < v.height by {
        assert(v.in_bounds(p.coords[i]));
    }
    lemma_drop_spot_from(v, p, 0);
}

/// Only one swap with the hold piece per piece: once swapped, swapping again
/// fails and changes nothing; a hard drop allows swapping again.
pub proof fn lemma_one_swap_per_piece(v: FieldView, drawn: PieceKind, drawn2: PieceKind, next: PieceKind)
    requires
        v.wf(),
        !v.hold_swapped,
    ensures
        v.swap_hold(drawn).1.hold_swapped,
        v.swap_hold(drawn).1.hold == Some(v.cur.kind),
        v.swap_hold(drawn).1.swap_hold(drawn2) == (false, v.swap_hold(drawn).1),
        !v.hard_drop(next).1.hold_swapped,
{
}

/// No line is full if every line is kept.
proof fn lemma_uncleared_all(grid: Seq<Seq<Square>>)
    requires
        forall|i: int| 0 <= i < grid.len() ==> !full_line(#[trigger] grid[i]),
    ensures
        uncleared(grid) == grid,
    decreases grid.len(),
{
    if grid.len() > 0 {
        let init = grid.drop_last();
        assert forall|i: int| 0 <= i < init.len() implies !full_line(#[trigger] init[i]) by {
            assert(init[i] == grid[i]);
        }
        lemma_uncleared_all(init);
        assert(!full_line(grid[grid.len() - 1]));
        assert(init.push(grid.last()) =~= grid);
    }
}

/// After clearing lines no line is full (on a field at least one square wide),
/// the field keeps its height, and clearing again clears nothing.
pub proof fn lemma_clear_leaves_no_full_line(v: FieldView)
    requires
        v.wf(),
        v.width > 0,
    ensures
        v.cleared().grid.len() == v.height,
        forall|r: int| 0 <= r < v.height ==> !full_line(#[trigger] v.cleared().grid[r]),
        v.cleared().n_cleared() == 0,
        v.cleared().cleared() == v.cleared(),
{
    lemma_uncleared_lines(v.grid);
    let w = v.cleared();
    let n = v.n_cleared();
    let kept = uncleared(v.grid);
    assert forall|r: int| 0 <= r < v.height implies !full_line(#[trigger] w.grid[r]) by {
        if r < n {
            assert(w.grid[r] == blank_line(v.width));
            assert(!(blank_line(v.width)[0] is Filled));
        } else {
            assert(w.grid[r] == kept[r - n]);
        }
    }
    lemma_uncleared_all(w.grid);
    assert(w.n_cleared() == 0);
    assert(blank_grid(0, w.width) + uncleared(w.grid) =~= w.grid);
}

/// A blocked move changes nothing: replacing the current piece by a blocked
/// piece fails and leaves the field as it was.
pub proof fn lemma_blocked_move_changes_nothing(v: FieldView, piece: PieceView)
    requires
        v.blocked(piece.coords, Some(v.cur.coords)),
    ensures
        v.update_cur(piece) == (false, v),
{
}

} // verus!
