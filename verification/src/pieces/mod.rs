//! Piece kinds: the shapes that fall, grouped in families (SRS tetrominoes,
//! ASC tetrominoes, minos of one to three squares, one to four squares, and
//! pentominoes).

pub mod mino123;
pub mod mino1234;
pub mod pentomino;
pub mod tetromino;

use vstd::prelude::*;

use self::mino123::Mino123;
use self::mino1234::Mino1234;
use self::pentomino::Pentomino;
use self::tetromino::{TetrominoAsc, TetrominoSrs};
use crate::kicks::RotationState;
use crate::{to_coords, Coords};

verus! {

/// What every family of piece kinds provides.
///
/// Pivot offsets are given in half squares: the rotation pivot of a piece is
/// its square at the returned index, moved by half the returned offset.
pub trait PieceKindTrait: Sized {
    /// Squares of the piece relative to the spawn coordinates.
    spec fn spawn_shape(&self) -> Seq<Coords>;

    /// Index of the pivot square and offset (in half squares) of the pivot.
    spec fn pivot_spec(&self, rotation_state: RotationState) -> (int, Coords);

    spec fn display_spec(&self) -> Seq<char>;

    spec fn asset_spec(&self) -> Seq<char>;

    /// All kinds of the family, in order.
    spec fn kinds_spec() -> Seq<PieceKind>;

    /// Coordinates of the squares composing the piece relative to the spawn coordinates.
    fn spawn_offsets(&self) -> (r: Vec<Coords>)
        ensures
            r@ == self.spawn_shape(),
    ;

    /// Index of the rotation pivot square, and the offset of the pivot from that
    /// square in half squares (pieces such as the I tetromino have a pivot on a
    /// corner between squares).
    fn pivot_offset(&self, rotation_state: RotationState) -> (r: (usize, Coords))
        ensures
            r.0 == self.pivot_spec(rotation_state).0,
            r.1 == self.pivot_spec(rotation_state).1,
    ;

    fn display_name(&self) -> (r: &'static str)
        ensures
            r@ == self.display_spec(),
    ;

    fn asset_name(&self) -> (r: &'static str)
        ensures
            r@ == self.asset_spec(),
    ;

    /// All piece kinds of the family.
    fn iter() -> (r: Vec<PieceKind>)
        ensures
            r@ == Self::kinds_spec(),
    ;

    fn n_kinds() -> (r: usize)
        ensures
            r == Self::kinds_spec().len(),
    ;
}

/// A piece kind (e.g. T tetromino (SRS), domino, L tromino).
#[derive(Copy, Clone, Debug, PartialEq, Eq, Hash, Structural)]
pub enum PieceKind {
    TetrominoSrs(TetrominoSrs),
    TetrominoAsc(TetrominoAsc),
    Mino123(Mino123),
    Mino1234(Mino1234),
    Pentomino(Pentomino),
}

impl PieceKind {
    pub open spec fn shape(self) -> Seq<Coords> {
        match self {
            PieceKind::TetrominoSrs(p) => p.spawn_shape(),
            PieceKind::TetrominoAsc(p) => p.spawn_shape(),
            PieceKind::Mino123(p) => p.spawn_shape(),
            PieceKind::Mino1234(p) => p.spawn_shape(),
            PieceKind::Pentomino(p) => p.spawn_shape(),
        }
    }

    pub open spec fn pivot(self, rotation_state: RotationState) -> (int, Coords) {
        match self {
            PieceKind::TetrominoSrs(p) => p.pivot_spec(rotation_state),
            PieceKind::TetrominoAsc(p) => p.pivot_spec(rotation_state),
            PieceKind::Mino123(p) => p.pivot_spec(rotation_state),
            PieceKind::Mino1234(p) => p.pivot_spec(rotation_state),
            PieceKind::Pentomino(p) => p.pivot_spec(rotation_state),
        }
    }

    pub open spec fn display(self) -> Seq<char> {
        match self {
            PieceKind::TetrominoSrs(p) => p.display_spec(),
            PieceKind::TetrominoAsc(p) => p.display_spec(),
            PieceKind::Mino123(p) => p.display_spec(),
            PieceKind::Mino1234(p) => p.display_spec(),
            PieceKind::Pentomino(p) => p.display_spec(),
        }
    }

    pub open spec fn asset(self) -> Seq<char> {
        match self {
            PieceKind::TetrominoSrs(p) => p.asset_spec(),
            PieceKind::TetrominoAsc(p) => p.asset_spec(),
            PieceKind::Mino123(p) => p.asset_spec(),
            PieceKind::Mino1234(p) => p.asset_spec(),
            PieceKind::Pentomino(p) => p.asset_spec(),
        }
    }

    /// All kinds of the family this kind belongs to.
    pub open spec fn family(self) -> Seq<PieceKind> {
        match self {
            PieceKind::TetrominoSrs(_) => TetrominoSrs::kinds_spec(),
            PieceKind::TetrominoAsc(_) => TetrominoAsc::kinds_spec(),
            PieceKind::Mino123(_) => Mino123::kinds_spec(),
            PieceKind::Mino1234(_) => Mino1234::kinds_spec(),
            PieceKind::Pentomino(_) => Pentomino::kinds_spec(),
        }
    }

    pub fn spawn_offsets(&self) -> (r: Vec<Coords>)
        ensures
            r@ == self.shape(),
    {
        match self {
            PieceKind::TetrominoSrs(p) => p.spawn_offsets(),
            PieceKind::TetrominoAsc(p) => p.spawn_offsets(),
            PieceKind::Mino123(p) => p.spawn_offsets(),
            PieceKind::Mino1234(p) => p.spawn_offsets(),
            PieceKind::Pentomino(p) => p.spawn_offsets(),
        }
    }

    /// Index of the pivot square and offset of the pivot in half squares.
    pub fn pivot_offset(&self, rotation_state: RotationState) -> (r: (usize, Coords))
        ensures
            r.0 == self.pivot(rotation_state).0,
            r.1 == self.pivot(rotation_state).1,
    {
        match self {
            PieceKind::TetrominoSrs(p) => p.pivot_offset(rotation_state),
            PieceKind::TetrominoAsc(p) => p.pivot_offset(rotation_state),
            PieceKind::Mino123(p) => p.pivot_offset(rotation_state),
            PieceKind::Mino1234(p) => p.pivot_offset(rotation_state),
            PieceKind::Pentomino(p) => p.pivot_offset(rotation_state),
        }
    }

    pub fn display_name(&self) -> (r: &'static str)
        ensures
            r@ == self.display(),
    {
        match self {
            PieceKind::TetrominoSrs(p) => p.display_name(),
            PieceKind::TetrominoAsc(p) => p.display_name(),
            PieceKind::Mino123(p) => p.display_name(),
            PieceKind::Mino1234(p) => p.display_name(),
            PieceKind::Pentomino(p) => p.display_name(),
        }
    }

    pub fn asset_name(&self) -> (r: &'static str)
        ensures
            r@ == self.asset(),
    {
        match self {
            PieceKind::TetrominoSrs(p) => p.asset_name(),
            PieceKind::TetrominoAsc(p) => p.asset_name(),
            PieceKind::Mino123(p) => p.asset_name(),
            PieceKind::Mino1234(p) => p.asset_name(),
            PieceKind::Pentomino(p) => p.asset_name(),
        }
    }

    /// All piece kinds of this kind's family.
    pub fn iter(&self) -> (r: Vec<PieceKind>)
        ensures
            r@ == self.family(),
    {
        match self {
            PieceKind::TetrominoSrs(_) => TetrominoSrs::iter(),
            PieceKind::TetrominoAsc(_) => TetrominoAsc::iter(),
            PieceKind::Mino123(_) => Mino123::iter(),
            PieceKind::Mino1234(_) => Mino1234::iter(),
            PieceKind::Pentomino(_) => Pentomino::iter(),
        }
    }

    /// Number of piece kinds in this kind's family.
    pub fn n_kinds(&self) -> (r: usize)
        ensures
            r == self.family().len(),
    {
        match self {
            PieceKind::TetrominoSrs(_) => TetrominoSrs::n_kinds(),
            PieceKind::TetrominoAsc(_) => TetrominoAsc::n_kinds(),
            PieceKind::Mino123(_) => Mino123::n_kinds(),
            PieceKind::Mino1234(_) => Mino1234::n_kinds(),
            PieceKind::Pentomino(_) => Pentomino::n_kinds(),
        }
    }
}

/// The offset `(rows, cols)` (given for the spawn orientation) turned to the
/// given rotation state.
pub open spec fn turned_offset(rotation_state: RotationState, rows: i32, cols: i32) -> Coords {
    match rotation_state {
        RotationState::Initial => Coords(rows, cols),
        RotationState::Cw => Coords(rows, (-cols) as i32),
        RotationState::Flipped => Coords((-rows) as i32, (-cols) as i32),
        RotationState::Ccw => Coords((-rows) as i32, cols),
    }
}

/// Pivot offset for the given rotation state from the offset of the spawn
/// orientation, in half squares.
fn make_pivot_offset(rotation_state: RotationState, rows: i32, cols: i32) -> (r: Coords)
    requires
        rows != i32::MIN,
        cols != i32::MIN,
    ensures
        r == turned_offset(rotation_state, rows, cols),
{
    match rotation_state {
        RotationState::Initial => Coords(rows, cols),
        RotationState::Cw => Coords(rows, -cols),
        RotationState::Flipped => Coords(-rows, -cols),
        RotationState::Ccw => Coords(-rows, cols),
    }
}

/// An offset turned a clockwise quarter turn: `(row, col)` becomes `(col, -row)`.
pub open spec fn quarter_turn(o: Coords) -> (int, int) {
    (o.1 as int, -(o.0 as int))
}

/// The pivot of every piece kind stays in place while the piece turns: the
/// pivot square keeps its index, and the pivot offset turns with the piece.
/// The pivot index always names a square of the piece, and the offset is at
/// most one square in each direction with components of the same parity.
pub proof fn lemma_pivot_turns_with_piece(kind: PieceKind, rotation_state: RotationState)
    ensures
        ({
            let p = kind.pivot(rotation_state);
            let q = kind.pivot(RotationState::from_quarter_turns(rotation_state.quarter_turns() + 1));
            &&& q.0 == p.0
            &&& q.1 == to_coords(quarter_turn(p.1))
            &&& 0 <= p.0 < kind.shape().len()
            &&& -2 <= p.1.0 <= 2
            &&& -2 <= p.1.1 <= 2
            &&& (p.1.0 - p.1.1) % 2 == 0
        }),
{
    match kind {
        PieceKind::Mino1234(Mino1234::Mino123(_)) => {},
        PieceKind::Mino1234(Mino1234::TetrominoSrs(_)) => {},
        _ => {},
    }
}

/// Every offset of the shape is at most two squares from the spawn coordinates.
pub open spec fn small_shape(shape: Seq<Coords>) -> bool {
    forall|i: int|
        0 <= i < shape.len() ==> -2 <= #[trigger] shape[i].0 <= 2 && -2 <= shape[i].1 <= 2
}

/// Every piece has at least one square and at most five, each within two
/// squares of the spawn coordinates.
pub proof fn lemma_shape_small(kind: PieceKind)
    ensures
        small_shape(kind.shape()),
        1 <= kind.shape().len() <= 5,
{
    match kind {
        PieceKind::Mino1234(Mino1234::Mino123(_)) => {},
        PieceKind::Mino1234(Mino1234::TetrominoSrs(_)) => {},
        _ => {},
    }
}

} // verus!
