//! Tetrominoes, for the Super Rotation System (SRS) and the ASC rotation system.

use vstd::prelude::*;

use super::{PieceKind, PieceKindTrait};
use crate::kicks::RotationState;
use crate::Coords;

verus! {

/// Tetrominoes that rotate as in the Super Rotation System.
#[derive(Copy, Clone, Debug, PartialEq, Eq, Hash, Structural)]
pub enum TetrominoSrs {
    S,
    Z,
    L,
    J,
    T,
    O,
    I,
}

/// Pivot offset (in half squares) of the SRS I tetromino: the corner between
/// its second and third squares.
pub open spec fn i_pivot(rotation_state: RotationState) -> Coords {
    match rotation_state {
        RotationState::Initial => Coords(1, 1),
        RotationState::Cw => Coords(1, -1i32),
        RotationState::Flipped => Coords(-1i32, -1i32),
        RotationState::Ccw => Coords(-1i32, 1),
    }
}

/// Pivot offset (in half squares) of the SRS I tetromino, which the O tetromino shares.
fn i_pivot_offset(rotation_state: RotationState) -> (r: Coords)
    ensures
        r == i_pivot(rotation_state),
{
    match rotation_state {
        RotationState::Initial => Coords(1, 1),
        RotationState::Cw => Coords(1, -1),
        RotationState::Flipped => Coords(-1, -1),
        RotationState::Ccw => Coords(-1, 1),
    }
}

impl PieceKindTrait for TetrominoSrs {
    open spec fn spawn_shape(&self) -> Seq<Coords> {
        match self {
            TetrominoSrs::S => seq![Coords(0, -1i32), Coords(0, 0), Coords(-1i32, 0), Coords(-1i32, 1)],
            TetrominoSrs::Z => seq![Coords(0, 0), Coords(0, 1), Coords(-1i32, -1i32), Coords(-1i32, 0)],
            TetrominoSrs::L => seq![Coords(0, -1i32), Coords(0, 0), Coords(0, 1), Coords(-1i32, 1)],
            TetrominoSrs::J => seq![Coords(0, -1i32), Coords(0, 0), Coords(0, 1), Coords(-1i32, -1i32)],
            TetrominoSrs::T => seq![Coords(0, -1i32), Coords(0, 0), Coords(0, 1), Coords(-1i32, 0)],
            TetrominoSrs::O => seq![Coords(0, 0), Coords(0, 1), Coords(-1i32, 0), Coords(-1i32, 1)],
            TetrominoSrs::I => seq![Coords(0, -1i32), Coords(0, 0), Coords(0, 1), Coords(0, 2)],
        }
    }

    open spec fn pivot_spec(&self, rotation_state: RotationState) -> (int, Coords) {
        match self {
            TetrominoSrs::S => (1, Coords(0, 0)),
            TetrominoSrs::Z => (0, Coords(0, 0)),
            TetrominoSrs::L => (1, Coords(0, 0)),
            TetrominoSrs::J => (1, Coords(0, 0)),
            TetrominoSrs::T => (1, Coords(0, 0)),
            TetrominoSrs::O => (2, i_pivot(rotation_state)),
            TetrominoSrs::I => (1, i_pivot(rotation_state)),
        }
    }

    open spec fn display_spec(&self) -> Seq<char> {
        match self {
            TetrominoSrs::S => "s"@,
            TetrominoSrs::Z => "z"@,
            TetrominoSrs::L => "l"@,
            TetrominoSrs::J => "j"@,
            TetrominoSrs::T => "t"@,
            TetrominoSrs::O => "o"@,
            TetrominoSrs::I => "i"@,
        }
    }

    open spec fn asset_spec(&self) -> Seq<char> {
        match self {
            TetrominoSrs::S => "s"@,
            TetrominoSrs::Z => "z"@,
            TetrominoSrs::L => "l"@,
            TetrominoSrs::J => "j"@,
            TetrominoSrs::T => "t"@,
            TetrominoSrs::O => "o"@,
            TetrominoSrs::I => "i"@,
        }
    }

    open spec fn kinds_spec() -> Seq<PieceKind> {
        seq![PieceKind::TetrominoSrs(TetrominoSrs::S), PieceKind::TetrominoSrs(TetrominoSrs::Z), PieceKind::TetrominoSrs(TetrominoSrs::L), PieceKind::TetrominoSrs(TetrominoSrs::J), PieceKind::TetrominoSrs(TetrominoSrs::T), PieceKind::TetrominoSrs(TetrominoSrs::O), PieceKind::TetrominoSrs(TetrominoSrs::I)]
    }

    fn spawn_offsets(&self) -> (r: Vec<Coords>) {
        match self {
            TetrominoSrs::S => vec![Coords(0, -1), Coords(0, 0), Coords(-1, 0), Coords(-1, 1)],
            TetrominoSrs::Z => vec![Coords(0, 0), Coords(0, 1), Coords(-1, -1), Coords(-1, 0)],
            TetrominoSrs::L => vec![Coords(0, -1), Coords(0, 0), Coords(0, 1), Coords(-1, 1)],
            TetrominoSrs::J => vec![Coords(0, -1), Coords(0, 0), Coords(0, 1), Coords(-1, -1)],
            TetrominoSrs::T => vec![Coords(0, -1), Coords(0, 0), Coords(0, 1), Coords(-1, 0)],
            TetrominoSrs::O => vec![Coords(0, 0), Coords(0, 1), Coords(-1, 0), Coords(-1, 1)],
            TetrominoSrs::I => vec![Coords(0, -1), Coords(0, 0), Coords(0, 1), Coords(0, 2)],
        }
    }

    fn pivot_offset(&self, rotation_state: RotationState) -> (r: (usize, Coords)) {
        match self {
            TetrominoSrs::S => (1, Coords(0, 0)),
            TetrominoSrs::Z => (0, Coords(0, 0)),
            TetrominoSrs::L => (1, Coords(0, 0)),
            TetrominoSrs::J => (1, Coords(0, 0)),
            TetrominoSrs::T => (1, Coords(0, 0)),
            TetrominoSrs::O => (2, i_pivot_offset(rotation_state)),
            TetrominoSrs::I => (1, i_pivot_offset(rotation_state)),
        }
    }

    fn display_name(&self) -> (r: &'static str) {
        match self {
            TetrominoSrs::S => "s",
            TetrominoSrs::Z => "z",
            TetrominoSrs::L => "l",
            TetrominoSrs::J => "j",
            TetrominoSrs::T => "t",
            TetrominoSrs::O => "o",
            TetrominoSrs::I => "i",
        }
    }

    fn asset_name(&self) -> (r: &'static str) {
        match self {
            TetrominoSrs::S => "s",
            TetrominoSrs::Z => "z",
            TetrominoSrs::L => "l",
            TetrominoSrs::J => "j",
            TetrominoSrs::T => "t",
            TetrominoSrs::O => "o",
            TetrominoSrs::I => "i",
        }
    }

    fn iter() -> (r: Vec<PieceKind>) {
        vec![PieceKind::TetrominoSrs(TetrominoSrs::S), PieceKind::TetrominoSrs(TetrominoSrs::Z), PieceKind::TetrominoSrs(TetrominoSrs::L), PieceKind::TetrominoSrs(TetrominoSrs::J), PieceKind::TetrominoSrs(TetrominoSrs::T), PieceKind::TetrominoSrs(TetrominoSrs::O), PieceKind::TetrominoSrs(TetrominoSrs::I)]
    }

    fn n_kinds() -> (r: usize) {
        7
    }
}


/// Tetrominoes that rotate as in the ASC rotation system.
#[derive(Copy, Clone, Debug, PartialEq, Eq, Hash, Structural)]
pub enum TetrominoAsc {
    S,
    Z,
    L,
    J,
    T,
    O,
    I,
}

impl TetrominoAsc {
    /// The SRS tetromino of the same shape.
    pub open spec fn srs(self) -> TetrominoSrs {
        match self {
            TetrominoAsc::S => TetrominoSrs::S,
            TetrominoAsc::Z => TetrominoSrs::Z,
            TetrominoAsc::L => TetrominoSrs::L,
            TetrominoAsc::J => TetrominoSrs::J,
            TetrominoAsc::T => TetrominoSrs::T,
            TetrominoAsc::O => TetrominoSrs::O,
            TetrominoAsc::I => TetrominoSrs::I,
        }
    }

    /// The SRS tetromino of the same shape.
    pub fn to_srs(&self) -> (r: TetrominoSrs)
        ensures
            r == self.srs(),
    {
        match self {
            TetrominoAsc::S => TetrominoSrs::S,
            TetrominoAsc::Z => TetrominoSrs::Z,
            TetrominoAsc::L => TetrominoSrs::L,
            TetrominoAsc::J => TetrominoSrs::J,
            TetrominoAsc::T => TetrominoSrs::T,
            TetrominoAsc::O => TetrominoSrs::O,
            TetrominoAsc::I => TetrominoSrs::I,
        }
    }
}

impl PieceKindTrait for TetrominoAsc {
    open spec fn spawn_shape(&self) -> Seq<Coords> {
        self.srs().spawn_shape()
    }

    open spec fn pivot_spec(&self, rotation_state: RotationState) -> (int, Coords) {
        match self {
            TetrominoAsc::O => (0, Coords(0, 0)),
            TetrominoAsc::I => (1, Coords(0, 0)),
            _ => self.srs().pivot_spec(rotation_state),
        }
    }

    open spec fn display_spec(&self) -> Seq<char> {
        match self {
            TetrominoAsc::S => "s"@,
            TetrominoAsc::Z => "z"@,
            TetrominoAsc::L => "l"@,
            TetrominoAsc::J => "j"@,
            TetrominoAsc::T => "t"@,
            TetrominoAsc::O => "o"@,
            TetrominoAsc::I => "i"@,
        }
    }

    open spec fn asset_spec(&self) -> Seq<char> {
        match self {
            TetrominoAsc::S => "s"@,
            TetrominoAsc::Z => "z"@,
            TetrominoAsc::L => "l"@,
            TetrominoAsc::J => "j"@,
            TetrominoAsc::T => "t"@,
            TetrominoAsc::O => "o"@,
            TetrominoAsc::I => "i"@,
        }
    }

    open spec fn kinds_spec() -> Seq<PieceKind> {
        seq![PieceKind::TetrominoAsc(TetrominoAsc::S), PieceKind::TetrominoAsc(TetrominoAsc::Z), PieceKind::TetrominoAsc(TetrominoAsc::L), PieceKind::TetrominoAsc(TetrominoAsc::J), PieceKind::TetrominoAsc(TetrominoAsc::T), PieceKind::TetrominoAsc(TetrominoAsc::O), PieceKind::TetrominoAsc(TetrominoAsc::I)]
    }

    fn spawn_offsets(&self) -> (r: Vec<Coords>) {
        self.to_srs().spawn_offsets()
    }

    fn pivot_offset(&self, rotation_state: RotationState) -> (r: (usize, Coords)) {
        match self {
            TetrominoAsc::O => (0, Coords(0, 0)),
            TetrominoAsc::I => (1, Coords(0, 0)),
            _ => self.to_srs().pivot_offset(rotation_state),
        }
    }

    fn display_name(&self) -> (r: &'static str) {
        match self {
            TetrominoAsc::S => "s",
            TetrominoAsc::Z => "z",
            TetrominoAsc::L => "l",
            TetrominoAsc::J => "j",
            TetrominoAsc::T => "t",
            TetrominoAsc::O => "o",
            TetrominoAsc::I => "i",
        }
    }

    fn asset_name(&self) -> (r: &'static str) {
        match self {
            TetrominoAsc::S => "s",
            TetrominoAsc::Z => "z",
            TetrominoAsc::L => "l",
            TetrominoAsc::J => "j",
            TetrominoAsc::T => "t",
            TetrominoAsc::O => "o",
            TetrominoAsc::I => "i",
        }
    }

    fn iter() -> (r: Vec<PieceKind>) {
        vec![PieceKind::TetrominoAsc(TetrominoAsc::S), PieceKind::TetrominoAsc(TetrominoAsc::Z), PieceKind::TetrominoAsc(TetrominoAsc::L), PieceKind::TetrominoAsc(TetrominoAsc::J), PieceKind::TetrominoAsc(TetrominoAsc::T), PieceKind::TetrominoAsc(TetrominoAsc::O), PieceKind::TetrominoAsc(TetrominoAsc::I)]
    }

    fn n_kinds() -> (r: usize) {
        7
    }
}

} // verus!
