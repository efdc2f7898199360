//! Pieces of one to three squares.

use vstd::prelude::*;

use super::{PieceKind, PieceKindTrait};
use crate::kicks::RotationState;
use crate::Coords;
use super::turned_offset;

verus! {

/// The monomino, the domino and the two trominoes.
#[derive(Copy, Clone, Debug, PartialEq, Eq, Hash, Structural)]
pub enum Mino123 {
    Monomino,
    Domino,
    LTromino,
    ITromino,
}

impl PieceKindTrait for Mino123 {
    open spec fn spawn_shape(&self) -> Seq<Coords> {
        match self {
            Mino123::Monomino => seq![Coords(0, 0)],
            Mino123::Domino => seq![Coords(0, 0), Coords(0, 1)],
            Mino123::LTromino => seq![Coords(0, 0), Coords(0, 1), Coords(-1i32, 1)],
            Mino123::ITromino => seq![Coords(0, -1i32), Coords(0, 0), Coords(0, 1)],
        }
    }

    open spec fn pivot_spec(&self, rotation_state: RotationState) -> (int, Coords) {
        match self {
            Mino123::Monomino => (0, Coords(0, 0)),
            Mino123::Domino => (0, turned_offset(rotation_state, 1, 1)),
            _ => (1, Coords(0, 0)),
        }
    }

    open spec fn display_spec(&self) -> Seq<char> {
        match self {
            Mino123::Monomino => "o1"@,
            Mino123::Domino => "i2"@,
            Mino123::LTromino => "l3"@,
            Mino123::ITromino => "i3"@,
        }
    }

    open spec fn asset_spec(&self) -> Seq<char> {
        match self {
            Mino123::Monomino => "o"@,
            Mino123::Domino => "s"@,
            Mino123::LTromino => "l"@,
            Mino123::ITromino => "i"@,
        }
    }

    open spec fn kinds_spec() -> Seq<PieceKind> {
        seq![PieceKind::Mino123(Mino123::Monomino), PieceKind::Mino123(Mino123::Domino), PieceKind::Mino123(Mino123::LTromino), PieceKind::Mino123(Mino123::ITromino)]
    }

    fn spawn_offsets(&self) -> (r: Vec<Coords>) {
        match self {
            Mino123::Monomino => vec![Coords(0, 0)],
            Mino123::Domino => vec![Coords(0, 0), Coords(0, 1)],
            Mino123::LTromino => vec![Coords(0, 0), Coords(0, 1), Coords(-1, 1)],
            Mino123::ITromino => vec![Coords(0, -1), Coords(0, 0), Coords(0, 1)],
        }
    }

    fn pivot_offset(&self, rotation_state: RotationState) -> (r: (usize, Coords)) {
        match self {
            Mino123::Monomino => (0, Coords(0, 0)),
            Mino123::Domino => (0, super::make_pivot_offset(rotation_state, 1, 1)),
            _ => (1, Coords(0, 0)),
        }
    }

    fn display_name(&self) -> (r: &'static str) {
        match self {
            Mino123::Monomino => "o1",
            Mino123::Domino => "i2",
            Mino123::LTromino => "l3",
            Mino123::ITromino => "i3",
        }
    }

    fn asset_name(&self) -> (r: &'static str) {
        match self {
            Mino123::Monomino => "o",
            Mino123::Domino => "s",
            Mino123::LTromino => "l",
            Mino123::ITromino => "i",
        }
    }

    fn iter() -> (r: Vec<PieceKind>) {
        vec![PieceKind::Mino123(Mino123::Monomino), PieceKind::Mino123(Mino123::Domino), PieceKind::Mino123(Mino123::LTromino), PieceKind::Mino123(Mino123::ITromino)]
    }

    fn n_kinds() -> (r: usize) {
        4
    }
}

} // verus!
