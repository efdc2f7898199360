//! Pentominoes.

use vstd::prelude::*;

use super::{PieceKind, PieceKindTrait};
use crate::kicks::RotationState;
use crate::Coords;
use super::turned_offset;

verus! {

/// The eighteen one-sided pentominoes.
#[derive(Copy, Clone, Debug, PartialEq, Eq, Hash, Structural)]
pub enum Pentomino {
    I,
    F,
    R,
    J,
    L,
    Q,
    P,
    N,
    Zeta,
    T,
    U,
    V,
    W,
    X,
    Y,
    Lambda,
    S,
    Z,
}

impl PieceKindTrait for Pentomino {
    open spec fn spawn_shape(&self) -> Seq<Coords> {
        match self {
            Pentomino::I => seq![Coords(0, -2i32), Coords(0, -1i32), Coords(0, 0), Coords(0, 1), Coords(0, 2)],
            Pentomino::F => seq![Coords(0, 0), Coords(-1i32, -1i32), Coords(-1i32, 0), Coords(-1i32, 1), Coords(-2i32, -1i32)],
            Pentomino::R => seq![Coords(0, 0), Coords(-1i32, -1i32), Coords(-1i32, 0), Coords(-1i32, 1), Coords(-2i32, 1)],
            Pentomino::J => seq![Coords(0, -1i32), Coords(0, 0), Coords(0, 1), Coords(0, 2), Coords(-1i32, -1i32)],
            Pentomino::L => seq![Coords(0, -1i32), Coords(0, 0), Coords(0, 1), Coords(0, 2), Coords(-1i32, 2)],
            Pentomino::Q => seq![Coords(0, -1i32), Coords(0, 0), Coords(0, 1), Coords(-1i32, 0), Coords(-1i32, 1)],
            Pentomino::P => seq![Coords(0, -1i32), Coords(0, 0), Coords(0, 1), Coords(-1i32, -1i32), Coords(-1i32, 0)],
            Pentomino::N => seq![Coords(0, 0), Coords(0, 1), Coords(0, 2), Coords(-1i32, -1i32), Coords(-1i32, 0)],
            Pentomino::Zeta => seq![Coords(0, -1i32), Coords(0, 0), Coords(0, 1), Coords(-1i32, 1), Coords(-1i32, 2)],
            Pentomino::T => seq![Coords(0, -1i32), Coords(0, 0), Coords(0, 1), Coords(-1i32, 0), Coords(-2i32, 0)],
            Pentomino::U => seq![Coords(0, -1i32), Coords(0, 0), Coords(0, 1), Coords(-1i32, -1i32), Coords(-1i32, 1)],
            Pentomino::V => seq![Coords(0, -1i32), Coords(0, 0), Coords(0, 1), Coords(-1i32, 1), Coords(-2i32, 1)],
            Pentomino::W => seq![Coords(0, -1i32), Coords(0, 0), Coords(-1i32, 0), Coords(-1i32, 1), Coords(-2i32, 1)],
            Pentomino::X => seq![Coords(0, 0), Coords(-1i32, -1i32), Coords(-1i32, 0), Coords(-1i32, 1), Coords(-2i32, 0)],
            Pentomino::Y => seq![Coords(0, -1i32), Coords(0, 0), Coords(0, 1), Coords(0, 2), Coords(-1i32, 1)],
            Pentomino::Lambda => seq![Coords(0, -1i32), Coords(0, 0), Coords(0, 1), Coords(0, 2), Coords(-1i32, 0)],
            Pentomino::S => seq![Coords(0, 1), Coords(-1i32, -1i32), Coords(-1i32, 0), Coords(-1i32, 1), Coords(-2i32, -1i32)],
            Pentomino::Z => seq![Coords(0, -1i32), Coords(-1i32, -1i32), Coords(-1i32, 0), Coords(-1i32, 1), Coords(-2i32, 1)],
        }
    }

    open spec fn pivot_spec(&self, rotation_state: RotationState) -> (int, Coords) {
        match self {
            Pentomino::N => (0, Coords(0, 0)),
            Pentomino::J
            | Pentomino::Q
            | Pentomino::P
            | Pentomino::Zeta
            | Pentomino::T
            | Pentomino::U
            | Pentomino::Lambda => (1, Coords(0, 0)),
            Pentomino::V => (2, turned_offset(rotation_state, -2i32, -2i32)),
            _ => (2, Coords(0, 0)),
        }
    }

    open spec fn display_spec(&self) -> Seq<char> {
        match self {
            Pentomino::I => "i"@,
            Pentomino::F => "f"@,
            Pentomino::R => "r"@,
            Pentomino::J => "j"@,
            Pentomino::L => "l"@,
            Pentomino::Q => "q"@,
            Pentomino::P => "p"@,
            Pentomino::N => "n"@,
            Pentomino::Zeta => "ζ"@,
            Pentomino::T => "t"@,
            Pentomino::U => "u"@,
            Pentomino::V => "v"@,
            Pentomino::W => "w"@,
            Pentomino::X => "x"@,
            Pentomino::Y => "y"@,
            Pentomino::Lambda => "λ"@,
            Pentomino::S => "s"@,
            Pentomino::Z => "z"@,
        }
    }

    open spec fn asset_spec(&self) -> Seq<char> {
        match self {
            Pentomino::I => "i"@,
            Pentomino::F => "j"@,
            Pentomino::R => "l"@,
            Pentomino::J => "j"@,
            Pentomino::L => "l"@,
            Pentomino::Q => "s"@,
            Pentomino::P => "z"@,
            Pentomino::N => "j"@,
            Pentomino::Zeta => "l"@,
            Pentomino::T => "t"@,
            Pentomino::U => "i"@,
            Pentomino::V => "j"@,
            Pentomino::W => "t"@,
            Pentomino::X => "o"@,
            Pentomino::Y => "l"@,
            Pentomino::Lambda => "j"@,
            Pentomino::S => "s"@,
            Pentomino::Z => "z"@,
        }
    }

    open spec fn kinds_spec() -> Seq<PieceKind> {
        seq![PieceKind::Pentomino(Pentomino::I), PieceKind::Pentomino(Pentomino::F), PieceKind::Pentomino(Pentomino::R), PieceKind::Pentomino(Pentomino::J), PieceKind::Pentomino(Pentomino::L), PieceKind::Pentomino(Pentomino::Q), PieceKind::Pentomino(Pentomino::P), PieceKind::Pentomino(Pentomino::N), PieceKind::Pentomino(Pentomino::Zeta), PieceKind::Pentomino(Pentomino::T), PieceKind::Pentomino(Pentomino::U), PieceKind::Pentomino(Pentomino::V), PieceKind::Pentomino(Pentomino::W), PieceKind::Pentomino(Pentomino::X), PieceKind::Pentomino(Pentomino::Y), PieceKind::Pentomino(Pentomino::Lambda), PieceKind::Pentomino(Pentomino::S), PieceKind::Pentomino(Pentomino::Z)]
    }

    fn spawn_offsets(&self) -> (r: Vec<Coords>) {
        match self {
            Pentomino::I => vec![Coords(0, -2), Coords(0, -1), Coords(0, 0), Coords(0, 1), Coords(0, 2)],
            Pentomino::F => vec![Coords(0, 0), Coords(-1, -1), Coords(-1, 0), Coords(-1, 1), Coords(-2, -1)],
            Pentomino::R => vec![Coords(0, 0), Coords(-1, -1), Coords(-1, 0), Coords(-1, 1), Coords(-2, 1)],
            Pentomino::J => vec![Coords(0, -1), Coords(0, 0), Coords(0, 1), Coords(0, 2), Coords(-1, -1)],
            Pentomino::L => vec![Coords(0, -1), Coords(0, 0), Coords(0, 1), Coords(0, 2), Coords(-1, 2)],
            Pentomino::Q => vec![Coords(0, -1), Coords(0, 0), Coords(0, 1), Coords(-1, 0), Coords(-1, 1)],
            Pentomino::P => vec![Coords(0, -1), Coords(0, 0), Coords(0, 1), Coords(-1, -1), Coords(-1, 0)],
            Pentomino::N => vec![Coords(0, 0), Coords(0, 1), Coords(0, 2), Coords(-1, -1), Coords(-1, 0)],
            Pentomino::Zeta => vec![Coords(0, -1), Coords(0, 0), Coords(0, 1), Coords(-1, 1), Coords(-1, 2)],
            Pentomino::T => vec![Coords(0, -1), Coords(0, 0), Coords(0, 1), Coords(-1, 0), Coords(-2, 0)],
            Pentomino::U => vec![Coords(0, -1), Coords(0, 0), Coords(0, 1), Coords(-1, -1), Coords(-1, 1)],
            Pentomino::V => vec![Coords(0, -1), Coords(0, 0), Coords(0, 1), Coords(-1, 1), Coords(-2, 1)],
            Pentomino::W => vec![Coords(0, -1), Coords(0, 0), Coords(-1, 0), Coords(-1, 1), Coords(-2, 1)],
            Pentomino::X => vec![Coords(0, 0), Coords(-1, -1), Coords(-1, 0), Coords(-1, 1), Coords(-2, 0)],
            Pentomino::Y => vec![Coords(0, -1), Coords(0, 0), Coords(0, 1), Coords(0, 2), Coords(-1, 1)],
            Pentomino::Lambda => vec![Coords(0, -1), Coords(0, 0), Coords(0, 1), Coords(0, 2), Coords(-1, 0)],
            Pentomino::S => vec![Coords(0, 1), Coords(-1, -1), Coords(-1, 0), Coords(-1, 1), Coords(-2, -1)],
            Pentomino::Z => vec![Coords(0, -1), Coords(-1, -1), Coords(-1, 0), Coords(-1, 1), Coords(-2, 1)],
        }
    }

    fn pivot_offset(&self, rotation_state: RotationState) -> (r: (usize, Coords)) {
        match self {
            Pentomino::N => (0, Coords(0, 0)),
            Pentomino::J
            | Pentomino::Q
            | Pentomino::P
            | Pentomino::Zeta
            | Pentomino::T
            | Pentomino::U
            | Pentomino::Lambda => (1, Coords(0, 0)),
            Pentomino::I
            | Pentomino::F
            | Pentomino::R
            | Pentomino::L
            | Pentomino::W
            | Pentomino::X
            | Pentomino::Y
            | Pentomino::S
            | Pentomino::Z => (2, Coords(0, 0)),
            Pentomino::V => (
                2,
                match rotation_state {
                    RotationState::Initial => Coords(-2, -2),
                    RotationState::Cw => Coords(-2, 2),
                    RotationState::Flipped => Coords(2, 2),
                    RotationState::Ccw => Coords(2, -2),
                },
            ),
        }
    }

    fn display_name(&self) -> (r: &'static str) {
        match self {
            Pentomino::I => "i",
            Pentomino::F => "f",
            Pentomino::R => "r",
            Pentomino::J => "j",
            Pentomino::L => "l",
            Pentomino::Q => "q",
            Pentomino::P => "p",
            Pentomino::N => "n",
            Pentomino::Zeta => "ζ",
            Pentomino::T => "t",
            Pentomino::U => "u",
            Pentomino::V => "v",
            Pentomino::W => "w",
            Pentomino::X => "x",
            Pentomino::Y => "y",
            Pentomino::Lambda => "λ",
            Pentomino::S => "s",
            Pentomino::Z => "z",
        }
    }

    fn asset_name(&self) -> (r: &'static str) {
        match self {
            Pentomino::I => "i",
            Pentomino::F => "j",
            Pentomino::R => "l",
            Pentomino::J => "j",
            Pentomino::L => "l",
            Pentomino::Q => "s",
            Pentomino::P => "z",
            Pentomino::N => "j",
            Pentomino::Zeta => "l",
            Pentomino::T => "t",
            Pentomino::U => "i",
            Pentomino::V => "j",
            Pentomino::W => "t",
            Pentomino::X => "o",
            Pentomino::Y => "l",
            Pentomino::Lambda => "j",
            Pentomino::S => "s",
            Pentomino::Z => "z",
        }
    }

    fn iter() -> (r: Vec<PieceKind>) {
        vec![PieceKind::Pentomino(Pentomino::I), PieceKind::Pentomino(Pentomino::F), PieceKind::Pentomino(Pentomino::R), PieceKind::Pentomino(Pentomino::J), PieceKind::Pentomino(Pentomino::L), PieceKind::Pentomino(Pentomino::Q), PieceKind::Pentomino(Pentomino::P), PieceKind::Pentomino(Pentomino::N), PieceKind::Pentomino(Pentomino::Zeta), PieceKind::Pentomino(Pentomino::T), PieceKind::Pentomino(Pentomino::U), PieceKind::Pentomino(Pentomino::V), PieceKind::Pentomino(Pentomino::W), PieceKind::Pentomino(Pentomino::X), PieceKind::Pentomino(Pentomino::Y), PieceKind::Pentomino(Pentomino::Lambda), PieceKind::Pentomino(Pentomino::S), PieceKind::Pentomino(Pentomino::Z)]
    }

    fn n_kinds() -> (r: usize) {
        18
    }
}

} // verus!
