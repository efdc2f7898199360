//! Pieces of one to four squares: the minos of one to three squares together
//! with the SRS tetrominoes.

use vstd::prelude::*;

use super::mino123::Mino123;
use super::tetromino::TetrominoSrs;
use super::{PieceKind, PieceKindTrait};
use crate::kicks::RotationState;
use crate::Coords;

verus! {

/// A mino of one to three squares or an SRS tetromino.
#[derive(Copy, Clone, Debug, PartialEq, Eq, Hash, Structural)]
pub enum Mino1234 {
    Mino123(Mino123),
    TetrominoSrs(TetrominoSrs),
}

impl PieceKindTrait for Mino1234 {
    open spec fn spawn_shape(&self) -> Seq<Coords> {
        match self {
            Mino1234::Mino123(p) => p.spawn_shape(),
            Mino1234::TetrominoSrs(p) => p.spawn_shape(),
        }
    }

    open spec fn pivot_spec(&self, rotation_state: RotationState) -> (int, Coords) {
        match self {
            Mino1234::Mino123(p) => p.pivot_spec(rotation_state),
            Mino1234::TetrominoSrs(p) => p.pivot_spec(rotation_state),
        }
    }

    open spec fn display_spec(&self) -> Seq<char> {
        match self {
            Mino1234::Mino123(p) => p.display_spec(),
            Mino1234::TetrominoSrs(p) => p.display_spec(),
        }
    }

    open spec fn asset_spec(&self) -> Seq<char> {
        match self {
            Mino1234::Mino123(p) => p.asset_spec(),
            Mino1234::TetrominoSrs(p) => p.asset_spec(),
        }
    }

    /// The kinds of the one-to-three-square minos followed by the SRS tetrominoes.
    open spec fn kinds_spec() -> Seq<PieceKind> {
        Mino123::kinds_spec() + TetrominoSrs::kinds_spec()
    }

    fn spawn_offsets(&self) -> (r: Vec<Coords>) {
        match self {
            Mino1234::Mino123(p) => p.spawn_offsets(),
            Mino1234::TetrominoSrs(p) => p.spawn_offsets(),
        }
    }

    fn pivot_offset(&self, rotation_state: RotationState) -> (r: (usize, Coords)) {
        match self {
            Mino1234::Mino123(p) => p.pivot_offset(rotation_state),
            Mino1234::TetrominoSrs(p) => p.pivot_offset(rotation_state),
        }
    }

    fn display_name(&self) -> (r: &'static str) {
        match self {
            Mino1234::Mino123(p) => p.display_name(),
            Mino1234::TetrominoSrs(p) => p.display_name(),
        }
    }

    fn asset_name(&self) -> (r: &'static str) {
        match self {
            Mino1234::Mino123(p) => p.asset_name(),
            Mino1234::TetrominoSrs(p) => p.asset_name(),
        }
    }

    fn iter() -> (r: Vec<PieceKind>) {
        let mut kinds = Mino123::iter();
        let mut tetrominoes = TetrominoSrs::iter();
        kinds.append(&mut tetrominoes);
        kinds
    }

    fn n_kinds() -> (r: usize) {
        11
    }
}

} // verus!
