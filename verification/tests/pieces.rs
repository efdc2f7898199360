use tetrox::kicks::RotationState;
use tetrox::pieces::mino123::Mino123;
use tetrox::pieces::mino1234::Mino1234;
use tetrox::pieces::pentomino::Pentomino;
use tetrox::pieces::tetromino::{TetrominoAsc, TetrominoSrs};
use tetrox::pieces::{PieceKind, PieceKindTrait};
use tetrox::Coords;

#[test]
fn t_tetromino_spawn_offsets() {
    assert_eq!(
        TetrominoSrs::T.spawn_offsets(),
        vec![Coords(0, -1), Coords(0, 0), Coords(0, 1), Coords(-1, 0)]
    );
    assert_eq!(
        PieceKind::TetrominoSrs(TetrominoSrs::I).spawn_offsets(),
        vec![Coords(0, -1), Coords(0, 0), Coords(0, 1), Coords(0, 2)]
    );
}

#[test]
fn asc_tetrominoes_share_srs_shapes() {
    assert_eq!(TetrominoAsc::S.spawn_offsets(), TetrominoSrs::S.spawn_offsets());
    assert_eq!(TetrominoAsc::L.to_srs(), TetrominoSrs::L);
}

#[test]
fn pivot_offsets_in_half_squares() {
    assert_eq!(TetrominoSrs::I.pivot_offset(RotationState::Initial), (1, Coords(1, 1)));
    assert_eq!(TetrominoSrs::I.pivot_offset(RotationState::Cw), (1, Coords(1, -1)));
    assert_eq!(TetrominoSrs::O.pivot_offset(RotationState::Flipped), (2, Coords(-1, -1)));
    assert_eq!(TetrominoSrs::Z.pivot_offset(RotationState::Ccw), (0, Coords(0, 0)));
    assert_eq!(TetrominoAsc::O.pivot_offset(RotationState::Cw), (0, Coords(0, 0)));
    assert_eq!(TetrominoAsc::I.pivot_offset(RotationState::Cw), (1, Coords(0, 0)));
    assert_eq!(Mino123::Domino.pivot_offset(RotationState::Cw), (0, Coords(1, -1)));
    assert_eq!(Mino123::Domino.pivot_offset(RotationState::Ccw), (0, Coords(-1, 1)));
    assert_eq!(
        PieceKind::Pentomino(Pentomino::V).pivot_offset(RotationState::Cw),
        (2, Coords(-2, 2))
    );
    assert_eq!(Pentomino::N.pivot_offset(RotationState::Initial), (0, Coords(0, 0)));
}

#[test]
fn names() {
    assert_eq!(Pentomino::Zeta.display_name(), "ζ");
    assert_eq!(Pentomino::Lambda.display_name(), "λ");
    assert_eq!(Pentomino::X.asset_name(), "o");
    assert_eq!(Mino123::LTromino.display_name(), "l3");
    assert_eq!(Mino123::Domino.asset_name(), "s");
    assert_eq!(PieceKind::Mino1234(Mino1234::Mino123(Mino123::ITromino)).display_name(), "i3");
    assert_eq!(PieceKind::TetrominoAsc(TetrominoAsc::J).asset_name(), "j");
}

#[test]
fn families() {
    assert_eq!(TetrominoSrs::n_kinds(), 7);
    assert_eq!(Pentomino::n_kinds(), 18);
    assert_eq!(Mino123::n_kinds(), 4);
    assert_eq!(Mino1234::n_kinds(), 11);
    let kinds = Mino1234::iter();
    assert_eq!(kinds.len(), 11);
    assert_eq!(kinds[0], PieceKind::Mino123(Mino123::Monomino));
    assert_eq!(kinds[4], PieceKind::TetrominoSrs(TetrominoSrs::S));
    let kind = PieceKind::Pentomino(Pentomino::W);
    assert_eq!(kind.n_kinds(), 18);
    assert_eq!(kind.iter()[17], PieceKind::Pentomino(Pentomino::Z));
    assert_eq!(
        PieceKind::TetrominoAsc(TetrominoAsc::T).iter(),
        TetrominoAsc::iter()
    );
}

#[test]
fn pentomino_shapes_have_five_squares() {
    for kind in Pentomino::iter() {
        assert_eq!(kind.spawn_offsets().len(), 5);
    }
}

#[test]
fn coords_arithmetic() {
    assert_eq!(Coords(1, 2).add(Coords(3, -4)), Coords(4, -2));
    assert_eq!(Coords(1, 2).sub(Coords(3, -4)), Coords(-2, 6));
    assert_eq!(Coords(1, -2).neg(), Coords(-1, 2));
}
