use tetrox::kicks::{AscKickTable, BasicKickTable, KickTable, KickTable180, RotationState, SrsKickTable, TetrIo180KickTable};
use tetrox::pieces::mino123::Mino123;
use tetrox::pieces::tetromino::TetrominoSrs;
use tetrox::pieces::PieceKind;
use tetrox::Coords;

fn c(list: &[(i32, i32)]) -> Vec<Coords> {
    list.iter().map(|&(r, col)| Coords(r, col)).collect()
}

#[test]
fn rotation_states_cycle() {
    assert_eq!(RotationState::Initial.next_cw(), RotationState::Cw);
    assert_eq!(RotationState::Ccw.next_cw(), RotationState::Initial);
    assert_eq!(RotationState::Initial.next_ccw(), RotationState::Ccw);
    assert_eq!(RotationState::Flipped.next_ccw(), RotationState::Cw);
    assert_eq!(RotationState::Flipped.to_index(), 2);
    assert_eq!(RotationState::from_index(5), RotationState::Cw);
    for i in 0..4 {
        let s = RotationState::from_index(i);
        assert_eq!(s.next_cw().next_ccw(), s);
        assert_eq!(s.next_cw().next_cw().next_cw().next_cw(), s);
    }
}

#[test]
fn srs_kicks() {
    let t = PieceKind::TetrominoSrs(TetrominoSrs::T);
    let i = PieceKind::TetrominoSrs(TetrominoSrs::I);
    let o = PieceKind::TetrominoSrs(TetrominoSrs::O);
    assert_eq!(
        SrsKickTable.rotate_cw(t, RotationState::Initial),
        c(&[(0, 0), (0, -1), (-1, -1), (2, 0), (2, -1)])
    );
    assert_eq!(
        SrsKickTable.rotate_cw(i, RotationState::Flipped),
        c(&[(0, 0), (0, 2), (0, -1), (-1, 2), (2, -1)])
    );
    assert_eq!(SrsKickTable.rotate_cw(o, RotationState::Cw), vec![]);
    assert_eq!(SrsKickTable.rotate_ccw(o, RotationState::Cw), vec![]);
    // counterclockwise from Cw: the clockwise kicks from Initial, negated
    assert_eq!(
        SrsKickTable.rotate_ccw(t, RotationState::Cw),
        c(&[(0, 0), (0, 1), (1, 1), (-2, 0), (-2, 1)])
    );
    assert_eq!(
        SrsKickTable.rotate_ccw(i, RotationState::Initial),
        c(&[(0, 0), (0, -1), (0, 2), (-2, -1), (1, 2)])
    );
    let domino = PieceKind::Mino123(Mino123::Domino);
    assert_eq!(SrsKickTable.rotate_cw(domino, RotationState::Ccw), c(&[(0, 0)]));
    assert_eq!(SrsKickTable.rotate_ccw(domino, RotationState::Ccw), c(&[(0, 0)]));
}

#[test]
fn basic_and_tetrio_kicks() {
    let t = PieceKind::TetrominoSrs(TetrominoSrs::T);
    let basic = c(&[(0, 0), (0, -1), (0, 1), (-1, 0)]);
    assert_eq!(BasicKickTable.rotate_cw(t, RotationState::Cw), basic);
    assert_eq!(BasicKickTable.rotate_ccw(t, RotationState::Cw), basic);
    assert_eq!(BasicKickTable.rotate_180(t, RotationState::Cw), basic);
    assert_eq!(
        TetrIo180KickTable.rotate_180(t, RotationState::Ccw),
        c(&[(0, 0), (0, -1), (-2, -1), (-1, -1), (-2, 0), (-1, 0)])
    );
    assert_eq!(
        TetrIo180KickTable.rotate_180(t, RotationState::Initial),
        c(&[(0, 0), (-1, 0), (-1, 1), (-1, -1), (0, 1), (0, -1)])
    );
}

#[test]
fn asc_kicks_mirror() {
    let t = PieceKind::TetrominoSrs(TetrominoSrs::T);
    let ccw = AscKickTable.rotate_ccw(t, RotationState::Initial);
    let cw = AscKickTable.rotate_cw(t, RotationState::Flipped);
    assert_eq!(ccw.len(), 22);
    assert_eq!(&ccw[..4], &c(&[(0, 0), (0, 1), (1, 0), (1, 1)])[..]);
    assert_eq!(ccw[21], Coords(-1, -1));
    assert_eq!(cw.len(), 22);
    for (a, b) in ccw.iter().zip(cw.iter()) {
        assert_eq!(Coords(a.0, -a.1), *b);
    }
}

#[test]
fn every_table_tries_plain_rotation_first() {
    for i in 0..4 {
        let s = RotationState::from_index(i);
        let l = PieceKind::TetrominoSrs(TetrominoSrs::L);
        assert_eq!(SrsKickTable.rotate_cw(l, s)[0], Coords(0, 0));
        assert_eq!(SrsKickTable.rotate_ccw(l, s)[0], Coords(0, 0));
        assert_eq!(TetrIo180KickTable.rotate_180(l, s)[0], Coords(0, 0));
        assert_eq!(AscKickTable.rotate_cw(l, s)[0], Coords(0, 0));
    }
}
