use tetrox::config::SpinTypes;
use tetrox::field::DefaultField;
use tetrox::kicks::{RotationState, SrsKickTable};
use tetrox::pieces::mino123::Mino123;
use tetrox::pieces::tetromino::{TetrominoAsc, TetrominoSrs};
use tetrox::pieces::PieceKind;
use tetrox::spins::{ImmobileSpinDetector, NoSpinDetector, SpinDetector, TSpinDetector};
use tetrox::Coords;

const T: PieceKind = PieceKind::TetrominoSrs(TetrominoSrs::T);
const I: PieceKind = PieceKind::TetrominoSrs(TetrominoSrs::I);
const MONO: PieceKind = PieceKind::Mino123(Mino123::Monomino);

fn c(list: &[(i32, i32)]) -> Vec<Coords> {
    list.iter().map(|&(r, col)| Coords(r, col)).collect()
}

/// A field four wide with a monomino on the bottom line and a T rotated
/// into the slot beside it: a mini T-spin.
fn mini_t_spin_field() -> DefaultField {
    let mut field = DefaultField::new_with_kind(4, 5, 3, 1, MONO);
    let clear = field.hard_drop_with(T);
    assert_eq!(clear.n_lines(), 0);
    assert_eq!(*field.cur_piece().coords(), c(&[(1, 0), (1, 1), (1, 2), (0, 1)]));
    assert!(field.try_shift(1, 0));
    assert!(field.try_shift(1, 0));
    assert!(!field.try_shift(1, 0));
    assert!(field.try_rotate_cw(&SrsKickTable));
    field
}

#[test]
fn kicked_rotation_into_a_slot() {
    let field = mini_t_spin_field();
    assert_eq!(*field.cur_piece().coords(), c(&[(2, 0), (3, 0), (4, 0), (3, 1)]));
    assert_eq!(field.cur_piece().rotation_state(), RotationState::Cw);
    assert_eq!(field.last_cur_piece_kick(), Some(Coords(0, -1)));
    assert!(field.last_move_rotated());
}

#[test]
fn three_corner_t_spin_is_mini() {
    let field = mini_t_spin_field();
    assert_eq!(TSpinDetector.detect(&field), (Some(T), true));
    assert_eq!(SpinTypes::TSpins.detect(&field), (Some(T), true));
    assert_eq!(T.detect_spin(&field), (Some(T), true));
    assert_eq!(PieceKind::TetrominoAsc(TetrominoAsc::T).detect_spin(&field), (Some(T), true));
    // other families detect no spins
    assert_eq!(MONO.detect_spin(&field), (None, false));
}

#[test]
fn movable_piece_is_not_immobile() {
    let field = mini_t_spin_field();
    // the T can still move up
    assert_eq!(ImmobileSpinDetector.detect(&field), (None, false));
    assert_eq!(SpinTypes::AllImmobile.detect(&field), (None, false));
    assert_eq!(NoSpinDetector.detect(&field), (None, false));
    assert_eq!(SpinTypes::NoSpins.detect(&field), (None, false));
}

#[test]
fn hard_drop_reports_the_spin() {
    let mut field = mini_t_spin_field();
    let clear = field.hard_drop_with(MONO);
    assert_eq!(clear.n_lines(), 0);
    assert_eq!(clear.spin(), Some(T));
    assert!(clear.is_mini());
}

#[test]
fn no_spin_without_rotation() {
    let mut field = DefaultField::new_with_kind(4, 5, 3, 1, MONO);
    field.hard_drop_with(T);
    assert!(field.try_shift(1, 0));
    assert!(!field.last_move_rotated());
    assert_eq!(TSpinDetector.detect(&field), (None, false));
    let clear = field.hard_drop_with(MONO);
    assert_eq!(clear.spin(), None);
    assert!(!clear.is_mini());
}

#[test]
fn only_t_pieces_t_spin() {
    let mut field = DefaultField::new_with_kind(10, 22, 4, 5, I);
    assert!(field.try_rotate_cw(&SrsKickTable));
    assert_eq!(TSpinDetector.detect(&field), (None, false));
}

#[test]
fn immobile_piece_spins() {
    // a field two wide and two high, all hidden: the origin is the top left
    let mut field = DefaultField::new_with_kind(2, 2, 2, 1, MONO);
    assert!(field.try_shift(0, 1));
    field.hard_drop_with(MONO);
    assert_eq!(field.get_at(&Coords(1, 1)), Some(tetrox::field::Square::Filled(MONO)));
    assert!(field.try_shift(0, 1));
    field.hard_drop_with(MONO);
    assert_eq!(field.get_at(&Coords(0, 1)), Some(tetrox::field::Square::Filled(MONO)));
    // the third monomino is walled in left, right and above
    assert_eq!(*field.cur_piece().coords(), c(&[(0, 0)]));
    assert!(field.try_rotate_cw(&tetrox::kicks::BasicKickTable));
    assert_eq!(*field.cur_piece().coords(), c(&[(0, 0)]));
    assert_eq!(ImmobileSpinDetector.detect(&field), (Some(MONO), false));
    assert_eq!(SpinTypes::AllImmobile.detect(&field), (Some(MONO), false));
    assert_eq!(TSpinDetector.detect(&field), (None, false));
    // the monomino's own family detects no spins when it is dropped
    let clear = field.hard_drop_with(MONO);
    assert_eq!(clear.spin(), None);
}
