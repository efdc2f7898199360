use tetrox::field::{DefaultField, Line, LineClear, Square};
use tetrox::kicks::{RotationState, SrsKickTable, TetrIo180KickTable};
use tetrox::pieces::mino123::Mino123;
use tetrox::pieces::tetromino::TetrominoSrs;
use tetrox::pieces::PieceKind;
use tetrox::{Coords, SingleBag};

const T: PieceKind = PieceKind::TetrominoSrs(TetrominoSrs::T);
const I: PieceKind = PieceKind::TetrominoSrs(TetrominoSrs::I);
const O: PieceKind = PieceKind::TetrominoSrs(TetrominoSrs::O);
const MONO: PieceKind = PieceKind::Mino123(Mino123::Monomino);

fn c(list: &[(i32, i32)]) -> Vec<Coords> {
    list.iter().map(|&(r, col)| Coords(r, col)).collect()
}

#[test]
fn squares_and_lines() {
    assert!(Square::Empty.is_empty());
    assert!(!Square::Empty.is_filled());
    assert!(Square::Filled(T).is_filled());
    let line = Line::new(3);
    assert_eq!(line.squares(), &[Square::Empty, Square::Empty, Square::Empty]);
    let clear = LineClear::new(2, Some(T), true);
    assert_eq!(clear.n_lines(), 2);
    assert_eq!(clear.spin(), Some(T));
    assert!(clear.is_mini());
}

#[test]
fn new_field_spawns_piece_at_origin() {
    let field = DefaultField::new_with_kind(10, 22, 4, 5, T);
    assert_eq!(field.width(), 10);
    assert_eq!(field.height(), 22);
    assert_eq!(field.hidden(), 4);
    assert_eq!(field.queue_len(), 5);
    assert_eq!(field.lines().len(), 22);
    assert_eq!(field.cur_piece().kind(), T);
    assert_eq!(field.cur_piece().rotation_state(), RotationState::Initial);
    assert_eq!(*field.cur_piece().coords(), c(&[(2, 3), (2, 4), (2, 5), (1, 4)]));
    assert_eq!(field.get_at(&Coords(2, 4)), Some(Square::Filled(T)));
    assert_eq!(field.get_at(&Coords(0, 0)), Some(Square::Empty));
    assert_eq!(field.get_at(&Coords(-1, 0)), None);
    assert_eq!(field.get_at(&Coords(22, 0)), None);
    assert_eq!(field.get_at(&Coords(0, 10)), None);
    assert!(field.coords_in_bounds(&Coords(21, 9)));
    assert!(!field.coords_in_bounds(&Coords(21, 10)));
    assert_eq!(field.hold_piece(), None);
    assert_eq!(field.actions_since_lock_delay(), None);
    assert_eq!(field.last_cur_piece_kick(), None);
    assert!(!field.last_move_rotated());
}

#[test]
fn new_field_from_bag() {
    let mut bag = SingleBag::new(vec![O]);
    let mut field = DefaultField::new(10, 20, 4, 3, &mut bag);
    assert_eq!(field.cur_piece().kind(), O);
    assert_eq!(*field.cur_piece().coords(), c(&[(2, 4), (2, 5), (1, 4), (1, 5)]));
    assert!(field.is_empty());
    assert_eq!(field.get_at(&Coords(1, 5)), Some(Square::Filled(O)));
}

#[test]
fn shifting_stops_at_walls() {
    let mut field = DefaultField::new_with_kind(10, 22, 4, 5, T);
    assert!(field.try_shift(0, -1));
    assert_eq!(*field.cur_piece().coords(), c(&[(2, 2), (2, 3), (2, 4), (1, 3)]));
    assert_eq!(field.get_at(&Coords(2, 5)), Some(Square::Empty));
    assert_eq!(field.get_at(&Coords(2, 2)), Some(Square::Filled(T)));
    let mut moves = 1;
    while field.try_shift(0, -1) {
        moves += 1;
    }
    assert_eq!(moves, 3);
    assert_eq!(*field.cur_piece().coords(), c(&[(2, 0), (2, 1), (2, 2), (1, 1)]));
    assert!(!field.try_shift(0, -1));
    assert_eq!(*field.cur_piece().coords(), c(&[(2, 0), (2, 1), (2, 2), (1, 1)]));
}

#[test]
fn shift_and_back_restores_field() {
    let mut field = DefaultField::new_with_kind(10, 22, 4, 5, T);
    let before: Vec<Vec<Square>> = field.lines().iter().map(|l| l.squares().to_vec()).collect();
    assert!(field.try_shift(3, 2));
    assert!(field.try_shift(-3, -2));
    let after: Vec<Vec<Square>> = field.lines().iter().map(|l| l.squares().to_vec()).collect();
    assert_eq!(before, after);
    assert_eq!(*field.cur_piece().coords(), c(&[(2, 3), (2, 4), (2, 5), (1, 4)]));
}

#[test]
fn shadow_and_hard_drop() {
    let mut field = DefaultField::new_with_kind(10, 22, 4, 5, T);
    assert!(!field.cur_piece_cannot_move_down());
    assert_eq!(*field.shadow_piece().coords(), c(&[(21, 3), (21, 4), (21, 5), (20, 4)]));
    let clear = field.hard_drop_with(I);
    assert_eq!(clear.n_lines(), 0);
    assert_eq!(clear.spin(), None);
    assert!(!clear.is_mini());
    assert_eq!(field.get_at(&Coords(21, 4)), Some(Square::Filled(T)));
    assert_eq!(field.get_at(&Coords(20, 4)), Some(Square::Filled(T)));
    assert_eq!(field.cur_piece().kind(), I);
    assert_eq!(*field.cur_piece().coords(), c(&[(2, 3), (2, 4), (2, 5), (2, 6)]));
    assert!(!field.is_empty());
    // the I lands on the T
    assert_eq!(*field.shadow_piece().coords(), c(&[(19, 3), (19, 4), (19, 5), (19, 6)]));
}

#[test]
fn project_down_moves_piece_to_shadow() {
    let mut field = DefaultField::new_with_kind(8, 10, 4, 1, O);
    assert!(field.project_down(false));
    assert_eq!(*field.cur_piece().coords(), c(&[(9, 3), (9, 4), (8, 3), (8, 4)]));
    assert!(field.cur_piece_cannot_move_down());
    assert_eq!(*field.shadow_piece().coords(), *field.cur_piece().coords());
}

#[test]
fn full_lines_clear() {
    let mut field = DefaultField::new_with_kind(4, 6, 3, 1, I);
    let clear = field.hard_drop_with(I);
    assert_eq!(clear.n_lines(), 1);
    assert_eq!(clear.spin(), None);
    assert!(!clear.is_mini());
    assert!(field.is_empty());
    assert_eq!(field.get_at(&Coords(5, 0)), Some(Square::Empty));
    // the new I is drawn on the field and fills its line on its own
    assert_eq!(*field.cur_piece().coords(), c(&[(1, 0), (1, 1), (1, 2), (1, 3)]));
    let clear = field.clear_lines();
    assert_eq!(clear.n_lines(), 1);
    assert!(field.is_empty());
    // a clear with nothing full clears nothing
    let mut field = DefaultField::new_with_kind(10, 22, 4, 5, I);
    let clear = field.clear_lines();
    assert_eq!(clear.n_lines(), 0);
    assert_eq!(field.get_at(&Coords(2, 3)), Some(Square::Filled(I)));
}

#[test]
fn two_lines_clear_and_rest_falls() {
    let mut field = DefaultField::new_with_kind(2, 6, 4, 1, O);
    // origin column is 0 on a field two wide: the O fills columns 0 and 1
    let clear = field.hard_drop_with(MONO);
    assert_eq!(clear.n_lines(), 2);
    assert!(field.is_empty());
    assert_eq!(field.lines().len(), 6);
    let clear = field.hard_drop_with(MONO);
    assert_eq!(clear.n_lines(), 0);
    assert_eq!(field.get_at(&Coords(5, 0)), Some(Square::Filled(MONO)));
    let line_type = field.line_clear_type(3);
    assert_eq!(line_type.n_lines(), 3);
    assert_eq!(line_type.spin(), None);
}

#[test]
fn rotations_with_srs() {
    let mut field = DefaultField::new_with_kind(10, 22, 4, 5, T);
    assert!(field.try_rotate_cw(&SrsKickTable));
    assert_eq!(*field.cur_piece().coords(), c(&[(1, 4), (2, 4), (3, 4), (2, 5)]));
    assert_eq!(field.cur_piece().rotation_state(), RotationState::Cw);
    assert!(field.last_move_rotated());
    assert_eq!(field.last_cur_piece_kick(), None);
    assert!(field.try_rotate_ccw(&SrsKickTable));
    assert_eq!(*field.cur_piece().coords(), c(&[(2, 3), (2, 4), (2, 5), (1, 4)]));
    assert_eq!(field.cur_piece().rotation_state(), RotationState::Initial);
    assert!(field.try_rotate_180(&TetrIo180KickTable));
    assert_eq!(*field.cur_piece().coords(), c(&[(2, 5), (2, 4), (2, 3), (3, 4)]));
    assert_eq!(field.cur_piece().rotation_state(), RotationState::Flipped);
    assert!(field.try_shift(1, 0));
    assert!(!field.last_move_rotated());
}

#[test]
fn i_rotates_about_a_corner() {
    let mut field = DefaultField::new_with_kind(10, 22, 4, 5, I);
    assert!(field.try_rotate_cw(&SrsKickTable));
    assert_eq!(*field.cur_piece().coords(), c(&[(1, 5), (2, 5), (3, 5), (4, 5)]));
    for _ in 0..3 {
        assert!(field.try_rotate_cw(&SrsKickTable));
    }
    assert_eq!(*field.cur_piece().coords(), c(&[(2, 3), (2, 4), (2, 5), (2, 6)]));
    assert_eq!(field.cur_piece().rotation_state(), RotationState::Initial);
}

#[test]
fn o_does_not_rotate_with_srs() {
    let mut field = DefaultField::new_with_kind(10, 22, 4, 5, O);
    assert!(!field.try_rotate_cw(&SrsKickTable));
    assert!(!field.try_rotate_ccw(&SrsKickTable));
    assert!(!field.last_move_rotated());
    assert_eq!(field.cur_piece().rotation_state(), RotationState::Initial);
}

#[test]
fn lock_delay_counts_actions() {
    let mut field = DefaultField::new_with_kind(10, 22, 4, 5, T);
    assert!(field.try_shift(0, 1));
    assert_eq!(field.actions_since_lock_delay(), None);
    field.activate_lock_delay();
    assert_eq!(field.actions_since_lock_delay(), Some(0));
    assert!(field.try_shift(0, 1));
    assert!(field.try_rotate_cw(&SrsKickTable));
    assert_eq!(field.actions_since_lock_delay(), Some(2));
    field.activate_lock_delay();
    assert_eq!(field.actions_since_lock_delay(), Some(2));
    assert!(!field.try_shift(0, 20));
    assert_eq!(field.actions_since_lock_delay(), Some(2));
    field.hard_drop_with(T);
    assert_eq!(field.actions_since_lock_delay(), None);
}

#[test]
fn hold_swaps_once_per_piece() {
    let mut field = DefaultField::new_with_kind(10, 22, 4, 5, T);
    assert!(field.swap_hold_piece_with(I));
    assert_eq!(field.hold_piece(), Some(T));
    assert_eq!(field.cur_piece().kind(), I);
    assert_eq!(field.get_at(&Coords(1, 4)), Some(Square::Empty));
    assert!(!field.swap_hold_piece_with(O));
    assert_eq!(field.cur_piece().kind(), I);
    field.hard_drop_with(O);
    assert_eq!(field.cur_piece().kind(), O);
    // the held T comes back; the drawn kind is not used
    assert!(field.swap_hold_piece_with(I));
    assert_eq!(field.cur_piece().kind(), T);
    assert_eq!(field.hold_piece(), Some(O));
}

#[test]
fn hold_and_spawn_from_bag() {
    let mut bag = SingleBag::new(vec![I]);
    let mut field = DefaultField::new_with_kind(10, 22, 4, 5, T);
    assert!(field.swap_hold_piece(&mut bag));
    assert_eq!(field.cur_piece().kind(), I);
    assert_eq!(field.hold_piece(), Some(T));
    assert!(field.try_spawn(&mut bag));
    assert_eq!(field.cur_piece().kind(), I);
    assert!(field.try_spawn_with(O));
    assert_eq!(field.cur_piece().kind(), O);
    let clear = field.hard_drop(&mut bag);
    assert_eq!(clear.n_lines(), 0);
    assert_eq!(field.cur_piece().kind(), I);
    // a new I at the origin is blocked by the current one, which stays
    assert!(!field.try_spawn_no_erase(&mut bag));
    assert_eq!(field.cur_piece().kind(), I);
    assert_eq!(field.get_at(&Coords(2, 3)), Some(Square::Filled(I)));
}

#[test]
fn spawn_blocked_when_origin_is_taken() {
    let mut field = DefaultField::new_with_kind(10, 22, 4, 5, T);
    assert!(!field.try_spawn_no_erase_with(O));
    assert_eq!(field.cur_piece().kind(), T);
    assert!(field.try_spawn_no_erase_with(PieceKind::Mino123(Mino123::Domino)) == false);
}

#[test]
fn moves_and_turns_leave_the_stack_alone() {
    let mut field = DefaultField::new_with_kind(10, 22, 4, 5, I);
    field.hard_drop_with(T);
    let stack: Vec<Coords> = (3..7).map(|col| Coords(21, col)).collect();
    for c in stack.iter() {
        assert_eq!(field.get_at(c), Some(Square::Filled(I)));
    }
    // move the T down next to the stack, turn it and move it about
    while field.try_shift(1, 0) {}
    assert!(field.try_rotate_cw(&SrsKickTable));
    field.try_shift(0, -1);
    field.try_rotate_ccw(&SrsKickTable);
    field.try_shift(0, 1);
    for c in stack.iter() {
        assert_eq!(field.get_at(c), Some(Square::Filled(I)));
    }
    // the T is drawn where it is
    for c in field.cur_piece().coords().clone().iter() {
        assert_eq!(field.get_at(c), Some(Square::Filled(T)));
    }
}

#[test]
fn turn_and_back_restores_the_piece() {
    let mut field = DefaultField::new_with_kind(10, 22, 4, 5, PieceKind::TetrominoSrs(TetrominoSrs::L));
    let before = field.cur_piece().coords().clone();
    assert!(field.try_rotate_cw(&SrsKickTable));
    assert_eq!(field.last_cur_piece_kick(), None);
    assert!(field.try_rotate_ccw(&SrsKickTable));
    assert_eq!(*field.cur_piece().coords(), before);
    assert_eq!(field.cur_piece().rotation_state(), RotationState::Initial);
    for r in 0..22 {
        for col in 0..10 {
            let expected = if before.contains(&Coords(r, col)) {
                Square::Filled(PieceKind::TetrominoSrs(TetrominoSrs::L))
            } else {
                Square::Empty
            };
            assert_eq!(field.get_at(&Coords(r, col)), Some(expected));
        }
    }
}

#[test]
fn pieces_rest_where_they_drop() {
    for kind in [T, I, O, PieceKind::TetrominoSrs(TetrominoSrs::S)] {
        let mut field = DefaultField::new_with_kind(10, 22, 4, 5, kind);
        field.try_rotate_cw(&SrsKickTable);
        let shadow = field.shadow_piece().coords().clone();
        assert!(field.project_down(false));
        assert_eq!(*field.cur_piece().coords(), shadow);
        assert!(field.cur_piece_cannot_move_down());
    }
}

#[test]
fn a_u_on_its_side_stops_early() {
    // the U's right column has a gap: while it falls, its squares are checked
    // against the field with the U still at its starting place
    let u = PieceKind::Pentomino(tetrox::pieces::pentomino::Pentomino::U);
    let mut field = DefaultField::new_with_kind(10, 22, 4, 5, u);
    assert!(field.try_rotate_cw(&tetrox::kicks::BasicKickTable));
    assert_eq!(*field.cur_piece().coords(), c(&[(1, 4), (2, 4), (3, 4), (1, 5), (3, 5)]));
    assert_eq!(*field.shadow_piece().coords(), c(&[(2, 4), (3, 4), (4, 4), (2, 5), (4, 5)]));
    assert!(field.project_down(false));
    assert!(!field.cur_piece_cannot_move_down());
}

#[test]
fn perfect_clears_are_flagged() {
    let clear = LineClear::new(1, None, false);
    assert!(!clear.is_perfect_clear());
    let pc = clear.with_perfect_clear(true);
    assert!(pc.is_perfect_clear());
    assert_eq!((pc.n_lines(), pc.spin(), pc.is_mini()), (1, None, false));

    // an I on a field four wide fills its line and leaves nothing behind
    let mut field = DefaultField::new_with_kind(4, 6, 3, 1, I);
    let clear = field.hard_drop_with(I);
    assert_eq!(clear.n_lines(), 1);
    assert!(clear.is_perfect_clear());
    // clearing the line the new I fills on its own empties the field too
    let clear = field.clear_lines();
    assert_eq!(clear.n_lines(), 1);
    assert!(clear.is_perfect_clear());

    // a drop that clears nothing is no perfect clear
    let mut field = DefaultField::new_with_kind(10, 22, 4, 5, T);
    assert!(!field.hard_drop_with(I).is_perfect_clear());

    // two lines cleared by an O on a field two wide, then a monomino that stays
    let mut field = DefaultField::new_with_kind(2, 6, 4, 1, O);
    assert!(field.hard_drop_with(MONO).is_perfect_clear());
    let clear = field.hard_drop_with(MONO);
    assert_eq!(clear.n_lines(), 0);
    assert!(!clear.is_perfect_clear());
}

#[test]
fn a_piece_cleared_from_under_itself_is_drawn_again_when_moved() {
    // the new I fills line 1 on its own; clearing lines removes its squares
    let mut field = DefaultField::new_with_kind(4, 6, 3, 1, I);
    field.hard_drop_with(I);
    field.clear_lines();
    assert_eq!(field.get_at(&Coords(1, 0)), Some(Square::Empty));
    assert!(field.try_shift(1, 0));
    assert!(field.try_shift(-1, 0));
    // moving down and back draws the piece where nothing was before
    assert_eq!(field.get_at(&Coords(1, 0)), Some(Square::Filled(I)));
}
