use tetrox::board::{Board, KeyEffect};
use tetrox::config::{default_keybinds, Config, GoalTypes, KickTable180s, KickTables, PieceTypes, SpinTypes};
use tetrox::input::{Input, InputState};
use tetrox::Coords;

fn coords(board: &Board) -> Vec<Coords> {
    board.field().cur_piece().coords().clone()
}

fn shifted(cs: &[Coords], rows: i32, cols: i32) -> Vec<Coords> {
    cs.iter().map(|c| Coords(c.0 + rows, c.1 + cols)).collect()
}

#[test]
fn default_config_values() {
    let c = Config::default();
    assert_eq!(c.gravity_delay, 1_000);
    assert_eq!(c.lock_delay, 500);
    assert_eq!(c.move_limit, 30);
    assert!(c.topping_out_enabled && c.auto_lock_enabled && c.gravity_enabled && c.move_limit_enabled);
    assert_eq!((c.field_width, c.field_height, c.field_hidden, c.queue_len), (10, 40, 20, 5));
    assert_eq!(c.piece_type, PieceTypes::TetrominoSrs);
    assert_eq!(c.spin_types, SpinTypes::TSpins);
    assert_eq!(c.kick_table, KickTables::Srs);
    assert_eq!(c.kick_table_180, KickTable180s::TetrIo);
    assert_eq!(c.goal_type, GoalTypes::NoGoal);
    assert_eq!((c.goal_n_lines, c.goal_time_limit_secs), (40, 120));
    assert_eq!((c.delayed_auto_shift, c.auto_repeat_rate, c.soft_drop_rate), (280, 50, 30));
    let keys = default_keybinds();
    assert_eq!(keys.len(), 10);
    assert_eq!(keys[0], (Input::Left, "ArrowLeft"));
    assert_eq!(keys[3], (Input::HardDrop, " "));
    assert_eq!(keys[9], (Input::ShowHideUi, "F9"));
}

#[test]
fn new_board_spawns_a_piece() {
    let config = Config::default();
    let board = Board::new(&config);
    assert!(!board.topped_out());
    assert_eq!(board.field().width(), 10);
    assert_eq!(board.field().height(), 40);
    for input in Input::iter() {
        assert_eq!(board.inputs().get_state(&input), InputState::Released);
    }
    // pieces spawn on the bottom line of the hidden part
    assert!(coords(&board).iter().all(|c| c.0 == 18 || c.0 == 17));
}

#[test]
fn left_shifts_once_and_starts_its_timer() {
    let config = Config::default();
    let mut board = Board::new(&config);
    let before = coords(&board);
    let (effect, clear) = board.key_down(Input::Left, &config);
    assert_eq!(effect, KeyEffect::StartTimer(Input::Left));
    assert!(clear.is_none());
    assert_eq!(coords(&board), shifted(&before, 0, -1));
    // a repeat of the operating system does nothing
    assert_eq!(board.key_down(Input::Left, &config), (KeyEffect::Nothing, None));
    assert_eq!(coords(&board), shifted(&before, 0, -1));
    assert_eq!(board.key_up(Input::Left), KeyEffect::StopTimer(Input::Left));
    assert_eq!(board.inputs().get_state(&Input::Left), InputState::Released);
    assert_eq!(board.key_up(Input::HardDrop), KeyEffect::Nothing);
}

#[test]
fn held_input_repeats_until_released() {
    let mut config = Config::default();
    config.auto_repeat_rate = 50;
    let mut board = Board::new(&config);
    let before = coords(&board);
    board.key_down(Input::Right, &config);
    board.buffer_timer_done(Input::Right, &config);
    assert_eq!(coords(&board), shifted(&before, 0, 2));
    assert!(board.repeat_timer_done(Input::Right, &config));
    assert_eq!(coords(&board), shifted(&before, 0, 3));
    // left takes over while both are held; right stops moving but stays held
    board.key_down(Input::Left, &config);
    assert_eq!(board.inputs().get_state(&Input::Right), InputState::Suppressed);
    assert!(board.repeat_timer_done(Input::Right, &config));
    assert_eq!(coords(&board), shifted(&before, 0, 2));
    board.key_up(Input::Left);
    assert_eq!(board.inputs().get_state(&Input::Right), InputState::Pressed);
    board.key_up(Input::Right);
    assert!(!board.repeat_timer_done(Input::Right, &config));
    assert_eq!(coords(&board), shifted(&before, 0, 2));
}

#[test]
fn zero_repeat_rate_slides_to_the_wall() {
    let mut config = Config::default();
    config.auto_repeat_rate = 0;
    let mut board = Board::new(&config);
    board.key_down(Input::Left, &config);
    assert!(board.repeat_timer_done(Input::Left, &config));
    assert_eq!(coords(&board).iter().map(|c| c.1).min(), Some(0));
    // nothing more to do at the wall
    let at_wall = coords(&board);
    board.repeat_timer_done(Input::Left, &config);
    assert_eq!(coords(&board), at_wall);
}

#[test]
fn gravity_moves_the_piece_down() {
    let mut config = Config::default();
    let mut board = Board::new(&config);
    let before = coords(&board);
    assert!(board.gravity_timer_done(&config));
    assert_eq!(coords(&board), shifted(&before, 1, 0));
    config.gravity_enabled = false;
    assert!(board.gravity_timer_done(&config));
    assert_eq!(coords(&board), shifted(&before, 1, 0));
    // zero delay drops the piece as far as it falls
    config.gravity_enabled = true;
    config.gravity_delay = 0;
    board.gravity_timer_done(&config);
    assert_eq!(coords(&board).iter().map(|c| c.0).max(), Some(39));
}

#[test]
fn hard_drop_locks_and_spawns() {
    let config = Config::default();
    let mut board = Board::new(&config);
    let before = coords(&board);
    let (effect, clear) = board.key_down(Input::HardDrop, &config);
    assert_eq!(effect, KeyEffect::Nothing);
    let clear = clear.unwrap();
    assert_eq!(clear.n_lines(), 0);
    assert!(!board.topped_out());
    // the new piece is at the spawn place, the old one lies on the floor
    assert!(coords(&board).iter().all(|c| c.0 == 18 || c.0 == 17));
    assert!(before.iter().any(|c| board.field().get_at(&Coords(c.0 + 21, c.1)).unwrap().is_filled()));
    assert_eq!(board.next_queue().len() > 7, true);
}

#[test]
fn swap_hold_once_per_piece() {
    let config = Config::default();
    let mut board = Board::new(&config);
    let first = board.field().cur_piece().kind();
    board.key_down(Input::SwapHold, &config);
    assert_eq!(board.field().hold_piece(), Some(first));
    board.key_up(Input::SwapHold);
    let second = board.field().cur_piece().kind();
    board.key_down(Input::SwapHold, &config);
    assert_eq!(board.field().hold_piece(), Some(first));
    assert_eq!(board.field().cur_piece().kind(), second);
}

#[test]
fn reset_and_interface_keys() {
    let config = Config::default();
    let mut board = Board::new(&config);
    board.key_down(Input::HardDrop, &config);
    assert_eq!(board.key_down(Input::ShowHideUi, &config), (KeyEffect::ToggleUi, None));
    assert_eq!(board.key_down(Input::Reset, &config), (KeyEffect::ResetBoard, None));
    for col in 0..10 {
        assert!(board.field().get_at(&Coords(39, col)).unwrap().is_empty());
    }
}

#[test]
fn nothing_acts_after_topping_out() {
    let mut config = Config::default();
    let mut board = Board::new(&config);
    board.top_out();
    assert!(board.topped_out());
    let before = coords(&board);
    assert_eq!(board.key_down(Input::Left, &config), (KeyEffect::Nothing, None));
    assert_eq!(board.key_down(Input::HardDrop, &config), (KeyEffect::Nothing, None));
    assert_eq!(coords(&board), before);
    // with topping out disabled play goes on
    config.topping_out_enabled = false;
    assert_eq!(board.key_down(Input::Right, &config).0, KeyEffect::StartTimer(Input::Right));
    assert_eq!(coords(&board), shifted(&before, 0, 1));
    // reset starts a new game
    assert_eq!(board.key_down(Input::Reset, &config).0, KeyEffect::ResetBoard);
    assert!(!board.topped_out());
}

#[test]
fn stacking_to_the_top_tops_out() {
    // a field just tall enough for the spawn place: the second piece does not fit
    let mut config = Config::default();
    config.field_height = 20;
    config.piece_type = PieceTypes::Mino123;
    let mut board = Board::new(&config);
    let mut drops = 0;
    while !board.topped_out() && drops < 200 {
        board.key_down(Input::HardDrop, &config);
        board.key_up(Input::HardDrop);
        drops += 1;
    }
    assert!(board.topped_out());
    assert!(drops >= 1);
    // the game is over: moves do nothing
    let before = coords(&board);
    assert_eq!(board.key_down(Input::Right, &config), (KeyEffect::Nothing, None));
    assert_eq!(coords(&board), before);
}

#[test]
fn lock_delay_and_move_limit() {
    let mut config = Config::default();
    config.auto_repeat_rate = 0;
    config.gravity_delay = 0;
    let mut board = Board::new(&config);
    // not resting on anything yet
    assert!(!board.piece_moved());
    // the first piece goes to the right wall and down
    board.key_down(Input::Right, &config);
    board.repeat_timer_done(Input::Right, &config);
    board.key_up(Input::Right);
    assert_eq!(coords(&board).iter().map(|c| c.1).max(), Some(9));
    board.gravity_timer_done(&config);
    assert!(board.piece_moved());
    assert_eq!(board.field().actions_since_lock_delay(), Some(0));
    assert_eq!(board.move_limit_check(&config), None);
    // it stayed where lock delay started: it locks
    assert!(board.lock_delay_timer_done(&config).is_some());
    assert_eq!(board.field().actions_since_lock_delay(), None);
    // the next piece falls to the floor and then moves left: it does not lock
    board.gravity_timer_done(&config);
    assert!(board.piece_moved());
    let resting = coords(&board);
    board.key_down(Input::Left, &config);
    assert_eq!(coords(&board), shifted(&resting, 0, -1));
    assert_eq!(board.field().actions_since_lock_delay(), Some(1));
    assert_eq!(board.lock_delay_timer_done(&config), None);
    // the move limit drops the piece once reached
    config.move_limit = 1;
    assert!(board.move_limit_check(&config).is_some());
    assert_eq!(board.field().actions_since_lock_delay(), None);
}

#[test]
fn the_next_queue_shows_the_next_piece() {
    let config = Config::default();
    let mut board = Board::new(&config);
    for _ in 0..20 {
        if board.topped_out() {
            break;
        }
        let queue = board.next_queue();
        assert!(queue.len() > 7);
        board.key_down(Input::HardDrop, &config);
        board.key_up(Input::HardDrop);
        if !board.topped_out() {
            assert_eq!(board.field().cur_piece().kind(), queue[0]);
        }
        // the queue lost just that piece
        let after = board.next_queue();
        assert_eq!(&after[..queue.len() - 1], &queue[1..]);
    }
}

#[test]
fn first_hold_takes_the_next_piece() {
    let config = Config::default();
    let mut board = Board::new(&config);
    let queue = board.next_queue();
    board.key_down(Input::SwapHold, &config);
    assert_eq!(board.field().cur_piece().kind(), queue[0]);
    assert_eq!(board.next_queue()[..queue.len() - 1], queue[1..]);
}

#[test]
fn repeated_presses_and_topped_out_boards_leave_the_bag() {
    let config = Config::default();
    let mut board = Board::new(&config);
    board.key_down(Input::HardDrop, &config);
    let queue = board.next_queue();
    // a repeat of the operating system
    board.key_down(Input::HardDrop, &config);
    assert_eq!(board.next_queue(), queue);
    board.key_up(Input::HardDrop);
    board.top_out();
    board.key_down(Input::HardDrop, &config);
    board.key_down(Input::SwapHold, &config);
    assert_eq!(board.next_queue(), queue);
}

#[test]
fn resizing_and_changing_pieces() {
    let mut config = Config::default();
    let mut board = Board::new(&config);
    let queue = board.next_queue();
    board.resize(6, 30, 10);
    assert_eq!((board.field().width(), board.field().height(), board.field().hidden()), (6, 30, 10));
    assert_eq!(board.field().cur_piece().kind(), queue[0]);
    // a reset goes back to the sizes the board was made with
    board.reset(&config);
    assert_eq!((board.field().width(), board.field().height(), board.field().hidden()), (10, 40, 20));
    config.piece_type = PieceTypes::Mino123;
    board.set_piece_type(PieceTypes::Mino123);
    let kinds = tetrox::pieces::mino123::Mino123::Monomino;
    let queue = board.next_queue();
    assert_eq!(queue.len(), 8);
    assert!(queue.iter().all(|k| matches!(k, tetrox::pieces::PieceKind::Mino123(_))));
    let _ = kinds;
}
