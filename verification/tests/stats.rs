use tetrox::field::LineClear;
use tetrox::pieces::tetromino::TetrominoSrs;
use tetrox::pieces::PieceKind;
use tetrox::pieces::pentomino::Pentomino;
use tetrox::stats::{Animation, GameStatsDrawer, Stats};

const T: PieceKind = PieceKind::TetrominoSrs(TetrominoSrs::T);

fn anim(line_clear: bool, back_to_back: bool, combo: bool) -> Vec<Animation> {
    let mut r = Vec::new();
    if line_clear {
        r.push(Animation::LineClearText);
    }
    if back_to_back {
        r.push(Animation::BackToBackText);
    }
    if combo {
        r.push(Animation::ComboText);
    }
    r
}

#[test]
fn stats_start_empty() {
    let stats = GameStatsDrawer::new();
    assert_eq!(stats.line_clear_text(), "");
    assert_eq!(stats.back_to_back_text(), "");
    assert_eq!(stats.combo_text(), "");
    assert_eq!(stats.back_to_back(), 0);
    assert_eq!(stats.combo(), 0);
}

#[test]
fn single_starts_a_combo() {
    let mut stats = GameStatsDrawer::new();
    assert_eq!(stats.set_clear_type(&LineClear::new(1, None, false)), anim(true, false, true));
    assert_eq!(stats.line_clear_text(), "single");
    assert_eq!(stats.combo_text(), "combo: 1");
    assert_eq!(stats.back_to_back_text(), "");
    assert_eq!(stats.combo(), 1);
    assert_eq!(stats.back_to_back(), 0);
}

#[test]
fn quads_go_back_to_back() {
    let mut stats = GameStatsDrawer::new();
    assert_eq!(stats.set_clear_type(&LineClear::new(4, None, false)), anim(true, true, true));
    assert_eq!(stats.line_clear_text(), "quad");
    assert_eq!(stats.back_to_back_text(), "back to back: 1");
    stats.set_clear_type(&LineClear::new(4, None, false));
    assert_eq!(stats.back_to_back_text(), "back to back: 2");
    assert_eq!(stats.combo_text(), "combo: 2");
    // a double ends back to back and shows the reset
    assert_eq!(stats.set_clear_type(&LineClear::new(2, None, false)), anim(true, true, true));
    assert_eq!(stats.line_clear_text(), "double");
    assert_eq!(stats.back_to_back(), 0);
    assert_eq!(stats.back_to_back_text(), "back to back: 0");
    assert_eq!(stats.combo_text(), "combo: 3");
}

#[test]
fn clearing_nothing_ends_the_combo() {
    let mut stats = GameStatsDrawer::new();
    stats.set_clear_type(&LineClear::new(3, None, false));
    assert_eq!(stats.line_clear_text(), "triple");
    assert_eq!(stats.set_clear_type(&LineClear::new(0, None, false)), anim(false, false, true));
    // the line clear text stays
    assert_eq!(stats.line_clear_text(), "triple");
    assert_eq!(stats.combo(), 0);
    assert_eq!(stats.combo_text(), "combo: 0");
    // nothing changes on a second empty drop
    assert_eq!(stats.set_clear_type(&LineClear::new(0, None, false)), anim(false, false, false));
    assert_eq!(stats.combo_text(), "combo: 0");
}

#[test]
fn spin_texts() {
    let mut stats = GameStatsDrawer::new();
    assert_eq!(stats.set_clear_type(&LineClear::new(1, Some(T), true)), anim(true, true, true));
    assert_eq!(stats.line_clear_text(), "mini t-spin single");
    assert_eq!(stats.back_to_back_text(), "back to back: 1");
    // a spin that clears nothing shows its text but keeps back to back
    assert_eq!(stats.set_clear_type(&LineClear::new(0, Some(T), false)), anim(true, false, true));
    assert_eq!(stats.line_clear_text(), "t-spin");
    assert_eq!(stats.back_to_back(), 1);
    stats.set_clear_type(&LineClear::new(3, Some(T), false));
    assert_eq!(stats.line_clear_text(), "t-spin triple");
    assert_eq!(stats.back_to_back_text(), "back to back: 2");
}

#[test]
fn long_combo_counts_in_decimal() {
    let mut stats = GameStatsDrawer::new();
    for _ in 0..12 {
        stats.set_clear_type(&LineClear::new(1, None, false));
    }
    assert_eq!(stats.combo(), 12);
    assert_eq!(stats.combo_text(), "combo: 12");
    for _ in 0..98 {
        stats.set_clear_type(&LineClear::new(1, None, false));
    }
    assert_eq!(stats.combo_text(), "combo: 110");
}

#[test]
fn animations_start_in_order() {
    let mut stats = GameStatsDrawer::new();
    assert_eq!(
        stats.set_clear_type(&LineClear::new(4, None, false)),
        vec![Animation::LineClearText, Animation::BackToBackText, Animation::ComboText]
    );
    assert_eq!(stats.set_clear_type(&LineClear::new(0, None, false)), vec![Animation::ComboText]);
    assert_eq!(stats.set_clear_type(&LineClear::new(0, None, false)), vec![]);
}

#[test]
fn game_view_stats_start_unset() {
    let stats = Stats::new();
    assert_eq!(stats.line_clear_text(), "<unset>");
    assert_eq!(stats.combo_text(), "<unset>");
    assert_eq!(stats.b2b_text(), "<unset>");
    assert_eq!((stats.combo(), stats.b2b()), (0, 0));
}

#[test]
fn game_view_stats_texts() {
    let mut stats = Stats::new();
    assert_eq!(
        stats.update(&LineClear::new(1, None, false)),
        vec![Animation::LineClearText, Animation::ComboText]
    );
    assert_eq!(stats.line_clear_text(), "single");
    assert_eq!(stats.combo_text(), "1x combo");
    assert_eq!(stats.b2b_text(), "<unset>");
    assert_eq!(
        stats.update(&LineClear::new(4, None, false)),
        vec![Animation::LineClearText, Animation::ComboText, Animation::BackToBackText]
    );
    assert_eq!(stats.line_clear_text(), "quad");
    assert_eq!(stats.combo_text(), "2x combo");
    assert_eq!(stats.b2b_text(), "1x b2b");
    stats.update(&LineClear::new(1, Some(T), true));
    assert_eq!(stats.line_clear_text(), "mini t-spin single");
    assert_eq!(stats.b2b_text(), "2x b2b");
    // a double ends back to back
    stats.update(&LineClear::new(2, None, false));
    assert_eq!(stats.b2b_text(), "0x b2b");
    assert_eq!(stats.combo_text(), "4x combo");
    // nothing cleared: the combo ends, the line clear text stays
    assert_eq!(stats.update(&LineClear::new(0, None, false)), vec![Animation::ComboText]);
    assert_eq!(stats.line_clear_text(), "double");
    assert_eq!(stats.combo_text(), "0x combo");
    assert_eq!(stats.update(&LineClear::new(0, None, false)), vec![]);
}

#[test]
fn game_view_stats_name_the_spinning_piece() {
    let mut stats = Stats::new();
    stats.update(&LineClear::new(0, Some(PieceKind::Pentomino(Pentomino::Zeta)), false));
    assert_eq!(stats.line_clear_text(), "ζ-spin");
    stats.update(&LineClear::new(3, Some(T), false));
    assert_eq!(stats.line_clear_text(), "t-spin triple");
    assert_eq!(stats.b2b_text(), "1x b2b");
}

#[test]
fn perfect_clears_start_their_text() {
    let mut stats = GameStatsDrawer::new();
    let pc = LineClear::new(4, None, false).with_perfect_clear(true);
    assert_eq!(
        stats.set_clear_type(&pc),
        vec![Animation::LineClearText, Animation::PerfectClearText, Animation::BackToBackText, Animation::ComboText]
    );
    assert_eq!(stats.line_clear_text(), "quad");
    // a clear that leaves blocks behind starts no perfect clear text
    assert_eq!(stats.set_clear_type(&LineClear::new(1, None, false)), anim(true, true, true));

    let mut stats = Stats::new();
    assert_eq!(stats.pc_text(), "<unset>");
    assert_eq!(stats.update(&LineClear::new(1, None, false)), vec![Animation::LineClearText, Animation::ComboText]);
    assert_eq!(stats.pc_text(), "<unset>");
    assert_eq!(
        stats.update(&LineClear::new(2, None, false).with_perfect_clear(true)),
        vec![Animation::LineClearText, Animation::PerfectClearText, Animation::ComboText]
    );
    assert_eq!(stats.pc_text(), "perfect clear");
    assert_eq!(stats.line_clear_text(), "double");
    // the text stays until the next perfect clear
    stats.update(&LineClear::new(0, None, false));
    assert_eq!(stats.pc_text(), "perfect clear");
}
