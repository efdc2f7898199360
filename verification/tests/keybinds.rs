use tetrox::board::{Board, KeyEffect};
use tetrox::config::{default_keybinds, Config};
use tetrox::input::Input;
use tetrox::keybinds::{capture_key, capture_label, Keybinds};

fn defaults() -> Keybinds {
    Keybinds::from_pairs(default_keybinds().into_iter().map(|(i, k)| (i, k.to_string())).collect())
}

#[test]
fn default_bindings_both_ways() {
    let keys = defaults();
    assert_eq!(keys.input_for("ArrowLeft"), Some(Input::Left));
    assert_eq!(keys.input_for(" "), Some(Input::HardDrop));
    assert_eq!(keys.input_for("F9"), Some(Input::ShowHideUi));
    assert_eq!(keys.input_for("q"), None);
    assert_eq!(keys.key_for(&Input::RotateCw), Some("x".to_string()));
    assert_eq!(keys.key_for(&Input::Reset), Some("`".to_string()));
    assert_eq!(keys.pairs().len(), 10);
}

#[test]
fn binding_replaces_both_sides() {
    let mut keys = defaults();
    keys.bind(Input::Left, "a".to_string());
    assert_eq!(keys.input_for("ArrowLeft"), None);
    assert_eq!(keys.key_for(&Input::Left), Some("a".to_string()));
    // the key "a" moves to right; left is left unbound
    keys.bind(Input::Right, "a".to_string());
    assert_eq!(keys.key_for(&Input::Left), None);
    assert_eq!(keys.key_for(&Input::Right), Some("a".to_string()));
    assert_eq!(keys.input_for("ArrowRight"), None);
    assert_eq!(keys.pairs().len(), 9);
    let empty = Keybinds::new();
    assert_eq!(empty.input_for("a"), None);
    assert!(empty.pairs().is_empty());
}

#[test]
fn later_pairs_win() {
    let keys = Keybinds::from_pairs(vec![
        (Input::Left, "a".to_string()),
        (Input::Right, "a".to_string()),
        (Input::Left, "b".to_string()),
    ]);
    assert_eq!(keys.input_for("a"), Some(Input::Right));
    assert_eq!(keys.input_for("b"), Some(Input::Left));
    let mut pairs = keys.pairs();
    pairs.sort_by_key(|p| p.0.index());
    assert_eq!(pairs, vec![(Input::Left, "b".to_string()), (Input::Right, "a".to_string())]);
}

#[test]
fn keys_drive_the_board() {
    let config = Config::default();
    let keys = defaults();
    let mut board = Board::new(&config);
    let before = board.field().cur_piece().coords().clone();
    assert_eq!(board.key_name_down("ArrowLeft", &keys, &config).0, KeyEffect::StartTimer(Input::Left));
    assert_eq!(board.field().cur_piece().coords()[0].1, before[0].1 - 1);
    assert_eq!(board.key_name_up("ArrowLeft", &keys), KeyEffect::StopTimer(Input::Left));
    // unbound keys do nothing
    assert_eq!(board.key_name_down("q", &keys, &config), (KeyEffect::Nothing, None));
    assert_eq!(board.key_name_up("q", &keys), KeyEffect::Nothing);
    let (effect, clear) = board.key_name_down(" ", &keys, &config);
    assert_eq!(effect, KeyEffect::Nothing);
    assert!(clear.is_some());
}

#[test]
fn capturing_a_key_binds_it() {
    let mut keybinds = defaults();
    // not capturing: nothing changes
    assert!(!capture_key(&mut keybinds, false, Input::Left, "a".to_string()));
    assert_eq!(keybinds.key_for(&Input::Left), Some("ArrowLeft".to_string()));
    // Escape cancels
    assert!(!capture_key(&mut keybinds, true, Input::Left, "Escape".to_string()));
    assert_eq!(keybinds.key_for(&Input::Left), Some("ArrowLeft".to_string()));
    // any other key is bound, and taken from the input it was bound to
    assert!(!capture_key(&mut keybinds, true, Input::Left, "x".to_string()));
    assert_eq!(keybinds.key_for(&Input::Left), Some("x".to_string()));
    assert_eq!(keybinds.input_for("x"), Some(Input::Left));
    assert_eq!(keybinds.input_for("ArrowLeft"), None);
    // "x" rotated clockwise before: that input is now unbound
    assert_eq!(keybinds.key_for(&Input::RotateCw), None);
}

#[test]
fn capture_button_labels() {
    let mut keybinds = defaults();
    assert_eq!(capture_label(&keybinds, Input::Left, "Left", false), "Left (Left)");
    assert_eq!(capture_label(&keybinds, Input::Left, "Left", true), "Left (<press a key>)");
    capture_key(&mut keybinds, true, Input::HardDrop, " ".to_string());
    assert_eq!(capture_label(&keybinds, Input::HardDrop, "Hard drop", false), "Hard drop (Space)");
    assert_eq!(capture_label(&keybinds, Input::Right, "Right", false), "Right (Right)");
    let empty = Keybinds::new();
    assert_eq!(capture_label(&empty, Input::SwapHold, "Hold", false), "Hold (<unset>)");
}
