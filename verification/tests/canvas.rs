use tetrox::canvas::{
    asset_path, center_coords_around_origin, field_draw_list, field_shadow, field_square_images, field_squares,
    shadow_square_images, SquareImage, hold_piece_center, next_queue_height, piece_square_positions, queue_piece_center,
    square_asset, LABEL_HEIGHT, PIECE_HEIGHT, SIDE_BAR_PADDING, SIDE_BAR_WIDTH, SQUARE_WIDTH,
};
use tetrox::pieces::tetromino::TetrominoSrs;
use tetrox::pieces::PieceKind;
use tetrox::field::DefaultField;
use tetrox::Coords;

const T: PieceKind = PieceKind::TetrominoSrs(TetrominoSrs::T);

#[test]
fn layout_constants() {
    assert_eq!(SQUARE_WIDTH, 36);
    assert_eq!(LABEL_HEIGHT, 30);
    assert_eq!(PIECE_HEIGHT, 108);
    assert_eq!(SIDE_BAR_WIDTH, 180);
    assert_eq!(SIDE_BAR_PADDING, 6);
}

#[test]
fn centering_squares() {
    let t = vec![Coords(0, -36), Coords(0, 0), Coords(0, 36), Coords(-36, 0)];
    assert_eq!(
        center_coords_around_origin(t),
        vec![Coords(0, -54), Coords(0, -18), Coords(0, 18), Coords(-36, -18)]
    );
    // the middle is rounded toward zero
    assert_eq!(center_coords_around_origin(vec![Coords(0, 0), Coords(0, 1)]), vec![Coords(-18, -18), Coords(-18, -17)]);
    assert_eq!(center_coords_around_origin(vec![Coords(-1, 0), Coords(0, 0)]), vec![Coords(-19, -18), Coords(-18, -18)]);
}

#[test]
fn piece_positions_in_panels() {
    assert_eq!(hold_piece_center(), (90, 84));
    assert_eq!(queue_piece_center(0), (90, 84));
    assert_eq!(queue_piece_center(2), (90, 300));
    assert_eq!(next_queue_height(5), 576);
    assert_eq!(
        piece_square_positions(T, 90, 84),
        vec![Coords(84, 36), Coords(84, 72), Coords(84, 108), Coords(48, 72)]
    );
}

#[test]
fn squares_turn_grey_when_topped_out() {
    assert_eq!(square_asset(T, true), "grey");
    assert_eq!(square_asset(T, false), T.asset_name());
}

#[test]
fn field_squares_and_shadow() {
    let mut field = DefaultField::new_with_kind(10, 22, 4, 5, T);
    let t = T.asset_name();
    // the current piece's squares, line by line and left to right
    assert_eq!(field_squares(&field, false), vec![(1, 4, t), (2, 3, t), (2, 4, t), (2, 5, t)]);
    assert_eq!(
        field_shadow(&field, false),
        Some((vec![Coords(21, 3), Coords(21, 4), Coords(21, 5), Coords(20, 4)], t))
    );
    // once the game has ended: grey squares and no shadow
    assert_eq!(field_squares(&field, true), vec![(1, 4, "grey"), (2, 3, "grey"), (2, 4, "grey"), (2, 5, "grey")]);
    assert_eq!(field_shadow(&field, true), None);
    let o = PieceKind::TetrominoSrs(TetrominoSrs::O);
    field.hard_drop_with(o);
    let squares = field_squares(&field, false);
    assert_eq!(squares.len(), 8);
    assert_eq!(squares[4..].to_vec(), vec![(20, 4, t), (21, 3, t), (21, 4, t), (21, 5, t)]);
}

#[test]
fn skin_image_paths() {
    assert_eq!(asset_path("tetrox", "grey"), "assets/skins/tetrox/grey.png");
    assert_eq!(asset_path("solid", T.asset_name()), format!("assets/skins/solid/{}.png", T.asset_name()));
}

#[test]
fn field_squares_in_pixels() {
    let mut field = DefaultField::new_with_kind(10, 22, 4, 5, T);
    let t = format!("assets/skins/tetrox/{}.png", T.asset_name());
    let img = |x: usize, y: usize, path: &str| SquareImage { x, y, size: 36, path: path.to_string() };
    // the T spawned at line 2, columns 3 to 5, with its top square at line 1, column 4
    assert_eq!(
        field_square_images(&field, false, "tetrox"),
        vec![img(144, 36, &t), img(108, 72, &t), img(144, 72, &t), img(180, 72, &t)]
    );
    // its shadow on the floor, lines 20 and 21
    assert_eq!(
        shadow_square_images(&field, false, "tetrox"),
        vec![img(108, 756, &t), img(144, 756, &t), img(180, 756, &t), img(144, 720, &t)]
    );
    // once the game has ended: grey squares, no shadow
    let grey = "assets/skins/inset/grey.png";
    let (shadow, squares) = field_draw_list(&field, true, "inset");
    assert!(shadow.is_empty());
    assert_eq!(squares, vec![img(144, 36, grey), img(108, 72, grey), img(144, 72, grey), img(180, 72, grey)]);
    let (shadow, squares) = field_draw_list(&field, false, "tetrox");
    assert_eq!(shadow.len(), 4);
    assert_eq!(squares.len(), 4);
    field.hard_drop_with(T);
    let squares = field_square_images(&field, false, "tetrox");
    assert_eq!(squares[4..].to_vec(), vec![img(144, 720, &t), img(108, 756, &t), img(144, 756, &t), img(180, 756, &t)]);
}
