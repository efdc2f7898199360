//! Where the interface draws pieces and squares, in pixels: the layout of the
//! hold and next-queue panels, pieces centred on a point, and where and with
//! which image of the skin each square of the field and of its shadow piece
//! is drawn.

use vstd::prelude::*;

use crate::field::{lemma_projected_piece_is_shadow, line_views, DefaultField, Square};
use crate::pieces::PieceKind;
use crate::Coords;

verus! {

/// The size of each square on the field.
pub const SQUARE_WIDTH: usize = 36;

/// Height of the "hold" and "next" labels.
pub const LABEL_HEIGHT: usize = 30;

/// Height of a hold or queue piece.
pub const PIECE_HEIGHT: usize = SQUARE_WIDTH * 3;

/// Width of the hold and queue panels.
pub const SIDE_BAR_WIDTH: usize = SQUARE_WIDTH * 5;

/// Bottom padding of the hold and queue panels.
pub const SIDE_BAR_PADDING: usize = SQUARE_WIDTH / 6;

/// Largest coordinate (in either direction) of the points that pieces are
/// centred on and of their squares.
pub const MAX_PIXEL: i32 = 0x1000_0000;

/// Integer division by two, rounding toward zero.
pub open spec fn half(x: int) -> int {
    if x >= 0 {
        x / 2
    } else {
        -((-x) / 2)
    }
}

/// The smaller of two integers.
pub open spec fn min2(a: int, b: int) -> int {
    if a <= b {
        a
    } else {
        b
    }
}

/// The larger of two integers.
pub open spec fn max2(a: int, b: int) -> int {
    if a >= b {
        a
    } else {
        b
    }
}

/// The smallest of the integers `s` (which must not be empty).
pub open spec fn seq_min(s: Seq<int>) -> int
    decreases s.len(),
{
    if s.len() <= 1 {
        s[0]
    } else {
        min2(seq_min(s.drop_last()), s.last())
    }
}

/// The largest of the integers `s` (which must not be empty).
pub open spec fn seq_max(s: Seq<int>) -> int
    decreases s.len(),
{
    if s.len() <= 1 {
        s[0]
    } else {
        max2(seq_max(s.drop_last()), s.last())
    }
}

/// The rows of the squares.
pub open spec fn rows_of(coords: Seq<Coords>) -> Seq<int> {
    Seq::new(coords.len(), |i: int| coords[i].0 as int)
}

/// The columns of the squares.
pub open spec fn cols_of(coords: Seq<Coords>) -> Seq<int> {
    Seq::new(coords.len(), |i: int| coords[i].1 as int)
}

/// The squares moved so that the middle of their extent lies at the origin,
/// then by half a square up and left, since images are drawn from their
/// top-left corner.
pub open spec fn centered(coords: Seq<Coords>) -> Seq<Coords> {
    let mid_row = half(seq_max(rows_of(coords)) + seq_min(rows_of(coords)));
    let mid_col = half(seq_max(cols_of(coords)) + seq_min(cols_of(coords)));
    let h = SQUARE_WIDTH as int / 2;
    Seq::new(
        coords.len(),
        |i: int| Coords((coords[i].0 - mid_row - h) as i32, (coords[i].1 - mid_col - h) as i32),
    )
}

/// Every coordinate lies within `MAX_PIXEL` of zero.
pub open spec fn within_pixels(coords: Seq<Coords>) -> bool {
    forall|i: int|
        0 <= i < coords.len() ==> -MAX_PIXEL <= #[trigger] coords[i].0 <= MAX_PIXEL && -MAX_PIXEL
            <= coords[i].1 <= MAX_PIXEL
}

/// The smallest and the largest value stay among the values.
proof fn lemma_min_max_bounds(s: Seq<int>, lo: int, hi: int)
    requires
        s.len() > 0,
        forall|i: int| 0 <= i < s.len() ==> lo <= #[trigger] s[i] <= hi,
    ensures
        lo <= seq_min(s) <= hi,
        lo <= seq_max(s) <= hi,
    decreases s.len(),
{
    if s.len() > 1 {
        lemma_min_max_bounds(s.drop_last(), lo, hi);
    }
}

/// Half of a value, rounding toward zero.
fn halved(x: i32) -> (r: i32)
    requires
        x != i32::MIN,
    ensures
        r == half(x as int),
{
    if x >= 0 {
        x / 2
    } else {
        -((-x) / 2)
    }
}

/// The squares centred around the origin (see `centered`).
pub fn center_coords_around_origin(coords: Vec<Coords>) -> (r: Vec<Coords>)
    requires
        coords@.len() > 0,
        within_pixels(coords@),
    ensures
        r@ == centered(coords@),
{
    let ghost rows = rows_of(coords@);
    let ghost cols = cols_of(coords@);
    let mut min_row = coords[0].0;
    let mut max_row = coords[0].0;
    let mut min_col = coords[0].1;
    let mut max_col = coords[0].1;
    let mut i: usize = 1;
    while i < coords.len()
        invariant
            1 <= i <= coords@.len(),
            rows == rows_of(coords@),
            cols == cols_of(coords@),
            min_row == seq_min(rows.take(i as int)),
            max_row == seq_max(rows.take(i as int)),
            min_col == seq_min(cols.take(i as int)),
            max_col == seq_max(cols.take(i as int)),
        decreases coords.len() - i,
    {
        let c = coords[i];
        assert(rows.take(i + 1).drop_last() == rows.take(i as int));
        assert(cols.take(i + 1).drop_last() == cols.take(i as int));
        if c.0 < min_row {
            min_row = c.0;
        }
        if c.0 > max_row {
            max_row = c.0;
        }
        if c.1 < min_col {
            min_col = c.1;
        }
        if c.1 > max_col {
            max_col = c.1;
        }
        i += 1;
    }
    proof {
        assert(rows.take(coords@.len() as int) == rows);
        assert(cols.take(coords@.len() as int) == cols);
        assert forall|k: int| 0 <= k < rows.len() implies -MAX_PIXEL <= #[trigger] rows[k] <= MAX_PIXEL by {
            assert(-MAX_PIXEL <= coords@[k].0 <= MAX_PIXEL);
        }
        assert forall|k: int| 0 <= k < cols.len() implies -MAX_PIXEL <= #[trigger] cols[k] <= MAX_PIXEL by {
            assert(-MAX_PIXEL <= coords@[k].0 <= MAX_PIXEL);
            assert(-MAX_PIXEL <= coords@[k].1 <= MAX_PIXEL);
        }
        lemma_min_max_bounds(rows, -MAX_PIXEL as int, MAX_PIXEL as int);
        lemma_min_max_bounds(cols, -MAX_PIXEL as int, MAX_PIXEL as int);
    }
    let mid_row = halved(max_row + min_row);
    let mid_col = halved(max_col + min_col);
    let h: i32 = 18;
    let mut r: Vec<Coords> = Vec::new();
    let mut j: usize = 0;
    while j < coords.len()
        invariant
            j <= coords@.len(),
            within_pixels(coords@),
            -MAX_PIXEL <= mid_row <= MAX_PIXEL,
            -MAX_PIXEL <= mid_col <= MAX_PIXEL,
            mid_row == half(seq_max(rows_of(coords@)) + seq_min(rows_of(coords@))),
            mid_col == half(seq_max(cols_of(coords@)) + seq_min(cols_of(coords@))),
            h == SQUARE_WIDTH as int / 2,
            r@ == centered(coords@).take(j as int),
        decreases coords.len() - j,
    {
        let c = coords[j];
        r.push(Coords(c.0 - mid_row - h, c.1 - mid_col - h));
        j += 1;
        assert(r@ == centered(coords@).take(j as int));
    }
    assert(centered(coords@).take(coords@.len() as int) == centered(coords@));
    r
}

/// Squares scaled to pixels.
pub open spec fn scaled_to_pixels(shape: Seq<Coords>) -> Seq<Coords> {
    Seq::new(
        shape.len(),
        |i: int| Coords((shape[i].0 * SQUARE_WIDTH as int) as i32, (shape[i].1 * SQUARE_WIDTH as int) as i32),
    )
}

/// The squares of a piece of `kind` in its spawn orientation, scaled to
/// pixels, centred on the point (`x_offset`, `y_offset`): the top-left
/// corners where its square images are drawn.
pub open spec fn piece_squares(kind: PieceKind, x_offset: int, y_offset: int) -> Seq<Coords> {
    let c = centered(scaled_to_pixels(kind.shape()));
    Seq::new(c.len(), |i: int| Coords((c[i].0 + y_offset) as i32, (c[i].1 + x_offset) as i32))
}

/// Where the squares of a piece of `kind` are drawn when it is centred on
/// (`x_offset`, `y_offset`), in pixels.
pub fn piece_square_positions(kind: PieceKind, x_offset: usize, y_offset: usize) -> (r: Vec<Coords>)
    requires
        x_offset <= MAX_PIXEL,
        y_offset <= MAX_PIXEL,
    ensures
        r@ == piece_squares(kind, x_offset as int, y_offset as int),
{
    let offsets = kind.spawn_offsets();
    proof {
        crate::pieces::lemma_shape_small(kind);
    }
    let ghost shape = kind.shape();
    let ghost scaled = scaled_to_pixels(shape);
    let mut base: Vec<Coords> = Vec::new();
    let mut i: usize = 0;
    while i < offsets.len()
        invariant
            i <= offsets@.len(),
            offsets@ == shape,
            crate::pieces::small_shape(shape),
            scaled == scaled_to_pixels(shape),
            base@ == scaled.take(i as int),
        decreases offsets.len() - i,
    {
        let o = offsets[i];
        assert(o == shape[i as int]);
        assert(-2 <= shape[i as int].0 <= 2 && -2 <= shape[i as int].1 <= 2);
        let ghost before = base@;
        let sq = Coords(o.0 * 36, o.1 * 36);
        base.push(sq);
        assert(scaled[i as int] == sq);
        assert(scaled.take(i + 1) == scaled.take(i as int).push(scaled[i as int]));
        i += 1;
        assert(base@ == scaled.take(i as int));
    }
    assert(scaled.take(offsets@.len() as int) == scaled);
    let centred = center_coords_around_origin(base);
    let ghost c = centered(scaled);
    proof {
        let rows = rows_of(scaled);
        let cols = cols_of(scaled);
        assert forall|k: int| 0 <= k < rows.len() implies -72 <= #[trigger] rows[k] <= 72 && -72 <= cols[k] <= 72 by {
            assert(-2 <= shape[k].0 <= 2 && -2 <= shape[k].1 <= 2);
        }
        lemma_min_max_bounds(rows, -72, 72);
        lemma_min_max_bounds(cols, -72, 72);
        assert forall|k: int| 0 <= k < c.len() implies -200 <= #[trigger] c[k].0 <= 200 && -200 <= c[k].1 <= 200 by {
            assert(-72 <= rows[k] <= 72 && -72 <= cols[k] <= 72);
        }
    }
    let x = x_offset as i32;
    let y = y_offset as i32;
    let mut r: Vec<Coords> = Vec::new();
    let mut j: usize = 0;
    while j < centred.len()
        invariant
            j <= centred@.len(),
            centred@ == c,
            c == centered(scaled),
            scaled == scaled_to_pixels(shape),
            shape == kind.shape(),
            crate::pieces::small_shape(shape),
            scaled.len() == shape.len(),
            -72 <= seq_min(rows_of(scaled)) <= 72,
            -72 <= seq_max(rows_of(scaled)) <= 72,
            -72 <= seq_min(cols_of(scaled)) <= 72,
            -72 <= seq_max(cols_of(scaled)) <= 72,
            forall|k: int| 0 <= k < c.len() ==> -200 <= #[trigger] c[k].0 <= 200 && -200 <= c[k].1 <= 200,
            x == x_offset,
            y == y_offset,
            x_offset <= MAX_PIXEL,
            y_offset <= MAX_PIXEL,
            r@ == piece_squares(kind, x_offset as int, y_offset as int).take(j as int),
        decreases centred.len() - j,
    {
        let p = centred[j];
        let sq = Coords(p.0 + y, p.1 + x);
        r.push(sq);
        assert(piece_squares(kind, x_offset as int, y_offset as int)[j as int] == sq);
        j += 1;
        assert(r@ == piece_squares(kind, x_offset as int, y_offset as int).take(j as int));
    }
    assert(piece_squares(kind, x_offset as int, y_offset as int).take(centred@.len() as int) == piece_squares(
        kind,
        x_offset as int,
        y_offset as int,
    ));
    r
}

/// The point the hold piece is centred on, in its panel.
pub fn hold_piece_center() -> (r: (usize, usize))
    ensures
        r.0 == SIDE_BAR_WIDTH / 2,
        r.1 == LABEL_HEIGHT + PIECE_HEIGHT / 2,
{
    (SIDE_BAR_WIDTH / 2, LABEL_HEIGHT + PIECE_HEIGHT / 2)
}

/// The point the `nth` piece of the next queue (counting from zero) is
/// centred on, in its panel.
pub fn queue_piece_center(nth: usize) -> (r: (usize, usize))
    requires
        LABEL_HEIGHT + PIECE_HEIGHT * (nth + 1) <= usize::MAX,
    ensures
        r.0 == SIDE_BAR_WIDTH / 2,
        r.1 == LABEL_HEIGHT + PIECE_HEIGHT * (nth + 1) - PIECE_HEIGHT / 2,
{
    assert(PIECE_HEIGHT == 108);
    (SIDE_BAR_WIDTH / 2, LABEL_HEIGHT + PIECE_HEIGHT * (nth + 1) - PIECE_HEIGHT / 2)
}

/// Height of the next queue panel for `queue_len` pieces.
pub fn next_queue_height(queue_len: usize) -> (r: usize)
    requires
        LABEL_HEIGHT + PIECE_HEIGHT * queue_len + SIDE_BAR_PADDING <= usize::MAX,
    ensures
        r == LABEL_HEIGHT + PIECE_HEIGHT * queue_len + SIDE_BAR_PADDING,
{
    assert(PIECE_HEIGHT == 108);
    LABEL_HEIGHT + PIECE_HEIGHT * queue_len + SIDE_BAR_PADDING
}

/// The image a filled square of `kind` is drawn with: grey once the game
/// has ended, else the piece's own.
pub fn square_asset(kind: PieceKind, topped_out: bool) -> (r: &'static str)
    ensures
        topped_out ==> r@ == "grey"@,
        !topped_out ==> r@ == kind.asset(),
{
    if topped_out {
        "grey"
    } else {
        kind.asset_name()
    }
}

/// The image of a filled square of `kind` (see `square_asset`).
pub open spec fn asset_view(kind: PieceKind, topped_out: bool) -> Seq<char> {
    if topped_out {
        "grey"@
    } else {
        kind.asset()
    }
}

/// The filled squares among the first `c` of line `row`, left to right:
/// their line, column and image.
pub open spec fn row_cells(line: Seq<Square>, row: int, topped_out: bool, c: int) -> Seq<(int, int, Seq<char>)>
    decreases c,
{
    if c <= 0 {
        Seq::empty()
    } else {
        row_cells(line, row, topped_out, c - 1) + match line[c - 1] {
            Square::Filled(kind) => seq![(row, c - 1, asset_view(kind, topped_out))],
            Square::Empty => Seq::empty(),
        }
    }
}

/// The filled squares of the first `r` lines of `grid`, line by line.
pub open spec fn grid_cells(grid: Seq<Seq<Square>>, topped_out: bool, r: int) -> Seq<(int, int, Seq<char>)>
    decreases r,
{
    if r <= 0 {
        Seq::empty()
    } else {
        grid_cells(grid, topped_out, r - 1) + row_cells(grid[r - 1], r - 1, topped_out, grid[r - 1].len() as int)
    }
}

/// The squares to draw as values.
pub open spec fn draw_views(items: Seq<(usize, usize, &'static str)>) -> Seq<(int, int, Seq<char>)> {
    Seq::new(items.len(), |i: int| (items[i].0 as int, items[i].1 as int, items[i].2@))
}

/// The filled squares of the field to draw, line by line and left to right:
/// each with its line, its column and its image (grey once the game has
/// ended).
pub fn field_squares(field: &DefaultField, topped_out: bool) -> (r: Vec<(usize, usize, &'static str)>)
    ensures
        draw_views(r@) == grid_cells(field@.grid, topped_out, field@.grid.len() as int),
{
    let lines = field.lines();
    let ghost grid = field@.grid;
    let mut r: Vec<(usize, usize, &'static str)> = Vec::new();
    let mut row: usize = 0;
    while row < lines.len()
        invariant
            row <= lines@.len(),
            line_views(lines@) == grid,
            draw_views(r@) == grid_cells(grid, topped_out, row as int),
        decreases lines.len() - row,
    {
        let squares = lines[row].squares();
        assert(squares@ == grid[row as int]);
        let ghost before = draw_views(r@);
        let mut col: usize = 0;
        while col < squares.len()
            invariant
                col <= squares@.len(),
                row < lines@.len(),
                squares@ == grid[row as int],
                draw_views(r@) == before + row_cells(grid[row as int], row as int, topped_out, col as int),
            decreases squares.len() - col,
        {
            match squares[col] {
                Square::Filled(kind) => {
                    let ghost prev = r@;
                    r.push((row, col, square_asset(kind, topped_out)));
                    assert(draw_views(r@) =~= draw_views(prev).push((row as int, col as int, asset_view(kind, topped_out))));
                },
                Square::Empty => {},
            }
            col += 1;
            assert(row_cells(grid[row as int], row as int, topped_out, col as int) =~= row_cells(
                grid[row as int],
                row as int,
                topped_out,
                col - 1,
            ) + match grid[row as int][col - 1] {
                Square::Filled(kind) => seq![(row as int, col - 1, asset_view(kind, topped_out))],
                Square::Empty => Seq::empty(),
            });
        }
        row += 1;
    }
    r
}

/// The shadow piece to draw (where the current piece would drop) with its
/// image; there is none once the game has ended.
pub fn field_shadow(field: &DefaultField, topped_out: bool) -> (r: Option<(Vec<Coords>, &'static str)>)
    requires
        field.wf(),
    ensures
        match r {
            Some(shadow) => !topped_out && shadow.0@ == field@.dropped(field@.cur).coords && shadow.1@
                == field@.cur.kind.asset(),
            None => topped_out,
        },
{
    if topped_out {
        None
    } else {
        let shadow = field.shadow_piece();
        let coords = shadow.coords().clone();
        Some((coords, shadow.kind().asset_name()))
    }
}

/// The path of the image `asset` of the skin `skin`.
pub open spec fn skin_path(skin: Seq<char>, asset: Seq<char>) -> Seq<char> {
    "assets/skins/"@ + skin + "/"@ + asset + ".png"@
}

/// The path of the image `asset` of the skin `skin`:
/// "assets/skins/<skin>/<asset>.png".
pub fn asset_path(skin: &str, asset: &str) -> (r: String)
    ensures
        r@ == skin_path(skin@, asset@),
{
    let mut r = String::from_str("assets/skins/");
    r.append(skin);
    r.append("/");
    r.append(asset);
    r.append(".png");
    r
}

/// A square image to draw: its top-left corner (`x` across, `y` down) and
/// side length in pixels, and the path of the image.
#[derive(Clone, Debug, PartialEq, Eq)]
pub struct SquareImage {
    pub x: usize,
    pub y: usize,
    pub size: usize,
    pub path: String,
}

/// A square image as values: corner, side length and path.
pub open spec fn image_view(s: SquareImage) -> (int, int, int, Seq<char>) {
    (s.x as int, s.y as int, s.size as int, s.path@)
}

pub open spec fn image_views(s: Seq<SquareImage>) -> Seq<(int, int, int, Seq<char>)> {
    Seq::new(s.len(), |i: int| image_view(s[i]))
}

/// The square at line `row` and column `col`, drawn with image `asset` of
/// `skin`: its corner is `SQUARE_WIDTH` pixels per column across and per
/// line down, and it is `SQUARE_WIDTH` pixels wide and high.
pub open spec fn square_at(row: int, col: int, skin: Seq<char>, asset: Seq<char>) -> (int, int, int, Seq<char>) {
    (col * SQUARE_WIDTH as int, row * SQUARE_WIDTH as int, SQUARE_WIDTH as int, skin_path(skin, asset))
}

/// Squares given by line, column and image, placed in pixels.
pub open spec fn placed_cells(cells: Seq<(int, int, Seq<char>)>, skin: Seq<char>) -> Seq<(int, int, int, Seq<char>)> {
    Seq::new(cells.len(), |i: int| square_at(cells[i].0, cells[i].1, skin, cells[i].2))
}

/// Squares given by coordinates, all drawn with image `asset`, placed in
/// pixels.
pub open spec fn placed_coords(coords: Seq<Coords>, skin: Seq<char>, asset: Seq<char>) -> Seq<(int, int, int, Seq<char>)> {
    Seq::new(coords.len(), |i: int| square_at(coords[i].0 as int, coords[i].1 as int, skin, asset))
}

/// The pixel positions of the squares of a field of these sizes fit in a
/// `usize`.
pub open spec fn pixels_fit(width: nat, height: nat) -> bool {
    width * SQUARE_WIDTH <= usize::MAX && height * SQUARE_WIDTH <= usize::MAX
}

/// The squares of `row_cells` lie on line `row`, in the first `c` columns.
proof fn lemma_row_cells_bounds(line: Seq<Square>, row: int, topped_out: bool, c: int)
    ensures
        forall|i: int|
            0 <= i < row_cells(line, row, topped_out, c).len() ==> (#[trigger] row_cells(line, row, topped_out, c)[i]).0
                == row && 0 <= row_cells(line, row, topped_out, c)[i].1 < c,
    decreases c,
{
    if c > 0 {
        lemma_row_cells_bounds(line, row, topped_out, c - 1);
        let prev = row_cells(line, row, topped_out, c - 1);
        let all = row_cells(line, row, topped_out, c);
        assert forall|i: int| 0 <= i < all.len() implies (#[trigger] all[i]).0 == row && 0 <= all[i].1 < c by {
            if i < prev.len() {
                assert(all[i] == prev[i]);
            }
        }
    }
}

/// The squares of `grid_cells` lie in the first `r` lines, each in a column
/// of its line.
proof fn lemma_grid_cells_bounds(grid: Seq<Seq<Square>>, topped_out: bool, r: int)
    requires
        r <= grid.len(),
    ensures
        forall|i: int|
            0 <= i < grid_cells(grid, topped_out, r).len() ==> 0 <= (#[trigger] grid_cells(grid, topped_out, r)[i]).0
                < r && 0 <= grid_cells(grid, topped_out, r)[i].1 < grid[grid_cells(grid, topped_out, r)[i].0].len(),
    decreases r,
{
    if r > 0 {
        lemma_grid_cells_bounds(grid, topped_out, r - 1);
        let prev = grid_cells(grid, topped_out, r - 1);
        let last = row_cells(grid[r - 1], r - 1, topped_out, grid[r - 1].len() as int);
        lemma_row_cells_bounds(grid[r - 1], r - 1, topped_out, grid[r - 1].len() as int);
        let all = grid_cells(grid, topped_out, r);
        assert forall|i: int| 0 <= i < all.len() implies 0 <= (#[trigger] all[i]).0 < r && 0 <= all[i].1
            < grid[all[i].0].len() by {
            if i < prev.len() {
                assert(all[i] == prev[i]);
            } else {
                assert(all[i] == last[i - prev.len()]);
            }
        }
    }
}

/// The filled squares of the field as images of `skin`, line by line and
/// left to right: a square at line `r` and column `c` is drawn at
/// `c * SQUARE_WIDTH` across and `r * SQUARE_WIDTH` down, `SQUARE_WIDTH`
/// pixels wide and high, with its piece's image (grey once the game has
/// ended).
pub fn field_square_images(field: &DefaultField, topped_out: bool, skin: &str) -> (r: Vec<SquareImage>)
    requires
        field.wf(),
        pixels_fit(field@.width, field@.height),
    ensures
        image_views(r@) == placed_cells(grid_cells(field@.grid, topped_out, field@.grid.len() as int), skin@),
{
    let cells = field_squares(field, topped_out);
    let ghost grid = field@.grid;
    let ghost want = placed_cells(grid_cells(grid, topped_out, grid.len() as int), skin@);
    proof {
        lemma_grid_cells_bounds(grid, topped_out, grid.len() as int);
    }
    let mut r: Vec<SquareImage> = Vec::new();
    let mut i: usize = 0;
    while i < cells.len()
        invariant
            i <= cells@.len(),
            field.wf(),
            grid == field@.grid,
            pixels_fit(field@.width, field@.height),
            draw_views(cells@) == grid_cells(grid, topped_out, grid.len() as int),
            want == placed_cells(grid_cells(grid, topped_out, grid.len() as int), skin@),
            forall|k: int|
                0 <= k < grid_cells(grid, topped_out, grid.len() as int).len() ==> 0 <= (#[trigger] grid_cells(
                    grid,
                    topped_out,
                    grid.len() as int,
                )[k]).0 < grid.len() && 0 <= grid_cells(grid, topped_out, grid.len() as int)[k].1 < grid[grid_cells(
                    grid,
                    topped_out,
                    grid.len() as int,
                )[k].0].len(),
            image_views(r@) == want.take(i as int),
        decreases cells.len() - i,
    {
        let (row, col, asset) = cells[i];
        assert(draw_views(cells@)[i as int] == (row as int, col as int, asset@));
        assert(row < field@.height && col < field@.width);
        assert(row * SQUARE_WIDTH <= field@.height * SQUARE_WIDTH) by (nonlinear_arith)
            requires
                row < field@.height,
        ;
        assert(col * SQUARE_WIDTH <= field@.width * SQUARE_WIDTH) by (nonlinear_arith)
            requires
                col < field@.width,
        ;
        let image = SquareImage {
            x: col * SQUARE_WIDTH,
            y: row * SQUARE_WIDTH,
            size: SQUARE_WIDTH,
            path: asset_path(skin, asset),
        };
        let ghost prev = r@;
        r.push(image);
        i += 1;
        assert(image_views(r@) =~= image_views(prev).push(image_view(image)));
        assert(want.take(i as int) =~= want.take(i - 1).push(want[i - 1]));
    }
    assert(want.take(cells@.len() as int) =~= want);
    r
}

/// The shadow piece (where the current piece would drop) as images of
/// `skin`, placed as the field's squares are, with the current piece's
/// image; none once the game has ended.
pub fn shadow_square_images(field: &DefaultField, topped_out: bool, skin: &str) -> (r: Vec<SquareImage>)
    requires
        field.wf(),
        pixels_fit(field@.width, field@.height),
    ensures
        topped_out ==> r@.len() == 0,
        !topped_out ==> image_views(r@) == placed_coords(
            field@.dropped(field@.cur).coords,
            skin@,
            field@.cur.kind.asset(),
        ),
{
    let mut r: Vec<SquareImage> = Vec::new();
    if topped_out {
        return r;
    }
    let shadow = field.shadow_piece();
    let coords = shadow.coords();
    let asset = shadow.kind().asset_name();
    let ghost want = placed_coords(field@.dropped(field@.cur).coords, skin@, field@.cur.kind.asset());
    proof {
        lemma_projected_piece_is_shadow(field@, false);
    }
    let mut i: usize = 0;
    while i < coords.len()
        invariant
            i <= coords@.len(),
            field.wf(),
            pixels_fit(field@.width, field@.height),
            coords@ == field@.dropped(field@.cur).coords,
            coords@.len() == field@.cur.coords.len(),
            asset@ == field@.cur.kind.asset(),
            forall|k: int| 0 <= k < coords@.len() ==> field@.in_bounds(#[trigger] coords@[k]),
            want == placed_coords(field@.dropped(field@.cur).coords, skin@, field@.cur.kind.asset()),
            image_views(r@) == want.take(i as int),
        decreases coords.len() - i,
    {
        let c = coords[i];
        assert(field@.in_bounds(coords@[i as int]));
        let row = c.0 as usize;
        let col = c.1 as usize;
        assert(row * SQUARE_WIDTH <= field@.height * SQUARE_WIDTH) by (nonlinear_arith)
            requires
                row < field@.height,
        ;
        assert(col * SQUARE_WIDTH <= field@.width * SQUARE_WIDTH) by (nonlinear_arith)
            requires
                col < field@.width,
        ;
        let image = SquareImage {
            x: col * SQUARE_WIDTH,
            y: row * SQUARE_WIDTH,
            size: SQUARE_WIDTH,
            path: asset_path(skin, asset),
        };
        let ghost prev = r@;
        r.push(image);
        i += 1;
        assert(image_views(r@) =~= image_views(prev).push(image_view(image)));
        assert(want.take(i as int) =~= want.take(i - 1).push(want[i - 1]));
    }
    assert(want.take(coords@.len() as int) =~= want);
    r
}

/// What the field view draws, in order: the shadow piece (see
/// `shadow_square_images`, drawn faded), then the filled squares of the
/// field (see `field_square_images`).
pub fn field_draw_list(field: &DefaultField, topped_out: bool, skin: &str) -> (r: (Vec<SquareImage>, Vec<SquareImage>))
    requires
        field.wf(),
        pixels_fit(field@.width, field@.height),
    ensures
        topped_out ==> r.0@.len() == 0,
        !topped_out ==> image_views(r.0@) == placed_coords(
            field@.dropped(field@.cur).coords,
            skin@,
            field@.cur.kind.asset(),
        ),
        image_views(r.1@) == placed_cells(grid_cells(field@.grid, topped_out, field@.grid.len() as int), skin@),
{
    (shadow_square_images(field, topped_out, skin), field_square_images(field, topped_out, skin))
}

} // verus!
