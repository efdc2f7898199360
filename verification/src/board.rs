//! The game board: the field, the bag it draws from and the states of the
//! inputs, driven by key presses and releases and by the timers that the
//! interface runs (repeating held inputs, gravity and lock delay). Each
//! handler decides what happens on the board and tells the interface which
//! timer to start or stop.

use vstd::prelude::*;

use crate::config::{lemma_kick_tables_fit, Config, PieceTypes};
use crate::field::{
    initial_view, rotation_outcome, spawn_fits, empty_grid, DefaultField, FieldView, LineClear, MAX_DIM,
};
use crate::input::{all_released, pressed_states, released_states, Input, InputState, InputStates};
use crate::keybinds::Keybinds;
use crate::kicks::{KickTable, KickTable180};
use crate::pieces::{PieceKind, PieceKindTrait};
use crate::spins::SpinDetector;
use crate::{deals_next, is_permutation, lemma_peek_shows_next, refilled, Coords, Randomizer, SingleBag};

verus! {

/// What the interface does after the board handled a key.
#[derive(Copy, Clone, Debug, PartialEq, Eq, Structural)]
pub enum KeyEffect {
    Nothing,
    /// The board was reset: the goal, the timers and the last line clear
    /// start over too.
    ResetBoard,
    /// Show or hide the interface.
    ToggleUi,
    /// Start the timer that repeats the held input.
    StartTimer(Input),
    /// Stop the timer of the released input.
    StopTimer(Input),
}

/// The board as values.
pub ghost struct BoardView {
    pub field: FieldView,
    pub inputs: Map<Input, InputState>,
    /// The piece kinds the bag hands out, a full bag of them.
    pub kinds: Seq<PieceKind>,
    /// The bag's queue, dealt from its end (see `SingleBag`).
    pub queue: Seq<PieceKind>,
    /// The squares of the current piece when lock delay last started.
    pub lock_delay_piece: Seq<Coords>,
    pub topped_out: bool,
    /// The field width, height, hidden lines and queue length the board was
    /// made with; a reset uses them.
    pub sizes: (usize, usize, usize, usize),
}

/// The field, its bag, the input states and whether the game has ended.
pub struct Board {
    field: DefaultField,
    bag: SingleBag,
    inputs: InputStates,
    lock_delay_piece: Vec<Coords>,
    topped_out: bool,
    sizes: (usize, usize, usize, usize),
}

impl View for Board {
    type V = BoardView;

    closed spec fn view(&self) -> BoardView {
        BoardView {
            field: self.field@,
            inputs: self.inputs@,
            kinds: self.bag@.0,
            queue: self.bag@.1,
            lock_delay_piece: self.lock_delay_piece@,
            topped_out: self.topped_out,
            sizes: self.sizes,
        }
    }
}

/// The field sizes are supported and every piece kind of `piece_type`
/// fits where pieces spawn.
pub open spec fn pieces_fit(piece_type: PieceTypes, width: usize, height: usize, hidden: usize) -> bool {
    &&& width <= MAX_DIM
    &&& height <= MAX_DIM
    &&& hidden <= MAX_DIM
    &&& forall|k: PieceKind|
        #[trigger] piece_type.kinds_spec().contains(k) ==> spawn_fits(width as nat, height as nat, hidden as nat, k)
}

/// The field sizes of `config` are supported and every piece kind of its
/// piece type fits where pieces spawn.
pub open spec fn config_fits(config: Config) -> bool {
    pieces_fit(config.piece_type, config.field_width, config.field_height, config.field_hidden)
}

/// `queue` is what is left of two freshly shuffled bags of `kinds` after
/// dealing `kind`.
pub open spec fn fresh_bag_dealt(kinds: Seq<PieceKind>, queue: Seq<PieceKind>, kind: PieceKind) -> bool {
    exists|first: Seq<PieceKind>, second: Seq<PieceKind>|
        is_permutation(first, kinds) && is_permutation(second, kinds) && #[trigger] (second + first) == queue.push(
            kind,
        )
}

/// A board just set up with a new bag of the kinds of `piece_type` and a
/// new field of the board's sizes, whose first piece the bag dealt; not
/// topped out.
pub open spec fn is_reset(w: BoardView, piece_type: PieceTypes) -> bool {
    &&& w.kinds == piece_type.kinds_spec()
    &&& fresh_bag_dealt(w.kinds, w.queue, w.field.cur.kind)
    &&& w.field == initial_view(
        w.sizes.0 as nat,
        w.sizes.1 as nat,
        w.sizes.2 as nat,
        w.sizes.3 as nat,
        w.field.cur.kind,
    )
    &&& !w.topped_out
}

/// The count of actions since lock delay started can still grow.
pub open spec fn can_count(v: FieldView) -> bool {
    v.lock_delay != Some(usize::MAX)
}

/// One shift of the current piece, made while actions can still be counted.
pub open spec fn step(v: FieldView, rows: int, cols: int) -> FieldView {
    if can_count(v) {
        v.shift_outcome(rows, cols).1
    } else {
        v
    }
}

/// The field after `n` shifts of the current piece.
pub open spec fn slid(v: FieldView, rows: int, cols: int, n: nat) -> FieldView
    decreases n,
{
    if n == 0 {
        v
    } else {
        slid(v, rows, cols, (n - 1) as nat).shift_outcome(rows, cols).1
    }
}

/// `w` is the field after shifting the current piece again and again until
/// it is blocked (or no more actions can be counted).
pub open spec fn slid_to_end(v: FieldView, rows: int, cols: int, w: FieldView) -> bool {
    exists|n: nat|
        #[trigger] slid(v, rows, cols, n) == w && !(can_count(w) && w.shift_outcome(rows, cols).0)
}

/// The shift of a held input: left, right or down.
pub open spec fn direction(input: Input) -> (int, int) {
    match input {
        Input::Left => (0, -1),
        Input::Right => (0, 1),
        _ => (1, 0),
    }
}

/// The inputs that repeat while held.
pub open spec fn repeats(input: Input) -> bool {
    input == Input::Left || input == Input::Right || input == Input::SoftDrop
}

/// The repeat delay of a held input.
pub open spec fn repeat_delay(input: Input, config: Config) -> u32 {
    if input == Input::SoftDrop {
        config.soft_drop_rate
    } else {
        config.auto_repeat_rate
    }
}

/// `w` is the field after a held move by `rows` and `cols` repeating every
/// `delay` milliseconds: one step, or as far as the piece goes when the
/// delay is zero.
pub open spec fn held_move(v: FieldView, rows: int, cols: int, delay: u32, w: FieldView) -> bool {
    if delay == 0 {
        slid_to_end(v, rows, cols, w)
    } else {
        w == step(v, rows, cols)
    }
}

/// The squares `to` are the squares `from`, each moved `k` times by
/// (`rows`, `cols`).
spec fn moved_straight(from: Seq<Coords>, to: Seq<Coords>, rows: int, cols: int, k: int) -> bool {
    &&& to.len() == from.len()
    &&& forall|i: int|
        0 <= i < from.len() ==> #[trigger] to[i].0 == from[i].0 + k * rows && to[i].1 == from[i].1 + k * cols
}

/// After `n` shifts by one square (`rows`, `cols`), the current piece is the
/// same piece moved `k` times by (`rows`, `cols`), for some `k` up to `n`,
/// and it lies inside the field.
proof fn lemma_slid_moves_straight(v: FieldView, rows: int, cols: int, n: nat)
    requires
        v.wf(),
        -1 <= rows <= 1,
        -1 <= cols <= 1,
    ensures
        ({
            let w = slid(v, rows, cols, n);
            &&& w.height == v.height
            &&& w.width == v.width
            &&& w.cur.kind == v.cur.kind
            &&& w.cur.rotation == v.cur.rotation
            &&& w.cur.coords.len() == v.cur.coords.len()
            &&& forall|i: int| 0 <= i < w.cur.coords.len() ==> v.in_bounds(#[trigger] w.cur.coords[i])
            &&& exists|k: int| 0 <= k <= n && #[trigger] moved_straight(v.cur.coords, w.cur.coords, rows, cols, k)
        }),
    decreases n,
{
    if n == 0 {
        assert(moved_straight(v.cur.coords, v.cur.coords, rows, cols, 0));
        assert forall|i: int| 0 <= i < v.cur.coords.len() implies v.in_bounds(#[trigger] v.cur.coords[i]) by {}
    } else {
        lemma_slid_moves_straight(v, rows, cols, (n - 1) as nat);
        let u = slid(v, rows, cols, (n - 1) as nat);
        let k = choose|k: int| 0 <= k <= n - 1 && #[trigger] moved_straight(v.cur.coords, u.cur.coords, rows, cols, k);
        let w = slid(v, rows, cols, n);
        assert(w == u.shift_outcome(rows, cols).1);
        if u.shift_outcome(rows, cols).0 {
            let moved = u.cur.shifted(rows, cols);
            assert(!u.blocked(moved.coords, Some(u.cur.coords)));
            assert(w.cur == moved);
            assert forall|i: int| 0 <= i < w.cur.coords.len() implies v.in_bounds(#[trigger] w.cur.coords[i]) by {
                assert(!u.square_blocked(moved.coords[i], Some(u.cur.coords)));
            }
            assert forall|i: int| 0 <= i < v.cur.coords.len() implies #[trigger] w.cur.coords[i].0 == v.cur.coords[i].0
                + (k + 1) * rows && w.cur.coords[i].1 == v.cur.coords[i].1 + (k + 1) * cols by {
                assert(v.in_bounds(u.cur.coords[i]));
                assert(u.cur.coords[i].0 == v.cur.coords[i].0 + k * rows);
                assert((k + 1) * rows == k * rows + rows) by (nonlinear_arith);
                assert((k + 1) * cols == k * cols + cols) by (nonlinear_arith);
            }
            assert(moved_straight(v.cur.coords, w.cur.coords, rows, cols, k + 1));
        } else {
            assert(w == u);
        }
    }
}

/// The squares `to` are the squares `from`, each moved by `rows` lines down
/// and `cols` columns right.
pub open spec fn shifted_by(from: Seq<Coords>, to: Seq<Coords>, rows: int, cols: int) -> bool {
    &&& to.len() == from.len()
    &&& forall|i: int| 0 <= i < from.len() ==> #[trigger] to[i].0 == from[i].0 + rows && to[i].1 == from[i].1 + cols
}

/// A held input moves the piece only its own way: a held soft drop moves it
/// straight down, some number of lines (none if it cannot fall), never
/// sideways; a held left moves it along its line to the left and a held
/// right to the right, never up or down. The kind and rotation of the
/// piece stay.
pub proof fn lemma_held_input_moves_its_way(v: FieldView, input: Input, delay: u32, w: FieldView)
    requires
        v.wf(),
        repeats(input),
        held_move(v, direction(input).0, direction(input).1, delay, w),
    ensures
        w.cur.kind == v.cur.kind,
        w.cur.rotation == v.cur.rotation,
        input == Input::SoftDrop ==> exists|d: int| 0 <= d && #[trigger] shifted_by(v.cur.coords, w.cur.coords, d, 0),
        input == Input::Left ==> exists|d: int| d <= 0 && #[trigger] shifted_by(v.cur.coords, w.cur.coords, 0, d),
        input == Input::Right ==> exists|d: int| 0 <= d && #[trigger] shifted_by(v.cur.coords, w.cur.coords, 0, d),
{
    let rows = direction(input).0;
    let cols = direction(input).1;
    assert(-1 <= rows <= 1 && -1 <= cols <= 1);
    let n: nat = if delay == 0 {
        choose|n: nat| #[trigger] slid(v, rows, cols, n) == w && !(can_count(w) && w.shift_outcome(rows, cols).0)
    } else if can_count(v) {
        1
    } else {
        0
    };
    assert(slid(v, rows, cols, n) == w) by {
        if delay != 0 {
            assert(slid(v, rows, cols, 0) == v);
        }
    }
    lemma_slid_moves_straight(v, rows, cols, n);
    let k = choose|k: int| 0 <= k <= n && #[trigger] moved_straight(v.cur.coords, w.cur.coords, rows, cols, k);
    if input == Input::SoftDrop {
        assert(shifted_by(v.cur.coords, w.cur.coords, k, 0));
    } else if input == Input::Left {
        assert(shifted_by(v.cur.coords, w.cur.coords, 0, -k));
    } else {
        assert(shifted_by(v.cur.coords, w.cur.coords, 0, k));
    }
}

/// Whether `input` draws a piece from the bag: a hard drop always, a swap
/// with the hold piece when nothing is held yet and no swap was made.
pub open spec fn draws(v: FieldView, input: Input) -> bool {
    ||| input == Input::HardDrop
    ||| input == Input::SwapHold && !v.hold_swapped && v.hold is None
}

/// A hard drop with the spin that the configured detector sees: the field
/// after, the line clear and whether the next piece (`next`) fit.
pub open spec fn dropped(v: FieldView, config: Config, next: PieceKind) -> (FieldView, (usize, Option<PieceKind>, bool), bool) {
    let locked = v.locked();
    let spin = config.spin_types.spin(locked);
    let (spawned, w) = locked.cleared_and_spawned(next);
    (w, (locked.n_cleared() as usize, spin.0, spin.1), spawned)
}

/// What a pressed `input` does to the field, with `next` the kind the bag
/// hands out if asked: the field after, the line clear of a hard drop, and
/// whether play can go on (a piece spawned after a hard drop). Moves are made
/// while actions can still be counted.
pub open spec fn input_action(v: FieldView, input: Input, config: Config, next: PieceKind) -> (FieldView, Option<(usize, Option<PieceKind>, bool)>, bool) {
    let kind = v.cur.kind;
    let rotation = v.cur.rotation;
    match input {
        Input::Left => (step(v, 0, -1), None, true),
        Input::Right => (step(v, 0, 1), None, true),
        Input::SoftDrop => (step(v, 1, 0), None, true),
        Input::RotateCw => (
            if can_count(v) {
                rotation_outcome(v, v.cur.turned(), config.kick_table.cw_kicks(kind, rotation)).1
            } else {
                v
            },
            None,
            true,
        ),
        Input::RotateCcw => (
            if can_count(v) {
                rotation_outcome(v, v.cur.turned().turned().turned(), config.kick_table.ccw_kicks(kind, rotation)).1
            } else {
                v
            },
            None,
            true,
        ),
        Input::Rotate180 => (
            if can_count(v) {
                rotation_outcome(
                    v,
                    v.cur.turned().turned(),
                    config.kick_table_180.half_turn_kicks(kind, rotation),
                ).1
            } else {
                v
            },
            None,
            true,
        ),
        Input::SwapHold => (v.swap_hold(next).1, None, true),
        Input::HardDrop => {
            let (w, clear, spawned) = dropped(v, config, next);
            (w, Some(clear), spawned)
        },
        _ => (v, None, true),
    }
}

/// The timer a pressed input starts.
pub open spec fn started_timer(input: Input) -> KeyEffect {
    if repeats(input) {
        KeyEffect::StartTimer(input)
    } else {
        KeyEffect::Nothing
    }
}

/// A line clear as values.
pub open spec fn clear_view(c: Option<LineClear>) -> Option<(usize, Option<PieceKind>, bool)> {
    match c {
        Some(c) => Some(c@),
        None => None,
    }
}

/// `w` and `clear` are what the pressed `input` does to the board `v`: when
/// the input draws a piece, the bag deals the kind at the end of its queue
/// (refilling it first if needed, see `deals_next`); otherwise the bag is
/// left as it was. A line clear tells whether the drop left the field empty.
pub open spec fn acted(v: BoardView, input: Input, config: Config, clear: Option<LineClear>, w: BoardView) -> bool {
    &&& (clear matches Some(c) ==> c.perfect() == empty_grid(v.field.locked().cleared().grid))
    &&& exists|next: PieceKind|
        #![trigger input_action(v.field, input, config, next)]
        {
            let (f, c, go_on) = input_action(v.field, input, config, next);
            &&& draws(v.field, input) ==> deals_next(v.kinds, v.queue, next, w.queue)
            &&& !draws(v.field, input) ==> w.queue == v.queue
            &&& w.field == f
            &&& clear_view(clear) == c
            &&& w.topped_out == (v.topped_out || !go_on)
            &&& w.kinds == v.kinds
            &&& w.lock_delay_piece == v.lock_delay_piece
            &&& w.sizes == v.sizes
        }
}

/// What a key press of `input` does to the board `v` (giving `w`) and
/// returns (`r`). A key that was already pressed (a repeat of the operating
/// system) does nothing more. Reset starts over and show/hide toggles the
/// interface; once the game has ended (and topping out is enabled) nothing
/// else acts. Otherwise the pressed input acts on the board (see `acted`)
/// and left, right and soft drop start their timers.
pub open spec fn key_press(v: BoardView, input: Input, config: Config, r: (KeyEffect, Option<LineClear>), w: BoardView) -> bool {
    let inputs = pressed_states(v.inputs, input);
    &&& w.inputs == inputs
    &&& if v.inputs[input] == InputState::Pressed {
        r == (KeyEffect::Nothing, None::<LineClear>) && w == with_inputs(v, inputs)
    } else if input == Input::Reset {
        &&& r == (KeyEffect::ResetBoard, None::<LineClear>)
        &&& is_reset(w, config.piece_type)
        &&& w.sizes == v.sizes
        &&& w.lock_delay_piece == v.lock_delay_piece
    } else if input == Input::ShowHideUi {
        r == (KeyEffect::ToggleUi, None::<LineClear>) && w == with_inputs(v, inputs)
    } else if v.topped_out && config.topping_out_enabled {
        r == (KeyEffect::Nothing, None::<LineClear>) && w == with_inputs(v, inputs)
    } else {
        r.0 == started_timer(input) && acted(with_inputs(v, inputs), input, config, r.1, w)
    }
}

/// What a key release of `input` does: the input is released (see
/// `released_states`), and the timer of an input that repeats is stopped.
pub open spec fn key_release(v: BoardView, input: Input, r: KeyEffect, w: BoardView) -> bool {
    &&& w == with_inputs(v, released_states(v.inputs, input))
    &&& r == if repeats(input) {
        KeyEffect::StopTimer(input)
    } else {
        KeyEffect::Nothing
    }
}

/// The same board with other input states.
pub open spec fn with_inputs(v: BoardView, inputs: Map<Input, InputState>) -> BoardView {
    BoardView { inputs, ..v }
}

/// Two sequences of squares are equal.
fn same_coords(a: &Vec<Coords>, b: &Vec<Coords>) -> (r: bool)
    ensures
        r == (a@ == b@),
{
    if a.len() != b.len() {
        return false;
    }
    let mut i: usize = 0;
    while i < a.len()
        invariant
            i <= a.len(),
            a.len() == b.len(),
            forall|j: int| 0 <= j < i ==> a@[j] == b@[j],
        decreases a.len() - i,
    {
        if a[i] != b[i] {
            return false;
        }
        i += 1;
    }
    assert(a@ =~= b@);
    true
}

/// A copy of a sequence of squares.
fn copy_coords(a: &Vec<Coords>) -> (r: Vec<Coords>)
    ensures
        r@ == a@,
{
    let mut r: Vec<Coords> = Vec::new();
    let mut i: usize = 0;
    while i < a.len()
        invariant
            i <= a.len(),
            r@ == a@.take(i as int),
        decreases a.len() - i,
    {
        r.push(a[i]);
        i += 1;
        assert(r@ == a@.take(i as int));
    }
    assert(a@.take(a.len() as int) == a@);
    r
}

/// Every piece type has piece kinds.
proof fn lemma_piece_types_nonempty(piece_type: PieceTypes)
    ensures
        piece_type.kinds_spec().len() > 0,
{
}

/// A bag that has dealt one piece after being filled with two shuffled bags.
fn fresh_bag(piece_type: PieceTypes) -> (r: (SingleBag, PieceKind))
    ensures
        r.0.can_deal(),
        r.0@.0 == piece_type.kinds_spec(),
        fresh_bag_dealt(r.0@.0, r.0@.1, r.1),
        piece_type.kinds_spec().contains(r.1),
{
    broadcast use vstd::seq_lib::group_to_multiset_ensures;

    let kinds = piece_type.kinds();
    proof {
        lemma_piece_types_nonempty(piece_type);
    }
    let mut bag = SingleBag::new(kinds);
    let ghost before = bag@.1;
    let ghost k = bag@.0;
    let ghost (first, second) = choose|first: Seq<PieceKind>, second: Seq<PieceKind>|
        is_permutation(first, k) && is_permutation(second, k) && bag@.1 == second + first;
    proof {
        assert(first.to_multiset().len() == k.to_multiset().len());
        assert(second.to_multiset().len() == k.to_multiset().len());
    }
    let kind = bag.next();
    proof {
        let fresh = choose|fresh: Seq<PieceKind>|
            is_permutation(fresh, k) && #[trigger] refilled(k, before, fresh) == bag@.1.push(kind);
        assert(refilled(k, before, fresh) == before);
        assert((second + first) == bag@.1.push(kind));
    }
    (bag, kind)
}

impl Board {
    /// The parts of the board are consistent: the field, a bag that can deal,
    /// the input states, and sizes within bounds.
    pub closed spec fn wf(&self) -> bool {
        &&& self.field.wf()
        &&& self.bag.can_deal()
        &&& self.inputs.wf()
        &&& self.sizes.0 <= MAX_DIM
        &&& self.sizes.1 <= MAX_DIM
        &&& self.sizes.2 <= MAX_DIM
    }

    /// A board for `config`, with every input released.
    pub fn new(config: &Config) -> (r: Board)
        requires
            config_fits(*config),
        ensures
            r.wf(),
            r@.sizes == (config.field_width, config.field_height, config.field_hidden, config.queue_len),
            is_reset(r@, config.piece_type),
            r@.inputs == all_released(),
            r@.lock_delay_piece == r@.field.cur.coords,
    {
        let inputs = InputStates::new();
        let (bag, kind) = fresh_bag(config.piece_type);
        let field = DefaultField::new_with_kind(
            config.field_width,
            config.field_height,
            config.field_hidden,
            config.queue_len,
            kind,
        );
        let lock_delay_piece = copy_coords(field.cur_piece().coords());
        Board {
            field,
            bag,
            inputs,
            lock_delay_piece,
            topped_out: false,
            sizes: (config.field_width, config.field_height, config.field_hidden, config.queue_len),
        }
    }

    /// Start over with a new bag of the kinds of `config`'s piece type and a
    /// new field of the sizes the board was made with; the input states
    /// stay.
    pub fn reset(&mut self, config: &Config)
        requires
            old(self).wf(),
            pieces_fit(config.piece_type, old(self)@.sizes.0, old(self)@.sizes.1, old(self)@.sizes.2),
        ensures
            final(self).wf(),
            is_reset(final(self)@, config.piece_type),
            final(self)@.sizes == old(self)@.sizes,
            final(self)@.inputs == old(self)@.inputs,
            final(self)@.lock_delay_piece == old(self)@.lock_delay_piece,
    {
        let (bag, kind) = fresh_bag(config.piece_type);
        self.field = DefaultField::new_with_kind(self.sizes.0, self.sizes.1, self.sizes.2, self.sizes.3, kind);
        self.bag = bag;
        self.topped_out = false;
    }

    /// The field sizes were changed: a new field of those sizes (and the
    /// queue length the board was made with) with a piece from the bag.
    pub fn resize(&mut self, width: usize, height: usize, hidden: usize)
        requires
            old(self).wf(),
            width <= MAX_DIM,
            height <= MAX_DIM,
            hidden <= MAX_DIM,
            forall|k: PieceKind|
                #[trigger] old(self)@.kinds.contains(k) ==> spawn_fits(width as nat, height as nat, hidden as nat, k),
        ensures
            final(self).wf(),
            deals_next(old(self)@.kinds, old(self)@.queue, final(self)@.field.cur.kind, final(self)@.queue),
            final(self)@.field == initial_view(
                width as nat,
                height as nat,
                hidden as nat,
                old(self)@.sizes.3 as nat,
                final(self)@.field.cur.kind,
            ),
            final(self)@ == (BoardView { field: final(self)@.field, queue: final(self)@.queue, ..old(self)@ }),
    {
        let kind = self.bag.next();
        self.field = DefaultField::new_with_kind(width, height, hidden, self.sizes.3, kind);
    }

    /// The piece type was changed: a new bag of its kinds; the field stays.
    pub fn set_piece_type(&mut self, piece_type: PieceTypes)
        requires
            old(self).wf(),
        ensures
            final(self).wf(),
            final(self)@.kinds == piece_type.kinds_spec(),
            exists|first: Seq<PieceKind>, second: Seq<PieceKind>|
                is_permutation(first, piece_type.kinds_spec()) && is_permutation(second, piece_type.kinds_spec())
                    && final(self)@.queue == second + first,
            final(self)@ == (BoardView {
                kinds: final(self)@.kinds,
                queue: final(self)@.queue,
                ..old(self)@
            }),
    {
        let kinds = piece_type.kinds();
        proof {
            lemma_piece_types_nonempty(piece_type);
        }
        self.bag = SingleBag::new(kinds);
    }

    pub fn field(&self) -> (r: &DefaultField)
        ensures
            r@ == self@.field,
            self.wf() ==> r.wf(),
    {
        &self.field
    }

    pub fn inputs(&self) -> (r: &InputStates)
        ensures
            r@ == self@.inputs,
            self.wf() ==> r.wf(),
    {
        &self.inputs
    }

    pub fn topped_out(&self) -> (r: bool)
        ensures
            r == self@.topped_out,
    {
        self.topped_out
    }

    /// End the game (when its goal is reached).
    pub fn top_out(&mut self)
        ensures
            final(self)@ == (BoardView { topped_out: true, ..old(self)@ }),
            old(self).wf() ==> final(self).wf(),
    {
        self.topped_out = true;
    }

    /// The upcoming piece kinds, next first: the bag's queue read from its
    /// end, after a freshly shuffled bag was put in front if no more than a
    /// full bag was left.
    pub fn next_queue(&mut self) -> (r: Vec<PieceKind>)
        requires
            old(self).wf(),
        ensures
            final(self).wf(),
            final(self)@ == (BoardView { queue: final(self)@.queue, ..old(self)@ }),
            exists|fresh: Seq<PieceKind>|
                is_permutation(fresh, old(self)@.kinds) && #[trigger] refilled(
                    old(self)@.kinds,
                    old(self)@.queue,
                    fresh,
                ) == final(self)@.queue,
            r@ == final(self)@.queue.reverse(),
            final(self)@.queue.len() > old(self)@.kinds.len(),
    {
        let ghost before = self.bag@;
        let r = self.bag.peek();
        proof {
            let fresh = choose|fresh: Seq<PieceKind>|
                is_permutation(fresh, before.0) && #[trigger] refilled(before.0, before.1, fresh) == self.bag@.1;
            assert(refilled(self@.kinds, old(self)@.queue, fresh) == self@.queue);
        }
        r
    }

    /// Shift the current piece once, if actions can still be counted.
    fn step(&mut self, rows: i32, cols: i32)
        requires
            old(self).wf(),
            (rows, cols) == (0i32, -1i32) || (rows, cols) == (0i32, 1i32) || (rows, cols) == (1i32, 0i32),
        ensures
            final(self).wf(),
            final(self)@ == (BoardView { field: step(old(self)@.field, rows as int, cols as int), ..old(self)@ }),
    {
        if self.field.actions_since_lock_delay() != Some(usize::MAX) {
            proof {
                self.field@.lemma_unit_shift_fits(rows as int, cols as int);
            }
            self.field.try_shift(rows, cols);
        }
    }

    /// Shift the current piece until it is blocked (or no more actions can be
    /// counted).
    fn slide(&mut self, rows: i32, cols: i32)
        requires
            old(self).wf(),
            (rows, cols) == (0i32, -1i32) || (rows, cols) == (0i32, 1i32) || (rows, cols) == (1i32, 0i32),
        ensures
            final(self).wf(),
            slid_to_end(old(self)@.field, rows as int, cols as int, final(self)@.field),
            final(self)@ == (BoardView { field: final(self)@.field, ..old(self)@ }),
    {
        let ghost v = self@.field;
        let ghost mut n: nat = 0;
        let mut moving = true;
        while moving
            invariant
                self.wf(),
                (rows, cols) == (0i32, -1i32) || (rows, cols) == (0i32, 1i32) || (rows, cols) == (1i32, 0i32),
                self@ == (BoardView { field: self@.field, ..old(self)@ }),
                slid(v, rows as int, cols as int, n) == self@.field,
                !moving ==> !(can_count(self@.field) && self@.field.shift_outcome(rows as int, cols as int).0),
            decreases self@.field.room(rows as int, cols as int) + if moving {
                1int
            } else {
                0int
            },
        {
            proof {
                self@.field.lemma_room(rows as int, cols as int);
            }
            if self.field.actions_since_lock_delay() == Some(usize::MAX) {
                moving = false;
            } else {
                proof {
                    self.field@.lemma_unit_shift_fits(rows as int, cols as int);
                }
                moving = self.field.try_shift(rows, cols);
                proof {
                    if moving {
                        n = n + 1;
                        self@.field.lemma_room(rows as int, cols as int);
                    }
                }
            }
        }
    }

    /// A held move by `rows` and `cols` repeating every `delay` milliseconds.
    fn held_move(&mut self, rows: i32, cols: i32, delay: u32)
        requires
            old(self).wf(),
            (rows, cols) == (0i32, -1i32) || (rows, cols) == (0i32, 1i32) || (rows, cols) == (1i32, 0i32),
        ensures
            final(self).wf(),
            held_move(old(self)@.field, rows as int, cols as int, delay, final(self)@.field),
            final(self)@ == (BoardView { field: final(self)@.field, ..old(self)@ }),
    {
        if delay == 0 {
            self.slide(rows, cols);
        } else {
            self.step(rows, cols);
        }
    }

    /// The move of a held input (left, right or soft drop).
    fn input_move(&mut self, input: Input, config: &Config)
        requires
            old(self).wf(),
            repeats(input),
        ensures
            final(self).wf(),
            held_move(
                old(self)@.field,
                direction(input).0,
                direction(input).1,
                repeat_delay(input, *config),
                final(self)@.field,
            ),
            final(self)@ == (BoardView { field: final(self)@.field, ..old(self)@ }),
    {
        match input {
            Input::Left => self.held_move(0, -1, config.auto_repeat_rate),
            Input::Right => self.held_move(0, 1, config.auto_repeat_rate),
            _ => self.held_move(1, 0, config.soft_drop_rate),
        }
    }

    /// Hard drop with the configured spin detection; the game ends if the
    /// next piece does not fit.
    fn hard_drop(&mut self, config: &Config) -> (r: LineClear)
        requires
            old(self).wf(),
        ensures
            final(self).wf(),
            acted(old(self)@, Input::HardDrop, *config, Some(r), final(self)@),
            final(self)@.inputs == old(self)@.inputs,
    {
        let ghost v = self@;
        let next = self.bag.next();
        let (clear, spawned) = self.field.hard_drop_detecting_with(next, &config.spin_types);
        if !spawned {
            self.topped_out = true;
        }
        assert(input_action(v.field, Input::HardDrop, *config, next).0 == self@.field);
        clear
    }

    /// Handle a key press of `input`. A key that was already pressed (a
    /// repeat of the operating system) does nothing more. Reset starts over
    /// and show/hide toggles the interface; once the game has ended (and
    /// topping out is enabled) nothing else acts. Otherwise left, right and
    /// soft drop shift the piece and start their timers, the rotations turn
    /// it with the configured kick tables, swap hold swaps with the hold
    /// piece and hard drop drops it, returning what was cleared.
    pub fn key_down(&mut self, input: Input, config: &Config) -> (r: (KeyEffect, Option<LineClear>))
        requires
            old(self).wf(),
            input == Input::Reset && old(self)@.inputs[Input::Reset] != InputState::Pressed ==> pieces_fit(
                config.piece_type,
                old(self)@.sizes.0,
                old(self)@.sizes.1,
                old(self)@.sizes.2,
            ),
        ensures
            final(self).wf(),
            key_press(old(self)@, input, *config, r, final(self)@),
    {
        let previous = self.inputs.set_pressed(&input);
        if previous.is_pressed() {
            return (KeyEffect::Nothing, None);
        }
        match input {
            Input::Reset => {
                self.reset(config);
                return (KeyEffect::ResetBoard, None);
            },
            Input::ShowHideUi => {
                return (KeyEffect::ToggleUi, None);
            },
            _ => {},
        }
        if self.topped_out && config.topping_out_enabled {
            return (KeyEffect::Nothing, None);
        }
        self.act(input, config)
    }

    /// What a pressed `input` does once the game goes on.
    fn act(&mut self, input: Input, config: &Config) -> (r: (KeyEffect, Option<LineClear>))
        requires
            old(self).wf(),
        ensures
            final(self).wf(),
            r.0 == started_timer(input),
            acted(old(self)@, input, *config, r.1, final(self)@),
            final(self)@.inputs == old(self)@.inputs,
    {
        match input {
            Input::HardDrop => {
                let clear = self.hard_drop(config);
                (KeyEffect::Nothing, Some(clear))
            },
            Input::SwapHold => {
                self.swap_hold(config);
                (KeyEffect::Nothing, None)
            },
            _ => {
                self.move_or_rotate(input, config);
                let effect = match input {
                    Input::Left => KeyEffect::StartTimer(Input::Left),
                    Input::Right => KeyEffect::StartTimer(Input::Right),
                    Input::SoftDrop => KeyEffect::StartTimer(Input::SoftDrop),
                    _ => KeyEffect::Nothing,
                };
                (effect, None)
            },
        }
    }

    /// Swap the current piece with the hold piece, drawing from the bag when
    /// nothing is held yet.
    fn swap_hold(&mut self, config: &Config)
        requires
            old(self).wf(),
        ensures
            final(self).wf(),
            acted(old(self)@, Input::SwapHold, *config, None, final(self)@),
            final(self)@.inputs == old(self)@.inputs,
    {
        let ghost v = self@;
        if !self.field.hold_swapped() && self.field.hold_piece().is_none() {
            let drawn = self.bag.next();
            self.field.swap_hold_piece_with(drawn);
            assert(input_action(v.field, Input::SwapHold, *config, drawn).0 == self@.field);
        } else {
            let kind = self.field.cur_piece().kind();
            self.field.swap_hold_piece_with(kind);
            assert(input_action(v.field, Input::SwapHold, *config, kind).0 == self@.field);
        }
    }

    /// Shift or turn the current piece for `input` (other inputs change
    /// nothing).
    fn move_or_rotate(&mut self, input: Input, config: &Config)
        requires
            old(self).wf(),
            input != Input::HardDrop,
            input != Input::SwapHold,
        ensures
            final(self).wf(),
            acted(old(self)@, input, *config, None, final(self)@),
            final(self)@.inputs == old(self)@.inputs,
    {
        let ghost v = self@;
        proof {
            lemma_kick_tables_fit(self@.field, config.kick_table, config.kick_table_180);
        }
        let can_count = self.field.actions_since_lock_delay() != Some(usize::MAX);
        match input {
            Input::Left => {
                self.step(0, -1);
            },
            Input::Right => {
                self.step(0, 1);
            },
            Input::SoftDrop => {
                self.step(1, 0);
            },
            Input::RotateCw => {
                if can_count {
                    self.field.try_rotate_cw(&config.kick_table);
                }
            },
            Input::RotateCcw => {
                if can_count {
                    self.field.try_rotate_ccw(&config.kick_table);
                }
            },
            Input::Rotate180 => {
                if can_count {
                    self.field.try_rotate_180(&config.kick_table_180);
                }
            },
            _ => {},
        }
        proof {
            let next = v.field.cur.kind;
            assert(input_action(v.field, input, *config, next).0 == self@.field);
        }
    }

    /// Handle a key release of `input`: release it, and stop its timer if it
    /// repeats while held.
    pub fn key_up(&mut self, input: Input) -> (r: KeyEffect)
        requires
            old(self).wf(),
        ensures
            final(self).wf(),
            key_release(old(self)@, input, r, final(self)@),
    {
        self.inputs.set_released(&input);
        match input {
            Input::Left => KeyEffect::StopTimer(Input::Left),
            Input::Right => KeyEffect::StopTimer(Input::Right),
            Input::SoftDrop => KeyEffect::StopTimer(Input::SoftDrop),
            _ => KeyEffect::Nothing,
        }
    }

    /// Handle a press of the key named `key`: the input bound to it is
    /// pressed; a key bound to no input does nothing.
    pub fn key_name_down(&mut self, key: &str, keybinds: &Keybinds, config: &Config) -> (r: (
        KeyEffect,
        Option<LineClear>,
    ))
        requires
            old(self).wf(),
            keybinds@.contains_key(Input::Reset) && keybinds@[Input::Reset] == key@ && old(self)@.inputs[Input::Reset]
                != InputState::Pressed ==> pieces_fit(
                config.piece_type,
                old(self)@.sizes.0,
                old(self)@.sizes.1,
                old(self)@.sizes.2,
            ),
        ensures
            final(self).wf(),
            (forall|i: Input| #[trigger] keybinds@.contains_key(i) ==> keybinds@[i] != key@) ==> r == (
                KeyEffect::Nothing,
                None::<LineClear>,
            ) && final(self)@ == old(self)@,
            !(forall|i: Input| #[trigger] keybinds@.contains_key(i) ==> keybinds@[i] != key@) ==> exists|
                input: Input,
            |
                keybinds@.contains_key(input) && keybinds@[input] == key@ && #[trigger] key_press(
                    old(self)@,
                    input,
                    *config,
                    r,
                    final(self)@,
                ),
    {
        match keybinds.input_for(key) {
            Some(input) => self.key_down(input, config),
            None => (KeyEffect::Nothing, None),
        }
    }

    /// Handle a release of the key named `key`: the input bound to it is
    /// released; a key bound to no input does nothing.
    pub fn key_name_up(&mut self, key: &str, keybinds: &Keybinds) -> (r: KeyEffect)
        requires
            old(self).wf(),
        ensures
            final(self).wf(),
            (forall|i: Input| #[trigger] keybinds@.contains_key(i) ==> keybinds@[i] != key@) ==> r
                == KeyEffect::Nothing && final(self)@ == old(self)@,
            !(forall|i: Input| #[trigger] keybinds@.contains_key(i) ==> keybinds@[i] != key@) ==> exists|
                input: Input,
            |
                keybinds@.contains_key(input) && keybinds@[input] == key@ && #[trigger] key_release(
                    old(self)@,
                    input,
                    r,
                    final(self)@,
                ),
    {
        match keybinds.input_for(key) {
            Some(input) => self.key_up(input),
            None => KeyEffect::Nothing,
        }
    }

    /// The delay before a held left or right starts repeating has passed:
    /// move again if the input is still pressed. The interface then starts
    /// the repeat timer.
    pub fn buffer_timer_done(&mut self, input: Input, config: &Config)
        requires
            old(self).wf(),
            repeats(input),
        ensures
            final(self).wf(),
            old(self)@.inputs[input] == InputState::Pressed ==> held_move(
                old(self)@.field,
                direction(input).0,
                direction(input).1,
                repeat_delay(input, *config),
                final(self)@.field,
            ),
            old(self)@.inputs[input] != InputState::Pressed ==> final(self)@.field == old(self)@.field,
            final(self)@ == (BoardView { field: final(self)@.field, ..old(self)@ }),
    {
        if self.inputs.get_state(&input).is_pressed() {
            self.input_move(input, config);
        }
    }

    /// The repeat timer of a held input has fired: move if the input is
    /// pressed (not suppressed); returns whether the timer goes on (the
    /// input is still held).
    pub fn repeat_timer_done(&mut self, input: Input, config: &Config) -> (r: bool)
        requires
            old(self).wf(),
            repeats(input),
        ensures
            final(self).wf(),
            r == (old(self)@.inputs[input] != InputState::Released),
            old(self)@.inputs[input] == InputState::Pressed ==> held_move(
                old(self)@.field,
                direction(input).0,
                direction(input).1,
                repeat_delay(input, *config),
                final(self)@.field,
            ),
            old(self)@.inputs[input] != InputState::Pressed ==> final(self)@.field == old(self)@.field,
            final(self)@ == (BoardView { field: final(self)@.field, ..old(self)@ }),
    {
        let state = self.inputs.get_state(&input);
        if state.is_pressed() {
            self.input_move(input, config);
        }
        state.is_held()
    }

    /// The gravity timer has fired: move the piece down if gravity is
    /// enabled (as far as it falls when the delay is zero). The timer always
    /// goes on.
    pub fn gravity_timer_done(&mut self, config: &Config) -> (r: bool)
        requires
            old(self).wf(),
        ensures
            final(self).wf(),
            r,
            config.gravity_enabled ==> held_move(old(self)@.field, 1, 0, config.gravity_delay, final(self)@.field),
            !config.gravity_enabled ==> final(self)@.field == old(self)@.field,
            final(self)@ == (BoardView { field: final(self)@.field, ..old(self)@ }),
    {
        if config.gravity_enabled {
            self.held_move(1, 0, config.gravity_delay);
        }
        true
    }

    /// The current piece has moved: if it rests on the stack, lock delay
    /// starts (or goes on) and the piece is remembered; returns whether the
    /// interface should start the lock delay timer.
    pub fn piece_moved(&mut self) -> (r: bool)
        requires
            old(self).wf(),
        ensures
            final(self).wf(),
            ({
                let v = old(self)@;
                &&& r == v.field.blocked(v.field.cur.shifted(1, 0).coords, Some(v.field.cur.coords))
                &&& final(self)@ == if r {
                    BoardView {
                        field: FieldView {
                            lock_delay: Some(
                                match v.field.lock_delay {
                                    Some(n) => n,
                                    None => 0,
                                },
                            ),
                            ..v.field
                        },
                        lock_delay_piece: v.field.cur.coords,
                        ..v
                    }
                } else {
                    v
                }
            }),
    {
        if self.field.cur_piece_cannot_move_down() {
            self.field.activate_lock_delay();
            self.lock_delay_piece = copy_coords(self.field.cur_piece().coords());
            true
        } else {
            false
        }
    }

    /// The lock delay timer has run out: with auto lock enabled, the piece
    /// is dropped if it is still where lock delay last started.
    pub fn lock_delay_timer_done(&mut self, config: &Config) -> (r: Option<LineClear>)
        requires
            old(self).wf(),
        ensures
            final(self).wf(),
            ({
                let v = old(self)@;
                if config.auto_lock_enabled && v.field.cur.coords == v.lock_delay_piece {
                    r is Some && acted(v, Input::HardDrop, *config, r, final(self)@)
                        && final(self)@.inputs == v.inputs
                } else {
                    r is None && final(self)@ == v
                }
            }),
    {
        let still_same_piece = same_coords(self.field.cur_piece().coords(), &self.lock_delay_piece);
        if config.auto_lock_enabled && still_same_piece {
            Some(self.hard_drop(config))
        } else {
            None
        }
    }

    /// The number of actions since lock delay started has changed: with the
    /// move limit enabled, the piece is dropped once the limit is reached.
    pub fn move_limit_check(&mut self, config: &Config) -> (r: Option<LineClear>)
        requires
            old(self).wf(),
        ensures
            final(self).wf(),
            ({
                let v = old(self)@;
                let actions = match v.field.lock_delay {
                    Some(n) => n,
                    None => 0,
                };
                if config.move_limit_enabled && actions == config.move_limit {
                    r is Some && acted(v, Input::HardDrop, *config, r, final(self)@)
                        && final(self)@.inputs == v.inputs
                } else {
                    r is None && final(self)@ == v
                }
            }),
    {
        let actions = match self.field.actions_since_lock_delay() {
            Some(n) => n,
            None => 0,
        };
        if config.move_limit_enabled && actions == config.move_limit {
            Some(self.hard_drop(config))
        } else {
            None
        }
    }
}

/// The next queue tells what comes next: when more than a full bag is
/// queued (as after `next_queue`), a hard drop deals the first kind the
/// queue showed, the queue loses just that kind, and unless the game ends
/// the new current piece is of that kind.
pub proof fn lemma_next_queue_shows_next_piece(v: BoardView, config: Config, clear: Option<LineClear>, w: BoardView)
    requires
        v.queue.len() > v.kinds.len(),
        acted(v, Input::HardDrop, config, clear, w),
    ensures
        w.queue == v.queue.drop_last(),
        !w.topped_out ==> w.field.cur.kind == v.queue.reverse()[0],
{
    let next = choose|next: PieceKind|
        #![trigger input_action(v.field, Input::HardDrop, config, next)]
        {
            let (f, c, go_on) = input_action(v.field, Input::HardDrop, config, next);
            &&& draws(v.field, Input::HardDrop) ==> deals_next(v.kinds, v.queue, next, w.queue)
            &&& !draws(v.field, Input::HardDrop) ==> w.queue == v.queue
            &&& w.field == f
            &&& clear_view(clear) == c
            &&& w.topped_out == (v.topped_out || !go_on)
            &&& w.kinds == v.kinds
            &&& w.lock_delay_piece == v.lock_delay_piece
            &&& w.sizes == v.sizes
        };
    lemma_peek_shows_next(v.kinds, v.queue, next, w.queue);
}

} // verus!
