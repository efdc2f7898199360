//! Spin detection: whether the piece that was just dropped was spun into place.

use vstd::prelude::*;

use crate::field::{shift_fits, DefaultField, FieldView};
use crate::kicks::RotationState;
use crate::pieces::mino1234::Mino1234;
use crate::pieces::tetromino::{TetrominoAsc, TetrominoSrs};
use crate::pieces::PieceKind;
use crate::{fits_i32, to_coords, Coords};

verus! {

/// The offset of the `i`-th corner around the center of a T piece: the two
/// front corners (on the side the T points to) come first, then the two back
/// corners.
pub open spec fn corner_offset(rotation: RotationState, i: int) -> (int, int) {
    let corners = seq![(-1int, -1int), (-1int, 1int), (1int, 1int), (1int, -1int)];
    corners[(i + rotation.quarter_turns()) % 4]
}

/// 1 when the `i`-th corner around `center` is filled or outside the field
/// (walls count as filled), 0 when it is an empty square.
pub open spec fn corner_count(v: FieldView, center: Coords, rotation: RotationState, i: int) -> int {
    let o = corner_offset(rotation, i);
    let c = to_coords((center.0 + o.0, center.1 + o.1));
    if v.in_bounds(c) {
        if v.at(c) is Filled {
            1
        } else {
            0
        }
    } else {
        1
    }
}

/// The last kick moved the piece two rows and one column.
pub open spec fn kicked_two_by_one(last_kick: Option<Coords>) -> bool {
    match last_kick {
        Some(k) => (k.0 == 2 || k.0 == -2) && (k.1 == 1 || k.1 == -1),
        None => false,
    }
}

/// The three-corner T-spin rule for the current piece, reported as a spin of
/// `kind`: two filled front corners and at least one filled back corner make a
/// T-spin; one filled front corner and two filled back corners make a mini
/// T-spin, unless the last kick moved the piece two rows and one column, which
/// makes it a full T-spin.
pub open spec fn t_corner_rule(v: FieldView, kind: PieceKind) -> (Option<PieceKind>, bool) {
    let center = v.cur.coords[1];
    let rotation = v.cur.rotation;
    let front = corner_count(v, center, rotation, 0) + corner_count(v, center, rotation, 1);
    let back = corner_count(v, center, rotation, 2) + corner_count(v, center, rotation, 3);
    if front == 2 && back > 0 {
        (Some(kind), false)
    } else if front == 1 && back == 2 {
        (Some(kind), !kicked_two_by_one(v.last_kick))
    } else {
        (None, false)
    }
}

/// T-spin detection of the SRS tetrominoes: only a T tetromino (SRS) whose last
/// move was a rotation can spin.
pub open spec fn srs_t_spin(v: FieldView) -> (Option<PieceKind>, bool) {
    if v.cur.kind == PieceKind::TetrominoSrs(TetrominoSrs::T) && v.last_rotated {
        t_corner_rule(v, v.cur.kind)
    } else {
        (None, false)
    }
}

/// The spin that a piece kind detects on the field: the tetromino families use
/// the SRS T-spin rules; the other families detect no spins.
pub open spec fn kind_spin(kind: PieceKind, v: FieldView) -> (Option<PieceKind>, bool) {
    match kind {
        PieceKind::TetrominoSrs(_) => srs_t_spin(v),
        PieceKind::TetrominoAsc(_) => srs_t_spin(v),
        _ => (None, false),
    }
}

/// Count the filled corners of the T piece for the three-corner rule.
fn t_corner_rule_exec(field: &DefaultField, kind: PieceKind) -> (r: (Option<PieceKind>, bool))
    requires
        field.wf(),
        field@.cur.coords.len() >= 2,
    ensures
        r == t_corner_rule(field@, kind),
{
    let ghost v = field@;
    let piece = field.cur_piece();
    let center = piece.coords()[1];
    assert(v.in_bounds(v.cur.coords[1]));
    let corner_offsets: [(i32, i32); 4] = [(-1, -1), (-1, 1), (1, 1), (1, -1)];
    let turns = piece.rotation_state().to_index();
    let mut offset_filled: [usize; 4] = [0, 0, 0, 0];
    let mut i: usize = 0;
    while i < 4
        invariant
            0 <= i <= 4,
            field.wf(),
            v == field@,
            center == v.cur.coords[1],
            v.in_bounds(center),
            turns == v.cur.rotation.quarter_turns(),
            corner_offsets@ == seq![(-1i32, -1i32), (-1i32, 1i32), (1i32, 1i32), (1i32, -1i32)],
            forall|j: int| 0 <= j < i ==> #[trigger] offset_filled@[j] == corner_count(v, center, v.cur.rotation, j),
        decreases 4 - i,
    {
        let o = corner_offsets[(i + turns) % 4];
        assert(o.0 == corner_offset(v.cur.rotation, i as int).0 && o.1 == corner_offset(
            v.cur.rotation,
            i as int,
        ).1);
        let corner = Coords(center.0 + o.0, center.1 + o.1);
        // squares outside the field (e.g. its walls) count as filled
        let filled: usize = match field.get_at(&corner) {
            Some(s) => if s.is_filled() {
                1
            } else {
                0
            },
            None => 1,
        };
        offset_filled[i] = filled;
        i += 1;
    }
    let n_filled_front = offset_filled[0] + offset_filled[1];
    let n_filled_back = offset_filled[2] + offset_filled[3];
    // two filled front corners and one or more filled back corners is a t-spin
    if n_filled_front == 2 && n_filled_back > 0 {
        (Some(kind), false)
    } else if n_filled_front == 1 && n_filled_back == 2 {
        // one filled front corner and two filled back corners is a t-spin mini, unless the last kick on
        // the piece kicked it one column and two rows; then it is a regular t-spin
        let last_was_1_2_kick = match field.last_cur_piece_kick() {
            Some(k) => (k.0 == 2 || k.0 == -2) && (k.1 == 1 || k.1 == -1),
            None => false,
        };
        (Some(kind), !last_was_1_2_kick)
    } else {
        (None, false)
    }
}

/// T-spin detection of the SRS tetrominoes, for the current piece of `field`.
fn srs_t_spin_exec(field: &DefaultField) -> (r: (Option<PieceKind>, bool))
    requires
        field.wf(),
    ensures
        r == srs_t_spin(field@),
{
    let kind = field.cur_piece().kind();
    match kind {
        PieceKind::TetrominoSrs(TetrominoSrs::T) => {
            if field.last_move_rotated() {
                t_corner_rule_exec(field, kind)
            } else {
                (None, false)
            }
        },
        _ => (None, false),
    }
}

impl PieceKind {
    /// The type of spin after a hard drop (if any) and whether it is mini,
    /// as this piece kind's family detects spins; `field.cur_piece()` is the
    /// piece that was just dropped.
    pub fn detect_spin(&self, field: &DefaultField) -> (r: (Option<PieceKind>, bool))
        requires
            field.wf(),
        ensures
            r == kind_spin(*self, field@),
    {
        match self {
            PieceKind::TetrominoSrs(_) => srs_t_spin_exec(field),
            PieceKind::TetrominoAsc(_) => srs_t_spin_exec(field),
            _ => (None, false),
        }
    }
}

/// A way of detecting spins.
pub trait SpinDetector {
    spec fn spin(&self, v: FieldView) -> (Option<PieceKind>, bool);

    /// The type of spin after a hard drop (if any) and whether it is mini;
    /// `field.cur_piece()` is the piece that was just dropped.
    fn detect(&self, field: &DefaultField) -> (r: (Option<PieceKind>, bool))
        requires
            field.wf(),
        ensures
            r == self.spin(field@),
    ;
}

/// Whether `kind` is a T tetromino, of any family.
pub open spec fn is_t_kind(kind: PieceKind) -> bool {
    ||| kind == PieceKind::TetrominoSrs(TetrominoSrs::T)
    ||| kind == PieceKind::TetrominoAsc(TetrominoAsc::T)
    ||| kind == PieceKind::Mino1234(Mino1234::TetrominoSrs(TetrominoSrs::T))
}

/// T-spins by the three-corner rule, for T tetrominoes of every family.
pub struct TSpinDetector;

impl TSpinDetector {
    fn is_t(kind: PieceKind) -> (r: bool)
        ensures
            r == is_t_kind(kind),
    {
        match kind {
            PieceKind::TetrominoSrs(TetrominoSrs::T) => true,
            PieceKind::TetrominoAsc(TetrominoAsc::T) => true,
            PieceKind::Mino1234(Mino1234::TetrominoSrs(TetrominoSrs::T)) => true,
            _ => false,
        }
    }
}

impl SpinDetector for TSpinDetector {
    open spec fn spin(&self, v: FieldView) -> (Option<PieceKind>, bool) {
        if !is_t_kind(v.cur.kind) || !v.last_rotated {
            (None, false)
        } else {
            t_corner_rule(v, v.cur.kind)
        }
    }

    fn detect(&self, field: &DefaultField) -> (r: (Option<PieceKind>, bool)) {
        let kind = field.cur_piece().kind();
        if !Self::is_t(kind) || !field.last_move_rotated() {
            return (None, false);
        }
        t_corner_rule_exec(field, kind)
    }
}

/// The offsets (left, right, up) at which a piece must be blocked to be immobile.
pub open spec fn immobile_offset(i: int) -> (int, int) {
    seq![(0int, -1int), (0int, 1int), (-1int, 0int)][i]
}

/// Any piece that cannot move left, right or up, and whose last move was a
/// rotation, spins (never mini).
pub struct ImmobileSpinDetector;

impl SpinDetector for ImmobileSpinDetector {
    open spec fn spin(&self, v: FieldView) -> (Option<PieceKind>, bool) {
        let is_immobile = forall|i: int|
            0 <= i < 3 ==> v.blocked(
                v.cur.shifted(#[trigger] immobile_offset(i).0, immobile_offset(i).1).coords,
                Some(v.cur.coords),
            );
        if is_immobile && v.last_rotated {
            (Some(v.cur.kind), false)
        } else {
            (None, false)
        }
    }

    fn detect(&self, field: &DefaultField) -> (r: (Option<PieceKind>, bool)) {
        let ghost v = field@;
        let piece = field.cur_piece();
        let offsets: [(i32, i32); 3] = [(0, -1), (0, 1), (-1, 0)];
        let mut is_immobile = true;
        let mut i: usize = 0;
        while i < 3
            invariant
                0 <= i <= 3,
                field.wf(),
                v == field@,
                piece@ == v.cur,
                offsets@ == seq![(0i32, -1i32), (0i32, 1i32), (-1i32, 0i32)],
                is_immobile == forall|j: int|
                    0 <= j < i ==> v.blocked(
                        v.cur.shifted(#[trigger] immobile_offset(j).0, immobile_offset(j).1).coords,
                        Some(v.cur.coords),
                    ),
            decreases 3 - i,
        {
            let o = offsets[i];
            assert(o.0 == immobile_offset(i as int).0 && o.1 == immobile_offset(i as int).1);
            assert(shift_fits(v.cur.coords, o.0 as int, o.1 as int)) by {
                assert forall|k: int| 0 <= k < v.cur.coords.len() implies fits_i32(
                    (#[trigger] v.cur.coords[k].0 + o.0, v.cur.coords[k].1 + o.1),
                ) by {
                    assert(v.in_bounds(v.cur.coords[k]));
                }
            }
            let blocked = piece.shifted(o.0, o.1).is_blocked(Some(piece), field);
            is_immobile = is_immobile && blocked;
            i += 1;
        }
        let is_spin = is_immobile && field.last_move_rotated();
        if is_spin {
            (Some(piece.kind()), false)
        } else {
            (None, false)
        }
    }
}

/// Detects no spins at all.
pub struct NoSpinDetector;

impl SpinDetector for NoSpinDetector {
    open spec fn spin(&self, v: FieldView) -> (Option<PieceKind>, bool) {
        (None, false)
    }

    fn detect(&self, _field: &DefaultField) -> (r: (Option<PieceKind>, bool)) {
        (None, false)
    }
}

/// The side a T points to (where its nub is) in `rotation`: up when it
/// spawns, then turning clockwise.
pub open spec fn t_facing(rotation: RotationState) -> (int, int) {
    match rotation {
        RotationState::Initial => (-1, 0),
        RotationState::Cw => (0, 1),
        RotationState::Flipped => (1, 0),
        RotationState::Ccw => (0, -1),
    }
}

/// The square at `c` is filled, or outside the field (walls count as
/// filled).
pub open spec fn filled_or_wall(v: FieldView, c: (int, int)) -> bool {
    !v.in_bounds(to_coords(c)) || v.at(to_coords(c)) is Filled
}

/// The corner diagonal to `center`, `ahead` squares along `facing` (1 in
/// front, -1 behind) and on side `side` (1 or -1) across it.
pub open spec fn diagonal(center: Coords, facing: (int, int), ahead: int, side: int) -> (int, int) {
    (center.0 + ahead * facing.0 + side * facing.1, center.1 + ahead * facing.1 + side * facing.0)
}

/// The three-corner rule of T-spins, stated on the squares around the T:
/// with `c` the centre of the T and its nub on the side it faces, the
/// rule reports a spin only when at least three of the four squares
/// diagonal to `c` are filled (walls count); no spin at all when both
/// squares behind (away from the nub) are empty; a full (not mini) T-spin
/// when both squares in front are filled and at least one behind is; and
/// with one square in front and both behind filled, a mini T-spin, unless
/// the last kick moved the piece two rows and one column (a full T-spin).
pub proof fn lemma_three_corner_rule(v: FieldView, kind: PieceKind)
    requires
        v.wf(),
        v.cur.coords.len() >= 2,
    ensures
        ({
            let c = v.cur.coords[1];
            let f = t_facing(v.cur.rotation);
            let front_a = filled_or_wall(v, diagonal(c, f, 1, 1));
            let front_b = filled_or_wall(v, diagonal(c, f, 1, -1));
            let back_a = filled_or_wall(v, diagonal(c, f, -1, 1));
            let back_b = filled_or_wall(v, diagonal(c, f, -1, -1));
            let n = (if front_a { 1int } else { 0 }) + (if front_b { 1int } else { 0 }) + (if back_a { 1int } else { 0 }) + (
            if back_b { 1int } else { 0 });
            &&& t_corner_rule(v, kind).0 is Some ==> n >= 3 && t_corner_rule(v, kind).0 == Some(kind)
            &&& !back_a && !back_b ==> t_corner_rule(v, kind) == (None::<PieceKind>, false)
            &&& front_a && front_b && (back_a || back_b) ==> t_corner_rule(v, kind) == (Some(kind), false)
            &&& front_a != front_b && back_a && back_b ==> t_corner_rule(v, kind) == (
                Some(kind),
                !kicked_two_by_one(v.last_kick),
            )
        }),
{
    let c = v.cur.coords[1];
    assert(v.in_bounds(c));
    let r = v.cur.rotation;
    let f = t_facing(r);
    let o0 = corner_offset(r, 0);
    let o1 = corner_offset(r, 1);
    let o2 = corner_offset(r, 2);
    let o3 = corner_offset(r, 3);
    // the corners the rule counts, front then back, are the squares
    // diagonal to the centre in front of the nub and behind it
    match r {
        RotationState::Initial => {
            assert((0 + 0) % 4 == 0 && (1 + 0) % 4 == 1 && (2 + 0) % 4 == 2 && (3 + 0) % 4 == 3);
        },
        RotationState::Cw => {
            assert((0 + 1) % 4 == 1 && (1 + 1) % 4 == 2 && (2 + 1) % 4 == 3 && (3 + 1) % 4 == 0);
        },
        RotationState::Flipped => {
            assert((0 + 2) % 4 == 2 && (1 + 2) % 4 == 3 && (2 + 2) % 4 == 0 && (3 + 2) % 4 == 1);
        },
        RotationState::Ccw => {
            assert((0 + 3) % 4 == 3 && (1 + 3) % 4 == 0 && (2 + 3) % 4 == 1 && (3 + 3) % 4 == 2);
        },
    }
    let cf = |o: (int, int)| (c.0 + o.0, c.1 + o.1);
    assert(set![cf(o0), cf(o1)] == set![diagonal(c, f, 1, 1), diagonal(c, f, 1, -1)]);
    assert(set![cf(o2), cf(o3)] == set![diagonal(c, f, -1, 1), diagonal(c, f, -1, -1)]);
    assert(corner_count(v, c, r, 0) == if filled_or_wall(v, cf(o0)) { 1int } else { 0 });
    assert(corner_count(v, c, r, 1) == if filled_or_wall(v, cf(o1)) { 1int } else { 0 });
    assert(corner_count(v, c, r, 2) == if filled_or_wall(v, cf(o2)) { 1int } else { 0 });
    assert(corner_count(v, c, r, 3) == if filled_or_wall(v, cf(o3)) { 1int } else { 0 });
}

/// Only a piece whose last move was a rotation can spin, however spins are
/// detected.
pub proof fn lemma_spin_needs_rotation(v: FieldView, kind: PieceKind)
    requires
        !v.last_rotated,
    ensures
        kind_spin(kind, v) == (None::<PieceKind>, false),
        TSpinDetector.spin(v) == (None::<PieceKind>, false),
        ImmobileSpinDetector.spin(v) == (None::<PieceKind>, false),
        NoSpinDetector.spin(v) == (None::<PieceKind>, false),
{
}

/// A mini spin is always a spin: no detector reports a mini without a spin,
/// and the immobile rule never reports a mini.
pub proof fn lemma_mini_is_a_spin(v: FieldView, kind: PieceKind)
    ensures
        kind_spin(kind, v).1 ==> kind_spin(kind, v).0 is Some,
        TSpinDetector.spin(v).1 ==> TSpinDetector.spin(v).0 is Some,
        !ImmobileSpinDetector.spin(v).1,
{
}

/// A reported spin is a spin of the piece that was dropped.
pub proof fn lemma_spin_names_dropped_piece(v: FieldView, kind: PieceKind)
    ensures
        kind_spin(kind, v).0 is Some ==> kind_spin(kind, v).0 == Some(v.cur.kind),
        TSpinDetector.spin(v).0 is Some ==> TSpinDetector.spin(v).0 == Some(v.cur.kind),
        ImmobileSpinDetector.spin(v).0 is Some ==> ImmobileSpinDetector.spin(v).0 == Some(v.cur.kind),
{
}

} // verus!
