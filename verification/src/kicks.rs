//! Rotation states and the kick tables tried when a piece rotates.

use vstd::prelude::*;

use crate::pieces::PieceKind;
use crate::pieces::tetromino::TetrominoSrs;
use crate::Coords;

verus! {

/// Orientation of a piece relative to its spawn orientation.
#[derive(Clone, Copy, PartialEq, Eq, Debug, Hash, Structural)]
pub enum RotationState {
    Initial,
    Cw,
    Flipped,
    Ccw,
}

impl RotationState {
    /// Number of clockwise quarter turns from the spawn orientation.
    pub open spec fn quarter_turns(self) -> int {
        match self {
            RotationState::Initial => 0,
            RotationState::Cw => 1,
            RotationState::Flipped => 2,
            RotationState::Ccw => 3,
        }
    }

    /// The state `n` clockwise quarter turns from the spawn orientation.
    pub open spec fn from_quarter_turns(n: int) -> RotationState {
        let m = n % 4;
        if m == 0 {
            RotationState::Initial
        } else if m == 1 {
            RotationState::Cw
        } else if m == 2 {
            RotationState::Flipped
        } else {
            RotationState::Ccw
        }
    }

    /// Index of the state (0 to 3) in clockwise order.
    pub fn to_index(&self) -> (r: usize)
        ensures
            r == self.quarter_turns(),
    {
        match self {
            RotationState::Initial => 0,
            RotationState::Cw => 1,
            RotationState::Flipped => 2,
            RotationState::Ccw => 3,
        }
    }

    /// The state with the given index (taken modulo 4).
    pub fn from_index(i: usize) -> (r: RotationState)
        ensures
            r == RotationState::from_quarter_turns(i as int),
    {
        let m = i % 4;
        if m == 0 {
            RotationState::Initial
        } else if m == 1 {
            RotationState::Cw
        } else if m == 2 {
            RotationState::Flipped
        } else {
            RotationState::Ccw
        }
    }

    /// The state after one clockwise quarter turn.
    pub fn next_cw(&self) -> (r: RotationState)
        ensures
            r == RotationState::from_quarter_turns(self.quarter_turns() + 1),
    {
        RotationState::from_index((self.to_index() + 1) % 4)
    }

    /// The state after one counterclockwise quarter turn.
    pub fn next_ccw(&self) -> (r: RotationState)
        ensures
            r == RotationState::from_quarter_turns(self.quarter_turns() + 3),
    {
        RotationState::from_index((self.to_index() + 3) % 4)
    }
}

/// One clockwise quarter turn followed by one counterclockwise quarter turn (or
/// the other way round) leaves the rotation state unchanged, and four clockwise
/// quarter turns bring it back to where it started.
pub proof fn lemma_rotation_state_cycle(s: RotationState)
    ensures
        RotationState::from_quarter_turns(
            RotationState::from_quarter_turns(s.quarter_turns() + 1).quarter_turns() + 3,
        ) == s,
        RotationState::from_quarter_turns(
            RotationState::from_quarter_turns(s.quarter_turns() + 3).quarter_turns() + 1,
        ) == s,
        RotationState::from_quarter_turns(s.quarter_turns() + 4) == s,
        RotationState::from_quarter_turns(s.quarter_turns()) == s,
{
}

/// Kicks (shifts of the rotated piece, tried in order) for clockwise and
/// counterclockwise quarter turns.
pub trait KickTable {
    spec fn cw_kicks(&self, piece: PieceKind, rotation_state: RotationState) -> Seq<Coords>;

    spec fn ccw_kicks(&self, piece: PieceKind, rotation_state: RotationState) -> Seq<Coords>;

    /// Kicks for a clockwise turn of `piece` from `rotation_state`.
    fn rotate_cw(&self, piece: PieceKind, rotation_state: RotationState) -> (r: Vec<Coords>)
        ensures
            r@ == self.cw_kicks(piece, rotation_state),
    ;

    /// Kicks for a counterclockwise turn of `piece` from `rotation_state`.
    fn rotate_ccw(&self, piece: PieceKind, rotation_state: RotationState) -> (r: Vec<Coords>)
        ensures
            r@ == self.ccw_kicks(piece, rotation_state),
    ;
}

/// Kicks for half turns.
pub trait KickTable180 {
    spec fn half_turn_kicks(&self, piece: PieceKind, rotation_state: RotationState) -> Seq<Coords>;

    /// Kicks for a half turn of `piece` from `rotation_state`.
    fn rotate_180(&self, piece: PieceKind, rotation_state: RotationState) -> (r: Vec<Coords>)
        ensures
            r@ == self.half_turn_kicks(piece, rotation_state),
    ;
}

/// Every kick negated.
pub open spec fn negated(kicks: Seq<Coords>) -> Seq<Coords> {
    Seq::new(kicks.len(), |i: int| Coords((-kicks[i].0) as i32, (-kicks[i].1) as i32))
}

/// Every kick mirrored left to right.
pub open spec fn mirrored(kicks: Seq<Coords>) -> Seq<Coords> {
    Seq::new(kicks.len(), |i: int| Coords(kicks[i].0, (-kicks[i].1) as i32))
}

/// No component of any kick is larger than two squares.
pub open spec fn small_kicks(kicks: Seq<Coords>) -> bool {
    forall|i: int|
        0 <= i < kicks.len() ==> -2 <= #[trigger] kicks[i].0 <= 2 && -2 <= kicks[i].1 <= 2
}

/// The kicks negated.
fn negate_all(kicks: Vec<Coords>) -> (r: Vec<Coords>)
    requires
        small_kicks(kicks@),
    ensures
        r@ == negated(kicks@),
{
    let mut r: Vec<Coords> = Vec::new();
    let mut i: usize = 0;
    while i < kicks.len()
        invariant
            i <= kicks.len(),
            small_kicks(kicks@),
            r@ == negated(kicks@).take(i as int),
        decreases kicks.len() - i,
    {
        let k = kicks[i];
        r.push(k.neg());
        i += 1;
        assert(r@ == negated(kicks@).take(i as int));
    }
    assert(negated(kicks@).take(kicks.len() as int) == negated(kicks@));
    r
}

/// The kicks mirrored left to right.
fn mirror_all(kicks: Vec<Coords>) -> (r: Vec<Coords>)
    requires
        small_kicks(kicks@),
    ensures
        r@ == mirrored(kicks@),
{
    let mut r: Vec<Coords> = Vec::new();
    let mut i: usize = 0;
    while i < kicks.len()
        invariant
            i <= kicks.len(),
            small_kicks(kicks@),
            r@ == mirrored(kicks@).take(i as int),
        decreases kicks.len() - i,
    {
        let k = kicks[i];
        r.push(Coords(k.0, -k.1));
        i += 1;
        assert(r@ == mirrored(kicks@).take(i as int));
    }
    assert(mirrored(kicks@).take(kicks.len() as int) == mirrored(kicks@));
    r
}

/// Kicks left, right, or up by one square.
pub struct BasicKickTable;

/// The kicks of the basic table, for every turn.
pub open spec fn basic_kicks() -> Seq<Coords> {
    seq![Coords(0, 0), Coords(0, -1i32), Coords(0, 1), Coords(-1i32, 0)]
}

impl KickTable for BasicKickTable {
    open spec fn cw_kicks(&self, piece: PieceKind, rotation_state: RotationState) -> Seq<Coords> {
        basic_kicks()
    }

    open spec fn ccw_kicks(&self, piece: PieceKind, rotation_state: RotationState) -> Seq<Coords> {
        basic_kicks()
    }

    fn rotate_cw(&self, _piece: PieceKind, _rotation_state: RotationState) -> (r: Vec<Coords>) {
        vec![Coords(0, 0), Coords(0, -1), Coords(0, 1), Coords(-1, 0)]
    }

    fn rotate_ccw(&self, piece: PieceKind, rotation_state: RotationState) -> (r: Vec<Coords>) {
        self.rotate_cw(piece, rotation_state)
    }
}

impl KickTable180 for BasicKickTable {
    open spec fn half_turn_kicks(&self, piece: PieceKind, rotation_state: RotationState) -> Seq<Coords> {
        basic_kicks()
    }

    fn rotate_180(&self, piece: PieceKind, rotation_state: RotationState) -> (r: Vec<Coords>) {
        self.rotate_cw(piece, rotation_state)
    }
}

/// The standard, asymmetrical SRS kick table.
pub struct SrsKickTable;

/// SRS kicks for a clockwise turn from `rotation_state`; pieces other than SRS
/// tetrominoes are not kicked, and the O tetromino does not turn at all.
pub open spec fn srs_cw_kicks(piece: PieceKind, rotation_state: RotationState) -> Seq<Coords> {
    match piece {
        PieceKind::TetrominoSrs(kind) => match kind {
            TetrominoSrs::I => {
                match rotation_state {
                    RotationState::Initial => seq![Coords(0, 0), Coords(0, -2i32), Coords(0, 1), Coords(1, -2i32), Coords(-2i32, 1)],
                    RotationState::Cw => seq![Coords(0, 0), Coords(0, -1i32), Coords(0, 2), Coords(-2i32, -1i32), Coords(1, 2)],
                    RotationState::Flipped => seq![Coords(0, 0), Coords(0, 2), Coords(0, -1i32), Coords(-1i32, 2), Coords(2, -1i32)],
                    RotationState::Ccw => seq![Coords(0, 0), Coords(0, 1), Coords(0, -2i32), Coords(2, 1), Coords(-1i32, -2i32)],
                }
            },
            TetrominoSrs::O => Seq::empty(),
            _ => {
                match rotation_state {
                    RotationState::Initial => seq![Coords(0, 0), Coords(0, -1i32), Coords(-1i32, -1i32), Coords(2, 0), Coords(2, -1i32)],
                    RotationState::Cw => seq![Coords(0, 0), Coords(0, 1), Coords(1, 1), Coords(-2i32, 0), Coords(-2i32, 1)],
                    RotationState::Flipped => seq![Coords(0, 0), Coords(0, 1), Coords(-1i32, 1), Coords(2, 0), Coords(2, 1)],
                    RotationState::Ccw => seq![Coords(0, 0), Coords(0, -1i32), Coords(1, -1i32), Coords(-2i32, 0), Coords(-2i32, -1i32)],
                }
            },
        },
        _ => seq![Coords(0, 0)],
    }
}

/// Every SRS kick moves the piece by at most two squares each way.
pub proof fn lemma_srs_kicks_small(piece: PieceKind, rotation_state: RotationState)
    ensures
        small_kicks(srs_cw_kicks(piece, rotation_state)),
{
    let s = srs_cw_kicks(piece, rotation_state);
    assert forall|i: int| 0 <= i < s.len() implies -2 <= #[trigger] s[i].0 <= 2 && -2 <= s[i].1 <= 2 by {
        match piece {
            PieceKind::TetrominoSrs(kind) => {
                match kind {
                    TetrominoSrs::I => {},
                    TetrominoSrs::O => {},
                    _ => {},
                }
            },
            _ => {},
        }
    }
}

/// The SRS offsets of the J, L, S, T and Z tetrominoes in `rotation_state`:
/// five tests, each as (columns right, rows up).
pub open spec fn jlstz_offsets(rotation_state: RotationState) -> Seq<(int, int)> {
    match rotation_state {
        RotationState::Initial => seq![(0int, 0int), (0, 0), (0, 0), (0, 0), (0, 0)],
        RotationState::Cw => seq![(0int, 0int), (1, 0), (1, -1), (0, 2), (1, 2)],
        RotationState::Flipped => seq![(0int, 0int), (0, 0), (0, 0), (0, 0), (0, 0)],
        RotationState::Ccw => seq![(0int, 0int), (-1, 0), (-1, -1), (0, 2), (-1, 2)],
    }
}

/// The SRS offsets of the I tetromino in `rotation_state`, as for
/// `jlstz_offsets`.
pub open spec fn i_offsets(rotation_state: RotationState) -> Seq<(int, int)> {
    match rotation_state {
        RotationState::Initial => seq![(0int, 0int), (-1, 0), (2, 0), (-1, 0), (2, 0)],
        RotationState::Cw => seq![(-1int, 0int), (0, 0), (0, 0), (0, 1), (0, -2)],
        RotationState::Flipped => seq![(-1int, 1int), (1, 1), (-2, 1), (1, 0), (-2, 0)],
        RotationState::Ccw => seq![(0int, 1int), (0, 1), (0, 1), (0, -1), (0, 2)],
    }
}

/// The kicks of a turn between two states with offsets `from` and `to`:
/// each test's offset before less its offset after, taken relative to the
/// first test (which the piece's turn itself makes), as (rows down, columns
/// right).
pub open spec fn offset_kicks(from: Seq<(int, int)>, to: Seq<(int, int)>) -> Seq<Coords> {
    Seq::new(
        from.len(),
        |i: int|
            Coords(
                ((to[i].1 - from[i].1) - (to[0].1 - from[0].1)) as i32,
                ((from[i].0 - to[i].0) - (from[0].0 - to[0].0)) as i32,
            ),
    )
}

/// The J, L, S, T and Z tetrominoes of SRS.
pub open spec fn is_srs_jlstz(piece: PieceKind) -> bool {
    piece matches PieceKind::TetrominoSrs(k) && k != TetrominoSrs::I && k != TetrominoSrs::O
}

/// The SRS wall kicks come from the SRS offset tables: the kicks of a
/// clockwise turn are the differences of the offsets of the state turned
/// from and the state turned to, test by test (relative to the first test).
/// So, for one, a T pointing right (state `Cw`) tries (0, 0), then one
/// column right, then one row down and one right, then two rows up, then two
/// up and one right.
pub proof fn lemma_srs_kicks_from_offsets(piece: PieceKind, rotation_state: RotationState)
    ensures
        ({
            let next = RotationState::from_quarter_turns(rotation_state.quarter_turns() + 1);
            &&& is_srs_jlstz(piece) ==> srs_cw_kicks(piece, rotation_state) == offset_kicks(
                jlstz_offsets(rotation_state),
                jlstz_offsets(next),
            )
            &&& piece == PieceKind::TetrominoSrs(TetrominoSrs::I) ==> srs_cw_kicks(piece, rotation_state)
                == offset_kicks(i_offsets(rotation_state), i_offsets(next))
        }),
{
    let next = RotationState::from_quarter_turns(rotation_state.quarter_turns() + 1);
    if is_srs_jlstz(piece) {
        assert(srs_cw_kicks(piece, rotation_state) =~= offset_kicks(jlstz_offsets(rotation_state), jlstz_offsets(next)));
    }
    if piece == PieceKind::TetrominoSrs(TetrominoSrs::I) {
        assert(srs_cw_kicks(piece, rotation_state) =~= offset_kicks(i_offsets(rotation_state), i_offsets(next)));
    }
}

/// SRS kicks are symmetric under a half turn of the state turned from: for
/// the J, L, S, T and Z tetrominoes the clockwise kicks from the opposite
/// state are the kicks mirrored left to right; for the I tetromino they are
/// the kicks negated.
pub proof fn lemma_srs_kicks_symmetric(piece: PieceKind, rotation_state: RotationState)
    ensures
        is_srs_jlstz(piece) ==> srs_cw_kicks(
            piece,
            RotationState::from_quarter_turns(rotation_state.quarter_turns() + 2),
        ) == mirrored(srs_cw_kicks(piece, rotation_state)),
        piece == PieceKind::TetrominoSrs(TetrominoSrs::I) ==> srs_cw_kicks(
            piece,
            RotationState::from_quarter_turns(rotation_state.quarter_turns() + 2),
        ) == negated(srs_cw_kicks(piece, rotation_state)),
{
    let opposite = RotationState::from_quarter_turns(rotation_state.quarter_turns() + 2);
    if is_srs_jlstz(piece) {
        assert(srs_cw_kicks(piece, opposite) =~= mirrored(srs_cw_kicks(piece, rotation_state)));
    }
    if piece == PieceKind::TetrominoSrs(TetrominoSrs::I) {
        assert(srs_cw_kicks(piece, opposite) =~= negated(srs_cw_kicks(piece, rotation_state)));
    }
}

impl KickTable for SrsKickTable {
    open spec fn cw_kicks(&self, piece: PieceKind, rotation_state: RotationState) -> Seq<Coords> {
        srs_cw_kicks(piece, rotation_state)
    }

    /// A counterclockwise turn from `s` uses the clockwise kicks into `s`, negated.
    open spec fn ccw_kicks(&self, piece: PieceKind, rotation_state: RotationState) -> Seq<Coords> {
        negated(
            srs_cw_kicks(piece, RotationState::from_quarter_turns(rotation_state.quarter_turns() + 3)),
        )
    }

    fn rotate_cw(&self, piece: PieceKind, rotation_state: RotationState) -> (r: Vec<Coords>) {
        match piece {
            PieceKind::TetrominoSrs(kind) => match kind {
                TetrominoSrs::I => {
                    match rotation_state {
                        RotationState::Initial => vec![Coords(0, 0), Coords(0, -2), Coords(0, 1), Coords(1, -2), Coords(-2, 1)],
                        RotationState::Cw => vec![Coords(0, 0), Coords(0, -1), Coords(0, 2), Coords(-2, -1), Coords(1, 2)],
                        RotationState::Flipped => vec![Coords(0, 0), Coords(0, 2), Coords(0, -1), Coords(-1, 2), Coords(2, -1)],
                        RotationState::Ccw => vec![Coords(0, 0), Coords(0, 1), Coords(0, -2), Coords(2, 1), Coords(-1, -2)],
                    }
                },
                // the O tetromino does not rotate at all
                TetrominoSrs::O => vec![],
                _ => {
                    match rotation_state {
                        RotationState::Initial => vec![Coords(0, 0), Coords(0, -1), Coords(-1, -1), Coords(2, 0), Coords(2, -1)],
                        RotationState::Cw => vec![Coords(0, 0), Coords(0, 1), Coords(1, 1), Coords(-2, 0), Coords(-2, 1)],
                        RotationState::Flipped => vec![Coords(0, 0), Coords(0, 1), Coords(-1, 1), Coords(2, 0), Coords(2, 1)],
                        RotationState::Ccw => vec![Coords(0, 0), Coords(0, -1), Coords(1, -1), Coords(-2, 0), Coords(-2, -1)],
                    }
                },
            },
            _ => vec![Coords(0, 0)],
        }
    }

    fn rotate_ccw(&self, piece: PieceKind, rotation_state: RotationState) -> (r: Vec<Coords>) {
        let kicks = self.rotate_cw(piece, rotation_state.next_ccw());
        proof {
            lemma_srs_kicks_small(
                piece,
                RotationState::from_quarter_turns(rotation_state.quarter_turns() + 3),
            );
        }
        negate_all(kicks)
    }
}

/// The half-turn kick table of TETR.IO.
pub struct TetrIo180KickTable;

/// TETR.IO half-turn kicks from `rotation_state`, the same for every piece.
pub open spec fn tetrio_180_kicks(rotation_state: RotationState) -> Seq<Coords> {
    match rotation_state {
        RotationState::Initial => seq![Coords(0, 0), Coords(-1i32, 0), Coords(-1i32, 1), Coords(-1i32, -1i32), Coords(0, 1), Coords(0, -1i32)],
        RotationState::Cw => seq![Coords(0, 0), Coords(0, 1), Coords(-2i32, 1), Coords(-1i32, 1), Coords(-2i32, 0), Coords(-1i32, 0)],
        RotationState::Flipped => seq![Coords(0, 0), Coords(1, 0), Coords(1, -1i32), Coords(1, 1), Coords(0, -1i32), Coords(0, 1)],
        RotationState::Ccw => seq![Coords(0, 0), Coords(0, -1i32), Coords(-2i32, -1i32), Coords(-1i32, -1i32), Coords(-2i32, 0), Coords(-1i32, 0)],
    }
}

impl KickTable180 for TetrIo180KickTable {
    open spec fn half_turn_kicks(&self, piece: PieceKind, rotation_state: RotationState) -> Seq<Coords> {
        tetrio_180_kicks(rotation_state)
    }

    fn rotate_180(&self, _piece: PieceKind, rotation_state: RotationState) -> (r: Vec<Coords>) {
        match rotation_state {
            RotationState::Initial => vec![Coords(0, 0), Coords(-1, 0), Coords(-1, 1), Coords(-1, -1), Coords(0, 1), Coords(0, -1)],
            RotationState::Cw => vec![Coords(0, 0), Coords(0, 1), Coords(-2, 1), Coords(-1, 1), Coords(-2, 0), Coords(-1, 0)],
            RotationState::Flipped => vec![Coords(0, 0), Coords(1, 0), Coords(1, -1), Coords(1, 1), Coords(0, -1), Coords(0, 1)],
            RotationState::Ccw => vec![Coords(0, 0), Coords(0, -1), Coords(-2, -1), Coords(-1, -1), Coords(-2, 0), Coords(-1, 0)],
        }
    }
}

/// The TETR.IO half-turn kicks are symmetric: from the state turned right
/// and the state turned left they are mirror images, and from the spawn
/// state and the flipped state they are negations of each other.
pub proof fn lemma_tetrio_180_symmetric()
    ensures
        tetrio_180_kicks(RotationState::Ccw) == mirrored(tetrio_180_kicks(RotationState::Cw)),
        tetrio_180_kicks(RotationState::Flipped) == negated(tetrio_180_kicks(RotationState::Initial)),
{
    assert(tetrio_180_kicks(RotationState::Ccw) =~= mirrored(tetrio_180_kicks(RotationState::Cw)));
    assert(tetrio_180_kicks(RotationState::Flipped) =~= negated(tetrio_180_kicks(RotationState::Initial)));
}

/// The ASC kick table: the same kicks for every piece and rotation state,
/// mirrored left to right for clockwise turns.
pub struct AscKickTable;

/// ASC kicks for counterclockwise turns.
pub open spec fn asc_ccw_kicks() -> Seq<Coords> {
    seq![Coords(0, 0), Coords(0, 1), Coords(1, 0), Coords(1, 1), Coords(2, 0), Coords(2, 1), Coords(0, 2), Coords(1, 2), Coords(2, 2), Coords(0, -1i32), Coords(1, -1i32), Coords(-1i32, 0), Coords(-1i32, 1), Coords(-1i32, 2), Coords(2, -1i32), Coords(0, -2i32), Coords(-2i32, 0), Coords(-2i32, 1), Coords(-2i32, 2), Coords(1, -2i32), Coords(2, -2i32), Coords(-1i32, -1i32)]
}

impl KickTable for AscKickTable {
    open spec fn cw_kicks(&self, piece: PieceKind, rotation_state: RotationState) -> Seq<Coords> {
        mirrored(asc_ccw_kicks())
    }

    open spec fn ccw_kicks(&self, piece: PieceKind, rotation_state: RotationState) -> Seq<Coords> {
        asc_ccw_kicks()
    }

    fn rotate_cw(&self, piece: PieceKind, rotation_state: RotationState) -> (r: Vec<Coords>) {
        let kicks = self.rotate_ccw(piece, rotation_state);
        assert(small_kicks(kicks@));
        mirror_all(kicks)
    }

    fn rotate_ccw(&self, _piece: PieceKind, _rotation_state: RotationState) -> (r: Vec<Coords>) {
        // kicks to the right, to the left, then the rest
        vec![Coords(0, 0), Coords(0, 1), Coords(1, 0), Coords(1, 1), Coords(2, 0), Coords(2, 1), Coords(0, 2), Coords(1, 2), Coords(2, 2), Coords(0, -1), Coords(1, -1), Coords(-1, 0), Coords(-1, 1), Coords(-1, 2), Coords(2, -1), Coords(0, -2), Coords(-2, 0), Coords(-2, 1), Coords(-2, 2), Coords(1, -2), Coords(2, -2), Coords(-1, -1)]
    }
}

/// Every kick table tries the plain, unshifted rotation first.
pub proof fn lemma_plain_rotation_first(piece: PieceKind, rotation_state: RotationState)
    ensures
        SrsKickTable.cw_kicks(piece, rotation_state).len() > 0 ==> SrsKickTable.cw_kicks(piece, rotation_state)[0]
            == Coords(0, 0),
        SrsKickTable.ccw_kicks(piece, rotation_state).len() > 0 ==> SrsKickTable.ccw_kicks(piece, rotation_state)[0]
            == Coords(0, 0),
        BasicKickTable.cw_kicks(piece, rotation_state)[0] == Coords(0, 0),
        BasicKickTable.ccw_kicks(piece, rotation_state)[0] == Coords(0, 0),
        BasicKickTable.half_turn_kicks(piece, rotation_state)[0] == Coords(0, 0),
        TetrIo180KickTable.half_turn_kicks(piece, rotation_state)[0] == Coords(0, 0),
        AscKickTable.cw_kicks(piece, rotation_state)[0] == Coords(0, 0),
        AscKickTable.ccw_kicks(piece, rotation_state)[0] == Coords(0, 0),
{
    let prev = RotationState::from_quarter_turns(rotation_state.quarter_turns() + 3);
    match piece {
        PieceKind::TetrominoSrs(kind) => {
            match kind {
                TetrominoSrs::I => {},
                TetrominoSrs::O => {},
                _ => {},
            }
        },
        _ => {},
    }
    assert(negated(srs_cw_kicks(piece, prev)).len() > 0 ==> negated(srs_cw_kicks(piece, prev))[0] == Coords(0, 0));
}

/// SRS kicks are symmetric: turning counterclockwise from the state a
/// clockwise turn reached tries the clockwise kicks negated. The O tetromino
/// never turns under SRS.
pub proof fn lemma_srs_ccw_undoes_cw(piece: PieceKind, rotation_state: RotationState)
    ensures
        SrsKickTable.ccw_kicks(piece, RotationState::from_quarter_turns(rotation_state.quarter_turns() + 1))
            == negated(SrsKickTable.cw_kicks(piece, rotation_state)),
        SrsKickTable.cw_kicks(PieceKind::TetrominoSrs(TetrominoSrs::O), rotation_state).len() == 0,
        SrsKickTable.ccw_kicks(PieceKind::TetrominoSrs(TetrominoSrs::O), rotation_state).len() == 0,
{
    lemma_rotation_state_cycle(rotation_state);
}

} // verus!
