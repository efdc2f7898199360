//! Game settings that select field dimensions, piece types, kick tables,
//! spin detection and goals.

use vstd::prelude::*;

use crate::field::{kicks_fit, lemma_small_kicks_fit, lemma_turn_keeps_pivot, lemma_wf_turnable, DefaultField, FieldView};
use crate::input::Input;
use crate::kicks::{
    lemma_srs_kicks_small, small_kicks, AscKickTable, BasicKickTable, KickTable, KickTable180, RotationState,
    SrsKickTable, TetrIo180KickTable,
};
use crate::pieces::mino123::Mino123;
use crate::pieces::mino1234::Mino1234;
use crate::pieces::tetromino::{TetrominoAsc, TetrominoSrs};
use crate::pieces::{PieceKind, PieceKindTrait};
use crate::spins::{ImmobileSpinDetector, NoSpinDetector, SpinDetector, TSpinDetector};
use crate::Coords;

verus! {

/// Dimensions of the field and length of the next queue.
#[derive(Clone, Copy, Debug, PartialEq, Eq, Structural)]
pub struct FieldValues {
    pub width: usize,
    pub height: usize,
    pub hidden: usize,
    pub queue_len: usize,
}

impl FieldValues {
    pub fn new(width: usize, height: usize, hidden: usize, queue_len: usize) -> (r: FieldValues)
        ensures
            r.width == width,
            r.height == height,
            r.hidden == hidden,
            r.queue_len == queue_len,
    {
        FieldValues { width, height, hidden, queue_len }
    }
}

/// The families of piece kinds a game can be played with.
#[derive(Copy, Clone, Debug, PartialEq, Eq, Structural)]
pub enum PieceTypes {
    TetrominoSrs,
    TetrominoAsc,
    Mino123,
    Mino1234,
}

impl PieceTypes {
    /// All piece kinds of the family.
    pub open spec fn kinds_spec(self) -> Seq<PieceKind> {
        match self {
            PieceTypes::TetrominoSrs => TetrominoSrs::kinds_spec(),
            PieceTypes::TetrominoAsc => TetrominoAsc::kinds_spec(),
            PieceTypes::Mino123 => Mino123::kinds_spec(),
            PieceTypes::Mino1234 => Mino1234::kinds_spec(),
        }
    }

    /// All piece kinds of the family.
    pub fn kinds(&self) -> (r: Vec<PieceKind>)
        ensures
            r@ == self.kinds_spec(),
    {
        match self {
            PieceTypes::TetrominoSrs => TetrominoSrs::iter(),
            PieceTypes::TetrominoAsc => TetrominoAsc::iter(),
            PieceTypes::Mino123 => Mino123::iter(),
            PieceTypes::Mino1234 => Mino1234::iter(),
        }
    }
}

/// The kick tables for quarter turns a game can be played with; the setting
/// itself acts as the selected table.
#[derive(Copy, Clone, Debug, PartialEq, Eq, Structural)]
pub enum KickTables {
    Srs,
    Asc,
    Basic,
}

impl KickTable for KickTables {
    open spec fn cw_kicks(&self, piece: PieceKind, rotation_state: RotationState) -> Seq<Coords> {
        match self {
            KickTables::Srs => SrsKickTable.cw_kicks(piece, rotation_state),
            KickTables::Asc => AscKickTable.cw_kicks(piece, rotation_state),
            KickTables::Basic => BasicKickTable.cw_kicks(piece, rotation_state),
        }
    }

    open spec fn ccw_kicks(&self, piece: PieceKind, rotation_state: RotationState) -> Seq<Coords> {
        match self {
            KickTables::Srs => SrsKickTable.ccw_kicks(piece, rotation_state),
            KickTables::Asc => AscKickTable.ccw_kicks(piece, rotation_state),
            KickTables::Basic => BasicKickTable.ccw_kicks(piece, rotation_state),
        }
    }

    fn rotate_cw(&self, piece: PieceKind, rotation_state: RotationState) -> (r: Vec<Coords>) {
        match self {
            KickTables::Srs => SrsKickTable.rotate_cw(piece, rotation_state),
            KickTables::Asc => AscKickTable.rotate_cw(piece, rotation_state),
            KickTables::Basic => BasicKickTable.rotate_cw(piece, rotation_state),
        }
    }

    fn rotate_ccw(&self, piece: PieceKind, rotation_state: RotationState) -> (r: Vec<Coords>) {
        match self {
            KickTables::Srs => SrsKickTable.rotate_ccw(piece, rotation_state),
            KickTables::Asc => AscKickTable.rotate_ccw(piece, rotation_state),
            KickTables::Basic => BasicKickTable.rotate_ccw(piece, rotation_state),
        }
    }
}

/// The kicks of every selectable table move a piece by at most two squares
/// each way.
pub proof fn lemma_kick_tables_small(t: KickTables, t180: KickTable180s, piece: PieceKind, rotation_state: RotationState)
    ensures
        small_kicks(t.cw_kicks(piece, rotation_state)),
        small_kicks(t.ccw_kicks(piece, rotation_state)),
        small_kicks(t180.half_turn_kicks(piece, rotation_state)),
{
    lemma_srs_kicks_small(piece, rotation_state);
    lemma_srs_kicks_small(piece, RotationState::from_quarter_turns(rotation_state.quarter_turns() + 3));
}

/// On a consistent field every kick of the selectable tables fits the turned
/// current piece, for quarter turns either way and half turns.
pub proof fn lemma_kick_tables_fit(v: FieldView, t: KickTables, t180: KickTable180s)
    requires
        v.wf(),
    ensures
        kicks_fit(v.cur.turned(), t.cw_kicks(v.cur.kind, v.cur.rotation)),
        kicks_fit(v.cur.turned().turned().turned(), t.ccw_kicks(v.cur.kind, v.cur.rotation)),
        kicks_fit(v.cur.turned().turned(), t180.half_turn_kicks(v.cur.kind, v.cur.rotation)),
{
    lemma_wf_turnable(v);
    lemma_turn_keeps_pivot(v.cur.turned().turned());
    lemma_kick_tables_small(t, t180, v.cur.kind, v.cur.rotation);
    lemma_small_kicks_fit(v.cur.turned(), t.cw_kicks(v.cur.kind, v.cur.rotation));
    lemma_small_kicks_fit(v.cur.turned().turned().turned(), t.ccw_kicks(v.cur.kind, v.cur.rotation));
    lemma_small_kicks_fit(v.cur.turned().turned(), t180.half_turn_kicks(v.cur.kind, v.cur.rotation));
}

/// The kick tables for half turns a game can be played with; the setting
/// itself acts as the selected table.
#[derive(Copy, Clone, Debug, PartialEq, Eq, Structural)]
pub enum KickTable180s {
    TetrIo,
    Lru,
}

impl KickTable180 for KickTable180s {
    open spec fn half_turn_kicks(&self, piece: PieceKind, rotation_state: RotationState) -> Seq<Coords> {
        match self {
            KickTable180s::TetrIo => TetrIo180KickTable.half_turn_kicks(piece, rotation_state),
            KickTable180s::Lru => BasicKickTable.half_turn_kicks(piece, rotation_state),
        }
    }

    fn rotate_180(&self, piece: PieceKind, rotation_state: RotationState) -> (r: Vec<Coords>) {
        match self {
            KickTable180s::TetrIo => TetrIo180KickTable.rotate_180(piece, rotation_state),
            KickTable180s::Lru => BasicKickTable.rotate_180(piece, rotation_state),
        }
    }
}

/// The ways of detecting spins a game can be played with; the setting itself
/// acts as the selected detector.
#[derive(Copy, Clone, Debug, PartialEq, Eq, Structural)]
pub enum SpinTypes {
    TSpins,
    AllImmobile,
    NoSpins,
}

impl SpinDetector for SpinTypes {
    open spec fn spin(&self, v: FieldView) -> (Option<PieceKind>, bool) {
        match self {
            SpinTypes::TSpins => TSpinDetector.spin(v),
            SpinTypes::AllImmobile => ImmobileSpinDetector.spin(v),
            SpinTypes::NoSpins => NoSpinDetector.spin(v),
        }
    }

    fn detect(&self, field: &DefaultField) -> (r: (Option<PieceKind>, bool)) {
        match self {
            SpinTypes::TSpins => TSpinDetector.detect(field),
            SpinTypes::AllImmobile => ImmobileSpinDetector.detect(field),
            SpinTypes::NoSpins => NoSpinDetector.detect(field),
        }
    }
}

/// The goals a game can be played to.
#[derive(Copy, Clone, Debug, PartialEq, Eq, Structural)]
pub enum GoalTypes {
    NoGoal,
    LinesCleared,
    TimeLimit,
}

/// The settings that the game logic reads: gameplay, field, goal and
/// handling (delays in milliseconds). The look of the interface and the key
/// bindings belong to the interface.
#[derive(Clone, Copy, Debug, PartialEq, Eq, Structural)]
pub struct Config {
    // gameplay
    pub gravity_delay: u32,
    pub lock_delay: u32,
    pub move_limit: usize,
    pub topping_out_enabled: bool,
    pub auto_lock_enabled: bool,
    pub gravity_enabled: bool,
    pub move_limit_enabled: bool,
    // field property settings
    pub field_width: usize,
    pub field_height: usize,
    pub field_hidden: usize,
    pub queue_len: usize,
    pub piece_type: PieceTypes,
    pub spin_types: SpinTypes,
    pub kick_table: KickTables,
    pub kick_table_180: KickTable180s,
    // goal settings
    pub goal_type: GoalTypes,
    pub goal_n_lines: u32,
    pub goal_time_limit_secs: u64,
    // handling
    pub delayed_auto_shift: u32,
    pub auto_repeat_rate: u32,
    pub soft_drop_rate: u32,
}

/// The default settings.
pub open spec fn default_config() -> Config {
    Config {
        gravity_delay: 1_000,
        lock_delay: 500,
        move_limit: 30,
        topping_out_enabled: true,
        auto_lock_enabled: true,
        gravity_enabled: true,
        move_limit_enabled: true,
        field_width: 10,
        field_height: 40,
        field_hidden: 20,
        queue_len: 5,
        piece_type: PieceTypes::TetrominoSrs,
        spin_types: SpinTypes::TSpins,
        kick_table: KickTables::Srs,
        kick_table_180: KickTable180s::TetrIo,
        goal_type: GoalTypes::NoGoal,
        goal_n_lines: 40,
        goal_time_limit_secs: 120,
        delayed_auto_shift: 280,
        auto_repeat_rate: 50,
        soft_drop_rate: 30,
    }
}

impl Default for Config {
    fn default() -> (r: Config)
        ensures
            r == default_config(),
    {
        Config {
            gravity_delay: 1_000,
            lock_delay: 500,
            move_limit: 30,
            topping_out_enabled: true,
            auto_lock_enabled: true,
            gravity_enabled: true,
            move_limit_enabled: true,
            field_width: 10,
            field_height: 40,
            field_hidden: 20,
            queue_len: 5,
            piece_type: PieceTypes::TetrominoSrs,
            spin_types: SpinTypes::TSpins,
            kick_table: KickTables::Srs,
            kick_table_180: KickTable180s::TetrIo,
            goal_type: GoalTypes::NoGoal,
            goal_n_lines: 40,
            goal_time_limit_secs: 120,
            delayed_auto_shift: 280,
            auto_repeat_rate: 50,
            soft_drop_rate: 30,
        }
    }
}

impl Config {
    /// Play to a goal: the goal type with its number of lines (for clearing
    /// lines) and time limit in seconds (for a time limit).
    pub fn set_goal(&mut self, goal_type: GoalTypes, n_lines: u32, time_limit_secs: u64)
        ensures
            *final(self) == (Config {
                goal_type,
                goal_n_lines: n_lines,
                goal_time_limit_secs: time_limit_secs,
                ..*old(self)
            }),
    {
        self.goal_type = goal_type;
        self.goal_n_lines = n_lines;
        self.goal_time_limit_secs = time_limit_secs;
    }
}

/// A change of one setting, as the settings panel sends it. Setting the
/// hidden lines also sets the height, to twice as many lines.
#[derive(Clone, Copy, Debug, PartialEq, Eq, Structural)]
pub enum ConfigMsg {
    GravityDelay(u32),
    LockDelay(u32),
    MoveLimit(usize),
    ToppingOutEnabled(bool),
    AutoLockEnabled(bool),
    GravityEnabled(bool),
    MoveLimitEnabled(bool),
    FieldWidth(usize),
    FieldHidden(usize),
    QueueLen(usize),
    PieceType(PieceTypes),
    SpinType(SpinTypes),
    KickTable(KickTables),
    KickTable180(KickTable180s),
    GoalType(GoalTypes),
    GoalNLines(u32),
    GoalTimeLimitSecs(u64),
    DelayedAutoShift(u32),
    AutoRepeatRate(u32),
    SoftDropRate(u32),
}

/// The settings after `msg`.
pub open spec fn config_after(c: Config, msg: ConfigMsg) -> Config {
    match msg {
        ConfigMsg::GravityDelay(x) => Config { gravity_delay: x, ..c },
        ConfigMsg::LockDelay(x) => Config { lock_delay: x, ..c },
        ConfigMsg::MoveLimit(x) => Config { move_limit: x, ..c },
        ConfigMsg::ToppingOutEnabled(x) => Config { topping_out_enabled: x, ..c },
        ConfigMsg::AutoLockEnabled(x) => Config { auto_lock_enabled: x, ..c },
        ConfigMsg::GravityEnabled(x) => Config { gravity_enabled: x, ..c },
        ConfigMsg::MoveLimitEnabled(x) => Config { move_limit_enabled: x, ..c },
        ConfigMsg::FieldWidth(x) => Config { field_width: x, ..c },
        ConfigMsg::FieldHidden(x) => Config { field_hidden: x, field_height: (2 * x) as usize, ..c },
        ConfigMsg::QueueLen(x) => Config { queue_len: x, ..c },
        ConfigMsg::PieceType(x) => Config { piece_type: x, ..c },
        ConfigMsg::SpinType(x) => Config { spin_types: x, ..c },
        ConfigMsg::KickTable(x) => Config { kick_table: x, ..c },
        ConfigMsg::KickTable180(x) => Config { kick_table_180: x, ..c },
        ConfigMsg::GoalType(x) => Config { goal_type: x, ..c },
        ConfigMsg::GoalNLines(x) => Config { goal_n_lines: x, ..c },
        ConfigMsg::GoalTimeLimitSecs(x) => Config { goal_time_limit_secs: x, ..c },
        ConfigMsg::DelayedAutoShift(x) => Config { delayed_auto_shift: x, ..c },
        ConfigMsg::AutoRepeatRate(x) => Config { auto_repeat_rate: x, ..c },
        ConfigMsg::SoftDropRate(x) => Config { soft_drop_rate: x, ..c },
    }
}

/// The field dimensions after `msg` (only the width, the hidden lines with
/// the height, and the queue length concern them).
pub open spec fn values_after(v: FieldValues, msg: ConfigMsg) -> FieldValues {
    match msg {
        ConfigMsg::FieldWidth(x) => FieldValues { width: x, ..v },
        ConfigMsg::FieldHidden(x) => FieldValues { hidden: x, height: (2 * x) as usize, ..v },
        ConfigMsg::QueueLen(x) => FieldValues { queue_len: x, ..v },
        _ => v,
    }
}

/// `c` holds the value that `msg` carries in the setting `msg` names (a
/// field height message names the hidden lines, and the height, which is
/// twice as many lines).
pub open spec fn holds_setting(c: Config, msg: ConfigMsg) -> bool {
    match msg {
        ConfigMsg::GravityDelay(x) => c.gravity_delay == x,
        ConfigMsg::LockDelay(x) => c.lock_delay == x,
        ConfigMsg::MoveLimit(x) => c.move_limit == x,
        ConfigMsg::ToppingOutEnabled(x) => c.topping_out_enabled == x,
        ConfigMsg::AutoLockEnabled(x) => c.auto_lock_enabled == x,
        ConfigMsg::GravityEnabled(x) => c.gravity_enabled == x,
        ConfigMsg::MoveLimitEnabled(x) => c.move_limit_enabled == x,
        ConfigMsg::FieldWidth(x) => c.field_width == x,
        ConfigMsg::FieldHidden(x) => c.field_hidden == x && c.field_height == 2 * x,
        ConfigMsg::QueueLen(x) => c.queue_len == x,
        ConfigMsg::PieceType(x) => c.piece_type == x,
        ConfigMsg::SpinType(x) => c.spin_types == x,
        ConfigMsg::KickTable(x) => c.kick_table == x,
        ConfigMsg::KickTable180(x) => c.kick_table_180 == x,
        ConfigMsg::GoalType(x) => c.goal_type == x,
        ConfigMsg::GoalNLines(x) => c.goal_n_lines == x,
        ConfigMsg::GoalTimeLimitSecs(x) => c.goal_time_limit_secs == x,
        ConfigMsg::DelayedAutoShift(x) => c.delayed_auto_shift == x,
        ConfigMsg::AutoRepeatRate(x) => c.auto_repeat_rate == x,
        ConfigMsg::SoftDropRate(x) => c.soft_drop_rate == x,
    }
}

/// Which setting a message names, numbered in the order of the settings
/// panel.
pub open spec fn setting_of(msg: ConfigMsg) -> int {
    match msg {
        ConfigMsg::GravityDelay(_) => 0,
        ConfigMsg::LockDelay(_) => 1,
        ConfigMsg::MoveLimit(_) => 2,
        ConfigMsg::ToppingOutEnabled(_) => 3,
        ConfigMsg::AutoLockEnabled(_) => 4,
        ConfigMsg::GravityEnabled(_) => 5,
        ConfigMsg::MoveLimitEnabled(_) => 6,
        ConfigMsg::FieldWidth(_) => 7,
        ConfigMsg::FieldHidden(_) => 8,
        ConfigMsg::QueueLen(_) => 9,
        ConfigMsg::PieceType(_) => 10,
        ConfigMsg::SpinType(_) => 11,
        ConfigMsg::KickTable(_) => 12,
        ConfigMsg::KickTable180(_) => 13,
        ConfigMsg::GoalType(_) => 14,
        ConfigMsg::GoalNLines(_) => 15,
        ConfigMsg::GoalTimeLimitSecs(_) => 16,
        ConfigMsg::DelayedAutoShift(_) => 17,
        ConfigMsg::AutoRepeatRate(_) => 18,
        ConfigMsg::SoftDropRate(_) => 19,
    }
}

/// The field dimensions `v` are those of the settings `c`.
pub open spec fn values_match(c: Config, v: FieldValues) -> bool {
    &&& v.width == c.field_width
    &&& v.height == c.field_height
    &&& v.hidden == c.field_hidden
    &&& v.queue_len == c.queue_len
}

/// Each settings message sets exactly the setting it names: afterwards that
/// setting holds the message's value, and every setting another message
/// names keeps its value (so, for one, an auto repeat rate message changes
/// the auto repeat rate and leaves the delayed auto shift alone). The field
/// dimensions kept beside the settings stay in step with them.
pub proof fn lemma_config_msg_sets_its_setting(c: Config, v: FieldValues, msg: ConfigMsg, other: ConfigMsg)
    requires
        msg matches ConfigMsg::FieldHidden(h) ==> 2 * h <= usize::MAX,
    ensures
        holds_setting(config_after(c, msg), msg),
        setting_of(other) != setting_of(msg) && holds_setting(c, other) ==> holds_setting(
            config_after(c, msg),
            other,
        ),
        values_match(c, v) ==> values_match(config_after(c, msg), values_after(v, msg)),
{
    match msg {
        ConfigMsg::GravityDelay(_) => {},
        ConfigMsg::LockDelay(_) => {},
        ConfigMsg::MoveLimit(_) => {},
        ConfigMsg::ToppingOutEnabled(_) => {},
        ConfigMsg::AutoLockEnabled(_) => {},
        ConfigMsg::GravityEnabled(_) => {},
        ConfigMsg::MoveLimitEnabled(_) => {},
        ConfigMsg::FieldWidth(_) => {},
        ConfigMsg::FieldHidden(_) => {},
        ConfigMsg::QueueLen(_) => {},
        ConfigMsg::PieceType(_) => {},
        ConfigMsg::SpinType(_) => {},
        ConfigMsg::KickTable(_) => {},
        ConfigMsg::KickTable180(_) => {},
        ConfigMsg::GoalType(_) => {},
        ConfigMsg::GoalNLines(_) => {},
        ConfigMsg::GoalTimeLimitSecs(_) => {},
        ConfigMsg::DelayedAutoShift(_) => {},
        ConfigMsg::AutoRepeatRate(_) => {},
        ConfigMsg::SoftDropRate(_) => {},
    }
    match other {
        ConfigMsg::GravityDelay(_) => {},
        ConfigMsg::LockDelay(_) => {},
        ConfigMsg::MoveLimit(_) => {},
        ConfigMsg::ToppingOutEnabled(_) => {},
        ConfigMsg::AutoLockEnabled(_) => {},
        ConfigMsg::GravityEnabled(_) => {},
        ConfigMsg::MoveLimitEnabled(_) => {},
        ConfigMsg::FieldWidth(_) => {},
        ConfigMsg::FieldHidden(_) => {},
        ConfigMsg::QueueLen(_) => {},
        ConfigMsg::PieceType(_) => {},
        ConfigMsg::SpinType(_) => {},
        ConfigMsg::KickTable(_) => {},
        ConfigMsg::KickTable180(_) => {},
        ConfigMsg::GoalType(_) => {},
        ConfigMsg::GoalNLines(_) => {},
        ConfigMsg::GoalTimeLimitSecs(_) => {},
        ConfigMsg::DelayedAutoShift(_) => {},
        ConfigMsg::AutoRepeatRate(_) => {},
        ConfigMsg::SoftDropRate(_) => {},
    }
}

/// Apply a change of one setting to the settings and to the field
/// dimensions kept beside them.
pub fn apply_config_msg(config: &mut Config, values: &mut FieldValues, msg: ConfigMsg)
    requires
        msg matches ConfigMsg::FieldHidden(h) ==> 2 * h <= usize::MAX,
    ensures
        *final(config) == config_after(*old(config), msg),
        *final(values) == values_after(*old(values), msg),
{
    match msg {
        ConfigMsg::FieldWidth(width) => values.width = width,
        ConfigMsg::FieldHidden(hidden) => {
            values.height = hidden * 2;
            values.hidden = hidden;
        },
        ConfigMsg::QueueLen(queue_len) => values.queue_len = queue_len,
        _ => {},
    }
    match msg {
        ConfigMsg::GravityDelay(x) => config.gravity_delay = x,
        ConfigMsg::LockDelay(x) => config.lock_delay = x,
        ConfigMsg::MoveLimit(x) => config.move_limit = x,
        ConfigMsg::ToppingOutEnabled(x) => config.topping_out_enabled = x,
        ConfigMsg::AutoLockEnabled(x) => config.auto_lock_enabled = x,
        ConfigMsg::GravityEnabled(x) => config.gravity_enabled = x,
        ConfigMsg::MoveLimitEnabled(x) => config.move_limit_enabled = x,
        ConfigMsg::FieldWidth(x) => config.field_width = x,
        ConfigMsg::FieldHidden(x) => {
            config.field_height = x * 2;
            config.field_hidden = x;
        },
        ConfigMsg::QueueLen(x) => config.queue_len = x,
        ConfigMsg::PieceType(x) => config.piece_type = x,
        ConfigMsg::SpinType(x) => config.spin_types = x,
        ConfigMsg::KickTable(x) => config.kick_table = x,
        ConfigMsg::KickTable180(x) => config.kick_table_180 = x,
        ConfigMsg::GoalType(x) => config.goal_type = x,
        ConfigMsg::GoalNLines(x) => config.goal_n_lines = x,
        ConfigMsg::GoalTimeLimitSecs(x) => config.goal_time_limit_secs = x,
        ConfigMsg::DelayedAutoShift(x) => config.delayed_auto_shift = x,
        ConfigMsg::AutoRepeatRate(x) => config.auto_repeat_rate = x,
        ConfigMsg::SoftDropRate(x) => config.soft_drop_rate = x,
    }
}

/// The goals the menu offers: sprints of a number of lines and ultras of a
/// time limit.
#[derive(Clone, Copy, Debug, PartialEq, Eq, Structural)]
pub enum GoalPreset {
    Lines20,
    Lines40,
    Lines100,
    Lines1000,
    Minutes1,
    Minutes2,
    Minutes5,
    Hour1,
}

/// The goal type, lines and time limit (in seconds) of a preset: a sprint
/// sets no time limit, an ultra no lines.
pub open spec fn preset_goal(p: GoalPreset) -> (GoalTypes, u32, u64) {
    match p {
        GoalPreset::Lines20 => (GoalTypes::LinesCleared, 20, 0),
        GoalPreset::Lines40 => (GoalTypes::LinesCleared, 40, 0),
        GoalPreset::Lines100 => (GoalTypes::LinesCleared, 100, 0),
        GoalPreset::Lines1000 => (GoalTypes::LinesCleared, 1_000, 0),
        GoalPreset::Minutes1 => (GoalTypes::TimeLimit, 0, 60),
        GoalPreset::Minutes2 => (GoalTypes::TimeLimit, 0, 120),
        GoalPreset::Minutes5 => (GoalTypes::TimeLimit, 0, 300),
        GoalPreset::Hour1 => (GoalTypes::TimeLimit, 0, 3_600),
    }
}

pub fn goal_preset(p: GoalPreset) -> (r: (GoalTypes, u32, u64))
    ensures
        r == preset_goal(p),
{
    match p {
        GoalPreset::Lines20 => (GoalTypes::LinesCleared, 20, 0),
        GoalPreset::Lines40 => (GoalTypes::LinesCleared, 40, 0),
        GoalPreset::Lines100 => (GoalTypes::LinesCleared, 100, 0),
        GoalPreset::Lines1000 => (GoalTypes::LinesCleared, 1_000, 0),
        GoalPreset::Minutes1 => (GoalTypes::TimeLimit, 0, 60),
        GoalPreset::Minutes2 => (GoalTypes::TimeLimit, 0, 120),
        GoalPreset::Minutes5 => (GoalTypes::TimeLimit, 0, 300),
        GoalPreset::Hour1 => (GoalTypes::TimeLimit, 0, 3_600),
    }
}

/// The default key bindings (guideline controls without double binds): each
/// input with the name of its key.
pub fn default_keybinds() -> (r: Vec<(Input, &'static str)>)
    ensures
        r@.len() == 10,
        r@[0].0 == Input::Left && r@[0].1@ == "ArrowLeft"@,
        r@[1].0 == Input::Right && r@[1].1@ == "ArrowRight"@,
        r@[2].0 == Input::SoftDrop && r@[2].1@ == "ArrowDown"@,
        r@[3].0 == Input::HardDrop && r@[3].1@ == " "@,
        r@[4].0 == Input::RotateCw && r@[4].1@ == "x"@,
        r@[5].0 == Input::RotateCcw && r@[5].1@ == "z"@,
        r@[6].0 == Input::Rotate180 && r@[6].1@ == "Shift"@,
        r@[7].0 == Input::SwapHold && r@[7].1@ == "c"@,
        r@[8].0 == Input::Reset && r@[8].1@ == "`"@,
        r@[9].0 == Input::ShowHideUi && r@[9].1@ == "F9"@,
{
    vec![
        (Input::Left, "ArrowLeft"),
        (Input::Right, "ArrowRight"),
        (Input::SoftDrop, "ArrowDown"),
        (Input::HardDrop, " "),
        (Input::RotateCw, "x"),
        (Input::RotateCcw, "z"),
        (Input::Rotate180, "Shift"),
        (Input::SwapHold, "c"),
        (Input::Reset, "`"),
        (Input::ShowHideUi, "F9"),
    ]
}

/// The look of the game that the interface reads, apart from the field zoom
/// and the shadow opacity (fractions, which the interface keeps): the skin
/// the squares are drawn with and how far down the page the field starts,
/// in pixels.
#[derive(Clone, Debug, PartialEq, Eq)]
pub struct LookSettings {
    pub skin_name: String,
    pub vertical_offset: i32,
}

impl LookSettings {
    /// The default look: the "tetrox" skin, 170 pixels down.
    pub fn new() -> (r: LookSettings)
        ensures
            r.skin_name@ == "tetrox"@,
            r.vertical_offset == 170,
    {
        LookSettings { skin_name: String::from_str("tetrox"), vertical_offset: 170 }
    }
}

/// A change of the look in the settings panel.
#[derive(Clone, Debug, PartialEq, Eq)]
pub enum LookMsg {
    SkinName(String),
    VerticalOffset(i32),
}

/// Apply `msg`: it sets its own setting and leaves the other.
pub fn apply_look_msg(look: &mut LookSettings, msg: LookMsg)
    ensures
        match msg {
            LookMsg::SkinName(name) => final(look).skin_name@ == name@ && final(look).vertical_offset
                == old(look).vertical_offset,
            LookMsg::VerticalOffset(offset) => final(look).vertical_offset == offset && final(look).skin_name@
                == old(look).skin_name@,
        },
{
    match msg {
        LookMsg::SkinName(name) => look.skin_name = name,
        LookMsg::VerticalOffset(offset) => look.vertical_offset = offset,
    }
}

} // verus!
