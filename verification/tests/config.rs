use tetrox::config::{
    apply_config_msg, apply_look_msg, goal_preset, Config, ConfigMsg, LookMsg, LookSettings, FieldValues, GoalPreset, GoalTypes, KickTable180s, KickTables,
    PieceTypes, SpinTypes,
};
use tetrox::field::DefaultField;
use tetrox::kicks::{AscKickTable, BasicKickTable, KickTable, KickTable180, RotationState, SrsKickTable, TetrIo180KickTable};
use tetrox::pieces::mino123::Mino123;
use tetrox::pieces::mino1234::Mino1234;
use tetrox::pieces::tetromino::{TetrominoAsc, TetrominoSrs};
use tetrox::pieces::{PieceKind, PieceKindTrait};
use tetrox::spins::SpinDetector;

const T: PieceKind = PieceKind::TetrominoSrs(TetrominoSrs::T);
const I: PieceKind = PieceKind::TetrominoSrs(TetrominoSrs::I);

#[test]
fn field_values_hold_their_fields() {
    let values = FieldValues::new(10, 40, 20, 5);
    assert_eq!(values.width, 10);
    assert_eq!(values.height, 40);
    assert_eq!(values.hidden, 20);
    assert_eq!(values.queue_len, 5);
}

#[test]
fn piece_types_name_their_kinds() {
    assert_eq!(PieceTypes::TetrominoSrs.kinds(), TetrominoSrs::iter());
    assert_eq!(PieceTypes::TetrominoAsc.kinds(), TetrominoAsc::iter());
    assert_eq!(PieceTypes::Mino123.kinds(), Mino123::iter());
    assert_eq!(PieceTypes::Mino1234.kinds(), Mino1234::iter());
    assert_eq!(PieceTypes::TetrominoSrs.kinds().len(), 7);
    assert_eq!(PieceTypes::Mino123.kinds().len(), 4);
    assert_eq!(PieceTypes::Mino1234.kinds().len(), 11);
}

#[test]
fn kick_table_settings_act_as_their_tables() {
    for &state in [RotationState::Initial, RotationState::Cw, RotationState::Flipped, RotationState::Ccw].iter() {
        for &kind in [T, I].iter() {
            assert_eq!(KickTables::Srs.rotate_cw(kind, state), SrsKickTable.rotate_cw(kind, state));
            assert_eq!(KickTables::Srs.rotate_ccw(kind, state), SrsKickTable.rotate_ccw(kind, state));
            assert_eq!(KickTables::Asc.rotate_cw(kind, state), AscKickTable.rotate_cw(kind, state));
            assert_eq!(KickTables::Basic.rotate_ccw(kind, state), BasicKickTable.rotate_ccw(kind, state));
            assert_eq!(KickTable180s::TetrIo.rotate_180(kind, state), TetrIo180KickTable.rotate_180(kind, state));
            assert_eq!(KickTable180s::Lru.rotate_180(kind, state), BasicKickTable.rotate_180(kind, state));
        }
    }
}

#[test]
fn rotating_with_a_kick_table_setting() {
    let mut field = DefaultField::new_with_kind(10, 22, 4, 5, T);
    assert!(field.try_rotate_cw(&KickTables::Srs));
    assert_eq!(field.cur_piece().rotation_state(), RotationState::Cw);
    assert!(field.try_rotate_180(&KickTable180s::TetrIo));
    assert_eq!(field.cur_piece().rotation_state(), RotationState::Ccw);
}

#[test]
fn spin_settings_on_a_plain_field() {
    let field = DefaultField::new_with_kind(10, 22, 4, 5, T);
    assert_eq!(SpinTypes::TSpins.detect(&field), (None, false));
    assert_eq!(SpinTypes::AllImmobile.detect(&field), (None, false));
    assert_eq!(SpinTypes::NoSpins.detect(&field), (None, false));
}

#[test]
fn goal_types_differ() {
    assert_ne!(GoalTypes::NoGoal, GoalTypes::LinesCleared);
    assert_ne!(GoalTypes::LinesCleared, GoalTypes::TimeLimit);
}

#[test]
fn goal_presets_set_the_goal() {
    let mut config = Config::default();
    config.set_goal(GoalTypes::LinesCleared, 40, 0);
    assert_eq!(config.goal_type, GoalTypes::LinesCleared);
    assert_eq!(config.goal_n_lines, 40);
    assert_eq!(config.goal_time_limit_secs, 0);
    config.set_goal(GoalTypes::TimeLimit, 0, 120);
    assert_eq!(config.goal_type, GoalTypes::TimeLimit);
    assert_eq!(config.goal_time_limit_secs, 120);
    assert_eq!(config.field_width, 10);
}

#[test]
fn field_height_setting_doubles_the_hidden_lines() {
    let mut config = Config::default();
    let mut values = FieldValues::new(10, 40, 20, 5);
    apply_config_msg(&mut config, &mut values, ConfigMsg::FieldHidden(10));
    assert_eq!((config.field_hidden, config.field_height), (10, 20));
    assert_eq!((values.hidden, values.height), (10, 20));
    assert_eq!((values.width, values.queue_len), (10, 5));
    assert_eq!(config.field_width, 10);
    apply_config_msg(&mut config, &mut values, ConfigMsg::FieldWidth(6));
    assert_eq!((config.field_width, values.width), (6, 6));
    apply_config_msg(&mut config, &mut values, ConfigMsg::QueueLen(3));
    assert_eq!((config.queue_len, values.queue_len), (3, 3));
}

#[test]
fn other_settings_leave_the_field_values() {
    let mut config = Config::default();
    let mut values = FieldValues::new(10, 40, 20, 5);
    apply_config_msg(&mut config, &mut values, ConfigMsg::GravityDelay(500));
    apply_config_msg(&mut config, &mut values, ConfigMsg::ToppingOutEnabled(false));
    apply_config_msg(&mut config, &mut values, ConfigMsg::PieceType(PieceTypes::Mino123));
    apply_config_msg(&mut config, &mut values, ConfigMsg::GoalNLines(60));
    apply_config_msg(&mut config, &mut values, ConfigMsg::SoftDropRate(7));
    assert_eq!(config.gravity_delay, 500);
    assert!(!config.topping_out_enabled);
    assert_eq!(config.piece_type, PieceTypes::Mino123);
    assert_eq!(config.goal_n_lines, 60);
    assert_eq!(config.soft_drop_rate, 7);
    assert_eq!((values.width, values.height, values.hidden, values.queue_len), (10, 40, 20, 5));
    assert_eq!(config.field_height, 40);
}

#[test]
fn goal_preset_table() {
    assert_eq!(goal_preset(GoalPreset::Lines20), (GoalTypes::LinesCleared, 20, 0));
    assert_eq!(goal_preset(GoalPreset::Lines40), (GoalTypes::LinesCleared, 40, 0));
    assert_eq!(goal_preset(GoalPreset::Lines100), (GoalTypes::LinesCleared, 100, 0));
    assert_eq!(goal_preset(GoalPreset::Lines1000), (GoalTypes::LinesCleared, 1000, 0));
    assert_eq!(goal_preset(GoalPreset::Minutes1), (GoalTypes::TimeLimit, 0, 60));
    assert_eq!(goal_preset(GoalPreset::Minutes2), (GoalTypes::TimeLimit, 0, 120));
    assert_eq!(goal_preset(GoalPreset::Minutes5), (GoalTypes::TimeLimit, 0, 300));
    assert_eq!(goal_preset(GoalPreset::Hour1), (GoalTypes::TimeLimit, 0, 3600));
    let mut config = Config::default();
    let (goal_type, n_lines, secs) = goal_preset(GoalPreset::Minutes2);
    config.set_goal(goal_type, n_lines, secs);
    assert_eq!((config.goal_type, config.goal_time_limit_secs), (GoalTypes::TimeLimit, 120));
}

#[test]
fn look_settings_and_their_messages() {
    let mut look = LookSettings::new();
    assert_eq!(look.skin_name, "tetrox");
    assert_eq!(look.vertical_offset, 170);
    apply_look_msg(&mut look, LookMsg::SkinName("rounded".to_string()));
    assert_eq!((look.skin_name.as_str(), look.vertical_offset), ("rounded", 170));
    apply_look_msg(&mut look, LookMsg::VerticalOffset(-20));
    assert_eq!((look.skin_name.as_str(), look.vertical_offset), ("rounded", -20));
}
