use rlgym_core::action_parsers::action_parser::ActionParser;
use rlgym_core::action_parsers::necto_parser_2::NectoAction;
use rlgym_core::errors::EnvError;
use rlgym_core::gamestates::game_state::GameState;

fn expected_table() -> Vec<Vec<i8>> {
    let mut rows = Vec::new();
    for throttle in [-1i8, 0, 1] {
        for steer in [-1i8, 0, 1] {
            for boost in [0i8, 1] {
                for handbrake in [0i8, 1] {
                    if boost == 1 && throttle != 1 {
                        continue;
                    }
                    let part = if throttle != 0 { throttle } else { boost };
                    rows.push(vec![part, steer, 0, steer, 0, 0, boost, handbrake]);
                }
            }
        }
    }
    for pitch in [-1i8, 0, 1] {
        for yaw in [-1i8, 0, 1] {
            for roll in [-1i8, 0, 1] {
                for jump in [0i8, 1] {
                    for boost in [0i8, 1] {
                        if jump == 1 && yaw != 0 {
                            continue;
                        }
                        if pitch == 0 && roll == 0 && jump == 0 {
                            continue;
                        }
                        let handbrake =
                            if jump == 1 && (pitch != 0 || yaw != 0 || roll != 0) { 1 } else { 0 };
                        rows.push(vec![boost, yaw, pitch, yaw, roll, jump, boost, handbrake]);
                    }
                }
            }
        }
    }
    rows
}

#[test]
fn action_space_has_ninety_rows() {
    let mut parser = NectoAction::new();
    assert_eq!(parser.get_action_space(), vec![90usize]);
    assert_eq!(expected_table().len(), 90);
}

#[test]
fn every_index_decodes_to_one_control_vector() {
    let mut parser = NectoAction::new();
    let state = GameState::new();
    let table = expected_table();
    for i in 0..90i64 {
        let rows = parser.parse_actions(vec![vec![i]], &state).unwrap();
        assert_eq!(rows.len(), 1);
        assert_eq!(rows[0].len(), 8);
        assert_eq!(rows[0], table[i as usize]);
    }
}

#[test]
fn table_starts_and_ends_as_constructed() {
    let mut parser = NectoAction::new();
    let state = GameState::new();
    let rows = parser.parse_actions(vec![vec![0, 1, 2, 16, 18, 19, 23, 24, 25, 89]], &state).unwrap();
    assert_eq!(rows[0], vec![-1, -1, 0, -1, 0, 0, 0, 0]);
    assert_eq!(rows[1], vec![-1, -1, 0, -1, 0, 0, 0, 1]);
    assert_eq!(rows[2], vec![-1, 0, 0, 0, 0, 0, 0, 0]);
    assert_eq!(rows[3], vec![1, 0, 0, 0, 0, 0, 0, 0]);
    assert_eq!(rows[4], vec![1, 0, 0, 0, 0, 0, 1, 0]);
    assert_eq!(rows[5], vec![1, 0, 0, 0, 0, 0, 1, 1]);
    assert_eq!(rows[6], vec![1, 1, 0, 1, 0, 0, 1, 1]);
    assert_eq!(rows[7], vec![0, -1, -1, -1, -1, 0, 0, 0]);
    assert_eq!(rows[8], vec![1, -1, -1, -1, -1, 0, 1, 0]);
    assert_eq!(rows[9], vec![1, 1, 1, 1, 1, 0, 1, 0]);
}

#[test]
fn ground_row_without_throttle_or_boost_is_still() {
    let mut parser = NectoAction::new();
    let state = GameState::new();
    // throttle 0, steer 0, boost 0, handbrake 0 is the ninth ground row
    let rows = parser.parse_actions(vec![vec![8]], &state).unwrap();
    assert_eq!(rows[0], vec![0, 0, 0, 0, 0, 0, 0, 0]);
}

#[test]
fn aerial_rows_carry_boost_in_the_first_slot() {
    let mut parser = NectoAction::new();
    let state = GameState::new();
    let all: Vec<i64> = (24..90).collect();
    let rows = parser.parse_actions(vec![all], &state).unwrap();
    assert_eq!(rows.len(), 66);
    for row in rows {
        assert_eq!(row[0], row[6]);
        assert_eq!(row[1], row[3]);
        if row[5] == 1 {
            assert_eq!(row[1], 0);
        }
    }
}

#[test]
fn jumping_sets_handbrake_only_with_a_direction() {
    let mut parser = NectoAction::new();
    let state = GameState::new();
    let all: Vec<i64> = (24..90).collect();
    let rows = parser.parse_actions(vec![all], &state).unwrap();
    for row in rows {
        let directed = row[2] != 0 || row[1] != 0 || row[4] != 0;
        let expected = if row[5] == 1 && directed { 1 } else { 0 };
        assert_eq!(row[7], expected);
    }
}

#[test]
fn batches_are_flattened_in_order() {
    let mut parser = NectoAction::new();
    let state = GameState::new();
    let table = expected_table();
    let rows = parser.parse_actions(vec![vec![5, 7], vec![], vec![89], vec![0, 0]], &state).unwrap();
    assert_eq!(rows.len(), 5);
    assert_eq!(rows[0], table[5]);
    assert_eq!(rows[1], table[7]);
    assert_eq!(rows[2], table[89]);
    assert_eq!(rows[3], table[0]);
    assert_eq!(rows[4], table[0]);
}

#[test]
fn empty_batch_decodes_to_nothing() {
    let mut parser = NectoAction::new();
    let state = GameState::new();
    assert_eq!(parser.parse_actions(vec![], &state), Ok(vec![]));
    assert_eq!(parser.parse_actions(vec![vec![], vec![]], &state), Ok(vec![]));
}

#[test]
fn index_past_the_table_is_refused() {
    let mut parser = NectoAction::new();
    let state = GameState::new();
    assert_eq!(parser.parse_actions(vec![vec![90]], &state), Err(EnvError::InvalidActionIndex));
    assert_eq!(
        parser.parse_actions(vec![vec![0, 1], vec![2, i64::MAX]], &state),
        Err(EnvError::InvalidActionIndex)
    );
}

#[test]
fn negative_index_is_refused() {
    let mut parser = NectoAction::new();
    let state = GameState::new();
    assert_eq!(parser.parse_actions(vec![vec![-1]], &state), Err(EnvError::InvalidActionIndex));
    assert_eq!(
        parser.parse_actions(vec![vec![3], vec![i64::MIN]], &state),
        Err(EnvError::InvalidActionIndex)
    );
}

#[test]
fn table_is_the_same_in_every_decoder() {
    let mut first = NectoAction::new();
    let mut second = NectoAction::new();
    let state = GameState::new();
    let all: Vec<i64> = (0..90).collect();
    let a = first.parse_actions(vec![all.clone()], &state).unwrap();
    let b = second.parse_actions(vec![all], &state).unwrap();
    assert_eq!(a, b);
    assert_eq!(a, expected_table());
    assert_eq!(first.get_action_space(), second.get_action_space());
}

#[test]
fn decoding_leaves_the_table_alone() {
    let mut parser = NectoAction::new();
    let state = GameState::new();
    let before = parser.parse_actions(vec![vec![42]], &state).unwrap();
    let _ = parser.parse_actions(vec![vec![200]], &state);
    let after = parser.parse_actions(vec![vec![42]], &state).unwrap();
    assert_eq!(before, after);
}
