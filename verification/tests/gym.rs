use rlgym_core::action_parsers::necto_parser_2::NectoAction;
use rlgym_core::common_values::{BLUE_TEAM, ORANGE_TEAM};
use rlgym_core::errors::EnvError;
use rlgym_core::features::Feature;
use rlgym_core::gamestates::game_state::GameState;
use rlgym_core::gamestates::physics_object::{PhysicsObject, Vector3};
use rlgym_core::gamestates::player_data::PlayerData;
use rlgym_core::gym::{Gym, Phase, StepResult};
use rlgym_core::obs_builders::aspo4_array::AdvancedObsPadderStacker;

type Env = Gym<AdvancedObsPadderStacker, NectoAction>;

fn gym(raise_on_crash: Option<bool>) -> Env {
    Gym::new(
        AdvancedObsPadderStacker::new(Some(3), Some(5)),
        NectoAction::new(),
        None,
        None,
        None,
        None,
        raise_on_crash,
        None,
    )
}

fn running(raise_on_crash: Option<bool>) -> Env {
    let mut env = gym(raise_on_crash);
    env.connect(Ok(())).unwrap();
    env.reset(Ok(snapshot(1.0))).unwrap();
    env
}

fn player(car_id: i32, team_num: i32) -> PlayerData {
    PlayerData {
        car_id,
        team_num,
        car_data: PhysicsObject::new(),
        inverted_car_data: PhysicsObject::new(),
        boost_amount: 0,
        on_ground: true,
        has_flip: true,
        is_demoed: false,
    }
}

fn snapshot(height: f64) -> GameState {
    let mut state = GameState::new();
    state.ball.position = Vector3::new(0, 0, height.to_bits());
    state.inverted_ball.position = Vector3::new(0, 0, height.to_bits());
    state.players.push(player(0, BLUE_TEAM));
    state.players.push(player(1, ORANGE_TEAM));
    state
}

#[test]
fn new_fills_in_what_is_not_given() {
    let env = gym(None);
    assert_eq!(env._phase, Phase::Unconnected);
    assert_eq!(env._local_pipe_id, 0);
    assert_eq!(env._local_pipe_name, b"rlgym_pipe_0".to_vec());
    assert_eq!(env._launch_preference, "epic");
    assert!(env._use_injector);
    assert!(!env._force_paging);
    assert!(!env._raise_on_crash);
    assert!(!env._auto_minimize);
    assert!(!env._minimized);
    assert_eq!(env.observation_space, vec![276]);
    assert_eq!(env.action_space, vec![90]);
    assert!(env._prev_actions.is_empty());
    assert_eq!(env._prev_state, GameState::new());
}

#[test]
fn new_keeps_what_is_given() {
    let env = Gym::new(
        AdvancedObsPadderStacker::new(None, None),
        NectoAction::new(),
        Some(7),
        Some("steam".to_string()),
        Some(false),
        Some(true),
        Some(true),
        Some(true),
    );
    assert_eq!(env._local_pipe_id, 7);
    assert_eq!(env._local_pipe_name, b"rlgym_pipe_7".to_vec());
    assert_eq!(env._launch_preference, "steam");
    assert!(!env._use_injector);
    assert!(env._force_paging);
    assert!(env._raise_on_crash);
    assert!(env._auto_minimize);
    assert_eq!(env.observation_space, vec![366]);
}

#[test]
fn handshake_connects() {
    let mut env = gym(None);
    assert_eq!(env.connect(Ok(())), Ok(()));
    assert_eq!(env._phase, Phase::Connected);
}

#[test]
fn failed_handshake_ends_the_environment() {
    let mut env = gym(None);
    assert_eq!(env.connect(Err(EnvError::HandshakeFailed)), Err(EnvError::HandshakeFailed));
    assert_eq!(env._phase, Phase::Terminal);
    let mut env = gym(Some(false));
    assert_eq!(env.connect(Err(EnvError::ChannelUnavailable)), Err(EnvError::ChannelUnavailable));
    assert_eq!(env._phase, Phase::Terminal);
}

#[test]
fn reset_starts_an_episode() {
    let mut env = gym(None);
    env.connect(Ok(())).unwrap();
    let first = snapshot(92.0);
    let result = env.reset(Ok(first.clone())).unwrap();
    assert_eq!(env._phase, Phase::Running);
    assert!(!result.done);
    assert_eq!(result.failure, None);
    assert_eq!(result.observations.len(), 2);
    for obs in &result.observations {
        assert_eq!(obs.len(), 276);
        assert_eq!(&obs[9..17], &vec![Feature::Int(0); 8][..]);
        assert_eq!(&obs[51..96], &vec![Feature::Int(0); 45][..]);
    }
    assert_eq!(env._prev_state, first);
}

#[test]
fn reset_forgets_the_episode_before() {
    let mut env = running(None);
    env.parse_actions(vec![vec![3, 4]]).unwrap();
    env.step(Ok(snapshot(2.0))).unwrap();
    let result = env.reset(Ok(snapshot(3.0))).unwrap();
    assert!(env._prev_actions.is_empty());
    for obs in &result.observations {
        assert_eq!(&obs[9..17], &vec![Feature::Int(0); 8][..]);
        assert_eq!(&obs[51..96], &vec![Feature::Int(0); 45][..]);
    }
}

#[test]
fn step_observes_every_player_with_its_action() {
    let mut env = running(None);
    assert_eq!(env.parse_actions(vec![vec![23], vec![24]]), Ok(()));
    assert_eq!(
        env._prev_actions,
        vec![vec![1, 1, 0, 1, 0, 0, 1, 1], vec![0, -1, -1, -1, -1, 0, 0, 0]]
    );
    let next = snapshot(2.0);
    let result = env.step(Ok(next.clone())).unwrap();
    assert!(!result.done);
    assert_eq!(result.failure, None);
    assert_eq!(result.observations.len(), 2);
    let as_cells = |row: &[i8]| row.iter().map(|c| Feature::Int(*c)).collect::<Vec<_>>();
    assert_eq!(&result.observations[0][9..17], &as_cells(&[1, 1, 0, 1, 0, 0, 1, 1])[..]);
    assert_eq!(&result.observations[1][9..17], &as_cells(&[0, -1, -1, -1, -1, 0, 0, 0])[..]);
    assert_eq!(env._prev_state, next);
    assert_eq!(env._phase, Phase::Running);
}

#[test]
fn step_shows_the_ball_of_the_tick_before_in_the_history() {
    let mut env = running(None);
    env.parse_actions(vec![vec![0, 0]]).unwrap();
    let result = env.step(Ok(snapshot(2.0))).unwrap();
    // the reset showed the ball at height 1: its position is the last
    // triple of the newest entry, highest axis first
    let obs = &result.observations[0];
    match obs[51 + 6] {
        Feature::Scaled(bits, _) => assert_eq!(f64::from_bits(bits), 1.0),
        _ => panic!("the newest entry does not hold the ball of the reset"),
    }
    assert_eq!(&obs[60..96], &vec![Feature::Int(0); 36][..]);
}

#[test]
fn player_without_an_action_gets_zeros() {
    let mut env = running(None);
    env.parse_actions(vec![vec![23]]).unwrap();
    let result = env.step(Ok(snapshot(2.0))).unwrap();
    assert_eq!(&result.observations[1][9..17], &vec![Feature::Int(0); 8][..]);
    assert_eq!(result.observations[1].len(), 276);
}

#[test]
fn closed_channel_ends_the_step_quietly_when_not_raising() {
    let mut env = running(Some(false));
    env.parse_actions(vec![vec![0, 0]]).unwrap();
    let result = env.step(Err(EnvError::ChannelClosed));
    assert_eq!(
        result,
        Ok(StepResult { observations: vec![], done: true, failure: Some(EnvError::ChannelClosed) })
    );
    assert_eq!(env._phase, Phase::Terminal);
}

#[test]
fn closed_channel_is_raised_when_raising() {
    let mut env = running(Some(true));
    env.parse_actions(vec![vec![0, 0]]).unwrap();
    assert_eq!(env.step(Err(EnvError::ChannelClosed)), Err(EnvError::ChannelClosed));
    assert_eq!(env._phase, Phase::Terminal);
}

#[test]
fn timeout_ends_the_environment_too() {
    let mut env = running(None);
    let result = env.step(Err(EnvError::ChannelTimeout)).unwrap();
    assert!(result.done);
    assert_eq!(result.failure, Some(EnvError::ChannelTimeout));
    assert_eq!(env._phase, Phase::Terminal);
}

#[test]
fn failed_reset_ends_the_environment() {
    let mut env = gym(Some(true));
    env.connect(Ok(())).unwrap();
    assert_eq!(env.reset(Err(EnvError::ChannelClosed)), Err(EnvError::ChannelClosed));
    assert_eq!(env._phase, Phase::Terminal);
    let mut env = gym(None);
    env.connect(Ok(())).unwrap();
    let result = env.reset(Err(EnvError::ChannelTimeout)).unwrap();
    assert!(result.done);
    assert!(result.observations.is_empty());
    assert_eq!(env._phase, Phase::Terminal);
}

#[test]
fn invalid_action_changes_nothing() {
    let mut env = running(None);
    env.parse_actions(vec![vec![5, 6]]).unwrap();
    let before = env._prev_actions.clone();
    assert_eq!(env.parse_actions(vec![vec![1], vec![90]]), Err(EnvError::InvalidActionIndex));
    assert_eq!(env.parse_actions(vec![vec![-3]]), Err(EnvError::InvalidActionIndex));
    assert_eq!(env._prev_actions, before);
    assert_eq!(env._phase, Phase::Running);
}

#[test]
fn snapshot_with_an_unknown_car_fails_at_that_car() {
    let mut env = running(None);
    let mut odd = snapshot(2.0);
    odd.players.push(player(8, BLUE_TEAM));
    let kept = env._prev_state.clone();
    assert_eq!(env.step(Ok(odd)), Err(EnvError::UnknownAgent));
    assert_eq!(env._phase, Phase::Running);
    assert_eq!(env._prev_state, kept);
    // the two players before the unknown one were observed: their
    // histories hold the ball of the reset and, in front, that of the
    // failed step
    let result = env.step(Ok(snapshot(3.0))).unwrap();
    for obs in &result.observations {
        match (obs[51 + 6], obs[60 + 6]) {
            (Feature::Scaled(newest, _), Feature::Scaled(older, _)) => {
                assert_eq!(f64::from_bits(newest), 2.0);
                assert_eq!(f64::from_bits(older), 1.0);
            }
            _ => panic!("the history does not hold the two balls"),
        }
    }
}

#[test]
fn unknown_car_first_leaves_the_encoder_alone() {
    let mut env = running(None);
    let mut odd = GameState::new();
    odd.players.push(player(-1, BLUE_TEAM));
    odd.players.push(player(0, BLUE_TEAM));
    assert_eq!(env.step(Ok(odd)), Err(EnvError::UnknownAgent));
    let result = env.step(Ok(snapshot(3.0))).unwrap();
    match result.observations[0][51 + 6] {
        Feature::Scaled(bits, _) => assert_eq!(f64::from_bits(bits), 1.0),
        _ => panic!("the newest entry does not hold the ball of the reset"),
    }
    assert_eq!(&result.observations[0][60..96], &vec![Feature::Int(0); 36][..]);
}

#[test]
fn failed_reset_on_an_unknown_car_keeps_the_phase() {
    let mut env = gym(None);
    env.connect(Ok(())).unwrap();
    let mut odd = snapshot(2.0);
    odd.players.push(player(9, ORANGE_TEAM));
    assert_eq!(env.reset(Ok(odd)), Err(EnvError::UnknownAgent));
    assert_eq!(env._phase, Phase::Connected);
    assert_eq!(env._prev_state, GameState::new());
    assert!(env._prev_actions.is_empty());
}

#[test]
fn close_is_idempotent() {
    let mut env = running(None);
    assert!(env.close());
    assert_eq!(env._phase, Phase::Terminal);
    assert!(!env.close());
    assert_eq!(env._phase, Phase::Terminal);
    let mut fresh = gym(None);
    assert!(!fresh.close());
    assert_eq!(fresh._phase, Phase::Terminal);
    let mut connected = gym(None);
    connected.connect(Ok(())).unwrap();
    assert!(connected.close());
    assert!(!connected.close());
}

#[test]
fn channel_errors_are_told_apart_from_contract_errors() {
    assert!(EnvError::ChannelUnavailable.is_channel());
    assert!(EnvError::ChannelTimeout.is_channel());
    assert!(EnvError::ChannelClosed.is_channel());
    assert!(!EnvError::UnknownAgent.is_channel());
    assert!(!EnvError::InvalidActionIndex.is_channel());
    assert!(!EnvError::HandshakeFailed.is_channel());
}
