use flappy_sim::config::{
    Config, SimError, DEFAULT_GRAVITY, LIMIT, MAX_HEIGHT, MAX_WIDTH, NUM_PIPES, PIPE_GAP,
    PIPE_HALF_WIDTH, PIPE_SPAWN_PERIOD, PIPE_SPEED, PIPE_START, PLAYER_HALF_HEIGHT, PLAYER_HALF_WIDTH, PLAYER_X_POS,
    VELOCITY_BOOST,
};

#[test]
fn classic_config_holds_the_classic_constants() {
    let c = Config::classic();
    assert_eq!(c.world_width, MAX_WIDTH);
    assert_eq!(c.world_height, MAX_HEIGHT);
    assert_eq!(c.gravity, DEFAULT_GRAVITY);
    assert_eq!(c.jump_boost, VELOCITY_BOOST);
    assert_eq!(c.pipe_gap, PIPE_GAP);
    assert_eq!(c.pipe_speed, PIPE_SPEED);
    assert_eq!(c.pipe_half_width, PIPE_HALF_WIDTH);
    assert_eq!(c.spawn_count, NUM_PIPES);
    assert_eq!(c.player_half_height, PLAYER_HALF_HEIGHT);
    assert_eq!(c.player_half_width, PLAYER_HALF_WIDTH);
    assert_eq!(c.player_x, PLAYER_X_POS);
    assert_eq!(c.pipe_start, PIPE_START);
    assert!(c.is_valid());
}

#[test]
fn classic_constants_follow_from_the_world() {
    assert_eq!(DEFAULT_GRAVITY * 1_000_000, -MAX_HEIGHT / 4);
    assert_eq!(VELOCITY_BOOST * 1_000, MAX_HEIGHT / 8);
    assert_eq!(PLAYER_X_POS, -MAX_WIDTH / 4);
    assert_eq!(PIPE_START, -MAX_WIDTH / 6);
}

#[test]
fn classic_spawn_edge_and_period() {
    let c = Config::classic();
    assert_eq!(c.spawn_edge(), 370_000_000);
    assert_eq!(c.spawn_period(), Ok(2_133));
}

#[test]
fn period_needs_a_burst() {
    let c = Config { spawn_count: 0, ..Config::classic() };
    assert!(c.is_valid());
    assert_eq!(c.spawn_period(), Err(SimError::InvalidArgument));
}

#[test]
fn period_rounds_down_to_zero_for_fast_pipes() {
    let c = Config { pipe_speed: LIMIT, spawn_count: 2, ..Config::classic() };
    assert!(c.is_valid());
    assert_eq!(c.spawn_period(), Ok(0));
}

#[test]
fn invalid_configs_are_recognised() {
    let c = Config::classic();
    assert!(!Config { world_width: 0, ..c }.is_valid());
    assert!(!Config { world_width: LIMIT + 1, ..c }.is_valid());
    assert!(!Config { world_height: 0, ..c }.is_valid());
    assert!(!Config { gravity: 0, ..c }.is_valid());
    assert!(!Config { gravity: 90, ..c }.is_valid());
    assert!(!Config { gravity: -LIMIT - 1, ..c }.is_valid());
    assert!(!Config { jump_boost: 0, ..c }.is_valid());
    assert!(!Config { pipe_gap: -1, ..c }.is_valid());
    assert!(!Config { pipe_gap: MAX_HEIGHT + 1, ..c }.is_valid());
    assert!(!Config { pipe_speed: 0, ..c }.is_valid());
    assert!(!Config { pipe_half_width: 0, ..c }.is_valid());
    assert!(!Config { spawn_count: 1, ..c }.is_valid());
    assert!(!Config { player_half_height: 0, ..c }.is_valid());
    assert!(!Config { player_half_height: MAX_HEIGHT / 2 + 1, ..c }.is_valid());
    assert!(!Config { player_half_width: 0, ..c }.is_valid());
    assert!(!Config { player_x: LIMIT + 1, ..c }.is_valid());
    assert!(!Config { pipe_start: 370_000_001, ..c }.is_valid());
    assert!(!Config { pipe_start: -LIMIT - 1, ..c }.is_valid());
}

#[test]
fn edge_configs_are_valid() {
    let c = Config::classic();
    assert!(Config { world_width: LIMIT, ..c }.is_valid());
    assert!(Config { gravity: -LIMIT, ..c }.is_valid());
    assert!(Config { pipe_gap: 0, ..c }.is_valid());
    assert!(Config { pipe_gap: MAX_HEIGHT, ..c }.is_valid());
    assert!(Config { player_half_height: MAX_HEIGHT / 2, ..c }.is_valid());
    assert!(Config { pipe_start: 370_000_000, ..c }.is_valid());
    assert!(Config { spawn_count: 2, ..c }.is_valid());
}

#[test]
fn classic_period_constant_matches_the_config() {
    assert_eq!(Config::classic().spawn_period(), Ok(PIPE_SPAWN_PERIOD));
    assert_eq!(PIPE_SPAWN_PERIOD, MAX_WIDTH / (PIPE_SPEED * NUM_PIPES as i64));
}
