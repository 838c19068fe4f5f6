use flappy_sim::config::{Config, SimError, NUM_PIPES, PIPE_START};
use flappy_sim::pipes::{move_pipes, spawn_new_pipes, spawn_pipes, spawn_pipes_at, ObstaclePair};

#[test]
fn classic_burst_is_evenly_spread() {
    let pipes = spawn_pipes(NUM_PIPES, PIPE_START, 370_000_000, 0).unwrap();
    assert_eq!(
        pipes,
        vec![
            ObstaclePair { id: 0, center_x: -106_666_666 },
            ObstaclePair { id: 1, center_x: 131_666_667 },
            ObstaclePair { id: 2, center_x: 370_000_000 },
        ]
    );
}

#[test]
fn burst_rounds_down() {
    let pipes = spawn_pipes(4, 0, 10, 7).unwrap();
    assert_eq!(
        pipes,
        vec![
            ObstaclePair { id: 7, center_x: 0 },
            ObstaclePair { id: 8, center_x: 3 },
            ObstaclePair { id: 9, center_x: 6 },
            ObstaclePair { id: 10, center_x: 10 },
        ]
    );
}

#[test]
fn burst_spans_the_whole_range() {
    let pipes = spawn_pipes(2, i64::MIN, i64::MAX, u64::MAX - 2).unwrap();
    assert_eq!(
        pipes,
        vec![
            ObstaclePair { id: u64::MAX - 2, center_x: i64::MIN },
            ObstaclePair { id: u64::MAX - 1, center_x: i64::MAX },
        ]
    );
}

#[test]
fn empty_burst_is_empty() {
    assert_eq!(spawn_pipes(0, 0, 10, 0), Ok(vec![]));
}

#[test]
fn burst_of_one_is_refused() {
    assert_eq!(spawn_pipes(1, 0, 10, 0), Err(SimError::InvalidArgument));
}

#[test]
fn burst_with_ends_out_of_order_is_refused() {
    assert_eq!(spawn_pipes(3, 10, 0, 0), Err(SimError::InvalidArgument));
}

#[test]
fn burst_without_handles_left_is_refused() {
    assert_eq!(spawn_pipes(3, 0, 10, u64::MAX - 2), Err(SimError::Overflow));
    assert_eq!(spawn_pipes(1, 0, 10, u64::MAX), Err(SimError::InvalidArgument));
}

#[test]
fn pipes_move_left_by_speed_times_dt() {
    let cfg = Config::classic();
    let mut pipes = vec![
        ObstaclePair { id: 3, center_x: 0 },
        ObstaclePair { id: 4, center_x: 370_000_000 },
    ];
    assert_eq!(move_pipes(&cfg, &mut pipes, 16), Ok(()));
    assert_eq!(
        pipes,
        vec![
            ObstaclePair { id: 3, center_x: -1_600_000 },
            ObstaclePair { id: 4, center_x: 368_400_000 },
        ]
    );
}

#[test]
fn pipe_is_retired_once_its_right_edge_has_left() {
    let cfg = Config::classic();
    // After the move the right edge is exactly on the left boundary: kept.
    let mut pipes = vec![ObstaclePair { id: 0, center_x: -369_900_000 }];
    assert_eq!(move_pipes(&cfg, &mut pipes, 1), Ok(()));
    assert_eq!(pipes, vec![ObstaclePair { id: 0, center_x: -370_000_000 }]);
    // One unit further and it is gone.
    let mut pipes = vec![
        ObstaclePair { id: 0, center_x: -369_900_001 },
        ObstaclePair { id: 1, center_x: 0 },
    ];
    assert_eq!(move_pipes(&cfg, &mut pipes, 1), Ok(()));
    assert_eq!(pipes, vec![ObstaclePair { id: 1, center_x: -100_000 }]);
}

#[test]
fn huge_dt_retires_everything() {
    let cfg = Config::classic();
    let mut pipes = vec![
        ObstaclePair { id: 0, center_x: i64::MIN },
        ObstaclePair { id: 1, center_x: i64::MAX },
    ];
    assert_eq!(move_pipes(&cfg, &mut pipes, i64::MAX), Ok(()));
    assert_eq!(pipes, vec![]);
}

#[test]
fn move_pipes_rejects_negative_dt() {
    let cfg = Config::classic();
    let mut pipes = vec![ObstaclePair { id: 0, center_x: 5 }];
    assert_eq!(move_pipes(&cfg, &mut pipes, -1), Err(SimError::InvalidArgument));
    assert_eq!(pipes, vec![ObstaclePair { id: 0, center_x: 5 }]);
}

#[test]
fn zero_dt_moves_nothing() {
    let cfg = Config::classic();
    let mut pipes = vec![ObstaclePair { id: 0, center_x: 5 }];
    assert_eq!(move_pipes(&cfg, &mut pipes, 0), Ok(()));
    assert_eq!(pipes, vec![ObstaclePair { id: 0, center_x: 5 }]);
}

#[test]
fn spawn_pipes_at_appends_a_pair() {
    let mut pipes = vec![ObstaclePair { id: 0, center_x: 5 }];
    spawn_pipes_at(&mut pipes, 9, 4);
    assert_eq!(
        pipes,
        vec![ObstaclePair { id: 0, center_x: 5 }, ObstaclePair { id: 4, center_x: 9 }]
    );
}

#[test]
fn new_pipes_appear_at_the_right_edge() {
    let cfg = Config::classic();
    let mut pipes = Vec::new();
    spawn_new_pipes(&cfg, &mut pipes, 11);
    assert_eq!(pipes, vec![ObstaclePair { id: 11, center_x: 370_000_000 }]);
}

#[test]
fn pair_splits_into_top_and_bottom() {
    let pair = ObstaclePair { id: 1, center_x: 42 };
    assert_eq!(pair.top().center_x, 42);
    assert_eq!(pair.bottom().center_x, 42);
}
