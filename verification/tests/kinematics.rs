use flappy_sim::config::{SimError, DEFAULT_GRAVITY};
use flappy_sim::kinematics::{gravity, handle_input, mul_add, Gravity, Velocity};

#[test]
fn gravity_uses_the_old_velocity_for_the_position() {
    let r = gravity(0, Velocity(90_000), Gravity(-90), 100);
    assert_eq!(r, Ok((9_000_000, Velocity(81_000))));
}

#[test]
fn gravity_with_zero_dt_changes_nothing() {
    assert_eq!(gravity(17, Velocity(-5), Gravity(-90), 0), Ok((17, Velocity(-5))));
}

#[test]
fn gravity_from_rest_only_changes_velocity() {
    assert_eq!(gravity(1_000, Velocity(0), Gravity(-90), 16), Ok((1_000, Velocity(-1_440))));
}

#[test]
fn gravity_rejects_negative_dt() {
    assert_eq!(gravity(0, Velocity(0), Gravity(-90), -1), Err(SimError::InvalidArgument));
}

#[test]
fn gravity_reports_overflow_of_position() {
    assert_eq!(gravity(i64::MAX, Velocity(1), Gravity(-90), 1), Err(SimError::Overflow));
}

#[test]
fn gravity_reports_overflow_of_velocity() {
    assert_eq!(gravity(0, Velocity(i64::MIN), Gravity(-1), 1), Err(SimError::Overflow));
}

#[test]
fn gravity_reaches_the_edge_of_the_range() {
    assert_eq!(
        gravity(i64::MAX - 10, Velocity(5), Gravity(-1), 2),
        Ok((i64::MAX, Velocity(3)))
    );
}

#[test]
fn mul_add_is_exact() {
    assert_eq!(mul_add(7, -3, 5), Some(-8));
    assert_eq!(mul_add(i64::MIN, i64::MAX, 0), Some(i64::MIN));
    assert_eq!(mul_add(i64::MAX, 1, 1), None);
    assert_eq!(mul_add(0, i64::MAX, 2), None);
    assert_eq!(mul_add(i64::MAX, i64::MIN, 1), Some(-1));
}

#[test]
fn handle_input_adds_the_boost_on_a_press() {
    assert_eq!(handle_input(Velocity(-10), 45_000, true), Ok(Velocity(44_990)));
}

#[test]
fn handle_input_without_a_press_keeps_the_velocity() {
    assert_eq!(handle_input(Velocity(-10), 45_000, false), Ok(Velocity(-10)));
    assert_eq!(handle_input(Velocity(i64::MAX), 45_000, false), Ok(Velocity(i64::MAX)));
}

#[test]
fn handle_input_reports_overflow() {
    assert_eq!(handle_input(Velocity(i64::MAX), 1, true), Err(SimError::Overflow));
}

#[test]
fn default_gravity_is_the_classic_one() {
    assert_eq!(Gravity::default(), Gravity(DEFAULT_GRAVITY));
    assert_eq!(Gravity::default(), Gravity(-90));
    assert_eq!(Velocity::default(), Velocity(0));
}
