use poet::{
    ActuationError, Actuator, ConfigError, Decision, InitError, Observer, POETControlState,
    POETCpuState, StateTable, FIXED_ONE, POET,
};

/// An actuator that succeeds and keeps what it was asked, as (from, to).
struct Recorder {
    asked: Vec<(u32, u32)>,
}

impl Recorder {
    fn new() -> Recorder {
        Recorder { asked: Vec::new() }
    }
}

impl Actuator for Recorder {
    fn apply(&mut self, table: &StateTable, id: u32, last_id: u32) -> Result<(), ActuationError> {
        assert!((id as usize) < table.len());
        assert!((last_id as usize) < table.len());
        assert_ne!(id, last_id);
        self.asked.push((last_id, id));
        Ok(())
    }
}

/// An actuator that fails while `broken` is set.
struct Flaky {
    broken: bool,
    asked: Vec<(u32, u32)>,
}

impl Actuator for Flaky {
    fn apply(&mut self, _table: &StateTable, id: u32, last_id: u32) -> Result<(), ActuationError> {
        self.asked.push((last_id, id));
        if self.broken {
            Err(ActuationError { code: 13 })
        } else {
            Ok(())
        }
    }
}

/// An observer that answers what it was made with.
struct Found(Result<u32, ActuationError>);

impl Observer for Found {
    fn current_state(&mut self, _table: &StateTable) -> Result<u32, ActuationError> {
        self.0
    }
}

/// An observer that names the number of states, which is no state.
struct PastTheEnd {
    calls: u32,
}

impl Observer for PastTheEnd {
    fn current_state(&mut self, table: &StateTable) -> Result<u32, ActuationError> {
        self.calls += 1;
        Ok(table.len() as u32)
    }
}

fn fixed(x: f64) -> u64 {
    (x * FIXED_ONE as f64).round() as u64
}

fn two_controls() -> Vec<POETControlState> {
    vec![
        POETControlState { id: 0, speedup: fixed(1.0), cost: fixed(1.0) },
        POETControlState { id: 1, speedup: fixed(2.0), cost: fixed(1.8) },
    ]
}

fn cpus(n: u32) -> Vec<POETCpuState> {
    (0..n).map(|i| POETCpuState { id: i, freq: 800 * (i + 1), cores: i + 1 }).collect()
}

#[test]
fn test_basic() {
    let control_states = vec![POETControlState::default()];
    let cpu_states = vec![POETCpuState::default()];
    let mut poet = POET::new(
        100 * FIXED_ONE,
        &control_states,
        &cpu_states,
        Recorder::new(),
        &mut Found(Err(ActuationError { code: -1 })),
        20u32,
        1u32,
    )
    .unwrap();
    assert_eq!(poet.apply_control(0, FIXED_ONE, FIXED_ONE), Ok(None));
    assert_eq!(poet.state().invocation_count(), 1);
    assert_eq!(poet.state().current_state_id(), 0);
}

#[test]
fn test_rust_callbacks() {
    let control_states = vec![POETControlState::default()];
    let cpu_states = vec![POETCpuState::default()];
    let mut observer = PastTheEnd { calls: 0 };
    let mut poet = POET::new(
        100 * FIXED_ONE,
        &control_states,
        &cpu_states,
        Recorder::new(),
        &mut observer,
        20u32,
        1u32,
    )
    .unwrap();
    // the observer was asked once, and what it named is no state
    assert_eq!(observer.calls, 1);
    assert_eq!(poet.state().current_state_id(), 0);
    for i in 0..50 {
        let reply = poet.apply_control(i, FIXED_ONE, FIXED_ONE).unwrap();
        if (i + 1) % 20 == 0 {
            assert_eq!(
                reply,
                Some(Decision {
                    tag: i,
                    previous_id: 0,
                    new_id: 0,
                    observed_rate: FIXED_ONE,
                    observed_power: FIXED_ONE,
                })
            );
        } else {
            assert_eq!(reply, None);
        }
    }
    assert_eq!(poet.state().invocation_count(), 50);
    // with one state there is never anything to change
    assert!(poet.actuator().asked.is_empty());
}

#[test]
fn a_slow_application_is_moved_to_the_fastest_state() {
    let mut poet = POET::new(
        fixed(100.0),
        &two_controls(),
        &cpus(2),
        Recorder::new(),
        &mut Found(Ok(0)),
        2,
        2,
    )
    .unwrap();
    assert_eq!(poet.apply_control(0, fixed(40.0), fixed(10.0)), Ok(None));
    assert!(poet.actuator().asked.is_empty());
    let second = poet.apply_control(1, fixed(40.0), fixed(10.0));
    assert_eq!(
        second,
        Ok(Some(Decision {
            tag: 1,
            previous_id: 0,
            new_id: 1,
            observed_rate: fixed(40.0),
            observed_power: fixed(10.0),
        }))
    );
    assert_eq!(poet.actuator().asked, vec![(0, 1)]);
    assert_eq!(poet.state().current_state_id(), 1);
    assert_eq!(poet.apply_control(2, fixed(40.0), fixed(10.0)), Ok(None));
    // still too slow: the fastest state is kept, and nothing is asked
    let fourth = poet.apply_control(3, fixed(40.0), fixed(10.0));
    assert_eq!(
        fourth,
        Ok(Some(Decision {
            tag: 3,
            previous_id: 1,
            new_id: 1,
            observed_rate: fixed(40.0),
            observed_power: fixed(10.0),
        }))
    );
    assert_eq!(poet.actuator().asked, vec![(0, 1)]);
    assert_eq!(poet.state().current_state_id(), 1);
}

#[test]
fn a_fast_application_is_moved_to_the_cheaper_state() {
    let mut poet = POET::new(
        fixed(100.0),
        &two_controls(),
        &cpus(2),
        Recorder::new(),
        &mut Found(Ok(1)),
        2,
        2,
    )
    .unwrap();
    assert_eq!(poet.state().current_state_id(), 1);
    assert_eq!(poet.apply_control(0, fixed(200.0), fixed(30.0)), Ok(None));
    let second = poet.apply_control(1, fixed(200.0), fixed(30.0));
    assert_eq!(
        second,
        Ok(Some(Decision {
            tag: 1,
            previous_id: 1,
            new_id: 0,
            observed_rate: fixed(200.0),
            observed_power: fixed(30.0),
        }))
    );
    assert_eq!(poet.actuator().asked, vec![(1, 0)]);
    assert_eq!(poet.state().current_state_id(), 0);
}

#[test]
fn tables_of_two_and_three_states_give_no_controller() {
    let r = POET::new(
        fixed(100.0),
        &two_controls(),
        &cpus(3),
        Recorder::new(),
        &mut Found(Ok(0)),
        2,
        2,
    );
    assert_eq!(r.err(), Some(InitError::Config(ConfigError::MismatchedLength)));
}

#[test]
fn the_observer_is_not_asked_about_refused_tables() {
    let mut observer = PastTheEnd { calls: 0 };
    let r = POET::new(fixed(100.0), &two_controls(), &cpus(3), Recorder::new(), &mut observer, 2, 2);
    assert!(r.is_err());
    let r = POET::new(fixed(100.0), &two_controls(), &cpus(2), Recorder::new(), &mut observer, 0, 2);
    assert!(r.is_err());
    assert_eq!(observer.calls, 0);
}

#[test]
fn empty_tables_give_no_controller() {
    let r = POET::new(
        fixed(100.0),
        &Vec::new(),
        &Vec::new(),
        Recorder::new(),
        &mut Found(Ok(0)),
        2,
        2,
    );
    assert_eq!(r.err(), Some(InitError::Config(ConfigError::Empty)));
}

#[test]
fn tables_with_wrong_identifiers_give_no_controller() {
    let mut controls = two_controls();
    controls[1].id = 7;
    let r = POET::new(fixed(100.0), &controls, &cpus(2), Recorder::new(), &mut Found(Ok(0)), 2, 2);
    assert_eq!(r.err(), Some(InitError::Config(ConfigError::MismatchedId)));
}

#[test]
fn a_zero_period_or_depth_gives_no_controller() {
    let r = POET::new(fixed(100.0), &two_controls(), &cpus(2), Recorder::new(), &mut Found(Ok(0)), 0, 2);
    assert_eq!(r.err(), Some(InitError::InvalidParameter));
    let r = POET::new(fixed(100.0), &two_controls(), &cpus(2), Recorder::new(), &mut Found(Ok(0)), 2, 0);
    assert_eq!(r.err(), Some(InitError::InvalidParameter));
    let r = POET::with_seed(fixed(100.0), &two_controls(), &cpus(2), Recorder::new(), Ok(0), 0, 0);
    assert_eq!(r.err(), Some(InitError::InvalidParameter));
}

#[test]
fn the_tables_are_looked_at_before_the_parameters() {
    let r = POET::new(fixed(100.0), &two_controls(), &cpus(3), Recorder::new(), &mut Found(Ok(0)), 0, 0);
    assert_eq!(r.err(), Some(InitError::Config(ConfigError::MismatchedLength)));
    let r = POET::with_seed(fixed(100.0), &Vec::new(), &Vec::new(), Recorder::new(), Ok(0), 0, 0);
    assert_eq!(r.err(), Some(InitError::Config(ConfigError::Empty)));
}

#[test]
fn the_errors_can_be_told_apart() {
    assert_ne!(InitError::LogUnavailable, InitError::InvalidParameter);
    assert_ne!(InitError::LogUnavailable, InitError::Config(ConfigError::Empty));
    assert_ne!(InitError::Config(ConfigError::MismatchedId), InitError::Config(ConfigError::Empty));
}

#[test]
fn a_silent_observer_starts_the_controller_in_state_zero() {
    let poet = POET::new(
        fixed(100.0),
        &two_controls(),
        &cpus(2),
        Recorder::new(),
        &mut Found(Err(ActuationError { code: 2 })),
        2,
        2,
    )
    .unwrap();
    assert_eq!(poet.state().current_state_id(), 0);
    let poet = POET::with_seed(fixed(100.0), &two_controls(), &cpus(2), Recorder::new(), Ok(9), 2, 2)
        .unwrap();
    assert_eq!(poet.state().current_state_id(), 0);
    let poet = POET::with_seed(fixed(100.0), &two_controls(), &cpus(2), Recorder::new(), Ok(1), 2, 2)
        .unwrap();
    assert_eq!(poet.state().current_state_id(), 1);
}

#[test]
fn the_actuator_is_asked_only_when_a_period_closes_on_a_full_window() {
    let period = 3u64;
    let depth = 2u32;
    let n = 20u64;
    let mut poet = POET::new(
        fixed(100.0),
        &two_controls(),
        &cpus(2),
        Recorder::new(),
        &mut Found(Ok(0)),
        period as u32,
        depth,
    )
    .unwrap();
    let mut asked_before = 0usize;
    for i in 0..n {
        // alternate between too slow and fast enough, period by period
        let rate = if (i / period) % 2 == 0 { fixed(40.0) } else { fixed(400.0) };
        let reply = poet.apply_control(i, rate, fixed(10.0)).unwrap();
        let asked_now = poet.actuator().asked.len();
        let closes = (i + 1) % period == 0 && i + 1 >= depth as u64;
        assert_eq!(reply.is_some(), closes);
        if asked_now != asked_before {
            assert!(closes);
            assert_eq!(asked_now, asked_before + 1);
        }
        asked_before = asked_now;
        assert!(asked_now as u64 <= (i + 1) / period);
    }
    // each period swings the other way, so each decision changed the state
    assert_eq!(poet.actuator().asked.len() as u64, n / period);
    assert_eq!(poet.actuator().asked, vec![(0, 1), (1, 0), (0, 1), (1, 0), (0, 1), (1, 0)]);
}

#[test]
fn a_period_that_closes_on_a_filling_window_decides_nothing() {
    let mut poet = POET::new(
        fixed(100.0),
        &two_controls(),
        &cpus(2),
        Recorder::new(),
        &mut Found(Ok(0)),
        2,
        5,
    )
    .unwrap();
    // calls 2 and 4 close a period, but the window is full from call 5 on
    for i in 0..5 {
        assert_eq!(poet.apply_control(i, fixed(40.0), fixed(10.0)), Ok(None));
    }
    assert!(poet.apply_control(5, fixed(40.0), fixed(10.0)).unwrap().is_some());
    assert_eq!(poet.actuator().asked, vec![(0, 1)]);
}

#[test]
fn two_controllers_fed_alike_decide_alike() {
    let make = || {
        POET::new(
            fixed(75.0),
            &vec![
                POETControlState { id: 0, speedup: fixed(1.0), cost: fixed(1.0) },
                POETControlState { id: 1, speedup: fixed(1.5), cost: fixed(1.3) },
                POETControlState { id: 2, speedup: fixed(2.0), cost: fixed(1.8) },
                POETControlState { id: 3, speedup: fixed(3.0), cost: fixed(3.5) },
            ],
            &cpus(4),
            Recorder::new(),
            &mut Found(Ok(2)),
            2,
            3,
        )
        .unwrap()
    };
    let mut a = make();
    let mut b = make();
    let mut seed: u64 = 12345;
    for i in 0..200u64 {
        seed = seed.wrapping_mul(6364136223846793005).wrapping_add(1442695040888963407);
        let rate = (seed >> 33) % fixed(200.0);
        let power = (seed >> 13) % fixed(50.0);
        let ra = a.apply_control(i, rate, power);
        let rb = b.apply_control(i, rate, power);
        assert_eq!(ra, rb);
        assert_eq!(a.state().current_state_id(), b.state().current_state_id());
    }
    assert_eq!(a.actuator().asked, b.actuator().asked);
    assert!(!a.actuator().asked.is_empty());
}

#[test]
fn a_failed_actuation_leaves_the_current_state_and_is_tried_again() {
    let mut poet = POET::with_seed(
        fixed(100.0),
        &two_controls(),
        &cpus(2),
        Flaky { broken: true, asked: Vec::new() },
        Ok(0),
        2,
        2,
    )
    .unwrap();
    assert_eq!(poet.apply_control(0, fixed(40.0), fixed(10.0)), Ok(None));
    assert_eq!(poet.apply_control(1, fixed(40.0), fixed(10.0)), Err(ActuationError { code: 13 }));
    assert_eq!(poet.state().current_state_id(), 0);
    // the call was counted and its sample taken in all the same
    assert_eq!(poet.state().invocation_count(), 2);
    assert_eq!(poet.state().window().len(), 2);
    // the controller goes on, and the next period decides from state 0 again
    assert_eq!(poet.apply_control(2, fixed(40.0), fixed(10.0)), Ok(None));
    assert_eq!(poet.apply_control(3, fixed(40.0), fixed(10.0)), Err(ActuationError { code: 13 }));
    assert_eq!(poet.state().current_state_id(), 0);
    assert_eq!(poet.actuator().asked, vec![(0, 1), (0, 1)]);
}

#[test]
fn a_mended_actuator_is_obeyed_on_the_next_decision() {
    let mut failing = POET::with_seed(
        fixed(100.0),
        &two_controls(),
        &cpus(2),
        Flaky { broken: true, asked: Vec::new() },
        Ok(0),
        1,
        1,
    )
    .unwrap();
    assert!(failing.apply_control(0, fixed(40.0), fixed(10.0)).is_err());
    let mut actuator = failing.destroy();
    assert_eq!(actuator.asked, vec![(0, 1)]);
    actuator.broken = false;
    let mut mended =
        POET::with_seed(fixed(100.0), &two_controls(), &cpus(2), actuator, Ok(0), 1, 1).unwrap();
    assert!(mended.apply_control(1, fixed(40.0), fixed(10.0)).unwrap().is_some());
    assert_eq!(mended.state().current_state_id(), 1);
    assert_eq!(mended.destroy().asked, vec![(0, 1), (0, 1)]);
}

#[test]
fn the_means_of_the_window_go_into_the_record() {
    let mut poet = POET::new(
        fixed(100.0),
        &two_controls(),
        &cpus(2),
        Recorder::new(),
        &mut Found(Ok(0)),
        1,
        3,
    )
    .unwrap();
    assert_eq!(poet.apply_control(0, fixed(90.0), fixed(9.0)), Ok(None));
    assert_eq!(poet.apply_control(1, fixed(120.0), fixed(12.0)), Ok(None));
    // mean rate 100: state 0 is enough
    assert_eq!(
        poet.apply_control(2, fixed(90.0), fixed(12.0)),
        Ok(Some(Decision {
            tag: 2,
            previous_id: 0,
            new_id: 0,
            observed_rate: fixed(100.0),
            observed_power: fixed(11.0),
        }))
    );
    // the window now holds 120, 90, 60: mean rate 90, state 0 is too slow
    assert_eq!(
        poet.apply_control(3, fixed(60.0), fixed(6.0)),
        Ok(Some(Decision {
            tag: 3,
            previous_id: 0,
            new_id: 1,
            observed_rate: fixed(90.0),
            observed_power: fixed(10.0),
        }))
    );
    assert_eq!(poet.actuator().asked, vec![(0, 1)]);
}
