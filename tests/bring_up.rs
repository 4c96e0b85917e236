use board_init::bringup::{plan_action, step_failure, Action, BringUp, STEP_COUNT};
use board_init::bus::{Bus, ClockDescriptor, BUS_SPEED_HZ, MAX_BUS_SPEED_HZ};
use board_init::direction::{Direction, LED_COUNT};
use board_init::error::BringUpError;
use board_init::pins::{MuxError, PinMux, Role, CLOCK_PIN, DATA_PIN};
use board_init::sensor::{SampleRate, UninitializedSensor, BRING_UP_RATE};

const ALL_DIRECTIONS: [Direction; 8] = [
    Direction::North,
    Direction::Northeast,
    Direction::East,
    Direction::Southeast,
    Direction::South,
    Direction::Southwest,
    Direction::West,
    Direction::Northwest,
];

fn bus() -> Bus {
    let mut mux = PinMux::new();
    let scl = mux.mux(CLOCK_PIN, Role::BusClock).unwrap();
    let sda = mux.mux(DATA_PIN, Role::BusData).unwrap();
    let clocks = ClockDescriptor::frozen(8_000_000);
    Bus::build(scl, sda, BUS_SPEED_HZ, &clocks)
}

/// Drives a run from the start, reporting the given outcomes, and returns
/// the actions requested and the stage reached.
fn drive(outcomes: &[bool]) -> (Vec<Action>, BringUp) {
    let mut st = BringUp::start();
    let mut actions = Vec::new();
    for ok in outcomes {
        actions.push(st.next_action());
        st = st.advance(*ok);
    }
    (actions, st)
}

#[test]
fn each_direction_has_its_own_led() {
    let mut seen = [false; 8];
    for (i, d) in ALL_DIRECTIONS.iter().enumerate() {
        assert_eq!(d.led_index(), i);
        assert_eq!(Direction::from_led_index(i), Some(*d));
        assert!(!seen[d.led_index()]);
        seen[d.led_index()] = true;
    }
    assert_eq!(LED_COUNT, 8);
    assert!(seen.iter().all(|s| *s));
    assert_eq!(Direction::from_led_index(8), None);
    assert_eq!(Direction::from_led_index(usize::MAX), None);
}

#[test]
fn led_labels_follow_the_board() {
    let labels: Vec<u8> = ALL_DIRECTIONS.iter().map(|d| d.led_number()).collect();
    assert_eq!(labels, vec![3, 5, 7, 9, 10, 8, 6, 4]);
}

#[test]
fn pin_is_muxed_once() {
    let mut mux = PinMux::new();
    assert!(!mux.contains(CLOCK_PIN));
    let scl = mux.mux(CLOCK_PIN, Role::BusClock).unwrap();
    assert_eq!(scl.pin(), CLOCK_PIN);
    assert_eq!(scl.role(), Role::BusClock);
    assert!(mux.contains(CLOCK_PIN));
    assert!(!mux.contains(DATA_PIN));
    assert!(matches!(mux.mux(CLOCK_PIN, Role::BusData), Err(MuxError::AlreadyMuxed)));
    assert!(matches!(mux.mux(CLOCK_PIN, Role::BusClock), Err(MuxError::AlreadyMuxed)));
    let sda = mux.mux(DATA_PIN, Role::BusData).unwrap();
    assert_eq!(sda.pin(), DATA_PIN);
    assert_eq!(sda.role(), Role::BusData);
    assert!(matches!(mux.mux(DATA_PIN, Role::BusClock), Err(MuxError::AlreadyMuxed)));
}

#[test]
fn bus_takes_one_clock_and_one_data_pin() {
    let b = bus();
    assert_eq!(b.clock_pin(), 6);
    assert_eq!(b.data_pin(), 7);
    assert_eq!(b.speed_hz(), 400_000);
    assert!(BUS_SPEED_HZ <= MAX_BUS_SPEED_HZ);
    assert_eq!(ClockDescriptor::frozen(8_000_000).sysclk_hz(), 8_000_000);
}

#[test]
fn sensor_reaches_continuous_mode() {
    let sensor = UninitializedSensor::new(bus());
    let sensor = sensor.initialize(true).unwrap();
    assert_eq!(sensor.rate(), None);
    let sensor = sensor.set_sample_rate(BRING_UP_RATE, true).unwrap();
    assert_eq!(sensor.rate(), Some(SampleRate::Hz10));
    let sensor = sensor.enter_continuous_mode(true).unwrap();
    assert_eq!(sensor.rate(), SampleRate::Hz10);
    assert_eq!(sensor.sample_interval_ms(), 100);
    assert_eq!(sensor.bus_speed_hz(), 400_000);
}

#[test]
fn continuous_mode_consumes_the_configuring_handle() {
    let configuring = UninitializedSensor::new(bus())
        .initialize(true)
        .unwrap()
        .set_sample_rate(SampleRate::Hz50, true)
        .unwrap();
    // `configuring` is moved into the call; the compiler refuses any later use.
    let continuous = configuring.enter_continuous_mode(true).unwrap();
    assert_eq!(continuous.rate(), SampleRate::Hz50);
    assert_eq!(continuous.sample_interval_ms(), 20);
}

#[test]
fn sensor_failures_are_reported() {
    let r = UninitializedSensor::new(bus()).initialize(false);
    assert!(matches!(r, Err(BringUpError::SensorHandshakeFailure)));
    let r = UninitializedSensor::new(bus())
        .initialize(true)
        .unwrap()
        .set_sample_rate(SampleRate::Hz10, false);
    assert!(matches!(r, Err(BringUpError::SensorConfigurationFailure)));
    let r = UninitializedSensor::new(bus())
        .initialize(true)
        .unwrap()
        .set_sample_rate(SampleRate::Hz10, true)
        .unwrap()
        .enter_continuous_mode(false);
    assert!(matches!(r, Err(BringUpError::ModeTransitionFailure)));
}

#[test]
fn sample_intervals() {
    assert_eq!(SampleRate::Hz10.hz(), 10);
    assert_eq!(SampleRate::Hz20.hz(), 20);
    assert_eq!(SampleRate::Hz50.hz(), 50);
    assert_eq!(SampleRate::Hz100.hz(), 100);
    let s = UninitializedSensor::new(bus())
        .initialize(true)
        .unwrap()
        .set_sample_rate(SampleRate::Hz100, true)
        .unwrap()
        .enter_continuous_mode(true)
        .unwrap();
    assert_eq!(s.sample_interval_ms(), 10);
}

#[test]
fn responding_board_is_brought_up_in_order() {
    let (actions, st) = drive(&[true; 11]);
    assert_eq!(
        actions,
        vec![
            Action::TakeCorePeripherals,
            Action::TakeDevicePeripherals,
            Action::FreezeClocks,
            Action::BuildLeds,
            Action::MuxPin { pin: 6, role: Role::BusClock },
            Action::MuxPin { pin: 7, role: Role::BusData },
            Action::BuildBus { speed_hz: 400_000 },
            Action::InitializeSensor,
            Action::SetSampleRate { rate: SampleRate::Hz10 },
            Action::EnterContinuousMode,
            Action::BuildDelay,
        ]
    );
    assert!(st.is_ready());
    assert_eq!(st.error(), None);
    assert_eq!(st.next_action(), Action::Deliver);
    assert_eq!(STEP_COUNT, 11);
}

#[test]
fn handshake_failure_halts_before_delivery() {
    let mut outcomes = [true; 14];
    outcomes[7] = false;
    let (actions, st) = drive(&outcomes);
    assert_eq!(actions[7], Action::InitializeSensor);
    assert_eq!(st, BringUp::Halted { error: BringUpError::SensorHandshakeFailure });
    assert!(!st.is_ready());
    assert!(!actions.contains(&Action::Deliver));
    assert!(!actions.contains(&Action::SetSampleRate { rate: SampleRate::Hz10 }));
    for a in &actions[8..] {
        assert_eq!(*a, Action::Halt { error: BringUpError::SensorHandshakeFailure });
    }
}

#[test]
fn second_acquisition_halts() {
    // The peripherals were already claimed: the claim of this run fails.
    let (actions, st) = drive(&[false, true, true, true]);
    assert_eq!(actions[0], Action::TakeCorePeripherals);
    assert_eq!(st.error(), Some(BringUpError::ResourceAlreadyClaimed));
    for a in &actions[1..] {
        assert_eq!(*a, Action::Halt { error: BringUpError::ResourceAlreadyClaimed });
    }
    let (actions, st) = drive(&[true, false, true]);
    assert_eq!(actions[1], Action::TakeDevicePeripherals);
    assert_eq!(st.error(), Some(BringUpError::ResourceAlreadyClaimed));
    assert_eq!(actions[2], Action::Halt { error: BringUpError::ResourceAlreadyClaimed });
}

#[test]
fn later_failures_halt_with_their_error() {
    let mut outcomes = [true; 12];
    outcomes[8] = false;
    let (_, st) = drive(&outcomes);
    assert_eq!(st.error(), Some(BringUpError::SensorConfigurationFailure));
    let mut outcomes = [true; 12];
    outcomes[9] = false;
    let (_, st) = drive(&outcomes);
    assert_eq!(st.error(), Some(BringUpError::ModeTransitionFailure));
}

#[test]
fn steps_that_cannot_fail_move_on() {
    let (_, st) = drive(&[true, true, false, false, false, false, false]);
    assert_eq!(st, BringUp::Running { step: 7 });
    assert_eq!(step_failure(2), None);
    assert_eq!(step_failure(0), Some(BringUpError::ResourceAlreadyClaimed));
    assert_eq!(plan_action(10), Action::BuildDelay);
}

#[test]
fn no_step_is_requested_twice() {
    let (actions, _) = drive(&[true; 11]);
    for i in 0..actions.len() {
        for j in (i + 1)..actions.len() {
            assert_ne!(actions[i], actions[j]);
        }
    }
}
