use virt_ic::chip::{Pin, PinType};
use virt_ic::State;

fn pin(pin_type: PinType, state: State) -> Pin {
    Pin { pin_type, state }
}

#[test]
fn feed_undefined_takes_driver() {
    assert_eq!(State::Undefined.feed_state(State::Low), State::Low);
    assert_eq!(State::Undefined.feed_state(State::High), State::High);
    assert_eq!(State::Undefined.feed_state(State::Analog(1200)), State::Analog(1200));
    assert_eq!(State::Undefined.feed_state(State::Undefined), State::Undefined);
}

#[test]
fn feed_high_dominates_low() {
    assert_eq!(State::Low.feed_state(State::High), State::High);
    assert_eq!(State::High.feed_state(State::Low), State::High);
    assert_eq!(State::Low.feed_state(State::Low), State::Low);
    assert_eq!(State::High.feed_state(State::Analog(5000)), State::High);
    assert_eq!(State::Analog(5000).feed_state(State::High), State::High);
}

#[test]
fn feed_analog_takes_larger() {
    assert_eq!(State::Analog(1000).feed_state(State::Analog(2500)), State::Analog(2500));
    assert_eq!(State::Analog(2500).feed_state(State::Analog(1000)), State::Analog(2500));
    assert_eq!(State::Analog(700).feed_state(State::Low), State::Analog(700));
    assert_eq!(State::Low.feed_state(State::Analog(700)), State::Analog(700));
    assert_eq!(State::Analog(700).feed_state(State::Undefined), State::Analog(700));
}

#[test]
fn feed_twice_is_feed_once() {
    let levels = [State::Undefined, State::Low, State::High, State::Analog(0), State::Analog(3300)];
    for a in levels {
        for b in levels {
            let once = a.feed_state(b);
            assert_eq!(once.feed_state(b), once);
        }
    }
}

#[test]
fn as_logic_thresholds() {
    assert_eq!(State::Undefined.as_logic(3300), State::Low);
    assert_eq!(State::Low.as_logic(3300), State::Low);
    assert_eq!(State::High.as_logic(3300), State::High);
    assert_eq!(State::Analog(3300).as_logic(3300), State::High);
    assert_eq!(State::Analog(3299).as_logic(3300), State::Low);
}

#[test]
fn as_analog_and_bool() {
    assert_eq!(State::High.as_analog(5000), State::Analog(5000));
    assert_eq!(State::Low.as_analog(5000), State::Analog(0));
    assert_eq!(State::Undefined.as_analog(5000), State::Analog(0));
    assert_eq!(State::Analog(42).as_analog(5000), State::Analog(42));
    assert!(State::High.to_bool());
    assert!(!State::Low.to_bool());
    assert!(!State::Undefined.to_bool());
    assert!(State::Analog(1).to_bool());
    assert!(!State::Analog(0).to_bool());
    assert_eq!(State::from_bool(true), State::High);
    assert_eq!(State::from_bool(false), State::Low);
    assert_eq!(State::default(), State::Undefined);
}

#[test]
fn read_pins_lsb_first() {
    let pins = vec![
        pin(PinType::Input, State::High),
        pin(PinType::Input, State::Low),
        pin(PinType::Input, State::Analog(12)),
        pin(PinType::Input, State::Undefined),
    ];
    assert_eq!(Pin::read(&pins), 0b0101);
    assert_eq!(Pin::read_threshold(&pins, 3300), 0b0001);
    assert_eq!(Pin::read_threshold(&pins, 10), 0b0101);
    assert_eq!(Pin::read(&[]), 0);
}

#[test]
fn write_pins_and_overflow() {
    let mut pins = vec![Pin::from_type(PinType::Output); 4];
    assert!(!Pin::write(&mut pins, 0b1010));
    let states: Vec<State> = pins.iter().map(|p| p.state).collect();
    assert_eq!(states, vec![State::Low, State::High, State::Low, State::High]);
    assert!(pins.iter().all(|p| p.pin_type == PinType::Output));
    assert_eq!(Pin::read(&pins), 0b1010);
    assert!(Pin::write(&mut pins, 0b1_0000));
    assert_eq!(Pin::read(&pins), 0);
}
