use virt_ic::board::{Board, Trace};
use virt_ic::chip::clocks::Clock;
use virt_ic::chip::gates::{AndGate, NandGate, NorGate, NotGate, ThreeInputOrGate};
use virt_ic::chip::generators::Generator;
use virt_ic::chip::inputs::Button;
use virt_ic::chip::{Chip, ChipBuilder, ChipSet, PinType};
use virt_ic::utilities::Id;
use virt_ic::State;

const MS: u64 = 1_000_000;

fn level(board: &Board<ChipSet>, chip: &Id<ChipSet>, pin: usize) -> State {
    board.get_chip(chip).get_pin(pin).expect("pin exists").state
}

fn press(board: &mut Board<ChipSet>, button: &Id<ChipSet>, down: bool) {
    match board.get_chip_mut(button) {
        ChipSet::Button(b) => {
            if down {
                b.press()
            } else {
                b.release()
            }
        }
        _ => panic!("not a button"),
    }
}

#[test]
fn and_gate_scenario() {
    let mut board: Board<ChipSet> = Board::new();
    let and = board.register_chip(AndGate::build());
    let vcc = board.register_chip(Generator::build().into_chip());
    let gnd = board.register_chip(Generator::build().with_state(State::Low).into_chip());
    board.register_trace(Trace::from_endpoints(vec![
        (vcc, Generator::OUT),
        (and, AndGate::VCC),
        (and, AndGate::A),
        (and, AndGate::B),
    ]));
    board.connect(gnd, Generator::OUT, and, AndGate::GND);
    board.run(MS);
    assert_eq!(level(&board, &and, AndGate::AB), State::High);
    assert_eq!(level(&board, &and, AndGate::GND), State::Low);
    assert_eq!(level(&board, &and, AndGate::CD), State::Low);
}

#[test]
fn unpowered_gate_keeps_outputs() {
    let mut board: Board<ChipSet> = Board::new();
    let nor = board.register_chip(NorGate::build());
    board.run(MS);
    assert_eq!(level(&board, &nor, NorGate::AB), State::Undefined);
}

#[test]
fn nor_and_three_input_or() {
    let mut board: Board<ChipSet> = Board::new();
    let nor = board.register_chip(NorGate::build());
    let or3 = board.register_chip(ThreeInputOrGate::build());
    let vcc = board.register_chip(Generator::build().into_chip());
    board.register_trace(Trace::from_endpoints(vec![
        (vcc, Generator::OUT),
        (nor, NorGate::VCC),
        (nor, NorGate::A),
        (or3, ThreeInputOrGate::VCC),
        (or3, ThreeInputOrGate::C),
    ]));
    board.run(MS);
    assert_eq!(level(&board, &nor, NorGate::AB), State::Low);
    assert_eq!(level(&board, &nor, NorGate::CD), State::High);
    assert_eq!(level(&board, &or3, ThreeInputOrGate::ABC), State::High);
    assert_eq!(level(&board, &or3, ThreeInputOrGate::DEF), State::Low);
}

#[test]
fn sr_latch_scenario() {
    let mut board: Board<ChipSet> = Board::new();
    let nand = board.register_chip(NandGate::build());
    let not = board.register_chip(NotGate::build());
    let vcc = board.register_chip(Generator::build().into_chip());
    let set_btn = board.register_chip(Button::build());
    let reset_btn = board.register_chip(Button::build());
    board.register_trace(Trace::from_endpoints(vec![
        (vcc, Generator::OUT),
        (nand, NandGate::VCC),
        (not, NotGate::VCC),
        (set_btn, Button::I),
        (reset_btn, Button::I),
    ]));
    // the buttons pull the active-low set and reset inputs low through inverters
    board.connect(set_btn, Button::O, not, NotGate::A);
    board.connect(not, NotGate::NOT_A, nand, NandGate::A);
    board.connect(reset_btn, Button::O, not, NotGate::B);
    board.connect(not, NotGate::NOT_B, nand, NandGate::C);
    board.connect(nand, NandGate::AB, nand, NandGate::D);
    board.connect(nand, NandGate::CD, nand, NandGate::B);
    board.run_during(2 * MS, MS);

    press(&mut board, &set_btn, true);
    board.run_during(5 * MS, MS);
    press(&mut board, &set_btn, false);
    board.run_during(5 * MS, MS);
    assert_eq!(level(&board, &nand, NandGate::AB), State::High);
    board.run_during(3 * MS, MS);
    assert_eq!(level(&board, &nand, NandGate::AB), State::High);

    press(&mut board, &reset_btn, true);
    board.run_during(5 * MS, MS);
    press(&mut board, &reset_btn, false);
    board.run_during(5 * MS, MS);
    assert_eq!(level(&board, &nand, NandGate::AB), State::Low);
    board.run_during(3 * MS, MS);
    assert_eq!(level(&board, &nand, NandGate::AB), State::Low);
}

#[test]
fn contention_resolves_high() {
    let mut board: Board<ChipSet> = Board::new();
    let not = board.register_chip(NotGate::build());
    let high = board.register_chip(Generator::build().into_chip());
    let low = board.register_chip(Generator::build().with_state(State::Low).into_chip());
    board.register_trace(Trace::from_endpoints(vec![
        (low, Generator::OUT),
        (high, Generator::OUT),
        (not, NotGate::A),
    ]));
    board.run(MS);
    assert_eq!(level(&board, &not, NotGate::A), State::High);
}

#[test]
fn high_output_reaches_every_input() {
    let mut board: Board<ChipSet> = Board::new();
    let not = board.register_chip(NotGate::build());
    let and = board.register_chip(AndGate::build());
    let high = board.register_chip(Generator::build().into_chip());
    let analog = board.register_chip(Generator::build().with_state(State::Analog(1500)).into_chip());
    board.register_trace(Trace::from_endpoints(vec![
        (not, NotGate::A),
        (analog, Generator::OUT),
        (and, AndGate::C),
        (high, Generator::OUT),
        (not, NotGate::F),
    ]));
    board.run(MS);
    assert_eq!(level(&board, &not, NotGate::A), State::High);
    assert_eq!(level(&board, &not, NotGate::F), State::High);
    assert_eq!(level(&board, &and, AndGate::C), State::High);
}

#[test]
fn analog_levels_take_the_larger() {
    let mut board: Board<ChipSet> = Board::new();
    let not = board.register_chip(NotGate::build());
    let a = board.register_chip(Generator::build().with_state(State::Analog(1500)).into_chip());
    let b = board.register_chip(Generator::build().with_state(State::Analog(2500)).into_chip());
    board.register_trace(Trace::from_endpoints(vec![(a, Generator::OUT), (b, Generator::OUT), (not, NotGate::B)]));
    board.run(MS);
    assert_eq!(level(&board, &not, NotGate::B), State::Analog(2500));
}

#[test]
fn floating_pins_are_not_written() {
    let mut board: Board<ChipSet> = Board::new();
    let ram = board.register_chip(virt_ic::chip::memories::Ram256B::build());
    let high = board.register_chip(Generator::build().into_chip());
    board.connect(high, Generator::OUT, ram, virt_ic::chip::memories::Ram256B::IO0);
    board.run(MS);
    let io0 = board.get_chip(&ram).get_pin(virt_ic::chip::memories::Ram256B::IO0).unwrap();
    assert_eq!(io0.pin_type, PinType::Floating);
    assert_eq!(io0.state, State::Undefined);
}

#[test]
fn settled_board_stays_settled() {
    let mut board: Board<ChipSet> = Board::new();
    let and = board.register_chip(AndGate::build());
    let vcc = board.register_chip(Generator::build().into_chip());
    board.register_trace(Trace::from_endpoints(vec![
        (vcc, Generator::OUT),
        (and, AndGate::VCC),
        (and, AndGate::A),
        (and, AndGate::B),
    ]));
    board.connect(and, AndGate::AB, and, AndGate::C);
    board.run_during(3 * MS, MS);
    let before = board.get_chip(&and).list_pins();
    board.run(MS);
    let after = board.get_chip(&and).list_pins();
    assert_eq!(before, after);
    assert_eq!(after.len(), 14);
}

#[test]
fn trace_connect_and_disconnect() {
    let mut board: Board<ChipSet> = Board::new();
    let a = board.register_chip(NotGate::build());
    let b = board.register_chip(NotGate::build());
    let mut t: Trace<ChipSet> = Trace::new();
    t.connect(a, NotGate::A);
    t.connect(b, NotGate::B);
    t.connect(a, NotGate::A);
    assert_eq!(t.get_connections().len(), 2);
    t.disconnect(a, NotGate::A);
    assert_eq!(t.get_connections().len(), 1);
    assert_eq!(t.get_connections()[0].1, NotGate::B);
    let id = board.register_trace(t);
    assert_eq!(board.get_trace(&id).get_connections().len(), 1);
}

#[test]
fn dead_endpoints_are_skipped() {
    let mut board: Board<ChipSet> = Board::new();
    let not = board.register_chip(NotGate::build());
    let high = board.register_chip(Generator::build().into_chip());
    board.register_trace(Trace::from_endpoints(vec![(high, Generator::OUT), (not, 99), (not, NotGate::C)]));
    board.run(MS);
    assert_eq!(level(&board, &not, NotGate::C), State::High);
    assert!(board.get_chip(&not).get_pin(99).is_none());
    assert!(board.get_chip(&not).get_pin(0).is_none());
}

fn clock_board(hertz: u64) -> (Board<ChipSet>, Id<ChipSet>) {
    let mut board: Board<ChipSet> = Board::new();
    let clock = board.register_chip(Clock::build().with_frequency(hertz).into_chip());
    let vcc = board.register_chip(Generator::build().into_chip());
    board.connect(vcc, Generator::OUT, clock, Clock::VCC);
    (board, clock)
}

#[test]
fn clock_scenario() {
    let (mut board, clock) = clock_board(50);
    let mut transitions = 0;
    let mut falls = 0;
    let mut last = level(&board, &clock, Clock::CLK);
    for _ in 0..100 {
        board.run(MS);
        let now = level(&board, &clock, Clock::CLK);
        if now != last && last != State::Undefined {
            transitions += 1;
            if now == State::Low {
                falls += 1;
            }
        }
        last = now;
    }
    assert!(transitions == 9 || transitions == 10, "{transitions}");
    assert!(falls == 4 || falls == 5, "{falls}");
}

#[test]
fn clock_transitions_match_duty_cycle() {
    let (mut board, clock) = clock_board(1000);
    let mut transitions = 0;
    let mut last = State::Low;
    for _ in 0..1000 {
        board.run(100_000);
        let now = level(&board, &clock, Clock::CLK);
        if now != last {
            transitions += 1;
        }
        last = now;
    }
    // 1 kHz over 100 ms: 2 * 1000 * 0.1 = 200 transitions, one less at most
    assert!(transitions == 199 || transitions == 200, "{transitions}");
}

#[test]
fn unpowered_clock_stays_idle() {
    let mut board: Board<ChipSet> = Board::new();
    let clock = board.register_chip(Clock::build().with_frequency(1000).into_chip());
    board.run_during(10 * MS, MS);
    assert_eq!(level(&board, &clock, Clock::CLK), State::Undefined);
}

#[test]
fn zero_frequency_clock_never_flips() {
    let (mut board, clock) = clock_board(0);
    board.run_during(100 * MS, MS);
    assert_eq!(level(&board, &clock, Clock::CLK), State::Low);
}

#[test]
fn run_during_zero_duration_runs_nothing() {
    let (mut board, clock) = clock_board(500);
    board.run_during(0, 0);
    assert_eq!(level(&board, &clock, Clock::CLK), State::Undefined);
    board.run_during(1, MS);
    assert_eq!(level(&board, &clock, Clock::CLK), State::Low);
}

#[test]
fn builders_convert_into_chip_set() {
    let g: ChipSet = Generator::build().with_state(State::Analog(900)).into();
    assert!(matches!(g, ChipSet::Generator(_)));
    assert_eq!(g.get_pin(Generator::OUT).unwrap().state, State::Analog(900));
    assert!(g.get_pin(2).is_none());
    let c: ChipSet = Clock::build().into();
    assert_eq!(c.list_pins().len(), 4);
}
