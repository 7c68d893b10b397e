use virt_ic::chip::memories::{MemoryEvent, Ram256B, Ram8KB, Rom256B, Rom8KB};
use virt_ic::chip::{ChipBuilder, ChipRunner, ChipSet, Pin, PinType};
use virt_ic::State;

fn ram256() -> Ram256B {
    match Ram256B::build() {
        ChipSet::Ram256B(r) => r,
        _ => panic!("not a RAM"),
    }
}

fn set_bus(pins: &[usize], value: usize, set: &mut dyn FnMut(usize, State)) {
    for (i, p) in pins.iter().enumerate() {
        set(*p, State::from_bool(value & (1 << i) != 0));
    }
}

const RAM_ADDR: [usize; 8] = [
    Ram256B::A0, Ram256B::A1, Ram256B::A2, Ram256B::A3, Ram256B::A4, Ram256B::A5, Ram256B::A6,
    Ram256B::A7,
];
const RAM_IO: [usize; 8] = [
    Ram256B::IO0, Ram256B::IO1, Ram256B::IO2, Ram256B::IO3, Ram256B::IO4, Ram256B::IO5,
    Ram256B::IO6, Ram256B::IO7,
];

fn read_io(ram: &Ram256B) -> usize {
    let pins: Vec<Pin> = RAM_IO.iter().map(|p| ram.get_pin(*p).unwrap()).collect();
    Pin::read_threshold(&pins, 3300)
}

#[test]
fn ram_write_then_read() {
    let mut ram = ram256();
    ram.set_pin_state(Ram256B::VCC, State::High);
    ram.set_pin_state(Ram256B::CS, State::High);
    ram.run(1000);
    for (addr, byte) in [(0x00usize, 0x00usize), (0x42, 0xA5), (0xFF, 0x3C), (0x80, 0xFF)] {
        ram.set_pin_state(Ram256B::CS, State::Low);
        ram.set_pin_state(Ram256B::WE, State::Low);
        ram.set_pin_state(Ram256B::OE, State::High);
        set_bus(&RAM_ADDR, addr, &mut |p, s| ram.set_pin_state(p, s));
        set_bus(&RAM_IO, byte, &mut |p, s| ram.set_pin_state(p, s));
        ram.run(1000);
        assert_eq!(ram.event(), Some(MemoryEvent::WriteByte { addr, byte: byte as u8 }));
        assert_eq!(ram.get_pin(Ram256B::IO0).unwrap().pin_type, PinType::Input);
        assert_eq!(ram.bytes()[addr], byte as u8);

        set_bus(&RAM_IO, 0, &mut |p, s| ram.set_pin_state(p, s));
        ram.set_pin_state(Ram256B::WE, State::High);
        ram.set_pin_state(Ram256B::OE, State::Low);
        ram.run(1000);
        assert_eq!(ram.get_pin(Ram256B::IO0).unwrap().pin_type, PinType::Output);
        assert_eq!(read_io(&ram), byte);
        assert_eq!(ram.event(), Some(MemoryEvent::ReadByte { addr, byte: byte as u8 }));
    }
}

#[test]
fn ram_deselected_floats() {
    let mut ram = ram256();
    ram.set_pin_state(Ram256B::VCC, State::High);
    ram.set_pin_state(Ram256B::CS, State::High);
    ram.set_pin_state(Ram256B::OE, State::Low);
    ram.run(1000);
    assert_eq!(ram.get_pin(Ram256B::IO3).unwrap().pin_type, PinType::Floating);
    assert_eq!(ram.event(), None);
    ram.set_pin_state(Ram256B::CS, State::Low);
    ram.set_pin_state(Ram256B::WE, State::High);
    ram.set_pin_state(Ram256B::OE, State::High);
    ram.run(1000);
    assert_eq!(ram.get_pin(Ram256B::IO3).unwrap().pin_type, PinType::Floating);
    assert_eq!(ram.get_pin(Ram256B::GND).unwrap().state, State::Low);
}

#[test]
fn ram_power_loss_floats_bus() {
    let mut ram = ram256();
    ram.set_pin_state(Ram256B::VCC, State::High);
    ram.set_pin_state(Ram256B::CS, State::Low);
    ram.set_pin_state(Ram256B::OE, State::Low);
    ram.set_pin_state(Ram256B::WE, State::High);
    ram.run(1000);
    assert_eq!(ram.get_pin(Ram256B::IO0).unwrap().pin_type, PinType::Output);
    ram.set_pin_state(Ram256B::VCC, State::Low);
    ram.run(1000);
    assert_eq!(ram.get_pin(Ram256B::IO0).unwrap().pin_type, PinType::Floating);
    assert_eq!(ram.bytes().len(), 256);
}

#[test]
fn ram_8k_addresses_all_lines() {
    let mut ram = match Ram8KB::build() {
        ChipSet::Ram8KB(r) => r,
        _ => panic!(),
    };
    let addr = [
        Ram8KB::A0, Ram8KB::A1, Ram8KB::A2, Ram8KB::A3, Ram8KB::A4, Ram8KB::A5, Ram8KB::A6,
        Ram8KB::A7, Ram8KB::A8, Ram8KB::A9, Ram8KB::A10, Ram8KB::A11, Ram8KB::A12,
    ];
    let io = [
        Ram8KB::IO0, Ram8KB::IO1, Ram8KB::IO2, Ram8KB::IO3, Ram8KB::IO4, Ram8KB::IO5, Ram8KB::IO6,
        Ram8KB::IO7,
    ];
    ram.set_pin_state(Ram8KB::VCC, State::High);
    ram.set_pin_state(Ram8KB::CS, State::Low);
    ram.set_pin_state(Ram8KB::WE, State::Low);
    set_bus(&addr, 0x1ABC, &mut |p, s| ram.set_pin_state(p, s));
    set_bus(&io, 0x77, &mut |p, s| ram.set_pin_state(p, s));
    ram.run(1000);
    assert_eq!(ram.bytes().len(), 8192);
    assert_eq!(ram.bytes()[0x1ABC], 0x77);
}

#[test]
fn rom_set_data_pads_and_truncates() {
    let rom = Rom256B::build().set_data(&[1, 2, 3]);
    assert_eq!(rom.bytes().len(), 256);
    assert_eq!(&rom.bytes()[..4], &[1, 2, 3, 0]);
    let long: Vec<u8> = (0..300).map(|i| i as u8).collect();
    let rom = Rom256B::build().set_data(&long);
    assert_eq!(rom.bytes().len(), 256);
    assert_eq!(rom.bytes()[255], 255);
    let big = Rom8KB::build().set_data(&long);
    assert_eq!(big.bytes().len(), 8192);
    assert_eq!(big.bytes()[299], 43);
    assert_eq!(big.bytes()[300], 0);
}

#[test]
fn rom_reads_and_never_changes() {
    let data: Vec<u8> = (0..=255u8).rev().collect();
    let mut rom = Rom256B::build().set_data(&data);
    let addr = [
        Rom256B::A0, Rom256B::A1, Rom256B::A2, Rom256B::A3, Rom256B::A4, Rom256B::A5, Rom256B::A6,
        Rom256B::A7,
    ];
    let io = [
        Rom256B::IO0, Rom256B::IO1, Rom256B::IO2, Rom256B::IO3, Rom256B::IO4, Rom256B::IO5,
        Rom256B::IO6, Rom256B::IO7,
    ];
    rom.set_pin_state(Rom256B::VCC, State::High);
    rom.set_pin_state(Rom256B::CS, State::Low);
    for i in 0..64usize {
        rom.set_pin_state(Rom256B::OE, State::from_bool(i % 2 == 0));
        set_bus(&addr, i * 3, &mut |p, s| rom.set_pin_state(p, s));
        set_bus(&io, 0xFF, &mut |p, s| rom.set_pin_state(p, s));
        rom.run(1000);
        if i % 2 == 1 {
            let pins: Vec<Pin> = io.iter().map(|p| rom.get_pin(*p).unwrap()).collect();
            assert_eq!(Pin::read_threshold(&pins, 3300), 255 - i * 3);
        } else {
            assert_eq!(rom.get_pin(Rom256B::IO0).unwrap().pin_type, PinType::Floating);
        }
        assert_eq!(rom.bytes(), &data[..]);
    }
}
