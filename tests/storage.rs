use synclock::display::{state_text, Display, DISPLAY_UPDATE_TICKS};
use synclock::eeprom::{u16_from_bytes, Eeprom, EEPROM_ADDRESS};
use synclock::memory::{Memory, MemoryError, BPM_ADDRESS};
use synclock::statemachine::{RunState, Statemachine};

#[test]
fn eeprom_frames() {
    let e = Eeprom::new();
    let t = e.write_byte(0x1234, 0xAB);
    assert_eq!(t.address, EEPROM_ADDRESS);
    assert_eq!(t.write, vec![0x12, 0x34, 0xAB]);
    assert_eq!(t.read_len, 0);
    let t = e.read_byte(0x0102);
    assert_eq!((t.write.clone(), t.read_len), (vec![0x01, 0x02], 1));
    let t = e.write_page(0x0010, &[1, 2, 3]);
    assert_eq!(t.write, vec![0x00, 0x10, 1, 2, 3]);
    let t = e.read_page(0x0010, 3);
    assert_eq!((t.write.clone(), t.read_len), (vec![0x00, 0x10], 3));
    assert_eq!(e.write_u16(0x0004, 0x0140).write, vec![0x00, 0x04, 0x01, 0x40]);
    assert_eq!(e.read_u16(0x0004).read_len, 2);
    assert_eq!(u16_from_bytes([0x01, 0x40]), 320);
    let full = e.write_page(0, &[7u8; 32]);
    assert_eq!(full.write.len(), 34);
}

#[test]
fn memory_loads_and_stores_tempo() {
    let m = Memory::new(Eeprom::new());
    let req = m.load_request();
    assert_eq!(req.write, vec![0x00, BPM_ADDRESS as u8]);
    assert_eq!(req.read_len, 2);
    let s = m.load_state(Ok([0x00, 0x78])).expect("tempo in range");
    assert_eq!(s.bpm, 120);
    assert_eq!(s.clock_divisions, [1, 4]);
    assert_eq!(s.running, RunState::Running);
    assert!(m.load_state(Ok([0xFF, 0xFF])).is_none());
    assert!(m.load_state(Ok([0x00, 0x00])).is_none());
    assert!(m.load_state(Err(MemoryError::ReadError)).is_none());
    let w = m.write_state(&s);
    assert_eq!(w.write, vec![0x00, 0x04, 0x00, 0x78]);
}

#[test]
fn display_text_for_state() {
    let mut s = Statemachine::new().get_state();
    s.bpm = 305;
    let t = state_text(&s);
    assert_eq!(t.line1, b"Bpm 305".to_vec());
    assert_eq!(t.line2, b"running".to_vec());
    s.bpm = 30;
    s.running = RunState::Paused;
    let t = state_text(&s);
    assert_eq!(t.line1, b"Bpm 30".to_vec());
    assert_eq!(t.line2, b"paused".to_vec());
    s.running = RunState::Stopping;
    assert_eq!(state_text(&s).line2, b"stopped".to_vec());
}

#[test]
fn display_renders_once_per_period() {
    let mut d = Display::new();
    assert!(d.render().is_none());
    let s = Statemachine::new().get_state();
    d.update(&s);
    for _ in 0..DISPLAY_UPDATE_TICKS {
        d.on_timer_tick();
    }
    assert!(d.render().is_none());
    d.on_timer_tick();
    let t = d.render().expect("period elapsed");
    assert_eq!(t.line1, b"Bpm 120".to_vec());
    for _ in 0..=DISPLAY_UPDATE_TICKS {
        d.on_timer_tick();
    }
    assert!(d.render().is_none());
}
