use std::cell::RefCell;
use std::rc::Rc;

use display_interface::DisplayError;

use ist7920::bridge::{BusAdapter, DelayAdapter, PinAdapter};
use ist7920::command::{Booster, Command};
use ist7920::error::Error;
use ist7920::interface::{RawBus, RawDelay, RawOutputPin};
use ist7920::mode::buffered_graphics::PixelEvent;
use ist7920::Ist7920;

/// One observable hardware interaction, recorded by the test doubles
/// into a single shared log so that interleaving is visible.
#[derive(Debug, Clone, PartialEq)]
enum Event {
    Cmd(Vec<u8>),
    Data(Vec<u8>),
    Wait(u8),
    PinHigh,
    PinLow,
}

type SharedLog = Rc<RefCell<Vec<Event>>>;

struct MockTransport {
    log: SharedLog,
    /// `Some(n)`: the first `n` sends succeed, the rest fail.
    ok_sends: Option<usize>,
    sends: usize,
}

impl MockTransport {
    fn ok(log: SharedLog) -> Self {
        MockTransport { log, ok_sends: None, sends: 0 }
    }

    fn failing_after(log: SharedLog, n: usize) -> Self {
        MockTransport { log, ok_sends: Some(n), sends: 0 }
    }

    fn take(&mut self) -> Result<(), DisplayError> {
        if let Some(n) = self.ok_sends {
            if self.sends >= n {
                return Err(DisplayError::BusWriteError);
            }
        }
        self.sends += 1;
        Ok(())
    }
}

impl RawBus for MockTransport {
    fn raw_send_commands(&mut self, bytes: &[u8]) -> Result<(), DisplayError> {
        self.take()?;
        self.log.borrow_mut().push(Event::Cmd(bytes.to_vec()));
        Ok(())
    }

    fn raw_send_data(&mut self, bytes: &[u8]) -> Result<(), DisplayError> {
        self.take()?;
        self.log.borrow_mut().push(Event::Data(bytes.to_vec()));
        Ok(())
    }
}

struct MockDelay {
    log: SharedLog,
}

impl RawDelay for MockDelay {
    fn raw_delay_ms(&mut self, ms: u8) {
        self.log.borrow_mut().push(Event::Wait(ms));
    }
}

struct MockPin {
    log: SharedLog,
    /// `Some(n)`: the first `n` transitions succeed, the rest fail.
    ok_calls: Option<usize>,
    calls: usize,
}

impl MockPin {
    fn ok(log: SharedLog) -> Self {
        MockPin { log, ok_calls: None, calls: 0 }
    }

    fn failing_after(log: SharedLog, n: usize) -> Self {
        MockPin { log, ok_calls: Some(n), calls: 0 }
    }

    fn take(&mut self) -> Result<(), u8> {
        if let Some(n) = self.ok_calls {
            if self.calls >= n {
                return Err(42);
            }
        }
        self.calls += 1;
        Ok(())
    }
}

impl RawOutputPin for MockPin {
    type Error = u8;

    fn raw_set_high(&mut self) -> Result<(), u8> {
        self.take()?;
        self.log.borrow_mut().push(Event::PinHigh);
        Ok(())
    }

    fn raw_set_low(&mut self) -> Result<(), u8> {
        self.take()?;
        self.log.borrow_mut().push(Event::PinLow);
        Ok(())
    }
}

fn new_log() -> SharedLog {
    Rc::new(RefCell::new(Vec::new()))
}

/// The concatenated payload of every data transfer in the log.
fn data_bytes(log: &SharedLog) -> Vec<u8> {
    let mut out = Vec::new();
    for e in log.borrow().iter() {
        if let Event::Data(b) = e {
            out.extend_from_slice(b);
        }
    }
    out
}

fn encoded(c: Command) -> (Vec<u8>, usize) {
    let (data, len) = c.encode();
    (data[..len].to_vec(), len)
}

#[test]
fn encode_ay_address_masks_to_five_bits() {
    assert_eq!(encoded(Command::AYAddress(0xff)), (vec![0x01, 0x1f], 2));
    assert_eq!(encoded(Command::AYAddress(0x07)), (vec![0x01, 0x07], 2));
}

#[test]
fn encode_bias_masks_to_six_bits() {
    assert_eq!(encoded(Command::Bias(0xff)), (vec![0x30, 0x3f], 2));
    assert_eq!(encoded(Command::Bias(16)), (vec![0x30, 16], 2));
}

#[test]
fn encode_voltage_clock_masks_to_six_bits() {
    assert_eq!(encoded(Command::VoltageClock(0xff)), (vec![0x31, 0x3f], 2));
    assert_eq!(encoded(Command::VoltageClock(0x3f)), (vec![0x31, 0x3f], 2));
}

#[test]
fn encode_power_control_is_unmasked() {
    assert_eq!(encoded(Command::PowerControl(0x2c)), (vec![0x33, 0x2c], 2));
    assert_eq!(encoded(Command::PowerControl(0xff)), (vec![0x33, 0xff], 2));
}

#[test]
fn encode_display_on_folds_flag_into_opcode() {
    assert_eq!(encoded(Command::DisplayOn(true)), (vec![0x3d], 1));
    assert_eq!(encoded(Command::DisplayOn(false)), (vec![0x3c], 1));
}

#[test]
fn encode_start_line_is_unmasked() {
    assert_eq!(encoded(Command::StartLine(64)), (vec![0x40, 64], 2));
    assert_eq!(encoded(Command::StartLine(0xff)), (vec![0x40, 0xff], 2));
}

#[test]
fn encode_display_control_packs_four_flags() {
    assert_eq!(encoded(Command::DisplayControl(false, true, false, false)), (vec![0x64], 1));
    assert_eq!(encoded(Command::DisplayControl(true, true, true, true)), (vec![0x6f], 1));
    assert_eq!(encoded(Command::DisplayControl(false, false, false, false)), (vec![0x60], 1));
    assert_eq!(encoded(Command::DisplayControl(true, false, false, true)), (vec![0x69], 1));
}

#[test]
fn encode_ay_window_masks_both_ends() {
    assert_eq!(encoded(Command::AYWindow(0xff, 0xff)), (vec![0x74, 0x1f, 0x1f], 3));
    assert_eq!(encoded(Command::AYWindow(0x0, 0xf)), (vec![0x74, 0x00, 0x0f], 3));
}

#[test]
fn encode_ax_window_masks_both_ends() {
    assert_eq!(encoded(Command::AXWindow(0xff, 0xff)), (vec![0x75, 0x7f, 0x7f], 3));
    assert_eq!(encoded(Command::AXWindow(0x0, 0x7f)), (vec![0x75, 0x00, 0x7f], 3));
}

#[test]
fn encode_sw_reset_is_bare_opcode() {
    assert_eq!(encoded(Command::SWReset), (vec![0x76], 1));
}

#[test]
fn encode_duty_is_unmasked() {
    assert_eq!(encoded(Command::Duty(128)), (vec![0x90, 128], 2));
}

#[test]
fn encode_contrast_is_unmasked() {
    assert_eq!(encoded(Command::Contrast(110)), (vec![0xb1, 110], 2));
}

#[test]
fn encode_ax_address_masks_to_seven_bits() {
    assert_eq!(encoded(Command::AXAddress(0xff)), (vec![0xc0, 0x7f], 2));
    assert_eq!(encoded(Command::AXAddress(0)), (vec![0xc0, 0x00], 2));
}

#[test]
fn encode_booster_folds_level_into_opcode() {
    assert_eq!(encoded(Command::Booster(Booster::VddX2)), (vec![0xfc], 1));
    assert_eq!(encoded(Command::Booster(Booster::VddX3)), (vec![0xfd], 1));
    assert_eq!(encoded(Command::Booster(Booster::VddX4)), (vec![0xfe], 1));
    assert_eq!(encoded(Command::Booster(Booster::VddX5)), (vec![0xff], 1));
}

#[test]
fn send_transmits_exactly_the_encoded_bytes() {
    let log = new_log();
    let mut transport = BusAdapter::new(MockTransport::ok(log.clone()));
    Command::AYAddress(0xff).send(&mut transport).unwrap();
    Command::SWReset.send(&mut transport).unwrap();
    assert_eq!(
        *log.borrow(),
        vec![Event::Cmd(vec![0x01, 0x1f]), Event::Cmd(vec![0x76])]
    );
}

#[test]
fn send_propagates_the_transport_fault() {
    let log = new_log();
    let mut transport = BusAdapter::new(MockTransport::failing_after(log.clone(), 0));
    let r = Command::SWReset.send(&mut transport);
    assert!(matches!(r, Err(DisplayError::BusWriteError)));
    assert!(log.borrow().is_empty());
}

#[test]
fn init_issues_the_exact_bring_up_sequence() {
    let log = new_log();
    let mut disp = Ist7920::new(BusAdapter::new(MockTransport::ok(log.clone())));
    let mut delay = DelayAdapter::new(MockDelay { log: log.clone() });
    disp.init(&mut delay).unwrap();
    let expected = vec![
        Event::Cmd(vec![0x76]),
        Event::Wait(50),
        Event::Cmd(vec![0x3c]),
        Event::Cmd(vec![0x90, 128]),
        Event::Cmd(vec![0x30, 16]),
        Event::Cmd(vec![0x31, 0x3f]),
        Event::Cmd(vec![0x33, 0x20]),
        Event::Wait(100),
        Event::Cmd(vec![0x33, 0x2c]),
        Event::Wait(100),
        Event::Cmd(vec![0xfd]),
        Event::Wait(100),
        Event::Cmd(vec![0x33, 0x2f]),
        Event::Wait(200),
        Event::Cmd(vec![0x64]),
        Event::Cmd(vec![0x74, 0x00, 0x0f]),
        Event::Cmd(vec![0x75, 0x00, 0x7f]),
        Event::Cmd(vec![0x40, 64]),
        Event::Cmd(vec![0x01, 0x00]),
        Event::Cmd(vec![0xc0, 0x00]),
        Event::Cmd(vec![0xb1, 110]),
        Event::Cmd(vec![0x3d]),
    ];
    assert_eq!(*log.borrow(), expected);
}

#[test]
fn init_aborts_on_the_first_transport_fault() {
    let log = new_log();
    let mut disp = Ist7920::new(BusAdapter::new(MockTransport::failing_after(log.clone(), 3)));
    let mut delay = DelayAdapter::new(MockDelay { log: log.clone() });
    let r = disp.init(&mut delay);
    assert!(matches!(r, Err(DisplayError::BusWriteError)));
    // The three accepted commands and the wait after the software reset.
    assert_eq!(
        *log.borrow(),
        vec![
            Event::Cmd(vec![0x76]),
            Event::Wait(50),
            Event::Cmd(vec![0x3c]),
            Event::Cmd(vec![0x90, 128]),
        ]
    );
}

#[test]
fn set_draw_area_full_screen_issues_windows_then_cursor() {
    let log = new_log();
    let mut disp = Ist7920::new(BusAdapter::new(MockTransport::ok(log.clone())));
    disp.set_draw_area((0, 0), (127, 127)).unwrap();
    assert_eq!(
        *log.borrow(),
        vec![
            Event::Cmd(vec![0x74, 0, 15]),
            Event::Cmd(vec![0x75, 0, 127]),
            Event::Cmd(vec![0xc0, 0]),
            Event::Cmd(vec![0x01, 0]),
        ]
    );
}

#[test]
fn set_draw_area_aborts_on_a_transport_fault() {
    let log = new_log();
    let mut disp = Ist7920::new(BusAdapter::new(MockTransport::failing_after(log.clone(), 2)));
    let r = disp.set_draw_area((0, 0), (127, 127));
    assert!(matches!(r, Err(DisplayError::BusWriteError)));
    // Only the two accepted commands; nothing after the fault.
    assert_eq!(
        *log.borrow(),
        vec![Event::Cmd(vec![0x74, 0, 15]), Event::Cmd(vec![0x75, 0, 127])]
    );
}

#[test]
fn set_display_on_sends_a_single_command() {
    let log = new_log();
    let mut disp = Ist7920::new(BusAdapter::new(MockTransport::ok(log.clone())));
    disp.set_display_on(true).unwrap();
    disp.set_display_on(false).unwrap();
    assert_eq!(
        *log.borrow(),
        vec![Event::Cmd(vec![0x3d]), Event::Cmd(vec![0x3c])]
    );
}

#[test]
fn draw_forwards_the_buffer_unmodified() {
    let log = new_log();
    let mut disp = Ist7920::new(BusAdapter::new(MockTransport::ok(log.clone())));
    disp.draw(&[1, 2, 3]).unwrap();
    assert_eq!(*log.borrow(), vec![Event::Data(vec![1, 2, 3])]);
}

#[test]
fn reset_drives_high_low_high_with_the_required_waits() {
    let log = new_log();
    let mut disp = Ist7920::new(BusAdapter::new(MockTransport::ok(log.clone())));
    let mut pin = PinAdapter::new(MockPin::ok(log.clone()));
    let mut delay = DelayAdapter::new(MockDelay { log: log.clone() });
    disp.reset(&mut pin, &mut delay).unwrap();
    assert_eq!(
        *log.borrow(),
        vec![
            Event::PinHigh,
            Event::Wait(1),
            Event::PinLow,
            Event::Wait(10),
            Event::PinHigh,
            Event::Wait(20),
        ]
    );
}

#[test]
fn reset_returns_the_pin_fault_unmodified() {
    let full = [
        Event::PinHigh,
        Event::Wait(1),
        Event::PinLow,
        Event::Wait(10),
        Event::PinHigh,
        Event::Wait(20),
    ];
    for failing_call in 0..3usize {
        let log = new_log();
        let mut disp = Ist7920::new(BusAdapter::new(MockTransport::ok(log.clone())));
        let mut pin = PinAdapter::new(MockPin::failing_after(log.clone(), failing_call));
        let mut delay = DelayAdapter::new(MockDelay { log: log.clone() });
        let r = disp.reset(&mut pin, &mut delay);
        assert!(matches!(r, Err(Error::Pin(42))));
        // The failed transition aborts the sequence: only the earlier
        // transitions and their waits happened.
        assert_eq!(*log.borrow(), full[..2 * failing_call]);
    }
}

#[test]
fn basic_clear_sends_a_full_frame_of_zeros() {
    let log = new_log();
    let mut disp = Ist7920::new(BusAdapter::new(MockTransport::ok(log.clone())));
    disp.clear().unwrap();
    let events = log.borrow();
    assert_eq!(events.len(), 4 + 512);
    assert_eq!(events[0], Event::Cmd(vec![0x74, 0, 15]));
    for e in events[4..].iter() {
        assert_eq!(*e, Event::Data(vec![0, 0, 0, 0]));
    }
}

#[test]
fn basic_clear_aborts_on_a_transport_fault() {
    let log = new_log();
    // Four draw-area commands and ten data blocks succeed, then a fault.
    let mut disp = Ist7920::new(BusAdapter::new(MockTransport::failing_after(log.clone(), 14)));
    let r = disp.clear();
    assert!(matches!(r, Err(DisplayError::BusWriteError)));
    let events = log.borrow();
    assert_eq!(events.len(), 14);
    for e in events[4..].iter() {
        assert_eq!(*e, Event::Data(vec![0, 0, 0, 0]));
    }
}

#[test]
fn buffered_clear_then_flush_transmits_all_zero_bytes() {
    let log = new_log();
    let mut disp = Ist7920::new(BusAdapter::new(MockTransport::ok(log.clone()))).into_buffered_graphics_mode();
    disp.set_pixel(3, 9, true);
    disp.clear();
    disp.flush().unwrap();
    let bytes = data_bytes(&log);
    assert_eq!(bytes.len(), 128 * 128 / 8);
    assert!(bytes.iter().all(|b| *b == 0));
}

#[test]
fn flush_covers_the_buffer_in_uniform_chunks() {
    let log = new_log();
    let mut disp = Ist7920::new(BusAdapter::new(MockTransport::ok(log.clone()))).into_buffered_graphics_mode();
    disp.set_pixel(0, 0, true);
    disp.set_pixel(127, 127, true);
    disp.flush().unwrap();
    let events = log.borrow();
    assert_eq!(events.len(), 2048 / 64);
    for e in events.iter() {
        match e {
            Event::Data(b) => assert_eq!(b.len(), 64),
            _ => panic!("flush sent a non-data event"),
        }
    }
    drop(events);
    let bytes = data_bytes(&log);
    assert_eq!(bytes.len(), 2048);
    assert_eq!(bytes[0], 0x01);
    // Pixel (127, 127): byte (127 / 8) * 128 + 127, bit 127 % 8.
    assert_eq!(bytes[15 * 128 + 127], 0x80);
    assert_eq!(bytes.iter().filter(|b| **b != 0).count(), 2);
}

#[test]
fn flush_propagates_a_transport_fault() {
    let log = new_log();
    let mut disp =
        Ist7920::new(BusAdapter::new(MockTransport::failing_after(log.clone(), 5))).into_buffered_graphics_mode();
    let r = disp.flush();
    assert!(matches!(r, Err(DisplayError::BusWriteError)));
    assert_eq!(log.borrow().len(), 5);
}

#[test]
fn set_pixel_round_trip_restores_the_byte_and_keeps_neighbours() {
    let log = new_log();
    let mut disp = Ist7920::new(BusAdapter::new(MockTransport::ok(log.clone()))).into_buffered_graphics_mode();
    // Neighbours of (5, 10) within the same byte: rows 9 and 11.
    disp.set_pixel(5, 9, true);
    disp.set_pixel(5, 11, true);
    disp.flush().unwrap();
    let before = data_bytes(&log);
    assert_eq!(before[128 + 5], 0b0000_1010);

    log.borrow_mut().clear();
    disp.set_pixel(5, 10, true);
    disp.flush().unwrap();
    let lit = data_bytes(&log);
    assert_eq!(lit[128 + 5], 0b0000_1110);

    log.borrow_mut().clear();
    disp.set_pixel(5, 10, false);
    disp.flush().unwrap();
    let after = data_bytes(&log);
    assert_eq!(after, before);
}

#[test]
fn set_pixel_out_of_bounds_is_a_silent_no_op() {
    let log = new_log();
    let mut disp = Ist7920::new(BusAdapter::new(MockTransport::ok(log.clone()))).into_buffered_graphics_mode();
    disp.set_pixel(0, 128, true);
    disp.set_pixel(0, 4_000_000_000, true);
    // x beyond the display width, with a byte index that would still
    // land inside the buffer: must be a no-op all the same.
    disp.set_pixel(128, 0, true);
    disp.set_pixel(200, 0, true);
    disp.set_pixel(200, 120, true);
    disp.set_pixel(4_000_000_000, 4_000_000_000, true);
    disp.flush().unwrap();
    let bytes = data_bytes(&log);
    assert!(bytes.iter().all(|b| *b == 0));
}

#[test]
fn draw_iter_applies_events_filtered_to_the_bounding_box() {
    let log = new_log();
    let mut disp = Ist7920::new(BusAdapter::new(MockTransport::ok(log.clone()))).into_buffered_graphics_mode();
    let pixels = vec![
        PixelEvent { x: 0, y: 0, on: true },
        PixelEvent { x: -1, y: 0, on: true },
        PixelEvent { x: 0, y: 128, on: true },
        PixelEvent { x: 5, y: 9, on: true },
        PixelEvent { x: 5, y: 9, on: false },
        PixelEvent { x: 127, y: 127, on: true },
    ];
    disp.draw_iter(&pixels).unwrap();
    disp.flush().unwrap();
    let bytes = data_bytes(&log);
    assert_eq!(bytes[0], 0x01);
    assert_eq!(bytes[128 + 5], 0);
    assert_eq!(bytes[15 * 128 + 127], 0x80);
    assert_eq!(bytes.iter().filter(|b| **b != 0).count(), 2);
}

#[test]
fn booster_levels_are_the_two_bit_codes() {
    assert_eq!(Booster::VddX2.level(), 0);
    assert_eq!(Booster::VddX3.level(), 1);
    assert_eq!(Booster::VddX4.level(), 2);
    assert_eq!(Booster::VddX5.level(), 3);
}
