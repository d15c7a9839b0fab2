//! Display commands and their encoding.
//!
//! Each command is serialized to an opcode byte plus zero to two
//! parameter bytes. Parameters are masked to the bit width the
//! controller accepts, never validated and rejected, so encoding is
//! total and cannot fail. Controllers reject trailing garbage, so an
//! exact byte count is paired with every encoding.

use vstd::prelude::*;

use crate::interface::{Transport, TransportEvent};

verus! {

/// Booster level: the voltage multiplier stage supplying the LCD bias
/// voltages.
#[derive(Debug, Copy, Clone)]
pub enum Booster {
    /// 2*VDD2-0.3
    VddX2,
    /// 3*VDD2-0.3
    VddX3,
    /// 4*VDD2-0.3
    VddX4,
    /// 5*VDD2-0.3
    VddX5,
}

impl Booster {
    /// The two-bit level code the controller expects.
    pub open spec fn spec_level(self) -> u8 {
        match self {
            Booster::VddX2 => 0,
            Booster::VddX3 => 1,
            Booster::VddX4 => 2,
            Booster::VddX5 => 3,
        }
    }

    /// Executable form of [`Booster::spec_level`].
    pub fn level(self) -> (r: u8)
        ensures
            r == self.spec_level(),
    {
        match self {
            Booster::VddX2 => 0,
            Booster::VddX3 => 1,
            Booster::VddX4 => 2,
            Booster::VddX5 => 3,
        }
    }
}

/// IST7920 commands.
#[derive(Debug, Copy, Clone)]
pub enum Command {
    /// AY address
    AYAddress(u8),
    /// Bias
    Bias(u8),
    /// Voltage generator clock frequency select
    VoltageClock(u8),
    /// Power control
    PowerControl(u8),
    /// Turn display on or off.
    DisplayOn(bool),
    /// Set start line
    StartLine(u8),
    /// Display control flags (SHL, ADC, EON, REV).
    /// SHL: common output mode select (scan direction of the COM lines).
    /// ADC: display RAM address mapping (scan direction of the SEG lines).
    /// EON: force the whole panel on regardless of RAM contents.
    /// REV: reverse the relation between RAM bit data and LCD cell.
    DisplayControl(bool, bool, bool, bool),
    /// AY Window: start, end
    AYWindow(u8, u8),
    /// AX Window: start, end
    AXWindow(u8, u8),
    /// Software Reset
    SWReset,
    /// Duty
    Duty(u8),
    /// Contrast (reference voltage select)
    Contrast(u8),
    /// AX Address
    AXAddress(u8),
    /// Booster
    Booster(Booster),
}

impl Command {
    /// The exact bytes the controller receives for this command:
    /// the opcode first, then the masked parameters.
    pub open spec fn spec_encode(self) -> Seq<u8> {
        match self {
            Command::AYAddress(address) => seq![0x01u8, address & 0x1f],
            Command::Bias(bias) => seq![0x30u8, bias & 0x3f],
            Command::VoltageClock(clock) => seq![0x31u8, clock & 0x3f],
            Command::PowerControl(control) => seq![0x33u8, control],
            Command::DisplayOn(on) => seq![if on { 0x3du8 } else { 0x3cu8 }],
            Command::StartLine(start) => seq![0x40u8, start],
            Command::DisplayControl(shl, adc, eon, rev) => seq![
                (0x60u8 | (if shl { 0x08u8 } else { 0u8 }) | (if adc { 0x04u8 } else { 0u8 })
                    | (if eon { 0x02u8 } else { 0u8 }) | (if rev { 0x01u8 } else { 0u8 })),
            ],
            Command::AYWindow(start, end) => seq![0x74u8, start & 0x1f, end & 0x1f],
            Command::AXWindow(start, end) => seq![0x75u8, start & 0x7f, end & 0x7f],
            Command::SWReset => seq![0x76u8],
            Command::Duty(duty) => seq![0x90u8, duty],
            Command::Contrast(contrast) => seq![0xb1u8, contrast],
            Command::AXAddress(address) => seq![0xc0u8, address & 0x7f],
            Command::Booster(booster) => seq![0xfcu8 | booster.spec_level()],
        }
    }

    /// Encode the command into a fixed-size array of three bytes plus
    /// the number of bytes that must actually be transmitted. Sending
    /// the trailing padding bytes would be incorrect.
    pub fn encode(self) -> (r: ([u8; 3], usize))
        ensures
            r.1 == self.spec_encode().len(),
            r.0@.take(r.1 as int) == self.spec_encode(),
    {
        let (data, len): ([u8; 3], usize) = match self {
            Command::AYAddress(address) => ([0x01, address & 0x1f, 0], 2),
            Command::Bias(bias) => ([0x30, bias & 0x3f, 0], 2),
            Command::VoltageClock(clock) => ([0x31, clock & 0x3f, 0], 2),
            Command::PowerControl(control) => ([0x33, control, 0], 2),
            Command::DisplayOn(on) => ([0x3c | (if on { 1u8 } else { 0u8 }), 0, 0], 1),
            Command::StartLine(start) => ([0x40, start, 0], 2),
            Command::DisplayControl(shl, adc, eon, rev) => (
                [
                    0x60 | (if shl { 0x08u8 } else { 0u8 }) | (if adc { 0x04u8 } else { 0u8 })
                        | (if eon { 0x02u8 } else { 0u8 }) | (if rev { 0x01u8 } else { 0u8 }),
                    0,
                    0,
                ],
                1,
            ),
            Command::AYWindow(start, end) => ([0x74, start & 0x1f, end & 0x1f], 3),
            Command::AXWindow(start, end) => ([0x75, start & 0x7f, end & 0x7f], 3),
            Command::SWReset => ([0x76, 0, 0], 1),
            Command::Duty(duty) => ([0x90, duty, 0], 2),
            Command::Contrast(contrast) => ([0xb1, contrast, 0], 2),
            Command::AXAddress(address) => ([0xc0, address & 0x7f, 0], 2),
            Command::Booster(booster) => ([0xfc | booster.level(), 0, 0], 1),
        };
        proof {
            assert(0x3cu8 | 1u8 == 0x3du8) by (bit_vector);
            assert(0x3cu8 | 0u8 == 0x3cu8) by (bit_vector);
            assert(data@.take(len as int) =~= self.spec_encode());
        }
        (data, len)
    }

    /// Encode the command and forward the bytes to the transport's
    /// command channel. A transport fault is propagated unchanged.
    pub fn send<DI: Transport>(self, iface: &mut DI) -> (r: Result<
        (),
        display_interface::DisplayError,
    >)
        ensures
            r is Ok ==> final(iface).log() == old(iface).log().push(
                TransportEvent::Cmd(self.spec_encode()),
            ),
            r is Err ==> final(iface).log() == old(iface).log(),
    {
        let (data, len) = self.encode();
        assert(self.spec_encode().len() <= 3);
        let bytes = vstd::slice::slice_subrange(data.as_slice(), 0, len);
        iface.send_commands(bytes)
    }
}

} // verus!
