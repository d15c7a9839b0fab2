//! Driver for the IST7920 monochrome dot-matrix display controller.
//!
//! The driver encodes the controller's fixed-format instruction stream,
//! sequences hardware bring-up, and maintains an in-memory pixel buffer
//! that is flushed to the device over a command/data serial transport.
//!
//! Every contract is stated over the ghost histories of the consumed
//! capabilities (see [`interface`]): which command bytes, data bytes,
//! pin transitions and waits an operation performs, and in which order.

use vstd::prelude::*;

pub mod bridge;
pub mod command;
pub mod error;
pub mod interface;
pub mod mode;

use command::{Booster, Command};
use error::Error;
use interface::{Delay, OutputPin, Transport, TransportEvent};
use mode::BasicMode;

verus! {

/// The command transfers that a sequence of commands produces, in order.
pub open spec fn cmd_events(commands: Seq<Command>) -> Seq<TransportEvent> {
    commands.map_values(|c: Command| TransportEvent::Cmd(c.spec_encode()))
}

/// The fixed bring-up sequence, in the exact order the controller's
/// charge pump and bias generator require.
pub open spec fn init_commands() -> Seq<Command> {
    seq![
        Command::SWReset,
        Command::DisplayOn(false),
        Command::Duty(128),
        Command::Bias(16),
        Command::VoltageClock(0x3f),
        Command::PowerControl(0x20),
        Command::PowerControl(0x2c),
        Command::Booster(Booster::VddX3),
        Command::PowerControl(0x2f),
        Command::DisplayControl(false, true, false, false),
        Command::AYWindow(0x0, 0xf),
        Command::AXWindow(0x0, 0x7f),
        Command::StartLine(64),
        Command::AYAddress(0),
        Command::AXAddress(0),
        Command::Contrast(110),
        Command::DisplayOn(true),
    ]
}

/// The settling waits of the bring-up sequence, in milliseconds, in
/// order. They stand between the power stages of [`init_commands`].
pub open spec fn init_waits() -> Seq<u8> {
    seq![50u8, 100u8, 100u8, 100u8, 200u8]
}

/// How many of the settling waits of [`init_waits`] have been performed
/// once the first `n` commands of [`init_commands`] are sent: one after
/// the software reset and one after each of the four power stages.
pub open spec fn init_waits_done(n: int) -> int {
    if n < 1 {
        0
    } else if n < 6 {
        1
    } else if n < 7 {
        2
    } else if n < 8 {
        3
    } else if n < 9 {
        4
    } else {
        5
    }
}

/// The pin levels a reset drives, in order: high, low, high.
pub open spec fn reset_levels() -> Seq<bool> {
    seq![true, false, true]
}

/// The waits of a reset, in milliseconds, one after each pin
/// transition: the controller's minimum reset pulse widths.
pub open spec fn reset_waits() -> Seq<u8> {
    seq![1u8, 10u8, 20u8]
}

/// The commands that configure a draw area: addressing windows first,
/// then the write cursor. Row addressing is in bands of 8 pixels.
pub open spec fn draw_area_commands(start: (u8, u8), end: (u8, u8)) -> Seq<Command> {
    seq![
        Command::AYWindow(start.0 / 8, end.0 / 8),
        Command::AXWindow(start.0, end.0),
        Command::AXAddress(start.1),
        Command::AYAddress(start.0 / 8),
    ]
}

/// IST7920 LCD display driver.
///
/// Owns the transport exclusively; all communication with the device
/// passes through this handle in strict call order. `MODE` selects the
/// drawing strategy (raw [`mode::BasicMode`] or the in-memory
/// [`mode::BufferedGraphicsMode`]).
#[derive(Debug)]
pub struct Ist7920<DI, MODE> {
    interface: DI,
    mode: MODE,
}

impl<DI: Transport, MODE> Ist7920<DI, MODE> {
    /// The transfers the owned transport has accepted, oldest first.
    pub closed spec fn log(&self) -> Seq<TransportEvent> {
        self.interface.log()
    }

    /// The drawing-mode state of the handle.
    pub closed spec fn mode_state(&self) -> MODE {
        self.mode
    }

    /// Initialise the display: the fixed bring-up sequence of
    /// [`init_commands`], with the settling waits of [`init_waits`]
    /// between the power stages. A transport fault aborts the sequence
    /// and is surfaced unchanged: what was sent and waited is exactly a
    /// proper prefix of the sequence, and the controller is left in an
    /// undefined intermediate state.
    pub fn init<DELAY: Delay>(&mut self, delay: &mut DELAY) -> (r: Result<
        (),
        display_interface::DisplayError,
    >)
        ensures
            final(self).mode_state() == old(self).mode_state(),
            r is Ok ==> final(self).log() == old(self).log() + cmd_events(init_commands()),
            r is Ok ==> final(delay).waits() == old(delay).waits() + init_waits(),
            r is Err ==> exists|n: int|
                0 <= n < init_commands().len() && final(self).log() == old(self).log()
                    + cmd_events(init_commands().take(n)) && final(delay).waits() == old(
                    delay,
                ).waits() + init_waits().take(init_waits_done(n)),
    {
        match Command::SWReset.send(&mut self.interface) {
            Ok(()) => (),
            Err(e) => {
                proof {
                    assert(self.log() =~= old(self).log() + cmd_events(
                        init_commands().take(0),
                    ));
                    assert(delay.waits() =~= old(delay).waits() + init_waits().take(
                        init_waits_done(0),
                    ));
                }
                return Err(e);
            },
        }
        delay.delay_ms(50);
        match Command::DisplayOn(false).send(&mut self.interface) {
            Ok(()) => (),
            Err(e) => {
                proof {
                    assert(self.log() =~= old(self).log() + cmd_events(
                        init_commands().take(1),
                    ));
                    assert(delay.waits() =~= old(delay).waits() + init_waits().take(
                        init_waits_done(1),
                    ));
                }
                return Err(e);
            },
        }
        match Command::Duty(128).send(&mut self.interface) {
            Ok(()) => (),
            Err(e) => {
                proof {
                    assert(self.log() =~= old(self).log() + cmd_events(
                        init_commands().take(2),
                    ));
                    assert(delay.waits() =~= old(delay).waits() + init_waits().take(
                        init_waits_done(2),
                    ));
                }
                return Err(e);
            },
        }
        match Command::Bias(16).send(&mut self.interface) {
            Ok(()) => (),
            Err(e) => {
                proof {
                    assert(self.log() =~= old(self).log() + cmd_events(
                        init_commands().take(3),
                    ));
                    assert(delay.waits() =~= old(delay).waits() + init_waits().take(
                        init_waits_done(3),
                    ));
                }
                return Err(e);
            },
        }
        match Command::VoltageClock(0x3f).send(&mut self.interface) {
            Ok(()) => (),
            Err(e) => {
                proof {
                    assert(self.log() =~= old(self).log() + cmd_events(
                        init_commands().take(4),
                    ));
                    assert(delay.waits() =~= old(delay).waits() + init_waits().take(
                        init_waits_done(4),
                    ));
                }
                return Err(e);
            },
        }
        match Command::PowerControl(0x20).send(&mut self.interface) {
            Ok(()) => (),
            Err(e) => {
                proof {
                    assert(self.log() =~= old(self).log() + cmd_events(
                        init_commands().take(5),
                    ));
                    assert(delay.waits() =~= old(delay).waits() + init_waits().take(
                        init_waits_done(5),
                    ));
                }
                return Err(e);
            },
        }
        delay.delay_ms(100);
        match Command::PowerControl(0x2c).send(&mut self.interface) {
            Ok(()) => (),
            Err(e) => {
                proof {
                    assert(self.log() =~= old(self).log() + cmd_events(
                        init_commands().take(6),
                    ));
                    assert(delay.waits() =~= old(delay).waits() + init_waits().take(
                        init_waits_done(6),
                    ));
                }
                return Err(e);
            },
        }
        delay.delay_ms(100);
        match Command::Booster(Booster::VddX3).send(&mut self.interface) {
            Ok(()) => (),
            Err(e) => {
                proof {
                    assert(self.log() =~= old(self).log() + cmd_events(
                        init_commands().take(7),
                    ));
                    assert(delay.waits() =~= old(delay).waits() + init_waits().take(
                        init_waits_done(7),
                    ));
                }
                return Err(e);
            },
        }
        delay.delay_ms(100);
        match Command::PowerControl(0x2f).send(&mut self.interface) {
            Ok(()) => (),
            Err(e) => {
                proof {
                    assert(self.log() =~= old(self).log() + cmd_events(
                        init_commands().take(8),
                    ));
                    assert(delay.waits() =~= old(delay).waits() + init_waits().take(
                        init_waits_done(8),
                    ));
                }
                return Err(e);
            },
        }
        delay.delay_ms(200);
        match Command::DisplayControl(false, true, false, false).send(&mut self.interface) {
            Ok(()) => (),
            Err(e) => {
                proof {
                    assert(self.log() =~= old(self).log() + cmd_events(
                        init_commands().take(9),
                    ));
                    assert(delay.waits() =~= old(delay).waits() + init_waits().take(
                        init_waits_done(9),
                    ));
                }
                return Err(e);
            },
        }
        match Command::AYWindow(0x0, 0xf).send(&mut self.interface) {
            Ok(()) => (),
            Err(e) => {
                proof {
                    assert(self.log() =~= old(self).log() + cmd_events(
                        init_commands().take(10),
                    ));
                    assert(delay.waits() =~= old(delay).waits() + init_waits().take(
                        init_waits_done(10),
                    ));
                }
                return Err(e);
            },
        }
        match Command::AXWindow(0x0, 0x7f).send(&mut self.interface) {
            Ok(()) => (),
            Err(e) => {
                proof {
                    assert(self.log() =~= old(self).log() + cmd_events(
                        init_commands().take(11),
                    ));
                    assert(delay.waits() =~= old(delay).waits() + init_waits().take(
                        init_waits_done(11),
                    ));
                }
                return Err(e);
            },
        }
        match Command::StartLine(64).send(&mut self.interface) {
            Ok(()) => (),
            Err(e) => {
                proof {
                    assert(self.log() =~= old(self).log() + cmd_events(
                        init_commands().take(12),
                    ));
                    assert(delay.waits() =~= old(delay).waits() + init_waits().take(
                        init_waits_done(12),
                    ));
                }
                return Err(e);
            },
        }
        match Command::AYAddress(0).send(&mut self.interface) {
            Ok(()) => (),
            Err(e) => {
                proof {
                    assert(self.log() =~= old(self).log() + cmd_events(
                        init_commands().take(13),
                    ));
                    assert(delay.waits() =~= old(delay).waits() + init_waits().take(
                        init_waits_done(13),
                    ));
                }
                return Err(e);
            },
        }
        match Command::AXAddress(0).send(&mut self.interface) {
            Ok(()) => (),
            Err(e) => {
                proof {
                    assert(self.log() =~= old(self).log() + cmd_events(
                        init_commands().take(14),
                    ));
                    assert(delay.waits() =~= old(delay).waits() + init_waits().take(
                        init_waits_done(14),
                    ));
                }
                return Err(e);
            },
        }
        match Command::Contrast(110).send(&mut self.interface) {
            Ok(()) => (),
            Err(e) => {
                proof {
                    assert(self.log() =~= old(self).log() + cmd_events(
                        init_commands().take(15),
                    ));
                    assert(delay.waits() =~= old(delay).waits() + init_waits().take(
                        init_waits_done(15),
                    ));
                }
                return Err(e);
            },
        }
        match Command::DisplayOn(true).send(&mut self.interface) {
            Ok(()) => (),
            Err(e) => {
                proof {
                    assert(self.log() =~= old(self).log() + cmd_events(
                        init_commands().take(16),
                    ));
                    assert(delay.waits() =~= old(delay).waits() + init_waits().take(
                        init_waits_done(16),
                    ));
                }
                return Err(e);
            },
        }

        proof {
            assert(self.log() =~= old(self).log() + cmd_events(init_commands()));
            assert(delay.waits() =~= old(delay).waits() + init_waits());
        }
        Ok(())
    }

    /// Send a raw byte slice to the data channel unmodified. The caller
    /// is responsible for having configured the draw window first.
    pub fn draw(&mut self, buffer: &[u8]) -> (r: Result<(), display_interface::DisplayError>)
        ensures
            final(self).mode_state() == old(self).mode_state(),
            r is Ok ==> final(self).log() == old(self).log().push(TransportEvent::Data(buffer@)),
            r is Err ==> final(self).log() == old(self).log(),
    {
        self.interface.send_data(buffer)
    }

    /// Turn the display on or off. The display can be drawn to and
    /// retains all of its memory even while off.
    pub fn set_display_on(&mut self, on: bool) -> (r: Result<
        (),
        display_interface::DisplayError,
    >)
        ensures
            final(self).mode_state() == old(self).mode_state(),
            r is Ok ==> final(self).log() == old(self).log().push(
                TransportEvent::Cmd(Command::DisplayOn(on).spec_encode()),
            ),
            r is Err ==> final(self).log() == old(self).log(),
    {
        Command::DisplayOn(on).send(&mut self.interface)
    }

    /// Configure the rectangle that subsequent `draw` data lands in,
    /// and set the write cursor to its start. Issues exactly
    /// [`draw_area_commands`]: windows first, then cursor, an order some
    /// controller firmware revisions require. A transport fault aborts
    /// the sequence: what was sent is a proper prefix of it.
    pub fn set_draw_area(&mut self, start: (u8, u8), end: (u8, u8)) -> (r: Result<
        (),
        display_interface::DisplayError,
    >)
        ensures
            final(self).mode_state() == old(self).mode_state(),
            r is Ok ==> final(self).log() == old(self).log() + cmd_events(
                draw_area_commands(start, end),
            ),
            r is Err ==> exists|n: int|
                0 <= n < 4 && final(self).log() == old(self).log() + cmd_events(
                    draw_area_commands(start, end).take(n),
                ),
    {
        match Command::AYWindow(start.0 / 8, end.0 / 8).send(&mut self.interface) {
            Ok(()) => (),
            Err(e) => {
                proof {
                    assert(self.log() =~= old(self).log() + cmd_events(
                        draw_area_commands(start, end).take(0),
                    ));
                }
                return Err(e);
            },
        }
        match Command::AXWindow(start.0, end.0).send(&mut self.interface) {
            Ok(()) => (),
            Err(e) => {
                proof {
                    assert(self.log() =~= old(self).log() + cmd_events(
                        draw_area_commands(start, end).take(1),
                    ));
                }
                return Err(e);
            },
        }
        match Command::AXAddress(start.1).send(&mut self.interface) {
            Ok(()) => (),
            Err(e) => {
                proof {
                    assert(self.log() =~= old(self).log() + cmd_events(
                        draw_area_commands(start, end).take(2),
                    ));
                }
                return Err(e);
            },
        }
        match Command::AYAddress(start.0 / 8).send(&mut self.interface) {
            Ok(()) => (),
            Err(e) => {
                proof {
                    assert(self.log() =~= old(self).log() + cmd_events(
                        draw_area_commands(start, end).take(3),
                    ));
                }
                return Err(e);
            },
        }

        proof {
            assert(self.log() =~= old(self).log() + cmd_events(
                draw_area_commands(start, end),
            ));
        }
        Ok(())
    }

    /// Reset the display: drive the reset line high, low, high with
    /// waits of 1 ms, 10 ms and 20 ms after the transitions. These are
    /// minimum pulse widths of the controller's reset circuit. A pin
    /// fault is returned unmodified, wrapped as [`Error::Pin`].
    pub fn reset<RST, DELAY, PinE>(&mut self, rst: &mut RST, delay: &mut DELAY) -> (r: Result<
        (),
        Error<(), PinE>,
    >) where RST: OutputPin<Error = PinE>, DELAY: Delay
        ensures
            *final(self) == *old(self),
            r is Ok ==> final(rst).levels() == old(rst).levels() + reset_levels(),
            r is Ok ==> final(delay).waits() == old(delay).waits() + reset_waits(),
            r is Err ==> r->Err_0 is Pin,
            r is Err ==> exists|n: int|
                0 <= n < 3 && final(rst).levels() == old(rst).levels() + reset_levels().take(n)
                    && final(delay).waits() == old(delay).waits() + reset_waits().take(n),
    {
        inner_reset(rst, delay)
    }
}

impl<DI: Transport> Ist7920<DI, BasicMode> {
    /// Create an IST7920 driver handle owning `interface`, in the raw
    /// (unbuffered) drawing mode.
    pub fn new(interface: DI) -> (r: Self)
        ensures
            r.log() == interface.log(),
    {
        Self { interface, mode: BasicMode }
    }
}

fn inner_reset<RST, DELAY, PinE>(rst: &mut RST, delay: &mut DELAY) -> (r: Result<
    (),
    Error<(), PinE>,
>) where RST: OutputPin<Error = PinE>, DELAY: Delay
    ensures
        r is Ok ==> final(rst).levels() == old(rst).levels() + reset_levels(),
        r is Ok ==> final(delay).waits() == old(delay).waits() + reset_waits(),
        r is Err ==> r->Err_0 is Pin,
        r is Err ==> exists|n: int|
            0 <= n < 3 && final(rst).levels() == old(rst).levels() + reset_levels().take(n)
                && final(delay).waits() == old(delay).waits() + reset_waits().take(n),
{
    match rst.set_high() {
        Ok(()) => (),
        Err(e) => {
            proof {
                assert(rst.levels() =~= old(rst).levels() + reset_levels().take(0));
                assert(delay.waits() =~= old(delay).waits() + reset_waits().take(0));
            }
            return Err(Error::Pin(e));
        },
    }
    delay.delay_ms(1);
    match rst.set_low() {
        Ok(()) => (),
        Err(e) => {
            proof {
                assert(rst.levels() =~= old(rst).levels() + reset_levels().take(1));
                assert(delay.waits() =~= old(delay).waits() + reset_waits().take(1));
            }
            return Err(Error::Pin(e));
        },
    }
    delay.delay_ms(10);
    match rst.set_high() {
        Ok(()) => (),
        Err(e) => {
            proof {
                assert(rst.levels() =~= old(rst).levels() + reset_levels().take(2));
                assert(delay.waits() =~= old(delay).waits() + reset_waits().take(2));
            }
            return Err(Error::Pin(e));
        },
    }
    delay.delay_ms(20);

    proof {
        assert(rst.levels() =~= old(rst).levels() + reset_levels());
        assert(delay.waits() =~= old(delay).waits() + reset_waits());
    }
    Ok(())
}

} // verus!
