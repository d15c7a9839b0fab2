//! Display modes: the raw mode and the buffered drawing mode.

use vstd::prelude::*;

pub mod buffered_graphics;

pub use buffered_graphics::BufferedGraphicsMode;

use crate::interface::{Transport, TransportEvent};
use crate::{cmd_events, draw_area_commands, Ist7920};

verus! {

/// Raw drawing mode: no software framebuffer; the caller configures the
/// draw area and sends data itself.
#[derive(Debug, Copy, Clone)]
pub struct BasicMode;

/// The data transfers that clearing the whole screen produces: the full
/// frame of zero bytes, in blocks of four.
pub open spec fn clear_data_events() -> Seq<TransportEvent> {
    Seq::new(512, |i: int| TransportEvent::Data(seq![0u8, 0u8, 0u8, 0u8]))
}

/// Every transfer of a full-screen clear, in order: the draw-area
/// commands for the whole screen, then the zero-byte data blocks.
pub open spec fn clear_events() -> Seq<TransportEvent> {
    cmd_events(draw_area_commands((0, 0), (127, 127))) + clear_data_events()
}

impl<DI: Transport> Ist7920<DI, BasicMode> {
    /// Clear the display: select the whole screen as the draw area and
    /// send one full frame of zero bytes, exactly [`clear_events`]. A
    /// transport fault aborts the transfer: what was sent is a proper
    /// prefix of that sequence.
    pub fn clear(&mut self) -> (r: Result<(), display_interface::DisplayError>)
        ensures
            r is Ok ==> final(self).log() == old(self).log() + clear_events(),
            r is Err ==> exists|n: int|
                0 <= n < clear_events().len() && final(self).log() == old(self).log()
                    + clear_events().take(n),
    {
        match self.set_draw_area((0, 0), (127, 127)) {
            Ok(()) => (),
            Err(e) => {
                proof {
                    let m = choose|m: int|
                        0 <= m < 4 && self.log() == old(self).log() + cmd_events(
                            draw_area_commands((0, 0), (127, 127)).take(m),
                        );
                    assert(cmd_events(draw_area_commands((0, 0), (127, 127)).take(m))
                        =~= clear_events().take(m));
                    assert(self.log() =~= old(self).log() + clear_events().take(m));
                }
                return Err(e);
            },
        }

        let ghost mid: Seq<TransportEvent> = self.log();

        let zeros: [u8; 4] = [0x00, 0x00, 0x00, 0x00];
        let mut i: usize = 0;
        while i < 512
            invariant
                i <= 512,
                zeros@ == seq![0u8, 0u8, 0u8, 0u8],
                mid == old(self).log() + cmd_events(draw_area_commands((0, 0), (127, 127))),
                self.log() == mid + Seq::new(i as nat, |j: int| TransportEvent::Data(zeros@)),
            decreases 512 - i,
        {
            match self.draw(zeros.as_slice()) {
                Ok(()) => (),
                Err(e) => {
                    proof {
                        assert(self.log() =~= old(self).log() + clear_events().take(4 + i));
                    }
                    return Err(e);
                },
            }
            i = i + 1;
            proof {
                assert(self.log() =~= mid + Seq::new(
                    i as nat,
                    |j: int| TransportEvent::Data(zeros@),
                ));
            }
        }

        proof {
            assert(self.log() =~= old(self).log() + clear_events());
        }
        Ok(())
    }
}

} // verus!
