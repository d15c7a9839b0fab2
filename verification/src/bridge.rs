//! Adapters that lift the bare capability traits — a raw bus, pin or
//! sleep with nothing stated — into the contract-carrying traits the
//! driver consumes.
//!
//! Each adapter owns the raw handle and a ghost history, and appends to
//! the history exactly the interactions the raw handle accepted. Foreign
//! bus and pin drivers implement the raw traits outside this crate and
//! are wrapped here.

use vstd::prelude::*;

use crate::interface::{
    Delay,
    OutputPin,
    RawBus,
    RawDelay,
    RawOutputPin,
    Transport,
    TransportEvent,
};

verus! {

/// A [`Transport`] backed by any [`RawBus`].
pub struct BusAdapter<B> {
    bus: B,
    history: Ghost<Seq<TransportEvent>>,
}

impl<B: RawBus> BusAdapter<B> {
    /// Wrap a raw bus as the driver's transport, with an empty transfer
    /// history.
    pub fn new(bus: B) -> (r: Self)
        ensures
            r.log() == Seq::<TransportEvent>::empty(),
    {
        BusAdapter { bus, history: Ghost(Seq::empty()) }
    }

    /// Give the wrapped bus back.
    pub fn release(self) -> B {
        self.bus
    }
}

impl<B: RawBus> Transport for BusAdapter<B> {
    closed spec fn log(&self) -> Seq<TransportEvent> {
        self.history@
    }

    fn send_commands(&mut self, bytes: &[u8]) -> (r: Result<
        (),
        display_interface::DisplayError,
    >) {
        let r = self.bus.raw_send_commands(bytes);
        if r.is_ok() {
            proof {
                self.history@ = self.history@.push(TransportEvent::Cmd(bytes@));
            }
        }
        r
    }

    fn send_data(&mut self, bytes: &[u8]) -> (r: Result<(), display_interface::DisplayError>) {
        let r = self.bus.raw_send_data(bytes);
        if r.is_ok() {
            proof {
                self.history@ = self.history@.push(TransportEvent::Data(bytes@));
            }
        }
        r
    }
}

/// An [`OutputPin`] backed by any [`RawOutputPin`].
pub struct PinAdapter<P> {
    pin: P,
    history: Ghost<Seq<bool>>,
}

impl<P: RawOutputPin> PinAdapter<P> {
    /// Wrap a raw pin as the driver's reset pin, with an empty
    /// transition history.
    pub fn new(pin: P) -> (r: Self)
        ensures
            r.levels() == Seq::<bool>::empty(),
    {
        PinAdapter { pin, history: Ghost(Seq::empty()) }
    }

    /// Give the wrapped pin back.
    pub fn release(self) -> P {
        self.pin
    }
}

impl<P: RawOutputPin> OutputPin for PinAdapter<P> {
    type Error = P::Error;

    closed spec fn levels(&self) -> Seq<bool> {
        self.history@
    }

    fn set_high(&mut self) -> (r: Result<(), P::Error>) {
        let r = self.pin.raw_set_high();
        if r.is_ok() {
            proof {
                self.history@ = self.history@.push(true);
            }
        }
        r
    }

    fn set_low(&mut self) -> (r: Result<(), P::Error>) {
        let r = self.pin.raw_set_low();
        if r.is_ok() {
            proof {
                self.history@ = self.history@.push(false);
            }
        }
        r
    }
}

/// A [`Delay`] backed by any [`RawDelay`].
pub struct DelayAdapter<D> {
    delay: D,
    history: Ghost<Seq<u8>>,
}

impl<D: RawDelay> DelayAdapter<D> {
    /// Wrap a raw sleep as the driver's delay, with an empty wait
    /// history.
    pub fn new(delay: D) -> (r: Self)
        ensures
            r.waits() == Seq::<u8>::empty(),
    {
        DelayAdapter { delay, history: Ghost(Seq::empty()) }
    }

    /// Give the wrapped delay back.
    pub fn release(self) -> D {
        self.delay
    }
}

impl<D: RawDelay> Delay for DelayAdapter<D> {
    closed spec fn waits(&self) -> Seq<u8> {
        self.history@
    }

    fn delay_ms(&mut self, ms: u8) {
        self.delay.raw_delay_ms(ms);
        proof {
            self.history@ = self.history@.push(ms);
        }
    }
}

} // verus!
