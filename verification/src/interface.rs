//! The capabilities the driver consumes: a write-only command/data
//! transport, a reset pin, and a blocking millisecond delay.
//!
//! Each trait carries a ghost history of the interactions the
//! implementation has accepted, so that callers can state exactly which
//! transfers, pin transitions and waits a driver operation performs.

use vstd::prelude::*;

verus! {

/// `display_interface::DisplayError` is the fault type a transport
/// reports. It is declared here so that verified signatures can carry
/// it; nothing is assumed about its values.
#[verifier::external_type_specification]
#[verifier::external_body]
pub struct ExDisplayError(display_interface::DisplayError);

/// One transfer accepted by the transport.
pub enum TransportEvent {
    /// Bytes accepted on the command channel.
    Cmd(Seq<u8>),
    /// Bytes accepted on the data channel.
    Data(Seq<u8>),
}

/// A write-only bus with separate command and data channels.
///
/// `log` is the implementation's model of the transfers it has accepted,
/// oldest first. A successful send appends exactly one event; a send
/// that reports a fault counts as not accepted and leaves the history
/// unchanged.
pub trait Transport: Sized {
    /// The transfers accepted so far, oldest first.
    spec fn log(&self) -> Seq<TransportEvent>;

    /// Send a batch of command bytes.
    fn send_commands(&mut self, bytes: &[u8]) -> (r: Result<(), display_interface::DisplayError>)
        ensures
            r is Ok ==> final(self).log() == old(self).log().push(
                TransportEvent::Cmd(bytes@),
            ),
            r is Err ==> final(self).log() == old(self).log(),
    ;

    /// Send a batch of pixel data bytes.
    fn send_data(&mut self, bytes: &[u8]) -> (r: Result<(), display_interface::DisplayError>)
        ensures
            r is Ok ==> final(self).log() == old(self).log().push(
                TransportEvent::Data(bytes@),
            ),
            r is Err ==> final(self).log() == old(self).log(),
    ;
}

/// A digital output pin, used for the hardware reset line.
///
/// `levels` is the history of levels the pin driver has accepted, oldest
/// first (`true` is high). A transition that reports a fault counts as
/// not accepted.
pub trait OutputPin: Sized {
    /// The pin driver's fault type.
    type Error;

    /// The levels driven so far, oldest first.
    spec fn levels(&self) -> Seq<bool>;

    /// Drive the pin high.
    fn set_high(&mut self) -> (r: Result<(), Self::Error>)
        ensures
            r is Ok ==> final(self).levels() == old(self).levels().push(true),
            r is Err ==> final(self).levels() == old(self).levels(),
    ;

    /// Drive the pin low.
    fn set_low(&mut self) -> (r: Result<(), Self::Error>)
        ensures
            r is Ok ==> final(self).levels() == old(self).levels().push(false),
            r is Err ==> final(self).levels() == old(self).levels(),
    ;
}

/// A blocking millisecond-granularity sleep.
///
/// `waits` is the history of sleep durations performed, oldest first.
pub trait Delay: Sized {
    /// The waits performed so far, in milliseconds, oldest first.
    spec fn waits(&self) -> Seq<u8>;

    /// Block for `ms` milliseconds.
    fn delay_ms(&mut self, ms: u8)
        ensures
            final(self).waits() == old(self).waits().push(ms),
    ;
}

/// A write-only bus as foreign bus drivers provide it: the same two
/// channels as [`Transport`], with nothing stated, so that code outside
/// this crate can implement it. [`crate::bridge::BusAdapter`] lifts such
/// a bus into a [`Transport`].
pub trait RawBus: Sized {
    /// Send a batch of command bytes.
    fn raw_send_commands(&mut self, bytes: &[u8]) -> Result<
        (),
        display_interface::DisplayError,
    >;

    /// Send a batch of pixel data bytes.
    fn raw_send_data(&mut self, bytes: &[u8]) -> Result<(), display_interface::DisplayError>;
}

/// A digital output pin as foreign pin drivers provide it, with nothing
/// stated. [`crate::bridge::PinAdapter`] lifts such a pin into an
/// [`OutputPin`].
pub trait RawOutputPin: Sized {
    /// The pin driver's fault type.
    type Error;

    /// Drive the pin high.
    fn raw_set_high(&mut self) -> Result<(), Self::Error>;

    /// Drive the pin low.
    fn raw_set_low(&mut self) -> Result<(), Self::Error>;
}

/// A blocking sleep as foreign timer drivers provide it, with nothing
/// stated. [`crate::bridge::DelayAdapter`] lifts such a sleep into a
/// [`Delay`].
pub trait RawDelay: Sized {
    /// Block for `ms` milliseconds.
    fn raw_delay_ms(&mut self, ms: u8);
}

} // verus!
