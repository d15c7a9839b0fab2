//! Buffered drawing mode: a full-frame bitmap kept in memory, mutated
//! pixel by pixel, and flushed to the controller as one block transfer.
//!
//! The bitmap is row-major with 8 vertical pixels packed per byte: byte
//! index `(y / 8) * 128 + x`, bit index `y % 8`.

use vstd::prelude::*;

use crate::interface::{Transport, TransportEvent};
use crate::mode::BasicMode;
use crate::Ist7920;

verus! {

/// Number of bytes in the pixel buffer: one bit per pixel of the fixed
/// 128 x 128 resolution.
pub const BUFFER_LEN: usize = 128 * 128 / 8;

/// Width of the display in pixels.
pub const DISPLAY_WIDTH: u32 = 128;

/// Height of the display in pixels.
pub const DISPLAY_HEIGHT: u32 = 128;

/// Number of buffer bytes sent per data transfer by `flush`: the
/// transport's maximum single-transfer capability.
pub const CHUNK_LEN: usize = 64;

/// Buffered drawing mode state: the in-memory bitmap.
#[derive(Debug, Clone)]
pub struct BufferedGraphicsMode {
    buffer: [u8; BUFFER_LEN],
}

impl View for BufferedGraphicsMode {
    type V = Seq<u8>;

    /// The bytes of the bitmap.
    closed spec fn view(&self) -> Seq<u8> {
        self.buffer@
    }
}

impl BufferedGraphicsMode {
    /// Create a new buffered graphics mode instance, all pixels off.
    pub(crate) fn new() -> (r: Self)
        ensures
            r@ == all_pixels_off(),
    {
        let r = Self { buffer: [0; BUFFER_LEN] };
        proof {
            assert(r@ =~= all_pixels_off());
        }
        r
    }
}

/// The buffer contents with every pixel off.
pub open spec fn all_pixels_off() -> Seq<u8> {
    Seq::new(BUFFER_LEN as nat, |i: int| 0u8)
}

/// The byte of the bitmap that holds pixel `(x, y)`.
pub open spec fn pixel_index(x: u32, y: u32) -> int {
    (y as int) / 8 * 128 + x as int
}

/// `b` with bit `bit` set to `value` and every other bit unchanged.
pub open spec fn put_bit(b: u8, bit: u8, value: bool) -> u8
    recommends
        bit < 8,
{
    b & !(1u8 << bit) | (if value {
        1u8 << bit
    } else {
        0u8
    })
}

/// Whether bit `bit` of `b` is set.
pub open spec fn get_bit(b: u8, bit: u8) -> bool
    recommends
        bit < 8,
{
    (b >> bit) & 1 == 1
}

/// The buffer after a pixel write: the addressed bit is set to `value`
/// when the coordinates lie on the display and the byte index is within
/// the buffer, and the buffer is unchanged otherwise.
pub open spec fn spec_set_pixel(buf: Seq<u8>, x: u32, y: u32, value: bool) -> Seq<u8> {
    let idx = pixel_index(x, y);
    if x < DISPLAY_WIDTH && y < DISPLAY_HEIGHT && idx < buf.len() {
        buf.update(idx, put_bit(buf[idx], (y % 8) as u8, value))
    } else {
        buf
    }
}

/// Whether pixel `(x, y)` is on; off for coordinates off the display.
pub open spec fn spec_get_pixel(buf: Seq<u8>, x: u32, y: u32) -> bool {
    let idx = pixel_index(x, y);
    if x < DISPLAY_WIDTH && y < DISPLAY_HEIGHT && idx < buf.len() {
        get_bit(buf[idx], (y % 8) as u8)
    } else {
        false
    }
}

impl<DI: Transport> Ist7920<DI, BasicMode> {
    /// Switch the handle into the buffered drawing mode, with every
    /// pixel of the in-memory bitmap off.
    pub fn into_buffered_graphics_mode(self) -> (r: Ist7920<DI, BufferedGraphicsMode>)
        ensures
            r.log() == self.log(),
            r.buffer() == all_pixels_off(),
    {
        Ist7920 { interface: self.interface, mode: BufferedGraphicsMode::new() }
    }
}

impl<DI: Transport> Ist7920<DI, BufferedGraphicsMode> {
    /// The bytes of the in-memory bitmap.
    pub closed spec fn buffer(&self) -> Seq<u8> {
        self.mode@
    }

    /// Clear the display buffer. Does not touch the hardware: a
    /// subsequent `flush` is needed for any effect on the screen.
    pub fn clear(&mut self)
        ensures
            final(self).log() == old(self).log(),
            final(self).buffer() == all_pixels_off(),
    {
        self.mode = BufferedGraphicsMode::new();
    }

    /// Turn a pixel on or off in the buffer. Coordinates beyond the
    /// display bounds are a silent no-op; the call never fails. Does not
    /// touch the hardware.
    pub fn set_pixel(&mut self, x: u32, y: u32, value: bool)
        ensures
            final(self).log() == old(self).log(),
            final(self).buffer() == spec_set_pixel(old(self).buffer(), x, y, value),
    {
        if x < DISPLAY_WIDTH && y < DISPLAY_HEIGHT {
            let idx: usize = (y as usize) / 8 * 128 + (x as usize);
            let bit: u8 = (y % 8) as u8;
            let value_bit: u8 = if value {
                1
            } else {
                0
            };
            proof {
                assert(0u8 << bit == 0u8) by (bit_vector);
            }
            let byte = self.mode.buffer[idx];
            self.mode.buffer[idx] = byte & !(1u8 << bit) | (value_bit << bit);
        }
    }

    /// Write out the whole buffer to the display, in chunks of
    /// [`CHUNK_LEN`] bytes. The buffer itself is not modified: every
    /// flush is a full resync of the hardware to the in-memory bitmap.
    /// A transport fault aborts the transfer: what was sent is a strict
    /// prefix of the chunk transfers, and nothing else.
    pub fn flush(&mut self) -> (r: Result<(), display_interface::DisplayError>)
        ensures
            final(self).buffer() == old(self).buffer(),
            r is Ok ==> final(self).log() == old(self).log() + data_chunk_events(
                old(self).buffer(),
                CHUNK_LEN as nat,
            ),
            r is Err ==> exists|n: int|
                0 <= n < data_chunk_events(old(self).buffer(), CHUNK_LEN as nat).len()
                    && final(self).log() == old(self).log() + data_chunk_events(
                    old(self).buffer(),
                    CHUNK_LEN as nat,
                ).take(n),
    {
        Self::flush_buffer_chunks(&mut self.interface, self.mode.buffer.as_slice())
    }

    /// Send `buffer` on the data channel in chunks of [`CHUNK_LEN`]
    /// bytes; a transport fault aborts the transfer and is surfaced
    /// unchanged, with only a strict prefix of the chunk transfers sent.
    fn flush_buffer_chunks(iface: &mut DI, buffer: &[u8]) -> (r: Result<
        (),
        display_interface::DisplayError,
    >)
        ensures
            r is Ok ==> final(iface).log() == old(iface).log() + data_chunk_events(
                buffer@,
                CHUNK_LEN as nat,
            ),
            r is Err ==> exists|n: int|
                0 <= n < data_chunk_events(buffer@, CHUNK_LEN as nat).len() && final(iface).log()
                    == old(iface).log() + data_chunk_events(buffer@, CHUNK_LEN as nat).take(n),
    {
        let ghost k: nat = CHUNK_LEN as nat;
        proof {
            assert(buffer@.skip(0) =~= buffer@);
        }
        let mut i: usize = 0;
        while i < buffer.len()
            invariant
                i <= buffer@.len(),
                iface.log() + data_chunk_events(buffer@.skip(i as int), k) == old(iface).log()
                    + data_chunk_events(buffer@, k),
                old(iface).log().len() <= iface.log().len(),
                k == CHUNK_LEN as nat,
            decreases buffer@.len() - i,
        {
            let m: usize = if buffer.len() - i < CHUNK_LEN {
                buffer.len() - i
            } else {
                CHUNK_LEN
            };
            let chunk = vstd::slice::slice_subrange(buffer, i, i + m);
            proof {
                let rest = buffer@.skip(i as int);
                if rest.len() <= k {
                    assert(chunk@ =~= rest);
                    assert(buffer@.skip(i + m) =~= Seq::<u8>::empty());
                    assert(data_chunk_events(buffer@.skip(i + m), k)
                        == Seq::<TransportEvent>::empty());
                    assert(data_chunk_events(buffer@.skip(i as int), k) =~= seq![
                        TransportEvent::Data(chunk@),
                    ] + data_chunk_events(buffer@.skip(i + m), k));
                } else {
                    assert(chunk@ =~= rest.take(k as int));
                    assert(rest.skip(k as int) =~= buffer@.skip(i + m));
                    assert(data_chunk_events(buffer@.skip(i as int), k) =~= seq![
                        TransportEvent::Data(chunk@),
                    ] + data_chunk_events(buffer@.skip(i + m), k));
                }
            }
            let ghost pre_log = iface.log();
            match iface.send_data(chunk) {
                Ok(()) => (),
                Err(e) => {
                    proof {
                        let full = data_chunk_events(buffer@, k);
                        let rest = data_chunk_events(buffer@.skip(i as int), k);
                        let n = iface.log().len() - old(iface).log().len();
                        assert(rest.len() >= 1);
                        assert((iface.log() + rest).len() == iface.log().len() + rest.len());
                        assert((old(iface).log() + full).len() == old(iface).log().len()
                            + full.len());
                        assert(iface.log() + rest == old(iface).log() + full);
                        assert(n == full.len() - rest.len());
                        assert forall|j: int| 0 <= j < iface.log().len() implies iface.log()[j]
                            == (old(iface).log() + full)[j] by {
                            assert(iface.log()[j] == (iface.log() + rest)[j]);
                        }
                        assert(iface.log() =~= old(iface).log() + full.take(n));
                    }
                    return Err(e);
                },
            }
            proof {
                assert(iface.log() =~= pre_log + seq![TransportEvent::Data(chunk@)]);
                assert((pre_log + seq![TransportEvent::Data(chunk@)]) + data_chunk_events(
                    buffer@.skip(i + m),
                    k,
                ) =~= pre_log + data_chunk_events(buffer@.skip(i as int), k));
                assert(iface.log() + data_chunk_events(buffer@.skip(i + m), k) == old(
                    iface,
                ).log() + data_chunk_events(buffer@, k));
            }
            i = i + m;
        }
        proof {
            assert(buffer@.skip(i as int) =~= Seq::<u8>::empty());
            assert(data_chunk_events(buffer@.skip(i as int), k) =~= Seq::<
                TransportEvent,
            >::empty());
            assert(iface.log() + data_chunk_events(buffer@.skip(i as int), k) =~= iface.log());
        }
        Ok(())
    }
}

/// A pixel event from an external rendering layer: a position and a
/// monochrome color (`true` is on).
#[derive(Debug, Copy, Clone, PartialEq, Eq, Structural)]
pub struct PixelEvent {
    /// Horizontal position, leftmost column 0.
    pub x: i32,
    /// Vertical position, topmost row 0.
    pub y: i32,
    /// Whether the pixel is lit.
    pub on: bool,
}

/// Whether a pixel event falls inside the display's bounding box.
pub open spec fn event_in_bounds(p: PixelEvent) -> bool {
    &&& 0 <= p.x < DISPLAY_WIDTH
    &&& 0 <= p.y < DISPLAY_HEIGHT
}

/// The buffer after one pixel event: events outside the bounding box
/// are filtered out, the rest are pixel writes.
pub open spec fn apply_pixel_event(buf: Seq<u8>, p: PixelEvent) -> Seq<u8> {
    if event_in_bounds(p) {
        spec_set_pixel(buf, p.x as u32, p.y as u32, p.on)
    } else {
        buf
    }
}

/// The buffer after a sequence of pixel events, applied in order.
pub open spec fn apply_pixel_events(buf: Seq<u8>, events: Seq<PixelEvent>) -> Seq<u8>
    decreases events.len(),
{
    if events.len() == 0 {
        buf
    } else {
        apply_pixel_event(apply_pixel_events(buf, events.drop_last()), events.last())
    }
}

impl<DI: Transport> Ist7920<DI, BufferedGraphicsMode> {
    /// Apply a batch of externally produced pixel events to the buffer,
    /// in order, filtered to the display's bounding box. Touches only
    /// the buffer, never the hardware, and cannot fail.
    pub fn draw_iter(&mut self, pixels: &Vec<PixelEvent>) -> (r: Result<
        (),
        display_interface::DisplayError,
    >)
        ensures
            r is Ok,
            final(self).log() == old(self).log(),
            final(self).buffer() == apply_pixel_events(old(self).buffer(), pixels@),
    {
        let mut i: usize = 0;
        while i < pixels.len()
            invariant
                i <= pixels@.len(),
                self.log() == old(self).log(),
                self.buffer() == apply_pixel_events(old(self).buffer(), pixels@.take(i as int)),
            decreases pixels@.len() - i,
        {
            let p = pixels[i];
            if 0 <= p.x && p.x < DISPLAY_WIDTH as i32 && 0 <= p.y && p.y < DISPLAY_HEIGHT as i32 {
                self.set_pixel(p.x as u32, p.y as u32, p.on);
            }
            i = i + 1;
            proof {
                assert(pixels@.take(i as int).drop_last() =~= pixels@.take(i - 1));
                assert(pixels@.take(i as int).last() == pixels@[i - 1]);
            }
        }
        proof {
            assert(pixels@.take(pixels@.len() as int) =~= pixels@);
        }
        Ok(())
    }
}

/// Law: writing a pixel touches at most its own bit. Every other pixel
/// of the display reads the same after the write, and writing a pixel
/// on and then off leaves it off and restores the original buffer
/// whenever that pixel was off to begin with.
pub proof fn lemma_set_pixel_round_trip(buf: Seq<u8>, x: u32, y: u32)
    requires
        buf.len() == BUFFER_LEN,
        x < DISPLAY_WIDTH,
        y < DISPLAY_HEIGHT,
    ensures
        ({
            let twice = spec_set_pixel(spec_set_pixel(buf, x, y, true), x, y, false);
            &&& !spec_get_pixel(buf, x, y) ==> twice == buf
            &&& !spec_get_pixel(twice, x, y)
            &&& forall|x2: u32, y2: u32|
                x2 < DISPLAY_WIDTH && y2 < DISPLAY_HEIGHT && !(x2 == x && y2 == y)
                    ==> spec_get_pixel(twice, x2, y2) == spec_get_pixel(buf, x2, y2)
        }),
{
    let idx = pixel_index(x, y);
    assert(0 <= idx < buf.len());
    let b = buf[idx];
    let bit = (y % 8) as u8;
    let twice = spec_set_pixel(spec_set_pixel(buf, x, y, true), x, y, false);
    assert(bit < 8);
    assert(put_bit(put_bit(b, bit, true), bit, false) == b & !(1u8 << bit)) by (bit_vector);
    assert(!get_bit(b, bit) ==> b & !(1u8 << bit) == b) by (bit_vector);
    assert(!get_bit(b & !(1u8 << bit), bit)) by (bit_vector)
        requires
            bit < 8,
    ;
    assert(!spec_get_pixel(buf, x, y) ==> twice =~= buf);
    assert forall|x2: u32, y2: u32|
        x2 < DISPLAY_WIDTH && y2 < DISPLAY_HEIGHT && !(x2 == x && y2 == y) implies spec_get_pixel(
        twice,
        x2,
        y2,
    ) == spec_get_pixel(buf, x2, y2) by {
        let idx2 = pixel_index(x2, y2);
        assert(0 <= idx2 < buf.len());
        if idx2 != idx {
            assert(twice[idx2] == buf[idx2]);
        } else {
            assert(x2 == x && (y2 as int) / 8 == (y as int) / 8);
            assert(y2 != y);
            let bit2 = (y2 % 8) as u8;
            assert(bit2 != bit);
            assert(get_bit(b & !(1u8 << bit), bit2) == get_bit(b, bit2)) by (bit_vector)
                requires
                    bit < 8,
                    bit2 < 8,
                    bit2 != bit,
            ;
        }
    }
}

/// Law: a pixel write with either coordinate beyond the display bounds
/// leaves the buffer untouched.
pub proof fn lemma_set_pixel_out_of_bounds(buf: Seq<u8>, x: u32, y: u32, value: bool)
    requires
        x >= DISPLAY_WIDTH || y >= DISPLAY_HEIGHT,
    ensures
        spec_set_pixel(buf, x, y, value) == buf,
{
}

/// The data transfers that sending `bytes` in chunks of `k` bytes
/// produces: full chunks first, then the remainder, and nothing for an
/// empty buffer.
pub open spec fn data_chunk_events(bytes: Seq<u8>, k: nat) -> Seq<TransportEvent>
    decreases bytes.len(),
{
    if k == 0 || bytes.len() == 0 {
        Seq::empty()
    } else if bytes.len() <= k {
        seq![TransportEvent::Data(bytes)]
    } else {
        seq![TransportEvent::Data(bytes.take(k as int))] + data_chunk_events(
            bytes.skip(k as int),
            k,
        )
    }
}

/// The bytes carried by the data transfers among `events`, concatenated
/// in order.
pub open spec fn data_payload(events: Seq<TransportEvent>) -> Seq<u8>
    decreases events.len(),
{
    if events.len() == 0 {
        Seq::empty()
    } else {
        (match events.first() {
            TransportEvent::Data(b) => b,
            TransportEvent::Cmd(_) => Seq::empty(),
        }) + data_payload(events.drop_first())
    }
}

/// Law: a flush covers the buffer exactly. For any chunk size, the data
/// transfers of [`data_chunk_events`] carry every buffer byte once, in
/// order, with none omitted or duplicated, and their number is the least
/// that covers the buffer.
pub proof fn lemma_chunks_cover_buffer(bytes: Seq<u8>, k: nat)
    requires
        k > 0,
    ensures
        data_payload(data_chunk_events(bytes, k)) == bytes,
        data_chunk_events(bytes, k).len() == (bytes.len() + k - 1) / (k as int),
    decreases bytes.len(),
{
    let events = data_chunk_events(bytes, k);
    let len = bytes.len() as int;
    let ki = k as int;
    if bytes.len() == 0 {
        assert(data_payload(events) =~= bytes);
        vstd::arithmetic::div_mod::lemma_basic_div(ki - 1, ki);
    } else if bytes.len() <= k {
        assert(events.drop_first() =~= Seq::<TransportEvent>::empty());
        assert(data_payload(events.drop_first()) == Seq::<u8>::empty());
        assert(data_payload(events) == bytes + data_payload(events.drop_first()));
        assert(bytes + Seq::<u8>::empty() =~= bytes);
        vstd::arithmetic::div_mod::lemma_fundamental_div_mod_converse(
            len + ki - 1,
            ki,
            1,
            len - 1,
        );
    } else {
        lemma_chunks_cover_buffer(bytes.skip(ki), k);
        let tail = data_chunk_events(bytes.skip(ki), k);
        assert(events.first() == TransportEvent::Data(bytes.take(ki)));
        assert(events.drop_first() =~= tail);
        assert(data_payload(events) == bytes.take(ki) + data_payload(events.drop_first()));
        assert(data_payload(events.drop_first()) == data_payload(tail));
        assert(bytes.take(ki) + bytes.skip(ki) =~= bytes);

        let q = (len - 1) / ki;
        let r = (len - 1) % ki;
        vstd::arithmetic::div_mod::lemma_fundamental_div_mod(len - 1, ki);
        assert(0 <= r < ki);
        assert((q + 1) * ki == ki * q + ki) by (nonlinear_arith);
        vstd::arithmetic::div_mod::lemma_fundamental_div_mod_converse(
            len + ki - 1,
            ki,
            q + 1,
            r,
        );
        assert(tail.len() == (len - ki + ki - 1) / ki);
        assert((len - 1) / ki == q);
        assert(events.len() == 1 + tail.len());
    }
}

} // verus!
