//! Adapter bridging [`PacketRadio`] (packet I/O) to byte-stream I/O.
//!
//! A byte-stream transport (designed for UART-like links) writes and reads
//! bytes; LoRa radios are packet-oriented. This adapter buffers writes and
//! flushes them as a single radio packet, and buffers a received packet so it
//! can be drained by reads.

use vstd::prelude::*;
use crate::radio::PacketRadio;

verus! {

/// Internal buffer size. Must be >= the largest packet that is written or
/// received (~40 bytes for a 32-byte payload).
pub const BUF_SIZE: usize = 64;

/// Error type for the adapter.
#[derive(Clone, Copy, Debug, PartialEq, Eq, Structural)]
pub enum IoError {
    /// The underlying radio operation failed.
    Radio,
    /// Write buffer overflow - packet too large.
    BufferFull,
}

/// What an adapter holds apart from its radio.
#[verifier::ext_equal]
pub struct IoView {
    /// Received bytes that have not been read yet.
    pub unread: Seq<u8>,
    /// Written bytes that have not been sent yet.
    pub unsent: Seq<u8>,
    pub last_rssi: i16,
    /// When the last packet was received, if any was.
    pub last_rx_ms: Option<u32>,
}

/// Bridges a [`PacketRadio`] to byte-stream reads and writes.
///
/// **Write side:** bytes are buffered; [`flush`](LoraIo::flush) transmits
/// them as a single radio packet.
///
/// **Read side:** [`read_ready`](LoraIo::read_ready) polls the radio for a
/// packet and buffers it; [`read`](LoraIo::read) drains from that buffer.
pub struct LoraIo<R: PacketRadio> {
    radio: R,
    rx_buf: [u8; BUF_SIZE],
    rx_len: usize,
    rx_pos: usize,
    last_rssi: i16,
    last_rx_ms: u32,
    have_rx: bool,
    tx_buf: [u8; BUF_SIZE],
    tx_len: usize,
}

impl<R: PacketRadio> View for LoraIo<R> {
    type V = IoView;

    closed spec fn view(&self) -> IoView {
        IoView {
            unread: self.rx_buf@.subrange(self.rx_pos as int, self.rx_len as int),
            unsent: self.tx_buf@.take(self.tx_len as int),
            last_rssi: self.last_rssi,
            last_rx_ms: if self.have_rx {
                Some(self.last_rx_ms)
            } else {
                None
            },
        }
    }
}

/// What looking for received bytes makes of an adapter: bytes that are left
/// over stay; otherwise the radio is asked, and `answer` is what it gave.
pub open spec fn filled<E>(
    before: IoView,
    answer: Result<Option<(Seq<u8>, i16)>, E>,
    now_ms: u32,
    r: Result<bool, IoError>,
    after: IoView,
) -> bool {
    if before.unread.len() > 0 {
        r == Ok::<bool, IoError>(true) && after == before
    } else {
        match answer {
            Ok(Some((bytes, rssi))) => {
                &&& r == Ok::<bool, IoError>(true)
                &&& after == (IoView {
                    unread: bytes,
                    last_rssi: rssi,
                    last_rx_ms: Some(now_ms),
                    ..before
                })
            },
            Ok(None) => r == Ok::<bool, IoError>(false) && after == before,
            Err(_) => r == Err::<bool, IoError>(IoError::Radio) && after == before,
        }
    }
}

/// What reading into `room` bytes makes of an adapter, and what is read.
pub open spec fn handed_out(v: IoView, room: nat) -> (IoView, Seq<u8>) {
    let n = if v.unread.len() < room {
        v.unread.len() as int
    } else {
        room as int
    };
    (IoView { unread: v.unread.skip(n), ..v }, v.unread.take(n))
}

/// What writing bytes makes of an adapter, and how many were taken.
pub open spec fn taken_up(v: IoView, bytes: Seq<u8>) -> (IoView, Result<usize, IoError>) {
    let space = BUF_SIZE - v.unsent.len();
    if space == 0 {
        (v, Err(IoError::BufferFull))
    } else {
        let n = if bytes.len() < space {
            bytes.len() as int
        } else {
            space
        };
        (IoView { unsent: v.unsent + bytes.take(n), ..v }, Ok(n as usize))
    }
}

/// What sending the written bytes makes of an adapter, where the radio took
/// the packet or not.
pub open spec fn sent_out(v: IoView, ok: bool) -> (IoView, Result<(), IoError>) {
    if ok {
        (IoView { unsent: Seq::empty(), ..v }, Ok(()))
    } else {
        (v, Err(IoError::Radio))
    }
}

/// The polls of the radio after looking for received bytes: the radio is asked
/// once, and only where none are left over.
pub open spec fn asked<R: PacketRadio>(before: LoraIo<R>, after: LoraIo<R>) -> Seq<
    Result<Option<(Seq<u8>, i16)>, R::Error>,
> {
    if before@.unread.len() > 0 {
        before.radio().polls()
    } else {
        before.radio().polls().push(after.radio().polls().last())
    }
}

/// Whether a packet that a poll gave is no longer than the buffer.
pub open spec fn fits_buffer<E>(answer: Result<Option<(Seq<u8>, i16)>, E>) -> bool {
    answer matches Ok(Some((bytes, _))) ==> bytes.len() <= BUF_SIZE
}

/// The room that the radio has been offered after looking for received bytes:
/// where it is asked, a whole buffer.
pub open spec fn offered<R: PacketRadio>(before: LoraIo<R>) -> Seq<nat> {
    if before@.unread.len() > 0 {
        before.radio().rooms()
    } else {
        before.radio().rooms().push(BUF_SIZE as nat)
    }
}

impl<R: PacketRadio> LoraIo<R> {
    pub closed spec fn wf(&self) -> bool {
        &&& self.rx_pos <= self.rx_len <= BUF_SIZE
        &&& self.tx_len <= BUF_SIZE
    }

    /// The radio inside.
    pub closed spec fn radio(&self) -> R {
        self.radio
    }

    /// Wrap a packet radio in the byte-stream adapter.
    pub fn new(radio: R) -> (io: Self)
        ensures
            io.wf(),
            io.radio() == radio,
            io@ == (IoView {
                unread: Seq::empty(),
                unsent: Seq::empty(),
                last_rssi: 0,
                last_rx_ms: None,
            }),
    {
        let io = LoraIo {
            radio,
            rx_buf: [0u8;BUF_SIZE],
            rx_len: 0,
            rx_pos: 0,
            last_rssi: 0,
            last_rx_ms: 0,
            have_rx: false,
            tx_buf: [0u8;BUF_SIZE],
            tx_len: 0,
        };
        assert(io@ =~= (IoView {
            unread: Seq::empty(),
            unsent: Seq::empty(),
            last_rssi: 0,
            last_rx_ms: None,
        }));
        io
    }

    /// RSSI of the last successfully received packet (dBm).
    pub fn last_rssi(&self) -> (r: i16)
        ensures
            r == self@.last_rssi,
    {
        self.last_rssi
    }

    /// When the last packet was received, or `None` if nothing has been
    /// received yet.
    pub fn last_rx_ms(&self) -> (r: Option<u32>)
        ensures
            r == self@.last_rx_ms,
    {
        if self.have_rx {
            Some(self.last_rx_ms)
        } else {
            None
        }
    }

    /// Record the RSSI and arrival time of a freshly received packet.
    pub fn note_rx(&mut self, rssi: i16, now_ms: u32)
        requires
            old(self).wf(),
        ensures
            final(self).wf(),
            final(self).radio() == old(self).radio(),
            final(self)@ == (IoView {
                last_rssi: rssi,
                last_rx_ms: Some(now_ms),
                ..old(self)@
            }),
    {
        self.last_rssi = rssi;
        self.last_rx_ms = now_ms;
        self.have_rx = true;
    }

    /// Borrow the inner radio for diagnostics or direct access.
    pub fn inner(&mut self) -> (r: &mut R)
        requires
            old(self).wf(),
        ensures
            *r == old(self).radio(),
            final(self).wf(),
            final(self).radio() == *final(r),
            final(self)@ == old(self)@,
    {
        &mut self.radio
    }

    /// Whether there are bytes to read, polling the radio for a packet where
    /// none are left over.
    pub fn read_ready(&mut self, now_ms: u32) -> (r: Result<bool, IoError>)
        requires
            old(self).wf(),
        ensures
            final(self).wf(),
            final(self).radio().sent() == old(self).radio().sent(),
            final(self).radio().polls() == asked(*old(self), *final(self)),
            final(self).radio().rooms() == offered(*old(self)),
            old(self)@.unread.len() == 0 ==> fits_buffer(final(self).radio().polls().last()),
            filled(
                old(self)@,
                final(self).radio().polls().last(),
                now_ms,
                r,
                final(self)@,
            ),
    {
        // Still have buffered data from a previous packet.
        if self.rx_pos < self.rx_len {
            return Ok(true);
        }
        let ghost before = self@;
        // Try to poll the radio for a new packet.
        match self.radio.poll_recv(&mut self.rx_buf) {
            Ok(Some((len, rssi))) => {
                self.rx_len = len;
                self.rx_pos = 0;
                let ghost bytes = self.rx_buf@.take(len as int);
                assert(self@ =~= (IoView { unread: bytes, ..before }));
                self.note_rx(rssi, now_ms);
                Ok(true)
            },
            Ok(None) => {
                assert(self@ =~= before);
                Ok(false)
            },
            Err(_) => {
                assert(self@ =~= before);
                Err(IoError::Radio)
            },
        }
    }

    /// Read received bytes into `buf`: what is left over of the last packet,
    /// or else the start of a new one, or nothing.
    pub fn read(&mut self, now_ms: u32, buf: &mut [u8]) -> (r: Result<usize, IoError>)
        requires
            old(self).wf(),
        ensures
            final(self).wf(),
            final(self).radio().sent() == old(self).radio().sent(),
            final(self).radio().polls() == asked(*old(self), *final(self)),
            final(self).radio().rooms() == offered(*old(self)),
            old(self)@.unread.len() == 0 ==> fits_buffer(final(self).radio().polls().last()),
            final(buf)@.len() == old(buf)@.len(),
            exists|ready: Result<bool, IoError>, mid: IoView|
                {
                    &&& #[trigger] filled(
                        old(self)@,
                        final(self).radio().polls().last(),
                        now_ms,
                        ready,
                        mid,
                    )
                    &&& match ready {
                        Err(e) => r == Err::<usize, IoError>(e) && final(self)@ == mid && final(buf)@ == old(buf)@,
                        Ok(false) => r == Ok::<usize, IoError>(0) && final(self)@ == mid && final(buf)@ == old(buf)@,
                        Ok(true) => {
                            let (after, bytes) = handed_out(mid, old(buf)@.len());
                            &&& r == Ok::<usize, IoError>(bytes.len() as usize)
                            &&& final(self)@ == after
                            &&& final(buf)@ == bytes + old(buf)@.skip(bytes.len() as int)
                        },
                    }
                },
    {
        let ghost before = buf@;
        let ready = self.read_ready(now_ms);
        let ghost mid = self@;
        match ready {
            Err(e) => {
                return Err(e);
            },
            Ok(false) => {
                return Ok(0);
            },
            Ok(true) => {},
        }
        let available: usize = self.rx_len - self.rx_pos;
        let n: usize = if available < buf.len() {
            available
        } else {
            buf.len()
        };
        let start: usize = self.rx_pos;
        let mut i: usize = 0;
        while i < n
            invariant
                i <= n <= buf@.len(),
                buf@.len() == before.len(),
                start + n <= BUF_SIZE,
                forall|j: int| 0 <= j < i ==> buf@[j] == self.rx_buf@[start + j],
                forall|j: int| i <= j < buf@.len() ==> buf@[j] == before[j],
            decreases n - i,
        {
            buf[i] = self.rx_buf[start + i];
            i = i + 1;
        }
        self.rx_pos = start + n;
        assert(self@ =~= (IoView { unread: mid.unread.skip(n as int), ..mid }));
        assert(buf@ =~= mid.unread.take(n as int) + before.skip(n as int));
        assert(filled(old(self)@, self.radio().polls().last(), now_ms, ready, mid));
        Ok(n)
    }

    /// Append bytes to the packet that the next flush sends, as many as fit.
    pub fn write(&mut self, buf: &[u8]) -> (r: Result<usize, IoError>)
        requires
            old(self).wf(),
        ensures
            final(self).wf(),
            final(self).radio() == old(self).radio(),
            (final(self)@, r) == taken_up(old(self)@, buf@),
    {
        let ghost before = self@;
        let space: usize = BUF_SIZE - self.tx_len;
        if space == 0 {
            return Err(IoError::BufferFull);
        }
        let n: usize = if buf.len() < space {
            buf.len()
        } else {
            space
        };
        let start: usize = self.tx_len;
        let mut i: usize = 0;
        while i < n
            invariant
                i <= n <= buf@.len(),
                start + n <= BUF_SIZE,
                self.radio == old(self).radio,
                self.rx_buf == old(self).rx_buf,
                self.rx_pos == old(self).rx_pos,
                self.rx_len == old(self).rx_len,
                self.tx_len == start,
                self.last_rssi == old(self).last_rssi,
                self.last_rx_ms == old(self).last_rx_ms,
                self.have_rx == old(self).have_rx,
                forall|j: int| 0 <= j < start ==> self.tx_buf@[j] == old(self).tx_buf@[j],
                forall|j: int| 0 <= j < i ==> self.tx_buf@[start + j] == buf@[j],
            decreases n - i,
        {
            self.tx_buf[start + i] = buf[i];
            i = i + 1;
        }
        self.tx_len = start + n;
        assert(self@ =~= (IoView { unsent: before.unsent + buf@.take(n as int), ..before }));
        Ok(n)
    }

    /// Send what was written as a single packet. A packet that the radio
    /// rejects stays for the next flush.
    pub fn flush(&mut self) -> (r: Result<(), IoError>)
        requires
            old(self).wf(),
        ensures
            final(self).wf(),
            if old(self)@.unsent.len() == 0 {
                r is Ok && final(self)@ == old(self)@ && final(self).radio() == old(self).radio()
            } else {
                let outcome = final(self).radio().sent().last().1;
                &&& final(self).radio().sent() == old(self).radio().sent().push(
                    (old(self)@.unsent, outcome),
                )
                &&& final(self).radio().polls() == old(self).radio().polls()
                &&& final(self).radio().rooms() == old(self).radio().rooms()
                &&& (final(self)@, r) == sent_out(old(self)@, outcome is Ok)
            },
    {
        if self.tx_len > 0 {
            let ghost before = self@;
            let packet = &self.tx_buf[0..self.tx_len];
            assert(packet@ =~= before.unsent);
            match self.radio.send(packet) {
                Ok(()) => {},
                Err(_) => {
                    assert(self@ =~= before);
                    return Err(IoError::Radio);
                },
            }
            self.tx_len = 0;
            assert(self@ =~= (IoView { unsent: Seq::empty(), ..before }));
        }
        Ok(())
    }
}

/// Reads give a packet byte by byte in its order: what is read and what is
/// left over are what there was, and as much is read as there is room for.
pub proof fn law_reads_lose_nothing(v: IoView, room: nat)
    ensures
        ({
            let (after, bytes) = handed_out(v, room);
            &&& bytes + after.unread == v.unread
            &&& bytes.len() <= room
            &&& bytes.len() == room || after.unread.len() == 0
            &&& after == (IoView { unread: after.unread, ..v })
        }),
{
    let (after, bytes) = handed_out(v, room);
    assert(bytes + after.unread =~= v.unread);
}

/// A packet is taken up whole, with its strength and its time, once what was
/// left over is read; before that the radio is not asked.
pub proof fn law_packets_come_one_by_one<E>(
    before: IoView,
    bytes: Seq<u8>,
    rssi: i16,
    now_ms: u32,
    ready: Result<bool, IoError>,
    after: IoView,
)
    requires
        filled::<E>(before, Ok(Some((bytes, rssi))), now_ms, ready, after),
    ensures
        ready == Ok::<bool, IoError>(true),
        before.unread.len() > 0 ==> after == before,
        before.unread.len() == 0 ==> after.unread == bytes && after.last_rssi == rssi
            && after.last_rx_ms == Some(now_ms) && after.unsent == before.unsent,
{
}

/// Written bytes go behind those before, as far as 64 fit: a write says how
/// many it took, and fails only where there is no room at all. A packet that
/// the radio took is gone, one that it did not is still there.
pub proof fn law_writes_are_kept_until_sent(v: IoView, bytes: Seq<u8>)
    requires
        v.unsent.len() <= 64,
    ensures
        v.unsent.len() == 64 ==> taken_up(v, bytes) == (
            v,
            Err::<usize, IoError>(IoError::BufferFull),
        ),
        v.unsent.len() < 64 ==> {
            let (after, r) = taken_up(v, bytes);
            &&& r matches Ok(n) && {
                &&& after.unsent == v.unsent + bytes.take(n as int)
                &&& n <= bytes.len()
                &&& v.unsent.len() + n <= 64
                &&& n == bytes.len() || v.unsent.len() + n == 64
            }
            &&& after == (IoView { unsent: after.unsent, ..v })
        },
        sent_out(v, true).0.unsent.len() == 0 && sent_out(v, true).1 is Ok,
        sent_out(v, true).0.unread == v.unread,
        sent_out(v, false) == (v, Err::<(), IoError>(IoError::Radio)),
{
}

} // verus!
