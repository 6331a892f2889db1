//! The incoming frame collector: consumes one byte at a time, resynchronizes
//! on bad framing, and reports when a complete frame sits in the buffer.

use vstd::prelude::*;
use crate::frame::START_HEADER_1;
use crate::frame::START_HEADER_2;
use crate::frame::checksum_ok;
use crate::frame::lemma_sum_bytes_bounds;
use crate::frame::sum_bytes;
use crate::transport::Step;
use crate::transport::Transport;

verus! {

broadcast use vstd::array::group_array_axioms;

/// Mathematical state of the collector: the byte offset the next wire byte
/// lands at, the declared payload length of the frame being collected, and
/// the buffer contents.
pub struct ReaderModel {
    /// Offset of the next byte within the frame being collected.
    pub cursor: int,
    /// Declared payload length of the frame being collected.
    pub length: int,
    /// The 36-byte buffer: four header bytes plus up to 32 payload and
    /// checksum bytes.
    pub data: Seq<u8>,
}

impl ReaderModel {
    /// The collector's invariant: the cursor stays inside the buffer, the
    /// declared length stays within its valid range, and every byte already
    /// collected for the current frame passed its framing check.
    pub open spec fn inv(self) -> bool {
        &&& self.data.len() == 36
        &&& 0 <= self.cursor <= 35
        &&& 0 <= self.length <= 32
        &&& self.cursor >= 5 ==> self.cursor <= self.length + 3
        &&& self.cursor >= 1 ==> self.data[0] == START_HEADER_1
        &&& self.cursor >= 2 ==> self.data[1] == START_HEADER_2
        &&& self.cursor >= 3 ==> self.data[2] == 0
        &&& self.cursor >= 4 ==> self.data[3] == self.length
    }
}

/// One step of the collector on one wire byte: the byte is stored at the
/// cursor, then the cursor advances, resets on a framing mismatch, or
/// resets while reporting a complete frame. The second component is true
/// exactly when this byte completed a frame.
pub open spec fn reader_step(m: ReaderModel, byte: u8) -> (ReaderModel, bool)
    recommends
        m.inv(),
{
    let d = m.data.update(m.cursor, byte);
    if m.cursor == 0 {
        if byte == START_HEADER_1 {
            (ReaderModel { cursor: 1, length: m.length, data: d }, false)
        } else {
            (ReaderModel { cursor: 0, length: m.length, data: d }, false)
        }
    } else if m.cursor == 1 {
        if byte == START_HEADER_2 {
            (ReaderModel { cursor: 2, length: m.length, data: d }, false)
        } else {
            (ReaderModel { cursor: 0, length: m.length, data: d }, false)
        }
    } else if m.cursor == 2 {
        if byte == 0 {
            (ReaderModel { cursor: 3, length: m.length, data: d }, false)
        } else {
            (ReaderModel { cursor: 0, length: m.length, data: d }, false)
        }
    } else if m.cursor == 3 {
        if byte <= 32 {
            (ReaderModel { cursor: 4, length: byte as int, data: d }, false)
        } else {
            (ReaderModel { cursor: 0, length: m.length, data: d }, false)
        }
    } else {
        if m.cursor >= m.length + 3 {
            (ReaderModel { cursor: 0, length: m.length, data: d }, true)
        } else {
            (ReaderModel { cursor: m.cursor + 1, length: m.length, data: d }, false)
        }
    }
}

/// Each step stores its byte at the old cursor and keeps the invariant; in
/// particular the cursor never leaves the 36-byte buffer, whatever arrives.
pub proof fn lemma_step_preserves_inv(m: ReaderModel, byte: u8)
    requires
        m.inv(),
    ensures
        reader_step(m, byte).0.inv(),
        reader_step(m, byte).0.data == m.data.update(m.cursor, byte),
        reader_step(m, byte).0.data.len() == 36,
{
}

/// A declared length over 32 makes the collector resynchronize: the cursor
/// resets, nothing completes, and the stored length keeps its valid value.
pub proof fn lemma_oversize_length_resets(m: ReaderModel, byte: u8)
    requires
        m.inv(),
        m.cursor == 3,
        byte > 32,
    ensures
        reader_step(m, byte).0.cursor == 0,
        reader_step(m, byte).0.length == m.length,
        !reader_step(m, byte).1,
        reader_step(m, byte).0.inv(),
{
}

/// A completing step leaves the collector reset at offset 0 with the frame's
/// four header bytes still in place and the declared length unchanged.
pub proof fn lemma_completion_shape(m: ReaderModel, byte: u8)
    requires
        m.inv(),
        reader_step(m, byte).1,
    ensures
        reader_step(m, byte).0.inv(),
        reader_step(m, byte).0.cursor == 0,
        reader_step(m, byte).0.length == m.length,
        reader_step(m, byte).0.data[0] == START_HEADER_1,
        reader_step(m, byte).0.data[1] == START_HEADER_2,
        reader_step(m, byte).0.data[2] == 0,
        reader_step(m, byte).0.data[3] == m.length,
{
}

/// The collector's state after consuming a whole sequence of bytes.
pub open spec fn feed(m: ReaderModel, s: Seq<u8>) -> ReaderModel
    decreases s.len(),
{
    if s.len() == 0 {
        m
    } else {
        feed(reader_step(m, s[0]).0, s.subrange(1, s.len() as int))
    }
}

/// Whether any byte of the sequence completes a frame while it is consumed.
pub open spec fn feed_completes(m: ReaderModel, s: Seq<u8>) -> bool
    decreases s.len(),
{
    if s.len() == 0 {
        false
    } else {
        reader_step(m, s[0]).1 || feed_completes(
            reader_step(m, s[0]).0,
            s.subrange(1, s.len() as int),
        )
    }
}

/// Consuming one more byte after a sequence is one more step.
pub proof fn lemma_feed_snoc(m: ReaderModel, s: Seq<u8>, byte: u8)
    ensures
        feed(m, s.push(byte)) == reader_step(feed(m, s), byte).0,
        feed_completes(m, s.push(byte)) == (feed_completes(m, s) || reader_step(
            feed(m, s),
            byte,
        ).1),
    decreases s.len(),
{
    if s.len() == 0 {
        assert(s.push(byte)[0] == byte);
        assert(s.push(byte).subrange(1, 1) =~= Seq::<u8>::empty());
        assert(feed(m, s) == m);
        assert(!feed_completes(m, s));
        assert(feed(reader_step(m, byte).0, Seq::<u8>::empty()) == reader_step(m, byte).0);
        assert(!feed_completes(reader_step(m, byte).0, Seq::<u8>::empty()));
        assert(feed(m, s.push(byte)) == feed(
            reader_step(m, byte).0,
            s.push(byte).subrange(1, 1),
        ));
    } else {
        assert(s.push(byte)[0] == s[0]);
        let m1 = reader_step(m, s[0]).0;
        let t = s.subrange(1, s.len() as int);
        assert(s.push(byte).subrange(1, s.push(byte).len() as int) =~= t.push(byte));
        assert(feed(m, s.push(byte)) == feed(m1, t.push(byte)));
        assert(feed(m, s) == feed(m1, t));
        assert(feed_completes(m, s.push(byte)) == (reader_step(m, s[0]).1 || feed_completes(
            m1,
            t.push(byte),
        )));
        assert(feed_completes(m, s) == (reader_step(m, s[0]).1 || feed_completes(m1, t)));
        lemma_feed_snoc(m1, t, byte);
    }
}

/// Consuming a concatenation is consuming the parts in turn.
pub proof fn lemma_feed_append(m: ReaderModel, a: Seq<u8>, b: Seq<u8>)
    ensures
        feed(m, a + b) == feed(feed(m, a), b),
        feed_completes(m, a + b) == (feed_completes(m, a) || feed_completes(feed(m, a), b)),
    decreases a.len(),
{
    if a.len() == 0 {
        assert(a + b =~= b);
    } else {
        assert((a + b)[0] == a[0]);
        assert((a + b).subrange(1, (a + b).len() as int) =~= a.subrange(1, a.len() as int) + b);
        lemma_feed_append(reader_step(m, a[0]).0, a.subrange(1, a.len() as int), b);
    }
}

/// The invariant survives any sequence of wire bytes.
pub proof fn lemma_feed_preserves_inv(m: ReaderModel, s: Seq<u8>)
    requires
        m.inv(),
    ensures
        feed(m, s).inv(),
    decreases s.len(),
{
    if s.len() > 0 {
        lemma_step_preserves_inv(m, s[0]);
        lemma_feed_preserves_inv(reader_step(m, s[0]).0, s.subrange(1, s.len() as int));
    }
}

/// While the collector scans at offset 0, bytes that are not the first magic
/// byte are discarded one by one: the cursor stays at 0, nothing completes,
/// and the declared length keeps its value.
pub proof fn lemma_noise_keeps_scanning(m: ReaderModel, s: Seq<u8>)
    requires
        m.inv(),
        m.cursor == 0,
        forall|i: int| 0 <= i < s.len() ==> s[i] != START_HEADER_1,
    ensures
        feed(m, s).inv(),
        feed(m, s).cursor == 0,
        feed(m, s).length == m.length,
        !feed_completes(m, s),
    decreases s.len(),
{
    if s.len() > 0 {
        assert(s[0] != START_HEADER_1);
        let m1 = reader_step(m, s[0]).0;
        lemma_step_preserves_inv(m, s[0]);
        assert(forall|i: int|
            0 <= i < s.len() - 1 ==> s.subrange(1, s.len() as int)[i] == s[i + 1]);
        lemma_noise_keeps_scanning(m1, s.subrange(1, s.len() as int));
    }
}

/// A well-formed wire frame: both magic bytes, a zero length high byte, a
/// declared length between 2 and 32, and exactly `length + 4` bytes in all,
/// so that the two checksum bytes close the frame. The collector also
/// completes degenerate frames with declared length 0 or 1, but the two
/// bytes it would then read back as their checksum overlap the fixed
/// header, whose sum they can never equal, so no such frame passes
/// `checksum_ok`; the lemmas below speak of frames that carry their
/// checksum after the payload.
pub open spec fn wf_frame(f: Seq<u8>) -> bool {
    &&& f.len() == f[3] + 4
    &&& f[0] == START_HEADER_1
    &&& f[1] == START_HEADER_2
    &&& f[2] == 0
    &&& 2 <= f[3] <= 32
}

/// Feeding the first `k` bytes of a well-formed frame into a scanning
/// collector advances the cursor in lockstep and copies the frame into the
/// buffer, with nothing completing before the last byte.
pub proof fn lemma_frame_prefix(m: ReaderModel, f: Seq<u8>, k: int)
    requires
        m.inv(),
        m.cursor == 0,
        wf_frame(f),
        0 <= k <= f.len() - 1,
    ensures
        feed(m, f.subrange(0, k)).inv(),
        feed(m, f.subrange(0, k)).cursor == k,
        feed(m, f.subrange(0, k)).data.subrange(0, k) == f.subrange(0, k),
        feed(m, f.subrange(0, k)).data.len() == 36,
        k >= 4 ==> feed(m, f.subrange(0, k)).length == f[3],
        k < 4 ==> feed(m, f.subrange(0, k)).length == m.length,
        !feed_completes(m, f.subrange(0, k)),
    decreases k,
{
    if k == 0 {
        assert(f.subrange(0, 0) =~= Seq::<u8>::empty());
        assert(feed(m, f.subrange(0, 0)).data.subrange(0, 0) =~= f.subrange(0, 0));
    } else {
        lemma_frame_prefix(m, f, k - 1);
        let prev = feed(m, f.subrange(0, k - 1));
        assert(f.subrange(0, k) =~= f.subrange(0, k - 1).push(f[k - 1]));
        lemma_feed_snoc(m, f.subrange(0, k - 1), f[k - 1]);
        assert(prev.data.subrange(0, k - 1) == f.subrange(0, k - 1));
        let cur = reader_step(prev, f[k - 1]).0;
        lemma_step_preserves_inv(prev, f[k - 1]);
        assert(cur.data =~= prev.data.update(k - 1, f[k - 1]));
        assert(cur.data.subrange(0, k) =~= f.subrange(0, k)) by {
            assert(forall|j: int|
                0 <= j < k - 1 ==> cur.data.subrange(0, k)[j] == prev.data.subrange(0, k - 1)[j]);
        }
    }
}

/// Feeding an arbitrary run of non-matching bytes and then one well-formed
/// frame into a scanning collector completes exactly on the frame's last
/// byte and leaves exactly that frame at the front of the buffer, with the
/// collector reset for the next frame.
pub proof fn lemma_resynchronization(m: ReaderModel, noise: Seq<u8>, f: Seq<u8>)
    requires
        m.inv(),
        m.cursor == 0,
        forall|i: int| 0 <= i < noise.len() ==> noise[i] != START_HEADER_1,
        wf_frame(f),
    ensures
        feed(m, noise + f).inv(),
        feed(m, noise + f).cursor == 0,
        feed(m, noise + f).length == f[3],
        feed(m, noise + f).data.subrange(0, f.len() as int) == f,
        feed_completes(m, noise + f),
        !feed_completes(m, noise + f.subrange(0, f.len() - 1)),
{
    lemma_noise_keeps_scanning(m, noise);
    let m0 = feed(m, noise);
    lemma_feed_append(m, noise, f);
    lemma_feed_append(m, noise, f.subrange(0, f.len() - 1));
    lemma_frame_prefix(m0, f, f.len() - 1);
    let pre = feed(m0, f.subrange(0, f.len() - 1));
    assert(f =~= f.subrange(0, f.len() - 1).push(f.last()));
    lemma_feed_snoc(m0, f.subrange(0, f.len() - 1), f.last());
    assert(reader_step(pre, f.last()).1);
    let fin = reader_step(pre, f.last()).0;
    lemma_step_preserves_inv(pre, f.last());
    assert(fin.data.subrange(0, f.len() as int) =~= f) by {
        assert(pre.data.subrange(0, f.len() - 1) == f.subrange(0, f.len() - 1));
        assert(forall|j: int|
            0 <= j < f.len() - 1 ==> fin.data[j] == pre.data.subrange(0, f.len() - 1)[j]);
    }
}

/// The collector itself: a cursor, the declared payload length, and the
/// fixed buffer. Four header bytes plus up to 32 payload and checksum bytes
/// give the 36-byte worst case the invariant protects.
pub struct SensorReader {
    byte_offset: u8,
    length: u8,
    data: [u8; 36],
}

impl View for SensorReader {
    type V = ReaderModel;

    closed spec fn view(&self) -> ReaderModel {
        ReaderModel {
            cursor: self.byte_offset as int,
            length: self.length as int,
            data: self.data@,
        }
    }
}

impl SensorReader {
    /// Consume one wire byte; true exactly when this byte completed a frame.
    /// The collector follows `reader_step` to the letter.
    pub fn accept(&mut self, byte: u8) -> (done: bool)
        requires
            old(self)@.inv(),
        ensures
            final(self)@.inv(),
            reader_step(old(self)@, byte) == (final(self)@, done),
    {
        let offset = self.byte_offset;
        self.data[offset as usize] = byte;
        if offset == 0 {
            self.byte_offset = if byte == START_HEADER_1 {
                1
            } else {
                0
            };
            false
        } else if offset == 1 {
            self.byte_offset = if byte == START_HEADER_2 {
                2
            } else {
                0
            };
            false
        } else if offset == 2 {
            self.byte_offset = if byte == 0 {
                3
            } else {
                0
            };
            false
        } else if offset == 3 {
            if byte <= 32 {
                self.length = byte;
                self.byte_offset = 4;
            } else {
                self.byte_offset = 0;
            }
            false
        } else {
            if offset >= self.length + 3 {
                self.byte_offset = 0;
                true
            } else {
                self.byte_offset = offset + 1;
                false
            }
        }
    }

    /// Try to take one byte from the transport and consume it.
    pub fn fill_data<E, S: Transport<E>>(&mut self, serial: &mut S) -> (r: Step<(), E>)
        requires
            old(self)@.inv(),
        ensures
            final(self)@.inv(),
            r matches Step::Complete(_) ==> exists|b: u8|
                reader_step(old(self)@, b) == (final(self)@, true),
            r matches Step::Pending ==> final(self)@ == old(self)@ || exists|b: u8|
                reader_step(old(self)@, b) == (final(self)@, false),
            r matches Step::Failed(_) ==> final(self)@ == old(self)@,
    {
        match serial.read() {
            Step::Complete(b) => {
                let done = self.accept(b);
                if done {
                    assert(reader_step(old(self)@, b) == (final(self)@, true));
                    Step::Complete(())
                } else {
                    assert(reader_step(old(self)@, b) == (final(self)@, false));
                    Step::Pending
                }
            }
            Step::Pending => Step::Pending,
            Step::Failed(e) => Step::Failed(e),
        }
    }

    /// Check the collected frame: the sum of the bytes from the first magic
    /// byte through the last payload byte must equal the two big-endian
    /// checksum bytes right after them. A mismatch only means "frame not
    /// ready"; it is never an error.
    pub fn validate_data(&self) -> (r: bool)
        requires
            self@.inv(),
        ensures
            r == checksum_ok(self@.data, self@.length),
    {
        let count = self.length as usize + 2;
        let mut sum: u16 = 0;
        let mut i: usize = 0;
        while i < count
            invariant
                self@.inv(),
                count == self@.length + 2,
                0 <= i <= count,
                sum == sum_bytes(self@.data.subrange(0, i as int)),
            decreases count - i,
        {
            proof {
                lemma_sum_bytes_bounds(self@.data.subrange(0, i as int));
                assert(self@.data.subrange(0, i + 1).drop_last() =~= self@.data.subrange(
                    0,
                    i as int,
                ));
            }
            sum = sum + (self.data[i] as u16);
            i = i + 1;
        }
        let hi = self.data[self.length as usize + 2];
        let lo = self.data[self.length as usize + 3];
        let checksum = (hi as u16) * 256 + (lo as u16);
        checksum == sum
    }

    /// Copy of the first 32 buffered bytes: the window the measurement
    /// decoder reads.
    pub fn frame_window(&self) -> (w: [u8; 32])
        requires
            self@.inv(),
        ensures
            w@ == self@.data.subrange(0, 32),
    {
        let mut w: [u8; 32] = [0; 32];
        let mut i: usize = 0;
        while i < 32
            invariant
                0 <= i <= 32,
                self@.inv(),
                w@.len() == 32,
                forall|j: int| 0 <= j < i ==> w@[j] == self@.data[j],
            decreases 32 - i,
        {
            w[i] = self.data[i];
            i = i + 1;
        }
        proof {
            assert(w@ =~= self@.data.subrange(0, 32));
        }
        w
    }
}

impl Default for SensorReader {
    /// A collector scanning for the first magic byte of its first frame.
    fn default() -> (r: Self)
        ensures
            r@.inv(),
            r@.cursor == 0,
            r@.length == 0,
    {
        SensorReader { byte_offset: 0, length: 0, data: [0; 36] }
    }
}

} // verus!
