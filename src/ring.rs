//! Bounded, sequence-numbered buffer of terminal output, used to replay what a
//! client missed while it was away.

use std::collections::VecDeque;
use std::time::Instant;
use vstd::prelude::*;

use crate::clock::{clock_origin, millis_since};

verus! {

broadcast use vstd::std_specs::vecdeque::group_vec_dequeue_axioms;

/// Milliseconds that must pass between two truncation notices of one buffer.
pub const TRUNCATION_NOTICE_INTERVAL_MS: u64 = 1000;

/// One chunk of terminal output with its sequence number.
#[derive(Debug, Clone)]
pub struct OutputFrame {
    /// Position of this frame in the output of its buffer; never reused.
    pub seq: u64,
    /// Milliseconds since the buffer was created, when the frame was captured.
    pub timestamp: u64,
    /// Raw output bytes.
    pub data: Vec<u8>,
}

/// What a frame holds, as plain values.
pub struct FrameView {
    pub seq: u64,
    pub timestamp: u64,
    pub data: Seq<u8>,
}

impl View for OutputFrame {
    type V = FrameView;

    open spec fn view(&self) -> FrameView {
        FrameView { seq: self.seq, timestamp: self.timestamp, data: self.data@ }
    }
}

impl OutputFrame {
    /// A frame with the same sequence number, timestamp and bytes.
    pub fn duplicate(&self) -> (r: OutputFrame)
        ensures
            r@ == self@,
    {
        let mut data: Vec<u8> = Vec::new();
        let mut i: usize = 0;
        while i < self.data.len()
            invariant
                i <= self.data@.len(),
                data@ == self.data@.take(i as int),
            decreases self.data@.len() - i,
        {
            data.push(self.data[i]);
            i = i + 1;
            assert(data@ =~= self.data@.take(i as int));
        }
        assert(data@ =~= self.data@);
        OutputFrame { seq: self.seq, timestamp: self.timestamp, data }
    }
}

/// Outcome of a push.
#[derive(Debug, Clone, PartialEq, Eq, Structural)]
pub enum PushResult {
    /// The frame was stored and no notice is due.
    Stored,
    /// The frame was stored after older frames were evicted; the caller should
    /// tell subscribers that output was lost.
    Truncated { frames_dropped: u64 },
}

/// Counters of a ring buffer.
#[derive(Debug, Clone, Default)]
pub struct RingMetrics {
    pub frame_count: usize,
    pub byte_count: usize,
    pub drops: u64,
    pub truncations: u64,
    pub current_seq: u64,
}

/// Sum of the frame lengths.
pub open spec fn total_bytes(s: Seq<FrameView>) -> nat
    decreases s.len(),
{
    if s.len() == 0 {
        0
    } else {
        s[0].data.len() + total_bytes(s.skip(1))
    }
}

/// Whether a frame of `len` bytes can be appended to `s` without breaking
/// either cap.
pub open spec fn room_for(s: Seq<FrameView>, len: nat, max_bytes: nat, max_frames: nat) -> bool {
    total_bytes(s) + len <= max_bytes && s.len() < max_frames
}

/// How many of the oldest frames must go before a frame of `len` bytes is
/// appended: frames leave from the front until there is room or none is left.
pub open spec fn evictions(s: Seq<FrameView>, len: nat, max_bytes: nat, max_frames: nat) -> nat
    decreases s.len(),
{
    if s.len() == 0 || room_for(s, len, max_bytes, max_frames) {
        0
    } else {
        1 + evictions(s.skip(1), len, max_bytes, max_frames)
    }
}

/// Sequence numbers strictly increase along `s`.
pub open spec fn seqs_increasing(s: Seq<FrameView>) -> bool {
    forall|i: int, j: int| 0 <= i < j < s.len() ==> #[trigger] s[i].seq < #[trigger] s[j].seq
}

/// A truncation notice may be sent at `now` when none was sent before, or
/// the last one is at least the notice interval old.
pub open spec fn notice_due(last: Option<u64>, now: u64) -> bool {
    match last {
        None => true,
        Some(t) => t <= now && now - t >= TRUNCATION_NOTICE_INTERVAL_MS,
    }
}

/// The frames of `s` whose sequence number is above `watermark`, in order.
pub open spec fn frames_after(s: Seq<FrameView>, watermark: u64) -> Seq<FrameView>
    decreases s.len(),
{
    if s.len() == 0 {
        Seq::empty()
    } else {
        let rest = frames_after(s.drop_last(), watermark);
        if s.last().seq > watermark {
            rest.push(s.last())
        } else {
            rest
        }
    }
}

pub open spec fn min_nat(a: nat, b: nat) -> nat {
    if a <= b {
        a
    } else {
        b
    }
}

proof fn lemma_total_bytes_push(s: Seq<FrameView>, f: FrameView)
    ensures
        total_bytes(s.push(f)) == total_bytes(s) + f.data.len(),
    decreases s.len(),
{
    if s.len() == 0 {
        assert(s.push(f).skip(1) =~= Seq::<FrameView>::empty());
        assert(total_bytes(s.push(f).skip(1)) == 0);
    } else {
        assert(s.push(f).skip(1) =~= s.skip(1).push(f));
        assert(s.push(f)[0] == s[0]);
        lemma_total_bytes_push(s.skip(1), f);
    }
}

proof fn lemma_frames_after_bounded(s: Seq<FrameView>, watermark: u64)
    ensures
        frames_after(s, watermark).len() <= s.len(),
        forall|i: int|
            0 <= i < frames_after(s, watermark).len() ==> (#[trigger] frames_after(
                s,
                watermark,
            )[i]).seq > watermark,
        forall|i: int|
            0 <= i < frames_after(s, watermark).len() ==> exists|j: int|
                0 <= j < s.len() && s[j] == #[trigger] frames_after(s, watermark)[i],
    decreases s.len(),
{
    if s.len() > 0 {
        lemma_frames_after_bounded(s.drop_last(), watermark);
        let rest = frames_after(s.drop_last(), watermark);
        assert forall|i: int|
            0 <= i < frames_after(s, watermark).len() implies exists|j: int|
                0 <= j < s.len() && s[j] == #[trigger] frames_after(s, watermark)[i] by {
            if i < rest.len() {
                let j = choose|j: int| 0 <= j < s.drop_last().len() && s.drop_last()[j] == rest[i];
                assert(s[j] == frames_after(s, watermark)[i]);
            } else {
                assert(s[s.len() - 1] == frames_after(s, watermark)[i]);
            }
        }
    }
}

proof fn lemma_frames_after_increasing(s: Seq<FrameView>, watermark: u64)
    requires
        seqs_increasing(s),
    ensures
        seqs_increasing(frames_after(s, watermark)),
    decreases s.len(),
{
    if s.len() > 0 {
        let p = s.drop_last();
        assert(seqs_increasing(p));
        lemma_frames_after_increasing(p, watermark);
        lemma_frames_after_bounded(p, watermark);
        let rest = frames_after(p, watermark);
        if s.last().seq > watermark {
            let r = rest.push(s.last());
            assert forall|i: int, j: int| 0 <= i < j < r.len() implies #[trigger] r[i].seq
                < #[trigger] r[j].seq by {
                if j < rest.len() {
                    assert(r[i] == rest[i] && r[j] == rest[j]);
                } else {
                    let k = choose|k: int| 0 <= k < p.len() && p[k] == #[trigger] rest[i];
                    assert(s[k] == p[k]);
                    assert(s[k].seq < s[s.len() - 1].seq);
                }
            }
        }
    }
}

/// The frames after a watermark in a prefix of `s` are a prefix of those in `s`.
proof fn lemma_frames_after_prefix(s: Seq<FrameView>, i: int, watermark: u64)
    requires
        0 <= i <= s.len(),
    ensures
        frames_after(s.take(i), watermark).len() <= frames_after(s, watermark).len(),
        frames_after(s.take(i), watermark) =~= frames_after(s, watermark).take(
            frames_after(s.take(i), watermark).len() as int,
        ),
    decreases s.len() - i,
{
    if i < s.len() {
        lemma_frames_after_prefix(s, i + 1, watermark);
        assert(s.take(i + 1).drop_last() =~= s.take(i));
    } else {
        assert(s.take(i) =~= s);
    }
}

/// Bounded FIFO of output frames, capped by total bytes and by frame count;
/// the oldest frames are evicted to make room.
pub struct RingBuffer {
    next_seq: u64,
    max_bytes: usize,
    max_frames: usize,
    current_bytes: usize,
    frames: VecDeque<OutputFrame>,
    drops: u64,
    truncations: u64,
    last_truncation_notice: Option<u64>,
    origin: Instant,
}

impl RingBuffer {
    /// The stored frames, oldest first.
    pub closed spec fn frames(&self) -> Seq<FrameView> {
        self.frames@.map_values(|f: OutputFrame| f@)
    }

    /// Total length of the stored frames.
    pub closed spec fn byte_count(&self) -> nat {
        self.current_bytes as nat
    }

    pub closed spec fn max_bytes(&self) -> nat {
        self.max_bytes as nat
    }

    pub closed spec fn max_frames(&self) -> nat {
        self.max_frames as nat
    }

    /// Sequence number the next pushed frame gets.
    pub closed spec fn next_seq(&self) -> u64 {
        self.next_seq
    }

    /// Frames evicted so far.
    pub closed spec fn drops(&self) -> u64 {
        self.drops
    }

    /// Truncation notices handed out so far.
    pub closed spec fn truncations(&self) -> u64 {
        self.truncations
    }

    /// Time of the last truncation notice, if any.
    pub closed spec fn last_notice(&self) -> Option<u64> {
        self.last_truncation_notice
    }

    /// Both caps hold.
    pub open spec fn within_caps(&self) -> bool {
        &&& self.byte_count() <= self.max_bytes()
        &&& self.frames().len() <= self.max_frames()
    }

    pub closed spec fn wf(&self) -> bool {
        &&& self.current_bytes as nat == total_bytes(self.frames())
        &&& seqs_increasing(self.frames())
        &&& forall|i: int|
            0 <= i < self.frames().len() ==> #[trigger] self.frames()[i].seq < self.next_seq
        &&& self.drops as nat + self.frames().len() <= self.next_seq as nat
        &&& self.truncations <= self.next_seq
    }

    /// What `drain_since(watermark, max_count)` returns is in strictly
    /// ascending sequence order, holds only frames above the watermark, and
    /// has at most `max_count` frames.
    pub proof fn lemma_drain_since_ordered(&self, watermark: u64, max_count: usize)
        requires
            self.wf(),
        ensures
            ({
                let after = frames_after(self.frames(), watermark);
                let d = after.take(min_nat(after.len(), max_count as nat) as int);
                &&& seqs_increasing(d)
                &&& forall|i: int| 0 <= i < d.len() ==> (#[trigger] d[i]).seq > watermark
                &&& d.len() <= max_count
            }),
    {
        let after = frames_after(self.frames(), watermark);
        lemma_frames_after_increasing(self.frames(), watermark);
        lemma_frames_after_bounded(self.frames(), watermark);
        let d = after.take(min_nat(after.len(), max_count as nat) as int);
        assert forall|i: int| 0 <= i < d.len() implies (#[trigger] d[i]).seq > watermark by {
            assert(d[i] == after[i]);
        }
        assert forall|i: int, j: int| 0 <= i < j < d.len() implies #[trigger] d[i].seq
            < #[trigger] d[j].seq by {
            assert(d[i] == after[i] && d[j] == after[j]);
        }
    }

    /// An empty buffer with the given caps.
    pub fn new(max_bytes: usize, max_frames: usize) -> (r: RingBuffer)
        ensures
            r.wf(),
            r.frames() == Seq::<FrameView>::empty(),
            r.byte_count() == 0,
            r.max_bytes() == max_bytes,
            r.max_frames() == max_frames,
            r.next_seq() == 0,
            r.drops() == 0,
            r.truncations() == 0,
            r.last_notice() == None::<u64>,
    {
        let r = RingBuffer {
            next_seq: 0,
            max_bytes,
            max_frames,
            current_bytes: 0,
            frames: VecDeque::new(),
            drops: 0,
            truncations: 0,
            last_truncation_notice: None,
            origin: clock_origin(),
        };
        assert(r.frames() =~= Seq::<FrameView>::empty());
        r
    }

    /// Stores `data` as the next frame, stamped with the buffer's clock.
    pub fn push(&mut self, data: Vec<u8>) -> (r: PushResult)
        requires
            old(self).wf(),
            old(self).next_seq() < u64::MAX,
        ensures
            final(self).wf(),
            exists|now: u64| Self::pushed(*old(self), data@, now, *final(self), r),
            data@.len() <= old(self).max_bytes() && old(self).max_frames() >= 1
                ==> final(self).within_caps(),
    {
        let now = millis_since(&self.origin);
        self.push_at(data, now)
    }

    /// `after` and `r` are what pushing `data` at time `now` onto `before` gives.
    pub open spec fn pushed(
        before: RingBuffer,
        data: Seq<u8>,
        now: u64,
        after: RingBuffer,
        r: PushResult,
    ) -> bool {
        let k = evictions(before.frames(), data.len(), before.max_bytes(), before.max_frames());
        let notify = k > 0 && notice_due(before.last_notice(), now);
        &&& after.frames() == before.frames().skip(k as int).push(
            FrameView { seq: before.next_seq(), timestamp: now, data },
        )
        &&& after.max_bytes() == before.max_bytes()
        &&& after.max_frames() == before.max_frames()
        &&& after.next_seq() == before.next_seq() + 1
        &&& after.drops() == before.drops() + k
        &&& r == (if notify {
            PushResult::Truncated { frames_dropped: k as u64 }
        } else {
            PushResult::Stored
        })
        &&& after.truncations() == before.truncations() + (if notify {
            1int
        } else {
            0int
        })
        &&& after.last_notice() == (if notify {
            Some(now)
        } else {
            before.last_notice()
        })
    }

    /// Stores `data` as the next frame, captured at `now` (milliseconds on
    /// the buffer's clock): evicts the oldest frames until the new one fits
    /// under both caps, or until the buffer is empty, then appends it. A
    /// truncation notice is due at most once per notice interval.
    pub fn push_at(&mut self, data: Vec<u8>, now: u64) -> (r: PushResult)
        requires
            old(self).wf(),
            old(self).next_seq() < u64::MAX,
        ensures
            final(self).wf(),
            Self::pushed(*old(self), data@, now, *final(self), r),
            data@.len() <= old(self).max_bytes() && old(self).max_frames() >= 1
                ==> final(self).within_caps(),
    {
        let ghost before = *self;
        let frame_len = data.len();
        let mut dropped: u64 = 0;
        while self.frames.len() > 0 && (frame_len > self.max_bytes || self.current_bytes
            > self.max_bytes - frame_len || self.frames.len() >= self.max_frames)
            invariant
                self.wf(),
                self.next_seq == before.next_seq,
                self.max_bytes == before.max_bytes,
                self.max_frames == before.max_frames,
                self.truncations == before.truncations,
                self.last_truncation_notice == before.last_truncation_notice,
                dropped <= before.frames().len(),
                self.frames() == before.frames().skip(dropped as int),
                self.drops == before.drops + dropped,
                evictions(before.frames(), frame_len as nat, before.max_bytes(), before.max_frames())
                    == dropped + evictions(
                    self.frames(),
                    frame_len as nat,
                    before.max_bytes(),
                    before.max_frames(),
                ),
            decreases self.frames@.len(),
        {
            let ghost s = self.frames();
            let dropped_frame = self.frames.pop_front();
            proof {
                assert(self.frames() =~= s.skip(1));
                assert(before.frames().skip(dropped as int).skip(1) =~= before.frames().skip(
                    dropped + 1,
                ));
            }
            match dropped_frame {
                Some(f) => {
                    self.current_bytes = self.current_bytes - f.data.len();
                },
                None => {},
            }
            self.drops = self.drops + 1;
            dropped = dropped + 1;
            proof {
                assert forall|i: int, j: int|
                    0 <= i < j < self.frames().len() implies #[trigger] self.frames()[i].seq
                    < #[trigger] self.frames()[j].seq by {
                    assert(self.frames()[i] == s[i + 1] && self.frames()[j] == s[j + 1]);
                }
                assert forall|i: int| 0 <= i < self.frames().len() implies #[trigger] self.frames()[i].seq
                    < self.next_seq by {
                    assert(self.frames()[i] == s[i + 1]);
                }
            }
        }
        let ghost kept = self.frames();
        proof {
            assert(evictions(kept, frame_len as nat, before.max_bytes(), before.max_frames()) == 0);
        }
        let seq = self.next_seq;
        self.next_seq = self.next_seq + 1;
        self.current_bytes = self.current_bytes + frame_len;
        let ghost data_view = data@;
        self.frames.push_back(OutputFrame { seq, timestamp: now, data });
        let ghost nf = FrameView { seq, timestamp: now, data: data_view };
        proof {
            assert(self.frames() =~= kept.push(nf));
            lemma_total_bytes_push(kept, nf);
            assert forall|i: int, j: int|
                0 <= i < j < self.frames().len() implies #[trigger] self.frames()[i].seq
                < #[trigger] self.frames()[j].seq by {
                if j < kept.len() {
                    assert(self.frames()[i] == kept[i] && self.frames()[j] == kept[j]);
                } else {
                    assert(self.frames()[i] == kept[i]);
                }
            }
            assert forall|i: int| 0 <= i < self.frames().len() implies #[trigger] self.frames()[i].seq
                < self.next_seq by {
                if i < kept.len() {
                    assert(self.frames()[i] == kept[i]);
                }
            }
        }
        if dropped > 0 {
            let due = match self.last_truncation_notice {
                None => true,
                Some(t) => t <= now && now - t >= TRUNCATION_NOTICE_INTERVAL_MS,
            };
            if due {
                self.last_truncation_notice = Some(now);
                self.truncations = self.truncations + 1;
                return PushResult::Truncated { frames_dropped: dropped };
            }
        }
        PushResult::Stored
    }

    /// Sequence number of the newest frame ever pushed (0 before any push).
    pub fn current_seq(&self) -> (r: u64)
        ensures
            r == (if self.next_seq() == 0 {
                0
            } else {
                (self.next_seq() - 1) as u64
            }),
    {
        self.next_seq.saturating_sub(1)
    }

    /// The stored frames whose sequence number is above `watermark`, oldest
    /// first, at most `max_count` of them: the replay after a reconnect.
    pub fn drain_since(&self, watermark: u64, max_count: usize) -> (r: Vec<OutputFrame>)
        requires
            self.wf(),
        ensures
            r@.map_values(|f: OutputFrame| f@) == frames_after(self.frames(), watermark).take(
                min_nat(frames_after(self.frames(), watermark).len(), max_count as nat) as int,
            ),
    {
        let ghost s = self.frames();
        let mut out: Vec<OutputFrame> = Vec::new();
        let mut i: usize = 0;
        while i < self.frames.len() && out.len() < max_count
            invariant
                s == self.frames(),
                i <= s.len(),
                out.len() <= max_count,
                out@.map_values(|f: OutputFrame| f@) == frames_after(s.take(i as int), watermark),
            decreases s.len() - i,
        {
            let f = &self.frames[i];
            proof {
                assert(s.take(i + 1).drop_last() =~= s.take(i as int));
                assert(s.take(i + 1).last() == s[i as int]);
            }
            if f.seq > watermark {
                let copy = f.duplicate();
                out.push(copy);
                proof {
                    assert(out@.map_values(|f: OutputFrame| f@) =~= frames_after(
                        s.take(i as int),
                        watermark,
                    ).push(s[i as int]));
                }
            }
            i = i + 1;
        }
        proof {
            lemma_frames_after_prefix(s, i as int, watermark);
            lemma_frames_after_bounded(s.take(i as int), watermark);
            if i == s.len() {
                assert(s.take(i as int) =~= s);
            }
        }
        out
    }

    /// Every stored frame, oldest first: the replay for a client that saw
    /// nothing yet.
    pub fn get_all(&self) -> (r: Vec<OutputFrame>)
        ensures
            r@.map_values(|f: OutputFrame| f@) == self.frames(),
    {
        let ghost s = self.frames();
        let mut out: Vec<OutputFrame> = Vec::new();
        let mut i: usize = 0;
        while i < self.frames.len()
            invariant
                s == self.frames(),
                i <= s.len(),
                out@.map_values(|f: OutputFrame| f@) == s.take(i as int),
            decreases s.len() - i,
        {
            let copy = self.frames[i].duplicate();
            assert(copy@ == s[i as int]);
            let ghost prev = out@;
            out.push(copy);
            proof {
                assert(out@.map_values(|f: OutputFrame| f@) =~= prev.map_values(
                    |f: OutputFrame| f@,
                ).push(s[i as int]));
                assert(s.take(i + 1) =~= s.take(i as int).push(s[i as int]));
            }
            i = i + 1;
        }
        proof {
            assert(s.take(i as int) =~= s);
        }
        out
    }

    /// Current counters.
    pub fn metrics(&self) -> (r: RingMetrics)
        ensures
            r.frame_count == self.frames().len(),
            r.byte_count == self.byte_count(),
            r.drops == self.drops(),
            r.truncations == self.truncations(),
            r.current_seq == self.next_seq(),
    {
        RingMetrics {
            frame_count: self.frames.len(),
            byte_count: self.current_bytes,
            drops: self.drops,
            truncations: self.truncations,
            current_seq: self.next_seq,
        }
    }

    /// Drops every stored frame; counters and sequence numbers go on.
    pub fn clear(&mut self)
        requires
            old(self).wf(),
        ensures
            final(self).wf(),
            final(self).frames() == Seq::<FrameView>::empty(),
            final(self).byte_count() == 0,
            final(self).max_bytes() == old(self).max_bytes(),
            final(self).max_frames() == old(self).max_frames(),
            final(self).next_seq() == old(self).next_seq(),
            final(self).drops() == old(self).drops(),
            final(self).truncations() == old(self).truncations(),
            final(self).last_notice() == old(self).last_notice(),
    {
        self.frames.clear();
        self.current_bytes = 0;
        assert(self.frames() =~= Seq::<FrameView>::empty());
    }
}

} // verus!
