//! The history window that suppresses pixels whose color has settled.
use vstd::prelude::*;
use crate::types::Color;

verus! {

/// The color of the pixel whose bytes start at `offset` in a raw frame of
/// 3 (RGB, opaque) or 4 (RGBA) bytes per pixel.
pub open spec fn color_at_spec(frame: Seq<u8>, offset: int, bytes_per_pixel: int) -> Color {
    Color {
        red: frame[offset],
        green: frame[offset + 1],
        blue: frame[offset + 2],
        alpha: if bytes_per_pixel == 4 { frame[offset + 3] } else { 0xFF },
    }
}

/// Reads the pixel whose bytes start at `offset`.
pub fn color_at(frame: &Vec<u8>, offset: usize, bytes_per_pixel: usize) -> (r: Color)
    requires
        bytes_per_pixel == 3 || bytes_per_pixel == 4,
        offset + bytes_per_pixel <= frame@.len(),
    ensures
        r == color_at_spec(frame@, offset as int, bytes_per_pixel as int),
{
    let len = frame.len();
    assert(offset + 2 < len);
    if bytes_per_pixel == 4 {
        Color::new_alpha(frame[offset], frame[offset + 1], frame[offset + 2], frame[offset + 3])
    } else {
        Color::new(frame[offset], frame[offset + 1], frame[offset + 2])
    }
}

/// Whether a pixel of the given color at `offset` is sent against the
/// retained frames of a window of `capacity`: always while the window is off
/// or not yet full, otherwise exactly when some retained frame had another
/// color there.
pub open spec fn sends(capacity: nat, bytes_per_pixel: int, retained: Seq<Seq<u8>>, offset: int, color: Color) -> bool {
    capacity == 0 || retained.len() < capacity
        || exists|i: int| 0 <= i < retained.len()
            && color_at_spec(#[trigger] retained[i], offset, bytes_per_pixel) != color
}

/// The frames retained after `frame` has been evaluated: appended, with the
/// oldest evicted when the window was full; nothing is kept at capacity zero.
pub open spec fn retain(capacity: nat, retained: Seq<Seq<u8>>, frame: Seq<u8>) -> Seq<Seq<u8>> {
    if capacity == 0 {
        retained
    } else if retained.len() < capacity {
        retained.push(frame)
    } else {
        retained.drop_first().push(frame)
    }
}

/// The frames retained after each of `frames` has been evaluated in turn,
/// starting from an empty window.
pub open spec fn retain_all(capacity: nat, frames: Seq<Seq<u8>>) -> Seq<Seq<u8>>
    decreases frames.len(),
{
    if frames.len() == 0 {
        Seq::empty()
    } else {
        retain(capacity, retain_all(capacity, frames.drop_last()), frames.last())
    }
}

/// The last `capacity` frames seen, oldest first. A capacity of zero keeps
/// nothing and suppresses nothing.
pub struct DedupWindow {
    capacity: usize,
    bytes_per_pixel: usize,
    frame_len: usize,
    frames: Vec<Vec<u8>>,
}

impl DedupWindow {
    /// The retained frames, oldest first.
    pub closed spec fn frames(&self) -> Seq<Seq<u8>> {
        self.frames@.map_values(|f: Vec<u8>| f@)
    }

    pub closed spec fn capacity(&self) -> nat {
        self.capacity as nat
    }

    pub closed spec fn bytes_per_pixel(&self) -> nat {
        self.bytes_per_pixel as nat
    }

    pub closed spec fn frame_len(&self) -> nat {
        self.frame_len as nat
    }

    pub closed spec fn wf(&self) -> bool {
        &&& self.bytes_per_pixel == 3 || self.bytes_per_pixel == 4
        &&& self.frames@.len() <= self.capacity
        &&& forall|i: int| 0 <= i < self.frames@.len() ==> (#[trigger] self.frames@[i])@.len() == self.frame_len
    }

    /// Whether a pixel of the given color at `offset` is to be sent.
    pub open spec fn should_send_spec(&self, offset: int, color: Color) -> bool {
        sends(self.capacity(), self.bytes_per_pixel() as int, self.frames(), offset, color)
    }

    /// The frames retained after `frame` has been evaluated.
    pub open spec fn after_record(&self, frame: Seq<u8>) -> Seq<Seq<u8>> {
        retain(self.capacity(), self.frames(), frame)
    }

    pub fn new(capacity: usize, bytes_per_pixel: usize, frame_len: usize) -> (r: Self)
        requires
            bytes_per_pixel == 3 || bytes_per_pixel == 4,
        ensures
            r.wf(),
            r.capacity() == capacity,
            r.bytes_per_pixel() == bytes_per_pixel,
            r.frame_len() == frame_len,
            r.frames() == Seq::<Seq<u8>>::empty(),
    {
        let r = DedupWindow { capacity, bytes_per_pixel, frame_len, frames: Vec::new() };
        assert(r.frames() =~= Seq::<Seq<u8>>::empty());
        r
    }

    pub fn bytes_per_pixel_exec(&self) -> (r: usize)
        requires
            self.wf(),
        ensures
            r == self.bytes_per_pixel(),
            r == 3 || r == 4,
    {
        self.bytes_per_pixel
    }

    pub fn should_send(&self, offset: usize, color: Color) -> (r: bool)
        requires
            self.wf(),
            offset + self.bytes_per_pixel() <= self.frame_len(),
        ensures
            r == self.should_send_spec(offset as int, color),
    {
        if self.capacity == 0 || self.frames.len() < self.capacity {
            return true;
        }
        let mut i: usize = 0;
        while i < self.frames.len()
            invariant
                self.wf(),
                offset + self.bytes_per_pixel() <= self.frame_len(),
                i <= self.frames@.len(),
                forall|j: int| 0 <= j < i ==> color_at_spec(#[trigger] self.frames()[j], offset as int,
                    self.bytes_per_pixel() as int) == color,
            decreases self.frames@.len() - i,
        {
            let frame = &self.frames[i];
            assert(self.frames()[i as int] == frame@);
            if color_at(frame, offset, self.bytes_per_pixel) != color {
                return true;
            }
            i = i + 1;
        }
        false
    }

    /// Retains `frame` as the newest entry, evicting the oldest when full.
    pub fn record(&mut self, frame: Vec<u8>)
        requires
            old(self).wf(),
            frame@.len() == old(self).frame_len(),
        ensures
            final(self).wf(),
            final(self).capacity() == old(self).capacity(),
            final(self).bytes_per_pixel() == old(self).bytes_per_pixel(),
            final(self).frame_len() == old(self).frame_len(),
            final(self).frames() == old(self).after_record(frame@),
    {
        let ghost before = self.frames();
        if self.capacity == 0 {
            return;
        }
        if self.frames.len() >= self.capacity {
            self.frames.remove(0);
            assert(self.frames() =~= before.drop_first());
        }
        self.frames.push(frame);
        assert(self.frames() =~= old(self).after_record(frame@));
    }
}

/// A pixel is held back exactly when the window is on and full and every
/// retained frame had the same color there; one differing frame anywhere in
/// the window lets it through.
pub proof fn lemma_dedup_stability(w: DedupWindow, offset: int, color: Color)
    requires
        w.capacity() > 0,
    ensures
        !w.should_send_spec(offset, color) <==> (w.frames().len() >= w.capacity() && forall|i: int|
            0 <= i < w.frames().len() ==> color_at_spec(#[trigger] w.frames()[i], offset,
                w.bytes_per_pixel() as int) == color),
{
}

/// A window of capacity `k` that has seen a sequence of frames holds exactly
/// the last `k` of them, oldest first.
pub proof fn lemma_window_holds_last_frames(capacity: nat, frames: Seq<Seq<u8>>)
    requires
        capacity > 0,
    ensures
        retain_all(capacity, frames) == frames.subrange(
            if frames.len() > capacity { frames.len() - capacity } else { 0 },
            frames.len() as int,
        ),
    decreases frames.len(),
{
    if frames.len() > 0 {
        let n = frames.len() as int;
        let prev = frames.drop_last();
        lemma_window_holds_last_frames(capacity, prev);
        let start = if n > capacity { n - capacity } else { 0 };
        assert(retain_all(capacity, frames) =~= frames.subrange(start, n));
    }
}

/// A pixel that keeps one color over a stream of frames is sent on each of
/// the first `k` frames of a window of capacity `k`, and held back on every
/// frame after those.
pub proof fn lemma_steady_pixel_settles(capacity: nat, bytes_per_pixel: int, frames: Seq<Seq<u8>>, offset: int, color: Color, k: int)
    requires
        capacity > 0,
        0 <= k <= frames.len(),
        forall|i: int| 0 <= i < frames.len() ==> color_at_spec(#[trigger] frames[i], offset, bytes_per_pixel) == color,
    ensures
        sends(capacity, bytes_per_pixel, retain_all(capacity, frames.take(k)), offset, color) <==> k < capacity,
{
    let seen = frames.take(k);
    lemma_window_holds_last_frames(capacity, seen);
    let held = retain_all(capacity, seen);
    assert forall|i: int| 0 <= i < held.len() implies color_at_spec(#[trigger] held[i], offset, bytes_per_pixel) == color by {
        let start = if seen.len() > capacity { seen.len() - capacity } else { 0 };
        assert(held[i] == frames[start + i]);
    }
}

} // verus!
