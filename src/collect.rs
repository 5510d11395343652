use vstd::prelude::*;
use crate::frame::{ImageSize, offset_of};

verus! {

/// Why a worker's pixel result was refused.
#[derive(Clone, Copy, Debug, PartialEq, Eq, Structural)]
pub enum CollectError {
    /// The pixel lies outside the frame.
    OutsideFrame,
    /// A result for this pixel was already received in this frame.
    AlreadyWritten,
}

/// Number of set flags in `s`.
pub open spec fn count_true(s: Seq<bool>) -> nat
    decreases s.len(),
{
    if s.len() == 0 {
        0
    } else {
        count_true(s.drop_last()) + if s.last() {
            1nat
        } else {
            0nat
        }
    }
}

pub proof fn lemma_count_true_bounded(s: Seq<bool>)
    ensures
        count_true(s) <= s.len(),
    decreases s.len(),
{
    if s.len() > 0 {
        lemma_count_true_bounded(s.drop_last());
    }
}

/// Setting a clear flag adds one to the count.
pub proof fn lemma_count_true_set(s: Seq<bool>, i: int)
    requires
        0 <= i < s.len(),
        !s[i],
    ensures
        count_true(s.update(i, true)) == count_true(s) + 1,
    decreases s.len(),
{
    let t = s.update(i, true);
    if i == s.len() - 1 {
        assert(t.drop_last() =~= s.drop_last());
    } else {
        assert(t.drop_last() =~= s.drop_last().update(i, true));
        lemma_count_true_set(s.drop_last(), i);
    }
}

/// A sequence whose count equals its length has every flag set.
pub proof fn lemma_count_true_full(s: Seq<bool>)
    requires
        count_true(s) == s.len(),
    ensures
        forall|i: int| 0 <= i < s.len() ==> s[i],
    decreases s.len(),
{
    if s.len() > 0 {
        lemma_count_true_bounded(s.drop_last());
        lemma_count_true_full(s.drop_last());
        assert forall|i: int| 0 <= i < s.len() implies s[i] by {
            if i < s.len() - 1 {
                assert(s.drop_last()[i] == s[i]);
            }
        }
    }
}

/// A sequence with every flag set counts its whole length.
pub proof fn lemma_count_true_all(s: Seq<bool>)
    requires
        forall|i: int| 0 <= i < s.len() ==> s[i],
    ensures
        count_true(s) == s.len(),
    decreases s.len(),
{
    if s.len() > 0 {
        assert(s.last());
        lemma_count_true_all(s.drop_last());
    }
}

pub proof fn lemma_count_true_none(n: nat)
    ensures
        count_true(Seq::new(n, |i: int| false)) == 0,
    decreases n,
{
    if n > 0 {
        assert(Seq::new(n, |i: int| false).drop_last() =~= Seq::new((n - 1) as nat, |i: int| false));
        lemma_count_true_none((n - 1) as nat);
    }
}

/// Gathers the per-pixel results that render workers send, in any order,
/// and tells when the frame is complete: when a result has been received
/// for every pixel.
pub struct PixelCollector {
    size: ImageSize,
    written: Vec<bool>,
    received: u32,
}

impl PixelCollector {
    pub closed spec fn size_spec(self) -> ImageSize {
        self.size
    }

    /// Which buffer offsets hold a received result.
    pub closed spec fn written_spec(self) -> Seq<bool> {
        self.written@
    }

    pub closed spec fn received_spec(self) -> nat {
        self.received as nat
    }

    pub open spec fn wf(self) -> bool {
        &&& self.size_spec().wf()
        &&& self.written_spec().len() == self.size_spec().pixels_spec()
        &&& self.received_spec() == count_true(self.written_spec())
    }

    /// Whether a result was received for the pixel at column `x`, row `y`.
    pub open spec fn has_pixel(self, x: int, y: int) -> bool {
        self.written_spec()[offset_of(
            self.size_spec().width_spec(),
            self.size_spec().height_spec(),
            x,
            y,
        )]
    }

    pub open spec fn complete_spec(self) -> bool {
        self.received_spec() == self.size_spec().pixels_spec()
    }

    /// A collector for one frame, with no pixel received yet.
    pub fn new(size: ImageSize) -> (r: PixelCollector)
        requires
            size.wf(),
        ensures
            r.wf(),
            r.size_spec() == size,
            r.received_spec() == 0,
            r.written_spec() == Seq::new(size.pixels_spec() as nat, |i: int| false),
    {
        let n = size.pixel_count();
        let mut written: Vec<bool> = Vec::new();
        let mut i: u32 = 0;
        while i < n
            invariant
                i <= n,
                written@ == Seq::new(i as nat, |k: int| false),
            decreases n - i,
        {
            written.push(false);
            i = i + 1;
        }
        proof {
            lemma_count_true_none(n as nat);
        }
        PixelCollector { size, written, received: 0 }
    }

    /// Records the result of the pixel at column `x`, row `y`, and returns
    /// the buffer offset where its color belongs. A pixel outside the frame,
    /// or one already received, is refused and nothing changes.
    pub fn receive(&mut self, x: u32, y: u32) -> (r: Result<u32, CollectError>)
        requires
            old(self).wf(),
        ensures
            final(self).wf(),
            final(self).size_spec() == old(self).size_spec(),
            !old(self).size_spec().contains(x as int, y as int) ==> r == Err::<
                u32,
                CollectError,
            >(CollectError::OutsideFrame),
            old(self).size_spec().contains(x as int, y as int) && old(self).has_pixel(
                x as int,
                y as int,
            ) ==> r == Err::<u32, CollectError>(CollectError::AlreadyWritten),
            r is Err ==> *final(self) == *old(self),
            old(self).size_spec().contains(x as int, y as int) && !old(self).has_pixel(
                x as int,
                y as int,
            ) ==> {
                let off = offset_of(
                    old(self).size_spec().width_spec(),
                    old(self).size_spec().height_spec(),
                    x as int,
                    y as int,
                );
                &&& r == Ok::<u32, CollectError>(off as u32)
                &&& final(self).written_spec() == old(self).written_spec().update(off, true)
                &&& final(self).received_spec() == old(self).received_spec() + 1
            },
    {
        if x >= self.size.width() || y >= self.size.height() {
            return Err(CollectError::OutsideFrame);
        }
        let off = self.size.pixel_offset(x, y);
        if self.written[off as usize] {
            return Err(CollectError::AlreadyWritten);
        }
        proof {
            lemma_count_true_set(self.written@, off as int);
            lemma_count_true_bounded(self.written@.update(off as int, true));
        }
        self.written.set(off as usize, true);
        self.received = self.received + 1;
        Ok(off)
    }

    /// Number of pixels received so far; it only grows within a frame.
    pub fn received(&self) -> (r: u32)
        ensures
            r == self.received_spec(),
    {
        self.received
    }

    /// Whether every pixel of the frame has been received.
    pub fn is_complete(&self) -> (r: bool)
        requires
            self.wf(),
        ensures
            r == self.complete_spec(),
    {
        self.received == self.size.pixel_count()
    }

    /// Whether a result was received for the pixel at column `x`, row `y`.
    pub fn is_written(&self, x: u32, y: u32) -> (r: bool)
        requires
            self.wf(),
            self.size_spec().contains(x as int, y as int),
        ensures
            r == self.has_pixel(x as int, y as int),
    {
        let off = self.size.pixel_offset(x, y);
        self.written[off as usize]
    }
}

/// A frame counted complete has a result for every one of its pixels:
/// counting received results is enough to detect the end of a frame.
pub proof fn lemma_complete_means_every_pixel(c: PixelCollector, x: int, y: int)
    requires
        c.wf(),
        c.complete_spec(),
        c.size_spec().contains(x, y),
    ensures
        c.has_pixel(x, y),
{
    let s = c.size_spec();
    crate::frame::lemma_offset_in_frame(s.width_spec(), s.height_spec(), x, y);
    lemma_count_true_full(c.written_spec());
}

/// Once every pixel of the frame has a result, the frame is complete.
pub proof fn lemma_every_pixel_means_complete(c: PixelCollector)
    requires
        c.wf(),
        forall|x: int, y: int| c.size_spec().contains(x, y) ==> #[trigger] c.has_pixel(x, y),
    ensures
        c.complete_spec(),
{
    let w = c.size_spec().width_spec();
    let h = c.size_spec().height_spec();
    let s = c.written_spec();
    assert forall|i: int| 0 <= i < s.len() implies s[i] by {
        let row = i / w;
        let x = i % w;
        assert(0 <= x < w && x + row * w == i && 0 <= row < h) by (nonlinear_arith)
            requires
                w > 0,
                h > 0,
                0 <= i < w * h,
                row == i / w,
                x == i % w,
        ;
        assert(c.size_spec().contains(x, h - 1 - row));
        assert(c.has_pixel(x, h - 1 - row));
    }
    lemma_count_true_all(s);
}

} // verus!
