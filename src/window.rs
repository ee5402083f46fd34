//! The sliding window over interleaved samples and its mono downmix.
use vstd::prelude::*;

use std::collections::VecDeque;

use crate::arith::div_toward_zero;

verus! {

/// The last `k` items of `s`, or all of `s` when it is shorter.
pub open spec fn latest(s: Seq<i32>, k: nat) -> Seq<i32> {
    if s.len() <= k {
        s
    } else {
        s.subrange(s.len() - k, s.len() as int)
    }
}

/// Sum of the `n` items of `s` that start at `start`.
pub open spec fn run_sum(s: Seq<i32>, start: int, n: nat) -> int
    decreases n,
{
    if n == 0 {
        0
    } else {
        run_sum(s, start, (n - 1) as nat) + s[start + n - 1]
    }
}

/// Mono sample `i` of interleaved `s`: the mean, rounded toward zero, of
/// the `channels` values of time index `i`.
pub open spec fn mono_sample(s: Seq<i32>, channels: nat, i: int) -> int {
    div_toward_zero(run_sum(s, i * channels, channels), channels as int)
}

/// The window after pushing each block of `blocks` in turn into a window
/// that held `start`.
pub open spec fn after_pushes(start: Seq<i32>, blocks: Seq<Seq<i32>>, k: nat) -> Seq<i32>
    decreases blocks.len(),
{
    if blocks.len() == 0 {
        start
    } else {
        latest(after_pushes(start, blocks.drop_last(), k) + blocks.last(), k)
    }
}

/// All blocks of `blocks` joined in order.
pub open spec fn joined(blocks: Seq<Seq<i32>>) -> Seq<i32>
    decreases blocks.len(),
{
    if blocks.len() == 0 {
        Seq::empty()
    } else {
        joined(blocks.drop_last()) + blocks.last()
    }
}

/// Why a window cannot be made.
#[derive(Debug, Clone, Copy, PartialEq, Eq)]
pub enum WindowError {
    /// The frame length is zero.
    EmptyFrame,
    /// The channel count is zero.
    NoChannels,
    /// `frame_len * channels` does not fit in `usize`.
    TooLarge,
}

/// A bounded FIFO of interleaved samples, holding at most
/// `frame_len * channels` of them: the most recent ones.
pub struct FrameWindow {
    samples: VecDeque<i32>,
    frame_len: usize,
    channels: u16,
}

impl View for FrameWindow {
    type V = Seq<i32>;

    closed spec fn view(&self) -> Seq<i32> {
        self.samples@
    }
}

impl FrameWindow {
    /// The window's invariant: positive sizes, a capacity that fits in
    /// `usize`, and no more samples than the capacity.
    pub closed spec fn wf(&self) -> bool {
        &&& self.frame_len > 0
        &&& self.channels > 0
        &&& self.frame_len * self.channels <= usize::MAX
        &&& self.samples@.len() <= self.frame_len * self.channels
    }

    pub closed spec fn spec_frame_len(&self) -> nat {
        self.frame_len as nat
    }

    pub closed spec fn spec_channels(&self) -> nat {
        self.channels as nat
    }

    /// How many interleaved samples the window holds when full.
    pub open spec fn spec_capacity(&self) -> nat {
        self.spec_frame_len() * self.spec_channels()
    }

    /// An empty window for frames of `frame_len` mono samples over
    /// `channels` interleaved channels.
    pub fn new(frame_len: usize, channels: u16) -> (r: Result<FrameWindow, WindowError>)
        ensures
            frame_len == 0 ==> r == Err::<FrameWindow, WindowError>(WindowError::EmptyFrame),
            frame_len > 0 && channels == 0 ==> r == Err::<FrameWindow, WindowError>(
                WindowError::NoChannels,
            ),
            frame_len > 0 && channels > 0 && frame_len * channels > usize::MAX ==> r == Err::<
                FrameWindow,
                WindowError,
            >(WindowError::TooLarge),
            r is Ok <==> (frame_len > 0 && channels > 0 && frame_len * channels <= usize::MAX),
            r matches Ok(w) ==> {
                &&& w.wf()
                &&& w@ == Seq::<i32>::empty()
                &&& w.spec_frame_len() == frame_len
                &&& w.spec_channels() == channels
            },
    {
        if frame_len == 0 {
            return Err(WindowError::EmptyFrame);
        }
        if channels == 0 {
            return Err(WindowError::NoChannels);
        }
        if frame_len > usize::MAX / (channels as usize) {
            assert(frame_len * channels > usize::MAX) by (nonlinear_arith)
                requires
                    frame_len > usize::MAX / (channels as usize),
                    channels > 0,
            ;
            return Err(WindowError::TooLarge);
        }
        assert(frame_len * channels <= usize::MAX) by (nonlinear_arith)
            requires
                frame_len <= usize::MAX / (channels as usize),
                channels > 0,
        ;
        Ok(FrameWindow { samples: VecDeque::new(), frame_len, channels })
    }

    pub fn frame_len(&self) -> (r: usize)
        ensures
            r == self.spec_frame_len(),
    {
        self.frame_len
    }

    pub fn channels(&self) -> (r: u16)
        ensures
            r == self.spec_channels(),
    {
        self.channels
    }

    /// How many interleaved samples the window holds now.
    pub fn len(&self) -> (r: usize)
        requires
            self.wf(),
        ensures
            r == self@.len(),
            r <= self.spec_capacity(),
    {
        self.samples.len()
    }

    /// Whether a whole frame is available.
    pub fn is_full(&self) -> (r: bool)
        requires
            self.wf(),
        ensures
            r == (self@.len() == self.spec_capacity()),
    {
        self.samples.len() == self.frame_len * self.channels as usize
    }

    /// Appends `block`, dropping the oldest samples beyond the capacity.
    pub fn push(&mut self, block: &[i32])
        requires
            old(self).wf(),
        ensures
            final(self).wf(),
            final(self)@ == latest(old(self)@ + block@, old(self).spec_capacity()),
            final(self).spec_frame_len() == old(self).spec_frame_len(),
            final(self).spec_channels() == old(self).spec_channels(),
    {
        let cap: usize = self.frame_len * self.channels as usize;
        let ghost start = self@;
        let mut i: usize = 0;
        while i < block.len()
            invariant
                i <= block@.len(),
                self.wf(),
                cap == self.spec_capacity(),
                self.spec_frame_len() == old(self).spec_frame_len(),
                self.spec_channels() == old(self).spec_channels(),
                start == old(self)@,
                self@ == latest(start + block@.subrange(0, i as int), cap as nat),
            decreases block@.len() - i,
        {
            self.samples.push_back(block[i]);
            if self.samples.len() > cap {
                self.samples.pop_front();
            }
            proof {
                let prev = start + block@.subrange(0, i as int);
                let next = start + block@.subrange(0, i + 1);
                assert(next =~= prev.push(block@[i as int]));
                if prev.len() >= cap {
                    assert(latest(next, cap as nat) =~= latest(prev, cap as nat).push(
                        block@[i as int],
                    ).subrange(1, cap + 1));
                } else {
                    assert(latest(prev, cap as nat) =~= prev);
                }
            }
            i = i + 1;
        }
        assert(block@.subrange(0, block@.len() as int) =~= block@);
    }

    /// The mono frame of the window when it is full: sample `i` is the
    /// mean of the channel values at time index `i`.
    pub fn try_frame(&self) -> (r: Option<Vec<i32>>)
        requires
            self.wf(),
        ensures
            r is Some <==> self@.len() == self.spec_capacity(),
            r matches Some(f) ==> {
                &&& f@.len() == self.spec_frame_len()
                &&& forall|i: int|
                    0 <= i < f@.len() ==> f@[i] == mono_sample(self@, self.spec_channels(), i)
            },
    {
        let ch: usize = self.channels as usize;
        if self.samples.len() != self.frame_len * ch {
            return None;
        }
        let mut frame: Vec<i32> = Vec::with_capacity(self.frame_len);
        let mut i: usize = 0;
        while i < self.frame_len
            invariant
                i <= self.frame_len,
                ch == self.channels,
                ch > 0,
                self.frame_len * ch <= usize::MAX,
                self.samples@.len() == self.frame_len * ch,
                frame@.len() == i,
                forall|j: int| 0 <= j < i ==> frame@[j] == mono_sample(self@, ch as nat, j),
            decreases self.frame_len - i,
        {
            assert((i + 1) * ch <= self.frame_len * ch) by (nonlinear_arith)
                requires
                    i < self.frame_len,
            ;
            assert((i + 1) * ch == i * ch + ch) by (nonlinear_arith);
            let base: usize = i * ch;
            let mut sum: i64 = 0;
            let mut c: usize = 0;
            while c < ch
                invariant
                    c <= ch,
                    ch == self.channels,
                    base + ch <= self.samples@.len(),
                    self.samples@.len() <= usize::MAX,
                    base == i * ch,
                    sum == run_sum(self@, base as int, c as nat),
                    -0x8000_0000 * c <= sum <= 0x7fff_ffff * c,
                decreases ch - c,
            {
                sum = sum + self.samples[base + c] as i64;
                c = c + 1;
            }
            let m: i64 = sum / (ch as i64);
            proof {
                if sum >= 0 {
                    assert((sum as int) / (ch as int) <= 0x7fff_ffff) by (nonlinear_arith)
                        requires
                            0 <= sum <= 0x7fff_ffff * ch,
                            ch > 0,
                    ;
                } else {
                    assert((-(sum as int)) / (ch as int) <= 0x8000_0000) by (nonlinear_arith)
                        requires
                            0 < -sum <= 0x8000_0000 * ch,
                            ch > 0,
                    ;
                }
            }
            frame.push(m as i32);
            i = i + 1;
        }
        Some(frame)
    }
}

/// Pushing keeps the most recent samples: the window after a push of `b`
/// into a window that held the latest `k` of `a` holds the latest `k` of
/// `a + b`.
pub proof fn lemma_latest_of_latest(a: Seq<i32>, b: Seq<i32>, k: nat)
    ensures
        latest(latest(a, k) + b, k) =~= latest(a + b, k),
        latest(a + b, k).len() <= k,
{
}

/// Whatever the blocks pushed, a window that starts empty holds exactly the
/// latest `k` samples of everything pushed, and never more than `k`.
pub proof fn lemma_window_holds_latest(blocks: Seq<Seq<i32>>, k: nat)
    ensures
        after_pushes(Seq::empty(), blocks, k) == latest(joined(blocks), k),
        after_pushes(Seq::empty(), blocks, k).len() <= k,
    decreases blocks.len(),
{
    if blocks.len() > 0 {
        lemma_window_holds_latest(blocks.drop_last(), k);
        lemma_latest_of_latest(joined(blocks.drop_last()), blocks.last(), k);
    } else {
        assert(latest(Seq::<i32>::empty(), k) =~= Seq::<i32>::empty());
    }
}

} // verus!
