//! Frame bookkeeping of the block denoiser.
//!
//! The denoise path drives fixed-size frames through one opaque denoise
//! state per channel. The core owns the bookkeeping: collecting per-channel
//! input frames sample by sample, dropping the undersized tail, and holding
//! every denoised frame back by one round so that the first produced frame
//! (the model's warm-up output) is suppressed and the last produced frame is
//! never written. The denoising itself is the external model's work; the
//! surrounding application hands each completed input frame to the model and
//! gives the denoised frame back to this pipeline.

use vstd::prelude::*;

use vstd::arithmetic::div_mod::lemma_fundamental_div_mod;

use crate::channels::interleave;
use crate::channels::interleaved;
use crate::errors::AudioError;

verus! {

/// Frame collector and one-frame delay line of the denoise path, generic in
/// the sample representation.
pub struct FramePipeline<T> {
    channels: usize,
    frame_size: usize,
    cur: Vec<Vec<T>>,
    held: Option<Vec<Vec<T>>>,
    pushed: Ghost<nat>,
}

impl<T: Copy> FramePipeline<T> {
    /// Validity of the pipeline state: per-channel partial input buffers of
    /// equal fill, strictly shorter than a frame, and a held denoised frame
    /// of full size when one is pending.
    pub closed spec fn wf(self) -> bool {
        &&& self.channels >= 1
        &&& self.frame_size >= 1
        &&& (self.channels as int) * (self.frame_size as int) <= usize::MAX
        &&& self.cur@.len() == self.channels
        &&& forall|j: int|
            0 <= j < self.channels ==> (#[trigger] self.cur@[j])@.len() == self.cur@[0]@.len()
        &&& self.cur@[0]@.len() < self.frame_size
        &&& self.cur@[0]@.len() == self.pushed@ % (self.frame_size as nat)
        &&& match self.held {
            Option::None => true,
            Option::Some(h) => {
                &&& h@.len() == self.channels
                &&& forall|j: int|
                    0 <= j < self.channels ==> (#[trigger] h@[j])@.len() == self.frame_size
            },
        }
    }

    pub closed spec fn spec_channels(self) -> int {
        self.channels as int
    }

    pub closed spec fn spec_frame_size(self) -> int {
        self.frame_size as int
    }

    /// How many multi-channel samples were ever pushed into the pipeline.
    pub closed spec fn spec_pushed(self) -> nat {
        self.pushed@
    }

    /// How many samples of the current input frame are already collected,
    /// per channel.
    pub closed spec fn spec_filled(self) -> int {
        self.cur@[0]@.len() as int
    }

    /// The partial input frame collected so far, per channel.
    pub closed spec fn spec_cur(self) -> Seq<Seq<T>> {
        self.cur@.map_values(|v: Vec<T>| v@)
    }

    /// The denoised frame held back from the previous round, if any.
    pub closed spec fn spec_held(self) -> Option<Seq<Seq<T>>> {
        match self.held {
            Option::None => Option::None,
            Option::Some(h) => Option::Some(h@.map_values(|v: Vec<T>| v@)),
        }
    }

    /// A fresh pipeline: nothing collected, nothing held.
    pub fn new(channels: usize, frame_size: usize) -> (r: FramePipeline<T>)
        requires
            channels >= 1,
            frame_size >= 1,
            (channels as int) * (frame_size as int) <= usize::MAX,
        ensures
            r.wf(),
            r.spec_channels() == channels,
            r.spec_frame_size() == frame_size,
            r.spec_filled() == 0,
            r.spec_pushed() == 0,
            r.spec_held() is None,
    {
        let mut cur: Vec<Vec<T>> = Vec::new();
        let mut j: usize = 0;
        while j < channels
            invariant
                j <= channels,
                cur@.len() == j,
                forall|jj: int| 0 <= jj < j ==> (#[trigger] cur@[jj])@.len() == 0,
            decreases channels - j,
        {
            cur.push(Vec::new());
            j = j + 1;
        }
        proof {
            vstd::arithmetic::div_mod::lemma_small_mod(0nat, frame_size as nat);
        }
        FramePipeline { channels, frame_size, cur, held: Option::None, pushed: Ghost(0nat) }
    }

    /// Collect one multi-channel sample into the current input frame.
    /// Returns the completed per-channel frame once the frame-size-th sample
    /// arrives; until then the sample is only buffered.
    pub fn push(&mut self, frame: &Vec<T>) -> (r: Option<Vec<Vec<T>>>)
        requires
            old(self).wf(),
            frame@.len() == old(self).spec_channels(),
        ensures
            final(self).wf(),
            final(self).spec_channels() == old(self).spec_channels(),
            final(self).spec_frame_size() == old(self).spec_frame_size(),
            final(self).spec_held() == old(self).spec_held(),
            final(self).spec_pushed() == old(self).spec_pushed() + 1,
            (r is Some) <==> ((old(self).spec_pushed() + 1) as int) % old(self).spec_frame_size()
                == 0,
            old(self).spec_filled() + 1 < old(self).spec_frame_size() ==> {
                &&& r is None
                &&& final(self).spec_filled() == old(self).spec_filled() + 1
                &&& forall|j: int|
                    0 <= j < old(self).spec_channels() ==> #[trigger] final(self).spec_cur()[j]
                        == old(self).spec_cur()[j].push(frame@[j])
            },
            old(self).spec_filled() + 1 == old(self).spec_frame_size() ==> {
                &&& r is Some
                &&& r.unwrap()@.len() == old(self).spec_channels()
                &&& forall|j: int|
                    0 <= j < old(self).spec_channels() ==> (#[trigger] r.unwrap()@[j])@ == old(
                        self,
                    ).spec_cur()[j].push(frame@[j])
                &&& final(self).spec_filled() == 0
            },
    {
        let channels = self.channels;
        let mut j: usize = 0;
        while j < channels
            invariant
                old(self).wf(),
                channels == self.channels,
                self.channels == old(self).spec_channels(),
                self.frame_size == old(self).spec_frame_size(),
                self.held == old(self).held,
                self.pushed == old(self).pushed,
                frame@.len() == channels,
                self.cur@.len() == channels,
                j <= channels,
                forall|jj: int|
                    0 <= jj < j ==> (#[trigger] self.cur@[jj])@ == old(self).spec_cur()[jj].push(
                        frame@[jj],
                    ),
                forall|jj: int|
                    j <= jj < channels ==> (#[trigger] self.cur@[jj])@ == old(self).spec_cur()[jj],
            decreases channels - j,
        {
            let sample = frame[j];
            let column = &mut self.cur[j];
            column.push(sample);
            j = j + 1;
        }
        proof {
            self.pushed@ = self.pushed@ + 1;
            let f = self.frame_size as int;
            let pu = old(self).spec_pushed() as int;
            let filled = old(self).spec_filled();
            lemma_fundamental_div_mod(pu, f);
            let q = pu / f;
            assert(pu == f * q + filled);
            if filled + 1 == f {
                assert(f * (q + 1) == f * q + f) by (nonlinear_arith);
                assert((q + 1) * f == f * (q + 1)) by (nonlinear_arith);
                vstd::arithmetic::div_mod::lemma_fundamental_div_mod_converse(
                    pu + 1,
                    f,
                    q + 1,
                    0,
                );
            } else {
                assert(q * f == f * q) by (nonlinear_arith);
                vstd::arithmetic::div_mod::lemma_fundamental_div_mod_converse(
                    pu + 1,
                    f,
                    q,
                    filled + 1,
                );
            }
        }
        if self.cur[0].len() == self.frame_size {
            let mut full: Vec<Vec<T>> = Vec::new();
            core::mem::swap(&mut self.cur, &mut full);
            let mut j: usize = 0;
            while j < channels
                invariant
                    old(self).wf(),
                    channels == self.channels,
                    self.channels == old(self).spec_channels(),
                    self.frame_size == old(self).spec_frame_size(),
                    self.held == old(self).held,
                    self.pushed@ == old(self).spec_pushed() + 1,
                    ((old(self).spec_pushed() + 1) as int) % (self.frame_size as int) == 0,
                    j <= channels,
                    self.cur@.len() == j,
                    forall|jj: int| 0 <= jj < j ==> (#[trigger] self.cur@[jj])@.len() == 0,
                decreases channels - j,
            {
                self.cur.push(Vec::new());
                j = j + 1;
            }
            Some(full)
        } else {
            None
        }
    }

    /// Hand one denoised per-channel frame to the pipeline and receive the
    /// frame to write out: the denoised frame of the previous round,
    /// interleaved — or nothing on the first round, whose output is the
    /// model's warm-up and is suppressed. The frame handed in is held back;
    /// at stream end the last held frame is deliberately dropped, never
    /// flushed.
    pub fn accept_denoised(&mut self, denoised: Vec<Vec<T>>) -> (r: Option<Vec<T>>)
        requires
            old(self).wf(),
            denoised@.len() == old(self).spec_channels(),
            forall|j: int|
                0 <= j < denoised@.len() ==> (#[trigger] denoised@[j])@.len() == old(
                    self,
                ).spec_frame_size(),
        ensures
            final(self).wf(),
            final(self).spec_channels() == old(self).spec_channels(),
            final(self).spec_frame_size() == old(self).spec_frame_size(),
            final(self).spec_filled() == old(self).spec_filled(),
            final(self).spec_pushed() == old(self).spec_pushed(),
            final(self).spec_cur() == old(self).spec_cur(),
            final(self).spec_held() == Option::Some(denoised@.map_values(|v: Vec<T>| v@)),
            match old(self).spec_held() {
                Option::None => r is None,
                Option::Some(prev) => r is Some && r.unwrap()@ == interleaved(prev),
            },
    {
        let out = match &self.held {
            Option::None => Option::None,
            Option::Some(prev) => Option::Some(interleave(prev)),
        };
        self.held = Option::Some(denoised);
        out
    }
}

/// The number of full frames a per-channel stream of `len` samples yields;
/// the undersized tail is dropped, never zero-padded.
pub open spec fn full_frame_count(len: nat, frame_size: nat) -> nat
    recommends
        frame_size > 0,
{
    len / frame_size
}

/// The full frames cover all but the trailing `len mod frame_size` samples:
/// exactly the undersized tail is dropped, never zero-padded and never more.
pub proof fn lemma_tail_dropped(len: nat, frame_size: nat)
    requires
        frame_size > 0,
    ensures
        full_frame_count(len, frame_size) * frame_size <= len,
        len < (full_frame_count(len, frame_size) + 1) * frame_size,
{
    let f = frame_size as int;
    let q = (len as int) / f;
    let r = (len as int) % f;
    lemma_fundamental_div_mod(len as int, f);
    vstd::arithmetic::div_mod::lemma_mod_bound(len as int, f);
    assert(q * f == f * q) by (nonlinear_arith);
    assert((q + 1) * f == f * q + f) by (nonlinear_arith);
}

/// The interleaved output frames of a whole denoise run, given the denoised
/// per-channel frames in production order: every frame but the last,
/// shifted one round late — the first round's write is suppressed as
/// warm-up, and the final produced frame is dropped at stream end.
pub open spec fn pipeline_outputs<T>(denoised: Seq<Seq<Seq<T>>>) -> Seq<Seq<T>> {
    Seq::new(
        if denoised.len() == 0 {
            0
        } else {
            (denoised.len() - 1) as nat
        },
        |i: int| interleaved(denoised[i]),
    )
}

/// The one-frame latency of the block denoiser: an input of exactly one
/// full frame produces no output at all (its single denoised frame is the
/// discarded warm-up), and an input of exactly two full frames produces
/// exactly one output frame — the denoised first frame.
pub proof fn lemma_pipeline_warmup_delay<T>(denoised: Seq<Seq<Seq<T>>>)
    ensures
        pipeline_outputs(denoised).len() == if denoised.len() == 0 {
            0int
        } else {
            denoised.len() - 1
        },
        forall|i: int|
            0 <= i < denoised.len() - 1 ==> #[trigger] pipeline_outputs(denoised)[i]
                == interleaved(denoised[i]),
        denoised.len() == 1 ==> pipeline_outputs(denoised) =~= Seq::<Seq<T>>::empty(),
        denoised.len() == 2 ==> pipeline_outputs(denoised) =~= seq![interleaved(denoised[0])],
{
}

/// End-of-frame decision of the multi-channel sample reader: after a read
/// that gathered `got` of the `channels` samples of one frame, either the
/// frame is complete, or the source ended cleanly on a frame boundary, or
/// the stream is malformed — ended mid-frame, its length not a multiple of
/// the channel count.
pub fn partial_frame_check(got: usize, channels: usize) -> (r: Result<bool, AudioError>)
    requires
        got <= channels,
    ensures
        r == Ok::<bool, AudioError>(true) <==> got == channels,
        r == Ok::<bool, AudioError>(false) <==> (got == 0 && channels > 0),
        r == Err::<bool, AudioError>(AudioError::MalformedInput) <==> 0 < got < channels,
{
    if got == channels {
        Ok(true)
    } else if got == 0 {
        Ok(false)
    } else {
        Err(AudioError::MalformedInput)
    }
}

} // verus!
