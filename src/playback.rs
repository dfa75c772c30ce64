use vstd::prelude::*;

use vstd::arithmetic::div_mod::lemma_fundamental_div_mod_converse;

verus! {

/// A one-shot "playback complete" notice: the first `fire` delivers it, every
/// later one is ignored.
pub struct CompletionSignal {
    fired: bool,
}

impl CompletionSignal {
    /// Whether the notice has been delivered.
    pub closed spec fn fired(&self) -> bool {
        self.fired
    }

    pub fn new() -> (r: Self)
        ensures
            !r.fired(),
    {
        CompletionSignal { fired: false }
    }

    pub fn has_fired(&self) -> (r: bool)
        ensures
            r == self.fired(),
    {
        self.fired
    }

    /// Delivers the notice unless it was delivered before; says whether this
    /// call delivered it.
    pub fn fire(&mut self) -> (delivered: bool)
        ensures
            delivered == !old(self).fired(),
            final(self).fired(),
    {
        let delivered = !self.fired;
        self.fired = true;
        delivered
    }
}

/// A rendered sample sequence, read from front to back.
pub struct SampleSource<T> {
    samples: Vec<T>,
    position: usize,
}

impl<T: Copy> SampleSource<T> {
    /// All the samples, read or not.
    pub closed spec fn samples(&self) -> Seq<T> {
        self.samples@
    }

    /// How many samples have been read.
    pub closed spec fn position(&self) -> nat {
        self.position as nat
    }

    pub closed spec fn wf(&self) -> bool {
        self.position <= self.samples@.len()
    }

    pub fn new(samples: Vec<T>) -> (r: Self)
        ensures
            r.wf(),
            r.samples() == samples@,
            r.position() == 0,
    {
        SampleSource { samples, position: 0 }
    }

    /// How many samples are left to read.
    pub fn remaining(&self) -> (r: usize)
        requires
            self.wf(),
        ensures
            r == self.samples().len() - self.position(),
    {
        self.samples.len() - self.position
    }

    /// The next sample, or `None` once all have been read.
    pub fn next(&mut self) -> (r: Option<T>)
        requires
            old(self).wf(),
        ensures
            final(self).wf(),
            final(self).samples() == old(self).samples(),
            old(self).position() < old(self).samples().len() ==> r == Some(
                old(self).samples()[old(self).position() as int],
            ) && final(self).position() == old(self).position() + 1,
            old(self).position() >= old(self).samples().len() ==> r is None && final(self).position()
                == old(self).position(),
    {
        if self.position < self.samples.len() {
            let s = self.samples[self.position];
            self.position += 1;
            Some(s)
        } else {
            None
        }
    }
}

/// The number of frames of `channels` slots in a buffer of `len` slots; a
/// shorter last frame counts.
pub open spec fn frame_count(len: int, channels: int) -> int {
    (len + channels - 1) / channels
}

/// The value of frame `frame` when a callback starts reading `samples` at
/// `position`: the next sample, or silence once they are used up.
pub open spec fn frame_value<T>(samples: Seq<T>, position: int, frame: int, silence: T) -> T {
    if position + frame < samples.len() {
        samples[position + frame]
    } else {
        silence
    }
}

/// Whether a callback that starts at `position` and fills `frames` frames
/// runs out of samples, and so signals completion.
pub open spec fn runs_out(samples_len: int, position: int, frames: int) -> bool {
    position + frames > samples_len
}

/// How many of a run of callbacks deliver the completion notice, given
/// whether it had been delivered before the run and whether each callback of
/// the run ran out of samples.
pub open spec fn deliveries(fired: bool, ran_out: Seq<bool>) -> nat
    decreases ran_out.len(),
{
    if ran_out.len() == 0 {
        0
    } else {
        (if ran_out[0] && !fired {
            1nat
        } else {
            0nat
        }) + deliveries(fired || ran_out[0], ran_out.drop_first())
    }
}

/// Completion is delivered at most once, however many callbacks run out of
/// samples, and never again once it has been delivered.
pub proof fn lemma_completion_delivered_at_most_once(fired: bool, ran_out: Seq<bool>)
    ensures
        deliveries(fired, ran_out) <= 1,
        fired ==> deliveries(fired, ran_out) == 0,
    decreases ran_out.len(),
{
    if ran_out.len() > 0 {
        lemma_completion_delivered_at_most_once(fired || ran_out[0], ran_out.drop_first());
    }
}

/// Fills one callback's buffer: the buffer is cut into frames of `channels`
/// slots (the last may be shorter), each frame takes the next sample in all
/// its slots, and once the samples are used up every remaining frame takes
/// `silence` and completion is signalled. Says whether this call delivered
/// the completion notice.
pub fn write_data<T: Copy>(
    output: &mut [T],
    channels: usize,
    complete: &mut CompletionSignal,
    source: &mut SampleSource<T>,
    silence: T,
) -> (delivered: bool)
    requires
        channels > 0,
        old(source).wf(),
    ensures
        final(output)@.len() == old(output)@.len(),
        forall|i: int|
            0 <= i < old(output)@.len() ==> #[trigger] final(output)@[i] == frame_value(
                old(source).samples(),
                old(source).position() as int,
                i / channels as int,
                silence,
            ),
        final(source).wf(),
        final(source).samples() == old(source).samples(),
        final(source).position() == if runs_out(
            old(source).samples().len() as int,
            old(source).position() as int,
            frame_count(old(output)@.len() as int, channels as int),
        ) {
            old(source).samples().len() as int
        } else {
            old(source).position() + frame_count(old(output)@.len() as int, channels as int)
        },
        final(complete).fired() == (old(complete).fired() || runs_out(
            old(source).samples().len() as int,
            old(source).position() as int,
            frame_count(old(output)@.len() as int, channels as int),
        )),
        delivered == (!old(complete).fired() && runs_out(
            old(source).samples().len() as int,
            old(source).position() as int,
            frame_count(old(output)@.len() as int, channels as int),
        )),
{
    let ghost samples = source.samples();
    let ghost start_pos = source.position() as int;
    let ghost was_fired = complete.fired();
    let len = output.len();
    let mut delivered = false;
    let mut start: usize = 0;
    let ghost mut frame: int = 0;
    while start < len
        invariant
            channels > 0,
            output@.len() == len,
            0 <= frame,
            start <= len,
            start < len ==> start == frame * channels,
            start == len ==> len <= frame * channels,
            frame == 0 || (frame - 1) * channels < len,
            source.wf(),
            source.samples() == samples,
            source.position() == if start_pos + frame > samples.len() {
                samples.len() as int
            } else {
                start_pos + frame
            },
            0 <= start_pos <= samples.len(),
            complete.fired() == (was_fired || start_pos + frame > samples.len()),
            delivered == (!was_fired && start_pos + frame > samples.len()),
            forall|i: int|
                0 <= i < start && i < len ==> #[trigger] output@[i] == frame_value(
                    samples,
                    start_pos,
                    i / channels as int,
                    silence,
                ),
        decreases len - start,
    {
        let value = match source.next() {
            Some(s) => s,
            None => {
                let d = complete.fire();
                delivered = delivered || d;
                silence
            },
        };
        let end = if len - start < channels {
            len
        } else {
            start + channels
        };
        let mut j: usize = start;
        while j < end
            invariant
                channels > 0,
                output@.len() == len,
                start == frame * channels,
                start <= j <= end <= len,
                end <= start + channels,
                value == frame_value(samples, start_pos, frame, silence),
                forall|i: int|
                    0 <= i < j ==> #[trigger] output@[i] == frame_value(
                        samples,
                        start_pos,
                        i / channels as int,
                        silence,
                    ),
            decreases end - j,
        {
            proof {
                lemma_fundamental_div_mod_converse(
                    j as int,
                    channels as int,
                    frame,
                    j - frame * channels,
                );
            }
            output[j] = value;
            j += 1;
        }
        start = end;
        proof {
            frame = frame + 1;
            assert(frame * channels == (frame - 1) * channels + channels) by (nonlinear_arith);
        }
    }
    proof {
        let n = len as int;
        let c = channels as int;
        if n > 0 {
            assert(frame >= 1);
            assert(frame * c == (frame - 1) * c + c) by (nonlinear_arith);
            lemma_fundamental_div_mod_converse(n + c - 1, c, frame, n + c - 1 - frame * c);
        } else {
            assert(frame == 0);
            lemma_fundamental_div_mod_converse(n + c - 1, c, 0, c - 1);
        }
        assert(frame == frame_count(n, c));
    }
    delivered
}

} // verus!
