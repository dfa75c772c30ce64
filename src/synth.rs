use vstd::prelude::*;

use crate::playback::{frame_count, runs_out};
use crate::project::{Project, ProjectView};
use vstd::arithmetic::div_mod::{lemma_fundamental_div_mod, lemma_mod_bound};

verus! {

/// Samples rendered for one waveform: one per sample period over `time`
/// seconds.
pub open spec fn segment_samples(sample_rate: u32, time: usize) -> int {
    sample_rate as int * time as int
}

/// Samples rendered for a whole project: one segment per waveform, end to end.
pub open spec fn total_samples(p: ProjectView, sample_rate: u32) -> int {
    p.sequence.len() * segment_samples(sample_rate, p.time)
}

impl Project {
    /// How many samples each waveform of the sequence is rendered for at
    /// `sample_rate`, or `None` where that does not fit in `usize`.
    pub fn segment_len(&self, sample_rate: u32) -> (r: Option<usize>)
        ensures
            match r {
                Some(n) => n as int == segment_samples(sample_rate, self@.time),
                None => segment_samples(sample_rate, self@.time) > usize::MAX,
            },
    {
        let time = self.time();
        assert(sample_rate as int * time as int <= u32::MAX as int * u64::MAX as int)
            by (nonlinear_arith)
            requires
                sample_rate <= u32::MAX,
                time <= u64::MAX,
        ;
        let n: u128 = sample_rate as u128 * time as u128;
        if n <= usize::MAX as u128 {
            Some(n as usize)
        } else {
            None
        }
    }

    /// How many samples the whole sequence is rendered for at `sample_rate`,
    /// or `None` where that does not fit in `usize`.
    pub fn sample_count(&self, sample_rate: u32) -> (r: Option<usize>)
        ensures
            match r {
                Some(n) => n as int == total_samples(self@, sample_rate),
                None => total_samples(self@, sample_rate) > usize::MAX,
            },
    {
        let count = self.sequence().len();
        if count == 0 {
            assert(self@.sequence.len() == 0);
            assert(0 * segment_samples(sample_rate, self@.time) == 0) by (nonlinear_arith);
            return Some(0);
        }
        match self.segment_len(sample_rate) {
            None => {
                assert(count * segment_samples(sample_rate, self@.time) >= segment_samples(
                    sample_rate,
                    self@.time,
                )) by (nonlinear_arith)
                    requires
                        count >= 1,
                        segment_samples(sample_rate, self@.time) >= 0,
                ;
                None
            },
            Some(seg) => {
                assert(count as int * seg as int <= u64::MAX as int * u64::MAX as int)
                    by (nonlinear_arith)
                    requires
                        count <= u64::MAX,
                        seg <= u64::MAX,
                ;
                let n: u128 = count as u128 * seg as u128;
                if n <= usize::MAX as u128 {
                    Some(n as usize)
                } else {
                    None
                }
            },
        }
    }
}

/// A project with no waveforms renders no samples, so the first callback that
/// asks for any frame at all runs out and signals completion at once.
pub proof fn lemma_empty_sequence_completes_at_once(
    p: ProjectView,
    sample_rate: u32,
    buffer_len: int,
    channels: int,
)
    requires
        p.sequence.len() == 0,
        buffer_len > 0,
        channels > 0,
    ensures
        total_samples(p, sample_rate) == 0,
        runs_out(0, 0, frame_count(buffer_len, channels)),
{
    assert(0 * segment_samples(sample_rate, p.time) == 0) by (nonlinear_arith);
    let x = buffer_len + channels - 1;
    lemma_fundamental_div_mod(x, channels);
    lemma_mod_bound(x, channels);
    if x / channels <= 0 {
        assert(channels * (x / channels) <= 0) by (nonlinear_arith)
            requires
                channels > 0,
                x / channels <= 0,
        ;
    }
}

} // verus!
