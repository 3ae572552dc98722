//! Coordination of per-channel processing: checks the interleaved layout,
//! separates each channel and hands it, with its index, to the caller's
//! processor, collecting the results in channel order.

use crate::error::{AudioError, AudioResult};
use crate::processing::channel_separator::{channel_of, ChannelSeparator};
use crate::processing::performance_metrics::PerformanceEvaluator;
use crate::processing::simd_core::SimdCapabilities;
use crate::text::{decimal, push_decimal, push_str};
use vstd::prelude::*;

verus! {

/// Message for an empty sample buffer.
pub open spec fn empty_samples_message() -> Seq<char> {
    "样本数据不能为空"@
}

/// Message for a buffer that does not hold whole frames.
pub open spec fn layout_message(sample_count: nat, channel_count: nat) -> Seq<char> {
    "样本数量("@ + decimal(sample_count) + ")必须是声道数("@ + decimal(channel_count)
        + ")的倍数"@
}

/// Whether `sample_count` interleaved samples form whole frames of `channel_count`
/// channels (there are samples, and a positive channel count divides them).
pub open spec fn whole_frames(sample_count: nat, channel_count: nat) -> bool {
    sample_count > 0 && channel_count > 0 && sample_count % channel_count == 0
}

/// Whether `out` is an outcome `f` can give for channel `i` of the interleaved
/// `samples` of `count` channels, handed over with its index.
pub open spec fn channel_outcome<T, R, F: Fn(&[T], usize) -> AudioResult<R>>(
    f: F,
    samples: Seq<T>,
    count: nat,
    i: int,
    out: AudioResult<R>,
) -> bool {
    exists|s: &[T]|
        s@ == channel_of(samples, i as nat, count) && #[trigger] call_ensures(f, (s, i as usize), out)
}

/// Whether some channel's processing can only fail: every outcome the
/// processor may give for that channel is an error.
pub open spec fn channel_always_fails<T, R, F: Fn(&[T], usize) -> AudioResult<R>>(
    f: F,
    samples: Seq<T>,
    count: nat,
) -> bool {
    exists|i: int| 0 <= i < count && #[trigger] channel_only_fails(f, samples, count, i)
}

/// Whether every outcome the processor may give for channel `i` is an error.
pub open spec fn channel_only_fails<T, R, F: Fn(&[T], usize) -> AudioResult<R>>(
    f: F,
    samples: Seq<T>,
    count: nat,
    i: int,
) -> bool {
    forall|out: AudioResult<R>| #[trigger] channel_outcome(f, samples, count, i, out) ==> out is Err
}

/// Whether every outcome the processor may give for channel `i` is a success.
pub open spec fn channel_only_succeeds<T, R, F: Fn(&[T], usize) -> AudioResult<R>>(
    f: F,
    samples: Seq<T>,
    count: nat,
    i: int,
) -> bool {
    forall|out: AudioResult<R>| #[trigger] channel_outcome(f, samples, count, i, out) ==> out is Ok
}

/// Whether the only outcome the processor may give for channel `i` is the error `e`.
pub open spec fn channel_only_fails_with<T, R, F: Fn(&[T], usize) -> AudioResult<R>>(
    f: F,
    samples: Seq<T>,
    count: nat,
    i: int,
    e: AudioError,
) -> bool {
    forall|out: AudioResult<R>|
        #[trigger] channel_outcome(f, samples, count, i, out) ==> out == Err::<R, AudioError>(e)
}

/// Whether exactly one channel fails, always with `e`, and every other
/// channel always succeeds.
pub open spec fn sole_failure<T, R, F: Fn(&[T], usize) -> AudioResult<R>>(
    f: F,
    samples: Seq<T>,
    count: nat,
    e: AudioError,
) -> bool {
    exists|i: int|
        0 <= i < count && #[trigger] channel_only_fails_with(f, samples, count, i, e) && forall|j: int|
            0 <= j < count && j != i ==> #[trigger] channel_only_succeeds(f, samples, count, j)
}

/// The per-channel results of a run with the numbers of channels and samples
/// processed.
#[derive(Debug, PartialEq)]
pub struct ChannelRun<R> {
    /// One result per channel, in channel order.
    pub dr_results: Vec<R>,
    /// Number of channels processed.
    pub channels_processed: usize,
    /// Number of interleaved samples processed.
    pub total_samples: usize,
    /// Number of samples of each channel.
    pub samples_per_channel: usize,
}

/// Runs the processing of every channel of interleaved streams.
pub struct ProcessingCoordinator {
    channel_separator: ChannelSeparator,
    performance_evaluator: PerformanceEvaluator,
}

impl ProcessingCoordinator {
    /// The separator and the evaluator serve the same capabilities.
    #[verifier::type_invariant]
    spec fn same_capabilities(&self) -> bool {
        self.channel_separator.caps() == self.performance_evaluator.caps()
    }

    /// The capabilities the coordinator was made for.
    pub closed spec fn caps(&self) -> SimdCapabilities {
        self.channel_separator.caps()
    }

    /// A coordinator for the capabilities of the running CPU, as probed by the caller.
    pub fn new(capabilities: SimdCapabilities) -> (c: Self)
        ensures
            c.caps() == capabilities,
    {
        ProcessingCoordinator {
            channel_separator: ChannelSeparator::new(capabilities),
            performance_evaluator: PerformanceEvaluator::new(capabilities),
        }
    }

    /// The capabilities.
    pub fn simd_capabilities(&self) -> (c: &SimdCapabilities)
        ensures
            *c == self.caps(),
    {
        self.channel_separator.simd_capabilities()
    }

    /// The evaluator of this coordinator's performance, for the same capabilities.
    pub fn performance_evaluator(&self) -> (e: &PerformanceEvaluator)
        ensures
            e.caps() == self.caps(),
    {
        proof {
            use_type_invariant(self);
        }
        &self.performance_evaluator
    }

    /// Checks the layout of `sample_count` interleaved samples of `channel_count`
    /// channels and returns the samples per channel: refused when there are no
    /// samples, or when they do not form whole frames.
    pub fn samples_per_channel(sample_count: usize, channel_count: usize) -> (r: AudioResult<usize>)
        ensures
            r is Ok <==> whole_frames(sample_count as nat, channel_count as nat),
            r matches Ok(n) ==> n == sample_count / channel_count,
            sample_count == 0 ==> (r matches Err(AudioError::InvalidInput(m)) && m@
                == empty_samples_message()),
            sample_count > 0 && !whole_frames(sample_count as nat, channel_count as nat) ==> (r matches Err(
                AudioError::InvalidInput(m),
            ) && m@ == layout_message(sample_count as nat, channel_count as nat)),
    {
        if sample_count == 0 {
            return Err(AudioError::InvalidInput(String::from_str("样本数据不能为空")));
        }
        if channel_count == 0 || sample_count % channel_count != 0 {
            let mut m = String::new();
            push_str(&mut m, "样本数量(");
            push_decimal(&mut m, sample_count as u64);
            push_str(&mut m, ")必须是声道数(");
            push_decimal(&mut m, channel_count as u64);
            push_str(&mut m, ")的倍数");
            assert(m@ =~= layout_message(sample_count as nat, channel_count as nat));
            return Err(AudioError::InvalidInput(m));
        }
        Ok(sample_count / channel_count)
    }

    /// Separates each channel of a mono or stereo stream and hands it, with its
    /// index, to `channel_processor`, in channel order. The first failure stops
    /// the run and is returned; otherwise the results come back in channel order.
    pub fn coordinate_sequential_processing<T: Copy, R, F: Fn(&[T], usize) -> AudioResult<R>>(
        &self,
        samples: &[T],
        channel_count: usize,
        channel_processor: F,
    ) -> (r: AudioResult<Vec<R>>)
        requires
            1 <= channel_count <= 2,
            forall|s: &[T], i: usize| i < channel_count ==> call_requires(channel_processor, (s, i)),
        ensures
            r matches Ok(v) ==> v@.len() == channel_count && forall|i: int|
                0 <= i < channel_count ==> channel_outcome(
                    channel_processor,
                    samples@,
                    channel_count as nat,
                    i,
                    Ok::<R, AudioError>(#[trigger] v@[i]),
                ),
            r matches Err(e) ==> exists|i: int|
                0 <= i < channel_count && #[trigger] channel_outcome(
                    channel_processor,
                    samples@,
                    channel_count as nat,
                    i,
                    Err::<R, AudioError>(e),
                ),
    {
        let mut results: Vec<R> = Vec::new();
        let mut channel_idx: usize = 0;
        while channel_idx < channel_count
            invariant
                1 <= channel_count <= 2,
                channel_idx <= channel_count,
                results@.len() == channel_idx,
                forall|s: &[T], i: usize| i < channel_count ==> call_requires(channel_processor, (s, i)),
                forall|i: int|
                    0 <= i < channel_idx ==> channel_outcome(
                        channel_processor,
                        samples@,
                        channel_count as nat,
                        i,
                        Ok::<R, AudioError>(#[trigger] results@[i]),
                    ),
            decreases channel_count - channel_idx,
        {
            let channel_samples = self.channel_separator.extract_channel_samples_optimized(
                samples,
                channel_idx,
                channel_count,
            );
            let slice = channel_samples.as_slice();
            let outcome = channel_processor(slice, channel_idx);
            let ghost out = outcome;
            proof {
                let k = channel_idx as int;
                assert(call_ensures(channel_processor, (slice, k as usize), out));
                assert(slice@ == channel_of(samples@, k as nat, channel_count as nat));
                assert(channel_outcome(channel_processor, samples@, channel_count as nat, k, out));
            }
            match outcome {
                Ok(value) => {
                    let ghost before = results@;
                    results.push(value);
                    assert forall|i: int| 0 <= i < channel_idx + 1 implies channel_outcome(
                        channel_processor,
                        samples@,
                        channel_count as nat,
                        i,
                        Ok::<R, AudioError>(#[trigger] results@[i]),
                    ) by {
                        if i < channel_idx {
                            assert(results@[i] == before[i]);
                        } else {
                            assert(results@[i] == value);
                            assert(out == Ok::<R, AudioError>(value));
                        }
                    }
                },
                Err(e) => {
                    assert(out == Err::<R, AudioError>(e));
                    return Err(e);
                },
            }
            channel_idx = channel_idx + 1;
        }
        Ok(results)
    }

    /// Processes every channel of an interleaved mono or stereo stream: the
    /// layout is checked first (see `samples_per_channel`), then each channel
    /// is processed in order (see `coordinate_sequential_processing`). On
    /// success it returns the per-channel results with the numbers of channels
    /// and samples processed.
    pub fn process_channels<T: Copy, R, F: Fn(&[T], usize) -> AudioResult<R>>(
        &self,
        samples: &[T],
        channel_count: usize,
        channel_processor: F,
    ) -> (r: AudioResult<ChannelRun<R>>)
        requires
            whole_frames(samples@.len(), channel_count as nat) ==> channel_count <= 2,
            forall|s: &[T], i: usize| i < channel_count ==> call_requires(channel_processor, (s, i)),
        ensures
            samples@.len() == 0 ==> (r matches Err(AudioError::InvalidInput(m)) && m@
                == empty_samples_message()),
            samples@.len() > 0 && !whole_frames(samples@.len(), channel_count as nat) ==> (r matches Err(
                AudioError::InvalidInput(m),
            ) && m@ == layout_message(samples@.len(), channel_count as nat)),
            r matches Ok(run) ==> {
                &&& whole_frames(samples@.len(), channel_count as nat)
                &&& run.channels_processed == channel_count
                &&& run.total_samples == samples@.len()
                &&& run.samples_per_channel == samples@.len() / (channel_count as nat)
                &&& run.dr_results@.len() == channel_count
                &&& forall|i: int|
                    0 <= i < channel_count ==> channel_outcome(
                        channel_processor,
                        samples@,
                        channel_count as nat,
                        i,
                        Ok::<R, AudioError>(#[trigger] run.dr_results@[i]),
                    )
            },
            whole_frames(samples@.len(), channel_count as nat) ==> (r matches Err(e) ==> exists|i: int|
                0 <= i < channel_count && #[trigger] channel_outcome(
                    channel_processor,
                    samples@,
                    channel_count as nat,
                    i,
                    Err::<R, AudioError>(e),
                )),
            channel_always_fails(channel_processor, samples@, channel_count as nat) ==> r is Err,
            forall|e: AudioError|
                whole_frames(samples@.len(), channel_count as nat) && #[trigger] sole_failure(
                    channel_processor,
                    samples@,
                    channel_count as nat,
                    e,
                ) ==> r == Err::<ChannelRun<R>, AudioError>(e),
    {
        let per_channel = match Self::samples_per_channel(samples.len(), channel_count) {
            Err(e) => {
                return Err(e);
            },
            Ok(n) => n,
        };
        let outcome = self.coordinate_sequential_processing(samples, channel_count, channel_processor);
        proof {
            if channel_always_fails(channel_processor, samples@, channel_count as nat) && outcome is Ok {
                let i = choose|i: int|
                    0 <= i < channel_count && #[trigger] channel_only_fails(
                        channel_processor,
                        samples@,
                        channel_count as nat,
                        i,
                    );
                let v = outcome->Ok_0;
                assert(channel_outcome(
                    channel_processor,
                    samples@,
                    channel_count as nat,
                    i,
                    Ok::<R, AudioError>(v@[i]),
                ));
            }
            assert forall|e: AudioError|
                #[trigger] sole_failure(channel_processor, samples@, channel_count as nat, e)
                    implies outcome == Err::<Vec<R>, AudioError>(e) by {
                let i = choose|i: int|
                    0 <= i < channel_count && #[trigger] channel_only_fails_with(
                        channel_processor,
                        samples@,
                        channel_count as nat,
                        i,
                        e,
                    ) && forall|j: int|
                        0 <= j < channel_count && j != i ==> #[trigger] channel_only_succeeds(
                            channel_processor,
                            samples@,
                            channel_count as nat,
                            j,
                        );
                match outcome {
                    Ok(v) => {
                        assert(channel_outcome(
                            channel_processor,
                            samples@,
                            channel_count as nat,
                            i,
                            Ok::<R, AudioError>(v@[i]),
                        ));
                    },
                    Err(e2) => {
                        let j = choose|j: int|
                            0 <= j < channel_count && #[trigger] channel_outcome(
                                channel_processor,
                                samples@,
                                channel_count as nat,
                                j,
                                Err::<R, AudioError>(e2),
                            );
                        if j != i {
                            assert(channel_only_succeeds(
                                channel_processor,
                                samples@,
                                channel_count as nat,
                                j,
                            ));
                        }
                    },
                }
            }
        }
        match outcome {
            Err(e) => Err(e),
            Ok(dr_results) => Ok(
                ChannelRun {
                    dr_results,
                    channels_processed: channel_count,
                    total_samples: samples.len(),
                    samples_per_channel: per_channel,
                },
            ),
        }
    }
}

} // verus!
