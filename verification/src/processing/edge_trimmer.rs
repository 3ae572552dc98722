//! Leading and trailing silence trimming, frame by frame.
//!
//! A three-phase state machine: `Leading` holds back silent frames; once
//! `min_run_frames` of them have accumulated it drops them and every further
//! silent frame of the same run, so that a head silence at least that long is
//! dropped whole, while a shorter one is released when sound starts. `Passing`
//! lets frames through, and `Trailing` holds every frame from the first silent one on and
//! releases them again once `hysteresis_frames` loud frames in a row follow.
//! At the end of the stream a held trailing run is dropped only if its last
//! `min_run_frames` frames are silent.
//!
//! Whether a frame is silent (its loudest channel below the threshold) is
//! measured by the caller and handed in as one flag per frame.

use crate::slices::copy_slice;
use vstd::prelude::*;

verus! {

/// Phase of the trimmer.
#[derive(Debug, Clone, Copy, PartialEq, Eq, Structural)]
pub enum TrimPhase {
    /// Start of the stream: silent frames are held back and may be dropped.
    Leading,
    /// Audio is passing through.
    Passing,
    /// Silence was seen after audio: frames are held until audio returns.
    Trailing,
}

/// Counts kept by the trimmer, in samples.
#[derive(Debug, Clone, Copy, PartialEq, Eq, Structural)]
pub struct TrimStats {
    /// Samples dropped at the head of the stream.
    pub leading_samples_trimmed: usize,
    /// Samples dropped at the tail of the stream.
    pub trailing_samples_trimmed: usize,
    /// Samples handed to the trimmer while it was enabled.
    pub total_samples_processed: usize,
}

impl TrimStats {
    /// All counts zero.
    pub fn new() -> (s: TrimStats)
        ensures
            s.leading_samples_trimmed == 0,
            s.trailing_samples_trimmed == 0,
            s.total_samples_processed == 0,
    {
        TrimStats { leading_samples_trimmed: 0, trailing_samples_trimmed: 0, total_samples_processed: 0 }
    }
}

/// Frame counts that configure a trimmer (the caller converts milliseconds to frames).
#[derive(Debug, Clone, Copy, PartialEq, Eq, Structural)]
pub struct TrimSettings {
    /// Whether trimming is on; when off every chunk passes through untouched.
    pub enabled: bool,
    /// Silent frames in a row needed before silence counts as an edge.
    pub min_run_frames: usize,
    /// Loud frames in a row needed to leave `Leading` or `Trailing`.
    pub hysteresis_frames: usize,
}

/// The abstract state of a trimmer.
pub struct TrimView<T> {
    pub enabled: bool,
    pub channels: nat,
    pub hysteresis_frames: nat,
    pub min_run_frames: nat,
    pub phase: TrimPhase,
    pub hysteresis_counter: nat,
    pub leading_buffer: Seq<T>,
    pub leading_silent_count: nat,
    pub leading_dropping: bool,
    pub ring_buffer: Seq<T>,
    pub trailing_silent_count: nat,
    pub leading_trimmed: nat,
    pub trailing_trimmed: nat,
    pub total_processed: nat,
}

/// Frame `i` of an interleaved sequence with `channels` samples per frame.
pub open spec fn frame_of<T>(samples: Seq<T>, channels: nat, i: int) -> Seq<T> {
    samples.subrange(i * channels, i * channels + channels)
}

/// The samples held back by the trimmer and not yet released or dropped.
pub open spec fn pending<T>(v: TrimView<T>) -> Seq<T> {
    v.leading_buffer + v.ring_buffer
}

/// Samples dropped so far.
pub open spec fn trimmed<T>(v: TrimView<T>) -> nat {
    v.leading_trimmed + v.trailing_trimmed
}

/// One frame through the state machine: the next state and the samples released.
#[verifier::opaque]
pub open spec fn step<T>(v: TrimView<T>, frame: Seq<T>, silent: bool) -> (TrimView<T>, Seq<T>) {
    match v.phase {
        TrimPhase::Leading => {
            if silent && v.leading_dropping {
                (TrimView { leading_trimmed: v.leading_trimmed + frame.len(), ..v }, Seq::empty())
            } else if silent {
                let buf = v.leading_buffer + frame;
                let count = v.leading_silent_count + 1;
                if count >= v.min_run_frames {
                    (
                        TrimView {
                            leading_buffer: Seq::empty(),
                            leading_silent_count: 0,
                            leading_dropping: true,
                            leading_trimmed: v.leading_trimmed + buf.len(),
                            ..v
                        },
                        Seq::empty(),
                    )
                } else {
                    (TrimView { leading_buffer: buf, leading_silent_count: count, ..v }, Seq::empty())
                }
            } else {
                let released = if v.leading_silent_count < v.min_run_frames {
                    v.leading_buffer
                } else {
                    Seq::empty()
                };
                let h = v.hysteresis_counter + 1;
                let (phase, counter) = if h >= v.hysteresis_frames {
                    (TrimPhase::Passing, 0nat)
                } else {
                    (TrimPhase::Leading, h)
                };
                (
                    TrimView {
                        leading_buffer: Seq::empty(),
                        leading_silent_count: 0,
                        leading_dropping: false,
                        phase,
                        hysteresis_counter: counter,
                        ..v
                    },
                    released + frame,
                )
            }
        },
        TrimPhase::Passing => {
            if silent {
                (
                    TrimView {
                        phase: TrimPhase::Trailing,
                        hysteresis_counter: 0,
                        trailing_silent_count: 1,
                        ring_buffer: frame,
                        ..v
                    },
                    Seq::empty(),
                )
            } else {
                (v, frame)
            }
        },
        TrimPhase::Trailing => {
            let ring = v.ring_buffer + frame;
            if silent {
                (
                    TrimView {
                        ring_buffer: ring,
                        trailing_silent_count: v.trailing_silent_count + 1,
                        hysteresis_counter: 0,
                        ..v
                    },
                    Seq::empty(),
                )
            } else {
                let h = v.hysteresis_counter + 1;
                if h >= v.hysteresis_frames {
                    (
                        TrimView {
                            ring_buffer: Seq::empty(),
                            phase: TrimPhase::Passing,
                            hysteresis_counter: 0,
                            trailing_silent_count: 0,
                            ..v
                        },
                        ring,
                    )
                } else {
                    (
                        TrimView {
                            ring_buffer: ring,
                            trailing_silent_count: 0,
                            hysteresis_counter: h,
                            ..v
                        },
                        Seq::empty(),
                    )
                }
            }
        },
    }
}

/// The first `k` frames of `samples` through the state machine, starting from `v`:
/// the state reached and everything released, in order.
pub open spec fn run<T>(v: TrimView<T>, samples: Seq<T>, silent: Seq<bool>, k: nat) -> (
    TrimView<T>,
    Seq<T>,
)
    decreases k,
{
    if k == 0 {
        (v, Seq::empty())
    } else {
        let (mid, out) = run(v, samples, silent, (k - 1) as nat);
        let (next, released) = step(mid, frame_of(samples, v.channels, k - 1), silent[k - 1]);
        (next, out + released)
    }
}

/// What one chunk does to the trimmer: the new state and the samples returned.
/// A disabled trimmer, or an empty chunk, passes the chunk through and changes nothing.
pub open spec fn chunk_result<T>(v: TrimView<T>, samples: Seq<T>, silent: Seq<bool>) -> (
    TrimView<T>,
    Seq<T>,
) {
    if !v.enabled || samples.len() == 0 {
        (v, samples)
    } else {
        let counted = TrimView { total_processed: v.total_processed + samples.len(), ..v };
        run(counted, samples, silent, samples.len() / v.channels)
    }
}

/// A fresh trimmer's state.
pub open spec fn initial_view<T>(settings: TrimSettings, channels: nat) -> TrimView<T> {
    TrimView {
        enabled: settings.enabled,
        channels,
        hysteresis_frames: settings.hysteresis_frames as nat,
        min_run_frames: settings.min_run_frames as nat,
        phase: TrimPhase::Leading,
        hysteresis_counter: 0,
        leading_buffer: Seq::empty(),
        leading_silent_count: 0,
        leading_dropping: false,
        ring_buffer: Seq::empty(),
        trailing_silent_count: 0,
        leading_trimmed: 0,
        trailing_trimmed: 0,
        total_processed: 0,
    }
}

/// What the end of the stream releases, and the trailing samples it drops.
pub open spec fn final_release<T>(v: TrimView<T>) -> (Seq<T>, nat) {
    match v.phase {
        TrimPhase::Leading => (v.leading_buffer, 0),
        TrimPhase::Trailing => {
            if v.trailing_silent_count >= v.min_run_frames {
                (Seq::empty(), v.ring_buffer.len())
            } else {
                (v.ring_buffer, 0)
            }
        },
        TrimPhase::Passing => (Seq::empty(), 0),
    }
}

/// The invariant that every reachable state satisfies.
pub open spec fn view_wf<T>(v: TrimView<T>) -> bool {
    &&& v.channels > 0
    &&& v.leading_buffer.len() == v.leading_silent_count * v.channels
    &&& (v.leading_silent_count < v.min_run_frames || v.leading_silent_count == 0)
    &&& (v.leading_dropping ==> v.phase == TrimPhase::Leading && v.leading_silent_count == 0)
    &&& (v.hysteresis_counter < v.hysteresis_frames || v.hysteresis_counter == 0)
    &&& v.trailing_silent_count * v.channels <= v.ring_buffer.len()
    &&& (v.phase == TrimPhase::Leading ==> v.ring_buffer.len() == 0)
    &&& (v.phase == TrimPhase::Passing ==> v.ring_buffer.len() == 0 && v.leading_buffer.len() == 0)
    &&& (v.phase == TrimPhase::Trailing ==> v.leading_buffer.len() == 0)
}

/// Every sample dropped or held was handed in, so the counters never exceed the total.
pub open spec fn counts_fit<T>(v: TrimView<T>) -> bool {
    trimmed(v) + pending(v).len() <= v.total_processed
}

/// Streaming edge-silence trimmer over interleaved samples of type `T`.
pub struct EdgeTrimmer<T> {
    enabled: bool,
    channels: usize,
    hysteresis_frames: usize,
    min_run_frames: usize,
    phase: TrimPhase,
    hysteresis_counter: usize,
    leading_buffer: Vec<T>,
    leading_silent_count: usize,
    leading_dropping: bool,
    ring_buffer: Vec<T>,
    trailing_silent_count: usize,
    stats: TrimStats,
    fed: Ghost<Seq<Seq<T>>>,
    fed_flags: Ghost<Seq<Seq<bool>>>,
    returned: Ghost<Seq<T>>,
}

impl<T> View for EdgeTrimmer<T> {
    type V = TrimView<T>;

    closed spec fn view(&self) -> TrimView<T> {
        TrimView {
            enabled: self.enabled,
            channels: self.channels as nat,
            hysteresis_frames: self.hysteresis_frames as nat,
            min_run_frames: self.min_run_frames as nat,
            phase: self.phase,
            hysteresis_counter: self.hysteresis_counter as nat,
            leading_buffer: self.leading_buffer@,
            leading_silent_count: self.leading_silent_count as nat,
            leading_dropping: self.leading_dropping,
            ring_buffer: self.ring_buffer@,
            trailing_silent_count: self.trailing_silent_count as nat,
            leading_trimmed: self.stats.leading_samples_trimmed as nat,
            trailing_trimmed: self.stats.trailing_samples_trimmed as nat,
            total_processed: self.stats.total_samples_processed as nat,
        }
    }
}

impl<T: Copy> EdgeTrimmer<T> {
    /// The chunks fed so far, in order.
    pub closed spec fn fed_chunks(&self) -> Seq<Seq<T>> {
        self.fed@
    }

    /// The silence flags fed with those chunks.
    pub closed spec fn fed_flags(&self) -> Seq<Seq<bool>> {
        self.fed_flags@
    }

    /// Everything the chunks fed so far have returned, in order.
    pub closed spec fn returned(&self) -> Seq<T> {
        self.returned@
    }

    /// The settings the trimmer was made with.
    pub closed spec fn settings(&self) -> TrimSettings {
        TrimSettings {
            enabled: self.enabled,
            min_run_frames: self.min_run_frames,
            hysteresis_frames: self.hysteresis_frames,
        }
    }

    /// The trimmer's invariant: its state is what the chunks fed so far make
    /// of a fresh trimmer, and every sample fed is returned, held or dropped.
    pub closed spec fn wf(&self) -> bool {
        &&& self.core_wf()
        &&& self.fed_flags@.len() == self.fed@.len()
        &&& (self.enabled ==> (self@, self.returned@) == stream_result(
            initial_view::<T>(self.settings(), self.channels as nat),
            self.fed@,
            self.fed_flags@,
        ))
        &&& (self.enabled ==> self.returned@.len() + pending(self@).len() + trimmed(self@)
            == whole_frame_total(self.fed@, self.channels as nat))
        &&& (self.enabled ==> self@.total_processed == joined_chunks(self.fed@).len())
        &&& (!self.enabled ==> self.returned@ == joined_chunks(self.fed@))
    }

    /// The state machine's own invariant.
    closed spec fn core_wf(&self) -> bool {
        &&& (self.enabled ==> view_wf(self@))
        &&& (!self.enabled ==> self@ == initial_view::<T>(
            TrimSettings {
                enabled: false,
                min_run_frames: self.min_run_frames,
                hysteresis_frames: self.hysteresis_frames,
            },
            self.channels as nat,
        ))
        &&& counts_fit(self@)
        &&& self.stats.leading_samples_trimmed + self.stats.trailing_samples_trimmed
            + self.leading_buffer@.len() + self.ring_buffer@.len() <= usize::MAX
    }

    /// A trimmer in the `Leading` phase with nothing held and all counts zero.
    /// A trimmer that is switched on needs at least one channel; one that is
    /// off passes every chunk through, whatever the channel count.
    pub fn new(settings: TrimSettings, channels: usize) -> (t: Self)
        requires
            settings.enabled ==> channels > 0,
        ensures
            t.wf(),
            t@ == initial_view::<T>(settings, channels as nat),
            t.settings() == settings,
            t.fed_chunks() == Seq::<Seq<T>>::empty(),
            t.returned() == Seq::<T>::empty(),
    {
        let t = EdgeTrimmer {
            enabled: settings.enabled,
            channels,
            hysteresis_frames: settings.hysteresis_frames,
            min_run_frames: settings.min_run_frames,
            phase: TrimPhase::Leading,
            hysteresis_counter: 0,
            leading_buffer: Vec::new(),
            leading_silent_count: 0,
            leading_dropping: false,
            ring_buffer: Vec::new(),
            trailing_silent_count: 0,
            stats: TrimStats::new(),
            fed: Ghost(Seq::empty()),
            fed_flags: Ghost(Seq::empty()),
            returned: Ghost(Seq::empty()),
        };
        proof {
            assert(0 * channels == 0);
            assert(t@.leading_buffer =~= Seq::<T>::empty());
            assert(t@.ring_buffer =~= Seq::<T>::empty());
            assert(t@ == initial_view::<T>(settings, channels as nat));
            assert(joined_chunks(Seq::<Seq<T>>::empty()) =~= Seq::<T>::empty());
        }
        t
    }

    /// The counts so far.
    pub fn stats(&self) -> (s: &TrimStats)
        ensures
            s.leading_samples_trimmed == self@.leading_trimmed,
            s.trailing_samples_trimmed == self@.trailing_trimmed,
            s.total_samples_processed == self@.total_processed,
    {
        &self.stats
    }

    /// Feeds one chunk of interleaved samples, with one silence flag per whole
    /// frame, and returns the samples released by it. A trailing partial frame
    /// is counted as processed but not passed on.
    pub fn process_chunk(&mut self, samples: &[T], silent: &[bool]) -> (out: Vec<T>)
        requires
            old(self).wf(),
            old(self)@.enabled && samples@.len() > 0 ==> silent@.len() == samples@.len()
                / old(self)@.channels,
            old(self)@.total_processed + samples@.len() <= usize::MAX,
        ensures
            final(self).wf(),
            (final(self)@, out@) == chunk_result(old(self)@, samples@, silent@),
            final(self).settings() == old(self).settings(),
            final(self).fed_chunks() == old(self).fed_chunks().push(samples@),
            final(self).returned() == old(self).returned() + out@,
            old(self)@.enabled && samples@.len() > 0 ==> out@.len() + pending(final(self)@).len()
                + trimmed(final(self)@) == pending(old(self)@).len() + trimmed(old(self)@) + (
            samples@.len() / old(self)@.channels) * old(self)@.channels,
            old(self)@.enabled && starts_dropped_head(old(self)@, samples@, silent@) ==> {
                &&& out@.len() == 0
                &&& final(self)@.leading_dropping
                &&& final(self)@.leading_buffer.len() == 0
                &&& final(self)@.leading_trimmed == old(self)@.leading_trimmed
                    + old(self)@.leading_buffer.len() + (samples@.len() / old(self)@.channels)
                    * old(self)@.channels
            },
    {
        let ghost v0 = self@;
        let ghost fed0 = self.fed@;
        let ghost flags0 = self.fed_flags@;
        let ghost returned0 = self.returned@;
        let out = self.feed_chunk(samples, silent);
        self.fed = Ghost(fed0.push(samples@));
        self.fed_flags = Ghost(flags0.push(silent@));
        self.returned = Ghost(returned0 + out@);
        proof {
            assert(fed0.push(samples@).drop_last() =~= fed0);
            assert(flags0.push(silent@).drop_last() =~= flags0);
            assert(joined_chunks(fed0.push(samples@)) == joined_chunks(fed0) + samples@);
            assert(whole_frame_total(fed0.push(samples@), v0.channels) == whole_frame_total(
                fed0,
                v0.channels,
            ) + (samples@.len() / v0.channels) * v0.channels);
            if v0.enabled {
                lemma_chunk_keeps_order(v0, samples@, silent@);
            }
            if !v0.enabled {
                assert(returned0 + out@ =~= joined_chunks(fed0) + samples@);
            } else if samples@.len() == 0 {
                assert(returned0 + out@ =~= returned0);
                assert(samples@.len() / v0.channels == 0);
                assert(joined_chunks(fed0) + samples@ =~= joined_chunks(fed0));
            }
        }
        out
    }

    /// One chunk through the state machine (see `chunk_result`).
    fn feed_chunk(&mut self, samples: &[T], silent: &[bool]) -> (out: Vec<T>)
        requires
            old(self).core_wf(),
            old(self)@.enabled && samples@.len() > 0 ==> silent@.len() == samples@.len()
                / old(self)@.channels,
            old(self)@.total_processed + samples@.len() <= usize::MAX,
        ensures
            final(self).core_wf(),
            (final(self)@, out@) == chunk_result(old(self)@, samples@, silent@),
            old(self)@.enabled && samples@.len() > 0 ==> out@.len() + pending(final(self)@).len()
                + trimmed(final(self)@) == pending(old(self)@).len() + trimmed(old(self)@) + (
            samples@.len() / old(self)@.channels) * old(self)@.channels,
            old(self)@.enabled && starts_dropped_head(old(self)@, samples@, silent@) ==> {
                &&& out@.len() == 0
                &&& final(self)@.leading_dropping
                &&& final(self)@.leading_buffer.len() == 0
                &&& final(self)@.leading_trimmed == old(self)@.leading_trimmed
                    + old(self)@.leading_buffer.len() + (samples@.len() / old(self)@.channels)
                    * old(self)@.channels
            },
    {
        if !self.enabled || samples.len() == 0 {
            return copy_slice(samples);
        }
        self.stats.total_samples_processed = self.stats.total_samples_processed + samples.len();
        let ghost v0 = self@;
        let ghost n0 = samples@.len() / v0.channels;
        proof {
            lemma_frame_count(samples@.len(), v0.channels);
        }
        let channels = self.channels;
        let frame_count = samples.len() / channels;
        assert(frame_count == n0);
        let mut output: Vec<T> = Vec::new();
        let mut frame_idx: usize = 0;
        while frame_idx < frame_count
            invariant
                view_wf(v0),
                trimmed(v0) + pending(v0).len() + samples@.len() <= v0.total_processed,
                v0.channels == channels,
                channels > 0,
                frame_count == n0,
                n0 * channels <= samples@.len(),
                silent@.len() == n0,
                v0.total_processed <= usize::MAX,
                frame_idx <= frame_count,
                (self@, output@) == run(v0, samples@, silent@, frame_idx as nat),
                self.channels == channels,
            decreases frame_count - frame_idx,
        {
            proof {
                assert(frame_idx * channels <= n0 * channels) by (nonlinear_arith)
                    requires
                        frame_idx <= n0,
                ;
                lemma_run(v0, samples@, silent@, frame_idx as nat);
                assert((frame_idx + 1) * channels <= n0 * channels) by (nonlinear_arith)
                    requires
                        frame_idx < n0,
                ;
                assert((frame_idx + 1) * channels == frame_idx * channels + channels)
                    by (nonlinear_arith);
            }
            let ghost before = self@;
            let ghost out_before = output@;
            let is_silent = silent[frame_idx];
            let released = self.step_frame(samples, frame_idx, is_silent);
            let mut released = released;
            output.append(&mut released);
            proof {
                assert(output@ == out_before + step(before, frame_of(samples@, channels as nat, frame_idx as int), is_silent).1);
            }
            frame_idx = frame_idx + 1;
        }
        proof {
            lemma_run(v0, samples@, silent@, n0);
            if starts_dropped_head(v0, samples@, silent@) {
                lemma_head_silence_dropped_whole(v0, samples@, silent@, n0);
            }
        }
        output
    }

    /// One frame through the state machine (see `step`).
    fn step_frame(&mut self, samples: &[T], frame_idx: usize, is_silent: bool) -> (released: Vec<T>)
        requires
            view_wf(old(self)@),
            (frame_idx + 1) * old(self)@.channels <= samples.len(),
            trimmed(old(self)@) + pending(old(self)@).len() + old(self)@.channels <= usize::MAX,
        ensures
            (final(self)@, released@) == step(
                old(self)@,
                frame_of(samples@, old(self)@.channels, frame_idx as int),
                is_silent,
            ),
            final(self).channels == old(self).channels,
    {
        reveal(step);
        let ghost frame = frame_of(samples@, self.channels as nat, frame_idx as int);
        let channels = self.channels;
        let mut released: Vec<T> = Vec::new();
        proof {
            assert((frame_idx + 1) * channels == frame_idx * channels + channels)
                by (nonlinear_arith);
            assert(frame.len() == channels);
            assert(self.leading_silent_count * channels <= self.leading_buffer@.len());
            assert(self.trailing_silent_count <= self.trailing_silent_count * channels) by (nonlinear_arith)
                requires channels >= 1;
        }
        match self.phase {
            TrimPhase::Leading => {
                if is_silent && self.leading_dropping {
                    self.stats.leading_samples_trimmed = self.stats.leading_samples_trimmed + channels;
                } else if is_silent {
                    self.leading_silent_count = self.leading_silent_count + 1;
                    append_frame(&mut self.leading_buffer, samples, frame_idx, channels);
                    if self.leading_silent_count >= self.min_run_frames {
                        self.stats.leading_samples_trimmed = self.stats.leading_samples_trimmed
                            + self.leading_buffer.len();
                        self.leading_buffer.clear();
                        self.leading_silent_count = 0;
                        self.leading_dropping = true;
                    }
                } else {
                    if self.leading_silent_count < self.min_run_frames {
                        released.append(&mut self.leading_buffer);
                    } else {
                        self.leading_buffer.clear();
                    }
                    self.leading_silent_count = 0;
                    self.leading_dropping = false;
                    self.hysteresis_counter = self.hysteresis_counter + 1;
                    if self.hysteresis_counter >= self.hysteresis_frames {
                        self.phase = TrimPhase::Passing;
                        self.hysteresis_counter = 0;
                    }
                    append_frame(&mut released, samples, frame_idx, channels);
                }
            },
            TrimPhase::Passing => {
                if is_silent {
                    self.phase = TrimPhase::Trailing;
                    self.hysteresis_counter = 0;
                    self.trailing_silent_count = 0;
                    self.ring_buffer.clear();
                    append_frame(&mut self.ring_buffer, samples, frame_idx, channels);
                    self.trailing_silent_count = self.trailing_silent_count + 1;
                } else {
                    append_frame(&mut released, samples, frame_idx, channels);
                }
            },
            TrimPhase::Trailing => {
                append_frame(&mut self.ring_buffer, samples, frame_idx, channels);
                if is_silent {
                    self.trailing_silent_count = self.trailing_silent_count + 1;
                    self.hysteresis_counter = 0;
                } else {
                    self.trailing_silent_count = 0;
                    self.hysteresis_counter = self.hysteresis_counter + 1;
                    if self.hysteresis_counter >= self.hysteresis_frames {
                        released.append(&mut self.ring_buffer);
                        self.phase = TrimPhase::Passing;
                        self.hysteresis_counter = 0;
                        self.trailing_silent_count = 0;
                    }
                }
            },
        }
        proof {
            assert(self@.leading_buffer =~= step(old(self)@, frame, is_silent).0.leading_buffer);
            assert(self@.ring_buffer =~= step(old(self)@, frame, is_silent).0.ring_buffer);
            assert(released@ =~= step(old(self)@, frame, is_silent).1);
        }
        released
    }

    /// Ends the stream: returns what is still held and should be kept, and the
    /// final counts. A held trailing run whose last `min_run_frames` frames are
    /// silent is dropped and counted as trailing trim; anything else held is kept.
    ///
    /// Over the whole stream nothing is reordered: what the chunks returned,
    /// followed by what this releases, is the samples fed with some left out.
    /// When trimming is on, every whole-frame sample fed is returned, released
    /// or counted as trimmed, and every sample fed is counted as processed;
    /// when it is off, everything fed was returned unchanged.
    pub fn finalize(self) -> (result: (Vec<T>, TrimStats))
        requires
            self.wf(),
        ensures
            result.0@ == final_release(self@).0,
            result.1.leading_samples_trimmed == self@.leading_trimmed,
            result.1.trailing_samples_trimmed == self@.trailing_trimmed + final_release(self@).1,
            result.1.total_samples_processed == self@.total_processed,
            is_subsequence(self.returned() + result.0@, joined_chunks(self.fed_chunks())),
            self.settings().enabled ==> self.returned().len() + result.0@.len()
                + result.1.leading_samples_trimmed + result.1.trailing_samples_trimmed
                == whole_frame_total(self.fed_chunks(), self@.channels),
            self.settings().enabled ==> result.1.total_samples_processed == joined_chunks(
                self.fed_chunks(),
            ).len(),
            !self.settings().enabled ==> self.returned() + result.0@ == joined_chunks(
                self.fed_chunks(),
            ),
    {
        proof {
            if self.enabled {
                lemma_stream_keeps_order::<T>(
                    self.settings(),
                    self.channels as nat,
                    self.fed@,
                    self.fed_flags@,
                );
                lemma_finalize_conserves(self@);
            } else {
                assert(final_release(self@).0 =~= Seq::<T>::empty());
                assert(self.returned@ + final_release(self@).0 =~= self.returned@);
                lemma_subsequence_refl(self.returned@);
            }
        }
        let mut me = self;
        let out = match me.phase {
            TrimPhase::Leading => me.leading_buffer,
            TrimPhase::Trailing => {
                if me.trailing_silent_count >= me.min_run_frames {
                    me.stats.trailing_samples_trimmed = me.stats.trailing_samples_trimmed
                        + me.ring_buffer.len();
                    Vec::new()
                } else {
                    me.ring_buffer
                }
            },
            TrimPhase::Passing => Vec::new(),
        };
        (out, me.stats)
    }
}

proof fn lemma_frame_count(len: nat, channels: nat)
    requires
        channels > 0,
    ensures
        (len / channels) * channels <= len,
{
    assert((len / channels) * channels <= len) by (nonlinear_arith)
        requires
            channels > 0,
    ;
}

/// Appends frame `frame_idx` of `samples` to `buffer`.
fn append_frame<T: Copy>(buffer: &mut Vec<T>, samples: &[T], frame_idx: usize, channels: usize)
    requires
        channels > 0,
        (frame_idx + 1) * channels <= samples.len(),
    ensures
        final(buffer)@ == old(buffer)@ + frame_of(samples@, channels as nat, frame_idx as int),
{
    proof {
        assert(frame_idx * channels + channels == (frame_idx + 1) * channels) by (nonlinear_arith);
        assert(frame_idx * channels <= samples.len());
    }
    let base = frame_idx * channels;
    let ghost start = old(buffer)@;
    let mut ch: usize = 0;
    while ch < channels
        invariant
            ch <= channels,
            base == frame_idx * channels,
            base + channels <= samples.len(),
            buffer@ == start + samples@.subrange(base as int, base + ch),
        decreases channels - ch,
    {
        buffer.push(samples[base + ch]);
        ch = ch + 1;
        assert(samples@.subrange(base as int, base + ch) =~= samples@.subrange(
            base as int,
            base + ch - 1,
        ).push(samples@[base + ch - 1]));
    }
}

/// One step keeps the invariant and conserves samples: what is released, held
/// and dropped afterwards is what was held and dropped before plus the frame;
/// and when nothing is dropped, the release followed by what is held is what
/// was held followed by the frame.
pub proof fn lemma_step<T>(v: TrimView<T>, frame: Seq<T>, silent: bool)
    requires
        view_wf(v),
        frame.len() == v.channels,
    ensures
        ({
            let (next, out) = step(v, frame, silent);
            &&& view_wf(next)
            &&& out.len() + pending(next).len() + trimmed(next) == pending(v).len() + trimmed(v)
                + frame.len()
            &&& trimmed(next) >= trimmed(v)
            &&& next.channels == v.channels
            &&& next.min_run_frames == v.min_run_frames
            &&& next.hysteresis_frames == v.hysteresis_frames
            &&& next.enabled == v.enabled
            &&& next.total_processed == v.total_processed
            &&& (trimmed(next) == trimmed(v) ==> out + pending(next) == pending(v) + frame)
        }),
{
    reveal(step);
    let (next, out) = step(v, frame, silent);
    match v.phase {
        TrimPhase::Leading => {
            if silent {
                assert((v.leading_silent_count + 1) * v.channels == v.leading_silent_count
                    * v.channels + v.channels) by (nonlinear_arith);
            } else if v.leading_silent_count >= v.min_run_frames {
                assert(v.leading_silent_count == 0);
                assert(v.leading_silent_count * v.channels == 0) by (nonlinear_arith)
                    requires
                        v.leading_silent_count == 0,
                ;
                assert(v.leading_buffer =~= Seq::<T>::empty());
            }
        },
        TrimPhase::Passing => {
            if silent {
                assert(1 * v.channels == v.channels);
            }
        },
        TrimPhase::Trailing => {
            if silent {
                assert((v.trailing_silent_count + 1) * v.channels == v.trailing_silent_count
                    * v.channels + v.channels) by (nonlinear_arith);
            }
        },
    }
    assert(trimmed(next) != trimmed(v) || out + pending(next) =~= pending(v) + frame);
}

/// Running `k` frames keeps the invariant and conserves samples: released, held
/// and dropped afterwards equals held and dropped before plus the `k` frames; and
/// when nothing was dropped, the release followed by what is held is exactly what
/// was held followed by the frames, in order.
#[verifier::spinoff_prover]
#[verifier::rlimit(40)]
pub proof fn lemma_run<T>(v: TrimView<T>, samples: Seq<T>, silent: Seq<bool>, k: nat)
    requires
        view_wf(v),
        k * v.channels <= samples.len(),
    ensures
        ({
            let (next, out) = run(v, samples, silent, k);
            &&& view_wf(next)
            &&& out.len() + pending(next).len() + trimmed(next) == pending(v).len() + trimmed(v)
                + k * v.channels
            &&& trimmed(next) >= trimmed(v)
            &&& next.channels == v.channels
            &&& next.min_run_frames == v.min_run_frames
            &&& next.hysteresis_frames == v.hysteresis_frames
            &&& next.enabled == v.enabled
            &&& next.total_processed == v.total_processed
            &&& (trimmed(next) == trimmed(v) ==> out + pending(next) == pending(v)
                + samples.subrange(0, (k * v.channels) as int))
        }),
    decreases k,
{
    if k == 0 {
        assert(k * v.channels == 0);
        assert(samples.subrange(0, 0) =~= Seq::<T>::empty());
        assert(pending(v) + Seq::<T>::empty() =~= pending(v));
        assert(Seq::<T>::empty() + pending(v) =~= pending(v));
    } else {
        let km = (k - 1) as nat;
        assert(km * v.channels + v.channels == k * v.channels) by (nonlinear_arith)
            requires
                km + 1 == k,
        ;
        lemma_run(v, samples, silent, km);
        let (mid, out) = run(v, samples, silent, km);
        let f = frame_of(samples, v.channels, k - 1);
        assert(f.len() == v.channels);
        lemma_step(mid, f, silent[k - 1]);
        let (next, released) = step(mid, f, silent[k - 1]);
        if trimmed(next) == trimmed(v) {
            assert(samples.subrange(0, (k * v.channels) as int) =~= samples.subrange(0, (km * v.channels) as int)
                + f);
            assert(out + released + pending(next) =~= out + (released + pending(next)));
            assert(pending(v) + samples.subrange(0, (km * v.channels) as int) + f =~= pending(v) + (
            samples.subrange(0, (km * v.channels) as int) + f));
        }
    }
}

/// Ending the stream conserves samples too: what it releases plus what it drops
/// is exactly what was held.
pub proof fn lemma_finalize_conserves<T>(v: TrimView<T>)
    requires
        view_wf(v),
    ensures
        final_release(v).0.len() + final_release(v).1 == pending(v).len(),
{
}

/// Whether a chunk, fed while the trimmer is still in `Leading`, is wholly
/// silent (at least one frame) and brings the head silence to at least
/// `min_run_frames` frames: then the whole head silence is dropped.
pub open spec fn starts_dropped_head<T>(v: TrimView<T>, samples: Seq<T>, silent: Seq<bool>) -> bool {
    let frames = samples.len() / v.channels;
    &&& v.phase == TrimPhase::Leading
    &&& frames >= 1
    &&& v.leading_silent_count + frames >= v.min_run_frames
    &&& all_silent(silent, frames)
}

/// Whether the first `frames` flags all mark silence.
pub open spec fn all_silent(silent: Seq<bool>, frames: nat) -> bool {
    forall|i: int| 0 <= i < frames ==> #[trigger] silent[i]
}

proof fn lemma_head_run<T>(v: TrimView<T>, samples: Seq<T>, silent: Seq<bool>, j: nat)
    requires
        view_wf(v),
        v.phase == TrimPhase::Leading,
        j * v.channels <= samples.len(),
        all_silent(silent, j),
    ensures
        ({
            let (next, out) = run(v, samples, silent, j);
            &&& out.len() == 0
            &&& next.phase == TrimPhase::Leading
            &&& next.leading_trimmed + next.leading_buffer.len() == v.leading_trimmed
                + v.leading_buffer.len() + j * v.channels
            &&& next.trailing_trimmed == v.trailing_trimmed
            &&& (next.leading_dropping || next.leading_silent_count == v.leading_silent_count + j)
        }),
    decreases j,
{
    if j == 0 {
        assert(j * v.channels == 0) by (nonlinear_arith)
            requires
                j == 0,
        ;
    } else {
        let jm = (j - 1) as nat;
        assert(jm * v.channels + v.channels == j * v.channels) by (nonlinear_arith)
            requires
                jm + 1 == j,
        ;
        assert(all_silent(silent, jm));
        lemma_head_run(v, samples, silent, jm);
        lemma_run(v, samples, silent, jm);
        let (mid, out) = run(v, samples, silent, jm);
        let f = frame_of(samples, v.channels, j - 1);
        assert(f.len() == v.channels);
        assert(silent[j - 1]);
        reveal(step);
        if !mid.leading_dropping {
            assert(mid.leading_buffer.len() == mid.leading_silent_count * mid.channels);
        }
    }
}

/// A head silence at least `min_run_frames` long is dropped whole: when the
/// trimmer is still in `Leading` and the next `k` frames (at least one) are all
/// silent, bringing the silent run held so far to at least `min_run_frames`,
/// nothing is released, everything held and all `k` frames are counted as
/// leading trim, and the trimmer keeps dropping silent frames until sound starts.
pub proof fn lemma_head_silence_dropped_whole<T>(v: TrimView<T>, samples: Seq<T>, silent: Seq<bool>, k: nat)
    requires
        view_wf(v),
        v.phase == TrimPhase::Leading,
        k >= 1,
        v.leading_silent_count + k >= v.min_run_frames,
        k * v.channels <= samples.len(),
        all_silent(silent, k),
    ensures
        ({
            let (next, out) = run(v, samples, silent, k);
            &&& out.len() == 0
            &&& next.phase == TrimPhase::Leading
            &&& next.leading_dropping
            &&& next.leading_buffer.len() == 0
            &&& next.leading_trimmed == v.leading_trimmed + v.leading_buffer.len() + k * v.channels
            &&& next.trailing_trimmed == v.trailing_trimmed
        }),
{
    lemma_head_run(v, samples, silent, k);
    lemma_run(v, samples, silent, k);
    let next = run(v, samples, silent, k).0;
    if next.leading_dropping {
        assert(next.leading_silent_count * next.channels == 0) by (nonlinear_arith)
            requires
                next.leading_silent_count == 0,
        ;
    }
}

/// Once the trimmer is dropping a head silence, the first loud frame is
/// released on its own: none of the dropped silence comes back with it.
pub proof fn lemma_sound_after_dropped_head<T>(v: TrimView<T>, frame: Seq<T>)
    requires
        view_wf(v),
        v.leading_dropping,
    ensures
        step(v, frame, false).1 == frame,
        !step(v, frame, false).0.leading_dropping,
{
    reveal(step);
    assert(v.leading_buffer.len() == 0) by (nonlinear_arith)
        requires
            v.leading_buffer.len() == v.leading_silent_count * v.channels,
            v.leading_silent_count == 0,
    ;
    assert(v.leading_buffer + frame =~= frame);
    assert(Seq::<T>::empty() + frame =~= frame);
}

/// Whether `a` is `b` with some elements left out, the rest kept in order.
pub open spec fn is_subsequence<T>(a: Seq<T>, b: Seq<T>) -> bool
    decreases b.len(),
{
    if a.len() == 0 {
        true
    } else if b.len() == 0 {
        false
    } else {
        (a.last() == b.last() && is_subsequence(a.drop_last(), b.drop_last()))
            || is_subsequence(a, b.drop_last())
    }
}

proof fn lemma_subsequence_refl<T>(a: Seq<T>)
    ensures
        is_subsequence(a, a),
    decreases a.len(),
{
    if a.len() > 0 {
        lemma_subsequence_refl(a.drop_last());
    }
}

proof fn lemma_subsequence_extend<T>(a: Seq<T>, b: Seq<T>, d: Seq<T>)
    requires
        is_subsequence(a, b),
    ensures
        is_subsequence(a, b + d),
    decreases d.len(),
{
    if d.len() == 0 {
        assert(b + d =~= b);
    } else {
        lemma_subsequence_extend(a, b, d.drop_last());
        assert((b + d).drop_last() =~= b + d.drop_last());
    }
}

proof fn lemma_subsequence_append<T>(a: Seq<T>, b: Seq<T>, c: Seq<T>)
    requires
        is_subsequence(a, b),
    ensures
        is_subsequence(a + c, b + c),
    decreases c.len(),
{
    if c.len() == 0 {
        assert(a + c =~= a);
        assert(b + c =~= b);
    } else {
        lemma_subsequence_append(a, b, c.drop_last());
        assert((a + c).drop_last() =~= a + c.drop_last());
        assert((b + c).drop_last() =~= b + c.drop_last());
    }
}

proof fn lemma_subsequence_prepend<T>(p: Seq<T>, x: Seq<T>, y: Seq<T>)
    requires
        is_subsequence(x, y),
    ensures
        is_subsequence(p + x, p + y),
    decreases y.len(),
{
    if x.len() == 0 {
        lemma_subsequence_refl(p);
        lemma_subsequence_extend(p, p, y);
        assert(p + x =~= p);
    } else {
        assert((p + x).drop_last() =~= p + x.drop_last());
        assert((p + y).drop_last() =~= p + y.drop_last());
        if x.last() == y.last() && is_subsequence(x.drop_last(), y.drop_last()) {
            lemma_subsequence_prepend(p, x.drop_last(), y.drop_last());
        } else {
            lemma_subsequence_prepend(p, x, y.drop_last());
        }
    }
}

proof fn lemma_subsequence_prefix<T>(a: Seq<T>, b: Seq<T>, c: Seq<T>)
    requires
        is_subsequence(a + b, c),
    ensures
        is_subsequence(a, c),
    decreases c.len(),
{
    if a.len() > 0 {
        if b.len() == 0 {
            assert(a + b =~= a);
        } else if (a + b).last() == c.last() && is_subsequence((a + b).drop_last(), c.drop_last()) {
            assert((a + b).drop_last() =~= a + b.drop_last());
            lemma_subsequence_prefix(a, b.drop_last(), c.drop_last());
        } else {
            lemma_subsequence_prefix(a, b, c.drop_last());
        }
    }
}

proof fn lemma_subsequence_trans<T>(a: Seq<T>, b: Seq<T>, c: Seq<T>)
    requires
        is_subsequence(a, b),
        is_subsequence(b, c),
    ensures
        is_subsequence(a, c),
    decreases c.len(),
{
    if a.len() > 0 {
        if b.last() == c.last() && is_subsequence(b.drop_last(), c.drop_last()) {
            if a.last() == b.last() && is_subsequence(a.drop_last(), b.drop_last()) {
                lemma_subsequence_trans(a.drop_last(), b.drop_last(), c.drop_last());
            } else {
                lemma_subsequence_trans(a, b.drop_last(), c.drop_last());
            }
        } else {
            lemma_subsequence_trans(a, b, c.drop_last());
        }
    }
}

/// One step either keeps every sample in order (what it releases followed by
/// what it holds is what was held followed by the frame) or drops everything
/// it held together with the frame.
proof fn lemma_step_order<T>(v: TrimView<T>, frame: Seq<T>, silent: bool)
    requires
        view_wf(v),
        frame.len() == v.channels,
    ensures
        ({
            let (next, out) = step(v, frame, silent);
            out + pending(next) == pending(v) + frame || (out + pending(next)).len() == 0
        }),
{
    lemma_step(v, frame, silent);
    let (next, out) = step(v, frame, silent);
    if trimmed(next) != trimmed(v) {
        reveal(step);
        assert(next.leading_silent_count == 0);
        assert(next.leading_buffer.len() == next.leading_silent_count * next.channels);
        assert(next.leading_silent_count * next.channels == 0) by (nonlinear_arith)
            requires
                next.leading_silent_count == 0,
        ;
    }
}

proof fn lemma_run_order<T>(v: TrimView<T>, samples: Seq<T>, silent: Seq<bool>, k: nat)
    requires
        view_wf(v),
        k * v.channels <= samples.len(),
    ensures
        ({
            let (next, out) = run(v, samples, silent, k);
            is_subsequence(out + pending(next), pending(v) + samples.subrange(0, (k * v.channels) as int))
        }),
    decreases k,
{
    if k == 0 {
        assert(k * v.channels == 0) by (nonlinear_arith)
            requires
                k == 0,
        ;
        assert(Seq::<T>::empty() + pending(v) =~= pending(v));
        assert(pending(v) + samples.subrange(0, 0) =~= pending(v));
        lemma_subsequence_refl(pending(v));
    } else {
        let km = (k - 1) as nat;
        assert(km * v.channels + v.channels == k * v.channels) by (nonlinear_arith)
            requires
                km + 1 == k,
        ;
        lemma_run_order(v, samples, silent, km);
        lemma_run(v, samples, silent, km);
        let (mid, out) = run(v, samples, silent, km);
        let f = frame_of(samples, v.channels, k - 1);
        lemma_step_order(mid, f, silent[k - 1]);
        let (next, rel) = step(mid, f, silent[k - 1]);
        let before = pending(v) + samples.subrange(0, (km * v.channels) as int);
        assert(pending(v) + samples.subrange(0, (k * v.channels) as int) =~= before + f);
        if rel + pending(next) == pending(mid) + f {
            lemma_subsequence_append(out + pending(mid), before, f);
            assert(out + rel + pending(next) =~= out + (rel + pending(next)));
            assert(out + (pending(mid) + f) =~= out + pending(mid) + f);
        } else {
            lemma_subsequence_prefix(out, pending(mid), before);
            lemma_subsequence_extend(out, before, f);
            assert(out + rel + pending(next) =~= out);
        }
    }
}

/// What one chunk releases, followed by what the trimmer then holds, keeps the
/// held samples and the chunk in order, with some left out.
pub proof fn lemma_chunk_keeps_order<T>(v: TrimView<T>, samples: Seq<T>, silent: Seq<bool>)
    requires
        view_wf(v),
        v.enabled,
    ensures
        ({
            let (next, out) = chunk_result(v, samples, silent);
            &&& view_wf(next)
            &&& next.enabled
            &&& next.channels == v.channels
            &&& next.min_run_frames == v.min_run_frames
            &&& next.hysteresis_frames == v.hysteresis_frames
            &&& next.total_processed == v.total_processed + samples.len()
            &&& is_subsequence(out + pending(next), pending(v) + samples)
        }),
{
    if samples.len() == 0 {
        assert(samples + pending(v) =~= pending(v));
        assert(pending(v) + samples =~= pending(v));
        lemma_subsequence_refl(pending(v));
    } else {
        let counted = TrimView { total_processed: v.total_processed + samples.len(), ..v };
        let n = samples.len() / v.channels;
        lemma_frame_count(samples.len(), v.channels);
        lemma_run(counted, samples, silent, n);
        lemma_run_order(counted, samples, silent, n);
        let (next, out) = run(counted, samples, silent, n);
        let head = samples.subrange(0, (n * v.channels) as int);
        let rest = samples.subrange((n * v.channels) as int, samples.len() as int);
        lemma_subsequence_extend(out + pending(next), pending(v) + head, rest);
        assert(pending(v) + head + rest =~= pending(v) + samples);
    }
}

/// The samples of a stream of chunks, one after the other.
pub open spec fn joined_chunks<T>(chunks: Seq<Seq<T>>) -> Seq<T>
    decreases chunks.len(),
{
    if chunks.len() == 0 {
        Seq::empty()
    } else {
        joined_chunks(chunks.drop_last()) + chunks.last()
    }
}

/// Number of samples of a stream that lie in whole frames, chunk by chunk
/// (a trailing partial frame of a chunk is left out).
pub open spec fn whole_frame_total<T>(chunks: Seq<Seq<T>>, channels: nat) -> nat
    decreases chunks.len(),
{
    if chunks.len() == 0 {
        0
    } else {
        whole_frame_total(chunks.drop_last(), channels) + (chunks.last().len() / channels) * channels
    }
}

/// A stream of chunks through the trimmer, each with its silence flags: the
/// state reached and everything released, in order.
pub open spec fn stream_result<T>(v: TrimView<T>, chunks: Seq<Seq<T>>, flags: Seq<Seq<bool>>) -> (
    TrimView<T>,
    Seq<T>,
)
    decreases chunks.len(),
{
    if chunks.len() == 0 {
        (v, Seq::empty())
    } else {
        let (mid, out) = stream_result(v, chunks.drop_last(), flags.drop_last());
        let (next, released) = chunk_result(mid, chunks.last(), flags.last());
        (next, out + released)
    }
}

proof fn lemma_stream_order<T>(v: TrimView<T>, chunks: Seq<Seq<T>>, flags: Seq<Seq<bool>>)
    requires
        view_wf(v),
        v.enabled,
        flags.len() == chunks.len(),
    ensures
        ({
            let (next, out) = stream_result(v, chunks, flags);
            &&& view_wf(next)
            &&& next.enabled
            &&& next.channels == v.channels
            &&& is_subsequence(out + pending(next), pending(v) + joined_chunks(chunks))
        }),
    decreases chunks.len(),
{
    if chunks.len() == 0 {
        assert(Seq::<T>::empty() + pending(v) =~= pending(v));
        assert(pending(v) + joined_chunks(chunks) =~= pending(v));
        lemma_subsequence_refl(pending(v));
    } else {
        let rest = chunks.drop_last();
        lemma_stream_order(v, rest, flags.drop_last());
        let (mid, out) = stream_result(v, rest, flags.drop_last());
        let c = chunks.last();
        lemma_chunk_keeps_order(mid, c, flags.last());
        let (next, released) = chunk_result(mid, c, flags.last());
        let before = pending(v) + joined_chunks(rest);
        lemma_subsequence_prepend(out, released + pending(next), pending(mid) + c);
        lemma_subsequence_append(out + pending(mid), before, c);
        assert(out + (released + pending(next)) =~= out + released + pending(next));
        assert(out + (pending(mid) + c) =~= out + pending(mid) + c);
        lemma_subsequence_trans(out + released + pending(next), out + pending(mid) + c, before + c);
        assert(before + c =~= pending(v) + joined_chunks(chunks));
    }
}

/// A trimmer never reorders: over a whole stream fed to a fresh, switched-on
/// trimmer, the chunks it returns followed by what the end of the stream
/// releases are the input with some samples left out, the rest in their order.
pub proof fn lemma_stream_keeps_order<T>(
    settings: TrimSettings,
    channels: nat,
    chunks: Seq<Seq<T>>,
    flags: Seq<Seq<bool>>,
)
    requires
        settings.enabled,
        channels > 0,
        flags.len() == chunks.len(),
    ensures
        ({
            let (end, out) = stream_result(initial_view::<T>(settings, channels), chunks, flags);
            is_subsequence(out + final_release(end).0, joined_chunks(chunks))
        }),
{
    let v = initial_view::<T>(settings, channels);
    assert(v.leading_buffer.len() == v.leading_silent_count * v.channels) by (nonlinear_arith)
        requires
            v.leading_buffer.len() == 0,
            v.leading_silent_count == 0,
    ;
    lemma_stream_order(v, chunks, flags);
    let (end, out) = stream_result(v, chunks, flags);
    assert(pending(v) + joined_chunks(chunks) =~= joined_chunks(chunks));
    let fin = final_release(end).0;
    if end.phase == TrimPhase::Passing || (end.phase == TrimPhase::Trailing && end.trailing_silent_count
        >= end.min_run_frames) {
        lemma_subsequence_prefix(out, pending(end), joined_chunks(chunks));
        assert(out + fin =~= out);
    } else {
        assert(fin =~= pending(end));
    }
}

/// A loud frame ends any claim on the held tail: right after a loud frame
/// (with a minimum run of at least one frame), ending the stream releases
/// everything still held and trims nothing at the tail.
pub proof fn lemma_loud_last_frame_keeps_tail<T>(v: TrimView<T>, frame: Seq<T>)
    requires
        view_wf(v),
        v.min_run_frames > 0,
        frame.len() == v.channels,
    ensures
        ({
            let next = step(v, frame, false).0;
            &&& final_release(next).1 == 0
            &&& final_release(next).0 == pending(next)
        }),
{
    lemma_step(v, frame, false);
    reveal(step);
    let next = step(v, frame, false).0;
    if next.phase == TrimPhase::Leading {
        assert(pending(next) =~= next.leading_buffer);
    } else if next.phase == TrimPhase::Trailing {
        assert(pending(next) =~= next.ring_buffer);
    }
}

/// Whether the `count` flags before position `k` all mark silence.
pub open spec fn silent_before(silent: Seq<bool>, k: nat, count: nat) -> bool {
    count <= k && forall|j: int| k - count <= j < k ==> #[trigger] silent[j]
}

proof fn lemma_trailing_count_is_silent_run<T>(v: TrimView<T>, samples: Seq<T>, silent: Seq<bool>, k: nat)
    requires
        view_wf(v),
        v.phase != TrimPhase::Trailing,
        k * v.channels <= samples.len(),
    ensures
        ({
            let next = run(v, samples, silent, k).0;
            next.phase == TrimPhase::Trailing ==> silent_before(silent, k, next.trailing_silent_count)
        }),
    decreases k,
{
    if k > 0 {
        let km = (k - 1) as nat;
        assert(km * v.channels + v.channels == k * v.channels) by (nonlinear_arith)
            requires
                km + 1 == k,
        ;
        lemma_trailing_count_is_silent_run(v, samples, silent, km);
        lemma_run(v, samples, silent, km);
        reveal(step);
    }
}

/// Held trailing samples are dropped at the end of the stream only when the
/// last `min_run_frames` frames fed were all silent: a stream that starts
/// outside the trailing phase and ends on a loud frame, or on a silent run
/// shorter than the minimum, loses nothing at its tail.
pub proof fn lemma_tail_dropped_only_after_silent_run<T>(
    v: TrimView<T>,
    samples: Seq<T>,
    silent: Seq<bool>,
    k: nat,
)
    requires
        view_wf(v),
        v.phase != TrimPhase::Trailing,
        k * v.channels <= samples.len(),
    ensures
        ({
            let next = run(v, samples, silent, k).0;
            final_release(next).1 > 0 ==> silent_before(silent, k, v.min_run_frames)
        }),
{
    lemma_trailing_count_is_silent_run(v, samples, silent, k);
    lemma_run(v, samples, silent, k);
}

} // verus!
