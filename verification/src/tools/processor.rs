//! Streaming analysis bookkeeping: cutting the decoded stream into analysis
//! windows, the minimum-length check, reconciling the decoded length with the
//! header, and the batch lines written for files.

use crate::error::{AudioError, AudioResult};
use crate::text::{decimal, push_char, push_decimal, push_str};
use crate::tools::constants::buffers::MAX_BUFFER_HALF_WINDOWS;
use crate::tools::formatter::{batch_line_tail, batch_note_text};
use crate::tools::table::{format_two_cols_line, two_cols_line};
use crate::text::{push_signed_decimal, signed_decimal};
use vstd::prelude::*;

verus! {

/// The abstract state of a window buffer.
pub struct WindowView<T> {
    /// Samples per analysis window.
    pub window_size: nat,
    /// Whether the buffer is also compacted when it outgrows its hard limit.
    pub hard_limit: bool,
    /// Samples physically held, including those already handed out.
    pub held: Seq<T>,
    /// How many of the held samples were already handed out.
    pub offset: nat,
}

/// Samples received and not yet handed out, in order.
pub open spec fn unconsumed<T>(v: WindowView<T>) -> Seq<T> {
    v.held.subrange(v.offset as int, v.held.len() as int)
}

/// The contents of a list of windows.
pub open spec fn windows_view<T>(ws: Seq<Vec<T>>) -> Seq<Seq<T>> {
    ws.map_values(|w: Vec<T>| w@)
}

/// Windows joined end to end.
pub open spec fn joined<T>(ws: Seq<Seq<T>>) -> Seq<T>
    decreases ws.len(),
{
    if ws.len() == 0 {
        Seq::empty()
    } else {
        joined(ws.drop_last()) + ws.last()
    }
}

proof fn lemma_joined_push<T>(ws: Seq<Seq<T>>, w: Seq<T>)
    ensures
        joined(ws.push(w)) == joined(ws) + w,
{
    assert(ws.push(w).drop_last() =~= ws);
}

/// Whether the buffer is compacted after a window was handed out and the offset
/// moved to `offset`: when more than half of what is held was handed out, or,
/// with the hard limit on, when more than three and a half windows are held and
/// more than one window was handed out.
pub open spec fn compacts(window_size: nat, hard_limit: bool, held_len: nat, offset: nat) -> bool {
    ||| (hard_limit && 2 * held_len > MAX_BUFFER_HALF_WINDOWS * window_size && offset
        > window_size)
    ||| 2 * offset > held_len
}

/// Accumulates decoded chunks and hands them out in whole windows, oldest first.
///
/// Handed-out samples are not removed at once: an offset moves past them, and the
/// buffer is compacted (the handed-out prefix dropped) by the rule of `compacts`.
pub struct WindowBuffer<T> {
    window_size: usize,
    hard_limit: bool,
    buffer: Vec<T>,
    offset: usize,
}

impl<T> View for WindowBuffer<T> {
    type V = WindowView<T>;

    closed spec fn view(&self) -> WindowView<T> {
        WindowView {
            window_size: self.window_size as nat,
            hard_limit: self.hard_limit,
            held: self.buffer@,
            offset: self.offset as nat,
        }
    }
}

impl<T: Copy> WindowBuffer<T> {
    /// The buffer's invariant.
    pub open spec fn wf(&self) -> bool {
        &&& self@.window_size > 0
        &&& self@.offset <= self@.held.len()
    }

    /// An empty buffer for windows of `window_size` samples.
    pub fn new(window_size: usize, hard_limit: bool) -> (b: Self)
        requires
            window_size > 0,
        ensures
            b.wf(),
            b@.window_size == window_size,
            b@.hard_limit == hard_limit,
            b@.held.len() == 0,
            b@.offset == 0,
    {
        WindowBuffer { window_size, hard_limit, buffer: Vec::new(), offset: 0 }
    }

    /// Number of samples received and not yet handed out.
    pub fn unconsumed_len(&self) -> (n: usize)
        requires
            self.wf(),
        ensures
            n == unconsumed(self@).len(),
    {
        self.buffer.len() - self.offset
    }

    /// Number of samples physically held (handed-out ones included until the
    /// next compaction).
    pub fn held_len(&self) -> (n: usize)
        ensures
            n == self@.held.len(),
    {
        self.buffer.len()
    }

    /// Appends a decoded chunk and hands out every whole window now available,
    /// oldest first. The windows, joined, followed by what stays waiting, are
    /// exactly what was waiting followed by the chunk; less than one window
    /// stays waiting.
    pub fn push_and_take_windows(&mut self, chunk: &[T]) -> (ws: Vec<Vec<T>>)
        requires
            old(self).wf(),
            old(self)@.held.len() + chunk@.len() <= usize::MAX,
        ensures
            final(self).wf(),
            final(self)@.window_size == old(self)@.window_size,
            final(self)@.hard_limit == old(self)@.hard_limit,
            forall|i: int| 0 <= i < ws@.len() ==> (#[trigger] ws@[i])@.len() == old(self)@.window_size,
            joined(windows_view(ws@)) + unconsumed(final(self)@) == unconsumed(old(self)@) + chunk@,
            unconsumed(final(self)@).len() < old(self)@.window_size,
    {
        self.push_chunk(chunk);
        let ghost target = unconsumed(old(self)@) + chunk@;
        let mut ws: Vec<Vec<T>> = Vec::new();
        assert(joined(windows_view(ws@)) =~= Seq::<T>::empty());
        assert(joined(windows_view(ws@)) + unconsumed(self@) =~= target);
        loop
            invariant
                self.wf(),
                self@.window_size == old(self)@.window_size,
                self@.hard_limit == old(self)@.hard_limit,
                forall|i: int| 0 <= i < ws@.len() ==> (#[trigger] ws@[i])@.len() == self@.window_size,
                joined(windows_view(ws@)) + unconsumed(self@) == target,
            ensures
                unconsumed(self@).len() < self@.window_size,
            decreases unconsumed(self@).len(),
        {
            let ghost before = unconsumed(self@);
            let ghost done = ws@;
            match self.take_window() {
                Some(w) => {
                    proof {
                        lemma_window_then_rest(before, self@.window_size);
                        lemma_joined_push(windows_view(done), w@);
                        assert(windows_view(done.push(w)) =~= windows_view(done).push(w@));
                    }
                    ws.push(w);
                    assert(joined(windows_view(ws@)) + unconsumed(self@) =~= target);
                },
                None => {
                    break;
                },
            }
        }
        ws
    }

    /// Appends a decoded chunk.
    pub fn push_chunk(&mut self, chunk: &[T])
        requires
            old(self).wf(),
            old(self)@.held.len() + chunk@.len() <= usize::MAX,
        ensures
            final(self).wf(),
            final(self)@.window_size == old(self)@.window_size,
            final(self)@.hard_limit == old(self)@.hard_limit,
            final(self)@.offset == old(self)@.offset,
            final(self)@.held == old(self)@.held + chunk@,
            unconsumed(final(self)@) == unconsumed(old(self)@) + chunk@,
    {
        let ghost before = self.buffer@;
        let mut i: usize = 0;
        while i < chunk.len()
            invariant
                i <= chunk@.len(),
                self.buffer@ == before + chunk@.subrange(0, i as int),
                self.offset == old(self).offset,
                self.offset <= before.len(),
                self.window_size == old(self).window_size,
                self.hard_limit == old(self).hard_limit,
                before == old(self).buffer@,
            decreases chunk@.len() - i,
        {
            self.buffer.push(chunk[i]);
            i = i + 1;
            assert(chunk@.subrange(0, i as int) =~= chunk@.subrange(0, i - 1).push(chunk@[i - 1]));
        }
        assert(chunk@.subrange(0, chunk@.len() as int) =~= chunk@);
        assert(unconsumed(self@) =~= unconsumed(old(self)@) + chunk@);
    }

    /// Hands out the oldest whole window, if one has been received, and compacts
    /// the buffer when `compacts` says so.
    pub fn take_window(&mut self) -> (w: Option<Vec<T>>)
        requires
            old(self).wf(),
        ensures
            final(self).wf(),
            final(self)@.window_size == old(self)@.window_size,
            final(self)@.hard_limit == old(self)@.hard_limit,
            unconsumed(old(self)@).len() < old(self)@.window_size ==> w is None && final(self)@
                == old(self)@,
            unconsumed(old(self)@).len() >= old(self)@.window_size ==> {
                let ws = old(self)@.window_size as int;
                let moved = old(self)@.offset + old(self)@.window_size;
                &&& w is Some
                &&& w->0@ == unconsumed(old(self)@).subrange(0, ws)
                &&& unconsumed(final(self)@) == unconsumed(old(self)@).subrange(
                    ws,
                    unconsumed(old(self)@).len() as int,
                )
                &&& if compacts(
                    old(self)@.window_size,
                    old(self)@.hard_limit,
                    old(self)@.held.len(),
                    moved,
                ) {
                    final(self)@.offset == 0
                } else {
                    final(self)@.offset == moved && final(self)@.held == old(self)@.held
                }
            },
    {
        let available = self.buffer.len() - self.offset;
        if available < self.window_size {
            return None;
        }
        let mut window: Vec<T> = Vec::new();
        let start = self.offset;
        let end = self.offset + self.window_size;
        let mut i: usize = start;
        while i < end
            invariant
                start <= i <= end,
                end <= self.buffer@.len(),
                window@ == self.buffer@.subrange(start as int, i as int),
            decreases end - i,
        {
            window.push(self.buffer[i]);
            i = i + 1;
            assert(self.buffer@.subrange(start as int, i as int) =~= self.buffer@.subrange(
                start as int,
                i - 1,
            ).push(self.buffer@[i - 1]));
        }
        self.offset = end;
        let held = self.buffer.len();
        let over_limit = self.hard_limit && 2 * (held as u128) > (MAX_BUFFER_HALF_WINDOWS as u128) * (self.window_size as u128)
            && self.offset > self.window_size;
        let past_half = 2 * (self.offset as u128) > held as u128;
        if over_limit || past_half {
            self.compact();
        }
        proof {
            assert(window@ =~= unconsumed(old(self)@).subrange(0, self.window_size as int));
            assert(unconsumed(self@) =~= unconsumed(old(self)@).subrange(
                self.window_size as int,
                unconsumed(old(self)@).len() as int,
            ));
        }
        Some(window)
    }

    /// Drops the handed-out prefix.
    fn compact(&mut self)
        requires
            old(self).wf(),
        ensures
            final(self).wf(),
            final(self)@.window_size == old(self)@.window_size,
            final(self)@.hard_limit == old(self)@.hard_limit,
            final(self)@.offset == 0,
            final(self)@.held == unconsumed(old(self)@),
    {
        let mut kept: Vec<T> = Vec::new();
        let mut i: usize = self.offset;
        while i < self.buffer.len()
            invariant
                self.offset <= i <= self.buffer@.len(),
                kept@ == self.buffer@.subrange(self.offset as int, i as int),
            decreases self.buffer@.len() - i,
        {
            kept.push(self.buffer[i]);
            i = i + 1;
            assert(self.buffer@.subrange(self.offset as int, i as int) =~= self.buffer@.subrange(
                self.offset as int,
                i - 1,
            ).push(self.buffer@[i - 1]));
        }
        self.buffer = kept;
        self.offset = 0;
        assert(unconsumed(self@) =~= self@.held);
    }

    /// Hands out what is left at the end of the stream (less than a window when
    /// every whole window was taken).
    pub fn take_remaining(&mut self) -> (rest: Vec<T>)
        requires
            old(self).wf(),
        ensures
            final(self).wf(),
            rest@ == unconsumed(old(self)@),
            unconsumed(final(self)@).len() == 0,
            final(self)@.window_size == old(self)@.window_size,
            final(self)@.hard_limit == old(self)@.hard_limit,
    {
        self.compact();
        let mut rest: Vec<T> = Vec::new();
        std::mem::swap(&mut rest, &mut self.buffer);
        rest
    }
}

/// Fewest whole frames a stream must decode to be analysed.
pub const MINIMUM_FRAMES_FOR_ANALYSIS: u64 = 2;

/// Whole frames in `total_samples` interleaved samples (none without channels).
pub open spec fn frames_in(total_samples: u64, channels: u16) -> nat {
    if channels > 0 {
        (total_samples / (channels as u64)) as nat
    } else {
        0
    }
}

/// Message for a stream too short to analyse.
pub open spec fn too_short_message(frames: nat) -> Seq<char> {
    "音频文件样本数过少，无法进行可靠的DR分析。\n要求最少："@ + decimal(
        MINIMUM_FRAMES_FOR_ANALYSIS as nat,
    ) + " 个样本，实际："@ + decimal(frames) + " 个样本。\n音频文件需要足够的样本用于RMS计算和峰值检测。"@
}

/// Checks that the decoded stream holds enough whole frames; returns their number.
pub fn check_minimum_frames(total_samples: u64, channels: u16) -> (r: AudioResult<u64>)
    ensures
        r is Ok <==> frames_in(total_samples, channels) >= MINIMUM_FRAMES_FOR_ANALYSIS,
        r matches Ok(f) ==> f == frames_in(total_samples, channels),
        r matches Err(e) ==> e matches AudioError::InvalidInput(m) && m@ == too_short_message(
            frames_in(total_samples, channels),
        ),
{
    let frames: u64 = if channels > 0 {
        total_samples / (channels as u64)
    } else {
        0
    };
    if frames < MINIMUM_FRAMES_FOR_ANALYSIS {
        let mut m = String::new();
        push_str(&mut m, "音频文件样本数过少，无法进行可靠的DR分析。\n要求最少：");
        push_decimal(&mut m, MINIMUM_FRAMES_FOR_ANALYSIS);
        push_str(&mut m, " 个样本，实际：");
        push_decimal(&mut m, frames);
        push_str(&mut m, " 个样本。\n音频文件需要足够的样本用于RMS计算和峰值检测。");
        return Err(AudioError::InvalidInput(m));
    }
    Ok(frames)
}

/// The stream length recorded after analysis, and whether it was cut short.
#[derive(Debug, Clone, Copy, PartialEq, Eq, Structural)]
pub struct SampleCountCheck {
    /// Frames the format reports from now on.
    pub sample_count: u64,
    /// Frames missing against the header, when fewer were decoded than it promised.
    pub missing_frames: Option<u64>,
}

/// Reconciles the header's frame count with the frames decoded. When edges were
/// trimmed, the decoded count replaces the header's; otherwise fewer decoded
/// frames than the header promised mark the analysis as partial.
pub open spec fn sample_count_check(expected: u64, decoded: nat, trimmed: bool) -> (nat, Option<nat>) {
    let count = if trimmed {
        decoded
    } else {
        expected as nat
    };
    if decoded < count {
        (count, Some((expected - decoded) as nat))
    } else {
        (count, None)
    }
}

/// Reconciles the header's frame count `expected` with `total_samples` decoded
/// interleaved samples (see `sample_count_check`).
pub fn reconcile_sample_count(expected: u64, total_samples: u64, channels: u16, trimmed: bool) -> (r:
    SampleCountCheck)
    requires
        channels > 0,
    ensures
        r.sample_count == sample_count_check(expected, frames_in(total_samples, channels), trimmed).0,
        match r.missing_frames {
            Some(m) => sample_count_check(expected, frames_in(total_samples, channels), trimmed).1
                == Some(m as nat),
            None => sample_count_check(expected, frames_in(total_samples, channels), trimmed).1 is None,
        },
{
    let decoded = total_samples / (channels as u64);
    let count = if trimmed {
        decoded
    } else {
        expected
    };
    if decoded < count {
        SampleCountCheck { sample_count: count, missing_frames: Some(expected - decoded) }
    } else {
        SampleCountCheck { sample_count: count, missing_frames: None }
    }
}

/// `s` left-aligned in a field of `width` characters, as `{:<width}` formats it.
pub open spec fn pad_right(s: Seq<char>, width: nat) -> Seq<char> {
    if s.len() < width {
        s + Seq::new((width - s.len()) as nat, |i: int| ' ')
    } else {
        s
    }
}

/// Appends `s` left-aligned in a field of `width` characters.
pub fn push_padded(out: &mut String, s: &str, width: usize)
    ensures
        final(out)@ == old(out)@ + pad_right(s@, width as nat),
{
    push_str(out, s);
    let n = s.unicode_len();
    let mut k: usize = n;
    let ghost base = old(out)@ + s@;
    while k < width
        invariant
            n == s@.len(),
            n <= k,
            k <= width || k == n,
            out@ == base + Seq::new((k - n) as nat, |i: int| ' '),
        decreases width - k,
    {
        push_char(out, ' ');
        k = k + 1;
        assert(Seq::new((k - n) as nat, |i: int| ' ') =~= Seq::new((k - 1 - n) as nat, |i: int| ' ').push(' '));
    }
    proof {
        if n < width {
            assert(out@ =~= old(out)@ + pad_right(s@, width as nat));
        } else {
            assert(Seq::new(0, |i: int| ' ') =~= Seq::<char>::empty());
            assert(out@ =~= old(out)@ + pad_right(s@, width as nat));
        }
    }
}

/// Width of the first two columns of a batch result line.
pub const BATCH_COLUMN_WIDTH: usize = 17;

/// The batch line written for a file that could not be analysed.
pub open spec fn failed_batch_line(file_name: Seq<char>) -> Seq<char> {
    pad_right("-"@, BATCH_COLUMN_WIDTH as nat) + pad_right("处理失败"@, BATCH_COLUMN_WIDTH as nat)
        + file_name + "\n"@
}

/// Appends the batch line for a file whose analysis failed.
pub fn add_failed_to_batch_output(batch_output: &mut String, file_name: &str)
    ensures
        final(batch_output)@ == old(batch_output)@ + failed_batch_line(file_name@),
{
    push_padded(batch_output, "-", BATCH_COLUMN_WIDTH);
    push_padded(batch_output, "处理失败", BATCH_COLUMN_WIDTH);
    push_str(batch_output, file_name);
    push_str(batch_output, "\n");
    assert(batch_output@ =~= old(batch_output)@ + failed_batch_line(file_name@));
}

/// The aggregate DR of a file as its batch line shows it: the rounded value,
/// the precise value rendered with two decimals, and the LFE channels left out.
#[derive(Debug, Clone)]
pub struct BatchAggregate {
    pub official_dr: i32,
    pub precise: String,
    pub excluded_lfe: usize,
}

/// The batch line of an analysed file: its DR value, precise value and name
/// with the LFE note, or, when no channel qualified, a dash and a note.
pub open spec fn batch_line(
    file_name: Seq<char>,
    aggregate: Option<BatchAggregate>,
    exclude_lfe: bool,
    has_layout_metadata: bool,
    channels: nat,
) -> Seq<char> {
    match aggregate {
        Some(a) => two_cols_line(
            "DR"@ + signed_decimal(a.official_dr as int),
            a.precise@ + " dB"@,
            file_name + batch_note_text(a.excluded_lfe as nat, exclude_lfe, has_layout_metadata, channels),
        ),
        None => pad_right("-"@, BATCH_COLUMN_WIDTH as nat) + pad_right(
            "无有效声道"@,
            BATCH_COLUMN_WIDTH as nat,
        ) + file_name + "\n"@,
    }
}

/// Appends the batch line of an analysed file (see `batch_line`).
pub fn add_to_batch_output(
    batch_output: &mut String,
    file_name: &str,
    aggregate: Option<BatchAggregate>,
    exclude_lfe: bool,
    has_layout_metadata: bool,
    channels: u16,
)
    ensures
        final(batch_output)@ == old(batch_output)@ + batch_line(
            file_name@,
            aggregate,
            exclude_lfe,
            has_layout_metadata,
            channels as nat,
        ),
{
    match &aggregate {
        Some(a) => {
            let mut dr = String::new();
            push_str(&mut dr, "DR");
            push_signed_decimal(&mut dr, a.official_dr as i64);
            let mut precise = String::new();
            push_str(&mut precise, a.precise.as_str());
            push_str(&mut precise, " dB");
            let tail = batch_line_tail(file_name, a.excluded_lfe, exclude_lfe, has_layout_metadata, channels);
            let line = format_two_cols_line(dr.as_str(), precise.as_str(), tail.as_str());
            push_str(batch_output, line.as_str());
        },
        None => {
            push_padded(batch_output, "-", BATCH_COLUMN_WIDTH);
            push_padded(batch_output, "无有效声道", BATCH_COLUMN_WIDTH);
            push_str(batch_output, file_name);
            push_str(batch_output, "\n");
        },
    }
    assert(final(batch_output)@ =~= old(batch_output)@ + batch_line(
        file_name@,
        aggregate,
        exclude_lfe,
        has_layout_metadata,
        channels as nat,
    ));
}

/// Taking a window neither loses nor reorders samples: the window followed by
/// what remains is exactly what was waiting.
pub proof fn lemma_window_then_rest<T>(waiting: Seq<T>, window_size: nat)
    requires
        window_size <= waiting.len(),
    ensures
        waiting.subrange(0, window_size as int) + waiting.subrange(
            window_size as int,
            waiting.len() as int,
        ) == waiting,
{
    assert(waiting.subrange(0, window_size as int) + waiting.subrange(
        window_size as int,
        waiting.len() as int,
    ) =~= waiting);
}

/// Cutting a stream into windows loses and reorders nothing: when each push
/// hands out windows that, joined and followed by what then waits, equal what
/// waited before followed by the chunk (as `push_and_take_windows` ensures),
/// then over the whole stream all windows handed out, joined, followed by what
/// is finally left (what `take_remaining` returns), equal all chunks joined.
pub proof fn lemma_stream_windows<T>(
    chunks: Seq<Seq<T>>,
    handed_out: Seq<Seq<Seq<T>>>,
    waiting: Seq<Seq<T>>,
)
    requires
        handed_out.len() == chunks.len(),
        waiting.len() == chunks.len() + 1,
        waiting[0].len() == 0,
        forall|k: int|
            0 <= k < chunks.len() ==> joined(#[trigger] handed_out[k]) + waiting[k + 1] == waiting[k]
                + chunks[k],
    ensures
        joined(handed_out.map_values(|ws: Seq<Seq<T>>| joined(ws))) + waiting[chunks.len() as int]
            == joined(chunks),
    decreases chunks.len(),
{
    let n = chunks.len() as int;
    if n == 0 {
        assert(handed_out.map_values(|ws: Seq<Seq<T>>| joined(ws)) =~= Seq::<Seq<T>>::empty());
        assert(waiting[0] =~= Seq::<T>::empty());
    } else {
        let c = chunks.drop_last();
        let h = handed_out.drop_last();
        let w = waiting.drop_last();
        assert forall|k: int| 0 <= k < c.len() implies joined(#[trigger] h[k]) + w[k + 1] == w[k]
            + c[k] by {
            assert(h[k] == handed_out[k] && w[k + 1] == waiting[k + 1] && w[k] == waiting[k]
                && c[k] == chunks[k]);
        }
        lemma_stream_windows(c, h, w);
        let all = handed_out.map_values(|ws: Seq<Seq<T>>| joined(ws));
        assert(all.drop_last() =~= h.map_values(|ws: Seq<Seq<T>>| joined(ws)));
        assert(joined(handed_out[n - 1]) + waiting[n] == waiting[n - 1] + chunks[n - 1]);
        let prefix = joined(all.drop_last());
        let tail = joined(handed_out[n - 1]);
        assert(all.last() == tail);
        assert(w[n - 1] == waiting[n - 1]);
        assert(prefix + waiting[n - 1] == joined(c));
        assert(joined(all) == prefix + tail);
        assert(joined(all) + waiting[n] =~= prefix + (tail + waiting[n]));
        assert(prefix + (tail + waiting[n]) == prefix + (waiting[n - 1] + chunks[n - 1]));
        assert(prefix + (waiting[n - 1] + chunks[n - 1]) =~= (prefix + waiting[n - 1]) + chunks[n - 1]);
        assert(chunks.drop_last() == c);
    }
}

} // verus!
