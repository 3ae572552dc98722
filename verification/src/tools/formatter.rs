//! Decisions and text of the DR report that do not depend on floating point:
//! codec names, LFE channel positions, which channels enter the aggregate DR,
//! channel labels, layout names, durations, PCM bit rates and the notes
//! written around the results.

use crate::text::{decimal, owned, push_decimal, push_signed_decimal, push_str, signed_decimal};
use crate::tools::table::{
    cols_line, cols_prefix, display_width, format_cols_line, format_two_cols_line, repeated, separator_for_lines,
    separator_for_lines_with_char, separator_from, separator_text, strs_view, text_width,
    two_cols_line, padding, width_at, without_trailing_newlines,
};
use vstd::prelude::*;

verus! {

/// Codec of a decoded stream, as far as the report distinguishes codecs.
#[derive(Debug, Clone, Copy, PartialEq, Eq, Structural)]
pub enum CodecKind {
    Aac,
    Mp3,
    Vorbis,
    Opus,
    Flac,
    Alac,
    /// Any PCM variant (integer, float, A-law, mu-law).
    Pcm,
    Unknown,
}

impl CodecKind {
    /// Name shown in the report.
    pub fn display_name(&self) -> (s: &'static str)
        ensures
            s@ == codec_name(*self),
    {
        match self {
            CodecKind::Aac => "AAC",
            CodecKind::Mp3 => "MP3",
            CodecKind::Vorbis => "OGG Vorbis",
            CodecKind::Opus => "Opus",
            CodecKind::Flac => "FLAC",
            CodecKind::Alac => "ALAC",
            CodecKind::Pcm => "WAV/PCM",
            CodecKind::Unknown => "Unknown",
        }
    }

    /// Whether the codec is lossy (AAC, MP3, Vorbis, Opus).
    pub fn is_lossy(&self) -> (b: bool)
        ensures
            b == (*self == CodecKind::Aac || *self == CodecKind::Mp3 || *self == CodecKind::Vorbis
                || *self == CodecKind::Opus),
    {
        match self {
            CodecKind::Aac | CodecKind::Mp3 | CodecKind::Vorbis | CodecKind::Opus => true,
            _ => false,
        }
    }
}

/// Name of a codec in the report.
pub open spec fn codec_name(c: CodecKind) -> Seq<char> {
    match c {
        CodecKind::Aac => "AAC"@,
        CodecKind::Mp3 => "MP3"@,
        CodecKind::Vorbis => "OGG Vorbis"@,
        CodecKind::Opus => "Opus"@,
        CodecKind::Flac => "FLAC"@,
        CodecKind::Alac => "ALAC"@,
        CodecKind::Pcm => "WAV/PCM"@,
        CodecKind::Unknown => "Unknown"@,
    }
}

/// Position of the LFE channel in the standard layout for a channel count,
/// if that layout has one.
pub open spec fn standard_lfe_index(channel_count: nat) -> Option<nat> {
    if channel_count == 3 {
        Some(2)
    } else if channel_count == 4 {
        Some(3)
    } else if channel_count == 6 {
        Some(5)
    } else if channel_count == 7 {
        Some(6)
    } else if channel_count == 8 || channel_count == 10 || channel_count == 12 || channel_count
        == 14 {
        Some(7)
    } else if channel_count == 16 || channel_count == 18 || channel_count == 20 {
        Some(9)
    } else if channel_count == 22 || channel_count == 24 || channel_count == 32 {
        Some(11)
    } else {
        None
    }
}

/// The LFE positions of the standard layout, as a sequence.
pub open spec fn standard_lfe(channel_count: nat) -> Seq<usize> {
    match standard_lfe_index(channel_count) {
        Some(i) => seq![i as usize],
        None => Seq::empty(),
    }
}

/// LFE channel positions of the standard layout for `channel_count` channels
/// (2.1, 3.1, 5.1, 6.1, 7.1, 7.1.2, 7.1.4, 7.1.6, 9.1.6, 9.1.8, 9.1.10, 11.1.10,
/// 11.1.12 and 32 channels); none for other counts.
pub fn identify_lfe_channels(channel_count: u16) -> (v: Vec<usize>)
    ensures
        v@ == standard_lfe(channel_count as nat),
{
    let idx: Option<usize> = match channel_count {
        3 => Some(2),
        4 => Some(3),
        6 => Some(5),
        7 => Some(6),
        8 | 10 | 12 | 14 => Some(7),
        16 | 18 | 20 => Some(9),
        22 | 24 | 32 => Some(11),
        _ => None,
    };
    let mut v: Vec<usize> = Vec::new();
    if let Some(i) = idx {
        v.push(i);
    }
    assert(v@ =~= standard_lfe(channel_count as nat));
    v
}

/// The elements of `s` below `bound`, in order.
pub open spec fn keep_below(s: Seq<usize>, bound: nat) -> Seq<usize>
    decreases s.len(),
{
    if s.len() == 0 {
        Seq::empty()
    } else {
        let rest = keep_below(s.drop_last(), bound);
        if s.last() < bound {
            rest.push(s.last())
        } else {
            rest
        }
    }
}

fn keep_indices_below(s: &Vec<usize>, bound: usize) -> (r: Vec<usize>)
    ensures
        r@ == keep_below(s@, bound as nat),
{
    let mut r: Vec<usize> = Vec::new();
    let mut i: usize = 0;
    while i < s.len()
        invariant
            i <= s@.len(),
            r@ == keep_below(s@.take(i as int), bound as nat),
        decreases s@.len() - i,
    {
        proof {
            assert(s@.take(i + 1).drop_last() =~= s@.take(i as int));
        }
        if s[i] < bound {
            r.push(s[i]);
        }
        i = i + 1;
    }
    assert(s@.take(s@.len() as int) =~= s@);
    r
}

/// LFE positions shown in the report: those of the container's layout when it
/// provides any, else those of the standard layout; only positions below the
/// number of channel results are kept.
pub open spec fn display_lfe(
    has_layout_metadata: bool,
    layout_lfe: Seq<usize>,
    channels: nat,
    result_count: nat,
) -> Seq<usize> {
    if has_layout_metadata && layout_lfe.len() > 0 {
        keep_below(layout_lfe, result_count)
    } else {
        keep_below(standard_lfe(channels), result_count)
    }
}

/// LFE positions shown in the report (see `display_lfe`).
pub fn lfe_channel_positions(
    has_layout_metadata: bool,
    layout_lfe: &Vec<usize>,
    channels: u16,
    result_count: usize,
) -> (v: Vec<usize>)
    ensures
        v@ == display_lfe(has_layout_metadata, layout_lfe@, channels as nat, result_count as nat),
{
    if has_layout_metadata && layout_lfe.len() > 0 {
        keep_indices_below(layout_lfe, result_count)
    } else {
        let standard = identify_lfe_channels(channels);
        keep_indices_below(&standard, result_count)
    }
}

/// LFE positions excluded from the aggregate: only when exclusion is asked for
/// and the container describes its layout; then the container's positions, or
/// the standard ones when it lists none, below the number of results.
pub open spec fn excluded_lfe_positions(
    exclude_lfe: bool,
    has_layout_metadata: bool,
    layout_lfe: Seq<usize>,
    channels: nat,
    result_count: nat,
) -> Seq<usize> {
    if exclude_lfe && has_layout_metadata {
        if layout_lfe.len() > 0 {
            keep_below(layout_lfe, result_count)
        } else {
            keep_below(standard_lfe(channels), result_count)
        }
    } else {
        Seq::empty()
    }
}

/// Channels among the first `k` that enter the aggregate: not silent and not
/// an excluded LFE channel.
pub open spec fn valid_prefix(silent: Seq<bool>, lfe: Seq<usize>, k: nat) -> Seq<usize>
    decreases k,
{
    if k == 0 {
        Seq::empty()
    } else {
        let prev = valid_prefix(silent, lfe, (k - 1) as nat);
        let i = (k - 1) as int;
        if !silent[i] && !lfe.contains(i as usize) {
            prev.push(i as usize)
        } else {
            prev
        }
    }
}

/// Channels among the first `k` left out as LFE (silent ones count as silent).
pub open spec fn lfe_prefix(silent: Seq<bool>, lfe: Seq<usize>, k: nat) -> nat
    decreases k,
{
    if k == 0 {
        0
    } else {
        let prev = lfe_prefix(silent, lfe, (k - 1) as nat);
        let i = (k - 1) as int;
        if !silent[i] && lfe.contains(i as usize) {
            prev + 1
        } else {
            prev
        }
    }
}

/// Which channels enter the aggregate DR value.
#[derive(Debug, Clone, PartialEq, Eq)]
pub struct AggregationSelection {
    /// Positions of the channels averaged, ascending.
    pub valid: Vec<usize>,
    /// Channels left out, silent or LFE.
    pub excluded_count: usize,
    /// Channels left out as LFE.
    pub excluded_lfe: usize,
}

fn contains_index(v: &Vec<usize>, x: usize) -> (b: bool)
    ensures
        b == v@.contains(x),
{
    let mut i: usize = 0;
    while i < v.len()
        invariant
            i <= v@.len(),
            forall|j: int| 0 <= j < i ==> v@[j] != x,
        decreases v@.len() - i,
    {
        if v[i] == x {
            assert(v@[i as int] == x);
            return true;
        }
        i = i + 1;
    }
    false
}

proof fn lemma_valid_prefix_len(silent: Seq<bool>, lfe: Seq<usize>, k: nat)
    ensures
        valid_prefix(silent, lfe, k).len() + lfe_prefix(silent, lfe, k) <= k,
    decreases k,
{
    if k > 0 {
        lemma_valid_prefix_len(silent, lfe, (k - 1) as nat);
    }
}

/// Selects the channels whose DR values are averaged into the official value:
/// every channel that is not silent and not an excluded LFE channel (see
/// `excluded_lfe_positions`). `None` when there are no channels or none qualifies.
pub fn select_aggregation_channels(
    silent: &[bool],
    exclude_lfe: bool,
    has_layout_metadata: bool,
    layout_lfe: &Vec<usize>,
    channels: u16,
) -> (r: Option<AggregationSelection>)
    ensures
        ({
            let lfe = excluded_lfe_positions(
                exclude_lfe,
                has_layout_metadata,
                layout_lfe@,
                channels as nat,
                silent@.len(),
            );
            let valid = valid_prefix(silent@, lfe, silent@.len());
            &&& r is None <==> valid.len() == 0
            &&& r matches Some(sel) ==> {
                &&& sel.valid@ == valid
                &&& sel.excluded_count == silent@.len() - valid.len()
                &&& sel.excluded_lfe == lfe_prefix(silent@, lfe, silent@.len())
            }
        }),
{
    let n = silent.len();
    let lfe: Vec<usize> = if exclude_lfe && has_layout_metadata {
        if layout_lfe.len() > 0 {
            keep_indices_below(layout_lfe, n)
        } else {
            let standard = identify_lfe_channels(channels);
            keep_indices_below(&standard, n)
        }
    } else {
        Vec::new()
    };
    let mut valid: Vec<usize> = Vec::new();
    let mut excluded_lfe: usize = 0;
    let mut i: usize = 0;
    while i < n
        invariant
            i <= n,
            n == silent@.len(),
            valid@ == valid_prefix(silent@, lfe@, i as nat),
            excluded_lfe == lfe_prefix(silent@, lfe@, i as nat),
            valid@.len() + excluded_lfe <= i,
        decreases n - i,
    {
        proof {
            lemma_valid_prefix_len(silent@, lfe@, (i + 1) as nat);
        }
        if !silent[i] {
            if contains_index(&lfe, i) {
                excluded_lfe = excluded_lfe + 1;
            } else {
                valid.push(i);
            }
        }
        i = i + 1;
    }
    proof {
        assert(lfe@ == excluded_lfe_positions(
            exclude_lfe,
            has_layout_metadata,
            layout_lfe@,
            channels as nat,
            silent@.len(),
        ));
    }
    if valid.len() == 0 {
        return None;
    }
    let excluded_count = n - valid.len();
    Some(AggregationSelection { valid, excluded_count, excluded_lfe })
}

proof fn lemma_push_contains(s: Seq<usize>, x: usize, y: usize)
    ensures
        s.push(x).contains(y) <==> (s.contains(y) || x == y),
{
    if s.push(x).contains(y) {
        let j = choose|j: int| 0 <= j < s.push(x).len() && #[trigger] s.push(x)[j] == y;
        if j < s.len() {
            assert(s[j] == y);
        }
    }
    if s.contains(y) {
        let j = choose|j: int| 0 <= j < s.len() && #[trigger] s[j] == y;
        assert(s.push(x)[j] == y);
    }
    if x == y {
        assert(s.push(x)[s.len() as int] == y);
    }
}

/// Silent channels never enter the aggregate, and excluded LFE channels never
/// do; every channel that is neither enters it.
pub proof fn lemma_aggregate_membership(silent: Seq<bool>, lfe: Seq<usize>, k: nat, i: int)
    requires
        0 <= i < k <= silent.len(),
        k <= usize::MAX,
    ensures
        valid_prefix(silent, lfe, k).contains(i as usize) <==> (!silent[i] && !lfe.contains(
            i as usize,
        )),
    decreases k,
{
    let km = (k - 1) as nat;
    let prev = valid_prefix(silent, lfe, km);
    let last = (k - 1) as usize;
    lemma_push_contains(prev, last, i as usize);
    if i < k - 1 {
        lemma_aggregate_membership(silent, lfe, km, i);
    } else {
        lemma_valid_prefix_below(silent, lfe, km);
        if prev.contains(i as usize) {
            let j = choose|j: int| 0 <= j < prev.len() && #[trigger] prev[j] == i as usize;
            assert(prev[j] < km);
        }
    }
}

proof fn lemma_keep_below_contains(s: Seq<usize>, bound: nat, x: usize)
    ensures
        keep_below(s, bound).contains(x) <==> (s.contains(x) && x < bound),
    decreases s.len(),
{
    if s.len() > 0 {
        let rest = keep_below(s.drop_last(), bound);
        lemma_keep_below_contains(s.drop_last(), bound, x);
        lemma_push_contains(rest, s.last(), x);
        lemma_push_contains(s.drop_last(), s.last(), x);
        assert(s.drop_last().push(s.last()) =~= s);
    }
}

/// With LFE exclusion asked for and the container naming its LFE channels,
/// exactly the channels it names are left out as LFE: a channel that is not
/// silent enters the aggregate if and only if the container does not list it,
/// whatever the standard layout for that channel count would say.
pub proof fn lemma_container_lfe_is_excluded(
    silent: Seq<bool>,
    layout_lfe: Seq<usize>,
    channels: nat,
    i: int,
)
    requires
        layout_lfe.len() > 0,
        0 <= i < silent.len(),
        silent.len() <= usize::MAX,
        !silent[i],
    ensures
        valid_prefix(
            silent,
            excluded_lfe_positions(true, true, layout_lfe, channels, silent.len()),
            silent.len(),
        ).contains(i as usize) <==> !layout_lfe.contains(i as usize),
{
    let lfe = excluded_lfe_positions(true, true, layout_lfe, channels, silent.len());
    lemma_aggregate_membership(silent, lfe, silent.len(), i);
    lemma_keep_below_contains(layout_lfe, silent.len(), i as usize);
}

/// With LFE exclusion asked for and layout metadata that names no LFE
/// channel, the standard layout's LFE position is left out: a channel that is
/// not silent enters the aggregate if and only if it is not that position.
pub proof fn lemma_standard_lfe_is_excluded(silent: Seq<bool>, channels: nat, i: int)
    requires
        0 <= i < silent.len(),
        silent.len() <= usize::MAX,
        !silent[i],
    ensures
        valid_prefix(
            silent,
            excluded_lfe_positions(true, true, Seq::empty(), channels, silent.len()),
            silent.len(),
        ).contains(i as usize) <==> !(standard_lfe_index(channels) == Some(i as nat)),
{
    let lfe = excluded_lfe_positions(true, true, Seq::empty(), channels, silent.len());
    lemma_aggregate_membership(silent, lfe, silent.len(), i);
    lemma_keep_below_contains(standard_lfe(channels), silent.len(), i as usize);
    if standard_lfe(channels).contains(i as usize) {
        let j = choose|j: int| 0 <= j < standard_lfe(channels).len() && #[trigger] standard_lfe(channels)[j] == i as usize;
    }
    if standard_lfe_index(channels) == Some(i as nat) {
        assert(standard_lfe(channels)[0] == i as usize);
    }
}

/// Without LFE exclusion, or without layout metadata, every channel that is
/// not silent enters the aggregate.
pub proof fn lemma_no_lfe_exclusion_keeps_loud_channels(
    silent: Seq<bool>,
    exclude_lfe: bool,
    has_layout_metadata: bool,
    layout_lfe: Seq<usize>,
    channels: nat,
    i: int,
)
    requires
        !(exclude_lfe && has_layout_metadata),
        0 <= i < silent.len(),
        silent.len() <= usize::MAX,
    ensures
        valid_prefix(
            silent,
            excluded_lfe_positions(exclude_lfe, has_layout_metadata, layout_lfe, channels, silent.len()),
            silent.len(),
        ).contains(i as usize) <==> !silent[i],
{
    let lfe = excluded_lfe_positions(exclude_lfe, has_layout_metadata, layout_lfe, channels, silent.len());
    lemma_aggregate_membership(silent, lfe, silent.len(), i);
    assert(!lfe.contains(i as usize));
}

proof fn lemma_valid_prefix_below(silent: Seq<bool>, lfe: Seq<usize>, k: nat)
    requires
        k <= usize::MAX,
    ensures
        forall|j: int|
            0 <= j < valid_prefix(silent, lfe, k).len() ==> #[trigger] valid_prefix(silent, lfe, k)[j]
                < k,
    decreases k,
{
    if k > 0 {
        let km = (k - 1) as nat;
        lemma_valid_prefix_below(silent, lfe, km);
        let prev = valid_prefix(silent, lfe, km);
        let cur = valid_prefix(silent, lfe, k);
        assert(((km as int) as usize) as int == km as int);
        assert forall|j: int| 0 <= j < cur.len() implies #[trigger] cur[j] < k by {
            if j < prev.len() {
                assert(cur[j] == prev[j]);
            }
        }
    }
}

/// Name of the layout with `channels` channels, as shown in the LFE note.
pub open spec fn layout_name_of(channels: nat) -> Seq<char> {
    if channels == 3 {
        "2.1"@
    } else if channels == 4 {
        "3.1"@
    } else if channels == 6 {
        "5.1"@
    } else if channels == 7 {
        "6.1"@
    } else if channels == 8 {
        "7.1"@
    } else if channels == 10 {
        "7.1.2"@
    } else if channels == 12 {
        "7.1.4 (Dolby Atmos)"@
    } else if channels == 14 {
        "7.1.6"@
    } else if channels == 16 {
        "9.1.6 (DTS:X Pro)"@
    } else if channels == 18 {
        "9.1.8"@
    } else if channels == 20 {
        "9.1.10"@
    } else if channels == 22 {
        "11.1.10"@
    } else if channels == 24 {
        "11.1.12"@
    } else {
        "多声道"@
    }
}

/// Name of the layout with `channels` channels.
pub fn layout_name(channels: u16) -> (s: &'static str)
    ensures
        s@ == layout_name_of(channels as nat),
{
    match channels {
        3 => "2.1",
        4 => "3.1",
        6 => "5.1",
        7 => "6.1",
        8 => "7.1",
        10 => "7.1.2",
        12 => "7.1.4 (Dolby Atmos)",
        14 => "7.1.6",
        16 => "9.1.6 (DTS:X Pro)",
        18 => "9.1.8",
        20 => "9.1.10",
        22 => "11.1.10",
        24 => "11.1.12",
        _ => "多声道",
    }
}

/// `n` right-aligned in a field of two characters, as `{:>2}` renders it.
pub open spec fn right2(n: nat) -> Seq<char> {
    if n < 10 {
        seq![' '] + decimal(n)
    } else {
        decimal(n)
    }
}

/// Label of channel `index` (counted from zero) in the per-channel tables:
/// an LFE tag wins over a silence tag.
pub open spec fn channel_label_text(index: nat, is_lfe: bool, is_silent: bool) -> Seq<char> {
    "通道 / Channel "@ + right2(index + 1) + if is_lfe {
        "  [LFE]"@
    } else if is_silent {
        "  [Silent / 静音]"@
    } else {
        Seq::empty()
    }
}

/// Label of channel `index` (see `channel_label_text`).
pub fn channel_label(index: usize, is_lfe: bool, is_silent: bool) -> (s: String)
    requires
        index < u64::MAX,
    ensures
        s@ == channel_label_text(index as nat, is_lfe, is_silent),
{
    let mut s = String::new();
    push_str(&mut s, "通道 / Channel ");
    let number: u64 = index as u64 + 1;
    if number < 10 {
        push_str(&mut s, " ");
    }
    push_decimal(&mut s, number);
    if is_lfe {
        push_str(&mut s, "  [LFE]");
    } else if is_silent {
        push_str(&mut s, "  [Silent / 静音]");
    }
    proof {
        reveal_strlit(" ");
        assert(s@ =~= channel_label_text(index as nat, is_lfe, is_silent));
    }
    s
}

/// Positions counted from one and joined with ", ".
pub open spec fn one_based_list(v: Seq<usize>) -> Seq<char>
    decreases v.len(),
{
    if v.len() == 0 {
        Seq::empty()
    } else if v.len() == 1 {
        decimal((v[0] + 1) as nat)
    } else {
        one_based_list(v.drop_last()) + ", "@ + decimal((v.last() + 1) as nat)
    }
}

/// The note written under the channel table when LFE channels are present.
pub open spec fn lfe_note_text(channels: nat, lfe: Seq<usize>) -> Seq<char> {
    let name = layout_name_of(channels);
    "\n"@ + "注 / Note: 检测为 "@ + name
        + " 格式，包含 LFE (低频效果) 声道；所有非静音声道参与 DR 聚合（与 foobar2000 口径一致）。\n"@
        + "Note: detected as "@ + name
        + " layout, includes LFE channel(s); all non‑silent channels participate in DR aggregation (foobar2000‑compatible).\n"@
        + "    LFE声道位置 / LFE channels: Channel "@ + one_based_list(lfe) + "\n"@
}

/// The note written under the channel table (see `lfe_note_text`); nothing
/// when there is no LFE channel.
pub fn lfe_note(channels: u16, lfe: &Vec<usize>) -> (s: String)
    requires
        forall|j: int| 0 <= j < lfe@.len() ==> #[trigger] lfe@[j] < u64::MAX,
    ensures
        lfe@.len() == 0 ==> s@.len() == 0,
        lfe@.len() > 0 ==> s@ == lfe_note_text(channels as nat, lfe@),
{
    let mut s = String::new();
    if lfe.len() == 0 {
        return s;
    }
    let name = layout_name(channels);
    push_str(&mut s, "\n");
    push_str(&mut s, "注 / Note: 检测为 ");
    push_str(&mut s, name);
    push_str(
        &mut s,
        " 格式，包含 LFE (低频效果) 声道；所有非静音声道参与 DR 聚合（与 foobar2000 口径一致）。\n",
    );
    push_str(&mut s, "Note: detected as ");
    push_str(&mut s, name);
    push_str(
        &mut s,
        " layout, includes LFE channel(s); all non‑silent channels participate in DR aggregation (foobar2000‑compatible).\n",
    );
    push_str(&mut s, "    LFE声道位置 / LFE channels: Channel ");
    let mut i: usize = 0;
    let ghost before = s@;
    while i < lfe.len()
        invariant
            i <= lfe@.len(),
            lfe@.len() > 0,
            forall|j: int| 0 <= j < lfe@.len() ==> #[trigger] lfe@[j] < u64::MAX,
            s@ == before + one_based_list(lfe@.take(i as int)),
        decreases lfe@.len() - i,
    {
        if i > 0 {
            push_str(&mut s, ", ");
        }
        push_decimal(&mut s, lfe[i] as u64 + 1);
        proof {
            let t = lfe@.take(i + 1);
            assert(t.drop_last() =~= lfe@.take(i as int));
            if i == 0 {
                assert(lfe@.take(0) =~= Seq::<usize>::empty());
            }
        }
        i = i + 1;
    }
    push_str(&mut s, "\n");
    assert(lfe@.take(lfe@.len() as int) =~= lfe@);
    assert(s@ =~= lfe_note_text(channels as nat, lfe@));
    s
}

/// PCM bit rate in kbit/s: rate × channels × bits / 1000, capped at `u32::MAX`.
pub open spec fn pcm_kbps(sample_rate: nat, channels: nat, bits: nat) -> nat {
    let k = sample_rate * channels * bits / 1000;
    if k > u32::MAX {
        u32::MAX as nat
    } else {
        k
    }
}

/// PCM bit rate in kbit/s of an uncompressed or losslessly compressed stream.
pub fn pcm_bitrate_kbps(sample_rate: u32, channels: u16, bits_per_sample: u16) -> (k: u32)
    ensures
        k == pcm_kbps(sample_rate as nat, channels as nat, bits_per_sample as nat),
{
    assert((sample_rate as u64) * (channels as u64) <= 0xffff_ffff * 0xffff) by (nonlinear_arith)
        requires
            sample_rate <= 0xffff_ffff,
            channels <= 0xffff,
    ;
    assert((sample_rate as u64) * (channels as u64) * (bits_per_sample as u64) <= 0xffff_ffff
        * 0xffff * 0xffff) by (nonlinear_arith)
        requires
            sample_rate <= 0xffff_ffff,
            channels <= 0xffff,
            bits_per_sample <= 0xffff,
    ;
    let bps: u64 = (sample_rate as u64) * (channels as u64) * (bits_per_sample as u64);
    let kbps = bps / 1000;
    if kbps > 0xffff_ffff {
        0xffff_ffff
    } else {
        kbps as u32
    }
}

/// `n` with at least two digits, as `{:02}` renders it.
pub open spec fn two_digits(n: nat) -> Seq<char> {
    if n < 10 {
        seq!['0'] + decimal(n)
    } else {
        decimal(n)
    }
}

/// A duration in whole seconds as `H:MM:SS` from one hour on, else `M:SS`.
pub open spec fn duration_text(total_seconds: nat) -> Seq<char> {
    let hours = total_seconds / 3600;
    let minutes = (total_seconds % 3600) / 60;
    let seconds = total_seconds % 60;
    if hours > 0 {
        decimal(hours) + ":"@ + two_digits(minutes) + ":"@ + two_digits(seconds)
    } else {
        decimal(minutes) + ":"@ + two_digits(seconds)
    }
}

fn push_two_digits(s: &mut String, n: u64)
    ensures
        final(s)@ == old(s)@ + two_digits(n as nat),
{
    if n < 10 {
        push_str(s, "0");
    }
    push_decimal(s, n);
    proof {
        reveal_strlit("0");
        assert(final(s)@ =~= old(s)@ + two_digits(n as nat));
    }
}

/// A duration in whole seconds (see `duration_text`).
pub fn format_duration(total_seconds: u32) -> (s: String)
    ensures
        s@ == duration_text(total_seconds as nat),
{
    let hours = total_seconds / 3600;
    let minutes = (total_seconds % 3600) / 60;
    let seconds = total_seconds % 60;
    let mut s = String::new();
    if hours > 0 {
        push_decimal(&mut s, hours as u64);
        push_str(&mut s, ":");
        push_two_digits(&mut s, minutes as u64);
        push_str(&mut s, ":");
        push_two_digits(&mut s, seconds as u64);
    } else {
        push_decimal(&mut s, minutes as u64);
        push_str(&mut s, ":");
        push_two_digits(&mut s, seconds as u64);
    }
    assert(s@ =~= duration_text(total_seconds as nat));
    s
}

/// The sample rate as shown: with the processing rate when a DSD stream was
/// converted at a different rate.
pub open spec fn sample_rate_text(sample_rate: nat, processed: Option<u32>) -> Seq<char> {
    match processed {
        Some(p) => if p != sample_rate {
            decimal(sample_rate) + " Hz → "@ + decimal(p as nat) + " Hz (DSD downsampled / DSD降采样)"@
        } else {
            decimal(sample_rate) + " Hz"@
        },
        None => decimal(sample_rate) + " Hz"@,
    }
}

/// The sample rate as shown (see `sample_rate_text`).
pub fn format_sample_rate(sample_rate: u32, processed: Option<u32>) -> (s: String)
    ensures
        s@ == sample_rate_text(sample_rate as nat, processed),
{
    let mut s = String::new();
    push_decimal(&mut s, sample_rate as u64);
    match processed {
        Some(p) => {
            if p != sample_rate {
                push_str(&mut s, " Hz → ");
                push_decimal(&mut s, p as u64);
                push_str(&mut s, " Hz (DSD downsampled / DSD降采样)");
            } else {
                push_str(&mut s, " Hz");
            }
        },
        None => {
            push_str(&mut s, " Hz");
        },
    }
    s
}

/// Warning written before the results when damaged packets were skipped.
pub open spec fn partial_warning_text(skipped_packets: nat) -> Seq<char> {
    " 部分分析警告：跳过了 "@ + decimal(skipped_packets) + " 个损坏的音频包\n"@
        + "    分析结果可能不完整，建议检查源文件质量。\n\n"@
}

/// Warning written before the results when damaged packets were skipped.
pub fn partial_analysis_warning(skipped_packets: u64) -> (s: String)
    ensures
        s@ == partial_warning_text(skipped_packets as nat),
{
    let mut s = String::new();
    push_str(&mut s, " 部分分析警告：跳过了 ");
    push_decimal(&mut s, skipped_packets);
    push_str(&mut s, " 个损坏的音频包\n");
    push_str(&mut s, "    分析结果可能不完整，建议检查源文件质量。\n\n");
    s
}

/// How per-channel results are laid out, by their number.
#[derive(Debug, Clone, Copy, PartialEq, Eq, Structural)]
pub enum ResultLayout {
    /// No channel results: an error line.
    NoData,
    Mono,
    Stereo,
    /// Three to eight channels.
    MediumMultichannel,
    /// Nine channels or more.
    LargeMultichannel,
}

/// The layout for `count` channel results.
pub fn result_layout(count: usize) -> (l: ResultLayout)
    ensures
        l == if count == 0 {
            ResultLayout::NoData
        } else if count == 1 {
            ResultLayout::Mono
        } else if count == 2 {
            ResultLayout::Stereo
        } else if count <= 8 {
            ResultLayout::MediumMultichannel
        } else {
            ResultLayout::LargeMultichannel
        },
{
    if count == 0 {
        ResultLayout::NoData
    } else if count == 1 {
        ResultLayout::Mono
    } else if count == 2 {
        ResultLayout::Stereo
    } else if count <= 8 {
        ResultLayout::MediumMultichannel
    } else {
        ResultLayout::LargeMultichannel
    }
}

/// How close a precise DR value lies to a rounding boundary.
#[derive(Debug, Clone, Copy, PartialEq, Eq, Structural)]
pub enum BoundaryRiskLevel {
    /// Within 0.03 dB of the boundary.
    High,
    /// Within 0.05 dB of the boundary.
    Medium,
    /// Farther away (no risk).
    Low,
}

/// Which rounding boundary is near.
#[derive(Debug, Clone, Copy, PartialEq, Eq, Structural)]
pub enum BoundaryDirection {
    Upper,
    Lower,
}

/// Priority of a risk level when warnings are ordered (higher first).
pub open spec fn risk_priority_of(level: BoundaryRiskLevel) -> nat {
    match level {
        BoundaryRiskLevel::High => 2,
        BoundaryRiskLevel::Medium => 1,
        BoundaryRiskLevel::Low => 0,
    }
}

impl BoundaryRiskLevel {
    /// Priority when warnings are ordered: high 2, medium 1, none 0.
    pub fn priority(&self) -> (p: u8)
        ensures
            p == risk_priority_of(*self),
    {
        match self {
            BoundaryRiskLevel::High => 2,
            BoundaryRiskLevel::Medium => 1,
            BoundaryRiskLevel::Low => 0,
        }
    }

    /// Label in the batch warning table.
    pub fn label(&self) -> (s: &'static str)
        ensures
            s@ == match *self {
                BoundaryRiskLevel::High => "High"@,
                BoundaryRiskLevel::Medium => "Medium"@,
                BoundaryRiskLevel::Low => "Low"@,
            },
    {
        match self {
            BoundaryRiskLevel::High => "High",
            BoundaryRiskLevel::Medium => "Medium",
            BoundaryRiskLevel::Low => "Low",
        }
    }
}

/// The DR value a result might round to instead: one more across the upper
/// boundary, one less (never below zero) across the lower one.
pub open spec fn potential_dr_of(official_dr: int, direction: BoundaryDirection) -> int {
    match direction {
        BoundaryDirection::Upper => official_dr + 1,
        BoundaryDirection::Lower => if official_dr - 1 > 0 {
            official_dr - 1
        } else {
            0
        },
    }
}

/// The DR value a result might round to instead (see `potential_dr_of`).
pub fn potential_dr(official_dr: i32, direction: BoundaryDirection) -> (p: i32)
    requires
        official_dr < i32::MAX,
        official_dr > i32::MIN,
    ensures
        p == potential_dr_of(official_dr as int, direction),
{
    match direction {
        BoundaryDirection::Upper => official_dr + 1,
        BoundaryDirection::Lower => {
            if official_dr - 1 > 0 {
                official_dr - 1
            } else {
                0
            }
        },
    }
}

/// Footnote under the batch table naming the exclusions that occurred.
pub open spec fn exclusion_footnote_text(lfe_excluded: bool, silent_excluded: bool) -> Seq<char> {
    if lfe_excluded && silent_excluded {
        "\n"@ + "*LFE excluded / †Silent channels excluded\n"@
    } else if lfe_excluded {
        "\n"@ + "*LFE excluded\n"@
    } else if silent_excluded {
        "\n"@ + "†Silent channels excluded\n"@
    } else {
        Seq::empty()
    }
}

/// Footnote under the batch table (see `exclusion_footnote_text`).
pub fn exclusion_footnote(lfe_excluded: bool, silent_excluded: bool) -> (s: String)
    ensures
        s@ == exclusion_footnote_text(lfe_excluded, silent_excluded),
{
    let mut s = String::new();
    if lfe_excluded || silent_excluded {
        push_str(&mut s, "\n");
        if lfe_excluded && silent_excluded {
            push_str(&mut s, "*LFE excluded / †Silent channels excluded\n");
        } else if lfe_excluded {
            push_str(&mut s, "*LFE excluded\n");
        } else {
            push_str(&mut s, "†Silent channels excluded\n");
        }
    }
    assert(s@ =~= exclusion_footnote_text(lfe_excluded, silent_excluded));
    s
}

/// Whether `phrase` occurs somewhere in `text`.
pub open spec fn mentions(text: Seq<char>, phrase: Seq<char>) -> bool {
    exists|i: int| 0 <= i && i + phrase.len() <= text.len() && #[trigger] text.subrange(i, i + phrase.len()) == phrase
}

/// The footnote speaks of silent channels exactly when silent channels were
/// excluded, and of the LFE exactly when an LFE channel was excluded.
pub proof fn lemma_footnote_names_only_what_happened(lfe_excluded: bool, silent_excluded: bool)
    ensures
        mentions(exclusion_footnote_text(lfe_excluded, silent_excluded), "Silent channels excluded"@)
            <==> silent_excluded,
        mentions(exclusion_footnote_text(lfe_excluded, silent_excluded), "LFE excluded"@)
            <==> lfe_excluded,
{
    reveal_strlit("\n");
    reveal_strlit("*LFE excluded / †Silent channels excluded\n");
    reveal_strlit("*LFE excluded\n");
    reveal_strlit("†Silent channels excluded\n");
    reveal_strlit("Silent channels excluded");
    reveal_strlit("LFE excluded");
    let t = exclusion_footnote_text(lfe_excluded, silent_excluded);
    let silent_phrase = "Silent channels excluded"@;
    let lfe_phrase = "LFE excluded"@;
    if lfe_excluded && silent_excluded {
        assert(t.subrange(18, 18 + silent_phrase.len() as int) =~= silent_phrase);
        assert(t.subrange(2, 2 + lfe_phrase.len() as int) =~= lfe_phrase);
    } else if lfe_excluded {
        assert(t.subrange(2, 2 + lfe_phrase.len() as int) =~= lfe_phrase);
        assert(t.len() < silent_phrase.len());
    } else if silent_excluded {
        assert(t.subrange(2, 2 + silent_phrase.len() as int) =~= silent_phrase);
        assert forall|i: int| 0 <= i && i + lfe_phrase.len() <= t.len() implies #[trigger] t.subrange(
            i,
            i + lfe_phrase.len(),
        ) != lfe_phrase by {
            assert(t[i] != 'L');
            assert(t.subrange(i, i + lfe_phrase.len())[0] == t[i]);
        }
    } else {
        assert(t.len() == 0);
    }
}

/// Every standard LFE position lies inside the layout it belongs to.
pub proof fn lemma_standard_lfe_in_range(channel_count: nat)
    ensures
        forall|j: int|
            0 <= j < standard_lfe(channel_count).len() ==> #[trigger] standard_lfe(channel_count)[j]
                < channel_count,
{
}

/// Channels averaged and channels left out as LFE never outnumber the channels.
pub proof fn lemma_aggregation_counts(silent: Seq<bool>, lfe: Seq<usize>)
    ensures
        valid_prefix(silent, lfe, silent.len()).len() + lfe_prefix(silent, lfe, silent.len())
            <= silent.len(),
{
    lemma_valid_prefix_len(silent, lfe, silent.len());
}

/// The aggregate DR of a file, with what was left out of it. The precise
/// value and the boundary warning arrive already rendered.
#[derive(Debug, Clone)]
pub struct OfficialDr {
    /// The average DR of the channels taken, rounded.
    pub official_dr: i32,
    /// The average DR with two decimals.
    pub precise_text: String,
    /// Warning when the average lies close to a rounding boundary.
    pub warning: Option<String>,
    /// Channels left out, silent or LFE.
    pub excluded_count: usize,
    /// Channels left out as LFE.
    pub excluded_lfe: usize,
}

/// Lines explaining how many channels the aggregate is based on.
pub open spec fn exclusion_lines(result_count: nat, excluded: nat, lfe: nat) -> Seq<char> {
    let valid = (result_count - excluded) as nat;
    if excluded == 0 {
        Seq::empty()
    } else if lfe > 0 {
        let silent = (excluded - lfe) as nat;
        "DR计算基于 "@ + decimal(valid) + " 个有效声道 (已排除 "@ + decimal(silent) + " 个静音声道, "@
            + decimal(lfe) + " 个LFE声道)\n"@ + "Aggregation based on "@ + decimal(valid)
            + " valid channels (excluded "@ + decimal(silent) + " silent, "@ + decimal(lfe)
            + " LFE).\n\n"@
    } else {
        "DR计算基于 "@ + decimal(valid) + " 个有效声道 (已排除 "@ + decimal(excluded)
            + " 个静音声道)\n"@ + "Aggregation based on "@ + decimal(valid)
            + " valid channels (excluded "@ + decimal(excluded) + " silent).\n\n"@
    }
}

/// Note written when LFE exclusion was asked for but the layout is unknown.
pub open spec fn lfe_unknown_note(exclude_lfe: bool, has_layout_metadata: bool, channels: nat) -> Seq<
    char,
> {
    if exclude_lfe && !has_layout_metadata && channels > 2 {
        "注 / Note: 请求排除 LFE，但未检测到声道布局元数据；未执行 LFE 剔除。\n"@
            + "Note: LFE exclusion requested but no channel layout metadata detected; LFE exclusion not performed.\n\n"@
    } else {
        Seq::empty()
    }
}

/// The official-DR section of the report.
pub open spec fn official_dr_text(
    aggregate: Option<OfficialDr>,
    result_count: nat,
    exclude_lfe: bool,
    has_layout_metadata: bool,
    channels: nat,
) -> Seq<char> {
    match aggregate {
        Some(a) => "Official DR Value: DR"@ + signed_decimal(a.official_dr as int) + "\n"@
            + "Precise DR Value: "@ + a.precise_text@ + " dB\n"@ + (match a.warning {
            Some(w) => "\n"@ + w@,
            None => Seq::empty(),
        }) + "\n"@ + exclusion_lines(result_count, a.excluded_count as nat, a.excluded_lfe as nat)
            + lfe_unknown_note(exclude_lfe, has_layout_metadata, channels),
        None => "Official DR Value: 无有效声道\n\n"@,
    }
}

fn push_exclusion_lines(s: &mut String, result_count: usize, excluded: usize, lfe: usize)
    requires
        lfe <= excluded <= result_count,
    ensures
        final(s)@ == old(s)@ + exclusion_lines(result_count as nat, excluded as nat, lfe as nat),
{
    if excluded > 0 {
        let valid = result_count - excluded;
        if lfe > 0 {
            push_excluded_with_lfe(s, valid, excluded - lfe, lfe);
        } else {
            push_excluded_silent(s, valid, excluded);
        }
    }
    assert(final(s)@ =~= old(s)@ + exclusion_lines(result_count as nat, excluded as nat, lfe as nat));
}

fn push_excluded_with_lfe(s: &mut String, valid: usize, silent: usize, lfe: usize)
    ensures
        final(s)@ == old(s)@ + ("DR计算基于 "@ + decimal(valid as nat) + " 个有效声道 (已排除 "@
            + decimal(silent as nat) + " 个静音声道, "@ + decimal(lfe as nat) + " 个LFE声道)\n"@
            + "Aggregation based on "@ + decimal(valid as nat) + " valid channels (excluded "@
            + decimal(silent as nat) + " silent, "@ + decimal(lfe as nat) + " LFE).\n\n"@),
{
    push_str(s, "DR计算基于 ");
    push_decimal(s, valid as u64);
    push_str(s, " 个有效声道 (已排除 ");
    push_decimal(s, silent as u64);
    push_str(s, " 个静音声道, ");
    push_decimal(s, lfe as u64);
    push_str(s, " 个LFE声道)\n");
    push_str(s, "Aggregation based on ");
    push_decimal(s, valid as u64);
    push_str(s, " valid channels (excluded ");
    push_decimal(s, silent as u64);
    push_str(s, " silent, ");
    push_decimal(s, lfe as u64);
    push_str(s, " LFE).\n\n");
    assert(final(s)@ =~= old(s)@ + ("DR计算基于 "@ + decimal(valid as nat) + " 个有效声道 (已排除 "@
        + decimal(silent as nat) + " 个静音声道, "@ + decimal(lfe as nat) + " 个LFE声道)\n"@
        + "Aggregation based on "@ + decimal(valid as nat) + " valid channels (excluded "@
        + decimal(silent as nat) + " silent, "@ + decimal(lfe as nat) + " LFE).\n\n"@));
}

fn push_excluded_silent(s: &mut String, valid: usize, excluded: usize)
    ensures
        final(s)@ == old(s)@ + ("DR计算基于 "@ + decimal(valid as nat) + " 个有效声道 (已排除 "@
            + decimal(excluded as nat) + " 个静音声道)\n"@ + "Aggregation based on "@ + decimal(
            valid as nat,
        ) + " valid channels (excluded "@ + decimal(excluded as nat) + " silent).\n\n"@),
{
    push_str(s, "DR计算基于 ");
    push_decimal(s, valid as u64);
    push_str(s, " 个有效声道 (已排除 ");
    push_decimal(s, excluded as u64);
    push_str(s, " 个静音声道)\n");
    push_str(s, "Aggregation based on ");
    push_decimal(s, valid as u64);
    push_str(s, " valid channels (excluded ");
    push_decimal(s, excluded as u64);
    push_str(s, " silent).\n\n");
    assert(final(s)@ =~= old(s)@ + ("DR计算基于 "@ + decimal(valid as nat) + " 个有效声道 (已排除 "@
        + decimal(excluded as nat) + " 个静音声道)\n"@ + "Aggregation based on "@ + decimal(
        valid as nat,
    ) + " valid channels (excluded "@ + decimal(excluded as nat) + " silent).\n\n"@));
}

fn push_lfe_unknown_note(s: &mut String, exclude_lfe: bool, has_layout_metadata: bool, channels: u16)
    ensures
        final(s)@ == old(s)@ + lfe_unknown_note(exclude_lfe, has_layout_metadata, channels as nat),
{
    if exclude_lfe && !has_layout_metadata && channels > 2 {
        push_str(s, "注 / Note: 请求排除 LFE，但未检测到声道布局元数据；未执行 LFE 剔除。\n");
        push_str(
            s,
            "Note: LFE exclusion requested but no channel layout metadata detected; LFE exclusion not performed.\n\n",
        );
    }
    assert(final(s)@ =~= old(s)@ + lfe_unknown_note(exclude_lfe, has_layout_metadata, channels as nat));
}

/// The official-DR section of the report (see `official_dr_text`): the value,
/// the precise value, any boundary warning, how many channels were left out,
/// and a note when LFE exclusion could not be applied.
pub fn calculate_official_dr(
    aggregate: Option<OfficialDr>,
    result_count: usize,
    exclude_lfe: bool,
    has_layout_metadata: bool,
    channels: u16,
) -> (s: String)
    requires
        aggregate matches Some(a) ==> a.excluded_lfe <= a.excluded_count <= result_count,
    ensures
        s@ == official_dr_text(
            aggregate,
            result_count as nat,
            exclude_lfe,
            has_layout_metadata,
            channels as nat,
        ),
{
    let mut s = String::new();
    match aggregate {
        Some(a) => {
            push_str(&mut s, "Official DR Value: DR");
            push_signed_decimal(&mut s, a.official_dr as i64);
            push_str(&mut s, "\n");
            push_str(&mut s, "Precise DR Value: ");
            push_str(&mut s, a.precise_text.as_str());
            push_str(&mut s, " dB\n");
            match &a.warning {
                Some(w) => {
                    push_str(&mut s, "\n");
                    push_str(&mut s, w.as_str());
                },
                None => {},
            }
            push_str(&mut s, "\n");
            push_exclusion_lines(&mut s, result_count, a.excluded_count, a.excluded_lfe);
            push_lfe_unknown_note(&mut s, exclude_lfe, has_layout_metadata, channels);
        },
        None => {
            push_str(&mut s, "Official DR Value: 无有效声道\n\n");
        },
    }
    assert(s@ =~= official_dr_text(
        aggregate,
        result_count as nat,
        exclude_lfe,
        has_layout_metadata,
        channels as nat,
    ));
    s
}

/// Note appended to a file's batch line: LFE channels left out, or LFE
/// exclusion asked for without a known layout, or nothing.
pub open spec fn batch_note_text(
    excluded_lfe: nat,
    exclude_lfe: bool,
    has_layout_metadata: bool,
    channels: nat,
) -> Seq<char> {
    if excluded_lfe > 0 {
        " [LFE excluded / 已剔除LFE]"@
    } else if exclude_lfe && !has_layout_metadata && channels > 2 {
        " [LFE requested, layout missing / 请求LFE剔除，未检测布局]"@
    } else {
        Seq::empty()
    }
}

/// The last field of a file's batch line: its name with the note of `batch_note_text`.
pub fn batch_line_tail(
    file_name: &str,
    excluded_lfe: usize,
    exclude_lfe: bool,
    has_layout_metadata: bool,
    channels: u16,
) -> (s: String)
    ensures
        s@ == file_name@ + batch_note_text(
            excluded_lfe as nat,
            exclude_lfe,
            has_layout_metadata,
            channels as nat,
        ),
{
    let mut s = String::new();
    push_str(&mut s, file_name);
    if excluded_lfe > 0 {
        push_str(&mut s, " [LFE excluded / 已剔除LFE]");
    } else if exclude_lfe && !has_layout_metadata && channels > 2 {
        push_str(&mut s, " [LFE requested, layout missing / 请求LFE剔除，未检测布局]");
    }
    assert(s@ =~= file_name@ + batch_note_text(
        excluded_lfe as nat,
        exclude_lfe,
        has_layout_metadata,
        channels as nat,
    ));
    s
}

/// The rendered figures of one channel, as the per-channel tables show them.
#[derive(Debug, Clone)]
pub struct ChannelFigures {
    /// The DR value, rounded.
    pub official_dr: i32,
    /// The DR value with two decimals.
    pub precise_dr: String,
    /// The RMS of the loudest fifth in dB with two decimals (or the silence marker).
    pub rms_db: String,
    /// The peak used, in dB.
    pub peak_db: String,
    /// The largest window peak, in dB.
    pub primary_peak_db: String,
    /// The second largest window peak, in dB.
    pub secondary_peak_db: String,
    /// Whether the channel is silent.
    pub silent: bool,
}

/// A figure followed by its unit.
pub open spec fn db_col(figure: Seq<char>) -> Seq<char> {
    figure + " dB"@
}

/// A line of two columns of widths `wa` and `wb`.
pub open spec fn line2(a: Seq<char>, b: Seq<char>, wa: usize, wb: usize) -> Seq<char> {
    cols_line(seq![a, b], seq![wa, wb], ""@)
}

/// A line of three columns of widths `wa`, `wb` and `wc`.
pub open spec fn line3(a: Seq<char>, b: Seq<char>, c: Seq<char>, wa: usize, wb: usize, wc: usize) -> Seq<
    char,
> {
    cols_line(seq![a, b, c], seq![wa, wb, wc], ""@)
}

fn push_line2(out: &mut String, a: &str, b: &str, wa: usize, wb: usize)
    ensures
        final(out)@ == old(out)@ + line2(a@, b@, wa, wb),
{
    let mut cols: Vec<&str> = Vec::new();
    cols.push(a);
    cols.push(b);
    let mut widths: Vec<usize> = Vec::new();
    widths.push(wa);
    widths.push(wb);
    assert(strs_view(cols@) =~= seq![a@, b@]);
    assert(widths@ =~= seq![wa, wb]);
    let line = format_cols_line(cols.as_slice(), widths.as_slice(), "");
    push_str(out, line.as_str());
}

fn push_line3(out: &mut String, a: &str, b: &str, c: &str, wa: usize, wb: usize, wc: usize)
    ensures
        final(out)@ == old(out)@ + line3(a@, b@, c@, wa, wb, wc),
{
    let mut cols: Vec<&str> = Vec::new();
    cols.push(a);
    cols.push(b);
    cols.push(c);
    let mut widths: Vec<usize> = Vec::new();
    widths.push(wa);
    widths.push(wb);
    widths.push(wc);
    assert(strs_view(cols@) =~= seq![a@, b@, c@]);
    assert(widths@ =~= seq![wa, wb, wc]);
    let line = format_cols_line(cols.as_slice(), widths.as_slice(), "");
    push_str(out, line.as_str());
}

fn with_db(figure: &String) -> (s: String)
    ensures
        s@ == db_col(figure@),
{
    let mut s = owned(figure.as_str());
    push_str(&mut s, " dB");
    s
}

/// Title of the RMS/peak diagnostics.
pub open spec fn diagnostics_title() -> Seq<char> {
    "RMS/Peak 诊断 / RMS/Peak Diagnostics\n"@
}

/// The mono table: the DR value, and with `show_rms_peak` the RMS and the
/// three peaks.
pub open spec fn mono_text(f: ChannelFigures, show_rms_peak: bool) -> Seq<char> {
    "                 单声道 / Mono\n\n"@ + line2("DR通道 / DR Channel:"@, db_col(f.precise_dr@), 28, 14)
        + "\n"@ + if show_rms_peak {
        diagnostics_title() + line2("RMS(20%):"@, db_col(f.rms_db@), 22, 14) + line2(
            "Peak(选用/selected):"@,
            db_col(f.peak_db@),
            22,
            14,
        ) + line2("Primary Peak:"@, db_col(f.primary_peak_db@), 22, 14) + line2(
            "Secondary Peak:"@,
            db_col(f.secondary_peak_db@),
            22,
            14,
        ) + "\n"@
    } else {
        Seq::empty()
    }
}

/// The mono table (see `mono_text`).
pub fn format_mono_results(result: &ChannelFigures, show_rms_peak: bool) -> (s: String)
    ensures
        s@ == mono_text(*result, show_rms_peak),
{
    let mut s = owned("                 单声道 / Mono\n\n");
    let dr = with_db(&result.precise_dr);
    push_line2(&mut s, "DR通道 / DR Channel:", dr.as_str(), 28, 14);
    push_str(&mut s, "\n");
    if show_rms_peak {
        push_str(&mut s, "RMS/Peak 诊断 / RMS/Peak Diagnostics\n");
        let rms = with_db(&result.rms_db);
        let peak = with_db(&result.peak_db);
        let p1 = with_db(&result.primary_peak_db);
        let p2 = with_db(&result.secondary_peak_db);
        push_line2(&mut s, "RMS(20%):", rms.as_str(), 22, 14);
        push_line2(&mut s, "Peak(选用/selected):", peak.as_str(), 22, 14);
        push_line2(&mut s, "Primary Peak:", p1.as_str(), 22, 14);
        push_line2(&mut s, "Secondary Peak:", p2.as_str(), 22, 14);
        push_str(&mut s, "\n");
    }
    assert(s@ =~= mono_text(*result, show_rms_peak));
    s
}

/// The stereo table: both DR values, and with `show_rms_peak` the RMS and the
/// three peaks of each channel.
pub open spec fn stereo_text(l: ChannelFigures, r: ChannelFigures, show_rms_peak: bool) -> Seq<char> {
    "                         左声道 / Left      右声道 / Right\n\n"@ + line3(
        "DR通道 / DR Channel:"@,
        db_col(l.precise_dr@),
        db_col(r.precise_dr@),
        28,
        14,
        14,
    ) + "\n"@ + if show_rms_peak {
        diagnostics_title() + line3("RMS(20%):"@, db_col(l.rms_db@), db_col(r.rms_db@), 18, 14, 14)
            + line3("Peak(选用/sel):"@, db_col(l.peak_db@), db_col(r.peak_db@), 18, 14, 14) + line3(
            "Primary Peak:"@,
            db_col(l.primary_peak_db@),
            db_col(r.primary_peak_db@),
            18,
            14,
            14,
        ) + line3(
            "Secondary Peak:"@,
            db_col(l.secondary_peak_db@),
            db_col(r.secondary_peak_db@),
            18,
            14,
            14,
        ) + "\n"@
    } else {
        Seq::empty()
    }
}

/// Whether `pad` is made of spaces only.
pub open spec fn all_spaces(pad: Seq<char>) -> bool {
    forall|i: int| 0 <= i < pad.len() ==> #[trigger] pad[i] == ' '
}

/// Whether `text` is `head`, then a row of `label`, `left` and `right`
/// separated by spaces and ended by a newline, then `tail`.
pub open spec fn row_at(
    text: Seq<char>,
    head: Seq<char>,
    label: Seq<char>,
    pad1: Seq<char>,
    left: Seq<char>,
    pad2: Seq<char>,
    right: Seq<char>,
    tail: Seq<char>,
) -> bool {
    &&& text == head + label + pad1 + left + pad2 + right + "\n"@ + tail
    &&& all_spaces(pad1)
    &&& all_spaces(pad2)
}

/// Whether `text` holds a row that starts with `label`, shows `left` in the
/// middle column and `right` in the last one.
pub open spec fn has_row(text: Seq<char>, label: Seq<char>, left: Seq<char>, right: Seq<char>) -> bool {
    exists|head: Seq<char>, pad1: Seq<char>, pad2: Seq<char>, tail: Seq<char>|
        #[trigger] row_at(text, head, label, pad1, left, pad2, right, tail)
}

proof fn lemma_row_in(
    head: Seq<char>,
    a: Seq<char>,
    b: Seq<char>,
    c: Seq<char>,
    wa: usize,
    wb: usize,
    wc: usize,
    tail: Seq<char>,
)
    ensures
        has_row(head + line3(a, b, c, wa, wb, wc) + tail, a, b, c),
{
    let cols = seq![a, b, c];
    let widths = seq![wa, wb, wc];
    let p1 = padding(width_at(widths, 0), display_width(a));
    let p2 = padding(width_at(widths, 1), display_width(b));
    reveal_strlit("");
    assert(cols[0] == a && cols[1] == b && cols[2] == c);
    assert(cols_prefix(cols, widths, ""@, 0) =~= Seq::<char>::empty());
    assert(cols_prefix(cols, widths, ""@, 1) =~= a + p1);
    assert(cols_prefix(cols, widths, ""@, 2) =~= a + p1 + b + p2);
    assert(cols_prefix(cols, widths, ""@, 3) =~= a + p1 + b + p2 + c);
    assert(line3(a, b, c, wa, wb, wc) =~= a + p1 + b + p2 + c + "\n"@);
    assert(head + line3(a, b, c, wa, wb, wc) + tail =~= head + a + p1 + b + p2 + c + "\n"@ + tail);
    assert(row_at(head + line3(a, b, c, wa, wb, wc) + tail, head, a, p1, b, p2, c, tail));
}

/// In the stereo table every row shows the first channel's figure in the
/// middle column and the second channel's in the last one: the DR row always,
/// and with `show_rms_peak` the RMS, selected peak, primary and secondary peak
/// rows.
#[verifier::spinoff_prover]
#[verifier::rlimit(30)]
pub proof fn lemma_stereo_rows_pair_channels(l: ChannelFigures, r: ChannelFigures, show_rms_peak: bool)
    ensures
        has_row(
            stereo_text(l, r, show_rms_peak),
            "DR通道 / DR Channel:"@,
            db_col(l.precise_dr@),
            db_col(r.precise_dr@),
        ),
        show_rms_peak ==> has_row(
            stereo_text(l, r, show_rms_peak),
            "RMS(20%):"@,
            db_col(l.rms_db@),
            db_col(r.rms_db@),
        ),
        show_rms_peak ==> has_row(
            stereo_text(l, r, show_rms_peak),
            "Peak(选用/sel):"@,
            db_col(l.peak_db@),
            db_col(r.peak_db@),
        ),
        show_rms_peak ==> has_row(
            stereo_text(l, r, show_rms_peak),
            "Primary Peak:"@,
            db_col(l.primary_peak_db@),
            db_col(r.primary_peak_db@),
        ),
        show_rms_peak ==> has_row(
            stereo_text(l, r, show_rms_peak),
            "Secondary Peak:"@,
            db_col(l.secondary_peak_db@),
            db_col(r.secondary_peak_db@),
        ),
{
    let t = stereo_text(l, r, show_rms_peak);
    let top = "                         左声道 / Left      右声道 / Right\n\n"@;
    let dr = line3("DR通道 / DR Channel:"@, db_col(l.precise_dr@), db_col(r.precise_dr@), 28, 14, 14);
    let rms = line3("RMS(20%):"@, db_col(l.rms_db@), db_col(r.rms_db@), 18, 14, 14);
    let pk = line3("Peak(选用/sel):"@, db_col(l.peak_db@), db_col(r.peak_db@), 18, 14, 14);
    let p1 = line3("Primary Peak:"@, db_col(l.primary_peak_db@), db_col(r.primary_peak_db@), 18, 14, 14);
    let p2 = line3(
        "Secondary Peak:"@,
        db_col(l.secondary_peak_db@),
        db_col(r.secondary_peak_db@),
        18,
        14,
        14,
    );
    let diag = if show_rms_peak {
        diagnostics_title() + rms + pk + p1 + p2 + "\n"@
    } else {
        Seq::empty()
    };
    assert(t =~= top + dr + ("\n"@ + diag));
    lemma_row_in(top, "DR通道 / DR Channel:"@, db_col(l.precise_dr@), db_col(r.precise_dr@), 28, 14, 14, "\n"@ + diag);
    if show_rms_peak {
        let h0 = top + dr + "\n"@ + diagnostics_title();
        assert(t =~= h0 + rms + (pk + p1 + p2 + "\n"@));
        lemma_row_in(h0, "RMS(20%):"@, db_col(l.rms_db@), db_col(r.rms_db@), 18, 14, 14, pk + p1 + p2 + "\n"@);
        assert(t =~= (h0 + rms) + pk + (p1 + p2 + "\n"@));
        lemma_row_in(h0 + rms, "Peak(选用/sel):"@, db_col(l.peak_db@), db_col(r.peak_db@), 18, 14, 14, p1 + p2 + "\n"@);
        assert(t =~= (h0 + rms + pk) + p1 + (p2 + "\n"@));
        lemma_row_in(
            h0 + rms + pk,
            "Primary Peak:"@,
            db_col(l.primary_peak_db@),
            db_col(r.primary_peak_db@),
            18,
            14,
            14,
            p2 + "\n"@,
        );
        assert(t =~= (h0 + rms + pk + p1) + p2 + "\n"@);
        lemma_row_in(
            h0 + rms + pk + p1,
            "Secondary Peak:"@,
            db_col(l.secondary_peak_db@),
            db_col(r.secondary_peak_db@),
            18,
            14,
            14,
            "\n"@,
        );
    }
}

/// The stereo table of the first two channels (see `stereo_text`).
pub fn format_stereo_results(results: &[ChannelFigures], show_rms_peak: bool) -> (s: String)
    requires
        results@.len() >= 2,
    ensures
        s@ == stereo_text(results@[0], results@[1], show_rms_peak),
{
    let l = &results[0];
    let r = &results[1];
    let mut s = owned("                         左声道 / Left      右声道 / Right\n\n");
    let ldr = with_db(&l.precise_dr);
    let rdr = with_db(&r.precise_dr);
    push_line3(&mut s, "DR通道 / DR Channel:", ldr.as_str(), rdr.as_str(), 28, 14, 14);
    push_str(&mut s, "\n");
    if show_rms_peak {
        push_str(&mut s, "RMS/Peak 诊断 / RMS/Peak Diagnostics\n");
        let a = with_db(&l.rms_db);
        let b = with_db(&r.rms_db);
        push_line3(&mut s, "RMS(20%):", a.as_str(), b.as_str(), 18, 14, 14);
        let a = with_db(&l.peak_db);
        let b = with_db(&r.peak_db);
        push_line3(&mut s, "Peak(选用/sel):", a.as_str(), b.as_str(), 18, 14, 14);
        let a = with_db(&l.primary_peak_db);
        let b = with_db(&r.primary_peak_db);
        push_line3(&mut s, "Primary Peak:", a.as_str(), b.as_str(), 18, 14, 14);
        let a = with_db(&l.secondary_peak_db);
        let b = with_db(&r.secondary_peak_db);
        push_line3(&mut s, "Secondary Peak:", a.as_str(), b.as_str(), 18, 14, 14);
        push_str(&mut s, "\n");
    }
    assert(s@ =~= stereo_text(results@[0], results@[1], show_rms_peak));
    s
}

/// A line and, under it, a line of `=` as wide.
pub open spec fn underlined(line: Seq<char>) -> Seq<char> {
    line + repeated('=', display_width(without_trailing_newlines(line))) + "\n"@
}

/// Heading of the per-channel breakdown.
pub open spec fn breakdown_heading(count: nat) -> Seq<char> {
    "声道明细 / Channel breakdown ("@ + decimal(count) + " channels):\n"@ + underlined(
        two_cols_line("Official DR"@, "Precise DR"@, "通道 / Channel"@),
    )
}

/// Heading of the per-channel diagnostics.
pub open spec fn diagnostics_heading() -> Seq<char> {
    "\n"@ + diagnostics_title() + underlined(
        two_cols_line("RMS(20%)"@, "Peak(选用/sel)"@, "通道 / Channel"@),
    )
}

/// The breakdown row of channel `i`; with `zero_silent` a silent channel's
/// precise value shows as `0.00 dB`.
pub open spec fn dr_row(i: nat, f: ChannelFigures, lfe: Seq<usize>, zero_silent: bool) -> Seq<char> {
    two_cols_line(
        "DR"@ + signed_decimal(f.official_dr as int),
        if zero_silent && f.silent {
            "0.00 dB"@
        } else {
            db_col(f.precise_dr@)
        },
        channel_label_text(i, lfe.contains(i as usize), f.silent),
    )
}

/// The diagnostics row of channel `i`.
pub open spec fn diagnostics_row(i: nat, f: ChannelFigures, lfe: Seq<usize>) -> Seq<char> {
    two_cols_line(
        db_col(f.rms_db@),
        db_col(f.peak_db@),
        channel_label_text(i, lfe.contains(i as usize), f.silent),
    )
}

/// The breakdown rows of the first `k` channels.
pub open spec fn dr_rows(figs: Seq<ChannelFigures>, lfe: Seq<usize>, zero_silent: bool, k: nat) -> Seq<
    char,
>
    decreases k,
{
    if k == 0 {
        Seq::empty()
    } else {
        dr_rows(figs, lfe, zero_silent, (k - 1) as nat) + dr_row(
            (k - 1) as nat,
            figs[k - 1],
            lfe,
            zero_silent,
        )
    }
}

/// The diagnostics rows of the first `k` channels.
pub open spec fn diagnostics_rows(figs: Seq<ChannelFigures>, lfe: Seq<usize>, k: nat) -> Seq<char>
    decreases k,
{
    if k == 0 {
        Seq::empty()
    } else {
        diagnostics_rows(figs, lfe, (k - 1) as nat) + diagnostics_row(
            (k - 1) as nat,
            figs[k - 1],
            lfe,
        )
    }
}

/// The table for three to eight channels: the breakdown, then the diagnostics.
pub open spec fn medium_text(figs: Seq<ChannelFigures>, lfe: Seq<usize>) -> Seq<char> {
    breakdown_heading(figs.len()) + dr_rows(figs, lfe, false, figs.len()) + diagnostics_heading()
        + diagnostics_rows(figs, lfe, figs.len())
}

/// The table for nine channels or more: the breakdown (silent channels at
/// `0.00 dB`), the LFE note when there are LFE channels, then the diagnostics.
pub open spec fn large_text(figs: Seq<ChannelFigures>, channels: nat, lfe: Seq<usize>) -> Seq<char> {
    breakdown_heading(figs.len()) + dr_rows(figs, lfe, true, figs.len()) + (if lfe.len() > 0 {
        lfe_note_text(channels, lfe)
    } else {
        Seq::empty()
    }) + diagnostics_heading() + diagnostics_rows(figs, lfe, figs.len())
}

proof fn lemma_keep_below_bounded(s: Seq<usize>, bound: nat)
    ensures
        forall|j: int| 0 <= j < keep_below(s, bound).len() ==> #[trigger] keep_below(s, bound)[j] < bound,
    decreases s.len(),
{
    if s.len() > 0 {
        lemma_keep_below_bounded(s.drop_last(), bound);
        let rest = keep_below(s.drop_last(), bound);
        let cur = keep_below(s, bound);
        assert forall|j: int| 0 <= j < cur.len() implies #[trigger] cur[j] < bound by {
            if j < rest.len() {
                assert(cur[j] == rest[j]);
            }
        }
    }
}

fn push_underlined(out: &mut String, line: &String)
    ensures
        final(out)@ == old(out)@ + underlined(line@),
{
    push_str(out, line.as_str());
    let sep = separator_from(line.as_str());
    push_str(out, sep.as_str());
}

fn push_breakdown_heading(out: &mut String, count: usize)
    ensures
        final(out)@ == old(out)@ + breakdown_heading(count as nat),
{
    push_str(out, "声道明细 / Channel breakdown (");
    push_decimal(out, count as u64);
    push_str(out, " channels):\n");
    let header = format_two_cols_line("Official DR", "Precise DR", "通道 / Channel");
    push_underlined(out, &header);
    assert(final(out)@ =~= old(out)@ + breakdown_heading(count as nat));
}

fn push_diagnostics(out: &mut String, figs: &[ChannelFigures], lfe: &Vec<usize>)
    ensures
        final(out)@ == old(out)@ + diagnostics_heading() + diagnostics_rows(figs@, lfe@, figs@.len()),
{
    push_str(out, "\n");
    push_str(out, "RMS/Peak 诊断 / RMS/Peak Diagnostics\n");
    let header = format_two_cols_line("RMS(20%)", "Peak(选用/sel)", "通道 / Channel");
    push_underlined(out, &header);
    let ghost head = out@;
    assert(head =~= old(out)@ + diagnostics_heading());
    let mut i: usize = 0;
    while i < figs.len()
        invariant
            i <= figs@.len(),
            out@ == head + diagnostics_rows(figs@, lfe@, i as nat),
        decreases figs@.len() - i,
    {
        let f = &figs[i];
        let rms = with_db(&f.rms_db);
        let peak = with_db(&f.peak_db);
        let label = channel_label(i, contains_index(lfe, i), f.silent);
        let row = format_two_cols_line(rms.as_str(), peak.as_str(), label.as_str());
        push_str(out, row.as_str());
        i = i + 1;
        assert(out@ =~= head + diagnostics_rows(figs@, lfe@, i as nat));
    }
}

fn push_dr_rows(out: &mut String, figs: &[ChannelFigures], lfe: &Vec<usize>, zero_silent: bool)
    ensures
        final(out)@ == old(out)@ + dr_rows(figs@, lfe@, zero_silent, figs@.len()),
{
    let mut i: usize = 0;
    while i < figs.len()
        invariant
            i <= figs@.len(),
            out@ == old(out)@ + dr_rows(figs@, lfe@, zero_silent, i as nat),
        decreases figs@.len() - i,
    {
        let f = &figs[i];
        let mut official = owned("DR");
        push_signed_decimal(&mut official, f.official_dr as i64);
        let precise = if zero_silent && f.silent {
            owned("0.00 dB")
        } else {
            with_db(&f.precise_dr)
        };
        let label = channel_label(i, contains_index(lfe, i), f.silent);
        let row = format_two_cols_line(official.as_str(), precise.as_str(), label.as_str());
        push_str(out, row.as_str());
        i = i + 1;
        assert(out@ =~= old(out)@ + dr_rows(figs@, lfe@, zero_silent, i as nat));
    }
}

/// The table for three to eight channels (see `medium_text`), with the LFE
/// positions of `display_lfe`.
pub fn format_medium_multichannel_results(
    results: &[ChannelFigures],
    has_layout_metadata: bool,
    layout_lfe: &Vec<usize>,
    channels: u16,
) -> (s: String)
    ensures
        s@ == medium_text(
            results@,
            display_lfe(has_layout_metadata, layout_lfe@, channels as nat, results@.len()),
        ),
{
    let lfe = lfe_channel_positions(has_layout_metadata, layout_lfe, channels, results.len());
    let mut s = String::new();
    push_breakdown_heading(&mut s, results.len());
    push_dr_rows(&mut s, results, &lfe, false);
    push_diagnostics(&mut s, results, &lfe);
    assert(s@ =~= medium_text(results@, lfe@));
    s
}

/// The table for nine channels or more (see `large_text`), with the LFE
/// positions of `display_lfe`.
pub fn format_large_multichannel_results(
    results: &[ChannelFigures],
    has_layout_metadata: bool,
    layout_lfe: &Vec<usize>,
    channels: u16,
) -> (s: String)
    ensures
        s@ == large_text(
            results@,
            channels as nat,
            display_lfe(has_layout_metadata, layout_lfe@, channels as nat, results@.len()),
        ),
{
    let lfe = lfe_channel_positions(has_layout_metadata, layout_lfe, channels, results.len());
    proof {
        lemma_keep_below_bounded(layout_lfe@, results@.len());
        lemma_keep_below_bounded(standard_lfe(channels as nat), results@.len());
    }
    let mut s = String::new();
    push_breakdown_heading(&mut s, results.len());
    push_dr_rows(&mut s, results, &lfe, true);
    let note = lfe_note(channels, &lfe);
    push_str(&mut s, note.as_str());
    push_diagnostics(&mut s, results, &lfe);
    assert(s@ =~= large_text(results@, channels as nat, lfe@));
    s
}

/// The per-channel section for any number of channels: the partial-analysis
/// warning when packets were skipped, then the table that fits the count.
pub open spec fn results_text(
    figs: Seq<ChannelFigures>,
    skipped_packets: nat,
    show_rms_peak: bool,
    has_layout_metadata: bool,
    layout_lfe: Seq<usize>,
    channels: nat,
) -> Seq<char> {
    let lfe = display_lfe(has_layout_metadata, layout_lfe, channels, figs.len());
    (if skipped_packets > 0 {
        partial_warning_text(skipped_packets)
    } else {
        Seq::empty()
    }) + if figs.len() == 0 {
        "ERROR: 无音频数据\n"@
    } else if figs.len() == 1 {
        mono_text(figs[0], show_rms_peak)
    } else if figs.len() == 2 {
        stereo_text(figs[0], figs[1], show_rms_peak)
    } else if figs.len() <= 8 {
        medium_text(figs, lfe)
    } else {
        large_text(figs, channels, lfe)
    }
}

/// The per-channel section (see `results_text`).
pub fn format_dr_results_by_channel_count(
    results: &[ChannelFigures],
    skipped_packets: u64,
    show_rms_peak: bool,
    has_layout_metadata: bool,
    layout_lfe: &Vec<usize>,
    channels: u16,
) -> (s: String)
    ensures
        s@ == results_text(
            results@,
            skipped_packets as nat,
            show_rms_peak,
            has_layout_metadata,
            layout_lfe@,
            channels as nat,
        ),
{
    let mut s = String::new();
    if skipped_packets > 0 {
        let warning = partial_analysis_warning(skipped_packets);
        push_str(&mut s, warning.as_str());
    }
    let body = match result_layout(results.len()) {
        ResultLayout::NoData => owned("ERROR: 无音频数据\n"),
        ResultLayout::Mono => format_mono_results(&results[0], show_rms_peak),
        ResultLayout::Stereo => format_stereo_results(results, show_rms_peak),
        ResultLayout::MediumMultichannel => format_medium_multichannel_results(
            results,
            has_layout_metadata,
            layout_lfe,
            channels,
        ),
        ResultLayout::LargeMultichannel => format_large_multichannel_results(
            results,
            has_layout_metadata,
            layout_lfe,
            channels,
        ),
    };
    push_str(&mut s, body.as_str());
    assert(s@ =~= results_text(
        results@,
        skipped_packets as nat,
        show_rms_peak,
        has_layout_metadata,
        layout_lfe@,
        channels as nat,
    ));
    s
}

/// Heading, advice and labels of a boundary warning by risk level.
pub open spec fn risk_texts(risk: BoundaryRiskLevel) -> (Seq<char>, Seq<char>, Seq<char>) {
    match risk {
        BoundaryRiskLevel::High => (
            "边界风险（高）"@,
            "Boundary Risk (High)"@,
            "建议 / Recommendation: 使用 foobar2000 DR Meter 交叉验证 / Cross-validate with foobar2000"@,
        ),
        BoundaryRiskLevel::Medium => (
            "边界风险（中）"@,
            "Boundary Risk (Medium)"@,
            "建议 / Recommendation: 留意与 foobar2000 的对比结果 / Compare with foobar2000 results"@,
        ),
        BoundaryRiskLevel::Low => (Seq::empty(), Seq::empty(), Seq::empty()),
    }
}

/// The warning for an aggregate DR close to a rounding boundary: the risk,
/// the distance to the boundary in both languages, the value it may round to
/// instead, and the advice. The precise value and the distance arrive rendered.
pub open spec fn boundary_warning_text(
    risk: BoundaryRiskLevel,
    direction: BoundaryDirection,
    official_dr: int,
    precise: Seq<char>,
    distance: Seq<char>,
) -> Seq<char> {
    let (head_zh, head_en, advice) = risk_texts(risk);
    let target = potential_dr_of(official_dr, direction);
    let dr = "DR"@ + signed_decimal(official_dr);
    let other = "DR"@ + signed_decimal(target);
    let (desc_zh, desc_en) = match direction {
        BoundaryDirection::Upper => (
            dr + "/"@ + other + " 上边界"@,
            "upper boundary between "@ + dr + " and "@ + other,
        ),
        BoundaryDirection::Lower => (
            other + "/"@ + dr + " 下边界"@,
            "lower boundary between "@ + other + " and "@ + dr,
        ),
    };
    head_zh + " / "@ + head_en + "\n"@ + "Precise DR "@ + precise + " dB 距离 "@ + desc_zh + " "@
        + distance + " dB\n"@ + "Distance to "@ + desc_en + ": "@ + distance + " dB\n"@
        + "可能被舍入至 "@ + other + " 而非 "@ + dr + "\n"@ + "May round to "@ + other
        + " instead of "@ + dr + "\n"@ + advice + "\n"@
}

fn dr_text(value: i32) -> (s: String)
    ensures
        s@ == "DR"@ + signed_decimal(value as int),
{
    let mut s = owned("DR");
    push_signed_decimal(&mut s, value as i64);
    s
}

/// The boundary warning (see `boundary_warning_text`).
pub fn format_boundary_warning(
    risk: BoundaryRiskLevel,
    direction: BoundaryDirection,
    official_dr: i32,
    precise: &str,
    distance: &str,
) -> (s: String)
    requires
        i32::MIN < official_dr < i32::MAX,
    ensures
        s@ == boundary_warning_text(risk, direction, official_dr as int, precise@, distance@),
{
    let (head_zh, head_en, advice) = match risk {
        BoundaryRiskLevel::High => (
            "边界风险（高）",
            "Boundary Risk (High)",
            "建议 / Recommendation: 使用 foobar2000 DR Meter 交叉验证 / Cross-validate with foobar2000",
        ),
        BoundaryRiskLevel::Medium => (
            "边界风险（中）",
            "Boundary Risk (Medium)",
            "建议 / Recommendation: 留意与 foobar2000 的对比结果 / Compare with foobar2000 results",
        ),
        BoundaryRiskLevel::Low => ("", "", ""),
    };
    proof {
        reveal_strlit("");
    }
    let target = potential_dr(official_dr, direction);
    let dr = dr_text(official_dr);
    let other = dr_text(target);
    let mut desc_zh = String::new();
    let mut desc_en = String::new();
    match direction {
        BoundaryDirection::Upper => {
            push_str(&mut desc_zh, dr.as_str());
            push_str(&mut desc_zh, "/");
            push_str(&mut desc_zh, other.as_str());
            push_str(&mut desc_zh, " 上边界");
            push_str(&mut desc_en, "upper boundary between ");
            push_str(&mut desc_en, dr.as_str());
            push_str(&mut desc_en, " and ");
            push_str(&mut desc_en, other.as_str());
        },
        BoundaryDirection::Lower => {
            push_str(&mut desc_zh, other.as_str());
            push_str(&mut desc_zh, "/");
            push_str(&mut desc_zh, dr.as_str());
            push_str(&mut desc_zh, " 下边界");
            push_str(&mut desc_en, "lower boundary between ");
            push_str(&mut desc_en, other.as_str());
            push_str(&mut desc_en, " and ");
            push_str(&mut desc_en, dr.as_str());
        },
    }
    let mut s = String::new();
    push_str(&mut s, head_zh);
    push_str(&mut s, " / ");
    push_str(&mut s, head_en);
    push_str(&mut s, "\n");
    push_str(&mut s, "Precise DR ");
    push_str(&mut s, precise);
    push_str(&mut s, " dB 距离 ");
    push_str(&mut s, desc_zh.as_str());
    push_str(&mut s, " ");
    push_str(&mut s, distance);
    push_str(&mut s, " dB\n");
    push_str(&mut s, "Distance to ");
    push_str(&mut s, desc_en.as_str());
    push_str(&mut s, ": ");
    push_str(&mut s, distance);
    push_str(&mut s, " dB\n");
    push_str(&mut s, "可能被舍入至 ");
    push_str(&mut s, other.as_str());
    push_str(&mut s, " 而非 ");
    push_str(&mut s, dr.as_str());
    push_str(&mut s, "\n");
    push_str(&mut s, "May round to ");
    push_str(&mut s, other.as_str());
    push_str(&mut s, " instead of ");
    push_str(&mut s, dr.as_str());
    push_str(&mut s, "\n");
    push_str(&mut s, advice);
    push_str(&mut s, "\n");
    assert(s@ =~= boundary_warning_text(risk, direction, official_dr as int, precise@, distance@));
    s
}

/// Labels of the format details.
pub open spec fn info_labels() -> Seq<Seq<char>> {
    seq![
        "采样率 / Sample rate:"@,
        "声道数 / Channels:"@,
        "位深 / Bits per sample:"@,
        "比特率 / Bitrate:"@,
        "编码 / Codec:"@,
    ]
}

/// The widest of the first `k` labels.
pub open spec fn widest_label(labels: Seq<Seq<char>>, k: nat) -> nat
    decreases k,
{
    if k == 0 {
        0
    } else {
        let w = display_width(labels[k - 1]);
        let rest = widest_label(labels, (k - 1) as nat);
        if w > rest {
            w
        } else {
            rest
        }
    }
}

/// Note shown under the sample rate when DSD was converted at 352.8 kHz.
pub open spec fn dsd_rate_note() -> Seq<char> {
    "Note: foobar2000 often shows 384 kHz; we use 352.8 kHz integer ratio to avoid fractional resampling. / 注：foobar2000 常见显示为 384 kHz；本工具采用 352.8 kHz 的 44.1k 整数比，避免分数重采样。"@
}

/// The bit rate as shown: `N/A` when it could not be determined.
pub open spec fn bitrate_text(bitrate_kbps: Option<u32>) -> Seq<char> {
    match bitrate_kbps {
        Some(b) => decimal(b as nat) + " kbps"@,
        None => "N/A"@,
    }
}

/// The format details: sample rate (with the DSD note at 352.8 kHz), channels,
/// bits per sample, bit rate and codec, labels padded to the widest label,
/// closed by a line of `=` as wide as the report's header line.
pub open spec fn audio_info_text(
    sample_rate: nat,
    processed_sample_rate: Option<u32>,
    channels: nat,
    bits_per_sample: nat,
    bitrate_kbps: Option<u32>,
    codec: Seq<char>,
    header_line: Seq<char>,
) -> Seq<char> {
    let labels = info_labels();
    let w = widest_label(labels, 5) as usize;
    line2(labels[0], sample_rate_text(sample_rate, processed_sample_rate), w, 0) + (if processed_sample_rate
        == Some(352800u32) {
        line2(""@, dsd_rate_note(), w, 0)
    } else {
        Seq::empty()
    }) + line2(labels[1], decimal(channels), w, 0) + line2(labels[2], decimal(bits_per_sample), w, 0)
        + line2(labels[3], bitrate_text(bitrate_kbps), w, 0) + line2(labels[4], codec, w, 0)
        + separator_text(seq![header_line], '=')
}

/// The format details (see `audio_info_text`); the bit rate and the codec name
/// are determined by the caller.
pub fn format_audio_info(
    sample_rate: u32,
    processed_sample_rate: Option<u32>,
    channels: u16,
    bits_per_sample: u16,
    bitrate_kbps: Option<u32>,
    codec: &str,
    header_line: &str,
) -> (s: String)
    ensures
        s@ == audio_info_text(
            sample_rate as nat,
            processed_sample_rate,
            channels as nat,
            bits_per_sample as nat,
            bitrate_kbps,
            codec@,
            header_line@,
        ),
{
    let l0 = "采样率 / Sample rate:";
    let l1 = "声道数 / Channels:";
    let l2 = "位深 / Bits per sample:";
    let l3 = "比特率 / Bitrate:";
    let l4 = "编码 / Codec:";
    let ghost labels = info_labels();
    let mut widest: u128 = 0;
    let w0 = text_width(l0);
    if w0 > widest {
        widest = w0;
    }
    let w1 = text_width(l1);
    if w1 > widest {
        widest = w1;
    }
    let w2 = text_width(l2);
    if w2 > widest {
        widest = w2;
    }
    let w3 = text_width(l3);
    if w3 > widest {
        widest = w3;
    }
    let w4 = text_width(l4);
    if w4 > widest {
        widest = w4;
    }
    proof {
        assert(labels[0] == l0@ && labels[1] == l1@ && labels[2] == l2@ && labels[3] == l3@
            && labels[4] == l4@);
        reveal_with_fuel(widest_label, 6);
    }
    let w = widest as usize;
    let mut s = String::new();
    let rate = format_sample_rate(sample_rate, processed_sample_rate);
    push_line2(&mut s, l0, rate.as_str(), w, 0);
    if processed_sample_rate == Some(352800u32) {
        push_line2(
            &mut s,
            "",
            "Note: foobar2000 often shows 384 kHz; we use 352.8 kHz integer ratio to avoid fractional resampling. / 注：foobar2000 常见显示为 384 kHz；本工具采用 352.8 kHz 的 44.1k 整数比，避免分数重采样。",
            w,
            0,
        );
    }
    let mut ch = String::new();
    push_decimal(&mut ch, channels as u64);
    push_line2(&mut s, l1, ch.as_str(), w, 0);
    let mut bits = String::new();
    push_decimal(&mut bits, bits_per_sample as u64);
    push_line2(&mut s, l2, bits.as_str(), w, 0);
    let mut rate_text = String::new();
    match bitrate_kbps {
        Some(b) => {
            push_decimal(&mut rate_text, b as u64);
            push_str(&mut rate_text, " kbps");
        },
        None => {
            push_str(&mut rate_text, "N/A");
        },
    }
    push_line2(&mut s, l3, rate_text.as_str(), w, 0);
    push_line2(&mut s, l4, codec, w, 0);
    let mut lines: Vec<&str> = Vec::new();
    lines.push(header_line);
    assert(strs_view(lines@) =~= seq![header_line@]);
    let sep = separator_for_lines(lines.as_slice());
    push_str(&mut s, sep.as_str());
    assert(s@ =~= audio_info_text(
        sample_rate as nat,
        processed_sample_rate,
        channels as nat,
        bits_per_sample as nat,
        bitrate_kbps,
        codec@,
        header_line@,
    ));
    s
}

/// The edge trimming applied to a file, rendered: the threshold (one
/// decimal), the minimum run and hysteresis (whole milliseconds), the seconds
/// trimmed in all, at the head and at the tail (three decimals), and the
/// samples trimmed.
#[derive(Debug, Clone)]
pub struct EdgeTrimFigures {
    pub threshold_db: String,
    pub min_run_ms: String,
    pub hysteresis_ms: String,
    pub total_seconds: String,
    pub leading_seconds: String,
    pub trailing_seconds: String,
    pub total_samples: usize,
}

/// The silence filtering of one channel: its windows kept, removed and in
/// all, and the share removed, rendered with two decimals.
#[derive(Debug, Clone)]
pub struct SilenceChannelFigures {
    pub channel_index: usize,
    pub valid_windows: usize,
    pub filtered_windows: usize,
    pub total_windows: usize,
    pub filtered_percent: String,
}

/// The silence filtering applied to a file: the threshold (one decimal) and
/// each channel's figures.
#[derive(Debug, Clone)]
pub struct SilenceFilterFigures {
    pub threshold_db: String,
    pub channels: Vec<SilenceChannelFigures>,
}

/// The lines describing the edge trimming.
pub open spec fn edge_trim_text(t: EdgeTrimFigures) -> Seq<char> {
    "边缘裁切启用 / Edge trimming enabled: threshold "@ + t.threshold_db@ + " dBFS, min run "@
        + t.min_run_ms@ + " ms (hysteresis "@ + t.hysteresis_ms@ + " ms)\n"@ + "裁切剔除 / Trimmed: "@
        + t.total_seconds@ + " s ("@ + decimal(t.total_samples as nat) + " samples) | 前端 / Leading "@
        + t.leading_seconds@ + " s, 末端 / Trailing "@ + t.trailing_seconds@ + " s\n"@
}

/// The silence-filter line of one channel.
pub open spec fn silence_channel_text(c: SilenceChannelFigures) -> Seq<char> {
    let number = decimal(c.channel_index as nat + 1);
    if c.total_windows == 0 {
        "通道 Channel "@ + number + ": 无可分析窗口（文件过短）/ No analysis windows (file too short)\n"@
    } else if c.filtered_windows == 0 {
        "通道 Channel "@ + number + ": 未移除静音窗口 / No silent windows removed （总窗口 / Total: "@
            + decimal(c.total_windows as nat) + "）\n"@
    } else {
        "通道 Channel "@ + number + ": 移除 "@ + decimal(c.filtered_windows as nat) + "/"@ + decimal(
            c.total_windows as nat,
        ) + " 窗口 ("@ + c.filtered_percent@ + "%)，有效 / Valid "@ + decimal(c.valid_windows as nat)
            + "\n"@
    }
}

/// The lines of the first `k` channels.
pub open spec fn silence_channels_text(cs: Seq<SilenceChannelFigures>, k: nat) -> Seq<char>
    decreases k,
{
    if k == 0 {
        Seq::empty()
    } else {
        silence_channels_text(cs, (k - 1) as nat) + silence_channel_text(cs[k - 1])
    }
}

/// The lines describing the silence filtering.
pub open spec fn silence_filter_text(f: SilenceFilterFigures) -> Seq<char> {
    "静音过滤启用 / Silence filter enabled: threshold "@ + f.threshold_db@ + " dBFS\n"@
        + silence_channels_text(f.channels@, f.channels@.len())
}

/// The report header: the header line, the log date, a dashed line, the file,
/// its sample count and duration, the trimming and filtering applied, and a
/// closing dashed line with a blank line.
pub open spec fn output_header_text(
    header_line: Seq<char>,
    log_date: Seq<char>,
    file_name: Seq<char>,
    sample_count: nat,
    total_seconds: nat,
    edge_trim: Option<EdgeTrimFigures>,
    silence_filter: Option<SilenceFilterFigures>,
) -> Seq<char> {
    let dashes = separator_text(seq![header_line], '-');
    header_line + "\n"@ + "日志时间 / Log date: "@ + log_date + "\n\n"@ + dashes
        + "统计对象 / Statistics for: "@ + file_name + "\n"@ + "样本总数 / Number of samples: "@
        + decimal(sample_count) + "\n"@ + "时长 / Duration: "@ + duration_text(total_seconds) + "\n"@
        + (match edge_trim {
        Some(t) => edge_trim_text(t),
        None => Seq::empty(),
    }) + (match silence_filter {
        Some(f) => silence_filter_text(f),
        None => Seq::empty(),
    }) + dashes + "\n"@
}

fn push_silence_channel(out: &mut String, c: &SilenceChannelFigures)
    requires
        c.channel_index < u64::MAX,
    ensures
        final(out)@ == old(out)@ + silence_channel_text(*c),
{
    push_str(out, "通道 Channel ");
    push_decimal(out, c.channel_index as u64 + 1);
    if c.total_windows == 0 {
        push_str(out, ": 无可分析窗口（文件过短）/ No analysis windows (file too short)\n");
    } else if c.filtered_windows == 0 {
        push_str(out, ": 未移除静音窗口 / No silent windows removed （总窗口 / Total: ");
        push_decimal(out, c.total_windows as u64);
        push_str(out, "）\n");
    } else {
        push_str(out, ": 移除 ");
        push_decimal(out, c.filtered_windows as u64);
        push_str(out, "/");
        push_decimal(out, c.total_windows as u64);
        push_str(out, " 窗口 (");
        push_str(out, c.filtered_percent.as_str());
        push_str(out, "%)，有效 / Valid ");
        push_decimal(out, c.valid_windows as u64);
        push_str(out, "\n");
    }
    assert(final(out)@ =~= old(out)@ + silence_channel_text(*c));
}

fn push_edge_trim(out: &mut String, t: &EdgeTrimFigures)
    ensures
        final(out)@ == old(out)@ + edge_trim_text(*t),
{
    push_str(out, "边缘裁切启用 / Edge trimming enabled: threshold ");
    push_str(out, t.threshold_db.as_str());
    push_str(out, " dBFS, min run ");
    push_str(out, t.min_run_ms.as_str());
    push_str(out, " ms (hysteresis ");
    push_str(out, t.hysteresis_ms.as_str());
    push_str(out, " ms)\n");
    push_str(out, "裁切剔除 / Trimmed: ");
    push_str(out, t.total_seconds.as_str());
    push_str(out, " s (");
    push_decimal(out, t.total_samples as u64);
    push_str(out, " samples) | 前端 / Leading ");
    push_str(out, t.leading_seconds.as_str());
    push_str(out, " s, 末端 / Trailing ");
    push_str(out, t.trailing_seconds.as_str());
    push_str(out, " s\n");
    assert(final(out)@ =~= old(out)@ + edge_trim_text(*t));
}

fn push_silence_filter(out: &mut String, f: &SilenceFilterFigures)
    requires
        forall|i: int| 0 <= i < f.channels@.len() ==> #[trigger] f.channels@[i].channel_index < u64::MAX,
    ensures
        final(out)@ == old(out)@ + silence_filter_text(*f),
{
    push_str(out, "静音过滤启用 / Silence filter enabled: threshold ");
    push_str(out, f.threshold_db.as_str());
    push_str(out, " dBFS\n");
    let ghost head = out@;
    let mut i: usize = 0;
    while i < f.channels.len()
        invariant
            i <= f.channels@.len(),
            forall|j: int| 0 <= j < f.channels@.len() ==> #[trigger] f.channels@[j].channel_index < u64::MAX,
            out@ == head + silence_channels_text(f.channels@, i as nat),
        decreases f.channels@.len() - i,
    {
        push_silence_channel(out, &f.channels[i]);
        i = i + 1;
        assert(out@ =~= head + silence_channels_text(f.channels@, i as nat));
    }
    assert(final(out)@ =~= old(out)@ + silence_filter_text(*f));
}

/// The report header (see `output_header_text`); the log date and the
/// rendered trimming and filtering figures come from the caller.
pub fn create_output_header(
    header_line: &str,
    log_date: &str,
    file_name: &str,
    sample_count: u64,
    total_seconds: u32,
    edge_trim: Option<EdgeTrimFigures>,
    silence_filter: Option<SilenceFilterFigures>,
) -> (s: String)
    requires
        silence_filter matches Some(f) ==> forall|i: int|
            0 <= i < f.channels@.len() ==> #[trigger] f.channels@[i].channel_index < u64::MAX,
    ensures
        s@ == output_header_text(
            header_line@,
            log_date@,
            file_name@,
            sample_count as nat,
            total_seconds as nat,
            edge_trim,
            silence_filter,
        ),
{
    let mut lines: Vec<&str> = Vec::new();
    lines.push(header_line);
    assert(strs_view(lines@) =~= seq![header_line@]);
    let dashes = separator_for_lines_with_char(lines.as_slice(), '-');
    let mut s = owned(header_line);
    push_str(&mut s, "\n");
    push_str(&mut s, "日志时间 / Log date: ");
    push_str(&mut s, log_date);
    push_str(&mut s, "\n\n");
    push_str(&mut s, dashes.as_str());
    push_str(&mut s, "统计对象 / Statistics for: ");
    push_str(&mut s, file_name);
    push_str(&mut s, "\n");
    push_str(&mut s, "样本总数 / Number of samples: ");
    push_decimal(&mut s, sample_count);
    push_str(&mut s, "\n");
    push_str(&mut s, "时长 / Duration: ");
    let duration = format_duration(total_seconds);
    push_str(&mut s, duration.as_str());
    push_str(&mut s, "\n");
    match &edge_trim {
        Some(t) => push_edge_trim(&mut s, t),
        None => {},
    }
    match &silence_filter {
        Some(f) => push_silence_filter(&mut s, f),
        None => {},
    }
    push_str(&mut s, dashes.as_str());
    push_str(&mut s, "\n");
    assert(s@ =~= output_header_text(
        header_line@,
        log_date@,
        file_name@,
        sample_count as nat,
        total_seconds as nat,
        edge_trim,
        silence_filter,
    ));
    s
}

} // verus!
