//! Extraction of one channel from interleaved samples.

use crate::processing::simd_core::{basic_simd, SimdCapabilities, SimdProcessor};
use vstd::prelude::*;

verus! {

/// Number of samples of channel `idx` in `len` interleaved samples of `count` channels.
pub open spec fn channel_len(len: nat, idx: nat, count: nat) -> nat {
    if idx < len && count > 0 {
        ((len - idx - 1) as nat / count + 1) as nat
    } else {
        0
    }
}

/// The samples of channel `idx`: every `count`-th sample starting at `idx`.
pub open spec fn channel_of<T>(samples: Seq<T>, idx: nat, count: nat) -> Seq<T> {
    Seq::new(channel_len(samples.len(), idx, count), |k: int| samples[idx + k * count])
}

/// Separates channels of mono and stereo streams.
pub struct ChannelSeparator {
    simd_processor: SimdProcessor,
}

impl ChannelSeparator {
    /// The capabilities this separator was made for.
    pub closed spec fn caps(&self) -> SimdCapabilities {
        self.simd_processor.caps()
    }

    /// A separator for the given capabilities.
    pub fn new(capabilities: SimdCapabilities) -> (s: Self)
        ensures
            s.caps() == capabilities,
    {
        ChannelSeparator { simd_processor: SimdProcessor::new(capabilities) }
    }

    /// Whether a four-lane vector path is available.
    pub fn has_simd_support(&self) -> (b: bool)
        ensures
            b == basic_simd(self.caps()),
    {
        self.simd_processor.capabilities().has_basic_simd()
    }

    /// The capabilities.
    pub fn simd_capabilities(&self) -> (c: &SimdCapabilities)
        ensures
            *c == self.caps(),
    {
        self.simd_processor.capabilities()
    }

    /// Replaces the contents of `output` by channel `channel_idx` of a mono or
    /// stereo stream.
    pub fn extract_channel_into<T: Copy>(
        &self,
        samples: &[T],
        channel_idx: usize,
        channel_count: usize,
        output: &mut Vec<T>,
    )
        requires
            1 <= channel_count <= 2,
            channel_idx < channel_count,
        ensures
            final(output)@ == channel_of(samples@, channel_idx as nat, channel_count as nat),
    {
        output.clear();
        Self::extract_channel_samples_scalar_into(samples, channel_idx, channel_count, output);
        assert(final(output)@ =~= channel_of(samples@, channel_idx as nat, channel_count as nat));
    }

    /// Channel `channel_idx` of a mono or stereo stream, as a new vector.
    pub fn extract_channel_samples_optimized<T: Copy>(
        &self,
        samples: &[T],
        channel_idx: usize,
        channel_count: usize,
    ) -> (r: Vec<T>)
        requires
            1 <= channel_count <= 2,
            channel_idx < channel_count,
        ensures
            r@ == channel_of(samples@, channel_idx as nat, channel_count as nat),
    {
        let mut result: Vec<T> = Vec::new();
        self.extract_channel_into(samples, channel_idx, channel_count, &mut result);
        result
    }

    /// Appends every `channel_count`-th sample, starting at `channel_idx`, to `output`.
    pub fn extract_channel_samples_scalar_into<T: Copy>(
        samples: &[T],
        channel_idx: usize,
        channel_count: usize,
        output: &mut Vec<T>,
    )
        requires
            channel_count > 0,
        ensures
            final(output)@ == old(output)@ + channel_of(
                samples@,
                channel_idx as nat,
                channel_count as nat,
            ),
    {
        let ghost start = old(output)@;
        let ghost full = channel_of(samples@, channel_idx as nat, channel_count as nat);
        let len = samples.len();
        let mut pos: usize = channel_idx;
        let mut k: usize = 0;
        if pos >= len {
            assert(full =~= Seq::<T>::empty());
            assert(output@ =~= start + full);
            return;
        }
        while pos < len
            invariant
                len == samples@.len(),
                channel_count > 0,
                channel_idx < len,
                pos <= len,
                pos < len ==> pos == channel_idx + k * channel_count,
                k <= full.len(),
                full == channel_of(samples@, channel_idx as nat, channel_count as nat),
                full.len() == (len - channel_idx - 1) as nat / channel_count as nat + 1,
                pos < len ==> k < full.len(),
                pos == len ==> k == full.len(),
                output@ == start + full.subrange(0, k as int),
            decreases len - pos,
        {
            output.push(samples[pos]);
            proof {
                assert(full[k as int] == samples@[pos as int]);
                assert(full.subrange(0, k + 1) =~= full.subrange(0, k as int).push(full[k as int]));
                lemma_step_position(len as nat, channel_idx as nat, channel_count as nat, k as nat);
            }
            k = k + 1;
            if len - pos <= channel_count {
                pos = len;
            } else {
                pos = pos + channel_count;
            }
        }
        assert(full.subrange(0, k as int) =~= full);
    }

    /// Every `channel_count`-th sample, starting at `channel_idx`, as a new vector.
    pub fn extract_channel_samples_scalar<T: Copy>(
        samples: &[T],
        channel_idx: usize,
        channel_count: usize,
    ) -> (r: Vec<T>)
        requires
            channel_count > 0,
        ensures
            r@ == channel_of(samples@, channel_idx as nat, channel_count as nat),
    {
        let mut result: Vec<T> = Vec::new();
        Self::extract_channel_samples_scalar_into(samples, channel_idx, channel_count, &mut result);
        assert(result@ =~= channel_of(samples@, channel_idx as nat, channel_count as nat));
        result
    }
}

/// Position `idx + k * count` is inside the stream exactly for the first
/// `channel_len` values of `k`.
proof fn lemma_step_position(len: nat, idx: nat, count: nat, k: nat)
    requires
        idx < len,
        count > 0,
    ensures
        (idx + k * count < len) <==> (k < (len - idx - 1) as nat / count + 1),
        (idx + (k + 1) * count < len) <==> (k + 1 < (len - idx - 1) as nat / count + 1),
        idx + (k + 1) * count == idx + k * count + count,
{
    let q = (len - idx - 1) as nat / count;
    let r = (len - idx - 1) as nat % count;
    assert((len - idx - 1) as nat == q * count + r) by (nonlinear_arith)
        requires
            count > 0,
            q == (len - idx - 1) as nat / count,
            r == (len - idx - 1) as nat % count,
    ;
    assert(idx + (k + 1) * count == idx + k * count + count) by (nonlinear_arith);
    assert((idx + k * count < len) <==> (k < q + 1)) by (nonlinear_arith)
        requires
            (len - idx - 1) as nat == q * count + r,
            0 <= r < count,
            idx < len,
    ;
    assert((idx + (k + 1) * count < len) <==> (k + 1 < q + 1)) by (nonlinear_arith)
        requires
            (len - idx - 1) as nat == q * count + r,
            0 <= r < count,
            idx < len,
    ;
}

/// Extracting a channel from a buffer into which that channel was interleaved
/// gives the channel back: separation undoes interleaving.
pub proof fn lemma_extract_after_interleave<T>(out: Seq<T>, ch: Seq<T>, idx: nat, count: nat)
    requires
        idx < count,
        out.len() == ch.len() * count,
        forall|k: int| 0 <= k < ch.len() ==> out[k * count + idx] == #[trigger] ch[k],
    ensures
        channel_of(out, idx, count) == ch,
{
    let n = ch.len();
    if n == 0 {
        assert(out.len() == 0) by (nonlinear_arith)
            requires
                out.len() == n * count,
                n == 0,
        ;
        assert(channel_of(out, idx, count) =~= ch);
    } else {
        let m = (n * count - idx - 1) as int;
        assert(m == (n - 1) * count + (count - idx - 1)) by (nonlinear_arith)
            requires
                m == n * count - idx - 1,
                n >= 1,
        ;
        vstd::arithmetic::div_mod::lemma_fundamental_div_mod_converse(
            m,
            count as int,
            (n - 1) as int,
            (count - idx - 1) as int,
        );
        assert(idx < out.len()) by (nonlinear_arith)
            requires
                idx < count,
                n >= 1,
                out.len() == n * count,
        ;
        assert(channel_len(out.len(), idx, count) == n);
        assert forall|k: int| 0 <= k < n implies #[trigger] channel_of(out, idx, count)[k] == ch[k] by {
            assert(out[k * count + idx] == ch[k]);
            assert(idx + k * count == k * count + idx);
        }
        assert(channel_of(out, idx, count) =~= ch);
    }
}

} // verus!
