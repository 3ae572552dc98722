//! Defensive checks applied before and after an analysis: input shape, index
//! bounds, memory use, file paths, format support and resource release.

use crate::error::{AudioError, AudioResult, IoErrorKind};
use crate::text::{decimal, owned, push_decimal, push_str};
use vstd::layout::spec_size_of_val;
use vstd::prelude::*;

verus! {

/// Most samples accepted in one buffer.
pub const MAX_INPUT_SAMPLES: usize = 100000000;

/// Most channels accepted.
pub const MAX_SAFE_CHANNELS: usize = 32;

/// Largest memory use allowed (1 GiB).
pub const MAX_MEMORY_BYTES: u64 = 1073741824;

/// Memory use above which a warning is printed (512 MiB).
pub const MEMORY_WARNING_BYTES: u64 = 536870912;

/// Longest file path accepted, in bytes.
pub const MAX_PATH_BYTES: usize = 4096;

/// Largest file accepted for reading (2 GiB).
pub const MAX_FILE_SIZE: u64 = 2147483648;

/// Outcome of the input check.
pub open spec fn input_outcome(len: nat, channels: nat, sample_rate: nat) -> Result<(), Seq<char>> {
    if len == 0 {
        Err("音频样本数据不能为空"@)
    } else if len > MAX_INPUT_SAMPLES {
        Err("音频样本数量过大，可能导致内存不足"@)
    } else if channels == 0 {
        Err("声道数必须大于0"@)
    } else if channels > MAX_SAFE_CHANNELS {
        Err("声道数不能超过32"@)
    } else if len % channels != 0 {
        Err("样本数量("@ + decimal(len) + ")必须是声道数("@ + decimal(channels) + ")的倍数"@)
    } else if sample_rate == 0 {
        Err("采样率不能为0"@)
    } else if !(8000 <= sample_rate <= 384000) {
        Err("采样率("@ + decimal(sample_rate) + ")超出支持范围(8kHz-384kHz)"@)
    } else {
        Ok(())
    }
}

/// The input check accepts exactly the buffers that are not empty, hold at
/// most 100 million samples in whole frames of 1 to 32 channels, at any
/// sample rate from 8 kHz to 384 kHz (DXD's 352.8 kHz and 384 kHz included).
pub proof fn lemma_input_accepted_exactly(len: nat, channels: nat, sample_rate: nat)
    ensures
        input_outcome(len, channels, sample_rate) is Ok <==> {
            &&& 0 < len <= 100000000
            &&& 1 <= channels <= 32
            &&& len % channels == 0
            &&& 8000 <= sample_rate <= 384000
        },
{
}

/// Every sample rate the format check supports also passes the input check.
pub proof fn lemma_supported_rates_pass_input_check(len: nat, channels: nat, sample_rate: nat)
    requires
        format_outcome(sample_rate, channels, 16) is Ok,
        0 < len <= 100000000,
        len % channels == 0,
    ensures
        input_outcome(len, channels, sample_rate) is Ok,
{
}

/// Whether an `AudioResult<()>` is `Ok` exactly when the outcome is, and
/// otherwise an error built by `wrap` around the outcome's message.
pub open spec fn result_matches(
    r: AudioResult<()>,
    o: Result<(), Seq<char>>,
    kind: ErrorKindTag,
) -> bool {
    match r {
        Ok(()) => o is Ok,
        Err(e) => match o {
            Ok(()) => false,
            Err(m) => has_message(e, kind, m),
        },
    }
}

/// The error variants the checks report, without their messages.
#[derive(Debug, Clone, Copy, PartialEq, Eq, Structural)]
pub enum ErrorKindTag {
    InvalidInput,
    FormatError,
    IoError,
    ResourceError,
}

/// Whether `e` is the variant `kind` carrying message `m`.
pub open spec fn has_message(e: AudioError, kind: ErrorKindTag, m: Seq<char>) -> bool {
    match kind {
        ErrorKindTag::InvalidInput => e matches AudioError::InvalidInput(s) && s@ == m,
        ErrorKindTag::FormatError => e matches AudioError::FormatError(s) && s@ == m,
        ErrorKindTag::IoError => e matches AudioError::IoError(_, s) && s@ == m,
        ErrorKindTag::ResourceError => e matches AudioError::ResourceError(s) && s@ == m,
    }
}

fn fail(kind: ErrorKindTag, m: String) -> (r: AudioResult<()>)
    ensures
        r matches Err(e) && has_message(e, kind, m@),
{
    match kind {
        ErrorKindTag::InvalidInput => Err(AudioError::InvalidInput(m)),
        ErrorKindTag::FormatError => Err(AudioError::FormatError(m)),
        ErrorKindTag::IoError => Err(AudioError::IoError(IoErrorKind::Other, m)),
        ErrorKindTag::ResourceError => Err(AudioError::ResourceError(m)),
    }
}

fn fail_io(kind: IoErrorKind, m: String) -> (r: AudioResult<()>)
    ensures
        r == Err::<(), AudioError>(AudioError::IoError(kind, m)),
{
    Err(AudioError::IoError(kind, m))
}

fn text(t: &str) -> (s: String)
    ensures
        s@ == t@,
{
    let mut s = String::new();
    push_str(&mut s, t);
    s
}

/// Whether `s` contains two consecutive dots.
pub open spec fn has_double_dot(s: Seq<char>) -> bool {
    exists|i: int| 0 <= i && i + 1 < s.len() && s[i] == '.' && #[trigger] s[i + 1] == '.'
}

/// Bytes of `c` in UTF-8, as `char::len_utf8` documents.
pub open spec fn utf8_width(c: char) -> nat {
    if (c as u32) < 0x80 {
        1
    } else if (c as u32) < 0x800 {
        2
    } else if (c as u32) < 0x10000 {
        3
    } else {
        4
    }
}

/// Bytes of `s` in UTF-8 (what `str::len` returns).
pub open spec fn utf8_len(s: Seq<char>) -> nat
    decreases s.len(),
{
    if s.len() == 0 {
        0
    } else {
        utf8_len(s.drop_last()) + utf8_width(s.last())
    }
}

/// What the caller found out about a path on disk.
#[derive(Debug, Clone, Copy, PartialEq, Eq, Structural)]
pub struct FileStatus {
    /// Whether the path exists.
    pub exists: bool,
    /// The file's size, when its metadata could be read.
    pub size: Option<u64>,
    /// Whether the path has a parent directory that does not exist.
    pub parent_missing: bool,
}

/// Outcome of the file check for `path`, `operation` and what is known of the path.
pub open spec fn file_outcome(path: Seq<char>, operation: Seq<char>, st: FileStatus) -> Result<(), Seq<char>> {
    if has_double_dot(path) {
        Err("文件路径包含不安全的相对路径"@)
    } else if utf8_len(path) > MAX_PATH_BYTES {
        Err("文件路径过长"@)
    } else if operation == "read"@ {
        if !st.exists {
            Err("文件不存在: "@ + path)
        } else if st.size matches Some(n) && n > MAX_FILE_SIZE {
            Err("文件过大"@)
        } else {
            Ok(())
        }
    } else if operation == "write"@ {
        if st.parent_missing {
            Err("目标目录不存在"@)
        } else {
            Ok(())
        }
    } else {
        Err("不支持的文件操作: "@ + operation)
    }
}

/// The kind of I/O failure the file check reports for `path`, `operation`
/// and what is known of the path, when it refuses them.
pub open spec fn file_error_kind(path: Seq<char>, operation: Seq<char>, st: FileStatus) -> IoErrorKind {
    if has_double_dot(path) || utf8_len(path) > MAX_PATH_BYTES {
        IoErrorKind::InvalidInput
    } else if operation == "read"@ {
        if !st.exists {
            IoErrorKind::NotFound
        } else {
            IoErrorKind::InvalidData
        }
    } else if operation == "write"@ {
        IoErrorKind::NotFound
    } else {
        IoErrorKind::InvalidInput
    }
}

/// Outcome of the format check.
pub open spec fn format_outcome(sample_rate: nat, channels: nat, bits: nat) -> Result<(), Seq<char>> {
    if !supported_rate(sample_rate) {
        Err("不支持的采样率: "@ + decimal(sample_rate) + "Hz"@)
    } else if channels == 0 || channels > 32 {
        Err("不支持的声道数: "@ + decimal(channels))
    } else if bits == 16 || bits == 24 || bits == 32 {
        Ok(())
    } else {
        Err("不支持的位深度: "@ + decimal(bits) + "位"@)
    }
}

/// The sample rates accepted.
pub open spec fn supported_rate(r: nat) -> bool {
    r == 8000 || r == 11025 || r == 16000 || r == 22050 || r == 24000 || r == 32000 || r == 44100
        || r == 48000 || r == 88200 || r == 96000 || r == 176400 || r == 192000 || r == 352800
        || r == 384000
}

/// Message for an index outside an array.
pub open spec fn bounds_message(index: nat, length: nat, context: Seq<char>) -> Seq<char> {
    context + "中索引("@ + decimal(index) + ")超出范围(0-"@ + decimal(
        if length > 0 {
            (length - 1) as nat
        } else {
            0
        },
    ) + ")"@
}

/// Warning printed for heavy memory use.
pub open spec fn memory_warning(estimated: nat, context: Seq<char>) -> Seq<char> {
    "警告: "@ + context + "操作将使用大量内存("@ + decimal(estimated / 1024 / 1024) + "MB)"@
}

/// The checks themselves.
pub struct SafetyGuard;

impl SafetyGuard {
    /// Checks a sample buffer's shape: not empty, at most 100 million samples,
    /// 1 to 32 channels, whole frames, and a rate from 8 kHz to 384 kHz.
    pub fn validate_input<T>(samples: &[T], channels: usize, sample_rate: u32) -> (r: AudioResult<()>)
        ensures
            result_matches(
                r,
                input_outcome(samples@.len(), channels as nat, sample_rate as nat),
                ErrorKindTag::InvalidInput,
            ),
    {
        let len = samples.len();
        if len == 0 {
            return fail(ErrorKindTag::InvalidInput, text("音频样本数据不能为空"));
        }
        if len > MAX_INPUT_SAMPLES {
            return fail(ErrorKindTag::InvalidInput, text("音频样本数量过大，可能导致内存不足"));
        }
        if channels == 0 {
            return fail(ErrorKindTag::InvalidInput, text("声道数必须大于0"));
        }
        if channels > MAX_SAFE_CHANNELS {
            return fail(ErrorKindTag::InvalidInput, text("声道数不能超过32"));
        }
        if len % channels != 0 {
            let mut m = String::new();
            push_str(&mut m, "样本数量(");
            push_decimal(&mut m, len as u64);
            push_str(&mut m, ")必须是声道数(");
            push_decimal(&mut m, channels as u64);
            push_str(&mut m, ")的倍数");
            return fail(ErrorKindTag::InvalidInput, m);
        }
        if sample_rate == 0 {
            return fail(ErrorKindTag::InvalidInput, text("采样率不能为0"));
        }
        if !(8000 <= sample_rate && sample_rate <= 384000) {
            let mut m = String::new();
            push_str(&mut m, "采样率(");
            push_decimal(&mut m, sample_rate as u64);
            push_str(&mut m, ")超出支持范围(8kHz-384kHz)");
            return fail(ErrorKindTag::InvalidInput, m);
        }
        Ok(())
    }

    /// Checks that `index` lies inside an array of `length` elements.
    pub fn check_bounds(index: usize, length: usize, context: &str) -> (r: AudioResult<()>)
        ensures
            r is Ok <==> index < length,
            r matches Err(e) ==> has_message(
                e,
                ErrorKindTag::InvalidInput,
                bounds_message(index as nat, length as nat, context@),
            ),
    {
        if index >= length {
            let mut m = String::new();
            push_str(&mut m, context);
            push_str(&mut m, "中索引(");
            push_decimal(&mut m, index as u64);
            push_str(&mut m, ")超出范围(0-");
            let last: usize = if length > 0 {
                length - 1
            } else {
                0
            };
            push_decimal(&mut m, last as u64);
            push_str(&mut m, ")");
            return fail(ErrorKindTag::InvalidInput, m);
        }
        Ok(())
    }

    /// Checks an estimated memory use: more than 1 GiB is refused; more than
    /// 512 MiB is allowed with a warning line, which is returned for printing.
    pub fn check_memory_safety(estimated_bytes: u64, context: &str) -> (r: AudioResult<Option<String>>)
        ensures
            r is Err <==> estimated_bytes > MAX_MEMORY_BYTES,
            r matches Err(e) ==> e == AudioError::OutOfMemory,
            r matches Ok(w) ==> (w is Some <==> estimated_bytes > MEMORY_WARNING_BYTES),
            r matches Ok(Some(w)) ==> w@ == memory_warning(estimated_bytes as nat, context@),
    {
        if estimated_bytes > MAX_MEMORY_BYTES {
            return Err(AudioError::OutOfMemory);
        }
        if estimated_bytes > MEMORY_WARNING_BYTES {
            let mut m = String::new();
            push_str(&mut m, "警告: ");
            push_str(&mut m, context);
            push_str(&mut m, "操作将使用大量内存(");
            push_decimal(&mut m, estimated_bytes / 1024 / 1024);
            push_str(&mut m, "MB)");
            return Ok(Some(m));
        }
        Ok(None)
    }

    /// Checks a file path and operation: no `..`, at most 4096 bytes, and for
    /// "read" an existing file of at most 2 GiB, for "write" an existing parent
    /// directory; any other operation is refused. `status` holds what the
    /// caller found on disk.
    pub fn check_file_safety(file_path: &str, operation: &str, status: &FileStatus) -> (r:
        AudioResult<()>)
        ensures
            result_matches(r, file_outcome(file_path@, operation@, *status), ErrorKindTag::IoError),
            r matches Err(e) ==> e matches AudioError::IoError(k, _) && k == file_error_kind(
                file_path@,
                operation@,
                *status,
            ),
    {
        if contains_double_dot(file_path) {
            return fail_io(IoErrorKind::InvalidInput, text("文件路径包含不安全的相对路径"));
        }
        if byte_len_exceeds(file_path, MAX_PATH_BYTES) {
            return fail_io(IoErrorKind::InvalidInput, text("文件路径过长"));
        }
        if str_equals(operation, "read") {
            if !status.exists {
                let mut m = String::new();
                push_str(&mut m, "文件不存在: ");
                push_str(&mut m, file_path);
                return fail_io(IoErrorKind::NotFound, m);
            }
            if let Some(n) = status.size {
                if n > MAX_FILE_SIZE {
                    return fail_io(IoErrorKind::InvalidData, text("文件过大"));
                }
            }
            Ok(())
        } else if str_equals(operation, "write") {
            if status.parent_missing {
                return fail_io(IoErrorKind::NotFound, text("目标目录不存在"));
            }
            Ok(())
        } else {
            let mut m = String::new();
            push_str(&mut m, "不支持的文件操作: ");
            push_str(&mut m, operation);
            fail_io(IoErrorKind::InvalidInput, m)
        }
    }

    /// Checks that a format is supported: one of the listed sample rates, 1 to
    /// 32 channels, and 16, 24 or 32 bits.
    pub fn validate_format(sample_rate: u32, channels: u16, bits_per_sample: u16) -> (r: AudioResult<()>)
        ensures
            result_matches(
                r,
                format_outcome(sample_rate as nat, channels as nat, bits_per_sample as nat),
                ErrorKindTag::FormatError,
            ),
    {
        let supported = match sample_rate {
            8000 | 11025 | 16000 | 22050 | 24000 | 32000 | 44100 | 48000 | 88200 | 96000 | 176400
            | 192000 | 352800 | 384000 => true,
            _ => false,
        };
        if !supported {
            let mut m = String::new();
            push_str(&mut m, "不支持的采样率: ");
            push_decimal(&mut m, sample_rate as u64);
            push_str(&mut m, "Hz");
            return fail(ErrorKindTag::FormatError, m);
        }
        if channels == 0 || channels > 32 {
            let mut m = String::new();
            push_str(&mut m, "不支持的声道数: ");
            push_decimal(&mut m, channels as u64);
            return fail(ErrorKindTag::FormatError, m);
        }
        match bits_per_sample {
            16 | 24 | 32 => Ok(()),
            _ => {
                let mut m = String::new();
                push_str(&mut m, "不支持的位深度: ");
                push_decimal(&mut m, bits_per_sample as u64);
                push_str(&mut m, "位");
                fail(ErrorKindTag::FormatError, m)
            },
        }
    }

    /// Confirms a resource release: an empty description is refused; otherwise
    /// the log line to print is returned.
    pub fn ensure_cleanup(resource_info: &str) -> (r: AudioResult<String>)
        ensures
            r is Err <==> resource_info@.len() == 0,
            r matches Err(e) ==> has_message(e, ErrorKindTag::ResourceError, "资源信息不能为空"@),
            r matches Ok(line) ==> line@ == "资源清理确认: "@ + resource_info@,
    {
        if resource_info.unicode_len() == 0 {
            return Err(AudioError::ResourceError(text("资源信息不能为空")));
        }
        let mut m = String::new();
        push_str(&mut m, "资源清理确认: ");
        push_str(&mut m, resource_info);
        Ok(m)
    }
}

/// Whether `s` contains two consecutive dots (see `has_double_dot`).
fn contains_double_dot(s: &str) -> (b: bool)
    ensures
        b == has_double_dot(s@),
{
    let n = s.unicode_len();
    if n < 2 {
        return false;
    }
    let mut i: usize = 0;
    while i + 1 < n
        invariant
            n == s@.len(),
            n >= 2,
            i + 1 <= n,
            forall|j: int| 0 <= j < i ==> !(s@[j] == '.' && #[trigger] s@[j + 1] == '.'),
        decreases n - i,
    {
        if s.get_char(i) == '.' && s.get_char(i + 1) == '.' {
            return true;
        }
        i = i + 1;
    }
    false
}

/// Whether the UTF-8 length of `s` exceeds `limit` bytes.
pub(crate) fn byte_len_exceeds(s: &str, limit: usize) -> (b: bool)
    ensures
        b == (utf8_len(s@) > limit),
{
    let n = s.unicode_len();
    let mut total: usize = 0;
    let mut i: usize = 0;
    while i < n
        invariant
            n == s@.len(),
            i <= n,
            total == utf8_len(s@.take(i as int)),
            total <= limit,
        decreases n - i,
    {
        let c = s.get_char(i);
        let code = c as u32;
        let w: usize = if code < 0x80 {
            1
        } else if code < 0x800 {
            2
        } else if code < 0x10000 {
            3
        } else {
            4
        };
        proof {
            assert(s@.take(i + 1).drop_last() =~= s@.take(i as int));
        }
        if w > limit - total {
            proof {
                lemma_utf8_len_prefix(s@, i + 1);
            }
            return true;
        }
        total = total + w;
        i = i + 1;
    }
    assert(s@.take(n as int) =~= s@);
    false
}

proof fn lemma_utf8_len_prefix(s: Seq<char>, k: int)
    requires
        0 <= k <= s.len(),
    ensures
        utf8_len(s.take(k)) <= utf8_len(s),
    decreases s.len() - k,
{
    if k < s.len() {
        lemma_utf8_len_prefix(s, k + 1);
        assert(s.take(k + 1).drop_last() =~= s.take(k));
    } else {
        assert(s.take(k) =~= s);
    }
}

/// Whether two strings hold the same characters.
pub(crate) fn str_equals(a: &str, b: &str) -> (eq: bool)
    ensures
        eq == (a@ == b@),
{
    let n = a.unicode_len();
    if n != b.unicode_len() {
        return false;
    }
    let mut i: usize = 0;
    while i < n
        invariant
            n == a@.len(),
            n == b@.len(),
            i <= n,
            forall|j: int| 0 <= j < i ==> a@[j] == b@[j],
        decreases n - i,
    {
        if a.get_char(i) != b.get_char(i) {
            return false;
        }
        i = i + 1;
    }
    assert(a@ =~= b@);
    true
}

/// Runs an operation under the checks; carries the context named in messages.
pub struct SafeRunner<'a> {
    context: &'a str,
}

impl<'a> SafeRunner<'a> {
    /// A runner for operations described by `context`.
    pub fn new(context: &'a str) -> (r: Self)
        ensures
            r.context_view() == context@,
    {
        SafeRunner { context }
    }

    /// The context text.
    pub closed spec fn context_view(&self) -> Seq<char> {
        self.context@
    }

    /// The context named in messages.
    pub fn context(&self) -> (c: &'a str)
        ensures
            c@ == self.context_view(),
    {
        self.context
    }

    /// Runs `operation` under the checks, in order: the input shape
    /// (`input_outcome`), the memory the samples occupy (refused above 1 GiB),
    /// and the format with 32-bit samples (`format_outcome`). A failed check is
    /// returned and the operation does not run; otherwise the operation's
    /// outcome is returned. The lines the checks print — the memory warning,
    /// and the clean-up confirmation after a successful operation — are
    /// appended to `log`.
    pub fn run_with_protection<T, R, F: FnOnce() -> AudioResult<R>>(
        &self,
        samples: &[T],
        channels: usize,
        sample_rate: u32,
        operation: F,
        log: &mut Vec<String>,
    ) -> (r: AudioResult<R>)
        requires
            call_requires(operation, ()),
        ensures
            ({
                let input = input_outcome(samples@.len(), channels as nat, sample_rate as nat);
                let bytes = spec_size_of_val::<[T]>(samples);
                let format = format_outcome(sample_rate as nat, channels as nat, 32);
                &&& input matches Err(m) ==> (r matches Err(e) && has_message(
                    e,
                    ErrorKindTag::InvalidInput,
                    m,
                )) && lines(final(log)@) == lines(old(log)@)
                &&& input is Ok && bytes > MAX_MEMORY_BYTES ==> r == Err::<R, AudioError>(
                    AudioError::OutOfMemory,
                ) && lines(final(log)@) == lines(old(log)@)
                &&& input is Ok && bytes <= MAX_MEMORY_BYTES ==> (format matches Err(m) ==> (r matches Err(
                    e,
                ) && has_message(e, ErrorKindTag::FormatError, m)) && lines(final(log)@) == lines(
                    old(log)@,
                ) + memory_lines(bytes, self.context_view()))
                &&& input is Ok && bytes <= MAX_MEMORY_BYTES && format is Ok ==> call_ensures(
                    operation,
                    (),
                    r,
                ) && lines(final(log)@) == lines(old(log)@) + memory_lines(bytes, self.context_view())
                    + if r is Ok {
                    seq!["资源清理确认: "@ + self.context_view() + ": 操作完成"@]
                } else {
                    Seq::empty()
                }
            }),
    {
        let ghost before = lines(log@);
        if let Err(e) = SafetyGuard::validate_input(samples, channels, sample_rate) {
            return Err(e);
        }
        let estimated = core::mem::size_of_val(samples) as u64;
        match SafetyGuard::check_memory_safety(estimated, self.context) {
            Err(e) => {
                return Err(e);
            },
            Ok(Some(warning)) => {
                log.push(warning);
            },
            Ok(None) => {},
        }
        let ghost after_memory = lines(log@);
        assert(after_memory =~= before + memory_lines(estimated as nat, self.context_view()));
        if let Err(e) = SafetyGuard::validate_format(sample_rate, channels as u16, 32) {
            return Err(e);
        }
        let outcome = operation();
        match outcome {
            Err(e) => Err(e),
            Ok(value) => {
                let mut info = owned(self.context);
                push_str(&mut info, ": 操作完成");
                proof {
                    reveal_strlit(": 操作完成");
                }
                match SafetyGuard::ensure_cleanup(info.as_str()) {
                    Ok(line) => {
                        assert(line@ =~= "资源清理确认: "@ + self.context_view() + ": 操作完成"@);
                        let ghost prev = log@;
                        log.push(line);
                        assert(lines(log@) =~= lines(prev).push(line@));
                        assert(lines(log@) =~= after_memory + seq![
                            "资源清理确认: "@ + self.context_view() + ": 操作完成"@,
                        ]);
                        Ok(value)
                    },
                    Err(e) => Err(e),
                }
            },
        }
    }
}

/// The texts of printed lines.
pub open spec fn lines(log: Seq<String>) -> Seq<Seq<char>> {
    log.map_values(|l: String| l@)
}

/// The memory warning printed for `bytes` of samples, if they exceed 512 MiB.
pub open spec fn memory_lines(bytes: nat, context: Seq<char>) -> Seq<Seq<char>> {
    if bytes > MEMORY_WARNING_BYTES {
        seq![memory_warning(bytes, context)]
    } else {
        Seq::empty()
    }
}

} // verus!
