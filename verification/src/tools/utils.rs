//! File-name cleaning, the effective degree of parallelism, and the outcome of
//! the start-up performance tuning.

use crate::text::{push_char, push_str};
use crate::tools::constants::parallel_limits::{MAX_PARALLEL_DEGREE, MIN_PARALLEL_DEGREE};
use vstd::prelude::*;

verus! {

/// Whether `c` is a control character (Unicode general category Cc:
/// U+0000 to U+001F and U+007F to U+009F), as `char::is_control` documents.
pub open spec fn is_control_char(c: char) -> bool {
    (c as u32) <= 0x1f || (0x7f <= (c as u32) && (c as u32) <= 0x9f)
}

/// Whether `c` is replaced when a file name is cleaned: characters Windows
/// forbids, space and dot, and control characters.
pub open spec fn is_unsafe_name_char(c: char) -> bool {
    ||| c == '<' || c == '>' || c == ':' || c == '"' || c == '/'
    ||| c == '\\' || c == '|' || c == '?' || c == '*'
    ||| c == ' ' || c == '.'
    ||| is_control_char(c)
}

/// The character a file-name character becomes.
pub open spec fn sanitized_char(c: char) -> char {
    if is_unsafe_name_char(c) {
        '_'
    } else {
        c
    }
}

/// The cleaned file name: every unsafe character replaced by `_`.
pub open spec fn sanitized(s: Seq<char>) -> Seq<char> {
    s.map_values(|c: char| sanitized_char(c))
}

fn is_unsafe_char(c: char) -> (b: bool)
    ensures
        b == is_unsafe_name_char(c),
{
    let code = c as u32;
    c == '<' || c == '>' || c == ':' || c == '"' || c == '/' || c == '\\' || c == '|' || c == '?'
        || c == '*' || c == ' ' || c == '.' || code <= 0x1f || (0x7f <= code && code <= 0x9f)
}

/// Replaces every character that is unsafe in a file name on some platform by `_`.
pub fn sanitize_filename(filename: &str) -> (r: String)
    ensures
        r@ == sanitized(filename@),
{
    let n = filename.unicode_len();
    let mut out = String::new();
    let mut i: usize = 0;
    while i < n
        invariant
            i <= n,
            n == filename@.len(),
            out@ == sanitized(filename@.subrange(0, i as int)),
        decreases n - i,
    {
        let c = filename.get_char(i);
        if is_unsafe_char(c) {
            push_char(&mut out, '_');
        } else {
            push_char(&mut out, c);
        }
        i = i + 1;
        assert(sanitized(filename@.subrange(0, i as int)) =~= sanitized(
            filename@.subrange(0, i - 1),
        ).push(sanitized_char(c)));
    }
    assert(filename@.subrange(0, n as int) =~= filename@);
    out
}

/// The degree of parallelism actually used: the request clamped to 1..=16,
/// and no more than the number of work items when that number is known and
/// positive.
pub open spec fn effective_degree(requested: nat, max_items: Option<usize>) -> nat {
    let clamped = if requested < MIN_PARALLEL_DEGREE {
        MIN_PARALLEL_DEGREE as nat
    } else if requested > MAX_PARALLEL_DEGREE {
        MAX_PARALLEL_DEGREE as nat
    } else {
        requested
    };
    match max_items {
        Some(count) => if count > 0 && count < clamped {
            count as nat
        } else {
            clamped
        },
        None => clamped,
    }
}

/// The effective degree of parallelism (see `effective_degree`).
pub fn effective_parallel_degree(requested_degree: usize, max_items: Option<usize>) -> (d: usize)
    ensures
        d == effective_degree(requested_degree as nat, max_items),
        MIN_PARALLEL_DEGREE <= d <= MAX_PARALLEL_DEGREE,
{
    let clamped = if requested_degree < MIN_PARALLEL_DEGREE {
        MIN_PARALLEL_DEGREE
    } else if requested_degree > MAX_PARALLEL_DEGREE {
        MAX_PARALLEL_DEGREE
    } else {
        requested_degree
    };
    match max_items {
        Some(count) => {
            if count > 0 && count < clamped {
                count
            } else {
                clamped
            }
        },
        None => clamped,
    }
}

/// What start-up tuning reports, given whether raising the main thread's
/// priority and configuring the worker pool succeeded: success unless both
/// failed, and then both reasons.
pub open spec fn tuning_outcome(
    main_thread: Result<(), String>,
    worker_pool: Result<(), String>,
) -> Result<(), Seq<char>> {
    match (main_thread, worker_pool) {
        (Err(a), Err(b)) => Err(
            "所有性能优化均失败: "@ + "主线程: "@ + a@ + ", "@ + "Rayon: "@ + b@,
        ),
        _ => Ok(()),
    }
}

/// Combines the outcomes of the two start-up tunings (see `tuning_outcome`).
pub fn optimize_for_performance(
    main_thread: Result<(), String>,
    worker_pool: Result<(), String>,
) -> (r: Result<(), String>)
    ensures
        match r {
            Ok(()) => tuning_outcome(main_thread, worker_pool) is Ok,
            Err(m) => tuning_outcome(main_thread, worker_pool) == Err::<(), Seq<char>>(m@),
        },
{
    match (&main_thread, &worker_pool) {
        (Err(a), Err(b)) => {
            let mut m = String::new();
            push_str(&mut m, "所有性能优化均失败: ");
            push_str(&mut m, "主线程: ");
            push_str(&mut m, a.as_str());
            push_str(&mut m, ", ");
            push_str(&mut m, "Rayon: ");
            push_str(&mut m, b.as_str());
            Err(m)
        },
        _ => Ok(()),
    }
}

/// A cleaned name has as many characters as the input, and none of them
/// is unsafe; cleaning it again changes nothing.
pub proof fn lemma_sanitized_is_clean(s: Seq<char>)
    ensures
        sanitized(s).len() == s.len(),
        forall|i: int| 0 <= i < s.len() ==> !is_unsafe_name_char(#[trigger] sanitized(s)[i]),
        sanitized(sanitized(s)) == sanitized(s),
{
    assert(sanitized(sanitized(s)) =~= sanitized(s));
}

/// The effective degree always lies in 1..=16, and never exceeds a known,
/// positive number of work items.
pub proof fn lemma_effective_degree_bounds(requested: nat, max_items: Option<usize>)
    ensures
        MIN_PARALLEL_DEGREE <= effective_degree(requested, max_items) <= MAX_PARALLEL_DEGREE,
        forall|c: usize|
            max_items == Some(c) && c > 0 ==> effective_degree(requested, max_items) <= c,
{
}

} // verus!
