//! Text of the batch report: its header, the per-category error summary, the
//! summary and boundary-warning tables, and the closing line.

use crate::error::{category_index, category_name, ErrorCategory, CATEGORY_COUNT};
use crate::text::{decimal, owned, push_decimal, push_str, signed_decimal, push_signed_decimal};
use crate::tools::batch_state::ErrorStats;
use crate::tools::constants::app_info::APP_NAME;
use crate::tools::formatter::{potential_dr, potential_dr_of, BoundaryDirection, BoundaryRiskLevel};
use crate::tools::md_table::{
    drawn_from, first_columns, markdown_table, rows_view, table_header, table_right_aligned, table_rows,
};
use comfy_table::Table;
use crate::tools::utils::{sanitize_filename, sanitized};
use vstd::prelude::*;

verus! {

/// Default DSD conversion rate named in the report header.
pub const DEFAULT_DSD_PCM_RATE: u32 = 352800;

/// `c` in ASCII lower case.
pub open spec fn ascii_lower(c: char) -> char {
    if 'A' <= c && c <= 'Z' {
        (((c as u32) + 32) as u8) as char
    } else {
        c
    }
}

/// Whether two strings are equal ignoring ASCII case.
pub open spec fn eq_ignore_ascii_case(a: Seq<char>, b: Seq<char>) -> bool {
    a.len() == b.len() && forall|i: int| 0 <= i < a.len() ==> #[trigger] ascii_lower(a[i])
        == ascii_lower(b[i])
}

fn lower(c: char) -> (l: char)
    ensures
        l == ascii_lower(c),
{
    if 'A' <= c && c <= 'Z' {
        let code: u8 = (c as u32 + 32) as u8;
        code as char
    } else {
        c
    }
}

fn equals_ignore_ascii_case(a: &str, b: &str) -> (eq: bool)
    ensures
        eq == eq_ignore_ascii_case(a@, b@),
{
    let n = a.unicode_len();
    if n != b.unicode_len() {
        return false;
    }
    let mut i: usize = 0;
    while i < n
        invariant
            n == a@.len(),
            n == b@.len(),
            i <= n,
            forall|j: int| 0 <= j < i ==> #[trigger] ascii_lower(a@[j]) == ascii_lower(b@[j]),
        decreases n - i,
    {
        if lower(a.get_char(i)) != lower(b.get_char(i)) {
            return false;
        }
        i = i + 1;
    }
    true
}

/// Whether a file extension names a DSD file (`dsf` or `dff`, in any case).
pub fn is_dsd_extension(ext: &str) -> (b: bool)
    ensures
        b == (eq_ignore_ascii_case(ext@, "dsf"@) || eq_ignore_ascii_case(ext@, "dff"@)),
{
    equals_ignore_ascii_case(ext, "dsf") || equals_ignore_ascii_case(ext, "dff")
}

/// The batch report header.
pub open spec fn batch_header_text(
    generated: Seq<char>,
    file_count: nat,
    directory: Seq<char>,
    has_dsd: bool,
    dsd_pcm_rate: Option<u32>,
) -> Seq<char> {
    let rate: nat = match dsd_pcm_rate {
        Some(r) => r as nat,
        None => DEFAULT_DSD_PCM_RATE as nat,
    };
    "## MacinMeter DR Batch Report\n\n"@ + "**Generated**: "@ + generated + " | **Files**: "@ + decimal(
        file_count,
    ) + " | **Directory**: "@ + directory + "\n\n"@ + (if has_dsd {
        "> DSD files downsampled to "@ + decimal(rate) + " Hz for analysis\n\n"@
    } else {
        Seq::empty()
    }) + "| DR | Precise | File |\n"@ + "|----|---------|------|\n"@
}

/// The batch report header: title, generation time, file count, directory, a
/// note on the DSD conversion rate when DSD files are present, and the table head.
pub fn create_batch_output_header(
    generated: &str,
    file_count: usize,
    directory: &str,
    has_dsd: bool,
    dsd_pcm_rate: Option<u32>,
) -> (s: String)
    ensures
        s@ == batch_header_text(generated@, file_count as nat, directory@, has_dsd, dsd_pcm_rate),
{
    let mut s = String::new();
    push_str(&mut s, "## MacinMeter DR Batch Report\n\n");
    push_str(&mut s, "**Generated**: ");
    push_str(&mut s, generated);
    push_str(&mut s, " | **Files**: ");
    push_decimal(&mut s, file_count as u64);
    push_str(&mut s, " | **Directory**: ");
    push_str(&mut s, directory);
    push_str(&mut s, "\n\n");
    if has_dsd {
        let rate: u32 = match dsd_pcm_rate {
            Some(r) => r,
            None => DEFAULT_DSD_PCM_RATE,
        };
        push_str(&mut s, "> DSD files downsampled to ");
        push_decimal(&mut s, rate as u64);
        push_str(&mut s, " Hz for analysis\n\n");
    }
    push_str(&mut s, "| DR | Precise | File |\n");
    push_str(&mut s, "|----|---------|------|\n");
    assert(s@ =~= batch_header_text(generated@, file_count as nat, directory@, has_dsd, dsd_pcm_rate));
    s
}

/// Position of a category's name in alphabetical order (its tie-breaker in
/// the summary): Calculation, Decoding, Format, Input, Io, Memory, Other.
pub open spec fn name_rank(c: ErrorCategory) -> nat {
    match c {
        ErrorCategory::Calculation => 0,
        ErrorCategory::Decoding => 1,
        ErrorCategory::Format => 2,
        ErrorCategory::Input => 3,
        ErrorCategory::Io => 4,
        ErrorCategory::Memory => 5,
        ErrorCategory::Other => 6,
    }
}

/// Number of files filed under `c`.
pub open spec fn file_count_of(lists: Seq<Seq<String>>, c: ErrorCategory) -> nat {
    lists[category_index(c) as int].len()
}

/// Whether `a` is listed before `b`: more files first, then by name.
pub open spec fn comes_before(lists: Seq<Seq<String>>, a: ErrorCategory, b: ErrorCategory) -> bool {
    file_count_of(lists, a) > file_count_of(lists, b) || (file_count_of(lists, a)
        == file_count_of(lists, b) && name_rank(a) < name_rank(b))
}

/// Whether `order` lists exactly the categories that hold files, most files
/// first and ties by name.
pub open spec fn is_summary_order(lists: Seq<Seq<String>>, order: Seq<ErrorCategory>) -> bool {
    &&& forall|i: int, j: int|
        0 <= i < j < order.len() ==> comes_before(lists, #[trigger] order[i], #[trigger] order[j])
    &&& forall|c: ErrorCategory| file_count_of(lists, c) > 0 <==> #[trigger] order.contains(c)
}

/// File lines of a category block, one per name.
pub open spec fn listed(names: Seq<String>) -> Seq<char>
    decreases names.len(),
{
    if names.len() == 0 {
        Seq::empty()
    } else {
        listed(names.drop_last()) + "  - "@ + names.last()@ + "\n"@
    }
}

/// The block of one category: its name and count, its first three files, and
/// how many more there are.
pub open spec fn category_block(c: ErrorCategory, files: Seq<String>) -> Seq<char> {
    let shown = if files.len() > 3 {
        3
    } else {
        files.len()
    };
    "- "@ + category_name(c) + ": "@ + decimal(files.len()) + "\n"@ + listed(files.take(shown as int))
        + if files.len() > 3 {
        "  - ... (+"@ + decimal((files.len() - 3) as nat) + ")\n"@
    } else {
        Seq::empty()
    }
}

/// The blocks of `order`, in order.
pub open spec fn blocks(lists: Seq<Seq<String>>, order: Seq<ErrorCategory>) -> Seq<char>
    decreases order.len(),
{
    if order.len() == 0 {
        Seq::empty()
    } else {
        blocks(lists, order.drop_last()) + category_block(
            order.last(),
            lists[category_index(order.last()) as int],
        )
    }
}

/// The error summary for a listing order: nothing without failures.
pub open spec fn summary_text(lists: Seq<Seq<String>>, order: Seq<ErrorCategory>) -> Seq<char> {
    if order.len() == 0 {
        Seq::empty()
    } else {
        "\n**Errors**:\n"@ + blocks(lists, order)
    }
}

/// The categories in alphabetical order of their names.
fn category_by_name_rank(r: usize) -> (c: ErrorCategory)
    requires
        r < CATEGORY_COUNT,
    ensures
        name_rank(c) == r,
{
    if r == 0 {
        ErrorCategory::Calculation
    } else if r == 1 {
        ErrorCategory::Decoding
    } else if r == 2 {
        ErrorCategory::Format
    } else if r == 3 {
        ErrorCategory::Input
    } else if r == 4 {
        ErrorCategory::Io
    } else if r == 5 {
        ErrorCategory::Memory
    } else {
        ErrorCategory::Other
    }
}

/// The categories that hold files, in the order the summary lists them.
pub fn error_summary_order(stats: &ErrorStats) -> (order: Vec<ErrorCategory>)
    requires
        stats@.len() == CATEGORY_COUNT,
    ensures
        is_summary_order(stats@, order@),
{
    let ghost lists = stats@;
    let mut order: Vec<ErrorCategory> = Vec::new();
    let mut r: usize = 0;
    while r < CATEGORY_COUNT
        invariant
            r <= CATEGORY_COUNT,
            lists == stats@,
            lists.len() == CATEGORY_COUNT,
            forall|i: int, j: int|
                0 <= i < j < order@.len() ==> comes_before(
                    lists,
                    #[trigger] order@[i],
                    #[trigger] order@[j],
                ),
            forall|c: ErrorCategory|
                (file_count_of(lists, c) > 0 && name_rank(c) < r) <==> #[trigger] order@.contains(
                    c,
                ),
            order@.len() <= r,
        decreases CATEGORY_COUNT - r,
    {
        let c = category_by_name_rank(r);
        let count = stats.files(c).len();
        if count > 0 {
            let mut p: usize = 0;
            while p < order.len() && !category_before(stats, c, order[p])
                invariant
                    p <= order@.len(),
                    lists == stats@,
                    lists.len() == CATEGORY_COUNT,
                    forall|q: int| 0 <= q < p ==> !comes_before(lists, c, #[trigger] order@[q]),
                decreases order@.len() - p,
            {
                p = p + 1;
            }
            let ghost old_order = order@;
            proof {
                assert forall|q: int| 0 <= q < old_order.len() implies #[trigger] old_order[q] != c by {
                    assert(old_order.contains(old_order[q]));
                }
                assert forall|q: int| 0 <= q < p implies comes_before(lists, #[trigger] old_order[q], c) by {
                    assert(old_order[q] != c);
                    assert(!comes_before(lists, c, old_order[q]));
                    assert(name_rank(old_order[q]) != name_rank(c));
                }
                assert forall|q: int| p <= q < old_order.len() implies comes_before(lists, c, #[trigger] old_order[q]) by {
                    if p < old_order.len() {
                        assert(comes_before(lists, c, old_order[p as int]));
                        if q > p {
                            assert(comes_before(lists, old_order[p as int], old_order[q]));
                        }
                    }
                }
            }
            order.insert(p, c);
            proof {
                let o = order@;
                assert(o == old_order.insert(p as int, c));
                assert forall|i: int, j: int| 0 <= i < j < o.len() implies comes_before(
                    lists,
                    #[trigger] o[i],
                    #[trigger] o[j],
                ) by {
                    if j < p {
                        assert(o[i] == old_order[i] && o[j] == old_order[j]);
                    } else if j == p {
                        assert(o[i] == old_order[i]);
                    } else if i < p {
                        assert(o[i] == old_order[i] && o[j] == old_order[j - 1]);
                        if j - 1 >= p {
                            assert(comes_before(lists, c, old_order[j - 1]));
                        }
                    } else if i == p {
                        assert(o[j] == old_order[j - 1]);
                    } else {
                        assert(o[i] == old_order[i - 1] && o[j] == old_order[j - 1]);
                    }
                }
                assert forall|d: ErrorCategory|
                    (file_count_of(lists, d) > 0 && name_rank(d) < r + 1) <==> #[trigger] o.contains(d) by {
                    if o.contains(d) {
                        let k = choose|k: int| 0 <= k < o.len() && o[k] == d;
                        if k < p {
                            assert(old_order[k] == d);
                            assert(old_order.contains(d));
                        } else if k > p {
                            assert(old_order[k - 1] == d);
                            assert(old_order.contains(d));
                        }
                    }
                    if file_count_of(lists, d) > 0 && name_rank(d) < r + 1 {
                        if name_rank(d) < r {
                            assert(old_order.contains(d));
                            let k = choose|k: int| 0 <= k < old_order.len() && old_order[k] == d;
                            if k < p {
                                assert(o[k] == d);
                            } else {
                                assert(o[k + 1] == d);
                            }
                        } else {
                            assert(d == c);
                            assert(o[p as int] == c);
                        }
                    }
                }
            }
        } else {
            proof {
                assert forall|d: ErrorCategory|
                    (file_count_of(lists, d) > 0 && name_rank(d) < r + 1) <==> #[trigger] order@.contains(d) by {
                    if name_rank(d) == r {
                        assert(d == c);
                    }
                }
            }
        }
        r = r + 1;
    }
    order
}

/// Whether `a` is listed before `b` (see `comes_before`).
fn category_before(stats: &ErrorStats, a: ErrorCategory, b: ErrorCategory) -> (r: bool)
    requires
        stats@.len() == CATEGORY_COUNT,
    ensures
        r == comes_before(stats@, a, b),
{
    let ca = stats.files(a).len();
    let cb = stats.files(b).len();
    ca > cb || (ca == cb && name_position(a) < name_position(b))
}

fn name_position(c: ErrorCategory) -> (r: usize)
    ensures
        r == name_rank(c),
{
    match c {
        ErrorCategory::Calculation => 0,
        ErrorCategory::Decoding => 1,
        ErrorCategory::Format => 2,
        ErrorCategory::Input => 3,
        ErrorCategory::Io => 4,
        ErrorCategory::Memory => 5,
        ErrorCategory::Other => 6,
    }
}

fn push_category_block(out: &mut String, c: ErrorCategory, files: &Vec<String>)
    ensures
        final(out)@ == old(out)@ + category_block(c, files@),
{
    let ghost start = old(out)@;
    push_str(out, "- ");
    push_str(out, c.display_name());
    push_str(out, ": ");
    push_decimal(out, files.len() as u64);
    push_str(out, "\n");
    let ghost head = out@;
    let shown: usize = if files.len() > 3 {
        3
    } else {
        files.len()
    };
    let mut i: usize = 0;
    while i < shown
        invariant
            i <= shown,
            shown <= files@.len(),
            out@ == head + listed(files@.take(i as int)),
        decreases shown - i,
    {
        push_str(out, "  - ");
        push_str(out, files[i].as_str());
        push_str(out, "\n");
        proof {
            assert(files@.take(i + 1).drop_last() =~= files@.take(i as int));
        }
        i = i + 1;
    }
    if files.len() > 3 {
        push_str(out, "  - ... (+");
        push_decimal(out, (files.len() - 3) as u64);
        push_str(out, ")\n");
    }
    assert(out@ =~= start + category_block(c, files@));
}

/// The error summary of a batch: a heading, then for each category holding
/// files (most files first, ties by name) its name and count, its first three
/// file names and how many more there are. Empty when nothing failed.
pub fn format_error_summary(stats: &ErrorStats) -> (s: String)
    requires
        stats@.len() == CATEGORY_COUNT,
    ensures
        exists|order: Seq<ErrorCategory>|
            is_summary_order(stats@, order) && s@ == summary_text(stats@, order),
{
    let order = error_summary_order(stats);
    let mut s = String::new();
    if order.len() == 0 {
        assert(s@ =~= summary_text(stats@, order@));
        return s;
    }
    push_str(&mut s, "\n**Errors**:\n");
    let ghost head = s@;
    let mut k: usize = 0;
    while k < order.len()
        invariant
            k <= order@.len(),
            stats@.len() == CATEGORY_COUNT,
            s@ == head + blocks(stats@, order@.take(k as int)),
        decreases order@.len() - k,
    {
        let c = order[k];
        push_category_block(&mut s, c, stats.files(c));
        proof {
            assert(order@.take(k + 1).drop_last() =~= order@.take(k as int));
        }
        k = k + 1;
    }
    assert(order@.take(order@.len() as int) =~= order@);
    assert(s@ =~= summary_text(stats@, order@));
    s
}

/// Whether `o` is strictly ordered by `comes_before`.
pub open spec fn sorted_by_summary(lists: Seq<Seq<String>>, o: Seq<ErrorCategory>) -> bool {
    forall|i: int, j: int| 0 <= i < j < o.len() ==> comes_before(lists, #[trigger] o[i], #[trigger] o[j])
}

proof fn lemma_tail_members(lists: Seq<Seq<String>>, o: Seq<ErrorCategory>, c: ErrorCategory)
    requires
        sorted_by_summary(lists, o),
        o.len() > 0,
    ensures
        o.drop_first().contains(c) <==> (o.contains(c) && c != o[0]),
{
    if o.drop_first().contains(c) {
        let k = choose|k: int| 0 <= k < o.drop_first().len() && o.drop_first()[k] == c;
        assert(o[k + 1] == c);
        assert(comes_before(lists, o[0], o[k + 1]));
    }
    if o.contains(c) && c != o[0] {
        let k = choose|k: int| 0 <= k < o.len() && o[k] == c;
        assert(k > 0);
        assert(o.drop_first()[k - 1] == c);
    }
}

proof fn lemma_sorted_same_members_equal(
    lists: Seq<Seq<String>>,
    o1: Seq<ErrorCategory>,
    o2: Seq<ErrorCategory>,
)
    requires
        sorted_by_summary(lists, o1),
        sorted_by_summary(lists, o2),
        forall|c: ErrorCategory|
            #![trigger o1.contains(c)]
            #![trigger o2.contains(c)]
            o1.contains(c) <==> o2.contains(c),
    ensures
        o1 == o2,
    decreases o1.len(),
{
    if o1.len() == 0 {
        if o2.len() > 0 {
            assert(o2.contains(o2[0]));
        }
        assert(o1 =~= o2);
    } else {
        assert(o1.contains(o1[0]));
        assert(o2.len() > 0);
        assert(o2.contains(o2[0]));
        if o1[0] != o2[0] {
            let i = choose|i: int| 0 <= i < o1.len() && o1[i] == o2[0];
            let j = choose|j: int| 0 <= j < o2.len() && o2[j] == o1[0];
            assert(i > 0 && j > 0);
            assert(comes_before(lists, o1[0], o1[i]));
            assert(comes_before(lists, o2[0], o2[j]));
        }
        let t1 = o1.drop_first();
        let t2 = o2.drop_first();
        assert forall|c: ErrorCategory|
            #![trigger t1.contains(c)]
            #![trigger t2.contains(c)]
            t1.contains(c) <==> t2.contains(c) by {
            lemma_tail_members(lists, o1, c);
            lemma_tail_members(lists, o2, c);
        }
        assert(sorted_by_summary(lists, t1)) by {
            assert forall|i: int, j: int| 0 <= i < j < t1.len() implies comes_before(
                lists,
                #[trigger] t1[i],
                #[trigger] t1[j],
            ) by {
                assert(t1[i] == o1[i + 1] && t1[j] == o1[j + 1]);
            }
        }
        assert(sorted_by_summary(lists, t2)) by {
            assert forall|i: int, j: int| 0 <= i < j < t2.len() implies comes_before(
                lists,
                #[trigger] t2[i],
                #[trigger] t2[j],
            ) by {
                assert(t2[i] == o2[i + 1] && t2[j] == o2[j + 1]);
            }
        }
        lemma_sorted_same_members_equal(lists, t1, t2);
        assert(o1 =~= seq![o1[0]] + t1);
        assert(o2 =~= seq![o2[0]] + t2);
    }
}

/// The summary order is determined by the file counts alone: two orders that
/// both satisfy `is_summary_order` are the same, so the summary text is unique.
pub proof fn lemma_summary_order_unique(
    lists: Seq<Seq<String>>,
    o1: Seq<ErrorCategory>,
    o2: Seq<ErrorCategory>,
)
    requires
        is_summary_order(lists, o1),
        is_summary_order(lists, o2),
    ensures
        o1 == o2,
{
    assert forall|c: ErrorCategory|
        #![trigger o1.contains(c)]
        #![trigger o2.contains(c)]
        o1.contains(c) <==> o2.contains(c) by {
        assert(o1.contains(c) <==> file_count_of(lists, c) > 0);
        assert(o2.contains(c) <==> file_count_of(lists, c) > 0);
    }
    lemma_sorted_same_members_equal(lists, o1, o2);
}

/// The strings of a table, cell by cell.
pub open spec fn table_view(rows: Seq<Vec<String>>) -> Seq<Seq<Seq<char>>> {
    rows.map_values(|r: Vec<String>| r@.map_values(|c: String| c@))
}

/// Rows of the batch summary table: the file count, the successes with their
/// share (rendered by the caller, in percent), and the failures when there are any.
pub open spec fn summary_rows_text(
    total_files: nat,
    processed_count: nat,
    failed_count: nat,
    success_rate: Seq<char>,
) -> Seq<Seq<Seq<char>>> {
    let base = seq![
        seq!["Total"@, decimal(total_files)],
        seq!["Success"@, decimal(processed_count) + " ("@ + success_rate + "%)"@],
    ];
    if failed_count > 0 {
        base.push(seq!["Failed"@, decimal(failed_count)])
    } else {
        base
    }
}

fn decimal_text(n: usize) -> (s: String)
    ensures
        s@ == decimal(n as nat),
{
    let mut s = String::new();
    push_decimal(&mut s, n as u64);
    s
}

fn pair(a: String, b: String) -> (r: Vec<String>)
    ensures
        r@.map_values(|c: String| c@) == seq![a@, b@],
{
    let mut r: Vec<String> = Vec::new();
    r.push(a);
    r.push(b);
    assert(r@.map_values(|c: String| c@) =~= seq![a@, b@]);
    r
}

/// Rows of the batch summary table (see `summary_rows_text`).
pub fn summary_rows(
    total_files: usize,
    processed_count: usize,
    failed_count: usize,
    success_rate: &str,
) -> (rows: Vec<Vec<String>>)
    ensures
        table_view(rows@) == summary_rows_text(
            total_files as nat,
            processed_count as nat,
            failed_count as nat,
            success_rate@,
        ),
{
    let mut rows: Vec<Vec<String>> = Vec::new();
    rows.push(pair(owned("Total"), decimal_text(total_files)));
    let mut success = decimal_text(processed_count);
    push_str(&mut success, " (");
    push_str(&mut success, success_rate);
    push_str(&mut success, "%)");
    rows.push(pair(owned("Success"), success));
    if failed_count > 0 {
        rows.push(pair(owned("Failed"), decimal_text(failed_count)));
    }
    assert(table_view(rows@) =~= summary_rows_text(
        total_files as nat,
        processed_count as nat,
        failed_count as nat,
        success_rate@,
    ));
    rows
}

/// The closing line of the batch report.
pub open spec fn closing_text(version: Seq<char>) -> Seq<char> {
    "\n---\n*"@ + APP_NAME@ + " v"@ + version + "*\n"@
}

/// The end of the batch report: the summary table (drawn as `table`), the
/// error summary for a listing order, and the closing line.
pub open spec fn footer_text(
    table: Seq<char>,
    lists: Seq<Seq<String>>,
    order: Seq<ErrorCategory>,
    version: Seq<char>,
) -> Seq<char> {
    "### Summary\n\n"@ + table + "\n"@ + summary_text(lists, order) + closing_text(version)
}

/// The end of the batch report: a drawing of the table that holds the
/// `Metric`/`Value` header and the rows of `summary_rows_text`, the error
/// summary, and the closing line naming `version`. The drawing itself depends
/// on the terminal; what the table holds and everything around it is pinned down.
pub fn create_batch_output_footer(
    total_files: usize,
    processed_count: usize,
    failed_count: usize,
    success_rate: &str,
    error_stats: &ErrorStats,
    version: &str,
) -> (s: String)
    requires
        error_stats@.len() == CATEGORY_COUNT,
    ensures
        exists|t: Table, table: Seq<char>, order: Seq<ErrorCategory>|
            {
                &&& table_header(t) == Some(seq!["Metric"@, "Value"@])
                &&& table_right_aligned(t) == first_columns(0)
                &&& table_rows(t) == summary_rows_text(
                    total_files as nat,
                    processed_count as nat,
                    failed_count as nat,
                    success_rate@,
                )
                &&& drawn_from(t, table)
                &&& is_summary_order(error_stats@, order)
                &&& s@ == footer_text(table, error_stats@, order, version@)
            },
{
    let rows = summary_rows(total_files, processed_count, failed_count, success_rate);
    let table = markdown_table(pair(owned("Metric"), owned("Value")), &rows, 0);
    let summary = format_error_summary(error_stats);
    let mut s = owned("### Summary\n\n");
    push_str(&mut s, table.as_str());
    push_str(&mut s, "\n");
    push_str(&mut s, summary.as_str());
    push_str(&mut s, "\n---\n*");
    push_str(&mut s, APP_NAME);
    push_str(&mut s, " v");
    push_str(&mut s, version);
    push_str(&mut s, "*\n");
    proof {
        let order = choose|order: Seq<ErrorCategory>|
            is_summary_order(error_stats@, order) && summary@ == summary_text(error_stats@, order);
        assert(s@ =~= footer_text(table@, error_stats@, order, version@));
        assert(rows_view(rows@) =~= table_view(rows@));
        reveal_strlit("Metric");
        reveal_strlit("Value");
        let t = choose|t: Table|
            table_header(t) == Some(seq!["Metric"@, "Value"@]) && table_rows(t) == rows_view(rows@)
                && table_right_aligned(t) == first_columns(0) && drawn_from(t, table@);
        assert(table_header(t) == Some(seq!["Metric"@, "Value"@]));
    }
    s
}

/// A file whose aggregate DR lies close to a rounding boundary, with its
/// precise value already rendered.
#[derive(Debug, Clone)]
pub struct WarningRow {
    pub official_dr: i32,
    pub precise: String,
    pub risk: BoundaryRiskLevel,
    pub direction: BoundaryDirection,
    pub file_name: String,
}

/// Label of a risk level in the warning table.
pub open spec fn risk_label(risk: BoundaryRiskLevel) -> Seq<char> {
    match risk {
        BoundaryRiskLevel::High => "High"@,
        BoundaryRiskLevel::Medium => "Medium"@,
        BoundaryRiskLevel::Low => "Low"@,
    }
}

/// The cells of one warning: the DR value, the precise value, the risk, the
/// value it may round to, and the file.
pub open spec fn warning_cells(w: WarningRow) -> Seq<Seq<char>> {
    seq![
        signed_decimal(w.official_dr as int),
        w.precise@,
        risk_label(w.risk),
        "DR"@ + signed_decimal(potential_dr_of(w.official_dr as int, w.direction)),
        w.file_name@,
    ]
}

/// The rows of the warning table, in the order given.
pub open spec fn warning_rows_text(ws: Seq<WarningRow>) -> Seq<Seq<Seq<char>>> {
    ws.map_values(|w: WarningRow| warning_cells(w))
}

/// The rows of the warning table (see `warning_rows_text`).
pub fn warning_rows(warnings: &Vec<WarningRow>) -> (rows: Vec<Vec<String>>)
    requires
        forall|i: int|
            0 <= i < warnings@.len() ==> i32::MIN < #[trigger] warnings@[i].official_dr < i32::MAX,
    ensures
        table_view(rows@) == warning_rows_text(warnings@),
{
    let mut rows: Vec<Vec<String>> = Vec::new();
    let mut i: usize = 0;
    while i < warnings.len()
        invariant
            i <= warnings@.len(),
            forall|k: int|
                0 <= k < warnings@.len() ==> i32::MIN < #[trigger] warnings@[k].official_dr < i32::MAX,
            table_view(rows@) == warning_rows_text(warnings@.take(i as int)),
        decreases warnings@.len() - i,
    {
        let w = &warnings[i];
        let mut dr = String::new();
        push_signed_decimal(&mut dr, w.official_dr as i64);
        let mut potential = owned("DR");
        push_signed_decimal(&mut potential, potential_dr(w.official_dr, w.direction) as i64);
        let mut cells: Vec<String> = Vec::new();
        cells.push(dr);
        cells.push(w.precise.clone());
        cells.push(owned(w.risk.label()));
        cells.push(potential);
        cells.push(w.file_name.clone());
        assert(cells@.map_values(|c: String| c@) =~= warning_cells(*w));
        let ghost before = rows@;
        rows.push(cells);
        i = i + 1;
        assert(table_view(rows@) =~= warning_rows_text(warnings@.take(i as int))) by {
            let prev = warnings@.take(i - 1);
            assert(warnings@.take(i as int) =~= prev.push(warnings@[i - 1]));
            assert(warning_rows_text(prev.push(warnings@[i - 1])) =~= warning_rows_text(prev).push(
                warning_cells(warnings@[i - 1]),
            ));
            assert(table_view(before.push(cells)) =~= table_view(before).push(
                cells@.map_values(|c: String| c@),
            ));
        }
    }
    assert(warnings@.take(warnings@.len() as int) =~= warnings@);
    rows
}

/// The boundary-warning section around its drawn table.
pub open spec fn warnings_section_text(count: nat, table: Seq<char>) -> Seq<char> {
    "### Boundary Warnings ("@ + decimal(count) + ")\n\n"@ + table + "\n\n"@
}

/// The boundary-warning section: a heading with the number of warnings and a
/// drawing of the table that holds the `DR`/`Precise`/`Risk`/`Potential`/`File`
/// header and the rows of `warning_rows_text`, in the order given, with the DR
/// and precise columns aligned right. The drawing itself depends on the terminal.
pub fn boundary_warnings_section(warnings: &Vec<WarningRow>) -> (s: String)
    requires
        forall|i: int|
            0 <= i < warnings@.len() ==> i32::MIN < #[trigger] warnings@[i].official_dr < i32::MAX,
    ensures
        exists|t: Table, table: Seq<char>|
            {
                &&& table_header(t) == Some(warning_header())
                &&& table_right_aligned(t) == first_columns(2)
                &&& table_rows(t) == warning_rows_text(warnings@)
                &&& drawn_from(t, table)
                &&& s@ == warnings_section_text(warnings@.len(), table)
            },
{
    let rows = warning_rows(warnings);
    let mut header: Vec<String> = Vec::new();
    header.push(owned("DR"));
    header.push(owned("Precise"));
    header.push(owned("Risk"));
    header.push(owned("Potential"));
    header.push(owned("File"));
    let table = markdown_table(header, &rows, 2);
    let mut s = owned("### Boundary Warnings (");
    push_decimal(&mut s, warnings.len() as u64);
    push_str(&mut s, ")\n\n");
    push_str(&mut s, table.as_str());
    push_str(&mut s, "\n\n");
    assert(s@ =~= warnings_section_text(warnings@.len(), table@));
    proof {
        assert(rows_view(rows@) =~= table_view(rows@));
        reveal_strlit("DR");
        reveal_strlit("Precise");
        reveal_strlit("Risk");
        reveal_strlit("Potential");
        reveal_strlit("File");
        assert(header@.map_values(|c: String| c@) =~= warning_header());
    }
    s
}

/// The header of the warning table.
pub open spec fn warning_header() -> Seq<Seq<char>> {
    seq!["DR"@, "Precise"@, "Risk"@, "Potential"@, "File"@]
}

/// The text `chrono` writes for the UTC time `secs` seconds after the Unix
/// epoch in the format `%Y-%m-%d_%H-%M-%S` (such as `2024-05-01_13-45-00`).
pub uninterp spec fn utc_stamp(secs: i64) -> Seq<char>;

/// `DateTime::<Utc>::from_timestamp(secs, 0)`, written with the format
/// `%Y-%m-%d_%H-%M-%S`: the text named by `utc_stamp`, or `None` when chrono
/// cannot represent the time. Every second of the years 1 to 9999 can be
/// represented (chrono's dates reach from about year -262143 to 262142);
/// exactly where the range ends is not stated.
#[verifier::external_body]
fn utc_stamp_text(secs: i64) -> (r: Option<String>)
    ensures
        r matches Some(t) ==> t@ == utc_stamp(secs),
        within_years_1_to_9999(secs) ==> r is Some,
{
    chrono::DateTime::<chrono::Utc>::from_timestamp(secs, 0).map(
        |d| d.format("%Y-%m-%d_%H-%M-%S").to_string(),
    )
}

/// Whether `secs` seconds after the Unix epoch falls in the years 1 to 9999
/// (from 0001-01-01 00:00:00 to 9999-12-31 23:59:59 UTC).
pub open spec fn within_years_1_to_9999(secs: i64) -> bool {
    -62135596800 <= secs <= 253402300799
}

/// The time stamp in the batch report's file name for `secs` seconds after
/// the Unix epoch (see `utc_stamp`), when chrono can represent that time;
/// it always can in the years 1 to 9999.
pub fn batch_report_stamp(secs: i64) -> (r: Option<String>)
    ensures
        r matches Some(t) ==> t@ == utc_stamp(secs),
        within_years_1_to_9999(secs) ==> r is Some,
{
    utc_stamp_text(secs)
}

/// The file name of a batch report: the directory's name with unsafe
/// characters replaced, `_BatchDR_`, the time stamp, and `.txt`.
pub open spec fn batch_report_name(dir_name: Seq<char>, stamp: Seq<char>) -> Seq<char> {
    sanitized(dir_name) + "_BatchDR_"@ + stamp + ".txt"@
}

/// The file name of a batch report (see `batch_report_name`).
pub fn batch_report_file_name(dir_name: &str, stamp: &str) -> (s: String)
    ensures
        s@ == batch_report_name(dir_name@, stamp@),
{
    let mut s = sanitize_filename(dir_name);
    push_str(&mut s, "_BatchDR_");
    push_str(&mut s, stamp);
    push_str(&mut s, ".txt");
    s
}

} // verus!
