//! Column layout of the text reports: terminal display widths (wide East
//! Asian characters take two columns), lines of padded columns, and separator
//! lines as wide as the text they underline.

use crate::text::{push_char, push_str};
use vstd::prelude::*;

verus! {

/// Whether `c` takes two columns on a terminal: Hangul Jamo, the CJK blocks
/// (radicals to Yi), Hangul syllables, CJK compatibility ideographs, CJK
/// compatibility forms, full-width forms and signs, and pictographs and emoji.
pub open spec fn is_wide(c: char) -> bool {
    let u = c as u32;
    ||| 0x1100 <= u <= 0x115F
    ||| 0x2E80 <= u <= 0xA4CF
    ||| 0xAC00 <= u <= 0xD7A3
    ||| 0xF900 <= u <= 0xFAFF
    ||| 0xFE30 <= u <= 0xFE4F
    ||| 0xFF00 <= u <= 0xFF60
    ||| 0xFFE0 <= u <= 0xFFE6
    ||| 0x1F300 <= u <= 0x1FAFF
}

/// Columns taken by `c`.
pub open spec fn char_width(c: char) -> nat {
    if is_wide(c) {
        2
    } else {
        1
    }
}

/// Columns taken by `s`.
pub open spec fn display_width(s: Seq<char>) -> nat
    decreases s.len(),
{
    if s.len() == 0 {
        0
    } else {
        display_width(s.drop_last()) + char_width(s.last())
    }
}

/// `n` spaces.
pub open spec fn spaces(n: nat) -> Seq<char> {
    Seq::new(n, |i: int| ' ')
}

/// `n` copies of `c`.
pub open spec fn repeated(c: char, n: nat) -> Seq<char> {
    Seq::new(n, |i: int| c)
}

/// The padding after text of width `used` in a column of `width`.
pub open spec fn padding(width: nat, used: nat) -> Seq<char> {
    if used < width {
        spaces((width - used) as nat)
    } else {
        Seq::empty()
    }
}

/// The width of column `i`: the given one, or zero beyond the given widths.
pub open spec fn width_at(widths: Seq<usize>, i: int) -> nat {
    if 0 <= i < widths.len() {
        widths[i] as nat
    } else {
        0
    }
}

/// The first `k` columns of a line: each column but the last padded to its
/// width and followed by the separator.
pub open spec fn cols_prefix(cols: Seq<Seq<char>>, widths: Seq<usize>, sep: Seq<char>, k: nat) -> Seq<
    char,
>
    decreases k,
{
    if k == 0 {
        Seq::empty()
    } else {
        let i = (k - 1) as int;
        cols_prefix(cols, widths, sep, (k - 1) as nat) + cols[i] + if k < cols.len() {
            padding(width_at(widths, i), display_width(cols[i])) + sep
        } else {
            Seq::empty()
        }
    }
}

/// A line of columns (see `cols_prefix`), ended by a newline.
pub open spec fn cols_line(cols: Seq<Seq<char>>, widths: Seq<usize>, sep: Seq<char>) -> Seq<char> {
    cols_prefix(cols, widths, sep, cols.len()) + "\n"@
}

/// Columns of a line and the widths in one table.
pub open spec fn strs_view(cols: Seq<&str>) -> Seq<Seq<char>> {
    cols.map_values(|c: &str| c@)
}

/// The display width of `s` (see `display_width`).
pub fn text_width(s: &str) -> (n: u128)
    ensures
        n == display_width(s@),
{
    let n = prefix_width(s, s.unicode_len());
    assert(s@.take(s@.len() as int) =~= s@);
    n
}

fn push_repeated(out: &mut String, c: char, n: u128)
    ensures
        final(out)@ == old(out)@ + repeated(c, n as nat),
{
    let mut k: u128 = 0;
    while k < n
        invariant
            k <= n,
            out@ == old(out)@ + repeated(c, k as nat),
        decreases n - k,
    {
        push_char(out, c);
        k = k + 1;
        assert(repeated(c, k as nat) =~= repeated(c, (k - 1) as nat).push(c));
    }
}

fn push_padding(out: &mut String, width: usize, used: u128)
    ensures
        final(out)@ == old(out)@ + padding(width as nat, used as nat),
{
    if used < width as u128 {
        push_repeated(out, ' ', width as u128 - used);
        assert(repeated(' ', (width - used) as nat) =~= spaces((width - used) as nat));
    } else {
        assert(final(out)@ =~= old(out)@ + padding(width as nat, used as nat));
    }
}

/// A line of columns: every column but the last is padded with spaces to its
/// width (measured in display columns; a column without a width gets none)
/// and followed by `sep`; the line ends with a newline.
pub fn format_cols_line(cols: &[&str], widths: &[usize], sep: &str) -> (line: String)
    ensures
        line@ == cols_line(strs_view(cols@), widths@, sep@),
{
    let ghost cv = strs_view(cols@);
    let mut line = String::new();
    let mut i: usize = 0;
    while i < cols.len()
        invariant
            i <= cols@.len(),
            cv == strs_view(cols@),
            line@ == cols_prefix(cv, widths@, sep@, i as nat),
        decreases cols@.len() - i,
    {
        let col: &str = cols[i];
        assert(cv[i as int] == col@);
        push_str(&mut line, col);
        if i + 1 < cols.len() {
            let width: usize = if i < widths.len() {
                widths[i]
            } else {
                0
            };
            let used = text_width(col);
            push_padding(&mut line, width, used);
            push_str(&mut line, sep);
        }
        i = i + 1;
        assert(line@ =~= cols_prefix(cv, widths@, sep@, i as nat));
    }
    push_str(&mut line, "\n");
    line
}

/// The two-column layout of the per-channel tables and the batch lines: two
/// columns of seventeen and a trailing field.
pub open spec fn two_cols_line(a: Seq<char>, b: Seq<char>, tail: Seq<char>) -> Seq<char> {
    a + padding(17, display_width(a)) + b + padding(17, display_width(b)) + tail + "\n"@
}

/// A two-column line (see `two_cols_line`).
pub fn format_two_cols_line(a: &str, b: &str, tail: &str) -> (line: String)
    ensures
        line@ == two_cols_line(a@, b@, tail@),
{
    let mut line = String::new();
    push_str(&mut line, a);
    push_padding(&mut line, 17, text_width(a));
    push_str(&mut line, b);
    push_padding(&mut line, 17, text_width(b));
    push_str(&mut line, tail);
    push_str(&mut line, "\n");
    line
}

/// `s` without its trailing newlines.
pub open spec fn without_trailing_newlines(s: Seq<char>) -> Seq<char>
    decreases s.len(),
{
    if s.len() > 0 && s.last() == '\n' {
        without_trailing_newlines(s.drop_last())
    } else {
        s
    }
}

/// A line of `c` as wide as the widest of `lines` (trailing newlines ignored).
pub open spec fn separator_text(lines: Seq<Seq<char>>, c: char) -> Seq<char> {
    repeated(c, widest(lines)) + "\n"@
}

/// The largest display width among `lines`, trailing newlines ignored.
pub open spec fn widest(lines: Seq<Seq<char>>) -> nat
    decreases lines.len(),
{
    if lines.len() == 0 {
        0
    } else {
        let w = display_width(without_trailing_newlines(lines.last()));
        let rest = widest(lines.drop_last());
        if w > rest {
            w
        } else {
            rest
        }
    }
}

fn width_without_trailing_newlines(s: &str) -> (n: u128)
    ensures
        n == display_width(without_trailing_newlines(s@)),
{
    let mut end = s.unicode_len();
    assert(s@.take(end as int) =~= s@);
    while end > 0 && s.get_char(end - 1) == '\n'
        invariant
            end <= s@.len(),
            without_trailing_newlines(s@.take(end as int)) == without_trailing_newlines(s@),
        decreases end,
    {
        assert(s@.take(end as int).drop_last() =~= s@.take(end - 1));
        end = end - 1;
    }
    assert(without_trailing_newlines(s@.take(end as int)) == s@.take(end as int));
    prefix_width(s, end)
}

fn prefix_width(s: &str, end: usize) -> (n: u128)
    requires
        end <= s@.len(),
    ensures
        n == display_width(s@.take(end as int)),
{
    let mut n: u128 = 0;
    let mut i: usize = 0;
    while i < end
        invariant
            i <= end,
            end <= s@.len(),
            n == display_width(s@.take(i as int)),
            n <= 2 * i,
        decreases end - i,
    {
        let c = s.get_char(i);
        let u = c as u32;
        let wide = (0x1100 <= u && u <= 0x115F) || (0x2E80 <= u && u <= 0xA4CF) || (0xAC00 <= u
            && u <= 0xD7A3) || (0xF900 <= u && u <= 0xFAFF) || (0xFE30 <= u && u <= 0xFE4F) || (
        0xFF00 <= u && u <= 0xFF60) || (0xFFE0 <= u && u <= 0xFFE6) || (0x1F300 <= u && u
            <= 0x1FAFF);
        proof {
            assert(s@.take(i + 1).drop_last() =~= s@.take(i as int));
            assert(s@.take(i + 1).last() == c);
        }
        n = n + if wide {
            2
        } else {
            1
        };
        i = i + 1;
    }
    n
}

/// A line of `c` as wide as the widest of `lines` (see `separator_text`).
pub fn separator_for_lines_with_char(lines: &[&str], c: char) -> (s: String)
    ensures
        s@ == separator_text(strs_view(lines@), c),
{
    let ghost lv = strs_view(lines@);
    let mut widest_so_far: u128 = 0;
    let mut i: usize = 0;
    while i < lines.len()
        invariant
            i <= lines@.len(),
            lv == strs_view(lines@),
            widest_so_far == widest(lv.take(i as int)),
        decreases lines@.len() - i,
    {
        let line: &str = lines[i];
        assert(lv[i as int] == line@);
        let w = width_without_trailing_newlines(line);
        assert(lv.take(i + 1).drop_last() =~= lv.take(i as int));
        if w > widest_so_far {
            widest_so_far = w;
        }
        i = i + 1;
    }
    assert(lv.take(lines@.len() as int) =~= lv);
    let mut s = String::new();
    push_repeated(&mut s, c, widest_so_far);
    push_str(&mut s, "\n");
    s
}

/// A line of `=` as wide as the widest of `lines`.
pub fn separator_for_lines(lines: &[&str]) -> (s: String)
    ensures
        s@ == separator_text(strs_view(lines@), '='),
{
    separator_for_lines_with_char(lines, '=')
}

/// A line of `=` as wide as `line` (trailing newlines ignored).
pub fn separator_from(line: &str) -> (s: String)
    ensures
        s@ == repeated('=', display_width(without_trailing_newlines(line@))) + "\n"@,
{
    let w = width_without_trailing_newlines(line);
    let mut s = String::new();
    push_repeated(&mut s, '=', w);
    push_str(&mut s, "\n");
    s
}

} // verus!
