//! The per-process GPU table that `powermetrics --show-process-gpu --format
//! text` prints, read down to the process id and the text of the GPU time
//! field of each row.  Turning that field into a percentage is floating-point
//! work and is left to the caller.
use vstd::prelude::*;

use crate::text::{
    chars_match_at, chars_of, has_prefix, is_white_space, leading_space, parse_unsigned,
    parse_unsigned_chars, string_from_chars, trim_chars, trimmed, white_space,
};

verus! {

broadcast use vstd::string::group_string_axioms;

/// The character sequences held by a vector of character vectors.
pub open spec fn char_rows(v: Seq<Vec<char>>) -> Seq<Seq<char>> {
    v.map_values(|row: Vec<char>| row@)
}

/// `line` without one final carriage return.
pub open spec fn without_carriage_return(line: Seq<char>) -> Seq<char> {
    if line.len() > 0 && line.last() == '\r' {
        line.drop_last()
    } else {
        line
    }
}

/// The lines of `rest` as `str::lines` yields them, after the lines in `done`
/// and the characters of the current line in `line`: lines end at `\n` (a
/// `\r` just before it is dropped), and a final line without `\n` counts
/// only when it is not empty.
pub open spec fn scan_lines(done: Seq<Seq<char>>, line: Seq<char>, rest: Seq<char>) -> Seq<Seq<char>>
    decreases rest.len(),
{
    if rest.len() == 0 {
        if line.len() > 0 {
            done.push(line)
        } else {
            done
        }
    } else if rest[0] == '\n' {
        scan_lines(done.push(without_carriage_return(line)), Seq::empty(), rest.skip(1))
    } else {
        scan_lines(done, line.push(rest[0]), rest.skip(1))
    }
}

/// The lines of a text (`str::lines`).
pub open spec fn text_lines(text: Seq<char>) -> Seq<Seq<char>> {
    scan_lines(Seq::empty(), Seq::empty(), text)
}

/// The words of `rest` after the words in `done` and the characters of the
/// current word in `word`: the maximal runs of characters that are not white
/// space, in order.
pub open spec fn scan_words(done: Seq<Seq<char>>, word: Seq<char>, rest: Seq<char>) -> Seq<Seq<char>>
    decreases rest.len(),
{
    if rest.len() == 0 {
        if word.len() > 0 {
            done.push(word)
        } else {
            done
        }
    } else if is_white_space(rest[0]) {
        scan_words(
            if word.len() > 0 {
                done.push(word)
            } else {
                done
            },
            Seq::empty(),
            rest.skip(1),
        )
    } else {
        scan_words(done, word.push(rest[0]), rest.skip(1))
    }
}

/// The words of a line (`str::split_whitespace`).
pub open spec fn words(line: Seq<char>) -> Seq<Seq<char>> {
    scan_words(Seq::empty(), Seq::empty(), line)
}

/// The lines of a text.
fn split_lines(chars: &Vec<char>) -> (lines: Vec<Vec<char>>)
    ensures
        char_rows(lines@) == text_lines(chars@),
{
    let mut lines: Vec<Vec<char>> = Vec::new();
    let mut line: Vec<char> = Vec::new();
    let mut i: usize = 0;
    assert(chars@.skip(0) =~= chars@);
    assert(char_rows(lines@) =~= Seq::<Seq<char>>::empty());
    assert(line@ =~= Seq::<char>::empty());
    while i < chars.len()
        invariant
            i <= chars.len(),
            scan_lines(char_rows(lines@), line@, chars@.skip(i as int)) == text_lines(chars@),
        decreases chars.len() - i,
    {
        let c = chars[i];
        proof {
            assert(chars@.skip(i as int).skip(1) =~= chars@.skip(i + 1));
            assert(chars@.skip(i as int)[0] == c);
        }
        if c == '\n' {
            let ghost full = line@;
            if line.len() > 0 && line[line.len() - 1] == '\r' {
                line.pop();
            }
            assert(line@ =~= without_carriage_return(full));
            let ghost before = char_rows(lines@);
            lines.push(line);
            assert(char_rows(lines@) =~= before.push(without_carriage_return(full)));
            line = Vec::new();
            assert(line@ =~= Seq::<char>::empty());
        } else {
            let ghost before = line@;
            line.push(c);
            assert(line@ =~= before.push(c));
        }
        i = i + 1;
    }
    proof {
        assert(chars@.skip(i as int).len() == 0);
    }
    if line.len() > 0 {
        let ghost before = char_rows(lines@);
        let ghost last = line@;
        lines.push(line);
        assert(char_rows(lines@) =~= before.push(last));
    }
    lines
}

/// The words of a line.
fn split_words(chars: &Vec<char>) -> (found: Vec<Vec<char>>)
    ensures
        char_rows(found@) == words(chars@),
{
    let mut found: Vec<Vec<char>> = Vec::new();
    let mut word: Vec<char> = Vec::new();
    let mut i: usize = 0;
    assert(chars@.skip(0) =~= chars@);
    assert(char_rows(found@) =~= Seq::<Seq<char>>::empty());
    assert(word@ =~= Seq::<char>::empty());
    while i < chars.len()
        invariant
            i <= chars.len(),
            scan_words(char_rows(found@), word@, chars@.skip(i as int)) == words(chars@),
        decreases chars.len() - i,
    {
        let c = chars[i];
        proof {
            assert(chars@.skip(i as int).skip(1) =~= chars@.skip(i + 1));
            assert(chars@.skip(i as int)[0] == c);
        }
        if white_space(c) {
            if word.len() > 0 {
                let ghost before = char_rows(found@);
                let ghost last = word@;
                found.push(word);
                assert(char_rows(found@) =~= before.push(last));
                word = Vec::new();
            }
            assert(word@ =~= Seq::<char>::empty());
        } else {
            let ghost before = word@;
            word.push(c);
            assert(word@ =~= before.push(c));
        }
        i = i + 1;
    }
    proof {
        assert(chars@.skip(i as int).len() == 0);
    }
    if word.len() > 0 {
        let ghost before = char_rows(found@);
        let ghost last = word@;
        found.push(word);
        assert(char_rows(found@) =~= before.push(last));
    }
    found
}

/// Whether `pattern` occurs in `text` (`str::contains`).
pub open spec fn contains_text(text: Seq<char>, pattern: Seq<char>) -> bool {
    exists|i: int| 0 <= i <= text.len() && #[trigger] has_prefix(text.skip(i), pattern)
}

fn contains_chars(text: &Vec<char>, pattern: &Vec<char>) -> (r: bool)
    ensures
        r == contains_text(text@, pattern@),
{
    let mut i: usize = 0;
    loop
        invariant
            i <= text.len(),
            forall|j: int| 0 <= j < i ==> !#[trigger] has_prefix(text@.skip(j), pattern@),
        decreases text.len() - i,
    {
        if chars_match_at(text, i, pattern) {
            return true;
        }
        if i == text.len() {
            return false;
        }
        i = i + 1;
    }
}

/// The header line of the process table: it begins, after white space, with
/// `Name`, and it names the GPU time column.
pub open spec fn is_table_header(line: Seq<char>) -> bool {
    has_prefix(line.skip(leading_space(line) as int), "Name"@) && contains_text(line, "GPU ms/s"@)
}

/// Whether the header has the columns the rows are read by.
pub open spec fn has_supported_columns(header: Seq<char>) -> bool {
    contains_text(header, "CPU ms/s"@) && contains_text(header, "User%"@)
}

fn is_header(line: &Vec<char>) -> (r: bool)
    ensures
        r == is_table_header(line@),
{
    let mut start: usize = 0;
    while start < line.len() && white_space(line[start])
        invariant
            start <= line.len(),
            forall|i: int| 0 <= i < start ==> is_white_space(#[trigger] line@[i]),
        decreases line.len() - start,
    {
        start = start + 1;
    }
    proof {
        crate::text::lemma_leading_space_exact(line@, start as int);
    }
    chars_match_at(line, start, &chars_of("Name")) && contains_chars(line, &chars_of("GPU ms/s"))
}

fn has_columns(header: &Vec<char>) -> (r: bool)
    ensures
        r == has_supported_columns(header@),
{
    contains_chars(header, &chars_of("CPU ms/s")) && contains_chars(header, &chars_of("User%"))
}

/// One row of the process table: the process id and the text of its GPU
/// time field (milliseconds of GPU time per second).
#[derive(Debug)]
pub struct GpuTableRow {
    pub pid: u32,
    pub gpu_ms_per_second: String,
}

/// The rows as plain values.
pub open spec fn row_views(rows: Seq<GpuTableRow>) -> Seq<(u32, Seq<char>)> {
    rows.map_values(|row: GpuTableRow| (row.pid, row.gpu_ms_per_second@))
}

/// A row read by its fixed numeric tail: its last eight words are the process
/// id, the CPU time, the user share, two deadline counts, two wakeup counts
/// and the GPU time, so spaces in a process name do not matter.  A row with
/// fewer words, or whose id is not a 32-bit unsigned number, gives nothing.
pub open spec fn table_row(line: Seq<char>) -> Option<(u32, Seq<char>)> {
    let fields = words(line);
    if fields.len() < 8 {
        None
    } else {
        match parse_unsigned(fields[fields.len() - 8], u32::MAX as nat) {
            Some(pid) => Some((pid as u32, fields[fields.len() - 1])),
            None => None,
        }
    }
}

/// The rows of a table whose lines begin `lines`: the table ends at the first
/// blank line.
pub open spec fn table_rows(lines: Seq<Seq<char>>) -> Seq<(u32, Seq<char>)>
    decreases lines.len(),
{
    if lines.len() == 0 || trimmed(lines[0]).len() == 0 {
        Seq::empty()
    } else {
        match table_row(lines[0]) {
            Some(row) => seq![row] + table_rows(lines.skip(1)),
            None => table_rows(lines.skip(1)),
        }
    }
}

/// The first header line at or after line `i`.
pub open spec fn header_from(lines: Seq<Seq<char>>, i: int) -> Option<int>
    decreases lines.len() - i,
{
    if i < 0 || i >= lines.len() {
        None
    } else if is_table_header(lines[i]) {
        Some(i)
    } else {
        header_from(lines, i + 1)
    }
}

/// Why the output holds no readable process table.
#[derive(Debug, Clone, Copy, PartialEq, Eq, Structural)]
pub enum GpuTableError {
    /// No line is the header of a table with a GPU time column.
    MissingGpuColumn,
    /// The header lacks the CPU time or the user share column.
    UnsupportedLayout,
}

/// How a table error reads.
pub open spec fn gpu_table_error_text(error: GpuTableError) -> Seq<char> {
    match error {
        GpuTableError::MissingGpuColumn => "powermetrics returned no per-process GPU column"@,
        GpuTableError::UnsupportedLayout => "powermetrics process table had an unsupported column layout"@,
    }
}

impl GpuTableError {
    /// How the error reads (see `gpu_table_error_text`).
    pub fn message(&self) -> (text: String)
        ensures
            text@ == gpu_table_error_text(*self),
    {
        match self {
            GpuTableError::MissingGpuColumn => String::from_str(
                "powermetrics returned no per-process GPU column",
            ),
            GpuTableError::UnsupportedLayout => String::from_str(
                "powermetrics process table had an unsupported column layout",
            ),
        }
    }
}

/// The process table of a `powermetrics` text report: the rows after the
/// first header line, up to the first blank line; refused when no line is a
/// header, or when the first header lacks a column the rows are read by.
pub open spec fn gpu_table(text: Seq<char>) -> Result<Seq<(u32, Seq<char>)>, GpuTableError> {
    let lines = text_lines(text);
    match header_from(lines, 0) {
        None => Err(GpuTableError::MissingGpuColumn),
        Some(h) => if has_supported_columns(lines[h]) {
            Ok(table_rows(lines.skip(h + 1)))
        } else {
            Err(GpuTableError::UnsupportedLayout)
        },
    }
}

fn read_row(line: &Vec<char>) -> (row: Option<GpuTableRow>)
    ensures
        match row {
            Some(r) => table_row(line@) == Some((r.pid, r.gpu_ms_per_second@)),
            None => table_row(line@) is None,
        },
{
    let fields = split_words(line);
    let n = fields.len();
    if n < 8 {
        return None;
    }
    proof {
        assert(char_rows(fields@)[n - 8] == fields@[n - 8]@);
        assert(char_rows(fields@)[n - 1] == fields@[n - 1]@);
    }
    match parse_unsigned_chars(&fields[n - 8], 0xffff_ffff) {
        Some(pid) => Some(
            GpuTableRow { pid: pid as u32, gpu_ms_per_second: string_from_chars(&fields[n - 1]) },
        ),
        None => None,
    }
}

/// The rows of the process table in a `powermetrics` text report (see
/// `gpu_table`).
pub fn gpu_table_rows(text: &str) -> (r: Result<Vec<GpuTableRow>, GpuTableError>)
    ensures
        match r {
            Ok(rows) => gpu_table(text@) == Ok::<Seq<(u32, Seq<char>)>, GpuTableError>(
                row_views(rows@),
            ),
            Err(e) => gpu_table(text@) == Err::<Seq<(u32, Seq<char>)>, GpuTableError>(e),
        },
{
    let chars = chars_of(text);
    let lines = split_lines(&chars);
    let ghost all = text_lines(text@);
    let mut h: usize = 0;
    while h < lines.len() && !is_header(&lines[h])
        invariant
            h <= lines.len(),
            char_rows(lines@) == all,
            header_from(all, h as int) == header_from(all, 0),
        decreases lines.len() - h,
    {
        assert(all[h as int] == lines@[h as int]@);
        h = h + 1;
    }
    if h == lines.len() {
        return Err(GpuTableError::MissingGpuColumn);
    }
    assert(all[h as int] == lines@[h as int]@);
    if !has_columns(&lines[h]) {
        return Err(GpuTableError::UnsupportedLayout);
    }
    let mut rows: Vec<GpuTableRow> = Vec::new();
    let mut k: usize = h + 1;
    assert(row_views(rows@) + table_rows(all.skip(k as int)) =~= table_rows(all.skip(k as int)));
    while k < lines.len()
        invariant
            h < k <= lines.len(),
            char_rows(lines@) == all,
            row_views(rows@) + table_rows(all.skip(k as int)) == table_rows(all.skip(h + 1)),
        ensures
            row_views(rows@) == table_rows(all.skip(h + 1)),
        decreases lines.len() - k,
    {
        assert(all[k as int] == lines@[k as int]@);
        assert(all.skip(k as int)[0] == all[k as int]);
        assert(all.skip(k as int).skip(1) =~= all.skip(k + 1));
        if trim_chars(&lines[k]).len() == 0 {
            assert(row_views(rows@) + table_rows(all.skip(k as int)) =~= row_views(rows@));
            break;
        }
        let ghost before = row_views(rows@);
        match read_row(&lines[k]) {
            Some(row) => {
                let ghost item = (row.pid, row.gpu_ms_per_second@);
                rows.push(row);
                assert(row_views(rows@) =~= before.push(item));
                assert(before + table_rows(all.skip(k as int)) =~= row_views(rows@) + table_rows(
                    all.skip(k + 1),
                ));
            },
            None => {},
        }
        k = k + 1;
    }
    Ok(rows)
}

} // verus!
