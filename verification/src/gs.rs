//! Reading Ghostscript's `inkcov` report and version output.

use vstd::prelude::*;

use crate::text::{
    chars_of, pieces, split_bounds, split_on, string_from_range, trim, trim_bounds, word_bounds,
    words,
};

verus! {

/// `std::io::Error`, carried by a failed file or process operation.
#[verifier::external_type_specification]
#[verifier::external_body]
pub struct ExIoError(std::io::Error);

/// `tokio::task::JoinError`, carried by a failed blocking task.
#[verifier::external_type_specification]
#[verifier::external_body]
pub struct ExJoinError(tokio::task::JoinError);

/// What can go wrong while running or reading Ghostscript.
#[derive(Debug)]
pub enum GsError {
    MissingCoverage,
    Parse,
    Io(std::io::Error),
    Join(tokio::task::JoinError),
    Status,
    Semaphore,
}

impl GsError {
    /// The short message that names the error.
    pub fn message(&self) -> (m: &'static str)
        ensures
            self is MissingCoverage ==> m@ == "coverage"@,
            self is Parse ==> m@ == "parse"@,
            self is Io ==> m@ == "io"@,
            self is Join ==> m@ == "join"@,
            self is Status ==> m@ == "status"@,
            self is Semaphore ==> m@ == "semaphore"@,
    {
        match self {
            GsError::MissingCoverage => "coverage",
            GsError::Parse => "parse",
            GsError::Io(_) => "io",
            GsError::Join(_) => "join",
            GsError::Status => "status",
            GsError::Semaphore => "semaphore",
        }
    }
}

/// One page of an `inkcov` report: the page number (counted from 1 over
/// the coverage lines) and the cyan, magenta, yellow and black fields as
/// printed.
#[derive(Debug)]
pub struct InkRow {
    pub page: u32,
    pub c: String,
    pub m: String,
    pub y: String,
    pub k: String,
}

/// The text that ends a coverage line of an `inkcov` report.
pub open spec fn cmyk_ok() -> Seq<char> {
    seq!['C', 'M', 'Y', 'K', ' ', 'O', 'K']
}

/// A (trimmed) line that reports the ink coverage of a page.
pub open spec fn is_coverage_line(t: Seq<char>) -> bool {
    t.len() >= 7 && t.skip(t.len() - 7) == cmyk_ok()
}

/// The first four words of each coverage line, in order; `None` when some
/// coverage line has fewer than six words.
pub open spec fn scan_rows(lines: Seq<Seq<char>>) -> Option<Seq<Seq<Seq<char>>>>
    decreases lines.len(),
{
    if lines.len() == 0 {
        Some(Seq::empty())
    } else {
        match scan_rows(lines.drop_last()) {
            None => None,
            Some(rows) => {
                let t = trim(lines.last());
                if !is_coverage_line(t) {
                    Some(rows)
                } else if words(t).len() < 6 {
                    None
                } else {
                    Some(rows.push(words(t).take(4)))
                }
            },
        }
    }
}

/// The coverage rows of a report, over its `\n`-separated lines (an empty
/// last line, which `str::lines` leaves out, is no coverage line).
pub open spec fn coverage_rows(output: Seq<char>) -> Option<Seq<Seq<Seq<char>>>> {
    scan_rows(split_on(output, '\n'))
}

/// Whether the coverage rows of a report can be numbered as `u32` pages:
/// however far it is read, no more than `u32::MAX` rows are found.
pub open spec fn rows_numberable(output: Seq<char>) -> bool {
    forall|n: int|
        0 <= n <= split_on(output, '\n').len() ==> (#[trigger] scan_rows(
            split_on(output, '\n').take(n),
        ) matches Some(f) ==> f.len() <= u32::MAX)
}

/// Whether `row` holds page `page` and the four fields `fields`.
pub open spec fn row_is(row: InkRow, page: int, fields: Seq<Seq<char>>) -> bool {
    &&& row.page == page
    &&& row.c@ == fields[0]
    &&& row.m@ == fields[1]
    &&& row.y@ == fields[2]
    &&& row.k@ == fields[3]
}

/// Whether `rows` lists `fields` in order, numbered from 1.
pub open spec fn rows_are(rows: Seq<InkRow>, fields: Seq<Seq<Seq<char>>>) -> bool {
    &&& rows.len() == fields.len()
    &&& forall|j: int| 0 <= j < rows.len() ==> row_is(#[trigger] rows[j], j + 1, fields[j])
}

fn ends_with_cmyk_ok(chars: &Vec<char>, lo: usize, hi: usize) -> (res: bool)
    requires
        lo <= hi <= chars@.len(),
    ensures
        res == is_coverage_line(chars@.subrange(lo as int, hi as int)),
{
    let ghost t = chars@.subrange(lo as int, hi as int);
    if hi - lo < 7 {
        return false;
    }
    let s = hi - 7;
    let res = chars[s] == 'C' && chars[s + 1] == 'M' && chars[s + 2] == 'Y' && chars[s + 3] == 'K'
        && chars[s + 4] == ' ' && chars[s + 5] == 'O' && chars[s + 6] == 'K';
    proof {
        let tail = t.skip(t.len() - 7);
        assert forall|k: int| 0 <= k < 7 implies tail[k] == chars@[s + k] by {}
        if res {
            assert(tail =~= cmyk_ok());
        } else if tail == cmyk_ok() {
            assert(tail[0] == 'C' && tail[1] == 'M' && tail[2] == 'Y' && tail[3] == 'K');
            assert(tail[4] == ' ' && tail[5] == 'O' && tail[6] == 'K');
        }
    }
    res
}

/// Reads the coverage lines of an `inkcov` report: each line that, trimmed,
/// ends with `CMYK OK` must have at least six words, and gives a row of its
/// first four. A short coverage line is `Parse`; no coverage line at all is
/// `MissingCoverage`.
pub fn inkcov_rows(output: &str) -> (res: Result<Vec<InkRow>, GsError>)
    requires
        rows_numberable(output@),
    ensures
        match coverage_rows(output@) {
            None => res matches Err(GsError::Parse),
            Some(fields) => if fields.len() == 0 {
                res matches Err(GsError::MissingCoverage)
            } else {
                res matches Ok(rows) && rows_are(rows@, fields)
            },
        },
{
    let chars = chars_of(output);
    let lines = split_bounds(&chars, '\n');
    let ghost all_lines = split_on(chars@, '\n');
    let mut rows: Vec<InkRow> = Vec::new();
    let mut j: usize = 0;
    proof {
        assert(all_lines.take(0) =~= Seq::<Seq<char>>::empty());
    }
    while j < lines.len()
        invariant
            j <= lines@.len(),
            pieces(chars@, lines@) == all_lines,
            all_lines == split_on(chars@, '\n'),
            chars@ == output@,
            rows_numberable(chars@),
            crate::text::bounds_within(lines@, chars@.len()),
            scan_rows(all_lines.take(j as int)) matches Some(f) && rows_are(rows@, f),
            rows@.len() <= j,
        decreases lines.len() - j,
    {
        let ghost prev = all_lines.take(j as int);
        let ghost f = scan_rows(prev)->0;
        assert(all_lines.take(j + 1).drop_last() =~= prev);
        assert(all_lines.take(j + 1).last() == chars@.subrange(
            lines@[j as int].0 as int,
            lines@[j as int].1 as int,
        ));
        let (from, to) = lines[j];
        let (lo, hi) = trim_bounds(&chars, from, to);
        if ends_with_cmyk_ok(&chars, lo, hi) {
            let wb = word_bounds(&chars, lo, hi);
            if wb.len() < 6 {
                assert(scan_rows(all_lines.take(j + 1)) is None);
                proof {
                    lemma_scan_none_stays(all_lines, j as int + 1);
                }
                assert(all_lines.take(all_lines.len() as int) =~= all_lines);
                return Err(GsError::Parse);
            }
            let ghost w = words(chars@.subrange(lo as int, hi as int));
            let c = string_from_range(&chars, wb[0].0, wb[0].1);
            let m = string_from_range(&chars, wb[1].0, wb[1].1);
            let y = string_from_range(&chars, wb[2].0, wb[2].1);
            let k = string_from_range(&chars, wb[3].0, wb[3].1);
            assert(c@ == w.take(4)[0] && m@ == w.take(4)[1]);
            assert(y@ == w.take(4)[2] && k@ == w.take(4)[3]);
            let ghost before = rows@;
            assert(scan_rows(all_lines.take(j + 1)) == Some(f.push(w.take(4))));
            let page = (rows.len() + 1) as u32;
            rows.push(InkRow { page, c, m, y, k });
            assert(rows_are(rows@, f.push(w.take(4)))) by {
                assert forall|q: int| 0 <= q < rows@.len() implies row_is(
                    #[trigger] rows@[q],
                    q + 1,
                    f.push(w.take(4))[q],
                ) by {
                    if q < before.len() {
                        assert(rows@[q] == before[q]);
                    }
                }
            }
        }
        j = j + 1;
    }
    assert(all_lines.take(j as int) =~= all_lines);
    if rows.len() == 0 {
        Err(GsError::MissingCoverage)
    } else {
        Ok(rows)
    }
}

proof fn lemma_scan_none_stays(lines: Seq<Seq<char>>, n: int)
    requires
        0 <= n <= lines.len(),
        scan_rows(lines.take(n)) is None,
    ensures
        scan_rows(lines) is None,
    decreases lines.len() - n,
{
    if n < lines.len() {
        assert(lines.take(n + 1).drop_last() =~= lines.take(n));
        lemma_scan_none_stays(lines, n + 1);
    } else {
        assert(lines.take(n) =~= lines);
    }
}

/// The version that `gs --version` reports: its trimmed output when the
/// process succeeded, `unknown` otherwise.
pub fn version_text(succeeded: bool, stdout: &str) -> (v: String)
    ensures
        succeeded ==> v@ == trim(stdout@),
        !succeeded ==> v@ == "unknown"@,
{
    if succeeded {
        let chars = chars_of(stdout);
        let (lo, hi) = trim_bounds(&chars, 0, chars.len());
        assert(chars@.subrange(0, chars@.len() as int) =~= chars@);
        string_from_range(&chars, lo, hi)
    } else {
        "unknown".to_owned()
    }
}

} // verus!
