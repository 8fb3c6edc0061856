//! Building results tables: rows of display strings with computed column
//! widths, ready for the surrounding program to print.

use vstd::prelude::*;

use crate::options::AocOption;
use crate::result::{AocResult, AocYear};
use crate::Parts;

verus! {

/// A value that can lay itself out as a results table.
pub trait Table {
    /// The full table, with timing columns.
    fn table_constructor(&self) -> (r: TableStruct)
        ensures
            r.wf(),
    ;

    /// The table without timing columns.
    fn reduced_table_constructor(&self) -> (r: TableStruct)
        ensures
            r.wf(),
    ;
}

/// A laid-out table: rows of cells, the first row the header, and the
/// width of each column.
pub struct TableStruct {
    contents: Vec<Vec<String>>,
    cell_widths: Vec<usize>,
    width: usize,
    height: usize,
}

/// The widest cell of column `x` among the rows.
pub open spec fn spec_col_width(rows: Seq<Vec<String>>, x: int) -> int
    decreases rows.len(),
{
    if rows.len() == 0 {
        0
    } else {
        let rest = spec_col_width(rows.drop_last(), x);
        let last = if 0 <= x < rows.last()@.len() {
            rows.last()@[x]@.len() as int
        } else {
            0
        };
        if last > rest {
            last
        } else {
            rest
        }
    }
}

impl TableStruct {
    /// The rows.
    pub closed spec fn spec_contents(self) -> Seq<Vec<String>> {
        self.contents@
    }

    /// The column widths.
    pub closed spec fn spec_cell_widths(self) -> Seq<usize> {
        self.cell_widths@
    }

    /// Rows are nonempty and at least as wide as the header, and each
    /// column's width is the width of its widest cell.
    pub open spec fn wf(self) -> bool {
        &&& self.spec_contents().len() > 0
        &&& self.spec_contents().len() == self.spec_height()
        &&& self.spec_width() == self.spec_contents()[0]@.len()
        &&& forall|y: int|
            0 <= y < self.spec_contents().len() ==> (#[trigger] self.spec_contents()[y])@.len()
                >= self.spec_width()
        &&& self.spec_cell_widths().len() == self.spec_width()
        &&& forall|x: int|
            0 <= x < self.spec_width() ==> #[trigger] self.spec_cell_widths()[x]
                == spec_col_width(self.spec_contents(), x)
    }

    /// The number of columns.
    pub closed spec fn spec_width(self) -> int {
        self.width as int
    }

    /// The number of rows.
    pub closed spec fn spec_height(self) -> int {
        self.height as int
    }

    /// The rows, for rendering.
    pub fn contents(&self) -> (r: &Vec<Vec<String>>)
        ensures
            r@ == self.spec_contents(),
    {
        &self.contents
    }

    /// The column widths, for rendering.
    pub fn cell_widths(&self) -> (r: &Vec<usize>)
        ensures
            r@ == self.spec_cell_widths(),
    {
        &self.cell_widths
    }

    /// Lays out rows of cells: the first row sets the column count and the
    /// column widths are the widths of the widest cells. Every row must be
    /// at least as wide as the first; surplus cells are kept but get no
    /// column of their own.
    pub fn new(contents: Vec<Vec<String>>) -> (r: TableStruct)
        requires
            contents@.len() > 0,
            forall|y: int|
                0 <= y < contents@.len() ==> (#[trigger] contents@[y])@.len()
                    >= contents@[0]@.len(),
        ensures
            r.wf(),
            r.spec_contents() == contents@,
            r.spec_height() == contents@.len(),
            r.spec_width() == contents@[0]@.len(),
    {
        let width = contents[0].len();
        let height = contents.len();
        let mut cell_widths: Vec<usize> = Vec::new();
        let mut x: usize = 0;
        while x < width
            invariant
                x <= width,
                width == contents@[0]@.len(),
                contents@.len() > 0,
                forall|y: int|
                    0 <= y < contents@.len() ==> (#[trigger] contents@[y])@.len() >= width,
                cell_widths@.len() == x,
                forall|k: int|
                    0 <= k < x ==> #[trigger] cell_widths@[k] == spec_col_width(
                        contents@,
                        k,
                    ),
            decreases width - x,
        {
            let mut width_max: usize = 0;
            let mut y: usize = 0;
            while y < contents.len()
                invariant
                    y <= contents@.len(),
                    x < width,
                    width == contents@[0]@.len(),
                    forall|k: int|
                        0 <= k < contents@.len() ==> (#[trigger] contents@[k])@.len() >= width,
                    width_max == spec_col_width(contents@.take(y as int), x as int),
                decreases contents@.len() - y,
            {
                proof {
                    assert(contents@.take(y + 1).drop_last() =~= contents@.take(y as int));
                    assert(contents@.take(y + 1).last() == contents@[y as int]);
                }
                let w = contents[y][x].as_str().unicode_len();
                if w > width_max {
                    width_max = w;
                }
                y = y + 1;
            }
            proof {
                assert(contents@.take(contents@.len() as int) =~= contents@);
            }
            cell_widths.push(width_max);
            x = x + 1;
        }
        TableStruct { contents, cell_widths, width, height }
    }

    /// A cell padded with spaces to the column width, centred, any surplus
    /// space going to the right.
    pub fn pad_center(s: &String, w: usize) -> (r: String)
        requires
            s@.len() <= w,
        ensures
            r@.len() == w,
            r@ == spec_spaces(((w - s@.len()) / 2) as nat) + s@ + spec_spaces(
                (w - s@.len() - (w - s@.len()) / 2) as nat,
            ),
    {
        let len = s.as_str().unicode_len();
        let pad = w - len;
        let left = pad / 2;
        let right = pad - left;
        let mut r = spaces(left);
        r.append(s.as_str());
        let tail = spaces(right);
        r.append(tail.as_str());
        r
    }
}

/// A run of spaces.
pub open spec fn spec_spaces(n: nat) -> Seq<char>
    decreases n,
{
    if n == 0 {
        Seq::empty()
    } else {
        spec_spaces((n - 1) as nat).push(' ')
    }
}

/// Builds a run of spaces.
fn spaces(n: usize) -> (r: String)
    ensures
        r@ == spec_spaces(n as nat),
        r@.len() == n,
{
    let mut r = String::new();
    let mut i: usize = 0;
    proof {
        lemma_spaces_len(n as nat);
    }
    while i < n
        invariant
            i <= n,
            r@ == spec_spaces(i as nat),
            r@.len() == i,
        decreases n - i,
    {
        r.append(" ");
        proof {
            reveal_strlit(" ");
            assert(r@ =~= spec_spaces(i as nat).push(' '));
        }
        i = i + 1;
    }
    r
}

/// A run of `n` spaces has `n` characters.
proof fn lemma_spaces_len(n: nat)
    ensures
        spec_spaces(n).len() == n,
    decreases n,
{
    if n > 0 {
        lemma_spaces_len((n - 1) as nat);
    }
}

/// The outcome cell shown for a looked-up entry: the entry's outcome, or
/// `None` when the key has no entry.
pub open spec fn spec_outcome_cell(entry: Option<AocResult>) -> Seq<char> {
    match entry {
        Some(e) => crate::options::spec_outcome_display(e.result@),
        None => "None"@,
    }
}

/// The timing cell shown for a looked-up entry: the entry's mean time, or
/// `None` when the key has no entry.
pub open spec fn spec_time_cell(entry: Option<AocResult>) -> Seq<char> {
    match entry {
        Some(e) => crate::result::spec_duration_display(e.time.duration@),
        None => "None"@,
    }
}

/// The cell views of a result's full row: day, part, outcome, mean time.
pub open spec fn spec_result_row(e: AocResult) -> Seq<Seq<char>> {
    seq![
        crate::decimal::spec_u64_string(e.day as nat),
        e.part.spec_display(),
        crate::options::spec_outcome_display(e.result@),
        crate::result::spec_duration_display(e.time.duration@),
    ]
}

/// The cell views of a result's row without the timing column.
pub open spec fn spec_result_row_reduced(e: AocResult) -> Seq<Seq<char>> {
    seq![
        crate::decimal::spec_u64_string(e.day as nat),
        e.part.spec_display(),
        crate::options::spec_outcome_display(e.result@),
    ]
}

/// The cell views of a year report's row for one day.
pub open spec fn spec_year_row(entries: Seq<AocResult>, day: u8) -> Seq<Seq<char>> {
    seq![
        crate::decimal::spec_u64_string(day as nat),
        spec_outcome_cell(crate::result::spec_lookup(entries, day, Parts::Part1)),
        spec_outcome_cell(crate::result::spec_lookup(entries, day, Parts::Part2)),
        spec_time_cell(crate::result::spec_lookup(entries, day, Parts::Part1)),
        spec_time_cell(crate::result::spec_lookup(entries, day, Parts::Part2)),
    ]
}

/// The cell views of a year report's row without the timing columns.
pub open spec fn spec_year_row_reduced(entries: Seq<AocResult>, day: u8) -> Seq<Seq<char>> {
    seq![
        crate::decimal::spec_u64_string(day as nat),
        spec_outcome_cell(crate::result::spec_lookup(entries, day, Parts::Part1)),
        spec_outcome_cell(crate::result::spec_lookup(entries, day, Parts::Part2)),
    ]
}

/// The display cell of an outcome that may be missing.
fn outcome_cell(outcome: Option<&AocOption>) -> (r: String)
    ensures
        match outcome {
            Some(o) => r@ == crate::options::spec_outcome_display(o@),
            None => r@ == "None"@,
        },
{
    match outcome {
        Some(o) => o.to_display_string(),
        None => String::from_str("None"),
    }
}

/// The full row of one result.
fn result_row(result: &AocResult) -> (r: Vec<String>)
    ensures
        r@.len() == 4,
        r@.map_values(|c: String| c@) == spec_result_row(*result),
{
    let mut row: Vec<String> = Vec::new();
    row.push(crate::decimal::u8_to_string(result.day));
    row.push(result.part.to_display_string());
    row.push(result.result.to_display_string());
    row.push(result.time.display_string());
    proof {
        assert(row@.map_values(|c: String| c@) =~= spec_result_row(*result));
    }
    row
}

/// The reduced row of one result.
fn result_row_reduced(result: &AocResult) -> (r: Vec<String>)
    ensures
        r@.len() == 3,
        r@.map_values(|c: String| c@) == spec_result_row_reduced(*result),
{
    let mut row: Vec<String> = Vec::new();
    row.push(crate::decimal::u8_to_string(result.day));
    row.push(result.part.to_display_string());
    row.push(result.result.to_display_string());
    proof {
        assert(row@.map_values(|c: String| c@) =~= spec_result_row_reduced(*result));
    }
    row
}

impl Table for AocResult {
    /// One result as a table: day, part, outcome and mean time.
    fn table_constructor(&self) -> (r: TableStruct)
        ensures
            r.spec_height() == 2,
            r.spec_width() == 4,
            r.spec_contents()[0]@.map_values(|c: String| c@) == seq![
                "Day"@,
                "Part"@,
                "Result"@,
                "Avg. Time"@,
            ],
            r.spec_contents()[1]@.map_values(|c: String| c@) == spec_result_row(*self),
    {
        let mut header: Vec<String> = Vec::new();
        header.push(String::from_str("Day"));
        header.push(String::from_str("Part"));
        header.push(String::from_str("Result"));
        header.push(String::from_str("Avg. Time"));
        let row = result_row(self);
        let ghost h = header@;
        let ghost rw = row@;
        proof {
            assert(h.map_values(|c: String| c@) =~= seq!["Day"@, "Part"@, "Result"@, "Avg. Time"@]);
        }
        let mut contents: Vec<Vec<String>> = Vec::new();
        contents.push(header);
        contents.push(row);
        proof {
            assert(contents@[0]@ == h && contents@[1]@ == rw);
            assert(rw.len() == 4);
        }
        TableStruct::new(contents)
    }

    /// One result as a table without the timing column.
    fn reduced_table_constructor(&self) -> (r: TableStruct)
        ensures
            r.spec_height() == 2,
            r.spec_width() == 3,
            r.spec_contents()[0]@.map_values(|c: String| c@) == seq!["Day"@, "Part"@, "Result"@],
            r.spec_contents()[1]@.map_values(|c: String| c@) == spec_result_row_reduced(*self),
    {
        let mut header: Vec<String> = Vec::new();
        header.push(String::from_str("Day"));
        header.push(String::from_str("Part"));
        header.push(String::from_str("Result"));
        let row = result_row_reduced(self);
        let ghost h = header@;
        let ghost rw = row@;
        proof {
            assert(h.map_values(|c: String| c@) =~= seq!["Day"@, "Part"@, "Result"@]);
        }
        let mut contents: Vec<Vec<String>> = Vec::new();
        contents.push(header);
        contents.push(row);
        proof {
            assert(contents@[0]@ == h && contents@[1]@ == rw);
            assert(rw.len() == 3);
        }
        TableStruct::new(contents)
    }
}

impl Table for Vec<AocResult> {
    /// A list of results as a table, one row each, in the list's order.
    fn table_constructor(&self) -> (r: TableStruct)
        ensures
            r.spec_height() == 1 + self@.len(),
            r.spec_width() == 4,
            r.spec_contents()[0]@.map_values(|c: String| c@) == seq![
                "Day"@,
                "Part"@,
                "Result"@,
                "Avg. Time"@,
            ],
            forall|k: int|
                0 <= k < self@.len() ==> (#[trigger] r.spec_contents()[k + 1])@.map_values(
                    |c: String| c@,
                ) == spec_result_row(self@[k]),
    {
        let mut header: Vec<String> = Vec::new();
        header.push(String::from_str("Day"));
        header.push(String::from_str("Part"));
        header.push(String::from_str("Result"));
        header.push(String::from_str("Avg. Time"));
        let ghost h = header@;
        proof {
            assert(h.map_values(|c: String| c@) =~= seq!["Day"@, "Part"@, "Result"@, "Avg. Time"@]);
        }
        let mut contents: Vec<Vec<String>> = Vec::new();
        contents.push(header);
        let mut i: usize = 0;
        while i < self.len()
            invariant
                i <= self@.len(),
                contents@.len() == i + 1,
                contents@[0]@ == h,
                h.len() == 4,
                h.map_values(|c: String| c@) == seq!["Day"@, "Part"@, "Result"@, "Avg. Time"@],
                forall|y: int| 0 <= y < contents@.len() ==> (#[trigger] contents@[y])@.len() == 4,
                forall|k: int|
                    0 <= k < i ==> (#[trigger] contents@[k + 1])@.map_values(|c: String| c@)
                        == spec_result_row(self@[k]),
            decreases self@.len() - i,
        {
            let row = result_row(&self[i]);
            let ghost rw = row@;
            contents.push(row);
            proof {
                assert(contents@.last()@ == rw && rw.len() == 4);
            }
            i = i + 1;
        }
        TableStruct::new(contents)
    }

    /// A list of results as a table without the timing column.
    fn reduced_table_constructor(&self) -> (r: TableStruct)
        ensures
            r.spec_height() == 1 + self@.len(),
            r.spec_width() == 3,
            r.spec_contents()[0]@.map_values(|c: String| c@) == seq!["Day"@, "Part"@, "Result"@],
            forall|k: int|
                0 <= k < self@.len() ==> (#[trigger] r.spec_contents()[k + 1])@.map_values(
                    |c: String| c@,
                ) == spec_result_row_reduced(self@[k]),
    {
        let mut header: Vec<String> = Vec::new();
        header.push(String::from_str("Day"));
        header.push(String::from_str("Part"));
        header.push(String::from_str("Result"));
        let ghost h = header@;
        proof {
            assert(h.map_values(|c: String| c@) =~= seq!["Day"@, "Part"@, "Result"@]);
        }
        let mut contents: Vec<Vec<String>> = Vec::new();
        contents.push(header);
        let mut i: usize = 0;
        while i < self.len()
            invariant
                i <= self@.len(),
                contents@.len() == i + 1,
                contents@[0]@ == h,
                h.len() == 3,
                h.map_values(|c: String| c@) == seq!["Day"@, "Part"@, "Result"@],
                forall|y: int| 0 <= y < contents@.len() ==> (#[trigger] contents@[y])@.len() == 3,
                forall|k: int|
                    0 <= k < i ==> (#[trigger] contents@[k + 1])@.map_values(|c: String| c@)
                        == spec_result_row_reduced(self@[k]),
            decreases self@.len() - i,
        {
            let row = result_row_reduced(&self[i]);
            let ghost rw = row@;
            contents.push(row);
            proof {
                assert(contents@.last()@ == rw && rw.len() == 3);
            }
            i = i + 1;
        }
        TableStruct::new(contents)
    }
}

/// The full row of one day of a year report.
fn year_row(year: &AocYear, day: u8) -> (r: Vec<String>)
    ensures
        r@.len() == 5,
        r@.map_values(|c: String| c@) == spec_year_row(year.spec_entries(), day),
{
    let part1 = year.get(day, Parts::Part1);
    let part2 = year.get(day, Parts::Part2);
    let mut row: Vec<String> = Vec::new();
    row.push(crate::decimal::u8_to_string(day));
    row.push(
        outcome_cell(
            match part1 {
                Some(e) => Some(e.result()),
                None => None,
            },
        ),
    );
    row.push(
        outcome_cell(
            match part2 {
                Some(e) => Some(e.result()),
                None => None,
            },
        ),
    );
    row.push(
        match part1 {
            Some(e) => e.time.display_string(),
            None => String::from_str("None"),
        },
    );
    row.push(
        match part2 {
            Some(e) => e.time.display_string(),
            None => String::from_str("None"),
        },
    );
    proof {
        assert(row@.map_values(|c: String| c@) =~= spec_year_row(year.spec_entries(), day));
    }
    row
}

/// The reduced row of one day of a year report.
fn year_row_reduced(year: &AocYear, day: u8) -> (r: Vec<String>)
    ensures
        r@.len() == 3,
        r@.map_values(|c: String| c@) == spec_year_row_reduced(year.spec_entries(), day),
{
    let part1 = year.get(day, Parts::Part1);
    let part2 = year.get(day, Parts::Part2);
    let mut row: Vec<String> = Vec::new();
    row.push(crate::decimal::u8_to_string(day));
    row.push(
        outcome_cell(
            match part1 {
                Some(e) => Some(e.result()),
                None => None,
            },
        ),
    );
    row.push(
        outcome_cell(
            match part2 {
                Some(e) => Some(e.result()),
                None => None,
            },
        ),
    );
    proof {
        assert(row@.map_values(|c: String| c@) =~= spec_year_row_reduced(year.spec_entries(), day));
    }
    row
}

impl Table for AocYear {
    /// The year's report: per present day, in increasing order, both parts'
    /// outcomes and mean times.
    fn table_constructor(&self) -> (r: TableStruct)
        ensures
            r.spec_height() == 1 + self.spec_available_days().len(),
            r.spec_width() == 5,
            r.spec_contents()[0]@.map_values(|c: String| c@) == seq![
                "Day"@,
                "Part 1"@,
                "Part 2"@,
                "Avg. Time 1"@,
                "Avg. Time 2"@,
            ],
            forall|m: int|
                0 <= m < self.spec_available_days().len() ==> (#[trigger] r.spec_contents()[m
                    + 1])@.map_values(|c: String| c@) == spec_year_row(
                    self.spec_entries(),
                    self.spec_available_days()[m],
                ),
    {
        let mut header: Vec<String> = Vec::new();
        header.push(String::from_str("Day"));
        header.push(String::from_str("Part 1"));
        header.push(String::from_str("Part 2"));
        header.push(String::from_str("Avg. Time 1"));
        header.push(String::from_str("Avg. Time 2"));
        let ghost h = header@;
        proof {
            assert(h.map_values(|c: String| c@) =~= seq![
                "Day"@,
                "Part 1"@,
                "Part 2"@,
                "Avg. Time 1"@,
                "Avg. Time 2"@,
            ]);
        }
        let mut contents: Vec<Vec<String>> = Vec::new();
        contents.push(header);
        let n = self.available_days().len();
        let mut i: usize = 0;
        while i < n
            invariant
                i <= n,
                n == self.spec_available_days().len(),
                contents@.len() == i + 1,
                contents@[0]@ == h,
                h.len() == 5,
                h.map_values(|c: String| c@) == seq![
                    "Day"@,
                    "Part 1"@,
                    "Part 2"@,
                    "Avg. Time 1"@,
                    "Avg. Time 2"@,
                ],
                forall|y: int| 0 <= y < contents@.len() ==> (#[trigger] contents@[y])@.len() == 5,
                forall|m: int|
                    0 <= m < i ==> (#[trigger] contents@[m + 1])@.map_values(|c: String| c@)
                        == spec_year_row(self.spec_entries(), self.spec_available_days()[m]),
            decreases n - i,
        {
            let day = self.available_days()[i];
            let row = year_row(self, day);
            let ghost rw = row@;
            contents.push(row);
            proof {
                assert(contents@.last()@ == rw && rw.len() == 5);
            }
            i = i + 1;
        }
        TableStruct::new(contents)
    }

    /// The year's report without the timing columns.
    fn reduced_table_constructor(&self) -> (r: TableStruct)
        ensures
            r.spec_height() == 1 + self.spec_available_days().len(),
            r.spec_width() == 3,
            r.spec_contents()[0]@.map_values(|c: String| c@) == seq!["Day"@, "Part 1"@, "Part 2"@],
            forall|m: int|
                0 <= m < self.spec_available_days().len() ==> (#[trigger] r.spec_contents()[m
                    + 1])@.map_values(|c: String| c@) == spec_year_row_reduced(
                    self.spec_entries(),
                    self.spec_available_days()[m],
                ),
    {
        let mut header: Vec<String> = Vec::new();
        header.push(String::from_str("Day"));
        header.push(String::from_str("Part 1"));
        header.push(String::from_str("Part 2"));
        let ghost h = header@;
        proof {
            assert(h.map_values(|c: String| c@) =~= seq!["Day"@, "Part 1"@, "Part 2"@]);
        }
        let mut contents: Vec<Vec<String>> = Vec::new();
        contents.push(header);
        let n = self.available_days().len();
        let mut i: usize = 0;
        while i < n
            invariant
                i <= n,
                n == self.spec_available_days().len(),
                contents@.len() == i + 1,
                contents@[0]@ == h,
                h.len() == 3,
                h.map_values(|c: String| c@) == seq!["Day"@, "Part 1"@, "Part 2"@],
                forall|y: int| 0 <= y < contents@.len() ==> (#[trigger] contents@[y])@.len() == 3,
                forall|m: int|
                    0 <= m < i ==> (#[trigger] contents@[m + 1])@.map_values(|c: String| c@)
                        == spec_year_row_reduced(self.spec_entries(), self.spec_available_days()[m]),
            decreases n - i,
        {
            let day = self.available_days()[i];
            let row = year_row_reduced(self, day);
            let ghost rw = row@;
            contents.push(row);
            proof {
                assert(contents@.last()@ == rw && rw.len() == 3);
            }
            i = i + 1;
        }
        TableStruct::new(contents)
    }
}

} // verus!
