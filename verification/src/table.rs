use vstd::prelude::*;
use crate::error::RenderError;
use crate::text::{
    chars_of, is_space, is_whitespace, lemma_split_on_nonempty, slice_chars, split_chars,
    split_on, string_of, trim, trim_chars, views,
};

verus! {

/// Whether `c` may occur in a separator line: a pipe, a dash, a colon or
/// white space.
pub open spec fn is_rule_char(c: char) -> bool {
    c == '|' || c == '-' || c == ':' || is_whitespace(c)
}

/// Whether `line` is a separator line such as `|---|:--:|`: one that holds
/// nothing but pipes, dashes, colons and white space. The empty line is one.
pub open spec fn is_separator(line: Seq<char>) -> bool {
    forall|i: int| 0 <= i < line.len() ==> is_rule_char(#[trigger] line[i])
}

/// `line` without one leading and one trailing pipe, where it has them.
pub open spec fn strip_pipes(line: Seq<char>) -> Seq<char> {
    let rest = if line.len() > 0 && line.first() == '|' {
        line.drop_first()
    } else {
        line
    };
    if rest.len() > 0 && rest.last() == '|' {
        rest.drop_last()
    } else {
        rest
    }
}

/// Each piece of `parts`, trimmed.
pub open spec fn trim_each(parts: Seq<Seq<char>>) -> Seq<Seq<char>> {
    Seq::new(parts.len(), |i: int| trim(parts[i]))
}

/// The cells of one table line: the outer pipes are removed, the rest is
/// split at every pipe, and each cell is trimmed.
pub open spec fn row_cells(line: Seq<char>) -> Seq<Seq<char>> {
    trim_each(split_on(strip_pipes(line), '|'))
}

/// The lines of `lines` that carry cells, trimmed and in order: every line
/// that is not a separator once it is trimmed.
pub open spec fn content_lines(lines: Seq<Seq<char>>) -> Seq<Seq<char>>
    decreases lines.len(),
{
    if lines.len() == 0 {
        Seq::empty()
    } else {
        let before = content_lines(lines.drop_last());
        let line = trim(lines.last());
        if is_separator(line) {
            before
        } else {
            before.push(line)
        }
    }
}

/// The content lines of a whole text, which is cut at every line feed.
pub open spec fn table_lines(input: Seq<char>) -> Seq<Seq<char>> {
    content_lines(split_on(input, '\n'))
}

/// The header cells that `input` holds: the cells of its first content
/// line, or none where it has no content line.
pub open spec fn parsed_headers(input: Seq<char>) -> Seq<Seq<char>> {
    let lines = table_lines(input);
    if lines.len() == 0 {
        Seq::empty()
    } else {
        row_cells(lines[0])
    }
}

/// The data rows that `input` holds: the cells of every content line after
/// the first.
pub open spec fn parsed_rows(input: Seq<char>) -> Seq<Seq<Seq<char>>> {
    let lines = table_lines(input);
    if lines.len() == 0 {
        Seq::empty()
    } else {
        Seq::new((lines.len() - 1) as nat, |i: int| row_cells(lines[i + 1]))
    }
}

/// Tells whether `line` is a separator line.
pub fn is_separator_line(line: &Vec<char>) -> (b: bool)
    ensures
        b == is_separator(line@),
{
    let mut i: usize = 0;
    while i < line.len()
        invariant
            i <= line.len(),
            forall|k: int| 0 <= k < i ==> is_rule_char(#[trigger] line@[k]),
        decreases line.len() - i,
    {
        let c = line[i];
        if !(c == '|' || c == '-' || c == ':' || is_space(c)) {
            return false;
        }
        i += 1;
    }
    true
}

/// Removes one leading and one trailing pipe from `line`.
pub fn strip_outer_pipes(line: &Vec<char>) -> (rest: Vec<char>)
    ensures
        rest@ == strip_pipes(line@),
{
    let n = line.len();
    let lo: usize = if n > 0 && line[0] == '|' {
        1
    } else {
        0
    };
    let hi: usize = if n > lo && line[n - 1] == '|' {
        n - 1
    } else {
        n
    };
    proof {
        let rest = if n > 0 && line@.first() == '|' {
            line@.drop_first()
        } else {
            line@
        };
        assert(rest =~= line@.subrange(lo as int, n as int));
        if rest.len() > 0 && rest.last() == '|' {
            assert(rest.drop_last() =~= line@.subrange(lo as int, hi as int));
        }
    }
    slice_chars(line, lo, hi)
}

/// Cuts one trimmed table line into its cells.
pub fn split_row(line: &Vec<char>) -> (cells: Vec<String>)
    ensures
        cells.deep_view() == row_cells(line@),
        cells.len() >= 1,
{
    let inner = strip_outer_pipes(line);
    let parts = split_chars(&inner, '|');
    proof {
        lemma_split_on_nonempty(inner@, '|');
    }
    let mut cells: Vec<String> = Vec::new();
    let mut k: usize = 0;
    while k < parts.len()
        invariant
            k <= parts.len(),
            cells.len() == k,
            forall|j: int| 0 <= j < k ==> (#[trigger] cells@[j])@ == trim(parts@[j]@),
        decreases parts.len() - k,
    {
        let t = trim_chars(&parts[k]);
        cells.push(string_of(&t));
        k += 1;
    }
    proof {
        assert(views(parts@).len() == parts.len());
        assert(cells.deep_view() =~= row_cells(line@));
    }
    cells
}

/// Reads a pipe table. The text is cut into lines, each line is trimmed,
/// and separator lines (empty ones among them) are passed over. The first
/// line that is left gives the header cells, every later one a data row.
/// Where no line is left, both results are empty.
pub fn parse_table(input: &str) -> (parsed: (Vec<String>, Vec<Vec<String>>))
    ensures
        parsed.0.deep_view() == parsed_headers(input@),
        parsed.1.deep_view() == parsed_rows(input@),
{
    let text = chars_of(input);
    let lines = split_chars(&text, '\n');
    let mut headers: Vec<String> = Vec::new();
    let mut rows: Vec<Vec<String>> = Vec::new();
    let mut i: usize = 0;
    while i < lines.len()
        invariant
            i <= lines.len(),
            views(lines@) == split_on(input@, '\n'),
            ({
                let done = content_lines(views(lines@).take(i as int));
                if done.len() == 0 {
                    headers.len() == 0 && rows.len() == 0
                } else {
                    &&& headers.len() > 0
                    &&& headers.deep_view() == row_cells(done[0])
                    &&& rows.len() == done.len() - 1
                    &&& forall|k: int|
                        0 <= k < rows.len() ==> (#[trigger] rows@[k]).deep_view() == row_cells(
                            done[k + 1],
                        )
                }
            }),
        decreases lines.len() - i,
    {
        let line = trim_chars(&lines[i]);
        proof {
            let next = views(lines@).take(i + 1);
            assert(next.drop_last() =~= views(lines@).take(i as int));
            assert(next.last() == lines@[i as int]@);
        }
        if !is_separator_line(&line) {
            let cells = split_row(&line);
            if headers.len() == 0 {
                headers = cells;
            } else {
                rows.push(cells);
            }
        }
        i += 1;
    }
    proof {
        assert(views(lines@).take(i as int) =~= views(lines@));
        assert(parsed_rows(input@) =~= rows.deep_view());
    }
    (headers, rows)
}

/// A table: its header cells and its data rows. The number of header
/// cells is the number of columns. A row may have fewer cells than that,
/// and then its last columns are blank, or more, and then the cells
/// beyond the last column are never looked at.
#[derive(Clone, Debug)]
pub struct Table {
    pub headers: Vec<String>,
    pub rows: Vec<Vec<String>>,
}

/// What a `Table` stands for: the text of each cell.
pub struct TableView {
    pub headers: Seq<Seq<char>>,
    pub rows: Seq<Seq<Seq<char>>>,
}

impl View for Table {
    type V = TableView;

    open spec fn view(&self) -> TableView {
        TableView { headers: self.headers.deep_view(), rows: self.rows.deep_view() }
    }
}

impl Table {
    /// A table can be laid out when it has at least one column.
    pub open spec fn wf(&self) -> bool {
        self.headers.len() > 0
    }

    /// Reads a pipe table as `parse_table` does. Text without any line
    /// that carries cells holds no table.
    pub fn parse(input: &str) -> (r: Result<Table, RenderError>)
        ensures
            r is Ok <==> table_lines(input@).len() > 0,
            r is Err ==> r->Err_0 == RenderError::EmptyTable,
            r is Ok ==> r->Ok_0.wf() && r->Ok_0@ == (TableView {
                headers: parsed_headers(input@),
                rows: parsed_rows(input@),
            }),
    {
        let (headers, rows) = parse_table(input);
        proof {
            assert(headers.deep_view().len() == headers.len());
            if table_lines(input@).len() > 0 {
                let first = table_lines(input@)[0];
                lemma_split_on_nonempty(strip_pipes(first), '|');
                assert(row_cells(first).len() == split_on(strip_pipes(first), '|').len());
            }
        }
        if headers.len() == 0 {
            Err(RenderError::EmptyTable)
        } else {
            Ok(Table { headers, rows })
        }
    }
}

} // verus!
