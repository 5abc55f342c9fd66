use vstd::prelude::*;
use crate::table::{
    content_lines, is_rule_char, is_separator, parsed_headers, parsed_rows, row_cells,
    strip_pipes, table_lines, trim_each,
};
use crate::text::{is_whitespace, lemma_split_on_nonempty, split_on, trim, trim_end, trim_start};

verus! {

/// A cell as it may stand in a line of a pipe table: it holds no pipe and
/// no line feed.
pub open spec fn writable_cell(c: Seq<char>) -> bool {
    free_of(c, '|') && free_of(c, '\n')
}

/// A row as it may stand in a pipe table: it has a cell, its cells are
/// writable, and one of them holds a character that a separator line
/// cannot hold.
pub open spec fn writable_row(cells: Seq<Seq<char>>) -> bool {
    &&& cells.len() > 0
    &&& forall|j: int| 0 <= j < cells.len() ==> writable_cell(#[trigger] cells[j])
    &&& exists|j: int, k: int|
        0 <= j < cells.len() && 0 <= k < cells[j].len() && !is_rule_char(#[trigger] cells[j][k])
}

/// A cell that reads back as it is: it is writable and has no white space
/// at either end.
pub open spec fn plain_cell(c: Seq<char>) -> bool {
    &&& writable_cell(c)
    &&& c.len() > 0 ==> !is_whitespace(c.first()) && !is_whitespace(c.last())
}

/// A row that reads back as it is: it has a cell, its cells are plain,
/// and one of them holds a character that a separator line cannot hold.
pub open spec fn plain_row(cells: Seq<Seq<char>>) -> bool {
    &&& cells.len() > 0
    &&& forall|j: int| 0 <= j < cells.len() ==> plain_cell(#[trigger] cells[j])
    &&& exists|j: int, k: int|
        0 <= j < cells.len() && 0 <= k < cells[j].len() && !is_rule_char(#[trigger] cells[j][k])
}

/// A cell with one space on either side.
pub open spec fn padded(c: Seq<char>) -> Seq<char> {
    seq![' '] + c + seq![' ']
}

/// Each cell of a row with one space on either side.
pub open spec fn padded_row(cells: Seq<Seq<char>>) -> Seq<Seq<char>> {
    Seq::new(cells.len(), |j: int| padded(cells[j]))
}

/// Each cell of each row with one space on either side.
pub open spec fn padded_rows(rows: Seq<Seq<Seq<char>>>) -> Seq<Seq<Seq<char>>> {
    Seq::new(rows.len(), |i: int| padded_row(rows[i]))
}

/// Each cell of each row, trimmed.
pub open spec fn trimmed_rows(rows: Seq<Seq<Seq<char>>>) -> Seq<Seq<Seq<char>>> {
    Seq::new(rows.len(), |i: int| trim_each(rows[i]))
}

/// The cells as they are, with a pipe between each two.
pub open spec fn joined_cells(cells: Seq<Seq<char>>) -> Seq<char>
    decreases cells.len(),
{
    if cells.len() == 0 {
        Seq::empty()
    } else if cells.len() == 1 {
        cells[0]
    } else {
        joined_cells(cells.drop_last()) + seq!['|'] + cells.last()
    }
}

/// One line of a pipe table: `|a|b|` for the cells `a` and `b`, and
/// `| a | b |` for the same cells padded.
pub open spec fn written_row(cells: Seq<Seq<char>>) -> Seq<char> {
    seq!['|'] + joined_cells(cells) + seq!['|']
}

/// The lines with a line feed between each two.
pub open spec fn joined_lines(lines: Seq<Seq<char>>) -> Seq<char>
    decreases lines.len(),
{
    if lines.len() == 0 {
        Seq::empty()
    } else if lines.len() == 1 {
        lines[0]
    } else {
        joined_lines(lines.drop_last()) + seq!['\n'] + lines.last()
    }
}

/// The line of each row.
pub open spec fn written_rows(rows: Seq<Seq<Seq<char>>>) -> Seq<Seq<char>> {
    Seq::new(rows.len(), |i: int| written_row(rows[i]))
}

/// The lines of a pipe table: the header line, the line `rule` under it,
/// and one line for each row.
pub open spec fn table_text_lines(
    headers: Seq<Seq<char>>,
    rule: Seq<char>,
    rows: Seq<Seq<Seq<char>>>,
) -> Seq<Seq<char>> {
    seq![written_row(headers), rule] + written_rows(rows)
}

/// The text of a pipe table.
pub open spec fn written_table(
    headers: Seq<Seq<char>>,
    rule: Seq<char>,
    rows: Seq<Seq<Seq<char>>>,
) -> Seq<char> {
    joined_lines(table_text_lines(headers, rule, rows))
}

/// Whether `s` holds no `c`.
pub open spec fn free_of(s: Seq<char>, c: char) -> bool {
    forall|k: int| 0 <= k < s.len() ==> #[trigger] s[k] != c
}

/// Text without the separator, put after `x`, lengthens the last piece of
/// `x`.
pub proof fn lemma_split_append(x: Seq<char>, b: Seq<char>, sep: char)
    requires
        free_of(b, sep),
    ensures
        split_on(x + b, sep) == split_on(x, sep).drop_last().push(split_on(x, sep).last() + b),
    decreases b.len(),
{
    let q = split_on(x, sep);
    lemma_split_on_nonempty(x, sep);
    if b.len() == 0 {
        assert(x + b =~= x);
        assert(q.last() + b =~= q.last());
        assert(q.drop_last().push(q.last()) =~= q);
    } else {
        let shorter = b.drop_last();
        lemma_split_append(x, shorter, sep);
        assert((x + b).drop_last() =~= x + shorter);
        assert((x + b).last() == b.last());
        let p = split_on(x + shorter, sep);
        assert(p.drop_last() =~= q.drop_last());
        assert(p.last().push(b.last()) =~= q.last() + b);
    }
}

/// Text without the separator, put after `a` and a separator, is one more
/// piece.
pub proof fn lemma_split_after_separator(a: Seq<char>, b: Seq<char>, sep: char)
    requires
        free_of(b, sep),
    ensures
        split_on(a + seq![sep] + b, sep) == split_on(a, sep).push(b),
{
    let x = a + seq![sep];
    assert(x.drop_last() =~= a);
    assert(x.last() == sep);
    lemma_split_append(x, b, sep);
    let q = split_on(x, sep);
    assert(q.drop_last() =~= split_on(a, sep));
    assert(q.last() + b =~= b);
}

/// Text without the separator is one piece.
pub proof fn lemma_split_whole(b: Seq<char>, sep: char)
    requires
        free_of(b, sep),
    ensures
        split_on(b, sep) == seq![b],
{
    let x = Seq::<char>::empty();
    lemma_split_append(x, b, sep);
    assert(x + b =~= b);
    let q = split_on(x, sep);
    assert(q.last() + b =~= b);
    assert(q.drop_last().push(b) =~= seq![b]);
}

/// Joined lines split into the lines that were joined.
pub proof fn lemma_split_joined_lines(lines: Seq<Seq<char>>)
    requires
        lines.len() > 0,
        forall|i: int| 0 <= i < lines.len() ==> free_of(#[trigger] lines[i], '\n'),
    ensures
        split_on(joined_lines(lines), '\n') == lines,
    decreases lines.len(),
{
    if lines.len() == 1 {
        lemma_split_whole(lines[0], '\n');
        assert(seq![lines[0]] =~= lines);
    } else {
        let before = lines.drop_last();
        assert forall|i: int| 0 <= i < before.len() implies free_of(#[trigger] before[i], '\n') by {
            assert(before[i] == lines[i]);
        }
        lemma_split_joined_lines(before);
        assert(free_of(lines[lines.len() - 1], '\n'));
        lemma_split_after_separator(joined_lines(before), lines.last(), '\n');
        assert(before.push(lines.last()) =~= lines);
    }
}

/// Joined cells split into the cells.
pub proof fn lemma_split_joined_cells(cells: Seq<Seq<char>>)
    requires
        cells.len() > 0,
        forall|j: int| 0 <= j < cells.len() ==> writable_cell(#[trigger] cells[j]),
    ensures
        split_on(joined_cells(cells), '|') == cells,
        free_of(joined_cells(cells), '\n'),
    decreases cells.len(),
{
    if cells.len() == 1 {
        assert(writable_cell(cells[0]));
        lemma_split_whole(cells[0], '|');
        assert(seq![cells[0]] =~= cells);
    } else {
        let before = cells.drop_last();
        assert forall|j: int| 0 <= j < before.len() implies writable_cell(#[trigger] before[j]) by {
            assert(before[j] == cells[j]);
        }
        lemma_split_joined_cells(before);
        assert(writable_cell(cells[cells.len() - 1]));
        lemma_split_after_separator(joined_cells(before), cells.last(), '|');
        assert(before.push(cells.last()) =~= cells);
    }
}

/// Every character of every cell is among the joined cells.
pub proof fn lemma_joined_cells_hold(cells: Seq<Seq<char>>, j: int, k: int) -> (p: int)
    requires
        0 <= j < cells.len(),
        0 <= k < cells[j].len(),
    ensures
        0 <= p < joined_cells(cells).len(),
        joined_cells(cells)[p] == cells[j][k],
    decreases cells.len(),
{
    if cells.len() == 1 {
        k
    } else if j == cells.len() - 1 {
        joined_cells(cells.drop_last()).len() + 1 + k
    } else {
        lemma_joined_cells_hold(cells.drop_last(), j, k)
    }
}

/// The line of a row reads as the cells of the row, each trimmed.
pub proof fn lemma_row_reads(cells: Seq<Seq<char>>)
    requires
        cells.len() > 0,
        forall|j: int| 0 <= j < cells.len() ==> writable_cell(#[trigger] cells[j]),
    ensures
        row_cells(written_row(cells)) == trim_each(cells),
{
    let inner = joined_cells(cells);
    let line = written_row(cells);
    assert(line.first() == '|');
    assert(line.drop_first() =~= inner + seq!['|']);
    assert((inner + seq!['|']).last() == '|');
    assert((inner + seq!['|']).drop_last() =~= inner);
    assert(strip_pipes(line) == inner);
    lemma_split_joined_cells(cells);
}

/// The line of a writable row is a content line as it stands: trimming
/// leaves it alone, it is no separator, and it holds no line feed.
pub proof fn lemma_row_is_content(cells: Seq<Seq<char>>)
    requires
        writable_row(cells),
    ensures
        trim(written_row(cells)) == written_row(cells),
        !is_separator(written_row(cells)),
        free_of(written_row(cells), '\n'),
{
    let inner = joined_cells(cells);
    let line = written_row(cells);
    assert(line.first() == '|');
    assert(line.last() == '|');
    assert(!is_whitespace('|'));
    lemma_split_joined_cells(cells);
    assert forall|p: int| 0 <= p < line.len() implies #[trigger] line[p] != '\n' by {
        if 1 <= p <= inner.len() {
            assert(line[p] == inner[p - 1]);
        }
    }
    let (j, k) = choose|j: int, k: int|
        0 <= j < cells.len() && 0 <= k < cells[j].len() && !is_rule_char(#[trigger] cells[j][k]);
    let p = lemma_joined_cells_hold(cells, j, k);
    assert(line[p + 1] == inner[p]);
    assert(!is_rule_char(line[p + 1]));
}

/// Of the lines of a written table, the header line and the row lines are
/// the content lines.
pub proof fn lemma_content_of_written(
    headers: Seq<Seq<char>>,
    rule: Seq<char>,
    rows: Seq<Seq<Seq<char>>>,
    n: int,
)
    requires
        writable_row(headers),
        is_separator(trim(rule)),
        forall|i: int| 0 <= i < rows.len() ==> writable_row(#[trigger] rows[i]),
        0 <= n <= rows.len(),
    ensures
        content_lines(seq![written_row(headers), rule] + written_rows(rows).take(n)) == seq![
            written_row(headers),
        ] + written_rows(rows).take(n),
    decreases n,
{
    let top = seq![written_row(headers), rule];
    let lines = top + written_rows(rows).take(n);
    if n == 0 {
        assert(lines =~= top);
        assert(top.drop_last() =~= seq![written_row(headers)]);
        assert(seq![written_row(headers)].drop_last() =~= Seq::<Seq<char>>::empty());
        lemma_row_is_content(headers);
        let one = seq![written_row(headers)];
        let none = Seq::<Seq<char>>::empty();
        assert(one.last() == written_row(headers));
        assert(content_lines(none) =~= none);
        assert(content_lines(one.drop_last()) =~= none);
        assert(content_lines(one) == content_lines(one.drop_last()).push(written_row(headers)));
        assert(content_lines(one) =~= one);
        assert(content_lines(top) == content_lines(top.drop_last()));
        assert(seq![written_row(headers)] + written_rows(rows).take(0) =~= seq![
            written_row(headers),
        ]);
    } else {
        lemma_content_of_written(headers, rule, rows, n - 1);
        assert(lines.drop_last() =~= top + written_rows(rows).take(n - 1));
        assert(lines.last() == written_row(rows[n - 1]));
        lemma_row_is_content(rows[n - 1]);
        assert((seq![written_row(headers)] + written_rows(rows).take(n - 1)).push(
            written_row(rows[n - 1]),
        ) =~= seq![written_row(headers)] + written_rows(rows).take(n));
    }
}

/// A pipe table parses to its cells, trimmed. Where the header row and
/// every data row have a cell, no cell holds a pipe or a line feed, each
/// row holds more than a separator line may, and the line under the
/// header is a separator line, the text parses to the header cells and
/// the rows as they were written, each cell without the white space
/// round it: as many header cells, as many rows, and the separator line
/// in neither.
pub proof fn lemma_written_table_parses(
    headers: Seq<Seq<char>>,
    rule: Seq<char>,
    rows: Seq<Seq<Seq<char>>>,
)
    requires
        writable_row(headers),
        is_separator(trim(rule)),
        free_of(rule, '\n'),
        forall|i: int| 0 <= i < rows.len() ==> writable_row(#[trigger] rows[i]),
    ensures
        parsed_headers(written_table(headers, rule, rows)) == trim_each(headers),
        parsed_rows(written_table(headers, rule, rows)) == trimmed_rows(rows),
        parsed_headers(written_table(headers, rule, rows)).len() == headers.len(),
        parsed_rows(written_table(headers, rule, rows)).len() == rows.len(),
{
    let lines = table_text_lines(headers, rule, rows);
    let text = written_table(headers, rule, rows);
    lemma_row_is_content(headers);
    assert forall|i: int| 0 <= i < lines.len() implies free_of(#[trigger] lines[i], '\n') by {
        if i >= 2 {
            assert(lines[i] == written_row(rows[i - 2]));
            lemma_row_is_content(rows[i - 2]);
        }
    }
    lemma_split_joined_lines(lines);
    lemma_content_of_written(headers, rule, rows, rows.len() as int);
    assert(written_rows(rows).take(rows.len() as int) =~= written_rows(rows));
    let content = table_lines(text);
    assert(content == seq![written_row(headers)] + written_rows(rows));
    lemma_row_reads(headers);
    assert(content[0] == written_row(headers));
    assert forall|i: int| 0 <= i < rows.len() implies row_cells(content[i + 1]) == trim_each(
        rows[i],
    ) by {
        assert(content[i + 1] == written_row(rows[i]));
        assert(writable_row(rows[i]));
        lemma_row_reads(rows[i]);
    }
    assert(parsed_rows(text) =~= trimmed_rows(rows));
}

/// A padded plain cell is writable, and it trims to the cell.
pub proof fn lemma_trim_padded(c: Seq<char>)
    requires
        plain_cell(c),
    ensures
        trim(padded(c)) == c,
        writable_cell(padded(c)),
        padded(c).len() == c.len() + 2,
        forall|k: int| 0 <= k < c.len() ==> padded(c)[k + 1] == c[k],
{
    let p = padded(c);
    assert forall|k: int| 0 <= k < p.len() implies #[trigger] p[k] != '|' && p[k] != '\n' by {
        if 1 <= k <= c.len() {
            assert(p[k] == c[k - 1]);
        }
    }
    let rest = c + seq![' '];
    assert(is_whitespace(' '));
    assert(p.first() == ' ');
    assert(p.drop_first() =~= rest);
    if c.len() == 0 {
        assert(rest.drop_first() =~= Seq::<char>::empty());
        assert(trim_start(rest) == trim_start(rest.drop_first()));
        assert(trim_start(p) =~= Seq::<char>::empty());
        assert(trim(p) =~= c);
    } else {
        assert(rest.first() == c.first());
        assert(trim_start(rest) == rest);
        assert(rest.last() == ' ');
        assert(rest.drop_last() =~= c);
        assert(trim_end(rest) == trim_end(c));
    }
}

/// A plain row, padded, is a writable row that trims to the plain row.
pub proof fn lemma_padded_row(cells: Seq<Seq<char>>)
    requires
        plain_row(cells),
    ensures
        writable_row(padded_row(cells)),
        trim_each(padded_row(cells)) == cells,
{
    let wide = padded_row(cells);
    assert forall|j: int| 0 <= j < wide.len() implies writable_cell(#[trigger] wide[j]) by {
        lemma_trim_padded(cells[j]);
    }
    assert forall|j: int| 0 <= j < cells.len() implies trim(wide[j]) == cells[j] by {
        lemma_trim_padded(cells[j]);
    }
    assert(trim_each(wide) =~= cells);
    let (j, k) = choose|j: int, k: int|
        0 <= j < cells.len() && 0 <= k < cells[j].len() && !is_rule_char(#[trigger] cells[j][k]);
    lemma_trim_padded(cells[j]);
    assert(!is_rule_char(wide[j][k + 1]));
}

/// A pipe table that is written out reads back as it was. Where the
/// header row and every data row are plain and are written with one space
/// on either side of each cell, and the line under the header is a
/// separator line, the text parses to the same header cells and the same
/// rows.
pub proof fn lemma_written_table_reads_back(
    headers: Seq<Seq<char>>,
    rule: Seq<char>,
    rows: Seq<Seq<Seq<char>>>,
)
    requires
        plain_row(headers),
        is_separator(trim(rule)),
        free_of(rule, '\n'),
        forall|i: int| 0 <= i < rows.len() ==> plain_row(#[trigger] rows[i]),
    ensures
        parsed_headers(written_table(padded_row(headers), rule, padded_rows(rows))) == headers,
        parsed_rows(written_table(padded_row(headers), rule, padded_rows(rows))) == rows,
{
    let wide = padded_rows(rows);
    lemma_padded_row(headers);
    assert forall|i: int| 0 <= i < wide.len() implies writable_row(#[trigger] wide[i]) by {
        lemma_padded_row(rows[i]);
    }
    lemma_written_table_parses(padded_row(headers), rule, wide);
    assert forall|i: int| 0 <= i < rows.len() implies trim_each(wide[i]) == rows[i] by {
        lemma_padded_row(rows[i]);
    }
    assert(trimmed_rows(wide) =~= rows);
}

} // verus!
