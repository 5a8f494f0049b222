use vstd::prelude::*;
use vstd::utf8::encode_utf8;
use vstd::string::StringExecFns;
use crate::text::{push_char, push_repeated, push_space_padded, repeat_char, space_padded};

verus! {

/// The number of bytes `s` takes in UTF-8, which is what `str::len` counts.
pub open spec fn byte_len(s: Seq<char>) -> usize {
    encode_utf8(s).len() as usize
}

/// A text never has more characters than bytes.
pub proof fn lemma_chars_at_most_bytes(s: Seq<char>)
    ensures
        s.len() <= encode_utf8(s).len(),
    decreases s.len(),
{
    if s.len() > 0 {
        lemma_chars_at_most_bytes(s.drop_first());
        assert(encode_utf8(s) == vstd::utf8::encode_scalar(s[0] as u32) + encode_utf8(s.drop_first()));
    }
}

/// The byte length of cell `i` of row `r`.
pub open spec fn cell_len(rows: Seq<Vec<String>>, r: int, i: int) -> usize {
    byte_len(rows[r]@[i]@)
}

/// The byte length of header `i`.
pub open spec fn header_len(headers: Seq<&str>, i: int) -> usize {
    byte_len(headers[i]@)
}

/// `widths` are the column widths of a table: one column per header or cell position,
/// each as wide (in bytes) as its widest header or cell.
pub open spec fn are_column_widths(headers: Seq<&str>, rows: Seq<Vec<String>>, widths: Seq<usize>) -> bool {
    &&& headers.len() <= widths.len()
    &&& forall|r: int| 0 <= r < rows.len() ==> #[trigger] rows[r]@.len() <= widths.len()
    &&& (widths.len() == headers.len() || exists|r: int| 0 <= r < rows.len() && #[trigger] rows[r]@.len() == widths.len())
    &&& forall|i: int| 0 <= i < headers.len() ==> header_len(headers, i) <= #[trigger] widths[i]
    &&& forall|r: int, i: int| 0 <= r < rows.len() && 0 <= i < rows[r]@.len() ==> #[trigger] cell_len(rows, r, i) <= widths[i]
    &&& forall|i: int| 0 <= i < widths.len() ==> {
        ||| (i < headers.len() && #[trigger] widths[i] == header_len(headers, i))
        ||| exists|r: int| 0 <= r < rows.len() && i < rows[r]@.len() && widths[i] == #[trigger] cell_len(rows, r, i)
    }
}

/// The width in bytes of each column of a table: the longest of its header and cells.
/// Rows may have more cells than there are headers.
pub fn column_widths(headers: &[&str], rows: &[Vec<String>]) -> (widths: Vec<usize>)
    ensures
        are_column_widths(headers@, rows@, widths@),
{
    let mut widths: Vec<usize> = Vec::new();
    let mut h: usize = 0;
    while h < headers.len()
        invariant
            h <= headers@.len(),
            widths@.len() == h,
            forall|i: int| 0 <= i < h ==> #[trigger] widths@[i] == header_len(headers@, i),
        decreases headers@.len() - h,
    {
        widths.push(headers[h].len());
        h += 1;
    }
    // For every column, where its width comes from: -1 for the header, else the row.
    let ghost mut origin: Seq<int> = Seq::new(widths@.len(), |i: int| -1);
    // The row that made the table this wide, or -1 for the headers.
    let ghost mut len_origin: int = -1;
    let mut r: usize = 0;
    while r < rows.len()
        invariant
            r <= rows@.len(),
            headers@.len() <= widths@.len(),
            origin.len() == widths@.len(),
            forall|rr: int| 0 <= rr < r ==> #[trigger] rows@[rr]@.len() <= widths@.len(),
            (len_origin == -1 && widths@.len() == headers@.len()) || (0 <= len_origin < r && rows@[len_origin]@.len() == widths@.len()),
            forall|i: int| 0 <= i < headers@.len() ==> header_len(headers@, i) <= #[trigger] widths@[i],
            forall|rr: int, i: int| 0 <= rr < r && 0 <= i < rows@[rr]@.len() ==> #[trigger] cell_len(rows@, rr, i) <= widths@[i],
            forall|i: int| 0 <= i < widths@.len() ==> {
                ||| (#[trigger] origin[i] == -1 && i < headers@.len() && widths@[i] == header_len(headers@, i))
                ||| (0 <= origin[i] < r && i < rows@[origin[i]]@.len() && widths@[i] == cell_len(rows@, origin[i], i))
            },
        decreases rows@.len() - r,
    {
        let row = &rows[r];
        let mut index: usize = 0;
        while index < row.len()
            invariant
                r < rows@.len(),
                row == rows@[r as int],
                index <= row@.len(),
                index <= widths@.len(),
                headers@.len() <= widths@.len(),
                origin.len() == widths@.len(),
                forall|rr: int| 0 <= rr < r ==> #[trigger] rows@[rr]@.len() <= widths@.len(),
                (len_origin == -1 && widths@.len() == headers@.len()) || (0 <= len_origin < r && rows@[len_origin]@.len() == widths@.len())
                    || (len_origin == r && index == widths@.len()),
                forall|i: int| 0 <= i < headers@.len() ==> header_len(headers@, i) <= #[trigger] widths@[i],
                forall|rr: int, i: int| 0 <= rr < r && 0 <= i < rows@[rr]@.len() ==> #[trigger] cell_len(rows@, rr, i) <= widths@[i],
                forall|i: int| 0 <= i < index ==> #[trigger] cell_len(rows@, r as int, i) <= widths@[i],
                forall|i: int| 0 <= i < widths@.len() ==> {
                    ||| (#[trigger] origin[i] == -1 && i < headers@.len() && widths@[i] == header_len(headers@, i))
                    ||| (0 <= origin[i] < r + 1 && i < rows@[origin[i]]@.len() && widths@[i] == cell_len(rows@, origin[i], i))
                },
            decreases row@.len() - index,
        {
            let value_len = row[index].as_str().len();
            assert(value_len == cell_len(rows@, r as int, index as int));
            if index >= widths.len() {
                widths.push(value_len);
                proof {
                    origin = origin.push(r as int);
                    len_origin = r as int;
                }
            } else if value_len > widths[index] {
                widths.set(index, value_len);
                proof {
                    origin = origin.update(index as int, r as int);
                }
            }
            index += 1;
        }
        proof {
            if len_origin == r {
                assert(rows@[r as int]@.len() == widths@.len());
            }
        }
        assert(rows@[r as int]@.len() <= widths@.len());
        r += 1;
    }
    proof {
        assert forall|i: int| 0 <= i < widths@.len() implies {
            ||| (i < headers@.len() && #[trigger] widths@[i] == header_len(headers@, i))
            ||| exists|rr: int| 0 <= rr < rows@.len() && i < rows@[rr]@.len() && widths@[i] == #[trigger] cell_len(rows@, rr, i)
        } by {
            if origin[i] != -1 {
                assert(widths@[i] == cell_len(rows@, origin[i], i));
            }
        }
        if len_origin != -1 {
            assert(rows@[len_origin]@.len() == widths@.len());
        }
    }
    widths
}

/// A border line: `+`, then for every column its width plus two dashes and a `+`.
pub open spec fn border_line(widths: Seq<usize>) -> Seq<char>
    decreases widths.len(),
{
    if widths.len() == 0 {
        seq!['+']
    } else {
        border_line(widths.drop_last()) + repeat_char('-', (widths.last() + 2) as nat) + seq!['+']
    }
}

/// The text of cell `k` of a row, empty where the row has no such cell.
pub open spec fn row_cell(values: Seq<Seq<char>>, k: int) -> Seq<char> {
    if 0 <= k < values.len() { values[k] } else { Seq::empty() }
}

/// A table row: `|`, then for every column ` `, the cell padded to the column width, ` |`.
pub open spec fn row_line(values: Seq<Seq<char>>, widths: Seq<usize>) -> Seq<char>
    decreases widths.len(),
{
    if widths.len() == 0 {
        seq!['|']
    } else {
        row_line(values, widths.drop_last()) + seq![' '] + space_padded(
            row_cell(values, widths.len() - 1),
            widths.last() as nat,
        ) + seq![' ', '|']
    }
}

/// The length of every line of a table with these column widths.
pub open spec fn table_width(widths: Seq<usize>) -> nat
    decreases widths.len(),
{
    if widths.len() == 0 {
        1
    } else {
        table_width(widths.drop_last()) + widths.last() as nat + 3
    }
}

/// The texts of a row of strings.
pub open spec fn texts(values: Seq<String>) -> Seq<Seq<char>> {
    values.map_values(|v: String| v@)
}

/// Formats the border line of a table.
pub fn format_border(widths: &[usize]) -> (line: String)
    ensures
        line@ == border_line(widths@),
{
    let mut line = String::new();
    push_char(&mut line, '+');
    let mut k: usize = 0;
    while k < widths.len()
        invariant
            k <= widths@.len(),
            line@ == border_line(widths@.take(k as int)),
        decreases widths@.len() - k,
    {
        assert(widths@.take(k as int + 1).drop_last() =~= widths@.take(k as int));
        let w = widths[k];
        if w <= usize::MAX - 2 {
            push_repeated(&mut line, '-', w + 2);
        } else {
            push_repeated(&mut line, '-', w);
            push_repeated(&mut line, '-', 2);
            assert(repeat_char('-', w as nat) + repeat_char('-', 2) =~= repeat_char('-', (w + 2) as nat));
        }
        push_char(&mut line, '+');
        assert(line@ =~= border_line(widths@.take(k as int + 1)));
        k += 1;
    }
    assert(widths@.take(widths@.len() as int) =~= widths@);
    line
}

/// Formats one row of a table; missing cells are left empty.
pub fn format_row(values: &[String], widths: &[usize]) -> (line: String)
    ensures
        line@ == row_line(texts(values@), widths@),
{
    let mut line = String::new();
    push_char(&mut line, '|');
    let mut k: usize = 0;
    while k < widths.len()
        invariant
            k <= widths@.len(),
            line@ == row_line(texts(values@), widths@.take(k as int)),
        decreases widths@.len() - k,
    {
        assert(widths@.take(k as int + 1).drop_last() =~= widths@.take(k as int));
        push_char(&mut line, ' ');
        if k < values.len() {
            assert(row_cell(texts(values@), k as int) == values@[k as int]@);
            push_space_padded(&mut line, values[k].as_str(), widths[k]);
        } else {
            proof {
                reveal_strlit("");
            }
            assert(row_cell(texts(values@), k as int) == ""@);
            push_space_padded(&mut line, "", widths[k]);
        }
        push_char(&mut line, ' ');
        push_char(&mut line, '|');
        assert(line@ =~= row_line(texts(values@), widths@.take(k as int + 1)));
        k += 1;
    }
    assert(widths@.take(widths@.len() as int) =~= widths@);
    line
}

/// Every border line is as long as the table is wide.
pub proof fn lemma_border_width(widths: Seq<usize>)
    ensures
        border_line(widths).len() == table_width(widths),
    decreases widths.len(),
{
    if widths.len() > 0 {
        lemma_border_width(widths.drop_last());
    }
}

/// A row whose every cell fits its column is exactly as long as the table is wide.
pub proof fn lemma_row_width(values: Seq<Seq<char>>, widths: Seq<usize>)
    requires
        forall|k: int| 0 <= k < widths.len() ==> #[trigger] row_cell(values, k).len() <= widths[k],
    ensures
        row_line(values, widths).len() == table_width(widths),
    decreases widths.len(),
{
    if widths.len() > 0 {
        let prefix = widths.drop_last();
        assert forall|k: int| 0 <= k < prefix.len() implies #[trigger] row_cell(values, k).len() <= prefix[k] by {
            assert(row_cell(values, k).len() <= widths[k]);
        }
        lemma_row_width(values, prefix);
        assert(row_cell(values, widths.len() - 1).len() <= widths[widths.len() - 1]);
    }
}


/// Column widths are determined by the headers and rows.
pub proof fn lemma_column_widths_unique(headers: Seq<&str>, rows: Seq<Vec<String>>, w1: Seq<usize>, w2: Seq<usize>)
    requires
        are_column_widths(headers, rows, w1),
        are_column_widths(headers, rows, w2),
    ensures
        w1 == w2,
{
    assert(w1.len() == w2.len()) by {
        if w1.len() != headers.len() {
            let r = choose|r: int| 0 <= r < rows.len() && #[trigger] rows[r]@.len() == w1.len();
            assert(rows[r]@.len() <= w2.len());
        }
        if w2.len() != headers.len() {
            let r = choose|r: int| 0 <= r < rows.len() && #[trigger] rows[r]@.len() == w2.len();
            assert(rows[r]@.len() <= w1.len());
        }
    }
    assert forall|i: int| 0 <= i < w1.len() implies w1[i] == w2[i] by {
        assert(w1[i] <= w2[i]) by {
            if !(i < headers.len() && w1[i] == header_len(headers, i)) {
                let r = choose|r: int| 0 <= r < rows.len() && i < rows[r]@.len() && w1[i] == #[trigger] cell_len(rows, r, i);
            }
        }
        assert(w2[i] <= w1[i]) by {
            if !(i < headers.len() && w2[i] == header_len(headers, i)) {
                let r = choose|r: int| 0 <= r < rows.len() && i < rows[r]@.len() && w2[i] == #[trigger] cell_len(rows, r, i);
            }
        }
    }
    assert(w1 =~= w2);
}

/// The column widths of a table.
pub open spec fn spec_column_widths(headers: Seq<&str>, rows: Seq<Vec<String>>) -> Seq<usize> {
    choose|w: Seq<usize>| are_column_widths(headers, rows, w)
}

/// The texts of the headers.
pub open spec fn header_texts(headers: Seq<&str>) -> Seq<Seq<char>> {
    headers.map_values(|h: &str| h@)
}

/// The lines of a printed table: a border, the header row, a border, one line per
/// row, and a closing border.
pub open spec fn table_lines(headers: Seq<&str>, rows: Seq<Vec<String>>, widths: Seq<usize>) -> Seq<Seq<char>> {
    seq![border_line(widths), row_line(header_texts(headers), widths), border_line(widths)]
        + rows.map_values(|row: Vec<String>| row_line(texts(row@), widths))
        + seq![border_line(widths)]
}

/// The lines `table::print` writes for these headers and rows.
pub fn render_table(headers: &[&str], rows: &[Vec<String>]) -> (lines: Vec<String>)
    ensures
        lines@.map_values(|l: String| l@) == table_lines(headers@, rows@, spec_column_widths(headers@, rows@)),
{
    let widths = column_widths(headers, rows);
    proof {
        lemma_column_widths_unique(headers@, rows@, widths@, spec_column_widths(headers@, rows@));
    }
    let mut header_values: Vec<String> = Vec::new();
    let mut h: usize = 0;
    while h < headers.len()
        invariant
            h <= headers@.len(),
            header_values@.len() == h,
            forall|i: int| 0 <= i < h ==> #[trigger] header_values@[i]@ == headers@[i]@,
        decreases headers@.len() - h,
    {
        header_values.push(String::from_str(headers[h]));
        h += 1;
    }
    assert(texts(header_values@) =~= header_texts(headers@));
    let mut lines: Vec<String> = Vec::new();
    lines.push(format_border(widths.as_slice()));
    lines.push(format_row(header_values.as_slice(), widths.as_slice()));
    lines.push(format_border(widths.as_slice()));
    let ghost head = seq![border_line(widths@), row_line(header_texts(headers@), widths@), border_line(widths@)];
    assert(lines@.map_values(|l: String| l@) =~= head);
    let mut r: usize = 0;
    while r < rows.len()
        invariant
            r <= rows@.len(),
            lines@.map_values(|l: String| l@) =~= head + rows@.take(r as int).map_values(|row: Vec<String>| row_line(texts(row@), widths@)),
        decreases rows@.len() - r,
    {
        let ghost prev = lines@;
        let line = format_row(rows[r].as_slice(), widths.as_slice());
        lines.push(line);
        assert(lines@.map_values(|l: String| l@) =~= prev.map_values(|l: String| l@).push(row_line(texts(rows@[r as int]@), widths@)));
        assert(rows@.take(r as int + 1).map_values(|row: Vec<String>| row_line(texts(row@), widths@))
            =~= rows@.take(r as int).map_values(|row: Vec<String>| row_line(texts(row@), widths@)).push(row_line(texts(rows@[r as int]@), widths@)));
        r += 1;
    }
    let ghost prev = lines@;
    let last = format_border(widths.as_slice());
    lines.push(last);
    assert(lines@.map_values(|l: String| l@) =~= prev.map_values(|l: String| l@).push(border_line(widths@)));
    assert(rows@.take(rows@.len() as int) =~= rows@);
    assert(lines@.map_values(|l: String| l@) =~= table_lines(headers@, rows@, widths@));
    lines
}

/// A printed table is rectangular: every line is exactly as long as the table is
/// wide (for texts whose UTF-8 length fits a `usize`, as every real text's does).
/// `w` are the table's column widths, as `column_widths` returns them.
pub proof fn lemma_table_is_rectangular(headers: Seq<&str>, rows: Seq<Vec<String>>, w: Seq<usize>)
    requires
        are_column_widths(headers, rows, w),
        forall|i: int| 0 <= i < headers.len() ==> encode_utf8(#[trigger] headers[i]@).len() <= usize::MAX,
        forall|r: int, i: int| 0 <= r < rows.len() && 0 <= i < rows[r]@.len() ==> encode_utf8(#[trigger] rows[r]@[i]@).len() <= usize::MAX,
    ensures
        forall|k: int| 0 <= k < table_lines(headers, rows, w).len() ==>
            (#[trigger] table_lines(headers, rows, w)[k]).len() == table_width(w),
{
    lemma_border_width(w);
    assert forall|k: int| 0 <= k < w.len() implies #[trigger] row_cell(header_texts(headers), k).len() <= w[k] by {
        if k < headers.len() {
            lemma_chars_at_most_bytes(headers[k]@);
            assert(header_len(headers, k) <= w[k]);
        }
    }
    lemma_row_width(header_texts(headers), w);
    assert forall|r: int| 0 <= r < rows.len() implies (#[trigger] row_line(texts(rows[r]@), w)).len() == table_width(w) by {
        assert forall|k: int| 0 <= k < w.len() implies #[trigger] row_cell(texts(rows[r]@), k).len() <= w[k] by {
            if k < rows[r]@.len() {
                lemma_chars_at_most_bytes(rows[r]@[k]@);
                assert(cell_len(rows, r, k) <= w[k]);
            }
        }
        lemma_row_width(texts(rows[r]@), w);
    }
    let lines = table_lines(headers, rows, w);
    assert forall|k: int| 0 <= k < lines.len() implies (#[trigger] lines[k]).len() == table_width(w) by {
        if 3 <= k < 3 + rows.len() {
            assert(lines[k] == row_line(texts(rows[k - 3]@), w));
        }
    }
}

} // verus!
