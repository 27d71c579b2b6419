//! Reading the comma-separated algorithm sheets (3-style tables).
use vstd::prelude::*;
use super::move_parser::{chars_of, is_white_space, is_white_space_char, string_from_chars};

verus! {

/// `s` without its leading white space.
pub open spec fn trim_start(s: Seq<char>) -> Seq<char>
    decreases s.len(),
{
    if s.len() > 0 && is_white_space(s[0]) {
        trim_start(s.drop_first())
    } else {
        s
    }
}

/// `s` without its trailing white space.
pub open spec fn trim_end(s: Seq<char>) -> Seq<char>
    decreases s.len(),
{
    if s.len() > 0 && is_white_space(s.last()) {
        trim_end(s.drop_last())
    } else {
        s
    }
}

/// `s` without leading and trailing white space.
pub open spec fn trim(s: Seq<char>) -> Seq<char> {
    trim_end(trim_start(s))
}

/// The cells of a line read from position `pos` on, after `cells` and with the
/// cell `cur` being read, inside quotes or not: a doubled quote is a quote
/// character, a single quote opens or closes quotes, a comma outside quotes ends
/// a cell; each cell is trimmed.
pub open spec fn csv_cells_from(line: Seq<char>, pos: int, cells: Seq<Seq<char>>, cur: Seq<char>, in_quotes: bool) -> Seq<
    Seq<char>,
>
    decreases line.len() - pos,
{
    if pos < 0 || pos >= line.len() {
        cells.push(trim(cur))
    } else {
        let c = line[pos];
        if c == '"' {
            if pos + 1 < line.len() && line[pos + 1] == '"' {
                csv_cells_from(line, pos + 2, cells, cur.push('"'), in_quotes)
            } else {
                csv_cells_from(line, pos + 1, cells, cur, !in_quotes)
            }
        } else if c == ',' && !in_quotes {
            csv_cells_from(line, pos + 1, cells.push(trim(cur)), Seq::empty(), in_quotes)
        } else {
            csv_cells_from(line, pos + 1, cells, cur.push(c), in_quotes)
        }
    }
}

proof fn lemma_csv_cells_nonempty(line: Seq<char>, pos: int, cells: Seq<Seq<char>>, cur: Seq<char>, in_quotes: bool)
    ensures
        csv_cells_from(line, pos, cells, cur, in_quotes).len() > 0,
    decreases line.len() - pos,
{
    if 0 <= pos < line.len() {
        let c = line[pos];
        if c == '"' {
            if pos + 1 < line.len() && line[pos + 1] == '"' {
                lemma_csv_cells_nonempty(line, pos + 2, cells, cur.push('"'), in_quotes);
            } else {
                lemma_csv_cells_nonempty(line, pos + 1, cells, cur, !in_quotes);
            }
        } else if c == ',' && !in_quotes {
            lemma_csv_cells_nonempty(line, pos + 1, cells.push(trim(cur)), Seq::empty(), in_quotes);
        } else {
            lemma_csv_cells_nonempty(line, pos + 1, cells, cur.push(c), in_quotes);
        }
    }
}

/// The cells of a line.
pub open spec fn csv_line_cells(line: Seq<char>) -> Seq<Seq<char>> {
    csv_cells_from(line, 0, Seq::empty(), Seq::empty(), false)
}

proof fn lemma_trim_start_skip(s: Seq<char>, i: int)
    requires
        0 <= i <= s.len(),
        forall|k: int| 0 <= k < i ==> is_white_space(#[trigger] s[k]),
    ensures
        trim_start(s) == trim_start(s.skip(i)),
    decreases i,
{
    if i > 0 {
        assert(s.drop_first().skip(i - 1) =~= s.skip(i));
        lemma_trim_start_skip(s.drop_first(), i - 1);
    } else {
        assert(s.skip(0) =~= s);
    }
}

proof fn lemma_trim_end_take(s: Seq<char>, j: int)
    requires
        0 <= j <= s.len(),
        forall|k: int| j <= k < s.len() ==> is_white_space(#[trigger] s[k]),
    ensures
        trim_end(s) == trim_end(s.take(j)),
    decreases s.len() - j,
{
    if j < s.len() {
        assert(s.drop_last().take(j) =~= s.take(j));
        lemma_trim_end_take(s.drop_last(), j);
    } else {
        assert(s.take(j) =~= s);
    }
}

/// The cell text `s` trimmed.
pub fn trim_chars(s: &Vec<char>) -> (r: Vec<char>)
    ensures
        r@ == trim(s@),
{
    let n = s.len();
    let mut i: usize = 0;
    while i < n && is_white_space_char(s[i])
        invariant
            i <= n,
            n == s.len(),
            forall|k: int| 0 <= k < i ==> is_white_space(#[trigger] s@[k]),
        decreases n - i,
    {
        i = i + 1;
    }
    proof {
        lemma_trim_start_skip(s@, i as int);
    }
    let ghost t = s@.skip(i as int);
    let mut j: usize = n;
    while j > i && is_white_space_char(s[j - 1])
        invariant
            i <= j <= n,
            n == s.len(),
            t == s@.skip(i as int),
            forall|k: int| j - i <= k < t.len() ==> is_white_space(#[trigger] t[k]),
        decreases j - i,
    {
        j = j - 1;
    }
    proof {
        if i < n && j > i {
            assert(!is_white_space(t[j - i - 1]));
        }
        lemma_trim_end_take(t, (j - i) as int);
        if i == n {
            assert(t.len() == 0);
        } else {
            assert(trim_start(t) == t) by {
                if t.len() > 0 {
                    assert(t[0] == s@[i as int]);
                }
            }
        }
    }
    let mut r: Vec<char> = Vec::new();
    let mut k: usize = i;
    while k < j
        invariant
            i <= k <= j,
            j <= n,
            n == s.len(),
            r@ == s@.subrange(i as int, k as int),
        decreases j - k,
    {
        r.push(s[k]);
        k = k + 1;
        assert(r@ =~= s@.subrange(i as int, k as int));
    }
    assert(r@ =~= t.take(j - i));
    r
}

/// The cells of a comma-separated line (see [`csv_cells_from`]).
pub fn parse_csv_line(line: &str) -> (cells: Vec<String>)
    ensures
        cells@.map_values(|c: String| c@) == csv_line_cells(line@),
{
    let chars = chars_of(line);
    let n = chars.len();
    let mut cells: Vec<String> = Vec::new();
    let mut current: Vec<char> = Vec::new();
    let mut in_quotes = false;
    let mut i: usize = 0;
    assert(cells@.map_values(|c: String| c@) =~= Seq::<Seq<char>>::empty());
    assert(current@ =~= Seq::<char>::empty());
    while i < n
        invariant
            i <= n + 1,
            n == chars.len(),
            chars@ == line@,
            csv_line_cells(line@) == csv_cells_from(
                line@,
                i as int,
                cells@.map_values(|c: String| c@),
                current@,
                in_quotes,
            ),
        decreases n + 1 - i,
    {
        let c = chars[i];
        if c == '"' {
            if i + 1 < n && chars[i + 1] == '"' {
                current.push('"');
                i = i + 2;
            } else {
                in_quotes = !in_quotes;
                i = i + 1;
            }
        } else if c == ',' && !in_quotes {
            let cell = trim_chars(&current);
            let ghost before = cells@.map_values(|c: String| c@);
            cells.push(string_from_chars(&cell));
            assert(cells@.map_values(|c: String| c@) =~= before.push(trim(current@)));
            current = Vec::new();
            assert(current@ =~= Seq::<char>::empty());
            i = i + 1;
        } else {
            current.push(c);
            i = i + 1;
        }
    }
    let cell = trim_chars(&current);
    let ghost before = cells@.map_values(|c: String| c@);
    cells.push(string_from_chars(&cell));
    assert(cells@.map_values(|c: String| c@) =~= before.push(trim(current@)));
    cells
}

/// The position of the first newline at or after `i` (the length when there is none).
pub open spec fn first_newline(t: Seq<char>, i: int) -> int
    decreases t.len() - i,
{
    if i < 0 || i >= t.len() {
        t.len() as int
    } else if t[i] == '\n' {
        i
    } else {
        first_newline(t, i + 1)
    }
}

/// `s` without a trailing carriage return.
pub open spec fn strip_cr(s: Seq<char>) -> Seq<char> {
    if s.len() > 0 && s.last() == '\r' {
        s.drop_last()
    } else {
        s
    }
}

/// The first newline from `i` on lies between `i` and the length.
pub proof fn lemma_first_newline_bounds(t: Seq<char>, i: int)
    requires
        0 <= i,
    ensures
        i <= first_newline(t, i) || i >= t.len(),
        first_newline(t, i) <= t.len(),
    decreases t.len() - i,
{
    if i < t.len() && t[i] != '\n' {
        lemma_first_newline_bounds(t, i + 1);
    }
}

/// The lines of `t` from position `i` on: the pieces between newlines, each
/// without a trailing carriage return, with no empty piece after a final newline.
pub open spec fn lines_from(t: Seq<char>, i: int) -> Seq<Seq<char>>
    decreases t.len() - i,
{
    if i < 0 || i >= t.len() {
        Seq::empty()
    } else {
        let j = first_newline(t, i);
        proof {
            lemma_first_newline_bounds(t, i);
        }
        if j >= t.len() {
            seq![strip_cr(t.subrange(i, j))]
        } else {
            seq![strip_cr(t.subrange(i, j))] + lines_from(t, j + 1)
        }
    }
}

/// The lines of a text.
pub open spec fn text_lines(t: Seq<char>) -> Seq<Seq<char>> {
    lines_from(t, 0)
}

/// `t` with `k` mapped to `v`: the first entry with key `k` replaced, or a new entry at the end.
pub open spec fn table_insert<V>(t: Seq<(Seq<char>, V)>, k: Seq<char>, v: V) -> Seq<(Seq<char>, V)>
    decreases t.len(),
{
    if t.len() == 0 {
        seq![(k, v)]
    } else if t[0].0 == k {
        t.update(0, (k, v))
    } else {
        seq![t[0]] + table_insert(t.drop_first(), k, v)
    }
}

/// The entries of a data row from the cells before `n`: each non-empty cell
/// under a non-empty column heading, keyed by that heading.
pub open spec fn row_entries(headers: Seq<Seq<char>>, cells: Seq<Seq<char>>, n: int) -> Seq<(Seq<char>, Seq<char>)>
    decreases n,
{
    if n <= 1 {
        Seq::empty()
    } else {
        let prev = row_entries(headers, cells, n - 1);
        let i = n - 1;
        if cells[i].len() > 0 && i < headers.len() && headers[i].len() > 0 {
            table_insert(prev, headers[i], cells[i])
        } else {
            prev
        }
    }
}

/// The table of the data rows: each row whose first cell is non-empty and that
/// has entries, keyed by that first cell.
pub open spec fn rows_table(headers: Seq<Seq<char>>, rows: Seq<Seq<char>>) -> Seq<(Seq<char>, Seq<(Seq<char>, Seq<char>)>)>
    decreases rows.len(),
{
    if rows.len() == 0 {
        Seq::empty()
    } else {
        let prev = rows_table(headers, rows.drop_last());
        let cells = csv_line_cells(rows.last());
        let entries = row_entries(headers, cells, cells.len() as int);
        if cells.len() > 0 && cells[0].len() > 0 && entries.len() > 0 {
            table_insert(prev, cells[0], entries)
        } else {
            prev
        }
    }
}

/// The message for a sheet without lines.
pub open spec fn empty_sheet_message() -> Seq<char> {
    "CSVファイルが空です"@
}

/// The table of a sheet: the first line's cells are the column headings, each
/// later line a row (see [`rows_table`]); an error for a text without lines.
pub open spec fn sheet_table(text: Seq<char>) -> Result<Seq<(Seq<char>, Seq<(Seq<char>, Seq<char>)>)>, Seq<char>> {
    let lines = text_lines(text);
    if lines.len() == 0 {
        Err(empty_sheet_message())
    } else {
        Ok(rows_table(csv_line_cells(lines[0]), lines.skip(1)))
    }
}

proof fn lemma_table_insert_prefix<V>(t: Seq<(Seq<char>, V)>, k: Seq<char>, v: V, i: int)
    requires
        0 <= i <= t.len(),
        forall|j: int| 0 <= j < i ==> (#[trigger] t[j]).0 != k,
    ensures
        table_insert(t, k, v) == t.take(i) + table_insert(t.skip(i), k, v),
    decreases i,
{
    if i == 0 {
        assert(t.skip(0) =~= t);
        assert(t.take(0) + table_insert(t.skip(0), k, v) =~= table_insert(t, k, v));
    } else {
        lemma_table_insert_prefix(t.drop_first(), k, v, i - 1);
        assert(t.drop_first().take(i - 1) =~= t.take(i).drop_first());
        assert(t.drop_first().skip(i - 1) =~= t.skip(i));
        assert(t.take(i) =~= seq![t[0]] + t.drop_first().take(i - 1));
        assert(seq![t[0]] + (t.drop_first().take(i - 1) + table_insert(t.skip(i), k, v)) =~= t.take(i)
            + table_insert(t.skip(i), k, v));
    }
}

/// No two entries of `t` have the same key.
pub open spec fn keys_distinct<V>(t: Seq<(Seq<char>, V)>) -> bool {
    forall|i: int, j: int| #![trigger t[i], t[j]] 0 <= i < j < t.len() ==> t[i].0 != t[j].0
}

/// The keys of a two-level table are distinct, and so are the keys of each
/// entry's inner list.
pub open spec fn nested_keys_distinct(t: Seq<(Seq<char>, Seq<(Seq<char>, Seq<char>)>)>) -> bool {
    &&& keys_distinct(t)
    &&& forall|i: int| 0 <= i < t.len() ==> keys_distinct(#[trigger] t[i].1)
}

/// Each entry of `table_insert(t, k, v)` is `(k, v)` or an entry of `t`, and
/// inserting keeps the keys distinct.
pub proof fn lemma_table_insert_entries<V>(t: Seq<(Seq<char>, V)>, k: Seq<char>, v: V)
    ensures
        forall|j: int|
            0 <= j < table_insert(t, k, v).len() ==> #[trigger] table_insert(t, k, v)[j] == (k, v)
                || exists|i: int| 0 <= i < t.len() && t[i] == table_insert(t, k, v)[j],
        keys_distinct(t) ==> keys_distinct(table_insert(t, k, v)),
    decreases t.len(),
{
    let r = table_insert(t, k, v);
    if t.len() == 0 {
    } else if t[0].0 == k {
        assert forall|j: int| 0 <= j < r.len() implies #[trigger] r[j] == (k, v) || exists|i: int|
            0 <= i < t.len() && t[i] == r[j] by {
            if j != 0 {
                assert(t[j] == r[j]);
            }
        }
    } else {
        let d = t.drop_first();
        let rest = table_insert(d, k, v);
        lemma_table_insert_entries(d, k, v);
        assert(r == seq![t[0]] + rest);
        assert forall|j: int| 0 <= j < r.len() implies #[trigger] r[j] == (k, v) || exists|i: int|
            0 <= i < t.len() && t[i] == r[j] by {
            if j == 0 {
                assert(t[0] == r[0]);
            } else {
                assert(r[j] == rest[j - 1]);
                if rest[j - 1] != (k, v) {
                    let i = choose|i: int| 0 <= i < d.len() && d[i] == rest[j - 1];
                    assert(t[i + 1] == r[j]);
                }
            }
        }
        if keys_distinct(t) {
            assert(keys_distinct(d)) by {
                assert forall|a: int, b: int| #![trigger d[a], d[b]] 0 <= a < b < d.len() implies d[a].0
                    != d[b].0 by {
                    assert(d[a] == t[a + 1] && d[b] == t[b + 1]);
                }
            }
            assert forall|a: int, b: int| #![trigger r[a], r[b]] 0 <= a < b < r.len() implies r[a].0
                != r[b].0 by {
                if a == 0 {
                    assert(r[b] == rest[b - 1]);
                    if rest[b - 1] != (k, v) {
                        let i = choose|i: int| 0 <= i < d.len() && d[i] == rest[b - 1];
                        assert(t[i + 1] == r[b]);
                        assert(t[0].0 != t[i + 1].0);
                    }
                } else {
                    assert(r[a] == rest[a - 1] && r[b] == rest[b - 1]);
                }
            }
        }
    }
}

/// The entries of a data row have distinct keys.
pub proof fn lemma_row_entries_distinct(headers: Seq<Seq<char>>, cells: Seq<Seq<char>>, n: int)
    ensures
        keys_distinct(row_entries(headers, cells, n)),
    decreases n,
{
    if n > 1 {
        lemma_row_entries_distinct(headers, cells, n - 1);
        lemma_table_insert_entries(row_entries(headers, cells, n - 1), headers[n - 1], cells[n - 1]);
    }
}

/// The table of the data rows has distinct keys, and so has each row.
pub proof fn lemma_rows_table_distinct(headers: Seq<Seq<char>>, rows: Seq<Seq<char>>)
    ensures
        nested_keys_distinct(rows_table(headers, rows)),
    decreases rows.len(),
{
    if rows.len() > 0 {
        let prev = rows_table(headers, rows.drop_last());
        let cells = csv_line_cells(rows.last());
        let entries = row_entries(headers, cells, cells.len() as int);
        lemma_rows_table_distinct(headers, rows.drop_last());
        if cells.len() > 0 && cells[0].len() > 0 && entries.len() > 0 {
            lemma_table_insert_entries(prev, cells[0], entries);
            lemma_row_entries_distinct(headers, cells, cells.len() as int);
            let r = table_insert(prev, cells[0], entries);
            assert forall|i: int| 0 <= i < r.len() implies keys_distinct(#[trigger] r[i].1) by {
                if r[i] != (cells[0], entries) {
                    let p = choose|p: int| 0 <= p < prev.len() && prev[p] == r[i];
                    assert(keys_distinct(prev[p].1));
                }
            }
        }
    }
}

/// A sheet's table has distinct row keys, and each row distinct column keys.
pub proof fn lemma_sheet_table_keys_distinct(text: Seq<char>)
    ensures
        sheet_table(text) is Ok ==> nested_keys_distinct(sheet_table(text)->Ok_0),
{
    let lines = text_lines(text);
    if lines.len() > 0 {
        lemma_rows_table_distinct(csv_line_cells(lines[0]), lines.skip(1));
    }
}

/// A text with no white space at its start or end (the empty text included).
pub open spec fn is_trimmed(x: Seq<char>) -> bool {
    x.len() == 0 || (!is_white_space(x[0]) && !is_white_space(x.last()))
}

proof fn lemma_trim_start_front(s: Seq<char>)
    ensures
        trim_start(s).len() == 0 || !is_white_space(trim_start(s)[0]),
    decreases s.len(),
{
    if s.len() > 0 && is_white_space(s[0]) {
        lemma_trim_start_front(s.drop_first());
    }
}

proof fn lemma_trim_end_prefix(u: Seq<char>)
    ensures
        trim_end(u).len() <= u.len(),
        forall|i: int| 0 <= i < trim_end(u).len() ==> #[trigger] trim_end(u)[i] == u[i],
        trim_end(u).len() == 0 || !is_white_space(trim_end(u).last()),
    decreases u.len(),
{
    if u.len() > 0 && is_white_space(u.last()) {
        lemma_trim_end_prefix(u.drop_last());
    }
}

/// Trimming leaves no white space at either end.
pub proof fn lemma_trim_is_trimmed(s: Seq<char>)
    ensures
        is_trimmed(trim(s)),
{
    lemma_trim_start_front(s);
    lemma_trim_end_prefix(trim_start(s));
    if trim(s).len() > 0 {
        assert(trim(s)[0] == trim_start(s)[0]);
    }
}

proof fn lemma_csv_cells_trimmed(line: Seq<char>, pos: int, cells: Seq<Seq<char>>, cur: Seq<char>, in_quotes: bool)
    requires
        forall|i: int| 0 <= i < cells.len() ==> is_trimmed(#[trigger] cells[i]),
    ensures
        forall|i: int|
            0 <= i < csv_cells_from(line, pos, cells, cur, in_quotes).len() ==> is_trimmed(
                #[trigger] csv_cells_from(line, pos, cells, cur, in_quotes)[i],
            ),
    decreases line.len() - pos,
{
    if pos < 0 || pos >= line.len() {
        lemma_trim_is_trimmed(cur);
        let r = cells.push(trim(cur));
        assert(csv_cells_from(line, pos, cells, cur, in_quotes) == r);
        assert forall|i: int| 0 <= i < r.len() implies is_trimmed(#[trigger] r[i]) by {
            if i < cells.len() {
                assert(r[i] == cells[i]);
            }
        }
    } else {
        let c = line[pos];
        if c == '"' {
            if pos + 1 < line.len() && line[pos + 1] == '"' {
                lemma_csv_cells_trimmed(line, pos + 2, cells, cur.push('"'), in_quotes);
                assert(csv_cells_from(line, pos, cells, cur, in_quotes) == csv_cells_from(line, pos + 2, cells, cur.push('"'), in_quotes));
            } else {
                lemma_csv_cells_trimmed(line, pos + 1, cells, cur, !in_quotes);
                assert(csv_cells_from(line, pos, cells, cur, in_quotes) == csv_cells_from(line, pos + 1, cells, cur, !in_quotes));
            }
        } else if c == ',' && !in_quotes {
            lemma_trim_is_trimmed(cur);
            let r = cells.push(trim(cur));
            assert forall|i: int| 0 <= i < r.len() implies is_trimmed(#[trigger] r[i]) by {
                if i < cells.len() {
                    assert(r[i] == cells[i]);
                }
            }
            lemma_csv_cells_trimmed(line, pos + 1, r, Seq::empty(), in_quotes);
            assert(csv_cells_from(line, pos, cells, cur, in_quotes) == csv_cells_from(line, pos + 1, r, Seq::empty(), in_quotes));
        } else {
            lemma_csv_cells_trimmed(line, pos + 1, cells, cur.push(c), in_quotes);
            assert(csv_cells_from(line, pos, cells, cur, in_quotes) == csv_cells_from(line, pos + 1, cells, cur.push(c), in_quotes));
        }
    }
}

/// Every cell read from a line is trimmed.
pub proof fn lemma_line_cells_trimmed(line: Seq<char>)
    ensures
        forall|i: int| 0 <= i < csv_line_cells(line).len() ==> is_trimmed(#[trigger] csv_line_cells(line)[i]),
{
    lemma_csv_cells_trimmed(line, 0, Seq::empty(), Seq::empty(), false);
}

/// Non-empty and without white space at either end.
pub open spec fn is_solid(x: Seq<char>) -> bool {
    x.len() > 0 && is_trimmed(x)
}

proof fn lemma_row_entries_solid(headers: Seq<Seq<char>>, cells: Seq<Seq<char>>, n: int)
    requires
        forall|i: int| 0 <= i < headers.len() ==> is_trimmed(#[trigger] headers[i]),
        forall|i: int| 0 <= i < cells.len() ==> is_trimmed(#[trigger] cells[i]),
        n <= cells.len(),
    ensures
        forall|j: int|
            0 <= j < row_entries(headers, cells, n).len() ==> is_solid((#[trigger] row_entries(headers, cells, n)[j]).0)
                && is_solid(row_entries(headers, cells, n)[j].1),
    decreases n,
{
    if n > 1 {
        lemma_row_entries_solid(headers, cells, n - 1);
        let prev = row_entries(headers, cells, n - 1);
        lemma_table_insert_entries(prev, headers[n - 1], cells[n - 1]);
    }
}

proof fn lemma_rows_table_solid(headers: Seq<Seq<char>>, rows: Seq<Seq<char>>)
    requires
        forall|i: int| 0 <= i < headers.len() ==> is_trimmed(#[trigger] headers[i]),
    ensures
        forall|i: int|
            0 <= i < rows_table(headers, rows).len() ==> is_solid((#[trigger] rows_table(headers, rows)[i]).0) && forall|
                j: int,
            |
                0 <= j < rows_table(headers, rows)[i].1.len() ==> is_solid(
                    (#[trigger] rows_table(headers, rows)[i].1[j]).0,
                ) && is_solid(rows_table(headers, rows)[i].1[j].1),
    decreases rows.len(),
{
    if rows.len() > 0 {
        let prev = rows_table(headers, rows.drop_last());
        let cells = csv_line_cells(rows.last());
        let entries = row_entries(headers, cells, cells.len() as int);
        lemma_rows_table_solid(headers, rows.drop_last());
        if cells.len() > 0 && cells[0].len() > 0 && entries.len() > 0 {
            lemma_line_cells_trimmed(rows.last());
            lemma_row_entries_solid(headers, cells, cells.len() as int);
            lemma_table_insert_entries(prev, cells[0], entries);
            let r = table_insert(prev, cells[0], entries);
            assert forall|i: int| 0 <= i < r.len() implies is_solid((#[trigger] r[i]).0) && forall|j: int|
                0 <= j < r[i].1.len() ==> is_solid((#[trigger] r[i].1[j]).0) && is_solid(r[i].1[j].1) by {
                if r[i] != (cells[0], entries) {
                    let p = choose|p: int| 0 <= p < prev.len() && prev[p] == r[i];
                    assert(is_solid(prev[p].0));
                }
            }
        }
    }
}

/// Every row key, column key and algorithm text of a sheet's table is
/// non-empty and has no white space at either end.
pub proof fn lemma_sheet_table_entries_solid(text: Seq<char>)
    ensures
        sheet_table(text) matches Ok(t) ==> forall|i: int|
            0 <= i < t.len() ==> is_solid((#[trigger] t[i]).0) && forall|j: int|
                0 <= j < t[i].1.len() ==> is_solid((#[trigger] t[i].1[j]).0) && is_solid(t[i].1[j].1),
{
    let lines = text_lines(text);
    if lines.len() > 0 {
        lemma_line_cells_trimmed(lines[0]);
        lemma_rows_table_solid(csv_line_cells(lines[0]), lines.skip(1));
    }
}

/// Maps `k` to `v` in the entries (see [`table_insert`]).
fn insert_entry(t: &mut Vec<(String, String)>, k: String, v: String)
    ensures
        final(t).deep_view() == table_insert(old(t).deep_view(), k@, v@),
{
    let ghost tv = t.deep_view();
    let mut i: usize = 0;
    while i < t.len()
        invariant
            i <= t.len(),
            t.deep_view() == tv,
            tv == old(t).deep_view(),
            forall|j: int| 0 <= j < i ==> (#[trigger] tv[j]).0 != k@,
        decreases t.len() - i,
    {
        if t[i].0 == k {
            proof {
                lemma_table_insert_prefix(tv, k@, v@, i as int);
                assert(tv.skip(i as int)[0] == tv[i as int]);
            }
            let ghost kv = k@;
            let ghost vv = v@;
            t.set(i, (k, v));
            assert(t.deep_view() =~= tv.update(i as int, (kv, vv)));
            assert(table_insert(tv.skip(i as int), kv, vv) == tv.skip(i as int).update(0, (kv, vv)));
            assert(tv.take(i as int) + tv.skip(i as int).update(0, (kv, vv)) =~= tv.update(i as int, (kv, vv)));
            assert(t.deep_view() == table_insert(tv, kv, vv));
            return ;
        }
        i = i + 1;
    }
    proof {
        lemma_table_insert_prefix(tv, k@, v@, i as int);
        assert(tv.skip(i as int) =~= Seq::<(Seq<char>, Seq<char>)>::empty());
    }
    let ghost kv = k@;
    let ghost vv = v@;
    t.push((k, v));
    assert(t.deep_view() =~= tv.take(i as int) + seq![(kv, vv)]);
}

/// Maps `k` to the row `v` in the table (see [`table_insert`]).
fn insert_row(t: &mut Vec<(String, Vec<(String, String)>)>, k: String, v: Vec<(String, String)>)
    ensures
        final(t).deep_view() == table_insert(old(t).deep_view(), k@, v.deep_view()),
{
    let ghost tv = t.deep_view();
    let mut i: usize = 0;
    while i < t.len()
        invariant
            i <= t.len(),
            t.deep_view() == tv,
            tv == old(t).deep_view(),
            forall|j: int| 0 <= j < i ==> (#[trigger] tv[j]).0 != k@,
        decreases t.len() - i,
    {
        if t[i].0 == k {
            proof {
                lemma_table_insert_prefix(tv, k@, v.deep_view(), i as int);
                assert(tv.skip(i as int)[0] == tv[i as int]);
            }
            let ghost kv = k@;
            let ghost vv = v.deep_view();
            t.set(i, (k, v));
            assert(t.deep_view() =~= tv.update(i as int, (kv, vv)));
            assert(table_insert(tv.skip(i as int), kv, vv) == tv.skip(i as int).update(0, (kv, vv)));
            assert(tv.take(i as int) + tv.skip(i as int).update(0, (kv, vv)) =~= tv.update(i as int, (kv, vv)));
            assert(t.deep_view() == table_insert(tv, kv, vv));
            return ;
        }
        i = i + 1;
    }
    proof {
        lemma_table_insert_prefix(tv, k@, v.deep_view(), i as int);
        assert(tv.skip(i as int) =~= Seq::<(Seq<char>, Seq<(Seq<char>, Seq<char>)>)>::empty());
    }
    let ghost kv = k@;
    let ghost vv = v.deep_view();
    t.push((k, v));
    assert(t.deep_view() =~= tv.take(i as int) + seq![(kv, vv)]);
}

/// The lines of a text (see [`lines_from`]).
pub fn split_lines(text: &str) -> (lines: Vec<String>)
    ensures
        lines@.map_values(|l: String| l@) == text_lines(text@),
{
    let t = chars_of(text);
    let n = t.len();
    let mut lines: Vec<String> = Vec::new();
    let mut start: usize = 0;
    while start < n
        invariant
            start <= n,
            n == t.len(),
            t@ == text@,
            text_lines(text@) == lines@.map_values(|l: String| l@) + lines_from(t@, start as int),
        decreases n - start,
    {
        let mut j: usize = start;
        while j < n && t[j] != '\n'
            invariant
                start <= j <= n,
                n == t.len(),
                forall|k: int| start <= k < j ==> t@[k] != '\n',
                first_newline(t@, start as int) == first_newline(t@, j as int),
            decreases n - j,
        {
            j = j + 1;
        }
        let mut piece: Vec<char> = Vec::new();
        let mut k: usize = start;
        while k < j
            invariant
                start <= k <= j,
                j <= n,
                n == t.len(),
                piece@ == t@.subrange(start as int, k as int),
            decreases j - k,
        {
            piece.push(t[k]);
            k = k + 1;
            assert(piece@ =~= t@.subrange(start as int, k as int));
        }
        if piece.len() > 0 && piece[piece.len() - 1] == '\r' {
            piece.pop();
        }
        let ghost before = lines@.map_values(|l: String| l@);
        let ghost pv = piece@;
        lines.push(string_from_chars(&piece));
        assert(lines@.map_values(|l: String| l@) =~= before.push(pv));
        assert(pv == strip_cr(t@.subrange(start as int, j as int)));
        if j < n {
            assert(before + lines_from(t@, start as int) =~= before.push(pv) + lines_from(t@, j + 1));
            start = j + 1;
        } else {
            assert(before + lines_from(t@, start as int) =~= before.push(pv) + lines_from(t@, n as int));
            start = n;
        }
    }
    assert(lines@.map_values(|l: String| l@) + lines_from(t@, start as int) =~= lines@.map_values(|l: String| l@));
    lines
}

fn copy_string(s: &String) -> (r: String)
    ensures
        r@ == s@,
{
    s.clone()
}

/// The table of a sheet's text (see [`sheet_table`]).
pub fn parse_3style_csv_text(text: &str) -> (r: Result<Vec<(String, Vec<(String, String)>)>, String>)
    ensures
        match r {
            Ok(t) => sheet_table(text@) == Ok::<Seq<(Seq<char>, Seq<(Seq<char>, Seq<char>)>)>, Seq<char>>(t.deep_view()),
            Err(e) => sheet_table(text@) == Err::<Seq<(Seq<char>, Seq<(Seq<char>, Seq<char>)>)>, Seq<char>>(e@),
        },
        r matches Ok(t) ==> nested_keys_distinct(t.deep_view()),
{
    proof {
        lemma_sheet_table_keys_distinct(text@);
    }
    let lines = split_lines(text);
    let ghost lv = lines@.map_values(|l: String| l@);
    if lines.len() == 0 {
        return Err("CSVファイルが空です".to_owned());
    }
    let column_headers = parse_csv_line(lines[0].as_str());
    let ghost headers = column_headers@.map_values(|c: String| c@);
    assert(lv[0] == lines@[0]@);
    let ghost rows = lv.skip(1);
    let mut result: Vec<(String, Vec<(String, String)>)> = Vec::new();
    let mut li: usize = 1;
    while li < lines.len()
        invariant
            1 <= li <= lines.len(),
            lv == lines@.map_values(|l: String| l@),
            rows == lv.skip(1),
            headers == column_headers@.map_values(|c: String| c@),
            result.deep_view() == rows_table(headers, rows.take(li - 1)),
        decreases lines.len() - li,
    {
        assert(rows.take(li as int).drop_last() =~= rows.take(li - 1));
        assert(rows.take(li as int).last() == lines@[li as int]@);
        let cells = parse_csv_line(lines[li].as_str());
        let ghost cv = cells@.map_values(|c: String| c@);
        proof {
            lemma_csv_cells_nonempty(lines@[li as int]@, 0, Seq::empty(), Seq::empty(), false);
        }
        let mut row_data: Vec<(String, String)> = Vec::new();
        let mut ci: usize = 1;
        while ci < cells.len()
            invariant
                1 <= ci <= cells.len(),
                cv == cells@.map_values(|c: String| c@),
                headers == column_headers@.map_values(|c: String| c@),
                row_data.deep_view() == row_entries(headers, cv, ci as int),
            decreases cells.len() - ci,
        {
            assert(cv[ci as int] == cells@[ci as int]@);
            if !cells[ci].as_str().is_empty() && ci < column_headers.len() {
                assert(headers[ci as int] == column_headers@[ci as int]@);
                if !column_headers[ci].as_str().is_empty() {
                    insert_entry(&mut row_data, copy_string(&column_headers[ci]), copy_string(&cells[ci]));
                }
            }
            ci = ci + 1;
        }
        if cells.len() > 0 {
            assert(cv[0] == cells@[0]@);
            if !cells[0].as_str().is_empty() && row_data.len() > 0 {
                insert_row(&mut result, copy_string(&cells[0]), row_data);
            }
        }
        li = li + 1;
    }
    assert(rows.take(lines.len() - 1) =~= rows);
    Ok(result)
}

} // verus!
