//! Markdown tables: an array of objects shown with one row per object and
//! one column per key, and a flat object shown as a field/value table.
//!
//! Values reach these functions already rendered: each cell is its key and
//! the text of its value, `None` standing for JSON `null`.

use vstd::prelude::*;
use vstd::string::*;
use crate::format::{cut_ok, cut_text, truncate_str, MAX_COL_WIDTH, MAX_TABLE_ROWS};
use crate::text::{
    decimal_string, decimal_text, lemma_lex_irreflexive, lemma_lex_transitive, lemma_seq_lt_total, seq_lt, str_eq, str_lt,
    string_views,
};

verus! {

/// The text of a rendered value; `None` for null.
pub open spec fn cell_text(c: Option<String>) -> Option<Seq<char>> {
    match c {
        Some(t) => Some(t@),
        None => None,
    }
}

/// The first cell of `row` at or after position `i` whose key is `k`:
/// absent (`None`), or the text of its value.
pub open spec fn row_cell_from(row: Seq<(String, Option<String>)>, k: Seq<char>, i: int) -> Option<
    Option<Seq<char>>,
>
    decreases row.len() - i,
{
    if i < 0 || i >= row.len() {
        None
    } else if row[i].0@ == k {
        Some(cell_text(row[i].1))
    } else {
        row_cell_from(row, k, i + 1)
    }
}

/// The cell of `row` under key `k`.
pub open spec fn row_cell(row: Seq<(String, Option<String>)>, k: Seq<char>) -> Option<Option<Seq<char>>> {
    row_cell_from(row, k, 0)
}

/// How a cell is shown: its text cut to `w` bytes, or a dash when the
/// value is null or the key is absent.
pub open spec fn cell_display(c: Option<Option<Seq<char>>>, w: int) -> Seq<char> {
    match c {
        Some(Some(t)) => cut_text(t, w),
        _ => "—"@,
    }
}

/// One table line: a cell for each key.
pub open spec fn row_line(row: Seq<(String, Option<String>)>, keys: Seq<Seq<char>>) -> Seq<char>
    decreases keys.len(),
{
    if keys.len() == 0 {
        "|"@
    } else {
        row_line(row, keys.drop_last()) + " "@ + cell_display(row_cell(row, keys.last()), MAX_COL_WIDTH as int)
            + " |"@
    }
}

/// The header line: the keys, each cut to the column width.
pub open spec fn header_line(keys: Seq<Seq<char>>) -> Seq<char>
    decreases keys.len(),
{
    if keys.len() == 0 {
        "|"@
    } else {
        header_line(keys.drop_last()) + " "@ + cut_text(keys.last(), MAX_COL_WIDTH as int) + " |"@
    }
}

/// The separator line under a header of `n` columns.
pub open spec fn separator_line(n: nat) -> Seq<char>
    decreases n,
{
    if n == 0 {
        "|"@
    } else {
        separator_line((n - 1) as nat) + " --- |"@
    }
}

/// The table body: one line per row.
pub open spec fn body_lines(rows: Seq<Vec<(String, Option<String>)>>, keys: Seq<Seq<char>>) -> Seq<char>
    decreases rows.len(),
{
    if rows.len() == 0 {
        Seq::empty()
    } else {
        body_lines(rows.drop_last(), keys) + row_line(rows.last()@, keys) + "\n"@
    }
}

/// `ks` is strictly increasing.
pub open spec fn strictly_sorted(ks: Seq<Seq<char>>) -> bool {
    forall|i: int, j: int| 0 <= i < j < ks.len() ==> seq_lt(#[trigger] ks[i], #[trigger] ks[j])
}

/// `k` is the key of some cell of some row.
pub open spec fn key_in_rows(rows: Seq<Vec<(String, Option<String>)>>, k: Seq<char>) -> bool {
    exists|r: int, c: int| 0 <= r < rows.len() && 0 <= c < rows[r]@.len() && (#[trigger] rows[r]@[c]).0@ == k
}

/// `ks` lists every key of the rows once, in increasing order.
pub open spec fn table_keys(rows: Seq<Vec<(String, Option<String>)>>, ks: Seq<Seq<char>>) -> bool {
    &&& strictly_sorted(ks)
    &&& forall|k: Seq<char>| #[trigger] ks.contains(k) <==> key_in_rows(rows, k)
}

/// The rows that are shown: at most the first 150.
pub open spec fn shown_rows(rows: Seq<Vec<(String, Option<String>)>>) -> Seq<Vec<(String, Option<String>)>> {
    if rows.len() > MAX_TABLE_ROWS {
        rows.take(MAX_TABLE_ROWS as int)
    } else {
        rows
    }
}

/// Every key and every value text of the rows can be cut to the column width.
pub open spec fn rows_cut_ok(rows: Seq<Vec<(String, Option<String>)>>) -> bool {
    forall|r: int, c: int|
        0 <= r < rows.len() && 0 <= c < rows[r]@.len() ==> {
            &&& cut_ok((#[trigger] rows[r]@[c]).0@, MAX_COL_WIDTH as int)
            &&& (rows[r]@[c].1 matches Some(t) ==> cut_ok(t@, MAX_COL_WIDTH as int))
        }
}

/// The table of an array of objects given as rows of cells, whose columns
/// are `keys`.
pub open spec fn object_table_text(
    label: Seq<char>,
    rows: Seq<Vec<(String, Option<String>)>>,
    keys: Seq<Seq<char>>,
) -> Seq<char> {
    let n = rows.len();
    let truncated = n > MAX_TABLE_ROWS;
    if keys.len() == 0 {
        "**"@ + label + "**\n\nEmpty results."@
    } else {
        "**"@ + label + "** ("@ + decimal_text(n) + " row"@ + (if n == 1 {
            Seq::empty()
        } else {
            "s"@
        }) + (if truncated {
            ", showing first 150"@
        } else {
            Seq::empty()
        }) + ")\n\n"@ + header_line(keys) + "\n"@ + separator_line(keys.len()) + "\n"@ + body_lines(
            shown_rows(rows),
            keys,
        ) + (if truncated {
            "\n*... "@ + decimal_text((n - MAX_TABLE_ROWS) as nat) + " more rows not shown.*\n"@
        } else {
            Seq::empty()
        })
    }
}

/// Add `k` to a strictly increasing list of keys, unless it is there.
fn insert_sorted(keys: &mut Vec<String>, k: &str)
    requires
        strictly_sorted(string_views(old(keys)@)),
    ensures
        strictly_sorted(string_views(final(keys)@)),
        forall|x: Seq<char>|
            #[trigger] string_views(final(keys)@).contains(x) <==> (string_views(old(keys)@).contains(x)
                || x == k@),
{
    let ghost ks = string_views(keys@);
    let mut i: usize = 0;
    while i < keys.len()
        invariant
            ks == string_views(keys@),
            i <= keys@.len(),
            forall|j: int| 0 <= j < i ==> seq_lt(#[trigger] ks[j], k@),
        ensures
            i <= keys@.len(),
            forall|j: int| 0 <= j < i ==> seq_lt(#[trigger] ks[j], k@),
            i < keys@.len() ==> !seq_lt(ks[i as int], k@),
        decreases keys@.len() - i,
    {
        if !str_lt(keys[i].as_str(), k) {
            break;
        }
        i = i + 1;
    }
    if i < keys.len() && str_eq(keys[i].as_str(), k) {
        assert(ks[i as int] == k@);
        return;
    }
    proof {
        if i < ks.len() {
            lemma_seq_lt_total(ks[i as int], k@);
        }
    }
    keys.insert(i, String::from_str(k));
    proof {
        let nks = string_views(keys@);
        assert(nks =~= ks.insert(i as int, k@));
        assert forall|a: int, b: int| 0 <= a < b < nks.len() implies seq_lt(
            #[trigger] nks[a],
            #[trigger] nks[b],
        ) by {
            if b < i {
            } else if b == i {
            } else if a < i {
                assert(nks[b] == ks[b - 1]);
            } else if a == i {
                if b - 1 > i {
                    lemma_lex_transitive(k@, ks[i as int], ks[b - 1], 0);
                }
            } else {
                assert(nks[a] == ks[a - 1]);
                assert(nks[b] == ks[b - 1]);
            }
        }
        assert forall|x: Seq<char>| #[trigger] nks.contains(x) <==> (ks.contains(x) || x == k@) by {
            if nks.contains(x) {
                let j = choose|j: int| 0 <= j < nks.len() && nks[j] == x;
                if j < i {
                    assert(ks[j] == x);
                } else if j > i {
                    assert(ks[j - 1] == x);
                }
            }
            if ks.contains(x) {
                let j = choose|j: int| 0 <= j < ks.len() && ks[j] == x;
                if j < i {
                    assert(nks[j] == x);
                } else {
                    assert(nks[j + 1] == x);
                }
            }
            if x == k@ {
                assert(nks[i as int] == x);
            }
        }
    }
}

/// `k` is the key of a cell of a row before row `r`, or of one of the
/// first `c` cells of row `r`.
spec fn key_seen(rows: Seq<Vec<(String, Option<String>)>>, r: int, c: int, k: Seq<char>) -> bool {
    exists|a: int, b: int|
        0 <= a < rows.len() && 0 <= b < rows[a]@.len() && (a < r || (a == r && b < c)) && (#[trigger] rows[a]@[
            b
        ]).0@ == k
}

/// The keys of the first `m` rows, each once, in increasing order.
fn collect_keys(rows: &Vec<Vec<(String, Option<String>)>>, m: usize) -> (keys: Vec<String>)
    requires
        m <= rows@.len(),
    ensures
        table_keys(rows@.take(m as int), string_views(keys@)),
{
    let mut keys: Vec<String> = Vec::new();
    let mut r: usize = 0;
    while r < m
        invariant
            m <= rows@.len(),
            r <= m,
            strictly_sorted(string_views(keys@)),
            forall|x: Seq<char>| #[trigger] string_views(keys@).contains(x) <==> key_seen(rows@, r as int, 0, x),
        decreases m - r,
    {
        let row = &rows[r];
        let mut c: usize = 0;
        while c < row.len()
            invariant
                row == rows@[r as int],
                r < m <= rows@.len(),
                c <= row@.len(),
                strictly_sorted(string_views(keys@)),
                forall|x: Seq<char>|
                    #[trigger] string_views(keys@).contains(x) <==> key_seen(rows@, r as int, c as int, x),
            decreases row@.len() - c,
        {
            let ghost before = string_views(keys@);
            insert_sorted(&mut keys, row[c].0.as_str());
            proof {
                assert forall|x: Seq<char>|
                    #[trigger] string_views(keys@).contains(x) <==> key_seen(rows@, r as int, c + 1, x) by {
                    if key_seen(rows@, r as int, c + 1, x) {
                        let (a, b) = choose|a: int, b: int|
                            0 <= a < rows@.len() && 0 <= b < rows@[a]@.len() && (a < r || (a == r && b < c
                                + 1)) && (#[trigger] rows@[a]@[b]).0@ == x;
                        if !(a == r && b == c) {
                            assert(key_seen(rows@, r as int, c as int, x));
                            assert(before.contains(x));
                        }
                    }
                    if before.contains(x) {
                        assert(key_seen(rows@, r as int, c as int, x));
                        let (a, b) = choose|a: int, b: int|
                            0 <= a < rows@.len() && 0 <= b < rows@[a]@.len() && (a < r || (a == r && b < c))
                                && (#[trigger] rows@[a]@[b]).0@ == x;
                        assert(rows@[a]@[b].0@ == x);
                    }
                    if x == row@[c as int].0@ {
                        assert(rows@[r as int]@[c as int].0@ == x);
                    }
                }
            }
            c = c + 1;
        }
        proof {
            assert forall|x: Seq<char>|
                #[trigger] string_views(keys@).contains(x) <==> key_seen(rows@, r + 1, 0, x) by {
                if key_seen(rows@, r + 1, 0, x) {
                    let (a, b) = choose|a: int, b: int|
                        0 <= a < rows@.len() && 0 <= b < rows@[a]@.len() && (a < r + 1 || (a == r + 1 && b < 0))
                            && (#[trigger] rows@[a]@[b]).0@ == x;
                    assert(rows@[a]@[b].0@ == x);
                    assert(key_seen(rows@, r as int, c as int, x));
                }
                if key_seen(rows@, r as int, c as int, x) {
                    let (a, b) = choose|a: int, b: int|
                        0 <= a < rows@.len() && 0 <= b < rows@[a]@.len() && (a < r || (a == r && b < c))
                            && (#[trigger] rows@[a]@[b]).0@ == x;
                    assert(rows@[a]@[b].0@ == x);
                }
            }
        }
        r = r + 1;
    }
    proof {
        let shown = rows@.take(m as int);
        assert forall|x: Seq<char>| #[trigger] string_views(keys@).contains(x) <==> key_in_rows(shown, x) by {
            if key_in_rows(shown, x) {
                let (a, b) = choose|a: int, b: int|
                    0 <= a < shown.len() && 0 <= b < shown[a]@.len() && (#[trigger] shown[a]@[b]).0@ == x;
                assert(rows@[a]@[b].0@ == x);
            }
            if key_seen(rows@, m as int, 0, x) {
                let (a, b) = choose|a: int, b: int|
                    0 <= a < rows@.len() && 0 <= b < rows@[a]@.len() && (a < m || (a == m && b < 0))
                        && (#[trigger] rows@[a]@[b]).0@ == x;
                assert(shown[a]@[b].0@ == x);
            }
        }
    }
    keys
}

/// The position of the first cell of `row` whose key is `k`.
fn find_cell(row: &Vec<(String, Option<String>)>, k: &str) -> (found: Option<usize>)
    ensures
        match found {
            Some(i) => i < row@.len() && row_cell(row@, k@) == Some(cell_text(row@[i as int].1)),
            None => row_cell(row@, k@) is None,
        },
{
    let mut i: usize = 0;
    while i < row.len()
        invariant
            i <= row@.len(),
            row_cell(row@, k@) == row_cell_from(row@, k@, i as int),
        decreases row@.len() - i,
    {
        if str_eq(row[i].0.as_str(), k) {
            return Some(i);
        }
        i = i + 1;
    }
    None
}

/// Every key and value text of one row can be cut to the column width.
pub open spec fn row_cut_ok(row: Seq<(String, Option<String>)>) -> bool {
    forall|c: int|
        0 <= c < row.len() ==> {
            &&& cut_ok((#[trigger] row[c]).0@, MAX_COL_WIDTH as int)
            &&& (row[c].1 matches Some(t) ==> cut_ok(t@, MAX_COL_WIDTH as int))
        }
}

/// Append the line of one row to `out`.
fn push_row_line(out: &mut String, row: &Vec<(String, Option<String>)>, keys: &Vec<String>)
    requires
        row_cut_ok(row@),
    ensures
        final(out)@ == old(out)@ + row_line(row@, string_views(keys@)) + "\n"@,
{
    let ghost kv = string_views(keys@);
    let ghost base = out@;
    out.append("|");
    let mut j: usize = 0;
    while j < keys.len()
        invariant
            kv == string_views(keys@),
            row_cut_ok(row@),
            j <= keys@.len(),
            out@ == base + row_line(row@, kv.take(j as int)),
        decreases keys@.len() - j,
    {
        proof {
            assert(kv.take(j + 1).drop_last() =~= kv.take(j as int));
            assert(kv.take(j + 1).last() == kv[j as int]);
        }
        out.append(" ");
        match find_cell(row, keys[j].as_str()) {
            Some(i) => {
                match &row[i].1 {
                    Some(t) => {
                        let shown = truncate_str(t.as_str(), MAX_COL_WIDTH);
                        out.append(shown.as_str());
                    },
                    None => {
                        out.append("—");
                    },
                }
            },
            None => {
                out.append("—");
            },
        }
        out.append(" |");
        proof {
            assert(out@ =~= base + row_line(row@, kv.take(j + 1)));
        }
        j = j + 1;
    }
    out.append("\n");
    assert(kv.take(keys@.len() as int) =~= kv);
}

/// Show an array of objects, given as rows of rendered cells, as a
/// markdown table: one column per key of the first 150 rows, in increasing
/// order; at most 150 rows; cells cut to 40 bytes, null and absent cells
/// shown as a dash.
pub fn format_object_array(label: &str, rows: &Vec<Vec<(String, Option<String>)>>) -> (out: String)
    requires
        rows_cut_ok(shown_rows(rows@)),
    ensures
        exists|ks: Seq<Seq<char>>|
            table_keys(shown_rows(rows@), ks) && out@ == object_table_text(label@, rows@, ks),
{
    let n = rows.len();
    let truncated = n > MAX_TABLE_ROWS;
    let m = if truncated {
        MAX_TABLE_ROWS
    } else {
        n
    };
    proof {
        assert(rows@.take(m as int) =~= shown_rows(rows@));
    }
    let keys = collect_keys(rows, m);
    let ghost kv = string_views(keys@);
    let ghost shown = shown_rows(rows@);
    if keys.len() == 0 {
        let mut out = String::from_str("**");
        out.append(label);
        out.append("**\n\nEmpty results.");
        assert(out@ =~= object_table_text(label@, rows@, kv));
        return out;
    }
    let mut out = String::from_str("**");
    out.append(label);
    out.append("** (");
    let count = decimal_string(n as u64);
    out.append(count.as_str());
    out.append(" row");
    if n != 1 {
        out.append("s");
    }
    if truncated {
        out.append(", showing first 150");
    }
    out.append(")\n\n");
    let ghost head = out@;
    // header
    out.append("|");
    let mut j: usize = 0;
    while j < keys.len()
        invariant
            kv == string_views(keys@),
            table_keys(shown, kv),
            rows_cut_ok(shown),
            j <= keys@.len(),
            out@ == head + header_line(kv.take(j as int)),
        decreases keys@.len() - j,
    {
        proof {
            assert(kv.take(j + 1).drop_last() =~= kv.take(j as int));
            assert(kv.contains(kv[j as int]));
            let (a, b) = choose|a: int, b: int|
                0 <= a < shown.len() && 0 <= b < shown[a]@.len() && (#[trigger] shown[a]@[b]).0@ == kv[j as int];
            assert(cut_ok(shown[a]@[b].0@, MAX_COL_WIDTH as int));
        }
        out.append(" ");
        let cut = truncate_str(keys[j].as_str(), MAX_COL_WIDTH);
        out.append(cut.as_str());
        out.append(" |");
        proof {
            assert(out@ =~= head + header_line(kv.take(j + 1)));
        }
        j = j + 1;
    }
    assert(kv.take(keys@.len() as int) =~= kv);
    out.append("\n");
    let ghost sep_start = out@;
    // separator
    out.append("|");
    let mut j: usize = 0;
    while j < keys.len()
        invariant
            j <= keys@.len(),
            out@ == sep_start + separator_line(j as nat),
        decreases keys@.len() - j,
    {
        out.append(" --- |");
        j = j + 1;
    }
    out.append("\n");
    let ghost body_start = out@;
    // rows
    let mut r: usize = 0;
    while r < m
        invariant
            m <= rows@.len(),
            shown == rows@.take(m as int),
            kv == string_views(keys@),
            rows_cut_ok(shown),
            r <= m,
            out@ == body_start + body_lines(shown.take(r as int), kv),
        decreases m - r,
    {
        proof {
            assert(shown.take(r + 1).drop_last() =~= shown.take(r as int));
            assert(shown.take(r + 1).last() == rows@[r as int]);
            assert forall|c: int| 0 <= c < rows@[r as int]@.len() implies {
                &&& cut_ok((#[trigger] rows@[r as int]@[c]).0@, MAX_COL_WIDTH as int)
                &&& (rows@[r as int]@[c].1 matches Some(t) ==> cut_ok(t@, MAX_COL_WIDTH as int))
            } by {
                assert(shown[r as int]@[c] == rows@[r as int]@[c]);
            }
        }
        push_row_line(&mut out, &rows[r], &keys);
        r = r + 1;
    }
    assert(shown.take(m as int) =~= shown);
    if truncated {
        out.append("\n*... ");
        let more = decimal_string((n - MAX_TABLE_ROWS) as u64);
        out.append(more.as_str());
        out.append(" more rows not shown.*\n");
    }
    assert(out@ =~= object_table_text(label@, rows@, kv));
    out
}

/// Values of a field/value table are cut to this many bytes.
pub const MAX_FIELD_WIDTH: usize = 80;

/// How a field's value is shown: its text cut to 80 bytes, or a dash for null.
pub open spec fn field_display(v: Option<String>) -> Seq<char> {
    match v {
        Some(t) => cut_text(t@, MAX_FIELD_WIDTH as int),
        None => "—"@,
    }
}

/// One `| key | value |` line per field.
pub open spec fn field_lines(fields: Seq<(String, Option<String>)>) -> Seq<char>
    decreases fields.len(),
{
    if fields.len() == 0 {
        Seq::empty()
    } else {
        field_lines(fields.drop_last()) + "| "@ + fields.last().0@ + " | "@ + field_display(fields.last().1)
            + " |\n"@
    }
}

/// The field/value table of a flat object.
pub open spec fn flat_table_text(label: Seq<char>, fields: Seq<(String, Option<String>)>) -> Seq<char> {
    "**"@ + label + "**\n\n"@ + "| Field | Value |\n| --- | --- |\n"@ + field_lines(fields)
}

/// Every value text of the fields can be cut to 80 bytes.
pub open spec fn fields_cut_ok(fields: Seq<(String, Option<String>)>) -> bool {
    forall|i: int| 0 <= i < fields.len() ==> ((#[trigger] fields[i]).1 matches Some(t) ==> cut_ok(t@, MAX_FIELD_WIDTH as int))
}

/// Show a flat object, given as its fields with rendered values, as a
/// vertical field/value table; values are cut to 80 bytes, null shown as a
/// dash.
pub fn format_flat_object(label: &str, fields: &Vec<(String, Option<String>)>) -> (out: String)
    requires
        fields_cut_ok(fields@),
    ensures
        out@ == flat_table_text(label@, fields@),
{
    let mut out = String::from_str("**");
    out.append(label);
    out.append("**\n\n");
    out.append("| Field | Value |\n| --- | --- |\n");
    let ghost base = out@;
    let mut i: usize = 0;
    while i < fields.len()
        invariant
            fields_cut_ok(fields@),
            i <= fields@.len(),
            out@ == base + field_lines(fields@.take(i as int)),
        decreases fields@.len() - i,
    {
        proof {
            assert(fields@.take(i + 1).drop_last() =~= fields@.take(i as int));
            assert(fields@.take(i + 1).last() == fields@[i as int]);
        }
        out.append("| ");
        out.append(fields[i].0.as_str());
        out.append(" | ");
        match &fields[i].1 {
            Some(t) => {
                let cut = truncate_str(t.as_str(), MAX_FIELD_WIDTH);
                out.append(cut.as_str());
            },
            None => {
                out.append("—");
            },
        }
        out.append(" |\n");
        proof {
            assert(out@ =~= base + field_lines(fields@.take(i + 1)));
        }
        i = i + 1;
    }
    assert(fields@.take(fields@.len() as int) =~= fields@);
    assert(out@ =~= flat_table_text(label@, fields@));
    out
}

/// Two strictly increasing lists with the same members are the same list.
pub proof fn lemma_sorted_unique(a: Seq<Seq<char>>, b: Seq<Seq<char>>)
    requires
        strictly_sorted(a),
        strictly_sorted(b),
        forall|k: Seq<char>| a.contains(k) <==> b.contains(k),
    ensures
        a == b,
    decreases a.len(),
{
    if a.len() == 0 {
        if b.len() > 0 {
            assert(b.contains(b[0]));
        }
        assert(a =~= b);
    } else {
        assert(a.contains(a[0]));
        let j = choose|j: int| 0 <= j < b.len() && b[j] == a[0];
        assert(b.contains(b[0]));
        let i = choose|i: int| 0 <= i < a.len() && a[i] == b[0];
        if a[0] != b[0] {
            assert(j > 0 && i > 0);
            assert(seq_lt(b[0], b[j]));
            assert(seq_lt(a[0], a[i]));
            lemma_lex_transitive(a[0], b[0], a[0], 0);
            lemma_lex_irreflexive(a[0], 0);
        }
        let a1 = a.drop_first();
        let b1 = b.drop_first();
        assert forall|k: Seq<char>| a1.contains(k) <==> b1.contains(k) by {
            if a1.contains(k) {
                let p = choose|p: int| 0 <= p < a1.len() && a1[p] == k;
                assert(a[p + 1] == k);
                assert(seq_lt(a[0], a[p + 1]));
                lemma_lex_irreflexive(k, 0);
                assert(b.contains(k));
                let q = choose|q: int| 0 <= q < b.len() && b[q] == k;
                assert(q != 0);
                assert(b1[q - 1] == k);
            }
            if b1.contains(k) {
                let p = choose|p: int| 0 <= p < b1.len() && b1[p] == k;
                assert(b[p + 1] == k);
                assert(seq_lt(b[0], b[p + 1]));
                lemma_lex_irreflexive(k, 0);
                assert(a.contains(k));
                let q = choose|q: int| 0 <= q < a.len() && a[q] == k;
                assert(q != 0);
                assert(a1[q - 1] == k);
            }
        }
        assert forall|x: int, y: int| 0 <= x < y < a1.len() implies seq_lt(#[trigger] a1[x], #[trigger] a1[y]) by {
            assert(a1[x] == a[x + 1] && a1[y] == a[y + 1]);
        }
        assert forall|x: int, y: int| 0 <= x < y < b1.len() implies seq_lt(#[trigger] b1[x], #[trigger] b1[y]) by {
            assert(b1[x] == b[x + 1] && b1[y] == b[y + 1]);
        }
        lemma_sorted_unique(a1, b1);
        assert(a.len() == b.len());
        assert forall|x: int| 0 <= x < a.len() implies a[x] == b[x] by {
            if x > 0 {
                assert(a[x] == a1[x - 1]);
                assert(b[x] == b1[x - 1]);
            }
        }
        assert(a =~= b);
    }
}

/// The columns of a table are determined by its rows: there is one list
/// of every key, each once, in increasing order.
pub proof fn law_table_columns_determined(
    rows: Seq<Vec<(String, Option<String>)>>,
    a: Seq<Seq<char>>,
    b: Seq<Seq<char>>,
)
    requires
        table_keys(rows, a),
        table_keys(rows, b),
    ensures
        a == b,
{
    assert forall|k: Seq<char>| a.contains(k) <==> b.contains(k) by {
        assert(a.contains(k) <==> key_in_rows(rows, k));
        assert(b.contains(k) <==> key_in_rows(rows, k));
    }
    lemma_sorted_unique(a, b);
}

} // verus!
