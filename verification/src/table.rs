//! Plain-text tables for terminal output.

use vstd::prelude::*;
use vstd::utf8::encode_utf8;
use vstd::string::{StrSliceExecFns, StringSliceAdditionalSpecFns};
use crate::text::{push_char, push_str, str_texts, texts};

verus! {

/// Length of a text in UTF-8 bytes.
pub open spec fn byte_len(s: Seq<char>) -> nat {
    encode_utf8(s).len()
}

/// `s` followed by spaces up to `w` characters (unchanged when it is that long already).
pub open spec fn pad(s: Seq<char>, w: nat) -> Seq<char> {
    if s.len() < w {
        s + Seq::new((w - s.len()) as nat, |_i: int| ' ')
    } else {
        s
    }
}

/// The parts with `sep` between each two of them.
pub open spec fn join(parts: Seq<Seq<char>>, sep: Seq<char>) -> Seq<char>
    decreases parts.len(),
{
    if parts.len() == 0 {
        Seq::empty()
    } else if parts.len() == 1 {
        parts[0]
    } else {
        join(parts.drop_last(), sep) + sep + parts.last()
    }
}

/// The widest cell of column `c` among the rows, in bytes (0 if none has one).
pub open spec fn max_cell(rows: Seq<Seq<Seq<char>>>, c: int) -> nat
    decreases rows.len(),
{
    if rows.len() == 0 {
        0
    } else {
        let m = max_cell(rows.drop_last(), c);
        let r = rows.last();
        if c < r.len() && byte_len(r[c]) > m { byte_len(r[c]) } else { m }
    }
}

/// Width of column `c`: the byte length of its header or of its widest cell.
pub open spec fn col_width(headers: Seq<Seq<char>>, rows: Seq<Seq<Seq<char>>>, c: int) -> nat {
    let m = max_cell(rows, c);
    if byte_len(headers[c]) > m { byte_len(headers[c]) } else { m }
}

/// The width of each column.
pub open spec fn widths(headers: Seq<Seq<char>>, rows: Seq<Seq<Seq<char>>>) -> Seq<nat> {
    Seq::new(headers.len(), |c: int| col_width(headers, rows, c))
}

/// One line: each cell padded to its column's width (a cell beyond the
/// columns to its own byte length), two spaces between cells, then a newline.
pub open spec fn table_line(cells: Seq<Seq<char>>, ws: Seq<nat>) -> Seq<char> {
    join(
        Seq::new(cells.len(), |i: int| pad(cells[i], if i < ws.len() { ws[i] } else { byte_len(cells[i]) })),
        "  "@,
    ) + "\n"@
}

/// The lines of all rows, in order.
pub open spec fn table_lines(rows: Seq<Seq<Seq<char>>>, ws: Seq<nat>) -> Seq<char>
    decreases rows.len(),
{
    if rows.len() == 0 {
        Seq::empty()
    } else {
        table_lines(rows.drop_last(), ws) + table_line(rows.last(), ws)
    }
}

/// The cells of rows of strings.
pub open spec fn row_texts(rows: Seq<Vec<String>>) -> Seq<Seq<Seq<char>>> {
    rows.map_values(|r: Vec<String>| texts(r@))
}

/// A table: with no rows, the headers separated by tabs; otherwise a header
/// line and one line per row, columns as wide as their widest entry.
pub open spec fn spec_format_table(headers: Seq<Seq<char>>, rows: Seq<Seq<Seq<char>>>) -> Seq<char> {
    if rows.len() == 0 {
        join(headers, "\t"@)
    } else {
        let ws = widths(headers, rows);
        table_line(headers, ws) + table_lines(rows, ws)
    }
}

/// Number of UTF-8 bytes of a string.
fn byte_count(s: &str) -> (n: usize)
    ensures
        n == byte_len(s@),
{
    let b = s.as_bytes();
    proof {
        assert(s.spec_bytes() == encode_utf8(s@));
    }
    b.len()
}

/// `s` padded with spaces to `w` characters.
fn padded(s: &str, w: usize) -> (r: String)
    ensures
        r@ == pad(s@, w as nat),
{
    let mut r = s.to_owned();
    let n = s.unicode_len();
    if n < w {
        let mut k: usize = n;
        while k < w
            invariant
                n <= k <= w,
                n == s@.len(),
                r@ == s@ + Seq::new((k - n) as nat, |_i: int| ' '),
            decreases w - k,
        {
            push_char(&mut r, ' ');
            assert(r@ =~= s@ + Seq::new((k + 1 - n) as nat, |_i: int| ' '));
            k = k + 1;
        }
    }
    r
}

/// Joining one more part.
proof fn lemma_join_push(parts: Seq<Seq<char>>, sep: Seq<char>, i: int)
    requires
        0 <= i < parts.len(),
    ensures
        join(parts.take(i + 1), sep) == if i == 0 {
            parts[0]
        } else {
            join(parts.take(i), sep) + sep + parts[i]
        },
{
    assert(parts.take(i + 1).drop_last() =~= parts.take(i));
}

/// The parts with `sep` between each two.
fn join_strings(parts: &[String], sep: &str) -> (r: String)
    ensures
        r@ == join(texts(parts@), sep@),
{
    let ghost ps = texts(parts@);
    let mut out = String::new();
    let mut i: usize = 0;
    while i < parts.len()
        invariant
            i <= parts@.len(),
            ps == texts(parts@),
            out@ == join(ps.take(i as int), sep@),
        decreases parts@.len() - i,
    {
        proof {
            lemma_join_push(ps, sep@, i as int);
        }
        if i > 0 {
            push_str(&mut out, sep);
        }
        push_str(&mut out, parts[i].as_str());
        i = i + 1;
    }
    assert(ps.take(parts@.len() as int) =~= ps);
    out
}

/// One line of the table for `cells`, with column widths `ws`.
fn render_line(cells: &[String], ws: &[usize]) -> (r: String)
    ensures
        r@ == table_line(texts(cells@), ws@.map_values(|w: usize| w as nat)),
{
    let ghost wn = ws@.map_values(|w: usize| w as nat);
    let ghost cs = texts(cells@);
    let mut padded_cells: Vec<String> = Vec::new();
    let mut i: usize = 0;
    while i < cells.len()
        invariant
            i <= cells@.len(),
            cs == texts(cells@),
            wn == ws@.map_values(|w: usize| w as nat),
            texts(padded_cells@) == Seq::new(i as nat, |k: int| pad(cs[k], if k < wn.len() { wn[k] } else { byte_len(cs[k]) })),
        decreases cells@.len() - i,
    {
        let w = if i < ws.len() { ws[i] } else { byte_count(cells[i].as_str()) };
        let p = padded(cells[i].as_str(), w);
        let ghost before = padded_cells@;
        padded_cells.push(p);
        proof {
            assert(texts(padded_cells@) =~= texts(before).push(p@));
            assert(texts(padded_cells@) =~= Seq::new((i + 1) as nat, |k: int| pad(cs[k], if k < wn.len() { wn[k] } else { byte_len(cs[k]) })));
        }
        i = i + 1;
    }
    let mut line = join_strings(padded_cells.as_slice(), "  ");
    push_str(&mut line, "\n");
    line
}

/// Formats rows under headers as an aligned table.
pub fn format_table(headers: &[&str], rows: &[Vec<String>]) -> (r: String)
    ensures
        r@ == spec_format_table(str_texts(headers@), row_texts(rows@)),
{
    let ghost hs = str_texts(headers@);
    let ghost rs = row_texts(rows@);
    let mut head: Vec<String> = Vec::new();
    let mut i: usize = 0;
    while i < headers.len()
        invariant
            i <= headers@.len(),
            hs == str_texts(headers@),
            texts(head@) == hs.take(i as int),
        decreases headers@.len() - i,
    {
        let ghost before = head@;
        head.push(headers[i].to_owned());
        proof {
            assert(texts(head@) =~= texts(before).push(headers@[i as int]@));
            assert(hs.take(i + 1) =~= hs.take(i as int).push(hs[i as int]));
        }
        i = i + 1;
    }
    assert(hs.take(headers@.len() as int) =~= hs);
    if rows.len() == 0 {
        return join_strings(head.as_slice(), "\t");
    }
    let mut ws: Vec<usize> = Vec::new();
    let mut c: usize = 0;
    while c < headers.len()
        invariant
            c <= headers@.len(),
            hs == str_texts(headers@),
            ws@.len() == c,
            forall|k: int| 0 <= k < c ==> ws@[k] == byte_len(hs[k]),
        decreases headers@.len() - c,
    {
        ws.push(byte_count(headers[c]));
        c = c + 1;
    }
    let mut k: usize = 0;
    while k < rows.len()
        invariant
            k <= rows@.len(),
            hs == str_texts(headers@),
            rs == row_texts(rows@),
            ws@.len() == hs.len(),
            forall|j: int| 0 <= j < hs.len() ==> ws@[j] == col_width(hs, rs.take(k as int), j),
        decreases rows@.len() - k,
    {
        let row = &rows[k];
        assert(rs.take(k + 1).drop_last() =~= rs.take(k as int));
        assert(rs.take(k + 1).last() == texts(row@));
        let mut j: usize = 0;
        while j < ws.len()
            invariant
                j <= ws@.len(),
                ws@.len() == hs.len(),
                k < rows@.len(),
                rs == row_texts(rows@),
                *row == rows@[k as int],
                rs.take(k + 1).drop_last() == rs.take(k as int),
                rs.take(k + 1).last() == texts(row@),
                forall|m: int| 0 <= m < j ==> ws@[m] == col_width(hs, rs.take(k + 1), m),
                forall|m: int| j <= m < hs.len() ==> ws@[m] == col_width(hs, rs.take(k as int), m),
            decreases ws@.len() - j,
        {
            if j < row.len() {
                let n = byte_count(row[j].as_str());
                assert(texts(row@)[j as int] == row@[j as int]@);
                if n > ws[j] {
                    ws.set(j, n);
                }
            }
            j = j + 1;
        }
        k = k + 1;
    }
    assert(rs.take(rows@.len() as int) =~= rs);
    assert(ws@.map_values(|w: usize| w as nat) =~= widths(hs, rs));
    let mut out = render_line(head.as_slice(), ws.as_slice());
    let mut k: usize = 0;
    while k < rows.len()
        invariant
            k <= rows@.len(),
            hs == str_texts(headers@),
            rs == row_texts(rows@),
            ws@.map_values(|w: usize| w as nat) == widths(hs, rs),
            out@ == table_line(hs, widths(hs, rs)) + table_lines(rs.take(k as int), widths(hs, rs)),
        decreases rows@.len() - k,
    {
        let line = render_line(rows[k].as_slice(), ws.as_slice());
        push_str(&mut out, line.as_str());
        proof {
            assert(rs.take(k + 1).drop_last() =~= rs.take(k as int));
            assert(rs.take(k + 1).last() == texts(rows@[k as int]@));
        }
        k = k + 1;
    }
    out
}

} // verus!
