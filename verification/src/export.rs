//! Report export: CSV and Excel-readable HTML documents built from a title, a header
//! row and data rows.

use vstd::prelude::*;
use crate::error::AppError;
use crate::text::{chars_of, push_char, push_str, text_equals};

verus! {

/// The character views of a list of strings.
pub open spec fn views(v: Seq<String>) -> Seq<Seq<char>> {
    v.map_values(|s: String| s@)
}

/// The character views of a table of strings.
pub open spec fn table_views(rows: Seq<Vec<String>>) -> Seq<Seq<Seq<char>>> {
    rows.map_values(|r: Vec<String>| views(r@))
}

/// `parts` joined with `sep` between neighbours.
pub open spec fn join(parts: Seq<Seq<char>>, sep: Seq<char>) -> Seq<char>
    decreases parts.len(),
{
    if parts.len() == 0 {
        Seq::empty()
    } else if parts.len() == 1 {
        parts[0]
    } else {
        join(parts.drop_last(), sep) + sep + parts.last()
    }
}

/// `parts` one after another.
pub open spec fn concat(parts: Seq<Seq<char>>) -> Seq<char>
    decreases parts.len(),
{
    if parts.len() == 0 {
        Seq::empty()
    } else {
        concat(parts.drop_last()) + parts.last()
    }
}

/// Each character of `s` replaced by `f` of it.
pub open spec fn map_chars(s: Seq<char>, f: spec_fn(char) -> Seq<char>) -> Seq<char>
    decreases s.len(),
{
    if s.len() == 0 {
        Seq::empty()
    } else {
        map_chars(s.drop_last(), f) + f(s.last())
    }
}

/// A double quote doubled; any other character kept.
pub open spec fn csv_char(c: char) -> Seq<char> {
    if c == '"' {
        seq!['"', '"']
    } else {
        seq![c]
    }
}

/// `&`, `<`, `>` and `"` replaced by their HTML entities; any other character kept.
pub open spec fn html_char(c: char) -> Seq<char> {
    if c == '&' {
        "&amp;"@
    } else if c == '<' {
        "&lt;"@
    } else if c == '>' {
        "&gt;"@
    } else if c == '"' {
        "&quot;"@
    } else {
        seq![c]
    }
}

/// A CSV field: the value in double quotes, with its own double quotes doubled.
pub open spec fn csv_field(s: Seq<char>) -> Seq<char> {
    seq!['"'] + map_chars(s, |c: char| csv_char(c)) + seq!['"']
}

/// Text made safe to stand in HTML content or in an attribute value.
pub open spec fn html_text(s: Seq<char>) -> Seq<char> {
    map_chars(s, |c: char| html_char(c))
}

/// A CSV record: the fields, each quoted, separated by commas.
pub open spec fn csv_record(fields: Seq<Seq<char>>) -> Seq<char> {
    join(fields.map_values(|f: Seq<char>| csv_field(f)), ","@)
}

/// A CSV document: the header record, then one record per row, separated by CRLF.
pub open spec fn csv_document(headers: Seq<Seq<char>>, rows: Seq<Seq<Seq<char>>>) -> Seq<char> {
    join(
        seq![csv_record(headers)] + rows.map_values(|r: Seq<Seq<char>>| csv_record(r)),
        "\r\n"@,
    )
}

/// Each value wrapped in `open` and `close`, HTML-escaped, one after another.
pub open spec fn html_cells(values: Seq<Seq<char>>, open: Seq<char>, close: Seq<char>) -> Seq<char> {
    concat(values.map_values(|v: Seq<char>| open + html_text(v) + close))
}

/// One `<tr>` per row, each with one `<td>` per value.
pub open spec fn html_rows(rows: Seq<Seq<Seq<char>>>) -> Seq<char> {
    concat(rows.map_values(|r: Seq<Seq<char>>| "<tr>"@ + html_cells(r, "<td>"@, "</td>"@) + "</tr>"@))
}

/// An HTML table document that spreadsheet programs open as a workbook.
pub open spec fn excel_document(
    title: Seq<char>,
    headers: Seq<Seq<char>>,
    rows: Seq<Seq<Seq<char>>>,
) -> Seq<char> {
    "<!DOCTYPE html><html><head><meta charset=\"utf-8\"><title>"@ + html_text(title)
        + "</title></head><body><table border=\"1\"><thead><tr>"@
        + html_cells(headers, "<th>"@, "</th>"@) + "</tr></thead><tbody>"@ + html_rows(rows)
        + "</tbody></table></body></html>"@
}

proof fn lemma_map_chars_step(s: Seq<char>, i: int, f: spec_fn(char) -> Seq<char>)
    requires
        0 <= i < s.len(),
    ensures
        map_chars(s.take(i + 1), f) == map_chars(s.take(i), f) + f(s[i]),
{
    assert(s.take(i + 1).drop_last() =~= s.take(i));
}

proof fn lemma_join_step(parts: Seq<Seq<char>>, sep: Seq<char>, i: int)
    requires
        0 <= i < parts.len(),
    ensures
        join(parts.take(i + 1), sep) == if i == 0 {
            parts[0]
        } else {
            join(parts.take(i), sep) + sep + parts[i]
        },
{
    assert(parts.take(i + 1).drop_last() =~= parts.take(i));
}

proof fn lemma_concat_step(parts: Seq<Seq<char>>, i: int)
    requires
        0 <= i < parts.len(),
    ensures
        concat(parts.take(i + 1)) == concat(parts.take(i)) + parts[i],
{
    assert(parts.take(i + 1).drop_last() =~= parts.take(i));
}

/// The value as a CSV field: in double quotes, with its double quotes doubled.
pub fn csv_escape(value: &str) -> (r: String)
    ensures
        r@ == csv_field(value@),
{
    let v = chars_of(value);
    let mut r = String::new();
    push_char(&mut r, '"');
    let mut i: usize = 0;
    while i < v.len()
        invariant
            i <= v@.len(),
            v@ == value@,
            r@ == seq!['"'] + map_chars(v@.take(i as int), |c: char| csv_char(c)),
        decreases v.len() - i,
    {
        proof {
            lemma_map_chars_step(v@, i as int, |c: char| csv_char(c));
        }
        if v[i] == '"' {
            push_char(&mut r, '"');
            push_char(&mut r, '"');
        } else {
            push_char(&mut r, v[i]);
        }
        assert(r@ =~= seq!['"'] + map_chars(v@.take(i + 1), |c: char| csv_char(c)));
        i = i + 1;
    }
    proof {
        assert(v@.take(v@.len() as int) =~= value@);
    }
    push_char(&mut r, '"');
    r
}

/// Appends `value` with `&`, `<`, `>` and `"` replaced by HTML entities.
pub fn push_html_escaped(out: &mut String, value: &str)
    ensures
        final(out)@ == old(out)@ + html_text(value@),
{
    let v = chars_of(value);
    let ghost start = out@;
    let mut i: usize = 0;
    while i < v.len()
        invariant
            i <= v@.len(),
            v@ == value@,
            out@ == start + map_chars(v@.take(i as int), |c: char| html_char(c)),
        decreases v.len() - i,
    {
        proof {
            lemma_map_chars_step(v@, i as int, |c: char| html_char(c));
        }
        let c = v[i];
        if c == '&' {
            push_str(out, "&amp;");
        } else if c == '<' {
            push_str(out, "&lt;");
        } else if c == '>' {
            push_str(out, "&gt;");
        } else if c == '"' {
            push_str(out, "&quot;");
        } else {
            push_char(out, c);
        }
        assert(out@ =~= start + map_chars(v@.take(i + 1), |c: char| html_char(c)));
        i = i + 1;
    }
    proof {
        assert(v@.take(v@.len() as int) =~= value@);
    }
}

/// `value` with `&`, `<`, `>` and `"` replaced by HTML entities.
pub fn html_escape(value: &str) -> (r: String)
    ensures
        r@ == html_text(value@),
{
    let mut r = String::new();
    push_html_escaped(&mut r, value);
    r
}

/// Appends one CSV record.
fn push_csv_record(out: &mut String, fields: &[String])
    ensures
        final(out)@ == old(out)@ + csv_record(views(fields@)),
{
    let ghost start = out@;
    let ghost parts = views(fields@).map_values(|f: Seq<char>| csv_field(f));
    let mut i: usize = 0;
    while i < fields.len()
        invariant
            i <= fields@.len(),
            parts == views(fields@).map_values(|f: Seq<char>| csv_field(f)),
            out@ == start + join(parts.take(i as int), ","@),
        decreases fields.len() - i,
    {
        proof {
            lemma_join_step(parts, ","@, i as int);
        }
        if i > 0 {
            push_str(out, ",");
        }
        let field = csv_escape(fields[i].as_str());
        assert(parts[i as int] == csv_field(fields@[i as int]@));
        push_str(out, field.as_str());
        assert(out@ =~= start + join(parts.take(i + 1), ","@));
        i = i + 1;
    }
    proof {
        assert(parts.take(fields@.len() as int) =~= parts);
    }
}

/// The CSV document: the header record, then one record per row, separated by CRLF.
pub fn render_csv(headers: &[String], rows: &[Vec<String>]) -> (r: String)
    ensures
        r@ == csv_document(views(headers@), table_views(rows@)),
{
    let ghost lines = seq![csv_record(views(headers@))] + table_views(rows@).map_values(
        |r: Seq<Seq<char>>| csv_record(r),
    );
    let mut out = String::new();
    push_csv_record(&mut out, headers);
    proof {
        lemma_join_step(lines, "\r\n"@, 0);
        assert(out@ =~= join(lines.take(1), "\r\n"@));
    }
    let mut i: usize = 0;
    while i < rows.len()
        invariant
            i <= rows@.len(),
            lines == seq![csv_record(views(headers@))] + table_views(rows@).map_values(
                |r: Seq<Seq<char>>| csv_record(r),
            ),
            out@ == join(lines.take(i + 1), "\r\n"@),
        decreases rows.len() - i,
    {
        proof {
            lemma_join_step(lines, "\r\n"@, i + 1);
        }
        push_str(&mut out, "\r\n");
        push_csv_record(&mut out, rows[i].as_slice());
        assert(lines[i + 1] == csv_record(views(rows@[i as int]@)));
        assert(out@ =~= join(lines.take(i + 2), "\r\n"@));
        i = i + 1;
    }
    proof {
        assert(lines.take(rows@.len() as int + 1) =~= lines);
    }
    out
}

/// Appends each value wrapped in `open` and `close`, HTML-escaped.
fn push_html_cells(out: &mut String, values: &[String], open: &str, close: &str)
    ensures
        final(out)@ == old(out)@ + html_cells(views(values@), open@, close@),
{
    let ghost start = out@;
    let ghost parts = views(values@).map_values(|v: Seq<char>| open@ + html_text(v) + close@);
    let mut i: usize = 0;
    while i < values.len()
        invariant
            i <= values@.len(),
            parts == views(values@).map_values(|v: Seq<char>| open@ + html_text(v) + close@),
            out@ == start + concat(parts.take(i as int)),
        decreases values.len() - i,
    {
        proof {
            lemma_concat_step(parts, i as int);
        }
        push_str(out, open);
        push_html_escaped(out, values[i].as_str());
        push_str(out, close);
        assert(out@ =~= start + concat(parts.take(i + 1)));
        i = i + 1;
    }
    proof {
        assert(parts.take(values@.len() as int) =~= parts);
    }
}

/// The HTML table document for a title, a header row and data rows.
pub fn render_excel_html(title: &str, headers: &[String], rows: &[Vec<String>]) -> (r: String)
    ensures
        r@ == excel_document(title@, views(headers@), table_views(rows@)),
{
    let mut out = "<!DOCTYPE html><html><head><meta charset=\"utf-8\"><title>".to_owned();
    push_html_escaped(&mut out, title);
    push_str(&mut out, "</title></head><body><table border=\"1\"><thead><tr>");
    push_html_cells(&mut out, headers, "<th>", "</th>");
    push_str(&mut out, "</tr></thead><tbody>");
    let ghost before_rows = out@;
    let ghost parts = table_views(rows@).map_values(
        |r: Seq<Seq<char>>| "<tr>"@ + html_cells(r, "<td>"@, "</td>"@) + "</tr>"@,
    );
    let mut i: usize = 0;
    while i < rows.len()
        invariant
            i <= rows@.len(),
            parts == table_views(rows@).map_values(
                |r: Seq<Seq<char>>| "<tr>"@ + html_cells(r, "<td>"@, "</td>"@) + "</tr>"@,
            ),
            out@ == before_rows + concat(parts.take(i as int)),
        decreases rows.len() - i,
    {
        proof {
            lemma_concat_step(parts, i as int);
        }
        push_str(&mut out, "<tr>");
        push_html_cells(&mut out, rows[i].as_slice(), "<td>", "</td>");
        push_str(&mut out, "</tr>");
        assert(out@ =~= before_rows + concat(parts.take(i + 1)));
        i = i + 1;
    }
    proof {
        assert(parts.take(rows@.len() as int) =~= parts);
    }
    push_str(&mut out, "</tbody></table></body></html>");
    assert(out@ =~= excel_document(title@, views(headers@), table_views(rows@)));
    out
}


/// How many times `c` occurs in `s`.
pub open spec fn count_char(s: Seq<char>, c: char) -> nat
    decreases s.len(),
{
    if s.len() == 0 {
        0
    } else {
        count_char(s.drop_last(), c) + if s.last() == c {
            1nat
        } else {
            0nat
        }
    }
}

/// The number of cells in all rows together.
pub open spec fn cell_count(rows: Seq<Seq<Seq<char>>>) -> nat
    decreases rows.len(),
{
    if rows.len() == 0 {
        0
    } else {
        cell_count(rows.drop_last()) + rows.last().len()
    }
}

proof fn lemma_count_concat(a: Seq<char>, b: Seq<char>, c: char)
    ensures
        count_char(a + b, c) == count_char(a, c) + count_char(b, c),
    decreases b.len(),
{
    if b.len() == 0 {
        assert(a + b =~= a);
    } else {
        lemma_count_concat(a, b.drop_last(), c);
        assert((a + b).drop_last() =~= a + b.drop_last());
    }
}

proof fn lemma_count_absent(s: Seq<char>, c: char)
    requires
        !s.contains(c),
    ensures
        count_char(s, c) == 0,
    decreases s.len(),
{
    if s.len() > 0 {
        assert(s[s.len() - 1] == s.last());
        assert forall|i: int| 0 <= i < s.drop_last().len() implies s.drop_last()[i] != c by {
            assert(s.drop_last()[i] == s[i]);
        }
        lemma_count_absent(s.drop_last(), c);
    }
}

proof fn lemma_html_text_count(v: Seq<char>, c: char)
    requires
        c == '<' || c == '>',
    ensures
        count_char(html_text(v), c) == 0,
{
    lemma_html_text_safe(v);
    assert(!html_text(v).contains(c));
    lemma_count_absent(html_text(v), c);
}

proof fn lemma_html_cells_count(values: Seq<Seq<char>>, open: Seq<char>, close: Seq<char>, c: char)
    requires
        c == '<' || c == '>',
    ensures
        count_char(html_cells(values, open, close), c) == values.len() * (count_char(open, c)
            + count_char(close, c)),
    decreases values.len(),
{
    let f = |v: Seq<char>| open + html_text(v) + close;
    if values.len() == 0 {
        assert(values.map_values(f) =~= Seq::<Seq<char>>::empty());
    } else {
        let last = values.last();
        lemma_html_cells_count(values.drop_last(), open, close, c);
        assert(values.map_values(f).drop_last() =~= values.drop_last().map_values(f));
        assert(values.map_values(f).last() == f(last));
        lemma_count_concat(open, html_text(last), c);
        lemma_count_concat(open + html_text(last), close, c);
        lemma_html_text_count(last, c);
        lemma_count_concat(html_cells(values.drop_last(), open, close), f(last), c);
        let k = count_char(open, c) + count_char(close, c);
        assert((values.len() - 1) * k + k == values.len() * k) by (nonlinear_arith);
    }
}

proof fn lemma_html_rows_count(rows: Seq<Seq<Seq<char>>>, c: char)
    requires
        c == '<' || c == '>',
    ensures
        count_char(html_rows(rows), c) == 2 * rows.len() + 2 * cell_count(rows),
    decreases rows.len(),
{
    let f = |r: Seq<Seq<char>>| "<tr>"@ + html_cells(r, "<td>"@, "</td>"@) + "</tr>"@;
    reveal_strlit("<tr>");
    reveal_strlit("</tr>");
    reveal_strlit("<td>");
    reveal_strlit("</td>");
    reveal_with_fuel(count_char, 6);
    assert(count_char("<tr>"@, c) == 1);
    assert(count_char("</tr>"@, c) == 1);
    assert(count_char("<td>"@, c) == 1);
    assert(count_char("</td>"@, c) == 1);
    if rows.len() == 0 {
        assert(rows.map_values(f) =~= Seq::<Seq<char>>::empty());
    } else {
        let last = rows.last();
        lemma_html_rows_count(rows.drop_last(), c);
        assert(rows.map_values(f).drop_last() =~= rows.drop_last().map_values(f));
        assert(rows.map_values(f).last() == f(last));
        lemma_html_cells_count(last, "<td>"@, "</td>"@, c);
        lemma_count_concat("<tr>"@, html_cells(last, "<td>"@, "</td>"@), c);
        lemma_count_concat("<tr>"@ + html_cells(last, "<td>"@, "</td>"@), "</tr>"@, c);
        lemma_count_concat(html_rows(rows.drop_last()), f(last), c);
        assert(html_rows(rows) == html_rows(rows.drop_last()) + f(last));
        assert(f(last) == "<tr>"@ + html_cells(last, "<td>"@, "</td>"@) + "</tr>"@);
        let a = count_char("<td>"@, c);
        let b = count_char("</td>"@, c);
        assert(last.len() * (a + b) == 2 * last.len()) by (nonlinear_arith)
            requires
                a == 1,
                b == 1,
        ;
        assert(count_char(f(last), c) == 2 + 2 * last.len());
    }
}

proof fn lemma_tag_doctype_html(c: char)
    requires
        c == '<' || c == '>',
    ensures
        count_char("<!DOCTYPE html>"@, c) == 1,
{
    reveal_strlit("<!DOCTYPE html>");
    reveal_with_fuel(count_char, 16);
}

proof fn lemma_tag_html(c: char)
    requires
        c == '<' || c == '>',
    ensures
        count_char("<html>"@, c) == 1,
{
    reveal_strlit("<html>");
    reveal_with_fuel(count_char, 7);
}

proof fn lemma_tag_head(c: char)
    requires
        c == '<' || c == '>',
    ensures
        count_char("<head>"@, c) == 1,
{
    reveal_strlit("<head>");
    reveal_with_fuel(count_char, 7);
}

proof fn lemma_tag_meta_charset_utf(c: char)
    requires
        c == '<' || c == '>',
    ensures
        count_char("<meta charset=\"utf-8\">"@, c) == 1,
{
    reveal_strlit("<meta charset=\"utf-8\">");
    reveal_with_fuel(count_char, 23);
}

proof fn lemma_tag_title(c: char)
    requires
        c == '<' || c == '>',
    ensures
        count_char("<title>"@, c) == 1,
{
    reveal_strlit("<title>");
    reveal_with_fuel(count_char, 8);
}

proof fn lemma_tag_end_title(c: char)
    requires
        c == '<' || c == '>',
    ensures
        count_char("</title>"@, c) == 1,
{
    reveal_strlit("</title>");
    reveal_with_fuel(count_char, 9);
}

proof fn lemma_tag_end_head(c: char)
    requires
        c == '<' || c == '>',
    ensures
        count_char("</head>"@, c) == 1,
{
    reveal_strlit("</head>");
    reveal_with_fuel(count_char, 8);
}

proof fn lemma_tag_body(c: char)
    requires
        c == '<' || c == '>',
    ensures
        count_char("<body>"@, c) == 1,
{
    reveal_strlit("<body>");
    reveal_with_fuel(count_char, 7);
}

proof fn lemma_tag_table_border(c: char)
    requires
        c == '<' || c == '>',
    ensures
        count_char("<table border=\"1\">"@, c) == 1,
{
    reveal_strlit("<table border=\"1\">");
    reveal_with_fuel(count_char, 19);
}

proof fn lemma_tag_thead(c: char)
    requires
        c == '<' || c == '>',
    ensures
        count_char("<thead>"@, c) == 1,
{
    reveal_strlit("<thead>");
    reveal_with_fuel(count_char, 8);
}

proof fn lemma_tag_tr(c: char)
    requires
        c == '<' || c == '>',
    ensures
        count_char("<tr>"@, c) == 1,
{
    reveal_strlit("<tr>");
    reveal_with_fuel(count_char, 5);
}

proof fn lemma_tag_end_tr(c: char)
    requires
        c == '<' || c == '>',
    ensures
        count_char("</tr>"@, c) == 1,
{
    reveal_strlit("</tr>");
    reveal_with_fuel(count_char, 6);
}

proof fn lemma_tag_end_thead(c: char)
    requires
        c == '<' || c == '>',
    ensures
        count_char("</thead>"@, c) == 1,
{
    reveal_strlit("</thead>");
    reveal_with_fuel(count_char, 9);
}

proof fn lemma_tag_tbody(c: char)
    requires
        c == '<' || c == '>',
    ensures
        count_char("<tbody>"@, c) == 1,
{
    reveal_strlit("<tbody>");
    reveal_with_fuel(count_char, 8);
}

proof fn lemma_tag_end_tbody(c: char)
    requires
        c == '<' || c == '>',
    ensures
        count_char("</tbody>"@, c) == 1,
{
    reveal_strlit("</tbody>");
    reveal_with_fuel(count_char, 9);
}

proof fn lemma_tag_end_table(c: char)
    requires
        c == '<' || c == '>',
    ensures
        count_char("</table>"@, c) == 1,
{
    reveal_strlit("</table>");
    reveal_with_fuel(count_char, 9);
}

proof fn lemma_tag_end_body(c: char)
    requires
        c == '<' || c == '>',
    ensures
        count_char("</body>"@, c) == 1,
{
    reveal_strlit("</body>");
    reveal_with_fuel(count_char, 8);
}

proof fn lemma_tag_end_html(c: char)
    requires
        c == '<' || c == '>',
    ensures
        count_char("</html>"@, c) == 1,
{
    reveal_strlit("</html>");
    reveal_with_fuel(count_char, 8);
}

proof fn lemma_tag_th(c: char)
    requires
        c == '<' || c == '>',
    ensures
        count_char("<th>"@, c) == 1,
{
    reveal_strlit("<th>");
    reveal_with_fuel(count_char, 5);
}

proof fn lemma_tag_end_th(c: char)
    requires
        c == '<' || c == '>',
    ensures
        count_char("</th>"@, c) == 1,
{
    reveal_strlit("</th>");
    reveal_with_fuel(count_char, 6);
}

proof fn lemma_page_head_count(c: char)
    requires
        c == '<' || c == '>',
    ensures
        count_char("<!DOCTYPE html><html><head><meta charset=\"utf-8\"><title>"@, c) == 5,
{
    reveal_strlit("<!DOCTYPE html><html><head><meta charset=\"utf-8\"><title>");
    reveal_strlit("<!DOCTYPE html>");
    reveal_strlit("<html>");
    reveal_strlit("<head>");
    reveal_strlit("<meta charset=\"utf-8\">");
    reveal_strlit("<title>");
    lemma_tag_doctype_html(c);
    lemma_tag_html(c);
    lemma_tag_head(c);
    lemma_tag_meta_charset_utf(c);
    lemma_tag_title(c);
    lemma_count_concat("<!DOCTYPE html>"@, "<html>"@, c);
    lemma_count_concat("<!DOCTYPE html>"@ + "<html>"@, "<head>"@, c);
    lemma_count_concat("<!DOCTYPE html>"@ + "<html>"@ + "<head>"@, "<meta charset=\"utf-8\">"@, c);
    lemma_count_concat("<!DOCTYPE html>"@ + "<html>"@ + "<head>"@ + "<meta charset=\"utf-8\">"@, "<title>"@, c);
    assert("<!DOCTYPE html><html><head><meta charset=\"utf-8\"><title>"@ =~= "<!DOCTYPE html>"@ + "<html>"@ + "<head>"@ + "<meta charset=\"utf-8\">"@ + "<title>"@);
}

proof fn lemma_table_head_count(c: char)
    requires
        c == '<' || c == '>',
    ensures
        count_char("</title></head><body><table border=\"1\"><thead><tr>"@, c) == 6,
{
    reveal_strlit("</title></head><body><table border=\"1\"><thead><tr>");
    reveal_strlit("</title>");
    reveal_strlit("</head>");
    reveal_strlit("<body>");
    reveal_strlit("<table border=\"1\">");
    reveal_strlit("<thead>");
    reveal_strlit("<tr>");
    lemma_tag_end_title(c);
    lemma_tag_end_head(c);
    lemma_tag_body(c);
    lemma_tag_table_border(c);
    lemma_tag_thead(c);
    lemma_tag_tr(c);
    lemma_count_concat("</title>"@, "</head>"@, c);
    lemma_count_concat("</title>"@ + "</head>"@, "<body>"@, c);
    lemma_count_concat("</title>"@ + "</head>"@ + "<body>"@, "<table border=\"1\">"@, c);
    lemma_count_concat("</title>"@ + "</head>"@ + "<body>"@ + "<table border=\"1\">"@, "<thead>"@, c);
    lemma_count_concat("</title>"@ + "</head>"@ + "<body>"@ + "<table border=\"1\">"@ + "<thead>"@, "<tr>"@, c);
    assert("</title></head><body><table border=\"1\"><thead><tr>"@ =~= "</title>"@ + "</head>"@ + "<body>"@ + "<table border=\"1\">"@ + "<thead>"@ + "<tr>"@);
}

proof fn lemma_table_body_count(c: char)
    requires
        c == '<' || c == '>',
    ensures
        count_char("</tr></thead><tbody>"@, c) == 3,
{
    reveal_strlit("</tr></thead><tbody>");
    reveal_strlit("</tr>");
    reveal_strlit("</thead>");
    reveal_strlit("<tbody>");
    lemma_tag_end_tr(c);
    lemma_tag_end_thead(c);
    lemma_tag_tbody(c);
    lemma_count_concat("</tr>"@, "</thead>"@, c);
    lemma_count_concat("</tr>"@ + "</thead>"@, "<tbody>"@, c);
    assert("</tr></thead><tbody>"@ =~= "</tr>"@ + "</thead>"@ + "<tbody>"@);
}

proof fn lemma_page_tail_count(c: char)
    requires
        c == '<' || c == '>',
    ensures
        count_char("</tbody></table></body></html>"@, c) == 4,
{
    reveal_strlit("</tbody></table></body></html>");
    reveal_strlit("</tbody>");
    reveal_strlit("</table>");
    reveal_strlit("</body>");
    reveal_strlit("</html>");
    lemma_tag_end_tbody(c);
    lemma_tag_end_table(c);
    lemma_tag_end_body(c);
    lemma_tag_end_html(c);
    lemma_count_concat("</tbody>"@, "</table>"@, c);
    lemma_count_concat("</tbody>"@ + "</table>"@, "</body>"@, c);
    lemma_count_concat("</tbody>"@ + "</table>"@ + "</body>"@, "</html>"@, c);
    assert("</tbody></table></body></html>"@ =~= "</tbody>"@ + "</table>"@ + "</body>"@ + "</html>"@);
}

/// The Excel document is well formed in its tags: it has exactly as many `<` as `>`,
/// eighteen of each for the page around the table, two for each header cell, each row
/// and each cell, and none from the title, the headers or the cells, whose `<` and `>`
/// are all escaped.
pub proof fn law_excel_tag_count(
    title: Seq<char>,
    headers: Seq<Seq<char>>,
    rows: Seq<Seq<Seq<char>>>,
)
    ensures
        count_char(excel_document(title, headers, rows), '<') == 18 + 2 * headers.len() + 2
            * rows.len() + 2 * cell_count(rows),
        count_char(excel_document(title, headers, rows), '>') == 18 + 2 * headers.len() + 2
            * rows.len() + 2 * cell_count(rows),
{
    lemma_excel_count(title, headers, rows, '<');
    lemma_excel_count(title, headers, rows, '>');
}

proof fn lemma_excel_count(
    title: Seq<char>,
    headers: Seq<Seq<char>>,
    rows: Seq<Seq<Seq<char>>>,
    c: char,
)
    requires
        c == '<' || c == '>',
    ensures
        count_char(excel_document(title, headers, rows), c) == 18 + 2 * headers.len() + 2
            * rows.len() + 2 * cell_count(rows),
{
    let p1 = "<!DOCTYPE html><html><head><meta charset=\"utf-8\"><title>"@;
    let p2 = "</title></head><body><table border=\"1\"><thead><tr>"@;
    let p3 = "</tr></thead><tbody>"@;
    let p4 = "</tbody></table></body></html>"@;
    let th = "<th>"@;
    let th_end = "</th>"@;
    lemma_page_head_count(c);
    lemma_table_head_count(c);
    lemma_table_body_count(c);
    lemma_page_tail_count(c);
    lemma_tag_th(c);
    lemma_tag_end_th(c);
    let t = html_text(title);
    let h = html_cells(headers, th, th_end);
    let r = html_rows(rows);
    lemma_html_text_count(title, c);
    lemma_html_cells_count(headers, th, th_end, c);
    assert(headers.len() * (count_char(th, c) + count_char(th_end, c)) == 2 * headers.len())
        by (nonlinear_arith)
        requires
            count_char(th, c) == 1,
            count_char(th_end, c) == 1,
    ;
    lemma_html_rows_count(rows, c);
    lemma_count_concat(p1, t, c);
    lemma_count_concat(p1 + t, p2, c);
    lemma_count_concat(p1 + t + p2, h, c);
    lemma_count_concat(p1 + t + p2 + h, p3, c);
    lemma_count_concat(p1 + t + p2 + h + p3, r, c);
    lemma_count_concat(p1 + t + p2 + h + p3 + r, p4, c);
}

/// A file to download: its media type, its name, the `Content-Disposition` header that
/// names it, and its contents.
pub struct ExportDocument {
    pub content_type: String,
    pub file_name: String,
    pub disposition: String,
    pub body: String,
}

/// The `Content-Disposition` value that offers a file for download.
pub open spec fn attachment(file_name: Seq<char>) -> Seq<char> {
    "attachment; filename=\""@ + file_name + "\""@
}

/// The export in the requested format: `csv` gives a CSV file that begins with a byte
/// order mark, `xls` an HTML table that spreadsheet programs open; any other format is
/// refused.
pub open spec fn export_matches(
    title: Seq<char>,
    headers: Seq<Seq<char>>,
    rows: Seq<Seq<Seq<char>>>,
    format: Seq<char>,
    r: Result<ExportDocument, AppError>,
) -> bool {
    if format == "csv"@ {
        r matches Ok(d) && {
            &&& d.content_type@ == "text/csv; charset=utf-8"@
            &&& d.file_name@ == title + ".csv"@
            &&& d.disposition@ == attachment(d.file_name@)
            &&& d.body@ == seq!['\u{feff}'] + csv_document(headers, rows)
        }
    } else if format == "xls"@ {
        r matches Ok(d) && {
            &&& d.content_type@ == "application/vnd.ms-excel; charset=utf-8"@
            &&& d.file_name@ == title + ".xls"@
            &&& d.disposition@ == attachment(d.file_name@)
            &&& d.body@ == excel_document(title, headers, rows)
        }
    } else {
        r matches Err(AppError::BadRequest(m)) && m@ == "Поддерживаются только форматы csv и xls."@
    }
}

fn attachment_header(file_name: &str) -> (r: String)
    ensures
        r@ == attachment(file_name@),
{
    let mut r = "attachment; filename=\"".to_owned();
    push_str(&mut r, file_name);
    push_str(&mut r, "\"");
    r
}

fn file_name_with(title: &str, extension: &str) -> (r: String)
    ensures
        r@ == title@ + extension@,
{
    let mut r = title.to_owned();
    push_str(&mut r, extension);
    r
}

/// The download of a table in the requested format (`csv` or `xls`).
pub fn render_export_response(
    title: &str,
    headers: &[String],
    rows: &[Vec<String>],
    format: &str,
) -> (r: Result<ExportDocument, AppError>)
    ensures
        export_matches(title@, views(headers@), table_views(rows@), format@, r),
{
    if text_equals(format, "csv") {
        let file_name = file_name_with(title, ".csv");
        let mut body = String::new();
        push_char(&mut body, '\u{feff}');
        let csv = render_csv(headers, rows);
        push_str(&mut body, csv.as_str());
        let disposition = attachment_header(file_name.as_str());
        Ok(ExportDocument {
            content_type: "text/csv; charset=utf-8".to_owned(),
            file_name,
            disposition,
            body,
        })
    } else if text_equals(format, "xls") {
        let file_name = file_name_with(title, ".xls");
        let disposition = attachment_header(file_name.as_str());
        Ok(ExportDocument {
            content_type: "application/vnd.ms-excel; charset=utf-8".to_owned(),
            file_name,
            disposition,
            body: render_excel_html(title, headers, rows),
        })
    } else {
        Err(AppError::BadRequest("Поддерживаются только форматы csv и xls.".to_owned()))
    }
}


/// Where a CSV reader stands: at the start of a field, inside a quoted field, just
/// after a quote inside one, after a carriage return, or on text that is not CSV.
pub enum CsvMode {
    FieldStart,
    Quoted,
    QuoteSeen,
    AfterCr,
    Broken,
}

/// A CSV reader part way through a text: the records it has read, the fields of the
/// record it is reading, the field it is reading, and where it stands.
#[verifier::ext_equal]
pub struct CsvReader {
    pub records: Seq<Seq<Seq<char>>>,
    pub fields: Seq<Seq<char>>,
    pub field: Seq<char>,
    pub mode: CsvMode,
}

/// A reader at the start of a text.
pub open spec fn csv_reader_start() -> CsvReader {
    CsvReader { records: Seq::empty(), fields: Seq::empty(), field: Seq::empty(), mode: CsvMode::FieldStart }
}

/// One character read, as RFC 4180 reads quoted fields: a field opens with a quote; in
/// it a doubled quote stands for one and a single quote closes it; a comma then starts
/// the next field, and CR LF the next record.
pub open spec fn csv_step(st: CsvReader, c: char) -> CsvReader {
    match st.mode {
        CsvMode::FieldStart => if c == '"' {
            CsvReader { field: Seq::empty(), mode: CsvMode::Quoted, ..st }
        } else {
            CsvReader { mode: CsvMode::Broken, ..st }
        },
        CsvMode::Quoted => if c == '"' {
            CsvReader { mode: CsvMode::QuoteSeen, ..st }
        } else {
            CsvReader { field: st.field.push(c), ..st }
        },
        CsvMode::QuoteSeen => if c == '"' {
            CsvReader { field: st.field.push('"'), mode: CsvMode::Quoted, ..st }
        } else if c == ',' {
            CsvReader {
                fields: st.fields.push(st.field),
                field: Seq::empty(),
                mode: CsvMode::FieldStart,
                ..st
            }
        } else if c == '\r' {
            CsvReader { mode: CsvMode::AfterCr, ..st }
        } else {
            CsvReader { mode: CsvMode::Broken, ..st }
        },
        CsvMode::AfterCr => if c == '\n' {
            CsvReader {
                records: st.records.push(st.fields.push(st.field)),
                fields: Seq::empty(),
                field: Seq::empty(),
                mode: CsvMode::FieldStart,
            }
        } else {
            CsvReader { mode: CsvMode::Broken, ..st }
        },
        CsvMode::Broken => st,
    }
}

/// The reader after reading `s` from `st`.
pub open spec fn csv_scan(st: CsvReader, s: Seq<char>) -> CsvReader
    decreases s.len(),
{
    if s.len() == 0 {
        st
    } else {
        csv_step(csv_scan(st, s.drop_last()), s.last())
    }
}

/// The records of a CSV text whose fields are all quoted, or `None` where the text is
/// not such CSV.
pub open spec fn read_csv(s: Seq<char>) -> Option<Seq<Seq<Seq<char>>>> {
    let st = csv_scan(csv_reader_start(), s);
    if st.mode == CsvMode::QuoteSeen {
        Some(st.records.push(st.fields.push(st.field)))
    } else {
        None
    }
}

proof fn lemma_csv_scan_split(st: CsvReader, a: Seq<char>, b: Seq<char>)
    ensures
        csv_scan(st, a + b) == csv_scan(csv_scan(st, a), b),
    decreases b.len(),
{
    if b.len() == 0 {
        assert(a + b =~= a);
    } else {
        lemma_csv_scan_split(st, a, b.drop_last());
        assert((a + b).drop_last() =~= a + b.drop_last());
    }
}

proof fn lemma_csv_scan_one(st: CsvReader, c: char)
    ensures
        csv_scan(st, seq![c]) == csv_step(st, c),
{
    assert(seq![c].drop_last() =~= Seq::<char>::empty());
    assert(csv_scan(st, Seq::<char>::empty()) == st);
}

proof fn lemma_csv_scan_body(st: CsvReader, v: Seq<char>)
    requires
        st.mode == CsvMode::Quoted,
    ensures
        csv_scan(st, map_chars(v, |c: char| csv_char(c))) == (CsvReader { field: st.field + v, ..st }),
    decreases v.len(),
{
    let f = |c: char| csv_char(c);
    if v.len() == 0 {
        assert(st.field + v =~= st.field);
        assert(csv_scan(st, map_chars(v, f)) == st);
        assert(CsvReader { field: st.field + v, ..st } =~= st);
    } else {
        let c = v.last();
        let mid = CsvReader { field: st.field + v.drop_last(), ..st };
        lemma_csv_scan_body(st, v.drop_last());
        assert(map_chars(v, f) == map_chars(v.drop_last(), f) + f(c));
        lemma_csv_scan_split(st, map_chars(v.drop_last(), f), f(c));
        assert(csv_scan(st, map_chars(v, f)) == csv_scan(mid, f(c)));
        if c == '"' {
            assert(f(c) =~= seq!['"'] + seq!['"']);
            lemma_csv_scan_split(mid, seq!['"'], seq!['"']);
            lemma_csv_scan_one(mid, '"');
            lemma_csv_scan_one(csv_step(mid, '"'), '"');
        } else {
            assert(f(c) == seq![c]);
            lemma_csv_scan_one(mid, c);
        }
        assert(mid.field.push(c) =~= st.field + v);
        assert(csv_scan(mid, f(c)) =~= CsvReader { field: st.field + v, ..st });
    }
}

proof fn lemma_csv_scan_field(st: CsvReader, v: Seq<char>)
    requires
        st.mode == CsvMode::FieldStart,
    ensures
        csv_scan(st, csv_field(v)) == (CsvReader { field: v, mode: CsvMode::QuoteSeen, ..st }),
{
    let body = map_chars(v, |c: char| csv_char(c));
    let opened = CsvReader { field: Seq::empty(), mode: CsvMode::Quoted, ..st };
    lemma_csv_scan_one(st, '"');
    assert(csv_scan(st, seq!['"']) == opened);
    lemma_csv_scan_split(st, seq!['"'], body);
    lemma_csv_scan_body(opened, v);
    assert(opened.field + v =~= v);
    let read = CsvReader { field: v, ..opened };
    lemma_csv_scan_split(st, seq!['"'] + body, seq!['"']);
    lemma_csv_scan_one(read, '"');
    assert(csv_scan(st, csv_field(v)) =~= CsvReader { field: v, mode: CsvMode::QuoteSeen, ..st });
}

proof fn lemma_csv_scan_record(st: CsvReader, fs: Seq<Seq<char>>)
    requires
        st.mode == CsvMode::FieldStart,
        fs.len() > 0,
    ensures
        csv_scan(st, csv_record(fs)) == (CsvReader {
            fields: st.fields + fs.drop_last(),
            field: fs.last(),
            mode: CsvMode::QuoteSeen,
            ..st
        }),
    decreases fs.len(),
{
    let g = |f: Seq<char>| csv_field(f);
    let parts = fs.map_values(g);
    if fs.len() == 1 {
        assert(csv_record(fs) == csv_field(fs[0]));
        lemma_csv_scan_field(st, fs[0]);
        assert(st.fields + fs.drop_last() =~= st.fields);
    } else {
        let init = fs.drop_last();
        reveal_strlit(",");
        assert(parts.drop_last() =~= init.map_values(g));
        assert(csv_record(fs) == csv_record(init) + ","@ + csv_field(fs.last()));
        lemma_csv_scan_record(st, init);
        let s1 = CsvReader {
            fields: st.fields + init.drop_last(),
            field: init.last(),
            mode: CsvMode::QuoteSeen,
            ..st
        };
        lemma_csv_scan_split(st, csv_record(init), ","@);
        assert(","@ =~= seq![',']);
        lemma_csv_scan_one(s1, ',');
        let s2 = csv_step(s1, ',');
        assert(s1.fields.push(s1.field) =~= st.fields + fs.drop_last()) by {
            assert(init.drop_last().push(init.last()) =~= init);
        }
        lemma_csv_scan_split(st, csv_record(init) + ","@, csv_field(fs.last()));
        lemma_csv_scan_field(s2, fs.last());
        assert(csv_scan(st, csv_record(fs)) =~= CsvReader {
            fields: st.fields + fs.drop_last(),
            field: fs.last(),
            mode: CsvMode::QuoteSeen,
            ..st
        });
    }
}

proof fn lemma_csv_scan_records(st: CsvReader, rs: Seq<Seq<Seq<char>>>)
    requires
        st.mode == CsvMode::FieldStart,
        st.fields.len() == 0,
        rs.len() > 0,
        forall|i: int| 0 <= i < rs.len() ==> (#[trigger] rs[i]).len() > 0,
    ensures
        csv_scan(st, join(rs.map_values(|r: Seq<Seq<char>>| csv_record(r)), "\r\n"@)) == (
        CsvReader {
            records: st.records + rs.drop_last(),
            fields: rs.last().drop_last(),
            field: rs.last().last(),
            mode: CsvMode::QuoteSeen,
        }),
    decreases rs.len(),
{
    let g = |r: Seq<Seq<char>>| csv_record(r);
    let lines = rs.map_values(g);
    let last = rs.last();
    assert(last == rs[rs.len() - 1]);
    if rs.len() == 1 {
        assert(join(lines, "\r\n"@) == csv_record(rs[0]));
        lemma_csv_scan_record(st, rs[0]);
        assert(st.fields + last.drop_last() =~= last.drop_last());
        assert(st.records + rs.drop_last() =~= st.records);
    } else {
        let init = rs.drop_last();
        let crlf = "\r\n"@;
        reveal_strlit("\r\n");
        assert(lines.drop_last() =~= init.map_values(g));
        assert(join(lines, crlf) == join(init.map_values(g), crlf) + crlf + csv_record(last));
        assert forall|i: int| 0 <= i < init.len() implies (#[trigger] init[i]).len() > 0 by {
            assert(init[i] == rs[i]);
        }
        lemma_csv_scan_records(st, init);
        let prev = init.last();
        assert(prev == rs[rs.len() - 2]);
        let s1 = CsvReader {
            records: st.records + init.drop_last(),
            fields: prev.drop_last(),
            field: prev.last(),
            mode: CsvMode::QuoteSeen,
        };
        lemma_csv_scan_split(st, join(init.map_values(g), crlf), crlf);
        assert(crlf =~= seq!['\r'] + seq!['\n']);
        lemma_csv_scan_split(s1, seq!['\r'], seq!['\n']);
        lemma_csv_scan_one(s1, '\r');
        lemma_csv_scan_one(csv_step(s1, '\r'), '\n');
        let s2 = CsvReader {
            records: st.records + rs.drop_last(),
            fields: Seq::empty(),
            field: Seq::empty(),
            mode: CsvMode::FieldStart,
        };
        assert(prev.drop_last().push(prev.last()) =~= prev);
        assert((st.records + init.drop_last()).push(prev) =~= st.records + rs.drop_last());
        assert(csv_scan(s1, crlf) =~= s2);
        lemma_csv_scan_split(st, join(init.map_values(g), crlf) + crlf, csv_record(last));
        lemma_csv_scan_record(s2, last);
        assert(s2.fields + last.drop_last() =~= last.drop_last());
    }
}

/// A CSV document reads back as what was exported: read as RFC 4180 CSV, the text
/// that `render_csv` writes gives the header row and then each data row, with every
/// value as it went in, whatever commas, quotes or line breaks it holds. (A record
/// with no field at all writes as an empty line, which reads back as no record; so the
/// header row and every data row have at least one value here.)
pub proof fn law_csv_document_round_trip(headers: Seq<Seq<char>>, rows: Seq<Seq<Seq<char>>>)
    requires
        headers.len() > 0,
        forall|i: int| 0 <= i < rows.len() ==> (#[trigger] rows[i]).len() > 0,
    ensures
        read_csv(csv_document(headers, rows)) == Some(seq![headers] + rows),
{
    let g = |r: Seq<Seq<char>>| csv_record(r);
    let rs = seq![headers] + rows;
    assert(seq![csv_record(headers)] + rows.map_values(g) =~= rs.map_values(g));
    assert forall|i: int| 0 <= i < rs.len() implies (#[trigger] rs[i]).len() > 0 by {
        if i > 0 {
            assert(rs[i] == rows[i - 1]);
        }
    }
    lemma_csv_scan_records(csv_reader_start(), rs);
    let last = rs.last();
    assert(last.drop_last().push(last.last()) =~= last);
    assert(Seq::<Seq<Seq<char>>>::empty() + rs.drop_last() =~= rs.drop_last());
    assert(rs.drop_last().push(last) =~= rs);
}

proof fn lemma_join_last_len(parts: Seq<Seq<char>>, sep: Seq<char>)
    requires
        parts.len() > 0,
    ensures
        join(parts, sep).len() >= parts.last().len(),
        parts.len() > 1 ==> join(parts, sep).len() >= sep.len() + parts.last().len(),
{
}

/// A CSV document is empty exactly when there is nothing to write: no column title and
/// no row. Any header or row writes at least its quotes or a line break.
pub proof fn law_csv_document_empty(headers: Seq<Seq<char>>, rows: Seq<Seq<Seq<char>>>)
    ensures
        csv_document(headers, rows).len() == 0 <==> headers.len() == 0 && rows.len() == 0,
{
    let g = |r: Seq<Seq<char>>| csv_record(r);
    let lines = seq![csv_record(headers)] + rows.map_values(g);
    let fields = headers.map_values(|f: Seq<char>| csv_field(f));
    reveal_strlit("\r\n");
    lemma_join_last_len(lines, "\r\n"@);
    if headers.len() > 0 {
        lemma_join_last_len(fields, ","@);
        assert(fields.last() == csv_field(headers.last()));
    } else {
        assert(fields =~= Seq::<Seq<char>>::empty());
    }
    if rows.len() == 0 {
        assert(lines =~= seq![csv_record(headers)]);
    }
}

/// Reading a CSV field's body back: a doubled double quote stands for one, any other
/// character for itself.
pub open spec fn csv_unescape(t: Seq<char>) -> Seq<char>
    decreases t.len(),
{
    if t.len() == 0 {
        Seq::empty()
    } else if t.len() >= 2 && t[0] == '"' && t[1] == '"' {
        seq!['"'] + csv_unescape(t.skip(2))
    } else {
        seq![t[0]] + csv_unescape(t.skip(1))
    }
}

/// A CSV field read back: the text between the outer quotes, unescaped.
pub open spec fn csv_field_value(f: Seq<char>) -> Seq<char> {
    csv_unescape(f.subrange(1, f.len() - 1))
}

proof fn lemma_map_chars_prepend(c: char, s: Seq<char>, f: spec_fn(char) -> Seq<char>)
    ensures
        map_chars(seq![c] + s, f) == f(c) + map_chars(s, f),
    decreases s.len(),
{
    if s.len() == 0 {
        assert((seq![c] + s).drop_last() =~= Seq::<char>::empty());
        assert(map_chars(Seq::<char>::empty(), f) == Seq::<char>::empty());
        assert(f(c) + Seq::<char>::empty() =~= f(c));
        assert(Seq::<char>::empty() + f(c) =~= f(c));
    } else {
        lemma_map_chars_prepend(c, s.drop_last(), f);
        assert((seq![c] + s).drop_last() =~= seq![c] + s.drop_last());
        assert(f(c) + map_chars(s, f) =~= f(c) + map_chars(s.drop_last(), f) + f(s.last()));
    }
}

proof fn lemma_csv_body_round_trip(s: Seq<char>)
    ensures
        csv_unescape(map_chars(s, |c: char| csv_char(c))) == s,
    decreases s.len(),
{
    let f = |c: char| csv_char(c);
    if s.len() > 0 {
        let c = s[0];
        let rest = s.drop_first();
        assert(s =~= seq![c] + rest);
        lemma_map_chars_prepend(c, rest, f);
        lemma_csv_body_round_trip(rest);
        let m = map_chars(rest, f);
        if c == '"' {
            assert((seq!['"', '"'] + m).skip(2) =~= m);
        } else {
            assert((seq![c] + m).skip(1) =~= m);
        }
        assert(seq![c] + rest =~= s);
    }
}

/// CSV export is faithful: reading back a field that `csv_escape` wrote gives the
/// value that went in, whatever quotes, commas or line breaks it holds.
pub proof fn law_csv_field_round_trip(value: Seq<char>)
    ensures
        csv_field_value(csv_field(value)) == value,
{
    let body = map_chars(value, |c: char| csv_char(c));
    lemma_csv_body_round_trip(value);
    assert(csv_field(value).subrange(1, csv_field(value).len() - 1) =~= body);
}

proof fn lemma_html_text_safe(s: Seq<char>)
    ensures
        forall|i: int| 0 <= i < html_text(s).len() ==> {
            let c = #[trigger] html_text(s)[i];
            c != '<' && c != '>' && c != '"'
        },
    decreases s.len(),
{
    reveal_strlit("&amp;");
    reveal_strlit("&lt;");
    reveal_strlit("&gt;");
    reveal_strlit("&quot;");
    if s.len() > 0 {
        lemma_html_text_safe(s.drop_last());
        let a = html_text(s.drop_last());
        let b = html_char(s.last());
        assert(html_text(s) == a + b);
        assert forall|i: int| 0 <= i < (a + b).len() implies {
            let c = #[trigger] (a + b)[i];
            c != '<' && c != '>' && c != '"'
        } by {
            if i >= a.len() {
                assert((a + b)[i] == b[i - a.len()]);
            } else {
                assert((a + b)[i] == a[i]);
            }
        }
    }
}

/// Escaped text cannot open or close a tag or end an attribute value: it holds no `<`,
/// `>` or `"`.
pub proof fn law_html_escape_safe(value: Seq<char>)
    ensures
        !html_text(value).contains('<'),
        !html_text(value).contains('>'),
        !html_text(value).contains('"'),
{
    lemma_html_text_safe(value);
}

} // verus!
