//! The administrator's SQL console: which statements it lets through, the query that
//! turns each result row into JSON, and the table it shows from those rows.

use vstd::prelude::*;
use crate::error::{console_message, format_error_message, AppError};
use crate::export::views;
use crate::json::{
    json_object_cell, json_object_keys, parse_json_object, parsed_json, text_less, JsonCell,
    JsonParse,
};
use crate::text::{
    contains_char, has_prefix, is_trimmed, lemma_trim_is_trimmed, lemma_trim_of_trimmed, lowercase,
    lower_text, push_str, starts_with, trim, trim_end_char, trimmed, trimmed_end_char,
};

verus! {

pub open spec fn empty_sql_text() -> Seq<char> {
    "Введите SQL-запрос."@
}

pub open spec fn several_statements_text() -> Seq<char> {
    "Разрешен только один SELECT/WITH/VALUES-запрос без нескольких инструкций."@
}

pub open spec fn read_only_text() -> Seq<char> {
    "В режиме администратора через интерфейс разрешены только запросы SELECT, WITH и VALUES."@
}

/// The statement as the console runs it: trimmed, without trailing semicolons, trimmed.
pub open spec fn statement_of(sql: Seq<char>) -> Seq<char> {
    trim(trim_end_char(trim(sql), ';'))
}

/// Whether a lowercased statement starts as a read-only query does.
pub open spec fn read_only_start(lowered: Seq<char>) -> bool {
    has_prefix(lowered, "select"@) || has_prefix(lowered, "with"@) || has_prefix(lowered, "values"@)
}

/// The statement the console accepts for `sql`, or the reason it refuses it.
pub open spec fn sanitized(sql: Seq<char>) -> Result<Seq<char>, Seq<char>> {
    let t = statement_of(sql);
    if t.len() == 0 {
        Err(empty_sql_text())
    } else if t.contains(';') {
        Err(several_statements_text())
    } else if !read_only_start(lower_text(t)) {
        Err(read_only_text())
    } else {
        Ok(t)
    }
}

/// The result of `sanitize_select_sql`, as `sanitized` describes it.
pub open spec fn sanitize_matches(sql: Seq<char>, r: Result<String, AppError>) -> bool {
    match r {
        Ok(s) => sanitized(sql) == Ok::<Seq<char>, Seq<char>>(s@),
        Err(AppError::BadRequest(m)) => sanitized(sql) == Err::<Seq<char>, Seq<char>>(m@),
        Err(_) => false,
    }
}

/// Accepts one read-only statement (`SELECT`, `WITH` or `VALUES`) and returns it
/// trimmed and without trailing semicolons; refuses empty input, several statements and
/// anything else.
pub fn sanitize_select_sql(sql: &str) -> (r: Result<String, AppError>)
    ensures
        sanitize_matches(sql@, r),
{
    let first = trimmed(sql);
    let no_semicolons = trimmed_end_char(first.as_str(), ';');
    let t = trimmed(no_semicolons.as_str());
    if t.as_str().is_empty() {
        return Err(AppError::BadRequest("Введите SQL-запрос.".to_owned()));
    }
    if contains_char(t.as_str(), ';') {
        return Err(
            AppError::BadRequest(
                "Разрешен только один SELECT/WITH/VALUES-запрос без нескольких инструкций.".to_owned(),
            ),
        );
    }
    let lowered = lowercase(t.as_str());
    if !(starts_with(lowered.as_str(), "select") || starts_with(lowered.as_str(), "with")
        || starts_with(lowered.as_str(), "values")) {
        return Err(
            AppError::BadRequest(
                "В режиме администратора через интерфейс разрешены только запросы SELECT, WITH и VALUES.".to_owned(),
            ),
        );
    }
    Ok(t)
}

/// The query that runs an accepted statement and hands back each of its rows as the
/// text of one JSON object.
pub open spec fn wrapped_query(statement: Seq<char>) -> Seq<char> {
    "SELECT row_to_json(result_row)::text AS row_json FROM ("@ + statement + ") AS result_row"@
}

/// The query that the console sends for `sql`: the accepted statement, wrapped so that
/// each result row comes back as JSON text; or the reason the statement is refused.
pub fn prepare_admin_query(sql: &str) -> (r: Result<String, AppError>)
    ensures
        match r {
            Ok(q) => exists|s: Seq<char>| sanitized(sql@) == Ok::<Seq<char>, Seq<char>>(s) && q@ == wrapped_query(s),
            Err(AppError::BadRequest(m)) => sanitized(sql@) == Err::<Seq<char>, Seq<char>>(m@),
            Err(_) => false,
        },
{
    let statement = sanitize_select_sql(sql)?;
    let mut q = "SELECT row_to_json(result_row)::text AS row_json FROM (".to_owned();
    push_str(&mut q, statement.as_str());
    push_str(&mut q, ") AS result_row");
    assert(sanitized(sql@) == Ok::<Seq<char>, Seq<char>>(statement@));
    assert(q@ == wrapped_query(statement@));
    Ok(q)
}

/// The text the console shows for a JSON value: nothing for `null`, the contents of a
/// string, and the JSON text of anything else.
pub open spec fn cell_text(c: JsonCell) -> Seq<char> {
    match c {
        JsonCell::Null => Seq::empty(),
        JsonCell::Bool(b) => if b {
            "true"@
        } else {
            "false"@
        },
        JsonCell::Number(t) => t@,
        JsonCell::Text(s) => s@,
        JsonCell::Nested(t) => t@,
    }
}

/// The text the console shows for a JSON value.
pub fn json_cell_to_string(value: &JsonCell) -> (r: String)
    ensures
        r@ == cell_text(*value),
{
    match value {
        JsonCell::Null => String::new(),
        JsonCell::Bool(b) => if *b {
            "true".to_owned()
        } else {
            "false".to_owned()
        },
        JsonCell::Number(t) => t.clone(),
        JsonCell::Text(s) => s.clone(),
        JsonCell::Nested(t) => t.clone(),
    }
}

/// The entries of a result row (none unless it parses as a JSON object).
pub open spec fn row_entries(text: Seq<char>) -> Map<Seq<char>, JsonCell> {
    match parsed_json(text) {
        JsonParse::Object(e) => e,
        _ => Map::empty(),
    }
}

/// Whether a result row parses as a JSON object.
pub open spec fn is_object(text: Seq<char>) -> bool {
    parsed_json(text) is Object
}

/// Whether a result row is a JSON object with at least one entry.
pub open spec fn has_entries(text: Seq<char>) -> bool {
    exists|key: Seq<char>| #[trigger] row_entries(text).dom().contains(key)
}

/// The error for a result row that is not a JSON object.
pub open spec fn row_error_text(text: Seq<char>) -> Seq<char> {
    match parsed_json(text) {
        JsonParse::Invalid(m) => "Не удалось разобрать результат SQL: "@ + m,
        _ => "Ожидался объектный результат SQL-запроса."@,
    }
}

/// `keys` lists each key of `e` once, in ascending order.
pub open spec fn is_key_list(keys: Seq<Seq<char>>, e: Map<Seq<char>, JsonCell>) -> bool {
    &&& forall|i: int| 0 <= i < keys.len() ==> e.dom().contains(#[trigger] keys[i])
    &&& forall|key: Seq<char>| #[trigger] e.dom().contains(key) ==> exists|i: int| 0 <= i < keys.len() && keys[i] == key
    &&& forall|i: int, j: int| 0 <= i < j < keys.len() ==> text_less(#[trigger] keys[i], #[trigger] keys[j])
}

/// The text shown under `key` for a row: the entry's text, or nothing when the row
/// lacks the key.
pub open spec fn lookup_text(e: Map<Seq<char>, JsonCell>, key: Seq<char>) -> Seq<char> {
    if e.dom().contains(key) {
        cell_text(e[key])
    } else {
        Seq::empty()
    }
}

/// Some row at or before index `n` has entries.
pub open spec fn entries_upto(texts: Seq<Seq<char>>, n: int) -> bool {
    exists|k: int| 0 <= k <= n && #[trigger] has_entries(texts[k])
}

/// Some row among the first `n` has entries.
pub open spec fn entries_before(texts: Seq<Seq<char>>, n: int) -> bool {
    exists|k: int| 0 <= k < n && #[trigger] has_entries(texts[k])
}

/// The table the console shows for JSON result rows: the header holds the keys of the
/// first row with entries, in ascending order; each row holds, for each header, its
/// text for that key (rows that come before the first row with entries hold nothing).
pub open spec fn tabulated(
    texts: Seq<Seq<char>>,
    headers: Seq<Seq<char>>,
    rows: Seq<Seq<Seq<char>>>,
) -> bool {
    &&& rows.len() == texts.len()
    &&& !entries_before(texts, texts.len() as int) ==> headers.len() == 0
    &&& forall|k: int|
        0 <= k < texts.len() && has_entries(#[trigger] texts[k]) && !entries_before(texts, k)
            ==> is_key_list(headers, row_entries(texts[k]))
    &&& forall|i: int|
        0 <= i < texts.len() ==> (#[trigger] rows[i]) == if entries_upto(texts, i) {
            headers.map_values(|key: Seq<char>| lookup_text(row_entries(texts[i]), key))
        } else {
            Seq::<Seq<char>>::empty()
        }
}

proof fn lemma_key_list_nonempty(keys: Seq<Seq<char>>, text: Seq<char>)
    requires
        is_key_list(keys, row_entries(text)),
    ensures
        keys.len() > 0 <==> has_entries(text),
{
    if keys.len() > 0 {
        assert(row_entries(text).dom().contains(keys[0]));
    }
    if has_entries(text) {
        let key = choose|key: Seq<char>| #[trigger] row_entries(text).dom().contains(key);
        assert(row_entries(text).dom().contains(key));
    }
}

/// The cell texts of one result row under the given headers.
fn row_cells(m: &serde_json::Map<String, serde_json::Value>, headers: &Vec<String>) -> (row: Vec<String>)
    ensures
        views(row@) == views(headers@).map_values(
            |key: Seq<char>| lookup_text(crate::json::json_object_entries(*m), key),
        ),
{
    let ghost e = crate::json::json_object_entries(*m);
    let mut row: Vec<String> = Vec::new();
    let mut j: usize = 0;
    while j < headers.len()
        invariant
            j <= headers@.len(),
            row@.len() == j,
            e == crate::json::json_object_entries(*m),
            forall|c: int| 0 <= c < j ==> (#[trigger] row@[c])@ == lookup_text(e, headers@[c]@),
        decreases headers.len() - j,
    {
        let cell = json_object_cell(m, headers[j].as_str());
        let shown = match cell {
            Some(c) => json_cell_to_string(&c),
            None => String::new(),
        };
        row.push(shown);
        j = j + 1;
    }
    assert(views(row@) =~= views(headers@).map_values(|key: Seq<char>| lookup_text(e, key)));
    row
}

/// The rows of a table, each by the views of its cells.
pub open spec fn row_views(rows: Seq<Vec<String>>) -> Seq<Seq<Seq<char>>> {
    rows.map_values(|row: Vec<String>| views(row@))
}

/// What the table holds after the first `n` result rows, where `first` is the index of
/// the first row with entries among them, or -1.
spec fn tabulated_prefix(
    texts: Seq<Seq<char>>,
    n: int,
    first: int,
    headers: Seq<Seq<char>>,
    rows: Seq<Seq<Seq<char>>>,
) -> bool {
    &&& rows.len() == n
    &&& -1 <= first < n
    &&& first == -1 ==> headers.len() == 0 && forall|k: int| 0 <= k < n ==> !has_entries(#[trigger] texts[k])
    &&& first >= 0 ==> {
        &&& has_entries(texts[first])
        &&& forall|k: int| 0 <= k < first ==> !has_entries(#[trigger] texts[k])
        &&& is_key_list(headers, row_entries(texts[first]))
    }
    &&& forall|j: int|
        0 <= j < n ==> (#[trigger] rows[j]) == if first >= 0 && j >= first {
            headers.map_values(|key: Seq<char>| lookup_text(row_entries(texts[j]), key))
        } else {
            Seq::<Seq<char>>::empty()
        }
}

proof fn lemma_tabulated(
    texts: Seq<Seq<char>>,
    first: int,
    headers: Seq<Seq<char>>,
    rows: Seq<Seq<Seq<char>>>,
)
    requires
        tabulated_prefix(texts, texts.len() as int, first, headers, rows),
    ensures
        tabulated(texts, headers, rows),
{
    let n = texts.len() as int;
    assert forall|j: int| 0 <= j < n implies (#[trigger] entries_upto(texts, j) <==> (first >= 0 && j >= first)) by {
        if first >= 0 && j >= first {
            assert(has_entries(texts[first]));
        }
        if entries_upto(texts, j) {
            let k = choose|k: int| 0 <= k <= j && #[trigger] has_entries(texts[k]);
            if first == -1 {
                assert(!has_entries(texts[k]));
            } else if k < first {
                assert(!has_entries(texts[k]));
            }
        }
    }
    if !entries_before(texts, n) {
        if first >= 0 {
            assert(has_entries(texts[first]));
        }
    }
    assert forall|k: int|
        0 <= k < n && has_entries(#[trigger] texts[k]) && !entries_before(texts, k)
        implies is_key_list(headers, row_entries(texts[k])) by {
        if first == -1 {
            assert(!has_entries(texts[k]));
        } else if first < k {
            assert(has_entries(texts[first]));
        } else if k < first {
            assert(!has_entries(texts[k]));
        }
    }
}

/// Turns the JSON text of each result row into the console's table: a header row and
/// one row of cell texts per result row. Fails on the first row that is not a JSON
/// object.
pub fn tabulate_json_rows(json_rows: &[String]) -> (r: Result<(Vec<String>, Vec<Vec<String>>), AppError>)
    ensures
        match r {
            Ok((headers, rows)) => {
                &&& forall|i: int| 0 <= i < json_rows@.len() ==> is_object(#[trigger] json_rows@[i]@)
                &&& tabulated(views(json_rows@), views(headers@), row_views(rows@))
            },
            Err(AppError::Internal(m)) => exists|i: int|
                0 <= i < json_rows@.len() && !is_object(#[trigger] json_rows@[i]@)
                    && (forall|j: int| 0 <= j < i ==> is_object(json_rows@[j]@))
                    && m@ == row_error_text(json_rows@[i]@),
            Err(_) => false,
        },
{
    let ghost texts = views(json_rows@);
    let mut headers: Vec<String> = Vec::new();
    let mut rows: Vec<Vec<String>> = Vec::new();
    let ghost mut first: int = -1;
    if json_rows.len() == 0 {
        proof {
            lemma_tabulated(texts, first, views(headers@), row_views(rows@));
        }
        return Ok((headers, rows));
    }
    let mut i: usize = 0;
    while i < json_rows.len()
        invariant
            i <= json_rows@.len(),
            texts == views(json_rows@),
            forall|j: int| 0 <= j < i ==> is_object(#[trigger] json_rows@[j]@),
            tabulated_prefix(texts, i as int, first, views(headers@), row_views(rows@)),
        decreases json_rows.len() - i,
    {
        let ghost text = texts[i as int];
        assert(json_rows@[i as int]@ == text);
        let parsed = parse_json_object(json_rows[i].as_str());
        let m = match parsed {
            Err(e) => {
                let mut message = "Не удалось разобрать результат SQL: ".to_owned();
                push_str(&mut message, e.as_str());
                return Err(AppError::Internal(message));
            },
            Ok(None) => {
                return Err(AppError::Internal("Ожидался объектный результат SQL-запроса.".to_owned()));
            },
            Ok(Some(m)) => m,
        };
        let ghost old_headers = views(headers@);
        let ghost old_rows = row_views(rows@);
        if headers.len() == 0 {
            headers = json_object_keys(&m);
            proof {
                let e = row_entries(text);
                let hv = views(headers@);
                assert(e == crate::json::json_object_entries(m));
                assert forall|a: int| 0 <= a < hv.len() implies e.dom().contains(#[trigger] hv[a]) by {
                    assert(hv[a] == headers@[a]@);
                }
                assert forall|key: Seq<char>| #[trigger] e.dom().contains(key) implies exists|a: int| 0 <= a < hv.len() && hv[a] == key by {
                    let a = choose|a: int| 0 <= a < headers@.len() && headers@[a]@ == key;
                    assert(hv[a] == key);
                }
                assert forall|a: int, b: int| 0 <= a < b < hv.len() implies text_less(#[trigger] hv[a], #[trigger] hv[b]) by {
                    assert(hv[a] == headers@[a]@ && hv[b] == headers@[b]@);
                }
                assert(is_key_list(views(headers@), row_entries(text)));
                lemma_key_list_nonempty(views(headers@), text);
                if headers@.len() > 0 {
                    first = i as int;
                }
            }
        }
        let row = row_cells(&m, &headers);
        rows.push(row);
        proof {
            assert(row_views(rows@) =~= old_rows.push(views(row@)));
            assert forall|j: int|
                0 <= j < i + 1 implies (#[trigger] row_views(rows@)[j]) == if first >= 0 && j >= first {
                    views(headers@).map_values(|key: Seq<char>| lookup_text(row_entries(texts[j]), key))
                } else {
                    Seq::<Seq<char>>::empty()
                } by {
                if j < i {
                    assert(row_views(rows@)[j] == old_rows[j]);
                    if first >= 0 && j >= first {
                        assert(views(headers@) == old_headers);
                    }
                } else {
                    if !(first >= 0) {
                        assert(views(headers@).len() == 0);
                        assert(views(row@) =~= Seq::<Seq<char>>::empty());
                    }
                }
            }
        }
        i = i + 1;
    }
    proof {
        lemma_tabulated(texts, first, views(headers@), row_views(rows@));
    }
    Ok((headers, rows))
}

/// A statement that the console accepts is one non-empty read-only statement without
/// semicolons, and the console accepts it again unchanged: cleaning is idempotent, so
/// the statement that an export runs is the one that was shown.
pub proof fn law_sanitize_idempotent(sql: Seq<char>)
    requires
        sanitized(sql) is Ok,
    ensures
        ({
            let t = sanitized(sql)->Ok_0;
            &&& t.len() > 0
            &&& !t.contains(';')
            &&& read_only_start(lower_text(t))
            &&& sanitized(t) == sanitized(sql)
        }),
{
    let t = statement_of(sql);
    lemma_trim_is_trimmed(trim_end_char(trim(sql), ';'));
    assert(is_trimmed(t));
    lemma_trim_of_trimmed(t);
    assert(t.len() > 0);
    assert(!t.contains(';'));
    assert(t.last() != ';') by {
        assert(t[t.len() - 1] == t.last());
    }
    assert(trim_end_char(t, ';') == t);
    assert(statement_of(t) == t);
}

/// Once the console has its columns, every row of the table has one cell per column;
/// rows before that have none, and every row's cells are its texts for the columns.
pub proof fn law_console_rows_align(
    texts: Seq<Seq<char>>,
    headers: Seq<Seq<char>>,
    rows: Seq<Seq<Seq<char>>>,
    i: int,
)
    requires
        tabulated(texts, headers, rows),
        0 <= i < texts.len(),
    ensures
        rows[i].len() == if entries_upto(texts, i) {
            headers.len()
        } else {
            0
        },
        forall|j: int| 0 <= j < rows[i].len() ==> #[trigger] rows[i][j] == lookup_text(row_entries(texts[i]), headers[j]),
{
}

/// The SQL console's form.
pub struct AdminSqlForm {
    pub sql: String,
}

/// What the SQL console panel shows: the statement as entered (trimmed), the result
/// table, or the error message.
pub struct SqlConsoleView {
    pub sql_query: String,
    pub sql_headers: Vec<String>,
    pub sql_rows: Vec<Vec<String>>,
    pub sql_error: String,
    pub has_sql_result: bool,
    pub has_sql_error: bool,
}

/// The console panel before any statement runs.
pub fn empty_console() -> (r: SqlConsoleView)
    ensures
        r.sql_query@.len() == 0,
        r.sql_headers@.len() == 0,
        r.sql_rows@.len() == 0,
        r.sql_error@.len() == 0,
        !r.has_sql_result,
        !r.has_sql_error,
{
    SqlConsoleView {
        sql_query: String::new(),
        sql_headers: Vec::new(),
        sql_rows: Vec::new(),
        sql_error: String::new(),
        has_sql_result: false,
        has_sql_error: false,
    }
}

/// The statement the console runs for its form: the entered text, trimmed.
pub fn console_statement(form: &AdminSqlForm) -> (r: String)
    ensures
        r@ == trim(form.sql@),
{
    trimmed(form.sql.as_str())
}

/// The console panel after running `sql_query`: its table when it ran, its message
/// when it failed. A result counts as shown when it has columns; an error when its
/// message is not empty.
pub fn sql_console_view(
    sql_query: String,
    outcome: Result<(Vec<String>, Vec<Vec<String>>), AppError>,
) -> (r: SqlConsoleView)
    ensures
        r.sql_query == sql_query,
        match outcome {
            Ok((h, rows)) => r.sql_headers == h && r.sql_rows == rows && r.sql_error@.len() == 0,
            Err(e) => r.sql_headers@.len() == 0 && r.sql_rows@.len() == 0 && r.sql_error@ == console_message(e),
        },
        r.has_sql_result == (r.sql_headers@.len() > 0),
        r.has_sql_error == (r.sql_error@.len() > 0),
{
    let (sql_headers, sql_rows, sql_error) = match outcome {
        Ok((headers, rows)) => (headers, rows, String::new()),
        Err(error) => (Vec::new(), Vec::new(), format_error_message(error)),
    };
    let has_sql_result = sql_headers.len() > 0;
    let has_sql_error = !sql_error.as_str().is_empty();
    SqlConsoleView { sql_query, sql_headers, sql_rows, sql_error, has_sql_result, has_sql_error }
}


/// The console accepts a statement exactly when, once trimmed and freed of trailing
/// semicolons, it is not empty, holds no `;` and starts, in lowercase, with `select`,
/// `with` or `values`; it then runs that statement as it stands, whatever else (line
/// breaks included) it holds. Text that is already trimmed and does not end in `;` is
/// its own statement.
pub proof fn law_sanitize_accepts(sql: Seq<char>)
    ensures
        ({
            let t = statement_of(sql);
            &&& (t.len() > 0 && !t.contains(';') && (has_prefix(lower_text(t), "select"@)
                || has_prefix(lower_text(t), "with"@) || has_prefix(lower_text(t), "values"@)))
                <==> sanitized(sql) is Ok
            &&& sanitized(sql) is Ok ==> sanitized(sql) == Ok::<Seq<char>, Seq<char>>(t)
            &&& t.len() == 0 ==> sanitized(sql) == Err::<Seq<char>, Seq<char>>(empty_sql_text())
            &&& t.len() > 0 && t.contains(';') ==> sanitized(sql) == Err::<Seq<char>, Seq<char>>(
                several_statements_text(),
            )
        }),
        is_trimmed(sql) && !(sql.len() > 0 && sql.last() == ';') ==> statement_of(sql) == sql,
{
    if is_trimmed(sql) && !(sql.len() > 0 && sql.last() == ';') {
        lemma_trim_of_trimmed(sql);
        assert(trim_end_char(sql, ';') == sql);
    }
}

} // verus!
