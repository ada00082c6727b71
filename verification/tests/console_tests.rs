use realtyflow::console::{
    console_statement, empty_console, json_cell_to_string, prepare_admin_query, sanitize_select_sql,
    sql_console_view, tabulate_json_rows, AdminSqlForm,
};
use realtyflow::error::AppError;
use realtyflow::json::JsonCell;

fn bad_request(r: Result<String, AppError>) -> String {
    match r {
        Err(AppError::BadRequest(m)) => m,
        _ => panic!("expected a refusal"),
    }
}

fn internal<T>(r: Result<T, AppError>) -> String {
    match r {
        Err(AppError::Internal(m)) => m,
        _ => panic!("expected an internal error"),
    }
}

#[test]
fn sanitize_accepts_read_only_statements() {
    assert_eq!(sanitize_select_sql("  SELECT * FROM owners ;; ").ok().unwrap(), "SELECT * FROM owners");
    assert_eq!(sanitize_select_sql("with t as (select 1) select * from t").ok().unwrap(), "with t as (select 1) select * from t");
    assert_eq!(sanitize_select_sql("Values (1)").ok().unwrap(), "Values (1)");
    assert_eq!(sanitize_select_sql("select 1 ; ").ok().unwrap(), "select 1");
}

#[test]
fn sanitize_refuses_other_input() {
    assert_eq!(bad_request(sanitize_select_sql("   ")), "Введите SQL-запрос.");
    assert_eq!(bad_request(sanitize_select_sql(";;")), "Введите SQL-запрос.");
    assert_eq!(
        bad_request(sanitize_select_sql("select 1; delete from owners")),
        "Разрешен только один SELECT/WITH/VALUES-запрос без нескольких инструкций."
    );
    assert_eq!(
        bad_request(sanitize_select_sql("select 1; ;")),
        "Разрешен только один SELECT/WITH/VALUES-запрос без нескольких инструкций."
    );
    assert_eq!(
        bad_request(sanitize_select_sql("delete from owners")),
        "В режиме администратора через интерфейс разрешены только запросы SELECT, WITH и VALUES."
    );
}

#[test]
fn sanitize_is_idempotent_on_examples() {
    for sql in ["  select 1;  ", "WITH x AS (SELECT 2) SELECT * FROM x;;", "values (1),(2)"] {
        let once = sanitize_select_sql(sql).ok().unwrap();
        assert_eq!(sanitize_select_sql(&once).ok().unwrap(), once);
    }
}

#[test]
fn admin_query_wraps_the_statement() {
    assert_eq!(
        prepare_admin_query(" select id from owners; ").ok().unwrap(),
        "SELECT row_to_json(result_row)::text AS row_json FROM (select id from owners) AS result_row"
    );
    assert!(prepare_admin_query("drop table owners").is_err());
}

#[test]
fn json_cells_as_text() {
    assert_eq!(json_cell_to_string(&JsonCell::Null), "");
    assert_eq!(json_cell_to_string(&JsonCell::Bool(true)), "true");
    assert_eq!(json_cell_to_string(&JsonCell::Bool(false)), "false");
    assert_eq!(json_cell_to_string(&JsonCell::Number("1.5".into())), "1.5");
    assert_eq!(json_cell_to_string(&JsonCell::Text("Дом".into())), "Дом");
    assert_eq!(json_cell_to_string(&JsonCell::Nested("[1,2]".into())), "[1,2]");
}

#[test]
fn tabulate_rows_by_sorted_keys_of_first_row() {
    let rows = vec![
        r#"{"name": "Дом", "id": 7, "tags": ["a", "b"], "note": null, "ok": true}"#.to_string(),
        r#"{"id": 8.5, "name": "Квартира", "extra": 1}"#.to_string(),
    ];
    let (headers, table) = tabulate_json_rows(&rows).ok().unwrap();
    assert_eq!(headers, vec!["id", "name", "note", "ok", "tags"]);
    assert_eq!(table[0], vec!["7", "Дом", "", "true", "[\"a\",\"b\"]"]);
    assert_eq!(table[1], vec!["8.5", "Квартира", "", "", ""]);
}

#[test]
fn tabulate_empty_objects_before_first_keys() {
    let rows = vec!["{}".to_string(), r#"{"a": {"b": 1}}"#.to_string()];
    let (headers, table) = tabulate_json_rows(&rows).ok().unwrap();
    assert_eq!(headers, vec!["a"]);
    assert_eq!(table[0], Vec::<String>::new());
    assert_eq!(table[1], vec!["{\"b\":1}"]);
    let (h, t) = tabulate_json_rows(&[]).ok().unwrap();
    assert!(h.is_empty() && t.is_empty());
}

#[test]
fn tabulate_refuses_rows_that_are_not_objects() {
    let m = internal(tabulate_json_rows(&["{\"a\":1}".to_string(), "[1]".to_string()]));
    assert_eq!(m, "Ожидался объектный результат SQL-запроса.");
    let m = internal(tabulate_json_rows(&["{oops".to_string()]));
    assert!(m.starts_with("Не удалось разобрать результат SQL: "));
    assert!(m.len() > "Не удалось разобрать результат SQL: ".len());
}

#[test]
fn console_view_of_results_and_errors() {
    let ok = sql_console_view("select 1".into(), Ok((vec!["x".to_string()], vec![vec!["1".to_string()]])));
    assert_eq!(ok.sql_query, "select 1");
    assert!(ok.has_sql_result && !ok.has_sql_error);
    assert_eq!(ok.sql_rows, vec![vec!["1".to_string()]]);
    let err = sql_console_view("drop".into(), Err(AppError::BadRequest("нельзя".into())));
    assert!(!err.has_sql_result && err.has_sql_error);
    assert_eq!(err.sql_error, "нельзя");
    let none = sql_console_view("select".into(), Ok((vec![], vec![])));
    assert!(!none.has_sql_result && !none.has_sql_error);
    let blank = empty_console();
    assert!(blank.sql_query.is_empty() && !blank.has_sql_result);
    assert_eq!(console_statement(&AdminSqlForm { sql: "  select 1 \n".into() }), "select 1");
}
