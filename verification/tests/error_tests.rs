use realtyflow::error::{error_page_html, format_error_message, map_db_error, AppError, DbFailure};

fn db(code: Option<&str>, text: &str) -> DbFailure {
    DbFailure { code: code.map(|c| c.to_string()), text: text.to_string() }
}

#[test]
fn integrity_violations_are_bad_requests() {
    assert_eq!(
        map_db_error(db(Some("23503"), "fk")),
        (400, "Операция нарушает ссылочную целостность: запись используется в связанных данных.".to_string())
    );
    assert_eq!(
        map_db_error(db(Some("23505"), "dup")),
        (400, "Операция нарушает уникальность данных: такая запись уже существует.".to_string())
    );
    assert_eq!(
        map_db_error(db(Some("23514"), "chk")),
        (400, "Значения не прошли проверку ограничений базы данных.".to_string())
    );
}

#[test]
fn other_database_failures_are_server_errors() {
    assert_eq!(map_db_error(db(Some("42P01"), "no table")), (500, "Ошибка базы данных: no table".to_string()));
    assert_eq!(map_db_error(db(None, "pool timed out")), (500, "Ошибка базы данных: pool timed out".to_string()));
}

#[test]
fn each_error_has_its_status_and_message() {
    assert_eq!(AppError::BadRequest("m".into()).status_and_message(), (400, "m".to_string()));
    assert_eq!(AppError::Unauthorized.status_and_message(), (401, "Необходима авторизация".to_string()));
    assert_eq!(
        AppError::Forbidden.status_and_message(),
        (403, "Недостаточно прав для выполнения операции".to_string())
    );
    assert_eq!(AppError::NotFound("нет".into()).status_and_message(), (404, "нет".to_string()));
    assert_eq!(AppError::Internal("i".into()).status_and_message(), (500, "i".to_string()));
    assert_eq!(AppError::Template("t".into()).status_and_message(), (500, "Ошибка шаблона: t".to_string()));
}

#[test]
fn error_page_carries_status_and_message() {
    assert_eq!(error_page_html(404, "Сделка не найдена."), "<h1>404</h1><p>Сделка не найдена.</p>");
    assert_eq!(
        AppError::Forbidden.response_parts(),
        (403, "<h1>403</h1><p>Недостаточно прав для выполнения операции</p>".to_string())
    );
}

#[test]
fn console_messages() {
    assert_eq!(format_error_message(AppError::BadRequest("b".into())), "b");
    assert_eq!(format_error_message(AppError::NotFound("n".into())), "n");
    assert_eq!(format_error_message(AppError::Internal("i".into())), "i");
    assert_eq!(format_error_message(AppError::Forbidden), "Недостаточно прав для выполнения SQL-запроса.");
    assert_eq!(format_error_message(AppError::Unauthorized), "Необходима авторизация.");
    assert_eq!(format_error_message(AppError::Db(db(Some("23505"), "dup"))), "Ошибка базы данных: dup");
    assert_eq!(format_error_message(AppError::Template("x".into())), "Ошибка шаблона: x");
}
