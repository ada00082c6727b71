//! Errors of a request and the HTTP answer each one gets.

use vstd::prelude::*;
use crate::text::{decimal, push_decimal, push_str, text_equals};

verus! {

/// What this library reads of a failed database call: the SQLSTATE code when the
/// server reported one, and the error's display text.
pub struct DbFailure {
    pub code: Option<String>,
    pub text: String,
}

/// Why a request failed.
pub enum AppError {
    Db(DbFailure),
    Template(String),
    BadRequest(String),
    Unauthorized,
    Forbidden,
    NotFound(String),
    Internal(String),
}

pub open spec fn fk_violation_text() -> Seq<char> {
    "Операция нарушает ссылочную целостность: запись используется в связанных данных."@
}

pub open spec fn unique_violation_text() -> Seq<char> {
    "Операция нарушает уникальность данных: такая запись уже существует."@
}

pub open spec fn check_violation_text() -> Seq<char> {
    "Значения не прошли проверку ограничений базы данных."@
}

pub open spec fn db_prefix() -> Seq<char> {
    "Ошибка базы данных: "@
}

pub open spec fn template_prefix() -> Seq<char> {
    "Ошибка шаблона: "@
}

pub open spec fn unauthorized_text() -> Seq<char> {
    "Необходима авторизация"@
}

pub open spec fn forbidden_text() -> Seq<char> {
    "Недостаточно прав для выполнения операции"@
}

/// Whether the failure carries the SQLSTATE `code`.
pub open spec fn has_code(f: DbFailure, code: Seq<char>) -> bool {
    match f.code {
        Some(c) => c@ == code,
        None => false,
    }
}

/// Status and message for a database failure: integrity violations are the client's
/// fault (400), anything else is the server's (500).
pub open spec fn db_response(f: DbFailure) -> (u16, Seq<char>) {
    if has_code(f, "23503"@) {
        (400, fk_violation_text())
    } else if has_code(f, "23505"@) {
        (400, unique_violation_text())
    } else if has_code(f, "23514"@) {
        (400, check_violation_text())
    } else {
        (500, db_prefix() + f.text@)
    }
}

/// Status and message that answer each error.
pub open spec fn error_response(e: AppError) -> (u16, Seq<char>) {
    match e {
        AppError::Db(f) => db_response(f),
        AppError::Template(t) => (500, template_prefix() + t@),
        AppError::BadRequest(m) => (400, m@),
        AppError::Unauthorized => (401, unauthorized_text()),
        AppError::Forbidden => (403, forbidden_text()),
        AppError::NotFound(m) => (404, m@),
        AppError::Internal(m) => (500, m@),
    }
}

/// The HTML page that carries an error's status and message.
pub open spec fn error_page(status: u16, message: Seq<char>) -> Seq<char> {
    "<h1>"@ + decimal(status as nat) + "</h1><p>"@ + message + "</p>"@
}

/// The message shown in the SQL console for an error.
pub open spec fn console_message(e: AppError) -> Seq<char> {
    match e {
        AppError::BadRequest(m) => m@,
        AppError::NotFound(m) => m@,
        AppError::Internal(m) => m@,
        AppError::Forbidden => "Недостаточно прав для выполнения SQL-запроса."@,
        AppError::Unauthorized => "Необходима авторизация."@,
        AppError::Db(f) => db_prefix() + f.text@,
        AppError::Template(t) => template_prefix() + t@,
    }
}

fn code_is(f: &DbFailure, code: &str) -> (r: bool)
    ensures
        r == has_code(*f, code@),
{
    match &f.code {
        Some(c) => text_equals(c.as_str(), code),
        None => false,
    }
}

fn prefixed(prefix: &str, text: &str) -> (r: String)
    ensures
        r@ == prefix@ + text@,
{
    let mut r = prefix.to_owned();
    push_str(&mut r, text);
    r
}

/// Status and message for a database failure.
pub fn map_db_error(error: DbFailure) -> (r: (u16, String))
    ensures
        (r.0, r.1@) == db_response(error),
{
    if code_is(&error, "23503") {
        (400, "Операция нарушает ссылочную целостность: запись используется в связанных данных.".to_owned())
    } else if code_is(&error, "23505") {
        (400, "Операция нарушает уникальность данных: такая запись уже существует.".to_owned())
    } else if code_is(&error, "23514") {
        (400, "Значения не прошли проверку ограничений базы данных.".to_owned())
    } else {
        (500, prefixed("Ошибка базы данных: ", error.text.as_str()))
    }
}

impl AppError {
    /// Status and message that answer this error.
    pub fn status_and_message(self) -> (r: (u16, String))
        ensures
            (r.0, r.1@) == error_response(self),
    {
        match self {
            AppError::Db(f) => map_db_error(f),
            AppError::Template(t) => (500, prefixed("Ошибка шаблона: ", t.as_str())),
            AppError::BadRequest(m) => (400, m),
            AppError::Unauthorized => (401, "Необходима авторизация".to_owned()),
            AppError::Forbidden => (403, "Недостаточно прав для выполнения операции".to_owned()),
            AppError::NotFound(m) => (404, m),
            AppError::Internal(m) => (500, m),
        }
    }

    /// Status and HTML body of the answer to this error.
    pub fn response_parts(self) -> (r: (u16, String))
        ensures
            r.0 == error_response(self).0,
            r.1@ == error_page(error_response(self).0, error_response(self).1),
    {
        let (status, message) = self.status_and_message();
        (status, error_page_html(status, message.as_str()))
    }
}

/// `<h1>status</h1><p>message</p>`.
pub fn error_page_html(status: u16, message: &str) -> (r: String)
    ensures
        r@ == error_page(status, message@),
{
    let mut r = "<h1>".to_owned();
    push_decimal(&mut r, status as u64);
    push_str(&mut r, "</h1><p>");
    push_str(&mut r, message);
    push_str(&mut r, "</p>");
    r
}

/// The message the SQL console shows for an error.
pub fn format_error_message(error: AppError) -> (r: String)
    ensures
        r@ == console_message(error),
{
    match error {
        AppError::BadRequest(m) => m,
        AppError::NotFound(m) => m,
        AppError::Internal(m) => m,
        AppError::Forbidden => "Недостаточно прав для выполнения SQL-запроса.".to_owned(),
        AppError::Unauthorized => "Необходима авторизация.".to_owned(),
        AppError::Db(f) => prefixed("Ошибка базы данных: ", f.text.as_str()),
        AppError::Template(t) => prefixed("Ошибка шаблона: ", t.as_str()),
    }
}

/// Every error is answered with a client error (400, 401, 403 or 404) or a server
/// error (500), and only database and template failures and internal errors are the
/// server's.
pub proof fn law_error_status(e: AppError)
    ensures
        ({
            let s = error_response(e).0;
            &&& s == 400 || s == 401 || s == 403 || s == 404 || s == 500
            &&& s == 500 ==> (e is Db || e is Template || e is Internal)
        }),
{
}

} // verus!
