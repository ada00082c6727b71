//! The forms that create and change records, the rules they must meet, and the values
//! that are stored from them.

use vstd::prelude::*;
use crate::error::AppError;
use crate::text::{trim, trimmed};

verus! {

/// Where an entered amount stands against zero. `Unordered` is a value that compares
/// with nothing, such as a NaN.
#[derive(Clone, Copy, PartialEq, Eq, Structural)]
pub enum NumberSign {
    Negative,
    Zero,
    Positive,
    Unordered,
}

/// An entry of a choice list: a reference table's id and the name it is shown by.
pub struct LookupItem {
    pub id: i32,
    pub name: String,
}

/// A new or changed owner.
pub struct NewOwnerForm {
    pub full_name: String,
    pub phone: String,
    pub email: Option<String>,
    pub passport_no: Option<String>,
    pub notes: Option<String>,
}

/// A new or changed client; the budget by where it stands against zero.
pub struct NewClientForm {
    pub client_type_id: i32,
    pub full_name: String,
    pub phone: String,
    pub email: Option<String>,
    pub budget: Option<NumberSign>,
    pub preferred_category_id: Option<i32>,
    pub notes: Option<String>,
}

/// A new or changed property; area and price by where they stand against zero.
pub struct NewPropertyForm {
    pub owner_id: u128,
    pub category_id: i32,
    pub status_id: i32,
    pub condition_id: i32,
    pub district_id: i32,
    pub title: String,
    pub area: NumberSign,
    pub price: NumberSign,
    pub address: String,
    pub description: Option<String>,
}

/// A new or changed deal; the amount by where it stands against zero.
pub struct NewDealForm {
    pub property_id: u128,
    pub client_id: u128,
    pub deal_type_id: i32,
    pub status_id: i32,
    pub amount: NumberSign,
    pub start_date: String,
    pub end_date: Option<String>,
    pub notes: Option<String>,
}

/// Whether an entered text is blank.
pub open spec fn blank(s: Seq<char>) -> bool {
    trim(s).len() == 0
}

/// The `BadRequest` error with message `m`.
pub open spec fn bad_request(r: Result<(), AppError>, m: Seq<char>) -> bool {
    r matches Err(AppError::BadRequest(t)) && t@ == m
}

pub open spec fn owner_required_text() -> Seq<char> {
    "ФИО и телефон собственника обязательны."@
}

pub open spec fn client_required_text() -> Seq<char> {
    "ФИО и телефон клиента обязательны."@
}

pub open spec fn client_budget_text() -> Seq<char> {
    "Бюджет клиента не может быть отрицательным."@
}

pub open spec fn property_required_text() -> Seq<char> {
    "Название и адрес объекта обязательны."@
}

pub open spec fn property_amounts_text() -> Seq<char> {
    "Площадь должна быть больше нуля, стоимость не может быть отрицательной."@
}

pub open spec fn deal_amount_text() -> Seq<char> {
    "Сумма сделки не может быть отрицательной."@
}

pub open spec fn deal_start_text() -> Seq<char> {
    "Дата начала сделки обязательна."@
}

/// Whether an entered text is blank.
pub fn is_blank(s: &str) -> (r: bool)
    ensures
        r == blank(s@),
{
    trimmed(s).as_str().is_empty()
}

/// An owner needs a name and a phone.
pub fn validate_owner(form: &NewOwnerForm) -> (r: Result<(), AppError>)
    ensures
        if blank(form.full_name@) || blank(form.phone@) {
            bad_request(r, owner_required_text())
        } else {
            r is Ok
        },
{
    if is_blank(form.full_name.as_str()) || is_blank(form.phone.as_str()) {
        return Err(AppError::BadRequest("ФИО и телефон собственника обязательны.".to_owned()));
    }
    Ok(())
}

/// A client needs a name and a phone, and a budget, when given, that is not negative.
pub fn validate_client(form: &NewClientForm) -> (r: Result<(), AppError>)
    ensures
        if blank(form.full_name@) || blank(form.phone@) {
            bad_request(r, client_required_text())
        } else if form.budget == Some(NumberSign::Negative) {
            bad_request(r, client_budget_text())
        } else {
            r is Ok
        },
{
    if is_blank(form.full_name.as_str()) || is_blank(form.phone.as_str()) {
        return Err(AppError::BadRequest("ФИО и телефон клиента обязательны.".to_owned()));
    }
    if let Some(budget) = form.budget {
        if budget == NumberSign::Negative {
            return Err(AppError::BadRequest("Бюджет клиента не может быть отрицательным.".to_owned()));
        }
    }
    Ok(())
}

/// A property needs a title and an address, an area above zero and a price that is
/// not negative.
pub fn validate_property(form: &NewPropertyForm) -> (r: Result<(), AppError>)
    ensures
        if blank(form.title@) || blank(form.address@) {
            bad_request(r, property_required_text())
        } else if form.area == NumberSign::Negative || form.area == NumberSign::Zero || form.price
            == NumberSign::Negative {
            bad_request(r, property_amounts_text())
        } else {
            r is Ok
        },
{
    if is_blank(form.title.as_str()) || is_blank(form.address.as_str()) {
        return Err(AppError::BadRequest("Название и адрес объекта обязательны.".to_owned()));
    }
    if form.area == NumberSign::Negative || form.area == NumberSign::Zero || form.price == NumberSign::Negative {
        return Err(
            AppError::BadRequest(
                "Площадь должна быть больше нуля, стоимость не может быть отрицательной.".to_owned(),
            ),
        );
    }
    Ok(())
}

/// A deal needs an amount that is not negative and a start date.
pub fn validate_deal(form: &NewDealForm) -> (r: Result<(), AppError>)
    ensures
        if form.amount == NumberSign::Negative {
            bad_request(r, deal_amount_text())
        } else if blank(form.start_date@) {
            bad_request(r, deal_start_text())
        } else {
            r is Ok
        },
{
    if form.amount == NumberSign::Negative {
        return Err(AppError::BadRequest("Сумма сделки не может быть отрицательной.".to_owned()));
    }
    if is_blank(form.start_date.as_str()) {
        return Err(AppError::BadRequest("Дата начала сделки обязательна.".to_owned()));
    }
    Ok(())
}

/// An optional text as it is stored: trimmed, and empty when absent (the database
/// keeps an empty text as no value).
pub open spec fn stored_optional(v: Option<String>) -> Seq<char> {
    match v {
        Some(s) => trim(s@),
        None => Seq::empty(),
    }
}

/// An optional text as it is stored: trimmed, and empty when absent.
pub fn optional_text(v: &Option<String>) -> (r: String)
    ensures
        r@ == stored_optional(*v),
{
    match v {
        Some(s) => trimmed(s.as_str()),
        None => String::new(),
    }
}

/// The texts stored for an owner.
pub struct OwnerValues {
    pub full_name: String,
    pub phone: String,
    pub email: String,
    pub passport_no: String,
    pub notes: String,
}

/// The texts stored for an owner: each trimmed, absent ones empty.
pub fn owner_values(form: &NewOwnerForm) -> (r: OwnerValues)
    ensures
        r.full_name@ == trim(form.full_name@),
        r.phone@ == trim(form.phone@),
        r.email@ == stored_optional(form.email),
        r.passport_no@ == stored_optional(form.passport_no),
        r.notes@ == stored_optional(form.notes),
{
    OwnerValues {
        full_name: trimmed(form.full_name.as_str()),
        phone: trimmed(form.phone.as_str()),
        email: optional_text(&form.email),
        passport_no: optional_text(&form.passport_no),
        notes: optional_text(&form.notes),
    }
}

/// The texts stored for a client.
pub struct ClientValues {
    pub full_name: String,
    pub phone: String,
    pub email: String,
    pub notes: String,
}

/// The texts stored for a client: each trimmed, absent ones empty.
pub fn client_values(form: &NewClientForm) -> (r: ClientValues)
    ensures
        r.full_name@ == trim(form.full_name@),
        r.phone@ == trim(form.phone@),
        r.email@ == stored_optional(form.email),
        r.notes@ == stored_optional(form.notes),
{
    ClientValues {
        full_name: trimmed(form.full_name.as_str()),
        phone: trimmed(form.phone.as_str()),
        email: optional_text(&form.email),
        notes: optional_text(&form.notes),
    }
}

/// The texts stored for a property.
pub struct PropertyValues {
    pub title: String,
    pub address: String,
    pub description: String,
}

/// The texts stored for a property: each trimmed, an absent description empty.
pub fn property_values(form: &NewPropertyForm) -> (r: PropertyValues)
    ensures
        r.title@ == trim(form.title@),
        r.address@ == trim(form.address@),
        r.description@ == stored_optional(form.description),
{
    PropertyValues {
        title: trimmed(form.title.as_str()),
        address: trimmed(form.address.as_str()),
        description: optional_text(&form.description),
    }
}

/// The texts stored for a deal.
pub struct DealValues {
    pub start_date: String,
    pub end_date: String,
    pub notes: String,
}

/// The texts stored for a deal: the start date and the notes trimmed, the end date as
/// entered, absent ones empty.
pub fn deal_values(form: &NewDealForm) -> (r: DealValues)
    ensures
        r.start_date@ == trim(form.start_date@),
        r.end_date@ == match form.end_date {
            Some(s) => s@,
            None => Seq::<char>::empty(),
        },
        r.notes@ == stored_optional(form.notes),
{
    DealValues {
        start_date: trimmed(form.start_date.as_str()),
        end_date: match &form.end_date {
            Some(s) => s.clone(),
            None => String::new(),
        },
        notes: optional_text(&form.notes),
    }
}


/// An optional text that is given is stored as exactly its trimmed text, whatever it
/// holds (line breaks included): a text that is not blank is never lost. An absent one
/// is stored empty.
pub proof fn law_optional_text_kept(v: Option<String>)
    ensures
        v matches Some(s) ==> stored_optional(v) == trim(s@),
        v is None ==> stored_optional(v).len() == 0,
{
}

} // verus!
