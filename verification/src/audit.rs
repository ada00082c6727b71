//! The records that the back office keeps, what changing one writes to the audit log,
//! and the answers that follow a change.

use vstd::prelude::*;
use crate::error::AppError;
use crate::text::{push_char, push_str, trimmed, trim};

verus! {

/// A row of the audit log, as it is written.
pub struct AuditEvent {
    pub actor_user_id: Option<u128>,
    pub action_type: String,
    pub entity_name: String,
    pub entity_id: Option<u128>,
    pub details: String,
}

/// The kinds of record that users change.
#[derive(Clone, Copy, PartialEq, Eq, Structural)]
pub enum Entity {
    Property,
    Owner,
    Client,
    Deal,
}

/// The changes a user makes to a record.
#[derive(Clone, Copy, PartialEq, Eq, Structural)]
pub enum Action {
    Create,
    Update,
    Delete,
}

/// The table that holds records of a kind.
pub open spec fn table_name(e: Entity) -> Seq<char> {
    match e {
        Entity::Property => "properties"@,
        Entity::Owner => "owners"@,
        Entity::Client => "clients"@,
        Entity::Deal => "deals"@,
    }
}

/// The page that lists records of a kind, where a change sends the user back.
pub open spec fn list_path(e: Entity) -> Seq<char> {
    match e {
        Entity::Property => "/app/properties"@,
        Entity::Owner => "/app/owners"@,
        Entity::Client => "/app/clients"@,
        Entity::Deal => "/app/deals"@,
    }
}

/// The message for a record that does not exist.
pub open spec fn not_found_text(e: Entity) -> Seq<char> {
    match e {
        Entity::Property => "Объект недвижимости не найден."@,
        Entity::Owner => "Собственник не найден."@,
        Entity::Client => "Клиент не найден."@,
        Entity::Deal => "Сделка не найдена."@,
    }
}

/// The action's name in the audit log.
pub open spec fn action_name(a: Action) -> Seq<char> {
    match a {
        Action::Create => "CREATE"@,
        Action::Update => "UPDATE"@,
        Action::Delete => "DELETE"@,
    }
}

/// `prefix'label'`.
pub open spec fn quoted(prefix: Seq<char>, label: Seq<char>) -> Seq<char> {
    prefix + seq!['\''] + label + seq!['\'']
}

/// The audit text for a change; `label` is the record's name or title as entered,
/// which creations and updates quote trimmed (deals are not named).
pub open spec fn audit_details(e: Entity, a: Action, label: Seq<char>) -> Seq<char> {
    match (e, a) {
        (Entity::Property, Action::Create) => quoted("Добавлен объект недвижимости "@, trim(label)),
        (Entity::Property, Action::Update) => quoted("Обновлен объект недвижимости "@, trim(label)),
        (Entity::Property, Action::Delete) => "Удален объект недвижимости"@,
        (Entity::Owner, Action::Create) => quoted("Добавлен собственник "@, trim(label)),
        (Entity::Owner, Action::Update) => quoted("Обновлен собственник "@, trim(label)),
        (Entity::Owner, Action::Delete) => "Удален собственник"@,
        (Entity::Client, Action::Create) => quoted("Добавлен клиент "@, trim(label)),
        (Entity::Client, Action::Update) => quoted("Обновлен клиент "@, trim(label)),
        (Entity::Client, Action::Delete) => "Удален клиент"@,
        (Entity::Deal, Action::Create) => "Зарегистрирована новая сделка"@,
        (Entity::Deal, Action::Update) => "Обновлена сделка"@,
        (Entity::Deal, Action::Delete) => "Удалена сделка"@,
    }
}

/// The table that holds records of a kind.
pub fn entity_table(e: Entity) -> (r: String)
    ensures
        r@ == table_name(e),
{
    match e {
        Entity::Property => "properties".to_owned(),
        Entity::Owner => "owners".to_owned(),
        Entity::Client => "clients".to_owned(),
        Entity::Deal => "deals".to_owned(),
    }
}

/// The page that lists records of a kind.
pub fn entity_list_path(e: Entity) -> (r: String)
    ensures
        r@ == list_path(e),
{
    match e {
        Entity::Property => "/app/properties".to_owned(),
        Entity::Owner => "/app/owners".to_owned(),
        Entity::Client => "/app/clients".to_owned(),
        Entity::Deal => "/app/deals".to_owned(),
    }
}

/// The error for a record that does not exist.
pub fn not_found(e: Entity) -> (r: AppError)
    ensures
        r matches AppError::NotFound(m) && m@ == not_found_text(e),
{
    let m = match e {
        Entity::Property => "Объект недвижимости не найден.".to_owned(),
        Entity::Owner => "Собственник не найден.".to_owned(),
        Entity::Client => "Клиент не найден.".to_owned(),
        Entity::Deal => "Сделка не найдена.".to_owned(),
    };
    AppError::NotFound(m)
}

fn quote_label(prefix: &str, label: &str) -> (r: String)
    ensures
        r@ == quoted(prefix@, trim(label@)),
{
    let mut r = prefix.to_owned();
    push_char(&mut r, '\'');
    let t = trimmed(label);
    push_str(&mut r, t.as_str());
    push_char(&mut r, '\'');
    r
}

/// The audit log row for a user's change to a record.
pub fn audit_event(actor: u128, e: Entity, a: Action, record_id: u128, label: &str) -> (r: AuditEvent)
    ensures
        r.actor_user_id == Some(actor),
        r.action_type@ == action_name(a),
        r.entity_name@ == table_name(e),
        r.entity_id == Some(record_id),
        r.details@ == audit_details(e, a, label@),
{
    let action_type = match a {
        Action::Create => "CREATE".to_owned(),
        Action::Update => "UPDATE".to_owned(),
        Action::Delete => "DELETE".to_owned(),
    };
    let details = match (e, a) {
        (Entity::Property, Action::Create) => quote_label("Добавлен объект недвижимости ", label),
        (Entity::Property, Action::Update) => quote_label("Обновлен объект недвижимости ", label),
        (Entity::Property, Action::Delete) => "Удален объект недвижимости".to_owned(),
        (Entity::Owner, Action::Create) => quote_label("Добавлен собственник ", label),
        (Entity::Owner, Action::Update) => quote_label("Обновлен собственник ", label),
        (Entity::Owner, Action::Delete) => "Удален собственник".to_owned(),
        (Entity::Client, Action::Create) => quote_label("Добавлен клиент ", label),
        (Entity::Client, Action::Update) => quote_label("Обновлен клиент ", label),
        (Entity::Client, Action::Delete) => "Удален клиент".to_owned(),
        (Entity::Deal, Action::Create) => "Зарегистрирована новая сделка".to_owned(),
        (Entity::Deal, Action::Update) => "Обновлена сделка".to_owned(),
        (Entity::Deal, Action::Delete) => "Удалена сделка".to_owned(),
    };
    AuditEvent {
        actor_user_id: Some(actor),
        action_type,
        entity_name: entity_table(e),
        entity_id: Some(record_id),
        details,
    }
}

/// The outcome of an update or a delete that touched `rows_affected` rows: a change
/// that touched no row means the record does not exist.
pub fn mutation_result(e: Entity, rows_affected: u64) -> (r: Result<(), AppError>)
    ensures
        r is Ok <==> rows_affected > 0,
        r matches Err(err) ==> err matches AppError::NotFound(m) && m@ == not_found_text(e),
{
    if rows_affected == 0 {
        Err(not_found(e))
    } else {
        Ok(())
    }
}

/// What follows a write of a change to a record: for an update or a delete that
/// touched no row, the record's not-found error and no audit row; otherwise the audit
/// row to write and the listing page to go back to. `rows_affected` is `None` for a
/// creation, which always touches its new row.
pub fn finish_change(
    actor: u128,
    e: Entity,
    a: Action,
    record_id: u128,
    label: &str,
    rows_affected: Option<u64>,
) -> (r: Result<(AuditEvent, String), AppError>)
    ensures
        r is Err <==> rows_affected == Some(0u64),
        match r {
            Ok((event, redirect)) => {
                &&& event.actor_user_id == Some(actor)
                &&& event.action_type@ == action_name(a)
                &&& event.entity_name@ == table_name(e)
                &&& event.entity_id == Some(record_id)
                &&& event.details@ == audit_details(e, a, label@)
                &&& redirect@ == list_path(e)
            },
            Err(err) => err matches AppError::NotFound(m) && m@ == not_found_text(e),
        },
{
    if let Some(n) = rows_affected {
        mutation_result(e, n)?;
    }
    Ok((audit_event(actor, e, a, record_id, label), entity_list_path(e)))
}


/// The audit log names the action that was done: a creation is written as `CREATE`, an
/// update as `UPDATE` and a deletion as `DELETE`, so different actions never share a
/// name.
pub proof fn law_audit_action_names(a: Action, b: Action)
    ensures
        a == Action::Create ==> action_name(a) == "CREATE"@,
        a == Action::Update ==> action_name(a) == "UPDATE"@,
        a == Action::Delete ==> action_name(a) == "DELETE"@,
        a != b ==> action_name(a) != action_name(b),
{
    reveal_strlit("CREATE");
    reveal_strlit("UPDATE");
    reveal_strlit("DELETE");
    if a != b {
        assert(action_name(a)[0] != action_name(b)[0] || action_name(a)[1] != action_name(b)[1]);
    }
}

} // verus!
