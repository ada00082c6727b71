use realtyflow::audit::{audit_event, entity_list_path, entity_table, finish_change, mutation_result, Action, Entity};
use realtyflow::error::AppError;
use realtyflow::forms::{
    client_values, deal_values, optional_text, owner_values, property_values, validate_client,
    validate_deal, validate_owner, validate_property, NewClientForm, NewDealForm, NewOwnerForm,
    NewPropertyForm, NumberSign,
};

fn refusal(r: Result<(), AppError>) -> String {
    match r {
        Err(AppError::BadRequest(m)) => m,
        _ => panic!("expected a refusal"),
    }
}

fn owner(name: &str, phone: &str) -> NewOwnerForm {
    NewOwnerForm { full_name: name.into(), phone: phone.into(), email: Some(" a@b.c ".into()), passport_no: None, notes: Some("  ".into()) }
}

fn client(name: &str, budget: Option<NumberSign>) -> NewClientForm {
    NewClientForm {
        client_type_id: 1,
        full_name: name.into(),
        phone: "+7 900".into(),
        email: None,
        budget,
        preferred_category_id: None,
        notes: None,
    }
}

fn property(title: &str, area: NumberSign, price: NumberSign) -> NewPropertyForm {
    NewPropertyForm {
        owner_id: 1,
        category_id: 1,
        status_id: 1,
        condition_id: 1,
        district_id: 1,
        title: title.into(),
        area,
        price,
        address: "ул. Ленина, 1".into(),
        description: Some(" вид на реку ".into()),
    }
}

fn deal(amount: NumberSign, start: &str) -> NewDealForm {
    NewDealForm {
        property_id: 1,
        client_id: 2,
        deal_type_id: 1,
        status_id: 1,
        amount,
        start_date: start.into(),
        end_date: Some(" 2024-05-01".into()),
        notes: None,
    }
}

#[test]
fn owner_rules() {
    assert!(validate_owner(&owner("Петров", "123")).is_ok());
    assert_eq!(refusal(validate_owner(&owner("  ", "123"))), "ФИО и телефон собственника обязательны.");
    assert_eq!(refusal(validate_owner(&owner("Петров", ""))), "ФИО и телефон собственника обязательны.");
    let v = owner_values(&owner(" Петров ", " 123 "));
    assert_eq!((v.full_name.as_str(), v.phone.as_str(), v.email.as_str(), v.passport_no.as_str(), v.notes.as_str()), ("Петров", "123", "a@b.c", "", ""));
}

#[test]
fn client_rules() {
    assert!(validate_client(&client("Сидоров", None)).is_ok());
    assert!(validate_client(&client("Сидоров", Some(NumberSign::Zero))).is_ok());
    assert!(validate_client(&client("Сидоров", Some(NumberSign::Unordered))).is_ok());
    assert_eq!(refusal(validate_client(&client("Сидоров", Some(NumberSign::Negative)))), "Бюджет клиента не может быть отрицательным.");
    assert_eq!(refusal(validate_client(&client(" ", Some(NumberSign::Negative)))), "ФИО и телефон клиента обязательны.");
    let v = client_values(&client(" Сидоров ", None));
    assert_eq!(v.full_name, "Сидоров");
    assert_eq!(v.email, "");
}

#[test]
fn property_rules() {
    assert!(validate_property(&property("Дом", NumberSign::Positive, NumberSign::Zero)).is_ok());
    assert!(validate_property(&property("Дом", NumberSign::Unordered, NumberSign::Unordered)).is_ok());
    let amounts = "Площадь должна быть больше нуля, стоимость не может быть отрицательной.";
    assert_eq!(refusal(validate_property(&property("Дом", NumberSign::Zero, NumberSign::Positive))), amounts);
    assert_eq!(refusal(validate_property(&property("Дом", NumberSign::Positive, NumberSign::Negative))), amounts);
    assert_eq!(refusal(validate_property(&property("", NumberSign::Zero, NumberSign::Negative))), "Название и адрес объекта обязательны.");
    let v = property_values(&property(" Дом ", NumberSign::Positive, NumberSign::Zero));
    assert_eq!((v.title.as_str(), v.description.as_str()), ("Дом", "вид на реку"));
}

#[test]
fn deal_rules() {
    assert!(validate_deal(&deal(NumberSign::Zero, "2024-01-01")).is_ok());
    assert_eq!(refusal(validate_deal(&deal(NumberSign::Negative, ""))), "Сумма сделки не может быть отрицательной.");
    assert_eq!(refusal(validate_deal(&deal(NumberSign::Positive, "  "))), "Дата начала сделки обязательна.");
    let v = deal_values(&deal(NumberSign::Zero, " 2024-01-01 "));
    assert_eq!((v.start_date.as_str(), v.end_date.as_str(), v.notes.as_str()), ("2024-01-01", " 2024-05-01", ""));
    assert_eq!(optional_text(&Some("  x ".into())), "x");
}

#[test]
fn audit_texts() {
    let e = audit_event(5, Entity::Client, Action::Create, 9, "  Сидоров ");
    assert_eq!(e.action_type, "CREATE");
    assert_eq!(e.entity_name, "clients");
    assert_eq!(e.details, "Добавлен клиент 'Сидоров'");
    assert_eq!((e.actor_user_id, e.entity_id), (Some(5), Some(9)));
    assert_eq!(audit_event(5, Entity::Property, Action::Update, 9, "Дом").details, "Обновлен объект недвижимости 'Дом'");
    assert_eq!(audit_event(5, Entity::Owner, Action::Delete, 9, "ignored").details, "Удален собственник");
    assert_eq!(audit_event(5, Entity::Deal, Action::Create, 9, "ignored").details, "Зарегистрирована новая сделка");
    assert_eq!(audit_event(5, Entity::Deal, Action::Delete, 9, "").action_type, "DELETE");
    assert_eq!(entity_table(Entity::Deal), "deals");
    assert_eq!(entity_list_path(Entity::Property), "/app/properties");
}

#[test]
fn missing_records_are_not_found() {
    assert!(mutation_result(Entity::Owner, 1).is_ok());
    match mutation_result(Entity::Deal, 0) {
        Err(AppError::NotFound(m)) => assert_eq!(m, "Сделка не найдена."),
        _ => panic!("no row was touched"),
    }
    match mutation_result(Entity::Property, 0) {
        Err(AppError::NotFound(m)) => assert_eq!(m, "Объект недвижимости не найден."),
        _ => panic!("no row was touched"),
    }
}

#[test]
fn finishing_a_change() {
    let (event, redirect) = finish_change(1, Entity::Owner, Action::Update, 2, " Петров ", Some(1)).ok().unwrap();
    assert_eq!(redirect, "/app/owners");
    assert_eq!(event.details, "Обновлен собственник 'Петров'");
    let (event, redirect) = finish_change(1, Entity::Deal, Action::Create, 3, "", None).ok().unwrap();
    assert_eq!((event.action_type.as_str(), redirect.as_str()), ("CREATE", "/app/deals"));
    match finish_change(1, Entity::Client, Action::Delete, 4, "", Some(0)) {
        Err(AppError::NotFound(m)) => assert_eq!(m, "Клиент не найден."),
        _ => panic!("nothing was deleted"),
    }
}
