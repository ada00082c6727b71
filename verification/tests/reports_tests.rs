use realtyflow::auth::CurrentUser;
use realtyflow::error::AppError;
use realtyflow::pages::{page_chrome, Page};
use realtyflow::reports::{
    build_predefined_export, export_payload, plan_predefined_export, AuditLogRow, CatalogReportRow, ManagerPerformanceRow,
    MonthlySalesRow, OwnerPortfolioRow, ExportStep, ReportKind, ReportRows,
};

fn user(role: &str) -> CurrentUser {
    CurrentUser { user_id: 1, username: "u".into(), full_name: "Петров П.".into(), role_code: role.into(), role_name: "Менеджер".into() }
}

#[test]
fn export_plans() {
    let manager = user("manager");
    assert!(plan_predefined_export(&manager, "catalog").ok() == Some(ReportKind::Catalog));
    assert!(plan_predefined_export(&manager, "owner-portfolio").ok() == Some(ReportKind::OwnerPortfolio));
    assert!(plan_predefined_export(&manager, "monthly-sales").ok() == Some(ReportKind::MonthlySales));
    assert!(plan_predefined_export(&manager, "manager-performance").ok() == Some(ReportKind::ManagerPerformance));
    assert!(matches!(plan_predefined_export(&manager, "audit"), Err(AppError::Forbidden)));
    assert!(plan_predefined_export(&user("admin"), "audit").ok() == Some(ReportKind::Audit));
    match plan_predefined_export(&manager, "Catalog") {
        Err(AppError::NotFound(m)) => assert_eq!(m, "Неизвестный отчет для экспорта."),
        _ => panic!("unknown report"),
    }
}

#[test]
fn export_payloads() {
    let p = export_payload(&ReportRows::Catalog(vec![CatalogReportRow {
        property_title: "Дом".into(),
        category_name: "Дома".into(),
        status_name: "Свободен".into(),
        district_name: "Центр".into(),
        owner_name: "Иванов".into(),
        price: "1500000".into(),
    }]));
    assert_eq!(p.title, "catalog");
    assert_eq!(p.headers, vec!["Объект", "Категория", "Статус", "Район", "Собственник", "Цена"]);
    assert_eq!(p.rows, vec![vec!["Дом", "Дома", "Свободен", "Центр", "Иванов", "1500000"]]);

    let p = export_payload(&ReportRows::OwnerPortfolio(vec![OwnerPortfolioRow {
        owner_name: "Иванов".into(),
        properties_count: 3,
        active_deals: -1,
        total_portfolio_value: "2.5".into(),
    }]));
    assert_eq!(p.title, "owner-portfolio");
    assert_eq!(p.rows, vec![vec!["Иванов", "3", "-1", "2.5"]]);

    let p = export_payload(&ReportRows::MonthlySales(vec![MonthlySalesRow {
        period_label: "2024-05".into(),
        completed_deals: 12,
        total_amount: "10".into(),
        total_commission: "1".into(),
        payments_received: "5".into(),
    }]));
    assert_eq!(p.headers, vec!["Период", "Сделки", "Сумма", "Комиссия", "Платежи"]);
    assert_eq!(p.rows, vec![vec!["2024-05", "12", "10", "1", "5"]]);

    let p = export_payload(&ReportRows::ManagerPerformance(vec![]));
    assert_eq!(p.title, "manager-performance");
    assert_eq!(p.headers, vec!["Менеджер", "Завершенные сделки", "Объем", "Комиссия"]);
    assert!(p.rows.is_empty());
    let _ = ManagerPerformanceRow { manager_name: String::new(), completed_deals: 0, total_amount: String::new(), total_commission: String::new() };

    let p = export_payload(&ReportRows::Audit(vec![AuditLogRow {
        actor_name: "Системное действие".into(),
        action_type: "LOGIN".into(),
        entity_name: "app_users".into(),
        details: "вход".into(),
        created_at: "01.05.2024 10:00:00".into(),
    }]));
    assert_eq!(p.headers, vec!["Пользователь", "Действие", "Сущность", "Детали", "Дата"]);
    assert_eq!(p.rows[0][4], "01.05.2024 10:00:00");
}

#[test]
fn predefined_export_steps() {
    let manager = user("manager");
    let admin = user("admin");
    match build_predefined_export(&manager, "unknown", None) {
        Err(AppError::NotFound(m)) => assert_eq!(m, "Неизвестный отчет для экспорта."),
        _ => panic!("unknown report must not be found"),
    }
    assert!(matches!(
        build_predefined_export(&manager, "audit", Some(ReportRows::Audit(vec![]))),
        Err(AppError::Forbidden)
    ));
    assert!(matches!(build_predefined_export(&manager, "catalog", None), Ok(ExportStep::Load(ReportKind::Catalog))));
    assert!(matches!(build_predefined_export(&admin, "audit", None), Ok(ExportStep::Load(ReportKind::Audit))));
    assert!(matches!(
        build_predefined_export(&manager, "monthly-sales", Some(ReportRows::Catalog(vec![]))),
        Ok(ExportStep::Load(ReportKind::MonthlySales))
    ));
    match build_predefined_export(&manager, "owner-portfolio", Some(ReportRows::OwnerPortfolio(vec![]))) {
        Ok(ExportStep::Ready(p)) => {
            assert_eq!(p.title, "owner-portfolio");
            assert_eq!(p.headers.len(), 4);
            assert!(p.rows.is_empty());
        }
        _ => panic!("rows of the named report give the table"),
    }
    match build_predefined_export(&admin, "audit", Some(ReportRows::Audit(vec![AuditLogRow {
        actor_name: "a".into(),
        action_type: "b".into(),
        entity_name: "c".into(),
        details: "d".into(),
        created_at: "e".into(),
    }]))) {
        Ok(ExportStep::Ready(p)) => assert_eq!(p.rows, vec![vec!["a", "b", "c", "d", "e"]]),
        _ => panic!("administrators export the audit log"),
    }
}

#[test]
fn page_frames() {
    let c = page_chrome(Page::Login, None);
    assert_eq!(c.page_title, "Вход в систему");
    assert_eq!(c.nav_active, "");
    assert!(!c.is_authenticated && !c.is_admin && !c.can_edit && c.user_name.is_empty());
    let u = user("admin");
    let c = page_chrome(Page::DealEdit, Some(&u));
    assert_eq!((c.page_title.as_str(), c.nav_active.as_str()), ("Редактирование сделки", "deals"));
    assert!(c.is_authenticated && c.is_admin && c.can_edit);
    assert_eq!((c.user_name.as_str(), c.role_name.as_str()), ("Петров П.", "Менеджер"));
    assert_eq!(page_chrome(Page::Audit, Some(&user("viewer"))).page_title, "Журнал действий");
    assert!(!page_chrome(Page::Reports, Some(&user("viewer"))).can_edit);
}
