//! The reports page: the predefined report exports and the SQL console's panel.

use vstd::prelude::*;
use crate::auth::{admin_role, CurrentUser};
use crate::error::AppError;
use crate::export::views;
use crate::text::{push_signed_decimal, signed_decimal};

verus! {

/// A property of the catalog report; the price by its display text.
pub struct CatalogReportRow {
    pub property_title: String,
    pub category_name: String,
    pub status_name: String,
    pub district_name: String,
    pub owner_name: String,
    pub price: String,
}

/// An owner of the portfolio report; the portfolio value by its display text.
pub struct OwnerPortfolioRow {
    pub owner_name: String,
    pub properties_count: i64,
    pub active_deals: i64,
    pub total_portfolio_value: String,
}

/// A month of the sales report; sums by their display texts.
pub struct MonthlySalesRow {
    pub period_label: String,
    pub completed_deals: i64,
    pub total_amount: String,
    pub total_commission: String,
    pub payments_received: String,
}

/// A manager of the performance report; sums by their display texts.
pub struct ManagerPerformanceRow {
    pub manager_name: String,
    pub completed_deals: i64,
    pub total_amount: String,
    pub total_commission: String,
}

/// A row of the audit log as pages show it.
pub struct AuditLogRow {
    pub actor_name: String,
    pub action_type: String,
    pub entity_name: String,
    pub details: String,
    pub created_at: String,
}

/// The reports that can be exported.
#[derive(Clone, Copy, PartialEq, Eq, Structural)]
pub enum ReportKind {
    Catalog,
    OwnerPortfolio,
    MonthlySales,
    ManagerPerformance,
    Audit,
}

/// The name under which each report is exported, which is also its file's title.
pub open spec fn report_name(k: ReportKind) -> Seq<char> {
    match k {
        ReportKind::Catalog => "catalog"@,
        ReportKind::OwnerPortfolio => "owner-portfolio"@,
        ReportKind::MonthlySales => "monthly-sales"@,
        ReportKind::ManagerPerformance => "manager-performance"@,
        ReportKind::Audit => "audit"@,
    }
}

pub open spec fn unknown_report_text() -> Seq<char> {
    "Неизвестный отчет для экспорта."@
}

/// Why an export request is refused.
pub enum ExportRefusal {
    Forbidden,
    UnknownReport,
}

/// Which report an export request names, and whether the user may have it: the audit
/// log only goes to administrators; an unknown name is not found.
pub open spec fn export_plan(admin: bool, name: Seq<char>) -> Result<ReportKind, ExportRefusal> {
    if name == "catalog"@ {
        Ok(ReportKind::Catalog)
    } else if name == "owner-portfolio"@ {
        Ok(ReportKind::OwnerPortfolio)
    } else if name == "monthly-sales"@ {
        Ok(ReportKind::MonthlySales)
    } else if name == "manager-performance"@ {
        Ok(ReportKind::ManagerPerformance)
    } else if name == "audit"@ {
        if admin {
            Ok(ReportKind::Audit)
        } else {
            Err(ExportRefusal::Forbidden)
        }
    } else {
        Err(ExportRefusal::UnknownReport)
    }
}

/// Which report an export request names, if the user may have it.
pub fn plan_predefined_export(user: &CurrentUser, report_name: &str) -> (r: Result<ReportKind, AppError>)
    ensures
        match export_plan(admin_role(user.role_code@), report_name@) {
            Ok(k) => r == Ok::<ReportKind, AppError>(k),
            Err(ExportRefusal::Forbidden) => r matches Err(AppError::Forbidden),
            Err(ExportRefusal::UnknownReport) => r matches Err(AppError::NotFound(m)) && m@ == unknown_report_text(),
        },
{
    if crate::text::text_equals(report_name, "catalog") {
        Ok(ReportKind::Catalog)
    } else if crate::text::text_equals(report_name, "owner-portfolio") {
        Ok(ReportKind::OwnerPortfolio)
    } else if crate::text::text_equals(report_name, "monthly-sales") {
        Ok(ReportKind::MonthlySales)
    } else if crate::text::text_equals(report_name, "manager-performance") {
        Ok(ReportKind::ManagerPerformance)
    } else if crate::text::text_equals(report_name, "audit") {
        if user.is_admin() {
            Ok(ReportKind::Audit)
        } else {
            Err(AppError::Forbidden)
        }
    } else {
        Err(AppError::NotFound("Неизвестный отчет для экспорта.".to_owned()))
    }
}

/// The rows that a report export holds, as the report's query gives them.
pub enum ReportRows {
    Catalog(Vec<CatalogReportRow>),
    OwnerPortfolio(Vec<OwnerPortfolioRow>),
    MonthlySales(Vec<MonthlySalesRow>),
    ManagerPerformance(Vec<ManagerPerformanceRow>),
    Audit(Vec<AuditLogRow>),
}

/// The report that rows belong to.
pub open spec fn rows_kind(rows: ReportRows) -> ReportKind {
    match rows {
        ReportRows::Catalog(_) => ReportKind::Catalog,
        ReportRows::OwnerPortfolio(_) => ReportKind::OwnerPortfolio,
        ReportRows::MonthlySales(_) => ReportKind::MonthlySales,
        ReportRows::ManagerPerformance(_) => ReportKind::ManagerPerformance,
        ReportRows::Audit(_) => ReportKind::Audit,
    }
}

/// The column titles of each report.
pub open spec fn report_headers(k: ReportKind) -> Seq<Seq<char>> {
    match k {
        ReportKind::Catalog => seq!["Объект"@, "Категория"@, "Статус"@, "Район"@, "Собственник"@, "Цена"@],
        ReportKind::OwnerPortfolio => seq!["Собственник"@, "Объекты"@, "Активные сделки"@, "Стоимость портфеля"@],
        ReportKind::MonthlySales => seq!["Период"@, "Сделки"@, "Сумма"@, "Комиссия"@, "Платежи"@],
        ReportKind::ManagerPerformance => seq!["Менеджер"@, "Завершенные сделки"@, "Объем"@, "Комиссия"@],
        ReportKind::Audit => seq!["Пользователь"@, "Действие"@, "Сущность"@, "Детали"@, "Дата"@],
    }
}

pub open spec fn catalog_cells(r: CatalogReportRow) -> Seq<Seq<char>> {
    seq![r.property_title@, r.category_name@, r.status_name@, r.district_name@, r.owner_name@, r.price@]
}

pub open spec fn owner_portfolio_cells(r: OwnerPortfolioRow) -> Seq<Seq<char>> {
    seq![
        r.owner_name@,
        signed_decimal(r.properties_count as int),
        signed_decimal(r.active_deals as int),
        r.total_portfolio_value@,
    ]
}

pub open spec fn monthly_sales_cells(r: MonthlySalesRow) -> Seq<Seq<char>> {
    seq![
        r.period_label@,
        signed_decimal(r.completed_deals as int),
        r.total_amount@,
        r.total_commission@,
        r.payments_received@,
    ]
}

pub open spec fn manager_performance_cells(r: ManagerPerformanceRow) -> Seq<Seq<char>> {
    seq![r.manager_name@, signed_decimal(r.completed_deals as int), r.total_amount@, r.total_commission@]
}

pub open spec fn audit_cells(r: AuditLogRow) -> Seq<Seq<char>> {
    seq![r.actor_name@, r.action_type@, r.entity_name@, r.details@, r.created_at@]
}

/// The cells of each row of a report, one per column, integers in decimal.
pub open spec fn report_cells(rows: ReportRows) -> Seq<Seq<Seq<char>>> {
    match rows {
        ReportRows::Catalog(v) => v@.map_values(|r: CatalogReportRow| catalog_cells(r)),
        ReportRows::OwnerPortfolio(v) => v@.map_values(|r: OwnerPortfolioRow| owner_portfolio_cells(r)),
        ReportRows::MonthlySales(v) => v@.map_values(|r: MonthlySalesRow| monthly_sales_cells(r)),
        ReportRows::ManagerPerformance(v) => v@.map_values(
            |r: ManagerPerformanceRow| manager_performance_cells(r),
        ),
        ReportRows::Audit(v) => v@.map_values(|r: AuditLogRow| audit_cells(r)),
    }
}

/// A table to export: its title, its column titles and its rows.
pub struct ExportPayload {
    pub title: String,
    pub headers: Vec<String>,
    pub rows: Vec<Vec<String>>,
}

proof fn lemma_map_push<A, B>(s: Seq<A>, x: A, f: spec_fn(A) -> B)
    ensures
        s.push(x).map_values(f) == s.map_values(f).push(f(x)),
{
    assert(s.push(x).map_values(f) =~= s.map_values(f).push(f(x)));
}

fn texts(items: &[&str]) -> (r: Vec<String>)
    ensures
        views(r@) == items@.map_values(|s: &str| s@),
{
    let mut r: Vec<String> = Vec::new();
    let mut i: usize = 0;
    while i < items.len()
        invariant
            i <= items@.len(),
            views(r@) == items@.take(i as int).map_values(|s: &str| s@),
        decreases items.len() - i,
    {
        let ghost before = r@;
        let t = items[i].to_owned();
        r.push(t);
        proof {
            assert(items@.take(i + 1) =~= items@.take(i as int).push(items@[i as int]));
            lemma_map_push(before, t, |s: String| s@);
            lemma_map_push(items@.take(i as int), items@[i as int], |s: &str| s@);
        }
        i = i + 1;
    }
    assert(items@.take(items@.len() as int) =~= items@);
    r
}

fn decimal_text(n: i64) -> (r: String)
    ensures
        r@ == signed_decimal(n as int),
{
    let mut r = String::new();
    push_signed_decimal(&mut r, n);
    r
}

/// The column titles of a report.
pub fn export_headers(k: ReportKind) -> (r: Vec<String>)
    ensures
        views(r@) == report_headers(k),
{
    let items: Vec<&str> = match k {
        ReportKind::Catalog => vec!["Объект", "Категория", "Статус", "Район", "Собственник", "Цена"],
        ReportKind::OwnerPortfolio => vec!["Собственник", "Объекты", "Активные сделки", "Стоимость портфеля"],
        ReportKind::MonthlySales => vec!["Период", "Сделки", "Сумма", "Комиссия", "Платежи"],
        ReportKind::ManagerPerformance => vec!["Менеджер", "Завершенные сделки", "Объем", "Комиссия"],
        ReportKind::Audit => vec!["Пользователь", "Действие", "Сущность", "Детали", "Дата"],
    };
    let r = texts(items.as_slice());
    assert(views(r@) =~= report_headers(k));
    r
}

/// The name under which a report is exported.
pub fn export_title(k: ReportKind) -> (r: String)
    ensures
        r@ == report_name(k),
{
    match k {
        ReportKind::Catalog => "catalog".to_owned(),
        ReportKind::OwnerPortfolio => "owner-portfolio".to_owned(),
        ReportKind::MonthlySales => "monthly-sales".to_owned(),
        ReportKind::ManagerPerformance => "manager-performance".to_owned(),
        ReportKind::Audit => "audit".to_owned(),
    }
}

fn catalog_row_cells(r: &CatalogReportRow) -> (c: Vec<String>)
    ensures
        views(c@) == catalog_cells(*r),
{
    let c = vec![r.property_title.clone(), r.category_name.clone(), r.status_name.clone(),
        r.district_name.clone(), r.owner_name.clone(), r.price.clone()];
    assert(views(c@) =~= catalog_cells(*r));
    c
}

fn owner_portfolio_row_cells(r: &OwnerPortfolioRow) -> (c: Vec<String>)
    ensures
        views(c@) == owner_portfolio_cells(*r),
{
    let c = vec![r.owner_name.clone(), decimal_text(r.properties_count),
        decimal_text(r.active_deals), r.total_portfolio_value.clone()];
    assert(views(c@) =~= owner_portfolio_cells(*r));
    c
}

fn monthly_sales_row_cells(r: &MonthlySalesRow) -> (c: Vec<String>)
    ensures
        views(c@) == monthly_sales_cells(*r),
{
    let c = vec![r.period_label.clone(), decimal_text(r.completed_deals),
        r.total_amount.clone(), r.total_commission.clone(), r.payments_received.clone()];
    assert(views(c@) =~= monthly_sales_cells(*r));
    c
}

fn manager_performance_row_cells(r: &ManagerPerformanceRow) -> (c: Vec<String>)
    ensures
        views(c@) == manager_performance_cells(*r),
{
    let c = vec![r.manager_name.clone(), decimal_text(r.completed_deals),
        r.total_amount.clone(), r.total_commission.clone()];
    assert(views(c@) =~= manager_performance_cells(*r));
    c
}

fn audit_row_cells(r: &AuditLogRow) -> (c: Vec<String>)
    ensures
        views(c@) == audit_cells(*r),
{
    let c = vec![r.actor_name.clone(), r.action_type.clone(), r.entity_name.clone(),
        r.details.clone(), r.created_at.clone()];
    assert(views(c@) =~= audit_cells(*r));
    c
}

/// The cells of each row, one row of cells per report row, as `row_cells` gives them.
fn collect_cells<T>(
    v: &Vec<T>,
    row_cells: impl Fn(&T) -> Vec<String>,
    Ghost(spec_cells): Ghost<spec_fn(T) -> Seq<Seq<char>>>,
) -> (r: Vec<Vec<String>>)
    requires
        forall|x: &T| #[trigger] row_cells.requires((x,)),
        forall|x: &T, c: Vec<String>| #[trigger] row_cells.ensures((x,), c) ==> views(c@)
            == spec_cells(*x),
    ensures
        r@.map_values(|row: Vec<String>| views(row@)) == v@.map_values(spec_cells),
{
    let mut out: Vec<Vec<String>> = Vec::new();
    let mut i: usize = 0;
    while i < v.len()
        invariant
            i <= v@.len(),
            forall|x: &T| #[trigger] row_cells.requires((x,)),
            forall|x: &T, c: Vec<String>| #[trigger] row_cells.ensures((x,), c) ==> views(c@)
                == spec_cells(*x),
            out@.map_values(|row: Vec<String>| views(row@)) == v@.take(i as int).map_values(
                spec_cells,
            ),
        decreases v.len() - i,
    {
        let cells = row_cells(&v[i]);
        let ghost before = out@;
        out.push(cells);
        proof {
            assert(v@.take(i + 1) =~= v@.take(i as int).push(v@[i as int]));
            lemma_map_push(before, cells, |row: Vec<String>| views(row@));
            lemma_map_push(v@.take(i as int), v@[i as int], spec_cells);
        }
        i = i + 1;
    }
    assert(v@.take(v@.len() as int) =~= v@);
    out
}

fn cells_of(rows: &ReportRows) -> (r: Vec<Vec<String>>)
    ensures
        r@.map_values(|row: Vec<String>| views(row@)) == report_cells(*rows),
{
    match rows {
        ReportRows::Catalog(v) => collect_cells(
            v,
            catalog_row_cells,
            Ghost(|r: CatalogReportRow| catalog_cells(r)),
        ),
        ReportRows::OwnerPortfolio(v) => collect_cells(
            v,
            owner_portfolio_row_cells,
            Ghost(|r: OwnerPortfolioRow| owner_portfolio_cells(r)),
        ),
        ReportRows::MonthlySales(v) => collect_cells(
            v,
            monthly_sales_row_cells,
            Ghost(|r: MonthlySalesRow| monthly_sales_cells(r)),
        ),
        ReportRows::ManagerPerformance(v) => collect_cells(
            v,
            manager_performance_row_cells,
            Ghost(|r: ManagerPerformanceRow| manager_performance_cells(r)),
        ),
        ReportRows::Audit(v) => collect_cells(
            v,
            audit_row_cells,
            Ghost(|r: AuditLogRow| audit_cells(r)),
        ),
    }
}

/// The table that a report's rows export as: the report's name as title, its column
/// titles, and one row of cells per report row.
pub open spec fn is_payload(rows: ReportRows, p: ExportPayload) -> bool {
    &&& p.title@ == report_name(rows_kind(rows))
    &&& views(p.headers@) == report_headers(rows_kind(rows))
    &&& p.rows@.map_values(|row: Vec<String>| views(row@)) == report_cells(rows)
}

/// The table that a report's rows export as: the report's name as title, its column
/// titles, and one row of cells per report row.
pub fn export_payload(rows: &ReportRows) -> (r: ExportPayload)
    ensures
        r.title@ == report_name(rows_kind(*rows)),
        views(r.headers@) == report_headers(rows_kind(*rows)),
        r.rows@.map_values(|row: Vec<String>| views(row@)) == report_cells(*rows),
{
    let kind = match rows {
        ReportRows::Catalog(_) => ReportKind::Catalog,
        ReportRows::OwnerPortfolio(_) => ReportKind::OwnerPortfolio,
        ReportRows::MonthlySales(_) => ReportKind::MonthlySales,
        ReportRows::ManagerPerformance(_) => ReportKind::ManagerPerformance,
        ReportRows::Audit(_) => ReportKind::Audit,
    };
    ExportPayload { title: export_title(kind), headers: export_headers(kind), rows: cells_of(rows) }
}

/// What a report export needs next: the rows of the named report, or nothing more,
/// with the table to export.
pub enum ExportStep {
    Load(ReportKind),
    Ready(ExportPayload),
}

/// The export of a predefined report, one decision at a time. An unknown name is not
/// found and the audit log is refused to users who are not administrators, both before
/// any rows are read. Otherwise, until the rows of the named report are handed in, the
/// step is to load them; once they are, the table is ready.
pub fn build_predefined_export(
    user: &CurrentUser,
    report_name: &str,
    loaded: Option<ReportRows>,
) -> (r: Result<ExportStep, AppError>)
    ensures
        match export_plan(admin_role(user.role_code@), report_name@) {
            Err(ExportRefusal::Forbidden) => r matches Err(AppError::Forbidden),
            Err(ExportRefusal::UnknownReport) => r matches Err(AppError::NotFound(m)) && m@
                == unknown_report_text(),
            Ok(k) => if loaded matches Some(rows) && rows_kind(rows) == k {
                r matches Ok(ExportStep::Ready(p)) && is_payload(loaded->Some_0, p)
            } else {
                r matches Ok(ExportStep::Load(k2)) && k2 == k
            },
        },
{
    let kind = plan_predefined_export(user, report_name)?;
    match loaded {
        Some(rows) => {
            let rows_kind = match &rows {
                ReportRows::Catalog(_) => ReportKind::Catalog,
                ReportRows::OwnerPortfolio(_) => ReportKind::OwnerPortfolio,
                ReportRows::MonthlySales(_) => ReportKind::MonthlySales,
                ReportRows::ManagerPerformance(_) => ReportKind::ManagerPerformance,
                ReportRows::Audit(_) => ReportKind::Audit,
            };
            if rows_kind == kind {
                Ok(ExportStep::Ready(export_payload(&rows)))
            } else {
                Ok(ExportStep::Load(kind))
            }
        },
        None => Ok(ExportStep::Load(kind)),
    }
}

/// The shape of a report export: a report is exported under the name it was asked by;
/// every row has one cell per column title; and which report a name gives, and whether
/// it is refused, depends on the user only for the audit log.
pub proof fn law_export_shape(admin1: bool, admin2: bool, name: Seq<char>, rows: ReportRows)
    ensures
        export_plan(admin1, name) matches Ok(k) ==> report_name(k) == name,
        forall|i: int|
            0 <= i < report_cells(rows).len() ==> (#[trigger] report_cells(rows)[i]).len()
                == report_headers(rows_kind(rows)).len(),
        name != "audit"@ ==> export_plan(admin1, name) == export_plan(admin2, name),
{
}


/// Every export cell sits under the column title that names it: for row `i` of a
/// report, cell `j` is the field of that row which column title `j` names, integers
/// written in decimal.
pub proof fn law_report_columns(rows: ReportRows, i: int)
    requires
        0 <= i < report_cells(rows).len(),
    ensures
        report_cells(rows)[i].len() == report_headers(rows_kind(rows)).len(),
        match rows {
            ReportRows::Catalog(v) => {
                let r = v@[i];
                let c = report_cells(rows)[i];
                &&& report_headers(ReportKind::Catalog) == seq![
                    "Объект"@,
                    "Категория"@,
                    "Статус"@,
                    "Район"@,
                    "Собственник"@,
                    "Цена"@,
                ]
                &&& c[0] == r.property_title@ && c[1] == r.category_name@ && c[2] == r.status_name@
                &&& c[3] == r.district_name@ && c[4] == r.owner_name@ && c[5] == r.price@
            },
            ReportRows::OwnerPortfolio(v) => {
                let r = v@[i];
                let c = report_cells(rows)[i];
                &&& report_headers(ReportKind::OwnerPortfolio) == seq![
                    "Собственник"@,
                    "Объекты"@,
                    "Активные сделки"@,
                    "Стоимость портфеля"@,
                ]
                &&& c[0] == r.owner_name@ && c[1] == signed_decimal(r.properties_count as int)
                &&& c[2] == signed_decimal(r.active_deals as int) && c[3] == r.total_portfolio_value@
            },
            ReportRows::MonthlySales(v) => {
                let r = v@[i];
                let c = report_cells(rows)[i];
                &&& report_headers(ReportKind::MonthlySales) == seq![
                    "Период"@,
                    "Сделки"@,
                    "Сумма"@,
                    "Комиссия"@,
                    "Платежи"@,
                ]
                &&& c[0] == r.period_label@ && c[1] == signed_decimal(r.completed_deals as int)
                &&& c[2] == r.total_amount@ && c[3] == r.total_commission@ && c[4]
                    == r.payments_received@
            },
            ReportRows::ManagerPerformance(v) => {
                let r = v@[i];
                let c = report_cells(rows)[i];
                &&& report_headers(ReportKind::ManagerPerformance) == seq![
                    "Менеджер"@,
                    "Завершенные сделки"@,
                    "Объем"@,
                    "Комиссия"@,
                ]
                &&& c[0] == r.manager_name@ && c[1] == signed_decimal(r.completed_deals as int)
                &&& c[2] == r.total_amount@ && c[3] == r.total_commission@
            },
            ReportRows::Audit(v) => {
                let r = v@[i];
                let c = report_cells(rows)[i];
                &&& report_headers(ReportKind::Audit) == seq![
                    "Пользователь"@,
                    "Действие"@,
                    "Сущность"@,
                    "Детали"@,
                    "Дата"@,
                ]
                &&& c[0] == r.actor_name@ && c[1] == r.action_type@ && c[2] == r.entity_name@
                &&& c[3] == r.details@ && c[4] == r.created_at@
            },
        },
{
}

} // verus!
