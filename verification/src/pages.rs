//! The pages of the back office and what each shows in its frame: title, active menu
//! entry, and the signed-in user with what they may do.

use vstd::prelude::*;
use crate::auth::{admin_role, editor_role, CurrentUser};

verus! {

/// The pages of the back office.
#[derive(Clone, Copy, PartialEq, Eq, Structural)]
pub enum Page {
    Login,
    Dashboard,
    Properties,
    PropertyEdit,
    Owners,
    OwnerEdit,
    Clients,
    ClientEdit,
    Deals,
    DealEdit,
    Reports,
    Audit,
}

/// The title of each page.
pub open spec fn page_title(p: Page) -> Seq<char> {
    match p {
        Page::Login => "Вход в систему"@,
        Page::Dashboard => "Панель управления"@,
        Page::Properties => "Объекты недвижимости"@,
        Page::PropertyEdit => "Редактирование объекта"@,
        Page::Owners => "Собственники"@,
        Page::OwnerEdit => "Редактирование собственника"@,
        Page::Clients => "Клиенты"@,
        Page::ClientEdit => "Редактирование клиента"@,
        Page::Deals => "Сделки"@,
        Page::DealEdit => "Редактирование сделки"@,
        Page::Reports => "Отчеты"@,
        Page::Audit => "Журнал действий"@,
    }
}

/// The menu entry each page highlights (none on the sign-in page).
pub open spec fn page_nav(p: Page) -> Seq<char> {
    match p {
        Page::Login => Seq::empty(),
        Page::Dashboard => "dashboard"@,
        Page::Properties | Page::PropertyEdit => "properties"@,
        Page::Owners | Page::OwnerEdit => "owners"@,
        Page::Clients | Page::ClientEdit => "clients"@,
        Page::Deals | Page::DealEdit => "deals"@,
        Page::Reports => "reports"@,
        Page::Audit => "audit"@,
    }
}

/// What the frame of a page shows.
pub struct PageChrome {
    pub page_title: String,
    pub nav_active: String,
    pub is_authenticated: bool,
    pub user_name: String,
    pub role_name: String,
    pub is_admin: bool,
    pub can_edit: bool,
}

/// The frame of a page: its title and menu entry; for a signed-in user their full
/// name, role and rights; for nobody, empty texts and no rights.
pub fn page_chrome(page: Page, user: Option<&CurrentUser>) -> (r: PageChrome)
    ensures
        r.page_title@ == page_title(page),
        r.nav_active@ == page_nav(page),
        match user {
            Some(u) => {
                &&& r.is_authenticated
                &&& r.user_name@ == u.full_name@
                &&& r.role_name@ == u.role_name@
                &&& r.is_admin == admin_role(u.role_code@)
                &&& r.can_edit == editor_role(u.role_code@)
            },
            None => {
                &&& !r.is_authenticated
                &&& r.user_name@.len() == 0
                &&& r.role_name@.len() == 0
                &&& !r.is_admin
                &&& !r.can_edit
            },
        },
{
    let page_title = match page {
        Page::Login => "Вход в систему".to_owned(),
        Page::Dashboard => "Панель управления".to_owned(),
        Page::Properties => "Объекты недвижимости".to_owned(),
        Page::PropertyEdit => "Редактирование объекта".to_owned(),
        Page::Owners => "Собственники".to_owned(),
        Page::OwnerEdit => "Редактирование собственника".to_owned(),
        Page::Clients => "Клиенты".to_owned(),
        Page::ClientEdit => "Редактирование клиента".to_owned(),
        Page::Deals => "Сделки".to_owned(),
        Page::DealEdit => "Редактирование сделки".to_owned(),
        Page::Reports => "Отчеты".to_owned(),
        Page::Audit => "Журнал действий".to_owned(),
    };
    let nav_active = match page {
        Page::Login => String::new(),
        Page::Dashboard => "dashboard".to_owned(),
        Page::Properties | Page::PropertyEdit => "properties".to_owned(),
        Page::Owners | Page::OwnerEdit => "owners".to_owned(),
        Page::Clients | Page::ClientEdit => "clients".to_owned(),
        Page::Deals | Page::DealEdit => "deals".to_owned(),
        Page::Reports => "reports".to_owned(),
        Page::Audit => "audit".to_owned(),
    };
    match user {
        Some(u) => PageChrome {
            page_title,
            nav_active,
            is_authenticated: true,
            user_name: u.full_name.clone(),
            role_name: u.role_name.clone(),
            is_admin: u.is_admin(),
            can_edit: u.can_edit(),
        },
        None => PageChrome {
            page_title,
            nav_active,
            is_authenticated: false,
            user_name: String::new(),
            role_name: String::new(),
            is_admin: false,
            can_edit: false,
        },
    }
}

} // verus!
