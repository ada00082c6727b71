use realtyflow::auth::{
    auth_guard, authorize_admin, authorize_edit, build_cookie, format_uuid, login_credentials,
    login_outcome, login_page_redirect, logout_cookies, logout_outcome, parse_uuid, AuthUserRecord,
    CookieJar, CurrentUser, LoginForm, LoginOutcome,
};

const ID: u128 = 0x67e5_5044_10b1_426f_9247_bb68_0e5f_e0c8;

fn record(role: &str) -> AuthUserRecord {
    AuthUserRecord {
        id: ID,
        username: "ivanov".into(),
        full_name: "Иванов И.И.".into(),
        password_plain: "secret".into(),
        role_code: role.into(),
        role_name: "Риелтор".into(),
    }
}

fn user(role: &str) -> CurrentUser {
    CurrentUser {
        user_id: ID,
        username: "u".into(),
        full_name: "F".into(),
        role_code: role.into(),
        role_name: "R".into(),
    }
}

#[test]
fn uuid_text_round_trip() {
    let text = format_uuid(ID);
    assert_eq!(text, "67e55044-10b1-426f-9247-bb680e5fe0c8");
    assert_eq!(parse_uuid(&text), Some(ID));
    assert_eq!(parse_uuid("67e5504410b1426f9247bb680e5fe0c8"), Some(ID));
    assert_eq!(parse_uuid(""), None);
    assert_eq!(parse_uuid("not-a-uuid"), None);
}

#[test]
fn jar_keeps_the_latest_cookie_of_a_name() {
    let mut jar = CookieJar::new();
    assert_eq!(jar.get("a"), None);
    jar.add("a", "1");
    jar.add("b", "2");
    jar.add("a", "3");
    assert_eq!(jar.get("a"), Some("3".to_string()));
    assert_eq!(jar.get("b"), Some("2".to_string()));
}

#[test]
fn from_jar_needs_all_session_cookies() {
    let mut jar = CookieJar::new();
    jar.add("user_id", "67e55044-10b1-426f-9247-bb680e5fe0c8");
    jar.add("username", "ivanov");
    jar.add("full_name", "Иванов");
    jar.add("role_code", "admin");
    assert!(CurrentUser::from_jar(&jar).is_none());
    jar.add("role_name", "Администратор");
    let u = CurrentUser::from_jar(&jar).unwrap();
    assert_eq!(u.user_id, ID);
    assert_eq!(u.full_name, "Иванов");
    assert!(u.is_admin());
    jar.add("user_id", "garbage");
    assert!(CurrentUser::from_jar(&jar).is_none());
}

#[test]
fn sign_in_then_sign_out() {
    let mut jar = CookieJar::new();
    jar.add("theme", "dark");
    match login_outcome(Some(record("realtor"))) {
        LoginOutcome::SignedIn { audit, cookies, redirect } => {
            assert_eq!(redirect, "/app");
            assert_eq!(audit.action_type, "LOGIN");
            assert_eq!(audit.entity_name, "app_users");
            assert_eq!(audit.actor_user_id, Some(ID));
            assert_eq!(audit.entity_id, Some(ID));
            assert_eq!(audit.details, "Пользователь выполнил вход в систему");
            assert_eq!(cookies.len(), 5);
            assert!(cookies.iter().all(|c| c.path == "/" && c.http_only && c.same_site_lax));
            jar.add_cookies(&cookies);
        }
        LoginOutcome::Rejected(_) => panic!("the user exists"),
    }
    let u = CurrentUser::from_jar(&jar).unwrap();
    assert_eq!(u.user_id, ID);
    assert_eq!(u.username, "ivanov");
    assert_eq!(u.role_code, "realtor");
    assert!(u.can_edit() && !u.is_admin());
    assert_eq!(login_page_redirect(&jar), Some("/app".to_string()));

    let out = logout_outcome(&jar);
    assert_eq!(out.redirect, "/login");
    let audit = out.audit.unwrap();
    assert_eq!(audit.action_type, "LOGOUT");
    assert_eq!(audit.details, "Пользователь завершил сеанс");
    jar.add_cookies(&out.cookies);
    assert!(CurrentUser::from_jar(&jar).is_none());
    assert_eq!(auth_guard(&jar).err(), Some("/login".to_string()));
    assert_eq!(login_page_redirect(&jar), None);
    assert!(logout_outcome(&jar).audit.is_none());
}

#[test]
fn rejected_sign_in() {
    match login_outcome(None) {
        LoginOutcome::Rejected(m) => assert_eq!(m, "Неверный логин или пароль."),
        _ => panic!("no user was found"),
    }
    let (u, p) = login_credentials(&LoginForm { username: " ivanov ".into(), password: "\tpw ".into() });
    assert_eq!((u.as_str(), p.as_str()), ("ivanov", "pw"));
}

#[test]
fn roles_and_rights() {
    for (role, edit, admin) in [("admin", true, true), ("manager", true, false), ("realtor", true, false), ("viewer", false, false), ("Admin", false, false)] {
        let u = user(role);
        assert_eq!(u.can_edit(), edit);
        assert_eq!(u.is_admin(), admin);
        assert_eq!(authorize_edit(&u).is_ok(), edit);
        assert_eq!(authorize_admin(&u).is_ok(), admin);
    }
    let c = build_cookie("x", "y".into());
    assert_eq!((c.name.as_str(), c.value.as_str(), c.path.as_str()), ("x", "y", "/"));
    assert!(logout_cookies().iter().all(|c| c.value.is_empty()));
}
