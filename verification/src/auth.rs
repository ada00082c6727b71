//! Sessions and roles: the cookies that carry the signed-in user, what a request's
//! cookies say about who is signed in, and what each role may do.

use vstd::prelude::*;
use crate::audit::AuditEvent;
use crate::error::AppError;
use crate::text::{text_equals, trimmed, trim};

verus! {

/// What `uuid::Uuid::parse_str` gives for a text, as the 128-bit value of the UUID.
pub uninterp spec fn parsed_uuid(text: Seq<char>) -> Option<u128>;

/// The lowercase hexadecimal digit of `d < 16`.
pub open spec fn hex_digit(d: nat) -> char {
    if d < 10 {
        (48 + d) as char
    } else {
        (87 + d) as char
    }
}

/// The last `count` hexadecimal digits of `v`, most significant first.
pub open spec fn hex_digits(v: nat, count: nat) -> Seq<char>
    decreases count,
{
    if count == 0 {
        Seq::empty()
    } else {
        hex_digits(v / 16, (count - 1) as nat).push(hex_digit(v % 16))
    }
}

/// The hyphenated form of a UUID: its 32 lowercase hexadecimal digits in groups of 8,
/// 4, 4, 4 and 12, joined by hyphens.
pub open spec fn uuid_text(id: u128) -> Seq<char> {
    let h = hex_digits(id as nat, 32);
    h.subrange(0, 8) + seq!['-'] + h.subrange(8, 12) + seq!['-'] + h.subrange(12, 16) + seq!['-']
        + h.subrange(16, 20) + seq!['-'] + h.subrange(20, 32)
}

/// `uuid::Uuid::parse_str`: the UUID a text denotes, if any. The result is named, not
/// written out here; that an empty text is no UUID is stated (`parse_str` accepts only
/// inputs of 32, 36, 38 or 45 bytes).
#[verifier::external_body]
pub fn parse_uuid(text: &str) -> (r: Option<u128>)
    ensures
        r == parsed_uuid(text@),
        text@.len() == 0 ==> r is None,
{
    match uuid::Uuid::parse_str(text) {
        Ok(id) => Some(id.as_u128()),
        Err(_) => None,
    }
}

/// `Display for uuid::Uuid`: the hyphenated lowercase form of a UUID, 36 characters,
/// which `Uuid::parse_str` reads back as the same UUID.
#[verifier::external_body]
pub fn format_uuid(id: u128) -> (r: String)
    ensures
        r@ == uuid_text(id),
        r@.len() == 36,
        parsed_uuid(r@) == Some(id),
{
    uuid::Uuid::from_u128(id).to_string()
}

/// The cookies of a request, by name. Adding a cookie replaces any cookie of the same
/// name.
pub struct CookieJar {
    entries: Vec<(String, String)>,
}

/// The cookies named in `entries`, later ones replacing earlier ones.
pub open spec fn jar_map(entries: Seq<(String, String)>) -> Map<Seq<char>, Seq<char>>
    decreases entries.len(),
{
    if entries.len() == 0 {
        Map::empty()
    } else {
        jar_map(entries.drop_last()).insert(entries.last().0@, entries.last().1@)
    }
}

impl View for CookieJar {
    type V = Map<Seq<char>, Seq<char>>;

    closed spec fn view(&self) -> Map<Seq<char>, Seq<char>> {
        jar_map(self.entries@)
    }
}

impl CookieJar {
    /// A jar without cookies.
    pub fn new() -> (r: CookieJar)
        ensures
            r@ == Map::<Seq<char>, Seq<char>>::empty(),
    {
        CookieJar { entries: Vec::new() }
    }

    /// Adds a cookie, replacing any cookie of the same name.
    pub fn add(&mut self, name: &str, value: &str)
        ensures
            final(self)@ == old(self)@.insert(name@, value@),
    {
        let ghost before = self.entries@;
        self.entries.push((name.to_owned(), value.to_owned()));
        proof {
            assert(self.entries@.drop_last() =~= before);
        }
    }

    /// The value of the cookie named `name`, if the jar holds one.
    pub fn get(&self, name: &str) -> (r: Option<String>)
        ensures
            match r {
                Some(v) => self@.dom().contains(name@) && self@[name@] == v@,
                None => !self@.dom().contains(name@),
            },
    {
        let mut j: usize = self.entries.len();
        proof {
            assert(self.entries@.take(j as int) =~= self.entries@);
        }
        while j > 0
            invariant
                j <= self.entries@.len(),
                forall|k: int|
                    j <= k < self.entries@.len() ==> (#[trigger] self.entries@[k]).0@ != name@,
                jar_map(self.entries@).dom().contains(name@) == jar_map(self.entries@.take(j as int)).dom().contains(name@),
                jar_map(self.entries@).dom().contains(name@) ==> jar_map(self.entries@)[name@] == jar_map(self.entries@.take(j as int))[name@],
            decreases j,
        {
            proof {
                assert(self.entries@.take(j as int).drop_last() =~= self.entries@.take(j - 1));
            }
            if text_equals(self.entries[j - 1].0.as_str(), name) {
                return Some(self.entries[j - 1].1.clone());
            }
            j = j - 1;
        }
        None
    }
}

/// The user that a request's cookies name, if they name one: all five session cookies
/// must be present, and `user_id` must hold a UUID.
pub open spec fn session_user(jar: Map<Seq<char>, Seq<char>>) -> Option<(u128, Seq<char>, Seq<char>, Seq<char>, Seq<char>)> {
    if jar.dom().contains("user_id"@) && jar["user_id"@].len() > 0 && parsed_uuid(jar["user_id"@]) is Some
        && jar.dom().contains("username"@) && jar.dom().contains("full_name"@)
        && jar.dom().contains("role_code"@) && jar.dom().contains("role_name"@) {
        Some((
            parsed_uuid(jar["user_id"@])->Some_0,
            jar["username"@],
            jar["full_name"@],
            jar["role_code"@],
            jar["role_name"@],
        ))
    } else {
        None
    }
}

/// The signed-in user of a request.
#[derive(Clone)]
pub struct CurrentUser {
    pub user_id: u128,
    pub username: String,
    pub full_name: String,
    pub role_code: String,
    pub role_name: String,
}

/// The fields of a user, by their views.
pub open spec fn user_fields(u: CurrentUser) -> (u128, Seq<char>, Seq<char>, Seq<char>, Seq<char>) {
    (u.user_id, u.username@, u.full_name@, u.role_code@, u.role_name@)
}

/// The administrator role.
pub open spec fn admin_role(code: Seq<char>) -> bool {
    code == "admin"@
}

/// The roles that may change records: administrator, manager and realtor.
pub open spec fn editor_role(code: Seq<char>) -> bool {
    code == "admin"@ || code == "manager"@ || code == "realtor"@
}

impl CurrentUser {
    /// The user named by the session cookies, if they name one.
    pub fn from_jar(jar: &CookieJar) -> (r: Option<CurrentUser>)
        ensures
            match r {
                Some(u) => session_user(jar@) == Some(user_fields(u)),
                None => session_user(jar@) is None,
            },
    {
        let id_text = match jar.get("user_id") {
            Some(t) => t,
            None => return None,
        };
        let user_id = match parse_uuid(id_text.as_str()) {
            Some(id) => id,
            None => return None,
        };
        let username = match jar.get("username") {
            Some(t) => t,
            None => return None,
        };
        let full_name = match jar.get("full_name") {
            Some(t) => t,
            None => return None,
        };
        let role_code = match jar.get("role_code") {
            Some(t) => t,
            None => return None,
        };
        let role_name = match jar.get("role_name") {
            Some(t) => t,
            None => return None,
        };
        Some(CurrentUser { user_id, username, full_name, role_code, role_name })
    }

    /// Whether the user is an administrator.
    pub fn is_admin(&self) -> (r: bool)
        ensures
            r == admin_role(self.role_code@),
    {
        text_equals(self.role_code.as_str(), "admin")
    }

    /// Whether the user may change records.
    pub fn can_edit(&self) -> (r: bool)
        ensures
            r == editor_role(self.role_code@),
    {
        text_equals(self.role_code.as_str(), "admin") || text_equals(self.role_code.as_str(), "manager")
            || text_equals(self.role_code.as_str(), "realtor")
    }
}

/// Every administrator may change records.
pub proof fn law_admin_can_edit(code: Seq<char>)
    ensures
        admin_role(code) ==> editor_role(code),
{
}

/// Refuses a user who may not change records.
pub fn authorize_edit(user: &CurrentUser) -> (r: Result<(), AppError>)
    ensures
        r is Ok <==> editor_role(user.role_code@),
        r matches Err(e) ==> e is Forbidden,
{
    if user.can_edit() {
        Ok(())
    } else {
        Err(AppError::Forbidden)
    }
}

/// Refuses a user who is not an administrator.
pub fn authorize_admin(user: &CurrentUser) -> (r: Result<(), AppError>)
    ensures
        r is Ok <==> admin_role(user.role_code@),
        r matches Err(e) ==> e is Forbidden,
{
    if user.is_admin() {
        Ok(())
    } else {
        Err(AppError::Forbidden)
    }
}

/// A cookie that the answer sets: readable on every path, hidden from scripts, and
/// sent only with same-site requests and top-level navigation (`SameSite=Lax`).
pub struct SessionCookie {
    pub name: String,
    pub value: String,
    pub path: String,
    pub http_only: bool,
    pub same_site_lax: bool,
}

/// A session cookie with the given name and value.
pub open spec fn is_session_cookie(c: SessionCookie, name: Seq<char>, value: Seq<char>) -> bool {
    &&& c.name@ == name
    &&& c.value@ == value
    &&& c.path@ == "/"@
    &&& c.http_only
    &&& c.same_site_lax
}

/// A session cookie with the given name and value.
pub fn build_cookie(name: &str, value: String) -> (r: SessionCookie)
    ensures
        is_session_cookie(r, name@, value@),
{
    SessionCookie {
        name: name.to_owned(),
        value,
        path: "/".to_owned(),
        http_only: true,
        same_site_lax: true,
    }
}

/// The cookies of `jar` once `cookies` are set, in order.
pub open spec fn with_cookies(jar: Map<Seq<char>, Seq<char>>, cookies: Seq<SessionCookie>) -> Map<Seq<char>, Seq<char>>
    decreases cookies.len(),
{
    if cookies.len() == 0 {
        jar
    } else {
        with_cookies(jar, cookies.drop_last()).insert(cookies.last().name@, cookies.last().value@)
    }
}

impl CookieJar {
    /// Sets `cookies`, in order.
    pub fn add_cookies(&mut self, cookies: &[SessionCookie])
        ensures
            final(self)@ == with_cookies(old(self)@, cookies@),
    {
        let ghost start = self@;
        let mut i: usize = 0;
        while i < cookies.len()
            invariant
                i <= cookies@.len(),
                self@ == with_cookies(start, cookies@.take(i as int)),
            decreases cookies.len() - i,
        {
            proof {
                assert(cookies@.take(i + 1).drop_last() =~= cookies@.take(i as int));
            }
            self.add(cookies[i].name.as_str(), cookies[i].value.as_str());
            i = i + 1;
        }
        proof {
            assert(cookies@.take(cookies@.len() as int) =~= cookies@);
        }
    }
}

/// A user as the sign-in query finds them.
pub struct AuthUserRecord {
    pub id: u128,
    pub username: String,
    pub full_name: String,
    pub password_plain: String,
    pub role_code: String,
    pub role_name: String,
}

/// The cookies that sign `user` in: the user's id, as UUID text, and the four texts
/// that pages show, each in a session cookie.
pub open spec fn sign_in_cookies(user: AuthUserRecord, cookies: Seq<SessionCookie>) -> bool {
    &&& cookies.len() == 5
    &&& is_session_cookie(cookies[0], "user_id"@, uuid_text(user.id))
    &&& cookies[0].value@.len() > 0
    &&& parsed_uuid(cookies[0].value@) == Some(user.id)
    &&& is_session_cookie(cookies[1], "username"@, user.username@)
    &&& is_session_cookie(cookies[2], "full_name"@, user.full_name@)
    &&& is_session_cookie(cookies[3], "role_code"@, user.role_code@)
    &&& is_session_cookie(cookies[4], "role_name"@, user.role_name@)
}

/// The cookies that end a session: the five session cookies, emptied.
pub open spec fn sign_out_cookies(cookies: Seq<SessionCookie>) -> bool {
    &&& cookies.len() == 5
    &&& is_session_cookie(cookies[0], "user_id"@, Seq::empty())
    &&& is_session_cookie(cookies[1], "username"@, Seq::empty())
    &&& is_session_cookie(cookies[2], "full_name"@, Seq::empty())
    &&& is_session_cookie(cookies[3], "role_code"@, Seq::empty())
    &&& is_session_cookie(cookies[4], "role_name"@, Seq::empty())
}

/// The cookies that sign `user` in.
pub fn login_cookies(user: &AuthUserRecord) -> (r: Vec<SessionCookie>)
    ensures
        sign_in_cookies(*user, r@),
{
    let mut r: Vec<SessionCookie> = Vec::new();
    r.push(build_cookie("user_id", format_uuid(user.id)));
    r.push(build_cookie("username", user.username.clone()));
    r.push(build_cookie("full_name", user.full_name.clone()));
    r.push(build_cookie("role_code", user.role_code.clone()));
    r.push(build_cookie("role_name", user.role_name.clone()));
    r
}

/// The cookies that end a session.
pub fn logout_cookies() -> (r: Vec<SessionCookie>)
    ensures
        sign_out_cookies(r@),
{
    let mut r: Vec<SessionCookie> = Vec::new();
    r.push(build_cookie("user_id", String::new()));
    r.push(build_cookie("username", String::new()));
    r.push(build_cookie("full_name", String::new()));
    r.push(build_cookie("role_code", String::new()));
    r.push(build_cookie("role_name", String::new()));
    r
}

proof fn lemma_session_names_distinct()
    ensures
        "user_id"@ != "username"@,
        "user_id"@ != "full_name"@,
        "user_id"@ != "role_code"@,
        "user_id"@ != "role_name"@,
        "username"@ != "full_name"@,
        "username"@ != "role_code"@,
        "username"@ != "role_name"@,
        "full_name"@ != "role_code"@,
        "full_name"@ != "role_name"@,
        "role_code"@ != "role_name"@,
{
    reveal_strlit("user_id");
    reveal_strlit("username");
    reveal_strlit("full_name");
    reveal_strlit("role_code");
    reveal_strlit("role_name");
    assert("user_id"@.len() == 7);
    assert("username"@.len() == 8);
    assert("full_name"@[0] == 'f');
    assert("role_code"@[0] == 'r');
    assert("role_name"@[0] == 'r');
    assert("user_id"@[0] == 'u');
    assert("username"@[0] == 'u');
    assert("role_code"@[5] == 'c');
    assert("role_name"@[5] == 'n');
}

proof fn lemma_with_five(jar: Map<Seq<char>, Seq<char>>, cookies: Seq<SessionCookie>)
    requires
        cookies.len() == 5,
    ensures
        with_cookies(jar, cookies) == jar.insert(cookies[0].name@, cookies[0].value@).insert(
            cookies[1].name@,
            cookies[1].value@,
        ).insert(cookies[2].name@, cookies[2].value@).insert(cookies[3].name@, cookies[3].value@).insert(
            cookies[4].name@,
            cookies[4].value@,
        ),
{
    reveal_with_fuel(with_cookies, 6);
    let c = cookies;
    assert(c.drop_last().drop_last().drop_last().drop_last().drop_last().len() == 0);
    assert(c.drop_last().last() == c[3]);
    assert(c.drop_last().drop_last().last() == c[2]);
    assert(c.drop_last().drop_last().drop_last().last() == c[1]);
    assert(c.drop_last().drop_last().drop_last().drop_last().last() == c[0]);
}

/// Signing in is remembered: whatever cookies a browser already holds, once it stores
/// the cookies of a sign-in, its requests name the user who signed in.
pub proof fn law_sign_in_session(
    jar: Map<Seq<char>, Seq<char>>,
    user: AuthUserRecord,
    cookies: Seq<SessionCookie>,
)
    requires
        sign_in_cookies(user, cookies),
    ensures
        session_user(with_cookies(jar, cookies)) == Some(
            (user.id, user.username@, user.full_name@, user.role_code@, user.role_name@),
        ),
{
    lemma_session_names_distinct();
    lemma_with_five(jar, cookies);
}

/// Signing out ends the session: whatever cookies a browser already holds, once it
/// stores the cookies of a sign-out, its requests name no user.
pub proof fn law_sign_out_ends_session(jar: Map<Seq<char>, Seq<char>>, cookies: Seq<SessionCookie>)
    requires
        sign_out_cookies(cookies),
    ensures
        session_user(with_cookies(jar, cookies)) is None,
{
    lemma_session_names_distinct();
    lemma_with_five(jar, cookies);
}

/// The sign-in form.
pub struct LoginForm {
    pub username: String,
    pub password: String,
}

/// The user name and password that the sign-in query looks for: as entered, trimmed.
pub fn login_credentials(form: &LoginForm) -> (r: (String, String))
    ensures
        r.0@ == trim(form.username@),
        r.1@ == trim(form.password@),
{
    (trimmed(form.username.as_str()), trimmed(form.password.as_str()))
}

/// The message for a refused sign-in.
pub open spec fn bad_credentials_text() -> Seq<char> {
    "Неверный логин или пароль."@
}

/// What a sign-in leads to.
pub enum LoginOutcome {
    /// No active user has these credentials: the sign-in page again, with a message.
    Rejected(String),
    /// The user is signed in: the audit row to write, the cookies to set and the page
    /// to go to.
    SignedIn { audit: AuditEvent, cookies: Vec<SessionCookie>, redirect: String },
}

/// The audit row of a sign-in or a sign-out of `user`.
pub open spec fn session_event(e: AuditEvent, user: u128, action: Seq<char>, details: Seq<char>) -> bool {
    &&& e.actor_user_id == Some(user)
    &&& e.action_type@ == action
    &&& e.entity_name@ == "app_users"@
    &&& e.entity_id == Some(user)
    &&& e.details@ == details
}

fn session_audit(user: u128, action: &str, details: &str) -> (r: AuditEvent)
    ensures
        session_event(r, user, action@, details@),
{
    AuditEvent {
        actor_user_id: Some(user),
        action_type: action.to_owned(),
        entity_name: "app_users".to_owned(),
        entity_id: Some(user),
        details: details.to_owned(),
    }
}

/// What a sign-in leads to, given the user that the credentials found, if any.
pub fn login_outcome(found: Option<AuthUserRecord>) -> (r: LoginOutcome)
    ensures
        match found {
            None => r matches LoginOutcome::Rejected(m) && m@ == bad_credentials_text(),
            Some(user) => r matches LoginOutcome::SignedIn { audit, cookies, redirect } && {
                &&& session_event(audit, user.id, "LOGIN"@, "Пользователь выполнил вход в систему"@)
                &&& sign_in_cookies(user, cookies@)
                &&& redirect@ == "/app"@
            },
        },
{
    match found {
        None => LoginOutcome::Rejected("Неверный логин или пароль.".to_owned()),
        Some(user) => {
            let audit = session_audit(user.id, "LOGIN", "Пользователь выполнил вход в систему");
            let cookies = login_cookies(&user);
            LoginOutcome::SignedIn { audit, cookies, redirect: "/app".to_owned() }
        },
    }
}

/// What a sign-out leads to: an audit row when the request named a user, the cookies
/// that end the session, and the sign-in page.
pub struct LogoutOutcome {
    pub audit: Option<AuditEvent>,
    pub cookies: Vec<SessionCookie>,
    pub redirect: String,
}

/// What a sign-out leads to, given the request's cookies.
pub fn logout_outcome(jar: &CookieJar) -> (r: LogoutOutcome)
    ensures
        match session_user(jar@) {
            None => r.audit is None,
            Some(u) => r.audit matches Some(e) && session_event(e, u.0, "LOGOUT"@, "Пользователь завершил сеанс"@),
        },
        sign_out_cookies(r.cookies@),
        r.redirect@ == "/login"@,
{
    let audit = match CurrentUser::from_jar(jar) {
        Some(user) => Some(session_audit(user.user_id, "LOGOUT", "Пользователь завершил сеанс")),
        None => None,
    };
    LogoutOutcome { audit, cookies: logout_cookies(), redirect: "/login".to_owned() }
}

/// What stands in front of every page of the application: the signed-in user, or the
/// sign-in page to go to instead.
pub fn auth_guard(jar: &CookieJar) -> (r: Result<CurrentUser, String>)
    ensures
        match r {
            Ok(u) => session_user(jar@) == Some(user_fields(u)),
            Err(path) => session_user(jar@) is None && path@ == "/login"@,
        },
{
    match CurrentUser::from_jar(jar) {
        Some(user) => Ok(user),
        None => Err("/login".to_owned()),
    }
}

/// Where the sign-in page sends a user who is already signed in: to the application.
pub fn login_page_redirect(jar: &CookieJar) -> (r: Option<String>)
    ensures
        match r {
            Some(path) => session_user(jar@) is Some && path@ == "/app"@,
            None => session_user(jar@) is None,
        },
{
    match CurrentUser::from_jar(jar) {
        Some(_) => Some("/app".to_owned()),
        None => None,
    }
}

} // verus!
