//! Logging in: with the administrator account, settings are unlocked; a free
//! login opens the application without them.
use vstd::prelude::*;
use crate::error::MyError;
use crate::text::{str_eq, text};

verus! {

/// Whether someone is logged in, and how.
#[derive(Debug, Clone, Copy, PartialEq, Eq, Structural)]
pub struct LoginStore {
    /// Someone is logged in.
    pub logined: bool,
    /// The login was a free login, without account.
    pub free_login: bool,
}

/// How a login ended.
#[derive(Debug, Clone, Copy, PartialEq, Eq, Structural)]
pub enum LoginResult {
    /// Logged in with the administrator account.
    Logined,
    /// Logged in without account.
    FreeLogin,
}

/// The administrator account's name.
pub const ADMIN_USER: &'static str = "admin";

/// The administrator account's password.
pub const ADMIN_PASSWORD: &'static str = "123456";

/// What a login with `name` and `password` answers: the first of an empty
/// name, an empty password and a wrong account is refused with its message.
pub open spec fn login_spec(name: Seq<char>, password: Seq<char>) -> Result<LoginResult, Seq<char>> {
    if name.len() == 0 {
        Err("用户名不能为空!!!"@)
    } else if password.len() == 0 {
        Err("密码不能为空!!!"@)
    } else if name == ADMIN_USER@ && password == ADMIN_PASSWORD@ {
        Ok(LoginResult::Logined)
    } else {
        Err("用户名或者密码错误!!!"@)
    }
}

/// Logs in with an account; only the administrator account is accepted, and
/// then the store records a login with account.
pub fn login(store: &mut LoginStore, name: &str, password: &str) -> (r: Result<LoginResult, MyError>)
    ensures
        match login_spec(name@, password@) {
            Ok(x) => r == Ok::<LoginResult, MyError>(x) && *final(store) == (LoginStore { logined: true, free_login: false }),
            Err(m) => (r matches Err(MyError::LoginError(e)) && e@ == m) && *final(store) == *old(store),
        },
{
    if name.unicode_len() == 0 {
        Err(MyError::LoginError(text("用户名不能为空!!!")))
    } else if password.unicode_len() == 0 {
        Err(MyError::LoginError(text("密码不能为空!!!")))
    } else if str_eq(name, ADMIN_USER) && str_eq(password, ADMIN_PASSWORD) {
        store.logined = true;
        store.free_login = false;
        Ok(LoginResult::Logined)
    } else {
        Err(MyError::LoginError(text("用户名或者密码错误!!!")))
    }
}

/// Logs in without account.
pub fn free_login(store: &mut LoginStore) -> (r: LoginResult)
    ensures
        r == LoginResult::FreeLogin,
        *final(store) == (LoginStore { logined: true, free_login: true }),
{
    store.logined = true;
    store.free_login = true;
    LoginResult::FreeLogin
}

/// What shows after a login: the login page or the application, and whether
/// the settings button (and, after a free login, the settings tab) shows.
#[derive(Debug, Clone, Copy, PartialEq, Eq, Structural)]
pub struct LoginLayout {
    /// The login page shows.
    pub show_login: bool,
    /// The application shows.
    pub show_app: bool,
    /// The settings button shows.
    pub show_settings: bool,
    /// The settings tab: hidden after a free login, unchanged otherwise.
    pub hide_providers_tab: bool,
}

/// The layout after a login ended with `result`, given whether someone is
/// logged in.
pub fn login_layout(logined: bool, result: LoginResult) -> (r: LoginLayout)
    ensures
        r.show_login == !logined,
        r.show_app == logined,
        r.show_settings == (result == LoginResult::Logined),
        r.hide_providers_tab == (result == LoginResult::FreeLogin),
{
    match result {
        LoginResult::Logined => LoginLayout { show_login: !logined, show_app: logined, show_settings: true, hide_providers_tab: false },
        LoginResult::FreeLogin => LoginLayout { show_login: !logined, show_app: logined, show_settings: false, hide_providers_tab: true },
    }
}

/// A login succeeds only with the administrator account, and then settings
/// are unlocked.
pub proof fn law_login_only_admin(name: Seq<char>, password: Seq<char>)
    ensures
        login_spec(name, password) is Ok <==> (name == ADMIN_USER@ && password == ADMIN_PASSWORD@),
{
    reveal_strlit("admin");
    reveal_strlit("123456");
}

} // verus!
