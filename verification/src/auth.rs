//! Authentication models, the configurable API paths, and the decisions of
//! the login, token refresh and logout flows.
use vstd::prelude::*;

use crate::components::MessageModel;
use crate::http::{ApiError, HttpMethod};
use crate::reactive::{Navigation, navigate};

verus! {

/// Storage key of the `Auth` record.
pub const STORAGE_AUTH_KEY: &'static str = "auth";

/// Storage key of the `UserAccount` record.
pub const STORAGE_USER_KEY: &'static str = "user_account";

// ---------------------------------------------------------------------------
// AuthPaths
// ---------------------------------------------------------------------------

/// API endpoints and redirect destinations of the authentication flows.
#[derive(Clone, Copy)]
pub struct AuthPaths {
    pub login: &'static str,
    pub refresh: &'static str,
    pub accounts: &'static str,
    pub update_name: &'static str,
    pub change_password: &'static str,
    pub invitations: &'static str,
    pub login_page: &'static str,
    pub after_login: &'static str,
    pub after_register: &'static str,
}

impl Default for AuthPaths {
    fn default() -> (r: Self)
        ensures
            r.login@ == "login"@,
            r.refresh@ == "refresh"@,
            r.accounts@ == "accounts"@,
            r.update_name@ == "accounts/update_name"@,
            r.change_password@ == "accounts/change_passwd"@,
            r.invitations@ == "accounts/invitations"@,
            r.login_page@ == "/login"@,
            r.after_login@ == "/lists"@,
            r.after_register@ == "/"@,
    {
        AuthPaths {
            login: "login",
            refresh: "refresh",
            accounts: "accounts",
            update_name: "accounts/update_name",
            change_password: "accounts/change_passwd",
            invitations: "accounts/invitations",
            login_page: "/login",
            after_login: "/lists",
            after_register: "/",
        }
    }
}

/// The default paths: those `AuthPaths::default` gives.
pub open spec fn is_default_auth_paths(p: AuthPaths) -> bool {
    &&& p.login@ == "login"@
    &&& p.refresh@ == "refresh"@
    &&& p.accounts@ == "accounts"@
    &&& p.update_name@ == "accounts/update_name"@
    &&& p.change_password@ == "accounts/change_passwd"@
    &&& p.invitations@ == "accounts/invitations"@
    &&& p.login_page@ == "/login"@
    &&& p.after_login@ == "/lists"@
    &&& p.after_register@ == "/"@
}

/// The paths the application configured. The first configuration stays; when
/// the paths are read before any configuration, the defaults are fixed then.
pub struct AuthPathsCell {
    paths: Option<AuthPaths>,
}

impl View for AuthPathsCell {
    type V = Option<AuthPaths>;

    closed spec fn view(&self) -> Option<AuthPaths> {
        self.paths
    }
}

/// The configured paths after configuring `paths`: unchanged when they were
/// configured (or read) before.
pub open spec fn auth_paths_after_set(current: Option<AuthPaths>, paths: AuthPaths) -> Option<
    AuthPaths,
> {
    match current {
        Some(p) => Some(p),
        None => Some(paths),
    }
}

impl AuthPathsCell {
    /// Nothing configured yet.
    pub fn new() -> (r: Self)
        ensures
            r@ is None,
    {
        AuthPathsCell { paths: None }
    }

    /// Configures the paths unless they were configured or read before;
    /// `true` when this configuration was stored.
    pub fn set_paths(&mut self, paths: AuthPaths) -> (stored: bool)
        ensures
            stored == (old(self)@ is None),
            final(self)@ == auth_paths_after_set(old(self)@, paths),
    {
        if self.paths.is_none() {
            self.paths = Some(paths);
            true
        } else {
            false
        }
    }

    /// The configured paths; the defaults when none were configured, which
    /// then stay.
    pub fn paths(&mut self) -> (r: AuthPaths)
        ensures
            match old(self)@ {
                Some(p) => r == p && final(self)@ == old(self)@,
                None => is_default_auth_paths(r) && final(self)@ == Some(r),
            },
    {
        match self.paths {
            Some(p) => p,
            None => {
                let p = AuthPaths::default();
                self.paths = Some(p);
                p
            },
        }
    }
}

/// The first configuration of the paths wins: configuring again changes
/// nothing, and configuring an unconfigured cell stores the paths given.
pub proof fn law_auth_paths_first_wins(current: Option<AuthPaths>, first: AuthPaths, second: AuthPaths)
    ensures
        auth_paths_after_set(auth_paths_after_set(current, first), second) == auth_paths_after_set(
            current,
            first,
        ),
        auth_paths_after_set(None, first) == Some(first),
{
}

// ---------------------------------------------------------------------------
// Models
// ---------------------------------------------------------------------------

/// The stored authentication: the JWT, or `None` when logged out.
#[derive(Clone, Debug)]
pub struct Auth {
    pub token: Option<String>,
}

impl Default for Auth {
    fn default() -> (r: Self)
        ensures
            r.token is None,
    {
        Auth { token: None }
    }
}

impl Auth {
    pub fn from(token: String) -> (r: Self)
        ensures
            r.token == Some(token),
    {
        Auth { token: Some(token) }
    }

    pub fn is_authenticated(&self) -> (r: bool)
        ensures
            r == self.token is Some,
    {
        self.token.is_some()
    }
}

/// The token of a stored `Auth`, if one is stored and holds a token.
pub fn auth_token_of(stored: Option<Auth>) -> (r: Option<String>)
    ensures
        r == (match stored {
            Some(a) => a.token,
            None => None,
        }),
{
    match stored {
        Some(a) => a.token,
        None => None,
    }
}

pub struct LoginRequest {
    pub email: String,
    pub password: String,
}

pub struct LoginResponse {
    pub token: String,
    pub user_account: UserAccount,
}

pub struct RefreshResponse {
    pub token: String,
}

/// The logged-in user's account.
#[derive(Clone, Debug)]
pub struct UserAccount {
    pub id: String,
    pub display_name: String,
    pub email: String,
    pub auth_type: Option<String>,
    pub admin: bool,
}

impl Default for UserAccount {
    fn default() -> (r: Self)
        ensures
            r.id@.len() == 0,
            r.display_name@.len() == 0,
            r.email@.len() == 0,
            r.auth_type is None,
            !r.admin,
    {
        UserAccount {
            id: String::new(),
            display_name: String::new(),
            email: String::new(),
            auth_type: None,
            admin: false,
        }
    }
}



/// The form of a new account; its id is the email.
#[derive(Clone, Debug)]
pub struct UserAccountRequest {
    pub display_name: String,
    pub email: String,
    pub password: String,
}

impl UserAccountRequest {
    /// A form filled from an account, with an empty password.
    pub fn from_account(account: &UserAccount) -> (r: Self)
        ensures
            r.display_name == account.display_name,
            r.email == account.email,
            r.password@.len() == 0,
    {
        UserAccountRequest {
            display_name: account.display_name.clone(),
            email: account.email.clone(),
            password: String::new(),
        }
    }
}

impl Default for UserAccountRequest {
    fn default() -> (r: Self)
        ensures
            r.display_name@.len() == 0,
            r.email@.len() == 0,
            r.password@.len() == 0,
    {
        UserAccountRequest {
            display_name: String::new(),
            email: String::new(),
            password: String::new(),
        }
    }
}



pub struct UpdateNameRequest {
    pub display_name: String,
}

pub struct ChangePasswordRequest {
    pub current_password: String,
    pub new_password: String,
}

/// An invitation to join, as listed and edited by administrators.
#[derive(Clone, Debug)]
pub struct InvitationRequest {
    pub id: String,
    pub email: String,
    pub display_name: String,
    pub is_admin: bool,
}

impl InvitationRequest {
    /// A blank invitation.
    pub fn new() -> (r: Self)
        ensures
            r.id@.len() == 0,
            r.email@.len() == 0,
            r.display_name@.len() == 0,
            !r.is_admin,
    {
        InvitationRequest {
            id: String::new(),
            email: String::new(),
            display_name: String::new(),
            is_admin: false,
        }
    }
}



// ---------------------------------------------------------------------------
// Flows
// ---------------------------------------------------------------------------

/// A request of an authentication flow: method, bearer token and path.
pub struct AuthSubmission {
    pub method: HttpMethod,
    pub token: Option<String>,
    pub path: String,
}

/// The login request: a POST of the credentials to the login path, without a token.
pub fn login_submission(paths: &AuthPaths, email: &str, password: &str) -> (r: (
    LoginRequest,
    AuthSubmission,
))
    ensures
        r.0.email@ == email@,
        r.0.password@ == password@,
        r.1.method == HttpMethod::POST,
        r.1.token is None,
        r.1.path@ == paths.login@,
{
    (
        LoginRequest { email: email.to_owned(), password: password.to_owned() },
        AuthSubmission { method: HttpMethod::POST, token: None, path: paths.login.to_owned() },
    )
}

/// The token refresh request: a POST to the refresh path carrying the current token.
pub fn refresh_submission(paths: &AuthPaths, token: &str) -> (r: AuthSubmission)
    ensures
        r.method == HttpMethod::POST,
        r.token matches Some(t) && t@ == token@,
        r.path@ == paths.refresh@,
{
    AuthSubmission {
        method: HttpMethod::POST,
        token: Some(token.to_owned()),
        path: paths.refresh.to_owned(),
    }
}

/// What a login attempt leads to.
pub enum LoginOutcome {
    /// Store the auth and the account, then navigate.
    Success { auth: Auth, user_account: UserAccount, navigation: Navigation },
    /// Show the message and stop the spinner.
    Failure { message: String },
}

/// The message shown when a login fails.
pub open spec fn login_failed_message() -> Seq<char> {
    "Login failed. Please try again."@
}

/// A successful login stores the new token and the account and goes to the
/// after-login page, replacing the login page in history and scrolling to the
/// top; a failed one shows
/// `Login failed. Please try again.`.
pub fn login_outcome(result: Result<LoginResponse, ApiError>, paths: &AuthPaths) -> (r: LoginOutcome)
    ensures
        match result {
            Ok(resp) => r matches LoginOutcome::Success { auth, user_account, navigation } && auth.token
                == Some(resp.token) && user_account == resp.user_account && navigation.to@
                == paths.after_login@ && navigation.replace && navigation.scroll,
            Err(_) => r matches LoginOutcome::Failure { message } && message@ == login_failed_message(),
        },
{
    match result {
        Ok(resp) => LoginOutcome::Success {
            auth: Auth::from(resp.token),
            user_account: resp.user_account,
            navigation: navigate(paths.after_login),
        },
        Err(_) => LoginOutcome::Failure { message: "Login failed. Please try again.".to_owned() },
    }
}

/// The auth stored after a refresh: the new token on success, nothing to store on failure.
pub fn refreshed_auth(result: Result<RefreshResponse, ApiError>) -> (r: Option<Auth>)
    ensures
        match result {
            Ok(resp) => r matches Some(a) && a.token == Some(resp.token),
            Err(_) => r is None,
        },
{
    match result {
        Ok(resp) => Some(Auth::from(resp.token)),
        Err(_) => None,
    }
}

/// What logging out stores and where it goes: no token, an empty account, and
/// the login page, replacing the current history entry.
pub fn logout_state(paths: &AuthPaths) -> (r: (Auth, UserAccount, Navigation))
    ensures
        r.0.token is None,
        r.1.id@.len() == 0 && r.1.display_name@.len() == 0 && r.1.email@.len() == 0,
        r.1.auth_type is None && !r.1.admin,
        r.2.to@ == paths.login_page@,
        r.2.replace,
        r.2.scroll,
{
    (Auth::default(), UserAccount::default(), navigate(paths.login_page))
}

/// The display-name change: a PUT of the new name to the update-name path with the token.
pub fn name_update_submission(paths: &AuthPaths, token: &str, name: &str) -> (r: (
    UpdateNameRequest,
    AuthSubmission,
))
    ensures
        r.0.display_name@ == name@,
        r.1.method == HttpMethod::PUT,
        r.1.token matches Some(t) && t@ == token@,
        r.1.path@ == paths.update_name@,
{
    (
        UpdateNameRequest { display_name: name.to_owned() },
        AuthSubmission {
            method: HttpMethod::PUT,
            token: Some(token.to_owned()),
            path: paths.update_name.to_owned(),
        },
    )
}

/// What a display-name change leads to.
pub enum NameUpdateOutcome {
    /// Store the updated account and show the status.
    Saved { user_account: UserAccount, status: MessageModel },
    /// Show the status.
    Failed { status: MessageModel },
}

/// A saved name stores the returned account and shows the information
/// `Name updated.`; a failure shows the error's message as an error.
pub fn name_update_outcome(result: Result<UserAccount, ApiError>) -> (r: NameUpdateOutcome)
    ensures
        match result {
            Ok(account) => r matches NameUpdateOutcome::Saved { user_account, status }
                && user_account == account && status.message_type
                == crate::components::MessageType::Info && status.message@ == "Name updated."@,
            Err(e) => r matches NameUpdateOutcome::Failed { status } && status.message_type
                == crate::components::MessageType::Error && status.message == e.message,
        },
{
    match result {
        Ok(account) => NameUpdateOutcome::Saved {
            user_account: account,
            status: MessageModel::info("Name updated.".to_owned()),
        },
        Err(e) => NameUpdateOutcome::Failed { status: MessageModel::error(e.message) },
    }
}

/// The password change: a POST of the current and new passwords to the
/// change-password path with the token.
pub fn password_change_submission(paths: &AuthPaths, token: &str, current: &str, new: &str) -> (r: (
    ChangePasswordRequest,
    AuthSubmission,
))
    ensures
        r.0.current_password@ == current@,
        r.0.new_password@ == new@,
        r.1.method == HttpMethod::POST,
        r.1.token matches Some(t) && t@ == token@,
        r.1.path@ == paths.change_password@,
{
    (
        ChangePasswordRequest { current_password: current.to_owned(), new_password: new.to_owned() },
        AuthSubmission {
            method: HttpMethod::POST,
            token: Some(token.to_owned()),
            path: paths.change_password.to_owned(),
        },
    )
}

/// What a password change leads to.
pub enum PasswordChangeOutcome {
    /// Store the auth with the new token, clear the form and report success.
    Saved { auth: Auth },
    /// Show the status.
    Failed { status: MessageModel },
}

/// A changed password stores the new token; a failure shows the error's
/// message as an error.
pub fn password_change_outcome(result: Result<LoginResponse, ApiError>) -> (r: PasswordChangeOutcome)
    ensures
        match result {
            Ok(resp) => r matches PasswordChangeOutcome::Saved { auth } && auth.token == Some(
                resp.token,
            ),
            Err(e) => r matches PasswordChangeOutcome::Failed { status } && status.message_type
                == crate::components::MessageType::Error && status.message == e.message,
        },
{
    match result {
        Ok(resp) => PasswordChangeOutcome::Saved { auth: Auth::from(resp.token) },
        Err(e) => PasswordChangeOutcome::Failed { status: MessageModel::error(e.message) },
    }
}

/// The account creation: a POST of the new account to the accounts path, without a token.
pub fn account_creation_submission(paths: &AuthPaths) -> (r: AuthSubmission)
    ensures
        r.method == HttpMethod::POST,
        r.token is None,
        r.path@ == paths.accounts@,
{
    AuthSubmission { method: HttpMethod::POST, token: None, path: paths.accounts.to_owned() }
}

/// What an account creation leads to.
pub enum AccountCreationOutcome {
    /// Store the account and the auth, show the status, report success and navigate.
    Created { auth: Auth, user_account: UserAccount, status: MessageModel, navigation: Navigation },
    /// Show the status.
    Failed { status: MessageModel },
}

/// A created account stores the returned account and token, shows the
/// information `Account created successfully` and goes to the after-register
/// page, replacing the form in history and scrolling to the top; a failure
/// shows the error's message as an error.
pub fn account_creation_outcome(result: Result<LoginResponse, ApiError>, paths: &AuthPaths) -> (r:
    AccountCreationOutcome)
    ensures
        match result {
            Ok(resp) => r matches AccountCreationOutcome::Created {
                auth,
                user_account,
                status,
                navigation,
            } && auth.token == Some(resp.token) && user_account == resp.user_account
                && status.message_type == crate::components::MessageType::Info && status.message@
                == "Account created successfully"@ && navigation.to@ == paths.after_register@
                && navigation.replace && navigation.scroll,
            Err(e) => r matches AccountCreationOutcome::Failed { status } && status.message_type
                == crate::components::MessageType::Error && status.message == e.message,
        },
{
    match result {
        Ok(resp) => AccountCreationOutcome::Created {
            auth: Auth::from(resp.token),
            user_account: resp.user_account,
            status: MessageModel::info("Account created successfully".to_owned()),
            navigation: navigate(paths.after_register),
        },
        Err(e) => AccountCreationOutcome::Failed { status: MessageModel::error(e.message) },
    }
}

/// Where a page that needs a login goes: nowhere when the user is
/// authenticated, else to `login_path`, replacing the history entry and
/// scrolling to the top.
pub fn auth_guard(is_authenticated: bool, login_path: &str) -> (r: Option<Navigation>)
    ensures
        is_authenticated ==> r is None,
        !is_authenticated ==> (r matches Some(n) && n.to@ == login_path@ && n.replace && n.scroll),
{
    if is_authenticated {
        None
    } else {
        Some(navigate(login_path))
    }
}

/// Whether the stored account may add and delete invitations: only an
/// administrator, and nobody when no account is stored.
pub fn can_manage_invitations(stored: Option<UserAccount>) -> (r: bool)
    ensures
        r == (match stored {
            Some(u) => u.admin,
            None => false,
        }),
{
    match stored {
        Some(u) => u.admin,
        None => false,
    }
}

/// The message shown when an account form is submitted with a password that is
/// too weak or not confirmed; `None` when the form may be sent.
pub fn account_submit_check(password_valid: bool) -> (r: Option<MessageModel>)
    ensures
        password_valid ==> r is None,
        !password_valid ==> (r matches Some(m) && m.message_type
            == crate::components::MessageType::Error && m.message@
            == "Password too weak or passwords do not match."@),
{
    if password_valid {
        None
    } else {
        Some(MessageModel::error("Password too weak or passwords do not match.".to_owned()))
    }
}

} // verus!
