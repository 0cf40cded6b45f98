use webapp_lib::auth::{
    account_submit_check, auth_token_of, login_outcome, login_submission, logout_state,
    refresh_submission, refreshed_auth, Auth, AuthPaths, InvitationRequest, LoginOutcome,
    LoginResponse, RefreshResponse, UserAccount, UserAccountRequest, STORAGE_AUTH_KEY,
    STORAGE_USER_KEY,
};
use webapp_lib::components::{
    blur_match, filter_options, list_view_state, password_byte_length, password_charset_size,
    passwords_match, show_user_badge, AutocompleteInputModel, AutocompleteNav, ListViewState,
    MessageModel, MessageType,
};
use webapp_lib::http::{ApiError, HttpMethod};
use webapp_lib::theme::{init, init_with, styles_to_inject, BundledCss, StyleSheet, ThemeVars};

fn s(x: &str) -> String {
    x.to_string()
}

fn strings(xs: &[&str]) -> Vec<String> {
    xs.iter().map(|x| x.to_string()).collect()
}

// --- messages ---------------------------------------------------------------

#[test]
fn message_type_classes() {
    assert_eq!(MessageType::Info.get_icon_class(), "circle-latin-small-letter-i");
    assert_eq!(MessageType::Warning.get_icon_class(), "warning-sign");
    assert_eq!(MessageType::Error.get_icon_class(), "heavy-multiplication-x");
    assert_eq!(MessageType::Info.get_style_class(), "info");
    assert_eq!(MessageType::Warning.get_style_class(), "warning");
    assert_eq!(MessageType::Error.get_style_class(), "error");
}

#[test]
fn message_models() {
    assert!(MessageModel::empty().message.is_empty());
    assert!(MessageModel::empty().class_name().is_none());
    let e = MessageModel::error(s("Something went wrong"));
    assert_eq!(e.class_name().unwrap(), "message error-message heavy-multiplication-x");
    let w = MessageModel::warn(s("Check your input"));
    assert!(matches!(w.message_type, MessageType::Warning));
    assert_eq!(w.class_name().unwrap(), "message warning-message warning-sign");
    let i = MessageModel::info(s("Saved"));
    assert_eq!(i.class_name().unwrap(), "message info-message circle-latin-small-letter-i");
}

// --- passwords --------------------------------------------------------------

#[test]
fn password_charset_sizes() {
    assert_eq!(password_charset_size(""), 0);
    assert_eq!(password_charset_size("abc"), 26);
    assert_eq!(password_charset_size("aB"), 52);
    assert_eq!(password_charset_size("MyP@ssw0rd!"), 95);
    assert_eq!(password_charset_size("a b"), 59);
    assert_eq!(password_charset_size("é"), 64);
    assert_eq!(password_charset_size("\u{1}"), 0);
    assert_eq!(password_charset_size("aA1!é"), 159);
}

#[test]
fn password_byte_lengths() {
    assert_eq!(password_byte_length("abc"), 3);
    assert_eq!(password_byte_length("é"), 2);
    assert_eq!(password_byte_length(""), 0);
}

#[test]
fn password_entropy_value() {
    let bits = password_byte_length("MyP@ssw0rd!") as f64 * (password_charset_size("MyP@ssw0rd!") as f64).log2();
    assert!((bits - 11.0 * 95f64.log2()).abs() < 1e-9);
}

#[test]
fn password_confirmation() {
    assert!(passwords_match("secret", "secret"));
    assert!(!passwords_match("secret", "Secret"));
    assert!(!passwords_match("", ""));
}

// --- views -------------------------------------------------------------------

#[test]
fn list_view_states() {
    assert!(matches!(list_view_state(true, Some(s("e"))), ListViewState::Loading));
    match list_view_state(false, Some(s("bad"))) {
        ListViewState::Error(e) => assert_eq!(e, "bad"),
        _ => panic!("expected the error"),
    }
    assert!(matches!(list_view_state(false, None), ListViewState::Data));
}

#[test]
fn user_badge_visibility() {
    assert!(show_user_badge(None));
    assert!(show_user_badge(Some(true)));
    assert!(!show_user_badge(Some(false)));
}

// --- autocomplete ------------------------------------------------------------

#[test]
fn autocomplete_filters_case_insensitively() {
    let labels = strings(&["Apple", "Banana", "pineapple", "Grape"]);
    assert_eq!(filter_options("APP", &labels), vec![0, 2]);
    assert_eq!(filter_options("an", &labels), vec![1]);
    assert!(filter_options("", &labels).is_empty());
    assert!(filter_options("kiwi", &labels).is_empty());
}

#[test]
fn autocomplete_blur_match() {
    let labels = strings(&["Apple", "Banana", "apple"]);
    assert_eq!(blur_match("APPLE", &labels), Some(0));
    assert_eq!(blur_match("app", &labels), None);
}

#[test]
fn autocomplete_keyboard_navigation() {
    let keys = strings(&["k1", "k2", "k3"]);
    let mut nav = AutocompleteNav::new();
    let r = nav.handle_key("ArrowDown", &keys);
    assert!(r.prevent_default && r.select.is_none());
    assert!(nav.show_dropdown);
    assert_eq!(nav.selected_key.as_deref(), Some("k1"));
    nav.handle_key("ArrowDown", &keys);
    nav.handle_key("ArrowDown", &keys);
    nav.handle_key("ArrowDown", &keys);
    assert_eq!(nav.selected_key.as_deref(), Some("k3"));
    nav.handle_key("ArrowUp", &keys);
    assert_eq!(nav.selected_key.as_deref(), Some("k2"));
    let r = nav.handle_key("Enter", &keys);
    assert!(r.prevent_default);
    assert_eq!(r.select, Some(1));
    assert!(!nav.show_dropdown);
    assert!(nav.selected_key.is_none());
}

#[test]
fn autocomplete_arrow_up_from_first_clears() {
    let keys = strings(&["a", "b"]);
    let mut nav = AutocompleteNav::new();
    nav.handle_key("ArrowDown", &keys);
    nav.handle_key("ArrowUp", &keys);
    assert!(nav.selected_key.is_none());
    let r = nav.handle_key(" ", &keys);
    assert!(!r.prevent_default && r.select.is_none());
}

#[test]
fn autocomplete_escape_and_other_keys() {
    let keys = strings(&["a"]);
    let mut nav = AutocompleteNav::new();
    nav.handle_key("ArrowDown", &keys);
    let r = nav.handle_key("x", &keys);
    assert!(!r.prevent_default);
    assert_eq!(nav.selected_key.as_deref(), Some("a"));
    nav.handle_key("Escape", &keys);
    assert!(!nav.show_dropdown && nav.selected_key.is_none());
    let r = nav.handle_key("ArrowDown", &Vec::new());
    assert!(r.prevent_default);
    assert!(nav.selected_key.is_none());
}

#[test]
fn autocomplete_highlight_missing_from_options() {
    let mut nav = AutocompleteNav { show_dropdown: true, selected_key: Some(s("gone")) };
    let keys = strings(&["a", "b"]);
    nav.handle_key("ArrowDown", &keys);
    assert_eq!(nav.selected_key.as_deref(), Some("a"));
    nav.on_input("");
    assert!(!nav.show_dropdown && nav.selected_key.is_none());
    nav.on_input("q");
    assert!(nav.show_dropdown);
    nav.close();
    assert!(!nav.show_dropdown);
}

#[test]
fn autocomplete_model_fetch_cycle() {
    let mut m: AutocompleteInputModel<u32> = AutocompleteInputModel::new();
    assert_eq!(m.begin_fetch(None), None);
    assert!(!m.loading);
    assert_eq!(m.begin_fetch(Some(s("t"))), Some(s("t")));
    assert!(m.loading);
    m.finish_fetch(Ok(vec![1, 2]));
    assert_eq!(m.options, vec![1, 2]);
    assert!(!m.loading && m.error.is_none());
    m.finish_fetch(Err(ApiError::new(s("nope"), 500)));
    assert_eq!(m.options, vec![1, 2]);
    assert_eq!(m.error.as_deref(), Some("[500] nope"));
    m.refresh();
    m.refresh();
    assert_eq!(m.refresh_trigger, 2);
}

// --- theme ---------------------------------------------------------------------

#[test]
fn default_theme_css() {
    let css = ThemeVars::default().to_css();
    assert_eq!(
        css,
        ":root {--text: #050315; --background: #fbfbfe; --primary: #2f27ce; --secondary: #dedcff; \
         --accent: #433bff; --white: #ffffff; --error-color: #e33030; --warning-color: #e3a330; }\
         .main {--background: #fbfbfe; --primary: #2f27ce; --secondary: #dedcff; --accent: #433bff; }"
    );
}

#[test]
fn custom_theme_css_uses_fields() {
    let vars = ThemeVars { primary: "#1a73e8", accent: "#0d47a1", ..ThemeVars::default() };
    let css = vars.to_css();
    assert!(css.contains("--primary: #1a73e8; "));
    assert!(css.ends_with("--accent: #0d47a1; }"));
}

fn bundled() -> BundledCss {
    BundledCss { base: s("body{}"), icons: s(".i{}"), loading: s(".l{}") }
}

#[test]
fn init_lists_style_sheets_in_order() {
    let sheets = init(&bundled());
    let ids: Vec<&str> = sheets.iter().map(|x| x.id.as_str()).collect();
    assert_eq!(ids, vec!["webapp-lib-vars", "webapp-lib-base", "webapp-lib-icons", "webapp-lib-loading"]);
    assert_eq!(sheets[0].css, ThemeVars::default().to_css());
    assert_eq!(sheets[1].css, "body{}");
    let custom = ThemeVars { text: "#000", ..ThemeVars::default() };
    assert_eq!(init_with(&custom, &bundled())[0].css, custom.to_css());
}

#[test]
fn style_injection_skips_present_ids_and_is_idempotent() {
    let existing = strings(&["webapp-lib-base"]);
    let added = styles_to_inject(&existing, init(&bundled()));
    let ids: Vec<String> = added.iter().map(|x| x.id.clone()).collect();
    assert_eq!(ids, strings(&["webapp-lib-vars", "webapp-lib-icons", "webapp-lib-loading"]));
    let mut now_present = existing.clone();
    now_present.extend(ids);
    assert!(styles_to_inject(&now_present, init(&bundled())).is_empty());
    let dup = vec![
        StyleSheet { id: s("x"), css: s("1") },
        StyleSheet { id: s("x"), css: s("2") },
    ];
    let added = styles_to_inject(&Vec::new(), dup);
    assert_eq!(added.len(), 1);
    assert_eq!(added[0].css, "1");
}

// --- auth ------------------------------------------------------------------------

#[test]
fn auth_paths_defaults() {
    let p = AuthPaths::default();
    assert_eq!(p.login, "login");
    assert_eq!(p.refresh, "refresh");
    assert_eq!(p.accounts, "accounts");
    assert_eq!(p.update_name, "accounts/update_name");
    assert_eq!(p.change_password, "accounts/change_passwd");
    assert_eq!(p.invitations, "accounts/invitations");
    assert_eq!(p.login_page, "/login");
    assert_eq!(p.after_login, "/lists");
    assert_eq!(p.after_register, "/");
    assert_eq!(STORAGE_AUTH_KEY, "auth");
    assert_eq!(STORAGE_USER_KEY, "user_account");
}

#[test]
fn auth_model() {
    assert!(!Auth::default().is_authenticated());
    let a = Auth::from(s("jwt"));
    assert!(a.is_authenticated());
    assert_eq!(auth_token_of(Some(a)), Some(s("jwt")));
    assert_eq!(auth_token_of(Some(Auth::default())), None);
    assert_eq!(auth_token_of(None), None);
}

fn account() -> UserAccount {
    UserAccount {
        id: s("u1"),
        display_name: s("Ana"),
        email: s("ana@example.com"),
        auth_type: Some(s("local")),
        admin: true,
    }
}

#[test]
fn account_request_from_account() {
    let req = UserAccountRequest::from_account(&account());
    assert_eq!(req.display_name, "Ana");
    assert_eq!(req.email, "ana@example.com");
    assert!(req.password.is_empty());
}

#[test]
fn invitation_defaults() {
    let inv = InvitationRequest::new();
    assert!(inv.id.is_empty() && inv.email.is_empty() && inv.display_name.is_empty() && !inv.is_admin);
}

#[test]
fn login_and_refresh_submissions() {
    let paths = AuthPaths::default();
    let (payload, sub) = login_submission(&paths, "a@b.c", "pw");
    assert_eq!((payload.email.as_str(), payload.password.as_str()), ("a@b.c", "pw"));
    assert!(matches!(sub.method, HttpMethod::POST));
    assert!(sub.token.is_none());
    assert_eq!(sub.path, "login");
    let r = refresh_submission(&paths, "old");
    assert_eq!(r.token.as_deref(), Some("old"));
    assert_eq!(r.path, "refresh");
}

#[test]
fn login_outcomes() {
    let paths = AuthPaths::default();
    let ok = login_outcome(Ok(LoginResponse { token: s("jwt"), user_account: account() }), &paths);
    match ok {
        LoginOutcome::Success { auth, user_account, navigation } => {
            assert_eq!(auth.token.as_deref(), Some("jwt"));
            assert_eq!(user_account.id, "u1");
            assert_eq!(navigation.to, "/lists");
            assert!(navigation.replace);
            assert!(navigation.scroll);
        }
        LoginOutcome::Failure { .. } => panic!("expected success"),
    }
    match login_outcome(Err(ApiError::new(s("bad"), 401)), &paths) {
        LoginOutcome::Failure { message } => assert_eq!(message, "Login failed. Please try again."),
        LoginOutcome::Success { .. } => panic!("expected failure"),
    }
}

#[test]
fn refresh_and_logout() {
    let a = refreshed_auth(Ok(RefreshResponse { token: s("new") })).unwrap();
    assert_eq!(a.token.as_deref(), Some("new"));
    assert!(refreshed_auth(Err(ApiError::new(s("x"), 500))).is_none());
    let (auth, user, nav) = logout_state(&AuthPaths::default());
    assert!(auth.token.is_none());
    assert!(user.id.is_empty() && !user.admin);
    assert_eq!(nav.to, "/login");
    assert!(nav.replace && nav.scroll);
}

#[test]
fn account_submit_requires_valid_password() {
    assert!(account_submit_check(true).is_none());
    let m = account_submit_check(false).unwrap();
    assert_eq!(m.message, "Password too weak or passwords do not match.");
    assert!(matches!(m.message_type, MessageType::Error));
}
