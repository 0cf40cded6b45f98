//! The decisions behind the generic UI components: message styling, password
//! strength inputs, list view states, and the autocomplete input's filtering
//! and keyboard navigation.
use vstd::prelude::*;
use vstd::string::StringExecFns;

use crate::http::{ApiError, api_error_text};
use crate::text::{chars_contains, chars_equal, chars_of, contains_seq, index_of_string,
    lowercase, str_equal, strings_view, to_lowercase};

verus! {

// ---------------------------------------------------------------------------
// MessageType / MessageModel
// ---------------------------------------------------------------------------

/// The kind of a status message.
#[derive(Clone, Copy, Debug)]
pub enum MessageType {
    Info,
    Warning,
    Error,
}

/// The icon class of a message kind.
pub open spec fn icon_class(t: MessageType) -> Seq<char> {
    match t {
        MessageType::Info => "circle-latin-small-letter-i"@,
        MessageType::Warning => "warning-sign"@,
        MessageType::Error => "heavy-multiplication-x"@,
    }
}

/// The style class of a message kind.
pub open spec fn style_class(t: MessageType) -> Seq<char> {
    match t {
        MessageType::Info => "info"@,
        MessageType::Warning => "warning"@,
        MessageType::Error => "error"@,
    }
}

impl MessageType {
    pub fn get_icon_class(&self) -> (r: &'static str)
        ensures
            r@ == icon_class(*self),
    {
        match self {
            MessageType::Info => "circle-latin-small-letter-i",
            MessageType::Warning => "warning-sign",
            MessageType::Error => "heavy-multiplication-x",
        }
    }

    pub fn get_style_class(&self) -> (r: &'static str)
        ensures
            r@ == style_class(*self),
    {
        match self {
            MessageType::Info => "info",
            MessageType::Warning => "warning",
            MessageType::Error => "error",
        }
    }
}

/// A status message and its kind; an empty message shows nothing.
#[derive(Clone, Debug)]
pub struct MessageModel {
    pub message: String,
    pub message_type: MessageType,
}

impl MessageModel {
    /// No message.
    pub fn empty() -> (r: Self)
        ensures
            r.message@.len() == 0,
            r.message_type == MessageType::Info,
    {
        MessageModel { message: String::new(), message_type: MessageType::Info }
    }

    pub fn info(message: String) -> (r: Self)
        ensures
            r.message == message,
            r.message_type == MessageType::Info,
    {
        MessageModel { message, message_type: MessageType::Info }
    }

    pub fn warn(message: String) -> (r: Self)
        ensures
            r.message == message,
            r.message_type == MessageType::Warning,
    {
        MessageModel { message, message_type: MessageType::Warning }
    }

    pub fn error(message: String) -> (r: Self)
        ensures
            r.message == message,
            r.message_type == MessageType::Error,
    {
        MessageModel { message, message_type: MessageType::Error }
    }

    /// The class list of the rendered message, or `None` when nothing is
    /// rendered (empty message): `message {style}-message {icon}`.
    pub fn class_name(&self) -> (r: Option<String>)
        ensures
            self.message@.len() == 0 ==> r is None,
            self.message@.len() != 0 ==> (r matches Some(c) && c@ == "message "@ + style_class(
                self.message_type,
            ) + "-message "@ + icon_class(self.message_type)),
    {
        if self.message.as_str().is_empty() {
            return None;
        }
        let mut c = "message ".to_owned();
        c.append(self.message_type.get_style_class());
        c.append("-message ");
        c.append(self.message_type.get_icon_class());
        Some(c)
    }
}

// ---------------------------------------------------------------------------
// Password strength
// ---------------------------------------------------------------------------

pub open spec fn is_ascii_lower(c: char) -> bool {
    'a' <= c <= 'z'
}

pub open spec fn is_ascii_upper(c: char) -> bool {
    'A' <= c <= 'Z'
}

pub open spec fn is_ascii_digit(c: char) -> bool {
    '0' <= c <= '9'
}

/// ASCII punctuation or ASCII whitespace (space, tab, line feed, form feed, carriage return).
pub open spec fn is_ascii_symbol(c: char) -> bool {
    ||| '!' <= c <= '/'
    ||| ':' <= c <= '@'
    ||| '[' <= c <= '`'
    ||| '{' <= c <= '~'
    ||| c == ' '
    ||| c == '\t'
    ||| c == '\n'
    ||| c == '\x0C'
    ||| c == '\r'
}

pub open spec fn is_non_ascii(c: char) -> bool {
    c > '\x7F'
}

/// Some character of `s` satisfies `p`.
pub open spec fn has_char(s: Seq<char>, p: spec_fn(char) -> bool) -> bool {
    exists|i: int| 0 <= i < s.len() && p(#[trigger] s[i])
}

/// The size of the alphabet a password draws from: 26 for lowercase letters,
/// 26 for uppercase, 10 for digits, 33 for ASCII symbols and whitespace, and
/// 64 for anything outside ASCII, counting each class the password uses.
pub open spec fn charset_size(s: Seq<char>) -> nat {
    (if has_char(s, |c: char| is_ascii_lower(c)) {
        26nat
    } else {
        0nat
    }) + (if has_char(s, |c: char| is_ascii_upper(c)) {
        26nat
    } else {
        0nat
    }) + (if has_char(s, |c: char| is_ascii_digit(c)) {
        10nat
    } else {
        0nat
    }) + (if has_char(s, |c: char| is_ascii_symbol(c)) {
        33nat
    } else {
        0nat
    }) + (if has_char(s, |c: char| is_non_ascii(c)) {
        64nat
    } else {
        0nat
    })
}

/// The alphabet size of a password (the entropy is its byte length times the
/// base-2 logarithm of this size; 0 bits when either is 0).
pub fn password_charset_size(password: &str) -> (r: u32)
    ensures
        r == charset_size(password@),
{
    let cs = chars_of(password);
    let mut lower = false;
    let mut upper = false;
    let mut digit = false;
    let mut symbol = false;
    let mut other = false;
    let mut i: usize = 0;
    while i < cs.len()
        invariant
            i <= cs@.len(),
            cs@ == password@,
            lower == has_char(cs@.take(i as int), |c: char| is_ascii_lower(c)),
            upper == has_char(cs@.take(i as int), |c: char| is_ascii_upper(c)),
            digit == has_char(cs@.take(i as int), |c: char| is_ascii_digit(c)),
            symbol == has_char(cs@.take(i as int), |c: char| is_ascii_symbol(c)),
            other == has_char(cs@.take(i as int), |c: char| is_non_ascii(c)),
        decreases cs.len() - i,
    {
        let c = cs[i];
        let ghost prev = cs@.take(i as int);
        let ghost next = cs@.take(i + 1);
        proof {
            assert(next =~= prev.push(c));
            assert forall|p: spec_fn(char) -> bool| has_char(next, p) == (has_char(prev, p) || p(c)) by {
                if has_char(next, p) {
                    let k = choose|k: int| 0 <= k < next.len() && p(#[trigger] next[k]);
                    if k < prev.len() {
                        assert(prev[k] == next[k]);
                    }
                }
                if has_char(prev, p) {
                    let k = choose|k: int| 0 <= k < prev.len() && p(#[trigger] prev[k]);
                    assert(next[k] == prev[k]);
                }
                if p(c) {
                    assert(next[i as int] == c);
                }
            }
        }
        if 'a' <= c && c <= 'z' {
            lower = true;
        }
        if 'A' <= c && c <= 'Z' {
            upper = true;
        }
        if '0' <= c && c <= '9' {
            digit = true;
        }
        if ('!' <= c && c <= '/') || (':' <= c && c <= '@') || ('[' <= c && c <= '`') || ('{' <= c
            && c <= '~') || c == ' ' || c == '\t' || c == '\n' || c == '\x0C' || c == '\r' {
            symbol = true;
        }
        if c > '\x7F' {
            other = true;
        }
        i = i + 1;
    }
    proof {
        assert(cs@.take(cs@.len() as int) =~= cs@);
    }
    let mut size: u32 = 0;
    if lower {
        size = size + 26;
    }
    if upper {
        size = size + 26;
    }
    if digit {
        size = size + 10;
    }
    if symbol {
        size = size + 33;
    }
    if other {
        size = size + 64;
    }
    size
}

/// The length of a password in bytes, the length the entropy uses.
pub fn password_byte_length(password: &str) -> (r: usize)
    ensures
        r == vstd::utf8::encode_utf8(password@).len() as usize,
{
    password.len()
}

/// ASCII punctuation as `char::is_ascii_punctuation` defines it: a printable
/// ASCII character that is neither a letter nor a digit.
pub open spec fn is_ascii_punctuation_char(c: char) -> bool {
    &&& '!' <= c <= '~'
    &&& !('a' <= c <= 'z')
    &&& !('A' <= c <= 'Z')
    &&& !('0' <= c <= '9')
}

/// ASCII whitespace as `char::is_ascii_whitespace` defines it: space, tab,
/// line feed, form feed and carriage return.
pub open spec fn is_ascii_whitespace_char(c: char) -> bool {
    c == ' ' || c == '\t' || c == '\n' || c == '\x0C' || c == '\r'
}

/// Every ASCII punctuation or whitespace character (`_`, `[`, `` ` ``, `~`,
/// space, ... included) counts for the 33-symbol class: alone it makes an
/// alphabet of 33, and added to a password with no such character it adds 33.
pub proof fn law_punctuation_and_whitespace_add_symbols(s: Seq<char>, c: char)
    requires
        is_ascii_punctuation_char(c) || is_ascii_whitespace_char(c),
        forall|i: int|
            0 <= i < s.len() ==> !is_ascii_punctuation_char(#[trigger] s[i])
                && !is_ascii_whitespace_char(s[i]),
    ensures
        charset_size(seq![c]) == 33,
        charset_size(s.push(c)) == charset_size(s) + 33,
{
    let t = s.push(c);
    let one = seq![c];
    assert(one[0] == c);
    assert(t[s.len() as int] == c);
    assert(is_ascii_symbol(c));
    assert(has_char(one, |x: char| is_ascii_symbol(x)));
    assert(has_char(t, |x: char| is_ascii_symbol(x)));
    assert(!has_char(s, |x: char| is_ascii_symbol(x))) by {
        assert forall|i: int| 0 <= i < s.len() implies !is_ascii_symbol(#[trigger] s[i]) by {
            assert(!is_ascii_punctuation_char(s[i]) && !is_ascii_whitespace_char(s[i]));
        }
    }
    assert(!has_char(one, |x: char| is_ascii_lower(x)));
    assert(!has_char(one, |x: char| is_ascii_upper(x)));
    assert(!has_char(one, |x: char| is_ascii_digit(x)));
    assert(!has_char(one, |x: char| is_non_ascii(x)));
    assert(has_char(t, |x: char| is_ascii_lower(x)) == has_char(s, |x: char| is_ascii_lower(x)))
        by {
        if has_char(t, |x: char| is_ascii_lower(x)) {
            let w = choose|w: int| 0 <= w < t.len() && is_ascii_lower(#[trigger] t[w]);
            assert(w < s.len());
            assert(s[w] == t[w]);
        }
        if has_char(s, |x: char| is_ascii_lower(x)) {
            let w = choose|w: int| 0 <= w < s.len() && is_ascii_lower(#[trigger] s[w]);
            assert(t[w] == s[w]);
        }
    }
    assert(has_char(t, |x: char| is_ascii_upper(x)) == has_char(s, |x: char| is_ascii_upper(x)))
        by {
        if has_char(t, |x: char| is_ascii_upper(x)) {
            let w = choose|w: int| 0 <= w < t.len() && is_ascii_upper(#[trigger] t[w]);
            assert(w < s.len());
            assert(s[w] == t[w]);
        }
        if has_char(s, |x: char| is_ascii_upper(x)) {
            let w = choose|w: int| 0 <= w < s.len() && is_ascii_upper(#[trigger] s[w]);
            assert(t[w] == s[w]);
        }
    }
    assert(has_char(t, |x: char| is_ascii_digit(x)) == has_char(s, |x: char| is_ascii_digit(x)))
        by {
        if has_char(t, |x: char| is_ascii_digit(x)) {
            let w = choose|w: int| 0 <= w < t.len() && is_ascii_digit(#[trigger] t[w]);
            assert(w < s.len());
            assert(s[w] == t[w]);
        }
        if has_char(s, |x: char| is_ascii_digit(x)) {
            let w = choose|w: int| 0 <= w < s.len() && is_ascii_digit(#[trigger] s[w]);
            assert(t[w] == s[w]);
        }
    }
    assert(has_char(t, |x: char| is_non_ascii(x)) == has_char(s, |x: char| is_non_ascii(x))) by {
        if has_char(t, |x: char| is_non_ascii(x)) {
            let w = choose|w: int| 0 <= w < t.len() && is_non_ascii(#[trigger] t[w]);
            assert(w < s.len());
            assert(s[w] == t[w]);
        }
        if has_char(s, |x: char| is_non_ascii(x)) {
            let w = choose|w: int| 0 <= w < s.len() && is_non_ascii(#[trigger] s[w]);
            assert(t[w] == s[w]);
        }
    }
}

/// An empty password draws from no alphabet.
pub proof fn law_empty_password_has_no_charset()
    ensures
        charset_size(Seq::<char>::empty()) == 0,
{
}

/// A confirmation matches when it is non-empty and equal to the password.
pub fn passwords_match(password: &str, confirm: &str) -> (r: bool)
    ensures
        r == (confirm@.len() != 0 && password@ == confirm@),
{
    !confirm.is_empty() && str_equal(password, confirm)
}

// ---------------------------------------------------------------------------
// List view and guards
// ---------------------------------------------------------------------------

/// What a list view shows.
pub enum ListViewState {
    Loading,
    Error(String),
    Data,
}

/// A spinner while loading, else the error when there is one, else the data.
pub fn list_view_state(loading: bool, error: Option<String>) -> (r: ListViewState)
    ensures
        loading ==> r is Loading,
        !loading ==> match error {
            Some(e) => r == ListViewState::Error(e),
            None => r is Data,
        },
{
    if loading {
        ListViewState::Loading
    } else {
        match error {
            Some(e) => ListViewState::Error(e),
            None => ListViewState::Data,
        }
    }
}

/// Whether the side menu shows the user's name: always, unless an
/// authentication flag is given and false.
pub fn show_user_badge(is_authenticated: Option<bool>) -> (r: bool)
    ensures
        r == (match is_authenticated {
            Some(a) => a,
            None => true,
        }),
{
    match is_authenticated {
        Some(a) => a,
        None => true,
    }
}

// ---------------------------------------------------------------------------
// AutocompleteInputModel: the options an autocomplete input offers
// ---------------------------------------------------------------------------

/// The state behind an autocomplete input: its options, the last load error,
/// whether a load is running, and a counter that asks for a reload.
pub struct AutocompleteInputModel<T> {
    pub options: Vec<T>,
    pub error: Option<String>,
    pub loading: bool,
    pub refresh_trigger: u32,
}

impl<T> AutocompleteInputModel<T> {
    /// No options, not loading.
    pub fn new() -> (r: Self)
        ensures
            r.options@.len() == 0,
            r.error is None,
            !r.loading,
            r.refresh_trigger == 0,
    {
        AutocompleteInputModel { options: Vec::new(), error: None, loading: false, refresh_trigger: 0 }
    }

    /// Asks for a reload.
    pub fn refresh(&mut self)
        requires
            old(self).refresh_trigger < u32::MAX,
        ensures
            final(self).refresh_trigger == old(self).refresh_trigger + 1,
            final(self).options == old(self).options,
            final(self).error == old(self).error,
            final(self).loading == old(self).loading,
    {
        self.refresh_trigger = self.refresh_trigger + 1;
    }

    /// Starts a load when there is a token: marks the model loading and returns the token.
    pub fn begin_fetch(&mut self, auth: Option<String>) -> (r: Option<String>)
        ensures
            r == auth,
            final(self).loading == (auth is Some || old(self).loading),
            final(self).options == old(self).options,
            final(self).error == old(self).error,
            final(self).refresh_trigger == old(self).refresh_trigger,
    {
        if auth.is_some() {
            self.loading = true;
        }
        auth
    }

    /// Ends a load: fetched options replace the old ones and clear the error; a
    /// failure keeps the options and shows the error's text.
    pub fn finish_fetch(&mut self, result: Result<Vec<T>, ApiError>)
        ensures
            !final(self).loading,
            final(self).refresh_trigger == old(self).refresh_trigger,
            match result {
                Ok(rows) => final(self).options == rows && final(self).error is None,
                Err(e) => final(self).options == old(self).options && (final(self).error matches Some(
                    m,
                ) && m@ == api_error_text(e.status, e.message@)),
            },
    {
        match result {
            Ok(rows) => {
                self.options = rows;
                self.error = None;
            },
            Err(e) => {
                self.error = Some(e.to_string());
            },
        }
        self.loading = false;
    }
}

// ---------------------------------------------------------------------------
// Delete button
// ---------------------------------------------------------------------------

/// A click on a row's delete button: it submits only when no delete of that
/// row is under way, and the row is deleting afterwards either way.
pub fn delete_click(deleting: &mut bool) -> (submit: bool)
    ensures
        submit == !*old(deleting),
        *final(deleting),
{
    let submit = !*deleting;
    *deleting = true;
    submit
}

// ---------------------------------------------------------------------------
// Autocomplete filtering
// ---------------------------------------------------------------------------

/// The indices, in order, of the labels among the first `n` whose lowercase
/// form contains `text`.
pub open spec fn matching_labels(labels: Seq<Seq<char>>, text: Seq<char>, n: int) -> Seq<usize>
    decreases n,
{
    if n <= 0 {
        Seq::<usize>::empty()
    } else if contains_seq(lowercase(labels[n - 1]), text) {
        matching_labels(labels, text, n - 1).push((n - 1) as usize)
    } else {
        matching_labels(labels, text, n - 1)
    }
}

/// The options an input text offers: none for an empty text, else those whose
/// lowercase label contains the lowercase text.
pub open spec fn filtered_options(input: Seq<char>, labels: Seq<Seq<char>>) -> Seq<usize> {
    if lowercase(input).len() == 0 {
        Seq::<usize>::empty()
    } else {
        matching_labels(labels, lowercase(input), labels.len() as int)
    }
}

/// Among the first `n` labels, exactly those whose lowercase form contains
/// `text` are listed, each once and in label order.
pub proof fn law_matching_labels_members(labels: Seq<Seq<char>>, text: Seq<char>, n: int)
    requires
        0 <= n <= labels.len(),
        labels.len() <= usize::MAX,
    ensures
        forall|k: int|
            0 <= k < n ==> (#[trigger] matching_labels(labels, text, n).contains(k as usize)
                <==> contains_seq(lowercase(labels[k]), text)),
        forall|x: usize| #[trigger] matching_labels(labels, text, n).contains(x) ==> x < n,
        forall|p: int, q: int|
            0 <= p < q < matching_labels(labels, text, n).len() ==> #[trigger] matching_labels(
                labels,
                text,
                n,
            )[p] < #[trigger] matching_labels(labels, text, n)[q],
    decreases n,
{
    if n > 0 {
        law_matching_labels_members(labels, text, n - 1);
        let prev = matching_labels(labels, text, n - 1);
        let cur = matching_labels(labels, text, n);
        let last = (n - 1) as usize;
        if contains_seq(lowercase(labels[n - 1]), text) {
            assert(cur == prev.push(last));
            assert(cur[cur.len() - 1] == last);
            assert forall|k: int| 0 <= k < n implies (#[trigger] cur.contains(k as usize)
                <==> contains_seq(lowercase(labels[k]), text)) by {
                if k < n - 1 {
                    if cur.contains(k as usize) {
                        let w = choose|w: int| 0 <= w < cur.len() && cur[w] == k as usize;
                        if w < prev.len() {
                            assert(prev[w] == k as usize);
                        }
                    }
                    if prev.contains(k as usize) {
                        let w = choose|w: int| 0 <= w < prev.len() && prev[w] == k as usize;
                        assert(cur[w] == k as usize);
                    }
                }
            }
            assert forall|x: usize| #[trigger] cur.contains(x) implies x < n by {
                let w = choose|w: int| 0 <= w < cur.len() && cur[w] == x;
                if w < prev.len() {
                    assert(prev.contains(x));
                }
            }
            assert forall|p: int, q: int| 0 <= p < q < cur.len() implies #[trigger] cur[p]
                < #[trigger] cur[q] by {
                if q < prev.len() {
                    assert(prev[p] < prev[q]);
                } else {
                    assert(prev.contains(prev[p]));
                }
            }
        } else {
            assert(cur == prev);
            assert forall|k: int| 0 <= k < n implies (#[trigger] cur.contains(k as usize)
                <==> contains_seq(lowercase(labels[k]), text)) by {
                if k == n - 1 && cur.contains(k as usize) {
                    assert(prev.contains((n - 1) as usize));
                }
            }
        }
    }
}

/// For a non-empty input, an option is offered exactly when its lowercase
/// label contains the lowercase input; every option is considered, the last
/// included, and the offered options keep their order.
pub proof fn law_filtered_options_members(input: Seq<char>, labels: Seq<Seq<char>>)
    requires
        lowercase(input).len() != 0,
        labels.len() <= usize::MAX,
    ensures
        forall|k: int|
            0 <= k < labels.len() ==> (#[trigger] filtered_options(input, labels).contains(
                k as usize,
            ) <==> contains_seq(lowercase(labels[k]), lowercase(input))),
        forall|x: usize| #[trigger] filtered_options(input, labels).contains(x) ==> x < labels.len(),
        forall|p: int, q: int|
            0 <= p < q < filtered_options(input, labels).len() ==> #[trigger] filtered_options(
                input,
                labels,
            )[p] < #[trigger] filtered_options(input, labels)[q],
{
    law_matching_labels_members(labels, lowercase(input), labels.len() as int);
}

/// Filters options by their labels; see `filtered_options`. An empty input
/// offers nothing.
pub fn filter_options(input: &str, labels: &Vec<String>) -> (r: Vec<usize>)
    ensures
        r@ == filtered_options(input@, strings_view(labels@)),
        input@.len() == 0 ==> r@.len() == 0,
{
    let ghost lv = strings_view(labels@);
    let text = to_lowercase(input);
    let mut r: Vec<usize> = Vec::new();
    if text.as_str().is_empty() {
        return r;
    }
    let needle = chars_of(text.as_str());
    let mut i: usize = 0;
    while i < labels.len()
        invariant
            i <= labels@.len(),
            lv == strings_view(labels@),
            needle@ == lowercase(input@),
            r@ == matching_labels(lv, lowercase(input@), i as int),
        decreases labels.len() - i,
    {
        let lower = to_lowercase(labels[i].as_str());
        let hay = chars_of(lower.as_str());
        if chars_contains(&hay, &needle) {
            r.push(i);
        }
        i = i + 1;
    }
    r
}

/// The option whose lowercase label equals the lowercase input, chosen when the
/// input loses focus: the first such option, if any.
pub fn blur_match(input: &str, labels: &Vec<String>) -> (r: Option<usize>)
    ensures
        match r {
            Some(i) => {
                &&& 0 <= i < labels@.len()
                &&& lowercase(labels@[i as int]@) == lowercase(input@)
                &&& forall|k: int| 0 <= k < i ==> lowercase(#[trigger] labels@[k]@) != lowercase(
                    input@,
                )
            },
            None => forall|k: int| 0 <= k < labels@.len() ==> lowercase(#[trigger] labels@[k]@)
                != lowercase(input@),
        },
{
    let text = to_lowercase(input);
    let target = chars_of(text.as_str());
    let mut i: usize = 0;
    while i < labels.len()
        invariant
            i <= labels@.len(),
            target@ == lowercase(input@),
            forall|k: int| 0 <= k < i ==> lowercase(#[trigger] labels@[k]@) != lowercase(input@),
        decreases labels.len() - i,
    {
        let lower = to_lowercase(labels[i].as_str());
        let cand = chars_of(lower.as_str());
        if chars_equal(&cand, &target) {
            return Some(i);
        }
        i = i + 1;
    }
    None
}

// ---------------------------------------------------------------------------
// Autocomplete keyboard navigation
// ---------------------------------------------------------------------------

/// Whether the dropdown is open and which option key is highlighted.
pub struct AutocompleteNav {
    pub show_dropdown: bool,
    pub selected_key: Option<String>,
}

impl AutocompleteNav {
    pub open spec fn selected_view(&self) -> Option<Seq<char>> {
        match self.selected_key {
            Some(k) => Some(k@),
            None => None,
        }
    }
}

/// What a key press asks of the page besides the new navigation state.
pub struct KeyResponse {
    /// Suppress the key's default action.
    pub prevent_default: bool,
    /// Select the option at this index of the offered options.
    pub select: Option<usize>,
}

/// The navigation after a key press, as (dropdown shown, highlighted key,
/// default prevented, option selected), given the keys of the offered options.
pub open spec fn nav_after_key(
    show: bool,
    selected: Option<Seq<char>>,
    key: Seq<char>,
    keys: Seq<Seq<char>>,
) -> (bool, Option<Seq<char>>, bool, Option<int>) {
    let cur = match selected {
        Some(k) => keys.index_of_first(k),
        None => None,
    };
    if key == "ArrowDown"@ {
        if keys.len() == 0 {
            (show, selected, true, None)
        } else {
            let next = match cur {
                None => 0,
                Some(i) => if i + 1 < keys.len() {
                    i + 1
                } else {
                    keys.len() - 1
                },
            };
            (true, Some(keys[next]), true, None)
        }
    } else if key == "ArrowUp"@ {
        let sel = match cur {
            None => None,
            Some(i) => if i == 0 {
                None
            } else {
                Some(keys[i - 1])
            },
        };
        (show, sel, true, None)
    } else if key == "Enter"@ || key == " "@ {
        match cur {
            Some(i) => (false, None, true, Some(i)),
            None => (show, selected, false, None),
        }
    } else if key == "Escape"@ {
        (false, None, false, None)
    } else {
        (show, selected, false, None)
    }
}

impl AutocompleteNav {
    /// Closed dropdown, nothing highlighted.
    pub fn new() -> (r: Self)
        ensures
            !r.show_dropdown,
            r.selected_key is None,
    {
        AutocompleteNav { show_dropdown: false, selected_key: None }
    }

    /// Typing opens the dropdown for a non-empty text and clears the highlight.
    pub fn on_input(&mut self, text: &str)
        ensures
            final(self).show_dropdown == (text@.len() != 0),
            final(self).selected_key is None,
    {
        self.show_dropdown = !text.is_empty();
        self.selected_key = None;
    }

    /// Leaving the input or picking an option closes the dropdown and clears the highlight.
    pub fn close(&mut self)
        ensures
            !final(self).show_dropdown,
            final(self).selected_key is None,
    {
        self.show_dropdown = false;
        self.selected_key = None;
    }

    /// Handles a key press over the offered options' keys: the arrows move the
    /// highlight (Down stops at the last option, Up before the first clears it),
    /// Enter or space selects the highlighted option, Escape closes.
    pub fn handle_key(&mut self, key: &str, keys: &Vec<String>) -> (r: KeyResponse)
        ensures
            ({
                let out = nav_after_key(
                    old(self).show_dropdown,
                    old(self).selected_view(),
                    key@,
                    strings_view(keys@),
                );
                &&& final(self).show_dropdown == out.0
                &&& final(self).selected_view() == out.1
                &&& r.prevent_default == out.2
                &&& (match r.select {
                    Some(i) => Some(i as int),
                    None => None,
                }) == out.3
            }),
    {
        let ghost kv = strings_view(keys@);
        let cur = match &self.selected_key {
            Some(k) => index_of_string(keys, k.as_str()),
            None => None,
        };
        proof {
            if self.selected_view() is Some {
                kv.index_of_first_ensures(self.selected_view()->0);
            }
        }
        if str_equal(key, "ArrowDown") {
            if keys.len() > 0 {
                let next = match cur {
                    None => 0,
                    Some(i) => if i + 1 < keys.len() {
                        i + 1
                    } else {
                        keys.len() - 1
                    },
                };
                self.show_dropdown = true;
                self.selected_key = Some(keys[next].clone());
            }
            KeyResponse { prevent_default: true, select: None }
        } else if str_equal(key, "ArrowUp") {
            self.selected_key = match cur {
                None => None,
                Some(i) => if i == 0 {
                    None
                } else {
                    Some(keys[i - 1].clone())
                },
            };
            KeyResponse { prevent_default: true, select: None }
        } else if str_equal(key, "Enter") || str_equal(key, " ") {
            match cur {
                Some(i) => {
                    self.show_dropdown = false;
                    self.selected_key = None;
                    KeyResponse { prevent_default: true, select: Some(i) }
                },
                None => KeyResponse { prevent_default: false, select: None },
            }
        } else if str_equal(key, "Escape") {
            self.show_dropdown = false;
            self.selected_key = None;
            KeyResponse { prevent_default: false, select: None }
        } else {
            KeyResponse { prevent_default: false, select: None }
        }
    }
}

/// With distinct option keys, ArrowUp undoes an ArrowDown that moved the
/// highlight: from no highlight back to none, and from option `i` (not the
/// last) back to option `i`.
pub proof fn law_arrow_up_undoes_arrow_down(
    show: bool,
    selected: Option<Seq<char>>,
    keys: Seq<Seq<char>>,
)
    requires
        keys.no_duplicates(),
        keys.len() > 0,
        match selected {
            None => true,
            Some(k) => exists|i: int| 0 <= i < keys.len() - 1 && keys[i] == k,
        },
    ensures
        ({
            let down = nav_after_key(show, selected, "ArrowDown"@, keys);
            let up = nav_after_key(down.0, down.1, "ArrowUp"@, keys);
            up.1 == selected
        }),
{
    reveal_strlit("ArrowDown");
    reveal_strlit("ArrowUp");
    assert("ArrowDown"@ != "ArrowUp"@) by {
        assert("ArrowDown"@[5] != "ArrowUp"@[5]);
    }
    let down = nav_after_key(show, selected, "ArrowDown"@, keys);
    match selected {
        None => {
            assert(down.1 == Some(keys[0]));
            keys.index_of_first_ensures(keys[0]);
            let f = keys.index_of_first(keys[0]).unwrap();
            assert(f == 0);
        },
        Some(k) => {
            let i = choose|i: int| 0 <= i < keys.len() - 1 && keys[i] == k;
            keys.index_of_first_ensures(k);
            let f = keys.index_of_first(k).unwrap();
            assert(f == i) by {
                if f != i {
                    assert(keys[f] == keys[i]);
                }
            }
            assert(down.1 == Some(keys[i + 1]));
            keys.index_of_first_ensures(keys[i + 1]);
            let g = keys.index_of_first(keys[i + 1]).unwrap();
            assert(g == i + 1) by {
                if g != i + 1 {
                    assert(keys[g] == keys[i + 1]);
                }
            }
        },
    }
}

/// Escape always closes the dropdown and clears the highlight.
pub proof fn law_escape_closes(show: bool, selected: Option<Seq<char>>, keys: Seq<Seq<char>>)
    ensures
        ({
            let out = nav_after_key(show, selected, "Escape"@, keys);
            !out.0 && out.1 is None && out.3 is None
        }),
{
    reveal_strlit("Escape");
    reveal_strlit("ArrowDown");
    reveal_strlit("ArrowUp");
    reveal_strlit("Enter");
    reveal_strlit(" ");
    assert("Escape"@ != "ArrowDown"@) by {
        assert("Escape"@.len() != "ArrowDown"@.len());
    }
    assert("Escape"@ != "ArrowUp"@) by {
        assert("Escape"@[0] != "ArrowUp"@[0]);
    }
    assert("Escape"@ != "Enter"@) by {
        assert("Escape"@.len() != "Enter"@.len());
    }
    assert("Escape"@ != " "@) by {
        assert("Escape"@.len() != " "@.len());
    }
}

/// Space acts exactly like Enter, in every state and over any options.
pub proof fn law_space_acts_like_enter(show: bool, selected: Option<Seq<char>>, keys: Seq<Seq<char>>)
    ensures
        nav_after_key(show, selected, " "@, keys) == nav_after_key(show, selected, "Enter"@, keys),
{
    reveal_strlit("ArrowDown");
    reveal_strlit("ArrowUp");
    reveal_strlit("Enter");
    reveal_strlit(" ");
    assert(" "@ != "ArrowDown"@) by {
        assert(" "@.len() != "ArrowDown"@.len());
    }
    assert(" "@ != "ArrowUp"@) by {
        assert(" "@.len() != "ArrowUp"@.len());
    }
    assert("Enter"@ != "ArrowDown"@) by {
        assert("Enter"@.len() != "ArrowDown"@.len());
    }
    assert("Enter"@ != "ArrowUp"@) by {
        assert("Enter"@.len() != "ArrowUp"@.len());
    }
}

/// Enter (or space) with a highlighted option selects that option's index,
/// prevents the key's default action, closes the dropdown and clears the
/// highlight; with nothing highlighted it changes nothing and lets the key
/// through.
pub proof fn law_enter_selects_highlight(show: bool, keys: Seq<Seq<char>>, i: int)
    requires
        0 <= i < keys.len(),
        forall|j: int| 0 <= j < i ==> keys[j] != keys[i],
    ensures
        nav_after_key(show, Some(keys[i]), "Enter"@, keys) == (
            false,
            None::<Seq<char>>,
            true,
            Some(i),
        ),
        nav_after_key(show, Some(keys[i]), " "@, keys) == (false, None::<Seq<char>>, true, Some(i)),
        nav_after_key(show, None, "Enter"@, keys) == (show, None::<Seq<char>>, false, None::<int>),
{
    law_space_acts_like_enter(show, Some(keys[i]), keys);
    reveal_strlit("ArrowDown");
    reveal_strlit("ArrowUp");
    reveal_strlit("Enter");
    assert("Enter"@ != "ArrowDown"@) by {
        assert("Enter"@.len() != "ArrowDown"@.len());
    }
    assert("Enter"@ != "ArrowUp"@) by {
        assert("Enter"@.len() != "ArrowUp"@.len());
    }
    keys.index_of_first_ensures(keys[i]);
    assert(keys.contains(keys[i]));
    let f = keys.index_of_first(keys[i]);
    assert(f == Some(i)) by {
        let w = f->0;
        if w < i {
            assert(keys[w] == keys[i]);
        } else if w > i {
            assert(keys[i] == keys[i]);
        }
    }
}

} // verus!
