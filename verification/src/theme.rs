//! CSS theming: the custom properties block built from a palette, and which
//! style sheets to add to the document head.
use vstd::prelude::*;
use vstd::string::StringExecFns;

use crate::text::{contains_seq, occurs_at, str_equal};

verus! {

/// Values for every CSS custom property the library's styles use.
pub struct ThemeVars {
    pub text: &'static str,
    pub background: &'static str,
    pub primary: &'static str,
    pub secondary: &'static str,
    pub accent: &'static str,
    pub white: &'static str,
    pub error_color: &'static str,
    pub warning_color: &'static str,
}

impl Default for ThemeVars {
    fn default() -> (r: Self)
        ensures
            r.text@ == "#050315"@,
            r.background@ == "#fbfbfe"@,
            r.primary@ == "#2f27ce"@,
            r.secondary@ == "#dedcff"@,
            r.accent@ == "#433bff"@,
            r.white@ == "#ffffff"@,
            r.error_color@ == "#e33030"@,
            r.warning_color@ == "#e3a330"@,
    {
        ThemeVars {
            text: "#050315",
            background: "#fbfbfe",
            primary: "#2f27ce",
            secondary: "#dedcff",
            accent: "#433bff",
            white: "#ffffff",
            error_color: "#e33030",
            warning_color: "#e3a330",
        }
    }
}

/// The `:root { … }` and `.main { … }` blocks for a palette.
pub open spec fn theme_css(v: ThemeVars) -> Seq<char> {
    ":root {--text: "@ + v.text@ + "; --background: "@ + v.background@ + "; --primary: "@
        + v.primary@ + "; --secondary: "@ + v.secondary@ + "; --accent: "@ + v.accent@
        + "; --white: "@ + v.white@ + "; --error-color: "@ + v.error_color@
        + "; --warning-color: "@ + v.warning_color@ + "; }.main {--background: "@
        + v.background@ + "; --primary: "@ + v.primary@ + "; --secondary: "@ + v.secondary@
        + "; --accent: "@ + v.accent@ + "; }"@
}

/// The rendered block sets the text colour to the palette's, whatever the
/// palette: it contains `--text: {text};`.
#[verifier::spinoff_prover]
pub proof fn law_css_sets_text(v: ThemeVars)
    ensures
        contains_seq(theme_css(v), "--text: "@ + v.text@ + ";"@),
{
    reveal_strlit("--text: ");
    reveal_strlit(":root {--text: ");
    reveal_strlit(";");
    reveal_strlit("; --background: ");
    let n = "--text: "@ + v.text@ + ";"@;
    let i: int = 7int;
    assert(theme_css(v).subrange(i, i + n.len() as int) =~= n);
    assert(occurs_at(theme_css(v), n, i));
}

/// The rendered block sets the background colour to the palette's, whatever the
/// palette: it contains `--background: {background};`.
#[verifier::spinoff_prover]
pub proof fn law_css_sets_background(v: ThemeVars)
    ensures
        contains_seq(theme_css(v), "--background: "@ + v.background@ + ";"@),
{
    reveal_strlit("--background: ");
    reveal_strlit(":root {--text: ");
    reveal_strlit(";");
    reveal_strlit("; --background: ");
    reveal_strlit("; --primary: ");
    let n = "--background: "@ + v.background@ + ";"@;
    let i: int = (":root {--text: "@ + v.text@).len() as int + 2;
    assert(theme_css(v).subrange(i, i + n.len() as int) =~= n);
    assert(occurs_at(theme_css(v), n, i));
}

/// The rendered block sets the primary colour to the palette's, whatever the
/// palette: it contains `--primary: {primary};`.
#[verifier::spinoff_prover]
pub proof fn law_css_sets_primary(v: ThemeVars)
    ensures
        contains_seq(theme_css(v), "--primary: "@ + v.primary@ + ";"@),
{
    reveal_strlit("--primary: ");
    reveal_strlit(":root {--text: ");
    reveal_strlit(";");
    reveal_strlit("; --background: ");
    reveal_strlit("; --primary: ");
    reveal_strlit("; --secondary: ");
    let n = "--primary: "@ + v.primary@ + ";"@;
    let i: int = (":root {--text: "@ + v.text@ + "; --background: "@ + v.background@).len() as int + 2;
    assert(theme_css(v).subrange(i, i + n.len() as int) =~= n);
    assert(occurs_at(theme_css(v), n, i));
}

/// The rendered block sets the secondary colour to the palette's, whatever the
/// palette: it contains `--secondary: {secondary};`.
#[verifier::spinoff_prover]
pub proof fn law_css_sets_secondary(v: ThemeVars)
    ensures
        contains_seq(theme_css(v), "--secondary: "@ + v.secondary@ + ";"@),
{
    reveal_strlit("--secondary: ");
    reveal_strlit(":root {--text: ");
    reveal_strlit(";");
    reveal_strlit("; --accent: ");
    reveal_strlit("; --background: ");
    reveal_strlit("; --primary: ");
    reveal_strlit("; --secondary: ");
    let n = "--secondary: "@ + v.secondary@ + ";"@;
    let i: int = (":root {--text: "@ + v.text@ + "; --background: "@ + v.background@ + "; --primary: "@ + v.primary@).len() as int + 2;
    assert(theme_css(v).subrange(i, i + n.len() as int) =~= n);
    assert(occurs_at(theme_css(v), n, i));
}

/// The rendered block sets the accent colour to the palette's, whatever the
/// palette: it contains `--accent: {accent};`.
#[verifier::spinoff_prover]
pub proof fn law_css_sets_accent(v: ThemeVars)
    ensures
        contains_seq(theme_css(v), "--accent: "@ + v.accent@ + ";"@),
{
    reveal_strlit("--accent: ");
    reveal_strlit(":root {--text: ");
    reveal_strlit(";");
    reveal_strlit("; --accent: ");
    reveal_strlit("; --background: ");
    reveal_strlit("; --primary: ");
    reveal_strlit("; --secondary: ");
    reveal_strlit("; --white: ");
    let n = "--accent: "@ + v.accent@ + ";"@;
    let i: int = (":root {--text: "@ + v.text@ + "; --background: "@ + v.background@ + "; --primary: "@ + v.primary@ + "; --secondary: "@ + v.secondary@).len() as int + 2;
    assert(theme_css(v).subrange(i, i + n.len() as int) =~= n);
    assert(occurs_at(theme_css(v), n, i));
}

/// The rendered block sets the white to the palette's, whatever the
/// palette: it contains `--white: {white};`.
#[verifier::spinoff_prover]
pub proof fn law_css_sets_white(v: ThemeVars)
    ensures
        contains_seq(theme_css(v), "--white: "@ + v.white@ + ";"@),
{
    reveal_strlit("--white: ");
    reveal_strlit(":root {--text: ");
    reveal_strlit(";");
    reveal_strlit("; --accent: ");
    reveal_strlit("; --background: ");
    reveal_strlit("; --error-color: ");
    reveal_strlit("; --primary: ");
    reveal_strlit("; --secondary: ");
    reveal_strlit("; --white: ");
    let n = "--white: "@ + v.white@ + ";"@;
    let i: int = (":root {--text: "@ + v.text@ + "; --background: "@ + v.background@ + "; --primary: "@ + v.primary@ + "; --secondary: "@ + v.secondary@ + "; --accent: "@ + v.accent@).len() as int + 2;
    assert(theme_css(v).subrange(i, i + n.len() as int) =~= n);
    assert(occurs_at(theme_css(v), n, i));
}

/// The rendered block sets the error colour to the palette's, whatever the
/// palette: it contains `--error-color: {error_color};`.
#[verifier::spinoff_prover]
pub proof fn law_css_sets_error_color(v: ThemeVars)
    ensures
        contains_seq(theme_css(v), "--error-color: "@ + v.error_color@ + ";"@),
{
    reveal_strlit("--error-color: ");
    reveal_strlit(":root {--text: ");
    reveal_strlit(";");
    reveal_strlit("; --accent: ");
    reveal_strlit("; --background: ");
    reveal_strlit("; --error-color: ");
    reveal_strlit("; --primary: ");
    reveal_strlit("; --secondary: ");
    reveal_strlit("; --warning-color: ");
    reveal_strlit("; --white: ");
    let n = "--error-color: "@ + v.error_color@ + ";"@;
    let i: int = (":root {--text: "@ + v.text@ + "; --background: "@ + v.background@ + "; --primary: "@ + v.primary@ + "; --secondary: "@ + v.secondary@ + "; --accent: "@ + v.accent@ + "; --white: "@ + v.white@).len() as int + 2;
    assert(theme_css(v).subrange(i, i + n.len() as int) =~= n);
    assert(occurs_at(theme_css(v), n, i));
}

/// The rendered block sets the warning colour to the palette's, whatever the
/// palette: it contains `--warning-color: {warning_color};`.
#[verifier::spinoff_prover]
pub proof fn law_css_sets_warning_color(v: ThemeVars)
    ensures
        contains_seq(theme_css(v), "--warning-color: "@ + v.warning_color@ + ";"@),
{
    reveal_strlit("--warning-color: ");
    reveal_strlit(":root {--text: ");
    reveal_strlit(";");
    reveal_strlit("; --accent: ");
    reveal_strlit("; --background: ");
    reveal_strlit("; --error-color: ");
    reveal_strlit("; --primary: ");
    reveal_strlit("; --secondary: ");
    reveal_strlit("; --warning-color: ");
    reveal_strlit("; --white: ");
    reveal_strlit("; }.main {--background: ");
    let n = "--warning-color: "@ + v.warning_color@ + ";"@;
    let i: int = (":root {--text: "@ + v.text@ + "; --background: "@ + v.background@ + "; --primary: "@ + v.primary@ + "; --secondary: "@ + v.secondary@ + "; --accent: "@ + v.accent@ + "; --white: "@ + v.white@ + "; --error-color: "@ + v.error_color@).len() as int + 2;
    assert(theme_css(v).subrange(i, i + n.len() as int) =~= n);
    assert(occurs_at(theme_css(v), n, i));
}

impl ThemeVars {
    /// Renders the `:root { … }` block (and the `.main` overrides) from the field values.
    pub fn to_css(&self) -> (r: String)
        ensures
            r@ == theme_css(*self),
    {
        let mut s = ":root {--text: ".to_owned();
        s.append(self.text);
        s.append("; --background: ");
        s.append(self.background);
        s.append("; --primary: ");
        s.append(self.primary);
        s.append("; --secondary: ");
        s.append(self.secondary);
        s.append("; --accent: ");
        s.append(self.accent);
        s.append("; --white: ");
        s.append(self.white);
        s.append("; --error-color: ");
        s.append(self.error_color);
        s.append("; --warning-color: ");
        s.append(self.warning_color);
        s.append("; }.main {--background: ");
        s.append(self.background);
        s.append("; --primary: ");
        s.append(self.primary);
        s.append("; --secondary: ");
        s.append(self.secondary);
        s.append("; --accent: ");
        s.append(self.accent);
        s.append("; }");
        s
    }
}

/// A `<style>` element to add to the document head.
pub struct StyleSheet {
    pub id: String,
    pub css: String,
}

/// The style sheets bundled with the library, other than the palette.
pub struct BundledCss {
    pub base: String,
    pub icons: String,
    pub loading: String,
}

/// The ids of the library's style elements, in the order they are added.
pub open spec fn style_ids() -> Seq<Seq<char>> {
    seq!["webapp-lib-vars"@, "webapp-lib-base"@, "webapp-lib-icons"@, "webapp-lib-loading"@]
}

/// All library style sheets for a palette, in order: the custom properties,
/// then the base, icon and loading styles.
pub fn init_with(vars: &ThemeVars, bundled: &BundledCss) -> (r: Vec<StyleSheet>)
    ensures
        r@.len() == 4,
        forall|i: int| 0 <= i < 4 ==> (#[trigger] r@[i]).id@ == style_ids()[i],
        r@[0].css@ == theme_css(*vars),
        r@[1].css@ == bundled.base@,
        r@[2].css@ == bundled.icons@,
        r@[3].css@ == bundled.loading@,
{
    let mut r: Vec<StyleSheet> = Vec::new();
    r.push(StyleSheet { id: "webapp-lib-vars".to_owned(), css: vars.to_css() });
    r.push(StyleSheet { id: "webapp-lib-base".to_owned(), css: bundled.base.clone() });
    r.push(StyleSheet { id: "webapp-lib-icons".to_owned(), css: bundled.icons.clone() });
    r.push(StyleSheet { id: "webapp-lib-loading".to_owned(), css: bundled.loading.clone() });
    r
}

/// All library style sheets with the default palette.
pub fn init(bundled: &BundledCss) -> (r: Vec<StyleSheet>)
    ensures
        r@.len() == 4,
        forall|i: int| 0 <= i < 4 ==> (#[trigger] r@[i]).id@ == style_ids()[i],
        r@[0].css@ == theme_css(
            ThemeVars {
                text: "#050315",
                background: "#fbfbfe",
                primary: "#2f27ce",
                secondary: "#dedcff",
                accent: "#433bff",
                white: "#ffffff",
                error_color: "#e33030",
                warning_color: "#e3a330",
            },
        ),
        r@[1].css@ == bundled.base@,
        r@[2].css@ == bundled.icons@,
        r@[3].css@ == bundled.loading@,
{
    init_with(&ThemeVars::default(), bundled)
}

/// The sheets actually added when `sheets` are injected one by one into a head
/// already holding elements with ids `existing`: a sheet whose id is present
/// (from before, or added earlier in the run) is skipped.
pub open spec fn styles_added(existing: Set<Seq<char>>, sheets: Seq<StyleSheet>) -> Seq<StyleSheet>
    decreases sheets.len(),
{
    if sheets.len() == 0 {
        Seq::<StyleSheet>::empty()
    } else if existing.contains(sheets[0].id@) {
        styles_added(existing, sheets.drop_first())
    } else {
        seq![sheets[0]] + styles_added(existing.insert(sheets[0].id@), sheets.drop_first())
    }
}

fn contains_id(ids: &Vec<String>, id: &str) -> (r: bool)
    ensures
        r == id_set(ids@).contains(id@),
{
    let ghost m = ids@.map_values(|s: String| s@);
    let mut i: usize = 0;
    while i < ids.len()
        invariant
            i <= ids@.len(),
            m == ids@.map_values(|s: String| s@),
            forall|k: int| 0 <= k < i ==> ids@[k]@ != id@,
        decreases ids.len() - i,
    {
        if str_equal(ids[i].as_str(), id) {
            proof {
                assert(m[i as int] == id@);
                assert(m.contains(id@));
            }
            return true;
        }
        i = i + 1;
    }
    proof {
        if m.contains(id@) {
            let k = choose|k: int| 0 <= k < m.len() && #[trigger] m[k] == id@;
            assert(ids@[k]@ != id@);
        }
    }
    false
}

/// The ids of a list of strings, as a set.
pub open spec fn id_set(ids: Seq<String>) -> Set<Seq<char>> {
    ids.map_values(|s: String| s@).to_set()
}

proof fn lemma_id_set_push(ids: Seq<String>, id: String)
    ensures
        id_set(ids.push(id)) == id_set(ids).insert(id@),
{
    assert(ids.push(id).map_values(|s: String| s@) =~= ids.map_values(|s: String| s@).push(id@));
    ids.map_values(|s: String| s@).lemma_push_to_set_commute(id@);
}

/// Which of `sheets` to add to a head that holds elements with ids `existing`;
/// see `styles_added`.
pub fn styles_to_inject(existing: &Vec<String>, sheets: Vec<StyleSheet>) -> (r: Vec<StyleSheet>)
    ensures
        r@ == styles_added(id_set(existing@), sheets@),
{
    let ghost input = sheets@;
    let ghost start = id_set(existing@);
    let mut added: Vec<String> = Vec::new();
    let mut out: Vec<StyleSheet> = Vec::new();
    let mut rest = sheets;
    proof {
        assert(id_set(added@) =~= Set::<Seq<char>>::empty());
        assert(start.union(id_set(added@)) =~= start);
        assert(out@ + input =~= input);
    }
    while rest.len() > 0
        invariant
            styles_added(start, input) == out@ + styles_added(start.union(id_set(added@)), rest@),
            start == id_set(existing@),
        decreases rest.len(),
    {
        let ghost before = rest@;
        let ghost seen = start.union(id_set(added@));
        let sheet = rest.remove(0);
        proof {
            assert(before.drop_first() =~= rest@);
            assert(before[0] == sheet);
        }
        let known = contains_id(existing, sheet.id.as_str()) || contains_id(&added, sheet.id.as_str());
        if known {
            proof {
                assert(seen.contains(sheet.id@));
            }
        } else {
            let ghost old_out = out@;
            let ghost old_added = added@;
            let id = sheet.id.clone();
            added.push(id);
            out.push(sheet);
            proof {
                assert(!seen.contains(sheet.id@));
                lemma_id_set_push(old_added, id);
                assert(start.union(id_set(added@)) =~= seen.insert(sheet.id@));
                assert(styles_added(seen, before) == seq![sheet] + styles_added(
                    seen.insert(sheet.id@),
                    rest@,
                ));
                assert(old_out + (seq![sheet] + styles_added(seen.insert(sheet.id@), rest@))
                    =~= out@ + styles_added(seen.insert(sheet.id@), rest@));
            }
        }
    }
    proof {
        assert(out@ + styles_added(start.union(id_set(added@)), rest@) =~= out@);
    }
    out
}

/// Every sheet's id ends up present: either it was there before, or the run adds it.
proof fn lemma_styles_added_cover(existing: Set<Seq<char>>, sheets: Seq<StyleSheet>)
    ensures
        forall|i: int|
            0 <= i < sheets.len() ==> existing.contains(#[trigger] sheets[i].id@) || exists|j: int|
                0 <= j < styles_added(existing, sheets).len() && styles_added(existing, sheets)[j].id@
                    == sheets[i].id@,
    decreases sheets.len(),
{
    if sheets.len() > 0 {
        let rest = sheets.drop_first();
        if existing.contains(sheets[0].id@) {
            lemma_styles_added_cover(existing, rest);
            assert(styles_added(existing, sheets) == styles_added(existing, rest));
            assert forall|i: int| 0 <= i < sheets.len() implies existing.contains(
                #[trigger] sheets[i].id@,
            ) || exists|j: int|
                0 <= j < styles_added(existing, sheets).len() && styles_added(existing, sheets)[j].id@
                    == sheets[i].id@ by {
                if i > 0 {
                    assert(sheets[i] == rest[i - 1]);
                    assert(existing.contains(rest[i - 1].id@) || exists|j: int|
                        0 <= j < styles_added(existing, rest).len() && styles_added(existing, rest)[j].id@
                            == rest[i - 1].id@);
                }
            }
        } else {
            let e2 = existing.insert(sheets[0].id@);
            lemma_styles_added_cover(e2, rest);
            let added = styles_added(existing, sheets);
            let tail = styles_added(e2, rest);
            assert(added == seq![sheets[0]] + tail);
            assert forall|i: int| 0 <= i < sheets.len() implies existing.contains(
                #[trigger] sheets[i].id@,
            ) || exists|j: int| 0 <= j < added.len() && added[j].id@ == sheets[i].id@ by {
                if i == 0 {
                    assert(added[0] == sheets[0]);
                } else {
                    assert(sheets[i] == rest[i - 1]);
                    if !existing.contains(sheets[i].id@) {
                        if sheets[i].id@ == sheets[0].id@ {
                            assert(added[0] == sheets[0]);
                        } else {
                            assert(!e2.contains(rest[i - 1].id@));
                            let j = choose|j: int| 0 <= j < tail.len() && tail[j].id@ == rest[i - 1].id@;
                            assert(added[j + 1] == tail[j]);
                        }
                    }
                }
            }
        }
    }
}

/// When every sheet's id is already present, nothing is added.
proof fn lemma_styles_added_none(existing: Set<Seq<char>>, sheets: Seq<StyleSheet>)
    requires
        forall|i: int| 0 <= i < sheets.len() ==> existing.contains(#[trigger] sheets[i].id@),
    ensures
        styles_added(existing, sheets) == Seq::<StyleSheet>::empty(),
    decreases sheets.len(),
{
    if sheets.len() > 0 {
        let rest = sheets.drop_first();
        assert(existing.contains(sheets[0].id@));
        assert forall|i: int| 0 <= i < rest.len() implies existing.contains(#[trigger] rest[i].id@) by {
            assert(rest[i] == sheets[i + 1]);
        }
        lemma_styles_added_none(existing, rest);
    }
}

/// Injecting the same sheets a second time adds nothing: every element the
/// first run needed is then present.
pub proof fn law_style_injection_idempotent(existing: Set<Seq<char>>, sheets: Seq<StyleSheet>)
    ensures
        styles_added(
            existing.union(styles_added(existing, sheets).map_values(|s: StyleSheet| s.id@).to_set()),
            sheets,
        ) == Seq::<StyleSheet>::empty(),
{
    let added = styles_added(existing, sheets);
    let after = existing.union(added.map_values(|s: StyleSheet| s.id@).to_set());
    lemma_styles_added_cover(existing, sheets);
    assert forall|i: int| 0 <= i < sheets.len() implies after.contains(#[trigger] sheets[i].id@) by {
        if !existing.contains(sheets[i].id@) {
            let j = choose|j: int| 0 <= j < added.len() && added[j].id@ == sheets[i].id@;
            assert(added.map_values(|s: StyleSheet| s.id@)[j] == sheets[i].id@);
        }
    }
    lemma_styles_added_none(after, sheets);
}

} // verus!
