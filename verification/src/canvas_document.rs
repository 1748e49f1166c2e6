//! The HTML document a canvas is shown as, and the host theme that it follows.
use vstd::prelude::*;
use vstd::string::*;

use crate::canvas_shell::CANVAS_SHELL;
use crate::json::{display, groups_view, json_display, texts_view};
use crate::text::{
    decimal, decimal_text, law_replaced_none, occurs_at, occurs_in, replace, replaced,
};

verus! {

/// A title as it stands in the page, with its angle brackets escaped.
pub open spec fn safe_title(title: Seq<char>) -> Seq<char> {
    replaced(replaced(title, "<"@, "&lt;"@), ">"@, "&gt;"@)
}

/// A canvas source as it stands inside a script element, with the closing tag
/// neutralized.
pub open spec fn safe_body(body: Seq<char>) -> Seq<char> {
    replaced(body, "</script>"@, "<\\/script>"@)
}

/// The page for a canvas.
pub open spec fn document(title: Seq<char>, body: Seq<char>, theme_json: Seq<char>) -> Seq<char> {
    replaced(
        replaced(
            replaced(CANVAS_SHELL@, "CANVAS_TITLE_PLACEHOLDER"@, safe_title(title)),
            "\"CANVAS_THEME_PLACEHOLDER\""@,
            theme_json,
        ),
        "// CANVAS_BODY_PLACEHOLDER"@,
        safe_body(body),
    )
}

/// Wraps a canvas component, JSX that defines `function Canvas() { ... }`, in the
/// page that renders it. `theme_json` is the host theme, which the page reads as
/// `window.__zedTheme`.
pub fn canvas_document(title: &str, body_tsx: &str, theme_json: &str) -> (page: String)
    ensures
        page@ == document(title@, body_tsx@, theme_json@),
{
    proof {
        reveal_strlit("<");
        reveal_strlit(">");
        reveal_strlit("</script>");
        reveal_strlit("CANVAS_TITLE_PLACEHOLDER");
        reveal_strlit("\"CANVAS_THEME_PLACEHOLDER\"");
        reveal_strlit("// CANVAS_BODY_PLACEHOLDER");
    }
    let opened = replace(title, "<", "&lt;");
    let safe_title = replace(opened.as_str(), ">", "&gt;");
    let safe_body = replace(body_tsx, "</script>", "<\\/script>");
    let titled = replace(CANVAS_SHELL, "CANVAS_TITLE_PLACEHOLDER", safe_title.as_str());
    let themed = replace(titled.as_str(), "\"CANVAS_THEME_PLACEHOLDER\"", theme_json);
    replace(themed.as_str(), "// CANVAS_BODY_PLACEHOLDER", safe_body.as_str())
}

/// A color of the host theme, written out both ways the page uses it.
pub struct ThemeColor {
    /// As a CSS `rgba(...)` color.
    pub css: String,
    /// As an HSL triplet such as `220 13% 18%`.
    pub hsl: String,
}

/// The host theme: its name and the colors that canvases follow.
pub struct HostTheme {
    pub is_light: bool,
    pub name: String,
    pub background: ThemeColor,
    pub elevated_surface_background: ThemeColor,
    pub panel_background: ThemeColor,
    pub element_background: ThemeColor,
    pub border: ThemeColor,
    pub text: ThemeColor,
    pub text_muted: ThemeColor,
    pub text_accent: ThemeColor,
    pub error: ThemeColor,
    pub warning: ThemeColor,
    pub success: ThemeColor,
    pub info: ThemeColor,
    /// The triplet of the background, nudged toward the foreground by
    /// [`subtle_surface_shift`].
    pub subtle_surface: String,
    /// The triplets of a chart palette that starts at the accent color.
    pub chart_1: String,
    pub chart_2: String,
    pub chart_3: String,
    pub chart_4: String,
    pub chart_5: String,
}

/// How far the lightness of a subtle surface lies from that of the background, in
/// hundredths: lighter in dark themes, darker in light ones.
pub fn subtle_surface_shift(is_light: bool) -> (shift: i8)
    ensures
        shift == if is_light {
            -6int
        } else {
            10int
        },
{
    if is_light {
        -6
    } else {
        10
    }
}

/// How the theme is called in the page.
pub open spec fn theme_kind(is_light: bool) -> Seq<char> {
    if is_light {
        "light"@
    } else {
        "dark"@
    }
}

/// The CSS colors of the theme by name, in order.
pub open spec fn theme_colors(theme: HostTheme) -> Seq<(Seq<char>, Seq<char>)> {
    seq![
        ("background"@, theme.background.css@),
        ("surface"@, theme.elevated_surface_background.css@),
        ("panel"@, theme.panel_background.css@),
        ("element"@, theme.element_background.css@),
        ("border"@, theme.border.css@),
        ("text"@, theme.text.css@),
        ("textMuted"@, theme.text_muted.css@),
        ("accent"@, theme.text_accent.css@),
        ("error"@, theme.error.css@),
        ("warning"@, theme.warning.css@),
        ("success"@, theme.success.css@),
        ("info"@, theme.info.css@),
    ]
}

/// The design tokens of the theme by name, in order, as HSL triplets.
pub open spec fn theme_vars(theme: HostTheme) -> Seq<(Seq<char>, Seq<char>)> {
    seq![
        ("background"@, theme.background.hsl@),
        ("foreground"@, theme.text.hsl@),
        ("card"@, theme.elevated_surface_background.hsl@),
        ("card-foreground"@, theme.text.hsl@),
        ("popover"@, theme.elevated_surface_background.hsl@),
        ("popover-foreground"@, theme.text.hsl@),
        ("primary"@, theme.text_accent.hsl@),
        ("primary-foreground"@, theme.background.hsl@),
        ("secondary"@, theme.subtle_surface@),
        ("secondary-foreground"@, theme.text.hsl@),
        ("muted"@, theme.subtle_surface@),
        ("muted-foreground"@, theme.text_muted.hsl@),
        ("accent"@, theme.subtle_surface@),
        ("accent-foreground"@, theme.text.hsl@),
        ("destructive"@, theme.error.hsl@),
        ("destructive-foreground"@, theme.background.hsl@),
        ("border"@, theme.border.hsl@),
        ("input"@, theme.border.hsl@),
        ("ring"@, theme.text_accent.hsl@),
        ("chart-1"@, theme.chart_1@),
        ("chart-2"@, theme.chart_2@),
        ("chart-3"@, theme.chart_3@),
        ("chart-4"@, theme.chart_4@),
        ("chart-5"@, theme.chart_5@),
    ]
}

/// The theme as a JSON object, before it is made safe for a script element.
pub open spec fn theme_object(theme: HostTheme) -> Seq<char> {
    json_display(
        seq![("kind"@, theme_kind(theme.is_light)), ("name"@, theme.name@)],
        seq![("colors"@, theme_colors(theme)), ("vars"@, theme_vars(theme))],
    )
}

/// JSON text as it stands inside a script element, with `<` escaped.
pub open spec fn script_safe(json: Seq<char>) -> Seq<char> {
    replaced(json, "<"@, "\\u003c"@)
}

fn named(name: &str, value: &String) -> (member: (String, String))
    ensures
        member.0@ == name@,
        member.1@ == value@,
{
    (name.to_owned(), value.clone())
}

/// The CSS colors of the theme by name, in order.
fn color_members(theme: &HostTheme) -> (members: Vec<(String, String)>)
    ensures
        texts_view(members@) == theme_colors(*theme),
{
    let mut members: Vec<(String, String)> = Vec::new();
    members.push(named("background", &theme.background.css));
    members.push(named("surface", &theme.elevated_surface_background.css));
    members.push(named("panel", &theme.panel_background.css));
    members.push(named("element", &theme.element_background.css));
    members.push(named("border", &theme.border.css));
    members.push(named("text", &theme.text.css));
    members.push(named("textMuted", &theme.text_muted.css));
    members.push(named("accent", &theme.text_accent.css));
    members.push(named("error", &theme.error.css));
    members.push(named("warning", &theme.warning.css));
    members.push(named("success", &theme.success.css));
    members.push(named("info", &theme.info.css));
    assert(texts_view(members@) =~= theme_colors(*theme));
    members
}

/// The design tokens of the theme by name, in order.
fn var_members(theme: &HostTheme) -> (members: Vec<(String, String)>)
    ensures
        texts_view(members@) == theme_vars(*theme),
{
    let mut members: Vec<(String, String)> = Vec::new();
    members.push(named("background", &theme.background.hsl));
    members.push(named("foreground", &theme.text.hsl));
    members.push(named("card", &theme.elevated_surface_background.hsl));
    members.push(named("card-foreground", &theme.text.hsl));
    members.push(named("popover", &theme.elevated_surface_background.hsl));
    members.push(named("popover-foreground", &theme.text.hsl));
    members.push(named("primary", &theme.text_accent.hsl));
    members.push(named("primary-foreground", &theme.background.hsl));
    members.push(named("secondary", &theme.subtle_surface));
    members.push(named("secondary-foreground", &theme.text.hsl));
    members.push(named("muted", &theme.subtle_surface));
    members.push(named("muted-foreground", &theme.text_muted.hsl));
    members.push(named("accent", &theme.subtle_surface));
    members.push(named("accent-foreground", &theme.text.hsl));
    members.push(named("destructive", &theme.error.hsl));
    members.push(named("destructive-foreground", &theme.background.hsl));
    members.push(named("border", &theme.border.hsl));
    members.push(named("input", &theme.border.hsl));
    members.push(named("ring", &theme.text_accent.hsl));
    members.push(named("chart-1", &theme.chart_1));
    members.push(named("chart-2", &theme.chart_2));
    members.push(named("chart-3", &theme.chart_3));
    members.push(named("chart-4", &theme.chart_4));
    members.push(named("chart-5", &theme.chart_5));
    assert(texts_view(members@) =~= theme_vars(*theme));
    members
}

/// Escapes `<` in JSON text that is put into a script element, so that no string
/// in it can close the element.
pub fn escape_for_script(json: &str) -> (safe: String)
    ensures
        safe@ == script_safe(json@),
{
    proof {
        reveal_strlit("<");
    }
    replace(json, "<", "\\u003c")
}

/// The host theme as the JSON that canvases read as `window.__zedTheme`.
pub fn canvas_theme_json(theme: &HostTheme) -> (json: String)
    ensures
        json@ == script_safe(theme_object(*theme)),
{
    let kind = if theme.is_light {
        "light".to_owned()
    } else {
        "dark".to_owned()
    };
    let mut members: Vec<(String, String)> = Vec::new();
    members.push(named("kind", &kind));
    members.push(named("name", &theme.name));
    let mut groups: Vec<(String, Vec<(String, String)>)> = Vec::new();
    groups.push(("colors".to_owned(), color_members(theme)));
    groups.push(("vars".to_owned(), var_members(theme)));
    proof {
        assert(texts_view(members@) =~= seq![
            ("kind"@, theme_kind(theme.is_light)),
            ("name"@, theme.name@),
        ]);
        assert(groups_view(groups@) =~= seq![
            ("colors"@, theme_colors(*theme)),
            ("vars"@, theme_vars(*theme)),
        ]);
    }
    let object = display(&members, &groups);
    escape_for_script(object.as_str())
}

/// A color as a CSS `rgba(...)` text. `alpha` is the opacity, already written out.
pub fn css_color(red: u8, green: u8, blue: u8, alpha: &str) -> (css: String)
    ensures
        css@ == "rgba("@ + decimal(red as nat) + ", "@ + decimal(green as nat) + ", "@ + decimal(
            blue as nat,
        ) + ", "@ + alpha@ + ")"@,
{
    let mut css = "rgba(".to_owned();
    css.append(decimal_text(red as u64).as_str());
    css.append(", ");
    css.append(decimal_text(green as u64).as_str());
    css.append(", ");
    css.append(decimal_text(blue as u64).as_str());
    css.append(", ");
    css.append(alpha);
    css.append(")");
    css
}

/// A color as an HSL triplet such as `220 13% 18%`, from the degrees of its hue and
/// the percentages of its saturation and lightness, already written out.
pub fn hsl_triplet(hue: &str, saturation: &str, lightness: &str) -> (triplet: String)
    ensures
        triplet@ == hue@ + " "@ + saturation@ + "% "@ + lightness@ + "%"@,
{
    let mut triplet = hue.to_owned();
    triplet.append(" ");
    triplet.append(saturation);
    triplet.append("% ");
    triplet.append(lightness);
    triplet.append("%");
    triplet
}

// Laws of the page.

/// Whether `c` stands nowhere in `text`.
pub open spec fn lacks(text: Seq<char>, c: char) -> bool {
    forall|i: int| 0 <= i < text.len() ==> #[trigger] text[i] != c
}

/// Replacing one character by a text without `c` leaves no `c` behind, where `c` is
/// the character replaced or was absent before.
proof fn lemma_replaced_lacks(text: Seq<char>, pattern: Seq<char>, with: Seq<char>, c: char)
    requires
        pattern.len() == 1,
        pattern[0] == c || lacks(text, c),
        lacks(with, c),
    ensures
        lacks(replaced(text, pattern, with), c),
    decreases text.len(),
{
    if text.len() >= 1 {
        let rest = text.skip(1);
        assert(pattern[0] == c || lacks(rest, c)) by {
            if pattern[0] != c {
                assert forall|i: int| 0 <= i < rest.len() implies #[trigger] rest[i] != c by {
                    assert(text[i + 1] != c);
                }
            }
        }
        lemma_replaced_lacks(rest, pattern, with, c);
        if !occurs_at(text, pattern, 0) {
            assert(text.subrange(0, 1) =~= seq![text[0]]);
            assert(pattern =~= seq![pattern[0]]);
            assert(text[0] != pattern[0]);
            assert(text[0] != c);
        }
    }
}

/// A title in the page holds no angle bracket, so it opens no element.
pub proof fn law_title_opens_no_element(title: Seq<char>)
    ensures
        lacks(safe_title(title), '<'),
        lacks(safe_title(title), '>'),
{
    reveal_strlit("<");
    reveal_strlit(">");
    reveal_strlit("&lt;");
    reveal_strlit("&gt;");
    let opened = replaced(title, "<"@, "&lt;"@);
    lemma_replaced_lacks(title, "<"@, "&lt;"@, '<');
    lemma_replaced_lacks(opened, ">"@, "&gt;"@, '<');
    lemma_replaced_lacks(opened, ">"@, "&gt;"@, '>');
}

/// The host theme in the page holds no `<`, whatever the theme is called, so it
/// cannot break out of its script element.
pub proof fn law_theme_stays_in_script(theme: HostTheme)
    ensures
        lacks(script_safe(theme_object(theme)), '<'),
{
    reveal_strlit("<");
    reveal_strlit("\\u003c");
    lemma_replaced_lacks(theme_object(theme), "<"@, "\\u003c"@, '<');
}

/// A start of the replaced text that holds no first character of the pattern was
/// the start of the text before.
proof fn lemma_prefix_was_there(
    text: Seq<char>,
    pattern: Seq<char>,
    with: Seq<char>,
    prefix: Seq<char>,
)
    requires
        pattern.len() > 0,
        with.len() > 0,
        with[0] == pattern[0],
        lacks(prefix, pattern[0]),
        occurs_at(replaced(text, pattern, with), prefix, 0),
    ensures
        occurs_at(text, prefix, 0),
    decreases prefix.len(),
{
    let result = replaced(text, pattern, with);
    if prefix.len() == 0 {
        assert(text.subrange(0, 0) =~= prefix);
    } else if text.len() >= pattern.len() {
        assert(result.subrange(0, prefix.len() as int)[0] == prefix[0]);
        assert(prefix[0] != pattern[0]);
        if occurs_at(text, pattern, 0) {
            assert(result[0] == with[0]);
        } else {
            let rest = text.skip(1);
            let tail = replaced(rest, pattern, with);
            let shorter = prefix.skip(1);
            assert(result[0] == text[0]);
            assert(tail.subrange(0, shorter.len() as int) =~= shorter) by {
                assert forall|i: int| 0 <= i < shorter.len() implies #[trigger] tail[i]
                    == shorter[i] by {
                    assert(result.subrange(0, prefix.len() as int)[i + 1] == prefix[i + 1]);
                }
            }
            assert forall|i: int| 0 <= i < shorter.len() implies #[trigger] shorter[i]
                != pattern[0] by {
                assert(prefix[i + 1] != pattern[0]);
            }
            lemma_prefix_was_there(rest, pattern, with, shorter);
            assert(text.subrange(0, prefix.len() as int) =~= prefix) by {
                assert forall|i: int| 0 <= i < prefix.len() implies #[trigger] text[i]
                    == prefix[i] by {
                    if i > 0 {
                        assert(rest.subrange(0, shorter.len() as int)[i - 1] == shorter[i - 1]);
                    }
                }
            }
        }
    }
}

/// Replacing a pattern leaves no occurrence of it behind, where neither the pattern
/// nor the replacement repeats the first character that they share and they differ
/// in the next one.
proof fn lemma_replaced_is_gone(text: Seq<char>, pattern: Seq<char>, with: Seq<char>)
    requires
        pattern.len() > 1,
        with.len() > 1,
        with[0] == pattern[0],
        with[1] != pattern[1],
        lacks(pattern.skip(1), pattern[0]),
        lacks(with.skip(1), pattern[0]),
    ensures
        !occurs_in(replaced(text, pattern, with), pattern),
    decreases text.len(),
{
    let result = replaced(text, pattern, with);
    assert forall|at: int| !occurs_at(result, pattern, at) by {
        if occurs_at(result, pattern, at) {
            let found = result.subrange(at, at + pattern.len());
            assert(found[0] == pattern[0] && found[1] == pattern[1]);
            if text.len() < pattern.len() {
                assert(false);
            } else if occurs_at(text, pattern, 0) {
                let tail = replaced(text.skip(pattern.len() as int), pattern, with);
                lemma_replaced_is_gone(text.skip(pattern.len() as int), pattern, with);
                if at == 0 {
                    assert(result[1] == with[1]);
                } else if at < with.len() {
                    assert(result[at] == with.skip(1)[at - 1]);
                } else {
                    assert(tail.subrange(at - with.len(), at - with.len() + pattern.len())
                        =~= found);
                    assert(occurs_at(tail, pattern, at - with.len()));
                }
            } else {
                let rest = text.skip(1);
                let tail = replaced(rest, pattern, with);
                lemma_replaced_is_gone(rest, pattern, with);
                if at == 0 {
                    let remaining = pattern.skip(1);
                    assert(tail.subrange(0, remaining.len() as int) =~= remaining) by {
                        assert forall|i: int| 0 <= i < remaining.len() implies #[trigger] tail[i]
                            == remaining[i] by {
                            assert(found[i + 1] == pattern[i + 1]);
                        }
                    }
                    lemma_prefix_was_there(rest, pattern, with, remaining);
                    assert(text.subrange(0, pattern.len() as int) =~= pattern) by {
                        assert forall|i: int| 0 <= i < pattern.len() implies #[trigger] text[i]
                            == pattern[i] by {
                            if i > 0 {
                                assert(rest.subrange(0, remaining.len() as int)[i - 1]
                                    == remaining[i - 1]);
                            }
                        }
                    }
                } else {
                    assert(tail.subrange(at - 1, at - 1 + pattern.len()) =~= found);
                    assert(occurs_at(tail, pattern, at - 1));
                }
            }
        }
    }
}

/// A canvas source in the page holds no literal `</script>`, so it cannot close the
/// script element it stands in.
pub proof fn law_body_stays_in_script(body: Seq<char>)
    ensures
        !occurs_in(safe_body(body), "</script>"@),
{
    reveal_strlit("</script>");
    reveal_strlit("<\\/script>");
    lemma_replaced_is_gone(body, "</script>"@, "<\\/script>"@);
}

// What escaping keeps.

/// A pattern of one character is replaced in the parts of a text as in the whole.
proof fn lemma_replaced_parts(a: Seq<char>, b: Seq<char>, pattern: Seq<char>, with: Seq<char>)
    requires
        pattern.len() == 1,
    ensures
        replaced(a + b, pattern, with) == replaced(a, pattern, with) + replaced(b, pattern, with),
    decreases a.len(),
{
    if a.len() == 0 {
        assert(a + b =~= b);
        assert(replaced(a, pattern, with) + replaced(b, pattern, with) =~= replaced(
            b,
            pattern,
            with,
        ));
    } else {
        lemma_replaced_parts(a.skip(1), b, pattern, with);
        assert((a + b).skip(1) =~= a.skip(1) + b);
        assert((a + b).subrange(0, 1) =~= a.subrange(0, 1));
        assert(replaced(a + b, pattern, with) =~= replaced(a, pattern, with) + replaced(
            b,
            pattern,
            with,
        ));
    }
}

proof fn lemma_replaced_one(c: char, pattern: Seq<char>, with: Seq<char>)
    requires
        pattern.len() == 1,
    ensures
        replaced(seq![c], pattern, with) == if c == pattern[0] {
            with
        } else {
            seq![c]
        },
{
    reveal_with_fuel(replaced, 2);
    let one = seq![c];
    if c == pattern[0] {
        assert(one.subrange(0, 1) =~= pattern);
    } else if one.subrange(0, 1) == pattern {
        assert(one.subrange(0, 1)[0] == c);
    }
    assert(one.skip(1) =~= Seq::<char>::empty());
    assert(with + Seq::<char>::empty() =~= with);
    assert(one + Seq::<char>::empty() =~= one);
}

/// A title is escaped character by character: `<` and `>` become entities, and every
/// other character stands as it is.
pub proof fn law_title_by_character(before: Seq<char>, c: char)
    ensures
        safe_title(Seq::<char>::empty()) == Seq::<char>::empty(),
        safe_title(before.push(c)) == safe_title(before) + if c == '<' {
            "&lt;"@
        } else if c == '>' {
            "&gt;"@
        } else {
            seq![c]
        },
{
    reveal_strlit("<");
    reveal_strlit(">");
    reveal_strlit("&lt;");
    assert(before.push(c) =~= before + seq![c]);
    lemma_replaced_parts(before, seq![c], "<"@, "&lt;"@);
    lemma_replaced_one(c, "<"@, "&lt;"@);
    let opened = replaced(before, "<"@, "&lt;"@);
    lemma_replaced_parts(opened, replaced(seq![c], "<"@, "&lt;"@), ">"@, "&gt;"@);
    if c == '<' {
        assert forall|k: int| 0 <= k && k + 1 <= "&lt;"@.len() implies #[trigger] "&lt;"@.subrange(
            k,
            k + ">"@.len(),
        ) != ">"@ by {
            assert("&lt;"@.subrange(k, k + 1)[0] == "&lt;"@[k]);
        }
        law_replaced_none("&lt;"@, ">"@, "&gt;"@);
    } else {
        lemma_replaced_one(c, ">"@, "&gt;"@);
    }
}

/// JSON for a script element is escaped character by character: `<` becomes an escape
/// sequence, and every other character stands as it is.
pub proof fn law_script_text_by_character(before: Seq<char>, c: char)
    ensures
        script_safe(Seq::<char>::empty()) == Seq::<char>::empty(),
        script_safe(before.push(c)) == script_safe(before) + if c == '<' {
            "\\u003c"@
        } else {
            seq![c]
        },
{
    reveal_strlit("<");
    assert(before.push(c) =~= before + seq![c]);
    lemma_replaced_parts(before, seq![c], "<"@, "\\u003c"@);
    lemma_replaced_one(c, "<"@, "\\u003c"@);
}

/// A source in which no script element is closed stands in the page as it is.
pub proof fn law_plain_body_is_kept(body: Seq<char>)
    requires
        forall|k: int|
            0 <= k && k + 9 <= body.len() ==> #[trigger] body.subrange(k, k + 9) != "</script>"@,
    ensures
        safe_body(body) == body,
{
    reveal_strlit("</script>");
    assert("</script>"@.len() == 9);
    assert forall|k: int| 0 <= k && k + "</script>"@.len() <= body.len() implies
        #[trigger] body.subrange(k, k + "</script>"@.len()) != "</script>"@ by {
        assert(body.subrange(k, k + 9) != "</script>"@);
    }
    law_replaced_none(body, "</script>"@, "<\\/script>"@);
}

/// Wherever a source closes a script element, the tag is neutralized, and what stands
/// before and behind it is treated as if it stood alone.
pub proof fn law_body_around_closing_tag(before: Seq<char>, behind: Seq<char>)
    ensures
        safe_body(before + "</script>"@ + behind) == safe_body(before) + "<\\/script>"@
            + safe_body(behind),
    decreases before.len(),
{
    reveal_strlit("</script>");
    let tag = "</script>"@;
    let with = "<\\/script>"@;
    let whole = before + tag + behind;
    if before.len() == 0 {
        assert(whole.subrange(0, 9) =~= tag);
        assert(whole.skip(9) =~= behind);
        assert(safe_body(before) + with + safe_body(behind) =~= with + safe_body(behind));
    } else if before.len() >= 9 {
        assert(whole.subrange(0, 9) =~= before.subrange(0, 9));
        if before.subrange(0, 9) == tag {
            law_body_around_closing_tag(before.skip(9), behind);
            assert(whole.skip(9) =~= before.skip(9) + tag + behind);
        } else {
            law_body_around_closing_tag(before.skip(1), behind);
            assert(whole.skip(1) =~= before.skip(1) + tag + behind);
        }
        assert(safe_body(whole) =~= safe_body(before) + with + safe_body(behind));
    } else {
        if whole.subrange(0, 9) == tag {
            assert(whole.subrange(0, 9)[before.len() as int] == tag[0]);
            assert(tag[before.len() as int] != '<');
        }
        law_body_around_closing_tag(before.skip(1), behind);
        assert(whole.skip(1) =~= before.skip(1) + tag + behind);
        assert(safe_body(before.skip(1)) == before.skip(1));
        assert(safe_body(whole) =~= before + with + safe_body(behind));
    }
}

/// The page is told the kind and the name of the theme, its twelve colors and its
/// twenty-four tokens, each under its own name.
pub proof fn law_theme_is_told(theme: HostTheme)
    ensures
        theme_object(theme) == json_display(
            seq![
                (
                    "kind"@,
                    if theme.is_light {
                        "light"@
                    } else {
                        "dark"@
                    },
                ),
                ("name"@, theme.name@),
            ],
            seq![("colors"@, theme_colors(theme)), ("vars"@, theme_vars(theme))],
        ),
        theme_colors(theme).len() == 12,
        theme_colors(theme)[0] == ("background"@, theme.background.css@),
        theme_colors(theme)[1] == ("surface"@, theme.elevated_surface_background.css@),
        theme_colors(theme)[2] == ("panel"@, theme.panel_background.css@),
        theme_colors(theme)[3] == ("element"@, theme.element_background.css@),
        theme_colors(theme)[4] == ("border"@, theme.border.css@),
        theme_colors(theme)[5] == ("text"@, theme.text.css@),
        theme_colors(theme)[6] == ("textMuted"@, theme.text_muted.css@),
        theme_colors(theme)[7] == ("accent"@, theme.text_accent.css@),
        theme_colors(theme)[8] == ("error"@, theme.error.css@),
        theme_colors(theme)[9] == ("warning"@, theme.warning.css@),
        theme_colors(theme)[10] == ("success"@, theme.success.css@),
        theme_colors(theme)[11] == ("info"@, theme.info.css@),
        theme_vars(theme).len() == 24,
        theme_vars(theme)[0] == ("background"@, theme.background.hsl@),
        theme_vars(theme)[1] == ("foreground"@, theme.text.hsl@),
        theme_vars(theme)[2] == ("card"@, theme.elevated_surface_background.hsl@),
        theme_vars(theme)[3] == ("card-foreground"@, theme.text.hsl@),
        theme_vars(theme)[4] == ("popover"@, theme.elevated_surface_background.hsl@),
        theme_vars(theme)[5] == ("popover-foreground"@, theme.text.hsl@),
        theme_vars(theme)[6] == ("primary"@, theme.text_accent.hsl@),
        theme_vars(theme)[7] == ("primary-foreground"@, theme.background.hsl@),
        theme_vars(theme)[8] == ("secondary"@, theme.subtle_surface@),
        theme_vars(theme)[9] == ("secondary-foreground"@, theme.text.hsl@),
        theme_vars(theme)[10] == ("muted"@, theme.subtle_surface@),
        theme_vars(theme)[11] == ("muted-foreground"@, theme.text_muted.hsl@),
        theme_vars(theme)[12] == ("accent"@, theme.subtle_surface@),
        theme_vars(theme)[13] == ("accent-foreground"@, theme.text.hsl@),
        theme_vars(theme)[14] == ("destructive"@, theme.error.hsl@),
        theme_vars(theme)[15] == ("destructive-foreground"@, theme.background.hsl@),
        theme_vars(theme)[16] == ("border"@, theme.border.hsl@),
        theme_vars(theme)[17] == ("input"@, theme.border.hsl@),
        theme_vars(theme)[18] == ("ring"@, theme.text_accent.hsl@),
        theme_vars(theme)[19] == ("chart-1"@, theme.chart_1@),
        theme_vars(theme)[20] == ("chart-2"@, theme.chart_2@),
        theme_vars(theme)[21] == ("chart-3"@, theme.chart_3@),
        theme_vars(theme)[22] == ("chart-4"@, theme.chart_4@),
        theme_vars(theme)[23] == ("chart-5"@, theme.chart_5@),
{
}

} // verus!
