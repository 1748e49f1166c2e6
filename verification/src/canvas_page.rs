//! What holds of the page of a canvas as a whole.
use vstd::prelude::*;
use vstd::string::*;

use crate::canvas_document::{
    document, lacks, law_body_stays_in_script, law_plain_body_is_kept, law_title_opens_no_element,
    safe_body, safe_title,
};
use crate::canvas_shell::{body_at, lemma_placeholders, theme_at, title_at, CANVAS_SHELL};
use crate::text::{occurs_at, occurs_in, replaced};

verus! {

/// How often `pattern` stands in `text`.
pub open spec fn count_of(text: Seq<char>, pattern: Seq<char>) -> nat
    decreases text.len(),
{
    if text.len() == 0 {
        0
    } else {
        count_of(text.skip(1), pattern) + if occurs_at(text, pattern, 0) {
            1nat
        } else {
            0nat
        }
    }
}

/// The shell up to the title.
pub open spec fn before_title() -> Seq<char> {
    CANVAS_SHELL@.take(title_at())
}

/// The shell between the title and the host theme.
pub open spec fn before_theme() -> Seq<char> {
    CANVAS_SHELL@.subrange(title_at() + 24, theme_at())
}

/// The shell between the host theme and the body.
pub open spec fn before_body() -> Seq<char> {
    CANVAS_SHELL@.subrange(theme_at() + 26, body_at())
}

/// The shell behind the body.
pub open spec fn after_body() -> Seq<char> {
    CANVAS_SHELL@.skip(body_at() + 26)
}

/// The shell with a title, a theme and a body at their places.
pub open spec fn filled(title: Seq<char>, theme: Seq<char>, body: Seq<char>) -> Seq<char> {
    before_title() + title + before_theme() + theme + before_body() + body + after_body()
}

/// Whether a title has none of the placeholders that are filled in after it.
pub open spec fn plain_title(title: Seq<char>) -> bool {
    &&& !occurs_in(title, "\"CANVAS_THEME_PLACEHOLDER\""@)
    &&& !occurs_in(title, "// CANVAS_BODY_PLACEHOLDER"@)
}

/// Whether a theme does not have the placeholder that is filled in after it.
pub open spec fn plain_theme(theme: Seq<char>) -> bool {
    !occurs_in(theme, "// CANVAS_BODY_PLACEHOLDER"@)
}

// Occurrences in parts of a text.

/// What occurs in the rest of a text occurs in the text.
proof fn lemma_occurs_skip(text: Seq<char>, pattern: Seq<char>, from: int, at: int)
    requires
        0 <= from <= text.len(),
        0 <= at,
    ensures
        occurs_at(text.skip(from), pattern, at) <==> occurs_at(text, pattern, from + at),
{
    if from + at + pattern.len() <= text.len() {
        assert(text.skip(from).subrange(at, at + pattern.len()) =~= text.subrange(
            from + at,
            from + at + pattern.len(),
        ));
    }
}

/// What occurs in a stretch of a text occurs in the text.
proof fn lemma_occurs_within(
    text: Seq<char>,
    pattern: Seq<char>,
    from: int,
    until: int,
    at: int,
)
    requires
        0 <= from <= until <= text.len(),
        occurs_at(text.subrange(from, until), pattern, at),
    ensures
        occurs_at(text, pattern, from + at),
{
    assert(text.subrange(from, until).subrange(at, at + pattern.len()) =~= text.subrange(
        from + at,
        from + at + pattern.len(),
    ));
}

/// A pattern without the last character of `left` and the first one of `right` lies in
/// one of the three parts.
proof fn lemma_confined(
    left: Seq<char>,
    middle: Seq<char>,
    right: Seq<char>,
    pattern: Seq<char>,
    at: int,
)
    requires
        left.len() > 0,
        right.len() > 0,
        lacks(pattern, left.last()),
        lacks(pattern, right[0]),
        occurs_at(left + middle + right, pattern, at),
    ensures
        occurs_at(left, pattern, at) || occurs_at(middle, pattern, at - left.len()) || occurs_at(
            right,
            pattern,
            at - left.len() - middle.len(),
        ),
{
    let text = left + middle + right;
    let found = text.subrange(at, at + pattern.len());
    let second = left.len() as int;
    let third = second + middle.len();
    let end = at + pattern.len();
    if end <= second {
        assert(left.subrange(at, end) =~= found);
    } else if at < second {
        assert(text[second - 1] == left.last());
        assert(found[second - 1 - at] == left.last());
        assert(pattern[second - 1 - at] == left.last());
    } else if end <= third {
        assert(middle.subrange(at - second, end - second) =~= found);
    } else if at <= third {
        assert(text[third] == right[0]);
        assert(found[third - at] == right[0]);
        assert(pattern[third - at] == right[0]);
    } else {
        assert(right.subrange(at - third, end - third) =~= found);
    }
}

// Replacing a pattern that occurs once.

proof fn lemma_replaced_none(text: Seq<char>, pattern: Seq<char>, with: Seq<char>)
    requires
        forall|at: int| !occurs_at(text, pattern, at),
    ensures
        replaced(text, pattern, with) == text,
    decreases text.len(),
{
    if pattern.len() > 0 && text.len() >= pattern.len() {
        assert(!occurs_at(text, pattern, 0));
        assert forall|at: int| !occurs_at(text.skip(1), pattern, at) by {
            if occurs_at(text.skip(1), pattern, at) {
                lemma_occurs_skip(text, pattern, 1, at);
                assert(occurs_at(text, pattern, 1 + at));
            }
        }
        lemma_replaced_none(text.skip(1), pattern, with);
        assert(seq![text[0]] + text.skip(1) =~= text);
    }
}

/// A pattern that occurs once is replaced there.
proof fn lemma_replaced_once(text: Seq<char>, pattern: Seq<char>, with: Seq<char>, place: int)
    requires
        pattern.len() > 0,
        forall|at: int| #[trigger] occurs_at(text, pattern, at) <==> at == place,
    ensures
        replaced(text, pattern, with) == text.take(place) + with + text.skip(
            place + pattern.len(),
        ),
    decreases text.len(),
{
    assert(occurs_at(text, pattern, place));
    let goal = text.take(place) + with + text.skip(place + pattern.len());
    if place == 0 {
        let rest = text.skip(pattern.len() as int);
        assert forall|at: int| !occurs_at(rest, pattern, at) by {
            if occurs_at(rest, pattern, at) {
                lemma_occurs_skip(text, pattern, pattern.len() as int, at);
                assert(occurs_at(text, pattern, pattern.len() + at));
            }
        }
        lemma_replaced_none(rest, pattern, with);
        assert(goal =~= with + rest);
    } else {
        assert(!occurs_at(text, pattern, 0));
        let rest = text.skip(1);
        assert forall|at: int| #[trigger] occurs_at(rest, pattern, at) <==> at == place - 1 by {
            if at >= 0 {
                lemma_occurs_skip(text, pattern, 1, at);
                assert(occurs_at(text, pattern, 1 + at) <==> 1 + at == place);
            }
        }
        lemma_replaced_once(rest, pattern, with, place - 1);
        assert(goal =~= seq![text[0]] + (rest.take(place - 1) + with + rest.skip(
            place - 1 + pattern.len(),
        )));
    }
}

// Escaping one character.

/// Whether the two texts have no character in common.
spec fn apart(a: Seq<char>, b: Seq<char>) -> bool {
    forall|i: int| 0 <= i < a.len() ==> lacks(b, #[trigger] a[i])
}

/// A start of the escaped text that has nothing of the escape was the start before.
proof fn lemma_start_was_there(text: Seq<char>, c: char, with: Seq<char>, start: Seq<char>)
    requires
        with.len() > 0,
        apart(start, with),
        occurs_at(replaced(text, seq![c], with), start, 0),
    ensures
        occurs_at(text, start, 0),
    decreases start.len(),
{
    let result = replaced(text, seq![c], with);
    if start.len() == 0 {
        assert(text.subrange(0, 0) =~= start);
    } else if text.len() > 0 {
        assert(result.subrange(0, start.len() as int)[0] == start[0]);
        assert(lacks(with, start[0]));
        if occurs_at(text, seq![c], 0) {
            assert(result[0] == with[0]);
            assert(false);
        }
        let rest = text.skip(1);
        let tail = replaced(rest, seq![c], with);
        let shorter = start.skip(1);
        assert(tail.subrange(0, shorter.len() as int) =~= shorter) by {
            assert forall|i: int| 0 <= i < shorter.len() implies #[trigger] tail[i]
                == shorter[i] by {
                assert(result.subrange(0, start.len() as int)[i + 1] == start[i + 1]);
            }
        }
        assert(apart(shorter, with)) by {
            assert forall|i: int| 0 <= i < shorter.len() implies lacks(
                with,
                #[trigger] shorter[i],
            ) by {
                assert(lacks(with, start[i + 1]));
            }
        }
        lemma_start_was_there(rest, c, with, shorter);
        assert(text.subrange(0, start.len() as int) =~= start) by {
            assert forall|i: int| 0 <= i < start.len() implies #[trigger] text[i] == start[i] by {
                if i > 0 {
                    assert(rest.subrange(0, shorter.len() as int)[i - 1] == shorter[i - 1]);
                }
            }
        }
    }
}

/// What has nothing of the escape and stands in the escaped text stood there before.
proof fn lemma_escape_adds_none(
    text: Seq<char>,
    c: char,
    with: Seq<char>,
    pattern: Seq<char>,
    at: int,
)
    requires
        with.len() > 0,
        pattern.len() > 0,
        apart(pattern, with),
        occurs_at(replaced(text, seq![c], with), pattern, at),
    ensures
        occurs_in(text, pattern),
    decreases text.len(),
{
    let result = replaced(text, seq![c], with);
    if at == 0 {
        lemma_start_was_there(text, c, with, pattern);
        assert(occurs_at(text, pattern, 0));
    } else if text.len() > 0 {
        let rest = text.skip(1);
        let tail = replaced(rest, seq![c], with);
        let found = result.subrange(at, at + pattern.len());
        let shift = if occurs_at(text, seq![c], 0) {
            with.len() as int
        } else {
            1
        };
        assert(result.skip(shift) =~= tail);
        if at < shift {
            assert(found[0] == with[at]);
            assert(lacks(with, pattern[0]));
        } else {
            lemma_occurs_skip(result, pattern, shift, at - shift);
            lemma_escape_adds_none(rest, c, with, pattern, at - shift);
            let k = choose|k: int| occurs_at(rest, pattern, k);
            lemma_occurs_skip(text, pattern, 1, k);
            assert(occurs_at(text, pattern, 1 + k));
        }
    }
}

/// Escaping adds no placeholder to a title.
proof fn lemma_safe_title_is_plain(title: Seq<char>)
    requires
        plain_title(title),
    ensures
        plain_title(safe_title(title)),
{
    reveal_strlit("<");
    reveal_strlit(">");
    reveal_strlit("&lt;");
    reveal_strlit("&gt;");
    reveal_strlit("\"CANVAS_THEME_PLACEHOLDER\"");
    reveal_strlit("// CANVAS_BODY_PLACEHOLDER");
    assert("<"@ =~= seq!['<']);
    assert(">"@ =~= seq!['>']);
    let opened = replaced(title, "<"@, "&lt;"@);
    let theme = "\"CANVAS_THEME_PLACEHOLDER\""@;
    let body = "// CANVAS_BODY_PLACEHOLDER"@;
    assert(apart(theme, "&lt;"@) && apart(theme, "&gt;"@));
    assert(apart(body, "&lt;"@) && apart(body, "&gt;"@));
    assert forall|at: int| !occurs_at(safe_title(title), theme, at) by {
        if occurs_at(safe_title(title), theme, at) {
            lemma_escape_adds_none(opened, '>', "&gt;"@, theme, at);
            let k = choose|k: int| occurs_at(opened, theme, k);
            lemma_escape_adds_none(title, '<', "&lt;"@, theme, k);
        }
    }
    assert forall|at: int| !occurs_at(safe_title(title), body, at) by {
        if occurs_at(safe_title(title), body, at) {
            lemma_escape_adds_none(opened, '>', "&gt;"@, body, at);
            let k = choose|k: int| occurs_at(opened, body, k);
            lemma_escape_adds_none(title, '<', "&lt;"@, body, k);
        }
    }
}

// Filling the placeholders in.

/// Behind the title, the theme's placeholder still stands at one place only.
proof fn lemma_theme_place(title: Seq<char>)
    requires
        !occurs_in(title, "\"CANVAS_THEME_PLACEHOLDER\""@),
    ensures
        forall|at: int|
            #[trigger] occurs_at(
                before_title() + title + CANVAS_SHELL@.skip(title_at() + 24),
                "\"CANVAS_THEME_PLACEHOLDER\""@,
                at,
            ) <==> at == theme_at() - 24 + title.len(),
{
    lemma_placeholders();
    reveal_strlit("\"CANVAS_THEME_PLACEHOLDER\"");
    let theme = "\"CANVAS_THEME_PLACEHOLDER\""@;
    let left = before_title();
    let right = CANVAS_SHELL@.skip(title_at() + 24);
    let text = left + title + right;
    let place = theme_at() - 24 + title.len();
    assert(text.skip((left.len() + title.len()) as int) =~= right);
    assert forall|at: int| #[trigger] occurs_at(text, theme, at) <==> at == place by {
        if occurs_at(text, theme, at) {
            lemma_confined(left, title, right, theme, at);
            if occurs_at(left, theme, at) {
                lemma_occurs_within(CANVAS_SHELL@, theme, 0, title_at(), at);
            } else if occurs_at(title, theme, at - left.len()) {
                assert(false);
            } else {
                lemma_occurs_skip(
                    CANVAS_SHELL@,
                    theme,
                    title_at() + 24,
                    at - left.len() - title.len(),
                );
            }
        }
        if at == place {
            assert(occurs_at(CANVAS_SHELL@, theme, theme_at()));
            lemma_occurs_skip(CANVAS_SHELL@, theme, title_at() + 24, theme_at() - title_at() - 24);
            lemma_occurs_skip(
                text,
                theme,
                (left.len() + title.len()) as int,
                theme_at() - title_at() - 24,
            );
        }
    }
}

/// Behind the title and the theme, the body's placeholder still stands at one place
/// only.
proof fn lemma_body_place(title: Seq<char>, theme: Seq<char>)
    requires
        !occurs_in(title, "// CANVAS_BODY_PLACEHOLDER"@),
        plain_theme(theme),
    ensures
        forall|at: int|
            #[trigger] occurs_at(
                before_title() + title + before_theme() + theme + CANVAS_SHELL@.skip(
                    theme_at() + 26,
                ),
                "// CANVAS_BODY_PLACEHOLDER"@,
                at,
            ) <==> at == body_at() - 50 + title.len() + theme.len(),
{
    lemma_placeholders();
    reveal_strlit("// CANVAS_BODY_PLACEHOLDER");
    let body = "// CANVAS_BODY_PLACEHOLDER"@;
    let between = before_theme().drop_last();
    let left = before_title() + title + between;
    let middle = seq![' '] + theme;
    let right = CANVAS_SHELL@.skip(theme_at() + 26);
    let text = before_title() + title + before_theme() + theme + right;
    let place = body_at() - 50 + title.len() + theme.len();
    assert(text =~= left + middle + right);
    assert(left.last() == '=');
    assert(between =~= CANVAS_SHELL@.subrange(title_at() + 24, theme_at() - 1));
    assert(text.skip((left.len() + middle.len()) as int) =~= right);
    assert forall|at: int| #[trigger] occurs_at(text, body, at) <==> at == place by {
        if occurs_at(text, body, at) {
            lemma_confined(left, middle, right, body, at);
            if occurs_at(left, body, at) {
                lemma_confined(before_title(), title, between, body, at);
                let second = title_at() + title.len();
                if occurs_at(before_title(), body, at) {
                    lemma_occurs_within(CANVAS_SHELL@, body, 0, title_at(), at);
                } else if occurs_at(title, body, at - title_at()) {
                    assert(false);
                } else {
                    lemma_occurs_within(
                        CANVAS_SHELL@,
                        body,
                        title_at() + 24,
                        theme_at() - 1,
                        at - second,
                    );
                }
                assert(false);
            } else if occurs_at(middle, body, at - left.len()) {
                let k = at - left.len();
                if k == 0 {
                    assert(middle.subrange(0, body.len() as int)[0] == body[0]);
                } else {
                    assert(middle.skip(1) =~= theme);
                    lemma_occurs_skip(middle, body, 1, k - 1);
                }
                assert(false);
            } else {
                lemma_occurs_skip(
                    CANVAS_SHELL@,
                    body,
                    theme_at() + 26,
                    at - left.len() - middle.len(),
                );
            }
        }
        if at == place {
            assert(occurs_at(CANVAS_SHELL@, body, body_at()));
            lemma_occurs_skip(CANVAS_SHELL@, body, theme_at() + 26, body_at() - theme_at() - 26);
            lemma_occurs_skip(
                text,
                body,
                (left.len() + middle.len()) as int,
                body_at() - theme_at() - 26,
            );
        }
    }
}

/// The page is the shell with the title, the theme and the body each at its own place,
/// made safe for that place.
pub proof fn law_page_is_filled_shell(title: Seq<char>, body: Seq<char>, theme: Seq<char>)
    requires
        plain_title(title),
        plain_theme(theme),
    ensures
        document(title, body, theme) == filled(safe_title(title), theme, safe_body(body)),
{
    lemma_placeholders();
    lemma_safe_title_is_plain(title);
    let shown = safe_title(title);
    let titled = before_title() + shown + CANVAS_SHELL@.skip(title_at() + 24);
    lemma_replaced_once(CANVAS_SHELL@, "CANVAS_TITLE_PLACEHOLDER"@, shown, title_at());

    lemma_theme_place(shown);
    let theme_place = theme_at() - 24 + shown.len();
    lemma_replaced_once(titled, "\"CANVAS_THEME_PLACEHOLDER\""@, theme, theme_place);
    let themed = before_title() + shown + before_theme() + theme + CANVAS_SHELL@.skip(
        theme_at() + 26,
    );
    assert(titled.take(theme_place) + theme + titled.skip(theme_place + 26) =~= themed);

    lemma_body_place(shown, theme);
    let body_place = body_at() - 50 + shown.len() + theme.len();
    lemma_replaced_once(themed, "// CANVAS_BODY_PLACEHOLDER"@, safe_body(body), body_place);
    assert(themed.take(body_place) + safe_body(body) + themed.skip(body_place + 26) =~= filled(
        shown,
        theme,
        safe_body(body),
    ));
}

// Counting.

/// Whether no occurrence of `pattern` lies across the border of the two texts.
spec fn parted(left: Seq<char>, right: Seq<char>, pattern: Seq<char>) -> bool {
    left.len() > 0 && right.len() > 0 ==> forall|k: int|
        0 <= k < pattern.len() - 1 ==> !(#[trigger] pattern[k] == left.last() && pattern[k + 1]
            == right[0])
}

proof fn lemma_count_parts(left: Seq<char>, right: Seq<char>, pattern: Seq<char>)
    requires
        pattern.len() > 0,
        parted(left, right, pattern),
    ensures
        count_of(left + right, pattern) == count_of(left, pattern) + count_of(right, pattern),
    decreases left.len(),
{
    let text = left + right;
    if left.len() == 0 {
        assert(text =~= right);
    } else {
        lemma_count_parts(left.skip(1), right, pattern);
        assert(text.skip(1) =~= left.skip(1) + right);
        assert(occurs_at(text, pattern, 0) <==> occurs_at(left, pattern, 0)) by {
            if pattern.len() <= left.len() {
                assert(text.subrange(0, pattern.len() as int) =~= left.subrange(
                    0,
                    pattern.len() as int,
                ));
            } else if occurs_at(text, pattern, 0) {
                let found = text.subrange(0, pattern.len() as int);
                let k = left.len() - 1;
                assert(found[k] == left.last() && found[k + 1] == right[0]);
                assert(pattern[k] == left.last());
            }
        }
    }
}

/// What does not occur is counted zero times.
proof fn lemma_count_none(text: Seq<char>, pattern: Seq<char>)
    requires
        !occurs_in(text, pattern),
    ensures
        count_of(text, pattern) == 0,
    decreases text.len(),
{
    if text.len() > 0 {
        assert(!occurs_at(text, pattern, 0));
        assert forall|at: int| !occurs_at(text.skip(1), pattern, at) by {
            if occurs_at(text.skip(1), pattern, at) {
                lemma_occurs_skip(text, pattern, 1, at);
                assert(occurs_at(text, pattern, 1 + at));
            }
        }
        lemma_count_none(text.skip(1), pattern);
    }
}

/// A text without `<` does not close a script element.
proof fn lemma_no_end_without_bracket(text: Seq<char>)
    requires
        lacks(text, '<'),
    ensures
        count_of(text, "</script>"@) == 0,
{
    reveal_strlit("</script>");
    assert forall|at: int| !occurs_at(text, "</script>"@, at) by {
        if occurs_at(text, "</script>"@, at) {
            assert(text.subrange(at, at + 9)[0] == '<');
            assert(text[at] == '<');
        }
    }
    lemma_count_none(text, "</script>"@);
}

/// Filled in with texts that close no script element, the shell has the closing tags of
/// its own parts.
proof fn lemma_count_filled(title: Seq<char>, theme: Seq<char>, body: Seq<char>)
    ensures
        count_of(filled(title, theme, body), "</script>"@) == count_of(
            before_title(),
            "</script>"@,
        ) + count_of(title, "</script>"@) + count_of(before_theme(), "</script>"@) + count_of(
            theme,
            "</script>"@,
        ) + count_of(before_body(), "</script>"@) + count_of(body, "</script>"@) + count_of(
            after_body(),
            "</script>"@,
        ),
{
    lemma_placeholders();
    reveal_strlit("</script>");
    let end = "</script>"@;
    let one = before_title() + title;
    let two = one + before_theme();
    let three = two + theme;
    let four = three + before_body();
    let five = four + body;
    lemma_count_parts(before_title(), title, end);
    lemma_count_parts(one, before_theme(), end);
    assert(two.last() == ' ');
    lemma_count_parts(two, theme, end);
    lemma_count_parts(three, before_body(), end);
    assert(four.last() == '\n');
    lemma_count_parts(four, body, end);
    lemma_count_parts(five, after_body(), end);
}

/// Nothing that is filled in closes a script element of the page: where the title and
/// the theme have no placeholder of their own and the theme no `<`, as those of
/// `canvas_theme_json`, the page closes as many script elements as the shell does.
pub proof fn law_page_closes_no_script_early(
    title: Seq<char>,
    body: Seq<char>,
    theme: Seq<char>,
)
    requires
        plain_title(title),
        plain_theme(theme),
        lacks(theme, '<'),
    ensures
        count_of(document(title, body, theme), "</script>"@) == count_of(
            CANVAS_SHELL@,
            "</script>"@,
        ),
{
    lemma_placeholders();
    reveal_strlit("CANVAS_TITLE_PLACEHOLDER");
    reveal_strlit("\"CANVAS_THEME_PLACEHOLDER\"");
    reveal_strlit("// CANVAS_BODY_PLACEHOLDER");
    law_page_is_filled_shell(title, body, theme);
    law_title_opens_no_element(title);
    law_body_stays_in_script(body);
    lemma_no_end_without_bracket(safe_title(title));
    lemma_no_end_without_bracket(theme);
    lemma_count_none(safe_body(body), "</script>"@);
    lemma_count_filled(safe_title(title), theme, safe_body(body));

    let (p, q, r) = (
        "CANVAS_TITLE_PLACEHOLDER"@,
        "\"CANVAS_THEME_PLACEHOLDER\""@,
        "// CANVAS_BODY_PLACEHOLDER"@,
    );
    assert(occurs_at(CANVAS_SHELL@, p, title_at()));
    assert(occurs_at(CANVAS_SHELL@, q, theme_at()));
    assert(occurs_at(CANVAS_SHELL@, r, body_at()));
    assert(filled(
        CANVAS_SHELL@.subrange(title_at(), title_at() + 24),
        CANVAS_SHELL@.subrange(theme_at(), theme_at() + 26),
        CANVAS_SHELL@.subrange(body_at(), body_at() + 26),
    ) =~= CANVAS_SHELL@);
    lemma_no_end_without_bracket(p);
    lemma_no_end_without_bracket(q);
    lemma_no_end_without_bracket(r);
    lemma_count_filled(p, q, r);
}

/// What is filled in stands in the page. Where the title and the theme have no
/// placeholder of their own, the page is the shell with the escaped title, the theme
/// and the body at the places of their placeholders, and a body that closes no script
/// element stands there character by character, on lines of its own.
pub proof fn law_page_shows_what_was_given(title: Seq<char>, body: Seq<char>, theme: Seq<char>)
    requires
        forall|k: int|
            0 <= k && k + 26 <= title.len() ==> #[trigger] title.subrange(k, k + 26)
                != "\"CANVAS_THEME_PLACEHOLDER\""@ && title.subrange(k, k + 26)
                != "// CANVAS_BODY_PLACEHOLDER"@,
        forall|k: int|
            0 <= k && k + 26 <= theme.len() ==> #[trigger] theme.subrange(k, k + 26)
                != "// CANVAS_BODY_PLACEHOLDER"@,
        forall|k: int|
            0 <= k && k + 9 <= body.len() ==> #[trigger] body.subrange(k, k + 9) != "</script>"@,
    ensures
        CANVAS_SHELL@.subrange(title_at(), title_at() + 24) == "CANVAS_TITLE_PLACEHOLDER"@,
        CANVAS_SHELL@.subrange(theme_at(), theme_at() + 26) == "\"CANVAS_THEME_PLACEHOLDER\""@,
        CANVAS_SHELL@.subrange(body_at(), body_at() + 26) == "// CANVAS_BODY_PLACEHOLDER"@,
        document(title, body, theme) == CANVAS_SHELL@.take(title_at()) + safe_title(title)
            + CANVAS_SHELL@.subrange(title_at() + 24, theme_at()) + theme + CANVAS_SHELL@.subrange(
            theme_at() + 26,
            body_at(),
        ) + body + CANVAS_SHELL@.skip(body_at() + 26),
        CANVAS_SHELL@[body_at() - 1] == '\n',
        CANVAS_SHELL@[body_at() + 26] == '\n',
        document(title, body, theme).subrange(
            body_at() - 50 + safe_title(title).len() + theme.len(),
            body_at() - 50 + safe_title(title).len() + theme.len() + body.len(),
        ) == body,
        document(title, body, theme)[body_at() - 51 + safe_title(title).len() + theme.len()]
            == '\n',
        document(title, body, theme)[body_at() - 50 + safe_title(title).len() + theme.len()
            + body.len()] == '\n',
{
    lemma_placeholders();
    reveal_strlit("CANVAS_TITLE_PLACEHOLDER");
    reveal_strlit("\"CANVAS_THEME_PLACEHOLDER\"");
    reveal_strlit("// CANVAS_BODY_PLACEHOLDER");
    assert(plain_title(title));
    assert(plain_theme(theme));
    law_page_is_filled_shell(title, body, theme);
    law_plain_body_is_kept(body);
    assert(occurs_at(CANVAS_SHELL@, "CANVAS_TITLE_PLACEHOLDER"@, title_at()));
    assert(occurs_at(CANVAS_SHELL@, "\"CANVAS_THEME_PLACEHOLDER\""@, theme_at()));
    assert(occurs_at(CANVAS_SHELL@, "// CANVAS_BODY_PLACEHOLDER"@, body_at()));
    let page = document(title, body, theme);
    let place = body_at() - 50 + safe_title(title).len() + theme.len();
    assert(page.subrange(place, place + body.len()) =~= body);
    assert(page[place - 1] == before_body().last());
    assert(page[place + body.len()] == after_body()[0]);
}

} // verus!
