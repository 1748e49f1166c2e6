//! Text as sequences of characters: replacing, joining and writing numbers.
use vstd::prelude::*;
use vstd::string::*;

verus! {

/// `String::push` appends one character to the end of the string.
pub assume_specification[ String::push ](text: &mut String, c: char)
    ensures
        final(text)@ == old(text)@.push(c),
;

/// Whether `pattern` stands in `text` from position `at` on.
pub open spec fn occurs_at(text: Seq<char>, pattern: Seq<char>, at: int) -> bool {
    0 <= at && at + pattern.len() <= text.len() && text.subrange(at, at + pattern.len())
        == pattern
}

/// Whether `pattern` stands anywhere in `text`.
pub open spec fn occurs_in(text: Seq<char>, pattern: Seq<char>) -> bool {
    exists|at: int| occurs_at(text, pattern, at)
}

/// `text` with every occurrence of `pattern`, taken from the left and without
/// overlap, replaced by `with`.
pub open spec fn replaced(text: Seq<char>, pattern: Seq<char>, with: Seq<char>) -> Seq<char>
    decreases text.len(),
{
    if pattern.len() == 0 || text.len() < pattern.len() {
        text
    } else if occurs_at(text, pattern, 0) {
        with + replaced(text.skip(pattern.len() as int), pattern, with)
    } else {
        seq![text[0]] + replaced(text.skip(1), pattern, with)
    }
}

/// The parts one after another with `separator` between neighbours.
pub open spec fn joined(parts: Seq<Seq<char>>, separator: Seq<char>) -> Seq<char>
    decreases parts.len(),
{
    if parts.len() == 0 {
        Seq::empty()
    } else if parts.len() == 1 {
        parts[0]
    } else {
        joined(parts.drop_last(), separator) + separator + parts.last()
    }
}

/// The character that stands for the digit `d`.
pub open spec fn digit_char(d: int) -> char {
    (('0' as int) + d) as char
}

/// `n` in decimal notation, without leading zeros.
pub open spec fn decimal(n: nat) -> Seq<char>
    decreases n,
{
    if n < 10 {
        seq![digit_char(n as int)]
    } else {
        decimal(n / 10).push(digit_char((n % 10) as int))
    }
}

/// The contents of each string.
pub open spec fn texts(parts: Seq<String>) -> Seq<Seq<char>> {
    parts.map_values(|part: String| part@)
}

/// The content of an optional string.
pub open spec fn optional_text(text: Option<String>) -> Option<Seq<char>> {
    match text {
        Some(inner) => Some(inner@),
        None => None,
    }
}

/// The characters of `text`.
pub fn chars_of(text: &str) -> (chars: Vec<char>)
    ensures
        chars@ == text@,
{
    let mut chars: Vec<char> = Vec::new();
    for c in it: text.chars()
        invariant
            it.seq() == text@,
            chars@ == it.seq().take(it.index() as int),
    {
        chars.push(c);
    }
    chars
}

/// Whether `pattern` stands in `text` from position `at` on.
pub fn has_at(text: &Vec<char>, pattern: &Vec<char>, at: usize) -> (found: bool)
    requires
        at <= text@.len(),
    ensures
        found == occurs_at(text@, pattern@, at as int),
{
    if text.len() - at < pattern.len() {
        return false;
    }
    let mut i: usize = 0;
    while i < pattern.len()
        invariant
            i <= pattern@.len(),
            at + pattern@.len() <= text.len(),
            forall|j: int| 0 <= j < i ==> text@[at + j] == pattern@[j],
        decreases pattern@.len() - i,
    {
        if text[at + i] != pattern[i] {
            assert(text@.subrange(at as int, at + pattern@.len())[i as int] != pattern@[i as int]);
            return false;
        }
        i = i + 1;
    }
    assert(text@.subrange(at as int, at + pattern@.len()) =~= pattern@);
    true
}

/// Replaces every occurrence of `pattern` in `text` by `with`.
pub fn replace(text: &str, pattern: &str, with: &str) -> (result: String)
    requires
        pattern@.len() > 0,
    ensures
        result@ == replaced(text@, pattern@, with@),
{
    let source = chars_of(text);
    let wanted = chars_of(pattern);
    let mut result = String::new();
    let mut i: usize = 0;
    assert(source@.skip(0) =~= source@);
    while i < source.len()
        invariant
            i <= source@.len(),
            source@ == text@,
            wanted@ == pattern@,
            pattern@.len() > 0,
            result@ + replaced(source@.skip(i as int), pattern@, with@) == replaced(
                text@,
                pattern@,
                with@,
            ),
        decreases source@.len() - i,
    {
        let ghost rest = source@.skip(i as int);
        let ghost before = result@;
        proof {
            assert(occurs_at(rest, pattern@, 0) <==> occurs_at(source@, pattern@, i as int)) by {
                if i + pattern@.len() <= source@.len() {
                    assert(rest.subrange(0, pattern@.len() as int) =~= source@.subrange(
                        i as int,
                        i + pattern@.len(),
                    ));
                }
            }
        }
        if has_at(&source, &wanted, i) {
            result.append(with);
            i = i + wanted.len();
            proof {
                assert(rest.skip(pattern@.len() as int) =~= source@.skip(i as int));
                let tail = replaced(source@.skip(i as int), pattern@, with@);
                assert(before + (with@ + tail) =~= result@ + tail);
            }
        } else {
            result.push(source[i]);
            i = i + 1;
            proof {
                assert(rest.skip(1) =~= source@.skip(i as int));
                let tail = replaced(source@.skip(i as int), pattern@, with@);
                if rest.len() < pattern@.len() {
                    lemma_replaced_short(source@.skip(i as int), pattern@, with@);
                    assert(before + rest =~= result@ + source@.skip(i as int));
                } else {
                    assert(before + (seq![rest[0]] + tail) =~= result@ + tail);
                }
            }
        }
    }
    proof {
        assert(source@.skip(i as int) =~= Seq::<char>::empty());
        lemma_replaced_short(source@.skip(i as int), pattern@, with@);
        assert(result@ + Seq::<char>::empty() =~= result@);
    }
    result
}

/// A text shorter than the pattern is left as it is.
proof fn lemma_replaced_short(text: Seq<char>, pattern: Seq<char>, with: Seq<char>)
    requires
        text.len() < pattern.len(),
    ensures
        replaced(text, pattern, with) == text,
{
}

/// The digit `d` as a character.
fn digit(d: u64) -> (c: char)
    requires
        d < 10,
    ensures
        c == digit_char(d as int),
{
    (48u8 + d as u8) as char
}

/// `n` in decimal notation.
pub fn decimal_text(n: u64) -> (text: String)
    ensures
        text@ == decimal(n as nat),
    decreases n,
{
    if n < 10 {
        let mut text = String::new();
        text.push(digit(n));
        assert(text@ =~= seq![digit_char(n as int)]);
        text
    } else {
        let mut text = decimal_text(n / 10);
        text.push(digit(n % 10));
        text
    }
}

/// The parts one after another with `separator` between neighbours.
pub fn join(parts: &Vec<String>, separator: &str) -> (text: String)
    ensures
        text@ == joined(texts(parts@), separator@),
{
    let mut text = String::new();
    let mut i: usize = 0;
    assert(texts(parts@).take(0) =~= Seq::<Seq<char>>::empty());
    while i < parts.len()
        invariant
            i <= parts@.len(),
            text@ == joined(texts(parts@).take(i as int), separator@),
        decreases parts@.len() - i,
    {
        if i > 0 {
            text.append(separator);
        }
        text.append(parts[i].as_str());
        proof {
            let grown = texts(parts@).take(i + 1);
            assert(grown.drop_last() =~= texts(parts@).take(i as int));
            assert(grown.last() == parts@[i as int]@);
            if i == 0 {
                assert(text@ =~= parts@[0]@);
            }
        }
        i = i + 1;
    }
    assert(texts(parts@).take(i as int) =~= texts(parts@));
    text
}

/// Whether the two texts are the same.
pub fn same_text(a: &str, b: &str) -> (same: bool)
    ensures
        same == (a@ == b@),
{
    a.to_owned() == b.to_owned()
}

/// The text that the `Debug` format of `str` gives: quoted, with what is special in
/// it escaped.
pub uninterp spec fn debug_text(text: Seq<char>) -> Seq<char>;

/// Formats `text` with the `Debug` format of `str`. The result depends on the text
/// alone; how characters are escaped is not stated.
#[verifier::external_body]
pub(crate) fn quoted(text: &str) -> (quoted: String)
    ensures
        quoted@ == debug_text(text@),
{
    format!("{:?}", text)
}

// Laws of texts.

/// A text in which the pattern does not stand is left as it is.
pub proof fn law_replaced_none(text: Seq<char>, pattern: Seq<char>, with: Seq<char>)
    requires
        forall|k: int|
            0 <= k && k + pattern.len() <= text.len() ==> #[trigger] text.subrange(
                k,
                k + pattern.len(),
            ) != pattern,
    ensures
        replaced(text, pattern, with) == text,
    decreases text.len(),
{
    if pattern.len() > 0 && text.len() >= pattern.len() {
        let rest = text.skip(1);
        assert(text.subrange(0, 0int + pattern.len()) != pattern);
        assert forall|k: int| 0 <= k && k + pattern.len() <= rest.len() implies
            #[trigger] rest.subrange(k, k + pattern.len()) != pattern by {
            assert(rest.subrange(k, k + pattern.len()) =~= text.subrange(
                k + 1,
                k + 1 + pattern.len(),
            ));
        }
        law_replaced_none(rest, pattern, with);
        assert(seq![text[0]] + rest =~= text);
    }
}

/// Up to the first place where the pattern stands a text is left as it is; there the
/// replacement stands instead, and the rest is treated alike.
pub proof fn law_replaced_first(text: Seq<char>, pattern: Seq<char>, with: Seq<char>, at: int)
    requires
        pattern.len() > 0,
        0 <= at,
        at + pattern.len() <= text.len(),
        text.subrange(at, at + pattern.len()) == pattern,
        forall|k: int|
            0 <= k < at ==> #[trigger] text.subrange(k, k + pattern.len()) != pattern,
    ensures
        replaced(text, pattern, with) == text.take(at) + with + replaced(
            text.skip(at + pattern.len()),
            pattern,
            with,
        ),
    decreases at,
{
    let tail = replaced(text.skip(at + pattern.len()), pattern, with);
    if at == 0 {
        assert(text.take(0) + with + tail =~= with + tail);
    } else {
        let rest = text.skip(1);
        assert(text.subrange(0, 0int + pattern.len()) != pattern);
        assert(rest.subrange(at - 1, at - 1 + pattern.len()) =~= pattern) by {
            assert(rest.subrange(at - 1, at - 1 + pattern.len()) =~= text.subrange(
                at,
                at + pattern.len(),
            ));
        }
        assert forall|k: int| 0 <= k < at - 1 implies #[trigger] rest.subrange(
            k,
            k + pattern.len(),
        ) != pattern by {
            assert(rest.subrange(k, k + pattern.len()) =~= text.subrange(
                k + 1,
                k + 1 + pattern.len(),
            ));
        }
        law_replaced_first(rest, pattern, with, at - 1);
        assert(rest.skip(at - 1 + pattern.len()) =~= text.skip(at + pattern.len()));
        assert(seq![text[0]] + (rest.take(at - 1) + with + tail) =~= text.take(at) + with + tail);
    }
}

/// Joining nothing gives nothing, joining one part gives that part, and of two lists of
/// parts the joined texts stand around one separator.
pub proof fn law_joined_parts(a: Seq<Seq<char>>, b: Seq<Seq<char>>, separator: Seq<char>)
    ensures
        a.len() == 0 ==> joined(a, separator) == Seq::<char>::empty(),
        a.len() == 1 ==> joined(a, separator) == a[0],
        a.len() > 0 && b.len() > 0 ==> joined(a + b, separator) == joined(a, separator) + separator
            + joined(b, separator),
    decreases b.len(),
{
    if a.len() > 0 && b.len() > 0 {
        assert((a + b).drop_last() =~= a + b.drop_last());
        if b.len() > 1 {
            law_joined_parts(a, b.drop_last(), separator);
            assert(joined(a + b, separator) =~= joined(a, separator) + separator + joined(
                b,
                separator,
            ));
        } else {
            assert(a + b.drop_last() =~= a);
        }
    }
}

/// A number below ten is written as its digit, and one more digit at the end of a number
/// is one more character at the end of its text.
pub proof fn law_decimal_digits(n: nat, d: nat)
    requires
        d < 10,
    ensures
        decimal(d) == seq![(48 + d) as char],
        n > 0 ==> decimal(10 * n + d) == decimal(n).push((48 + d) as char),
{
    if n > 0 {
        assert((10 * n + d) / 10 == n && (10 * n + d) % 10 == d);
    }
}

/// Different numbers are written differently.
pub proof fn law_decimal_tells_apart(m: nat, n: nat)
    requires
        decimal(m) == decimal(n),
    ensures
        m == n,
    decreases m,
{
    let (a, b) = (decimal(m), decimal(n));
    assert(a.last() == b.last());
    assert(a.last() == (48 + m % 10) as char);
    assert(b.last() == (48 + n % 10) as char);
    assert(((48 + m % 10) as char) as int == 48 + m % 10);
    assert(((48 + n % 10) as char) as int == 48 + n % 10);
    if m >= 10 {
        lemma_decimal_nonempty(m / 10);
        if n >= 10 {
            assert(a.drop_last() =~= decimal(m / 10));
            assert(b.drop_last() =~= decimal(n / 10));
            law_decimal_tells_apart(m / 10, n / 10);
        }
    } else if n >= 10 {
        lemma_decimal_nonempty(n / 10);
    }
}

proof fn lemma_decimal_nonempty(n: nat)
    ensures
        decimal(n).len() > 0,
{
}

/// The contents of strings, one for one.
pub proof fn law_texts_one_for_one(parts: Seq<String>)
    ensures
        texts(parts).len() == parts.len(),
        forall|i: int| 0 <= i < parts.len() ==> #[trigger] texts(parts)[i] == parts[i]@,
{
}

} // verus!
