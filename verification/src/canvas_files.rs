//! Canvas files: how a title names its file, what a new file holds, and what
//! the directory around it is set up with.
use vstd::prelude::*;
use vstd::string::*;

use crate::text::{chars_of, joined, law_joined_parts};

verus! {

/// Whether `c` is an ASCII letter or digit, the characters a slug keeps.
pub open spec fn is_word_char(c: char) -> bool {
    ('a' <= c && c <= 'z') || ('A' <= c && c <= 'Z') || ('0' <= c && c <= '9')
}

/// `c` with an ASCII capital made small.
pub open spec fn lowered(c: char) -> char {
    if 'A' <= c && c <= 'Z' {
        ((c as int) + 32) as char
    } else {
        c
    }
}

/// The maximal runs of ASCII letters and digits in `title`, in order and in
/// lower case.
pub open spec fn words(title: Seq<char>) -> Seq<Seq<char>>
    decreases title.len(),
{
    if title.len() == 0 {
        Seq::empty()
    } else {
        let before = words(title.drop_last());
        let c = title.last();
        if !is_word_char(c) {
            before
        } else if title.len() > 1 && is_word_char(title[title.len() - 2]) {
            before.update(before.len() - 1, before.last().push(lowered(c)))
        } else {
            before.push(seq![lowered(c)])
        }
    }
}

/// The slug of a title: its words with a dash between neighbours, or `canvas`
/// where it has none.
pub open spec fn slug(title: Seq<char>) -> Seq<char> {
    if words(title).len() == 0 {
        "canvas"@
    } else {
        joined(words(title), seq!['-'])
    }
}

/// The name of the file that a canvas with this title lives in.
pub open spec fn file_name(title: Seq<char>) -> Seq<char> {
    slug(title) + ".canvas.tsx"@
}

/// Whether `c` may stand in a slug.
pub open spec fn is_slug_char(c: char) -> bool {
    ('a' <= c && c <= 'z') || ('0' <= c && c <= '9') || c == '-'
}

/// Whether `w` is a non-empty run of lower-case letters and digits.
pub open spec fn is_word(w: Seq<char>) -> bool {
    w.len() > 0 && forall|i: int| 0 <= i < w.len() ==> is_slug_char(#[trigger] w[i]) && w[i] != '-'
}

proof fn lemma_words_nonempty_after_word_char(title: Seq<char>)
    requires
        title.len() > 0,
        is_word_char(title.last()),
    ensures
        words(title).len() > 0,
    decreases title.len(),
{
    if title.len() > 1 && is_word_char(title[title.len() - 2]) {
        lemma_words_nonempty_after_word_char(title.drop_last());
    }
}

proof fn lemma_words_are_words(title: Seq<char>)
    ensures
        forall|i: int| 0 <= i < words(title).len() ==> is_word(#[trigger] words(title)[i]),
    decreases title.len(),
{
    if title.len() > 0 {
        lemma_words_are_words(title.drop_last());
        let before = words(title.drop_last());
        if is_word_char(title.last()) && title.len() > 1 && is_word_char(title[title.len() - 2]) {
            lemma_words_nonempty_after_word_char(title.drop_last());
            assert(is_word(before[before.len() - 1]));
        }
    }
}

/// Growing the last part by one character grows the joined text by it.
proof fn lemma_joined_grow_last(parts: Seq<Seq<char>>, separator: Seq<char>, c: char)
    requires
        parts.len() > 0,
    ensures
        joined(parts.update(parts.len() - 1, parts.last().push(c)), separator) == joined(
            parts,
            separator,
        ).push(c),
{
    let grown = parts.update(parts.len() - 1, parts.last().push(c));
    assert(grown.drop_last() =~= parts.drop_last());
    if parts.len() > 1 {
        assert(joined(grown, separator) =~= joined(parts, separator).push(c));
    }
}

/// Adding a part adds the separator, where there was a part before, and the part.
proof fn lemma_joined_push(parts: Seq<Seq<char>>, separator: Seq<char>, part: Seq<char>)
    ensures
        joined(parts.push(part), separator) == if parts.len() == 0 {
            part
        } else {
            joined(parts, separator) + separator + part
        },
{
    assert(parts.push(part).drop_last() =~= parts);
}

fn word_char(c: char) -> (is_word: bool)
    ensures
        is_word == is_word_char(c),
{
    ('a' <= c && c <= 'z') || ('A' <= c && c <= 'Z') || ('0' <= c && c <= '9')
}

fn lower(c: char) -> (small: char)
    ensures
        small == lowered(c),
{
    if 'A' <= c && c <= 'Z' {
        let code: u8 = c as u8;
        (code + 32u8) as char
    } else {
        c
    }
}

/// The slug of `title`: its runs of ASCII letters and digits in lower case, with
/// one dash between neighbours, or `canvas` where there is none.
pub fn slugify(title: &str) -> (result: String)
    ensures
        result@ == slug(title@),
{
    let chars = chars_of(title);
    let mut result = String::new();
    let mut empty = true;
    let mut in_word = false;
    let mut i: usize = 0;
    while i < chars.len()
        invariant
            i <= chars@.len(),
            chars@ == title@,
            in_word == (i > 0 && is_word_char(chars@[i - 1])),
            empty == (words(chars@.take(i as int)).len() == 0),
            result@ == joined(words(chars@.take(i as int)), seq!['-']),
        decreases chars@.len() - i,
    {
        let c = chars[i];
        let ghost before = chars@.take(i as int);
        let ghost after = chars@.take(i + 1);
        proof {
            assert(after.drop_last() =~= before);
            assert(after.last() == c);
        }
        if word_char(c) {
            if in_word {
                proof {
                    assert(after[after.len() - 2] == chars@[i - 1]);
                    assert(before.last() == chars@[i - 1]);
                    lemma_words_nonempty_after_word_char(before);
                    lemma_joined_grow_last(words(before), seq!['-'], lowered(c));
                }
                result.push(lower(c));
            } else {
                proof {
                    if i > 0 {
                        assert(after[after.len() - 2] == chars@[i - 1]);
                    }
                    lemma_joined_push(words(before), seq!['-'], seq![lowered(c)]);
                }
                let ghost start = result@;
                if !empty {
                    result.push('-');
                }
                result.push(lower(c));
                proof {
                    if words(before).len() == 0 {
                        assert(result@ =~= seq![lowered(c)]);
                    } else {
                        assert(result@ =~= start + seq!['-'] + seq![lowered(c)]);
                    }
                }
                empty = false;
            }
            in_word = true;
        } else {
            in_word = false;
        }
        i = i + 1;
    }
    assert(chars@.take(i as int) =~= title@);
    if empty {
        "canvas".to_owned()
    } else {
        result
    }
}

/// The name of the file that the canvas `title` lives in.
pub fn canvas_file_name(title: &str) -> (name: String)
    ensures
        name@ == file_name(title@),
{
    let mut name = slugify(title);
    name.append(".canvas.tsx");
    name
}

/// What a heading made of `title` shows: the title without braces.
pub open spec fn heading_of(title: Seq<char>) -> Seq<char> {
    title.filter(|c: char| c != '{' && c != '}')
}

/// The source of a starter canvas.
pub open spec fn starter(title: Seq<char>) -> Seq<char> {
    "function Canvas() {\n  return (\n    <Page>\n      <h1>"@ + heading_of(title)
        + "</h1>\n      <p>Edit this file to build the canvas.</p>\n    </Page>\n  );\n}\n"@
}

/// The title without braces.
fn heading(title: &str) -> (result: String)
    ensures
        result@ == heading_of(title@),
{
    let chars = chars_of(title);
    let mut result = String::new();
    let mut i: usize = 0;
    assert(chars@.take(0) =~= Seq::<char>::empty());
    assert(heading_of(chars@.take(0)) =~= Seq::<char>::empty()) by {
        reveal(Seq::filter);
    }
    while i < chars.len()
        invariant
            i <= chars@.len(),
            chars@ == title@,
            result@ == heading_of(chars@.take(i as int)),
        decreases chars@.len() - i,
    {
        let c = chars[i];
        proof {
            reveal(Seq::filter);
            assert(chars@.take(i + 1).drop_last() =~= chars@.take(i as int));
            assert(chars@.take(i + 1).last() == c);
        }
        if c != '{' && c != '}' {
            result.push(c);
        }
        i = i + 1;
    }
    assert(chars@.take(i as int) =~= title@);
    result
}

/// A minimal canvas for a title that has no file yet.
pub fn starter_canvas(title: &str) -> (source: String)
    ensures
        source@ == starter(title@),
{
    let mut source = "function Canvas() {\n  return (\n    <Page>\n      <h1>".to_owned();
    let heading = heading(title);
    source.append(heading.as_str());
    source.append(
        "</h1>\n      <p>Edit this file to build the canvas.</p>\n    </Page>\n  );\n}\n",
    );
    source
}

/// Whether `c` has the Unicode property White_Space.
pub open spec fn is_white_space(c: char) -> bool {
    let code = c as int;
    ||| 0x9 <= code <= 0xd
    ||| code == 0x20
    ||| code == 0x85
    ||| code == 0xa0
    ||| code == 0x1680
    ||| 0x2000 <= code <= 0x200a
    ||| code == 0x2028
    ||| code == 0x2029
    ||| code == 0x202f
    ||| code == 0x205f
    ||| code == 0x3000
}

/// Whether nothing is left of `text` once white space is trimmed from its ends.
pub open spec fn blank(text: Seq<char>) -> bool {
    forall|i: int| 0 <= i < text.len() ==> is_white_space(#[trigger] text[i])
}

fn white_space(c: char) -> (white: bool)
    ensures
        white == is_white_space(c),
{
    let code: u32 = c as u32;
    (0x9u32 <= code && code <= 0xdu32) || code == 0x20u32 || code == 0x85u32 || code == 0xa0u32
        || code == 0x1680u32 || (0x2000u32 <= code && code <= 0x200au32) || code == 0x2028u32
        || code == 0x2029u32 || code == 0x202fu32 || code == 0x205fu32 || code == 0x3000u32
}

/// Whether `text` holds nothing but white space.
pub fn is_blank(text: &str) -> (result: bool)
    ensures
        result == blank(text@),
{
    let chars = chars_of(text);
    let mut i: usize = 0;
    while i < chars.len()
        invariant
            i <= chars@.len(),
            chars@ == text@,
            forall|j: int| 0 <= j < i ==> is_white_space(#[trigger] chars@[j]),
        decreases chars@.len() - i,
    {
        if !white_space(chars[i]) {
            return false;
        }
        i = i + 1;
    }
    true
}

// Laws of slugs.

proof fn lemma_joined_words_shape(parts: Seq<Seq<char>>)
    requires
        parts.len() > 0,
        forall|i: int| 0 <= i < parts.len() ==> is_word(#[trigger] parts[i]),
    ensures
        has_slug_shape(joined(parts, seq!['-'])),
    decreases parts.len(),
{
    assert(is_word(parts.last()));
    if parts.len() == 1 {
        assert(is_word(parts[0]));
    } else {
        lemma_joined_words_shape(parts.drop_last());
    }
}

/// Whether `s` is made of lower-case letters, digits and dashes, is not empty,
/// neither starts nor ends with a dash, and has no two dashes in a row.
pub open spec fn has_slug_shape(s: Seq<char>) -> bool {
    &&& s.len() > 0
    &&& forall|i: int| 0 <= i < s.len() ==> is_slug_char(#[trigger] s[i])
    &&& s[0] != '-'
    &&& s.last() != '-'
    &&& forall|i: int, j: int|
        0 <= i && j == i + 1 && j < s.len() ==> #[trigger] s[i] != '-' || #[trigger] s[j] != '-'
}

/// Every title has a slug that is not empty and holds only lower-case letters,
/// digits and single dashes between them.
pub proof fn law_slug_shape(title: Seq<char>)
    ensures
        has_slug_shape(slug(title)),
{
    lemma_words_are_words(title);
    if words(title).len() > 0 {
        lemma_joined_words_shape(words(title));
    } else {
        reveal_strlit("canvas");
    }
}

/// The words of a text that ends in a word of its own are the words before it
/// and that word.
proof fn lemma_words_append_word(before: Seq<char>, w: Seq<char>)
    requires
        is_word(w),
        before.len() == 0 || !is_word_char(before.last()),
    ensures
        words(before + w) == words(before).push(w),
    decreases w.len(),
{
    let whole = before + w;
    assert(whole.last() == w.last());
    assert(is_slug_char(w[w.len() - 1]) && w[w.len() - 1] != '-');
    assert(lowered(w.last()) == w.last());
    if w.len() == 1 {
        assert(whole.drop_last() =~= before);
        assert(w =~= seq![w.last()]);
        if whole.len() > 1 {
            assert(whole[whole.len() - 2] == before.last());
        }
    } else {
        let v = w.drop_last();
        assert(is_word(v)) by {
            assert forall|i: int| 0 <= i < v.len() implies is_slug_char(#[trigger] v[i]) && v[i]
                != '-' by {
                assert(is_slug_char(w[i]) && w[i] != '-');
            }
        }
        lemma_words_append_word(before, v);
        assert(whole.drop_last() =~= before + v);
        assert(whole[whole.len() - 2] == w[w.len() - 2]);
        assert(is_slug_char(w[w.len() - 2]) && w[w.len() - 2] != '-');
        let earlier = words(before).push(v);
        assert(v.push(w.last()) =~= w);
        assert(earlier.update(earlier.len() - 1, v.push(w.last())) =~= words(before).push(w));
    }
}

proof fn lemma_words_of_joined(parts: Seq<Seq<char>>)
    requires
        forall|i: int| 0 <= i < parts.len() ==> is_word(#[trigger] parts[i]),
    ensures
        words(joined(parts, seq!['-'])) == parts,
    decreases parts.len(),
{
    if parts.len() == 1 {
        assert(is_word(parts[0]));
        lemma_words_append_word(Seq::empty(), parts[0]);
        assert(Seq::<char>::empty() + parts[0] =~= parts[0]);
        assert(words(Seq::<char>::empty()).push(parts[0]) =~= parts);
    } else if parts.len() > 1 {
        let earlier = parts.drop_last();
        lemma_words_of_joined(earlier);
        let before = joined(earlier, seq!['-']) + seq!['-'];
        assert(before.drop_last() =~= joined(earlier, seq!['-']));
        assert(before.last() == '-');
        assert(words(before) == earlier);
        assert(is_word(parts.last()));
        lemma_words_append_word(before, parts.last());
        assert(earlier.push(parts.last()) =~= parts);
    }
}

/// A slug is its own slug, so a canvas can be reopened by its slug.
pub proof fn law_slug_idempotent(title: Seq<char>)
    ensures
        slug(slug(title)) == slug(title),
{
    lemma_words_are_words(title);
    if words(title).len() > 0 {
        lemma_words_of_joined(words(title));
    } else {
        reveal_strlit("canvas");
        let only = seq!["canvas"@];
        assert(is_word(only[0]));
        assert(joined(only, seq!['-']) == "canvas"@);
        lemma_words_of_joined(only);
    }
}

proof fn lemma_words_ignore_suffix(title: Seq<char>, suffix: Seq<char>)
    requires
        forall|i: int| 0 <= i < suffix.len() ==> !is_word_char(#[trigger] suffix[i]),
    ensures
        words(title + suffix) == words(title),
    decreases suffix.len(),
{
    if suffix.len() == 0 {
        assert(title + suffix =~= title);
    } else {
        assert(!is_word_char(suffix[suffix.len() - 1]));
        lemma_words_ignore_suffix(title, suffix.drop_last());
        assert((title + suffix).drop_last() =~= title + suffix.drop_last());
    }
}

proof fn lemma_words_ignore_prefix(prefix: Seq<char>, title: Seq<char>)
    requires
        forall|i: int| 0 <= i < prefix.len() ==> !is_word_char(#[trigger] prefix[i]),
    ensures
        words(prefix + title) == words(title),
    decreases title.len(),
{
    if title.len() == 0 {
        assert(prefix + title =~= Seq::<char>::empty() + prefix);
        lemma_words_ignore_suffix(Seq::empty(), prefix);
    } else {
        let whole = prefix + title;
        lemma_words_ignore_prefix(prefix, title.drop_last());
        assert(whole.drop_last() =~= prefix + title.drop_last());
        if whole.len() > 1 {
            if title.len() > 1 {
                assert(whole[whole.len() - 2] == title[title.len() - 2]);
            } else {
                assert(whole[whole.len() - 2] == prefix[prefix.len() - 1]);
            }
        }
    }
}

/// White space and punctuation around a title change nothing: the padded title
/// names the same file.
pub proof fn law_slug_ignores_padding(prefix: Seq<char>, title: Seq<char>, suffix: Seq<char>)
    requires
        forall|i: int| 0 <= i < prefix.len() ==> !is_word_char(#[trigger] prefix[i]),
        forall|i: int| 0 <= i < suffix.len() ==> !is_word_char(#[trigger] suffix[i]),
    ensures
        slug(prefix + title + suffix) == slug(title),
{
    lemma_words_ignore_suffix(prefix + title, suffix);
    lemma_words_ignore_prefix(prefix, title);
}

/// A canvas file name holds no path separator, so the file lies in the canvas
/// directory itself, and two titles share a file exactly when they share a slug.
pub proof fn law_file_name_is_one_component(title: Seq<char>, other: Seq<char>)
    ensures
        forall|i: int|
            0 <= i < file_name(title).len() ==> #[trigger] file_name(title)[i] != '/' && file_name(
                title,
            )[i] != '\\',
        file_name(title)[0] != '.',
        file_name(title) == file_name(other) <==> slug(title) == slug(other),
{
    law_slug_shape(title);
    reveal_strlit(".canvas.tsx");
    assert forall|i: int| 0 <= i < file_name(title).len() implies #[trigger] file_name(title)[i]
        != '/' && file_name(title)[i] != '\\' by {
        if i < slug(title).len() {
            assert(is_slug_char(slug(title)[i]));
        }
    }
    assert(is_slug_char(slug(title)[0]));
    if file_name(title) == file_name(other) {
        let end = ".canvas.tsx"@.len();
        assert(slug(title) =~= file_name(title).take(file_name(title).len() - end));
        assert(slug(other) =~= file_name(other).take(file_name(other).len() - end));
    }
}

/// The heading of a starter canvas holds no brace, so a title cannot open an
/// expression in the source.
pub proof fn law_heading_has_no_brace(title: Seq<char>)
    ensures
        forall|i: int|
            0 <= i < heading_of(title).len() ==> #[trigger] heading_of(title)[i] != '{'
                && heading_of(title)[i] != '}',
    decreases title.len(),
{
    reveal(Seq::filter);
    if title.len() > 0 {
        law_heading_has_no_brace(title.drop_last());
    }
}

/// The directory of the canvases, as path components below the home directory. It lies
/// outside any repository.
pub fn canvases_dir() -> (components: Vec<&'static str>)
    ensures
        components@.len() == 2,
        components@[0]@ == ".agents"@,
        components@[1]@ == "canvases"@,
{
    let mut components: Vec<&'static str> = Vec::new();
    components.push(".agents");
    components.push("canvases");
    components
}

/// `tsconfig.json`, with which the TypeScript language server checks canvas files
/// without anything installed.
pub const TSCONFIG_JSON: &'static str = r##"{
  "compilerOptions": {
    "target": "ES2020",
    "lib": ["ES2020", "DOM", "DOM.Iterable"],
    "jsx": "react",
    "module": "ESNext",
    "moduleResolution": "Bundler",
    "noEmit": true,
    "allowJs": true,
    "checkJs": false,
    "strict": false,
    "skipLibCheck": true,
    "types": []
  },
  "include": ["*.tsx", "*.d.ts"]
}
"##;

/// `.zed/settings.json`, which switches the eslint language server off for canvas
/// files: it starts by itself for `.tsx` files, but no ESLint is installed there.
/// `"..."` keeps the other default servers.
pub const CANVAS_ZED_SETTINGS: &'static str = r##"{
  "languages": {
    "TSX": { "language_servers": ["!eslint", "..."] },
    "TypeScript": { "language_servers": ["!eslint", "..."] }
  }
}
"##;

/// Ambient declarations for the canvas SDK, written to `canvas.d.ts`. They give canvas
/// files completion and type errors for the global components.
pub const CANVAS_DTS: &'static str = r##"// Generated by Zed's canvas feature. Declares the globals available to
// .canvas.tsx files — do not import anything; these are all global.

export {};

declare global {
  const React: {
    createElement(type: any, props?: any, ...children: any[]): any;
    Fragment: any;
    useState<S>(initial: S | (() => S)): [S, (value: S | ((prev: S) => S)) => void];
    useEffect(effect: () => void | (() => void), deps?: any[]): void;
    useMemo<T>(factory: () => T, deps?: any[]): T;
    useRef<T>(initial: T): { current: T };
  };

  namespace JSX {
    interface IntrinsicElements {
      [elem: string]: any;
    }
    type Element = any;
  }

  interface HostTheme {
    kind: "light" | "dark";
    name: string | null;
    colors: {
      background: string;
      surface: string;
      panel: string;
      element: string;
      border: string;
      text: string;
      textMuted: string;
      accent: string;
      error: string;
      warning: string;
      success: string;
      info: string;
      [key: string]: string;
    };
  }
  function useHostTheme(): HostTheme;
  function cn(...args: any[]): string;

  // Layout / typography helpers.
  function Page(props: any): JSX.Element;
  function Stack(props: any): JSX.Element;
  function Row(props: any): JSX.Element;
  function Grid(props: any): JSX.Element;

  // shadcn/ui components (props are loosely typed for authoring convenience).
  const Button: any;
  const Card: any;
  const CardHeader: any;
  const CardFooter: any;
  const CardTitle: any;
  const CardDescription: any;
  const CardContent: any;
  const Badge: any;
  const Table: any;
  const TableHeader: any;
  const TableBody: any;
  const TableFooter: any;
  const TableHead: any;
  const TableRow: any;
  const TableCell: any;
  const TableCaption: any;
  const Alert: any;
  const AlertTitle: any;
  const AlertDescription: any;
  const Separator: any;
  const Tabs: any;
  const TabsList: any;
  const TabsTrigger: any;
  const TabsContent: any;

  // Recharts (also available under the `Recharts` namespace).
  const Recharts: any;
  const ResponsiveContainer: any;
  const BarChart: any;
  const Bar: any;
  const LineChart: any;
  const Line: any;
  const AreaChart: any;
  const Area: any;
  const PieChart: any;
  const Pie: any;
  const Cell: any;
  const XAxis: any;
  const YAxis: any;
  const CartesianGrid: any;
  const Tooltip: any;
  const Legend: any;

  // lucide icons (also available under the `Icons` namespace).
  const Icons: any;
  const Activity: any;
  const AlertCircle: any;
  const AlertTriangle: any;
  const ArrowDownRight: any;
  const ArrowUpRight: any;
  const Check: any;
  const CheckCircle2: any;
  const ChevronRight: any;
  const CircleDot: any;
  const Info: any;
  const Minus: any;
  const Plus: any;
  const TrendingDown: any;
  const TrendingUp: any;
  const X: any;
  const XCircle: any;
}
"##;

/// What is set up in the directory of the canvases, in order, so that the language
/// server can check canvas files.
#[derive(Clone, Copy, Debug, PartialEq, Eq, Structural)]
pub enum ScaffoldStep {
    /// Create the directory itself.
    CreateDir,
    /// Write `tsconfig.json`, where there is none.
    WriteTsconfig,
    /// Write `canvas.d.ts`. It is always written anew to stay in line with the SDK.
    WriteTypes,
    /// Create the directory `.zed`.
    CreateSettingsDir,
    /// Write `.zed/settings.json`, where there is none.
    WriteSettings,
    /// Nothing is left to do.
    Done,
}

/// The step after `step`. A directory that cannot be created ends the setup; a file
/// that cannot be written does not.
pub open spec fn scaffold_after(step: ScaffoldStep, succeeded: bool) -> ScaffoldStep {
    match step {
        ScaffoldStep::CreateDir => if succeeded {
            ScaffoldStep::WriteTsconfig
        } else {
            ScaffoldStep::Done
        },
        ScaffoldStep::WriteTsconfig => ScaffoldStep::WriteTypes,
        ScaffoldStep::WriteTypes => ScaffoldStep::CreateSettingsDir,
        ScaffoldStep::CreateSettingsDir => if succeeded {
            ScaffoldStep::WriteSettings
        } else {
            ScaffoldStep::Done
        },
        ScaffoldStep::WriteSettings => ScaffoldStep::Done,
        ScaffoldStep::Done => ScaffoldStep::Done,
    }
}

/// What is said of a step that failed, where `path` is what it was to create or write.
pub open spec fn scaffold_complaint(
    step: ScaffoldStep,
    path: Seq<char>,
    error: Seq<char>,
) -> Seq<char> {
    match step {
        ScaffoldStep::CreateDir | ScaffoldStep::CreateSettingsDir => "canvas: failed to create "@
            + path + ": "@ + error,
        ScaffoldStep::WriteTsconfig => "canvas: failed to write tsconfig.json: "@ + error,
        ScaffoldStep::WriteTypes => "canvas: failed to write canvas.d.ts: "@ + error,
        ScaffoldStep::WriteSettings => "canvas: failed to write .zed/settings.json: "@ + error,
        ScaffoldStep::Done => Seq::empty(),
    }
}

impl ScaffoldStep {
    /// What the step creates or writes, as path components below the directory of the
    /// canvases.
    pub fn target(self) -> (components: Vec<&'static str>)
        ensures
            match self {
                ScaffoldStep::CreateDir | ScaffoldStep::Done => components@.len() == 0,
                ScaffoldStep::WriteTsconfig => components@.len() == 1 && components@[0]@
                    == "tsconfig.json"@,
                ScaffoldStep::WriteTypes => components@.len() == 1 && components@[0]@
                    == "canvas.d.ts"@,
                ScaffoldStep::CreateSettingsDir => components@.len() == 1 && components@[0]@
                    == ".zed"@,
                ScaffoldStep::WriteSettings => components@.len() == 2 && components@[0]@ == ".zed"@
                    && components@[1]@ == "settings.json"@,
            },
    {
        let mut components: Vec<&'static str> = Vec::new();
        match self {
            ScaffoldStep::CreateDir | ScaffoldStep::Done => {},
            ScaffoldStep::WriteTsconfig => {
                components.push("tsconfig.json");
            },
            ScaffoldStep::WriteTypes => {
                components.push("canvas.d.ts");
            },
            ScaffoldStep::CreateSettingsDir => {
                components.push(".zed");
            },
            ScaffoldStep::WriteSettings => {
                components.push(".zed");
                components.push("settings.json");
            },
        }
        components
    }

    /// What the step writes. A step that creates a directory writes nothing.
    pub fn content(self) -> (content: Option<&'static str>)
        ensures
            match self {
                ScaffoldStep::WriteTsconfig => content == Some(TSCONFIG_JSON),
                ScaffoldStep::WriteTypes => content == Some(CANVAS_DTS),
                ScaffoldStep::WriteSettings => content == Some(CANVAS_ZED_SETTINGS),
                _ => content is None,
            },
    {
        match self {
            ScaffoldStep::WriteTsconfig => Some(TSCONFIG_JSON),
            ScaffoldStep::WriteTypes => Some(CANVAS_DTS),
            ScaffoldStep::WriteSettings => Some(CANVAS_ZED_SETTINGS),
            _ => None,
        }
    }

    /// Whether the step has something to do, given whether its target exists. What the
    /// user may have edited is left alone.
    pub fn is_needed(self, exists: bool) -> (needed: bool)
        ensures
            needed == match self {
                ScaffoldStep::WriteTsconfig | ScaffoldStep::WriteSettings => !exists,
                ScaffoldStep::Done => false,
                _ => true,
            },
    {
        match self {
            ScaffoldStep::WriteTsconfig | ScaffoldStep::WriteSettings => !exists,
            ScaffoldStep::Done => false,
            _ => true,
        }
    }

    /// The step that follows, given whether this one succeeded.
    pub fn next(self, succeeded: bool) -> (next: ScaffoldStep)
        ensures
            next == scaffold_after(self, succeeded),
    {
        match self {
            ScaffoldStep::CreateDir => if succeeded {
                ScaffoldStep::WriteTsconfig
            } else {
                ScaffoldStep::Done
            },
            ScaffoldStep::WriteTsconfig => ScaffoldStep::WriteTypes,
            ScaffoldStep::WriteTypes => ScaffoldStep::CreateSettingsDir,
            ScaffoldStep::CreateSettingsDir => if succeeded {
                ScaffoldStep::WriteSettings
            } else {
                ScaffoldStep::Done
            },
            ScaffoldStep::WriteSettings | ScaffoldStep::Done => ScaffoldStep::Done,
        }
    }

    /// What to log of the step when it failed.
    pub fn complaint(self, path: &str, error: &str) -> (complaint: String)
        ensures
            complaint@ == scaffold_complaint(self, path@, error@),
    {
        let mut complaint = match self {
            ScaffoldStep::CreateDir | ScaffoldStep::CreateSettingsDir => {
                let mut start = "canvas: failed to create ".to_owned();
                start.append(path);
                start.append(": ");
                start
            },
            ScaffoldStep::WriteTsconfig => "canvas: failed to write tsconfig.json: ".to_owned(),
            ScaffoldStep::WriteTypes => "canvas: failed to write canvas.d.ts: ".to_owned(),
            ScaffoldStep::WriteSettings => {
                "canvas: failed to write .zed/settings.json: ".to_owned()
            },
            ScaffoldStep::Done => return String::new(),
        };
        complaint.append(error);
        complaint
    }
}

/// The first step of setting up the directory of the canvases.
pub fn scaffold_canvas_project() -> (step: ScaffoldStep)
    ensures
        step == ScaffoldStep::CreateDir,
{
    ScaffoldStep::CreateDir
}

/// The step reached after these outcomes, one for each step.
pub open spec fn scaffold_run(step: ScaffoldStep, outcomes: Seq<bool>) -> ScaffoldStep
    decreases outcomes.len(),
{
    if outcomes.len() == 0 {
        step
    } else {
        scaffold_run(scaffold_after(step, outcomes[0]), outcomes.skip(1))
    }
}

/// The setup is over after five steps, whatever fails, and a file that cannot be
/// written keeps none of the later ones from being written.
pub proof fn law_scaffold_ends(outcomes: Seq<bool>)
    requires
        outcomes.len() == 5,
    ensures
        scaffold_run(ScaffoldStep::CreateDir, outcomes) == ScaffoldStep::Done,
        outcomes[0] ==> scaffold_run(ScaffoldStep::CreateDir, outcomes.take(2))
            == ScaffoldStep::WriteTypes,
        outcomes[0] && outcomes[3] ==> scaffold_run(ScaffoldStep::CreateDir, outcomes.take(4))
            == ScaffoldStep::WriteSettings,
{
    reveal_with_fuel(scaffold_run, 6);
}

// What a slug keeps and where its dashes stand.

/// Words one after another, without dashes.
spec fn run_together(parts: Seq<Seq<char>>) -> Seq<char>
    decreases parts.len(),
{
    if parts.len() == 0 {
        Seq::empty()
    } else {
        run_together(parts.drop_last()) + parts.last()
    }
}

proof fn lemma_filter_keeps_all(text: Seq<char>, keep: spec_fn(char) -> bool)
    requires
        forall|i: int| 0 <= i < text.len() ==> keep(#[trigger] text[i]),
    ensures
        text.filter(keep) == text,
    decreases text.len(),
{
    reveal(Seq::filter);
    if text.len() > 0 {
        assert(keep(text[text.len() - 1]));
        assert forall|i: int| 0 <= i < text.drop_last().len() implies keep(
            #[trigger] text.drop_last()[i],
        ) by {
            assert(keep(text[i]));
        }
        lemma_filter_keeps_all(text.drop_last(), keep);
        assert(text.drop_last().push(text.last()) =~= text);
    }
}

proof fn lemma_joined_without_dashes(parts: Seq<Seq<char>>)
    requires
        forall|i: int| 0 <= i < parts.len() ==> is_word(#[trigger] parts[i]),
    ensures
        joined(parts, seq!['-']).filter(|c: char| c != '-') == run_together(parts),
    decreases parts.len(),
{
    let keep = |c: char| c != '-';
    reveal(Seq::filter);
    if parts.len() > 0 {
        let last = parts.last();
        assert(is_word(parts[parts.len() - 1]));
        assert forall|i: int| 0 <= i < last.len() implies keep(#[trigger] last[i]) by {}
        lemma_filter_keeps_all(last, keep);
        if parts.len() == 1 {
            assert(parts.drop_last() =~= Seq::<Seq<char>>::empty());
            assert(run_together(parts.drop_last()) + last =~= last);
        } else {
            let earlier = joined(parts.drop_last(), seq!['-']);
            lemma_joined_without_dashes(parts.drop_last());
            Seq::filter_distributes_over_add(earlier + seq!['-'], last, keep);
            Seq::filter_distributes_over_add(earlier, seq!['-'], keep);
            assert(seq!['-'].drop_last() =~= Seq::<char>::empty());
            assert(Seq::<char>::empty().filter(keep) =~= Seq::<char>::empty());
            assert(seq!['-'].filter(keep) =~= Seq::<char>::empty());
            assert(earlier.filter(keep) + Seq::<char>::empty() =~= earlier.filter(keep));
        }
    } else {
        assert(joined(parts, seq!['-']).filter(keep) =~= Seq::<char>::empty());
    }
}

proof fn lemma_words_run_together(title: Seq<char>)
    ensures
        run_together(words(title)) == title.filter(|c: char| is_word_char(c)).map_values(
            |c: char| lowered(c),
        ),
    decreases title.len(),
{
    let keep = |c: char| is_word_char(c);
    let small = |c: char| lowered(c);
    reveal(Seq::filter);
    if title.len() == 0 {
        assert(title.filter(keep).map_values(small) =~= Seq::<char>::empty());
    } else {
        let before = title.drop_last();
        lemma_words_run_together(before);
        let c = title.last();
        if is_word_char(c) {
            assert(title.filter(keep).map_values(small) =~= before.filter(keep).map_values(
                small,
            ).push(lowered(c)));
            let parts = words(before);
            if title.len() > 1 && is_word_char(title[title.len() - 2]) {
                lemma_words_nonempty_after_word_char(before);
                assert(words(title).drop_last() =~= parts.drop_last());
                assert(run_together(words(title)) =~= run_together(parts).push(lowered(c)));
            } else {
                assert(words(title).drop_last() =~= parts);
                assert(run_together(words(title)) =~= run_together(parts).push(lowered(c)));
            }
        }
    }
}

proof fn lemma_words_exist(title: Seq<char>, at: int)
    requires
        0 <= at < title.len(),
        is_word_char(title[at]),
    ensures
        words(title).len() > 0,
    decreases title.len(),
{
    if at < title.len() - 1 {
        lemma_words_exist(title.drop_last(), at);
    } else {
        lemma_words_nonempty_after_word_char(title);
    }
}

/// A slug keeps every ASCII letter and digit of the title: without its dashes it is
/// exactly these, in order and in lower case.
pub proof fn law_slug_keeps_letters(title: Seq<char>, at: int)
    requires
        0 <= at < title.len(),
        ('a' <= title[at] && title[at] <= 'z') || ('A' <= title[at] && title[at] <= 'Z') || ('0'
            <= title[at] && title[at] <= '9'),
    ensures
        slug(title).filter(|c: char| c != '-') == title.filter(
            |c: char|
                ('a' <= c && c <= 'z') || ('A' <= c && c <= 'Z') || ('0' <= c && c <= '9'),
        ).map_values(
            |c: char|
                if 'A' <= c && c <= 'Z' {
                    ((c as int) + 32) as char
                } else {
                    c
                },
        ),
{
    lemma_words_exist(title, at);
    lemma_words_are_words(title);
    lemma_joined_without_dashes(words(title));
    lemma_words_run_together(title);
    assert((|c: char| is_word_char(c)) =~= (|c: char|
        ('a' <= c && c <= 'z') || ('A' <= c && c <= 'Z') || ('0' <= c && c <= '9')));
    assert((|c: char| lowered(c)) =~= (|c: char|
        if 'A' <= c && c <= 'Z' {
            ((c as int) + 32) as char
        } else {
            c
        }));
}

/// A title without an ASCII letter or digit is called `canvas`.
pub proof fn law_slug_without_letters(title: Seq<char>)
    requires
        forall|i: int|
            0 <= i < title.len() ==> !(('a' <= #[trigger] title[i] && title[i] <= 'z') || ('A'
                <= title[i] && title[i] <= 'Z') || ('0' <= title[i] && title[i] <= '9')),
    ensures
        slug(title) == "canvas"@,
{
    assert forall|i: int| 0 <= i < title.len() implies !is_word_char(#[trigger] title[i]) by {}
    lemma_words_ignore_suffix(Seq::empty(), title);
    assert(Seq::<char>::empty() + title =~= title);
}

/// The words around a character that is neither letter nor digit are those before it
/// and those behind it.
proof fn lemma_words_around(before: Seq<char>, gap: char, behind: Seq<char>)
    requires
        !is_word_char(gap),
    ensures
        words(before.push(gap) + behind) == words(before) + words(behind),
    decreases behind.len(),
{
    let whole = before.push(gap) + behind;
    if behind.len() == 0 {
        assert(whole.drop_last() =~= before);
        assert(words(before) + words(behind) =~= words(before));
    } else {
        lemma_words_around(before, gap, behind.drop_last());
        assert(whole.drop_last() =~= before.push(gap) + behind.drop_last());
        let c = behind.last();
        let earlier = words(behind.drop_last());
        if is_word_char(c) {
            if behind.len() > 1 {
                assert(whole[whole.len() - 2] == behind[behind.len() - 2]);
                if is_word_char(behind[behind.len() - 2]) {
                    lemma_words_nonempty_after_word_char(behind.drop_last());
                }
            } else {
                assert(whole[whole.len() - 2] == gap);
            }
            assert(words(whole) =~= words(before) + words(behind));
        }
    }
}

/// Where a title has anything between two letters or digits that is neither, its slug
/// has one dash, and the two sides are treated alike.
pub proof fn law_slug_separates(before: Seq<char>, gap: char, behind: Seq<char>, i: int, j: int)
    requires
        !(('a' <= gap && gap <= 'z') || ('A' <= gap && gap <= 'Z') || ('0' <= gap && gap <= '9')),
        0 <= i < before.len(),
        ('a' <= before[i] && before[i] <= 'z') || ('A' <= before[i] && before[i] <= 'Z') || ('0'
            <= before[i] && before[i] <= '9'),
        0 <= j < behind.len(),
        ('a' <= behind[j] && behind[j] <= 'z') || ('A' <= behind[j] && behind[j] <= 'Z') || ('0'
            <= behind[j] && behind[j] <= '9'),
    ensures
        slug(before.push(gap) + behind) == slug(before) + seq!['-'] + slug(behind),
{
    lemma_words_exist(before, i);
    lemma_words_exist(behind, j);
    lemma_words_around(before, gap, behind);
    law_joined_parts(words(before), words(behind), seq!['-']);
}

/// A title of letters and digits alone has no dash: its slug is the title in lower case.
pub proof fn law_slug_of_word(word: Seq<char>)
    requires
        word.len() > 0,
        forall|i: int|
            0 <= i < word.len() ==> (('a' <= #[trigger] word[i] && word[i] <= 'z') || ('A'
                <= word[i] && word[i] <= 'Z') || ('0' <= word[i] && word[i] <= '9')),
    ensures
        slug(word).len() == word.len(),
        forall|i: int|
            0 <= i < word.len() ==> #[trigger] slug(word)[i] == if 'A' <= word[i] && word[i]
                <= 'Z' {
                ((word[i] as int) + 32) as char
            } else {
                word[i]
            },
    decreases word.len(),
{
    let before = word.drop_last();
    if word.len() == 1 {
        assert(words(before) =~= Seq::<Seq<char>>::empty());
        assert(words(word) =~= seq![seq![lowered(word[0])]]);
        law_joined_parts(words(word), words(word), seq!['-']);
    } else {
        assert forall|i: int| 0 <= i < before.len() implies (('a' <= #[trigger] before[i]
            && before[i] <= 'z') || ('A' <= before[i] && before[i] <= 'Z') || ('0' <= before[i]
            && before[i] <= '9')) by {
            assert(before[i] == word[i]);
        }
        law_slug_of_word(before);
        lemma_words_nonempty_after_word_char(before);
        lemma_joined_grow_last(words(before), seq!['-'], lowered(word.last()));
        assert(slug(word) == slug(before).push(lowered(word.last())));
    }
}

/// The file of a title is called as its slug is.
pub proof fn law_file_name_starts_with_slug(title: Seq<char>)
    ensures
        file_name(title).len() == slug(title).len() + 11,
        file_name(title).take(slug(title).len() as int) == slug(title),
        file_name(title).skip(slug(title).len() as int) == ".canvas.tsx"@,
{
    reveal_strlit(".canvas.tsx");
}

/// A heading keeps all but the braces of a title, character by character.
pub proof fn law_heading_by_character(before: Seq<char>, c: char)
    ensures
        heading_of(Seq::<char>::empty()) == Seq::<char>::empty(),
        heading_of(before.push(c)) == if c == '{' || c == '}' {
            heading_of(before)
        } else {
            heading_of(before).push(c)
        },
{
    reveal(Seq::filter);
    assert(before.push(c).drop_last() =~= before);
}

/// A starter canvas is the same for every title but for its heading.
pub proof fn law_starter_shows_heading(title: Seq<char>)
    ensures
        starter(title) == starter(Seq::empty()).take(52) + heading_of(title) + starter(
            Seq::empty(),
        ).skip(52),
{
    reveal_strlit("function Canvas() {\n  return (\n    <Page>\n      <h1>");
    law_heading_by_character(Seq::empty(), '{');
    let bare = starter(Seq::empty());
    assert(starter(title) =~= bare.take(52) + heading_of(title) + bare.skip(52));
}

/// A text is blank exactly when both of its parts are.
pub proof fn law_blank_parts(a: Seq<char>, b: Seq<char>)
    ensures
        blank(Seq::<char>::empty()),
        blank(a + b) <==> blank(a) && blank(b),
{
    if blank(a + b) {
        assert forall|i: int| 0 <= i < a.len() implies is_white_space(#[trigger] a[i]) by {
            assert(is_white_space((a + b)[i]));
        }
        assert forall|i: int| 0 <= i < b.len() implies is_white_space(#[trigger] b[i]) by {
            assert(is_white_space((a + b)[a.len() + i]));
        }
    }
}

/// A complaint about a step ends in what went wrong, and one about a directory names it.
pub proof fn law_complaint_tells_error(step: ScaffoldStep, path: Seq<char>, error: Seq<char>)
    requires
        step != ScaffoldStep::Done,
    ensures
        scaffold_complaint(step, path, error).len() >= error.len(),
        scaffold_complaint(step, path, error).skip(
            scaffold_complaint(step, path, error).len() - error.len(),
        ) == error,
        step == ScaffoldStep::CreateDir || step == ScaffoldStep::CreateSettingsDir
            ==> scaffold_complaint(step, path, error).subrange(25, 25int + path.len()) == path,
{
    reveal_strlit("canvas: failed to create ");
    let complaint = scaffold_complaint(step, path, error);
    assert(complaint.skip(complaint.len() - error.len()) =~= error);
}

/// A complaint about a file names it, and one about a directory says that it could not
/// be created.
pub proof fn law_complaint_names_step(path: Seq<char>, error: Seq<char>)
    ensures
        scaffold_complaint(ScaffoldStep::CreateDir, path, error).take(25)
            == "canvas: failed to create "@,
        scaffold_complaint(ScaffoldStep::CreateDir, path, error) == scaffold_complaint(
            ScaffoldStep::CreateSettingsDir,
            path,
            error,
        ),
        scaffold_complaint(ScaffoldStep::WriteTsconfig, path, error).take(39)
            == "canvas: failed to write tsconfig.json: "@,
        scaffold_complaint(ScaffoldStep::WriteTypes, path, error).take(37)
            == "canvas: failed to write canvas.d.ts: "@,
        scaffold_complaint(ScaffoldStep::WriteSettings, path, error).take(44)
            == "canvas: failed to write .zed/settings.json: "@,
{
    reveal_strlit("canvas: failed to create ");
    assert(scaffold_complaint(ScaffoldStep::CreateDir, path, error).take(25)
        =~= "canvas: failed to create "@);
    reveal_strlit("canvas: failed to write tsconfig.json: ");
    assert(scaffold_complaint(ScaffoldStep::WriteTsconfig, path, error).take(39)
        =~= "canvas: failed to write tsconfig.json: "@);
    reveal_strlit("canvas: failed to write canvas.d.ts: ");
    assert(scaffold_complaint(ScaffoldStep::WriteTypes, path, error).take(37)
        =~= "canvas: failed to write canvas.d.ts: "@);
    reveal_strlit("canvas: failed to write .zed/settings.json: ");
    assert(scaffold_complaint(ScaffoldStep::WriteSettings, path, error).take(44)
        =~= "canvas: failed to write .zed/settings.json: "@);
}

/// Only a directory that cannot be created ends the scaffold early; a file that cannot
/// be written does not. Where the directories can be created, every step is taken, once
/// and in order, however the writes turn out.
pub proof fn law_scaffold_takes_every_step(a: bool, b: bool, c: bool)
    ensures
        scaffold_after(ScaffoldStep::CreateDir, true) == ScaffoldStep::WriteTsconfig,
        scaffold_after(ScaffoldStep::WriteTsconfig, a) == ScaffoldStep::WriteTypes,
        scaffold_after(ScaffoldStep::WriteTypes, b) == ScaffoldStep::CreateSettingsDir,
        scaffold_after(ScaffoldStep::CreateSettingsDir, true) == ScaffoldStep::WriteSettings,
        scaffold_after(ScaffoldStep::WriteSettings, c) == ScaffoldStep::Done,
        scaffold_after(ScaffoldStep::CreateDir, false) == ScaffoldStep::Done,
        scaffold_after(ScaffoldStep::CreateSettingsDir, false) == ScaffoldStep::Done,
        scaffold_after(ScaffoldStep::Done, a) == ScaffoldStep::Done,
{
}

/// One character is blank exactly when it is white space, as Unicode has it: tabs, line
/// breaks and spaces of every width.
pub proof fn law_blank_character(c: char)
    ensures
        blank(seq![c]) <==> {
            let code = c as int;
            ||| 0x9 <= code <= 0xd
            ||| code == 0x20 || code == 0x85 || code == 0xa0 || code == 0x1680
            ||| 0x2000 <= code <= 0x200a
            ||| code == 0x2028 || code == 0x2029 || code == 0x202f || code == 0x205f
            ||| code == 0x3000
        },
{
    let one = seq![c];
    if blank(one) {
        assert(is_white_space(one[0]));
    }
}

} // verus!
