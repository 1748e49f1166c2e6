//! Paths of files, compared by what they name rather than by how they are spelled.
use vstd::prelude::*;
use vstd::string::*;

use crate::text::{chars_of, same_text};

verus! {

/// What stands between the separators of a path, in order. There is one more of these
/// than there are separators, and each may be empty.
pub open spec fn segments(path: Seq<char>) -> Seq<Seq<char>>
    decreases path.len(),
{
    if path.len() == 0 {
        seq![Seq::empty()]
    } else {
        let before = segments(path.drop_last());
        if path.last() == '/' {
            before.push(Seq::empty())
        } else {
            before.drop_last().push(before.last().push(path.last()))
        }
    }
}

/// Whether a segment names something: an empty one comes from a repeated or trailing
/// separator, and `.` is where the path is already.
pub open spec fn is_name(segment: Seq<char>) -> bool {
    segment.len() > 0 && segment != seq!['.']
}

/// The names along a path, in order. `..` is one of them.
pub open spec fn names(path: Seq<char>) -> Seq<Seq<char>> {
    segments(path).filter(|segment: Seq<char>| is_name(segment))
}

/// A component of a path.
pub enum PathComponent {
    /// A prefix that some platforms have, such as a drive.
    Prefix(String),
    /// The root.
    RootDir,
    /// `.`, at the beginning of a path.
    CurDir,
    /// `..`, which is not resolved.
    ParentDir,
    /// A name.
    Normal(String),
}

/// What a component of a path holds.
#[verifier::ext_equal]
pub enum PathComponentView {
    Prefix(Seq<char>),
    RootDir,
    CurDir,
    ParentDir,
    Normal(Seq<char>),
}

impl View for PathComponent {
    type V = PathComponentView;

    open spec fn view(&self) -> PathComponentView {
        match self {
            PathComponent::Prefix(prefix) => PathComponentView::Prefix(prefix@),
            PathComponent::RootDir => PathComponentView::RootDir,
            PathComponent::CurDir => PathComponentView::CurDir,
            PathComponent::ParentDir => PathComponentView::ParentDir,
            PathComponent::Normal(name) => PathComponentView::Normal(name@),
        }
    }
}

/// A file by its path: how that is spelled, and its components by the rules of the
/// platform. Paths with the same components name the same file.
pub struct FilePath {
    pub text: String,
    pub components: Vec<PathComponent>,
}

/// What a path holds.
pub struct FilePathView {
    pub text: Seq<char>,
    pub components: Seq<PathComponentView>,
}

impl View for FilePath {
    type V = FilePathView;

    open spec fn view(&self) -> FilePathView {
        FilePathView { text: self.text@, components: components_view(self.components@) }
    }
}

/// What each component holds.
pub open spec fn components_view(components: Seq<PathComponent>) -> Seq<PathComponentView> {
    components.map_values(|component: PathComponent| component@)
}

/// What a path starts with, where `/` is the only separator: the root, where it begins
/// with a separator, or `.`, where that is its first segment.
pub open spec fn start(path: Seq<char>) -> Seq<PathComponentView> {
    if path.len() > 0 && path[0] == '/' {
        seq![PathComponentView::RootDir]
    } else if path.len() > 0 && path[0] == '.' && (path.len() == 1 || path[1] == '/') {
        seq![PathComponentView::CurDir]
    } else {
        Seq::empty()
    }
}

/// The component that a name is.
pub open spec fn named(name: Seq<char>) -> PathComponentView {
    if name == seq!['.', '.'] {
        PathComponentView::ParentDir
    } else {
        PathComponentView::Normal(name)
    }
}

/// The components of a path, where `/` is the only separator.
pub open spec fn components(path: Seq<char>) -> Seq<PathComponentView> {
    start(path) + names(path).map_values(|name: Seq<char>| named(name))
}

/// The contents of each name.
spec fn names_view(found: Seq<Vec<char>>) -> Seq<Seq<char>> {
    found.map_values(|name: Vec<char>| name@)
}

/// The names along a path.
fn path_names(path: &Vec<char>) -> (found: Vec<Vec<char>>)
    ensures
        names_view(found@) == names(path@),
{
    let mut found: Vec<Vec<char>> = Vec::new();
    let mut current: Vec<char> = Vec::new();
    let ghost mut closed: Seq<Seq<char>> = Seq::empty();
    let mut i: usize = 0;
    proof {
        reveal(Seq::filter);
        assert(path@.take(0) =~= Seq::<char>::empty());
        assert(closed.push(current@) =~= seq![Seq::<char>::empty()]);
        assert(names_view(found@) =~= closed.filter(|segment: Seq<char>| is_name(segment)));
    }
    while i < path.len()
        invariant
            i <= path@.len(),
            segments(path@.take(i as int)) == closed.push(current@),
            names_view(found@) == closed.filter(|segment: Seq<char>| is_name(segment)),
        decreases path@.len() - i,
    {
        let ghost before = path@.take(i as int);
        let c = path[i];
        proof {
            assert(path@.take(i + 1).drop_last() =~= before);
            assert(path@.take(i + 1).last() == c);
            assert(closed.push(current@).drop_last() =~= closed);
        }
        if c == '/' {
            let ghost ended = current@;
            close_name(&mut found, current, Ghost(closed));
            proof {
                closed = closed.push(ended);
            }
            current = Vec::new();
        } else {
            current.push(c);
        }
        i = i + 1;
    }
    assert(path@.take(i as int) =~= path@);
    close_name(&mut found, current, Ghost(closed));
    found
}

/// Takes in the next segment, where it is a name.
fn close_name(found: &mut Vec<Vec<char>>, segment: Vec<char>, Ghost(closed): Ghost<Seq<Seq<char>>>)
    requires
        names_view(old(found)@) == closed.filter(|segment: Seq<char>| is_name(segment)),
    ensures
        names_view(final(found)@) == closed.push(segment@).filter(
            |segment: Seq<char>| is_name(segment),
        ),
{
    proof {
        reveal(Seq::filter);
        assert(closed.push(segment@).drop_last() =~= closed);
    }
    if segment.len() == 0 {
        return ;
    }
    if segment.len() == 1 && segment[0] == '.' {
        assert(segment@ =~= seq!['.']);
        return ;
    }
    let ghost named = names_view(found@);
    let ghost name = segment@;
    assert(is_name(name)) by {
        if name == seq!['.'] {
            assert(name[0] == '.');
        }
    }
    found.push(segment);
    assert(names_view(found@) =~= named.push(name));
}

/// The text of a name.
fn name_text(name: &Vec<char>) -> (text: String)
    ensures
        text@ == name@,
{
    let mut text = String::new();
    let mut i: usize = 0;
    while i < name.len()
        invariant
            i <= name@.len(),
            text@ == name@.take(i as int),
        decreases name@.len() - i,
    {
        text.push(name[i]);
        i = i + 1;
    }
    assert(name@.take(i as int) =~= name@);
    text
}

/// The component that a name is.
fn name_component(name: &Vec<char>) -> (component: PathComponent)
    ensures
        component@ == named(name@),
{
    if name.len() == 2 && name[0] == '.' && name[1] == '.' {
        assert(name@ =~= seq!['.', '.']);
        PathComponent::ParentDir
    } else {
        assert(name@ != seq!['.', '.']) by {
            if name@ == seq!['.', '.'] {
                assert(name@[0] == '.' && name@[1] == '.');
            }
        }
        PathComponent::Normal(name_text(name))
    }
}

impl FilePath {
    /// The path that `text` spells on a platform where `/` is the only separator.
    /// Repeated and trailing separators make no difference to its components, nor does
    /// a `.` other than at the beginning; `..` is not resolved.
    pub fn new(text: String) -> (path: FilePath)
        ensures
            path.text == text,
            path@.components == components(text@),
    {
        let chars = chars_of(text.as_str());
        let mut found: Vec<PathComponent> = Vec::new();
        if chars.len() > 0 && chars[0] == '/' {
            found.push(PathComponent::RootDir);
        } else if chars.len() > 0 && chars[0] == '.' && (chars.len() == 1 || chars[1] == '/') {
            found.push(PathComponent::CurDir);
        }
        assert(components_view(found@) =~= start(text@));
        let along = path_names(&chars);
        let ghost wanted = names(text@).map_values(|name: Seq<char>| named(name));
        let mut i: usize = 0;
        while i < along.len()
            invariant
                i <= along@.len(),
                names_view(along@) == names(text@),
                wanted == names(text@).map_values(|name: Seq<char>| named(name)),
                components_view(found@) == start(text@) + wanted.take(i as int),
            decreases along@.len() - i,
        {
            let ghost before = components_view(found@);
            assert(along@[i as int]@ == names_view(along@)[i as int]);
            found.push(name_component(&along[i]));
            assert(components_view(found@) =~= before.push(wanted[i as int]));
            assert(wanted.take(i + 1) =~= wanted.take(i as int).push(wanted[i as int]));
            i = i + 1;
        }
        assert(wanted.take(i as int) =~= wanted);
        FilePath { text, components: found }
    }

    /// Whether the two paths name the same file.
    pub fn same_file(&self, other: &FilePath) -> (same: bool)
        ensures
            same == (self@.components == other@.components),
    {
        if self.components.len() != other.components.len() {
            assert(self@.components.len() != other@.components.len());
            return false;
        }
        let mut i: usize = 0;
        while i < self.components.len()
            invariant
                i <= self.components@.len(),
                self.components@.len() == other.components@.len(),
                forall|j: int|
                    0 <= j < i ==> (#[trigger] self.components@[j])@ == other.components@[j]@,
            decreases self.components@.len() - i,
        {
            if !same_component(&self.components[i], &other.components[i]) {
                assert(self@.components[i as int] != other@.components[i as int]);
                return false;
            }
            i = i + 1;
        }
        assert(self@.components =~= other@.components);
        true
    }
}

/// Whether two components are the same.
fn same_component(a: &PathComponent, b: &PathComponent) -> (same: bool)
    ensures
        same == (a@ == b@),
{
    match (a, b) {
        (PathComponent::Prefix(a), PathComponent::Prefix(b)) => same_text(a.as_str(), b.as_str()),
        (PathComponent::Normal(a), PathComponent::Normal(b)) => same_text(a.as_str(), b.as_str()),
        (PathComponent::RootDir, PathComponent::RootDir) => true,
        (PathComponent::CurDir, PathComponent::CurDir) => true,
        (PathComponent::ParentDir, PathComponent::ParentDir) => true,
        _ => false,
    }
}

/// The segments around a separator are those before it and those behind it.
proof fn lemma_segments_around(before: Seq<char>, behind: Seq<char>)
    ensures
        segments(before).len() > 0,
        segments(before.push('/') + behind) == segments(before) + segments(behind),
    decreases before.len(), behind.len(),
{
    let path = before.push('/') + behind;
    if behind.len() == 0 {
        assert(path.drop_last() =~= before);
        if before.len() > 0 {
            lemma_segments_around(before.drop_last(), behind);
        }
        assert(segments(path) =~= segments(before) + segments(behind));
    } else {
        lemma_segments_around(before, behind.drop_last());
        assert(path.drop_last() =~= before.push('/') + behind.drop_last());
        assert(segments(behind.drop_last()).len() > 0) by {
            lemma_segments_nonempty(behind.drop_last());
        }
        assert(segments(path) =~= segments(before) + segments(behind));
    }
}

proof fn lemma_segments_nonempty(path: Seq<char>)
    ensures
        segments(path).len() > 0,
    decreases path.len(),
{
    if path.len() > 0 {
        lemma_segments_nonempty(path.drop_last());
    }
}

/// The names around a separator are those before it and those behind it.
proof fn lemma_names_around(before: Seq<char>, behind: Seq<char>)
    ensures
        names(before.push('/') + behind) == names(before) + names(behind),
{
    lemma_segments_around(before, behind);
    Seq::filter_distributes_over_add(
        segments(before),
        segments(behind),
        |segment: Seq<char>| is_name(segment),
    );
}

/// A path that is one segment without a name has no names.
proof fn lemma_no_names(path: Seq<char>)
    requires
        segments(path) == seq![path],
        !is_name(path),
    ensures
        names(path) == Seq::<Seq<char>>::empty(),
{
    reveal(Seq::filter);
    let none = Seq::<Seq<char>>::empty();
    assert(segments(path).drop_last() =~= none);
    assert(none.filter(|segment: Seq<char>| is_name(segment)) =~= none);
}

/// How a path is spelled does not count: a repeated separator, a `.` between two
/// separators and a separator at the end name the same file.
pub proof fn law_spelling_does_not_count(before: Seq<char>, behind: Seq<char>)
    ensures
        components(before + seq!['/', '/'] + behind) == components(before + seq!['/'] + behind),
        components(before + seq!['/', '.', '/'] + behind) == components(
            before + seq!['/'] + behind,
        ),
        before.len() > 0 ==> components(before + seq!['/']) == components(before),
{
    let plain = before + seq!['/'] + behind;
    assert(plain =~= before.push('/') + behind);
    lemma_names_around(before, behind);

    let nothing = Seq::<char>::empty();
    lemma_no_names(nothing);
    let doubled = before + seq!['/', '/'] + behind;
    assert(doubled =~= before.push('/').push('/') + behind);
    lemma_names_around(before.push('/'), behind);
    assert(before.push('/') + nothing =~= before.push('/'));
    lemma_names_around(before, nothing);
    assert(names(before) + names(nothing) =~= names(before));

    let here = seq!['.'];
    assert(here.drop_last() =~= nothing);
    assert(nothing.push('.') =~= here);
    assert(segments(here) =~= seq![here]);
    lemma_no_names(here);
    let dotted = before + seq!['/', '.', '/'] + behind;
    assert(dotted =~= (before.push('/') + here).push('/') + behind);
    lemma_names_around(before.push('/') + here, behind);
    lemma_names_around(before, here);
    assert(names(before) + names(here) =~= names(before));

    assert(before + seq!['/'] =~= before.push('/'));
}

/// A path without separators is one segment.
proof fn lemma_one_segment(name: Seq<char>)
    requires
        forall|i: int| 0 <= i < name.len() ==> #[trigger] name[i] != '/',
    ensures
        segments(name) == seq![name],
    decreases name.len(),
{
    if name.len() > 0 {
        assert(name[name.len() - 1] != '/');
        assert forall|i: int| 0 <= i < name.drop_last().len() implies #[trigger] name.drop_last()[i]
            != '/' by {
            assert(name[i] != '/');
        }
        lemma_one_segment(name.drop_last());
        assert(name.drop_last().push(name.last()) =~= name);
        assert(segments(name) =~= seq![name]);
    } else {
        assert(name =~= Seq::<char>::empty());
    }
}

/// A name that is added to a path is one more component at its end: the parent directory
/// where it is `..`, and otherwise that very name. Alone it is the only component, and
/// behind a separator alone it stands below the root.
pub proof fn law_name_is_one_component(before: Seq<char>, name: Seq<char>)
    requires
        name.len() > 0,
        name != seq!['.'],
        forall|i: int| 0 <= i < name.len() ==> #[trigger] name[i] != '/',
    ensures
        before.len() > 0 ==> components(before + seq!['/'] + name) == components(before).push(
            if name == seq!['.', '.'] {
                PathComponentView::ParentDir
            } else {
                PathComponentView::Normal(name)
            },
        ),
        components(seq!['/'] + name) == seq![
            PathComponentView::RootDir,
            if name == seq!['.', '.'] {
                PathComponentView::ParentDir
            } else {
                PathComponentView::Normal(name)
            },
        ],
        components(name) == seq![
            if name == seq!['.', '.'] {
                PathComponentView::ParentDir
            } else {
                PathComponentView::Normal(name)
            },
        ],
{
    reveal(Seq::filter);
    lemma_one_segment(name);
    let nothing = Seq::<char>::empty();
    let none = Seq::<Seq<char>>::empty();
    assert(segments(name).drop_last() =~= none);
    assert(none.filter(|segment: Seq<char>| is_name(segment)) =~= none);
    assert(names(name) =~= seq![name]);
    let component = named(name);
    assert(name[0] != '/');
    assert(name.len() == 1 ==> name[0] != '.') by {
        if name.len() == 1 && name[0] == '.' {
            assert(name =~= seq!['.']);
        }
    }
    assert(name.len() > 1 ==> name[1] != '/');
    assert(start(name) =~= Seq::<PathComponentView>::empty());
    assert(components(name) =~= seq![component]);

    let rooted = seq!['/'] + name;
    lemma_no_names_in_nothing();
    lemma_names_around(nothing, name);
    assert(nothing.push('/') + name =~= rooted);
    assert(names(rooted) =~= seq![name]);
    assert(components(rooted) =~= seq![PathComponentView::RootDir, component]);

    if before.len() > 0 {
        let path = before + seq!['/'] + name;
        lemma_names_around(before, name);
        assert(before.push('/') + name =~= path);
        assert(names(path) =~= names(before).push(name));
        assert(start(path) == start(before));
        assert(components(path) =~= components(before).push(component));
    }
}

proof fn lemma_no_names_in_nothing()
    ensures
        names(Seq::<char>::empty()) == Seq::<Seq<char>>::empty(),
{
    let nothing = Seq::<char>::empty();
    assert(segments(nothing) =~= seq![nothing]);
    lemma_no_names(nothing);
}

/// No path has no components, a separator alone is the root, and `.` alone is where the
/// path is.
pub proof fn law_paths_without_names()
    ensures
        components(Seq::<char>::empty()) == Seq::<PathComponentView>::empty(),
        components(seq!['/']) == seq![PathComponentView::RootDir],
        components(seq!['.']) == seq![PathComponentView::CurDir],
{
    let nothing = Seq::<char>::empty();
    lemma_no_names_in_nothing();
    assert(components(nothing) =~= Seq::<PathComponentView>::empty());
    lemma_names_around(nothing, nothing);
    assert(nothing.push('/') + nothing =~= seq!['/']);
    assert(names(seq!['/']) =~= Seq::<Seq<char>>::empty());
    assert(components(seq!['/']) =~= seq![PathComponentView::RootDir]);
    let here = seq!['.'];
    assert forall|i: int| 0 <= i < here.len() implies #[trigger] here[i] != '/' by {}
    lemma_one_segment(here);
    lemma_no_names(here);
    assert(components(here) =~= seq![PathComponentView::CurDir]);
}

/// Files of different names in a directory are different files.
pub proof fn law_names_tell_files_apart(before: Seq<char>, a: Seq<char>, b: Seq<char>)
    requires
        before.len() > 0,
        a.len() > 0,
        a != seq!['.'],
        forall|i: int| 0 <= i < a.len() ==> #[trigger] a[i] != '/',
        b.len() > 0,
        b != seq!['.'],
        forall|i: int| 0 <= i < b.len() ==> #[trigger] b[i] != '/',
    ensures
        components(before + seq!['/'] + a) == components(before + seq!['/'] + b) <==> a == b,
{
    law_name_is_one_component(before, a);
    law_name_is_one_component(before, b);
    let (one, two) = (components(before + seq!['/'] + a), components(before + seq!['/'] + b));
    assert(one.last() == two.last() ==> a == b);
}

/// A path holds its text and its components, one for one.
pub proof fn law_path_is_seen(path: FilePath)
    ensures
        path@.text == path.text@,
        path@.components.len() == path.components@.len(),
        forall|i: int|
            0 <= i < path.components@.len() ==> #[trigger] path@.components[i]
                == match path.components@[i] {
                PathComponent::Prefix(prefix) => PathComponentView::Prefix(prefix@),
                PathComponent::RootDir => PathComponentView::RootDir,
                PathComponent::CurDir => PathComponentView::CurDir,
                PathComponent::ParentDir => PathComponentView::ParentDir,
                PathComponent::Normal(name) => PathComponentView::Normal(name@),
            },
{
}

} // verus!
