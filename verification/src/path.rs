//! Unix paths as text: components, joining, parents and containment.
use vstd::prelude::*;

use crate::text::{cat2, cat3, has_suffix, join_texts, precedes, text_eq};
#[allow(unused_imports)]
use crate::text::{
    ends_with, joined, text_less, text_order_is_total, text_order_is_transitive,
};

pub mod laws;

verus! {

/// The text that Rust's `{:?}` prints for a path or an operating-system string.
pub uninterp spec fn path_debug(path: Seq<char>) -> Seq<char>;

/// Calls std's `Debug` formatting of `Path`, which is that of the operating-system string
/// inside. The contract names its result as a function of the characters alone.
#[verifier::external_body]
pub(crate) fn debug_path(path: &str) -> (quoted: String)
    ensures
        quoted@ == path_debug(path@),
{
    format!("{:?}", std::path::Path::new(path))
}

/// The text that `{:?}` prints for an optional path.
pub open spec fn opt_path_debug(path: Option<Seq<char>>) -> Seq<char> {
    match path {
        Some(path) => "Some("@ + path_debug(path) + ")"@,
        None => "None"@,
    }
}

/// Prints an optional path as `{:?}` does.
pub fn debug_opt_path(path: &Option<String>) -> (text: String)
    ensures
        text@ == opt_path_debug(path.deep_view()),
{
    match path {
        Some(path) => cat3("Some(", debug_path(path.as_str()).as_str(), ")"),
        None => "None".to_owned(),
    }
}

/// One component of a path, with the text of an ordinary name.
pub enum Part {
    /// The leading `/` of an absolute path.
    Root,
    /// A leading `.`.
    Cur,
    /// A `..`.
    Parent,
    /// An ordinary file or directory name.
    Normal(Seq<char>),
}

/// One component of a path.
#[derive(Debug)]
pub enum Component {
    /// The leading `/` of an absolute path.
    Root,
    /// A leading `.`.
    Cur,
    /// A `..`.
    Parent,
    /// An ordinary file or directory name.
    Normal(String),
}

impl View for Component {
    type V = Part;

    open spec fn view(&self) -> Part {
        match self {
            Component::Root => Part::Root,
            Component::Cur => Part::Cur,
            Component::Parent => Part::Parent,
            Component::Normal(name) => Part::Normal(name@),
        }
    }
}

impl DeepView for Component {
    type V = Part;

    open spec fn deep_view(&self) -> Part {
        self@
    }
}

/// The pieces between the separators of a path, empty ones included.
pub open spec fn pieces(path: Seq<char>) -> Seq<Seq<char>>
    decreases path.len(),
{
    if path.len() == 0 {
        seq![Seq::empty()]
    } else {
        let before = pieces(path.drop_last());
        if path.last() == '/' {
            before.push(Seq::empty())
        } else {
            before.drop_last().push(before.last().push(path.last()))
        }
    }
}

/// The components that a list of pieces stands for: empty pieces and every `.` but a leading
/// one are left out.
pub open spec fn parts_of(pieces: Seq<Seq<char>>) -> Seq<Part>
    decreases pieces.len(),
{
    if pieces.len() == 0 {
        Seq::empty()
    } else {
        let before = parts_of(pieces.drop_last());
        let piece = pieces.last();
        if piece.len() == 0 {
            before
        } else if piece == seq!['.'] {
            if pieces.len() == 1 {
                before.push(Part::Cur)
            } else {
                before
            }
        } else if piece == seq!['.', '.'] {
            before.push(Part::Parent)
        } else {
            before.push(Part::Normal(piece))
        }
    }
}

/// Whether a path begins at the root.
pub open spec fn absolute(path: Seq<char>) -> bool {
    path.len() > 0 && path[0] == '/'
}

/// The components of a path.
pub open spec fn parts(path: Seq<char>) -> Seq<Part> {
    if absolute(path) {
        seq![Part::Root] + parts_of(pieces(path))
    } else {
        parts_of(pieces(path))
    }
}

/// Whether a path begins at the root.
pub fn is_absolute(path: &str) -> (found: bool)
    ensures
        found == absolute(path@),
{
    path.unicode_len() > 0 && path.get_char(0) == '/'
}

proof fn pieces_not_empty(path: Seq<char>)
    ensures
        pieces(path).len() > 0,
    decreases path.len(),
{
    if path.len() > 0 {
        pieces_not_empty(path.drop_last());
    }
}

fn split(path: &str) -> (list: Vec<String>)
    ensures
        list.deep_view() == pieces(path@),
{
    let length: usize = path.unicode_len();
    let mut list: Vec<String> = Vec::new();
    let mut start: usize = 0;
    let mut i: usize = 0;
    assert(path@.subrange(0, 0) =~= Seq::<char>::empty());
    assert(path@.take(0) =~= Seq::<char>::empty());
    assert(list.deep_view().push(path@.subrange(0, 0)) =~= seq![Seq::<char>::empty()]);
    while i < length
        invariant
            start <= i <= length,
            length == path@.len(),
            pieces(path@.take(i as int)) == list.deep_view().push(
                path@.subrange(start as int, i as int),
            ),
        decreases length - i,
    {
        let c = path.get_char(i);
        let ghost before = list.deep_view();
        assert(path@.take(i + 1).drop_last() =~= path@.take(i as int));
        if c == '/' {
            list.push(path.substring_char(start, i).to_owned());
            assert(list.deep_view() =~= before.push(path@.subrange(start as int, i as int)));
            start = i + 1;
            assert(path@.subrange(i + 1, i + 1) =~= Seq::<char>::empty());
        } else {
            assert(path@.subrange(start as int, i + 1) =~= path@.subrange(
                start as int,
                i as int,
            ).push(c));
            assert(before.push(path@.subrange(start as int, i as int)).drop_last() =~= before);
        }
        i += 1;
    }
    assert(path@.take(length as int) =~= path@);
    let ghost before = list.deep_view();
    list.push(path.substring_char(start, length).to_owned());
    assert(list.deep_view() =~= before.push(path@.subrange(start as int, length as int)));
    list
}

/// The component that a piece stands for, if any; `first` says whether it is the first piece.
fn component(piece: &str, first: bool) -> (found: Option<Component>)
    ensures
        found.deep_view() == (if piece@.len() == 0 || (piece@ == seq!['.'] && !first) {
            None::<Part>
        } else if piece@ == seq!['.'] {
            Some(Part::Cur)
        } else if piece@ == seq!['.', '.'] {
            Some(Part::Parent)
        } else {
            Some(Part::Normal(piece@))
        }),
{
    proof {
        reveal_strlit(".");
        reveal_strlit("..");
        assert("."@ =~= seq!['.']);
        assert(".."@ =~= seq!['.', '.']);
    }
    if piece.is_empty() {
        None
    } else if text_eq(piece, ".") {
        if first {
            Some(Component::Cur)
        } else {
            None
        }
    } else if text_eq(piece, "..") {
        Some(Component::Parent)
    } else {
        Some(Component::Normal(piece.to_owned()))
    }
}

/// The components of a path, as `std::path::Path::components` lists them on Unix.
pub fn components(path: &str) -> (list: Vec<Component>)
    ensures
        list.deep_view() == parts(path@),
{
    let names = split(path);
    let mut list: Vec<Component> = Vec::new();
    if is_absolute(path) {
        list.push(Component::Root);
    }
    let ghost head = list.deep_view();
    assert(absolute(path@) ==> head =~= seq![Part::Root]);
    assert(!absolute(path@) ==> head =~= Seq::<Part>::empty());
    assert(names.deep_view().take(0) =~= Seq::<Seq<char>>::empty());
    assert(head + parts_of(names.deep_view().take(0)) =~= head);
    let mut i: usize = 0;
    while i < names.len()
        invariant
            i <= names.len(),
            list.deep_view() == head + parts_of(names.deep_view().take(i as int)),
        decreases names.len() - i,
    {
        let ghost before = list.deep_view();
        let ghost taken = names.deep_view().take(i + 1);
        assert(taken.drop_last() =~= names.deep_view().take(i as int));
        assert(taken.last() == names[i as int]@);
        match component(names[i].as_str(), i == 0) {
            Some(part) => {
                let ghost shown = part@;
                list.push(part);
                assert(list.deep_view() =~= before.push(shown));
                assert(before.push(shown) =~= head + parts_of(taken.drop_last()).push(shown));
            },
            None => {},
        }
        i += 1;
    }
    assert(names.deep_view().take(i as int) =~= names.deep_view());
    assert(!absolute(path@) ==> head + parts_of(pieces(path@)) =~= parts_of(pieces(path@)));
    list
}

fn same_component(left: &Component, right: &Component) -> (same: bool)
    ensures
        same == (left@ == right@),
{
    match (left, right) {
        (Component::Root, Component::Root) => true,
        (Component::Cur, Component::Cur) => true,
        (Component::Parent, Component::Parent) => true,
        (Component::Normal(a), Component::Normal(b)) => text_eq(a.as_str(), b.as_str()),
        _ => false,
    }
}

/// Whether the first `count` components of two lists are the same.
fn same_components(left: &Vec<Component>, right: &Vec<Component>, count: usize) -> (same: bool)
    requires
        count <= left.len(),
        count <= right.len(),
    ensures
        same == (left.deep_view().take(count as int) == right.deep_view().take(count as int)),
{
    let mut i: usize = 0;
    while i < count
        invariant
            i <= count <= left.len(),
            count <= right.len(),
            forall|j: int| 0 <= j < i ==> left.deep_view()[j] == right.deep_view()[j],
        decreases count - i,
    {
        if !same_component(&left[i], &right[i]) {
            assert(left.deep_view().take(count as int)[i as int] != right.deep_view().take(
                count as int,
            )[i as int]);
            return false;
        }
        i += 1;
    }
    assert(left.deep_view().take(count as int) =~= right.deep_view().take(count as int));
    true
}

/// Whether two paths have the same components.
pub open spec fn same_parts(left: Seq<char>, right: Seq<char>) -> bool {
    parts(left) == parts(right)
}

/// Whether two paths are equal, component by component.
pub fn same_path(left: &str, right: &str) -> (same: bool)
    ensures
        same == same_parts(left@, right@),
{
    let a = components(left);
    let b = components(right);
    if a.len() != b.len() {
        assert(a.deep_view().len() != b.deep_view().len());
        false
    } else {
        assert(a.deep_view().take(a.len() as int) =~= a.deep_view());
        assert(b.deep_view().take(b.len() as int) =~= b.deep_view());
        same_components(&a, &b, a.len())
    }
}

/// Whether the components of a path begin with those of another.
pub open spec fn under(path: Seq<char>, base: Seq<char>) -> bool {
    parts(base).len() <= parts(path).len() && parts(path).take(parts(base).len() as int) == parts(
        base,
    )
}

/// Whether a path equals another or lies below it.
pub fn starts_with(path: &str, base: &str) -> (found: bool)
    ensures
        found == under(path@, base@),
{
    let a = components(path);
    let b = components(base);
    if b.len() > a.len() {
        false
    } else {
        assert(b.deep_view().take(b.len() as int) =~= b.deep_view());
        same_components(&a, &b, b.len())
    }
}

/// Where a path leads from a base: the path itself where it is absolute, else the base, a
/// separator where the base needs one, and the path.
pub open spec fn joined_path(base: Seq<char>, path: Seq<char>) -> Seq<char> {
    if absolute(path) || base.len() == 0 {
        path
    } else if base.last() == '/' {
        base + path
    } else {
        base + "/"@ + path
    }
}

/// Joins a path to a base, as `std::path::Path::join` does on Unix.
pub fn join(base: &str, path: &str) -> (result: String)
    ensures
        result@ == joined_path(base@, path@),
{
    let length: usize = base.unicode_len();
    if is_absolute(path) || length == 0 {
        path.to_owned()
    } else if base.get_char(length - 1) == '/' {
        cat2(base, path)
    } else {
        cat3(base, "/", path)
    }
}

/// The length of the shortest prefix, from length `from` on, that has the wanted components.
pub open spec fn shortest_prefix(path: Seq<char>, wanted: Seq<Part>, from: int) -> int
    decreases path.len() - from,
{
    if from >= path.len() || parts(path.take(from)) == wanted {
        from
    } else {
        shortest_prefix(path, wanted, from + 1)
    }
}

/// The path without its last component: the shortest prefix with all components but the last.
/// The root and the empty path have none.
pub open spec fn parent_of(path: Seq<char>) -> Option<Seq<char>> {
    if parts(path).len() == 0 || parts(path).last() is Root {
        None
    } else {
        Some(path.take(shortest_prefix(path, parts(path).drop_last(), 0)))
    }
}

/// The path without its last component, as `std::path::Path::parent` gives it on Unix.
pub fn parent(path: &str) -> (result: Option<String>)
    ensures
        result.deep_view() == parent_of(path@),
{
    let mut wanted = components(path);
    let ghost all = wanted.deep_view();
    let last = wanted.pop();
    match last {
        None => None,
        Some(Component::Root) => {
            assert(all.last() is Root);
            None
        },
        Some(_) => {
            assert(wanted.deep_view() =~= all.drop_last());
            let length: usize = path.unicode_len();
            let mut n: usize = 0;
            while n < length
                invariant_except_break
                    n <= length,
                    length == path@.len(),
                    wanted.deep_view() == parts(path@).drop_last(),
                    shortest_prefix(path@, parts(path@).drop_last(), 0) == shortest_prefix(
                        path@,
                        parts(path@).drop_last(),
                        n as int,
                    ),
                ensures
                    n <= length,
                    n == shortest_prefix(path@, parts(path@).drop_last(), 0),
                decreases length - n,
            {
                let prefix = path.substring_char(0, n);
                assert(prefix@ =~= path@.take(n as int));
                let have = components(prefix);
                assert(have.deep_view() == parts(path@.take(n as int)));
                let found = have.len() == wanted.len() && same_components(
                    &have,
                    &wanted,
                    wanted.len(),
                );
                assert(wanted.deep_view().take(wanted.len() as int) =~= wanted.deep_view());
                assert(have.len() == wanted.len() ==> have.deep_view().take(wanted.len() as int)
                    =~= have.deep_view());
                assert(found == (have.deep_view() == wanted.deep_view()));
                if found {
                    break;
                }
                n += 1;
            }
            let result = path.substring_char(0, n);
            assert(result@ =~= path@.take(n as int));
            Some(result.to_owned())
        },
    }
}

proof fn parent_prefix_exists(path: Seq<char>) -> (n: int)
    requires
        parts(path).len() > 0,
        !(parts(path).last() is Root),
    ensures
        0 <= n <= path.len(),
        parts(path.take(n)) == parts(path).drop_last(),
    decreases path.len(),
{
    reveal_with_fuel(parts_of, 2);
    assert(path.len() > 0);
    let before = path.drop_last();
    pieces_not_empty(before);
    let list = pieces(before).drop_last();
    let piece = pieces(before).last();
    assert(pieces(before) =~= list.push(piece));
    if path.last() == '/' {
        assert(pieces(path).drop_last() =~= pieces(before));
        if before.len() == 0 {
            assert(pieces(path) =~= seq![Seq::<char>::empty(), Seq::<char>::empty()]);
            assert(parts_of(pieces(before)) == Seq::<Part>::empty());
            assert(parts(path) =~= seq![Part::Root]);
        }
        let n = parent_prefix_exists(before);
        assert(before.take(n) =~= path.take(n));
        n
    } else {
        let longer = piece.push(path.last());
        assert(pieces(path) =~= list.push(longer));
        assert(pieces(path).drop_last() =~= list);
        assert(pieces(before).drop_last() =~= list);
        assert(absolute(path) ==> absolute(before));
        let head = if absolute(path) {
            seq![Part::Root]
        } else {
            Seq::<Part>::empty()
        };
        assert(parts(path) =~= head + parts_of(pieces(path)));
        assert(parts(before) =~= head + parts_of(pieces(before)));
        let whole = head + parts_of(list);
        let silent = parts_of(pieces(before)) == parts_of(list);
        if parts_of(pieces(path)) == parts_of(list) {
            assert(longer == seq!['.']);
            assert(piece =~= longer.drop_last());
            assert(piece.len() == 0);
            assert(silent);
            let n = parent_prefix_exists(before);
            assert(before.take(n) =~= path.take(n));
            n
        } else {
            assert(parts(path).drop_last() =~= whole);
            if silent {
                assert(path.take(path.len() - 1) =~= before);
                path.len() - 1
            } else {
                assert(parts(before).drop_last() =~= whole);
                let n = parent_prefix_exists(before);
                assert(before.take(n) =~= path.take(n));
                n
            }
        }
    }
}

proof fn shortest_prefix_found(path: Seq<char>, wanted: Seq<Part>, from: int, n: int)
    requires
        0 <= from <= n <= path.len(),
        parts(path.take(n)) == wanted,
    ensures
        from <= shortest_prefix(path, wanted, from) <= n,
        parts(path.take(shortest_prefix(path, wanted, from))) == wanted,
    decreases n - from,
{
    if from < path.len() && parts(path.take(from)) != wanted {
        shortest_prefix_found(path, wanted, from + 1, n);
    }
}

/// A parent has the components of its child but the last.
pub proof fn parent_drops_last_part(path: Seq<char>)
    ensures
        parent_of(path) matches Some(parent) ==> parts(parent) == parts(path).drop_last(),
{
    if parts(path).len() > 0 && !(parts(path).last() is Root) {
        let n = parent_prefix_exists(path);
        shortest_prefix_found(path, parts(path).drop_last(), 0, n);
    }
}

pub(crate) proof fn no_root_among(pieces: Seq<Seq<char>>)
    ensures
        forall|i: int|
            0 <= i < parts_of(pieces).len() ==> !((#[trigger] parts_of(pieces)[i]) is Root),
    decreases pieces.len(),
{
    if pieces.len() > 0 {
        let before = pieces.drop_last();
        no_root_among(before);
        assert forall|i: int| 0 <= i < parts_of(pieces).len() implies !((
        #[trigger] parts_of(pieces)[i]) is Root) by {
            if i < parts_of(before).len() {
                assert(parts_of(pieces)[i] == parts_of(before)[i]);
            }
        }
    }
}

/// A path whose first component is the root is absolute.
pub proof fn a_root_part_means_absolute(path: Seq<char>)
    requires
        parts(path).len() > 0,
        parts(path)[0] is Root,
    ensures
        absolute(path),
{
    if !absolute(path) {
        no_root_among(pieces(path));
    }
}

/// Whether a path is relative and names only what lies below its base: it has components, and
/// each of them is an ordinary name.
pub open spec fn plain_relative(path: Seq<char>) -> bool {
    &&& path.len() > 0
    &&& !absolute(path)
    &&& forall|i: int| 0 <= i < parts(path).len() ==> (#[trigger] parts(path)[i]) is Normal
}

/// Whether a path is non-empty, relative and free of `.` and `..`.
pub fn is_plain_relative(path: &str) -> (plain: bool)
    ensures
        plain == plain_relative(path@),
{
    if path.is_empty() || is_absolute(path) {
        return false;
    }
    let list = components(path);
    let mut i: usize = 0;
    while i < list.len()
        invariant
            i <= list.len(),
            list.deep_view() == parts(path@),
            forall|j: int| 0 <= j < i ==> (#[trigger] parts(path@)[j]) is Normal,
        decreases list.len() - i,
    {
        assert(parts(path@)[i as int] == list[i as int]@);
        match &list[i] {
            Component::Normal(_) => {},
            _ => {
                return false;
            },
        }
        i += 1;
    }
    true
}

/// Whether a component of a path is `.` or `..`.
pub open spec fn has_dots(path: Seq<char>) -> bool {
    exists|i: int|
        0 <= i < parts(path).len() && ((#[trigger] parts(path)[i]) is Cur || parts(path)[i] is Parent)
}

/// Whether a component of a path is `.` or `..`.
pub fn contains_dots(path: &str) -> (found: bool)
    ensures
        found == has_dots(path@),
{
    let list = components(path);
    let mut i: usize = 0;
    while i < list.len()
        invariant
            i <= list.len(),
            list.deep_view() == parts(path@),
            forall|j: int|
                0 <= j < i ==> !((#[trigger] parts(path@)[j]) is Cur || parts(path@)[j] is Parent),
        decreases list.len() - i,
    {
        assert(parts(path@)[i as int] == list[i as int]@);
        match &list[i] {
            Component::Cur => {
                return true;
            },
            Component::Parent => {
                return true;
            },
            _ => {},
        }
        i += 1;
    }
    false
}

/// Whether a symbolic link may point to a target: one that is not absolute and has no `..`.
pub open spec fn safe_link_target(target: Seq<char>) -> bool {
    &&& !absolute(target)
    &&& forall|i: int|
        0 <= i < parts(target).len() ==> ((#[trigger] parts(target)[i]) is Normal
            || parts(target)[i] is Cur)
}

/// Whether a symbolic link may point to a target.
pub fn is_safe_link_target(target: &str) -> (safe: bool)
    ensures
        safe == safe_link_target(target@),
{
    if is_absolute(target) {
        return false;
    }
    let list = components(target);
    let mut i: usize = 0;
    while i < list.len()
        invariant
            i <= list.len(),
            list.deep_view() == parts(target@),
            forall|j: int|
                0 <= j < i ==> ((#[trigger] parts(target@)[j]) is Normal || parts(target@)[j] is Cur),
        decreases list.len() - i,
    {
        assert(parts(target@)[i as int] == list[i as int]@);
        match &list[i] {
            Component::Normal(_) => {},
            Component::Cur => {},
            _ => {
                return false;
            },
        }
        i += 1;
    }
    true
}

/// The last component of a path, where it is an ordinary name.
pub open spec fn name_of(path: Seq<char>) -> Option<Seq<char>> {
    if parts(path).len() == 0 {
        None
    } else {
        match parts(path).last() {
            Part::Normal(name) => Some(name),
            _ => None,
        }
    }
}

/// The last component of a path, as `std::path::Path::file_name` gives it on Unix.
pub fn file_name(path: &str) -> (name: Option<String>)
    ensures
        name.deep_view() == name_of(path@),
{
    let mut list = components(path);
    assert(list.len() > 0 ==> parts(path@).last() == list@.last()@);
    match list.pop() {
        Some(Component::Normal(name)) => Some(name),
        _ => None,
    }
}

/// Whether the last component of a path is a name with the extension `toml`.
pub open spec fn toml_file(path: Seq<char>) -> bool {
    name_of(path) matches Some(name) && name.len() > ".toml"@.len() && ends_with(name, ".toml"@)
}

/// Whether the last component of a path is a name with the extension `toml`.
pub fn is_toml_file(path: &str) -> (found: bool)
    ensures
        found == toml_file(path@),
{
    match file_name(path) {
        Some(name) => name.as_str().unicode_len() > ".toml".unicode_len() && has_suffix(
            name.as_str(),
            ".toml",
        ),
        None => false,
    }
}

/// The text of a component.
pub open spec fn part_text(part: Part) -> Seq<char> {
    match part {
        Part::Root => "/"@,
        Part::Cur => "."@,
        Part::Parent => ".."@,
        Part::Normal(name) => name,
    }
}

fn component_text(component: &Component) -> (text: String)
    ensures
        text@ == part_text(component@),
{
    match component {
        Component::Root => "/".to_owned(),
        Component::Cur => ".".to_owned(),
        Component::Parent => "..".to_owned(),
        Component::Normal(name) => name.clone(),
    }
}

/// What follows a base in a path that begins with it, with one separator between the components.
pub open spec fn relative(path: Seq<char>, base: Seq<char>) -> Option<Seq<char>> {
    if !under(path, base) {
        None
    } else if parts(base).len() == 0 {
        Some(path)
    } else {
        Some(
            joined(
                parts(path).skip(parts(base).len() as int).map_values(|part: Part| part_text(part)),
                "/"@,
            ),
        )
    }
}

/// What follows a base in a path that begins with it.
pub fn relative_to(path: &str, base: &str) -> (result: Option<String>)
    ensures
        result.deep_view() == relative(path@, base@),
{
    if !starts_with(path, base) {
        return None;
    }
    let all = components(path);
    let skipped = components(base);
    if skipped.len() == 0 {
        return Some(path.to_owned());
    }
    let mut texts: Vec<String> = Vec::new();
    let mut i: usize = skipped.len();
    while i < all.len()
        invariant
            skipped.len() <= i <= all.len(),
            texts.len() == i - skipped.len(),
            all.deep_view() == parts(path@),
            forall|j: int|
                0 <= j < texts.len() ==> (#[trigger] texts[j])@ == part_text(
                    all[j + skipped.len()]@,
                ),
        decreases all.len() - i,
    {
        texts.push(component_text(&all[i]));
        i += 1;
    }
    assert(texts.deep_view() =~= parts(path@).skip(skipped.len() as int).map_values(
        |part: Part| part_text(part),
    ));
    Some(join_texts(&texts, "/"))
}

/// The order of two components: the root, `.`, `..`, then names by their text.
pub open spec fn part_less(left: Part, right: Part) -> bool {
    match (left, right) {
        (Part::Normal(a), Part::Normal(b)) => text_less(a, b),
        (Part::Root, _) => !(right is Root),
        (Part::Cur, _) => right is Parent || right is Normal,
        (Part::Parent, _) => right is Normal,
        _ => false,
    }
}

/// The order of two component lists by their first difference; a proper prefix comes first.
pub open spec fn parts_less(left: Seq<Part>, right: Seq<Part>) -> bool
    decreases left.len(),
{
    if right.len() == 0 {
        false
    } else if left.len() == 0 {
        true
    } else if left[0] == right[0] {
        parts_less(left.drop_first(), right.drop_first())
    } else {
        part_less(left[0], right[0])
    }
}

proof fn part_order_is_total(left: Part, right: Part)
    ensures
        left == right ==> !part_less(left, right),
        left != right ==> part_less(left, right) != part_less(right, left),
{
    if let (Part::Normal(a), Part::Normal(b)) = (left, right) {
        text_order_is_total(a, b);
    }
}

/// No path comes before itself, and of two different component lists one comes before the other.
pub proof fn path_order_is_total(left: Seq<Part>, right: Seq<Part>)
    ensures
        left == right ==> !parts_less(left, right),
        left != right ==> parts_less(left, right) != parts_less(right, left),
    decreases left.len(),
{
    if left.len() > 0 && right.len() > 0 {
        part_order_is_total(left[0], right[0]);
        if left[0] == right[0] {
            path_order_is_total(left.drop_first(), right.drop_first());
            if left.drop_first() == right.drop_first() {
                assert(left =~= seq![left[0]] + left.drop_first());
                assert(right =~= seq![right[0]] + right.drop_first());
            }
        }
    } else {
        assert(left.len() == 0 && right.len() == 0 ==> left =~= right);
    }
}

/// A path that comes before a second, which comes before a third, comes before the third.
pub proof fn path_order_is_transitive(a: Seq<Part>, b: Seq<Part>, c: Seq<Part>)
    requires
        parts_less(a, b),
        parts_less(b, c),
    ensures
        parts_less(a, c),
    decreases a.len(),
{
    if a.len() > 0 {
        if a[0] == b[0] && b[0] == c[0] {
            path_order_is_transitive(a.drop_first(), b.drop_first(), c.drop_first());
        } else {
            part_order_is_total(a[0], b[0]);
            part_order_is_total(b[0], c[0]);
            part_order_is_total(a[0], c[0]);
            if let (Part::Normal(x), Part::Normal(y), Part::Normal(z)) = (a[0], b[0], c[0]) {
                if text_less(x, y) && text_less(y, z) {
                    text_order_is_transitive(x, y, z);
                }
            }
        }
    }
}

fn component_precedes(left: &Component, right: &Component) -> (less: bool)
    ensures
        less == part_less(left@, right@),
{
    match (left, right) {
        (Component::Normal(a), Component::Normal(b)) => precedes(a.as_str(), b.as_str()),
        (Component::Root, Component::Root) => false,
        (Component::Root, _) => true,
        (Component::Cur, Component::Root) => false,
        (Component::Cur, Component::Cur) => false,
        (Component::Cur, _) => true,
        (Component::Parent, Component::Normal(_)) => true,
        _ => false,
    }
}

/// Whether a path comes before another in the order of `std::path::Path`.
pub fn path_precedes(left: &str, right: &str) -> (less: bool)
    ensures
        less == parts_less(parts(left@), parts(right@)),
{
    let a = components(left);
    let b = components(right);
    let mut i: usize = 0;
    assert(a.deep_view().skip(0) =~= a.deep_view());
    assert(b.deep_view().skip(0) =~= b.deep_view());
    while i < a.len() && i < b.len() && same_component(&a[i], &b[i])
        invariant
            i <= a.len(),
            i <= b.len(),
            parts_less(a.deep_view().skip(i as int), b.deep_view().skip(i as int)) == parts_less(
                a.deep_view(),
                b.deep_view(),
            ),
        decreases a.len() - i,
    {
        assert(a.deep_view().skip(i as int).drop_first() =~= a.deep_view().skip(i + 1));
        assert(b.deep_view().skip(i as int).drop_first() =~= b.deep_view().skip(i + 1));
        i += 1;
    }
    if i >= b.len() {
        false
    } else if i >= a.len() {
        true
    } else {
        assert(a.deep_view().skip(i as int)[0] == a[i as int]@);
        assert(b.deep_view().skip(i as int)[0] == b[i as int]@);
        component_precedes(&a[i], &b[i])
    }
}

proof fn pieces_of_joined(base: Seq<char>, path: Seq<char>)
    ensures
        pieces(base + seq!['/'] + path) == pieces(base) + pieces(path),
    decreases path.len(),
{
    let whole = base + seq!['/'] + path;
    if path.len() == 0 {
        assert(whole.drop_last() =~= base);
        assert(whole.last() == '/');
        assert(pieces(whole) =~= pieces(base) + pieces(path));
    } else {
        pieces_of_joined(base, path.drop_last());
        pieces_not_empty(path.drop_last());
        assert(whole.drop_last() =~= base + seq!['/'] + path.drop_last());
        assert(whole.last() == path.last());
        assert(pieces(whole) =~= pieces(base) + pieces(path));
    }
}

proof fn parts_of_joined(left: Seq<Seq<char>>, right: Seq<Seq<char>>)
    requires
        right.len() > 0 ==> right[0] != seq!['.'],
    ensures
        parts_of(left + right) == parts_of(left) + parts_of(right),
    decreases right.len(),
{
    if right.len() == 0 {
        assert(left + right =~= left);
        assert(parts_of(left) + parts_of(right) =~= parts_of(left));
    } else {
        parts_of_joined(left, right.drop_last());
        assert((left + right).drop_last() =~= left + right.drop_last());
        assert(parts_of(left + right) =~= parts_of(left) + parts_of(right));
    }
}

proof fn leading_dot_is_kept(list: Seq<Seq<char>>)
    requires
        list.len() > 0,
        list[0] == seq!['.'],
    ensures
        parts_of(list).len() > 0,
        parts_of(list)[0] is Cur,
    decreases list.len(),
{
    if list.len() > 1 {
        leading_dot_is_kept(list.drop_last());
    } else {
        reveal_with_fuel(parts_of, 2);
    }
}

/// Joining a relative path without `.` and `..` to a base appends its components to those of
/// the base, so the result lies below the base.
pub proof fn joined_path_stays_inside(base: Seq<char>, path: Seq<char>)
    requires
        base.len() > 0,
        plain_relative(path),
    ensures
        parts(joined_path(base, path)) == parts(base) + parts(path),
        under(joined_path(base, path), base),
{
    reveal_strlit("/");
    assert("/"@ =~= seq!['/']);
    pieces_not_empty(path);
    if pieces(path)[0] == seq!['.'] {
        leading_dot_is_kept(pieces(path));
        assert(parts(path)[0] is Normal);
    }
    let whole = joined_path(base, path);
    if base.last() == '/' {
        let front = base.drop_last();
        assert(whole =~= front + seq!['/'] + path);
        pieces_of_joined(front, path);
        parts_of_joined(pieces(front), pieces(path));
        assert(pieces(base).drop_last() =~= pieces(front));
    } else {
        pieces_of_joined(base, path);
        parts_of_joined(pieces(base), pieces(path));
    }
    assert(whole[0] == base[0]);
    assert(parts(whole) =~= parts(base) + parts(path));
    assert(parts(whole).take(parts(base).len() as int) =~= parts(base));
}

/// Joining a relative path that does not begin with `.` to a base appends its components to those
/// of the base, those that go up among them.
pub proof fn joining_appends_components(base: Seq<char>, path: Seq<char>)
    requires
        base.len() > 0,
        path.len() > 0,
        !absolute(path),
        parts(path).len() > 0 ==> !(parts(path)[0] is Cur),
    ensures
        parts(joined_path(base, path)) == parts(base) + parts(path),
{
    reveal_strlit("/");
    assert("/"@ =~= seq!['/']);
    pieces_not_empty(path);
    if pieces(path)[0] == seq!['.'] {
        leading_dot_is_kept(pieces(path));
    }
    let whole = joined_path(base, path);
    if base.last() == '/' {
        let front = base.drop_last();
        assert(whole =~= front + seq!['/'] + path);
        pieces_of_joined(front, path);
        parts_of_joined(pieces(front), pieces(path));
        assert(pieces(base).drop_last() =~= pieces(front));
    } else {
        pieces_of_joined(base, path);
        parts_of_joined(pieces(base), pieces(path));
    }
    assert(whole[0] == base[0]);
    assert(parts(whole) =~= parts(base) + parts(path));
}

/// Two dots behind a base are a component that goes up, whatever the base is.
pub proof fn two_dots_go_up(base: Seq<char>)
    requires
        base.len() > 0,
    ensures
        parts(joined_path(base, ".."@)) == parts(base).push(Part::Parent),
        has_dots(joined_path(base, ".."@)),
{
    reveal_strlit("..");
    let dots = ".."@;
    assert(dots =~= seq!['.', '.']);
    if dots.contains('/') {
        let i = choose|i: int| 0 <= i < dots.len() && dots[i] == '/';
        assert(dots[i] == '.');
    }
    one_piece(dots);
    assert(pieces(dots).drop_last() =~= Seq::empty());
    assert(pieces(dots).last() == dots);
    assert(parts_of(pieces(dots).drop_last()) =~= Seq::empty());
    assert(parts(dots) =~= seq![Part::Parent]);
    joining_appends_components(base, dots);
    let whole = joined_path(base, dots);
    assert(parts(whole) =~= parts(base).push(Part::Parent));
    assert(parts(whole)[parts(whole).len() - 1] is Parent);
}

/// Whether a text is the name of one file or directory.
pub open spec fn plain_name(name: Seq<char>) -> bool {
    name.len() > 0 && name != seq!['.'] && name != seq!['.', '.'] && !name.contains('/')
}

proof fn pieces_hold_no_separator(path: Seq<char>)
    ensures
        forall|i: int| 0 <= i < pieces(path).len() ==> !(#[trigger] pieces(path)[i]).contains('/'),
    decreases path.len(),
{
    if path.len() > 0 {
        let before = path.drop_last();
        pieces_not_empty(before);
        pieces_hold_no_separator(before);
        let list = pieces(before);
        assert forall|i: int| 0 <= i < pieces(path).len() implies !(
        #[trigger] pieces(path)[i]).contains('/') by {
            if path.last() == '/' {
                if i < list.len() {
                    assert(pieces(path)[i] == list[i]);
                }
            } else if i < list.len() - 1 {
                assert(pieces(path)[i] == list[i]);
            } else {
                let piece = list[list.len() - 1];
                let longer = pieces(path)[i];
                assert(longer == piece.push(path.last()));
                if longer.contains('/') {
                    let k = choose|k: int| 0 <= k < longer.len() && longer[k] == '/';
                    assert(piece[k] == '/');
                    assert(piece.contains('/'));
                }
            }
        }
    }
}

proof fn parts_of_names(list: Seq<Seq<char>>)
    requires
        forall|i: int| 0 <= i < list.len() ==> !(#[trigger] list[i]).contains('/'),
    ensures
        forall|i: int|
            0 <= i < parts_of(list).len() ==> ((#[trigger] parts_of(list)[i]) matches Part::Normal(
                name,
            ) ==> plain_name(name)),
    decreases list.len(),
{
    if list.len() > 0 {
        let before = list.drop_last();
        assert forall|i: int| 0 <= i < before.len() implies !(#[trigger] before[i]).contains('/') by {
            assert(before[i] == list[i]);
        }
        parts_of_names(before);
        assert(list[list.len() - 1] == list.last());
        assert forall|i: int| 0 <= i < parts_of(list).len() implies ((
        #[trigger] parts_of(list)[i]) matches Part::Normal(name) ==> plain_name(name)) by {
            if i < parts_of(before).len() {
                assert(parts_of(list)[i] == parts_of(before)[i]);
            }
        }
    }
}

/// The ordinary components of a path are names of one file or directory each.
pub proof fn normal_parts_are_plain_names(path: Seq<char>)
    ensures
        forall|i: int|
            0 <= i < parts(path).len() ==> ((#[trigger] parts(path)[i]) matches Part::Normal(name)
                ==> plain_name(name)),
{
    pieces_hold_no_separator(path);
    parts_of_names(pieces(path));
    assert forall|i: int| 0 <= i < parts(path).len() implies ((
    #[trigger] parts(path)[i]) matches Part::Normal(name) ==> plain_name(name)) by {
        if absolute(path) {
            if i > 0 {
                assert(parts(path)[i] == parts_of(pieces(path))[i - 1]);
            }
        }
    }
}

proof fn one_piece(text: Seq<char>)
    requires
        !text.contains('/'),
    ensures
        pieces(text) == seq![text],
    decreases text.len(),
{
    if text.len() == 0 {
        assert(text =~= Seq::<char>::empty());
    } else {
        let before = text.drop_last();
        if before.contains('/') {
            let k = choose|k: int| 0 <= k < before.len() && before[k] == '/';
            assert(text[k] == '/');
        }
        one_piece(before);
        if text.last() == '/' {
            assert(text.contains('/'));
        }
        assert(before.push(text.last()) =~= text);
        assert(pieces(text) =~= seq![text]);
    }
}

/// A name of one file or directory is a relative path with that name as its only component.
pub proof fn a_plain_name_is_one_part(name: Seq<char>)
    requires
        plain_name(name),
    ensures
        parts(name) == seq![Part::Normal(name)],
        plain_relative(name),
{
    one_piece(name);
    reveal_with_fuel(parts_of, 2);
    if absolute(name) {
        assert(name.contains('/'));
    }
    assert(seq![name].drop_last() =~= Seq::<Seq<char>>::empty());
    assert(parts_of(seq![name]) =~= seq![Part::Normal(name)]);
    assert forall|i: int| 0 <= i < parts(name).len() implies (#[trigger] parts(name)[i]) is Normal by {
        assert(i == 0);
    }
}

/// Names joined with separators are a relative path with those names as its components.
pub proof fn joined_names_are_parts(names: Seq<Seq<char>>)
    requires
        names.len() > 0,
        forall|i: int| 0 <= i < names.len() ==> plain_name(#[trigger] names[i]),
    ensures
        parts(joined(names, "/"@)) == names.map_values(|name: Seq<char>| Part::Normal(name)),
        plain_relative(joined(names, "/"@)),
    decreases names.len(),
{
    reveal_strlit("/");
    assert("/"@ =~= seq!['/']);
    let text = joined(names, "/"@);
    let wanted = names.map_values(|name: Seq<char>| Part::Normal(name));
    if names.len() == 1 {
        a_plain_name_is_one_part(names[0]);
        assert(wanted =~= seq![Part::Normal(names[0])]);
    } else {
        let before = names.drop_last();
        assert forall|i: int| 0 <= i < before.len() implies plain_name(#[trigger] before[i]) by {
            assert(before[i] == names[i]);
        }
        joined_names_are_parts(before);
        let last = names[names.len() - 1];
        a_plain_name_is_one_part(last);
        let front = joined(before, "/"@);
        if front.last() == '/' {
            trailing_separator(before);
        }
        joined_path_stays_inside(front, last);
        assert(joined_path(front, last) =~= text);
        assert(wanted =~= before.map_values(|name: Seq<char>| Part::Normal(name)).push(
            Part::Normal(last),
        ));
        assert(parts(text) =~= wanted);
    }
    assert(text.len() > 0);
    if absolute(text) {
        assert(parts(text)[0] is Root);
        assert(wanted[0] is Normal);
    }
    assert forall|i: int| 0 <= i < parts(text).len() implies (#[trigger] parts(text)[i]) is Normal by {
        assert(wanted[i] is Normal);
    }
}

proof fn trailing_separator(names: Seq<Seq<char>>)
    requires
        names.len() > 0,
        forall|i: int| 0 <= i < names.len() ==> plain_name(#[trigger] names[i]),
    ensures
        joined(names, "/"@).len() > 0,
        joined(names, "/"@).last() != '/',
{
    let last = names[names.len() - 1];
    let text = joined(names, "/"@);
    assert(plain_name(last));
    assert(text.last() == last.last());
    if last.last() == '/' {
        assert(last.contains('/'));
    }
}

/// What follows a base in a path that lies below it leads from the base to that path again.
pub proof fn a_relative_path_leads_back(path: Seq<char>, base: Seq<char>)
    requires
        base.len() > 0,
        parts(base).len() > 0,
        under(path, base),
        parts(base).len() < parts(path).len(),
        forall|i: int|
            parts(base).len() <= i < parts(path).len() ==> (#[trigger] parts(path)[i]) is Normal,
    ensures
        relative(path, base) matches Some(below) && plain_relative(below) && parts(
            joined_path(base, below),
        ) == parts(path),
{
    let count = parts(base).len() as int;
    let rest = parts(path).skip(count);
    let names = rest.map_values(|part: Part| part_text(part));
    normal_parts_are_plain_names(path);
    assert forall|i: int| 0 <= i < names.len() implies plain_name(#[trigger] names[i]) by {
        assert(rest[i] == parts(path)[i + count]);
    }
    joined_names_are_parts(names);
    let below = joined(names, "/"@);
    joined_path_stays_inside(base, below);
    assert forall|i: int| 0 <= i < rest.len() implies rest[i] == names.map_values(
        |name: Seq<char>| Part::Normal(name),
    )[i] by {
        assert(rest[i] == parts(path)[i + count]);
    }
    assert(parts(below) =~= rest);
    assert(parts(path) =~= parts(base) + rest);
}

} // verus!
