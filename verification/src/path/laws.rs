//! What holds of paths and their components.
use vstd::prelude::*;

#[allow(unused_imports)]
use crate::path::{
    absolute, has_dots, joined_path, name_of, no_root_among, parent_drops_last_part, parent_of,
    parts, parts_of, pieces, plain_relative, relative, safe_link_target, same_parts, toml_file,
    under, Part,
};
#[allow(unused_imports)]
use crate::text::ends_with;

verus! {

/// A path begins with another, component by component, exactly if its components are those of the
/// other and some more; two paths are the same exactly if each begins with the other.
pub proof fn containment_goes_by_components(path: Seq<char>, base: Seq<char>)
    ensures
        under(path, base) <==> exists|rest: Seq<Part>| #[trigger]
            (parts(base) + rest) == parts(path),
        same_parts(path, base) <==> under(path, base) && under(base, path),
        relative(path, base) is Some <==> under(path, base),
{
    if under(path, base) {
        let rest = parts(path).skip(parts(base).len() as int);
        assert(parts(base) + rest =~= parts(path));
    }
    if exists|rest: Seq<Part>| #[trigger] (parts(base) + rest) == parts(path) {
        let rest = choose|rest: Seq<Part>| #[trigger] (parts(base) + rest) == parts(path);
        assert(parts(path).take(parts(base).len() as int) =~= parts(base));
    }
    if same_parts(path, base) {
        assert(parts(path).take(parts(base).len() as int) =~= parts(base));
        assert(parts(base).take(parts(path).len() as int) =~= parts(path));
    }
    if under(path, base) && under(base, path) {
        assert(parts(path).take(parts(base).len() as int) =~= parts(path));
    }
}

/// Only the first component of a path can be the root, and it is exactly if the path is absolute.
pub proof fn the_root_comes_first(path: Seq<char>)
    ensures
        absolute(path) <==> parts(path).len() > 0 && parts(path)[0] is Root,
        forall|i: int| 1 <= i < parts(path).len() ==> !((#[trigger] parts(path)[i]) is Root),
{
    no_root_among(pieces(path));
    assert forall|i: int| 1 <= i < parts(path).len() implies !((#[trigger] parts(path)[i]) is Root) by {
        if absolute(path) {
            assert(parts(path)[i] == parts_of(pieces(path))[i - 1]);
        }
    }
}

/// A path is relative and names only what lies below its base exactly if it is not empty, does not
/// begin at the root, and has neither `.` nor `..` among its components.
pub proof fn plain_paths_have_no_dots(path: Seq<char>)
    ensures
        plain_relative(path) <==> path.len() > 0 && !absolute(path) && !has_dots(path),
{
    the_root_comes_first(path);
    if path.len() > 0 && !absolute(path) && !has_dots(path) {
        assert forall|i: int| 0 <= i < parts(path).len() implies (#[trigger] parts(path)[i])
            is Normal by {
            assert(!(parts(path)[i] is Root));
        }
    }
}

/// A link may point to a target exactly if the target does not begin at the root and no component
/// of it goes up.
pub proof fn safe_links_never_lead_up(target: Seq<char>)
    ensures
        safe_link_target(target) <==> !absolute(target) && (forall|i: int|
            0 <= i < parts(target).len() ==> !((#[trigger] parts(target)[i]) is Parent)),
{
    the_root_comes_first(target);
    if !absolute(target) && (forall|i: int|
        0 <= i < parts(target).len() ==> !((#[trigger] parts(target)[i]) is Parent)) {
        assert forall|i: int| 0 <= i < parts(target).len() implies ((#[trigger] parts(target)[i])
            is Normal || parts(target)[i] is Cur) by {
            assert(!(parts(target)[i] is Root));
        }
    }
}

/// A path has a parent exactly if it has a component other than the root; the parent has all
/// components but the last, and so is another path that the path begins with.
pub proof fn parents_come_one_up(path: Seq<char>)
    ensures
        parent_of(path) is Some <==> parts(path).len() > (if absolute(path) {
            1nat
        } else {
            0
        }),
        parent_of(path) matches Some(parent) ==> parts(parent).len() + 1 == parts(path).len()
            && under(path, parent) && !same_parts(parent, path),
{
    the_root_comes_first(path);
    parent_drops_last_part(path);
    if let Some(parent) = parent_of(path) {
        assert(parts(path).take(parts(parent).len() as int) =~= parts(parent));
    }
}

/// A path ends in a name with the extension `toml` exactly if its last component is that extension
/// after something.
pub proof fn toml_files_have_a_stem(path: Seq<char>)
    ensures
        toml_file(path) <==> exists|stem: Seq<char>|
            stem.len() > 0 && parts(path).len() > 0 && parts(path).last() == Part::Normal(
                #[trigger] (stem + ".toml"@),
            ),
{
    if toml_file(path) {
        let name = name_of(path)->0;
        let stem = name.take(name.len() - ".toml"@.len());
        assert(stem + ".toml"@ =~= name);
    }
    if exists|stem: Seq<char>|
        stem.len() > 0 && parts(path).len() > 0 && parts(path).last() == Part::Normal(
            #[trigger] (stem + ".toml"@),
        ) {
        let stem = choose|stem: Seq<char>|
            stem.len() > 0 && parts(path).len() > 0 && parts(path).last() == Part::Normal(
                #[trigger] (stem + ".toml"@),
            );
        assert((stem + ".toml"@).skip(stem.len() as int) =~= ".toml"@);
    }
}

} // verus!
