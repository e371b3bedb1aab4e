use std::path::{Component, Path};

use aynur_deploy::path;

const PATHS: [&str; 22] = [
    "", "/", "//", ".", "..", "./", "a", "a/", "a//b", "/a", "/a/", "/a/./b", "./a/b", "a/./b",
    "a/../b", "/..", "/../a", "a/b/c", "/usr/bin/git", ".hidden", "/a/..", "../a",
];

fn shown(component: &path::Component) -> String {
    match component {
        path::Component::Root => "/".to_owned(),
        path::Component::Cur => ".".to_owned(),
        path::Component::Parent => "..".to_owned(),
        path::Component::Normal(name) => name.clone(),
    }
}

#[test]
fn components_are_those_of_std() {
    for text in PATHS {
        let ours: Vec<String> = path::components(text).iter().map(shown).collect();
        let theirs: Vec<String> = Path::new(text)
            .components()
            .map(|component| component.as_os_str().to_str().unwrap().to_owned())
            .collect();
        assert_eq!(ours, theirs, "components of {text:?}");
    }
}

#[test]
fn parents_names_and_joins_are_those_of_std() {
    for text in PATHS {
        assert_eq!(
            path::parent(text),
            Path::new(text).parent().map(|value| value.to_str().unwrap().to_owned()),
            "parent of {text:?}"
        );
        assert_eq!(
            path::file_name(text),
            Path::new(text).file_name().map(|value| value.to_str().unwrap().to_owned()),
            "name of {text:?}"
        );
        assert_eq!(path::is_absolute(text), Path::new(text).is_absolute());
        for other in PATHS {
            assert_eq!(
                path::join(text, other),
                Path::new(text).join(other).to_str().unwrap(),
                "join of {text:?} and {other:?}"
            );
        }
    }
}

#[test]
fn comparisons_are_those_of_std() {
    for text in PATHS {
        for other in PATHS {
            let (one, another) = (Path::new(text), Path::new(other));
            assert_eq!(path::same_path(text, other), one == another, "{text:?} {other:?}");
            assert_eq!(path::starts_with(text, other), one.starts_with(another));
            assert_eq!(path::path_precedes(text, other), one < another, "{text:?} {other:?}");
        }
    }
}

#[test]
fn relative_paths_are_those_of_std() {
    for (text, base) in [
        ("/a/b/c", "/a"),
        ("/a/b/c", "/a/"),
        ("/a", "/a"),
        ("/a/b", "/b"),
        ("a/b", ""),
        ("/", "/"),
    ] {
        let theirs = Path::new(text)
            .strip_prefix(base)
            .ok()
            .map(|value| value.to_str().unwrap().to_owned());
        assert_eq!(path::relative_to(text, base), theirs, "{text:?} below {base:?}");
    }
}

#[test]
fn plain_relative_paths_hold_only_names() {
    for text in PATHS {
        let value = Path::new(text);
        let expected = !text.is_empty()
            && !value.is_absolute()
            && value.components().all(|component| matches!(component, Component::Normal(_)));
        assert_eq!(path::is_plain_relative(text), expected, "{text:?}");
        let dots = value
            .components()
            .any(|component| matches!(component, Component::CurDir | Component::ParentDir));
        assert_eq!(path::contains_dots(text), dots, "{text:?}");
        let safe = !value.is_absolute()
            && value
                .components()
                .all(|component| matches!(component, Component::Normal(_) | Component::CurDir));
        assert_eq!(path::is_safe_link_target(text), safe, "{text:?}");
    }
}

#[test]
fn project_files_have_the_toml_extension() {
    for text in ["a.toml", "/x/a.toml", ".toml", "a.TOML", "a.toml.bak", "toml", "a.b.toml", ""] {
        let expected = Path::new(text).extension().and_then(|value| value.to_str()) == Some("toml");
        assert_eq!(path::is_toml_file(text), expected, "{text:?}");
    }
}

#[test]
fn debug_texts_are_those_of_std() {
    assert_eq!(path::debug_opt_path(&None), "None");
    let awkward = "/srv/a \"b\"\\\n";
    assert_eq!(
        path::debug_opt_path(&Some(awkward.to_owned())),
        format!("{:?}", Some(Path::new(awkward)))
    );
}
