//! Environment files: variables that are given to builds and migrations.
use vstd::prelude::*;

use crate::error::AppError;
#[allow(unused_imports)]
use crate::error::{outcome, AppErrorView};
use crate::release::{FileKind, Metadata};
#[allow(unused_imports)]
use crate::text::{decimal, mode_octal, str_debug};
use crate::text::{cat2, cat3, debug_text, decimal_text, mode_octal_text, text_eq};

verus! {

/// An entry of an environment file.
#[derive(Debug)]
pub enum Entry<T> {
    /// A variable with its value.
    Variable { name: T, value: T },
    /// A line that cannot be read from a byte on.
    Syntax { index: usize },
    /// The file could not be read on.
    Unreadable { source: T },
    /// A reference to a variable that is invalid.
    Reference { source: T },
    /// Something else that went wrong.
    Unknown,
}

impl View for Entry<String> {
    type V = Entry<Seq<char>>;

    open spec fn view(&self) -> Entry<Seq<char>> {
        match self {
            Entry::Variable { name, value } => Entry::Variable { name: name@, value: value@ },
            Entry::Syntax { index } => Entry::Syntax { index: *index },
            Entry::Unreadable { source } => Entry::Unreadable { source: source@ },
            Entry::Reference { source } => Entry::Reference { source: source@ },
            Entry::Unknown => Entry::Unknown,
        }
    }
}

impl DeepView for Entry<String> {
    type V = Entry<Seq<char>>;

    open spec fn deep_view(&self) -> Entry<Seq<char>> {
        self@
    }
}

/// The entries of an environment file, given what the process environment answered to each lookup
/// of a name that the file refers to, in their order: its value, or nothing.
pub uninterp spec fn file_entries(bytes: Seq<u8>, answers: Seq<Option<Seq<char>>>) -> Seq<Entry<Seq<char>>>;

/// Whether two lists of entries differ at most in the values of their variables.
pub open spec fn same_but_values(
    left: Seq<Entry<Seq<char>>>,
    right: Seq<Entry<Seq<char>>>,
) -> bool {
    &&& left.len() == right.len()
    &&& forall|i: int|
        0 <= i < left.len() ==> match (#[trigger] left[i], right[i]) {
            (Entry::Variable { name, .. }, Entry::Variable { name: other, .. }) => name == other,
            (one, another) => one == another,
        }
}

/// Calls dotenvy's `from_read_iter` on the bytes of a file and collects what it gives. Values may
/// refer with `$` to variables of the process, so the result is a function of the bytes and of
/// what the process environment answers; which answers it gives is left unsaid. The answers go
/// into values alone: names, and what is wrong with the file, are the same whatever they are, and
/// nothing depends on them where the bytes hold no `$`. An empty file has no entries. Of a line
/// that cannot be read only the index is kept, not the text.
#[verifier::external_body]
pub(crate) fn read_entries(bytes: &Vec<u8>) -> (entries: Vec<Entry<String>>)
    ensures
        exists|answers: Seq<Option<Seq<char>>>|
            entries.deep_view() == #[trigger] file_entries(bytes@, answers),
        forall|answers: Seq<Option<Seq<char>>>|
            same_but_values(entries.deep_view(), #[trigger] file_entries(bytes@, answers)),
        !bytes@.contains(0x24u8) ==> forall|answers: Seq<Option<Seq<char>>>|
            entries.deep_view() == #[trigger] file_entries(bytes@, answers),
        bytes@.len() == 0 ==> entries@.len() == 0,
{
    dotenvy::from_read_iter(bytes.as_slice()).map(
        |entry| match entry {
            Ok((name, value)) => Entry::Variable { name, value },
            Err(dotenvy::Error::LineParse(_, index)) => Entry::Syntax { index },
            Err(dotenvy::Error::Io(error)) => Entry::Unreadable { source: error.to_string() },
            Err(dotenvy::Error::EnvVar(error)) => Entry::Reference { source: error.to_string() },
            Err(_) => Entry::Unknown,
        },
    ).collect()
}

/// The error of an environment file.
pub open spec fn file_flaw(path: Seq<char>, reason: Seq<char>) -> AppErrorView {
    AppErrorView::EnvironmentFile { path, reason }
}

/// The error of an entry that is no variable. The text of the file is not shown.
pub open spec fn entry_flaw(path: Seq<char>, entry: Entry<Seq<char>>) -> Option<AppErrorView> {
    match entry {
        Entry::Variable { .. } => None,
        Entry::Syntax { index } => Some(
            file_flaw(
                path,
                "syntax error at byte index "@ + decimal(index as nat)
                    + "; the line value was redacted"@,
            ),
        ),
        Entry::Unreadable { source } => Some(file_flaw(path, "could not be read: "@ + source)),
        Entry::Reference { source } => Some(
            file_flaw(path, "contains an invalid variable reference: "@ + source),
        ),
        Entry::Unknown => Some(
            file_flaw(path, "could not be parsed; the source value was redacted"@),
        ),
    }
}

/// Whether a list of variables names one.
pub open spec fn names(variables: Seq<(Seq<char>, Seq<char>)>, name: Seq<char>) -> bool {
    exists|i: int| 0 <= i < variables.len() && (#[trigger] variables[i]).0 == name
}

/// The variables of entries in their order; the first entry that is no variable, or names one
/// again, is reported.
pub open spec fn variables(path: Seq<char>, entries: Seq<Entry<Seq<char>>>) -> Result<
    Seq<(Seq<char>, Seq<char>)>,
    AppErrorView,
>
    decreases entries.len(),
{
    if entries.len() == 0 {
        Ok(Seq::empty())
    } else {
        match variables(path, entries.drop_last()) {
            Err(error) => Err(error),
            Ok(before) => match entries.last() {
                Entry::Variable { name, value } => if names(before, name) {
                    Err(
                        file_flaw(
                            path,
                            "variable "@ + str_debug(name) + " is defined more than once"@,
                        ),
                    )
                } else {
                    Ok(before.push((name, value)))
                },
                entry => Err(entry_flaw(path, entry)->0),
            },
        }
    }
}

/// Whether two results are the same error, or lists of the same names.
pub open spec fn alike(
    left: Result<Seq<(Seq<char>, Seq<char>)>, AppErrorView>,
    right: Result<Seq<(Seq<char>, Seq<char>)>, AppErrorView>,
) -> bool {
    match (left, right) {
        (Ok(one), Ok(another)) => one.len() == another.len() && forall|i: int|
            0 <= i < one.len() ==> (#[trigger] one[i]).0 == (#[trigger] another[i]).0,
        (Err(one), Err(another)) => one == another,
        _ => false,
    }
}

fn file_error(path: &str, reason: String) -> (error: AppError)
    ensures
        error@ == file_flaw(path@, reason@),
{
    AppError::EnvironmentFile { path: path.to_owned(), reason }
}

/// The error of an entry that is no variable.
fn environment_file_error(path: &str, entry: &Entry<String>) -> (error: Option<AppError>)
    ensures
        error.deep_view() == entry_flaw(path@, entry@),
{
    match entry {
        Entry::Variable { .. } => None,
        Entry::Syntax { index } => Some(
            file_error(
                path,
                cat3(
                    "syntax error at byte index ",
                    decimal_text(*index as u64).as_str(),
                    "; the line value was redacted",
                ),
            ),
        ),
        Entry::Unreadable { source } => Some(
            file_error(path, cat2("could not be read: ", source.as_str())),
        ),
        Entry::Reference { source } => Some(
            file_error(path, cat2("contains an invalid variable reference: ", source.as_str())),
        ),
        Entry::Unknown => Some(
            file_error(path, "could not be parsed; the source value was redacted".to_owned()),
        ),
    }
}

fn has_name(list: &Vec<(String, String)>, name: &str) -> (found: bool)
    ensures
        found == names(list.deep_view(), name@),
{
    let mut i: usize = 0;
    while i < list.len()
        invariant
            i <= list.len(),
            forall|j: int| 0 <= j < i ==> (#[trigger] list.deep_view()[j]).0 != name@,
        decreases list.len() - i,
    {
        assert(list.deep_view()[i as int].0 == list[i as int].0@);
        if text_eq(list[i].0.as_str(), name) {
            return true;
        }
        i += 1;
    }
    false
}

proof fn variables_stop(path: Seq<char>, entries: Seq<Entry<Seq<char>>>, count: int)
    requires
        0 <= count <= entries.len(),
        variables(path, entries.take(count)) is Err,
    ensures
        variables(path, entries) == variables(path, entries.take(count)),
    decreases entries.len(),
{
    if count < entries.len() {
        assert(entries.drop_last().take(count) =~= entries.take(count));
        variables_stop(path, entries.drop_last(), count);
    } else {
        assert(entries.take(count) =~= entries);
    }
}

/// The variables of entries.
pub fn collect_variables(path: &str, entries: &Vec<Entry<String>>) -> (result: Result<
    Vec<(String, String)>,
    AppError,
>)
    ensures
        outcome(result) == variables(path@, entries.deep_view()),
{
    let ghost all = entries.deep_view();
    let mut list: Vec<(String, String)> = Vec::new();
    let mut i: usize = 0;
    assert(list.deep_view() =~= Seq::<(Seq<char>, Seq<char>)>::empty());
    assert(all.take(0) =~= Seq::<Entry<Seq<char>>>::empty());
    while i < entries.len()
        invariant
            i <= entries.len(),
            all == entries.deep_view(),
            variables(path@, all.take(i as int)) == Ok::<
                Seq<(Seq<char>, Seq<char>)>,
                AppErrorView,
            >(list.deep_view()),
        decreases entries.len() - i,
    {
        let ghost before = list.deep_view();
        assert(all.take(i + 1).drop_last() =~= all.take(i as int));
        assert(all[i as int] == entries[i as int]@);
        let flaw = environment_file_error(path, &entries[i]);
        match &entries[i] {
            Entry::Variable { name, value } => {
                if has_name(&list, name.as_str()) {
                    proof {
                        variables_stop(path@, all, i + 1);
                    }
                    return Err(
                        file_error(
                            path,
                            cat3(
                                "variable ",
                                debug_text(name.as_str()).as_str(),
                                " is defined more than once",
                            ),
                        ),
                    );
                }
                list.push((name.clone(), value.clone()));
                assert(list.deep_view() =~= before.push((name@, value@)));
            },
            _ => match flaw {
                Some(error) => {
                    proof {
                        variables_stop(path@, all, i + 1);
                    }
                    return Err(error);
                },
                None => {},
            },
        }
        i += 1;
    }
    assert(all.take(i as int) =~= all);
    Ok(list)
}

/// What reading a file came to.
#[derive(Debug)]
pub enum FileBytes {
    /// Its bytes.
    Read(Vec<u8>),
    /// Reading failed.
    Failed { source: String },
}

/// What is known of an environment file without following links, and what reading it came to.
#[derive(Debug)]
pub struct EnvironmentSource {
    pub metadata: Metadata,
    pub content: FileBytes,
}

/// What is wrong with an environment file. What the process environment answers to the references
/// in it does not matter for this, so those of one that knows no variable are taken.
pub open spec fn environment_flaw(path: Seq<char>, source: EnvironmentSource) -> Option<
    AppErrorView,
> {
    match access_flaw(path, source.metadata) {
        Some(error) => Some(error),
        None => match source.content {
            FileBytes::Failed { source: reason } => Some(
                file_flaw(path, "could not be read: "@ + reason@),
            ),
            FileBytes::Read(bytes) => match variables(path, file_entries(bytes@, Seq::empty())) {
                Err(error) => Some(error),
                Ok(_) => None,
            },
        },
    }
}

/// What is wrong with an environment file before it is read: it must be a regular file that only
/// its owner can read and write.
pub open spec fn access_flaw(path: Seq<char>, metadata: Metadata) -> Option<AppErrorView> {
    match metadata {
        Metadata::Missing { source } | Metadata::Failed { source } => Some(
            file_flaw(path, "could not read metadata: "@ + source@),
        ),
        Metadata::Found { kind, mode } => if !(kind is File) || mode & 0o777 != 0o600 {
            Some(
                file_flaw(
                    path,
                    "must be a regular file with mode 0600, got mode "@ + mode_octal(
                        (mode & 0o777) as nat,
                    ),
                ),
            )
        } else {
            None
        },
    }
}

/// Permission bits without the others.
pub fn permission_bits(mode: u32) -> (bits: u32)
    ensures
        bits == mode & 0o777,
        bits < 512,
{
    assert(mode & 0o777 < 512) by (bit_vector);
    mode & 0o777
}

fn check_access(path: &str, metadata: &Metadata) -> (flaw: Option<AppError>)
    ensures
        flaw.deep_view() == access_flaw(path@, *metadata),
{
    match metadata {
        Metadata::Missing { source } => Some(
            file_error(path, cat2("could not read metadata: ", source.as_str())),
        ),
        Metadata::Failed { source } => Some(
            file_error(path, cat2("could not read metadata: ", source.as_str())),
        ),
        Metadata::Found { kind, mode } => {
            let bits = permission_bits(*mode);
            if *kind != FileKind::File || bits != 0o600 {
                Some(
                    file_error(
                        path,
                        cat2(
                            "must be a regular file with mode 0600, got mode ",
                            mode_octal_text(bits).as_str(),
                        ),
                    ),
                )
            } else {
                None
            }
        },
    }
}

/// The variables of an environment file, given what is known of it without following links and
/// what reading it came to. The result is that of the entries of its bytes with what the process
/// environment answered to the references in them. The answers decide at most on values: whether
/// the file is refused, with what error, and the names of its variables depend on the bytes alone,
/// and where they hold no reference, so do the values.
pub fn load_environment_file(path: &str, source: EnvironmentSource) -> (result: Result<
    Vec<(String, String)>,
    AppError,
>)
    ensures
        match result {
            Ok(_) => environment_flaw(path@, source) is None,
            Err(error) => environment_flaw(path@, source) == Some(error@),
        },
        match access_flaw(path@, source.metadata) {
            Some(error) => outcome(result) == Err::<Seq<(Seq<char>, Seq<char>)>, AppErrorView>(
                error,
            ),
            None => match source.content {
                FileBytes::Failed { source: reason } => outcome(result) == Err::<
                    Seq<(Seq<char>, Seq<char>)>,
                    AppErrorView,
                >(file_flaw(path@, "could not be read: "@ + reason@)),
                FileBytes::Read(bytes) => {
                    &&& exists|answers: Seq<Option<Seq<char>>>|
                        outcome(result) == variables(
                            path@,
                            #[trigger] file_entries(bytes@, answers),
                        )
                    &&& forall|answers: Seq<Option<Seq<char>>>|
                        alike(
                            outcome(result),
                            variables(path@, #[trigger] file_entries(bytes@, answers)),
                        )
                    &&& !bytes@.contains(0x24u8) ==> forall|answers: Seq<Option<Seq<char>>>|
                        outcome(result) == variables(
                            path@,
                            #[trigger] file_entries(bytes@, answers),
                        )
                    &&& bytes@.len() == 0 ==> outcome(result) == Ok::<
                        Seq<(Seq<char>, Seq<char>)>,
                        AppErrorView,
                    >(Seq::empty())
                },
            },
        },
{
    match check_access(path, &source.metadata) {
        Some(error) => {
            return Err(error);
        },
        None => {},
    }
    match source.content {
        FileBytes::Failed { source } => Err(
            file_error(path, cat2("could not be read: ", source.as_str())),
        ),
        FileBytes::Read(bytes) => {
            let entries = read_entries(&bytes);
            let result = collect_variables(path, &entries);
            proof {
                let shown = entries.deep_view();
                let answers = choose|answers: Seq<Option<Seq<char>>>|
                    shown == #[trigger] file_entries(bytes@, answers);
                assert(outcome(result) == variables(path@, file_entries(bytes@, answers)));
                assert forall|other: Seq<Option<Seq<char>>>|
                    alike(
                        outcome(result),
                        variables(path@, #[trigger] file_entries(bytes@, other)),
                    ) by {
                    errors_reveal_no_values(path@, shown, file_entries(bytes@, other));
                }
                let none = Seq::<Option<Seq<char>>>::empty();
                assert(alike(outcome(result), variables(path@, file_entries(bytes@, none))));
            }
            result
        },
    }
}

/// Errors reveal no values: whether a file is refused, and with what error, depends only on the
/// names of its variables and on what else is wrong with it.
pub proof fn errors_reveal_no_values(
    path: Seq<char>,
    left: Seq<Entry<Seq<char>>>,
    right: Seq<Entry<Seq<char>>>,
)
    requires
        same_but_values(left, right),
    ensures
        alike(variables(path, left), variables(path, right)),
    decreases left.len(),
{
    if left.len() > 0 {
        let x = left.drop_last();
        let y = right.drop_last();
        assert(same_but_values(x, y)) by {
            assert forall|i: int| 0 <= i < x.len() implies match (#[trigger] x[i], y[i]) {
                (Entry::Variable { name, .. }, Entry::Variable { name: other, .. }) => name == other,
                (one, another) => one == another,
            } by {
                assert(x[i] == left[i] && y[i] == right[i]);
            }
        }
        errors_reveal_no_values(path, x, y);
        assert(left[left.len() - 1] == left.last());
        if let (Ok(one), Ok(another)) = (variables(path, x), variables(path, y)) {
            if let (Entry::Variable { name, .. }, Entry::Variable { .. }) = (
                left.last(),
                right.last(),
            ) {
                if names(one, name) {
                    let i = choose|i: int| 0 <= i < one.len() && (#[trigger] one[i]).0 == name;
                    assert(another[i].0 == name);
                }
                if names(another, name) {
                    let i = choose|i: int|
                        0 <= i < another.len() && (#[trigger] another[i]).0 == name;
                    assert(one[i].0 == name);
                }
            }
        }
    }
}

/// The variables of a file are all different.
pub proof fn variables_are_different(path: Seq<char>, entries: Seq<Entry<Seq<char>>>)
    ensures
        variables(path, entries) matches Ok(list) ==> forall|i: int, j: int|
            0 <= i < j < list.len() ==> (#[trigger] list[i]).0 != (#[trigger] list[j]).0,
    decreases entries.len(),
{
    if entries.len() > 0 {
        variables_are_different(path, entries.drop_last());
    }
}

} // verus!
