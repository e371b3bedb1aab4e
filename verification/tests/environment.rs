use aynur_deploy::environment::{
    collect_variables, load_environment_file, permission_bits, EnvironmentSource, Entry, FileBytes,
};
use aynur_deploy::error::AppError;
use aynur_deploy::release::{FileKind, Metadata};

fn load(text: &str) -> Result<Vec<(String, String)>, AppError> {
    load_environment_file(
        "/srv/service.env",
        EnvironmentSource {
            metadata: Metadata::Found { kind: FileKind::File, mode: 0o100600 },
            content: FileBytes::Read(text.as_bytes().to_vec()),
        },
    )
}

#[test]
fn environment_file_rejects_duplicate_variables() {
    let error = load("APP_PROFILE=one\nAPP_PROFILE=two\n").unwrap_err();

    assert!(error
        .message()
        .contains("variable \"APP_PROFILE\" is defined more than once"));
}

#[test]
fn environment_file_parse_errors_redact_source_values() {
    let error = load("SECRET='super-secret\n").unwrap_err();
    let message = error.message();

    assert!(message.contains("value was redacted"));
    assert!(!message.contains("super-secret"));
}

#[test]
fn environment_files_are_read_in_order() {
    let variables = load("# comment\nB=2\nexport A='one two'\nC=\"x\\ny\"\n").unwrap();
    let expected = [("B", "2"), ("A", "one two"), ("C", "x\ny")];
    assert_eq!(variables.len(), expected.len());
    for (variable, wanted) in variables.iter().zip(expected) {
        assert_eq!((variable.0.as_str(), variable.1.as_str()), wanted);
    }
    assert!(load("").unwrap().is_empty());
}

#[test]
fn environment_files_must_be_private_regular_files() {
    for (kind, mode, shown) in [
        (FileKind::File, 0o100644, "0644"),
        (FileKind::Symlink, 0o120777, "0777"),
        (FileKind::Directory, 0o40600, "0600"),
    ] {
        let error = load_environment_file(
            "/srv/service.env",
            EnvironmentSource {
                metadata: Metadata::Found { kind, mode },
                content: FileBytes::Read(Vec::new()),
            },
        )
        .unwrap_err();
        assert_eq!(
            error.message(),
            format!(
                "environment file /srv/service.env is invalid: \
                 must be a regular file with mode 0600, got mode {shown}"
            )
        );
    }
    let error = load_environment_file(
        "/srv/service.env",
        EnvironmentSource {
            metadata: Metadata::Missing { source: "no such file".to_owned() },
            content: FileBytes::Failed { source: "no such file".to_owned() },
        },
    )
    .unwrap_err();
    assert_eq!(
        error.message(),
        "environment file /srv/service.env is invalid: could not read metadata: no such file"
    );
    let error = load_environment_file(
        "/srv/service.env",
        EnvironmentSource {
            metadata: Metadata::Found { kind: FileKind::File, mode: 0o600 },
            content: FileBytes::Failed { source: "denied".to_owned() },
        },
    )
    .unwrap_err();
    assert_eq!(
        error.message(),
        "environment file /srv/service.env is invalid: could not be read: denied"
    );
    assert_eq!(permission_bits(0o100640), 0o640);
}

#[test]
fn every_kind_of_entry_error_is_reported() {
    let cases = [
        (
            Entry::Syntax { index: 7 },
            "syntax error at byte index 7; the line value was redacted",
        ),
        (Entry::Unreadable { source: "denied".to_owned() }, "could not be read: denied"),
        (
            Entry::Reference { source: "environment variable not found".to_owned() },
            "contains an invalid variable reference: environment variable not found",
        ),
        (Entry::Unknown, "could not be parsed; the source value was redacted"),
    ];
    for (entry, reason) in cases {
        let first = Entry::Variable { name: "A".to_owned(), value: "secret".to_owned() };
        let error = collect_variables("/e", &vec![first, entry]).unwrap_err();
        assert_eq!(error.message(), format!("environment file /e is invalid: {reason}"));
        assert_eq!(error.code(), "environmentFileInvalid");
    }
}

#[test]
fn references_are_replaced_by_values() {
    let variables = load("AYNURFILEBASE=one\nB=${AYNURFILEBASE}x\nC=$AYNURFILELOST\n").unwrap();
    let expected = [("AYNURFILEBASE", "one"), ("B", "onex"), ("C", "")];
    assert_eq!(variables.len(), expected.len());
    for (variable, wanted) in variables.iter().zip(expected) {
        assert_eq!((variable.0.as_str(), variable.1.as_str()), wanted);
    }
}

#[test]
fn references_do_not_decide_on_errors() {
    assert_eq!(
        load("A=$PATH\nA=$AYNURFILELOST\n").unwrap_err().message(),
        load("A=1\nA=2\n").unwrap_err().message()
    );
    assert_eq!(
        load("A=${PATH\n").unwrap_err().message(),
        load("A=${LOST\n").unwrap_err().message()
    );
}

#[test]
fn errors_do_not_depend_on_values() {
    let left = load("A=first\nA=second\n").unwrap_err().message();
    let right = load("A=third\nA=fourth\n").unwrap_err().message();
    assert_eq!(left, right);
}
