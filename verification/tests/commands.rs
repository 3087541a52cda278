use std::path::PathBuf;

use quire_cli::commands::{root_outcome, spec_root_of, DocumentRootError};

#[test]
fn a_missing_document_root_is_a_named_error() {
    let err = spec_root_of("/definitely/not/a/scope").unwrap_err();
    assert_eq!(err.kind(), "MissingDocumentRoot");
    match &err {
        DocumentRootError::Missing { path } => assert_eq!(path, "/definitely/not/a/scope/spec"),
    }
    assert!(err.message().starts_with("no document root at '/definitely/not/a/scope/spec'"));
}

#[test]
fn a_root_that_is_not_a_directory_is_missing() {
    let r = root_outcome("s/spec".to_string(), PathBuf::from("s/spec"), None);
    assert_eq!(
        r,
        Err(DocumentRootError::Missing {
            path: "s/spec".to_string()
        })
    );
}

#[test]
fn the_canonical_root_wins_where_there_is_one() {
    let r = root_outcome(
        "s/spec".to_string(),
        PathBuf::from("s/spec"),
        Some(Ok(PathBuf::from("/abs/s/spec"))),
    );
    assert_eq!(r, Ok(PathBuf::from("/abs/s/spec")));
}

#[test]
fn a_root_that_cannot_be_canonicalized_is_kept_as_it_is() {
    let err = std::io::Error::new(std::io::ErrorKind::Other, "no");
    let r = root_outcome("s/spec".to_string(), PathBuf::from("s/spec"), Some(Err(err)));
    assert_eq!(r, Ok(PathBuf::from("s/spec")));
}
