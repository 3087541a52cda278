use std::path::PathBuf;

use quire_cli::safety::{
    out_outcome, resolution_result, validate_data_path, validate_input_path, validate_module_path,
    validate_out_path, PathError, PathTraversalReason,
};

#[test]
fn rejects_dotdot_in_module() {
    let err = validate_module_path("foo/../bar").unwrap_err();
    assert!(matches!(err, PathError::Traversal { .. }));
    assert!(err.message().contains("PathTraversal"));
}

#[test]
fn rejects_dotdot_in_data() {
    let err = validate_data_path("../etc/passwd").unwrap_err();
    assert!(matches!(err, PathError::Traversal { .. }));
}

#[test]
fn rejects_dotdot_in_out() {
    let err = validate_out_path("../escape.md").unwrap_err();
    assert!(matches!(err, PathError::Traversal { .. }));
}

#[test]
fn data_must_be_file() {
    let err = validate_data_path("/").unwrap_err();
    assert!(matches!(err, PathError::NotAFile(_)));
}

#[test]
fn module_path_canonicalizes() {
    let canonical = validate_module_path("/").unwrap();
    assert!(canonical.is_absolute());
}

#[test]
fn missing_module_is_user_error() {
    let err = validate_module_path("/definitely/not/a/real/path/quire-xyz").unwrap_err();
    assert!(matches!(err, PathError::Io { .. }));
}

#[test]
fn out_path_parent_must_exist() {
    let err = validate_out_path("/definitely/not/a/real/dir/out.md").unwrap_err();
    assert!(matches!(err, PathError::Io { .. }));
}

#[test]
fn out_path_in_existing_dir_ok() {
    let resolved = validate_out_path("/tmp/out.md").unwrap();
    assert!(resolved.ends_with("out.md"));
}

#[test]
fn a_traversal_names_the_argument_and_the_path() {
    match validate_input_path("document", "a/../b.md").unwrap_err() {
        PathError::Traversal {
            argument,
            path,
            reason,
        } => {
            assert_eq!(argument, "document");
            assert_eq!(path, "a/../b.md");
            assert_eq!(reason, PathTraversalReason::DotDotSegment);
        }
        other => panic!("expected a traversal, got {other:?}"),
    }
}

#[test]
fn dots_inside_a_name_are_not_a_parent_segment() {
    let err = validate_data_path("/definitely/not/a..b/x.md").unwrap_err();
    assert!(matches!(err, PathError::Io { .. }));
}

#[test]
fn io_errors_carry_the_labelled_path() {
    match validate_module_path("/definitely/not/here").unwrap_err() {
        PathError::Io { argument, .. } => {
            assert_eq!(argument, "--module '/definitely/not/here'");
        }
        other => panic!("expected an I/O error, got {other:?}"),
    }
}

#[test]
fn a_bare_out_name_is_kept_as_given() {
    let p = validate_out_path("out.md").unwrap();
    assert_eq!(p.to_str(), Some("out.md"));
}

#[test]
fn refusals_read_as_one_line() {
    assert_eq!(
        PathError::NotAFile("x".to_string()).message(),
        "PathNotAFile: 'x' is not a regular file"
    );
    assert_eq!(
        PathError::NotADirectory("y".to_string()).message(),
        "PathNotADirectory: 'y' is not a directory"
    );
}

#[test]
fn an_out_path_keeps_its_file_name_under_the_resolved_parent() {
    let resolved = validate_out_path("tests/out.md").unwrap();
    assert!(resolved.is_absolute());
    assert!(resolved.ends_with("tests/out.md"));
    assert!(!resolved.ends_with("tests/tests/out.md"));
}

#[test]
fn module_must_be_directory() {
    let err = validate_module_path("/etc/passwd").unwrap_err();
    assert!(matches!(err, PathError::NotADirectory(_)));
}

#[test]
fn a_name_that_merely_holds_dots_is_no_traversal() {
    for raw in ["..md", "a..b/x.md", "x/...", "x/.hidden"] {
        let err = validate_data_path(raw).unwrap_err();
        assert!(!matches!(err, PathError::Traversal { .. }), "{raw}");
    }
    assert!(matches!(
        validate_data_path("x/../y").unwrap_err(),
        PathError::Traversal { .. }
    ));
}

fn io_error() -> std::io::Error {
    std::io::Error::new(std::io::ErrorKind::NotFound, "gone")
}

#[test]
fn an_out_path_under_a_resolved_parent_joins_the_file_name_there() {
    let r = out_outcome(
        "sub/out.md",
        "sub".to_string(),
        Ok(PathBuf::from("/abs/sub")),
        true,
        Some("out.md".to_string()),
    );
    assert_eq!(r.unwrap(), PathBuf::from("/abs/sub/out.md"));
}

#[test]
fn an_out_parent_that_is_no_directory_is_refused_by_its_text() {
    let r = out_outcome("sub/out.md", "sub".to_string(), Ok(PathBuf::from("/abs/sub")), false, None);
    assert!(matches!(r, Err(PathError::NotADirectory(p)) if p == "sub"));
}

#[test]
fn an_out_path_without_a_file_name_is_not_a_file() {
    let r = out_outcome("sub/..", "sub".to_string(), Ok(PathBuf::from("/abs/sub")), true, None);
    assert!(matches!(r, Err(PathError::NotAFile(p)) if p == "sub/.."));
}

#[test]
fn an_out_parent_that_does_not_resolve_is_an_io_refusal() {
    let r = out_outcome("sub/out.md", "sub".to_string(), Err(io_error()), false, None);
    assert!(matches!(r, Err(PathError::Io { argument, .. }) if argument == "--out 'sub/out.md'"));
}

#[test]
fn a_resolved_argument_is_kept_only_when_of_the_wanted_kind() {
    let kept = resolution_result("--module", "m", Ok(PathBuf::from("/abs/m")), true, true);
    assert_eq!(kept.unwrap(), PathBuf::from("/abs/m"));
    let not_dir = resolution_result("--module", "m", Ok(PathBuf::from("/abs/m")), false, true);
    assert!(matches!(not_dir, Err(PathError::NotADirectory(p)) if p == "m"));
    let not_file = resolution_result("--data", "d", Ok(PathBuf::from("/abs/d")), false, false);
    assert!(matches!(not_file, Err(PathError::NotAFile(p)) if p == "d"));
    let gone = resolution_result("--data", "d", Err(io_error()), false, false);
    assert!(matches!(gone, Err(PathError::Io { argument, .. }) if argument == "--data 'd'"));
}

#[test]
fn a_resolved_directory_is_absolute() {
    let p = validate_module_path("tests").unwrap();
    assert!(p.is_absolute());
    assert!(p.ends_with("tests"));
}
