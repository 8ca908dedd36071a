use foxmayn_cowork::error::AppError;
use foxmayn_cowork::paths::{
    resolve_paths, resolve_rename_operations, sanitize_path, validate_generated_filename,
    validate_path_containment,
};

fn project_base() -> String {
    // Tests run from the package root: the project under test.
    std::path::Path::new(".")
        .canonicalize()
        .unwrap()
        .to_string_lossy()
        .into_owned()
}

fn validation_text(r: &Result<String, AppError>) -> String {
    match r {
        Err(AppError::ToolValidation(m)) => m.clone(),
        _ => panic!("expected a rejected tool call"),
    }
}

#[test]
fn validate_rejects_explicit_parent_dir_components() {
    let base = project_base();
    assert!(validate_path_containment("../escape", &base).is_err());
    assert!(validate_path_containment("../../escape", &base).is_err());
    assert!(validate_path_containment("foo/../bar", &base).is_err());
    assert!(validate_path_containment("./../escape", &base).is_err());
}

#[test]
fn validate_allows_relative_paths_within_base() {
    let base = project_base();
    assert!(validate_path_containment("src/main.rs", &base).is_ok());
    assert!(validate_path_containment("Cargo.toml", &base).is_ok());
    assert!(validate_path_containment("nonexistent_file_xyz.txt", &base).is_ok());
    assert!(validate_path_containment("nested/dir/that/does/not/exist.txt", &base).is_ok());
}

#[test]
fn validate_rejects_absolute_paths_outside_base() {
    let base = project_base();
    assert!(validate_path_containment("/etc/passwd", &base).is_err());
    assert!(validate_path_containment("/tmp", &base).is_err());
    assert!(validate_path_containment("/this/path/does/not/exist/anywhere", &base).is_err());
}

#[test]
fn validate_allows_canonicalized_absolute_paths_inside_base() {
    let base = project_base();
    let inside = std::path::Path::new(&base).join("src/main.rs");
    let result = validate_path_containment(inside.to_string_lossy().as_ref(), &base);
    assert!(result.is_ok());
}

#[test]
fn tools_rejects_explicit_parent_dir_components() {
    let base = project_base();
    assert!(validate_path_containment("../escape", &base).is_err());
    assert!(validate_path_containment("../../escape", &base).is_err());
    assert!(validate_path_containment("foo/../bar", &base).is_err());
    assert!(validate_path_containment("./../escape", &base).is_err());
}

#[test]
fn tools_allows_relative_paths_within_base() {
    let base = project_base();
    assert!(validate_path_containment("src/main.rs", &base).is_ok());
    assert!(validate_path_containment("Cargo.toml", &base).is_ok());
    assert!(validate_path_containment("nonexistent_file_xyz.txt", &base).is_ok());
    assert!(validate_path_containment("nested/dir/that/does/not/exist.txt", &base).is_ok());
}

#[test]
fn tools_rejects_absolute_paths_outside_base() {
    let base = project_base();
    assert!(validate_path_containment("/etc/passwd", &base).is_err());
    assert!(validate_path_containment("/tmp", &base).is_err());
    assert!(validate_path_containment("/this/path/does/not/exist/anywhere", &base).is_err());
}

#[test]
fn tools_allows_canonicalized_absolute_paths_inside_base() {
    let base = project_base();
    let inside = std::path::Path::new(&base).join("src/main.rs");
    let result = validate_path_containment(inside.to_string_lossy().as_ref(), &base);
    assert!(result.is_ok());
}

#[test]
fn parent_components_are_refused_with_their_message() {
    let base = project_base();
    let r = validate_path_containment("a/../b", &base);
    assert_eq!(
        validation_text(&r),
        "Path 'a/../b' contains '..' components which are not allowed"
    );
}

#[test]
fn relative_paths_resolve_under_the_base() {
    let base = project_base();
    let r = validate_path_containment("Cargo.toml", &base).unwrap();
    assert_eq!(r, format!("{base}/Cargo.toml"));
    let missing = validate_path_containment("no/such/file.txt", &base).unwrap();
    assert_eq!(missing, format!("{base}/no/such/file.txt"));
}

#[test]
fn outside_paths_are_refused_with_the_base_named() {
    let base = project_base();
    let r = validate_path_containment("/etc/passwd", &base);
    let text = validation_text(&r);
    assert!(text.contains("outside the working directory"));
}

#[test]
fn an_empty_path_list_is_refused() {
    let base = project_base();
    match resolve_paths(Vec::new(), &base) {
        Err(AppError::ToolValidation(m)) => assert_eq!(m, "No paths were provided"),
        _ => panic!("expected a refusal"),
    }
}

#[test]
fn path_lists_resolve_in_order_and_stop_at_the_first_escape() {
    let base = project_base();
    let ok = resolve_paths(vec!["a.txt".to_string(), "b/c.txt".to_string()], &base).unwrap();
    assert_eq!(ok, vec![format!("{base}/a.txt"), format!("{base}/b/c.txt")]);
    let bad = resolve_paths(vec!["../x".to_string(), "y".to_string()], &base);
    match bad {
        Err(AppError::ToolValidation(m)) => {
            assert_eq!(m, "Path '../x' contains '..' components which are not allowed")
        }
        _ => panic!("expected a refusal"),
    }
}

#[test]
fn rename_operations_resolve_both_sides() {
    let base = project_base();
    let ops = vec![("old.txt".to_string(), "new.txt".to_string())];
    let r = resolve_rename_operations(ops, &base).unwrap();
    assert_eq!(r, vec![(format!("{base}/old.txt"), format!("{base}/new.txt"))]);
    let bad = vec![("ok.txt".to_string(), "../escape.txt".to_string())];
    assert!(resolve_rename_operations(bad, &base).is_err());
}

#[test]
fn generated_filenames_must_be_single_components() {
    assert!(validate_generated_filename("report.md").is_ok());
    for bad in ["", ".", "..", "a/b", "a\\b"] {
        match validate_generated_filename(bad) {
            Err(AppError::ToolValidation(m)) => assert_eq!(
                m,
                format!("Bulk rename generated an invalid filename: {:?}", bad)
            ),
            _ => panic!("expected {bad:?} to be refused"),
        }
    }
}

#[test]
fn sanitize_path_flattens_separators() {
    assert_eq!(sanitize_path("/home/nas/myproject"), "-home-nas-myproject");
    assert_eq!(sanitize_path("C:\\work\\x"), "C:-work-x");
    assert_eq!(sanitize_path("plain"), "plain");
}

#[test]
fn existing_files_inside_the_base_resolve_to_their_canonical_form() {
    let base = project_base();
    assert_eq!(validate_path_containment("src/lib.rs", &base).unwrap(), format!("{base}/src/lib.rs"));
    let inside = format!("{base}/src/lib.rs");
    assert_eq!(validate_path_containment(&inside, &base).unwrap(), inside);
    assert!(validate_path_containment("/etc", &base).is_err());
}
