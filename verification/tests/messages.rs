use bathpack::disk::ListingFailure;
use bathpack::error::FileMapError;
use bathpack::template::TemplateError;

fn s(text: &str) -> String {
    text.to_string()
}

#[test]
fn template_failures_say_which_kind() {
    assert_eq!(
        FileMapError::Template(TemplateError::Invalid(s("bad"))).message(),
        "Destination format invalid: bad"
    );
    assert_eq!(
        FileMapError::Template(TemplateError::KeyError(s("bad"))).message(),
        "Destination format key error: bad"
    );
    assert_eq!(
        FileMapError::Template(TemplateError::TypeError(s("bad"))).message(),
        "Destination format type error: bad"
    );
    assert_eq!(TemplateError::Invalid(s("x")).message(), "Destination format invalid: x");
}

#[test]
fn scope_failure_lists_the_paths() {
    assert_eq!(
        FileMapError::Scope { paths: vec![s("/a/../b"), s("/c")] }.message(),
        "Some destination paths were outside the destination directory:\n/a/../b\n/c"
    );
}

#[test]
fn existence_failure_lists_the_files() {
    assert_eq!(
        FileMapError::NonexistentFiles { files: vec![s("/a"), s("/b")] }.message(),
        "Some source files do not exist:\n/a\n/b"
    );
}

#[test]
fn pairing_failure_lists_both_sides() {
    assert_eq!(
        FileMapError::Pairing { missing_sources: vec![s("b"), s("c")], missing_destinations: vec![s("a")] }
            .message(),
        "Some names stand on one side only. Without a source: b, c. Without a destination: a"
    );
}

#[test]
fn listing_failure_gives_one_line_for_each_path() {
    let failures = vec![
        ListingFailure { path: s("/p/x"), reason: s("Permission denied") },
        ListingFailure { path: s("/p/y"), reason: s("Input/output error") },
    ];
    assert_eq!(
        FileMapError::Glob { failures }.message(),
        "Errors while matching glob patterns:\n/p/x: Permission denied\n/p/y: Input/output error"
    );
}

#[test]
fn path_failures_name_the_path() {
    assert_eq!(FileMapError::Unanswered { name: s("doc") }.message(), "Nothing is known of the source doc");
    assert_eq!(
        FileMapError::Canonicalize { path: s("/p/a"), reason: s("gone") }.message(),
        "Could not resolve /p/a: gone"
    );
    assert_eq!(FileMapError::NoParent { path: s("/") }.message(), "Could not get the parent folder of /");
    assert_eq!(
        FileMapError::InvalidPath { paths: vec![s("/q"), s("/r")] }.message(),
        "Some listed paths were outside their folder:\n/q\n/r"
    );
    assert_eq!(
        FileMapError::Pattern { pattern: s("/p/[") , position: 3, message: s("invalid range pattern") }
            .message(),
        "Invalid pattern /p/[: invalid range pattern"
    );
}
