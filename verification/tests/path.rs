use std::path::Path;
use ui_test::TestPath;

fn file(name: &str) -> TestPath {
    TestPath::new("tests/fail/".to_string(), "tests/fail".to_string(), name.to_string())
}

#[test]
fn shows_paths() {
    let path = file("a.rs");
    assert_eq!(path.display(), "tests/fail/a.rs");
    assert_eq!(path.parent(), "tests/fail");
    assert_eq!(path.file_name(), "a.rs");
}

#[test]
fn extensions_are_those_of_the_standard_library() {
    for name in ["a.rs", "a", ".rs", "a.b.rs", "a.", ".a.rs", "...", "..rs", "a..rs"] {
        let expected = Path::new(name).extension().map(|ext| ext.to_str().unwrap().to_string());
        assert_eq!(file(name).extension(), expected, "{}", name);
    }
}

#[test]
fn extensions_are_exchanged_as_in_the_standard_library() {
    for name in ["a.rs", "a", ".rs", "a.b.rs", "a.", ".a.rs"] {
        for ext in ["stderr", "64bit.stderr", ""] {
            let expected = Path::new(name).with_extension(ext);
            let path = file(name).with_extension(ext);
            assert_eq!(path.file_name(), expected.to_str().unwrap());
            assert_eq!(path.parent(), "tests/fail");
        }
    }
    assert_eq!(file("a.rs").with_extension("stderr").display(), "tests/fail/a.stderr");
}
