use twig::get_icon;

#[test]
fn test_known_extensions() {
    assert_eq!(get_icon("file.rs", false), "\u{e7a8}");
    assert_eq!(get_icon("test.md", false), "\u{e73e}");
    assert_eq!(get_icon("script.sh", false), "\u{e795}");
}

#[test]
fn test_special_files() {
    assert_eq!(get_icon("LICENSE", false), "\u{eb12}");
    assert_eq!(get_icon("Makefile", false), "\u{eb6d}");
    assert_eq!(get_icon("Cargo.toml", false), "\u{e7a8}");
}

#[test]
fn test_special_directories() {
    assert_eq!(get_icon("src", true), "\u{f121}");
    assert_eq!(get_icon("target", true), "\u{f1b3}");
    assert_eq!(get_icon(".git", true), "\u{e702}");
    assert_eq!(get_icon("other", true), "\u{f115}");
}

#[test]
fn test_unknown_file() {
    assert_eq!(get_icon("unknown.xyz", false), "\u{f15b}");
    assert_eq!(get_icon("README", false), "\u{f15b}");
}

#[test]
fn trailing_slash_keeps_extension() {
    assert_eq!(get_icon("b.rs/", false), get_icon("c.rs", false));
    assert_eq!(twig::icons::extension_of("dir/x.tar.gz//"), Some("gz".to_string()));
    assert_eq!(twig::icons::extension_of(".bashrc"), None);
}
