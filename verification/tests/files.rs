use atenda::util::files::{get_extension, get_extension_defined, is_filename, path_in_dir};

#[test]
fn is_filename_accepts_plain_names() {
    assert!(is_filename("mod.jar"));
    assert!(is_filename("a.b.c"));
    assert!(is_filename(""));
    assert!(is_filename("espaço.txt"));
}

#[test]
fn is_filename_refuses_separators_and_parents() {
    assert!(!is_filename("a/b"));
    assert!(!is_filename("a\\b"));
    assert!(!is_filename("c:x"));
    assert!(!is_filename("..x"));
    assert!(!is_filename("x.."));
    assert!(!is_filename("/"));
}

#[test]
fn get_extension_from_last_dot() {
    assert_eq!(get_extension("index.html"), Some(".html"));
    assert_eq!(get_extension("a.b.c"), Some(".c"));
    assert_eq!(get_extension("dir.v2/file"), Some(".v2/file"));
    assert_eq!(get_extension("a."), Some("."));
    assert_eq!(get_extension(".hidden"), Some(".hidden"));
}

#[test]
fn get_extension_none_without_dot() {
    assert_eq!(get_extension("noext"), None);
    assert_eq!(get_extension(""), None);
}

#[test]
fn get_extension_after_non_ascii_name() {
    assert_eq!(get_extension("é.txt"), Some(".txt"));
}

#[test]
fn get_extension_counts_bytes_after_non_ascii_extension() {
    // Four bytes, two characters after the cut: the byte offset falls after
    // the dot, as the length arithmetic mixes bytes and characters.
    assert_eq!(get_extension("a.é"), Some("é"));
}

#[test]
fn path_in_dir_by_components() {
    assert!(path_in_dir(Some("/srv/public"), Some("/srv/public/a/b.txt")));
    assert!(path_in_dir(Some("/srv/public"), Some("/srv/public")));
    assert!(!path_in_dir(Some("/srv/public"), Some("/srv/publicity/a")));
    assert!(!path_in_dir(Some("/srv/public"), Some("/etc/passwd")));
}

#[test]
fn path_in_dir_false_when_a_path_is_missing() {
    assert!(!path_in_dir(None, Some("/srv/public/a")));
    assert!(!path_in_dir(Some("/srv/public"), None));
    assert!(!path_in_dir(None, None));
}

#[test]
fn get_extension_defined_on_ascii_and_dotless_names() {
    assert!(get_extension_defined("index.html"));
    assert!(get_extension_defined("no_dot"));
    assert!(get_extension_defined(""));
    assert!(get_extension_defined("espaço.txt"));
}

#[test]
fn get_extension_defined_refuses_cut_inside_a_character() {
    // Four characters from the dot on, but the cut lands inside the first `é`.
    assert!(!get_extension_defined("ç.éé"));
    assert!(get_extension_defined("a.ç"));
    assert_eq!(get_extension("a.ç"), Some("ç"));
}
