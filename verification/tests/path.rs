use kerla::components::{path_components_bytes, split_bytes, SLASH};
use kerla::path::{str_equals, Path, PathBuf};

fn collect(path: &str) -> Vec<String> {
    let mut comps = Path::new(path).components();
    let mut out = Vec::new();
    while let Some(c) = comps.next_component() {
        out.push(c.to_string());
    }
    out
}

#[test]
fn components_skip_one_leading_slash() {
    assert_eq!(collect("/a/b/c"), vec!["a", "b", "c"]);
    assert_eq!(collect("a/b"), vec!["a", "b"]);
    assert_eq!(collect("/"), Vec::<String>::new());
    assert_eq!(collect(""), Vec::<String>::new());
    assert_eq!(collect("a//b"), vec!["a", "", "b"]);
    assert_eq!(collect("a/b/"), vec!["a", "b"]);
    assert_eq!(collect("//a"), vec!["", "a"]);
}

#[test]
fn components_as_path_shows_the_rest() {
    let mut comps = Path::new("/usr/lib/x").components();
    assert_eq!(comps.as_path().as_str(), "usr/lib/x");
    assert_eq!(comps.next_component(), Some("usr"));
    assert_eq!(comps.as_path().as_str(), "lib/x");
    assert!(!comps.is_empty());
    comps.next_component();
    comps.next_component();
    assert!(comps.is_empty());
    assert_eq!(comps.next_component(), None);
}

#[test]
fn absolute_paths() {
    assert!(Path::new("/bin").is_absolute());
    assert!(!Path::new("bin").is_absolute());
    assert!(!Path::new("").is_absolute());
    assert_eq!(Path::new("/x").as_str(), "/x");
}

#[test]
fn path_bufs() {
    assert_eq!(PathBuf::new().as_path().as_str(), "");
    assert_eq!(PathBuf::from_str("/tmp").as_path().as_str(), "/tmp");
    assert_eq!(PathBuf::from_string(String::from("a/b")).as_path().as_str(), "a/b");
    assert_eq!(PathBuf::from_path(Path::new("c")).as_path().as_str(), "c");
}

#[test]
fn string_equality() {
    assert!(str_equals("null", "null"));
    assert!(!str_equals("null", "nul"));
    assert!(!str_equals("abc", "abd"));
    assert!(str_equals("", ""));
}

#[test]
fn byte_components() {
    let r = split_bytes(b"a/bc//d", SLASH);
    assert_eq!(r, vec![b"a".to_vec(), b"bc".to_vec(), b"".to_vec(), b"d".to_vec()]);
    let r = path_components_bytes(b"/x/y");
    assert_eq!(r, vec![b"x".to_vec(), b"y".to_vec()]);
    assert_eq!(path_components_bytes(b"/"), Vec::<Vec<u8>>::new());
}

fn split_last(path: &str) -> Option<(String, String)> {
    Path::new(path)
        .parent_and_basename()
        .map(|(dir, name)| (dir.as_str().to_string(), name.to_string()))
}

#[test]
fn parent_and_basename_splits_at_the_last_slash() {
    assert_eq!(split_last("/"), None);
    assert_eq!(split_last("/a"), Some(("/".to_string(), "a".to_string())));
    assert_eq!(split_last("/a/b/c"), Some(("/a/b".to_string(), "c".to_string())));
    assert_eq!(split_last("a/b"), Some(("a".to_string(), "b".to_string())));
    assert_eq!(split_last("name"), Some((".".to_string(), "name".to_string())));
    assert_eq!(split_last(""), Some((".".to_string(), "".to_string())));
    assert_eq!(split_last("a/"), Some(("a".to_string(), "".to_string())));
}
