use luneweb::vfs::{normalize_path, VirtualFileSystem};

#[test]
fn empty_by_default() {
    let vfs = VirtualFileSystem::new();

    assert_eq!(vfs.len(), 0);
}

#[test]
fn file_exists_after_write() {
    let mut vfs = VirtualFileSystem::new();
    let contents = &[1, 2, 3, 4];

    vfs.write("./data/file", contents);

    assert!(vfs.file_exists("./data/file"));
    assert!(vfs.file_exists("./data/../data/file"));

    assert_eq!(vfs.read("./data/file"), Some(contents.to_vec()));
}

#[test]
fn remove_file() {
    let mut vfs = VirtualFileSystem::new();
    let contents = &[1, 2, 3, 4];

    vfs.write("./data/file", contents);

    assert!(vfs.file_exists("./data/file"));

    vfs.remove("./data/../data/file");

    assert!(!vfs.file_exists("./data/file"));
}

#[test]
fn normal_forms() {
    assert_eq!(normalize_path("./data/file"), b"data/file".to_vec());
    assert_eq!(normalize_path("./data/../data/file"), b"data/file".to_vec());
    assert_eq!(normalize_path("/a//b/./c/"), b"/a/b/c".to_vec());
    assert_eq!(normalize_path("../a"), b"a".to_vec());
    assert_eq!(normalize_path("a/b/../../.."), b"".to_vec());
    assert_eq!(normalize_path("/"), b"/".to_vec());
    assert_eq!(normalize_path(""), b"".to_vec());
    assert_eq!(normalize_path("..."), b"...".to_vec());
}

#[test]
fn write_replaces_earlier_contents() {
    let mut vfs = VirtualFileSystem::new();
    vfs.write("a/b", &[1]);
    vfs.write("a/./b", &[2, 3]);
    assert_eq!(vfs.len(), 1);
    assert_eq!(vfs.read("a/b"), Some(vec![2, 3]));
    assert_eq!(vfs.read("a/c"), None);
}

#[test]
fn remove_of_missing_file_changes_nothing() {
    let mut vfs = VirtualFileSystem::new();
    vfs.write("x", &[9]);
    vfs.remove("y");
    assert_eq!(vfs.len(), 1);
    assert!(vfs.file_exists("x"));
}

#[test]
fn normal_form_of_a_normal_form_is_itself() {
    for path in ["./data/../data/file", "/a//b/./c/", "../..", "/", "", "a/./b/../c", "//x"] {
        let once = normalize_path(path);
        let text = String::from_utf8(once.clone()).unwrap();
        assert_eq!(normalize_path(&text), once);
    }
}
