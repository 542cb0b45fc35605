use filethings::paths::{
    get_absolute_path_with_home_dir, get_relative_path_with_home_dir, get_unique_candidate,
    get_unique_filepath, list_holds, split_file_path, PathNode,
};

fn t3(a: &str, b: &str, c: &str) -> (String, String, String) {
    (a.to_string(), b.to_string(), c.to_string())
}

#[test]
fn a_path_is_split_into_directory_stem_and_extension() {
    assert_eq!(split_file_path("/tmp/a.PNG"), t3("/tmp", "a", "PNG"));
    assert_eq!(split_file_path("/tmp/archive.tar.gz"), t3("/tmp", "archive.tar", "gz"));
    assert_eq!(split_file_path("/tmp/noext"), t3("/tmp", "noext", ""));
    assert_eq!(split_file_path("/tmp/.hidden"), t3("/tmp", ".hidden", ""));
    assert_eq!(split_file_path("name.txt"), t3("", "name", "txt"));
    assert_eq!(split_file_path("/"), t3("", "", ""));
    assert_eq!(split_file_path(""), t3("", "", ""));
    assert_eq!(split_file_path("/tmp/dir/"), t3("/tmp", "dir", ""));
}

#[test]
fn the_home_directory_is_written_as_a_tilde() {
    assert_eq!(get_relative_path_with_home_dir("/home/u/a/b.txt", Some("/home/u")), "~/a/b.txt");
    assert_eq!(get_relative_path_with_home_dir("/home/u", Some("/home/u")), "~");
    assert_eq!(get_relative_path_with_home_dir("/home/bob/bak/home/bob/x", Some("/home/bob")), "~/bak/home/bob/x");
    assert_eq!(get_relative_path_with_home_dir("/tmp/a", Some("/home/u")), "/tmp/a");
    assert_eq!(get_relative_path_with_home_dir("/x/home/u/a", Some("/home/u")), "/x/home/u/a");
    assert_eq!(get_relative_path_with_home_dir("/home/u/a", Some("")), "/home/u/a");
    assert_eq!(get_relative_path_with_home_dir("/home/u/a", None), "/home/u/a");
    // only the home directory at the front is written as a tilde
    assert_eq!(get_relative_path_with_home_dir("/home/u/x/home/u", Some("/home/u")), "~/x/home/u");
}

#[test]
fn a_tilde_is_written_out_as_the_home_directory() {
    assert_eq!(get_absolute_path_with_home_dir("~/a/b.txt", Some("/home/u"), '/'), "/home/u/a/b.txt");
    assert_eq!(get_absolute_path_with_home_dir("~", Some("/home/u"), '/'), "~");
    assert_eq!(get_absolute_path_with_home_dir("~/a/~/b", Some("/home/u"), '/'), "/home/u/a/~/b");
    assert_eq!(get_absolute_path_with_home_dir("~a/~/b", Some("/home/u"), '/'), "~a/~/b");
    assert_eq!(get_absolute_path_with_home_dir("/tmp/~/a", Some("/home/u"), '/'), "/tmp/~/a");
    assert_eq!(get_absolute_path_with_home_dir("~/a", None, '/'), "~/a");
    assert_eq!(get_absolute_path_with_home_dir("~/a", Some(""), '/'), "~/a");
    assert_eq!(get_absolute_path_with_home_dir("~\\a", Some("C:\\Users\\u"), '\\'), "C:\\Users\\u\\a");
    assert_eq!(get_absolute_path_with_home_dir("~/a", Some("C:\\Users\\u"), '\\'), "~/a");
}

#[test]
fn the_first_free_name_is_taken() {
    let none: Vec<String> = vec![];
    assert_eq!(get_unique_filepath("/tmp/a.png", None, None, &none).unwrap(), "/tmp/a.png");
    let taken = vec!["/tmp/a.png".to_string(), "/tmp/a-1.png".to_string(), "/tmp/a-3.png".to_string()];
    assert_eq!(get_unique_filepath("/tmp/a.png", None, None, &taken).unwrap(), "/tmp/a-2.png");
    assert_eq!(get_unique_filepath("/tmp/a.png", None, Some("svg"), &taken).unwrap(), "/tmp/a.svg");
    assert_eq!(get_unique_filepath("/tmp/a.png", Some("b"), None, &taken).unwrap(), "/tmp/b.png");
    let svg = vec!["/tmp/b.svg".to_string()];
    assert_eq!(get_unique_filepath("/tmp/a.png", Some("b"), Some("svg"), &svg).unwrap(), "/tmp/b-1.svg");
    assert_eq!(get_unique_candidate("/tmp/a.png", None, None, 0), "/tmp/a.png");
    assert_eq!(get_unique_candidate("/tmp/a.png", None, None, 12), "/tmp/a-12.png");
    assert!(list_holds(&taken, "/tmp/a-1.png"));
    assert!(!list_holds(&taken, "/tmp/a-2.png"));
}

#[test]
fn nodes_say_what_is_on_disk() {
    let m = PathNode::missing("/x");
    assert!(!m.exists && !m.is_file && !m.is_dir && m.children.is_empty());
    let f = PathNode::file("/x/a", 12);
    assert!(f.exists && f.is_file && !f.is_dir && f.size == 12);
    let d = PathNode::dir("/x", vec![PathNode::file("/x/a", 12)]);
    assert!(d.exists && !d.is_file && d.is_dir && d.children.len() == 1);
    assert_eq!(d.children[0], f);
}
