use dotman::paths::expand_path;
use dotman::paths::join_paths;
use dotman::paths::parent_path;

fn s(x: &str) -> String {
    x.to_string()
}

#[test]
fn join_glues_with_one_separator() {
    assert_eq!(join_paths(&s("/home/u/dotfiles"), &s("bash/.bashrc")), s("/home/u/dotfiles/bash/.bashrc"));
    assert_eq!(join_paths(&s("a"), &s("b")), s("a/b"));
    assert_eq!(join_paths(&s("a/"), &s("b")), s("a/b"));
}

#[test]
fn join_absolute_right_side_wins() {
    assert_eq!(join_paths(&s("/root1"), &s("/etc/x")), s("/etc/x"));
}

#[test]
fn join_empty_root_keeps_relative_path() {
    assert_eq!(join_paths(&s(""), &s("b")), s("b"));
}

#[test]
fn expand_tilde_alone_is_home() {
    assert_eq!(expand_path(&Some(s("/home/u")), &s("~")), Some(s("/home/u")));
}

#[test]
fn expand_tilde_prefix_joins_home() {
    assert_eq!(expand_path(&Some(s("/home/u")), &s("~/.bashrc")), Some(s("/home/u/.bashrc")));
    assert_eq!(expand_path(&Some(s("/")), &s("~/x")), Some(s("/x")));
}

#[test]
fn expand_leaves_plain_paths_alone() {
    assert_eq!(expand_path(&Some(s("/home/u")), &s("/etc/x")), Some(s("/etc/x")));
    assert_eq!(expand_path(&None, &s("/etc/x")), Some(s("/etc/x")));
    assert_eq!(expand_path(&Some(s("/home/u")), &s("~user/x")), Some(s("~user/x")));
}

#[test]
fn expand_fails_without_home() {
    assert_eq!(expand_path(&None, &s("~")), None);
    assert_eq!(expand_path(&None, &s("~/.bashrc")), None);
}

#[test]
fn parent_strips_last_component() {
    assert_eq!(parent_path(&s("/home/u/.bashrc")), Some(s("/home/u")));
    assert_eq!(parent_path(&s("/x")), Some(s("/")));
    assert_eq!(parent_path(&s("a/b")), Some(s("a")));
    assert_eq!(parent_path(&s("name")), Some(s("")));
}

#[test]
fn parent_of_root_and_empty_is_none() {
    assert_eq!(parent_path(&s("/")), None);
    assert_eq!(parent_path(&s("")), None);
}
