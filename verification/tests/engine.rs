use dotman::config::Mapping;
use dotman::error::Error;
use dotman::links::install;
use dotman::links::install_prompt;
use dotman::links::is_actual_link;
use dotman::links::list;
use dotman::links::remove;
use dotman::links::Action;
use dotman::links::Notice;
use dotman::state::Entry;
use dotman::state::Fs;

fn s(x: &str) -> String {
    x.to_string()
}

fn mapping(src: &str, dest: &str) -> Mapping {
    Mapping { src: s(src), dest: s(dest) }
}

/// A state holding the home directory, the dotfiles root with one source
/// file in it, and nothing else.
fn base_fs() -> Fs {
    Fs::new()
        .set_entry(s("/home/u"), Entry::Other)
        .set_entry(s("/home/u/dotfiles"), Entry::Other)
        .set_entry(s("/home/u/dotfiles/bash/.bashrc"), Entry::Other)
}

const ROOT: &str = "/home/u/dotfiles";

fn home() -> Option<String> {
    Some(s("/home/u"))
}

#[test]
fn scenario_install_list_remove() {
    let mappings = vec![mapping("bash/.bashrc", "~/.bashrc")];
    let r = install(base_fs(), &mappings, &s(ROOT), &home(), false, false, &vec![]);
    assert!(r.failure.is_none());
    assert_eq!(
        r.notices,
        vec![Notice::Link { src: s("/home/u/dotfiles/bash/.bashrc"), dest: s("/home/u/.bashrc") }]
    );
    assert_eq!(
        r.actions,
        vec![Action::CreateSymlink { src: s("/home/u/dotfiles/bash/.bashrc"), dest: s("/home/u/.bashrc") }]
    );
    assert!(is_actual_link(&r.fs, &s("/home/u/dotfiles/bash/.bashrc"), &s("/home/u/.bashrc")));

    let r2 = list(r.fs, &mappings, &s(ROOT), &home());
    assert!(r2.failure.is_none());
    assert_eq!(
        r2.notices,
        vec![Notice::Link { src: s("/home/u/dotfiles/bash/.bashrc"), dest: s("/home/u/.bashrc") }]
    );
    assert!(r2.actions.is_empty());

    let r3 = remove(r2.fs, &mappings, &s(ROOT), &home());
    assert!(r3.failure.is_none());
    assert_eq!(r3.notices, vec![Notice::Unlink { dest: s("/home/u/.bashrc") }]);
    assert_eq!(r3.actions, vec![Action::RemoveEntry { dest: s("/home/u/.bashrc") }]);
    assert!(!r3.fs.contains_path(&s("/home/u/.bashrc")));

    let r4 = list(r3.fs, &mappings, &s(ROOT), &home());
    assert!(r4.notices.is_empty());
}

#[test]
fn empty_mapping_collection_is_a_silent_success() {
    let r = install(base_fs(), &vec![], &s(ROOT), &home(), false, false, &vec![]);
    assert!(r.failure.is_none());
    assert!(r.notices.is_empty());
    assert!(r.actions.is_empty());
    assert_eq!(r.fs, base_fs());
    let r2 = remove(base_fs(), &vec![], &s(ROOT), &home());
    assert!(r2.failure.is_none() && r2.notices.is_empty());
    let r3 = list(base_fs(), &vec![], &s(ROOT), &home());
    assert!(r3.failure.is_none() && r3.notices.is_empty());
}

#[test]
fn install_skips_missing_source() {
    let mappings = vec![mapping("nope/.missing", "~/.missing")];
    for (force, dry_run) in [(false, false), (true, false), (false, true), (true, true)] {
        let r = install(base_fs(), &mappings, &s(ROOT), &home(), force, dry_run, &vec![]);
        assert!(r.failure.is_none());
        assert_eq!(
            r.notices,
            vec![Notice::SourceMissing { src: s("/home/u/dotfiles/nope/.missing") }]
        );
        assert!(r.actions.is_empty());
        assert_eq!(r.fs, base_fs());
        assert!(!r.fs.contains_path(&s("/home/u/.missing")));
    }
}

#[test]
fn install_twice_with_force_is_idempotent() {
    let mappings = vec![
        mapping("bash/.bashrc", "~/.bashrc"),
        mapping("nope/.missing", "~/.missing"),
    ];
    let r1 = install(base_fs(), &mappings, &s(ROOT), &home(), true, false, &vec![]);
    assert!(r1.failure.is_none());
    let first = r1.fs.clone();
    let r2 = install(r1.fs, &mappings, &s(ROOT), &home(), true, false, &vec![]);
    assert!(r2.failure.is_none());
    assert_eq!(r2.fs, first);
}

#[test]
fn install_twice_is_idempotent_with_overlapping_destinations() {
    let fs = base_fs().set_entry(s("/home/u/dotfiles/bash/.bash_aliases"), Entry::Other);
    let mappings = vec![
        mapping("bash/.bashrc", "~/.bashrc"),
        mapping("bash/.bash_aliases", "~/.bashrc"),
    ];
    let r1 = install(fs, &mappings, &s(ROOT), &home(), true, false, &vec![]);
    assert!(r1.failure.is_none());
    let first = r1.fs.clone();
    let r2 = install(r1.fs, &mappings, &s(ROOT), &home(), true, false, &vec![]);
    assert!(r2.failure.is_none());
    assert_eq!(r2.fs, first);
}

#[test]
fn dry_run_changes_nothing_and_reports_like_a_forced_run() {
    let fs = base_fs().set_entry(s("/home/u/.bashrc"), Entry::Other);
    let mappings = vec![mapping("bash/.bashrc", "~/.bashrc")];
    let dry = install(fs.clone(), &mappings, &s(ROOT), &home(), true, true, &vec![]);
    assert!(dry.failure.is_none());
    assert_eq!(dry.fs, fs);
    assert!(dry.actions.is_empty());
    assert_eq!(dry.answers_used, 0);
    let real = install(fs, &mappings, &s(ROOT), &home(), true, false, &vec![]);
    assert_eq!(dry.notices, real.notices);
    assert!(!real.actions.is_empty());
}

#[test]
fn install_overwrites_occupied_destination_with_force() {
    let fs = base_fs().set_entry(s("/home/u/.bashrc"), Entry::Other);
    let mappings = vec![mapping("bash/.bashrc", "~/.bashrc")];
    let r = install(fs, &mappings, &s(ROOT), &home(), true, false, &vec![]);
    assert!(r.failure.is_none());
    assert_eq!(
        r.actions,
        vec![
            Action::RemoveEntry { dest: s("/home/u/.bashrc") },
            Action::CreateSymlink { src: s("/home/u/dotfiles/bash/.bashrc"), dest: s("/home/u/.bashrc") },
        ]
    );
    assert!(is_actual_link(&r.fs, &s("/home/u/dotfiles/bash/.bashrc"), &s("/home/u/.bashrc")));
    assert_eq!(r.answers_used, 0);
}

#[test]
fn install_declined_overwrite_skips_the_mapping() {
    let fs = base_fs().set_entry(s("/home/u/.bashrc"), Entry::Other);
    let mappings = vec![mapping("bash/.bashrc", "~/.bashrc")];
    let r = install(fs.clone(), &mappings, &s(ROOT), &home(), false, false, &vec![false]);
    assert!(r.failure.is_none());
    assert_eq!(r.notices, vec![Notice::SkippingDest { dest: s("/home/u/.bashrc") }]);
    assert!(r.actions.is_empty());
    assert_eq!(r.fs, fs);
    assert_eq!(r.answers_used, 1);
}

#[test]
fn install_unanswerable_prompt_declines() {
    let fs = base_fs().set_entry(s("/home/u/.bashrc"), Entry::Other);
    let mappings = vec![mapping("bash/.bashrc", "~/.bashrc")];
    let r = install(fs.clone(), &mappings, &s(ROOT), &home(), false, false, &vec![]);
    assert_eq!(r.notices, vec![Notice::SkippingDest { dest: s("/home/u/.bashrc") }]);
    assert_eq!(r.fs, fs);
    assert_eq!(r.answers_used, 1);
}

#[test]
fn install_confirmed_overwrite_replaces_the_destination() {
    let fs = base_fs().set_entry(s("/home/u/.bashrc"), Entry::Other);
    let mappings = vec![mapping("bash/.bashrc", "~/.bashrc")];
    let r = install(fs, &mappings, &s(ROOT), &home(), false, false, &vec![true]);
    assert!(r.failure.is_none());
    assert_eq!(
        r.notices,
        vec![Notice::Link { src: s("/home/u/dotfiles/bash/.bashrc"), dest: s("/home/u/.bashrc") }]
    );
    assert!(is_actual_link(&r.fs, &s("/home/u/dotfiles/bash/.bashrc"), &s("/home/u/.bashrc")));
    assert_eq!(r.answers_used, 1);
}

#[test]
fn install_creates_missing_parent_directory() {
    let fs = Fs::new().set_entry(s("/home/u/dotfiles/conf/app.toml"), Entry::Other);
    let mappings = vec![mapping("conf/app.toml", "~/.config/app.toml")];
    let r = install(fs, &mappings, &s(ROOT), &home(), false, false, &vec![]);
    assert!(r.failure.is_none());
    assert_eq!(
        r.actions,
        vec![
            Action::CreateDirAll { dir: s("/home/u/.config") },
            Action::CreateSymlink { src: s("/home/u/dotfiles/conf/app.toml"), dest: s("/home/u/.config/app.toml") },
        ]
    );
    assert!(r.fs.contains_path(&s("/home/u/.config")));
}

#[test]
fn remove_leaves_a_foreign_symlink_alone() {
    let fs = base_fs().set_entry(
        s("/home/u/.bashrc"),
        Entry::Symlink { target: s("/somewhere/else") },
    );
    let mappings = vec![mapping("bash/.bashrc", "~/.bashrc")];
    let r = remove(fs.clone(), &mappings, &s(ROOT), &home());
    assert!(r.failure.is_none());
    assert_eq!(
        r.notices,
        vec![Notice::NoMatch { dest: s("/home/u/.bashrc"), src: s("/home/u/dotfiles/bash/.bashrc") }]
    );
    assert!(r.actions.is_empty());
    assert_eq!(r.fs, fs);
}

#[test]
fn remove_leaves_a_plain_file_alone() {
    let fs = base_fs().set_entry(s("/home/u/.bashrc"), Entry::Other);
    let mappings = vec![mapping("bash/.bashrc", "~/.bashrc")];
    let r = remove(fs.clone(), &mappings, &s(ROOT), &home());
    assert_eq!(
        r.notices,
        vec![Notice::NoMatch { dest: s("/home/u/.bashrc"), src: s("/home/u/dotfiles/bash/.bashrc") }]
    );
    assert_eq!(r.fs, fs);
}

#[test]
fn link_target_must_match_exactly() {
    let fs = base_fs().set_entry(
        s("/home/u/.bashrc"),
        Entry::Symlink { target: s("/home/u/dotfiles/bash/.bashrc/") },
    );
    assert!(!is_actual_link(&fs, &s("/home/u/dotfiles/bash/.bashrc"), &s("/home/u/.bashrc")));
    let r = list(fs, &vec![mapping("bash/.bashrc", "~/.bashrc")], &s(ROOT), &home());
    assert!(r.notices.is_empty());
}

#[test]
fn expansion_failure_aborts_on_the_destination() {
    let mappings = vec![mapping("bash/.bashrc", "~/.bashrc")];
    let r = install(base_fs(), &mappings, &s("/dots"), &None, false, false, &vec![]);
    assert_eq!(r.failure, Some(Error::FailedToExpandTilde(s("~/.bashrc"))));
    assert!(r.notices.is_empty());
    assert!(r.actions.is_empty());
}

#[test]
fn expansion_failure_aborts_on_the_source() {
    let mappings = vec![mapping("bash/.bashrc", "/abs/.bashrc")];
    let r = remove(base_fs(), &mappings, &s("~/dotfiles"), &None);
    assert_eq!(r.failure, Some(Error::FailedToExpandTilde(s("~/dotfiles/bash/.bashrc"))));
}

#[test]
fn expansion_failure_keeps_earlier_progress() {
    let mappings = vec![
        mapping("bash/.bashrc", "/tmp/.bashrc"),
        mapping("bash/.bashrc", "~/.bashrc2"),
    ];
    let r = install(base_fs(), &mappings, &s(ROOT), &None, true, false, &vec![]);
    assert_eq!(r.failure, Some(Error::FailedToExpandTilde(s("~/.bashrc2"))));
    assert_eq!(
        r.notices,
        vec![Notice::Link { src: s("/home/u/dotfiles/bash/.bashrc"), dest: s("/tmp/.bashrc") }]
    );
    assert!(r.fs.contains_path(&s("/tmp/.bashrc")));
}

#[test]
fn round_trip_removes_what_install_created() {
    let fs = base_fs().set_entry(s("/home/u/dotfiles/bash/.bash_aliases"), Entry::Other);
    let mappings = vec![
        mapping("bash/.bashrc", "~/.bashrc"),
        mapping("bash/.bash_aliases", "~/.bash_aliases"),
    ];
    let r1 = install(fs, &mappings, &s(ROOT), &home(), true, false, &vec![]);
    assert!(r1.failure.is_none());
    let r2 = remove(r1.fs, &mappings, &s(ROOT), &home());
    assert!(r2.failure.is_none());
    assert!(!r2.fs.contains_path(&s("/home/u/.bashrc")));
    assert!(!r2.fs.contains_path(&s("/home/u/.bash_aliases")));
    let r3 = list(r2.fs, &mappings, &s(ROOT), &home());
    assert!(r3.notices.is_empty());
}

#[test]
fn later_mapping_wins_an_overlapping_destination() {
    let fs = base_fs().set_entry(s("/home/u/dotfiles/bash/.bash_aliases"), Entry::Other);
    let mappings = vec![
        mapping("bash/.bashrc", "~/.bashrc"),
        mapping("bash/.bash_aliases", "~/.bashrc"),
    ];
    let r = install(fs, &mappings, &s(ROOT), &home(), true, false, &vec![]);
    assert!(r.failure.is_none());
    assert!(is_actual_link(&r.fs, &s("/home/u/dotfiles/bash/.bash_aliases"), &s("/home/u/.bashrc")));
    assert!(!is_actual_link(&r.fs, &s("/home/u/dotfiles/bash/.bashrc"), &s("/home/u/.bashrc")));
}

#[test]
fn prompt_is_asked_only_for_occupied_destinations_without_force() {
    let occupied = base_fs().set_entry(s("/home/u/.bashrc"), Entry::Other);
    let m = mapping("bash/.bashrc", "~/.bashrc");
    assert_eq!(
        install_prompt(&occupied, &m, &s(ROOT), &home(), false, false),
        Some(s("/home/u/.bashrc"))
    );
    assert_eq!(install_prompt(&occupied, &m, &s(ROOT), &home(), true, false), None);
    assert_eq!(install_prompt(&occupied, &m, &s(ROOT), &home(), false, true), None);
    assert_eq!(install_prompt(&base_fs(), &m, &s(ROOT), &home(), false, false), None);
}

#[test]
fn notices_render_with_the_documented_wording() {
    assert_eq!(
        Notice::SourceMissing { src: s("/d/x") }.message(),
        s("Source file /d/x does not exist. Skipping.")
    );
    assert_eq!(
        Notice::Link { src: s("/d/x"), dest: s("/h/x") }.message(),
        s("Link: /d/x -> /h/x")
    );
    assert_eq!(Notice::SkippingDest { dest: s("/h/x") }.message(), s("Skipping /h/x"));
    assert_eq!(Notice::Unlink { dest: s("/h/x") }.message(), s("Unlink: /h/x"));
    assert_eq!(
        Notice::NoMatch { dest: s("/h/x"), src: s("/d/x") }.message(),
        s("/h/x does not symlink to /d/x. Skipping.")
    );
    assert_eq!(
        dotman::links::overwrite_prompt_message(&s("/h/x")),
        s("Destination file /h/x already exists. Do you want to overwrite it?")
    );
}

#[test]
fn error_message_names_the_path() {
    let e = Error::FailedToExpandTilde(s("~/.bashrc"));
    assert_eq!(e.message(), s("Failed to expand tilde in path: ~/.bashrc"));
}
