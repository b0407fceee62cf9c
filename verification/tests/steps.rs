use tree_fs::{Action, Error, Phase, Reply, Settings, TreeBuilder};

fn s(text: &str) -> String {
    text.to_string()
}

#[test]
fn three_entries_step_by_step() {
    let builder = TreeBuilder::new("/T")
        .add_directory("a/b")
        .add_file("a/b/c.txt", "hi")
        .add_empty_file("a/d.txt");
    let mut m = builder.create();
    assert!(!m.is_finished());
    assert_eq!(m.step(Reply::Start), Action::Exists(s("/T")));
    assert_eq!(m.step(Reply::Exists(false)), Action::CreateDirAll(s("/T")));
    assert_eq!(m.step(Reply::Done), Action::Exists(s("/T/a/b")));
    assert_eq!(m.step(Reply::Exists(false)), Action::CreateDirAll(s("/T/a")));
    assert_eq!(m.step(Reply::Done), Action::CreateDir(s("/T/a/b")));
    assert_eq!(m.step(Reply::Done), Action::Exists(s("/T/a/b/c.txt")));
    assert_eq!(m.step(Reply::Exists(false)), Action::CreateDirAll(s("/T/a/b")));
    assert_eq!(m.step(Reply::Done), Action::CreateFile(s("/T/a/b/c.txt")));
    assert_eq!(m.step(Reply::Done), Action::WriteFile(s("/T/a/b/c.txt"), vec![b'h', b'i']));
    assert_eq!(m.step(Reply::Done), Action::Exists(s("/T/a/d.txt")));
    assert_eq!(m.step(Reply::Exists(false)), Action::CreateDirAll(s("/T/a")));
    assert_eq!(m.step(Reply::Done), Action::CreateFile(s("/T/a/d.txt")));
    assert!(!m.is_finished());
    match m.step(Reply::Done) {
        Action::Finish(tree) => {
            assert_eq!(tree.root, "/T");
            assert!(tree.deletes_on_close());
        }
        other => panic!("unexpected {:?}", other),
    }
    assert!(m.is_finished());
    assert_eq!(m.step(Reply::Done), Action::Halt);
    assert_eq!(m.step(Reply::Start), Action::Halt);
}

#[test]
fn empty_tree_makes_sure_of_the_root_only() {
    let builder = TreeBuilder::new("/T");
    let mut m = builder.create();
    assert_eq!(m.step(Reply::Start), Action::Exists(s("/T")));
    assert_eq!(m.step(Reply::Exists(false)), Action::CreateDirAll(s("/T")));
    assert!(matches!(m.step(Reply::Done), Action::Finish(_)));

    let mut m = builder.create();
    assert_eq!(m.step(Reply::Start), Action::Exists(s("/T")));
    assert!(matches!(m.step(Reply::Exists(true)), Action::Finish(_)));
}

#[test]
fn root_that_cannot_be_created_ends_the_build() {
    let mut m = TreeBuilder::new("/T").add_file("x", "y").create();
    assert_eq!(m.step(Reply::Start), Action::Exists(s("/T")));
    assert_eq!(m.step(Reply::Exists(false)), Action::CreateDirAll(s("/T")));
    assert_eq!(
        m.step(Reply::Failed),
        Action::Abort(Error::FailedToCreateRootDirectory(s("/T")))
    );
    assert!(m.is_finished());
    assert_eq!(m.step(Reply::Done), Action::Halt);
}

#[test]
fn a_probe_that_is_not_answered_counts_as_absent() {
    let mut m = TreeBuilder::new("/T").create();
    assert_eq!(m.step(Reply::Start), Action::Exists(s("/T")));
    assert_eq!(m.step(Reply::Failed), Action::CreateDirAll(s("/T")));
}

#[test]
fn a_reply_that_does_not_report_success_counts_as_failure() {
    let mut m = TreeBuilder::new("/T").add_file("f", "x").create();
    assert_eq!(m.step(Reply::Bytes(vec![1])), Action::Exists(s("/T")));
    assert_eq!(m.step(Reply::Done), Action::CreateDirAll(s("/T")));
    assert_eq!(m.step(Reply::Done), Action::Exists(s("/T/f")));
    assert_eq!(m.step(Reply::Bytes(vec![])), Action::CreateDirAll(s("/T")));
    assert_eq!(m.step(Reply::Done), Action::CreateFile(s("/T/f")));
    assert_eq!(
        m.step(Reply::Exists(true)),
        Action::Abort(Error::FailedToCreateFile(s("/T/f")))
    );

    let mut m = TreeBuilder::new("/T").add_copied_file("c", "/src").create();
    assert_eq!(m.step(Reply::Start), Action::Exists(s("/T")));
    assert_eq!(m.step(Reply::Exists(true)), Action::Exists(s("/T/c")));
    assert_eq!(m.step(Reply::Exists(false)), Action::CreateDirAll(s("/T")));
    assert_eq!(m.step(Reply::Done), Action::ReadFile(s("/src")));
    assert_eq!(m.step(Reply::Done), Action::Abort(Error::FailedToCopyFile(s("/src"))));
}

fn any_reply(pick: usize) -> Reply {
    match pick % 6 {
        0 => Reply::Done,
        1 => Reply::Failed,
        2 => Reply::Exists(true),
        3 => Reply::Exists(false),
        4 => Reply::Bytes(vec![1, 2]),
        _ => Reply::Start,
    }
}

fn willing_reply(action: &Action) -> Reply {
    match action {
        Action::Exists(_) => Reply::Exists(false),
        Action::ReadFile(_) => Reply::Bytes(vec![7]),
        _ => Reply::Done,
    }
}

#[test]
fn every_build_ends_within_its_bound() {
    let builder = TreeBuilder::new("/T")
        .add_directory("d")
        .add_readonly_file("d/f", "x")
        .add_copied_file("c", "/src")
        .add_empty_file("e");
    let bound = 7 * builder.entries().len() + 3;
    let mut longest = 0;
    for seed in 0..500usize {
        let mut m = builder.create();
        let mut reply = Reply::Start;
        let mut pick = seed;
        let mut steps = 0;
        while !m.is_finished() {
            let action = m.step(reply);
            steps += 1;
            assert!(steps <= bound, "{} steps for a bound of {}", steps, bound);
            pick = pick.wrapping_mul(31).wrapping_add(17);
            reply = if seed > 0 && pick % 11 == 0 {
                any_reply(pick / 11)
            } else {
                willing_reply(&action)
            };
        }
        assert_eq!(m.step(Reply::Done), Action::Halt);
        if steps > longest {
            longest = steps;
        }
    }
    // root: 3 steps; directory: 3; read-only text file: 5; copy: 5; empty
    // file: 3, the last of which hands out the handle.
    assert_eq!(longest, 19);
}

#[test]
fn entry_outside_the_root_fails_after_the_root_is_made() {
    let mut m = TreeBuilder::new("/T").add_file("../outside", "x").create();
    assert_eq!(m.step(Reply::Start), Action::Exists(s("/T")));
    assert_eq!(m.step(Reply::Exists(false)), Action::CreateDirAll(s("/T")));
    assert_eq!(
        m.step(Reply::Done),
        Action::Abort(Error::EntryOutsideDirectory(s("../outside")))
    );
    assert_eq!(m.step(Reply::Done), Action::Halt);
}

#[test]
fn entries_before_a_refused_one_are_still_built() {
    let mut m = TreeBuilder::new("/T")
        .add_empty_file("first")
        .add_directory("/etc/second")
        .add_empty_file("third")
        .create();
    assert_eq!(m.step(Reply::Start), Action::Exists(s("/T")));
    assert_eq!(m.step(Reply::Exists(true)), Action::Exists(s("/T/first")));
    assert_eq!(m.step(Reply::Exists(false)), Action::CreateDirAll(s("/T")));
    assert_eq!(m.step(Reply::Done), Action::CreateFile(s("/T/first")));
    assert_eq!(
        m.step(Reply::Done),
        Action::Abort(Error::EntryOutsideDirectory(s("/etc/second")))
    );
}

#[test]
fn empty_path_fails_with_its_position() {
    let mut m = TreeBuilder::new("/T").add_empty_file("a").add_file("", "x").create();
    assert_eq!(m.step(Reply::Start), Action::Exists(s("/T")));
    assert_eq!(m.step(Reply::Exists(true)), Action::Exists(s("/T/a")));
    assert_eq!(m.step(Reply::Exists(true)), Action::Abort(Error::EmptyEntryName(1)));

    let mut m = TreeBuilder::new("/T").add_directory("").create();
    assert_eq!(m.step(Reply::Start), Action::Exists(s("/T")));
    assert_eq!(m.step(Reply::Exists(true)), Action::Abort(Error::EmptyEntryName(0)));
}

#[test]
fn taken_entry_is_passed_over() {
    let mut m = TreeBuilder::new("/T").add_file("a.txt", "new").add_empty_file("b").create();
    assert_eq!(m.step(Reply::Start), Action::Exists(s("/T")));
    assert_eq!(m.step(Reply::Exists(true)), Action::Exists(s("/T/a.txt")));
    assert_eq!(m.step(Reply::Exists(true)), Action::Exists(s("/T/b")));
    assert!(matches!(m.step(Reply::Exists(true)), Action::Finish(_)));
}

#[test]
fn taken_entry_is_written_again_where_the_tree_overrides() {
    let mut m = TreeBuilder::new("/T").override_file(true).add_file("a.txt", "new").create();
    assert_eq!(m.step(Reply::Start), Action::Exists(s("/T")));
    assert_eq!(m.step(Reply::Exists(true)), Action::Exists(s("/T/a.txt")));
    assert_eq!(m.step(Reply::Exists(true)), Action::CreateDirAll(s("/T")));
    assert_eq!(m.step(Reply::Done), Action::CreateFile(s("/T/a.txt")));
    assert_eq!(m.step(Reply::Done), Action::WriteFile(s("/T/a.txt"), vec![b'n', b'e', b'w']));
    assert!(matches!(m.step(Reply::Done), Action::Finish(_)));
}

#[test]
fn taken_entry_is_an_error_where_the_tree_is_strict() {
    let mut m = TreeBuilder::new("/T").strict(true).add_file("sub/../a.txt", "new").create();
    assert_eq!(m.step(Reply::Start), Action::Exists(s("/T")));
    assert_eq!(m.step(Reply::Exists(true)), Action::Exists(s("/T/a.txt")));
    assert_eq!(
        m.step(Reply::Exists(true)),
        Action::Abort(Error::DuplicateEntry(s("sub/../a.txt")))
    );
    assert!(m.is_finished());
}

#[test]
fn override_wins_over_strict() {
    let mut m =
        TreeBuilder::new("/T").strict(true).override_file(true).add_empty_file("a").create();
    assert_eq!(m.step(Reply::Start), Action::Exists(s("/T")));
    assert_eq!(m.step(Reply::Exists(true)), Action::Exists(s("/T/a")));
    assert_eq!(m.step(Reply::Exists(true)), Action::CreateDirAll(s("/T")));
}

#[test]
fn parent_that_cannot_be_created_is_reported_with_its_own_path() {
    let mut m = TreeBuilder::new("/T").add_file("a/b/c.txt", "x").create();
    assert_eq!(m.step(Reply::Start), Action::Exists(s("/T")));
    assert_eq!(m.step(Reply::Exists(true)), Action::Exists(s("/T/a/b/c.txt")));
    assert_eq!(m.step(Reply::Exists(false)), Action::CreateDirAll(s("/T/a/b")));
    assert_eq!(
        m.step(Reply::Failed),
        Action::Abort(Error::FailedToCreateDirectory(s("/T/a/b")))
    );
}

#[test]
fn directory_that_cannot_be_created_is_reported() {
    let mut m = TreeBuilder::new("/T").add_directory("d").create();
    assert_eq!(m.step(Reply::Start), Action::Exists(s("/T")));
    assert_eq!(m.step(Reply::Exists(true)), Action::Exists(s("/T/d")));
    assert_eq!(m.step(Reply::Exists(false)), Action::CreateDirAll(s("/T")));
    assert_eq!(m.step(Reply::Done), Action::CreateDir(s("/T/d")));
    assert_eq!(m.step(Reply::Failed), Action::Abort(Error::FailedToCreateDirectory(s("/T/d"))));
}

#[test]
fn file_that_cannot_be_created_is_told_from_one_that_cannot_be_written() {
    let mut m = TreeBuilder::new("/T").add_file("f", "x").create();
    assert_eq!(m.step(Reply::Start), Action::Exists(s("/T")));
    assert_eq!(m.step(Reply::Exists(true)), Action::Exists(s("/T/f")));
    assert_eq!(m.step(Reply::Exists(false)), Action::CreateDirAll(s("/T")));
    assert_eq!(m.step(Reply::Done), Action::CreateFile(s("/T/f")));
    assert_eq!(m.step(Reply::Failed), Action::Abort(Error::FailedToCreateFile(s("/T/f"))));

    let mut m = TreeBuilder::new("/T").add_file("f", "x").create();
    assert_eq!(m.step(Reply::Start), Action::Exists(s("/T")));
    assert_eq!(m.step(Reply::Exists(true)), Action::Exists(s("/T/f")));
    assert_eq!(m.step(Reply::Exists(false)), Action::CreateDirAll(s("/T")));
    assert_eq!(m.step(Reply::Done), Action::CreateFile(s("/T/f")));
    assert_eq!(m.step(Reply::Done), Action::WriteFile(s("/T/f"), vec![b'x']));
    assert_eq!(m.step(Reply::Failed), Action::Abort(Error::FailedToWriteFile(s("/T/f"))));
}

#[test]
fn text_is_written_as_utf8() {
    let mut m = TreeBuilder::new("/T").add_file("f", "h\u{e9}\u{20ac}").create();
    assert_eq!(m.step(Reply::Start), Action::Exists(s("/T")));
    assert_eq!(m.step(Reply::Exists(true)), Action::Exists(s("/T/f")));
    assert_eq!(m.step(Reply::Exists(false)), Action::CreateDirAll(s("/T")));
    assert_eq!(m.step(Reply::Done), Action::CreateFile(s("/T/f")));
    assert_eq!(
        m.step(Reply::Done),
        Action::WriteFile(s("/T/f"), vec![0x68, 0xc3, 0xa9, 0xe2, 0x82, 0xac])
    );
}

#[test]
fn binary_file_is_written_byte_for_byte() {
    let bytes = vec![0u8, 255, 10, 13, 128];
    let mut m = TreeBuilder::new("/T").add_binary_file("blob", bytes.clone()).create();
    assert_eq!(m.step(Reply::Start), Action::Exists(s("/T")));
    assert_eq!(m.step(Reply::Exists(true)), Action::Exists(s("/T/blob")));
    assert_eq!(m.step(Reply::Exists(false)), Action::CreateDirAll(s("/T")));
    assert_eq!(m.step(Reply::Done), Action::CreateFile(s("/T/blob")));
    assert_eq!(m.step(Reply::Done), Action::WriteFile(s("/T/blob"), bytes));
    assert!(matches!(m.step(Reply::Done), Action::Finish(_)));
}

#[test]
fn copied_file_is_read_then_written() {
    let mut m = TreeBuilder::new("/T").add_copied_file("copy", "/src/data").create();
    assert_eq!(m.step(Reply::Start), Action::Exists(s("/T")));
    assert_eq!(m.step(Reply::Exists(true)), Action::Exists(s("/T/copy")));
    assert_eq!(m.step(Reply::Exists(false)), Action::CreateDirAll(s("/T")));
    assert_eq!(m.step(Reply::Done), Action::ReadFile(s("/src/data")));
    assert_eq!(m.step(Reply::Bytes(vec![1, 2, 3])), Action::CreateFile(s("/T/copy")));
    assert_eq!(m.step(Reply::Done), Action::WriteFile(s("/T/copy"), vec![1, 2, 3]));
    assert!(matches!(m.step(Reply::Done), Action::Finish(_)));
}

#[test]
fn copy_failure_names_the_source() {
    let mut m = TreeBuilder::new("/T").add_copied_file("copy", "/nonexistent").create();
    assert_eq!(m.step(Reply::Start), Action::Exists(s("/T")));
    assert_eq!(m.step(Reply::Exists(true)), Action::Exists(s("/T/copy")));
    assert_eq!(m.step(Reply::Exists(false)), Action::CreateDirAll(s("/T")));
    assert_eq!(m.step(Reply::Done), Action::ReadFile(s("/nonexistent")));
    assert_eq!(
        m.step(Reply::Failed),
        Action::Abort(Error::FailedToCopyFile(s("/nonexistent")))
    );
}

#[test]
fn copy_from_a_relative_source_is_not_tried() {
    let mut m = TreeBuilder::new("/T").add_copied_file("copy", "data/source").create();
    assert_eq!(m.step(Reply::Start), Action::Exists(s("/T")));
    assert_eq!(m.step(Reply::Exists(true)), Action::Exists(s("/T/copy")));
    assert_eq!(m.step(Reply::Exists(false)), Action::CreateDirAll(s("/T")));
    assert_eq!(
        m.step(Reply::Done),
        Action::Abort(Error::FailedToCopyFile(s("data/source")))
    );
}

#[test]
fn copied_file_that_cannot_be_created_names_the_destination() {
    let mut m = TreeBuilder::new("/T").add_copied_file("copy", "/src/data").create();
    assert_eq!(m.step(Reply::Start), Action::Exists(s("/T")));
    assert_eq!(m.step(Reply::Exists(true)), Action::Exists(s("/T/copy")));
    assert_eq!(m.step(Reply::Exists(false)), Action::CreateDirAll(s("/T")));
    assert_eq!(m.step(Reply::Done), Action::ReadFile(s("/src/data")));
    assert_eq!(m.step(Reply::Bytes(vec![9])), Action::CreateFile(s("/T/copy")));
    assert_eq!(m.step(Reply::Failed), Action::Abort(Error::FailedToCreateFile(s("/T/copy"))));
}

#[test]
fn readonly_comes_after_the_content() {
    let mut m = TreeBuilder::new("/T")
        .add_readonly_file("key", "k")
        .add_readonly_empty_file("lock")
        .create();
    assert_eq!(m.step(Reply::Start), Action::Exists(s("/T")));
    assert_eq!(m.step(Reply::Exists(true)), Action::Exists(s("/T/key")));
    assert_eq!(m.step(Reply::Exists(false)), Action::CreateDirAll(s("/T")));
    assert_eq!(m.step(Reply::Done), Action::CreateFile(s("/T/key")));
    assert_eq!(m.step(Reply::Done), Action::WriteFile(s("/T/key"), vec![b'k']));
    assert_eq!(m.step(Reply::Done), Action::SetReadonly(s("/T/key")));
    assert_eq!(m.step(Reply::Done), Action::Exists(s("/T/lock")));
    assert_eq!(m.step(Reply::Exists(false)), Action::CreateDirAll(s("/T")));
    assert_eq!(m.step(Reply::Done), Action::CreateFile(s("/T/lock")));
    assert_eq!(m.step(Reply::Done), Action::SetReadonly(s("/T/lock")));
    assert!(matches!(m.step(Reply::Done), Action::Finish(_)));
}

#[test]
fn readonly_that_cannot_be_set_is_a_write_failure() {
    let mut m = TreeBuilder::new("/T").add_readonly_empty_file("lock").create();
    assert_eq!(m.step(Reply::Start), Action::Exists(s("/T")));
    assert_eq!(m.step(Reply::Exists(true)), Action::Exists(s("/T/lock")));
    assert_eq!(m.step(Reply::Exists(false)), Action::CreateDirAll(s("/T")));
    assert_eq!(m.step(Reply::Done), Action::CreateFile(s("/T/lock")));
    assert_eq!(m.step(Reply::Done), Action::SetReadonly(s("/T/lock")));
    assert_eq!(m.step(Reply::Failed), Action::Abort(Error::FailedToWriteFile(s("/T/lock"))));
}

#[test]
fn settings_that_leave_the_file_writable_ask_for_nothing() {
    let mut m = TreeBuilder::new("/T")
        .add_empty_file_with_settings("data.txt", Settings::new().readonly(false))
        .create();
    assert_eq!(m.step(Reply::Start), Action::Exists(s("/T")));
    assert_eq!(m.step(Reply::Exists(true)), Action::Exists(s("/T/data.txt")));
    assert_eq!(m.step(Reply::Exists(false)), Action::CreateDirAll(s("/T")));
    assert_eq!(m.step(Reply::Done), Action::CreateFile(s("/T/data.txt")));
    assert!(matches!(m.step(Reply::Done), Action::Finish(_)));
}

#[test]
fn directory_ignores_readonly() {
    let mut m = TreeBuilder::new("/T")
        .add_directory_with_settings("d", Settings::new().readonly(true))
        .create();
    assert_eq!(m.step(Reply::Start), Action::Exists(s("/T")));
    assert_eq!(m.step(Reply::Exists(true)), Action::Exists(s("/T/d")));
    assert_eq!(m.step(Reply::Exists(false)), Action::CreateDirAll(s("/T")));
    assert_eq!(m.step(Reply::Done), Action::CreateDir(s("/T/d")));
    assert!(matches!(m.step(Reply::Done), Action::Finish(_)));
}

#[test]
fn entry_at_the_root_itself_has_no_parent_to_make() {
    let mut m = TreeBuilder::new("/T").override_file(true).add_directory(".").create();
    assert_eq!(m.step(Reply::Start), Action::Exists(s("/T")));
    assert_eq!(m.step(Reply::Exists(true)), Action::Exists(s("/T")));
    assert_eq!(m.step(Reply::Exists(true)), Action::CreateDir(s("/T")));
    assert!(matches!(m.step(Reply::Done), Action::Finish(_)));
}

#[test]
fn builder_can_be_built_again() {
    let builder = TreeBuilder::new("/T").add_empty_file("a");
    let mut first = builder.create();
    let mut second = builder.create();
    assert_eq!(first.step(Reply::Start), Action::Exists(s("/T")));
    assert_eq!(first.step(Reply::Exists(true)), Action::Exists(s("/T/a")));
    assert_eq!(second.step(Reply::Start), Action::Exists(s("/T")));
    assert_eq!(second.step(Reply::Exists(true)), Action::Exists(s("/T/a")));
    assert_eq!(builder.entries().len(), 1);
}

#[test]
fn handle_keeps_the_tree_where_the_builder_says_so() {
    let mut m = TreeBuilder::new("/T").drop(false).create();
    assert_eq!(m.step(Reply::Start), Action::Exists(s("/T")));
    match m.step(Reply::Exists(true)) {
        Action::Finish(tree) => assert!(!tree.deletes_on_close()),
        other => panic!("unexpected {:?}", other),
    }
}

#[test]
fn phases_compare() {
    assert_eq!(Phase::Start, Phase::Start);
    assert_ne!(Phase::Start, Phase::Finished);
}
