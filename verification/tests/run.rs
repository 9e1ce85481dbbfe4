use file_tidy::entry::FileEntry;
use file_tidy::operation::{decide, Action, Operation};
use file_tidy::tally::Tally;
use file_tidy::trim::TrimPatterns;

fn entry(path: &str, file_name: &str, is_dir: bool, is_symlink: bool) -> FileEntry {
    FileEntry {
        path: String::from(path),
        file_name: String::from(file_name),
        unicode_name: true,
        is_dir,
        is_symlink,
    }
}

fn trim_defaults() -> Operation {
    Operation::Trim { patterns: TrimPatterns::with_override(None) }
}

fn moved(file_name: &str) -> Action {
    Action::MoveToTrash { file_name: String::from(file_name) }
}

fn renamed(file_name: &str, new_name: &str) -> Action {
    Action::Rename { file_name: String::from(file_name), new_name: String::from(new_name) }
}

#[test]
fn delete_moves_only_the_duplicate() {
    let tree = [
        entry("/data", "data", true, false),
        entry("/data/a(1).mp4", "a(1).mp4", false, false),
        entry("/data/b.mp4", "b.mp4", false, false),
        entry("/data/.hidden(1).mp4", ".hidden(1).mp4", false, false),
        entry("/data/trash", "trash", true, false),
    ];
    let expected = [Action::Skip, moved("a(1).mp4"), Action::NoMatch, Action::Skip, Action::Skip];
    let mut tally = Tally::new();
    for (found, action) in tree.iter().zip(expected.iter()) {
        let decided = decide(found, &Operation::Delete);
        assert_eq!(&decided, action);
        tally.record(&decided);
    }
    assert_eq!(tally.seen(), 2);
    assert_eq!(tally.succeeded(), 1);
    assert_eq!(tally.messages(), &vec![String::from("a(1).mp4")]);
}

#[test]
fn trim_renames_the_marked_file() {
    let found = entry(
        "/data/Lesson1【海量资源：666java.com】.mp4",
        "Lesson1【海量资源：666java.com】.mp4",
        false,
        false,
    );
    let decided = decide(&found, &trim_defaults());
    assert_eq!(decided, renamed("Lesson1【海量资源：666java.com】.mp4", "Lesson1.mp4"));
    let mut tally = Tally::new();
    tally.record(&decided);
    assert_eq!(tally.seen(), 1);
    assert_eq!(tally.succeeded(), 1);
    assert_eq!(tally.messages(), &vec![String::from("Lesson1【海量资源：666java.com】.mp4")]);
}

#[test]
fn trim_leaves_other_files() {
    let found = entry("/data/b.mp4", "b.mp4", false, false);
    assert_eq!(decide(&found, &trim_defaults()), Action::NoMatch);
    let duplicate = entry("/data/a(1).mp4", "a(1).mp4", false, false);
    assert_eq!(decide(&duplicate, &trim_defaults()), Action::NoMatch);
}

#[test]
fn delete_leaves_marked_names() {
    let found = entry(
        "/data/Lesson1【海量资源：666java.com】.mp4",
        "Lesson1【海量资源：666java.com】.mp4",
        false,
        false,
    );
    assert_eq!(decide(&found, &Operation::Delete), Action::NoMatch);
}

#[test]
fn trim_uses_the_override_first() {
    let operation =
        Operation::Trim { patterns: TrimPatterns::with_override(Some(String::from("Lesson"))) };
    let found = entry(
        "/data/Lesson1【海量资源：666java.com】.mp4",
        "Lesson1【海量资源：666java.com】.mp4",
        false,
        false,
    );
    assert_eq!(
        decide(&found, &operation),
        renamed("Lesson1【海量资源：666java.com】.mp4", "1【海量资源：666java.com】.mp4")
    );
}

#[test]
fn a_second_trim_pass_renames_nothing() {
    let operation = trim_defaults();
    let first = entry(
        "/data/Lesson1【海量资源：666java.com】.mp4",
        "Lesson1【海量资源：666java.com】.mp4",
        false,
        false,
    );
    let new_name = match decide(&first, &operation) {
        Action::Rename { new_name, .. } => new_name,
        other => panic!("not renamed: {:?}", other),
    };
    let second = entry(&format!("/data/{}", new_name), &new_name, false, false);
    assert_eq!(decide(&second, &operation), Action::NoMatch);
}

#[test]
fn filtered_entries_reach_neither_operation() {
    let marked = "x(1).mp4【海量资源：666java.com】(1).mp4";
    let hidden = format!(".{}", marked);
    let filtered = [
        entry(&format!("/data/{}", marked), marked, false, true),
        entry(&format!("/data/{}", hidden), &hidden, false, false),
        entry(&format!("/data/trash/{}", marked), marked, false, false),
        entry(&format!("/data/{}", marked), marked, true, false),
        entry(&format!("/data/trash/{}", hidden), &hidden, true, true),
    ];
    let mut tally = Tally::new();
    for found in filtered.iter() {
        for operation in [Operation::Delete, trim_defaults()] {
            let decided = decide(found, &operation);
            assert_eq!(decided, Action::Skip);
            assert_eq!(decided.message(), None);
            tally.record(&decided);
        }
    }
    assert_eq!(tally.seen(), 0);
    assert_eq!(tally.succeeded(), 0);
    assert!(tally.messages().is_empty());
    let plain = entry(&format!("/data/{}", marked), marked, false, false);
    assert_eq!(decide(&plain, &Operation::Delete), moved(marked));
    assert_eq!(decide(&plain, &trim_defaults()), renamed(marked, "x(1).mp4(1).mp4"));
}

#[test]
fn a_name_that_is_not_unicode_is_seen_but_never_deleted() {
    let mut found = entry("/data/.\u{fffd}(1).mp4", ".\u{fffd}(1).mp4", false, false);
    found.unicode_name = false;
    assert_eq!(decide(&found, &Operation::Delete), Action::NoMatch);
}

#[test]
fn a_name_that_is_not_unicode_is_trimmed_by_its_text() {
    let name = "\u{fffd}【海量资源：666java.com】.mp4";
    let mut found = entry(&format!("/data/{}", name), name, false, false);
    found.unicode_name = false;
    assert_eq!(decide(&found, &trim_defaults()), renamed(name, "\u{fffd}.mp4"));
}

#[test]
fn only_a_move_and_a_rename_have_a_message() {
    assert_eq!(Action::Skip.message(), None);
    assert_eq!(Action::NoMatch.message(), None);
    assert_eq!(moved("a(1).mp4").message(), Some("a(1).mp4"));
    assert_eq!(renamed("old.mp4", "new.mp4").message(), Some("old.mp4"));
}

#[test]
fn a_new_tally_is_empty() {
    let tally = Tally::new();
    assert_eq!(tally.seen(), 0);
    assert_eq!(tally.succeeded(), 0);
    assert!(tally.messages().is_empty());
}

#[test]
fn the_tally_counts_each_kind_of_action() {
    let mut tally = Tally::new();
    tally.record(&Action::Skip);
    assert_eq!((tally.seen(), tally.succeeded()), (0, 0));
    tally.record(&Action::NoMatch);
    assert_eq!((tally.seen(), tally.succeeded()), (1, 0));
    tally.record(&moved("a(1).mp4"));
    assert_eq!((tally.seen(), tally.succeeded()), (2, 1));
    tally.record(&renamed("old.mp4", "new.mp4"));
    assert_eq!((tally.seen(), tally.succeeded()), (3, 2));
    tally.record(&Action::Skip);
    assert_eq!((tally.seen(), tally.succeeded()), (3, 2));
    assert_eq!(tally.messages(), &vec![String::from("a(1).mp4"), String::from("old.mp4")]);
}

#[test]
fn successes_match_the_messages_and_stay_within_seen() {
    let actions = [
        Action::NoMatch,
        moved("a(1).mp4"),
        Action::Skip,
        renamed("x", "y"),
        Action::NoMatch,
        moved("b(1).mp4"),
        Action::Skip,
    ];
    let mut tally = Tally::new();
    for round in 0u32..50 {
        for action in actions.iter() {
            tally.record(action);
            assert_eq!(tally.succeeded(), tally.messages().len() as u64);
            assert!(tally.succeeded() <= tally.seen());
        }
        assert_eq!(tally.seen(), 5 * (round as u64 + 1));
        assert_eq!(tally.succeeded(), 3 * (round as u64 + 1));
    }
}
