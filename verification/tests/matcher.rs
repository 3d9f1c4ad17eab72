use iowatch::matcher::ignore_file_names;
use iowatch::{IgnoreMatcher, IoWatchError};

fn files(contents: &[&str]) -> Vec<String> {
    contents.iter().map(|s| s.to_string()).collect()
}

fn matcher(contents: &[&str]) -> IgnoreMatcher {
    IgnoreMatcher::build("/work", &files(contents)).unwrap()
}

#[test]
fn ignore_files_are_the_two_conventional_ones() {
    assert_eq!(ignore_file_names(), vec![".gitignore".to_string(), ".ignore".to_string()]);
}

#[test]
fn change_below_an_ignored_directory_is_ignored() {
    let m = matcher(&["build/\n"]);
    assert!(m.is_ignored("/work/build/output.txt", false));
    assert!(m.is_ignored("/work/build", true));
    assert!(m.is_ignored("/work/sub/build/deep/output.txt", false));
}

#[test]
fn change_elsewhere_is_not_ignored() {
    let m = matcher(&["build/\n"]);
    assert!(!m.is_ignored("/work/src/main.rs", false));
    assert!(!m.is_ignored("/work/build", false));
    assert!(!m.is_ignored("/work/builder/output.txt", false));
}

#[test]
fn no_ignore_files_ignore_nothing() {
    let m = matcher(&[]);
    assert!(!m.is_ignored("/work/build/output.txt", false));
    assert!(!m.is_ignored("/elsewhere/x", false));
    assert!(!m.is_ignored("x", true));
}

#[test]
fn empty_ignore_files_ignore_nothing() {
    let m = matcher(&["", "\n# only a comment\n\n"]);
    assert!(!m.is_ignored("/work/a", false));
}

#[test]
fn later_patterns_override_earlier_ones() {
    let m = matcher(&["*.log\n!keep.log\n"]);
    assert!(m.is_ignored("/work/x.log", false));
    assert!(!m.is_ignored("/work/keep.log", false));
}

#[test]
fn second_file_overrides_the_first() {
    let m = matcher(&["*.log\n", "!keep.log\n"]);
    assert!(m.is_ignored("/work/x.log", false));
    assert!(!m.is_ignored("/work/keep.log", false));
    let reversed = matcher(&["!keep.log\n", "*.log\n"]);
    assert!(reversed.is_ignored("/work/keep.log", false));
}

#[test]
fn patterns_with_a_leading_slash_match_at_the_root_only() {
    let m = matcher(&["/target\n"]);
    assert!(m.is_ignored("/work/target", true));
    assert!(m.is_ignored("/work/target/debug/app", false));
    assert!(!m.is_ignored("/work/sub/target", true));
}

#[test]
fn relative_paths_are_taken_from_the_root() {
    let m = matcher(&["build/\n"]);
    assert!(m.is_ignored("build/output.txt", false));
    assert!(m.is_ignored("./build/output.txt", false));
    assert!(!m.is_ignored("src/build.rs", false));
}

#[test]
fn paths_outside_the_root_are_not_ignored() {
    let m = matcher(&["*\n"]);
    assert!(m.is_ignored("/work/anything", false));
    assert!(!m.is_ignored("/other/anything", false));
    assert!(!m.is_ignored("/workshop/anything", false));
    assert!(!m.is_ignored("/", true));
}

#[test]
fn paths_with_doubled_slashes_after_the_root_are_not_ignored() {
    let m = matcher(&["*\n"]);
    assert!(!m.is_ignored("/work//anything", false));
    assert!(!m.is_ignored(".//anything", false));
}

#[test]
fn the_root_itself_can_be_asked_about() {
    let m = matcher(&["build/\n"]);
    assert!(!m.is_ignored("/work", true));
    assert!(!m.is_ignored("/work/", true));
}

#[test]
fn root_with_a_trailing_slash_works() {
    let m = IgnoreMatcher::build("/work/", &files(&["build/\n"])).unwrap();
    assert!(m.is_ignored("/work/build/output.txt", false));
    assert!(!m.is_ignored("/work/src/lib.rs", false));
}

#[test]
fn file_system_root_works() {
    let m = IgnoreMatcher::build("/", &files(&["tmp/\n"])).unwrap();
    assert!(m.is_ignored("/tmp/x", false));
    assert!(!m.is_ignored("/var/x", false));
}

#[test]
fn byte_order_mark_at_the_start_of_a_file_is_dropped() {
    let m = matcher(&["\u{feff}build/\n", "\u{feff}\u{feff}*.tmp\r\n"]);
    assert!(m.is_ignored("/work/build/output.txt", false));
    assert!(m.is_ignored("/work/a.tmp", false));
}

#[test]
fn byte_order_mark_on_a_later_line_is_kept() {
    let m = matcher(&["x\n\u{feff}build/\n"]);
    assert!(!m.is_ignored("/work/build/output.txt", false));
}

#[test]
fn carriage_returns_of_line_endings_are_dropped() {
    let m = matcher(&["build/\r\n*.log\r\n"]);
    assert!(m.is_ignored("/work/build/output.txt", false));
    assert!(m.is_ignored("/work/a.log", false));
}

#[test]
fn malformed_line_fails_the_build() {
    let r = IgnoreMatcher::build("/work", &files(&["ok\n", "fine\n\n[z-a]\nnever\n"]));
    assert_eq!(r.err(), Some(IoWatchError::MalformedIgnore { file: 1, line: 2 }));
}

#[test]
fn first_malformed_line_is_reported() {
    let r = IgnoreMatcher::build("/work", &files(&["[z-a]\n[y-b]\n", "[x-c]\n"]));
    assert_eq!(r.err(), Some(IoWatchError::MalformedIgnore { file: 0, line: 0 }));
}

#[test]
fn relative_root_is_refused() {
    assert_eq!(
        IgnoreMatcher::build("work", &files(&["build/\n"])).err(),
        Some(IoWatchError::RootNotAbsolute)
    );
    assert_eq!(IgnoreMatcher::build("", &files(&[])).err(), Some(IoWatchError::RootNotAbsolute));
    assert_eq!(
        IgnoreMatcher::build("./work", &files(&[])).err(),
        Some(IoWatchError::RootNotAbsolute)
    );
}

#[test]
fn relative_root_is_reported_before_a_malformed_line() {
    assert_eq!(
        IgnoreMatcher::build("work", &files(&["[z-a]\n"])).err(),
        Some(IoWatchError::RootNotAbsolute)
    );
}
