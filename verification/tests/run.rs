use minishell::ls::entry::{DirEntry, FileKind, Meta};
use minishell::ls::flags::Flags;
use minishell::ls::sort::sort_by_keys;
use minishell::ls::{
    layout, listing_flags, lists_contents, refusal_message, run, DirReport, Line, Refusal, Target,
};

fn args(items: &[&str]) -> Vec<String> {
    items.iter().map(|s| s.to_string()).collect()
}

fn meta(kind: FileKind) -> Meta {
    Meta {
        kind,
        mode: 0o644,
        nlink: 1,
        uid: 0,
        gid: 0,
        size: 0,
        rdev: 0,
        mtime: 0,
        blocks: 8,
        has_xattrs: false,
        resolves: true,
    }
}

fn file(name: &str) -> DirEntry {
    DirEntry {
        name: name.to_string(),
        path: name.to_string(),
        meta: meta(FileKind::Regular),
        user: Some("root".to_string()),
        group: Some("root".to_string()),
        stamp: "Jan  1  1970".to_string(),
        link: None,
    }
}

fn dir(path: &str, names: &[&str]) -> Target {
    Target::Dir {
        path: path.to_string(),
        report: DirReport {
            entries: names.iter().map(|n| file(n)).collect(),
            unreadable: Vec::new(),
            failure: None,
        },
    }
}

fn refusal(path: &str, reason: &str) -> Refusal {
    Refusal { path: path.to_string(), reason: reason.to_string() }
}

fn out(text: &str) -> Line {
    Line { text: text.to_string(), error: false }
}

fn err(text: &str) -> Line {
    Line { text: text.to_string(), error: true }
}

fn chars(items: &[&str]) -> Vec<Vec<char>> {
    items.iter().map(|s| s.chars().collect()).collect()
}

fn names(entries: &[DirEntry]) -> Vec<String> {
    entries.iter().map(|e| e.name.clone()).collect()
}

#[test]
fn missing_operands_leave_only_their_complaints() {
    let lines = run(&args(&["x", "y"]), &[false, false], Vec::new());
    assert_eq!(
        lines,
        vec![
            err("ls: cannot access 'x': No such file or directory"),
            err("ls: cannot access 'y': No such file or directory"),
        ]
    );
}

#[test]
fn missing_operands_with_flags_leave_only_their_complaints() {
    let lines = run(&args(&["-l", "gone", "-a"]), &[false], Vec::new());
    assert_eq!(lines, vec![err("ls: cannot access 'gone': No such file or directory")]);
}

#[test]
fn current_directory_without_operands() {
    let lines = run(&args(&[]), &[], vec![dir(".", &["b", "a"])]);
    assert_eq!(lines, vec![out("a\x1b[0m"), out("b\x1b[0m")]);
}

#[test]
fn one_directory_has_no_header() {
    let lines = run(&args(&["src"]), &[true], vec![dir("src", &["x"])]);
    assert_eq!(lines, vec![out("x\x1b[0m")]);
}

#[test]
fn empty_directory_writes_nothing() {
    assert_eq!(run(&args(&["d"]), &[true], vec![dir("d", &[])]), Vec::<Line>::new());
}

#[test]
fn two_directories_have_headers_and_a_gap() {
    let lines = run(&args(&["d1", "d2"]), &[true, true], vec![dir("d1", &["x"]), dir("d2", &["y"])]);
    assert_eq!(lines, vec![out("d1:"), out("x\x1b[0m"), out(""), out("d2:"), out("y\x1b[0m")]);
}

#[test]
fn files_come_first() {
    let targets = vec![dir("d1", &["x"]), Target::File(file("f")), dir("d2", &["z", "y"])];
    let lines = run(&args(&["d1", "f", "d2"]), &[true, true, true], targets);
    assert_eq!(
        lines,
        vec![
            out("f\x1b[0m"),
            out(""),
            out("d1:"),
            out("x\x1b[0m"),
            out(""),
            out("d2:"),
            out("y\x1b[0m"),
            out("z\x1b[0m"),
        ]
    );
}

#[test]
fn files_keep_the_order_given() {
    let targets = vec![Target::File(file("b")), Target::File(file("a"))];
    let lines = run(&args(&["b", "a"]), &[true, true], targets);
    assert_eq!(lines, vec![out("b\x1b[0m"), out("a\x1b[0m")]);
}

#[test]
fn one_directory_beside_files_has_a_header() {
    let targets = vec![Target::File(file("f")), dir("d", &["x"])];
    let lines = run(&args(&["f", "d"]), &[true, true], targets);
    assert_eq!(lines, vec![out("f\x1b[0m"), out(""), out("d:"), out("x\x1b[0m")]);
}

#[test]
fn unknown_option_is_complained_about_and_all_switches_are_off() {
    let lines = run(&args(&["-lz", "d"]), &[true], vec![dir("d", &["x"])]);
    assert_eq!(lines, vec![err("ls: invalid option -- 'z'"), out("x\x1b[0m")]);
}

#[test]
fn complaints_come_in_the_order_options_operands_targets() {
    let targets = vec![Target::File(file("f")), Target::Unreadable(refusal("late", "gone meanwhile"))];
    let lines = run(&args(&["-q", "f", "x", "late"]), &[true, false, true], targets);
    assert_eq!(
        lines,
        vec![
            err("ls: invalid option -- 'q'"),
            err("ls: cannot access 'x': No such file or directory"),
            err("ls: cannot access 'late': gone meanwhile"),
            out("f\x1b[0m"),
        ]
    );
}

#[test]
fn long_listing_has_a_total() {
    let lines = run(&args(&["-l"]), &[], vec![dir(".", &["b", "a"])]);
    assert_eq!(
        lines,
        vec![
            out("total 8"),
            out(" -rw-r--r-- 1 root root 0 Jan  1  1970 a\x1b[0m"),
            out(" -rw-r--r-- 1 root root 0 Jan  1  1970 b\x1b[0m"),
        ]
    );
}

#[test]
fn total_is_zero_when_an_entry_could_not_be_read() {
    let report = DirReport {
        entries: vec![file("a")],
        unreadable: vec![refusal("./b", "Permission denied (os error 13)")],
        failure: None,
    };
    let target = Target::Dir { path: ".".to_string(), report };
    let lines = run(&args(&["-l"]), &[], vec![target]);
    assert_eq!(
        lines,
        vec![
            err("ls: cannot access './b': Permission denied (os error 13)"),
            out("total 0"),
            out(" -rw-r--r-- 1 root root 0 Jan  1  1970 a\x1b[0m"),
        ]
    );
}

#[test]
fn directory_that_cannot_be_read() {
    let closed = Target::Dir {
        path: "closed".to_string(),
        report: DirReport {
            entries: vec![file(".")],
            unreadable: Vec::new(),
            failure: Some("Permission denied (os error 13)".to_string()),
        },
    };
    let lines = run(&args(&["-a", "closed", "open"]), &[true, true], vec![closed, dir("open", &["x"])]);
    assert_eq!(
        lines,
        vec![
            out("closed:"),
            err("ls: cannot open directory 'closed': Permission denied (os error 13)"),
            out(""),
            out("open:"),
            out("x\x1b[0m"),
        ]
    );
}

#[test]
fn layout_of_nothing() {
    let flags = Flags { show_all: false, long: true, classify: true };
    assert_eq!(layout(flags, Vec::new()), Vec::<Line>::new());
}

#[test]
fn layout_goes_by_the_switches_given() {
    let flags = Flags { show_all: false, long: false, classify: true };
    let mut d = file("sub");
    d.meta.kind = FileKind::Directory;
    let lines = layout(flags, vec![Target::File(d)]);
    assert_eq!(lines, vec![out("\x1b[1m\x1b[34msub\x1b[0m/")]);
}

#[test]
fn refusal_words() {
    assert_eq!(refusal_message(&refusal("a/b", "No such file")), "ls: cannot access 'a/b': No such file");
}

#[test]
fn switches_for_a_listing() {
    let on = Flags { show_all: true, long: true, classify: false };
    assert_eq!(listing_flags(&args(&["-la", "x"])), (on, None));
    let off = Flags { show_all: false, long: false, classify: false };
    assert_eq!(listing_flags(&args(&["-la", "-x"])), (off, Some("ls: invalid option -- 'x'".to_string())));
    assert_eq!(listing_flags(&args(&[])), (off, None));
}

#[test]
fn only_directories_are_listed_by_their_contents() {
    assert!(lists_contents(&meta(FileKind::Directory)));
    for kind in [
        FileKind::Regular,
        FileKind::Symlink,
        FileKind::Fifo,
        FileKind::Socket,
        FileKind::BlockDevice,
        FileKind::CharDevice,
    ] {
        assert!(!lists_contents(&meta(kind)));
    }
}

#[test]
fn sort_goes_by_the_keys_given() {
    let out = sort_by_keys(vec![file("x"), file("y"), file("z")], chars(&["b", "a", "c"]));
    assert_eq!(names(&out), vec!["y", "x", "z"]);
    let out = sort_by_keys(vec![file("a"), file("b"), file("c")], chars(&["3", "2", "1"]));
    assert_eq!(names(&out), vec!["c", "b", "a"]);
}

#[test]
fn sort_by_keys_is_stable() {
    let out = sort_by_keys(
        vec![file("1"), file("2"), file("3"), file("4"), file("5")],
        chars(&["k", "a", "k", "a", "k"]),
    );
    assert_eq!(names(&out), vec!["2", "4", "1", "3", "5"]);
}

#[test]
fn sort_by_keys_compares_by_code_point_and_length() {
    let out = sort_by_keys(
        vec![file("1"), file("2"), file("3"), file("4"), file("5"), file("6")],
        chars(&["ab", "a", "", "B", "é", "aa"]),
    );
    assert_eq!(names(&out), vec!["3", "4", "2", "6", "1", "5"]);
}

#[test]
fn sort_by_keys_of_nothing() {
    assert_eq!(names(&sort_by_keys(Vec::new(), Vec::new())), Vec::<String>::new());
}
