use minishell::ls::color::{class_suffix, color_for, render_name};
use minishell::ls::entry::{
    broken_link, is_dev, is_exec_file, major_minor, DirEntry, FileKind, LinkTarget, Meta,
};
use minishell::ls::long::{mode_string, render_long};
use minishell::ls::widths::{compute_widths, uid_gid, Widths};

const RESET: &str = "\x1b[0m";

fn meta(kind: FileKind, mode: u32) -> Meta {
    Meta {
        kind,
        mode,
        nlink: 1,
        uid: 1000,
        gid: 100,
        size: 0,
        rdev: 0,
        mtime: 0,
        blocks: 0,
        has_xattrs: false,
        resolves: true,
    }
}

fn entry(name: &str, meta: Meta) -> DirEntry {
    DirEntry {
        name: name.to_string(),
        path: format!("./{}", name),
        meta,
        user: Some("alice".to_string()),
        group: Some("staff".to_string()),
        stamp: "Mar  5 14:07".to_string(),
        link: None,
    }
}

fn no_widths() -> Widths {
    Widths { links: 0, user: 0, group: 0, size: 0, major: 0, minor: 0 }
}

#[test]
fn mode_string_of_rwxr_xr_x() {
    let s = mode_string(&meta(FileKind::Regular, 0o755));
    assert_eq!(s, "-rwxr-xr-x");
    assert_eq!(s.chars().count(), 10);
}

#[test]
fn mode_string_reads_only_the_low_bits() {
    assert_eq!(mode_string(&meta(FileKind::Regular, 0o100644)), "-rw-r--r--");
    assert_eq!(mode_string(&meta(FileKind::Directory, 0o040755)), "drwxr-xr-x");
}

#[test]
fn setuid_without_owner_execute_is_capital_s() {
    assert_eq!(mode_string(&meta(FileKind::Regular, 0o4655)), "-rwSr-xr-x");
}

#[test]
fn setuid_with_owner_execute_is_small_s() {
    assert_eq!(mode_string(&meta(FileKind::Regular, 0o4755)), "-rwsr-xr-x");
}

#[test]
fn setgid_slot() {
    assert_eq!(mode_string(&meta(FileKind::Regular, 0o2755)), "-rwxr-sr-x");
    assert_eq!(mode_string(&meta(FileKind::Regular, 0o2745)), "-rwxr-Sr-x");
}

#[test]
fn sticky_slot() {
    assert_eq!(mode_string(&meta(FileKind::Directory, 0o1777)), "drwxrwxrwt");
    assert_eq!(mode_string(&meta(FileKind::Directory, 0o1776)), "drwxrwxrwT");
}

#[test]
fn all_special_bits_and_no_permissions() {
    assert_eq!(mode_string(&meta(FileKind::Regular, 0o7000)), "---S--S--T");
    assert_eq!(mode_string(&meta(FileKind::Regular, 0o7777)), "-rwsrwsrwt");
    assert_eq!(mode_string(&meta(FileKind::Regular, 0)), "----------");
}

#[test]
fn type_characters() {
    assert_eq!(mode_string(&meta(FileKind::Regular, 0o600)), "-rw-------");
    assert_eq!(mode_string(&meta(FileKind::Directory, 0o600)), "drw-------");
    assert_eq!(mode_string(&meta(FileKind::Symlink, 0o600)), "lrw-------");
    assert_eq!(mode_string(&meta(FileKind::Fifo, 0o600)), "prw-------");
    assert_eq!(mode_string(&meta(FileKind::BlockDevice, 0o600)), "brw-------");
    assert_eq!(mode_string(&meta(FileKind::CharDevice, 0o600)), "crw-------");
    assert_eq!(mode_string(&meta(FileKind::Socket, 0o600)), "srw-------");
}

#[test]
fn extended_attributes_add_a_plus() {
    let mut m = meta(FileKind::Regular, 0o755);
    m.has_xattrs = true;
    let s = mode_string(&m);
    assert_eq!(s, "-rwxr-xr-x+");
    assert_eq!(s.chars().count(), 11);
}

#[test]
fn device_numbers() {
    assert_eq!(major_minor(0x0801), (8, 1));
    assert_eq!(major_minor(0x880c), (136, 12));
    assert_eq!(major_minor(0), (0, 0));
    assert_eq!(major_minor(0x1234_5678), (0x56, 0x1_2378));
    assert_eq!(major_minor(u64::MAX), (0xff, 0xf_ffff));
    assert_eq!(major_minor(0xffff_ffff_0000_0000), (0, 0));
    assert_eq!(major_minor(0x000f_0000), (0, 0));
    assert_eq!(major_minor(0x0010_0000), (0, 0x100));
}

#[test]
fn kinds_of_entries() {
    assert!(is_dev(&meta(FileKind::BlockDevice, 0)));
    assert!(is_dev(&meta(FileKind::CharDevice, 0)));
    assert!(!is_dev(&meta(FileKind::Regular, 0)));
    assert!(!is_dev(&meta(FileKind::Directory, 0)));
    assert!(is_exec_file(&meta(FileKind::Regular, 0o100)));
    assert!(is_exec_file(&meta(FileKind::Regular, 0o010)));
    assert!(is_exec_file(&meta(FileKind::Regular, 0o001)));
    assert!(!is_exec_file(&meta(FileKind::Regular, 0o666)));
    assert!(!is_exec_file(&meta(FileKind::Regular, 0o7666)));
    assert!(!is_exec_file(&meta(FileKind::Directory, 0o755)));
    let mut link = meta(FileKind::Symlink, 0o777);
    assert!(!broken_link(&link));
    link.resolves = false;
    assert!(broken_link(&link));
    let mut file = meta(FileKind::Regular, 0o644);
    file.resolves = false;
    assert!(!broken_link(&file));
}

#[test]
fn classification_marks() {
    assert_eq!(class_suffix(&meta(FileKind::Directory, 0o755)), Some('/'));
    assert_eq!(class_suffix(&meta(FileKind::Symlink, 0o777)), Some('@'));
    assert_eq!(class_suffix(&meta(FileKind::Fifo, 0o644)), Some('|'));
    assert_eq!(class_suffix(&meta(FileKind::Socket, 0o755)), Some('='));
    assert_eq!(class_suffix(&meta(FileKind::Regular, 0o755)), Some('*'));
    assert_eq!(class_suffix(&meta(FileKind::Regular, 0o644)), None);
    assert_eq!(class_suffix(&meta(FileKind::BlockDevice, 0o755)), None);
    assert_eq!(class_suffix(&meta(FileKind::CharDevice, 0o644)), None);
}

#[test]
fn colours() {
    let pair = |a: &str, b: &str| (a.to_string(), b.to_string());
    assert_eq!(color_for(&meta(FileKind::Symlink, 0o777)), pair("\x1b[1m\x1b[36m", ""));
    assert_eq!(color_for(&meta(FileKind::Directory, 0o755)), pair("\x1b[1m\x1b[34m", "/"));
    assert_eq!(color_for(&meta(FileKind::Socket, 0o755)), pair("\x1b[1m\x1b[35m", "="));
    assert_eq!(color_for(&meta(FileKind::Fifo, 0o644)), pair("\x1b[33m", "|"));
    assert_eq!(color_for(&meta(FileKind::BlockDevice, 0o660)), pair("\x1b[1m\x1b[33m", ""));
    assert_eq!(color_for(&meta(FileKind::CharDevice, 0o660)), pair("\x1b[1m\x1b[33m", ""));
    assert_eq!(color_for(&meta(FileKind::Regular, 0o755)), pair("\x1b[1m\x1b[32m", "*"));
    assert_eq!(color_for(&meta(FileKind::Regular, 0o644)), pair("", ""));
}

#[test]
fn broken_link_is_bold_red() {
    let mut link = meta(FileKind::Symlink, 0o777);
    link.resolves = false;
    assert_eq!(color_for(&link), ("\x1b[1m\x1b[31m".to_string(), String::new()));
}

#[test]
fn names_are_coloured_and_reset() {
    assert_eq!(render_name("src", &meta(FileKind::Directory, 0o755), false), "\x1b[1m\x1b[34msrc\x1b[0m");
    assert_eq!(render_name("notes", &meta(FileKind::Regular, 0o644), false), "notes\x1b[0m");
    assert_eq!(render_name("run", &meta(FileKind::Regular, 0o755), false), "\x1b[1m\x1b[32mrun\x1b[0m");
}

#[test]
fn names_with_marks() {
    assert_eq!(render_name("src", &meta(FileKind::Directory, 0o755), true), "\x1b[1m\x1b[34msrc\x1b[0m/");
    assert_eq!(render_name("l", &meta(FileKind::Symlink, 0o777), true), "\x1b[1m\x1b[36ml\x1b[0m@");
    assert_eq!(render_name("p", &meta(FileKind::Fifo, 0o644), true), "\x1b[33mp\x1b[0m|");
    assert_eq!(render_name("s", &meta(FileKind::Socket, 0o644), true), "\x1b[1m\x1b[35ms\x1b[0m=");
    assert_eq!(render_name("run", &meta(FileKind::Regular, 0o755), true), "\x1b[1m\x1b[32mrun\x1b[0m*");
    assert_eq!(render_name("notes", &meta(FileKind::Regular, 0o644), true), "notes\x1b[0m");
    assert_eq!(render_name("tty", &meta(FileKind::CharDevice, 0o620), true), "\x1b[1m\x1b[33mtty\x1b[0m");
}

#[test]
fn owner_and_group_names() {
    let e = entry("f", meta(FileKind::Regular, 0o644));
    assert_eq!(uid_gid(&e), ("alice".to_string(), "staff".to_string()));
}

#[test]
fn owner_and_group_fall_back_to_numbers() {
    let mut e = entry("f", meta(FileKind::Regular, 0o644));
    e.user = None;
    e.group = None;
    assert_eq!(uid_gid(&e), ("1000".to_string(), "100".to_string()));
    e.meta.uid = 0;
    e.meta.gid = u32::MAX;
    assert_eq!(uid_gid(&e), ("0".to_string(), "4294967295".to_string()));
}

#[test]
fn widths_of_an_empty_batch() {
    assert_eq!(compute_widths(&Vec::new()), no_widths());
}

#[test]
fn widths_are_the_widest_cells() {
    let mut a = entry("a", meta(FileKind::Regular, 0o644));
    a.meta.nlink = 1;
    a.meta.size = 5;
    let mut b = entry("b", meta(FileKind::Regular, 0o644));
    b.meta.nlink = 100;
    b.meta.size = 123456;
    b.user = Some("bob".to_string());
    b.group = None;
    b.meta.gid = 1234567;
    let mut c = entry("c", meta(FileKind::Directory, 0o755));
    c.meta.nlink = 10;
    c.meta.size = 4096;
    let w = compute_widths(&vec![a, b, c]);
    assert_eq!(w, Widths { links: 3, user: 5, group: 7, size: 6, major: 0, minor: 0 });
}

#[test]
fn widths_count_characters() {
    let mut a = entry("a", meta(FileKind::Regular, 0o644));
    a.user = Some("zoë".to_string());
    a.group = Some("越南".to_string());
    let w = compute_widths(&vec![a]);
    assert_eq!(w.user, 3);
    assert_eq!(w.group, 2);
}

#[test]
fn devices_have_numbers_and_no_size() {
    let mut tty = entry("tty", meta(FileKind::CharDevice, 0o620));
    tty.meta.rdev = 0x0405;
    tty.meta.size = 999999;
    let mut pts = entry("pts", meta(FileKind::BlockDevice, 0o660));
    pts.meta.rdev = 0x880c;
    let mut file = entry("f", meta(FileKind::Regular, 0o644));
    file.meta.size = 42;
    file.meta.rdev = 0xffff_ffff;
    let w = compute_widths(&vec![tty, pts, file]);
    assert_eq!(w, Widths { links: 1, user: 5, group: 5, size: 2, major: 3, minor: 2 });
}

#[test]
fn long_row_of_a_plain_file() {
    let mut e = entry("notes.txt", meta(FileKind::Regular, 0o644));
    e.meta.size = 1234;
    let w = compute_widths(&vec![entry("notes.txt", e.meta)]);
    assert_eq!(
        render_long(&e, false, &w),
        " -rw-r--r-- 1 alice staff 1234 Mar  5 14:07 notes.txt\x1b[0m"
    );
}

#[test]
fn long_row_without_widths_is_not_padded() {
    let mut e = entry("x", meta(FileKind::Regular, 0o600));
    e.meta.size = 7;
    assert_eq!(render_long(&e, false, &no_widths()), " -rw------- 1 alice staff 7 Mar  5 14:07 x\x1b[0m");
}

#[test]
fn long_row_with_extended_attributes_fills_the_mode_column() {
    let mut e = entry("x", meta(FileKind::Regular, 0o600));
    e.meta.has_xattrs = true;
    assert_eq!(render_long(&e, false, &no_widths()), "-rw-------+ 1 alice staff 0 Mar  5 14:07 x\x1b[0m");
}

#[test]
fn long_row_is_right_aligned() {
    let mut e = entry("run", meta(FileKind::Regular, 0o755));
    e.meta.nlink = 2;
    e.meta.size = 80;
    e.user = None;
    e.meta.uid = 7;
    let w = Widths { links: 3, user: 6, group: 7, size: 5, major: 9, minor: 9 };
    assert_eq!(
        render_long(&e, true, &w),
        " -rwxr-xr-x   2      7   staff    80 Mar  5 14:07 \x1b[1m\x1b[32mrun\x1b[0m*"
    );
}

#[test]
fn long_row_with_an_empty_stamp() {
    let mut e = entry("x", meta(FileKind::Regular, 0o600));
    e.stamp = String::new();
    assert_eq!(render_long(&e, false, &no_widths()), " -rw------- 1 alice staff 0  x\x1b[0m");
}

#[test]
fn long_rows_of_devices() {
    let mut tty = entry("tty", meta(FileKind::CharDevice, 0o620));
    tty.meta.rdev = 0x0405;
    let mut disk = entry("disk", meta(FileKind::BlockDevice, 0o660));
    disk.meta.rdev = 0x880c;
    let w = Widths { links: 1, user: 5, group: 5, size: 4, major: 3, minor: 2 };
    assert_eq!(
        render_long(&tty, false, &w),
        " crw--w---- 1 alice staff   4,  5 Mar  5 14:07 \x1b[1m\x1b[33mtty\x1b[0m"
    );
    assert_eq!(
        render_long(&disk, false, &w),
        " brw-rw---- 1 alice staff 136, 12 Mar  5 14:07 \x1b[1m\x1b[33mdisk\x1b[0m"
    );
}

#[test]
fn link_count_column_is_as_wide_as_its_widest_cell() {
    let mut rows = Vec::new();
    for n in [1u64, 10, 100] {
        let mut e = entry("f", meta(FileKind::Regular, 0o644));
        e.meta.nlink = n;
        rows.push(e);
    }
    let w = compute_widths(&rows);
    assert_eq!(w.links, 3);
    let cells: Vec<String> = rows
        .iter()
        .map(|e| render_long(e, false, &w).chars().skip(12).take(3).collect())
        .collect();
    assert_eq!(cells, vec!["  1", " 10", "100"]);
    for e in &rows {
        let row = render_long(e, false, &w);
        assert_eq!(row.chars().nth(11), Some(' '));
        assert_eq!(row.chars().nth(15), Some(' '));
        assert!(row.ends_with(&format!(" alice staff 0 Mar  5 14:07 f{}", RESET)));
    }
}

#[test]
fn symlink_row_shows_its_target() {
    let mut e = entry("latest", meta(FileKind::Symlink, 0o777));
    e.link = Some(LinkTarget {
        text: "../releases/v2".to_string(),
        meta: Some(meta(FileKind::Directory, 0o755)),
    });
    assert_eq!(
        render_long(&e, true, &no_widths()),
        " lrwxrwxrwx 1 alice staff 0 Mar  5 14:07 \x1b[1m\x1b[36mlatest\x1b[0m@ -> \x1b[1m\x1b[34m../releases/v2\x1b[0m"
    );
}

#[test]
fn symlink_to_a_plain_file_has_an_uncoloured_target() {
    let mut e = entry("l", meta(FileKind::Symlink, 0o777));
    e.link = Some(LinkTarget { text: "t".to_string(), meta: Some(meta(FileKind::Regular, 0o644)) });
    assert_eq!(
        render_long(&e, false, &no_widths()),
        " lrwxrwxrwx 1 alice staff 0 Mar  5 14:07 \x1b[1m\x1b[36ml\x1b[0m -> t\x1b[0m"
    );
}

#[test]
fn broken_symlink_is_red_twice() {
    let mut e = entry("dangling", meta(FileKind::Symlink, 0o777));
    e.meta.resolves = false;
    e.link = Some(LinkTarget { text: "nowhere".to_string(), meta: None });
    assert_eq!(
        render_long(&e, false, &no_widths()),
        " lrwxrwxrwx 1 alice staff 0 Mar  5 14:07 \x1b[1m\x1b[31mdangling\x1b[0m -> \x1b[1m\x1b[31mnowhere\x1b[0m"
    );
    assert_eq!(render_name("dangling", &e.meta, true), "\x1b[1m\x1b[31mdangling\x1b[0m@");
}

#[test]
fn symlink_to_a_broken_symlink() {
    let mut e = entry("a", meta(FileKind::Symlink, 0o777));
    e.meta.resolves = false;
    let mut target = meta(FileKind::Symlink, 0o777);
    target.resolves = false;
    e.link = Some(LinkTarget { text: "b".to_string(), meta: Some(target) });
    assert_eq!(
        render_long(&e, false, &no_widths()),
        " lrwxrwxrwx 1 alice staff 0 Mar  5 14:07 \x1b[1m\x1b[31ma\x1b[0m -> \x1b[1m\x1b[31mb\x1b[0m"
    );
}

#[test]
fn unreadable_symlink_has_no_arrow() {
    let e = entry("l", meta(FileKind::Symlink, 0o777));
    assert_eq!(
        render_long(&e, false, &no_widths()),
        " lrwxrwxrwx 1 alice staff 0 Mar  5 14:07 \x1b[1m\x1b[36ml\x1b[0m"
    );
}

#[test]
fn target_of_a_non_link_is_not_shown() {
    let mut e = entry("f", meta(FileKind::Regular, 0o644));
    e.link = Some(LinkTarget { text: "t".to_string(), meta: None });
    assert_eq!(render_long(&e, false, &no_widths()), " -rw-r--r-- 1 alice staff 0 Mar  5 14:07 f\x1b[0m");
}
