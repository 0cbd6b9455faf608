//! The long format: one row per entry, with the permission string, the link
//! count, owner and group, the size or the device numbers, the time stamp and
//! the name.
use crate::ansi::{BOLD, RED, RESET};
use crate::ls::color::{color_code, color_for, name_text, render_name};
use crate::ls::entry::{is_dev, major_minor, major_of, minor_of, DirEntry, FileKind, Meta};
use crate::ls::widths::{
    cell_width, group_text, lemma_cell_fits, lemma_column_is_tight, owner_text, uid_gid, widest,
    widths_of, Column, Widths,
};
use crate::text::{
    decimal, decimal_string, lemma_decimal_len_bound, lemma_decimal_nonempty, pad_left,
    pad_left_str,
};
use vstd::prelude::*;

verus! {

/// The first character of the permission string.
pub open spec fn type_char(kind: FileKind) -> char {
    match kind {
        FileKind::Directory => 'd',
        FileKind::Symlink => 'l',
        FileKind::Fifo => 'p',
        FileKind::BlockDevice => 'b',
        FileKind::CharDevice => 'c',
        FileKind::Socket => 's',
        FileKind::Regular => '-',
    }
}

/// A read or write slot: `letter` if the bit is set, else a dash.
pub open spec fn plain_slot(mode: u32, bit: u32, letter: char) -> char {
    if mode & bit != 0 {
        letter
    } else {
        '-'
    }
}

/// An execute slot. Without the special bit it shows `x` or a dash. With the
/// special bit (set-user-id, set-group-id or sticky) it shows `lower` where
/// the execute bit is set too, and `upper` where it is not.
pub open spec fn exec_slot(mode: u32, bit: u32, special: u32, lower: char, upper: char) -> char {
    if mode & bit != 0 {
        if mode & special != 0 {
            lower
        } else {
            'x'
        }
    } else {
        if mode & special != 0 {
            upper
        } else {
            '-'
        }
    }
}

/// The permission string: the type character, three slots each for owner,
/// group and others, and a closing `+` on an entry with extended attributes.
pub open spec fn mode_text(meta: Meta) -> Seq<char> {
    let m = meta.mode;
    seq![
        type_char(meta.kind),
        plain_slot(m, 0o400, 'r'),
        plain_slot(m, 0o200, 'w'),
        exec_slot(m, 0o100, 0o4000, 's', 'S'),
        plain_slot(m, 0o040, 'r'),
        plain_slot(m, 0o020, 'w'),
        exec_slot(m, 0o010, 0o2000, 's', 'S'),
        plain_slot(m, 0o004, 'r'),
        plain_slot(m, 0o002, 'w'),
        exec_slot(m, 0o001, 0o1000, 't', 'T'),
    ] + if meta.has_xattrs {
        seq!['+']
    } else {
        Seq::empty()
    }
}

fn type_letter(kind: FileKind) -> (c: char)
    ensures
        c == type_char(kind),
{
    match kind {
        FileKind::Directory => 'd',
        FileKind::Symlink => 'l',
        FileKind::Fifo => 'p',
        FileKind::BlockDevice => 'b',
        FileKind::CharDevice => 'c',
        FileKind::Socket => 's',
        FileKind::Regular => '-',
    }
}

fn plain_letter(mode: u32, bit: u32, letter: char) -> (c: char)
    ensures
        c == plain_slot(mode, bit, letter),
{
    if (mode & bit) != 0 {
        letter
    } else {
        '-'
    }
}

fn exec_letter(mode: u32, bit: u32, special: u32, lower: char, upper: char) -> (c: char)
    ensures
        c == exec_slot(mode, bit, special, lower, upper),
{
    if (mode & bit) != 0 {
        if (mode & special) != 0 {
            lower
        } else {
            'x'
        }
    } else {
        if (mode & special) != 0 {
            upper
        } else {
            '-'
        }
    }
}

/// Renders the permission string of an entry: ten characters, or eleven with
/// the `+` of extended attributes.
pub fn mode_string(meta: &Meta) -> (s: String)
    ensures
        s@ == mode_text(*meta),
        s@.len() == if meta.has_xattrs {
            11nat
        } else {
            10nat
        },
{
    let m = meta.mode;
    let mut s = String::new();
    s.push(type_letter(meta.kind));
    s.push(plain_letter(m, 0o400, 'r'));
    s.push(plain_letter(m, 0o200, 'w'));
    s.push(exec_letter(m, 0o100, 0o4000, 's', 'S'));
    s.push(plain_letter(m, 0o040, 'r'));
    s.push(plain_letter(m, 0o020, 'w'));
    s.push(exec_letter(m, 0o010, 0o2000, 's', 'S'));
    s.push(plain_letter(m, 0o004, 'r'));
    s.push(plain_letter(m, 0o002, 'w'));
    s.push(exec_letter(m, 0o001, 0o1000, 't', 'T'));
    if meta.has_xattrs {
        s.push('+');
    }
    assert(s@ =~= mode_text(*meta));
    s
}

/// The size column of a row: both device numbers for a device, each aligned in
/// its own column, else the size in bytes.
pub open spec fn size_text(meta: Meta, w: Widths) -> Seq<char> {
    if meta.is_device() {
        pad_left(decimal(major_of(meta.rdev) as nat), w.major as nat) + ", "@ + pad_left(
            decimal(minor_of(meta.rdev) as nat),
            w.minor as nat,
        )
    } else {
        pad_left(decimal(meta.size as nat), w.size as nat)
    }
}

/// The colour of a link's target; a target that cannot be queried is shown as
/// broken, in bold red.
pub open spec fn target_code(target: Option<Meta>) -> Seq<char> {
    match target {
        Some(meta) => color_code(meta),
        None => BOLD@ + RED@,
    }
}

/// What follows the name of a symbolic link: an arrow and the target as the
/// link stores it, in the target's colour. Empty for any other entry, and for
/// a link that could not be read.
pub open spec fn link_text(e: DirEntry) -> Seq<char> {
    if e.meta.kind == FileKind::Symlink {
        match e.link {
            Some(target) => " -> "@ + target_code(target.meta) + target.text@ + RESET@,
            None => Seq::empty(),
        }
    } else {
        Seq::empty()
    }
}

/// One row of the long format, without a line end.
pub open spec fn long_text(e: DirEntry, classify: bool, w: Widths) -> Seq<char> {
    pad_left(mode_text(e.meta), 11) + " "@ + pad_left(decimal(e.meta.nlink as nat), w.links as nat)
        + " "@ + pad_left(owner_text(e), w.user as nat) + " "@ + pad_left(
        group_text(e),
        w.group as nat,
    ) + " "@ + size_text(e.meta, w) + " "@ + e.stamp@ + " "@ + name_text(
        e.name@,
        e.meta,
        classify,
    ) + link_text(e)
}

fn render_size(meta: &Meta, w: &Widths) -> (s: String)
    ensures
        s@ == size_text(*meta, *w),
{
    if is_dev(meta) {
        let (major, minor) = major_minor(meta.rdev);
        let mut s = pad_left_str(decimal_string(major as u64).as_str(), w.major);
        s.append(", ");
        s.append(pad_left_str(decimal_string(minor as u64).as_str(), w.minor).as_str());
        s
    } else {
        pad_left_str(decimal_string(meta.size).as_str(), w.size)
    }
}

fn render_link(e: &DirEntry) -> (s: String)
    ensures
        s@ == link_text(*e),
{
    let mut s = String::new();
    if e.meta.kind == FileKind::Symlink {
        match &e.link {
            Some(target) => {
                s.append(" -> ");
                match &target.meta {
                    Some(meta) => {
                        let (code, _) = color_for(meta);
                        s.append(code.as_str());
                    },
                    None => {
                        s.append(BOLD);
                        s.append(RED);
                    },
                }
                s.append(target.text.as_str());
                s.append(RESET);
                assert(s@ =~= link_text(*e));
            },
            None => {},
        }
    }
    s
}

/// Renders one row of the long format for an entry of a batch whose column
/// widths are `w`. The row has no line end.
pub fn render_long(e: &DirEntry, classify: bool, w: &Widths) -> (row: String)
    ensures
        row@ == long_text(*e, classify, *w),
{
    let (user, group) = uid_gid(e);
    let mut row = pad_left_str(mode_string(&e.meta).as_str(), 11);
    row.append(" ");
    row.append(pad_left_str(decimal_string(e.meta.nlink).as_str(), w.links).as_str());
    row.append(" ");
    row.append(pad_left_str(user.as_str(), w.user).as_str());
    row.append(" ");
    row.append(pad_left_str(group.as_str(), w.group).as_str());
    row.append(" ");
    row.append(render_size(&e.meta, w).as_str());
    row.append(" ");
    row.append(e.stamp.as_str());
    row.append(" ");
    row.append(render_name(e.name.as_str(), &e.meta, classify).as_str());
    row.append(render_link(e).as_str());
    row
}

/// A symbolic link whose target is missing is red twice over: the name is in
/// bold red, and so is the target behind the arrow.
pub proof fn lemma_broken_link_is_red(e: DirEntry, classify: bool)
    requires
        e.meta.kind == FileKind::Symlink,
        !e.meta.resolves,
        e.link matches Some(target) && target.meta is None,
    ensures
        name_text(e.name@, e.meta, classify) == BOLD@ + RED@ + e.name@ + RESET@ + if classify {
            seq!['@']
        } else {
            Seq::empty()
        },
        link_text(e) == " -> "@ + (BOLD@ + RED@) + e.link->0.text@ + RESET@,
{
}

/// The link-count column is one column: in every row of a batch it starts
/// right behind the permission string and a space, and it is exactly as wide
/// as the widest link count of the batch.
pub proof fn lemma_link_column(entries: Seq<DirEntry>, i: int, classify: bool)
    requires
        0 <= i < entries.len(),
    ensures
        ({
            let width = widest(entries, Column::Links) as int;
            let row = long_text(entries[i], classify, widths_of(entries));
            &&& 1 <= width <= 20
            &&& row.len() > 12 + width
            &&& row.subrange(0, 11) == pad_left(mode_text(entries[i].meta), 11)
            &&& row[11] == ' '
            &&& row.subrange(12, 12 + width) == pad_left(
                decimal(entries[i].meta.nlink as nat),
                width as nat,
            )
            &&& row[12 + width] == ' '
        }),
{
    let e = entries[i];
    let w = widths_of(entries);
    let width = widest(entries, Column::Links);
    lemma_cell_fits(entries, Column::Links, i);
    lemma_column_is_tight(entries, Column::Links);
    lemma_decimal_nonempty(e.meta.nlink as nat);
    assert(width <= 20) by {
        if width != 0 {
            let k = choose|k: int|
                0 <= k < entries.len() && #[trigger] cell_width(entries[k], Column::Links) == width;
            lemma_decimal_len_bound(entries[k].meta.nlink as nat);
        }
    }
    assert(w.links as nat == width);
    reveal_strlit(" ");
    let mode = pad_left(mode_text(e.meta), 11);
    let links = pad_left(decimal(e.meta.nlink as nat), width);
    assert(mode.len() == 11);
    assert(links.len() == width);
    let head = mode + " "@ + links + " "@;
    let row = long_text(e, classify, w);
    assert(head.len() == 13 + width);
    assert(head.is_prefix_of(row));
    assert(row.subrange(0, 11) =~= mode);
    assert(row.subrange(12, 12 + width as int) =~= links);
}

} // verus!
