//! Column widths: one pass over a batch of entries finds how wide each column
//! of the long format has to be.
use crate::ls::entry::{is_dev, major_minor, major_of, minor_of, DirEntry};
use crate::text::{decimal, decimal_string, decimal_width, pad_left};
use vstd::prelude::*;

verus! {

/// The columns of the long format whose width depends on the batch.
#[derive(Clone, Copy, Debug, PartialEq, Eq, Structural)]
pub enum Column {
    Links,
    User,
    Group,
    Size,
    Major,
    Minor,
}

/// The width of each such column for one batch of entries.
#[derive(Clone, Copy, Debug, PartialEq, Eq, Structural)]
pub struct Widths {
    pub links: usize,
    pub user: usize,
    pub group: usize,
    pub size: usize,
    pub major: usize,
    pub minor: usize,
}

impl Widths {
    /// The width on record for a column.
    pub open spec fn of(self, col: Column) -> nat {
        match col {
            Column::Links => self.links as nat,
            Column::User => self.user as nat,
            Column::Group => self.group as nat,
            Column::Size => self.size as nat,
            Column::Major => self.major as nat,
            Column::Minor => self.minor as nat,
        }
    }
}

/// The owner as the listing shows it: the user's name, or the user id in
/// decimal where there is no name.
pub open spec fn owner_text(e: DirEntry) -> Seq<char> {
    match e.user {
        Some(name) => name@,
        None => decimal(e.meta.uid as nat),
    }
}

/// The group as the listing shows it: the group's name, or the group id in
/// decimal where there is no name.
pub open spec fn group_text(e: DirEntry) -> Seq<char> {
    match e.group {
        Some(name) => name@,
        None => decimal(e.meta.gid as nat),
    }
}

/// What an entry puts into a column, before alignment. A device has two
/// device numbers and no size; any other file has a size and no device
/// numbers.
pub open spec fn cell(e: DirEntry, col: Column) -> Option<Seq<char>> {
    match col {
        Column::Links => Some(decimal(e.meta.nlink as nat)),
        Column::User => Some(owner_text(e)),
        Column::Group => Some(group_text(e)),
        Column::Size => if e.meta.is_device() {
            None
        } else {
            Some(decimal(e.meta.size as nat))
        },
        Column::Major => if e.meta.is_device() {
            Some(decimal(major_of(e.meta.rdev) as nat))
        } else {
            None
        },
        Column::Minor => if e.meta.is_device() {
            Some(decimal(minor_of(e.meta.rdev) as nat))
        } else {
            None
        },
    }
}

/// The room that an entry needs in a column, in characters.
pub open spec fn cell_width(e: DirEntry, col: Column) -> nat {
    match cell(e, col) {
        Some(text) => text.len(),
        None => 0,
    }
}

/// The widest cell of a column over a batch; zero for an empty batch.
pub open spec fn widest(entries: Seq<DirEntry>, col: Column) -> nat
    decreases entries.len(),
{
    if entries.len() == 0 {
        0
    } else {
        let before = widest(entries.drop_last(), col);
        let here = cell_width(entries.last(), col);
        if here > before {
            here
        } else {
            before
        }
    }
}

/// The column widths of a batch: each column is as wide as its widest cell.
pub open spec fn widths_of(entries: Seq<DirEntry>) -> Widths {
    Widths {
        links: widest(entries, Column::Links) as usize,
        user: widest(entries, Column::User) as usize,
        group: widest(entries, Column::Group) as usize,
        size: widest(entries, Column::Size) as usize,
        major: widest(entries, Column::Major) as usize,
        minor: widest(entries, Column::Minor) as usize,
    }
}

/// The owner and the group of an entry as the listing shows them.
pub fn uid_gid(e: &DirEntry) -> (r: (String, String))
    ensures
        r.0@ == owner_text(*e),
        r.1@ == group_text(*e),
{
    let user = match &e.user {
        Some(name) => name.clone(),
        None => decimal_string(e.meta.uid as u64),
    };
    let group = match &e.group {
        Some(name) => name.clone(),
        None => decimal_string(e.meta.gid as u64),
    };
    (user, group)
}

fn larger(a: usize, b: usize) -> (r: usize)
    ensures
        r == if b > a {
            b
        } else {
            a
        },
{
    if b > a {
        b
    } else {
        a
    }
}

/// Finds the column widths of a batch: for each column the width of its widest
/// cell.
pub fn compute_widths(entries: &Vec<DirEntry>) -> (w: Widths)
    ensures
        w == widths_of(entries@),
        forall|col: Column| w.of(col) == widest(entries@, col),
{
    let mut w = Widths { links: 0, user: 0, group: 0, size: 0, major: 0, minor: 0 };
    let mut i: usize = 0;
    while i < entries.len()
        invariant
            i <= entries.len(),
            forall|col: Column| w.of(col) == widest(entries@.take(i as int), col),
        decreases entries.len() - i,
    {
        let e = &entries[i];
        let ghost seen = entries@.take(i as int);
        let ghost now = entries@.take(i + 1);
        proof {
            assert(now.drop_last() =~= seen);
            assert(now.last() == *e);
        }
        let ghost old_w = w;
        w.links = larger(w.links, decimal_width(e.meta.nlink));
        let user_width = match &e.user {
            Some(name) => name.as_str().unicode_len(),
            None => decimal_width(e.meta.uid as u64),
        };
        w.user = larger(w.user, user_width);
        let group_width = match &e.group {
            Some(name) => name.as_str().unicode_len(),
            None => decimal_width(e.meta.gid as u64),
        };
        w.group = larger(w.group, group_width);
        if is_dev(&e.meta) {
            let (major, minor) = major_minor(e.meta.rdev);
            w.major = larger(w.major, decimal_width(major as u64));
            w.minor = larger(w.minor, decimal_width(minor as u64));
        } else {
            w.size = larger(w.size, decimal_width(e.meta.size));
        }
        i = i + 1;
        proof {
            assert forall|col: Column| w.of(col) == widest(now, col) by {
                assert(old_w.of(col) == widest(seen, col));
            }
        }
    }
    assert(entries@.take(entries.len() as int) =~= entries@);
    proof {
        assert(w.of(Column::Links) == widest(entries@, Column::Links));
        assert(w.of(Column::User) == widest(entries@, Column::User));
        assert(w.of(Column::Group) == widest(entries@, Column::Group));
        assert(w.of(Column::Size) == widest(entries@, Column::Size));
        assert(w.of(Column::Major) == widest(entries@, Column::Major));
        assert(w.of(Column::Minor) == widest(entries@, Column::Minor));
    }
    w
}

/// No cell is wider than its column.
pub proof fn lemma_cell_fits(entries: Seq<DirEntry>, col: Column, i: int)
    requires
        0 <= i < entries.len(),
    ensures
        cell_width(entries[i], col) <= widest(entries, col),
    decreases entries.len(),
{
    if i < entries.len() - 1 {
        lemma_cell_fits(entries.drop_last(), col, i);
    }
}

/// A column is no wider than it has to be: unless its width is zero, one of
/// the entries fills it.
pub proof fn lemma_column_is_tight(entries: Seq<DirEntry>, col: Column)
    ensures
        widest(entries, col) == 0 || exists|i: int|
            0 <= i < entries.len() && #[trigger] cell_width(entries[i], col) == widest(
                entries,
                col,
            ),
    decreases entries.len(),
{
    if entries.len() > 0 {
        let before = entries.drop_last();
        lemma_column_is_tight(before, col);
        if cell_width(entries.last(), col) > widest(before, col) {
            assert(cell_width(entries[entries.len() - 1], col) == widest(entries, col));
        } else if widest(before, col) != 0 {
            let i = choose|i: int|
                0 <= i < before.len() && #[trigger] cell_width(before[i], col) == widest(
                    before,
                    col,
                );
            assert(cell_width(entries[i], col) == widest(entries, col));
        }
    }
}

/// Alignment: within a batch, every cell of a column comes out exactly as
/// wide as the column once it is padded to the column's width.
pub proof fn lemma_cells_align(entries: Seq<DirEntry>, col: Column, i: int)
    requires
        0 <= i < entries.len(),
        cell(entries[i], col) is Some,
    ensures
        pad_left(cell(entries[i], col)->0, widest(entries, col)).len() == widest(entries, col),
{
    lemma_cell_fits(entries, col, i);
}

} // verus!
