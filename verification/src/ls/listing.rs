//! A listing as lines of text: which names are shown, which operands remain,
//! the block total, and the rows of a batch of entries.
use crate::ls::color::{name_text, render_name};
use crate::ls::entry::DirEntry;
use crate::ls::flags::Flags;
use crate::ls::long::{long_text, render_long};
use crate::ls::sort::{sort_entries, sorted};
use crate::ls::widths::{compute_widths, widths_of, Widths};
use crate::text::{decimal, decimal_string};
use vstd::prelude::*;

verus! {

/// A name that is only shown on request: one that starts with a dot.
pub open spec fn is_hidden(name: Seq<char>) -> bool {
    name.len() > 0 && name[0] == '.'
}

/// Whether a directory entry of this name belongs in the listing.
pub fn is_listed(name: &str, show_all: bool) -> (r: bool)
    ensures
        r == (show_all || !is_hidden(name@)),
{
    show_all || name.is_empty() || name.get_char(0) != '.'
}

/// The entries that stand for the directory itself and for its parent. They
/// head the entries of a directory when hidden names are shown, and are
/// absent otherwise.
pub open spec fn dot_names(show_all: bool) -> Seq<Seq<char>> {
    if show_all {
        seq!["."@, ".."@]
    } else {
        Seq::empty()
    }
}

/// The names to list before a directory's own entries.
pub fn dot_entries(show_all: bool) -> (names: Vec<String>)
    ensures
        names.deep_view() == dot_names(show_all),
{
    let mut names: Vec<String> = Vec::new();
    if show_all {
        names.push(String::from_str("."));
        names.push(String::from_str(".."));
    }
    assert(names.deep_view() =~= dot_names(show_all));
    names
}

/// Whether the file at position `i` was found. A position without an answer
/// counts as not found.
pub open spec fn is_found(found: Seq<bool>, i: int) -> bool {
    0 <= i < found.len() && found[i]
}

/// The complaint about an operand that names no file.
pub open spec fn missing_text(path: Seq<char>) -> Seq<char> {
    "ls: cannot access '"@ + path + "': No such file or directory"@
}

/// Of the first `n` candidates, those that were found, in order.
pub open spec fn found_upto(candidates: Seq<Seq<char>>, found: Seq<bool>, n: int) -> Seq<
    Seq<char>,
>
    decreases n,
{
    if n <= 0 {
        Seq::empty()
    } else if is_found(found, n - 1) {
        found_upto(candidates, found, n - 1).push(candidates[n - 1])
    } else {
        found_upto(candidates, found, n - 1)
    }
}

/// For those of the first `n` candidates that were not found, the complaints,
/// in order.
pub open spec fn missing_upto(candidates: Seq<Seq<char>>, found: Seq<bool>, n: int) -> Seq<
    Seq<char>,
>
    decreases n,
{
    if n <= 0 {
        Seq::empty()
    } else if is_found(found, n - 1) {
        missing_upto(candidates, found, n - 1)
    } else {
        missing_upto(candidates, found, n - 1).push(missing_text(candidates[n - 1]))
    }
}

/// Sorts the operands into those to list and complaints about the others.
/// `found[i]` says whether a query that does not follow links found
/// `candidates[i]`. The first part of the result holds the operands that were
/// found, the second one complaint for each that was not; both keep the order
/// of the operands.
pub fn collect_operands(candidates: &[String], found: &[bool]) -> (r: (Vec<String>, Vec<String>))
    ensures
        r.0.deep_view() == found_upto(
            candidates.deep_view(),
            found@,
            candidates.len() as int,
        ),
        r.1.deep_view() == missing_upto(
            candidates.deep_view(),
            found@,
            candidates.len() as int,
        ),
{
    let ghost names = candidates.deep_view();
    let mut paths: Vec<String> = Vec::new();
    let mut complaints: Vec<String> = Vec::new();
    let mut i: usize = 0;
    assert(paths.deep_view() =~= found_upto(names, found@, 0));
    assert(complaints.deep_view() =~= missing_upto(names, found@, 0));
    while i < candidates.len()
        invariant
            i <= candidates.len(),
            names == candidates.deep_view(),
            paths.deep_view() == found_upto(names, found@, i as int),
            complaints.deep_view() == missing_upto(names, found@, i as int),
        decreases candidates.len() - i,
    {
        let ghost kept = paths.deep_view();
        let ghost said = complaints.deep_view();
        assert(names[i as int] == candidates[i as int]@);
        if i < found.len() && found[i] {
            paths.push(candidates[i].clone());
            assert(paths.deep_view() =~= kept.push(names[i as int]));
        } else {
            let mut text = String::from_str("ls: cannot access '");
            text.append(candidates[i].as_str());
            text.append("': No such file or directory");
            complaints.push(text);
            assert(complaints.deep_view() =~= said.push(missing_text(names[i as int])));
        }
        i = i + 1;
    }
    (paths, complaints)
}

/// What is listed. Where no operand was given, that is the current directory.
/// Where operands were given, it is those of them that were found, and
/// nothing at all if none was.
pub open spec fn targets_of(candidates: Seq<Seq<char>>, found: Seq<bool>) -> Seq<Seq<char>> {
    if candidates.len() == 0 {
        seq!["."@]
    } else {
        found_upto(candidates, found, candidates.len() as int)
    }
}

/// Decides what is listed, and what is complained about, from the operands
/// that were given and from `found`, which says of each whether a query that
/// does not follow links found it. The current directory stands in only where
/// no operand was given.
pub fn listing_targets(candidates: &[String], found: &[bool]) -> (r: (Vec<String>, Vec<String>))
    ensures
        r.0.deep_view() == targets_of(candidates.deep_view(), found@),
        r.1.deep_view() == missing_upto(
            candidates.deep_view(),
            found@,
            candidates.len() as int,
        ),
{
    let (mut paths, complaints) = collect_operands(candidates, found);
    if candidates.len() == 0 {
        paths.push(String::from_str("."));
        assert(paths.deep_view() =~= seq!["."@]);
    }
    (paths, complaints)
}

/// Operands of which none exists leave nothing to list: the current
/// directory does not stand in for them.
pub proof fn lemma_nothing_found_lists_nothing(candidates: Seq<Seq<char>>, found: Seq<bool>)
    requires
        candidates.len() > 0,
        forall|i: int| 0 <= i < candidates.len() ==> !is_found(found, i),
    ensures
        targets_of(candidates, found) == Seq::<Seq<char>>::empty(),
{
    lemma_none_found(candidates, found, candidates.len() as int);
}

proof fn lemma_none_found(candidates: Seq<Seq<char>>, found: Seq<bool>, n: int)
    requires
        0 <= n <= candidates.len(),
        forall|i: int| 0 <= i < candidates.len() ==> !is_found(found, i),
    ensures
        found_upto(candidates, found, n) == Seq::<Seq<char>>::empty(),
    decreases n,
{
    if n > 0 {
        lemma_none_found(candidates, found, n - 1);
    }
}

/// Whether each directory gets a line with its name before its entries: only
/// if the listing has more than one part, the files given as operands
/// counting as one.
pub fn needs_headers(dirs: usize, files: usize) -> (r: bool)
    ensures
        r == (dirs + (if files > 0 {
            1int
        } else {
            0int
        }) > 1),
{
    dirs > 1 || (dirs == 1 && files > 0)
}

/// The line that announces a directory.
pub fn dir_header(dir: &str) -> (line: String)
    ensures
        line@ == dir@ + ":"@,
{
    let mut line = String::from_str(dir);
    line.append(":");
    line
}

/// The blocks of all entries together.
pub open spec fn blocks_sum(entries: Seq<DirEntry>) -> nat
    decreases entries.len(),
{
    if entries.len() == 0 {
        0
    } else {
        blocks_sum(entries.drop_last()) + entries.last().meta.blocks as nat
    }
}

/// The total that heads a long listing: the blocks of all entries, which are
/// 512 bytes each, in units of 1024 bytes. A sum beyond 64 bits counts as the
/// largest 64-bit number.
pub open spec fn total_of(entries: Seq<DirEntry>) -> nat {
    if blocks_sum(entries) > u64::MAX {
        u64::MAX as nat / 2
    } else {
        blocks_sum(entries) / 2
    }
}

/// Adds up the block total of the entries.
pub fn total_blocks(entries: &Vec<DirEntry>) -> (total: u64)
    ensures
        total == total_of(entries@),
{
    let mut sum: u64 = 0;
    let mut i: usize = 0;
    while i < entries.len()
        invariant
            i <= entries.len(),
            sum == if blocks_sum(entries@.take(i as int)) > u64::MAX {
                u64::MAX as nat
            } else {
                blocks_sum(entries@.take(i as int))
            },
        decreases entries.len() - i,
    {
        assert(entries@.take(i + 1).drop_last() =~= entries@.take(i as int));
        sum = sum.saturating_add(entries[i].meta.blocks);
        i = i + 1;
    }
    assert(entries@.take(entries.len() as int) =~= entries@);
    sum / 2
}

/// The line of one entry of a batch.
pub open spec fn line_text(entries: Seq<DirEntry>, i: int, flags: Flags) -> Seq<char> {
    if flags.long {
        long_text(entries[i], flags.classify, widths_of(entries))
    } else {
        name_text(entries[i].name@, entries[i].meta, flags.classify)
    }
}

/// The lines of a batch: one per entry, in the order of the entries. In the
/// long format all rows share the column widths of the batch.
pub open spec fn batch_text(entries: Seq<DirEntry>, flags: Flags) -> Seq<Seq<char>> {
    Seq::new(entries.len(), |i: int| line_text(entries, i, flags))
}

/// The lines of a directory's listing: the entries in listing order, and in
/// the long format a line with the block total before them.
pub open spec fn dir_text(entries: Seq<DirEntry>, flags: Flags, total: u64) -> Seq<Seq<char>> {
    if flags.long {
        seq!["total "@ + decimal(total as nat)] + batch_text(sorted(entries), flags)
    } else {
        batch_text(sorted(entries), flags)
    }
}

fn push_rows(lines: &mut Vec<String>, entries: &Vec<DirEntry>, flags: Flags)
    ensures
        final(lines).deep_view() == old(lines).deep_view() + batch_text(entries@, flags),
{
    let ghost start = lines.deep_view();
    // Only the long format has columns to align.
    let w = if flags.long {
        compute_widths(entries)
    } else {
        Widths { links: 0, user: 0, group: 0, size: 0, major: 0, minor: 0 }
    };
    let mut i: usize = 0;
    assert(lines.deep_view() =~= start + batch_text(entries@, flags).take(0));
    while i < entries.len()
        invariant
            i <= entries.len(),
            flags.long ==> w == widths_of(entries@),
            lines.deep_view() == start + batch_text(entries@, flags).take(i as int),
        decreases entries.len() - i,
    {
        let ghost before = lines.deep_view();
        let e = &entries[i];
        let line = if flags.long {
            render_long(e, flags.classify, &w)
        } else {
            render_name(e.name.as_str(), &e.meta, flags.classify)
        };
        assert(line@ == line_text(entries@, i as int, flags));
        lines.push(line);
        proof {
            let rows = batch_text(entries@, flags);
            assert(lines.deep_view() =~= before.push(rows[i as int]));
            assert(rows.take(i + 1) =~= rows.take(i as int).push(rows[i as int]));
            assert(lines.deep_view() =~= start + rows.take(i + 1));
        }
        i = i + 1;
    }
    assert(batch_text(entries@, flags).take(entries.len() as int) =~= batch_text(entries@, flags));
}

/// Renders a batch of entries that are listed together, in the order given:
/// one line per entry, without line ends.
pub fn render_batch(entries: &Vec<DirEntry>, flags: Flags) -> (lines: Vec<String>)
    ensures
        lines.deep_view() == batch_text(entries@, flags),
{
    let mut lines: Vec<String> = Vec::new();
    push_rows(&mut lines, entries, flags);
    assert(lines.deep_view() =~= batch_text(entries@, flags));
    lines
}

/// Renders the listing of one directory from its entries, in whatever order
/// they were read: sorts them, and in the long format puts the line with the
/// block total first.
pub fn render_dir(entries: Vec<DirEntry>, flags: Flags, total: u64) -> (lines: Vec<String>)
    ensures
        lines.deep_view() == dir_text(entries@, flags, total),
{
    let ordered = sort_entries(entries);
    let mut lines: Vec<String> = Vec::new();
    if flags.long {
        let mut head = String::from_str("total ");
        head.append(decimal_string(total).as_str());
        lines.push(head);
        assert(lines.deep_view() =~= seq!["total "@ + decimal(total as nat)]);
    } else {
        assert(lines.deep_view() =~= Seq::<Seq<char>>::empty());
    }
    push_rows(&mut lines, &ordered, flags);
    assert(lines.deep_view() =~= dir_text(entries@, flags, total));
    lines
}

} // verus!
