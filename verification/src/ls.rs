//! The directory listing: option parsing, entry ordering, column widths and
//! the long format with its colours and marks.
//!
//! Nothing in here touches the file system. The caller asks the system what
//! the library tells it to ask, hands the answers over as plain values, and
//! gets back the lines to write: `run` lays out the whole of what the command
//! says, on which stream, in which order.
pub mod color;
pub mod entry;
pub mod flags;
pub mod listing;
pub mod long;
pub mod sort;
pub mod time;
pub mod widths;

use crate::ls::entry::{DirEntry, FileKind, Meta};
use crate::ls::flags::{flags_of, operand_tokens, operands_of, parse_flags, Flags};
use crate::ls::listing::{
    batch_text, collect_operands, dir_header, dir_text, missing_upto, needs_headers, render_batch,
    render_dir, total_blocks, total_of,
};
use vstd::prelude::*;

verus! {

/// One line of what the command writes.
#[derive(Clone, Debug, PartialEq, Eq)]
pub struct Line {
    /// The text, without a line end.
    pub text: String,
    /// Whether the line is a complaint, which goes to the error stream.
    pub error: bool,
}

impl DeepView for Line {
    type V = (Seq<char>, bool);

    open spec fn deep_view(&self) -> (Seq<char>, bool) {
        (self.text@, self.error)
    }
}

/// A query that the system refused.
#[derive(Clone, Debug)]
pub struct Refusal {
    /// The path that was asked about.
    pub path: String,
    /// The system's words for what went wrong.
    pub reason: String,
}

/// What reading one directory gave.
#[derive(Clone, Debug)]
pub struct DirReport {
    /// The entries whose metadata could be read, in the order of reading, `.`
    /// and `..` among them where they were asked for.
    pub entries: Vec<DirEntry>,
    /// The entries whose metadata could not be read, in the order of reading.
    pub unreadable: Vec<Refusal>,
    /// The system's words if the directory could not be read to its end.
    pub failure: Option<String>,
}

/// What became of one path that is to be listed.
#[derive(Clone, Debug)]
pub enum Target {
    /// Its metadata could not be read.
    Unreadable(Refusal),
    /// Anything but a directory: it is shown as it is.
    File(DirEntry),
    /// A directory: its entries are shown.
    Dir { path: String, report: DirReport },
}

/// Lines for the output stream.
pub open spec fn out_lines(texts: Seq<Seq<char>>) -> Seq<(Seq<char>, bool)> {
    Seq::new(texts.len(), |i: int| (texts[i], false))
}

/// Lines for the error stream.
pub open spec fn err_lines(texts: Seq<Seq<char>>) -> Seq<(Seq<char>, bool)> {
    Seq::new(texts.len(), |i: int| (texts[i], true))
}

/// The empty line that parts two blocks of a listing.
pub open spec fn blank_line() -> (Seq<char>, bool) {
    (Seq::empty(), false)
}

/// The complaint about a path whose metadata could not be read.
pub open spec fn refusal_text(refusal: Refusal) -> Seq<char> {
    "ls: cannot access '"@ + refusal.path@ + "': "@ + refusal.reason@
}

/// The complaints about a run of refusals, in order.
pub open spec fn refusal_texts(refusals: Seq<Refusal>) -> Seq<Seq<char>> {
    Seq::new(refusals.len(), |i: int| refusal_text(refusals[i]))
}

/// The complaint about a directory that could not be read.
pub open spec fn cannot_open_text(path: Seq<char>, reason: Seq<char>) -> Seq<char> {
    "ls: cannot open directory '"@ + path + "': "@ + reason
}

/// The switches that the listing goes by: those that the arguments ask for,
/// or none at all if an option letter was unknown.
pub open spec fn flags_for(args: Seq<Seq<char>>) -> Flags {
    match flags_of(args) {
        Ok(flags) => flags,
        Err(_) => Flags::none(),
    }
}

/// The complaint about the options, if there is one.
pub open spec fn flag_complaint(args: Seq<Seq<char>>) -> Option<Seq<char>> {
    match flags_of(args) {
        Ok(_) => None,
        Err(e) => Some(e.message_text()),
    }
}

/// The block total of a directory: that of its entries, or zero as soon as
/// the metadata of one entry could not be read.
pub open spec fn dir_total(report: DirReport) -> nat {
    if report.unreadable.len() > 0 {
        0
    } else {
        total_of(report.entries@)
    }
}

/// What a directory contributes: its header if headers are on, the
/// complaints about entries that could not be read, then either the listing
/// or, where reading the directory failed, the complaint about that, and an
/// empty line if `more` directories follow.
pub open spec fn dir_part(
    path: Seq<char>,
    report: DirReport,
    flags: Flags,
    headers: bool,
    more: bool,
) -> Seq<(Seq<char>, bool)> {
    let head = if headers {
        seq![(path + ":"@, false)]
    } else {
        Seq::empty()
    };
    let body = match report.failure {
        Some(reason) => seq![(cannot_open_text(path, reason@), true)],
        None => out_lines(dir_text(report.entries@, flags, dir_total(report) as u64)),
    };
    let foot = if more {
        seq![blank_line()]
    } else {
        Seq::empty()
    };
    head + err_lines(refusal_texts(report.unreadable@)) + body + foot
}

/// The files among the first `n` targets, in order.
pub open spec fn files_upto(targets: Seq<Target>, n: int) -> Seq<DirEntry>
    decreases n,
{
    if n <= 0 {
        Seq::empty()
    } else {
        match targets[n - 1] {
            Target::File(entry) => files_upto(targets, n - 1).push(entry),
            _ => files_upto(targets, n - 1),
        }
    }
}

/// The number of directories among the first `n` targets.
pub open spec fn dirs_upto(targets: Seq<Target>, n: int) -> nat
    decreases n,
{
    if n <= 0 {
        0
    } else {
        match targets[n - 1] {
            Target::Dir { .. } => dirs_upto(targets, n - 1) + 1,
            _ => dirs_upto(targets, n - 1),
        }
    }
}

/// The complaints about those of the first `n` targets that could not be
/// read, in order.
pub open spec fn refused_upto(targets: Seq<Target>, n: int) -> Seq<Seq<char>>
    decreases n,
{
    if n <= 0 {
        Seq::empty()
    } else {
        match targets[n - 1] {
            Target::Unreadable(refusal) => refused_upto(targets, n - 1).push(
                refusal_text(refusal),
            ),
            _ => refused_upto(targets, n - 1),
        }
    }
}

/// What the directories among the first `n` targets contribute, in order,
/// where `dirs` is the number of directories among all targets.
pub open spec fn dir_parts_upto(
    targets: Seq<Target>,
    n: int,
    flags: Flags,
    headers: bool,
    dirs: nat,
) -> Seq<(Seq<char>, bool)>
    decreases n,
{
    if n <= 0 {
        Seq::empty()
    } else {
        match targets[n - 1] {
            Target::Dir { path, report } => dir_parts_upto(targets, n - 1, flags, headers, dirs)
                + dir_part(path@, report, flags, headers, dirs_upto(targets, n) < dirs),
            _ => dir_parts_upto(targets, n - 1, flags, headers, dirs),
        }
    }
}

/// The block of the files that were given as operands: one batch in the
/// order given, and an empty line if directories follow.
pub open spec fn files_block(files: Seq<DirEntry>, flags: Flags, dirs_follow: bool) -> Seq<
    (Seq<char>, bool),
> {
    if files.len() == 0 {
        Seq::empty()
    } else if dirs_follow {
        out_lines(batch_text(files, flags)).push(blank_line())
    } else {
        out_lines(batch_text(files, flags))
    }
}

/// The lines for the targets of a listing: first the complaints about targets
/// that could not be read, then the files, then the directories one by one.
/// Directories get a header only if the listing has more than one part, the
/// files counting as one.
pub open spec fn layout_text(flags: Flags, targets: Seq<Target>) -> Seq<(Seq<char>, bool)> {
    let n = targets.len() as int;
    let files = files_upto(targets, n);
    let dirs = dirs_upto(targets, n);
    let headers = dirs + (if files.len() > 0 {
        1int
    } else {
        0int
    }) > 1;
    err_lines(refused_upto(targets, n)) + files_block(files, flags, dirs > 0) + dir_parts_upto(
        targets,
        n,
        flags,
        headers,
        dirs,
    )
}

/// Everything that the command writes for the arguments `args`: the
/// complaint about an unknown option, the complaints about operands that do
/// not exist, and the lines for the targets. `found[i]` says whether the
/// `i`th operand exists.
pub open spec fn run_text(args: Seq<Seq<char>>, found: Seq<bool>, targets: Seq<Target>) -> Seq<
    (Seq<char>, bool),
> {
    let operands = operands_of(args);
    let complaint = match flag_complaint(args) {
        Some(text) => seq![(text, true)],
        None => Seq::empty(),
    };
    complaint + err_lines(missing_upto(operands, found, operands.len() as int)) + layout_text(
        flags_for(args),
        targets,
    )
}

/// Reads the switches for a listing. An unknown option letter is complained
/// about, and the listing then goes by no switch at all.
pub fn listing_flags(args: &[String]) -> (r: (Flags, Option<String>))
    ensures
        r.0 == flags_for(args.deep_view()),
        crate::commands::text_of(r.1) == flag_complaint(args.deep_view()),
{
    match parse_flags(args) {
        Ok(flags) => (flags, None),
        Err(e) => (Flags::default(), Some(e.message())),
    }
}

/// Whether a target is listed by its contents: a directory is, and nothing
/// else, not even a link to a directory.
pub fn lists_contents(meta: &Meta) -> (r: bool)
    ensures
        r == (meta.kind == FileKind::Directory),
{
    meta.kind == FileKind::Directory
}

fn push_line(lines: &mut Vec<Line>, text: String, error: bool)
    ensures
        final(lines).deep_view() == old(lines).deep_view().push((text@, error)),
{
    let ghost before = lines.deep_view();
    let ghost added = (text@, error);
    lines.push(Line { text, error });
    assert(lines.deep_view() =~= before.push(added));
}

fn push_texts(lines: &mut Vec<Line>, texts: &Vec<String>, error: bool)
    ensures
        final(lines).deep_view() == old(lines).deep_view() + if error {
            err_lines(texts.deep_view())
        } else {
            out_lines(texts.deep_view())
        },
{
    let ghost start = lines.deep_view();
    let ghost added = if error {
        err_lines(texts.deep_view())
    } else {
        out_lines(texts.deep_view())
    };
    let mut i: usize = 0;
    assert(lines.deep_view() =~= start + added.take(0));
    while i < texts.len()
        invariant
            i <= texts.len(),
            added == if error {
                err_lines(texts.deep_view())
            } else {
                out_lines(texts.deep_view())
            },
            lines.deep_view() == start + added.take(i as int),
        decreases texts.len() - i,
    {
        assert(texts.deep_view()[i as int] == texts[i as int]@);
        push_line(lines, texts[i].clone(), error);
        assert(lines.deep_view() =~= start + added.take(i + 1));
        i = i + 1;
    }
    assert(added.take(texts.len() as int) =~= added);
}

fn append_lines(lines: &mut Vec<Line>, more: Vec<Line>)
    ensures
        final(lines).deep_view() == old(lines).deep_view() + more.deep_view(),
{
    let ghost before = lines.deep_view();
    let mut rest = more;
    lines.append(&mut rest);
    assert(lines.deep_view() =~= before + more.deep_view());
}

/// The complaint about a path whose metadata could not be read.
pub fn refusal_message(refusal: &Refusal) -> (text: String)
    ensures
        text@ == refusal_text(*refusal),
{
    let mut text = String::from_str("ls: cannot access '");
    text.append(refusal.path.as_str());
    text.append("': ");
    text.append(refusal.reason.as_str());
    text
}

fn refusal_messages(refusals: &Vec<Refusal>) -> (texts: Vec<String>)
    ensures
        texts.deep_view() == refusal_texts(refusals@),
{
    let mut texts: Vec<String> = Vec::new();
    let mut i: usize = 0;
    while i < refusals.len()
        invariant
            i <= refusals.len(),
            texts.len() == i,
            forall|k: int| 0 <= k < i ==> (#[trigger] texts[k])@ == refusal_text(refusals[k]),
        decreases refusals.len() - i,
    {
        texts.push(refusal_message(&refusals[i]));
        i = i + 1;
    }
    assert(texts.deep_view() =~= refusal_texts(refusals@));
    texts
}

fn push_dir_part(
    lines: &mut Vec<Line>,
    path: String,
    report: DirReport,
    flags: Flags,
    headers: bool,
    more: bool,
)
    ensures
        final(lines).deep_view() == old(lines).deep_view() + dir_part(
            path@,
            report,
            flags,
            headers,
            more,
        ),
{
    let ghost start = lines.deep_view();
    let ghost whole = dir_part(path@, report, flags, headers, more);
    let DirReport { entries, unreadable, failure } = report;
    if headers {
        push_line(lines, dir_header(path.as_str()), false);
    }
    let ghost with_head = lines.deep_view();
    let complaints = refusal_messages(&unreadable);
    push_texts(lines, &complaints, true);
    let ghost with_complaints = lines.deep_view();
    match failure {
        Some(reason) => {
            let mut text = String::from_str("ls: cannot open directory '");
            text.append(path.as_str());
            text.append("': ");
            text.append(reason.as_str());
            push_line(lines, text, true);
        },
        None => {
            let total = if unreadable.len() > 0 {
                0
            } else {
                total_blocks(&entries)
            };
            let rows = render_dir(entries, flags, total);
            push_texts(lines, &rows, false);
        },
    }
    if more {
        push_line(lines, String::new(), false);
    }
    assert(lines.deep_view() =~= start + whole);
}

/// Lays out the lines for the targets of a listing.
pub fn layout(flags: Flags, targets: Vec<Target>) -> (lines: Vec<Line>)
    ensures
        lines.deep_view() == layout_text(flags, targets@),
{
    let ghost all = targets@;
    // The header rule and the empty lines depend on how many parts there are.
    let mut n_files: usize = 0;
    let mut n_dirs: usize = 0;
    let mut i: usize = 0;
    while i < targets.len()
        invariant
            i <= targets.len(),
            all == targets@,
            n_files == files_upto(all, i as int).len(),
            n_dirs == dirs_upto(all, i as int),
            n_files <= i,
            n_dirs <= i,
        decreases targets.len() - i,
    {
        match &targets[i] {
            Target::File(_) => {
                n_files = n_files + 1;
            },
            Target::Dir { .. } => {
                n_dirs = n_dirs + 1;
            },
            Target::Unreadable(_) => {},
        }
        i = i + 1;
    }
    let headers = needs_headers(n_dirs, n_files);
    let mut lines: Vec<Line> = Vec::new();
    let mut files: Vec<DirEntry> = Vec::new();
    let mut dir_lines: Vec<Line> = Vec::new();
    let mut seen_dirs: usize = 0;
    proof {
        assert(lines.deep_view() =~= err_lines(refused_upto(all, 0)));
        assert(dir_lines.deep_view() =~= dir_parts_upto(all, 0, flags, headers, n_dirs as nat));
    }
    for target in it: targets
        invariant
            it.seq() == all,
            all.len() <= usize::MAX,
            n_dirs == dirs_upto(all, all.len() as int),
            lines.deep_view() == err_lines(refused_upto(all, it.index())),
            files@ == files_upto(all, it.index()),
            seen_dirs == dirs_upto(all, it.index()),
            seen_dirs <= it.index(),
            dir_lines.deep_view() == dir_parts_upto(
                all,
                it.index(),
                flags,
                headers,
                n_dirs as nat,
            ),
    {
        let ghost k = it.index();
        let ghost said = refused_upto(all, k);
        match target {
            Target::Unreadable(refusal) => {
                push_line(&mut lines, refusal_message(&refusal), true);
                assert(lines.deep_view() =~= err_lines(said.push(refusal_text(refusal))));
            },
            Target::File(entry) => {
                files.push(entry);
            },
            Target::Dir { path, report } => {
                seen_dirs = seen_dirs + 1;
                proof {
                    lemma_dirs_upto_grows(all, k + 1, all.len() as int);
                }
                push_dir_part(&mut dir_lines, path, report, flags, headers, seen_dirs < n_dirs);
            },
        }
    }
    if files.len() > 0 {
        let rows = render_batch(&files, flags);
        push_texts(&mut lines, &rows, false);
        if n_dirs > 0 {
            push_line(&mut lines, String::new(), false);
        }
    }
    append_lines(&mut lines, dir_lines);
    assert(lines.deep_view() =~= layout_text(flags, all));
    lines
}

proof fn lemma_dirs_upto_grows(targets: Seq<Target>, a: int, b: int)
    requires
        a <= b,
    ensures
        dirs_upto(targets, a) <= dirs_upto(targets, b),
    decreases b - a,
{
    if a < b {
        lemma_dirs_upto_grows(targets, a, b - 1);
    }
}

/// The listing command as a whole: everything it writes for the arguments
/// `args`, in order, each line with its stream. `found` says of each operand
/// among the arguments whether it exists, and `targets` is what became of the
/// paths that are to be listed.
pub fn run(args: &[String], found: &[bool], targets: Vec<Target>) -> (lines: Vec<Line>)
    ensures
        lines.deep_view() == run_text(args.deep_view(), found@, targets@),
{
    let mut lines: Vec<Line> = Vec::new();
    let (flags, complaint) = listing_flags(args);
    match complaint {
        Some(text) => {
            push_line(&mut lines, text, true);
        },
        None => {},
    }
    let ghost head = lines.deep_view();
    let operands = operand_tokens(args);
    let given = operands.as_slice();
    assert(given.deep_view() =~= operands.deep_view());
    let (_, missing) = collect_operands(given, found);
    push_texts(&mut lines, &missing, true);
    append_lines(&mut lines, layout(flags, targets));
    assert(lines.deep_view() =~= run_text(args.deep_view(), found@, targets@));
    lines
}

/// Without a target the command writes complaints only: nothing goes to the
/// output stream. That is the case where operands were given and none of
/// them exists, for then there is no target.
pub proof fn lemma_no_target_no_output(args: Seq<Seq<char>>, found: Seq<bool>)
    ensures
        layout_text(flags_for(args), Seq::empty()) == Seq::<(Seq<char>, bool)>::empty(),
        forall|i: int|
            0 <= i < run_text(args, found, Seq::empty()).len() ==> (#[trigger] run_text(
                args,
                found,
                Seq::empty(),
            )[i]).1,
{
    let nothing = Seq::<Target>::empty();
    assert(layout_text(flags_for(args), nothing) =~= Seq::<(Seq<char>, bool)>::empty());
}

} // verus!
