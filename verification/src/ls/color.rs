//! Colours and classification marks for entry names.
use crate::ansi::{BLUE, BOLD, CYAN, GREEN, MAGENTA, RED, RESET, YELLOW};
use crate::ls::entry::{broken_link, is_exec_file, FileKind, Meta};
use vstd::prelude::*;

verus! {

/// The mark that classification puts behind a name: `/` for a directory, `@`
/// for a symbolic link, `|` for a fifo, `=` for a socket, `*` for an
/// executable regular file, and none for anything else.
pub open spec fn class_mark(meta: Meta) -> Option<char> {
    match meta.kind {
        FileKind::Directory => Some('/'),
        FileKind::Symlink => Some('@'),
        FileKind::Fifo => Some('|'),
        FileKind::Socket => Some('='),
        _ => if meta.is_executable() {
            Some('*')
        } else {
            None
        },
    }
}

/// The escape sequence that switches to the entry's colour; empty for an entry
/// that is shown plain.
pub open spec fn color_code(meta: Meta) -> Seq<char> {
    match meta.kind {
        FileKind::Symlink => if meta.is_broken_link() {
            BOLD@ + RED@
        } else {
            BOLD@ + CYAN@
        },
        FileKind::Directory => BOLD@ + BLUE@,
        FileKind::Socket => BOLD@ + MAGENTA@,
        FileKind::Fifo => YELLOW@,
        FileKind::BlockDevice | FileKind::CharDevice => BOLD@ + YELLOW@,
        FileKind::Regular => if meta.is_executable() {
            BOLD@ + GREEN@
        } else {
            Seq::empty()
        },
    }
}

/// The mark that the colour alone stands for, used where classification has
/// none of its own.
pub open spec fn color_mark(meta: Meta) -> Seq<char> {
    match meta.kind {
        FileKind::Directory => "/"@,
        FileKind::Socket => "="@,
        FileKind::Fifo => "|"@,
        FileKind::Regular => if meta.is_executable() {
            "*"@
        } else {
            Seq::empty()
        },
        _ => Seq::empty(),
    }
}

/// What follows a name when classification is on.
pub open spec fn mark_text(meta: Meta) -> Seq<char> {
    match class_mark(meta) {
        Some(c) => seq![c],
        None => color_mark(meta),
    }
}

/// A name as the listing shows it: in its colour, and with its mark if
/// `classify` is set.
pub open spec fn name_text(name: Seq<char>, meta: Meta, classify: bool) -> Seq<char> {
    color_code(meta) + name + RESET@ + if classify {
        mark_text(meta)
    } else {
        Seq::empty()
    }
}

/// The classification mark of an entry, if it has one.
pub fn class_suffix(meta: &Meta) -> (r: Option<char>)
    ensures
        r == class_mark(*meta),
{
    match meta.kind {
        FileKind::Directory => Some('/'),
        FileKind::Symlink => Some('@'),
        FileKind::Fifo => Some('|'),
        FileKind::Socket => Some('='),
        _ => if is_exec_file(meta) {
            Some('*')
        } else {
            None
        },
    }
}

fn bold(color: &str) -> (r: String)
    ensures
        r@ == BOLD@ + color@,
{
    let mut r = String::from_str(BOLD);
    r.append(color);
    r
}

/// The colour of an entry and the mark that this colour stands for.
pub fn color_for(meta: &Meta) -> (r: (String, String))
    ensures
        r.0@ == color_code(*meta),
        r.1@ == color_mark(*meta),
{
    match meta.kind {
        FileKind::Symlink => if broken_link(meta) {
            (bold(RED), String::new())
        } else {
            (bold(CYAN), String::new())
        },
        FileKind::Directory => (bold(BLUE), String::from_str("/")),
        FileKind::Socket => (bold(MAGENTA), String::from_str("=")),
        FileKind::Fifo => (String::from_str(YELLOW), String::from_str("|")),
        FileKind::BlockDevice | FileKind::CharDevice => (bold(YELLOW), String::new()),
        FileKind::Regular => if is_exec_file(meta) {
            (bold(GREEN), String::from_str("*"))
        } else {
            (String::new(), String::new())
        },
    }
}

/// Renders an entry's name: colour, name, reset, and with `classify` the
/// entry's mark.
pub fn render_name(name: &str, meta: &Meta, classify: bool) -> (out: String)
    ensures
        out@ == name_text(name@, *meta, classify),
{
    let (prefix, fallback) = color_for(meta);
    let mut out = prefix;
    out.append(name);
    out.append(RESET);
    if classify {
        match class_suffix(meta) {
            Some(c) => {
                out.push(c);
            },
            None => {
                out.append(fallback.as_str());
            },
        }
    }
    assert(out@ =~= name_text(name@, *meta, classify));
    out
}

/// The colour's mark never says anything that classification leaves out:
/// wherever the colour stands for a mark, classification gives that very mark.
pub proof fn lemma_class_mark_covers_color_mark(meta: Meta)
    ensures
        color_mark(meta).len() > 0 ==> class_mark(meta) == Some(color_mark(meta)[0])
            && color_mark(meta).len() == 1,
{
    reveal_strlit("/");
    reveal_strlit("=");
    reveal_strlit("|");
    reveal_strlit("*");
}

} // verus!
