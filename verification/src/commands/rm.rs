//! `rm`: what its arguments ask for, and what becomes of each operand.
use crate::commands::text_of;
use crate::ls::flags::is_cluster;
use crate::text::{from_chars, to_chars};
use vstd::prelude::*;

verus! {

/// What `rm` is asked to do.
#[derive(Clone, Debug)]
pub struct RmPlan {
    /// What there is to complain about; with a complaint nothing is removed.
    pub complaint: Option<String>,
    /// `-r`: directories are removed with all that is in them.
    pub recursive: bool,
    /// The files to remove, in order.
    pub operands: Vec<String>,
}

/// The option `-r`.
pub open spec fn is_recursive_option(token: Seq<char>) -> bool {
    token.len() == 2 && token[0] == '-' && token[1] == 'r'
}

/// The complaint about an option that `rm` does not know. It names the option
/// without its dash.
pub open spec fn invalid_option_text(token: Seq<char>) -> Seq<char> {
    "rm: invalid option -- '"@ + token.skip(1) + "'"@
}

/// What `rm` complains about. Only the first argument can be an option: if it
/// starts with a dash and is more than the dash, it has to be `-r`, and
/// something has to follow it.
pub open spec fn rm_complaint(args: Seq<Seq<char>>) -> Option<Seq<char>> {
    if args.len() >= 1 && is_cluster(args[0]) {
        if !is_recursive_option(args[0]) {
            Some(invalid_option_text(args[0]))
        } else if args.len() == 1 {
            Some("rm: missing operand"@)
        } else {
            None
        }
    } else {
        None
    }
}

/// Whether `rm` removes directories too.
pub open spec fn rm_recursive(args: Seq<Seq<char>>) -> bool {
    rm_complaint(args) is None && args.len() >= 1 && is_recursive_option(args[0])
}

/// The files that `rm` removes: none after a complaint, else all arguments
/// but the option.
pub open spec fn rm_operands(args: Seq<Seq<char>>) -> Seq<Seq<char>> {
    if rm_complaint(args) is Some {
        Seq::empty()
    } else if rm_recursive(args) {
        args.skip(1)
    } else {
        args
    }
}

/// Reads the arguments of `rm`.
pub fn rm_plan(args: &[String]) -> (plan: RmPlan)
    ensures
        text_of(plan.complaint) == rm_complaint(args.deep_view()),
        plan.recursive == rm_recursive(args.deep_view()),
        plan.operands.deep_view() == rm_operands(args.deep_view()),
{
    let ghost tokens = args.deep_view();
    let mut operands: Vec<String> = Vec::new();
    assert(operands.deep_view() =~= Seq::<Seq<char>>::empty());
    if args.len() == 0 {
        assert(tokens =~= Seq::<Seq<char>>::empty());
        return RmPlan { complaint: None, recursive: false, operands };
    }
    assert(tokens[0] == args[0]@);
    let first = to_chars(args[0].as_str());
    let option = first.len() >= 2 && first[0] == '-';
    if option && !(first.len() == 2 && first[1] == 'r') {
        let mut text = String::from_str("rm: invalid option -- '");
        text.append(from_chars(&first, 1, first.len()).as_str());
        text.append("'");
        assert(first@.subrange(1, first.len() as int) =~= first@.skip(1));
        return RmPlan { complaint: Some(text), recursive: false, operands };
    }
    if option && args.len() == 1 {
        return RmPlan {
            complaint: Some(String::from_str("rm: missing operand")),
            recursive: false,
            operands,
        };
    }
    let from: usize = if option {
        1
    } else {
        0
    };
    let mut i: usize = from;
    assert(tokens.subrange(from as int, from as int) =~= Seq::<Seq<char>>::empty());
    while i < args.len()
        invariant
            from <= i <= args.len(),
            tokens == args.deep_view(),
            operands.deep_view() == tokens.subrange(from as int, i as int),
        decreases args.len() - i,
    {
        let ghost kept = operands.deep_view();
        assert(tokens[i as int] == args[i as int]@);
        operands.push(args[i].clone());
        assert(operands.deep_view() =~= kept.push(tokens[i as int]));
        i = i + 1;
        assert(tokens.subrange(from as int, i as int) =~= kept.push(tokens[i - 1]));
    }
    assert(tokens.subrange(from as int, args.len() as int) =~= tokens.skip(from as int));
    assert(tokens.skip(0) =~= tokens);
    RmPlan { complaint: None, recursive: option, operands }
}

/// What `rm` does with one operand.
#[derive(Clone, Copy, Debug, PartialEq, Eq, Structural)]
pub enum RmAction {
    /// Remove the directory and all that is in it.
    RemoveTree,
    /// Remove the file.
    RemoveFile,
    /// Leave it alone and say nothing.
    Skip,
    /// Complain that there is no such file.
    NoSuchFile,
    /// Complain that it is a directory.
    IsDirectory,
}

/// What becomes of an operand, given what the file system says of it. A
/// missing one is complained about. A directory is removed only with `-r` and
/// complained about without. A regular file is removed. Anything else that
/// exists is left alone.
pub open spec fn rm_choice(recursive: bool, exists: bool, is_dir: bool, is_file: bool) -> RmAction {
    if !exists {
        RmAction::NoSuchFile
    } else if is_dir {
        if recursive {
            RmAction::RemoveTree
        } else {
            RmAction::IsDirectory
        }
    } else if is_file {
        RmAction::RemoveFile
    } else {
        RmAction::Skip
    }
}

/// Decides what becomes of one operand.
pub fn rm_action(recursive: bool, exists: bool, is_dir: bool, is_file: bool) -> (action: RmAction)
    ensures
        action == rm_choice(recursive, exists, is_dir, is_file),
{
    if !exists {
        RmAction::NoSuchFile
    } else if is_dir {
        if recursive {
            RmAction::RemoveTree
        } else {
            RmAction::IsDirectory
        }
    } else if is_file {
        RmAction::RemoveFile
    } else {
        RmAction::Skip
    }
}

impl RmAction {
    /// What the action has to say about the operand `name`, if anything.
    pub open spec fn complaint_text(self, name: Seq<char>) -> Option<Seq<char>> {
        match self {
            RmAction::NoSuchFile => Some(
                "rm: cannot remove '"@ + name + "': No such file or directory"@,
            ),
            RmAction::IsDirectory => Some("rm: cannot remove '"@ + name + "': Is a directory"@),
            _ => None,
        }
    }

    /// The complaint about the operand `name`, for an action that has one.
    pub fn complaint(&self, name: &str) -> (text: Option<String>)
        ensures
            text_of(text) == self.complaint_text(name@),
    {
        match self {
            RmAction::NoSuchFile => {
                let mut text = String::from_str("rm: cannot remove '");
                text.append(name);
                text.append("': No such file or directory");
                Some(text)
            },
            RmAction::IsDirectory => {
                let mut text = String::from_str("rm: cannot remove '");
                text.append(name);
                text.append("': Is a directory");
                Some(text)
            },
            _ => None,
        }
    }
}

} // verus!
