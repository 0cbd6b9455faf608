//! `mv`: what its arguments ask for, given which of them exist.
use crate::ls::listing::{found_upto, is_found};
use vstd::prelude::*;

verus! {

/// What `mv` is asked to do.
#[derive(Clone, Debug)]
pub enum MvPlan {
    /// No argument at all.
    MissingFileOperand,
    /// One argument only.
    MissingDestination { after: String },
    /// Several sources, and the last argument does not exist.
    TargetNotDirectory { target: String },
    /// One argument exists and the other does not: the first gets the name of
    /// the second.
    Rename { from: String, to: String },
    /// The sources that exist go into the last argument that exists; the
    /// arguments that do not exist are complained about afterwards.
    MoveInto { sources: Vec<String>, target: String, missing: Vec<String> },
}

/// `MvPlan` in terms of texts.
pub enum MvChoice {
    MissingFileOperand,
    MissingDestination { after: Seq<char> },
    TargetNotDirectory { target: Seq<char> },
    Rename { from: Seq<char>, to: Seq<char> },
    MoveInto { sources: Seq<Seq<char>>, target: Seq<char>, missing: Seq<Seq<char>> },
}

impl View for MvPlan {
    type V = MvChoice;

    open spec fn view(&self) -> MvChoice {
        match *self {
            MvPlan::MissingFileOperand => MvChoice::MissingFileOperand,
            MvPlan::MissingDestination { after } => MvChoice::MissingDestination { after: after@ },
            MvPlan::TargetNotDirectory { target } => MvChoice::TargetNotDirectory {
                target: target@,
            },
            MvPlan::Rename { from, to } => MvChoice::Rename { from: from@, to: to@ },
            MvPlan::MoveInto { sources, target, missing } => MvChoice::MoveInto {
                sources: sources.deep_view(),
                target: target@,
                missing: missing.deep_view(),
            },
        }
    }
}

/// Of the first `n` arguments, those that do not exist, in order.
pub open spec fn absent_upto(args: Seq<Seq<char>>, exists: Seq<bool>, n: int) -> Seq<Seq<char>>
    decreases n,
{
    if n <= 0 {
        Seq::empty()
    } else if is_found(exists, n - 1) {
        absent_upto(args, exists, n - 1)
    } else {
        absent_upto(args, exists, n - 1).push(args[n - 1])
    }
}

/// Two arguments of which neither exists: there is nothing to move and
/// nothing to move it to.
pub open spec fn nothing_to_move(args: Seq<Seq<char>>, exists: Seq<bool>) -> bool {
    args.len() == 2 && !is_found(exists, 0) && !is_found(exists, 1)
}

/// What the arguments of `mv` ask for, where `exists[i]` says whether
/// `args[i]` is there. With several sources the last argument has to exist.
/// One existing and one missing argument are a renaming. Otherwise the last
/// existing argument takes in the existing ones before it.
pub open spec fn mv_choice(args: Seq<Seq<char>>, exists: Seq<bool>) -> MvChoice {
    let n = args.len() as int;
    let present = found_upto(args, exists, n);
    let absent = absent_upto(args, exists, n);
    if n == 0 {
        MvChoice::MissingFileOperand
    } else if n == 1 {
        MvChoice::MissingDestination { after: args[0] }
    } else if n != 2 && !is_found(exists, n - 1) {
        MvChoice::TargetNotDirectory { target: args[n - 1] }
    } else if present.len() == 1 && absent.len() == 1 {
        MvChoice::Rename { from: present[0], to: absent[0] }
    } else {
        MvChoice::MoveInto { sources: present.drop_last(), target: present.last(), missing: absent }
    }
}

/// Reads the arguments of `mv`. The one case without an answer is left out:
/// two arguments of which neither exists.
pub fn mv_plan(args: &[String], exists: &[bool]) -> (plan: MvPlan)
    requires
        !nothing_to_move(args.deep_view(), exists@),
    ensures
        plan@ == mv_choice(args.deep_view(), exists@),
{
    let ghost tokens = args.deep_view();
    let n = args.len();
    if n == 0 {
        return MvPlan::MissingFileOperand;
    }
    assert(tokens[0] == args[0]@);
    if n == 1 {
        return MvPlan::MissingDestination { after: args[0].clone() };
    }
    assert(tokens[n - 1] == args[n - 1]@);
    if n != 2 && !(n - 1 < exists.len() && exists[n - 1]) {
        return MvPlan::TargetNotDirectory { target: args[n - 1].clone() };
    }
    let mut present: Vec<String> = Vec::new();
    let mut absent: Vec<String> = Vec::new();
    let mut i: usize = 0;
    assert(present.deep_view() =~= found_upto(tokens, exists@, 0));
    assert(absent.deep_view() =~= absent_upto(tokens, exists@, 0));
    while i < n
        invariant
            i <= n == args.len(),
            tokens == args.deep_view(),
            present.deep_view() == found_upto(tokens, exists@, i as int),
            absent.deep_view() == absent_upto(tokens, exists@, i as int),
            present.len() + absent.len() == i,
        decreases n - i,
    {
        let ghost kept = present.deep_view();
        let ghost lost = absent.deep_view();
        assert(tokens[i as int] == args[i as int]@);
        if i < exists.len() && exists[i] {
            present.push(args[i].clone());
            assert(present.deep_view() =~= kept.push(tokens[i as int]));
        } else {
            absent.push(args[i].clone());
            assert(absent.deep_view() =~= lost.push(tokens[i as int]));
        }
        i = i + 1;
    }
    if present.len() == 1 && absent.len() == 1 {
        let from = present.pop().unwrap();
        let to = absent.pop().unwrap();
        return MvPlan::Rename { from, to };
    }
    proof {
        // of two arguments at least one exists, and of more the last one does
        if n == 2 {
            reveal_with_fuel(found_upto, 3);
        }
        assert(found_upto(tokens, exists@, n as int).len() > 0);
    }
    let ghost all = present.deep_view();
    let target = present.pop().unwrap();
    assert(present.deep_view() =~= all.drop_last());
    assert(target@ == all.last());
    MvPlan::MoveInto { sources: present, target, missing: absent }
}

/// The complaint about a source that does not exist.
pub fn cannot_stat(name: &str) -> (text: String)
    ensures
        text@ == "mv: cannot stat '"@ + name@ + "': No such file or directory"@,
{
    let mut text = String::from_str("mv: cannot stat '");
    text.append(name);
    text.append("': No such file or directory");
    text
}

impl MvPlan {
    /// What the plan has to say before anything is moved, if anything.
    pub open spec fn complaint_text(self) -> Option<Seq<char>> {
        match self {
            MvPlan::MissingFileOperand => Some("mv: missing file operand"@),
            MvPlan::MissingDestination { after } => Some(
                "mv: missing destination file operand after '"@ + after@ + "'"@,
            ),
            MvPlan::TargetNotDirectory { target } => Some(
                "mv: target '"@ + target@ + "' is not a directory"@,
            ),
            _ => None,
        }
    }

    /// The complaint of a plan that moves nothing.
    pub fn complaint(&self) -> (text: Option<String>)
        ensures
            crate::commands::text_of(text) == self.complaint_text(),
    {
        match self {
            MvPlan::MissingFileOperand => Some(String::from_str("mv: missing file operand")),
            MvPlan::MissingDestination { after } => {
                let mut text = String::from_str("mv: missing destination file operand after '");
                text.append(after.as_str());
                text.append("'");
                Some(text)
            },
            MvPlan::TargetNotDirectory { target } => {
                let mut text = String::from_str("mv: target '");
                text.append(target.as_str());
                text.append("' is not a directory");
                Some(text)
            },
            _ => None,
        }
    }
}

} // verus!
