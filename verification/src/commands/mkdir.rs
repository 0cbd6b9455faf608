//! `mkdir`: what its arguments ask for.
use crate::ls::flags::{is_cluster, is_terminator};
use crate::text::to_chars;
use vstd::prelude::*;

verus! {

/// What `mkdir` is asked to do.
#[derive(Clone, Debug)]
pub struct MkdirPlan {
    /// `-p`: create missing parents too.
    pub parents: bool,
    /// The directories to create, in order.
    pub operands: Vec<String>,
    /// What there is to complain about, in order.
    pub complaints: Vec<String>,
}

/// The reading of `mkdir`'s arguments so far.
pub struct MkdirScan {
    /// Whether `--` has been met.
    pub closed: bool,
    pub parents: bool,
    pub operands: Seq<Seq<char>>,
    pub complaints: Seq<Seq<char>>,
}

/// The option `-p`.
pub open spec fn is_parents_option(token: Seq<char>) -> bool {
    token.len() == 2 && token[0] == '-' && token[1] == 'p'
}

/// The complaint about an option that `mkdir` does not know.
pub open spec fn invalid_option_text(token: Seq<char>) -> Seq<char> {
    "mkdir: invalid option '"@ + token + "'"@
}

/// The reading after one more argument. Behind `--` every argument is an
/// operand. Before it `--` closes the options, `-p` sets its switch, any other
/// token that starts with a dash and is more than the dash is complained
/// about, and the rest are operands.
pub open spec fn mkdir_step(st: MkdirScan, token: Seq<char>) -> MkdirScan {
    if st.closed {
        MkdirScan { operands: st.operands.push(token), ..st }
    } else if is_terminator(token) {
        MkdirScan { closed: true, ..st }
    } else if is_parents_option(token) {
        MkdirScan { parents: true, ..st }
    } else if is_cluster(token) {
        MkdirScan { complaints: st.complaints.push(invalid_option_text(token)), ..st }
    } else {
        MkdirScan { operands: st.operands.push(token), ..st }
    }
}

/// The reading of all of `tokens`.
pub open spec fn mkdir_scan(tokens: Seq<Seq<char>>) -> MkdirScan
    decreases tokens.len(),
{
    if tokens.len() == 0 {
        MkdirScan {
            closed: false,
            parents: false,
            operands: Seq::empty(),
            complaints: Seq::empty(),
        }
    } else {
        mkdir_step(mkdir_scan(tokens.drop_last()), tokens.last())
    }
}

/// The complaints of a finished reading: those about options, and one more if
/// there is nothing to create.
pub open spec fn mkdir_complaints(st: MkdirScan) -> Seq<Seq<char>> {
    if st.operands.len() == 0 {
        st.complaints.push("mkdir: missing operand"@)
    } else {
        st.complaints
    }
}

/// Reads the arguments of `mkdir`.
pub fn mkdir_plan(args: &[String]) -> (plan: MkdirPlan)
    ensures
        plan.parents == mkdir_scan(args.deep_view()).parents,
        plan.operands.deep_view() == mkdir_scan(args.deep_view()).operands,
        plan.complaints.deep_view() == mkdir_complaints(mkdir_scan(args.deep_view())),
{
    let ghost tokens = args.deep_view();
    let mut closed = false;
    let mut parents = false;
    let mut operands: Vec<String> = Vec::new();
    let mut complaints: Vec<String> = Vec::new();
    let mut i: usize = 0;
    assert(operands.deep_view() =~= mkdir_scan(tokens.take(0)).operands);
    assert(complaints.deep_view() =~= mkdir_scan(tokens.take(0)).complaints);
    while i < args.len()
        invariant
            i <= args.len(),
            tokens == args.deep_view(),
            closed == mkdir_scan(tokens.take(i as int)).closed,
            parents == mkdir_scan(tokens.take(i as int)).parents,
            operands.deep_view() == mkdir_scan(tokens.take(i as int)).operands,
            complaints.deep_view() == mkdir_scan(tokens.take(i as int)).complaints,
        decreases args.len() - i,
    {
        let token = to_chars(args[i].as_str());
        let ghost kept = operands.deep_view();
        let ghost said = complaints.deep_view();
        proof {
            assert(token@ == tokens[i as int]);
            assert(tokens.take(i + 1).drop_last() =~= tokens.take(i as int));
            assert(tokens.take(i + 1).last() == token@);
        }
        if closed {
            operands.push(args[i].clone());
            assert(operands.deep_view() =~= kept.push(token@));
        } else if token.len() == 2 && token[0] == '-' && token[1] == '-' {
            closed = true;
        } else if token.len() == 2 && token[0] == '-' && token[1] == 'p' {
            parents = true;
        } else if token.len() >= 2 && token[0] == '-' {
            let mut text = String::from_str("mkdir: invalid option '");
            text.append(args[i].as_str());
            text.append("'");
            complaints.push(text);
            assert(complaints.deep_view() =~= said.push(invalid_option_text(token@)));
        } else {
            operands.push(args[i].clone());
            assert(operands.deep_view() =~= kept.push(token@));
        }
        i = i + 1;
    }
    assert(tokens.take(args.len() as int) =~= tokens);
    if operands.len() == 0 {
        let ghost said = complaints.deep_view();
        complaints.push(String::from_str("mkdir: missing operand"));
        assert(complaints.deep_view() =~= said.push("mkdir: missing operand"@));
    }
    MkdirPlan { parents, operands, complaints }
}

} // verus!
