//! `cp`: what its arguments ask for.
use crate::commands::text_of;
use vstd::prelude::*;

verus! {

/// What `cp` is asked to do.
#[derive(Clone, Debug)]
pub struct CpPlan {
    /// What there is to complain about.
    pub complaint: Option<String>,
    /// The files and directories to copy, in order.
    pub sources: Vec<String>,
    /// Where they go: the last argument.
    pub target: String,
}

/// The complaint about a source without a destination.
pub open spec fn missing_destination_text(source: Seq<char>) -> Seq<char> {
    "cp: missing destination file operand after '"@ + source + "'\nUsage: cp SOURCE DEST"@
}

/// Reads the arguments of `cp`: the last one is the destination, the others
/// are copied there. A single argument is complained about and copies
/// nothing. There has to be an argument.
pub fn cp_plan(args: &[String]) -> (plan: CpPlan)
    requires
        args.len() >= 1,
    ensures
        text_of(plan.complaint) == if args.len() < 2 {
            Some(missing_destination_text(args.deep_view()[0]))
        } else {
            None
        },
        plan.sources.deep_view() == args.deep_view().drop_last(),
        plan.target@ == args.deep_view().last(),
{
    let ghost tokens = args.deep_view();
    assert(tokens[0] == args[0]@);
    let complaint = if args.len() < 2 {
        let mut text = String::from_str("cp: missing destination file operand after '");
        text.append(args[0].as_str());
        text.append("'\nUsage: cp SOURCE DEST");
        Some(text)
    } else {
        None
    };
    let last: usize = args.len() - 1;
    assert(tokens[last as int] == args[last as int]@);
    let mut sources: Vec<String> = Vec::new();
    let mut i: usize = 0;
    assert(sources.deep_view() =~= tokens.take(0));
    while i < last
        invariant
            i <= last < args.len(),
            tokens == args.deep_view(),
            sources.deep_view() == tokens.take(i as int),
        decreases last - i,
    {
        let ghost kept = sources.deep_view();
        assert(tokens[i as int] == args[i as int]@);
        sources.push(args[i].clone());
        assert(sources.deep_view() =~= kept.push(tokens[i as int]));
        i = i + 1;
        assert(tokens.take(i as int) =~= kept.push(tokens[i - 1]));
    }
    assert(tokens.take(last as int) =~= tokens.drop_last());
    CpPlan { complaint, sources, target: args[last].clone() }
}

} // verus!
