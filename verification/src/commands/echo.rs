//! `echo`: the line it prints.
use vstd::prelude::*;

verus! {

/// The words with one space between neighbours.
pub open spec fn joined(words: Seq<Seq<char>>) -> Seq<char>
    decreases words.len(),
{
    if words.len() == 0 {
        Seq::empty()
    } else if words.len() == 1 {
        words[0]
    } else {
        joined(words.drop_last()) + " "@ + words.last()
    }
}

/// The line that `echo` prints for its arguments, without the line end.
/// Without arguments it prints nothing at all, not even an empty line.
pub fn echo_line(args: &[String]) -> (line: Option<String>)
    ensures
        line is None <==> args.len() == 0,
        line matches Some(text) ==> text@ == joined(args.deep_view()),
{
    if args.len() == 0 {
        return None;
    }
    let ghost words = args.deep_view();
    let mut text = args[0].clone();
    let mut i: usize = 1;
    assert(words.take(1).len() == 1);
    while i < args.len()
        invariant
            1 <= i <= args.len(),
            words == args.deep_view(),
            text@ == joined(words.take(i as int)),
        decreases args.len() - i,
    {
        assert(words.take(i + 1).drop_last() =~= words.take(i as int));
        text.append(" ");
        text.append(args[i].as_str());
        i = i + 1;
    }
    assert(words.take(args.len() as int) =~= words);
    Some(text)
}

} // verus!
