//! Options and operands of the listing command.
//!
//! The arguments are read left to right. Up to the first `--` a token that
//! starts with a dash, and is more than the dash alone, is a cluster of
//! one-letter options; any other token is an operand. The first `--` itself is
//! neither. Behind it every token is an operand.
use crate::text::to_chars;
use vstd::prelude::*;

verus! {

/// The three switches of the listing.
#[derive(Clone, Copy, Debug, PartialEq, Eq, Structural)]
pub struct Flags {
    /// `-a`: show entries whose name starts with a dot, and `.` and `..`.
    pub show_all: bool,
    /// `-l`: long format.
    pub long: bool,
    /// `-F`: put a mark for the entry's type behind its name.
    pub classify: bool,
}

/// An option letter that the listing does not know.
#[derive(Clone, Copy, Debug, PartialEq, Eq, Structural)]
pub struct FlagError {
    /// The letter.
    pub option: char,
    /// The switches that were set before the letter was met.
    pub applied: Flags,
}

impl Flags {
    /// All switches off.
    pub open spec fn none() -> Flags {
        Flags { show_all: false, long: false, classify: false }
    }
}

impl Default for Flags {
    fn default() -> (flags: Flags)
        ensures
            flags == Flags::none(),
    {
        Flags { show_all: false, long: false, classify: false }
    }
}

/// The token `--`, which ends the options.
pub open spec fn is_terminator(token: Seq<char>) -> bool {
    token.len() == 2 && token[0] == '-' && token[1] == '-'
}

/// A token that holds options when it stands before the terminator.
pub open spec fn is_cluster(token: Seq<char>) -> bool {
    token.len() >= 2 && token[0] == '-'
}

/// The position of the first `--`, or the number of tokens if there is none.
pub open spec fn options_end(tokens: Seq<Seq<char>>) -> int
    decreases tokens.len(),
{
    if tokens.len() == 0 || is_terminator(tokens[0]) {
        0
    } else {
        1 + options_end(tokens.skip(1))
    }
}

/// `flags` with the switch of one option letter set, or `None` for a letter
/// that is no option.
pub open spec fn with_option(flags: Flags, letter: char) -> Option<Flags> {
    if letter == 'a' {
        Some(Flags { show_all: true, ..flags })
    } else if letter == 'l' {
        Some(Flags { long: true, ..flags })
    } else if letter == 'F' {
        Some(Flags { classify: true, ..flags })
    } else {
        None
    }
}

/// The letters of a cluster from position `from` on, applied in order to
/// `flags`. The first unknown letter ends it with an error that keeps what
/// was set so far.
pub open spec fn apply_cluster(flags: Flags, token: Seq<char>, from: int) -> Result<
    Flags,
    FlagError,
>
    decreases token.len() - from,
{
    if from < 0 || from >= token.len() {
        Ok(flags)
    } else {
        match with_option(flags, token[from]) {
            Some(next) => apply_cluster(next, token, from + 1),
            None => Err(FlagError { option: token[from], applied: flags }),
        }
    }
}

/// The clusters among `tokens`, applied in order to `flags`.
pub open spec fn apply_tokens(flags: Flags, tokens: Seq<Seq<char>>) -> Result<Flags, FlagError>
    decreases tokens.len(),
{
    if tokens.len() == 0 {
        Ok(flags)
    } else {
        match apply_tokens(flags, tokens.drop_last()) {
            Ok(before) => if is_cluster(tokens.last()) {
                apply_cluster(before, tokens.last(), 1)
            } else {
                Ok(before)
            },
            Err(e) => Err(e),
        }
    }
}

/// What the arguments say about the switches: the clusters before the
/// terminator, applied to a blank set of switches.
pub open spec fn flags_of(tokens: Seq<Seq<char>>) -> Result<Flags, FlagError> {
    apply_tokens(Flags::none(), tokens.take(options_end(tokens)))
}

/// Whether the token at position `i` is an operand.
pub open spec fn is_operand_at(tokens: Seq<Seq<char>>, i: int) -> bool {
    let end = options_end(tokens);
    0 <= i < tokens.len() && (i > end || (i < end && !is_cluster(tokens[i])))
}

/// The operands among the first `n` tokens, in order.
pub open spec fn operands_upto(tokens: Seq<Seq<char>>, n: int) -> Seq<Seq<char>>
    decreases n,
{
    if n <= 0 {
        Seq::empty()
    } else if is_operand_at(tokens, n - 1) {
        operands_upto(tokens, n - 1).push(tokens[n - 1])
    } else {
        operands_upto(tokens, n - 1)
    }
}

/// The operands among the arguments, in order.
pub open spec fn operands_of(tokens: Seq<Seq<char>>) -> Seq<Seq<char>> {
    operands_upto(tokens, tokens.len() as int)
}

/// `options_end` is the one position that has no terminator before it and
/// either holds a terminator or is the end.
pub proof fn lemma_options_end(tokens: Seq<Seq<char>>, end: int)
    requires
        0 <= end <= tokens.len(),
        forall|k: int| 0 <= k < end ==> !is_terminator(#[trigger] tokens[k]),
        end < tokens.len() ==> is_terminator(tokens[end]),
    ensures
        options_end(tokens) == end,
    decreases tokens.len(),
{
    if tokens.len() > 0 && end > 0 {
        assert(!is_terminator(tokens[0]));
        let rest = tokens.skip(1);
        assert forall|k: int| 0 <= k < end - 1 implies !is_terminator(#[trigger] rest[k]) by {
            assert(rest[k] == tokens[k + 1]);
        }
        lemma_options_end(rest, end - 1);
    }
}

fn is_terminator_token(token: &Vec<char>) -> (r: bool)
    ensures
        r == is_terminator(token@),
{
    token.len() == 2 && token[0] == '-' && token[1] == '-'
}

fn is_cluster_token(token: &Vec<char>) -> (r: bool)
    ensures
        r == is_cluster(token@),
{
    token.len() >= 2 && token[0] == '-'
}

/// Reads the switches from the arguments. An unknown option letter ends the
/// reading with an error that names the letter and holds the switches that
/// were set before it; operands are passed over.
pub fn parse_flags(args: &[String]) -> (r: Result<Flags, FlagError>)
    ensures
        r == flags_of(args.deep_view()),
{
    let ghost tokens = args.deep_view();
    let mut flags = Flags { show_all: false, long: false, classify: false };
    let mut i: usize = 0;
    while i < args.len()
        invariant
            i <= args.len(),
            tokens == args.deep_view(),
            forall|k: int| 0 <= k < i ==> !is_terminator(#[trigger] tokens[k]),
            apply_tokens(Flags::none(), tokens.take(i as int)) == Ok::<Flags, FlagError>(flags),
        decreases args.len() - i,
    {
        let token = to_chars(args[i].as_str());
        assert(token@ == tokens[i as int]);
        if is_terminator_token(&token) {
            proof {
                lemma_options_end(tokens, i as int);
            }
            return Ok(flags);
        }
        proof {
            assert(tokens.take(i + 1).drop_last() =~= tokens.take(i as int));
            assert(tokens.take(i + 1).last() == token@);
        }
        if is_cluster_token(&token) {
            let ghost before = flags;
            let mut j: usize = 1;
            while j < token.len()
                invariant
                    1 <= j <= token.len(),
                    apply_cluster(before, token@, 1) == apply_cluster(flags, token@, j as int),
                    tokens == args.deep_view(),
                    i < args.len(),
                    forall|k: int| 0 <= k <= i ==> !is_terminator(#[trigger] tokens[k]),
                    apply_tokens(Flags::none(), tokens.take(i + 1)) == apply_cluster(
                        before,
                        token@,
                        1,
                    ),
                decreases token.len() - j,
            {
                let c = token[j];
                if c == 'a' {
                    flags.show_all = true;
                } else if c == 'l' {
                    flags.long = true;
                } else if c == 'F' {
                    flags.classify = true;
                } else {
                    proof {
                        lemma_error_is_final(tokens, i + 1);
                    }
                    return Err(FlagError { option: c, applied: flags });
                }
                j = j + 1;
            }
        }
        i = i + 1;
    }
    proof {
        lemma_options_end(tokens, args.len() as int);
        assert(tokens.take(args.len() as int) =~= tokens);
    }
    Ok(flags)
}

/// Once a prefix of the clusters has failed, the whole reading fails alike.
proof fn lemma_error_is_final(tokens: Seq<Seq<char>>, n: int)
    requires
        0 <= n <= tokens.len(),
        forall|k: int| 0 <= k < n ==> !is_terminator(#[trigger] tokens[k]),
        apply_tokens(Flags::none(), tokens.take(n)) is Err,
    ensures
        flags_of(tokens) == apply_tokens(Flags::none(), tokens.take(n)),
{
    lemma_options_end_at_least(tokens, n);
    assert(tokens.take(options_end(tokens)).take(n) =~= tokens.take(n));
    lemma_error_spreads(tokens.take(options_end(tokens)), n);
}

proof fn lemma_options_end_at_least(tokens: Seq<Seq<char>>, n: int)
    requires
        0 <= n <= tokens.len(),
        forall|k: int| 0 <= k < n ==> !is_terminator(#[trigger] tokens[k]),
    ensures
        n <= options_end(tokens) <= tokens.len(),
    decreases tokens.len(),
{
    if tokens.len() > 0 {
        let rest = tokens.skip(1);
        if n > 0 {
            assert(!is_terminator(tokens[0]));
            assert forall|k: int| 0 <= k < n - 1 implies !is_terminator(#[trigger] rest[k]) by {
                assert(rest[k] == tokens[k + 1]);
            }
            lemma_options_end_at_least(rest, n - 1);
        } else if !is_terminator(tokens[0]) {
            lemma_options_end_at_least(rest, 0);
        }
    }
}

proof fn lemma_error_spreads(tokens: Seq<Seq<char>>, n: int)
    requires
        0 <= n <= tokens.len(),
        apply_tokens(Flags::none(), tokens.take(n)) is Err,
    ensures
        apply_tokens(Flags::none(), tokens) == apply_tokens(Flags::none(), tokens.take(n)),
    decreases tokens.len(),
{
    if n == tokens.len() {
        assert(tokens.take(n) =~= tokens);
    } else {
        assert(tokens.drop_last().take(n) =~= tokens.take(n));
        lemma_error_spreads(tokens.drop_last(), n);
    }
}

impl FlagError {
    /// The complaint about the letter, as one line of text.
    pub open spec fn message_text(self) -> Seq<char> {
        "ls: invalid option -- '"@.push(self.option) + "'"@
    }

    /// The complaint about the letter, as one line of text.
    pub fn message(&self) -> (text: String)
        ensures
            text@ == self.message_text(),
    {
        let mut text = String::from_str("ls: invalid option -- '");
        text.push(self.option);
        text.append("'");
        text
    }
}

/// Picks the operands out of the arguments, in their order.
pub fn operand_tokens(args: &[String]) -> (operands: Vec<String>)
    ensures
        operands.deep_view() == operands_of(args.deep_view()),
{
    let ghost tokens = args.deep_view();
    let mut operands: Vec<String> = Vec::new();
    let mut after = false;
    let mut i: usize = 0;
    assert(operands.deep_view() =~= operands_upto(tokens, 0));
    while i < args.len()
        invariant
            i <= args.len(),
            tokens == args.deep_view(),
            after ==> options_end(tokens) < i,
            !after ==> forall|k: int| 0 <= k < i ==> !is_terminator(#[trigger] tokens[k]),
            operands.deep_view() == operands_upto(tokens, i as int),
        decreases args.len() - i,
    {
        let token = to_chars(args[i].as_str());
        assert(token@ == tokens[i as int]);
        let ghost before = operands.deep_view();
        if !after && is_terminator_token(&token) {
            proof {
                lemma_options_end(tokens, i as int);
            }
            after = true;
        } else if !after && is_cluster_token(&token) {
            proof {
                lemma_options_end_at_least(tokens, i + 1);
            }
        } else {
            proof {
                if !after {
                    lemma_options_end_at_least(tokens, i + 1);
                }
            }
            operands.push(args[i].clone());
            assert(operands.deep_view() =~= before.push(token@));
        }
        i = i + 1;
    }
    operands
}

/// The letters that are options.
pub open spec fn is_known(letter: char) -> bool {
    letter == 'a' || letter == 'l' || letter == 'F'
}

/// Whether position `j` of token `i` holds an option letter: the token is a
/// cluster before the terminator, and `j` is behind its dash.
pub open spec fn is_option_at(tokens: Seq<Seq<char>>, i: int, j: int) -> bool {
    0 <= i < options_end(tokens) && is_cluster(tokens[i]) && 1 <= j < tokens[i].len()
}

/// Whether the arguments hold the option `letter` anywhere.
pub open spec fn has_option(tokens: Seq<Seq<char>>, letter: char) -> bool {
    exists|i: int, j: int| #[trigger] is_option_at(tokens, i, j) && tokens[i][j] == letter
}

/// Whether every option letter among the arguments is one of the three.
pub open spec fn all_known(tokens: Seq<Seq<char>>) -> bool {
    forall|i: int, j: int| #[trigger] is_option_at(tokens, i, j) ==> is_known(tokens[i][j])
}

spec fn cluster_has(token: Seq<char>, from: int, letter: char) -> bool {
    exists|j: int| from <= j < token.len() && #[trigger] token[j] == letter
}

spec fn cluster_known(token: Seq<char>, from: int) -> bool {
    forall|j: int| from <= j < token.len() ==> is_known(#[trigger] token[j])
}

spec fn with_cluster(flags: Flags, token: Seq<char>, from: int) -> Flags {
    Flags {
        show_all: flags.show_all || cluster_has(token, from, 'a'),
        long: flags.long || cluster_has(token, from, 'l'),
        classify: flags.classify || cluster_has(token, from, 'F'),
    }
}

proof fn lemma_cluster_is_a_set(flags: Flags, token: Seq<char>, from: int)
    requires
        0 <= from <= token.len(),
    ensures
        apply_cluster(flags, token, from) is Ok <==> cluster_known(token, from),
        apply_cluster(flags, token, from) matches Ok(f) ==> f == with_cluster(flags, token, from),
    decreases token.len() - from,
{
    if from < token.len() {
        let c = token[from];
        match with_option(flags, c) {
            Some(next) => {
                lemma_cluster_is_a_set(next, token, from + 1);
                assert(is_known(c));
                assert(cluster_known(token, from + 1) ==> cluster_known(token, from)) by {
                    if cluster_known(token, from + 1) {
                        assert forall|j: int| from <= j < token.len() implies is_known(
                            #[trigger] token[j],
                        ) by {
                            if j > from {
                                assert(is_known(token[j]));
                            }
                        }
                    }
                }
                assert forall|letter: char|
                    cluster_has(token, from, letter) == (c == letter || cluster_has(
                        token,
                        from + 1,
                        letter,
                    )) by {
                    if cluster_has(token, from, letter) {
                        let j = choose|j: int| from <= j < token.len() && #[trigger] token[j] == letter;
                        if j > from {
                            assert(token[j] == letter);
                        }
                    }
                    if c == letter {
                        assert(token[from] == letter);
                    }
                    if cluster_has(token, from + 1, letter) {
                        let j = choose|j: int|
                            from + 1 <= j < token.len() && #[trigger] token[j] == letter;
                        assert(token[j] == letter);
                    }
                }
            },
            None => {
                assert(!is_known(token[from]));
            },
        }
    }
}

spec fn plain_option_at(tokens: Seq<Seq<char>>, i: int, j: int) -> bool {
    0 <= i < tokens.len() && is_cluster(tokens[i]) && 1 <= j < tokens[i].len()
}

spec fn plain_has(tokens: Seq<Seq<char>>, letter: char) -> bool {
    exists|i: int, j: int| #[trigger] plain_option_at(tokens, i, j) && tokens[i][j] == letter
}

spec fn plain_known(tokens: Seq<Seq<char>>) -> bool {
    forall|i: int, j: int| #[trigger] plain_option_at(tokens, i, j) ==> is_known(tokens[i][j])
}

proof fn lemma_tokens_are_a_set(tokens: Seq<Seq<char>>)
    ensures
        apply_tokens(Flags::none(), tokens) is Ok <==> plain_known(tokens),
        apply_tokens(Flags::none(), tokens) matches Ok(f) ==> f == (Flags {
            show_all: plain_has(tokens, 'a'),
            long: plain_has(tokens, 'l'),
            classify: plain_has(tokens, 'F'),
        }),
    decreases tokens.len(),
{
    if tokens.len() > 0 {
        let front = tokens.drop_last();
        let last = tokens.last();
        let n = tokens.len() - 1;
        lemma_tokens_are_a_set(front);
        assert forall|i: int, j: int| plain_option_at(front, i, j) implies plain_option_at(
            tokens,
            i,
            j,
        ) && tokens[i] == front[i] by {}
        assert forall|i: int, j: int| plain_option_at(tokens, i, j) && i < n implies plain_option_at(
            front,
            i,
            j,
        ) && tokens[i] == front[i] by {}
        // the letters of the whole are those of the front and those of the last token
        assert forall|letter: char|
            plain_has(tokens, letter) == (plain_has(front, letter) || (is_cluster(last)
                && cluster_has(last, 1, letter))) by {
            if plain_has(front, letter) {
                let (i, j) = choose|i: int, j: int|
                    #[trigger] plain_option_at(front, i, j) && front[i][j] == letter;
                assert(plain_option_at(tokens, i, j) && tokens[i][j] == letter);
            }
            if is_cluster(last) && cluster_has(last, 1, letter) {
                let j = choose|j: int| 1 <= j < last.len() && #[trigger] last[j] == letter;
                assert(plain_option_at(tokens, n, j) && tokens[n][j] == letter);
            }
            if plain_has(tokens, letter) {
                let (i, j) = choose|i: int, j: int|
                    #[trigger] plain_option_at(tokens, i, j) && tokens[i][j] == letter;
                if i < n {
                    assert(plain_option_at(front, i, j) && front[i][j] == letter);
                } else {
                    assert(last[j] == letter);
                }
            }
        }
        assert(plain_known(tokens) == (plain_known(front) && (is_cluster(last) ==> cluster_known(
            last,
            1,
        )))) by {
            if plain_known(tokens) {
                assert forall|i: int, j: int| #[trigger] plain_option_at(front, i, j) implies is_known(
                    front[i][j],
                ) by {
                    assert(plain_option_at(tokens, i, j));
                }
                if is_cluster(last) {
                    assert forall|j: int| 1 <= j < last.len() implies is_known(
                        #[trigger] last[j],
                    ) by {
                        assert(plain_option_at(tokens, n, j));
                    }
                }
            }
            if plain_known(front) && (is_cluster(last) ==> cluster_known(last, 1)) {
                assert forall|i: int, j: int| #[trigger]
                    plain_option_at(tokens, i, j) implies is_known(tokens[i][j]) by {
                    if i < n {
                        assert(plain_option_at(front, i, j));
                    } else {
                        assert(is_known(last[j]));
                    }
                }
            }
        }
        match apply_tokens(Flags::none(), front) {
            Ok(before) => {
                if is_cluster(last) {
                    lemma_cluster_is_a_set(before, last, 1);
                }
            },
            Err(_) => {},
        }
    }
}

/// The switches are a set: what the arguments say does not depend on how the
/// option letters are spread over clusters, nor on their order. The reading
/// succeeds exactly when every option letter is known, and then each switch
/// is on exactly when its letter occurs.
pub proof fn lemma_flags_are_a_set(tokens: Seq<Seq<char>>)
    ensures
        flags_of(tokens) is Ok <==> all_known(tokens),
        flags_of(tokens) matches Ok(f) ==> f == (Flags {
            show_all: has_option(tokens, 'a'),
            long: has_option(tokens, 'l'),
            classify: has_option(tokens, 'F'),
        }),
{
    let end = options_end(tokens);
    let front = tokens.take(end);
    lemma_options_end_at_least(tokens, 0);
    lemma_tokens_are_a_set(front);
    assert forall|i: int, j: int|
        #[trigger] is_option_at(tokens, i, j) == plain_option_at(front, i, j) by {
        if 0 <= i < end {
            assert(front[i] == tokens[i]);
        }
    }
    assert forall|letter: char| has_option(tokens, letter) == plain_has(front, letter) by {
        if has_option(tokens, letter) {
            let (i, j) = choose|i: int, j: int|
                #[trigger] is_option_at(tokens, i, j) && tokens[i][j] == letter;
            assert(plain_option_at(front, i, j) && front[i][j] == letter);
        }
        if plain_has(front, letter) {
            let (i, j) = choose|i: int, j: int|
                #[trigger] plain_option_at(front, i, j) && front[i][j] == letter;
            assert(is_option_at(tokens, i, j) && tokens[i][j] == letter);
        }
    }
    assert(all_known(tokens) == plain_known(front)) by {
        if all_known(tokens) {
            assert forall|i: int, j: int| #[trigger] plain_option_at(front, i, j) implies is_known(
                front[i][j],
            ) by {
                assert(is_option_at(tokens, i, j));
            }
        }
        if plain_known(front) {
            assert forall|i: int, j: int| #[trigger] is_option_at(tokens, i, j) implies is_known(
                tokens[i][j],
            ) by {
                assert(plain_option_at(front, i, j));
            }
        }
    }
}

} // verus!
