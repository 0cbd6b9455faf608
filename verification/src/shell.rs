//! The shell around the commands: which command a line asks for, and the
//! prompt.
use crate::ansi::{BLUE, GREEN, RESET};
use crate::text::{from_chars, to_chars};
use crate::tokenizer::{parse_input, tokenize};
use vstd::prelude::*;

verus! {

/// The commands that the shell knows.
#[derive(Clone, Copy, Debug, PartialEq, Eq, Structural)]
pub enum Command {
    Mkdir,
    Ls,
    Cd,
    Cat,
    Pwd,
    Echo,
    /// Ends the session.
    Exit,
    /// Any other word.
    Unknown,
}

/// One command line, taken apart.
#[derive(Clone, Debug)]
pub struct Invocation {
    /// The command that the first word names.
    pub command: Command,
    /// The first word itself.
    pub name: String,
    /// The words behind it.
    pub args: Vec<String>,
}

/// The command that a word names.
pub open spec fn command_of(name: Seq<char>) -> Command {
    if name == "mkdir"@ {
        Command::Mkdir
    } else if name == "ls"@ {
        Command::Ls
    } else if name == "cd"@ {
        Command::Cd
    } else if name == "cat"@ {
        Command::Cat
    } else if name == "pwd"@ {
        Command::Pwd
    } else if name == "echo"@ {
        Command::Echo
    } else if name == "exit"@ {
        Command::Exit
    } else {
        Command::Unknown
    }
}

fn is_word(name: &String, word: &str) -> (r: bool)
    ensures
        r == (name@ == word@),
{
    let other = String::from_str(word);
    *name == other
}

/// Finds the command that a word names.
pub fn resolve(name: &String) -> (command: Command)
    ensures
        command == command_of(name@),
{
    if is_word(name, "mkdir") {
        Command::Mkdir
    } else if is_word(name, "ls") {
        Command::Ls
    } else if is_word(name, "cd") {
        Command::Cd
    } else if is_word(name, "cat") {
        Command::Cat
    } else if is_word(name, "pwd") {
        Command::Pwd
    } else if is_word(name, "echo") {
        Command::Echo
    } else if is_word(name, "exit") {
        Command::Exit
    } else {
        Command::Unknown
    }
}

/// Takes a command line apart: tokenizes it, and resolves the first word to a
/// command. A line without words asks for nothing.
pub fn dispatch(input: &str) -> (r: Option<Invocation>)
    ensures
        r is None <==> tokenize(input@).len() == 0,
        r matches Some(inv) ==> {
            &&& inv.name@ == tokenize(input@)[0]
            &&& inv.args.deep_view() == tokenize(input@).skip(1)
            &&& inv.command == command_of(inv.name@)
        },
{
    let mut words = parse_input(input);
    if words.len() == 0 {
        return None;
    }
    let ghost all = words.deep_view();
    let name = words.remove(0);
    assert(name@ == all[0]);
    assert(words.deep_view() =~= all.skip(1));
    let command = resolve(&name);
    Some(Invocation { command, name, args: words })
}

/// What the shell says to a word that names no command.
pub open spec fn not_found_text(name: Seq<char>) -> Seq<char> {
    "Command '"@ + name + "' not found"@
}

/// The complaint about a word that names no command.
pub fn not_found(name: &str) -> (text: String)
    ensures
        text@ == not_found_text(name@),
{
    let mut text = String::from_str("Command '");
    text.append(name);
    text.append("' not found");
    text
}

/// The working directory as the prompt shows it: with `~` in place of the
/// home directory where the path starts with it. An empty home directory
/// replaces nothing.
pub open spec fn shown_dir(cwd: Seq<char>, home: Seq<char>) -> Seq<char> {
    if home.len() > 0 && home.is_prefix_of(cwd) {
        seq!['~'] + cwd.skip(home.len() as int)
    } else {
        cwd
    }
}

/// The prompt: user and host in green, the working directory in blue, then a
/// dollar sign and a space.
pub open spec fn prompt_text(user: Seq<char>, host: Seq<char>, cwd: Seq<char>, home: Seq<char>) -> Seq<
    char,
> {
    GREEN@ + user + "@"@ + host + RESET@ + ":"@ + BLUE@ + shown_dir(cwd, home) + RESET@ + "$ "@
}

fn show_dir(cwd: &str, home: &str) -> (shown: String)
    ensures
        shown@ == shown_dir(cwd@, home@),
{
    let path = to_chars(cwd);
    let prefix = to_chars(home);
    if prefix.len() == 0 || prefix.len() > path.len() {
        return String::from_str(cwd);
    }
    let mut i: usize = 0;
    while i < prefix.len()
        invariant
            i <= prefix.len() <= path.len(),
            path@ == cwd@,
            prefix@ == home@,
            forall|k: int| 0 <= k < i ==> path@[k] == prefix@[k],
        decreases prefix.len() - i,
    {
        if path[i] != prefix[i] {
            assert(path@.subrange(0, prefix.len() as int)[i as int] != prefix@[i as int]);
            return String::from_str(cwd);
        }
        i = i + 1;
    }
    assert(path@.subrange(0, prefix.len() as int) =~= prefix@);
    let mut shown = String::new();
    shown.push('~');
    shown.append(from_chars(&path, prefix.len(), path.len()).as_str());
    assert(shown@ =~= seq!['~'] + cwd@.skip(home@.len() as int));
    shown
}

/// Renders the prompt from the user's name, the host's name, the working
/// directory and the home directory.
pub fn prompt(user: &str, host: &str, cwd: &str, home: &str) -> (text: String)
    ensures
        text@ == prompt_text(user@, host@, cwd@, home@),
{
    let mut text = String::from_str(GREEN);
    text.append(user);
    text.append("@");
    text.append(host);
    text.append(RESET);
    text.append(":");
    text.append(BLUE);
    text.append(show_dir(cwd, home).as_str());
    text.append(RESET);
    text.append("$ ");
    text
}

} // verus!
