//! `cd`: where it goes.
use crate::commands::text_of;
use crate::text::to_chars;
use vstd::prelude::*;

verus! {

/// Why `cd` does not know where to go.
#[derive(Clone, Copy, Debug, PartialEq, Eq, Structural)]
pub enum CdError {
    /// No argument, and no home directory on record.
    HomeNotSet,
    /// The argument `-`, and no previous directory on record.
    OldpwdNotSet,
    /// More than one argument.
    TooManyArguments,
}

/// Where `cd` goes.
#[derive(Clone, Debug)]
pub struct CdTarget {
    /// The directory.
    pub path: String,
    /// Whether the directory is printed before the change, as it is for `-`.
    pub announce: bool,
}

/// The directory that the arguments of `cd` ask for, given the home directory
/// and the previous directory as far as they are known: home without an
/// argument, the previous directory for `-`, else the argument itself.
pub open spec fn cd_choice(
    args: Seq<Seq<char>>,
    home: Option<Seq<char>>,
    oldpwd: Option<Seq<char>>,
) -> Result<(Seq<char>, bool), CdError> {
    if args.len() == 0 {
        match home {
            Some(dir) => Ok((dir, false)),
            None => Err(CdError::HomeNotSet),
        }
    } else if args.len() == 1 {
        if args[0] == seq!['-'] {
            match oldpwd {
                Some(dir) => Ok((dir, true)),
                None => Err(CdError::OldpwdNotSet),
            }
        } else {
            Ok((args[0], false))
        }
    } else {
        Err(CdError::TooManyArguments)
    }
}

/// Decides where `cd` goes.
pub fn cd_target(args: &[String], home: Option<String>, oldpwd: Option<String>) -> (r: Result<
    CdTarget,
    CdError,
>)
    ensures
        match cd_choice(args.deep_view(), text_of(home), text_of(oldpwd)) {
            Ok((path, announce)) => r matches Ok(t) && t.path@ == path && t.announce == announce,
            Err(e) => r matches Err(f) && f == e,
        },
{
    if args.len() == 0 {
        match home {
            Some(dir) => Ok(CdTarget { path: dir, announce: false }),
            None => Err(CdError::HomeNotSet),
        }
    } else if args.len() == 1 {
        assert(args.deep_view()[0] == args[0]@);
        let word = to_chars(args[0].as_str());
        if word.len() == 1 && word[0] == '-' {
            assert(word@ =~= seq!['-']);
            match oldpwd {
                Some(dir) => Ok(CdTarget { path: dir, announce: true }),
                None => Err(CdError::OldpwdNotSet),
            }
        } else {
            Ok(CdTarget { path: args[0].clone(), announce: false })
        }
    } else {
        Err(CdError::TooManyArguments)
    }
}

impl CdError {
    /// The complaint as one line of text.
    pub open spec fn message_text(self) -> Seq<char> {
        match self {
            CdError::HomeNotSet => "cd: HOME not set"@,
            CdError::OldpwdNotSet => "cd: OLDPWD not set"@,
            CdError::TooManyArguments => "cd: too many arguments"@,
        }
    }

    /// The complaint as one line of text.
    pub fn message(&self) -> (text: String)
        ensures
            text@ == self.message_text(),
    {
        match self {
            CdError::HomeNotSet => String::from_str("cd: HOME not set"),
            CdError::OldpwdNotSet => String::from_str("cd: OLDPWD not set"),
            CdError::TooManyArguments => String::from_str("cd: too many arguments"),
        }
    }
}

} // verus!
