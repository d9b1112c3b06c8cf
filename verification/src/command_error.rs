//! The error kinds a command invocation can surface, and their rendering as
//! one-line messages.

use vstd::prelude::*;

use crate::command_info::{CommandInfo, CommandInfoView};

verus! {

/// Everything that can go wrong around one command invocation.
///
/// The dispatcher itself generates `CommandNotFound`, `TooFewArguments` and
/// `TooManyArguments` (the two arity variants carry the offending count and
/// the descriptor, for message construction). The converters generate
/// `ArgumentConversionError`, carrying the target type's name and the raw
/// token. The remaining variants are surfaced verbatim from inside handlers;
/// the dispatcher never interprets them.
#[derive(Debug)]
pub enum CommandError {
    TooFewArguments(usize, CommandInfo),
    TooManyArguments(usize, CommandInfo),
    CommandNotFound(String),
    CommandFailed(String),
    InvalidArguments(String),
    ArgumentConversionError(String, String),
    CannotAccessCurrentDirectory(String),
    DirectoryReadError(String, String),
    FileReadError(String, String),
}

/// The mathematical value of a `CommandError`.
pub enum CommandErrorView {
    TooFewArguments(nat, CommandInfoView),
    TooManyArguments(nat, CommandInfoView),
    CommandNotFound(Seq<char>),
    CommandFailed(Seq<char>),
    InvalidArguments(Seq<char>),
    ArgumentConversionError(Seq<char>, Seq<char>),
    CannotAccessCurrentDirectory(Seq<char>),
    DirectoryReadError(Seq<char>, Seq<char>),
    FileReadError(Seq<char>, Seq<char>),
}

impl View for CommandError {
    type V = CommandErrorView;

    open spec fn view(&self) -> CommandErrorView {
        match self {
            CommandError::TooFewArguments(n, info) => CommandErrorView::TooFewArguments(
                *n as nat,
                info@,
            ),
            CommandError::TooManyArguments(n, info) => CommandErrorView::TooManyArguments(
                *n as nat,
                info@,
            ),
            CommandError::CommandNotFound(s) => CommandErrorView::CommandNotFound(s@),
            CommandError::CommandFailed(s) => CommandErrorView::CommandFailed(s@),
            CommandError::InvalidArguments(s) => CommandErrorView::InvalidArguments(s@),
            CommandError::ArgumentConversionError(t, s) => CommandErrorView::ArgumentConversionError(
                t@,
                s@,
            ),
            CommandError::CannotAccessCurrentDirectory(s) => CommandErrorView::CannotAccessCurrentDirectory(
                s@,
            ),
            CommandError::DirectoryReadError(p, s) => CommandErrorView::DirectoryReadError(p@, s@),
            CommandError::FileReadError(p, s) => CommandErrorView::FileReadError(p@, s@),
        }
    }
}

/// The character of one decimal digit.
pub open spec fn spec_dec_digit(d: nat) -> char {
    if d == 0 {
        '0'
    } else if d == 1 {
        '1'
    } else if d == 2 {
        '2'
    } else if d == 3 {
        '3'
    } else if d == 4 {
        '4'
    } else if d == 5 {
        '5'
    } else if d == 6 {
        '6'
    } else if d == 7 {
        '7'
    } else if d == 8 {
        '8'
    } else {
        '9'
    }
}

/// The decimal rendering of a number, without leading zeroes (`0` for zero).
pub open spec fn spec_dec_str(n: nat) -> Seq<char>
    decreases n,
{
    if n < 10 {
        seq![spec_dec_digit(n)]
    } else {
        spec_dec_str(n / 10).push(spec_dec_digit(n % 10))
    }
}

/// One decimal digit, as a string slice.
fn digit_str(d: usize) -> (r: &'static str)
    requires
        d < 10,
    ensures
        r@ =~= seq![spec_dec_digit(d as nat)],
{
    proof {
        reveal_strlit("0");
        reveal_strlit("1");
        reveal_strlit("2");
        reveal_strlit("3");
        reveal_strlit("4");
        reveal_strlit("5");
        reveal_strlit("6");
        reveal_strlit("7");
        reveal_strlit("8");
        reveal_strlit("9");
    }
    match d {
        0 => "0",
        1 => "1",
        2 => "2",
        3 => "3",
        4 => "4",
        5 => "5",
        6 => "6",
        7 => "7",
        8 => "8",
        _ => "9",
    }
}

/// The decimal rendering of a number, exactly as `spec_dec_str` says.
pub fn usize_to_string(n: usize) -> (r: String)
    ensures
        r@ == spec_dec_str(n as nat),
    decreases n,
{
    let d = digit_str(n % 10);
    if n < 10 {
        let r = String::from_str(d);
        proof {
            assert(r@ =~= spec_dec_str(n as nat));
        }
        r
    } else {
        let mut r = usize_to_string(n / 10);
        r.append(d);
        proof {
            assert(r@ =~= spec_dec_str(n as nat));
        }
        r
    }
}

/// The one-line rendering of an error, exactly as `CommandError::message`
/// produces it.
pub open spec fn spec_message(e: CommandErrorView) -> Seq<char> {
    match e {
        CommandErrorView::TooFewArguments(n, info) => "Too few arguments passed '"@
            + spec_dec_str(n) + "' when calling command '"@ + info.name
            + "', the minimum required is '"@ + spec_dec_str(info.min) + "'"@,
        CommandErrorView::TooManyArguments(n, info) => "Too many arguments passed '"@
            + spec_dec_str(n) + "' when calling command '"@ + info.name
            + "', the maximum required is '"@ + spec_dec_str(info.max) + "'"@,
        CommandErrorView::CommandNotFound(name) => "Command '"@ + name + "' not found"@,
        CommandErrorView::CommandFailed(m) => m,
        CommandErrorView::InvalidArguments(m) => m,
        CommandErrorView::ArgumentConversionError(t, raw) => "Invalid "@ + t + ": '"@ + raw + "'"@,
        CommandErrorView::CannotAccessCurrentDirectory(m) => "Could not access the current directory: "@
            + m,
        CommandErrorView::DirectoryReadError(p, m) => "Could not read directory '"@ + p + "': "@
            + m,
        CommandErrorView::FileReadError(p, m) => "Could not read file '"@ + p + "': "@ + m,
    }
}

impl CommandError {
    /// Renders the error as its one-line message, exactly as `spec_message`
    /// says.
    pub fn message(&self) -> (r: String)
        ensures
            r@ == spec_message(self@),
    {
        match self {
            CommandError::TooFewArguments(n, info) => {
                let mut r = String::from_str("Too few arguments passed '");
                r.append(usize_to_string(*n).as_str());
                r.append("' when calling command '");
                r.append(info.name().as_str());
                r.append("', the minimum required is '");
                r.append(usize_to_string(info.min()).as_str());
                r.append("'");
                r
            },
            CommandError::TooManyArguments(n, info) => {
                let mut r = String::from_str("Too many arguments passed '");
                r.append(usize_to_string(*n).as_str());
                r.append("' when calling command '");
                r.append(info.name().as_str());
                r.append("', the maximum required is '");
                r.append(usize_to_string(info.max()).as_str());
                r.append("'");
                r
            },
            CommandError::CommandNotFound(name) => {
                let mut r = String::from_str("Command '");
                r.append(name.as_str());
                r.append("' not found");
                r
            },
            CommandError::CommandFailed(m) => m.clone(),
            CommandError::InvalidArguments(m) => m.clone(),
            CommandError::ArgumentConversionError(t, raw) => {
                let mut r = String::from_str("Invalid ");
                r.append(t.as_str());
                r.append(": '");
                r.append(raw.as_str());
                r.append("'");
                r
            },
            CommandError::CannotAccessCurrentDirectory(m) => {
                let mut r = String::from_str("Could not access the current directory: ");
                r.append(m.as_str());
                r
            },
            CommandError::DirectoryReadError(p, m) => {
                let mut r = String::from_str("Could not read directory '");
                r.append(p.as_str());
                r.append("': ");
                r.append(m.as_str());
                r
            },
            CommandError::FileReadError(p, m) => {
                let mut r = String::from_str("Could not read file '");
                r.append(p.as_str());
                r.append("': ");
                r.append(m.as_str());
                r
            },
        }
    }
}

} // verus!
