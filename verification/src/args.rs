//! Argument parsing: decodes a raw argument vector into a fixed-shape
//! [`Arguments`] record, reporting every failure as a tagged error instead
//! of aborting.

use vstd::prelude::*;
use crate::text::str_eq;

verus! {

/// What the caller asked the tool to do.
#[derive(Clone, Copy, Debug, PartialEq, Eq, Structural)]
pub enum Command {
    Version,
    Bytes,
    Characters,
}

/// How a named file is to be read. Defaults to `Normal`.
#[derive(Clone, Copy, Debug, PartialEq, Eq, Structural)]
pub enum FileMode {
    Normal,
    CsvList,
    CsvMerged,
}

/// A decoded argument vector. `filename` is present unless there was no
/// third argument, which is allowed only for [`Command::Version`].
#[derive(Debug)]
pub struct Arguments {
    pub command: Command,
    pub filename: Option<String>,
    pub file_mode: FileMode,
}

/// Why an argument vector was rejected; the token variants carry the
/// offending argument.
#[derive(Debug, PartialEq, Eq)]
pub enum ParseError {
    MissingCommand,
    UnrecognizedCommand(String),
    MissingFilename,
    UnrecognizedFlag(String),
}

/// The command a keyword stands for, matched case-sensitively.
pub open spec fn command_of(s: Seq<char>) -> Option<Command> {
    if s == "version"@ {
        Some(Command::Version)
    } else if s == "bytes"@ {
        Some(Command::Bytes)
    } else if s == "characters"@ {
        Some(Command::Characters)
    } else {
        None
    }
}

/// The file mode a flag stands for.
pub open spec fn file_mode_of(s: Seq<char>) -> Option<FileMode> {
    if s == "--csv-list"@ {
        Some(FileMode::CsvList)
    } else if s == "--csv-merged"@ {
        Some(FileMode::CsvMerged)
    } else {
        None
    }
}

/// How an argument vector `vs` (program name first) must be decoded:
/// argument 1 is the command keyword, argument 2 the filename (required
/// unless the command is `version`), argument 3 an optional mode flag.
/// The failures are checked in that order.
pub open spec fn parse_outcome(vs: Seq<Seq<char>>, r: Result<Arguments, ParseError>) -> bool {
    if vs.len() < 2 {
        r matches Err(ParseError::MissingCommand)
    } else if command_of(vs[1]) is None {
        r matches Err(ParseError::UnrecognizedCommand(t)) && t@ == vs[1]
    } else if command_of(vs[1]) != Some(Command::Version) && vs.len() < 3 {
        r matches Err(ParseError::MissingFilename)
    } else if vs.len() >= 4 && file_mode_of(vs[3]) is None {
        r matches Err(ParseError::UnrecognizedFlag(t)) && t@ == vs[3]
    } else {
        &&& r matches Ok(a)
        &&& Some(a.command) == command_of(vs[1])
        &&& match a.filename {
            Some(f) => vs.len() >= 3 && f@ == vs[2],
            None => vs.len() < 3,
        }
        &&& if vs.len() >= 4 {
            Some(a.file_mode) == file_mode_of(vs[3])
        } else {
            a.file_mode == FileMode::Normal
        }
    }
}

/// Decodes `args` into an [`Arguments`] record, or says exactly why it
/// cannot be decoded.
pub fn parse_args(args: &Vec<String>) -> (r: Result<Arguments, ParseError>)
    ensures
        parse_outcome(args.deep_view(), r),
{
    if args.len() < 2 {
        return Err(ParseError::MissingCommand);
    }
    let command = if str_eq(args[1].as_str(), "version") {
        Command::Version
    } else if str_eq(args[1].as_str(), "bytes") {
        Command::Bytes
    } else if str_eq(args[1].as_str(), "characters") {
        Command::Characters
    } else {
        return Err(ParseError::UnrecognizedCommand(args[1].clone()));
    };
    let filename: Option<String> = if args.len() >= 3 {
        Some(args[2].clone())
    } else {
        None
    };
    if command != Command::Version && filename.is_none() {
        return Err(ParseError::MissingFilename);
    }
    let file_mode = if args.len() >= 4 {
        if str_eq(args[3].as_str(), "--csv-list") {
            FileMode::CsvList
        } else if str_eq(args[3].as_str(), "--csv-merged") {
            FileMode::CsvMerged
        } else {
            return Err(ParseError::UnrecognizedFlag(args[3].clone()));
        }
    } else {
        FileMode::Normal
    };
    Ok(Arguments { command, filename, file_mode })
}

} // verus!
