use vstd::prelude::*;
use crate::text::{dec_text, signed_dec_text, push_decimal, push_signed_decimal};

verus! {

/// A command-line argument that was not given.
#[derive(Debug, PartialEq, Eq)]
pub enum ArgsError {
    MissingArg { arg_name: &'static str },
}

/// Why a configuration document was refused.
#[derive(Debug, PartialEq, Eq)]
#[allow(inconsistent_fields)]
pub enum ParseError {
    /// The document as a whole has the wrong structure.
    TomlError { toml_err: &'static str },
    /// A top-level key does not name a level entry.
    KeyError { key: String, expected: &'static str },
    /// A required key is absent; `key` is the key itself, not a path.
    MissingKey { key: &'static str },
    /// A toon-count array has no element at the zero-based index `ix`.
    IxOutOfBounds { ix: usize },
    /// A value has the wrong kind.
    WrongType { got: &'static str, expected: &'static str },
    /// A gag reference whose magnitude lies outside the track's catalog.
    SlotOutOfRange { track: &'static str, value: i64 },
}

impl ArgsError {
    pub open spec fn spec_message(self) -> Seq<char> {
        match self {
            ArgsError::MissingArg { arg_name } => "Missing argument: "@ + arg_name@,
        }
    }

    /// The one-line description shown to the user.
    pub fn message(&self) -> (r: String)
        ensures
            r@ == self.spec_message(),
    {
        match self {
            ArgsError::MissingArg { arg_name } => {
                let mut s = String::from_str("Missing argument: ");
                s.append(arg_name);
                s
            },
        }
    }
}

impl ParseError {
    pub open spec fn spec_message(self) -> Seq<char> {
        match self {
            ParseError::TomlError { toml_err } => "TOML parse error: "@ + toml_err@,
            ParseError::KeyError { key, expected } => "TOML key error: expected "@ + expected@
                + ", got: "@ + key@,
            ParseError::MissingKey { key } => "Missing TOML key: "@ + key@,
            ParseError::IxOutOfBounds { ix } => "TOML array index out of bounds: "@ + dec_text(
                ix as nat,
            ),
            ParseError::WrongType { got, expected } => "TOML entity has wrong type: expected "@
                + expected@ + ", got: "@ + got@,
            ParseError::SlotOutOfRange { track, value } => "Gag index out of range on track "@
                + track@ + ": "@ + signed_dec_text(value as int),
        }
    }

    /// The one-line description shown to the user.
    pub fn message(&self) -> (r: String)
        ensures
            r@ == self.spec_message(),
    {
        match self {
            ParseError::TomlError { toml_err } => {
                let mut s = String::from_str("TOML parse error: ");
                s.append(toml_err);
                s
            },
            ParseError::KeyError { key, expected } => {
                let mut s = String::from_str("TOML key error: expected ");
                s.append(expected);
                s.append(", got: ");
                s.append(key.as_str());
                s
            },
            ParseError::MissingKey { key } => {
                let mut s = String::from_str("Missing TOML key: ");
                s.append(key);
                s
            },
            ParseError::IxOutOfBounds { ix } => {
                let mut s = String::from_str("TOML array index out of bounds: ");
                push_decimal(&mut s, *ix as u64);
                s
            },
            ParseError::WrongType { got, expected } => {
                let mut s = String::from_str("TOML entity has wrong type: expected ");
                s.append(expected);
                s.append(", got: ");
                s.append(got);
                s
            },
            ParseError::SlotOutOfRange { track, value } => {
                let mut s = String::from_str("Gag index out of range on track ");
                s.append(track);
                s.append(": ");
                push_signed_decimal(&mut s, *value);
                s
            },
        }
    }
}

/// Picks the input and output file names from the program's arguments
/// (the program's own name comes first).
pub fn pick_args(args: &Vec<String>) -> (r: Result<(String, String), ArgsError>)
    ensures
        args@.len() < 2 ==> r == Err::<(String, String), ArgsError>(
            ArgsError::MissingArg { arg_name: "input configuration filename" },
        ),
        args@.len() == 2 ==> r == Err::<(String, String), ArgsError>(
            ArgsError::MissingArg { arg_name: "output HTML filename" },
        ),
        args@.len() > 2 ==> r is Ok && r->Ok_0.0 == args@[1] && r->Ok_0.1 == args@[2],
{
    if args.len() < 2 {
        return Err(ArgsError::MissingArg { arg_name: "input configuration filename" });
    }
    if args.len() < 3 {
        return Err(ArgsError::MissingArg { arg_name: "output HTML filename" });
    }
    Ok((args[1].clone(), args[2].clone()))
}

} // verus!
