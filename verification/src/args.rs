//! Start-up configuration and the rules of the command line.

use crate::text::same_text;
use vstd::prelude::*;

verus! {

/// The configuration that a store is built from.
pub struct Arguments {
    /// Where the data is kept.
    pub data_path: String,
    /// The address that the service listens on.
    pub address: String,
    /// Whether every caller is the one anonymous identity.
    pub noauth: bool,
}

/// A configuration as plain values.
pub struct ArgumentsView {
    pub data_path: Seq<char>,
    pub address: Seq<char>,
    pub noauth: bool,
}

impl View for Arguments {
    type V = ArgumentsView;

    open spec fn view(&self) -> ArgumentsView {
        ArgumentsView { data_path: self.data_path@, address: self.address@, noauth: self.noauth }
    }
}

/// What an option of the command line asks for.
#[derive(Clone, Copy, Debug, PartialEq, Eq, Structural)]
pub enum Flag {
    Help,
    Version,
    /// Takes the data directory as its value.
    Data,
    /// Takes the listening address as its value.
    Address,
    NoAuth,
    /// Anything else; it is passed over.
    Other,
}

/// What to do after an option was taken in.
#[derive(Clone, Copy, Debug, PartialEq, Eq, Structural)]
pub enum Step {
    /// Go on with the next option.
    Next,
    /// Print the usage and leave.
    Usage,
    /// Print the version and leave.
    Version,
}

/// The meaning of a long option, by its name without the dashes.
pub open spec fn long_flag_of(name: Seq<char>) -> Flag {
    if name == "help"@ {
        Flag::Help
    } else if name == "version"@ {
        Flag::Version
    } else if name == "data"@ {
        Flag::Data
    } else if name == "address"@ {
        Flag::Address
    } else if name == "noauth"@ {
        Flag::NoAuth
    } else {
        Flag::Other
    }
}

/// The meaning of a short option.
pub open spec fn short_flag_of(c: char) -> Flag {
    if c == 'h' {
        Flag::Help
    } else if c == 'v' {
        Flag::Version
    } else {
        Flag::Other
    }
}

/// The configuration after an option, with the value that came with it.
/// An option that takes a value and got none changes nothing.
pub open spec fn applied(args: ArgumentsView, flag: Flag, value: Option<Seq<char>>) -> ArgumentsView {
    match (flag, value) {
        (Flag::Data, Some(path)) => ArgumentsView { data_path: path, ..args },
        (Flag::Address, Some(address)) => ArgumentsView { address, ..args },
        (Flag::NoAuth, _) => ArgumentsView { noauth: true, ..args },
        _ => args,
    }
}

/// What follows an option: help and version end the run, all else goes on.
pub open spec fn step_after(flag: Flag) -> Step {
    match flag {
        Flag::Help => Step::Usage,
        Flag::Version => Step::Version,
        _ => Step::Next,
    }
}

/// Reads a long option's name.
pub fn long_flag(name: &str) -> (flag: Flag)
    ensures
        flag == long_flag_of(name@),
{
    if same_text(name, "help") {
        Flag::Help
    } else if same_text(name, "version") {
        Flag::Version
    } else if same_text(name, "data") {
        Flag::Data
    } else if same_text(name, "address") {
        Flag::Address
    } else if same_text(name, "noauth") {
        Flag::NoAuth
    } else {
        Flag::Other
    }
}

/// Reads a short option's letter.
pub fn short_flag(c: char) -> (flag: Flag)
    ensures
        flag == short_flag_of(c),
{
    if c == 'h' {
        Flag::Help
    } else if c == 'v' {
        Flag::Version
    } else {
        Flag::Other
    }
}

impl Arguments {
    /// The configuration before any option: the given data directory, the
    /// loopback address on port 8778, and credentials required.
    pub fn defaults(data_path: String) -> (args: Arguments)
        ensures
            args@ == (ArgumentsView {
                data_path: data_path@,
                address: "127.0.0.1:8778"@,
                noauth: false,
            }),
    {
        Arguments { data_path, address: "127.0.0.1:8778".to_owned(), noauth: false }
    }

    /// Takes in one option with the value that came with it, if any.
    pub fn apply(&mut self, flag: Flag, value: Option<String>) -> (step: Step)
        ensures
            step == step_after(flag),
            final(self)@ == applied(
                old(self)@,
                flag,
                match value {
                    Some(v) => Some(v@),
                    None => None,
                },
            ),
    {
        match flag {
            Flag::Help => Step::Usage,
            Flag::Version => Step::Version,
            Flag::Data => {
                if let Some(path) = value {
                    self.data_path = path;
                }
                Step::Next
            },
            Flag::Address => {
                if let Some(address) = value {
                    self.address = address;
                }
                Step::Next
            },
            Flag::NoAuth => {
                self.noauth = true;
                Step::Next
            },
            Flag::Other => Step::Next,
        }
    }
}

} // verus!
