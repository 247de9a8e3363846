//! What the server is started with.
use crate::text::{same_text, text_of};
use vstd::prelude::*;

verus! {

/// The configuration, fixed before the first request is served.
#[derive(Debug, PartialEq, Eq)]
pub struct Config {
    /// The directory that the file routes read and write, if one was given.
    pub directory: Option<String>,
}

/// The views of the arguments.
pub open spec fn texts(args: Seq<String>) -> Seq<Seq<char>> {
    args.map_values(|a: String| a@)
}

/// The directory that the arguments name: the one behind `--directory`,
/// where that flag is the first argument behind the program's name.
pub open spec fn directory_of(args: Seq<Seq<char>>) -> Option<Seq<char>> {
    if args.len() >= 3 && args[1] == "--directory"@ {
        Some(args[2])
    } else {
        None
    }
}

/// Reads the configuration from the arguments of the program, the
/// program's name first.
pub fn parse_args(args: &Vec<String>) -> (config: Config)
    ensures
        text_of(config.directory) == directory_of(texts(args@)),
{
    if args.len() >= 3 && same_text(args[1].as_str(), "--directory") {
        Config { directory: Some(args[2].clone()) }
    } else {
        Config { directory: None }
    }
}

} // verus!
