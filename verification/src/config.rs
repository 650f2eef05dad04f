//! The run configuration: the query, the input source, and the
//! case-sensitivity flag, resolved from a raw argument list.

use vstd::prelude::*;

use crate::search::ci_matching_lines;
use crate::search::matching_lines;
use crate::search::search;
use crate::search::search_case_ins;

verus! {

/// Where the text to search comes from: standard input, or a named file.
#[derive(Debug)]
pub enum Input {
    Std,
    File(String),
}

/// The mathematical value of an [`Input`]: the file path as a character
/// sequence, or the standard-input marker.
pub enum InputModel {
    Std,
    File(Seq<char>),
}

impl View for Input {
    type V = InputModel;

    open spec fn view(&self) -> InputModel {
        match self {
            Input::Std => InputModel::Std,
            Input::File(path) => InputModel::File(path@),
        }
    }
}

impl PartialEq for Input {
    fn eq(&self, other: &Input) -> (r: bool) {
        match (self, other) {
            (Input::Std, Input::Std) => true,
            (Input::File(p), Input::File(q)) => *p == *q,
            _ => false,
        }
    }
}

impl vstd::std_specs::cmp::PartialEqSpecImpl for Input {
    open spec fn obeys_eq_spec() -> bool {
        true
    }

    open spec fn eq_spec(&self, other: &Input) -> bool {
        self@ == other@
    }
}

/// A validated run configuration. Immutable once built.
#[derive(Debug)]
pub struct Config {
    pub query: String,
    pub input: Input,
    pub ignore_case: bool,
}

/// The input selector that an argument list resolves to: the third argument
/// names a file, unless it is `-` or absent, which both mean standard input.
pub open spec fn resolved_input(args: Seq<Seq<char>>) -> InputModel {
    if args.len() <= 2 {
        InputModel::Std
    } else if args[2] == "-"@ {
        InputModel::Std
    } else {
        InputModel::File(args[2])
    }
}

/// The fixed usage message of a failed argument parse.
pub open spec fn usage_message() -> Seq<char> {
    "Error parsing arguments: Usage: minigrep substring [file]\nIf file is - or absent, read from stdin."@
}

impl Config {
    /// Resolves an argument list (program name first) and the presence of the
    /// case-folding environment flag into a configuration: the first argument
    /// after the program name is the query and is required; the second names
    /// the input source.
    pub fn build(args: &Vec<String>, ignore_case: bool) -> (r: Result<Config, &'static str>)
        ensures
            r is Ok <==> args@.len() >= 2,
            r matches Ok(c) ==> {
                &&& c.query@ == args@[1]@
                &&& c.input@ == resolved_input(args.deep_view())
                &&& c.ignore_case == ignore_case
            },
            r matches Err(m) ==> m@ == usage_message(),
    {
        if args.len() < 2 {
            return Result::Err(
                "Error parsing arguments: Usage: minigrep substring [file]\nIf file is - or absent, read from stdin.",
            );
        }
        let query = args[1].clone();
        let input = if args.len() >= 3 {
            let dash = String::from_str("-");
            if args[2] == dash {
                Input::Std
            } else {
                Input::File(args[2].clone())
            }
        } else {
            Input::Std
        };
        Result::Ok(Config { query, input, ignore_case })
    }
}

/// Applies the filter variant that the configuration selects: the
/// case-insensitive search when the flag is set, the case-sensitive search
/// otherwise.
pub fn filter_content(config: &Config, content: &str) -> (r: Vec<String>)
    ensures
        config.ignore_case ==> r.deep_view() == ci_matching_lines(config.query@, content@),
        !config.ignore_case ==> r.deep_view() == matching_lines(config.query@, content@),
{
    if config.ignore_case {
        search_case_ins(config.query.as_str(), content)
    } else {
        search(config.query.as_str(), content)
    }
}

} // verus!
