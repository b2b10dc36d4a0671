//! The command surface: raw command-line words interpreted as a subcommand
//! or as a natural-language query, and the exit-code rule for executed
//! commands.

use vstd::prelude::*;
use crate::text;

verus! {

/// Subcommands of the tool.
#[derive(Debug, Clone, PartialEq, Eq)]
pub enum Commands {
    /// Initialise the tool and build the manpage index.
    Setup,
    /// Refresh the manpage index.
    Update,
}

/// Parsed command line.
#[derive(Debug, Clone)]
pub struct Args {
    /// Subcommand, when the first word named one.
    pub command: Option<Commands>,
    /// Query words; a whole command line that named no subcommand.
    pub query: Vec<String>,
}

impl Args {
    /// Interprets the command-line words after the program name: a leading
    /// `setup` or `update` is a subcommand, anything else is query words.
    pub fn parse_args(argv: Vec<String>) -> (r: Args)
        ensures
            argv.len() > 0 && argv[0]@ == "setup"@ ==> r.command == Some(Commands::Setup)
                && r.query.deep_view() == argv.deep_view().skip(1),
            argv.len() > 0 && argv[0]@ == "update"@ ==> r.command == Some(Commands::Update)
                && r.query.deep_view() == argv.deep_view().skip(1),
            argv.len() == 0 || (argv[0]@ != "setup"@ && argv[0]@ != "update"@) ==> r.command
                is None && r.query.deep_view() == argv.deep_view(),
    {
        proof {
            reveal_strlit("setup");
            reveal_strlit("update");
            assert("setup"@.len() == 5);
            assert("update"@.len() == 6);
        }
        if argv.len() > 0 && text::str_eq(argv[0].as_str(), "setup") {
            let rest = tail_of(&argv);
            Args { command: Some(Commands::Setup), query: rest }
        } else if argv.len() > 0 && text::str_eq(argv[0].as_str(), "update") {
            let rest = tail_of(&argv);
            Args { command: Some(Commands::Update), query: rest }
        } else {
            Args { command: None, query: argv }
        }
    }

    /// Whether any query words were given.
    pub fn has_query(&self) -> (r: bool)
        ensures
            r == (self.query.len() != 0),
    {
        self.query.len() != 0
    }

    /// The query words joined with single spaces.
    pub fn query_string(&self) -> (r: String)
        ensures
            r@ == text::spec_join_words(self.query.deep_view()),
    {
        text::join_words(&self.query)
    }
}

/// Clones every word but the first.
fn tail_of(argv: &Vec<String>) -> (r: Vec<String>)
    requires
        argv.len() > 0,
    ensures
        r.deep_view() == argv.deep_view().skip(1),
{
    let mut rest: Vec<String> = Vec::new();
    for i in 1..argv.len()
        invariant
            rest.len() == i - 1,
            forall|j: int| 0 <= j < i - 1 ==> #[trigger] rest[j]@ == argv[j + 1]@,
    {
        rest.push(argv[i].clone());
    }
    proof {
        assert forall|j: int| 0 <= j < rest.deep_view().len() implies rest.deep_view()[j]
            == argv.deep_view().skip(1)[j] by {
            assert(rest[j]@ == argv[j + 1]@);
        }
        assert(rest.deep_view() =~= argv.deep_view().skip(1));
    }
    rest
}

/// The process exit code for a finished command: the command's own code
/// when it fits an exit status, else 1.
pub fn exit_code_from_status(code: i32) -> (r: u8)
    ensures
        0 <= code <= 255 ==> r == code,
        !(0 <= code <= 255) ==> r == 1,
{
    if 0 <= code && code <= 255 {
        code as u8
    } else {
        1
    }
}

} // verus!
