//! The argument resolver: from the tokens of a command line to a `Config`.

use crate::clap_api::{
    error_message, error_use_stderr, matches_is_present, matches_value_of_lossy,
    matches_values_of_lossy, parse_command_line, parsed,
};
use crate::config::{Config, ConfigView};
use crate::filter::allow_set;
use crate::walk::texts;
use vstd::prelude::*;
use vstd::string::*;

verus! {

/// Why a command line gave no configuration.
#[derive(Clone, Debug, PartialEq, Eq)]
pub enum UsageError {
    /// The parser turned the command line down, or was asked for the help
    /// text or the version. `message` is the text for the user; `failure`
    /// says that the command line was wrong.
    Rejected { message: String, failure: bool },
    /// No source directory was given.
    MissingSource,
    /// No destination directory was given.
    MissingDestination,
}

/// What a `UsageError` stands for.
pub enum UsageErrorView {
    Rejected { message: Seq<char>, failure: bool },
    MissingSource,
    MissingDestination,
}

impl View for UsageError {
    type V = UsageErrorView;

    open spec fn view(&self) -> UsageErrorView {
        match self {
            UsageError::Rejected { message, failure } => UsageErrorView::Rejected {
                message: message@,
                failure: *failure,
            },
            UsageError::MissingSource => UsageErrorView::MissingSource,
            UsageError::MissingDestination => UsageErrorView::MissingDestination,
        }
    }
}

/// The allow-set of the extension tokens that a command line gave: empty
/// where it gave none.
pub open spec fn given_extensions(ext: Option<Vec<String>>) -> Set<Seq<char>> {
    match ext {
        Some(tokens) => allow_set(tokens@),
        None => Set::empty(),
    }
}

/// Makes the configuration from what a parsed command line holds: the two
/// positional paths, the values of the extension option, and whether the
/// recursion flag occurred. Both paths are needed: the source is looked for
/// first.
pub fn resolve(
    from: Option<String>,
    to: Option<String>,
    ext: Option<Vec<String>>,
    rec: bool,
) -> (outcome: Result<Config, UsageError>)
    ensures
        match outcome {
            Ok(config) => from is Some && to is Some && config@ == (ConfigView {
                source: from->0@,
                destination: to->0@,
                extensions: given_extensions(ext),
                recursive: rec,
            }),
            Err(error) => if from is None {
                error@ == UsageErrorView::MissingSource
            } else {
                to is None && error@ == UsageErrorView::MissingDestination
            },
        },
{
    let src = match from {
        Some(path) => path,
        None => {
            return Err(UsageError::MissingSource);
        },
    };
    let dst = match to {
        Some(path) => path,
        None => {
            return Err(UsageError::MissingDestination);
        },
    };
    let tokens = match ext {
        Some(tokens) => tokens,
        None => {
            let none: Vec<String> = Vec::new();
            assert(allow_set(none@) =~= Set::<Seq<char>>::empty());
            none
        },
    };
    Ok(Config::new(src, dst, tokens, rec))
}

/// How a command is declared to the parser: its title, version, author and
/// description, two positional arguments, an option that takes values, and
/// a flag.
pub struct Usage {
    pub title: &'static str,
    pub version: &'static str,
    pub author: &'static str,
    pub about: &'static str,
    pub source: &'static str,
    pub source_help: &'static str,
    pub source_required: bool,
    pub source_index: u64,
    pub target: &'static str,
    pub target_help: &'static str,
    pub target_required: bool,
    pub target_index: u64,
    pub extension: &'static str,
    pub extension_short: &'static str,
    pub extension_long: &'static str,
    pub extension_multiple: bool,
    pub extension_required: bool,
    pub extension_value: &'static str,
    pub extension_help: &'static str,
    pub recursion: &'static str,
    pub recursion_short: &'static str,
    pub recursion_long: &'static str,
    pub recursion_required: bool,
    pub recursion_help: &'static str,
}

impl Usage {
    /// What the parser asks of a declaration: the four arguments have four
    /// names; the positional arguments stand at the places 1 and 2, and the
    /// second is not required unless the first is; the short flags are two
    /// different characters, the long flags two different words, none of
    /// them empty or with a hyphen in front.
    pub open spec fn well_formed(&self) -> bool {
        &&& self.source@ != self.target@
        &&& self.source@ != self.extension@
        &&& self.source@ != self.recursion@
        &&& self.target@ != self.extension@
        &&& self.target@ != self.recursion@
        &&& self.extension@ != self.recursion@
        &&& self.source_index == 1
        &&& self.target_index == 2
        &&& self.target_required ==> self.source_required
        &&& self.extension_short@.len() > 0
        &&& self.recursion_short@.len() > 0
        &&& self.extension_short@[0] != '-'
        &&& self.recursion_short@[0] != '-'
        &&& self.extension_short@[0] != self.recursion_short@[0]
        &&& self.extension_long@.len() > 0
        &&& self.recursion_long@.len() > 0
        &&& self.extension_long@[0] != '-'
        &&& self.recursion_long@[0] != '-'
        &&& self.extension_long@ != self.recursion_long@
    }
}

/// The command of this library: `<from_dir> <to_dir> [-x|--ext EXT ...]
/// [-r|--rec]`.
pub open spec fn command() -> Usage {
    Usage {
        title: "My Copy Program",
        version: "0.1",
        author: "Theo G. <tgaref@gmail.com>",
        about: "Copies files with given extensions (recursively)",
        source: "from_dir",
        source_help: "Sets a source dir",
        source_required: true,
        source_index: 1,
        target: "to_dir",
        target_help: "Sets target dir",
        target_required: true,
        target_index: 2,
        extension: "extension",
        extension_short: "x",
        extension_long: "ext",
        extension_multiple: true,
        extension_required: false,
        extension_value: "EXT",
        extension_help: "Sets the extension(s) of files to copy",
        recursion: "recur",
        recursion_short: "r",
        recursion_long: "rec",
        recursion_required: false,
        recursion_help: "Set if you want to visit subdirectories recursively",
    }
}

/// The first value held under `name`, if there is one.
pub open spec fn first_value(found: Map<Seq<char>, Seq<Seq<char>>>, name: Seq<char>) -> Option<
    Seq<char>,
> {
    if found.contains_key(name) && found[name].len() > 0 {
        Some(found[name][0])
    } else {
        None
    }
}

/// The allow-set of the values held under `name`: empty where the argument
/// did not occur.
pub open spec fn values_set(found: Map<Seq<char>, Seq<Seq<char>>>, name: Seq<char>) -> Set<
    Seq<char>,
> {
    if found.contains_key(name) {
        Set::new(|e: Seq<char>| found[name].contains(e))
    } else {
        Set::empty()
    }
}

/// What becomes of a command line that the parser accepts, given what it
/// finds on it. The source is the first value of `from_dir`, the
/// destination that of `to_dir`, the allow-set holds the values of
/// `extension`, and the run is recursive where `recur` occurred. Where a
/// path has no value, it is missing: the source is looked for first.
pub open spec fn resolved(held: Map<Seq<char>, Seq<Seq<char>>>) -> Result<
    ConfigView,
    UsageErrorView,
> {
    let from = first_value(held, "from_dir"@);
    let to = first_value(held, "to_dir"@);
    if from is None {
        Err(UsageErrorView::MissingSource)
    } else if to is None {
        Err(UsageErrorView::MissingDestination)
    } else {
        Ok(
            ConfigView {
                source: from->0,
                destination: to->0,
                extensions: values_set(held, "extension"@),
                recursive: held.contains_key("recur"@),
            },
        )
    }
}

/// What an outcome of the resolver stands for.
pub open spec fn outcome_view(outcome: Result<Config, UsageError>) -> Result<
    ConfigView,
    UsageErrorView,
> {
    match outcome {
        Ok(config) => Ok(config@),
        Err(error) => Err(error@),
    }
}

/// The allow-set of a list of tokens holds what the list holds.
proof fn lemma_allow_set(tokens: Seq<String>)
    ensures
        allow_set(tokens) == Set::new(|e: Seq<char>| texts(tokens).contains(e)),
{
    let listed = Set::new(|e: Seq<char>| texts(tokens).contains(e));
    assert forall|e: Seq<char>| allow_set(tokens).contains(e) <==> listed.contains(e) by {
        if allow_set(tokens).contains(e) {
            let i = choose|i: int| 0 <= i < tokens.len() && #[trigger] tokens[i]@ == e;
            assert(texts(tokens)[i] == e);
        }
        if listed.contains(e) {
            let i = choose|i: int| 0 <= i < texts(tokens).len() && texts(tokens)[i] == e;
            assert(tokens[i]@ == e);
        }
    }
    assert(allow_set(tokens) =~= listed);
}

/// The declaration of this library's command.
fn declaration() -> (usage: Usage)
    ensures
        usage == command(),
        usage.well_formed(),
{
    let usage = Usage {
        title: "My Copy Program",
        version: "0.1",
        author: "Theo G. <tgaref@gmail.com>",
        about: "Copies files with given extensions (recursively)",
        source: "from_dir",
        source_help: "Sets a source dir",
        source_required: true,
        source_index: 1,
        target: "to_dir",
        target_help: "Sets target dir",
        target_required: true,
        target_index: 2,
        extension: "extension",
        extension_short: "x",
        extension_long: "ext",
        extension_multiple: true,
        extension_required: false,
        extension_value: "EXT",
        extension_help: "Sets the extension(s) of files to copy",
        recursion: "recur",
        recursion_short: "r",
        recursion_long: "rec",
        recursion_required: false,
        recursion_help: "Set if you want to visit subdirectories recursively",
    };
    proof {
        reveal_strlit("from_dir");
        reveal_strlit("to_dir");
        reveal_strlit("extension");
        reveal_strlit("recur");
        reveal_strlit("x");
        reveal_strlit("r");
        reveal_strlit("ext");
        reveal_strlit("rec");
        assert(usage.source@.len() == 8);
        assert(usage.target@.len() == 6);
        assert(usage.extension@.len() == 9);
        assert(usage.recursion@.len() == 5);
        assert(usage.extension_short@[0] == 'x');
        assert(usage.recursion_short@[0] == 'r');
        assert(usage.extension_long@[0] == 'e');
        assert(usage.recursion_long@[0] == 'r');
    }
    usage
}

/// Resolves the tokens of a command line, the program's name first, into a
/// configuration. The command takes two positional paths, source and
/// destination, any number of `-x`/`--ext` options with an extension each,
/// and the flag `-r`/`--rec`.
///
/// The grammar is the parser's: `parsed` names what it finds on the tokens
/// for the command `command()`. Where it finds nothing, the command line is
/// rejected, with the parser's own text; where it finds something, the
/// outcome is what `resolved` makes of that.
pub fn parse_arguments(tokens: Vec<String>) -> (outcome: Result<Config, UsageError>)
    ensures
        match parsed(command(), texts(tokens@)) {
            None => outcome matches Err(error) && error@ is Rejected,
            Some(held) => outcome_view(outcome) == resolved(held),
        },
{
    let usage = declaration();
    match parse_command_line(&usage, tokens) {
        Err(error) => Err(
            UsageError::Rejected {
                message: error_message(&error),
                failure: error_use_stderr(&error),
            },
        ),
        Ok(matches) => {
            let from = matches_value_of_lossy(&matches, "from_dir");
            let to = matches_value_of_lossy(&matches, "to_dir");
            let ext = matches_values_of_lossy(&matches, "extension");
            let rec = matches_is_present(&matches, "recur");
            proof {
                if ext is Some {
                    lemma_allow_set(ext->0@);
                }
            }
            resolve(from, to, ext, rec)
        },
    }
}

} // verus!
