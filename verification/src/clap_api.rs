//! The calls into `clap`. Verus does not read the bodies of the functions
//! here: what their contracts say is taken from clap's source and believed.

use crate::args::Usage;
use crate::walk::texts;
use clap::{App, Arg};
use vstd::prelude::*;

verus! {

#[verifier::external_type_specification]
#[verifier::external_body]
pub struct ExArgMatches<'a>(clap::ArgMatches<'a>);

#[verifier::external_type_specification]
#[verifier::external_body]
pub struct ExError(clap::Error);

/// What a parsed command line holds: under the name of each argument that
/// occurred, the values that it was given, in their order, each read as
/// text. A flag that occurred is held with no value.
pub uninterp spec fn matched(matches: clap::ArgMatches<'static>) -> Map<Seq<char>, Seq<Seq<char>>>;

/// The name of the subcommand that a parsed command line called, if it
/// called one.
pub uninterp spec fn named_subcommand(matches: clap::ArgMatches<'static>) -> Option<Seq<char>>;

/// What clap's parser finds on a command line, whose first token is the
/// program's name, for the command that `usage` describes: nothing where it
/// turns the command line down or answers it with the help text or the
/// version, and else what the parsed command line holds.
pub uninterp spec fn parsed(usage: Usage, tokens: Seq<Seq<char>>) -> Option<
    Map<Seq<char>, Seq<Seq<char>>>,
>;

/// `App::get_matches_from_safe`, on the command that `usage` describes. The
/// body turns the description into clap's own value, field by field, with
/// `App::new`, `version`, `author`, `about` and one `arg` for each of the
/// four arguments, made with `Arg::with_name` and the setters `help`,
/// `required`, `index`, `short`, `long`, `multiple` and `value_name`.
///
/// The parser succeeds exactly where `parsed` holds something, and what it
/// returns then holds just that, and no subcommand, as the command has
/// none. Nothing is claimed of the error. `well_formed` leaves out the
/// declarations on which clap's assertions fail: repeated names, flags or
/// places, a gap in the places, a required argument after one that is not.
#[verifier::external_body]
pub(crate) fn parse_command_line(usage: &Usage, tokens: Vec<String>) -> (outcome: Result<
    clap::ArgMatches<'static>,
    clap::Error,
>)
    requires
        usage.well_formed(),
    ensures
        outcome is Ok <==> parsed(*usage, texts(tokens@)) is Some,
        outcome matches Ok(found) ==> parsed(*usage, texts(tokens@)) == Some(matched(found))
            && named_subcommand(found) is None,
{
    let u = usage;
    App::new(u.title).version(u.version).author(u.author).about(u.about)
        .arg(Arg::with_name(u.source).help(u.source_help).required(u.source_required).index(u.source_index))
        .arg(Arg::with_name(u.target).help(u.target_help).required(u.target_required).index(u.target_index))
        .arg(Arg::with_name(u.extension).short(u.extension_short).long(u.extension_long)
            .multiple(u.extension_multiple).required(u.extension_required)
            .value_name(u.extension_value).help(u.extension_help))
        .arg(Arg::with_name(u.recursion).short(u.recursion_short).long(u.recursion_long)
            .required(u.recursion_required).help(u.recursion_help))
        .get_matches_from_safe(tokens)
}

/// `ArgMatches::value_of_lossy`: the first value that the named argument
/// was given, where it occurred and was given one.
#[verifier::external_body]
pub(crate) fn matches_value_of_lossy(matches: &clap::ArgMatches<'static>, name: &'static str) -> (value:
    Option<String>)
    ensures
        match value {
            Some(text) => matched(*matches).contains_key(name@) && matched(*matches)[name@].len()
                > 0 && text@ == matched(*matches)[name@][0],
            None => !matched(*matches).contains_key(name@) || matched(*matches)[name@].len()
                == 0,
        },
{
    matches.value_of_lossy(name).map(std::borrow::Cow::into_owned)
}

/// `ArgMatches::values_of_lossy`: every value that the named argument was
/// given, in their order, where it occurred.
#[verifier::external_body]
pub(crate) fn matches_values_of_lossy(matches: &clap::ArgMatches<'static>, name: &'static str) -> (values:
    Option<Vec<String>>)
    ensures
        match values {
            Some(list) => matched(*matches).contains_key(name@) && texts(list@) == matched(
                *matches,
            )[name@],
            None => !matched(*matches).contains_key(name@),
        },
{
    matches.values_of_lossy(name)
}

/// `ArgMatches::is_present`: whether the named argument occurred, or the
/// subcommand that was called has that name.
#[verifier::external_body]
pub(crate) fn matches_is_present(matches: &clap::ArgMatches<'static>, name: &'static str) -> (present:
    bool)
    ensures
        present == (matched(*matches).contains_key(name@) || named_subcommand(*matches) == Some(
            name@,
        )),
{
    matches.is_present(name)
}

/// The field `message` of `clap::Error`: the text that clap made for the
/// user. It depends on the terminal, so nothing is claimed of it.
#[verifier::external_body]
pub(crate) fn error_message(error: &clap::Error) -> String {
    error.message.clone()
}

/// `Error::use_stderr`: whether the error is a failure, as opposed to a
/// request for the help text or the version.
#[verifier::external_body]
pub(crate) fn error_use_stderr(error: &clap::Error) -> bool {
    error.use_stderr()
}

} // verus!
