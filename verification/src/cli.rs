use vstd::prelude::*;
use vstd::string::StringSliceAdditionalSpecFns;
use vstd::utf8::{decode_utf8, valid_utf8};

use crate::path::{utf8_text, FsPath};
use crate::query::{QueryPage, DEFAULT_QUERY_PAGE_SIZE, MAX_QUERY_PAGE_SIZE};

verus! {

/// The commands of the command line.
#[derive(Clone, Copy, Debug, PartialEq, Eq, Structural)]
pub enum CommandName {
    Discover,
    Refresh,
    Config,
    Reset,
    Repositories,
    Inspect,
    Overview,
}

/// The word that names a command on the command line.
pub open spec fn command_word(command: CommandName) -> Seq<char> {
    match command {
        CommandName::Discover => "discover"@,
        CommandName::Refresh => "refresh"@,
        CommandName::Config => "config"@,
        CommandName::Reset => "reset"@,
        CommandName::Repositories => "repos"@,
        CommandName::Inspect => "inspect"@,
        CommandName::Overview => "overview"@,
    }
}

/// The command a word names, if any.
pub open spec fn command_named(word: Seq<char>) -> Option<CommandName> {
    if word == "discover"@ {
        Some(CommandName::Discover)
    } else if word == "refresh"@ {
        Some(CommandName::Refresh)
    } else if word == "config"@ {
        Some(CommandName::Config)
    } else if word == "reset"@ {
        Some(CommandName::Reset)
    } else if word == "repos"@ {
        Some(CommandName::Repositories)
    } else if word == "inspect"@ {
        Some(CommandName::Inspect)
    } else if word == "overview"@ {
        Some(CommandName::Overview)
    } else {
        None
    }
}

/// Whether two texts are equal, character by character.
pub fn text_equal(left: &str, right: &str) -> (r: bool)
    ensures
        r == (left@ == right@),
{
    let n = left.unicode_len();
    if n != right.unicode_len() {
        return false;
    }
    let mut i: usize = 0;
    while i < n
        invariant
            n == left@.len(),
            n == right@.len(),
            i <= n,
            forall|j: int| 0 <= j < i ==> left@[j] == right@[j],
        decreases n - i,
    {
        if left.get_char(i) != right.get_char(i) {
            return false;
        }
        i = i + 1;
    }
    assert(left@ =~= right@);
    true
}

/// Whether a text starts with a prefix.
pub open spec fn has_prefix(text: Seq<char>, prefix: Seq<char>) -> bool {
    prefix.len() <= text.len() && text.subrange(0, prefix.len() as int) == prefix
}

pub fn text_starts_with(text: &str, prefix: &str) -> (r: bool)
    ensures
        r == has_prefix(text@, prefix@),
{
    let n = prefix.unicode_len();
    if n > text.unicode_len() {
        return false;
    }
    let mut i: usize = 0;
    while i < n
        invariant
            n == prefix@.len(),
            n <= text@.len(),
            i <= n,
            forall|j: int| 0 <= j < i ==> text@[j] == prefix@[j],
        decreases n - i,
    {
        if text.get_char(i) != prefix.get_char(i) {
            return false;
        }
        i = i + 1;
    }
    assert(text@.subrange(0, n as int) =~= prefix@);
    true
}

/// The text after a prefix of `count` characters.
fn text_after(text: &str, count: usize) -> (r: &str)
    requires
        count <= text@.len(),
    ensures
        r@ == text@.skip(count as int),
{
    let rest = text.substring_char(count, text.unicode_len());
    assert(rest@ =~= text@.skip(count as int));
    rest
}

impl CommandName {
    pub fn as_str(self) -> (r: &'static str)
        ensures
            r@ == command_word(self),
    {
        match self {
            CommandName::Discover => "discover",
            CommandName::Refresh => "refresh",
            CommandName::Config => "config",
            CommandName::Reset => "reset",
            CommandName::Repositories => "repos",
            CommandName::Inspect => "inspect",
            CommandName::Overview => "overview",
        }
    }

    pub fn parse(value: &str) -> (r: Option<Self>)
        ensures
            r == command_named(value@),
    {
        if text_equal(value, "discover") {
            Some(CommandName::Discover)
        } else if text_equal(value, "refresh") {
            Some(CommandName::Refresh)
        } else if text_equal(value, "config") {
            Some(CommandName::Config)
        } else if text_equal(value, "reset") {
            Some(CommandName::Reset)
        } else if text_equal(value, "repos") {
            Some(CommandName::Repositories)
        } else if text_equal(value, "inspect") {
            Some(CommandName::Inspect)
        } else if text_equal(value, "overview") {
            Some(CommandName::Overview)
        } else {
            None
        }
    }
}

/// How a command presents its result.
#[derive(Clone, Copy, Debug, PartialEq, Eq, Structural)]
pub enum OutputFormat {
    Human,
    Json,
}

/// How much of a discovery's diagnostics is shown.
#[derive(Clone, Copy, Debug, PartialEq, Eq, Structural)]
pub enum DiagnosticDetail {
    Summary,
    Verbose,
}

/// A command to run, with its arguments.
#[derive(Clone, Debug, PartialEq, Eq)]
pub enum CliCommand {
    Discover { roots: Vec<FsPath>, format: OutputFormat, diagnostics: DiagnosticDetail },
    Refresh { format: OutputFormat },
    ConfigShow,
    Reset,
    Repositories { page: QueryPage, format: OutputFormat },
    Inspect { selector: Vec<u8>, format: OutputFormat },
    Overview { format: OutputFormat },
}

/// A command as values: the roots and selector by their bytes.
pub enum ParsedCommand {
    Discover(Seq<Seq<u8>>, OutputFormat, DiagnosticDetail),
    Refresh(OutputFormat),
    ConfigShow,
    Reset,
    Repositories(usize, usize, OutputFormat),
    Inspect(Seq<u8>, OutputFormat),
    Overview(OutputFormat),
}

impl View for CliCommand {
    type V = ParsedCommand;

    open spec fn view(&self) -> ParsedCommand {
        match self {
            CliCommand::Discover { roots, format, diagnostics } => ParsedCommand::Discover(
                path_bytes(roots@),
                *format,
                *diagnostics,
            ),
            CliCommand::Refresh { format } => ParsedCommand::Refresh(*format),
            CliCommand::ConfigShow => ParsedCommand::ConfigShow,
            CliCommand::Reset => ParsedCommand::Reset,
            CliCommand::Repositories { page, format } => ParsedCommand::Repositories(
                page.spec_offset(),
                page.spec_limit(),
                *format,
            ),
            CliCommand::Inspect { selector, format } => ParsedCommand::Inspect(
                selector@,
                *format,
            ),
            CliCommand::Overview { format } => ParsedCommand::Overview(*format),
        }
    }
}

/// The format a parsed command asks for; commands without structured
/// output are human.
pub open spec fn command_format(command: ParsedCommand) -> OutputFormat {
    match command {
        ParsedCommand::Discover(_, format, _) => format,
        ParsedCommand::Refresh(format) => format,
        ParsedCommand::Repositories(_, _, format) => format,
        ParsedCommand::Inspect(_, format) => format,
        ParsedCommand::Overview(format) => format,
        ParsedCommand::ConfigShow => OutputFormat::Human,
        ParsedCommand::Reset => OutputFormat::Human,
    }
}

/// A request to run one command.
#[derive(Clone, Debug, PartialEq, Eq)]
pub struct CliRequest {
    command: CliCommand,
}

impl CliRequest {
    pub closed spec fn spec_command(&self) -> CliCommand {
        self.command
    }

    pub fn new(command: CliCommand) -> (r: Self)
        ensures
            r.spec_command() == command,
    {
        CliRequest { command }
    }

    pub fn output_format(&self) -> (r: OutputFormat)
        ensures
            r == command_format(self.spec_command()@),
    {
        match &self.command {
            CliCommand::Discover { format, .. } => *format,
            CliCommand::Refresh { format } => *format,
            CliCommand::Repositories { format, .. } => *format,
            CliCommand::Inspect { format, .. } => *format,
            CliCommand::Overview { format } => *format,
            CliCommand::ConfigShow => OutputFormat::Human,
            CliCommand::Reset => OutputFormat::Human,
        }
    }

    /// Only the long-running commands can be cancelled.
    pub fn supports_cancellation(&self) -> (r: bool)
        ensures
            r == (self.spec_command() is Discover || self.spec_command() is Refresh),
    {
        match &self.command {
            CliCommand::Discover { .. } => true,
            CliCommand::Refresh { .. } => true,
            _ => false,
        }
    }

    pub fn into_command(self) -> (r: CliCommand)
        ensures
            r == self.spec_command(),
    {
        self.command
    }
}

/// What help is about: the command line, or one command.
#[derive(Clone, Copy, Debug, PartialEq, Eq, Structural)]
pub enum HelpTopic {
    Root,
    Command(CommandName),
}

/// What the command line asks for.
#[derive(Clone, Debug, PartialEq, Eq)]
pub enum ParseOutcome {
    Help(HelpTopic),
    Version,
    Run(CliRequest),
}

/// What the command line asks for, as values.
pub enum Parsed {
    Help(HelpTopic),
    Version,
    Run(ParsedCommand),
}

impl View for ParseOutcome {
    type V = Parsed;

    open spec fn view(&self) -> Parsed {
        match self {
            ParseOutcome::Help(topic) => Parsed::Help(*topic),
            ParseOutcome::Version => Parsed::Version,
            ParseOutcome::Run(request) => Parsed::Run(request.spec_command()@),
        }
    }
}

/// Why the command line was refused.
#[derive(Clone, Debug, PartialEq, Eq)]
pub enum ParseErrorKind {
    InvalidUtf8(String),
    UnknownOption { command: Option<CommandName>, option: String },
    UnknownCommand(String),
    UnknownHelpTopic(String),
    TooManyHelpTopics,
    EmptyDiscoveryRoot,
    DuplicateOption(&'static str),
    MissingOptionValue(&'static str),
    RepositoriesOptionsOnly,
    LimitOutOfRange(usize),
    FormatOptionOnly(CommandName),
    InvalidOutputFormat,
    VerboseRequiresHumanOutput,
    ConfigurationActionCount,
    InvalidConfigurationAction(String),
    InspectSelectorCount,
    InvalidRepositorySelector,
    InvalidInteger(String),
    UnexpectedGlobalArgument,
    CommandTakesNoArguments(CommandName),
}

/// Why the command line was refused, the texts by their characters.
pub enum Rejection {
    InvalidUtf8(Seq<char>),
    UnknownOption(Option<CommandName>, Seq<char>),
    UnknownCommand(Seq<char>),
    UnknownHelpTopic(Seq<char>),
    TooManyHelpTopics,
    EmptyDiscoveryRoot,
    DuplicateOption(Seq<char>),
    MissingOptionValue(Seq<char>),
    RepositoriesOptionsOnly,
    LimitOutOfRange(usize),
    FormatOptionOnly(CommandName),
    InvalidOutputFormat,
    VerboseRequiresHumanOutput,
    ConfigurationActionCount,
    InvalidConfigurationAction(Seq<char>),
    InspectSelectorCount,
    InvalidRepositorySelector,
    InvalidInteger(Seq<char>),
    UnexpectedGlobalArgument,
    CommandTakesNoArguments(CommandName),
}

impl View for ParseErrorKind {
    type V = Rejection;

    open spec fn view(&self) -> Rejection {
        match self {
            ParseErrorKind::InvalidUtf8(label) => Rejection::InvalidUtf8(label@),
            ParseErrorKind::UnknownOption { command, option } => Rejection::UnknownOption(
                *command,
                option@,
            ),
            ParseErrorKind::UnknownCommand(word) => Rejection::UnknownCommand(word@),
            ParseErrorKind::UnknownHelpTopic(word) => Rejection::UnknownHelpTopic(word@),
            ParseErrorKind::TooManyHelpTopics => Rejection::TooManyHelpTopics,
            ParseErrorKind::EmptyDiscoveryRoot => Rejection::EmptyDiscoveryRoot,
            ParseErrorKind::DuplicateOption(option) => Rejection::DuplicateOption(option@),
            ParseErrorKind::MissingOptionValue(option) => Rejection::MissingOptionValue(option@),
            ParseErrorKind::RepositoriesOptionsOnly => Rejection::RepositoriesOptionsOnly,
            ParseErrorKind::LimitOutOfRange(limit) => Rejection::LimitOutOfRange(*limit),
            ParseErrorKind::FormatOptionOnly(command) => Rejection::FormatOptionOnly(*command),
            ParseErrorKind::InvalidOutputFormat => Rejection::InvalidOutputFormat,
            ParseErrorKind::VerboseRequiresHumanOutput => Rejection::VerboseRequiresHumanOutput,
            ParseErrorKind::ConfigurationActionCount => Rejection::ConfigurationActionCount,
            ParseErrorKind::InvalidConfigurationAction(action) => Rejection::InvalidConfigurationAction(
                action@,
            ),
            ParseErrorKind::InspectSelectorCount => Rejection::InspectSelectorCount,
            ParseErrorKind::InvalidRepositorySelector => Rejection::InvalidRepositorySelector,
            ParseErrorKind::InvalidInteger(option) => Rejection::InvalidInteger(option@),
            ParseErrorKind::UnexpectedGlobalArgument => Rejection::UnexpectedGlobalArgument,
            ParseErrorKind::CommandTakesNoArguments(command) => Rejection::CommandTakesNoArguments(
                *command,
            ),
        }
    }
}

/// A refusal of the command line, with the help that fits it.
#[derive(Clone, Debug, PartialEq, Eq)]
pub struct ParseError {
    kind: ParseErrorKind,
    help_topic: HelpTopic,
}

impl View for ParseError {
    type V = (Rejection, HelpTopic);

    closed spec fn view(&self) -> (Rejection, HelpTopic) {
        (self.kind@, self.help_topic)
    }
}

impl ParseError {
    fn root(kind: ParseErrorKind) -> (r: Self)
        ensures
            r@ == (kind@, HelpTopic::Root),
    {
        ParseError { kind, help_topic: HelpTopic::Root }
    }

    fn command(command: CommandName, kind: ParseErrorKind) -> (r: Self)
        ensures
            r@ == (kind@, HelpTopic::Command(command)),
    {
        ParseError { kind, help_topic: HelpTopic::Command(command) }
    }

    pub fn kind(&self) -> (r: &ParseErrorKind)
        ensures
            r@ == self@.0,
    {
        &self.kind
    }

    pub fn help_topic(&self) -> (r: HelpTopic)
        ensures
            r == self@.1,
    {
        self.help_topic
    }
}

/// The text of an argument, when its bytes are UTF-8.
pub open spec fn argument_text(argument: Seq<u8>) -> Option<Seq<char>> {
    if valid_utf8(argument) {
        Some(decode_utf8(argument))
    } else {
        None
    }
}

/// The argument is exactly the word.
pub open spec fn is_word(argument: Seq<u8>, word: Seq<char>) -> bool {
    argument_text(argument) == Some(word)
}

/// The argument is text that starts with the prefix.
pub open spec fn starts_with_word(argument: Seq<u8>, prefix: Seq<char>) -> bool {
    argument_text(argument) matches Some(text) && has_prefix(text, prefix)
}

pub open spec fn is_help_flag(argument: Seq<u8>) -> bool {
    is_word(argument, "-h"@) || is_word(argument, "--help"@)
}

pub open spec fn is_version_flag(argument: Seq<u8>) -> bool {
    is_word(argument, "-V"@) || is_word(argument, "--version"@)
}

fn argument_str(argument: &Vec<u8>) -> (r: Option<&str>)
    ensures
        match r {
            Some(text) => argument_text(argument@) == Some(text@),
            None => argument_text(argument@) is None,
        },
{
    utf8_text(argument.as_slice())
}

fn argument_is(argument: &Vec<u8>, word: &str) -> (r: bool)
    ensures
        r == is_word(argument@, word@),
{
    match argument_str(argument) {
        Some(text) => text_equal(text, word),
        None => false,
    }
}

fn argument_starts_with(argument: &Vec<u8>, prefix: &str) -> (r: bool)
    ensures
        r == starts_with_word(argument@, prefix@),
{
    match argument_str(argument) {
        Some(text) => text_starts_with(text, prefix),
        None => false,
    }
}

fn is_help(argument: &Vec<u8>) -> (r: bool)
    ensures
        r == is_help_flag(argument@),
{
    argument_is(argument, "-h") || argument_is(argument, "--help")
}

fn is_version(argument: &Vec<u8>) -> (r: bool)
    ensures
        r == is_version_flag(argument@),
{
    argument_is(argument, "-V") || argument_is(argument, "--version")
}

pub open spec fn is_decimal_digit(c: char) -> bool {
    '0' <= c && c <= '9'
}

/// The value of a sequence of decimal digits.
pub open spec fn digits_value(digits: Seq<char>) -> nat
    decreases digits.len(),
{
    if digits.len() == 0 {
        0
    } else {
        digits_value(digits.drop_last()) * 10 + (digits.last() as nat - '0' as nat) as nat
    }
}

/// The digits of an unsigned decimal: the text after an optional plus
/// sign.
pub open spec fn unsigned_digits(text: Seq<char>) -> Seq<char> {
    if text.len() > 0 && text[0] == '+' {
        text.skip(1)
    } else {
        text
    }
}

/// The machine integer an unsigned decimal text denotes: an optional plus
/// sign and at least one digit, with a value that fits.
pub open spec fn decimal_usize(text: Seq<char>) -> Option<usize> {
    let digits = unsigned_digits(text);
    if digits.len() > 0 && (forall|i: int| 0 <= i < digits.len() ==> is_decimal_digit(#[trigger] digits[i]))
        && digits_value(digits) <= usize::MAX {
        Some(digits_value(digits) as usize)
    } else {
        None
    }
}

proof fn lemma_digits_value_prefix(digits: Seq<char>, count: int)
    requires
        0 <= count <= digits.len(),
        forall|i: int| 0 <= i < digits.len() ==> is_decimal_digit(#[trigger] digits[i]),
    ensures
        digits_value(digits.take(count)) <= digits_value(digits),
    decreases digits.len(),
{
    if count < digits.len() {
        let shorter = digits.drop_last();
        assert forall|i: int| 0 <= i < shorter.len() implies is_decimal_digit(#[trigger] shorter[i]) by {
            assert(shorter[i] == digits[i]);
        }
        lemma_digits_value_prefix(shorter, count);
        assert(shorter.take(count) =~= digits.take(count));
    } else {
        assert(digits.take(count) =~= digits);
    }
}

/// Reads an unsigned decimal.
pub fn parse_decimal_usize(text: &str) -> (r: Option<usize>)
    ensures
        r == decimal_usize(text@),
{
    let n = text.unicode_len();
    let mut start: usize = 0;
    if n > 0 && text.get_char(0) == '+' {
        start = 1;
    }
    let ghost digits = unsigned_digits(text@);
    assert(digits =~= text@.skip(start as int));
    if start >= n {
        return None;
    }
    let mut value: usize = 0;
    let mut i: usize = start;
    while i < n
        invariant
            n == text@.len(),
            start <= i <= n,
            digits == text@.skip(start as int),
            digits == unsigned_digits(text@),
            forall|j: int| 0 <= j < i - start ==> is_decimal_digit(#[trigger] digits[j]),
            value == digits_value(digits.take(i - start)),
        decreases n - i,
    {
        let c = text.get_char(i);
        assert(c == digits[i - start]);
        if c < '0' || c > '9' {
            proof {
                assert(!is_decimal_digit(digits[i - start]));
                assert(digits == unsigned_digits(text@));
                assert(!(forall|j: int|
                    0 <= j < digits.len() ==> is_decimal_digit(#[trigger] digits[j])));
            }
            return None;
        }
        let d = (c as u32 - '0' as u32) as usize;
        assert(digits.take(i - start + 1).drop_last() =~= digits.take(i - start));
        assert(digits.take(i - start + 1).last() == c);
        let grown = match value.checked_mul(10) {
            Some(tens) => tens.checked_add(d),
            None => None,
        };
        match grown {
            Some(next) => {
                value = next;
            },
            None => {
                proof {
                    assert(digits_value(digits.take(i - start + 1)) == value * 10 + d);
                    assert(value * 10 + d > usize::MAX);
                    if forall|j: int|
                        0 <= j < digits.len() ==> is_decimal_digit(#[trigger] digits[j]) {
                        lemma_digits_value_prefix(digits, i - start + 1);
                        assert(digits_value(digits) > usize::MAX);
                    }
                    assert(digits == unsigned_digits(text@));
                }
                return None;
            },
        }
        i = i + 1;
    }
    assert(digits.take(i - start) =~= digits);
    Some(value)
}


/// A refusal of the whole command line.
pub open spec fn at_root(rejection: Rejection) -> (Rejection, HelpTopic) {
    (rejection, HelpTopic::Root)
}

/// A refusal of a command's arguments.
pub open spec fn for_command(command: CommandName, rejection: Rejection) -> (Rejection, HelpTopic) {
    (rejection, HelpTopic::Command(command))
}

/// The result matches the expected one: the same value, or a refusal
/// with the same reason and help.
pub open spec fn result_matches<T>(
    r: Result<T, ParseError>,
    expected: Result<T, (Rejection, HelpTopic)>,
) -> bool {
    match expected {
        Ok(value) => r matches Ok(v) && v == value,
        Err(failure) => r matches Err(e) && e@ == failure,
    }
}

pub open spec fn format_named(text: Seq<char>) -> Option<OutputFormat> {
    if text == "human"@ {
        Some(OutputFormat::Human)
    } else if text == "json"@ {
        Some(OutputFormat::Json)
    } else {
        None
    }
}

pub open spec fn format_text_result(text: Seq<char>, command: CommandName) -> Result<
    OutputFormat,
    (Rejection, HelpTopic),
> {
    match format_named(text) {
        Some(format) => Ok(format),
        None => Err(for_command(command, Rejection::InvalidOutputFormat)),
    }
}

pub open spec fn format_argument_result(argument: Seq<u8>, command: CommandName) -> Result<
    OutputFormat,
    (Rejection, HelpTopic),
> {
    match argument_text(argument) {
        Some(text) => format_text_result(text, command),
        None => Err(for_command(command, Rejection::InvalidUtf8("--format"@))),
    }
}

pub open spec fn count_text_result(text: Seq<char>, command: CommandName, option: Seq<char>) -> Result<
    usize,
    (Rejection, HelpTopic),
> {
    match decimal_usize(text) {
        Some(value) => Ok(value),
        None => Err(for_command(command, Rejection::InvalidInteger(option))),
    }
}

pub open spec fn count_argument_result(
    argument: Seq<u8>,
    command: CommandName,
    option: Seq<char>,
) -> Result<usize, (Rejection, HelpTopic)> {
    match argument_text(argument) {
        Some(text) => count_text_result(text, command, option),
        None => Err(for_command(command, Rejection::InvalidUtf8(option))),
    }
}

fn parse_output_format_text(value: &str, command: CommandName) -> (r: Result<OutputFormat, ParseError>)
    ensures
        result_matches(r, format_text_result(value@, command)),
{
    if text_equal(value, "human") {
        Ok(OutputFormat::Human)
    } else if text_equal(value, "json") {
        Ok(OutputFormat::Json)
    } else {
        Err(ParseError::command(command, ParseErrorKind::InvalidOutputFormat))
    }
}

fn parse_output_format(value: &Vec<u8>, command: CommandName) -> (r: Result<OutputFormat, ParseError>)
    ensures
        result_matches(r, format_argument_result(value@, command)),
{
    match argument_str(value) {
        Some(text) => parse_output_format_text(text, command),
        None => Err(
            ParseError::command(command, ParseErrorKind::InvalidUtf8("--format".to_owned())),
        ),
    }
}

fn parse_usize_text(value: &str, command: CommandName, option: &str) -> (r: Result<usize, ParseError>)
    ensures
        result_matches(r, count_text_result(value@, command, option@)),
{
    match parse_decimal_usize(value) {
        Some(number) => Ok(number),
        None => Err(
            ParseError::command(command, ParseErrorKind::InvalidInteger(option.to_owned())),
        ),
    }
}

fn parse_usize_value(value: &Vec<u8>, command: CommandName, option: &str) -> (r: Result<
    usize,
    ParseError,
>)
    ensures
        result_matches(r, count_argument_result(value@, command, option@)),
{
    match argument_str(value) {
        Some(text) => parse_usize_text(text, command, option),
        None => Err(ParseError::command(command, ParseErrorKind::InvalidUtf8(option.to_owned()))),
    }
}

/// The roots, format and detail that the discovery arguments from `index`
/// on give, in the state reached before them.
pub open spec fn discover_scan(
    args: Seq<Seq<u8>>,
    index: int,
    roots: Seq<Seq<u8>>,
    format: OutputFormat,
    seen_format: bool,
    verbose: bool,
    options: bool,
) -> Result<(Seq<Seq<u8>>, OutputFormat, DiagnosticDetail), (Rejection, HelpTopic)>
    decreases args.len() - index,
{
    let command = CommandName::Discover;
    if index < 0 || index >= args.len() {
        if verbose && format == OutputFormat::Json {
            Err(for_command(command, Rejection::VerboseRequiresHumanOutput))
        } else {
            Ok(
                (
                    roots,
                    format,
                    if verbose {
                        DiagnosticDetail::Verbose
                    } else {
                        DiagnosticDetail::Summary
                    },
                ),
            )
        }
    } else {
        let argument = args[index];
        if options && is_word(argument, "--"@) {
            discover_scan(args, index + 1, roots, format, seen_format, verbose, false)
        } else if options && is_word(argument, "--format"@) {
            if seen_format {
                Err(for_command(command, Rejection::DuplicateOption("--format"@)))
            } else if index + 1 >= args.len() {
                Err(for_command(command, Rejection::MissingOptionValue("--format"@)))
            } else {
                match format_argument_result(args[index + 1], command) {
                    Ok(chosen) => discover_scan(
                        args,
                        index + 2,
                        roots,
                        chosen,
                        true,
                        verbose,
                        options,
                    ),
                    Err(failure) => Err(failure),
                }
            }
        } else if options && starts_with_word(argument, "--format="@) {
            if seen_format {
                Err(for_command(command, Rejection::DuplicateOption("--format"@)))
            } else {
                match format_text_result(
                    argument_text(argument)->0.skip("--format="@.len() as int),
                    command,
                ) {
                    Ok(chosen) => discover_scan(
                        args,
                        index + 1,
                        roots,
                        chosen,
                        true,
                        verbose,
                        options,
                    ),
                    Err(failure) => Err(failure),
                }
            }
        } else if options && is_word(argument, "--verbose"@) {
            if verbose {
                Err(for_command(command, Rejection::DuplicateOption("--verbose"@)))
            } else {
                discover_scan(args, index + 1, roots, format, seen_format, true, options)
            }
        } else if options && starts_with_word(argument, "-"@) {
            Err(
                for_command(
                    command,
                    Rejection::UnknownOption(Some(command), argument_text(argument)->0),
                ),
            )
        } else if argument.len() == 0 {
            Err(for_command(command, Rejection::EmptyDiscoveryRoot))
        } else {
            discover_scan(args, index + 1, roots.push(argument), format, seen_format, verbose, options)
        }
    }
}

/// The arguments by their bytes.
pub open spec fn argument_bytes(arguments: Seq<Vec<u8>>) -> Seq<Seq<u8>> {
    arguments.map_values(|argument: Vec<u8>| argument@)
}

pub open spec fn path_bytes(paths: Seq<FsPath>) -> Seq<Seq<u8>> {
    paths.map_values(|path: FsPath| path@)
}

pub open spec fn discover_matches(
    r: Result<(Vec<FsPath>, OutputFormat, DiagnosticDetail), ParseError>,
    expected: Result<(Seq<Seq<u8>>, OutputFormat, DiagnosticDetail), (Rejection, HelpTopic)>,
) -> bool {
    match expected {
        Ok((roots, format, detail)) => r matches Ok((found, f, d)) && path_bytes(found@) == roots
            && f == format && d == detail,
        Err(failure) => r matches Err(e) && e@ == failure,
    }
}

/// The discovery arguments: roots, `--format` once, `--verbose` once, and
/// `--` to end the options. Verbose diagnostics need human output.
fn parse_discovery_arguments(arguments: &[Vec<u8>], start: usize) -> (r: Result<
    (Vec<FsPath>, OutputFormat, DiagnosticDetail),
    ParseError,
>)
    ensures
        discover_matches(
            r,
            discover_scan(
                argument_bytes(arguments@),
                start as int,
                Seq::empty(),
                OutputFormat::Human,
                false,
                false,
                true,
            ),
        ),
{
    let command = CommandName::Discover;
    let ghost expected = discover_scan(
        argument_bytes(arguments@),
        start as int,
        Seq::empty(),
        OutputFormat::Human,
        false,
        false,
        true,
    );
    let mut roots: Vec<FsPath> = Vec::new();
    let mut format = OutputFormat::Human;
    let mut seen_format = false;
    let mut verbose = false;
    let mut parse_options = true;
    let mut index: usize = start;
    proof {
        assert(path_bytes(roots@) =~= Seq::<Seq<u8>>::empty());
    }
    while index < arguments.len()
        invariant
            command == CommandName::Discover,
            expected == discover_scan(
                argument_bytes(arguments@),
                start as int,
                Seq::empty(),
                OutputFormat::Human,
                false,
                false,
                true,
            ),
            expected == discover_scan(
                argument_bytes(arguments@),
                index as int,
                path_bytes(roots@),
                format,
                seen_format,
                verbose,
                parse_options,
            ),
        decreases arguments@.len() - index,
    {
        let argument = &arguments[index];
        proof {
            assert(argument_bytes(arguments@).len() == arguments@.len());
            assert(argument_bytes(arguments@)[index as int] == argument@);
            if index + 1 < arguments@.len() {
                assert(argument_bytes(arguments@)[index + 1] == arguments@[index + 1]@);
            }
        }
        if parse_options && argument_is(argument, "--") {
            parse_options = false;
            index = index + 1;
        } else if parse_options && argument_is(argument, "--format") {
            if seen_format {
                return Err(
                    ParseError::command(command, ParseErrorKind::DuplicateOption("--format")),
                );
            }
            if index + 1 >= arguments.len() {
                return Err(
                    ParseError::command(command, ParseErrorKind::MissingOptionValue("--format")),
                );
            }
            match parse_output_format(&arguments[index + 1], command) {
                Ok(chosen) => {
                    format = chosen;
                },
                Err(error) => {
                    return Err(error);
                },
            }
            seen_format = true;
            index = index + 2;
        } else if parse_options && argument_starts_with(argument, "--format=") {
            if seen_format {
                return Err(
                    ParseError::command(command, ParseErrorKind::DuplicateOption("--format")),
                );
            }
            let text = match argument_str(argument) {
                Some(text) => text,
                None => {
                    return Err(
                        ParseError::command(command, ParseErrorKind::InvalidUtf8("--format".to_owned())),
                    );
                },
            };
            let prefix_length = "--format=".unicode_len();
            match parse_output_format_text(text_after(text, prefix_length), command) {
                Ok(chosen) => {
                    format = chosen;
                },
                Err(error) => {
                    return Err(error);
                },
            }
            seen_format = true;
            index = index + 1;
        } else if parse_options && argument_is(argument, "--verbose") {
            if verbose {
                return Err(
                    ParseError::command(command, ParseErrorKind::DuplicateOption("--verbose")),
                );
            }
            verbose = true;
            index = index + 1;
        } else if parse_options && argument_starts_with(argument, "-") {
            let option = match argument_str(argument) {
                Some(text) => text.to_owned(),
                None => String::new(),
            };
            return Err(
                ParseError::command(
                    command,
                    ParseErrorKind::UnknownOption { command: Some(command), option },
                ),
            );
        } else if argument.len() == 0 {
            return Err(ParseError::command(command, ParseErrorKind::EmptyDiscoveryRoot));
        } else {
            let ghost before = roots@;
            roots.push(FsPath::from_bytes(vstd::slice::slice_to_vec(argument.as_slice())));
            proof {
                assert(path_bytes(roots@) =~= path_bytes(before).push(argument@));
            }
            index = index + 1;
        }
    }
    if verbose && format == OutputFormat::Json {
        return Err(ParseError::command(command, ParseErrorKind::VerboseRequiresHumanOutput));
    }
    let diagnostics = if verbose {
        DiagnosticDetail::Verbose
    } else {
        DiagnosticDetail::Summary
    };
    Ok((roots, format, diagnostics))
}


/// The page and format that the repository options from `index` on give,
/// in the state reached before them.
pub open spec fn repository_scan(
    args: Seq<Seq<u8>>,
    index: int,
    offset: usize,
    limit: usize,
    format: OutputFormat,
    seen_offset: bool,
    seen_limit: bool,
    seen_format: bool,
) -> Result<(usize, usize, OutputFormat), (Rejection, HelpTopic)>
    decreases args.len() - index,
{
    let command = CommandName::Repositories;
    if index < 0 || index >= args.len() {
        if 0 < limit <= MAX_QUERY_PAGE_SIZE {
            Ok((offset, limit, format))
        } else {
            Err(for_command(command, Rejection::LimitOutOfRange(MAX_QUERY_PAGE_SIZE)))
        }
    } else {
        match argument_text(args[index]) {
            None => Err(for_command(command, Rejection::InvalidUtf8("repository option"@))),
            Some(text) => if text == "--offset"@ {
                if seen_offset {
                    Err(for_command(command, Rejection::DuplicateOption("--offset"@)))
                } else if index + 1 >= args.len() {
                    Err(for_command(command, Rejection::MissingOptionValue("--offset"@)))
                } else {
                    match count_argument_result(args[index + 1], command, "--offset"@) {
                        Ok(value) => repository_scan(
                            args,
                            index + 2,
                            value,
                            limit,
                            format,
                            true,
                            seen_limit,
                            seen_format,
                        ),
                        Err(failure) => Err(failure),
                    }
                }
            } else if text == "--limit"@ {
                if seen_limit {
                    Err(for_command(command, Rejection::DuplicateOption("--limit"@)))
                } else if index + 1 >= args.len() {
                    Err(for_command(command, Rejection::MissingOptionValue("--limit"@)))
                } else {
                    match count_argument_result(args[index + 1], command, "--limit"@) {
                        Ok(value) => repository_scan(
                            args,
                            index + 2,
                            offset,
                            value,
                            format,
                            seen_offset,
                            true,
                            seen_format,
                        ),
                        Err(failure) => Err(failure),
                    }
                }
            } else if text == "--format"@ {
                if seen_format {
                    Err(for_command(command, Rejection::DuplicateOption("--format"@)))
                } else if index + 1 >= args.len() {
                    Err(for_command(command, Rejection::MissingOptionValue("--format"@)))
                } else {
                    match format_argument_result(args[index + 1], command) {
                        Ok(chosen) => repository_scan(
                            args,
                            index + 2,
                            offset,
                            limit,
                            chosen,
                            seen_offset,
                            seen_limit,
                            true,
                        ),
                        Err(failure) => Err(failure),
                    }
                }
            } else if has_prefix(text, "--offset="@) {
                if seen_offset {
                    Err(for_command(command, Rejection::DuplicateOption("--offset"@)))
                } else {
                    match count_text_result(
                        text.skip("--offset="@.len() as int),
                        command,
                        "--offset"@,
                    ) {
                        Ok(value) => repository_scan(
                            args,
                            index + 1,
                            value,
                            limit,
                            format,
                            true,
                            seen_limit,
                            seen_format,
                        ),
                        Err(failure) => Err(failure),
                    }
                }
            } else if has_prefix(text, "--limit="@) {
                if seen_limit {
                    Err(for_command(command, Rejection::DuplicateOption("--limit"@)))
                } else {
                    match count_text_result(
                        text.skip("--limit="@.len() as int),
                        command,
                        "--limit"@,
                    ) {
                        Ok(value) => repository_scan(
                            args,
                            index + 1,
                            offset,
                            value,
                            format,
                            seen_offset,
                            true,
                            seen_format,
                        ),
                        Err(failure) => Err(failure),
                    }
                }
            } else if has_prefix(text, "--format="@) {
                if seen_format {
                    Err(for_command(command, Rejection::DuplicateOption("--format"@)))
                } else {
                    match format_text_result(text.skip("--format="@.len() as int), command) {
                        Ok(chosen) => repository_scan(
                            args,
                            index + 1,
                            offset,
                            limit,
                            chosen,
                            seen_offset,
                            seen_limit,
                            true,
                        ),
                        Err(failure) => Err(failure),
                    }
                }
            } else if has_prefix(text, "-"@) {
                Err(for_command(command, Rejection::UnknownOption(Some(command), text)))
            } else {
                Err(for_command(command, Rejection::RepositoriesOptionsOnly))
            },
        }
    }
}

pub open spec fn repository_matches(
    r: Result<(QueryPage, OutputFormat), ParseError>,
    expected: Result<(usize, usize, OutputFormat), (Rejection, HelpTopic)>,
) -> bool {
    match expected {
        Ok((offset, limit, format)) => r matches Ok((page, f)) && page.spec_offset() == offset
            && page.spec_limit() == limit && f == format,
        Err(failure) => r matches Err(e) && e@ == failure,
    }
}

/// The repository listing options: `--offset`, `--limit` and `--format`,
/// each at most once, with the value apart or after `=`. The limit must
/// make a page.
fn parse_repository_options(arguments: &[Vec<u8>], start: usize) -> (r: Result<
    (QueryPage, OutputFormat),
    ParseError,
>)
    ensures
        repository_matches(
            r,
            repository_scan(
                argument_bytes(arguments@),
                start as int,
                0,
                DEFAULT_QUERY_PAGE_SIZE,
                OutputFormat::Human,
                false,
                false,
                false,
            ),
        ),
{
    let command = CommandName::Repositories;
    let ghost expected = repository_scan(
        argument_bytes(arguments@),
        start as int,
        0,
        DEFAULT_QUERY_PAGE_SIZE,
        OutputFormat::Human,
        false,
        false,
        false,
    );
    let mut offset: usize = 0;
    let mut limit: usize = DEFAULT_QUERY_PAGE_SIZE;
    let mut format = OutputFormat::Human;
    let mut seen_offset = false;
    let mut seen_limit = false;
    let mut seen_format = false;
    let mut index: usize = start;
    while index < arguments.len()
        invariant
            command == CommandName::Repositories,
            expected == repository_scan(
                argument_bytes(arguments@),
                start as int,
                0,
                DEFAULT_QUERY_PAGE_SIZE,
                OutputFormat::Human,
                false,
                false,
                false,
            ),
            expected == repository_scan(
                argument_bytes(arguments@),
                index as int,
                offset,
                limit,
                format,
                seen_offset,
                seen_limit,
                seen_format,
            ),
        decreases arguments@.len() - index,
    {
        proof {
            assert(argument_bytes(arguments@).len() == arguments@.len());
            assert(argument_bytes(arguments@)[index as int] == arguments@[index as int]@);
            if index + 1 < arguments@.len() {
                assert(argument_bytes(arguments@)[index + 1] == arguments@[index + 1]@);
            }
        }
        let argument = match argument_str(&arguments[index]) {
            Some(text) => text,
            None => {
                return Err(
                    ParseError::command(
                        command,
                        ParseErrorKind::InvalidUtf8("repository option".to_owned()),
                    ),
                );
            },
        };
        if text_equal(argument, "--offset") {
            if seen_offset {
                return Err(ParseError::command(command, ParseErrorKind::DuplicateOption("--offset")));
            }
            if index + 1 >= arguments.len() {
                return Err(
                    ParseError::command(command, ParseErrorKind::MissingOptionValue("--offset")),
                );
            }
            match parse_usize_value(&arguments[index + 1], command, "--offset") {
                Ok(value) => {
                    offset = value;
                },
                Err(error) => {
                    return Err(error);
                },
            }
            seen_offset = true;
            index = index + 2;
        } else if text_equal(argument, "--limit") {
            if seen_limit {
                return Err(ParseError::command(command, ParseErrorKind::DuplicateOption("--limit")));
            }
            if index + 1 >= arguments.len() {
                return Err(
                    ParseError::command(command, ParseErrorKind::MissingOptionValue("--limit")),
                );
            }
            match parse_usize_value(&arguments[index + 1], command, "--limit") {
                Ok(value) => {
                    limit = value;
                },
                Err(error) => {
                    return Err(error);
                },
            }
            seen_limit = true;
            index = index + 2;
        } else if text_equal(argument, "--format") {
            if seen_format {
                return Err(ParseError::command(command, ParseErrorKind::DuplicateOption("--format")));
            }
            if index + 1 >= arguments.len() {
                return Err(
                    ParseError::command(command, ParseErrorKind::MissingOptionValue("--format")),
                );
            }
            match parse_output_format(&arguments[index + 1], command) {
                Ok(chosen) => {
                    format = chosen;
                },
                Err(error) => {
                    return Err(error);
                },
            }
            seen_format = true;
            index = index + 2;
        } else if text_starts_with(argument, "--offset=") {
            if seen_offset {
                return Err(ParseError::command(command, ParseErrorKind::DuplicateOption("--offset")));
            }
            let prefix_length = "--offset=".unicode_len();
            match parse_usize_text(text_after(argument, prefix_length), command, "--offset") {
                Ok(value) => {
                    offset = value;
                },
                Err(error) => {
                    return Err(error);
                },
            }
            seen_offset = true;
            index = index + 1;
        } else if text_starts_with(argument, "--limit=") {
            if seen_limit {
                return Err(ParseError::command(command, ParseErrorKind::DuplicateOption("--limit")));
            }
            let prefix_length = "--limit=".unicode_len();
            match parse_usize_text(text_after(argument, prefix_length), command, "--limit") {
                Ok(value) => {
                    limit = value;
                },
                Err(error) => {
                    return Err(error);
                },
            }
            seen_limit = true;
            index = index + 1;
        } else if text_starts_with(argument, "--format=") {
            if seen_format {
                return Err(ParseError::command(command, ParseErrorKind::DuplicateOption("--format")));
            }
            let prefix_length = "--format=".unicode_len();
            match parse_output_format_text(text_after(argument, prefix_length), command) {
                Ok(chosen) => {
                    format = chosen;
                },
                Err(error) => {
                    return Err(error);
                },
            }
            seen_format = true;
            index = index + 1;
        } else if text_starts_with(argument, "-") {
            return Err(
                ParseError::command(
                    command,
                    ParseErrorKind::UnknownOption {
                        command: Some(command),
                        option: argument.to_owned(),
                    },
                ),
            );
        } else {
            return Err(ParseError::command(command, ParseErrorKind::RepositoriesOptionsOnly));
        }
    }
    match QueryPage::new(offset, limit) {
        Some(page) => Ok((page, format)),
        None => Err(
            ParseError::command(command, ParseErrorKind::LimitOutOfRange(MAX_QUERY_PAGE_SIZE)),
        ),
    }
}

/// The selector and format that the inspection arguments from `index` on
/// give, in the state reached before them.
pub open spec fn inspect_scan(
    args: Seq<Seq<u8>>,
    index: int,
    selector: Option<Seq<u8>>,
    format: OutputFormat,
    seen_format: bool,
    options: bool,
) -> Result<(Seq<u8>, OutputFormat), (Rejection, HelpTopic)>
    decreases args.len() - index,
{
    let command = CommandName::Inspect;
    if index < 0 || index >= args.len() {
        match selector {
            Some(chosen) => Ok((chosen, format)),
            None => Err(for_command(command, Rejection::InspectSelectorCount)),
        }
    } else {
        let argument = args[index];
        if options && is_word(argument, "--"@) {
            inspect_scan(args, index + 1, selector, format, seen_format, false)
        } else if options && is_word(argument, "--format"@) {
            if seen_format {
                Err(for_command(command, Rejection::DuplicateOption("--format"@)))
            } else if index + 1 >= args.len() {
                Err(for_command(command, Rejection::MissingOptionValue("--format"@)))
            } else {
                match format_argument_result(args[index + 1], command) {
                    Ok(chosen) => inspect_scan(args, index + 2, selector, chosen, true, options),
                    Err(failure) => Err(failure),
                }
            }
        } else if options && starts_with_word(argument, "--format="@) {
            if seen_format {
                Err(for_command(command, Rejection::DuplicateOption("--format"@)))
            } else {
                match format_text_result(
                    argument_text(argument)->0.skip("--format="@.len() as int),
                    command,
                ) {
                    Ok(chosen) => inspect_scan(args, index + 1, selector, chosen, true, options),
                    Err(failure) => Err(failure),
                }
            }
        } else if options && starts_with_word(argument, "-"@) {
            Err(
                for_command(
                    command,
                    Rejection::UnknownOption(Some(command), argument_text(argument)->0),
                ),
            )
        } else if selector is Some {
            Err(for_command(command, Rejection::InspectSelectorCount))
        } else if argument.len() == 0 {
            Err(for_command(command, Rejection::InvalidRepositorySelector))
        } else {
            inspect_scan(args, index + 1, Some(argument), format, seen_format, options)
        }
    }
}

pub open spec fn inspect_matches(
    r: Result<(Vec<u8>, OutputFormat), ParseError>,
    expected: Result<(Seq<u8>, OutputFormat), (Rejection, HelpTopic)>,
) -> bool {
    match expected {
        Ok((selector, format)) => r matches Ok((found, f)) && found@ == selector && f == format,
        Err(failure) => r matches Err(e) && e@ == failure,
    }
}

/// The inspection arguments: exactly one non-empty selector, `--format`
/// once, and `--` to end the options.
fn parse_inspect_arguments(arguments: &[Vec<u8>], start: usize) -> (r: Result<
    (Vec<u8>, OutputFormat),
    ParseError,
>)
    ensures
        inspect_matches(
            r,
            inspect_scan(argument_bytes(arguments@), start as int, None, OutputFormat::Human, false, true),
        ),
{
    let command = CommandName::Inspect;
    let ghost expected = inspect_scan(
        argument_bytes(arguments@),
        start as int,
        None,
        OutputFormat::Human,
        false,
        true,
    );
    let mut selector: Option<Vec<u8>> = None;
    let mut format = OutputFormat::Human;
    let mut seen_format = false;
    let mut parse_options = true;
    let mut index: usize = start;
    while index < arguments.len()
        invariant
            command == CommandName::Inspect,
            expected == inspect_scan(
                argument_bytes(arguments@),
                start as int,
                None,
                OutputFormat::Human,
                false,
                true,
            ),
            expected == inspect_scan(
                argument_bytes(arguments@),
                index as int,
                match selector {
                    Some(found) => Some(found@),
                    None => None,
                },
                format,
                seen_format,
                parse_options,
            ),
        decreases arguments@.len() - index,
    {
        let argument = &arguments[index];
        proof {
            assert(argument_bytes(arguments@).len() == arguments@.len());
            assert(argument_bytes(arguments@)[index as int] == argument@);
            if index + 1 < arguments@.len() {
                assert(argument_bytes(arguments@)[index + 1] == arguments@[index + 1]@);
            }
        }
        if parse_options && argument_is(argument, "--") {
            parse_options = false;
            index = index + 1;
        } else if parse_options && argument_is(argument, "--format") {
            if seen_format {
                return Err(ParseError::command(command, ParseErrorKind::DuplicateOption("--format")));
            }
            if index + 1 >= arguments.len() {
                return Err(
                    ParseError::command(command, ParseErrorKind::MissingOptionValue("--format")),
                );
            }
            match parse_output_format(&arguments[index + 1], command) {
                Ok(chosen) => {
                    format = chosen;
                },
                Err(error) => {
                    return Err(error);
                },
            }
            seen_format = true;
            index = index + 2;
        } else if parse_options && argument_starts_with(argument, "--format=") {
            if seen_format {
                return Err(ParseError::command(command, ParseErrorKind::DuplicateOption("--format")));
            }
            let text = match argument_str(argument) {
                Some(text) => text,
                None => {
                    return Err(
                        ParseError::command(command, ParseErrorKind::InvalidUtf8("--format".to_owned())),
                    );
                },
            };
            let prefix_length = "--format=".unicode_len();
            match parse_output_format_text(text_after(text, prefix_length), command) {
                Ok(chosen) => {
                    format = chosen;
                },
                Err(error) => {
                    return Err(error);
                },
            }
            seen_format = true;
            index = index + 1;
        } else if parse_options && argument_starts_with(argument, "-") {
            let option = match argument_str(argument) {
                Some(text) => text.to_owned(),
                None => String::new(),
            };
            return Err(
                ParseError::command(
                    command,
                    ParseErrorKind::UnknownOption { command: Some(command), option },
                ),
            );
        } else if selector.is_some() {
            return Err(ParseError::command(command, ParseErrorKind::InspectSelectorCount));
        } else if argument.len() == 0 {
            return Err(ParseError::command(command, ParseErrorKind::InvalidRepositorySelector));
        } else {
            selector = Some(vstd::slice::slice_to_vec(argument.as_slice()));
            index = index + 1;
        }
    }
    match selector {
        Some(chosen) => Ok((chosen, format)),
        None => Err(ParseError::command(command, ParseErrorKind::InspectSelectorCount)),
    }
}


/// The format of a command whose only option is `--format`.
pub open spec fn format_option_result(command: CommandName, args: Seq<Seq<u8>>, start: int) -> Result<
    OutputFormat,
    (Rejection, HelpTopic),
> {
    let count = args.len() - start;
    if count <= 0 {
        Ok(OutputFormat::Human)
    } else if count == 2 && is_word(args[start], "--format"@) {
        format_argument_result(args[start + 1], command)
    } else if count == 1 {
        match argument_text(args[start]) {
            None => Err(for_command(command, Rejection::InvalidUtf8("option"@))),
            Some(text) => if has_prefix(text, "--format="@) {
                format_text_result(text.skip("--format="@.len() as int), command)
            } else {
                Err(for_command(command, Rejection::UnknownOption(Some(command), text)))
            },
        }
    } else {
        Err(for_command(command, Rejection::FormatOptionOnly(command)))
    }
}

fn parse_format_option(command: CommandName, arguments: &[Vec<u8>], start: usize) -> (r: Result<
    OutputFormat,
    ParseError,
>)
    requires
        start <= arguments@.len(),
    ensures
        result_matches(r, format_option_result(command, argument_bytes(arguments@), start as int)),
{
    let count = arguments.len() - start;
    proof {
        assert(argument_bytes(arguments@).len() == arguments@.len());
        if count > 0 {
            assert(argument_bytes(arguments@)[start as int] == arguments@[start as int]@);
        }
        if count > 1 {
            assert(argument_bytes(arguments@)[start + 1] == arguments@[start + 1]@);
        }
    }
    if count == 0 {
        Ok(OutputFormat::Human)
    } else if count == 2 && argument_is(&arguments[start], "--format") {
        parse_output_format(&arguments[start + 1], command)
    } else if count == 1 {
        match argument_str(&arguments[start]) {
            None => Err(ParseError::command(command, ParseErrorKind::InvalidUtf8("option".to_owned()))),
            Some(text) => if text_starts_with(text, "--format=") {
                let prefix_length = "--format=".unicode_len();
                parse_output_format_text(text_after(text, prefix_length), command)
            } else {
                Err(
                    ParseError::command(
                        command,
                        ParseErrorKind::UnknownOption { command: Some(command), option: text.to_owned() },
                    ),
                )
            },
        }
    } else {
        Err(ParseError::command(command, ParseErrorKind::FormatOptionOnly(command)))
    }
}

/// The configuration command: exactly the action `show`.
pub open spec fn configuration_result(args: Seq<Seq<u8>>, start: int) -> Result<
    ParsedCommand,
    (Rejection, HelpTopic),
> {
    let command = CommandName::Config;
    if args.len() - start == 1 {
        match argument_text(args[start]) {
            None => Err(for_command(command, Rejection::InvalidUtf8("configuration action"@))),
            Some(action) => if action == "show"@ {
                Ok(ParsedCommand::ConfigShow)
            } else if has_prefix(action, "-"@) {
                Err(for_command(command, Rejection::UnknownOption(Some(command), action)))
            } else {
                Err(for_command(command, Rejection::InvalidConfigurationAction(action)))
            },
        }
    } else {
        Err(for_command(command, Rejection::ConfigurationActionCount))
    }
}

pub open spec fn command_matches(
    r: Result<CliCommand, ParseError>,
    expected: Result<ParsedCommand, (Rejection, HelpTopic)>,
) -> bool {
    match expected {
        Ok(parsed) => r matches Ok(command) && command@ == parsed,
        Err(failure) => r matches Err(e) && e@ == failure,
    }
}

fn parse_configuration_arguments(arguments: &[Vec<u8>], start: usize) -> (r: Result<
    CliCommand,
    ParseError,
>)
    requires
        start <= arguments@.len(),
    ensures
        command_matches(r, configuration_result(argument_bytes(arguments@), start as int)),
{
    let command = CommandName::Config;
    proof {
        assert(argument_bytes(arguments@).len() == arguments@.len());
    }
    if arguments.len() - start == 1 {
        proof {
            assert(argument_bytes(arguments@)[start as int] == arguments@[start as int]@);
        }
        match argument_str(&arguments[start]) {
            None => Err(
                ParseError::command(
                    command,
                    ParseErrorKind::InvalidUtf8("configuration action".to_owned()),
                ),
            ),
            Some(action) => if text_equal(action, "show") {
                Ok(CliCommand::ConfigShow)
            } else if text_starts_with(action, "-") {
                Err(
                    ParseError::command(
                        command,
                        ParseErrorKind::UnknownOption {
                            command: Some(command),
                            option: action.to_owned(),
                        },
                    ),
                )
            } else {
                Err(
                    ParseError::command(
                        command,
                        ParseErrorKind::InvalidConfigurationAction(action.to_owned()),
                    ),
                )
            },
        }
    } else {
        Err(ParseError::command(command, ParseErrorKind::ConfigurationActionCount))
    }
}

/// What the arguments after a command ask of it: its help when they are
/// only a help flag, else the command with its arguments.
pub open spec fn command_result(command: CommandName, args: Seq<Seq<u8>>, start: int) -> Result<
    Parsed,
    (Rejection, HelpTopic),
> {
    if args.len() - start == 1 && is_help_flag(args[start]) {
        Ok(Parsed::Help(HelpTopic::Command(command)))
    } else {
        match command {
            CommandName::Discover => match discover_scan(
                args,
                start,
                Seq::empty(),
                OutputFormat::Human,
                false,
                false,
                true,
            ) {
                Ok((roots, format, detail)) => Ok(
                    Parsed::Run(ParsedCommand::Discover(roots, format, detail)),
                ),
                Err(failure) => Err(failure),
            },
            CommandName::Refresh => match format_option_result(command, args, start) {
                Ok(format) => Ok(Parsed::Run(ParsedCommand::Refresh(format))),
                Err(failure) => Err(failure),
            },
            CommandName::Config => match configuration_result(args, start) {
                Ok(parsed) => Ok(Parsed::Run(parsed)),
                Err(failure) => Err(failure),
            },
            CommandName::Reset => if args.len() - start == 0 {
                Ok(Parsed::Run(ParsedCommand::Reset))
            } else {
                Err(for_command(command, Rejection::CommandTakesNoArguments(command)))
            },
            CommandName::Repositories => match repository_scan(
                args,
                start,
                0,
                DEFAULT_QUERY_PAGE_SIZE,
                OutputFormat::Human,
                false,
                false,
                false,
            ) {
                Ok((offset, limit, format)) => Ok(
                    Parsed::Run(ParsedCommand::Repositories(offset, limit, format)),
                ),
                Err(failure) => Err(failure),
            },
            CommandName::Inspect => match inspect_scan(
                args,
                start,
                None,
                OutputFormat::Human,
                false,
                true,
            ) {
                Ok((selector, format)) => Ok(Parsed::Run(ParsedCommand::Inspect(selector, format))),
                Err(failure) => Err(failure),
            },
            CommandName::Overview => match format_option_result(command, args, start) {
                Ok(format) => Ok(Parsed::Run(ParsedCommand::Overview(format))),
                Err(failure) => Err(failure),
            },
        }
    }
}

pub open spec fn outcome_matches(
    r: Result<ParseOutcome, ParseError>,
    expected: Result<Parsed, (Rejection, HelpTopic)>,
) -> bool {
    match expected {
        Ok(parsed) => r matches Ok(outcome) && outcome@ == parsed,
        Err(failure) => r matches Err(e) && e@ == failure,
    }
}

fn run(command: CliCommand) -> (r: Result<ParseOutcome, ParseError>)
    ensures
        r matches Ok(outcome) && outcome@ == Parsed::Run(command@),
{
    Ok(ParseOutcome::Run(CliRequest::new(command)))
}

fn parse_command(command: CommandName, arguments: &[Vec<u8>], start: usize) -> (r: Result<
    ParseOutcome,
    ParseError,
>)
    requires
        start <= arguments@.len(),
    ensures
        outcome_matches(r, command_result(command, argument_bytes(arguments@), start as int)),
{
    proof {
        assert(argument_bytes(arguments@).len() == arguments@.len());
        if start < arguments@.len() {
            assert(argument_bytes(arguments@)[start as int] == arguments@[start as int]@);
        }
    }
    if arguments.len() - start == 1 && is_help(&arguments[start]) {
        return Ok(ParseOutcome::Help(HelpTopic::Command(command)));
    }
    match command {
        CommandName::Discover => match parse_discovery_arguments(arguments, start) {
            Ok((roots, format, diagnostics)) => run(
                CliCommand::Discover { roots, format, diagnostics },
            ),
            Err(error) => Err(error),
        },
        CommandName::Refresh => match parse_format_option(command, arguments, start) {
            Ok(format) => run(CliCommand::Refresh { format }),
            Err(error) => Err(error),
        },
        CommandName::Config => match parse_configuration_arguments(arguments, start) {
            Ok(parsed) => run(parsed),
            Err(error) => Err(error),
        },
        CommandName::Reset => if arguments.len() - start == 0 {
            run(CliCommand::Reset)
        } else {
            Err(ParseError::command(command, ParseErrorKind::CommandTakesNoArguments(command)))
        },
        CommandName::Repositories => match parse_repository_options(arguments, start) {
            Ok((page, format)) => run(CliCommand::Repositories { page, format }),
            Err(error) => Err(error),
        },
        CommandName::Inspect => match parse_inspect_arguments(arguments, start) {
            Ok((selector, format)) => run(CliCommand::Inspect { selector, format }),
            Err(error) => Err(error),
        },
        CommandName::Overview => match parse_format_option(command, arguments, start) {
            Ok(format) => run(CliCommand::Overview { format }),
            Err(error) => Err(error),
        },
    }
}

/// The help command: at most one topic, which must name a command.
pub open spec fn help_result(args: Seq<Seq<u8>>, start: int) -> Result<
    Parsed,
    (Rejection, HelpTopic),
> {
    let count = args.len() - start;
    if count <= 0 {
        Ok(Parsed::Help(HelpTopic::Root))
    } else if count == 1 {
        match argument_text(args[start]) {
            None => Err(at_root(Rejection::InvalidUtf8("help topic"@))),
            Some(topic) => match command_named(topic) {
                Some(command) => Ok(Parsed::Help(HelpTopic::Command(command))),
                None => Err(at_root(Rejection::UnknownHelpTopic(topic))),
            },
        }
    } else {
        Err(at_root(Rejection::TooManyHelpTopics))
    }
}

fn parse_help(arguments: &[Vec<u8>], start: usize) -> (r: Result<ParseOutcome, ParseError>)
    requires
        start <= arguments@.len(),
    ensures
        outcome_matches(r, help_result(argument_bytes(arguments@), start as int)),
{
    let count = arguments.len() - start;
    proof {
        assert(argument_bytes(arguments@).len() == arguments@.len());
        if count > 0 {
            assert(argument_bytes(arguments@)[start as int] == arguments@[start as int]@);
        }
    }
    if count == 0 {
        Ok(ParseOutcome::Help(HelpTopic::Root))
    } else if count == 1 {
        match argument_str(&arguments[start]) {
            None => Err(ParseError::root(ParseErrorKind::InvalidUtf8("help topic".to_owned()))),
            Some(topic) => match CommandName::parse(topic) {
                Some(command) => Ok(ParseOutcome::Help(HelpTopic::Command(command))),
                None => Err(ParseError::root(ParseErrorKind::UnknownHelpTopic(topic.to_owned()))),
            },
        }
    } else {
        Err(ParseError::root(ParseErrorKind::TooManyHelpTopics))
    }
}

/// What a command line asks for: help or the version when it is only that
/// flag, the help command, or one command with its arguments.
pub open spec fn spec_parse(args: Seq<Seq<u8>>) -> Result<Parsed, (Rejection, HelpTopic)> {
    if args.len() == 0 {
        Ok(Parsed::Help(HelpTopic::Root))
    } else if is_help_flag(args[0]) {
        if args.len() > 1 {
            Err(at_root(Rejection::UnexpectedGlobalArgument))
        } else {
            Ok(Parsed::Help(HelpTopic::Root))
        }
    } else if is_version_flag(args[0]) {
        if args.len() > 1 {
            Err(at_root(Rejection::UnexpectedGlobalArgument))
        } else {
            Ok(Parsed::Version)
        }
    } else {
        match argument_text(args[0]) {
            None => Err(at_root(Rejection::InvalidUtf8("command"@))),
            Some(word) => if word == "help"@ {
                help_result(args, 1)
            } else if has_prefix(word, "-"@) {
                Err(at_root(Rejection::UnknownOption(None, word)))
            } else {
                match command_named(word) {
                    Some(command) => command_result(command, args, 1),
                    None => Err(at_root(Rejection::UnknownCommand(word))),
                }
            },
        }
    }
}

/// Reads a command line, its arguments given by their bytes.
pub fn parse(arguments: &[Vec<u8>]) -> (r: Result<ParseOutcome, ParseError>)
    ensures
        outcome_matches(r, spec_parse(argument_bytes(arguments@))),
{
    proof {
        assert(argument_bytes(arguments@).len() == arguments@.len());
    }
    if arguments.len() == 0 {
        return Ok(ParseOutcome::Help(HelpTopic::Root));
    }
    proof {
        assert(argument_bytes(arguments@)[0] == arguments@[0]@);
    }
    let first = &arguments[0];
    if is_help(first) {
        return if arguments.len() > 1 {
            Err(ParseError::root(ParseErrorKind::UnexpectedGlobalArgument))
        } else {
            Ok(ParseOutcome::Help(HelpTopic::Root))
        };
    }
    if is_version(first) {
        return if arguments.len() > 1 {
            Err(ParseError::root(ParseErrorKind::UnexpectedGlobalArgument))
        } else {
            Ok(ParseOutcome::Version)
        };
    }
    let word = match argument_str(first) {
        Some(word) => word,
        None => {
            return Err(ParseError::root(ParseErrorKind::InvalidUtf8("command".to_owned())));
        },
    };
    if text_equal(word, "help") {
        return parse_help(arguments, 1);
    }
    if text_starts_with(word, "-") {
        return Err(
            ParseError::root(ParseErrorKind::UnknownOption { command: None, option: word.to_owned() }),
        );
    }
    match CommandName::parse(word) {
        Some(command) => parse_command(command, arguments, 1),
        None => Err(ParseError::root(ParseErrorKind::UnknownCommand(word.to_owned()))),
    }
}


proof fn lemma_discover_scan_human_when_verbose(
    args: Seq<Seq<u8>>,
    index: int,
    roots: Seq<Seq<u8>>,
    format: OutputFormat,
    seen_format: bool,
    verbose: bool,
    options: bool,
)
    ensures
        discover_scan(args, index, roots, format, seen_format, verbose, options) matches Ok(
            (_, f, d),
        ) ==> !(d == DiagnosticDetail::Verbose && f == OutputFormat::Json),
    decreases args.len() - index,
{
    let command = CommandName::Discover;
    if index < 0 || index >= args.len() {
    } else {
        let argument = args[index];
        if options && is_word(argument, "--"@) {
            lemma_discover_scan_human_when_verbose(
                args,
                index + 1,
                roots,
                format,
                seen_format,
                verbose,
                false,
            );
        } else if options && is_word(argument, "--format"@) {
            if !seen_format && index + 1 < args.len() {
                if let Ok(chosen) = format_argument_result(args[index + 1], command) {
                    lemma_discover_scan_human_when_verbose(
                        args,
                        index + 2,
                        roots,
                        chosen,
                        true,
                        verbose,
                        options,
                    );
                }
            }
        } else if options && starts_with_word(argument, "--format="@) {
            if !seen_format {
                if let Ok(chosen) = format_text_result(
                    argument_text(argument)->0.skip("--format="@.len() as int),
                    command,
                ) {
                    lemma_discover_scan_human_when_verbose(
                        args,
                        index + 1,
                        roots,
                        chosen,
                        true,
                        verbose,
                        options,
                    );
                }
            }
        } else if options && is_word(argument, "--verbose"@) {
            if !verbose {
                lemma_discover_scan_human_when_verbose(
                    args,
                    index + 1,
                    roots,
                    format,
                    seen_format,
                    true,
                    options,
                );
            }
        } else if options && starts_with_word(argument, "-"@) {
        } else if argument.len() == 0 {
        } else {
            lemma_discover_scan_human_when_verbose(
                args,
                index + 1,
                roots.push(argument),
                format,
                seen_format,
                verbose,
                options,
            );
        }
    }
}

/// A discovery that the command line accepts never asks for verbose
/// diagnostics in JSON output.
pub proof fn law_verbose_discovery_is_human(args: Seq<Seq<u8>>)
    ensures
        spec_parse(args) matches Ok(Parsed::Run(ParsedCommand::Discover(_, format, detail)))
            ==> !(detail == DiagnosticDetail::Verbose && format == OutputFormat::Json),
{
    lemma_discover_scan_human_when_verbose(
        args,
        1,
        Seq::empty(),
        OutputFormat::Human,
        false,
        false,
        true,
    );
}

proof fn lemma_repository_scan_pages_are_bounded(
    args: Seq<Seq<u8>>,
    index: int,
    offset: usize,
    limit: usize,
    format: OutputFormat,
    seen_offset: bool,
    seen_limit: bool,
    seen_format: bool,
)
    ensures
        repository_scan(args, index, offset, limit, format, seen_offset, seen_limit, seen_format) matches Ok(
            (_, chosen, _),
        ) ==> 0 < chosen <= MAX_QUERY_PAGE_SIZE,
    decreases args.len() - index,
{
    let command = CommandName::Repositories;
    if index < 0 || index >= args.len() {
    } else {
        match argument_text(args[index]) {
            None => {},
            Some(text) => {
                if text == "--offset"@ {
                    if !seen_offset && index + 1 < args.len() {
                        if let Ok(value) = count_argument_result(args[index + 1], command, "--offset"@) {
                            lemma_repository_scan_pages_are_bounded(args, index + 2, value, limit, format, true, seen_limit, seen_format);
                        }
                    }
                } else if text == "--limit"@ {
                    if !seen_limit && index + 1 < args.len() {
                        if let Ok(value) = count_argument_result(args[index + 1], command, "--limit"@) {
                            lemma_repository_scan_pages_are_bounded(args, index + 2, offset, value, format, seen_offset, true, seen_format);
                        }
                    }
                } else if text == "--format"@ {
                    if !seen_format && index + 1 < args.len() {
                        if let Ok(chosen) = format_argument_result(args[index + 1], command) {
                            lemma_repository_scan_pages_are_bounded(args, index + 2, offset, limit, chosen, seen_offset, seen_limit, true);
                        }
                    }
                } else if has_prefix(text, "--offset="@) {
                    if !seen_offset {
                        if let Ok(value) = count_text_result(text.skip("--offset="@.len() as int), command, "--offset"@) {
                            lemma_repository_scan_pages_are_bounded(args, index + 1, value, limit, format, true, seen_limit, seen_format);
                        }
                    }
                } else if has_prefix(text, "--limit="@) {
                    if !seen_limit {
                        if let Ok(value) = count_text_result(text.skip("--limit="@.len() as int), command, "--limit"@) {
                            lemma_repository_scan_pages_are_bounded(args, index + 1, offset, value, format, seen_offset, true, seen_format);
                        }
                    }
                } else if has_prefix(text, "--format="@) {
                    if !seen_format {
                        if let Ok(chosen) = format_text_result(text.skip("--format="@.len() as int), command) {
                            lemma_repository_scan_pages_are_bounded(args, index + 1, offset, limit, chosen, seen_offset, seen_limit, true);
                        }
                    }
                }
            },
        }
    }
}

/// A repository listing that the command line accepts asks for a page of
/// at least one and at most the maximum page size.
pub proof fn law_repository_pages_are_bounded(args: Seq<Seq<u8>>)
    ensures
        spec_parse(args) matches Ok(Parsed::Run(ParsedCommand::Repositories(_, limit, _))) ==> 0
            < limit <= MAX_QUERY_PAGE_SIZE,
{
    lemma_repository_scan_pages_are_bounded(
        args,
        1,
        0,
        DEFAULT_QUERY_PAGE_SIZE,
        OutputFormat::Human,
        false,
        false,
        false,
    );
}

/// A command word followed by nothing but a help flag asks for the help of
/// that command.
pub proof fn law_command_help_is_help(args: Seq<Seq<u8>>, command: CommandName)
    requires
        args.len() == 2,
        is_word(args[0], command_word(command)),
        is_help_flag(args[1]),
    ensures
        spec_parse(args) == Ok::<Parsed, (Rejection, HelpTopic)>(
            Parsed::Help(HelpTopic::Command(command)),
        ),
{
    reveal_strlit("discover");
    reveal_strlit("refresh");
    reveal_strlit("config");
    reveal_strlit("reset");
    reveal_strlit("repos");
    reveal_strlit("inspect");
    reveal_strlit("overview");
    reveal_strlit("help");
    reveal_strlit("-h");
    reveal_strlit("--help");
    reveal_strlit("-V");
    reveal_strlit("--version");
    reveal_strlit("-");
    let word = command_word(command);
    assert(word[0] != '-');
    assert(!has_prefix(word, "-"@)) by {
        if has_prefix(word, "-"@) {
            assert(word.subrange(0, 1)[0] == word[0]);
        }
    }
    assert(word != "-h"@ && word != "--help"@ && word != "-V"@ && word != "--version"@) by {
        assert("-h"@[0] == '-');
        assert("--help"@[0] == '-');
        assert("-V"@[0] == '-');
        assert("--version"@[0] == '-');
    }
    assert(word != "help"@) by {
        assert("help"@.len() == 4);
        if word.len() == 4 {
            assert(word[0] != 'h' || word[1] != 'e' || word[2] != 'l' || word[3] != 'p');
        }
    }
    lemma_command_word_names_command(command);
}

/// Each command's word names that command again.
proof fn lemma_command_word_names_command(command: CommandName)
    ensures
        command_named(command_word(command)) == Some(command),
{
    reveal_strlit("discover");
    reveal_strlit("refresh");
    reveal_strlit("config");
    reveal_strlit("reset");
    reveal_strlit("repos");
    reveal_strlit("inspect");
    reveal_strlit("overview");
    match command {
        CommandName::Discover => {},
        CommandName::Refresh => {
            assert("refresh"@.len() != "discover"@.len());
        },
        CommandName::Config => {
            assert("config"@.len() != "discover"@.len());
            assert("config"@.len() != "refresh"@.len());
        },
        CommandName::Reset => {
            assert("reset"@.len() != "discover"@.len());
            assert("reset"@.len() != "refresh"@.len());
            assert("reset"@.len() != "config"@.len());
        },
        CommandName::Repositories => {
            assert("repos"@.len() != "discover"@.len());
            assert("repos"@.len() != "refresh"@.len());
            assert("repos"@.len() != "config"@.len());
            assert("repos"@[2] != "reset"@[2]);
        },
        CommandName::Inspect => {
            assert("inspect"@.len() != "discover"@.len());
            assert("inspect"@[0] != "refresh"@[0]);
            assert("inspect"@.len() != "config"@.len());
            assert("inspect"@.len() != "reset"@.len());
            assert("inspect"@.len() != "repos"@.len());
        },
        CommandName::Overview => {
            assert("overview"@[0] != "discover"@[0]);
            assert("overview"@.len() != "refresh"@.len());
            assert("overview"@.len() != "config"@.len());
            assert("overview"@.len() != "reset"@.len());
            assert("overview"@.len() != "repos"@.len());
            assert("overview"@.len() != "inspect"@.len());
        },
    }
}

} // verus!
