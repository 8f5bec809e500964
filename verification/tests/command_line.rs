use bulls::cli::{
    parse, parse_decimal_usize, CliCommand, CliRequest, CommandName, DiagnosticDetail, HelpTopic, OutputFormat,
    ParseError, ParseErrorKind, ParseOutcome,
};
use bulls::{FsPath, QueryPage, DEFAULT_QUERY_PAGE_SIZE};

fn run(arguments: &[&str]) -> Result<ParseOutcome, ParseError> {
    let arguments: Vec<Vec<u8>> = arguments.iter().map(|argument| argument.as_bytes().to_vec()).collect();
    parse(&arguments)
}

#[test]
fn empty_arguments_show_root_help() {
    assert_eq!(run(&[]).unwrap(), ParseOutcome::Help(HelpTopic::Root));
}

#[test]
fn global_help_and_version_are_terminal_actions() {
    assert_eq!(run(&["--help"]).unwrap(), ParseOutcome::Help(HelpTopic::Root));
    assert_eq!(run(&["-V"]).unwrap(), ParseOutcome::Version);
    assert!(run(&["--version", "overview"]).is_err());
}

#[test]
fn help_command_resolves_known_topics() {
    assert_eq!(
        run(&["help", "refresh"]).unwrap(),
        ParseOutcome::Help(HelpTopic::Command(CommandName::Refresh))
    );
    assert!(run(&["help", "unknown"]).is_err());
}

#[test]
fn command_help_does_not_build_a_runtime_request() {
    assert_eq!(
        run(&["overview", "--help"]).unwrap(),
        ParseOutcome::Help(HelpTopic::Command(CommandName::Overview))
    );
}

#[test]
fn format_only_commands_reject_positional_arguments() {
    for command in ["refresh", "overview"] {
        assert!(run(&[command, "unexpected"]).is_err());
    }
}

#[test]
fn reset_is_an_explicit_no_argument_command() {
    assert_eq!(run(&["reset"]).unwrap(), ParseOutcome::Run(CliRequest::new(CliCommand::Reset)));
    assert_eq!(run(&["reset", "--help"]).unwrap(), ParseOutcome::Help(HelpTopic::Command(CommandName::Reset)));
    assert!(matches!(
        run(&["reset", "--format=json"]).unwrap_err().kind(),
        ParseErrorKind::CommandTakesNoArguments(CommandName::Reset)
    ));
}

#[test]
fn configuration_inspection_requires_explicit_show_action() {
    assert_eq!(run(&["config", "show"]).unwrap(), ParseOutcome::Run(CliRequest::new(CliCommand::ConfigShow)));
    assert_eq!(run(&["config", "--help"]).unwrap(), ParseOutcome::Help(HelpTopic::Command(CommandName::Config)));
    assert!(matches!(run(&["config"]).unwrap_err().kind(), ParseErrorKind::ConfigurationActionCount));
    assert!(matches!(
        run(&["config", "set"]).unwrap_err().kind(),
        ParseErrorKind::InvalidConfigurationAction(action) if action == "set"
    ));
    assert!(run(&["config", "show", "extra"]).is_err());
}

#[test]
fn inspect_requires_exactly_one_repository_selector() {
    assert!(run(&["inspect"]).is_err());
    assert!(run(&["inspect", "repo-1", "repo-2"]).is_err());
    assert!(run(&["inspect", "--unknown"]).is_err());

    let parsed = run(&["inspect", "repo-1"]).unwrap();
    assert_eq!(
        parsed,
        ParseOutcome::Run(CliRequest::new(CliCommand::Inspect {
            selector: b"repo-1".to_vec(),
            format: OutputFormat::Human,
        }))
    );
}

#[test]
fn all_public_commands_have_typed_requests() {
    let cases = [
        ("refresh", CliCommand::Refresh { format: OutputFormat::Human }),
        (
            "repos",
            CliCommand::Repositories {
                page: QueryPage::new(0, DEFAULT_QUERY_PAGE_SIZE).expect("default page must be valid"),
                format: OutputFormat::Human,
            },
        ),
        ("overview", CliCommand::Overview { format: OutputFormat::Human }),
    ];

    for (argument, expected) in cases {
        let ParseOutcome::Run(request) = run(&[argument]).unwrap() else {
            panic!("command must produce a runtime request");
        };
        assert_eq!(request.into_command(), expected);
    }
}

#[test]
fn repositories_accept_explicit_pagination_without_duplicating_query_limits() {
    let parsed = run(&["repos", "--offset", "25", "--limit=50"]).unwrap();
    assert_eq!(
        parsed,
        ParseOutcome::Run(CliRequest::new(CliCommand::Repositories {
            page: QueryPage::new(25, 50).expect("page must be valid"),
            format: OutputFormat::Human,
        }))
    );

    assert!(run(&["repos", "--limit", "0"]).is_err());
    assert!(run(&["repos", "--limit", "257"]).is_err());
    assert!(run(&["repos", "--offset", "not-a-number"]).is_err());
    assert!(run(&["repos", "--limit", "5", "--limit", "6"]).is_err());
    assert!(run(&["repos", "unexpected"]).is_err());
}

#[test]
fn commands_with_structured_output_accept_json_without_changing_the_human_default() {
    let repos = run(&["repos", "--format=json"]).unwrap();
    assert_eq!(
        repos,
        ParseOutcome::Run(CliRequest::new(CliCommand::Repositories {
            page: QueryPage::new(0, DEFAULT_QUERY_PAGE_SIZE).expect("default page must be valid"),
            format: OutputFormat::Json,
        }))
    );

    let inspect = run(&["inspect", "repo-1", "--format", "json"]).unwrap();
    assert_eq!(
        inspect,
        ParseOutcome::Run(CliRequest::new(CliCommand::Inspect {
            selector: b"repo-1".to_vec(),
            format: OutputFormat::Json,
        }))
    );

    let overview = run(&["overview", "--format", "json"]).unwrap();
    assert_eq!(overview, ParseOutcome::Run(CliRequest::new(CliCommand::Overview { format: OutputFormat::Json })));

    let refresh = run(&["refresh", "--format", "json"]).unwrap();
    assert_eq!(refresh, ParseOutcome::Run(CliRequest::new(CliCommand::Refresh { format: OutputFormat::Json })));

    let discover = run(&["discover", "--format=json", "--verbose"]).unwrap_err();
    assert_eq!(discover.kind(), &ParseErrorKind::VerboseRequiresHumanOutput);

    assert!(run(&["overview", "--format", "yaml"]).is_err());
    assert!(run(&["repos", "--format=json", "--format", "human"]).is_err());
}

#[test]
fn discover_parses_format_and_verbose_without_converting_roots_to_strings() {
    let parsed = run(&["discover", "--verbose", "/workspace", "--format", "human"]).unwrap();
    assert_eq!(
        parsed,
        ParseOutcome::Run(CliRequest::new(CliCommand::Discover {
            roots: vec![FsPath::new("/workspace")],
            format: OutputFormat::Human,
            diagnostics: DiagnosticDetail::Verbose,
        }))
    );

    assert!(run(&["discover", "--verbose", "--verbose"]).is_err());
    assert!(run(&["discover", "--format=json", "--format", "human"]).is_err());
}

#[test]
fn discover_accepts_transient_roots_without_requiring_utf8_conversion() {
    let parsed = run(&["discover", "/workspace/one", "/workspace/two"]).unwrap();
    assert_eq!(
        parsed,
        ParseOutcome::Run(CliRequest::new(CliCommand::Discover {
            roots: vec![FsPath::new("/workspace/one"), FsPath::new("/workspace/two")],
            format: OutputFormat::Human,
            diagnostics: DiagnosticDetail::Summary,
        }))
    );
}

#[test]
fn discover_rejects_unknown_options_but_supports_the_option_terminator() {
    assert!(run(&["discover", "--unknown"]).is_err());

    let parsed = run(&["discover", "--", "-repository"]).unwrap();
    assert_eq!(
        parsed,
        ParseOutcome::Run(CliRequest::new(CliCommand::Discover {
            roots: vec![FsPath::new("-repository")],
            format: OutputFormat::Human,
            diagnostics: DiagnosticDetail::Summary,
        }))
    );
}

#[test]
fn discover_preserves_non_utf8_root_arguments() {
    let root = vec![b'/', b't', b'm', b'p', b'/', 0xff];
    let parsed = parse(&[b"discover".to_vec(), root.clone()]).unwrap();
    assert_eq!(
        parsed,
        ParseOutcome::Run(CliRequest::new(CliCommand::Discover {
            roots: vec![FsPath::from_bytes(root)],
            format: OutputFormat::Human,
            diagnostics: DiagnosticDetail::Summary,
        }))
    );
}

#[test]
fn inspect_preserves_non_utf8_path_selectors() {
    let selector = vec![b'/', b't', b'm', b'p', b'/', 0xff];
    let parsed = parse(&[b"inspect".to_vec(), selector.clone()]).unwrap();
    assert_eq!(
        parsed,
        ParseOutcome::Run(CliRequest::new(CliCommand::Inspect { selector, format: OutputFormat::Human }))
    );
}

#[test]
fn inspect_option_terminator_allows_path_selectors_starting_with_dash() {
    let parsed = run(&["inspect", "--", "-repository"]).unwrap();
    assert_eq!(
        parsed,
        ParseOutcome::Run(CliRequest::new(CliCommand::Inspect {
            selector: b"-repository".to_vec(),
            format: OutputFormat::Human,
        }))
    );
}

#[test]
fn unknown_root_syntax_is_rejected_before_runtime_startup() {
    assert!(run(&["unknown"]).is_err());
    assert!(run(&["--unknown"]).is_err());
}

#[test]
fn only_long_running_runtime_commands_install_cancellation() {
    let request = |argument: &str| match run(&[argument]).unwrap() {
        ParseOutcome::Run(request) => request,
        other => panic!("expected a runtime request, got {other:?}"),
    };

    assert!(request("discover").supports_cancellation());
    assert!(request("refresh").supports_cancellation());
    assert!(!request("repos").supports_cancellation());
    assert!(!request("overview").supports_cancellation());
}

#[test]
fn refusals_carry_the_help_of_the_command_and_typed_context() {
    let unknown = run(&["frobnicate"]).unwrap_err();
    assert_eq!(unknown.help_topic(), HelpTopic::Root);
    assert_eq!(unknown.kind(), &ParseErrorKind::UnknownCommand("frobnicate".to_owned()));

    let missing = run(&["repos", "--limit"]).unwrap_err();
    assert_eq!(missing.help_topic(), HelpTopic::Command(CommandName::Repositories));
    assert_eq!(missing.kind(), &ParseErrorKind::MissingOptionValue("--limit"));

    let integer = run(&["repos", "--offset=-1"]).unwrap_err();
    assert_eq!(integer.kind(), &ParseErrorKind::InvalidInteger("--offset".to_owned()));

    let limit = run(&["repos", "--limit", "+300"]).unwrap_err();
    assert_eq!(limit.kind(), &ParseErrorKind::LimitOutOfRange(256));

    let trailing = run(&["-h", "extra"]).unwrap_err();
    assert_eq!(trailing.kind(), &ParseErrorKind::UnexpectedGlobalArgument);

    let option = run(&["--verbose"]).unwrap_err();
    assert_eq!(option.kind(), &ParseErrorKind::UnknownOption { command: None, option: "--verbose".to_owned() });

    let topics = run(&["help", "repos", "inspect"]).unwrap_err();
    assert_eq!(topics.kind(), &ParseErrorKind::TooManyHelpTopics);

    let empty = parse(&[b"discover".to_vec(), Vec::new()]).unwrap_err();
    assert_eq!(empty.kind(), &ParseErrorKind::EmptyDiscoveryRoot);

    let invalid = parse(&[vec![0xff]]).unwrap_err();
    assert_eq!(invalid.kind(), &ParseErrorKind::InvalidUtf8("command".to_owned()));
}

#[test]
fn decimal_counts_follow_unsigned_integer_syntax() {
    assert_eq!(parse_decimal_usize("25"), Some(25));
    assert_eq!(parse_decimal_usize("+7"), Some(7));
    assert_eq!(parse_decimal_usize("007"), Some(7));
    assert_eq!(parse_decimal_usize("+"), None);
    assert_eq!(parse_decimal_usize(""), None);
    assert_eq!(parse_decimal_usize("-0"), None);
    assert_eq!(parse_decimal_usize("1_000"), None);
    assert_eq!(parse_decimal_usize("18446744073709551615"), Some(usize::MAX));
    assert_eq!(parse_decimal_usize("18446744073709551616"), None);
}
