//! The command line.

use vstd::prelude::*;

verus! {

/// A subcommand.
#[derive(Debug, Clone, Copy, PartialEq, Eq, Structural)]
pub enum Commands {
    /// Serve the API relay.
    Serve,
    /// Export configuration.
    ExportConfig,
    /// Run database migrations.
    Migrate,
}

impl Commands {
    /// The name of a subcommand on the command line.
    pub open spec fn name(self) -> Seq<char> {
        match self {
            Commands::Serve => "serve"@,
            Commands::ExportConfig => "export-config"@,
            Commands::Migrate => "migrate"@,
        }
    }
}

/// What the command line asks for.
#[derive(Debug)]
pub struct Args {
    /// Path to the configuration file.
    pub config: String,
    pub command: Option<Commands>,
}

/// Why a command line is not run.
#[derive(Debug, Clone, Copy, PartialEq, Eq, Structural)]
pub enum CliErrorKind {
    /// Help was asked for.
    DisplayHelp,
    /// It was not understood.
    Usage,
}

/// A command line that is not run.
#[derive(Debug)]
pub struct CliError {
    pub kind: CliErrorKind,
    /// What the user is shown.
    pub text: String,
}

/// The names of all subcommands.
pub open spec fn command_names() -> Seq<Seq<char>> {
    seq![Commands::Serve.name(), Commands::ExportConfig.name(), Commands::Migrate.name()]
}

/// The value of the option and the subcommand that clap finds in the words of a
/// command line, given the option with its value by default and the names of the
/// subcommands; where it reports an error, whether that belongs on the error
/// stream.
pub uninterp spec fn found_on_command_line(
    option: Seq<char>,
    default: Seq<char>,
    commands: Seq<Seq<char>>,
    words: Seq<Seq<char>>,
) -> Result<(Seq<char>, Option<Seq<char>>), bool>;

/// The names of subcommands that come with their help.
pub open spec fn names_of(commands: Seq<(Seq<char>, Seq<char>)>) -> Seq<Seq<char>> {
    commands.map_values(|command: (Seq<char>, Seq<char>)| command.0)
}

/// What was found, as it is in contracts.
pub open spec fn found_view(r: Result<(String, Option<String>), (bool, String)>) -> Result<
    (Seq<char>, Option<Seq<char>>),
    bool,
> {
    match r {
        Ok(found) => Ok((found.0@, found.1.deep_view())),
        Err(error) => Err(error.0),
    }
}

/// Whether an error is reported that does not belong on the error stream.
pub open spec fn is_no_mistake(found: Result<(Seq<char>, Option<Seq<char>>), bool>) -> bool {
    found matches Err(is_mistake) && !is_mistake
}

/// Whether the words ask for help and for nothing else.
pub open spec fn asks_for_help(words: Seq<Seq<char>>) -> bool {
    words.len() == 2 && words[1] == "--help"@
}

/// Whether a subcommand, if there is one, is among those that were offered.
pub open spec fn is_offered(
    found: Result<(Seq<char>, Option<Seq<char>>), bool>,
    commands: Seq<Seq<char>>,
) -> bool {
    found matches Ok(found) ==> (found.1 matches Some(name) ==> commands.contains(name))
}

/// `clap::Command::try_get_matches_from` on a command with one option, `config`,
/// and subcommands without arguments. The first word is the program's name. What
/// is found has a name, and so has whether an error belongs on the error stream.
/// Nothing more is stated of them, except that clap reports an error where a
/// subcommand was not offered, and that the flag for help leads to one that does
/// not belong on the error stream. What an error says is not stated.
#[verifier::external_body]
fn read_words(
    program: (String, String),
    option: (String, char, String),
    default: String,
    commands: Vec<(String, String)>,
    words: Vec<String>,
) -> (r: Result<(String, Option<String>), (bool, String)>)
    requires
        option.0@ == "config"@ && option.1 == 'c',
        names_of(commands.deep_view()) == command_names(),
    ensures
        found_view(r) == found_on_command_line(
            option.0@,
            default@,
            names_of(commands.deep_view()),
            words.deep_view(),
        ),
        is_offered(found_view(r), names_of(commands.deep_view())),
        asks_for_help(words.deep_view()) ==> is_no_mistake(found_view(r)),
{
    let (name, short, help) = option;
    let option = clap::Arg::new(name.clone()).short(short).long(name.clone()).help(help);
    let command = clap::Command::new(program.0)
        .about(program.1)
        .arg(option.default_value(default))
        .subcommands(commands.into_iter().map(|c| clap::Command::new(c.0).about(c.1)));
    match command.try_get_matches_from(words) {
        Ok(found) => {
            let value = found.get_one::<String>(&name).cloned().unwrap_or_default();
            Ok((value, found.subcommand_name().map(str::to_owned)))
        },
        Err(error) => Err((error.use_stderr(), error.to_string())),
    }
}

/// The subcommand of a name.
pub open spec fn command_named(name: Seq<char>) -> Option<Commands> {
    if name == Commands::Serve.name() {
        Some(Commands::Serve)
    } else if name == Commands::ExportConfig.name() {
        Some(Commands::ExportConfig)
    } else if name == Commands::Migrate.name() {
        Some(Commands::Migrate)
    } else {
        None
    }
}

/// The subcommand of a name.
pub fn parse_command(name: &str) -> (r: Option<Commands>)
    ensures
        r == command_named(name@),
{
    if crate::text::same(name, "serve") {
        Some(Commands::Serve)
    } else if crate::text::same(name, "export-config") {
        Some(Commands::ExportConfig)
    } else if crate::text::same(name, "migrate") {
        Some(Commands::Migrate)
    } else {
        None
    }
}

/// What is asked for, given the words that were found.
pub fn args_of(config: String, subcommand: Option<String>) -> (r: Args)
    ensures
        r.config@ == config@,
        r.command == (match subcommand.deep_view() {
            Some(name) => command_named(name),
            None => None,
        }),
{
    let command = match subcommand {
        Some(name) => parse_command(name.as_str()),
        None => None,
    };
    Args { config, command }
}

/// Why a command line is not run: it is a mistake only where it is reported on the
/// error stream.
pub open spec fn kind_of(is_mistake: bool) -> CliErrorKind {
    if is_mistake {
        CliErrorKind::Usage
    } else {
        CliErrorKind::DisplayHelp
    }
}

/// Why a command line is not run.
pub fn error_kind(is_mistake: bool) -> (r: CliErrorKind)
    ensures
        r == kind_of(is_mistake),
{
    if is_mistake {
        CliErrorKind::Usage
    } else {
        CliErrorKind::DisplayHelp
    }
}

/// What the words of a command line ask for. The first is the program's name.
pub fn try_parse_from(words: Vec<String>) -> (r: Result<Args, CliError>)
    ensures
        match found_on_command_line(
            "config"@,
            "modelwire.toml"@,
            command_names(),
            words.deep_view(),
        ) {
            Ok((config, subcommand)) => r matches Ok(args) && args.config@ == config && (
            match subcommand {
                Some(name) => args.command is Some && args.command == command_named(name),
                None => args.command is None,
            }),
            Err(is_mistake) => r matches Err(error) && error.kind == kind_of(is_mistake),
        },
        asks_for_help(words.deep_view()) ==> (r matches Err(error) && error.kind
            == CliErrorKind::DisplayHelp),
{
    let mut commands: Vec<(String, String)> = Vec::new();
    commands.push(("serve".to_owned(), "Serve the API relay".to_owned()));
    commands.push(("export-config".to_owned(), "Export configuration".to_owned()));
    commands.push(("migrate".to_owned(), "Run database migrations".to_owned()));
    assert(names_of(commands.deep_view()) =~= command_names());
    let ghost names = command_names();
    assert(names[0] == "serve"@ && names[1] == "export-config"@ && names[2] == "migrate"@);
    match read_words(
        ("modelwire".to_owned(), "A Codex-first Responses API relay".to_owned()),
        ("config".to_owned(), 'c', "Path to configuration file".to_owned()),
        "modelwire.toml".to_owned(),
        commands,
        words,
    ) {
        Ok((config, subcommand)) => Ok(args_of(config, subcommand)),
        Err((is_mistake, text)) => Err(CliError { kind: error_kind(is_mistake), text }),
    }
}

/// What is done: the relay is served where nothing else is asked for.
pub fn command_of(args: &Args) -> (r: Commands)
    ensures
        r == (match args.command {
            Some(command) => command,
            None => Commands::Serve,
        }),
{
    match args.command {
        Some(command) => command,
        None => Commands::Serve,
    }
}

/// A subcommand is known by its own name and by no other; the three that are offered
/// are all there are.
pub proof fn subcommand_is_known_by_its_name(command: Commands, name: Seq<char>)
    ensures
        command_named(command.name()) == Some(command),
        command_named(name) matches Some(found) ==> found.name() == name,
        command_named(name) is Some <==> command_names().contains(name),
        Commands::Serve.name() == "serve"@,
        Commands::ExportConfig.name() == "export-config"@,
        Commands::Migrate.name() == "migrate"@,
        command_names().len() == 3,
{
    reveal_strlit("serve");
    reveal_strlit("export-config");
    reveal_strlit("migrate");
    assert("serve"@.len() == 5 && "export-config"@.len() == 13 && "migrate"@.len() == 7);
    let names = command_names();
    assert(names[0] == "serve"@ && names[1] == "export-config"@ && names[2] == "migrate"@);
    if names.contains(name) {
        let i = choose|i: int| 0 <= i < names.len() && names[i] == name;
        assert(i == 0 || i == 1 || i == 2);
    }
}

/// A command line that is no mistake asks for help, and any other is reported as one.
pub proof fn help_is_no_mistake(is_mistake: bool)
    ensures
        kind_of(is_mistake) is Usage <==> is_mistake,
        kind_of(is_mistake) is DisplayHelp <==> !is_mistake,
        is_no_mistake(Err(is_mistake)) <==> !is_mistake,
{
}

} // verus!
