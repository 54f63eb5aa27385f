//! The command line of the display relay, and what it lists.

use crate::display::{
    describes_displays, display_views, enumerate_displays, enumerated, DisplayError,
    DisplayErrorView, DisplayHost, DisplayInfo, DisplayInfoView,
};
use crate::host::outcome;
use crate::session::{default_config, RelayConfig, RelayConfigView};
use crate::text::{
    decimal, decimal_int, parse_u32, parsed_u32, push_decimal, push_decimal_int, same_text, texts,
    NumberError,
};
use vstd::prelude::*;

verus! {

/// What the display relay is asked to do.
#[derive(Debug, Clone)]
pub enum Command {
    /// List the displays.
    List,
    /// Mirror a display.
    Mirror(RelayConfig),
}

/// The model of a [`Command`].
pub enum CommandView {
    List,
    Mirror(RelayConfigView),
}

impl View for Command {
    type V = CommandView;

    open spec fn view(&self) -> CommandView {
        match self {
            Command::List => CommandView::List,
            Command::Mirror(config) => CommandView::Mirror(config@),
        }
    }
}

/// Why the command line asks for nothing.
#[derive(Debug, Clone)]
pub enum CommandError {
    MissingCommand,
    MissingDisplayName,
    MissingTimeout,
    InvalidTimeout(NumberError),
    UnknownArgument(String),
    UnknownCommand(String),
}

/// The model of a [`CommandError`].
pub enum CommandErrorView {
    MissingCommand,
    MissingDisplayName,
    MissingTimeout,
    InvalidTimeout(NumberError),
    UnknownArgument(Seq<char>),
    UnknownCommand(Seq<char>),
}

impl View for CommandError {
    type V = CommandErrorView;

    open spec fn view(&self) -> CommandErrorView {
        match self {
            CommandError::MissingCommand => CommandErrorView::MissingCommand,
            CommandError::MissingDisplayName => CommandErrorView::MissingDisplayName,
            CommandError::MissingTimeout => CommandErrorView::MissingTimeout,
            CommandError::InvalidTimeout(error) => CommandErrorView::InvalidTimeout(*error),
            CommandError::UnknownArgument(argument) => CommandErrorView::UnknownArgument(
                argument@,
            ),
            CommandError::UnknownCommand(command) => CommandErrorView::UnknownCommand(command@),
        }
    }
}

impl CommandErrorView {
    pub open spec fn text(self) -> Seq<char> {
        match self {
            CommandErrorView::MissingCommand =>
                "Usage: display-relay list | mirror <DISPLAY_NAME> [--fullscreen] [--timeout-ms N]"@,
            CommandErrorView::MissingDisplayName =>
                "mirror requires a display name such as \\\\.\\DISPLAY3"@,
            CommandErrorView::MissingTimeout => "--timeout-ms expects a number"@,
            CommandErrorView::InvalidTimeout(error) => error.text(),
            CommandErrorView::UnknownArgument(argument) => "Unknown argument: "@ + argument,
            CommandErrorView::UnknownCommand(command) => "Unknown command: "@ + command,
        }
    }
}

impl CommandError {
    /// What went wrong, in words.
    pub fn message(&self) -> (message: String)
        ensures
            message@ == self@.text(),
    {
        match self {
            CommandError::MissingCommand =>
                "Usage: display-relay list | mirror <DISPLAY_NAME> [--fullscreen] [--timeout-ms N]".to_owned(),
            CommandError::MissingDisplayName =>
                "mirror requires a display name such as \\\\.\\DISPLAY3".to_owned(),
            CommandError::MissingTimeout => "--timeout-ms expects a number".to_owned(),
            CommandError::InvalidTimeout(error) => error.message(),
            CommandError::UnknownArgument(argument) => "Unknown argument: ".to_owned().concat(
                argument.as_str(),
            ),
            CommandError::UnknownCommand(command) => "Unknown command: ".to_owned().concat(
                command.as_str(),
            ),
        }
    }
}

/// The settings that options make of others, one option after the other.
pub open spec fn with_options(args: Seq<Seq<char>>, config: RelayConfigView) -> Result<
    RelayConfigView,
    CommandErrorView,
>
    decreases args.len(),
{
    if args.len() == 0 {
        Ok(config)
    } else if args[0] == "--fullscreen"@ {
        with_options(args.skip(1), RelayConfigView { mirror_fullscreen: true, ..config })
    } else if args[0] == "--timeout-ms"@ {
        if args.len() == 1 {
            Err(CommandErrorView::MissingTimeout)
        } else {
            match parsed_u32(args[1]) {
                Ok(millis) => with_options(
                    args.skip(2),
                    RelayConfigView { capture_timeout_ms: millis, ..config },
                ),
                Err(error) => Err(CommandErrorView::InvalidTimeout(error)),
            }
        }
    } else {
        Err(CommandErrorView::UnknownArgument(args[0]))
    }
}

/// What the arguments after the program's name ask for.
pub open spec fn asked(args: Seq<Seq<char>>) -> Result<CommandView, CommandErrorView> {
    if args.len() == 0 {
        Err(CommandErrorView::MissingCommand)
    } else if args[0] == "list"@ {
        Ok(CommandView::List)
    } else if args[0] == "mirror"@ {
        if args.len() == 1 {
            Err(CommandErrorView::MissingDisplayName)
        } else {
            match with_options(
                args.skip(2),
                RelayConfigView { display_name: args[1], ..default_config() },
            ) {
                Ok(config) => Ok(CommandView::Mirror(config)),
                Err(error) => Err(error),
            }
        }
    } else {
        Err(CommandErrorView::UnknownCommand(args[0]))
    }
}

impl Command {
    /// Reads the arguments after the program's name.
    pub fn from_env(args: &Vec<String>) -> (command: Result<Self, CommandError>)
        ensures
            outcome(command) == asked(texts(args@)),
    {
        if args.len() == 0 {
            return Err(CommandError::MissingCommand);
        }
        let first: &str = args[0].as_str();
        if same_text(first, "list") {
            return Ok(Command::List);
        }
        if !same_text(first, "mirror") {
            return Err(CommandError::UnknownCommand(args[0].clone()));
        }
        if args.len() == 1 {
            return Err(CommandError::MissingDisplayName);
        }
        let mut config: RelayConfig = RelayConfig::default();
        config.target.display_name = args[1].clone();
        let ghost all = texts(args@);
        let ghost start = config@;
        let mut i: usize = 2;
        while i < args.len()
            invariant
                2 <= i <= args.len(),
                all == texts(args@),
                with_options(all.skip(2), start) == with_options(all.skip(i as int), config@),
                asked(all) == match with_options(all.skip(2), start) {
                    Ok(config) => Ok(CommandView::Mirror(config)),
                    Err(error) => Err(error),
                },
            decreases args.len() - i,
        {
            let arg: &str = args[i].as_str();
            assert(all.skip(i as int)[0] == arg@);
            assert(all.skip(i as int).skip(1) =~= all.skip(i + 1));
            if same_text(arg, "--fullscreen") {
                config.mirror_fullscreen = true;
                i = i + 1;
            } else if same_text(arg, "--timeout-ms") {
                if i + 1 == args.len() {
                    return Err(CommandError::MissingTimeout);
                }
                assert(all.skip(i as int)[1] == args[i + 1]@);
                assert(all.skip(i as int).skip(2) =~= all.skip(i + 2));
                match parse_u32(args[i + 1].as_str()) {
                    Ok(millis) => {
                        config.capture_timeout_ms = millis;
                    },
                    Err(error) => {
                        return Err(CommandError::InvalidTimeout(error));
                    },
                }
                i = i + 2;
            } else {
                return Err(CommandError::UnknownArgument(args[i].clone()));
            }
        }
        Ok(Command::Mirror(config))
    }
}

/// A display in words: name, friendly name, position and size.
pub open spec fn display_line(display: DisplayInfoView) -> Seq<char> {
    display.name + "\t"@ + display.friendly_name + "\t("@ + decimal_int(display.area.left as int)
        + ", "@ + decimal_int(display.area.top as int) + ") "@ + decimal(display.area.width as nat)
        + "x"@ + decimal(display.area.height as nat)
}

fn describe_display(display: &DisplayInfo) -> (line: String)
    ensures
        line@ == display_line(display@),
{
    let mut line: String = display.name.clone();
    line.append("\t");
    line.append(display.friendly_name.as_str());
    line.append("\t(");
    push_decimal_int(&mut line, display.area.left);
    line.append(", ");
    push_decimal_int(&mut line, display.area.top);
    line.append(") ");
    push_decimal(&mut line, display.area.width as u64);
    line.append("x");
    push_decimal(&mut line, display.area.height as u64);
    line
}

/// Lists the displays of a host, one line for each.
pub fn list_displays(host: &DisplayHost) -> (lines: Result<Vec<String>, DisplayError>)
    requires
        describes_displays(*host),
    ensures
        match lines {
            Ok(lines) => enumerated(*host) matches Ok(displays) && texts(lines@)
                == displays.map_values(|display: DisplayInfoView| display_line(display)),
            Err(error) => enumerated(*host) == Err::<Seq<DisplayInfoView>, DisplayErrorView>(
                error@,
            ),
        },
{
    match enumerate_displays(host) {
        Err(error) => Err(error),
        Ok(displays) => {
            let mut lines: Vec<String> = Vec::new();
            let mut i: usize = 0;
            while i < displays.len()
                invariant
                    i <= displays.len(),
                    lines.len() == i,
                    forall|k: int|
                        0 <= k < i ==> (#[trigger] lines[k])@ == display_line(displays[k]@),
                decreases displays.len() - i,
            {
                lines.push(describe_display(&displays[i]));
                i = i + 1;
            }
            assert(texts(lines@) =~= display_views(displays@).map_values(
                |display: DisplayInfoView| display_line(display),
            ));
            Ok(lines)
        },
    }
}

/// The first argument is the command. Listing takes no more arguments, and
/// mirroring the name of a display, which by itself leaves the other settings
/// at their defaults.
pub proof fn law_commands_come_first(command: Seq<char>, name: Seq<char>, more: Seq<Seq<char>>)
    ensures
        asked(Seq::empty()) == Err::<CommandView, CommandErrorView>(
            CommandErrorView::MissingCommand,
        ),
        asked(seq!["list"@] + more) == Ok::<CommandView, CommandErrorView>(CommandView::List),
        asked(seq!["mirror"@]) == Err::<CommandView, CommandErrorView>(
            CommandErrorView::MissingDisplayName,
        ),
        asked(seq!["mirror"@, name]) == Ok::<CommandView, CommandErrorView>(
            CommandView::Mirror(
                RelayConfigView {
                    display_name: name,
                    mirror_fullscreen: false,
                    capture_timeout_ms: 16,
                },
            ),
        ),
        command != "list"@ && command != "mirror"@ ==> asked(seq![command] + more) == Err::<
            CommandView,
            CommandErrorView,
        >(CommandErrorView::UnknownCommand(command)),
        CommandErrorView::UnknownCommand(command).text() == "Unknown command: "@ + command,
        CommandErrorView::UnknownArgument(command).text() == "Unknown argument: "@ + command,
{
    reveal_strlit("list");
    reveal_strlit("mirror");
    assert("list"@.len() != "mirror"@.len());
    assert((seq!["list"@] + more)[0] == "list"@);
    assert((seq![command] + more)[0] == command);
    assert(seq!["mirror"@, name].skip(2) =~= Seq::<Seq<char>>::empty());
}

proof fn lemma_more_options(args: Seq<Seq<char>>, more: Seq<Seq<char>>, config: RelayConfigView)
    ensures
        match with_options(args, config) {
            Ok(then) => with_options(args + more, config) == with_options(more, then),
            Err(CommandErrorView::MissingTimeout) => true,
            Err(error) => with_options(args + more, config) == Err::<
                RelayConfigView,
                CommandErrorView,
            >(error),
        },
    decreases args.len(),
{
    if args.len() == 0 {
        assert(args + more =~= more);
    } else {
        assert((args + more)[0] == args[0]);
        if args[0] == "--fullscreen"@ {
            lemma_more_options(
                args.skip(1),
                more,
                RelayConfigView { mirror_fullscreen: true, ..config },
            );
            assert((args + more).skip(1) =~= args.skip(1) + more);
        } else if args[0] == "--timeout-ms"@ && args.len() > 1 {
            assert((args + more)[1] == args[1]);
            if let Ok(millis) = parsed_u32(args[1]) {
                lemma_more_options(
                    args.skip(2),
                    more,
                    RelayConfigView { capture_timeout_ms: millis, ..config },
                );
                assert((args + more).skip(2) =~= args.skip(2) + more);
            }
        }
    }
}

/// Options are taken one after the other: one more option behind a command to
/// mirror changes the one setting that it names and leaves the others, and a
/// wrong one is told.
pub proof fn law_options_are_taken_one_by_one(
    args: Seq<Seq<char>>,
    config: RelayConfigView,
    option: Seq<char>,
    value: Seq<char>,
)
    requires
        asked(args) == Ok::<CommandView, CommandErrorView>(CommandView::Mirror(config)),
    ensures
        asked(args.push("--fullscreen"@)) == Ok::<CommandView, CommandErrorView>(
            CommandView::Mirror(
                RelayConfigView {
                    display_name: config.display_name,
                    mirror_fullscreen: true,
                    capture_timeout_ms: config.capture_timeout_ms,
                },
            ),
        ),
        asked(args.push("--timeout-ms"@).push(value)) == match parsed_u32(value) {
            Ok(millis) => Ok::<CommandView, CommandErrorView>(
                CommandView::Mirror(
                    RelayConfigView {
                        display_name: config.display_name,
                        mirror_fullscreen: config.mirror_fullscreen,
                        capture_timeout_ms: millis,
                    },
                ),
            ),
            Err(error) => Err::<CommandView, CommandErrorView>(
                CommandErrorView::InvalidTimeout(error),
            ),
        },
        asked(args.push("--timeout-ms"@)) == Err::<CommandView, CommandErrorView>(
            CommandErrorView::MissingTimeout,
        ),
        option != "--fullscreen"@ && option != "--timeout-ms"@ ==> asked(args.push(option))
            == Err::<CommandView, CommandErrorView>(CommandErrorView::UnknownArgument(option)),
{
    reveal_strlit("--fullscreen");
    reveal_strlit("--timeout-ms");
    reveal_strlit("list");
    reveal_strlit("mirror");
    assert("list"@.len() != "mirror"@.len());
    assert("--fullscreen"@[2] != "--timeout-ms"@[2]);
    reveal_with_fuel(with_options, 2);
    let start = RelayConfigView { display_name: args[1], ..default_config() };
    let options = args.skip(2);
    let nothing = Seq::<Seq<char>>::empty();
    lemma_more_options(options, seq!["--fullscreen"@], start);
    assert(args.push("--fullscreen"@).skip(2) =~= options + seq!["--fullscreen"@]);
    assert(seq!["--fullscreen"@].skip(1) =~= nothing);
    lemma_more_options(options, seq!["--timeout-ms"@, value], start);
    assert(args.push("--timeout-ms"@).push(value).skip(2) =~= options + seq![
        "--timeout-ms"@,
        value,
    ]);
    assert(seq!["--timeout-ms"@, value].skip(2) =~= nothing);
    lemma_more_options(options, seq!["--timeout-ms"@], start);
    assert(args.push("--timeout-ms"@).skip(2) =~= options + seq!["--timeout-ms"@]);
    lemma_more_options(options, seq![option], start);
    assert(args.push(option).skip(2) =~= options + seq![option]);
}

/// The first wrong option is the one that is told, whatever follows it.
pub proof fn law_the_first_wrong_option_is_told(
    args: Seq<Seq<char>>,
    more: Seq<Seq<char>>,
    error: CommandErrorView,
)
    requires
        asked(args) == Err::<CommandView, CommandErrorView>(error),
        error is UnknownArgument || error is InvalidTimeout || error is UnknownCommand,
    ensures
        asked(args + more) == Err::<CommandView, CommandErrorView>(error),
{
    assert((args + more)[0] == args[0]);
    if args[0] == "mirror"@ {
        assert((args + more)[1] == args[1]);
        assert((args + more).skip(2) =~= args.skip(2) + more);
        lemma_more_options(
            args.skip(2),
            more,
            RelayConfigView { display_name: args[1], ..default_config() },
        );
    }
}

/// A display is listed by its names, its position and its size.
pub proof fn law_display_lines_hold_position_and_size(display: DisplayInfoView)
    ensures
        display_line(display) == display.name + "\t"@ + display.friendly_name + "\t("@
            + decimal_int(display.area.left as int) + ", "@ + decimal_int(display.area.top as int)
            + ") "@ + decimal(display.area.width as nat) + "x"@ + decimal(
            display.area.height as nat,
        ),
{
}

/// A number that cannot be read is told in the words of the number.
pub proof fn law_wrong_numbers_are_told_in_their_words(error: NumberError)
    ensures
        CommandErrorView::InvalidTimeout(error).text() == error.text(),
{
}

} // verus!
