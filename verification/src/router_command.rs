//! The command line of the audio output router, and what it lists.

use crate::audio::{
    list_output_devices, listed, views, AudioError, AudioErrorView, AudioHost, AudioOutputDevice,
    AudioOutputDeviceView,
};
use crate::host::outcome;
use crate::text::{same_text, texts};
use vstd::prelude::*;

verus! {

/// What the audio output router is asked to do.
#[derive(Debug, Clone)]
pub enum Command {
    /// List the audio outputs.
    ListAudioDevices,
    /// Route one output to another.
    Route { source_device: String, target_device: String },
}

/// The model of a [`Command`].
pub enum CommandView {
    ListAudioDevices,
    Route { source_device: Seq<char>, target_device: Seq<char> },
}

impl View for Command {
    type V = CommandView;

    open spec fn view(&self) -> CommandView {
        match self {
            Command::ListAudioDevices => CommandView::ListAudioDevices,
            Command::Route { source_device, target_device } => CommandView::Route {
                source_device: source_device@,
                target_device: target_device@,
            },
        }
    }
}

/// Why the command line asks for nothing.
#[derive(Debug, Clone)]
pub enum CommandError {
    MissingCommand,
    MissingSource,
    MissingTarget,
    UnknownCommand(String),
}

/// The model of a [`CommandError`].
pub enum CommandErrorView {
    MissingCommand,
    MissingSource,
    MissingTarget,
    UnknownCommand(Seq<char>),
}

impl View for CommandError {
    type V = CommandErrorView;

    open spec fn view(&self) -> CommandErrorView {
        match self {
            CommandError::MissingCommand => CommandErrorView::MissingCommand,
            CommandError::MissingSource => CommandErrorView::MissingSource,
            CommandError::MissingTarget => CommandErrorView::MissingTarget,
            CommandError::UnknownCommand(command) => CommandErrorView::UnknownCommand(command@),
        }
    }
}

impl CommandErrorView {
    pub open spec fn text(self) -> Seq<char> {
        match self {
            CommandErrorView::MissingCommand =>
                "Usage: audio-output-router list-audio-devices | route <SOURCE_MATCH|default> <TARGET_MATCH|default>"@,
            CommandErrorView::MissingSource =>
                "route requires a source output device match or 'default'"@,
            CommandErrorView::MissingTarget =>
                "route requires a target output device match or 'default'"@,
            CommandErrorView::UnknownCommand(command) => "Unknown command: "@ + command,
        }
    }
}

impl CommandError {
    /// What went wrong, in words.
    pub fn message(&self) -> (message: String)
        ensures
            message@ == self@.text(),
    {
        match self {
            CommandError::MissingCommand =>
                "Usage: audio-output-router list-audio-devices | route <SOURCE_MATCH|default> <TARGET_MATCH|default>".to_owned(),
            CommandError::MissingSource =>
                "route requires a source output device match or 'default'".to_owned(),
            CommandError::MissingTarget =>
                "route requires a target output device match or 'default'".to_owned(),
            CommandError::UnknownCommand(command) => "Unknown command: ".to_owned().concat(
                command.as_str(),
            ),
        }
    }
}

/// What the arguments after the program's name ask for.
pub open spec fn asked(args: Seq<Seq<char>>) -> Result<CommandView, CommandErrorView> {
    if args.len() == 0 {
        Err(CommandErrorView::MissingCommand)
    } else if args[0] == "list-audio-devices"@ {
        Ok(CommandView::ListAudioDevices)
    } else if args[0] == "route"@ {
        if args.len() == 1 {
            Err(CommandErrorView::MissingSource)
        } else if args.len() == 2 {
            Err(CommandErrorView::MissingTarget)
        } else {
            Ok(CommandView::Route { source_device: args[1], target_device: args[2] })
        }
    } else {
        Err(CommandErrorView::UnknownCommand(args[0]))
    }
}

impl Command {
    /// Reads the arguments after the program's name.
    pub fn from_env(args: &Vec<String>) -> (command: Result<Self, CommandError>)
        ensures
            outcome(command) == asked(texts(args@)),
    {
        if args.len() == 0 {
            return Err(CommandError::MissingCommand);
        }
        let command: &str = args[0].as_str();
        if same_text(command, "list-audio-devices") {
            return Ok(Command::ListAudioDevices);
        }
        if !same_text(command, "route") {
            return Err(CommandError::UnknownCommand(args[0].clone()));
        }
        if args.len() == 1 {
            return Err(CommandError::MissingSource);
        }
        if args.len() == 2 {
            return Err(CommandError::MissingTarget);
        }
        Ok(Command::Route { source_device: args[1].clone(), target_device: args[2].clone() })
    }
}

/// A device in words: id and friendly name, the default device marked.
pub open spec fn device_line(device: AudioOutputDeviceView) -> Seq<char> {
    device.id + "\t"@ + device.friendly_name + if device.is_default {
        " (default)"@
    } else {
        ""@
    }
}

fn describe_device(device: &AudioOutputDevice) -> (line: String)
    ensures
        line@ == device_line(device@),
{
    let mut line: String = device.id.clone();
    line.append("\t");
    line.append(device.friendly_name.as_str());
    line.append(
        if device.is_default {
            " (default)"
        } else {
            ""
        },
    );
    line
}

/// Lists the audio outputs of a host, one line for each.
pub fn list_audio_devices(host: &AudioHost) -> (lines: Result<Vec<String>, AudioError>)
    ensures
        match lines {
            Ok(lines) => listed(*host) matches Ok(devices) && texts(lines@) == devices.map_values(
                |device: AudioOutputDeviceView| device_line(device),
            ),
            Err(error) => listed(*host) == Err::<Seq<AudioOutputDeviceView>, AudioErrorView>(
                error@,
            ),
        },
{
    match list_output_devices(host) {
        Err(error) => Err(error),
        Ok(devices) => {
            let mut lines: Vec<String> = Vec::new();
            let mut i: usize = 0;
            while i < devices.len()
                invariant
                    i <= devices.len(),
                    lines.len() == i,
                    forall|k: int|
                        0 <= k < i ==> (#[trigger] lines[k])@ == device_line(devices[k]@),
                decreases devices.len() - i,
            {
                lines.push(describe_device(&devices[i]));
                i = i + 1;
            }
            assert(texts(lines@) =~= views(devices@).map_values(
                |device: AudioOutputDeviceView| device_line(device),
            ));
            Ok(lines)
        },
    }
}

/// The first argument is the command. Listing takes no more arguments and
/// routing the next two, the source and then the target; what follows does not
/// matter.
pub proof fn law_commands_come_first(
    command: Seq<char>,
    source: Seq<char>,
    target: Seq<char>,
    more: Seq<Seq<char>>,
)
    ensures
        asked(Seq::empty()) == Err::<CommandView, CommandErrorView>(
            CommandErrorView::MissingCommand,
        ),
        asked(seq!["list-audio-devices"@] + more) == Ok::<CommandView, CommandErrorView>(
            CommandView::ListAudioDevices,
        ),
        asked(seq!["route"@, source, target] + more) == Ok::<CommandView, CommandErrorView>(
            CommandView::Route { source_device: source, target_device: target },
        ),
        asked(seq!["route"@, source]) == Err::<CommandView, CommandErrorView>(
            CommandErrorView::MissingTarget,
        ),
        asked(seq!["route"@]) == Err::<CommandView, CommandErrorView>(
            CommandErrorView::MissingSource,
        ),
        command != "route"@ && command != "list-audio-devices"@ ==> asked(seq![command] + more)
            == Err::<CommandView, CommandErrorView>(CommandErrorView::UnknownCommand(command)),
        CommandErrorView::UnknownCommand(command).text() == "Unknown command: "@ + command,
{
    reveal_strlit("route");
    reveal_strlit("list-audio-devices");
    assert((seq!["list-audio-devices"@] + more)[0] == "list-audio-devices"@);
    assert((seq!["route"@, source, target] + more)[0] == "route"@);
    assert((seq!["route"@, source, target] + more)[1] == source);
    assert((seq!["route"@, source, target] + more)[2] == target);
    assert((seq![command] + more)[0] == command);
    assert("route"@.len() != "list-audio-devices"@.len());
}

/// A device is listed by its id and its name, and marked where it is the
/// default.
pub proof fn law_device_lines_hold_id_and_name(id: Seq<char>, friendly_name: Seq<char>)
    ensures
        device_line(AudioOutputDeviceView { id, friendly_name, is_default: true }) == id + "\t"@
            + friendly_name + " (default)"@,
        device_line(AudioOutputDeviceView { id, friendly_name, is_default: false }) == id + "\t"@
            + friendly_name,
{
    reveal_strlit("");
    assert(id + "\t"@ + friendly_name + ""@ =~= id + "\t"@ + friendly_name);
}

} // verus!
