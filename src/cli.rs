use vstd::prelude::*;

use crate::render::ColorMode;

verus! {

/// Where the picture comes from.
#[derive(PartialEq, Eq, Structural, Clone, Copy, Debug)]
pub enum Source {
    /// An image file, drawn once.
    Image,
    /// A capture device, drawn frame after frame.
    Video,
}

/// What the program does once its arguments are read.
#[derive(Debug)]
pub enum Command {
    /// Print `preface`, if any, then the usage text.
    Help { preface: Option<String> },
    /// Draw from `source` at `path` in colour mode `mode`.
    Render { source: Source, path: String, mode: ColorMode },
}

/// A command, and the notice printed (followed by a pause) before it runs.
#[derive(Debug)]
pub struct Invocation {
    pub notice: Option<String>,
    pub command: Command,
}

/// `Command` with its text as sequences of characters.
pub enum CommandModel {
    Help(Option<Seq<char>>),
    Render(Source, Seq<char>, ColorMode),
}

/// `Invocation` with its text as sequences of characters.
pub struct InvocationModel {
    pub notice: Option<Seq<char>>,
    pub command: CommandModel,
}

pub open spec fn text_view(s: Option<String>) -> Option<Seq<char>> {
    match s {
        Some(t) => Some(t@),
        None => None,
    }
}

impl View for Command {
    type V = CommandModel;

    open spec fn view(&self) -> CommandModel {
        match self {
            Command::Help { preface } => CommandModel::Help(text_view(*preface)),
            Command::Render { source, path, mode } => CommandModel::Render(*source, path@, *mode),
        }
    }
}

impl View for Invocation {
    type V = InvocationModel;

    open spec fn view(&self) -> InvocationModel {
        InvocationModel { notice: text_view(self.notice), command: self.command@ }
    }
}

/// The source that a flag names: `--image` or `--video`.
pub open spec fn source_flag(flag: Seq<char>) -> Option<Source> {
    if flag == "--image"@ {
        Some(Source::Image)
    } else if flag == "--video"@ {
        Some(Source::Video)
    } else {
        None
    }
}

/// `<flag> <path>` drawn in `mode`, or the bare usage text where the flag is unknown.
pub open spec fn command_for(flag: Seq<char>, path: Seq<char>, mode: ColorMode) -> CommandModel {
    match source_flag(flag) {
        Some(source) => CommandModel::Render(source, path, mode),
        None => CommandModel::Help(None),
    }
}

/// What a command line asks for, `args[0]` being the program's name:
/// `<flag> <path>` draws without colour; `<flag> <path> --color` in the foreground colour;
/// `<flag> <path> --color <any>` on background colour. No argument at all, or a count other
/// than these, prints a reason and the usage text; a fourth argument other than `--color`
/// prints the usage text alone.
pub open spec fn dispatch(args: Seq<Seq<char>>) -> InvocationModel {
    if args.len() == 1 {
        InvocationModel { notice: None, command: CommandModel::Help(Some("No source args passed."@)) }
    } else if args.len() == 3 {
        InvocationModel { notice: None, command: command_for(args[1], args[2], ColorMode::NoColor) }
    } else if args.len() == 4 || args.len() == 5 {
        if args[3] != "--color"@ {
            InvocationModel { notice: None, command: CommandModel::Help(None) }
        } else if args.len() == 4 {
            InvocationModel {
                notice: Some("\n\n NOTE: Colored Rendering will be choppy"@),
                command: command_for(args[1], args[2], ColorMode::Foreground),
            }
        } else {
            InvocationModel {
                notice: Some("\n\nNOTE: Colored Rendering will be the choppiest"@),
                command: command_for(args[1], args[2], ColorMode::Background),
            }
        }
    } else {
        InvocationModel { notice: None, command: CommandModel::Help(Some("Invalid usage"@)) }
    }
}

fn select_command(flag: &String, path: &String, mode: ColorMode) -> (c: Command)
    ensures
        c@ == command_for(flag@, path@, mode),
{
    let image = String::from_str("--image");
    let video = String::from_str("--video");
    if *flag == image {
        Command::Render { source: Source::Image, path: path.clone(), mode }
    } else if *flag == video {
        Command::Render { source: Source::Video, path: path.clone(), mode }
    } else {
        Command::Help { preface: None }
    }
}

/// Reads the command line.
pub fn parse_args(args: &Vec<String>) -> (r: Invocation)
    ensures
        r@ == dispatch(args@.map_values(|s: String| s@)),
{
    let ghost seen = args@.map_values(|s: String| s@);
    let n = args.len();
    if n == 1 {
        Invocation { notice: None, command: Command::Help { preface: Some(String::from_str("No source args passed.")) } }
    } else if n == 3 {
        Invocation { notice: None, command: select_command(&args[1], &args[2], ColorMode::NoColor) }
    } else if n == 4 || n == 5 {
        let color = String::from_str("--color");
        if args[3] != color {
            Invocation { notice: None, command: Command::Help { preface: None } }
        } else if n == 4 {
            Invocation {
                notice: Some(String::from_str("\n\n NOTE: Colored Rendering will be choppy")),
                command: select_command(&args[1], &args[2], ColorMode::Foreground),
            }
        } else {
            Invocation {
                notice: Some(String::from_str("\n\nNOTE: Colored Rendering will be the choppiest")),
                command: select_command(&args[1], &args[2], ColorMode::Background),
            }
        }
    } else {
        Invocation { notice: None, command: Command::Help { preface: Some(String::from_str("Invalid usage")) } }
    }
}

} // verus!
