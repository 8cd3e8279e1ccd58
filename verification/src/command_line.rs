//! The command line of `cosmic-background-launch`, the client of the
//! background launch service.
//!
//! ```text
//! --workspace <name> [--frame-pacing standard|demand] [--isolated-input] -- <command> [args...]
//! --reconcile <launch-id>
//! --isolation-status <launch-id>
//! --release <launch-id>
//! ```

use vstd::prelude::*;
use crate::text;

verus! {

/// What to launch, and how.
#[derive(Clone, Debug, PartialEq, Eq)]
pub struct LaunchArgs {
    pub workspace_name: String,
    pub frame_pacing: String,
    pub isolated_input: bool,
    pub argv: Vec<String>,
}

/// What the command line asks for.
#[derive(Clone, Debug, PartialEq, Eq)]
pub enum CommandArgs {
    Launch(LaunchArgs),
    Reconcile { launch_id: String },
    IsolationStatus { launch_id: String },
    Release { launch_id: String },
}

/// The texts of a [`LaunchArgs`].
#[verifier::ext_equal]
pub ghost struct LaunchArgsView {
    pub workspace_name: Seq<char>,
    pub frame_pacing: Seq<char>,
    pub isolated_input: bool,
    pub argv: Seq<Seq<char>>,
}

/// The texts of a [`CommandArgs`].
#[verifier::ext_equal]
pub ghost enum CommandArgsView {
    Launch(LaunchArgsView),
    Reconcile(Seq<char>),
    IsolationStatus(Seq<char>),
    Release(Seq<char>),
}

impl View for LaunchArgs {
    type V = LaunchArgsView;

    open spec fn view(&self) -> LaunchArgsView {
        LaunchArgsView {
            workspace_name: self.workspace_name@,
            frame_pacing: self.frame_pacing@,
            isolated_input: self.isolated_input,
            argv: text::texts(self.argv@),
        }
    }
}

impl View for CommandArgs {
    type V = CommandArgsView;

    open spec fn view(&self) -> CommandArgsView {
        match *self {
            CommandArgs::Launch(args) => CommandArgsView::Launch(args@),
            CommandArgs::Reconcile { launch_id } => CommandArgsView::Reconcile(launch_id@),
            CommandArgs::IsolationStatus { launch_id } => CommandArgsView::IsolationStatus(
                launch_id@,
            ),
            CommandArgs::Release { launch_id } => CommandArgsView::Release(launch_id@),
        }
    }
}

/// The frame pacing of a launch that names none.
pub open spec fn default_frame_pacing() -> Seq<char> {
    "standard"@
}

/// The frame pacings that the command line takes.
pub open spec fn is_frame_pacing(s: Seq<char>) -> bool {
    s == "standard"@ || s == "demand"@
}

/// The launch options read so far.
pub ghost struct Options {
    pub workspace_name: Option<Seq<char>>,
    pub frame_pacing: Option<Seq<char>>,
    pub isolated_input: bool,
}

/// No option read yet.
pub open spec fn no_options() -> Options {
    Options { workspace_name: None, frame_pacing: None, isolated_input: false }
}

/// Reads launch options up to the first `--` that is not the value of an
/// option: the options and what follows the `--`.
pub open spec fn read_options(args: Seq<Seq<char>>, seen: Options) -> Option<
    (Options, Seq<Seq<char>>),
>
    decreases args.len(),
{
    if args.len() == 0 {
        None
    } else if args[0] == "--"@ {
        Some((seen, args.skip(1)))
    } else if args[0] == "--workspace"@ {
        if seen.workspace_name is None && args.len() > 1 && !text::blank(args[1]) {
            read_options(args.skip(2), Options { workspace_name: Some(args[1]), ..seen })
        } else {
            None
        }
    } else if args[0] == "--frame-pacing"@ {
        if seen.frame_pacing is None && args.len() > 1 && is_frame_pacing(args[1]) {
            read_options(args.skip(2), Options { frame_pacing: Some(args[1]), ..seen })
        } else {
            None
        }
    } else if args[0] == "--isolated-input"@ {
        if !seen.isolated_input {
            read_options(args.skip(1), Options { isolated_input: true, ..seen })
        } else {
            None
        }
    } else {
        None
    }
}

/// The launch that a list of arguments asks for, if it asks for one.
pub open spec fn read_launch(args: Seq<Seq<char>>) -> Option<LaunchArgsView> {
    match read_options(args, no_options()) {
        Some((options, argv)) => match options.workspace_name {
            Some(workspace_name) if argv.len() > 0 => Some(
                LaunchArgsView {
                    workspace_name,
                    frame_pacing: match options.frame_pacing {
                        Some(pacing) => pacing,
                        None => default_frame_pacing(),
                    },
                    isolated_input: options.isolated_input,
                    argv,
                },
            ),
            _ => None,
        },
        None => None,
    }
}

/// The launch id behind the first argument, if it is the only argument there
/// and is not blank.
pub open spec fn only_launch_id(args: Seq<Seq<char>>) -> Option<Seq<char>> {
    if args.len() == 2 && !text::blank(args[1]) {
        Some(args[1])
    } else {
        None
    }
}

/// What a list of arguments asks for; `None` where it is not a command line.
pub open spec fn read_command(args: Seq<Seq<char>>) -> Option<CommandArgsView> {
    if args.len() > 0 && args[0] == "--reconcile"@ {
        match only_launch_id(args) {
            Some(id) => Some(CommandArgsView::Reconcile(id)),
            None => None,
        }
    } else if args.len() > 0 && args[0] == "--isolation-status"@ {
        match only_launch_id(args) {
            Some(id) => Some(CommandArgsView::IsolationStatus(id)),
            None => None,
        }
    } else if args.len() > 0 && args[0] == "--release"@ {
        match only_launch_id(args) {
            Some(id) => Some(CommandArgsView::Release(id)),
            None => None,
        }
    } else {
        match read_launch(args) {
            Some(launch) => Some(CommandArgsView::Launch(launch)),
            None => None,
        }
    }
}

/// The text of an optional command.
pub open spec fn command_of(c: Option<CommandArgs>) -> Option<CommandArgsView> {
    match c {
        Some(c) => Some(c@),
        None => None,
    }
}

fn take_only_launch_id(args: &Vec<String>) -> (r: Option<String>)
    ensures
        text::text_of(r) == only_launch_id(text::texts(args@)),
{
    if args.len() != 2 || text::is_blank(args[1].as_str()) {
        None
    } else {
        Some(args[1].clone())
    }
}

fn parse_launch(args: Vec<String>) -> (r: Option<LaunchArgs>)
    ensures
        match r {
            Some(launch) => read_launch(text::texts(args@)) == Some(launch@),
            None => read_launch(text::texts(args@)) is None,
        },
{
    let ghost all = text::texts(args@);
    let mut list = args;
    let mut workspace_name: Option<String> = None;
    let mut frame_pacing: Option<String> = None;
    let mut isolated_input = false;
    let mut next: usize = 0;
    assert(all.skip(0) =~= all);
    loop
        invariant
            all == text::texts(args@),
            text::texts(list@) == all,
            next <= list@.len(),
            read_options(all, no_options()) == read_options(
                all.skip(next as int),
                Options {
                    workspace_name: text::text_of(workspace_name),
                    frame_pacing: text::text_of(frame_pacing),
                    isolated_input,
                },
            ),
        decreases list@.len() - next,
    {
        if next >= list.len() {
            return None;
        }
        let ghost rest = all.skip(next as int);
        assert(rest[0] == list@[next as int]@);
        assert(rest.skip(1) =~= all.skip(next + 1));
        if text::same_text(&list[next], "--") {
            let argv = list.split_off(next + 1);
            assert(text::texts(argv@) =~= all.skip(next + 1));
            if argv.len() == 0 {
                return None;
            }
            let workspace_name = match workspace_name {
                Some(name) => name,
                None => {
                    return None;
                },
            };
            let frame_pacing = match frame_pacing {
                Some(pacing) => pacing,
                None => "standard".to_owned(),
            };
            return Some(LaunchArgs { workspace_name, frame_pacing, isolated_input, argv });
        }
        proof {
            if rest.len() > 1 {
                assert(rest[1] == list@[next + 1]@);
                assert(rest.skip(2) =~= all.skip(next + 2));
            }
        }
        if text::same_text(&list[next], "--workspace") {
            if workspace_name.is_some() || list.len() - next < 2 || text::is_blank(
                list[next + 1].as_str(),
            ) {
                return None;
            }
            workspace_name = Some(list[next + 1].clone());
            next = next + 2;
        } else if text::same_text(&list[next], "--frame-pacing") {
            if frame_pacing.is_some() || list.len() - next < 2 {
                return None;
            }
            if !text::same_text(&list[next + 1], "standard") && !text::same_text(&list[next + 1], "demand") {
                return None;
            }
            frame_pacing = Some(list[next + 1].clone());
            next = next + 2;
        } else if text::same_text(&list[next], "--isolated-input") {
            if isolated_input {
                return None;
            }
            isolated_input = true;
            next = next + 1;
        } else {
            return None;
        }
    }
}

/// Reads the arguments that follow the program's name.
pub fn parse_args(args: Vec<String>) -> (r: Option<CommandArgs>)
    ensures
        command_of(r) == read_command(text::texts(args@)),
{
    if args.len() > 0 && text::same_text(&args[0], "--reconcile") {
        return match take_only_launch_id(&args) {
            Some(launch_id) => Some(CommandArgs::Reconcile { launch_id }),
            None => None,
        };
    }
    if args.len() > 0 && text::same_text(&args[0], "--isolation-status") {
        return match take_only_launch_id(&args) {
            Some(launch_id) => Some(CommandArgs::IsolationStatus { launch_id }),
            None => None,
        };
    }
    if args.len() > 0 && text::same_text(&args[0], "--release") {
        return match take_only_launch_id(&args) {
            Some(launch_id) => Some(CommandArgs::Release { launch_id }),
            None => None,
        };
    }
    match parse_launch(args) {
        Some(launch) => Some(CommandArgs::Launch(launch)),
        None => None,
    }
}

/// A call of a method of the background launch service.
pub enum MethodCall {
    Launch { workspace_name: String, argv: Vec<String>, cwd: String },
    LaunchWithOptions {
        workspace_name: String,
        argv: Vec<String>,
        cwd: String,
        frame_pacing: String,
    },
    LaunchIsolated { workspace_name: String, argv: Vec<String>, cwd: String, frame_pacing: String },
    Reconcile { launch_id: String },
    IsolationStatus { launch_id: String },
    Release { launch_id: String },
}

/// The method that does what a command asks for: an isolated launch has its
/// own, and so has a launch with a pacing other than the default one.
pub open spec fn call_for(command: CommandArgs, cwd: String) -> MethodCall {
    match command {
        CommandArgs::Launch(args) => if args.isolated_input {
            MethodCall::LaunchIsolated {
                workspace_name: args.workspace_name,
                argv: args.argv,
                cwd,
                frame_pacing: args.frame_pacing,
            }
        } else if args.frame_pacing@ == default_frame_pacing() {
            MethodCall::Launch { workspace_name: args.workspace_name, argv: args.argv, cwd }
        } else {
            MethodCall::LaunchWithOptions {
                workspace_name: args.workspace_name,
                argv: args.argv,
                cwd,
                frame_pacing: args.frame_pacing,
            }
        },
        CommandArgs::Reconcile { launch_id } => MethodCall::Reconcile { launch_id },
        CommandArgs::IsolationStatus { launch_id } => MethodCall::IsolationStatus { launch_id },
        CommandArgs::Release { launch_id } => MethodCall::Release { launch_id },
    }
}

/// Chooses the method that does what a command asks for; `cwd` is the
/// directory to launch in.
pub fn method_call(command: CommandArgs, cwd: String) -> (r: MethodCall)
    ensures
        r == call_for(command, cwd),
{
    match command {
        CommandArgs::Launch(args) => {
            if args.isolated_input {
                MethodCall::LaunchIsolated {
                    workspace_name: args.workspace_name,
                    argv: args.argv,
                    cwd,
                    frame_pacing: args.frame_pacing,
                }
            } else if text::same_text(&args.frame_pacing, "standard") {
                MethodCall::Launch { workspace_name: args.workspace_name, argv: args.argv, cwd }
            } else {
                MethodCall::LaunchWithOptions {
                    workspace_name: args.workspace_name,
                    argv: args.argv,
                    cwd,
                    frame_pacing: args.frame_pacing,
                }
            }
        },
        CommandArgs::Reconcile { launch_id } => MethodCall::Reconcile { launch_id },
        CommandArgs::IsolationStatus { launch_id } => MethodCall::IsolationStatus { launch_id },
        CommandArgs::Release { launch_id } => MethodCall::Release { launch_id },
    }
}

/// A launch with isolated input is asked for by the method for it, whatever
/// the pacing. Without isolated input the plain method is called exactly for
/// the standard pacing. Every method gets what the command holds, and `cwd`.
pub proof fn law_launch_calls_its_method(args: LaunchArgs, cwd: String)
    ensures
        ({
            let call = call_for(CommandArgs::Launch(args), cwd);
            &&& call is LaunchIsolated <==> args.isolated_input
            &&& call is Launch <==> !args.isolated_input && args.frame_pacing@ == "standard"@
            &&& call is LaunchWithOptions <==> !args.isolated_input && args.frame_pacing@
                != "standard"@
            &&& match call {
                MethodCall::LaunchIsolated { workspace_name, argv, cwd: dir, frame_pacing } => {
                    workspace_name == args.workspace_name && argv == args.argv && dir == cwd
                        && frame_pacing == args.frame_pacing
                },
                MethodCall::LaunchWithOptions { workspace_name, argv, cwd: dir, frame_pacing } => {
                    workspace_name == args.workspace_name && argv == args.argv && dir == cwd
                        && frame_pacing == args.frame_pacing
                },
                MethodCall::Launch { workspace_name, argv, cwd: dir } => {
                    workspace_name == args.workspace_name && argv == args.argv && dir == cwd
                },
                _ => false,
            }
        }),
{
}

/// A command on a launch is asked for by its own method, with its launch id,
/// and no other command is.
pub proof fn law_launch_id_reaches_its_method(command: CommandArgs, cwd: String, id: String)
    ensures
        call_for(command, cwd) == (MethodCall::Reconcile { launch_id: id }) <==> command == (
        CommandArgs::Reconcile { launch_id: id }),
        call_for(command, cwd) == (MethodCall::IsolationStatus { launch_id: id }) <==> command == (
        CommandArgs::IsolationStatus { launch_id: id }),
        call_for(command, cwd) == (MethodCall::Release { launch_id: id }) <==> command == (
        CommandArgs::Release { launch_id: id }),
{
}

/// The view of a command holds the texts of its own parts.
pub proof fn law_view_holds_the_texts(args: LaunchArgs, id: String, i: int)
    ensures
        args@.workspace_name == args.workspace_name@,
        args@.frame_pacing == args.frame_pacing@,
        args@.isolated_input == args.isolated_input,
        args@.argv.len() == args.argv@.len(),
        0 <= i < args.argv@.len() ==> args@.argv[i] == args.argv@[i]@,
        command_of(Some(CommandArgs::Launch(args))) == Some(CommandArgsView::Launch(args@)),
        command_of(Some(CommandArgs::Reconcile { launch_id: id })) == Some(
            CommandArgsView::Reconcile(id@),
        ),
        command_of(Some(CommandArgs::IsolationStatus { launch_id: id })) == Some(
            CommandArgsView::IsolationStatus(id@),
        ),
        command_of(Some(CommandArgs::Release { launch_id: id })) == Some(
            CommandArgsView::Release(id@),
        ),
        command_of(None::<CommandArgs>) is None,
{
}

/// The method that is called for a command: for a launch with isolated input
/// the one for it, whatever the pacing; for another launch the plain one
/// exactly if the pacing is the standard one; and for every other command its
/// own. It gets what the command holds, and `cwd`.
pub proof fn law_command_is_called_for(command: CommandArgs, cwd: String, call: MethodCall)
    requires
        call_ensures(method_call, (command, cwd), call),
    ensures
        match call {
            MethodCall::LaunchIsolated { workspace_name, argv, cwd: dir, frame_pacing } => {
                &&& command matches CommandArgs::Launch(args)
                &&& args.isolated_input
                &&& workspace_name == args.workspace_name && argv == args.argv && dir == cwd
                    && frame_pacing == args.frame_pacing
            },
            MethodCall::LaunchWithOptions { workspace_name, argv, cwd: dir, frame_pacing } => {
                &&& command matches CommandArgs::Launch(args)
                &&& !args.isolated_input && args.frame_pacing@ != "standard"@
                &&& workspace_name == args.workspace_name && argv == args.argv && dir == cwd
                    && frame_pacing == args.frame_pacing
            },
            MethodCall::Launch { workspace_name, argv, cwd: dir } => {
                &&& command matches CommandArgs::Launch(args)
                &&& !args.isolated_input && args.frame_pacing@ == "standard"@
                &&& workspace_name == args.workspace_name && argv == args.argv && dir == cwd
            },
            MethodCall::Reconcile { launch_id } => command == (CommandArgs::Reconcile {
                launch_id,
            }),
            MethodCall::IsolationStatus { launch_id } => command == (
            CommandArgs::IsolationStatus { launch_id }),
            MethodCall::Release { launch_id } => command == (CommandArgs::Release { launch_id }),
        },
{
}

} // verus!
