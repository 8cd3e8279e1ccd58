//! How the compositor starts: its command line, its CPU priority, and what it
//! does once it is ready.

use vstd::prelude::*;
use clap_lex::ArgCursor;
use clap_lex::RawArgs;
use crate::text;

verus! {

#[verifier::external_type_specification]
#[verifier::external_body]
pub struct ExRawArgs(clap_lex::RawArgs);

#[verifier::external_type_specification]
#[verifier::external_body]
pub struct ExArgCursor(clap_lex::ArgCursor);

/// The arguments that a `RawArgs` holds, in their order, the program's name
/// among them; `None` stands for one that is not valid Unicode.
pub uninterp spec fn raw_args(raw: RawArgs) -> Seq<Option<Seq<char>>>;

/// The arguments of a `RawArgs` from where a cursor stands to the end.
pub uninterp spec fn args_ahead(raw: RawArgs, cursor: ArgCursor) -> Seq<Option<Seq<char>>>;

/// `RawArgs::cursor`: a cursor at the first argument.
#[verifier::external_body]
fn cursor_of(raw: &RawArgs) -> (r: ArgCursor)
    ensures
        args_ahead(*raw, r) == raw_args(*raw),
{
    raw.cursor()
}

/// The texts of a list of arguments.
pub open spec fn arg_texts(args: Seq<Option<String>>) -> Seq<Option<Seq<char>>> {
    Seq::new(args.len(), |i: int| text::text_of(args[i]))
}

/// `RawArgs::next_os`: the argument at the cursor, and the cursor moves on to
/// the next; `None` once there is no argument left.
#[verifier::external_body]
fn next_arg(raw: &RawArgs, cursor: &mut ArgCursor) -> (r: Option<Option<String>>)
    ensures
        args_ahead(*raw, *old(cursor)).len() == 0 ==> r is None && args_ahead(
            *raw,
            *final(cursor),
        ).len() == 0,
        args_ahead(*raw, *old(cursor)).len() > 0 ==> r is Some && text::text_of(r->Some_0)
            == args_ahead(*raw, *old(cursor))[0] && args_ahead(*raw, *final(cursor)) == args_ahead(
            *raw,
            *old(cursor),
        ).skip(1),
{
    raw.next_os(cursor).map(|arg| arg.to_str().map(String::from))
}

/// What the command line of the compositor asks for.
#[derive(Clone, Copy, Debug, PartialEq, Eq, Structural)]
pub enum Startup {
    Help,
    Version,
    Run { with_xwayland: bool },
}

/// The argument asks for the help text.
pub open spec fn asks_help(arg: Option<Seq<char>>) -> bool {
    arg == Some("--help"@) || arg == Some("-h"@)
}

/// The argument asks for the version.
pub open spec fn asks_version(arg: Option<Seq<char>>) -> bool {
    arg == Some("--version"@) || arg == Some("-V"@) || arg == Some("-v"@)
}

/// The argument turns Xwayland off.
pub open spec fn refuses_xwayland(arg: Option<Seq<char>>) -> bool {
    arg == Some("--no-xwayland"@)
}

/// What a list of arguments asks for: the first that asks for the help text
/// or the version decides; without one, the compositor runs.
pub open spec fn startup_of(args: Seq<Option<Seq<char>>>) -> Startup
    decreases args.len(),
{
    if args.len() == 0 {
        Startup::Run { with_xwayland: true }
    } else if asks_help(args[0]) {
        Startup::Help
    } else if asks_version(args[0]) {
        Startup::Version
    } else {
        without_xwayland_if(refuses_xwayland(args[0]), startup_of(args.skip(1)))
    }
}

/// The same start, with Xwayland turned off under a condition.
pub open spec fn without_xwayland_if(off: bool, startup: Startup) -> Startup {
    match startup {
        Startup::Run { with_xwayland } => Startup::Run { with_xwayland: with_xwayland && !off },
        other => other,
    }
}

fn arg_is(arg: &Option<String>, word: &str) -> (r: bool)
    ensures
        r == (text::text_of(*arg) == Some(word@)),
{
    match arg {
        Some(arg) => text::same_text(arg, word),
        None => false,
    }
}

/// Reads a list of arguments.
pub fn parse_startup(args: &Vec<Option<String>>) -> (r: Startup)
    ensures
        r == startup_of(arg_texts(args@)),
{
    let ghost all = arg_texts(args@);
    let mut with_xwayland = true;
    let mut i: usize = 0;
    assert(all.skip(0) =~= all);
    while i < args.len()
        invariant
            all == arg_texts(args@),
            i <= args@.len(),
            startup_of(all) == without_xwayland_if(!with_xwayland, startup_of(all.skip(i as int))),
        decreases args@.len() - i,
    {
        proof {
            assert(all.skip(i as int)[0] == text::text_of(args@[i as int]));
            assert(all.skip(i as int).skip(1) =~= all.skip(i + 1));
        }
        let arg = &args[i];
        if arg_is(arg, "--help") || arg_is(arg, "-h") {
            return Startup::Help;
        }
        if arg_is(arg, "--version") || arg_is(arg, "-V") || arg_is(arg, "-v") {
            return Startup::Version;
        }
        if arg_is(arg, "--no-xwayland") {
            with_xwayland = false;
        }
        i = i + 1;
    }
    Startup::Run { with_xwayland }
}

/// Reads the arguments that the process was started with.
pub fn parse_raw_args(raw: &RawArgs) -> (r: Startup)
    ensures
        r == startup_of(raw_args(*raw)),
{
    let ghost all = raw_args(*raw);
    let mut args: Vec<Option<String>> = Vec::new();
    let mut cursor = cursor_of(raw);
    assert(arg_texts(args@) =~= all.take(0));
    assert(all.skip(0) =~= all);
    loop
        invariant
            all == raw_args(*raw),
            args@.len() <= all.len(),
            arg_texts(args@) == all.take(args@.len() as int),
            args_ahead(*raw, cursor) == all.skip(args@.len() as int),
        ensures
            arg_texts(args@) == all,
        decreases all.len() - args@.len(),
    {
        let ghost n = args@.len() as int;
        match next_arg(raw, &mut cursor) {
            None => {
                assert(all.take(n) =~= all);
                break;
            },
            Some(arg) => {
                proof {
                    assert(all.skip(n)[0] == all[n]);
                    assert(all.skip(n).skip(1) =~= all.skip(n + 1));
                }
                let ghost before = args@;
                args.push(arg);
                proof {
                    assert(arg_texts(args@) =~= arg_texts(before).push(text::text_of(arg)));
                    assert(all.take(n + 1) =~= all.take(n).push(all[n]));
                }
            },
        }
    }
    parse_startup(&args)
}

/// Position `i` holds the first argument that asks for the help text or the
/// version.
pub open spec fn decides(args: Seq<Option<Seq<char>>>, i: int) -> bool {
    &&& 0 <= i < args.len()
    &&& asks_help(args[i]) || asks_version(args[i])
    &&& forall|j: int| 0 <= j < i ==> !asks_help(#[trigger] args[j]) && !asks_version(args[j])
}

/// The first argument that asks for the help text or the version is obeyed,
/// whatever stands around it.
pub proof fn law_first_question_is_answered(args: Seq<Option<Seq<char>>>, i: int)
    requires
        decides(args, i),
    ensures
        asks_help(args[i]) ==> startup_of(args) == Startup::Help,
        asks_version(args[i]) && !asks_help(args[i]) ==> startup_of(args) == Startup::Version,
    decreases args.len(),
{
    if i > 0 {
        let rest = args.skip(1);
        assert(rest[i - 1] == args[i]);
        assert forall|j: int| 0 <= j < i - 1 implies !asks_help(#[trigger] rest[j])
            && !asks_version(rest[j]) by {
            assert(rest[j] == args[j + 1]);
        }
        law_first_question_is_answered(rest, i - 1);
    }
}

/// Without such an argument the compositor runs, with Xwayland unless some
/// argument turns it off; every other argument is ignored.
pub proof fn law_runs_unless_asked(args: Seq<Option<Seq<char>>>)
    requires
        forall|j: int|
            0 <= j < args.len() ==> !asks_help(#[trigger] args[j]) && !asks_version(args[j]),
    ensures
        startup_of(args) == (Startup::Run {
            with_xwayland: !exists|j: int|
                0 <= j < args.len() && refuses_xwayland(#[trigger] args[j]),
        }),
    decreases args.len(),
{
    if args.len() > 0 {
        let rest = args.skip(1);
        assert forall|j: int| 0 <= j < rest.len() implies !asks_help(#[trigger] rest[j])
            && !asks_version(rest[j]) by {
            assert(rest[j] == args[j + 1]);
        }
        law_runs_unless_asked(rest);
        let in_rest = exists|j: int| 0 <= j < rest.len() && refuses_xwayland(#[trigger] rest[j]);
        let in_args = exists|j: int| 0 <= j < args.len() && refuses_xwayland(#[trigger] args[j]);
        if in_rest {
            let j = choose|j: int| 0 <= j < rest.len() && refuses_xwayland(#[trigger] rest[j]);
            assert(refuses_xwayland(args[j + 1]));
        }
        if in_args {
            let j = choose|j: int| 0 <= j < args.len() && refuses_xwayland(#[trigger] args[j]);
            if j > 0 {
                assert(refuses_xwayland(rest[j - 1]));
            }
        }
        assert(in_args <==> (refuses_xwayland(args[0]) || in_rest));
    }
}

/// The line that names the version.
pub open spec fn version_line(version: Seq<char>, git_rev: Seq<char>) -> Seq<char> {
    "cosmic-comp "@ + version + " (git commit "@ + git_rev + ")"@
}

/// Writes the line that names the version.
pub fn version_text(version: &str, git_rev: &str) -> (r: String)
    ensures
        r@ == version_line(version@, git_rev@),
{
    let mut r = "cosmic-comp ".to_owned();
    r.append(version);
    r.append(" (git commit ");
    r.append(git_rev);
    r.append(")");
    r
}

/// The help text below the version.
pub const HELP_BODY: &'static str =
    "\nSystem76 <info@system76.com>\n\nDesigned for the COSMIC\u{2122} desktop environment, cosmic-comp is a Wayland Compositor.\n\nProject home page: https://github.com/pop-os/cosmic-comp\n\nOptions:\n  -h, --help          Show this message\n  --no-xwayland       Run without Xwayland\n  -v, --version       Show the version of cosmic-comp";

/// Writes the help text.
pub fn help_text(version: &str, git_rev: &str) -> (r: String)
    ensures
        r@ == version_line(version@, git_rev@) + HELP_BODY@,
{
    let mut r = version_text(version, git_rev);
    r.append(HELP_BODY);
    r
}

/// The nice value that the compositor runs at.
pub const COMPOSITOR_TARGET_NICE: i32 = -10;

/// The nice value to set, where the current one is not low enough already.
pub fn priority_to_set(current: i32) -> (r: Option<i32>)
    ensures
        r == if current <= COMPOSITOR_TARGET_NICE {
            None::<i32>
        } else {
            Some(COMPOSITOR_TARGET_NICE)
        },
{
    if current <= COMPOSITOR_TARGET_NICE {
        None
    } else {
        Some(COMPOSITOR_TARGET_NICE)
    }
}

/// The program of a kiosk session and its arguments.
pub struct KioskCommand {
    pub program: String,
    pub args: Vec<String>,
}

/// The kiosk command is what follows the compositor's own name.
pub open spec fn is_kiosk_command(args: Seq<Seq<char>>, command: Option<KioskCommand>) -> bool {
    match command {
        None => args.len() <= 1,
        Some(command) => {
            &&& args.len() > 1
            &&& command.program@ == args[1]
            &&& text::texts(command.args@) == args.skip(2)
        },
    }
}

/// Takes the kiosk command from the arguments of the process.
pub fn kiosk_command(args: Vec<String>) -> (r: Option<KioskCommand>)
    ensures
        is_kiosk_command(text::texts(args@), r),
{
    if args.len() <= 1 {
        return None;
    }
    let ghost all = args@;
    let mut args = args;
    let rest = args.split_off(2);
    let program = args[1].clone();
    proof {
        assert(text::texts(rest@) =~= text::texts(all).skip(2));
    }
    Some(KioskCommand { program, args: rest })
}

/// What to do once the compositor is ready.
pub struct ReadyPlan {
    /// Tell the service manager and update the D-Bus activation environment.
    pub announce: bool,
    /// Start a kiosk child, after the session was told.
    pub kiosk: Option<KioskCommand>,
}

/// The compositor shows its help exactly if an argument asks for it before any
/// asks for the version, and its version exactly if one asks for that first.
/// Else it runs, without Xwayland exactly if an argument says so.
pub proof fn law_how_the_compositor_starts(args: Seq<Option<Seq<char>>>)
    ensures
        startup_of(args) == Startup::Help <==> exists|i: int|
            0 <= i < args.len() && (#[trigger] args[i] == Some("--help"@) || args[i] == Some("-h"@))
                && forall|j: int|
                0 <= j < i ==> #[trigger] args[j] != Some("--version"@) && args[j] != Some("-V"@)
                    && args[j] != Some("-v"@),
        startup_of(args) == Startup::Version <==> exists|i: int|
            0 <= i < args.len() && (#[trigger] args[i] == Some("--version"@) || args[i] == Some(
                "-V"@,
            ) || args[i] == Some("-v"@)) && forall|j: int|
                0 <= j < i ==> #[trigger] args[j] != Some("--help"@) && args[j] != Some("-h"@),
        startup_of(args) matches Startup::Run { with_xwayland } ==> (!with_xwayland <==> exists|
            i: int,
        |
            0 <= i < args.len() && #[trigger] args[i] == Some("--no-xwayland"@)),
{
    lemma_questions_differ();
    if exists|i: int| decides(args, i) {
        let i = choose|i: int| decides(args, i);
        law_first_question_is_answered(args, i);
        if asks_help(args[i]) {
            assert(args[i] == Some("--help"@) || args[i] == Some("-h"@));
            assert forall|j: int| 0 <= j < i implies #[trigger] args[j] != Some("--version"@)
                && args[j] != Some("-V"@) && args[j] != Some("-v"@) by {
                assert(!asks_version(args[j]));
            }
            assert forall|k: int|
                0 <= k < args.len() && (#[trigger] args[k] == Some("--version"@) || args[k] == Some(
                    "-V"@,
                ) || args[k] == Some("-v"@)) implies i < k by {
                if k < i {
                    assert(!asks_version(args[k]));
                }
            }
        } else {
            assert forall|j: int| 0 <= j < i implies #[trigger] args[j] != Some("--help"@)
                && args[j] != Some("-h"@) by {
                assert(!asks_help(args[j]));
            }
            assert(args[i] == Some("--version"@) || args[i] == Some("-V"@) || args[i] == Some(
                "-v"@,
            ));
            assert forall|k: int|
                0 <= k < args.len() && (#[trigger] args[k] == Some("--help"@) || args[k] == Some(
                    "-h"@,
                )) implies i < k by {
                if k < i {
                    assert(!asks_help(args[k]));
                }
            }
        }
    } else {
        lemma_no_question(args, args.len() as int);
        law_runs_unless_asked(args);
        assert forall|j: int| 0 <= j < args.len() implies #[trigger] args[j] != Some("--help"@)
            && args[j] != Some("-h"@) && args[j] != Some("--version"@) && args[j] != Some("-V"@)
            && args[j] != Some("-v"@) by {
            assert(!asks_help(args[j]) && !asks_version(args[j]));
        }
        if exists|j: int| 0 <= j < args.len() && refuses_xwayland(#[trigger] args[j]) {
            let j = choose|j: int| 0 <= j < args.len() && refuses_xwayland(#[trigger] args[j]);
            assert(args[j] == Some("--no-xwayland"@));
        }
        if exists|i: int| 0 <= i < args.len() && #[trigger] args[i] == Some("--no-xwayland"@) {
            let i = choose|i: int|
                0 <= i < args.len() && #[trigger] args[i] == Some("--no-xwayland"@);
            assert(refuses_xwayland(args[i]));
        }
    }
}

/// Where no argument is the first to ask, none asks.
proof fn lemma_no_question(args: Seq<Option<Seq<char>>>, n: int)
    requires
        0 <= n <= args.len(),
        !exists|i: int| decides(args, i),
    ensures
        forall|j: int| 0 <= j < n ==> !asks_help(#[trigger] args[j]) && !asks_version(args[j]),
    decreases n,
{
    if n > 0 {
        lemma_no_question(args, n - 1);
        assert(!decides(args, n - 1));
    }
}

proof fn lemma_questions_differ()
    ensures
        "--help"@ != "--version"@,
        "--help"@ != "-V"@,
        "--help"@ != "-v"@,
        "-h"@ != "--version"@,
        "-h"@ != "-V"@,
        "-h"@ != "-v"@,
{
    reveal_strlit("--help");
    reveal_strlit("-h");
    reveal_strlit("--version");
    reveal_strlit("-V");
    reveal_strlit("-v");
    assert("--help"@.len() == 6);
    assert("--version"@.len() == 9);
    assert("-h"@.len() == 2);
    assert("-V"@.len() == 2);
    assert("-v"@.len() == 2);
    assert("-h"@[1] == 'h');
    assert("-V"@[1] == 'V');
    assert("-v"@[1] == 'v');
}

/// The texts of the arguments stand at the places of the arguments, and one
/// that is no text stays none.
pub proof fn law_arguments_in_place(args: Seq<Option<String>>, i: int)
    requires
        0 <= i < args.len(),
    ensures
        arg_texts(args).len() == args.len(),
        args[i] matches Some(arg) ==> arg_texts(args)[i] == Some(arg@),
        args[i] is None ==> arg_texts(args)[i] is None,
{
}

/// The version stands behind the compositor's name, and the revision in
/// brackets behind that.
pub proof fn law_version_line(version: Seq<char>, git_rev: Seq<char>)
    ensures
        ({
            let line = version_line(version, git_rev);
            let v = version.len() as int;
            let g = git_rev.len() as int;
            &&& line.len() == 12 + v + 13 + g + 1
            &&& line.take(12) == "cosmic-comp "@
            &&& line.subrange(12, 12 + v) == version
            &&& line.subrange(12 + v, 25 + v) == " (git commit "@
            &&& line.subrange(25 + v, 25 + v + g) == git_rev
            &&& line.last() == ')'
        }),
{
    reveal_strlit("cosmic-comp ");
    reveal_strlit(" (git commit ");
    reveal_strlit(")");
    let line = version_line(version, git_rev);
    let v = version.len() as int;
    let g = git_rev.len() as int;
    assert("cosmic-comp "@.len() == 12);
    assert(" (git commit "@.len() == 13);
    assert(")"@.len() == 1);
    assert(line.take(12) =~= "cosmic-comp "@);
    assert(line.subrange(12, 12 + v) =~= version);
    assert(line.subrange(12 + v, 25 + v) =~= " (git commit "@);
    assert(line.subrange(25 + v, 25 + v + g) =~= git_rev);
}

/// The compositor ends up at its target priority or keeps a higher one; a
/// priority is set only where that raises it.
pub proof fn law_priority_is_only_raised(current: i32, set: Option<i32>)
    requires
        call_ensures(priority_to_set, (current,), set),
    ensures
        set matches Some(nice) ==> nice == -10 && nice < current,
        set is None ==> current <= -10,
{
}

/// There is a kiosk command exactly if an argument follows the compositor's
/// name, and the name, the program and its arguments are all arguments there
/// are.
pub proof fn law_kiosk_command_is_the_rest(args: Seq<Seq<char>>, command: Option<KioskCommand>)
    requires
        is_kiosk_command(args, command),
    ensures
        command is Some <==> args.len() > 1,
        command matches Some(kiosk) ==> {
            &&& kiosk.args@.len() == args.len() - 2
            &&& kiosk.program@ == args[1]
            &&& forall|i: int|
                0 <= i < kiosk.args@.len() ==> (#[trigger] kiosk.args@[i])@ == args[i + 2]
        },
{
    if let Some(kiosk) = command {
        assert(text::texts(kiosk.args@).len() == args.skip(2).len());
        assert forall|i: int| 0 <= i < kiosk.args@.len() implies (#[trigger] kiosk.args@[i])@
            == args[i + 2] by {
            assert(text::texts(kiosk.args@)[i] == args.skip(2)[i]);
        }
    }
}

/// The compositor starts by the first of its arguments that asks for the help
/// or the version, and else runs, without Xwayland exactly if an argument says
/// so; arguments that are no text and all others are passed over.
pub proof fn law_start_by_the_arguments(
    args: &Vec<Option<String>>,
    start: Startup,
    raw: &RawArgs,
    raw_start: Startup,
    words: Seq<Option<Seq<char>>>,
)
    requires
        call_ensures(parse_startup, (args,), start),
        call_ensures(parse_raw_args, (raw,), raw_start),
        words.len() == args@.len(),
        forall|i: int| 0 <= i < words.len() ==> #[trigger] words[i] == text::text_of(args@[i]),
    ensures
        start == Startup::Help <==> exists|i: int|
            0 <= i < words.len() && (#[trigger] words[i] == Some("--help"@) || words[i] == Some(
                "-h"@,
            )) && forall|j: int|
                0 <= j < i ==> #[trigger] words[j] != Some("--version"@) && words[j] != Some("-V"@)
                    && words[j] != Some("-v"@),
        start == Startup::Version <==> exists|i: int|
            0 <= i < words.len() && (#[trigger] words[i] == Some("--version"@) || words[i] == Some(
                "-V"@,
            ) || words[i] == Some("-v"@)) && forall|j: int|
                0 <= j < i ==> #[trigger] words[j] != Some("--help"@) && words[j] != Some("-h"@),
        start matches Startup::Run { with_xwayland } ==> (!with_xwayland <==> exists|i: int|
            0 <= i < words.len() && #[trigger] words[i] == Some("--no-xwayland"@)),
        raw_args(*raw) == words ==> raw_start == start,
{
    assert(words =~= arg_texts(args@));
    law_how_the_compositor_starts(words);
}

/// The help starts with the line that names the version, which holds the
/// version and the revision that it was given, and goes on with the help text.
pub proof fn law_help_starts_with_the_version(
    version: &str,
    git_rev: &str,
    line: String,
    help: String,
)
    requires
        call_ensures(version_text, (version, git_rev), line),
        call_ensures(help_text, (version, git_rev), help),
    ensures
        line@ == "cosmic-comp "@ + version@ + " (git commit "@ + git_rev@ + ")"@,
        help@.take(line@.len() as int) == line@,
        help@.skip(line@.len() as int) == HELP_BODY@,
{
}

/// The kiosk program is the argument behind the compositor's name, and its
/// arguments are all that follow.
pub proof fn law_kiosk_program(args: Vec<String>, command: Option<KioskCommand>)
    requires
        call_ensures(kiosk_command, (args,), command),
    ensures
        command is Some <==> args@.len() > 1,
        command matches Some(kiosk) ==> {
            &&& kiosk.program@ == args@[1]@
            &&& kiosk.args@.len() == args@.len() - 2
            &&& forall|i: int|
                0 <= i < kiosk.args@.len() ==> (#[trigger] kiosk.args@[i])@ == args@[i + 2]@
        },
{
    law_kiosk_command_is_the_rest(text::texts(args@), command);
    if let Some(kiosk) = command {
        assert forall|i: int| 0 <= i < kiosk.args@.len() implies (#[trigger] kiosk.args@[i])@
            == args@[i + 2]@ by {
            assert(text::texts(args@)[i + 2] == args@[i + 2]@);
        }
    }
}

} // verus!
