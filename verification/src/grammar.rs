//! The grammar of the launch command line, stated apart from how it is read,
//! and the laws that tie the two together.

use vstd::prelude::*;
use crate::background_launch;
use crate::command_line;
use crate::text;

verus! {

use crate::command_line::CommandArgsView;
use crate::command_line::LaunchArgsView;
use crate::command_line::Options;

/// One option of a launch.
pub ghost enum LaunchOption {
    Workspace(Seq<char>),
    FramePacing(Seq<char>),
    IsolatedInput,
}

/// The words that an option is written with.
pub open spec fn option_words(o: LaunchOption) -> Seq<Seq<char>> {
    match o {
        LaunchOption::Workspace(name) => seq!["--workspace"@, name],
        LaunchOption::FramePacing(pacing) => seq!["--frame-pacing"@, pacing],
        LaunchOption::IsolatedInput => seq!["--isolated-input"@],
    }
}

/// The words of a list of options.
pub open spec fn words(options: Seq<LaunchOption>) -> Seq<Seq<char>>
    decreases options.len(),
{
    if options.len() == 0 {
        Seq::empty()
    } else {
        option_words(options[0]) + words(options.skip(1))
    }
}

/// The words of a launch: its options, `--`, then the command.
pub open spec fn launch_words(options: Seq<LaunchOption>, argv: Seq<Seq<char>>) -> Seq<Seq<char>> {
    words(options) + seq!["--"@] + argv
}

/// A workspace name is not blank, and a frame pacing is a known one.
pub open spec fn option_ok(o: LaunchOption) -> bool {
    match o {
        LaunchOption::Workspace(name) => !text::blank(name),
        LaunchOption::FramePacing(pacing) => command_line::is_frame_pacing(pacing),
        LaunchOption::IsolatedInput => true,
    }
}

/// Whether two options are written with the same flag.
pub open spec fn same_flag(a: LaunchOption, b: LaunchOption) -> bool {
    match a {
        LaunchOption::Workspace(_) => b is Workspace,
        LaunchOption::FramePacing(_) => b is FramePacing,
        LaunchOption::IsolatedInput => b is IsolatedInput,
    }
}

/// Each option is in order, and no flag stands twice.
pub open spec fn options_ok(options: Seq<LaunchOption>) -> bool {
    &&& forall|i: int| 0 <= i < options.len() ==> option_ok(#[trigger] options[i])
    &&& forall|i: int, j: int|
        0 <= i < j < options.len() ==> !same_flag(#[trigger] options[i], #[trigger] options[j])
}

/// `launch` is what the options and the command ask for.
pub open spec fn describes(
    launch: LaunchArgsView,
    options: Seq<LaunchOption>,
    argv: Seq<Seq<char>>,
) -> bool {
    &&& options.contains(LaunchOption::Workspace(launch.workspace_name))
    &&& {
        ||| options.contains(LaunchOption::FramePacing(launch.frame_pacing))
        ||| {
            &&& launch.frame_pacing == command_line::default_frame_pacing()
            &&& forall|p: Seq<char>| !#[trigger] options.contains(LaunchOption::FramePacing(p))
        }
    }
    &&& launch.isolated_input == options.contains(LaunchOption::IsolatedInput)
    &&& launch.argv == argv
    &&& argv.len() > 0
}

/// `args` writes `launch` with these options.
pub open spec fn spelled_with(
    args: Seq<Seq<char>>,
    launch: LaunchArgsView,
    options: Seq<LaunchOption>,
) -> bool {
    &&& options_ok(options)
    &&& describes(launch, options, launch.argv)
    &&& args == launch_words(options, launch.argv)
}

/// `args` writes `launch`, with its options in some order.
pub open spec fn spells(args: Seq<Seq<char>>, launch: LaunchArgsView) -> bool {
    exists|options: Seq<LaunchOption>| spelled_with(args, launch, options)
}

/// The flag of `o` has not been read yet.
spec fn unseen(seen: Options, o: LaunchOption) -> bool {
    match o {
        LaunchOption::Workspace(_) => seen.workspace_name is None,
        LaunchOption::FramePacing(_) => seen.frame_pacing is None,
        LaunchOption::IsolatedInput => !seen.isolated_input,
    }
}

spec fn with_option(seen: Options, o: LaunchOption) -> Options {
    match o {
        LaunchOption::Workspace(name) => Options { workspace_name: Some(name), ..seen },
        LaunchOption::FramePacing(pacing) => Options { frame_pacing: Some(pacing), ..seen },
        LaunchOption::IsolatedInput => Options { isolated_input: true, ..seen },
    }
}

spec fn with_options(seen: Options, options: Seq<LaunchOption>) -> Options
    decreases options.len(),
{
    if options.len() == 0 {
        seen
    } else {
        with_options(with_option(seen, options[0]), options.skip(1))
    }
}

/// Each option is in order, and its flag is new when it comes.
spec fn readable(seen: Options, options: Seq<LaunchOption>) -> bool
    decreases options.len(),
{
    options.len() == 0 || {
        &&& option_ok(options[0])
        &&& unseen(seen, options[0])
        &&& readable(with_option(seen, options[0]), options.skip(1))
    }
}

proof fn lemma_flags_differ()
    ensures
        "--"@ != "--workspace"@,
        "--"@ != "--frame-pacing"@,
        "--"@ != "--isolated-input"@,
        "--workspace"@ != "--frame-pacing"@,
        "--workspace"@ != "--isolated-input"@,
        "--frame-pacing"@ != "--isolated-input"@,
{
    reveal_strlit("--");
    reveal_strlit("--workspace");
    reveal_strlit("--frame-pacing");
    reveal_strlit("--isolated-input");
    assert("--"@.len() == 2);
    assert("--workspace"@.len() == 11);
    assert("--frame-pacing"@.len() == 14);
    assert("--isolated-input"@.len() == 16);
}

/// What is read can be written: the options that were read, in their order.
proof fn lemma_read_is_written(args: Seq<Seq<char>>, seen: Options) -> (options: Seq<LaunchOption>)
    requires
        command_line::read_options(args, seen) is Some,
    ensures
        readable(seen, options),
        ({
            let (read, argv) = command_line::read_options(args, seen).unwrap();
            &&& read == with_options(seen, options)
            &&& args == launch_words(options, argv)
        }),
    decreases args.len(),
{
    let (read, argv) = command_line::read_options(args, seen).unwrap();
    if args[0] == "--"@ {
        let options = Seq::<LaunchOption>::empty();
        assert(args =~= launch_words(options, argv));
        options
    } else {
        let first = if args[0] == "--workspace"@ {
            LaunchOption::Workspace(args[1])
        } else if args[0] == "--frame-pacing"@ {
            LaunchOption::FramePacing(args[1])
        } else {
            LaunchOption::IsolatedInput
        };
        let used = option_words(first).len() as int;
        let rest = lemma_read_is_written(args.skip(used), with_option(seen, first));
        let options = seq![first] + rest;
        assert(options.skip(1) =~= rest);
        assert(args =~= option_words(first) + args.skip(used));
        assert(args =~= launch_words(options, argv));
        options
    }
}

/// What is written can be read.
proof fn lemma_written_is_read(seen: Options, options: Seq<LaunchOption>, argv: Seq<Seq<char>>)
    requires
        readable(seen, options),
    ensures
        command_line::read_options(launch_words(options, argv), seen) == Some(
            (with_options(seen, options), argv),
        ),
    decreases options.len(),
{
    lemma_flags_differ();
    let args = launch_words(options, argv);
    if options.len() == 0 {
        assert(args[0] == "--"@);
        assert(args.skip(1) =~= argv);
    } else {
        let first = options[0];
        let rest = launch_words(options.skip(1), argv);
        let used = option_words(first).len() as int;
        lemma_written_is_read(with_option(seen, first), options.skip(1), argv);
        assert(args =~= option_words(first) + rest);
        assert(args.skip(used) =~= rest);
        assert(args[0] == option_words(first)[0]);
        if used == 2 {
            assert(args[1] == option_words(first)[1]);
        }
    }
}

/// Readable options are those in order with no flag twice and none seen before.
proof fn lemma_readable(seen: Options, options: Seq<LaunchOption>)
    ensures
        readable(seen, options) <==> {
            &&& options_ok(options)
            &&& forall|i: int| 0 <= i < options.len() ==> unseen(seen, #[trigger] options[i])
        },
    decreases options.len(),
{
    if options.len() > 0 {
        let first = options[0];
        let rest = options.skip(1);
        lemma_readable(with_option(seen, first), rest);
        assert forall|i: int| 0 <= i < rest.len() implies #[trigger] rest[i] == options[i + 1] by {}
        if readable(seen, options) {
            assert forall|i: int| 0 <= i < options.len() implies option_ok(#[trigger] options[i])
                && unseen(seen, options[i]) by {
                if i > 0 {
                    assert(options[i] == rest[i - 1]);
                }
            }
            assert forall|i: int, j: int| 0 <= i < j < options.len() implies !same_flag(
                #[trigger] options[i],
                #[trigger] options[j],
            ) by {
                assert(options[j] == rest[j - 1]);
                if i > 0 {
                    assert(options[i] == rest[i - 1]);
                }
            }
        }
        if options_ok(options) && (forall|i: int|
            0 <= i < options.len() ==> unseen(seen, #[trigger] options[i])) {
            assert forall|i: int| 0 <= i < rest.len() implies unseen(
                with_option(seen, first),
                #[trigger] rest[i],
            ) by {
                assert(!same_flag(options[0], options[i + 1]));
            }
            assert(options_ok(rest));
        }
    }
}

/// What a list of readable options adds up to.
proof fn lemma_with_options(seen: Options, options: Seq<LaunchOption>)
    requires
        readable(seen, options),
    ensures
        ({
            let all = with_options(seen, options);
            &&& forall|n: Seq<char>|
                all.workspace_name == Some(n) <==> (seen.workspace_name == Some(n)
                    || #[trigger] options.contains(LaunchOption::Workspace(n)))
            &&& forall|p: Seq<char>|
                all.frame_pacing == Some(p) <==> (seen.frame_pacing == Some(p)
                    || #[trigger] options.contains(LaunchOption::FramePacing(p)))
            &&& all.isolated_input <==> (seen.isolated_input || options.contains(
                LaunchOption::IsolatedInput,
            ))
        }),
    decreases options.len(),
{
    if options.len() > 0 {
        let first = options[0];
        let rest = options.skip(1);
        lemma_with_options(with_option(seen, first), rest);
        lemma_readable(seen, options);
        lemma_readable(with_option(seen, first), rest);
        assert forall|o: LaunchOption| options.contains(o) <==> (o == first || rest.contains(o)) by {
            if options.contains(o) && o != first {
                let i = choose|i: int| 0 <= i < options.len() && options[i] == o;
                assert(rest[i - 1] == o);
            }
            if rest.contains(o) {
                let i = choose|i: int| 0 <= i < rest.len() && rest[i] == o;
                assert(options[i + 1] == o);
            }
            if o == first {
                assert(options[0] == o);
            }
        }
        let all = with_options(seen, options);
        let mid = with_option(seen, first);
        assert(all == with_options(mid, rest));
        assert forall|n: Seq<char>| all.workspace_name == Some(n) <==> (seen.workspace_name == Some(n)
            || #[trigger] options.contains(LaunchOption::Workspace(n))) by {
            let o = LaunchOption::Workspace(n);
            assert(options.contains(o) <==> (o == first || rest.contains(o)));
            assert(rest.contains(LaunchOption::Workspace(n)) ==> all.workspace_name == Some(n));
            if let LaunchOption::Workspace(own) = first {
                assert(rest.contains(LaunchOption::Workspace(own)) || all.workspace_name == Some(own));
            }
        }
        assert forall|p: Seq<char>| all.frame_pacing == Some(p) <==> (seen.frame_pacing == Some(p)
            || #[trigger] options.contains(LaunchOption::FramePacing(p))) by {
            let o = LaunchOption::FramePacing(p);
            assert(options.contains(o) <==> (o == first || rest.contains(o)));
            assert(rest.contains(LaunchOption::FramePacing(p)) ==> all.frame_pacing == Some(p));
            if let LaunchOption::FramePacing(own) = first {
                assert(rest.contains(LaunchOption::FramePacing(own)) || all.frame_pacing == Some(own));
            }
        }
        assert(options.contains(LaunchOption::IsolatedInput) <==> (LaunchOption::IsolatedInput
            == first || rest.contains(LaunchOption::IsolatedInput)));
    }
}

/// A launch is read from exactly the command lines that write it: nothing
/// else is taken for a launch, and no way to write one is refused.
pub proof fn law_launch_grammar(args: Seq<Seq<char>>, launch: LaunchArgsView)
    ensures
        command_line::read_launch(args) == Some(launch) <==> spells(args, launch),
{
    let none = command_line::no_options();
    if command_line::read_launch(args) == Some(launch) {
        let options = lemma_read_is_written(args, none);
        lemma_readable(none, options);
        lemma_with_options(none, options);
        let all = with_options(none, options);
        if all.frame_pacing is None {
            assert forall|p: Seq<char>| !#[trigger] options.contains(
                LaunchOption::FramePacing(p),
            ) by {}
        } else {
            assert(options.contains(LaunchOption::FramePacing(launch.frame_pacing)));
        }
        assert(options.contains(LaunchOption::Workspace(launch.workspace_name)));
        assert(spelled_with(args, launch, options));
    }
    if spells(args, launch) {
        let options = choose|options: Seq<LaunchOption>| spelled_with(args, launch, options);
        lemma_readable(none, options);
        lemma_written_is_read(none, options, launch.argv);
        lemma_with_options(none, options);
        let all = with_options(none, options);
        assert(all.workspace_name == Some(launch.workspace_name));
        if let Some(p) = all.frame_pacing {
            assert(options.contains(LaunchOption::FramePacing(p)));
        }
        assert(command_line::read_launch(args) == Some(launch));
    }
}

/// Rearranged options are in order again.
proof fn lemma_rearranged(one: Seq<LaunchOption>, other: Seq<LaunchOption>)
    requires
        options_ok(one),
        one.to_multiset() == other.to_multiset(),
    ensures
        options_ok(other),
        forall|o: LaunchOption| #[trigger] one.contains(o) <==> other.contains(o),
{
    broadcast use vstd::seq_lib::group_to_multiset_ensures;

    assert forall|o: LaunchOption| #[trigger] one.contains(o) <==> other.contains(o) by {
        assert(one.contains(o) <==> one.to_multiset().count(o) > 0);
        assert(other.contains(o) <==> other.to_multiset().count(o) > 0);
    }
    assert(one.no_duplicates()) by {
        assert forall|i: int, j: int| 0 <= i < j < one.len() implies one[i] != one[j] by {
            assert(!same_flag(one[i], one[j]));
        }
    }
    one.lemma_multiset_has_no_duplicates();
    other.lemma_multiset_has_no_duplicates_conv();
    assert forall|i: int| 0 <= i < other.len() implies option_ok(#[trigger] other[i]) by {
        assert(other.contains(other[i]));
        assert(one.contains(other[i]));
    }
    assert forall|i: int, j: int| 0 <= i < j < other.len() implies !same_flag(
        #[trigger] other[i],
        #[trigger] other[j],
    ) by {
        assert(other.contains(other[i]) && other.contains(other[j]));
        assert(one.contains(other[i]) && one.contains(other[j]));
        let k = choose|k: int| 0 <= k < one.len() && one[k] == other[i];
        let l = choose|l: int| 0 <= l < one.len() && one[l] == other[j];
        assert(other[i] != other[j]);
        if k < l {
            assert(!same_flag(one[k], one[l]));
        } else {
            assert(!same_flag(one[l], one[k]));
        }
    }
}

/// The options of a launch may stand in any order.
pub proof fn law_option_order(
    one: Seq<LaunchOption>,
    other: Seq<LaunchOption>,
    argv: Seq<Seq<char>>,
)
    requires
        options_ok(one),
        one.to_multiset() == other.to_multiset(),
    ensures
        command_line::read_launch(launch_words(one, argv)) == command_line::read_launch(
            launch_words(other, argv),
        ),
{
    let none = command_line::no_options();
    lemma_rearranged(one, other);
    lemma_readable(none, one);
    lemma_readable(none, other);
    lemma_written_is_read(none, one, argv);
    lemma_written_is_read(none, other, argv);
    lemma_with_options(none, one);
    lemma_with_options(none, other);
    let a = with_options(none, one);
    let b = with_options(none, other);
    assert(a.workspace_name == b.workspace_name) by {
        if let Some(n) = a.workspace_name {
            assert(one.contains(LaunchOption::Workspace(n)));
        }
        if let Some(n) = b.workspace_name {
            assert(other.contains(LaunchOption::Workspace(n)));
            assert(one.contains(LaunchOption::Workspace(n)));
        }
    }
    assert(a.frame_pacing == b.frame_pacing) by {
        if let Some(p) = a.frame_pacing {
            assert(one.contains(LaunchOption::FramePacing(p)));
        }
        if let Some(p) = b.frame_pacing {
            assert(other.contains(LaunchOption::FramePacing(p)));
            assert(one.contains(LaunchOption::FramePacing(p)));
        }
    }
    assert(one.contains(LaunchOption::IsolatedInput) <==> other.contains(
        LaunchOption::IsolatedInput,
    ));
}

/// `args` writes `command`.
pub open spec fn spells_command(args: Seq<Seq<char>>, command: CommandArgsView) -> bool {
    match command {
        CommandArgsView::Launch(launch) => spells(args, launch),
        CommandArgsView::Reconcile(id) => args == seq!["--reconcile"@, id] && !text::blank(id),
        CommandArgsView::IsolationStatus(id) => args == seq!["--isolation-status"@, id]
            && !text::blank(id),
        CommandArgsView::Release(id) => args == seq!["--release"@, id] && !text::blank(id),
    }
}

/// A command is read from exactly the command lines that write it.
pub proof fn law_command_grammar(args: Seq<Seq<char>>, command: CommandArgsView)
    ensures
        command_line::read_command(args) == Some(command) <==> spells_command(args, command),
{
    lemma_modes_differ();
    match command {
        CommandArgsView::Launch(launch) => {
            law_launch_grammar(args, launch);
            if spells(args, launch) {
                let options = choose|options: Seq<LaunchOption>|
                    spelled_with(args, launch, options);
                if options.len() == 0 {
                    assert(args[0] == "--"@);
                } else {
                    assert(args[0] == option_words(options[0])[0]);
                }
            }
        },
        CommandArgsView::Reconcile(id) => {
            if command_line::read_command(args) == Some(command) {
                assert(args =~= seq!["--reconcile"@, id]);
            }
        },
        CommandArgsView::IsolationStatus(id) => {
            if command_line::read_command(args) == Some(command) {
                assert(args =~= seq!["--isolation-status"@, id]);
            }
        },
        CommandArgsView::Release(id) => {
            if command_line::read_command(args) == Some(command) {
                assert(args =~= seq!["--release"@, id]);
            }
        },
    }
}

spec fn is_mode(word: Seq<char>) -> bool {
    word == "--reconcile"@ || word == "--isolation-status"@ || word == "--release"@
}

proof fn lemma_modes_differ()
    ensures
        !is_mode("--"@),
        !is_mode("--workspace"@),
        !is_mode("--frame-pacing"@),
        !is_mode("--isolated-input"@),
        "--reconcile"@ != "--isolation-status"@,
        "--reconcile"@ != "--release"@,
        "--isolation-status"@ != "--release"@,
{
    lemma_flags_differ();
    reveal_strlit("--");
    reveal_strlit("--workspace");
    reveal_strlit("--frame-pacing");
    reveal_strlit("--isolated-input");
    reveal_strlit("--reconcile");
    reveal_strlit("--isolation-status");
    reveal_strlit("--release");
    assert("--reconcile"@.len() == 11);
    assert("--reconcile"@[2] == 'r');
    assert("--workspace"@[2] == 'w');
    assert("--isolation-status"@.len() == 18);
    assert("--release"@.len() == 9);
    assert("--"@.len() == 2);
    assert("--frame-pacing"@.len() == 14);
    assert("--isolated-input"@.len() == 16);
}

/// The service understands every launch that the command line takes: it knows
/// the pacing, and refuses the launch only if the program has no name.
pub proof fn law_service_understands_client(args: Seq<Seq<char>>, launch: LaunchArgsView)
    requires
        command_line::read_launch(args) == Some(launch),
    ensures
        background_launch::pacing_named(launch.frame_pacing) is Some,
        background_launch::launch_refusal(launch.workspace_name, launch.argv) == if launch.argv[0].len()
            == 0 {
            Some("program must not be empty"@)
        } else {
            None
        },
{
    law_launch_grammar(args, launch);
    let options = choose|options: Seq<LaunchOption>| spelled_with(args, launch, options);
    let i = choose|i: int|
        0 <= i < options.len() && options[i] == LaunchOption::Workspace(launch.workspace_name);
    assert(option_ok(options[i]));
    if options.contains(LaunchOption::FramePacing(launch.frame_pacing)) {
        let j = choose|j: int|
            0 <= j < options.len() && options[j] == LaunchOption::FramePacing(launch.frame_pacing);
        assert(option_ok(options[j]));
    }
}

/// A launch without options asks for the pacing that the command line names by
/// default.
pub proof fn law_default_pacing()
    ensures
        background_launch::pacing_named(command_line::default_frame_pacing()) == Some(
            background_launch::BackgroundFramePacing::Standard,
        ),
{
}

/// What is read as a launch ends in `--` and the command, names its workspace
/// before that, and asks for isolated input or a pacing other than the
/// standard one by the option for it. The workspace is not blank, the pacing
/// is a known one, and there is a command.
pub proof fn law_launch_stands_in_its_line(args: Seq<Seq<char>>, launch: LaunchArgsView)
    requires
        command_line::read_launch(args) == Some(launch),
    ensures
        !text::blank(launch.workspace_name),
        launch.frame_pacing == "standard"@ || launch.frame_pacing == "demand"@,
        launch.argv.len() > 0,
        ({
            let end = args.len() - launch.argv.len() - 1;
            &&& 2 <= end
            &&& args[end] == "--"@
            &&& args.skip(end + 1) == launch.argv
            &&& exists|i: int|
                0 <= i < end - 1 && #[trigger] args[i] == "--workspace"@ && args[i + 1]
                    == launch.workspace_name
            &&& launch.frame_pacing != "standard"@ ==> exists|i: int|
                0 <= i < end - 1 && #[trigger] args[i] == "--frame-pacing"@ && args[i + 1]
                    == launch.frame_pacing
            &&& launch.isolated_input ==> exists|i: int|
                0 <= i < end && #[trigger] args[i] == "--isolated-input"@
        }),
{
    law_launch_grammar(args, launch);
    let options = choose|options: Seq<LaunchOption>| spelled_with(args, launch, options);
    let end = args.len() - launch.argv.len() - 1;
    assert(end == words(options).len());
    assert(args[end] == "--"@);
    assert(args.skip(end + 1) =~= launch.argv);
    assert(forall|i: int| 0 <= i < end ==> args[i] == words(options)[i]);
    let name = LaunchOption::Workspace(launch.workspace_name);
    let w = lemma_option_in_words(options, name);
    assert(option_words(name).len() == 2);
    assert(args[w] == "--workspace"@ && args[w + 1] == launch.workspace_name);
    let at = choose|i: int| 0 <= i < options.len() && options[i] == name;
    assert(option_ok(options[at]));
    if options.contains(LaunchOption::FramePacing(launch.frame_pacing)) {
        let pacing = LaunchOption::FramePacing(launch.frame_pacing);
        let p = lemma_option_in_words(options, pacing);
        assert(option_words(pacing).len() == 2);
        assert(args[p] == "--frame-pacing"@ && args[p + 1] == launch.frame_pacing);
        let at = choose|i: int| 0 <= i < options.len() && options[i] == pacing;
        assert(option_ok(options[at]));
    }
    if launch.isolated_input {
        let k = lemma_option_in_words(options, LaunchOption::IsolatedInput);
        assert(args[k] == "--isolated-input"@);
    }
}

/// The words of an option stand somewhere in the words of its list.
proof fn lemma_option_in_words(options: Seq<LaunchOption>, o: LaunchOption) -> (at: int)
    requires
        options.contains(o),
    ensures
        0 <= at,
        at + option_words(o).len() <= words(options).len(),
        forall|k: int|
            0 <= k < option_words(o).len() ==> words(options)[at + k] == #[trigger] option_words(
                o,
            )[k],
        words(options)[at] == option_words(o)[0],
        option_words(o).len() == 2 ==> words(options)[at + 1] == option_words(o)[1],
    decreases options.len(),
{
    let all = words(options);
    let rest = options.skip(1);
    let used = option_words(options[0]).len() as int;
    assert(all == option_words(options[0]) + words(rest));
    if options[0] == o {
        0
    } else {
        let i = choose|i: int| 0 <= i < options.len() && options[i] == o;
        assert(rest[i - 1] == o);
        let at = lemma_option_in_words(rest, o);
        assert forall|k: int| 0 <= k < option_words(o).len() implies all[used + at + k]
            == #[trigger] option_words(o)[k] by {
            assert(words(rest)[at + k] == option_words(o)[k]);
        }
        assert(all[used + at] == words(rest)[at]);
        if option_words(o).len() == 2 {
            assert(all[used + at + 1] == words(rest)[at + 1]);
        }
        used + at
    }
}

/// Every launch can be asked for: a workspace that is not blank, either pacing
/// or none, isolated input or not, and any command.
pub proof fn law_every_launch_can_be_asked_for(
    name: Seq<char>,
    pacing: Option<Seq<char>>,
    isolated: bool,
    argv: Seq<Seq<char>>,
)
    requires
        !text::blank(name),
        pacing matches Some(p) ==> p == "standard"@ || p == "demand"@,
        argv.len() > 0,
    ensures
        command_line::read_launch(
            seq!["--workspace"@, name] + (match pacing {
                Some(p) => seq!["--frame-pacing"@, p],
                None => Seq::empty(),
            }) + (if isolated {
                seq!["--isolated-input"@]
            } else {
                Seq::empty()
            }) + seq!["--"@] + argv,
        ) == Some(
            LaunchArgsView {
                workspace_name: name,
                frame_pacing: match pacing {
                    Some(p) => p,
                    None => "standard"@,
                },
                isolated_input: isolated,
                argv,
            },
        ),
{
    let none = command_line::no_options();
    let paced = match pacing {
        Some(p) => seq![LaunchOption::FramePacing(p)],
        None => Seq::<LaunchOption>::empty(),
    };
    let flag = if isolated {
        seq![LaunchOption::IsolatedInput]
    } else {
        Seq::<LaunchOption>::empty()
    };
    let options = seq![LaunchOption::Workspace(name)] + paced + flag;
    reveal_with_fuel(words, 4);
    reveal_with_fuel(with_options, 4);
    reveal_with_fuel(readable, 4);
    assert(options.skip(1) =~= paced + flag);
    if pacing is Some {
        assert((paced + flag).skip(1) =~= flag);
    } else {
        assert(paced + flag =~= flag);
    }
    if isolated {
        assert(flag.skip(1) =~= Seq::<LaunchOption>::empty());
    }
    lemma_written_is_read(none, options, argv);
    assert(launch_words(options, argv) =~= seq!["--workspace"@, name] + (match pacing {
        Some(p) => seq!["--frame-pacing"@, p],
        None => Seq::empty(),
    }) + (if isolated {
        seq!["--isolated-input"@]
    } else {
        Seq::empty()
    }) + seq!["--"@] + argv);
}

/// Reading what remains once some options were seen agrees with reading it
/// alone.
proof fn lemma_read_after(args: Seq<Seq<char>>, seen: Options)
    requires
        command_line::read_options(args, seen) is Some,
    ensures
        ({
            let none = command_line::no_options();
            let (all, argv) = command_line::read_options(args, seen).unwrap();
            &&& command_line::read_options(args, none) is Some
            &&& {
                let (alone, rest) = command_line::read_options(args, none).unwrap();
                &&& rest == argv
                &&& all.workspace_name == if seen.workspace_name is Some {
                    seen.workspace_name
                } else {
                    alone.workspace_name
                }
                &&& seen.workspace_name is Some ==> alone.workspace_name is None
                &&& all.frame_pacing == if seen.frame_pacing is Some {
                    seen.frame_pacing
                } else {
                    alone.frame_pacing
                }
                &&& seen.frame_pacing is Some ==> alone.frame_pacing is None
                &&& all.isolated_input == (seen.isolated_input || alone.isolated_input)
                &&& seen.isolated_input ==> !alone.isolated_input
            }
        }),
{
    let none = command_line::no_options();
    let options = lemma_read_is_written(args, seen);
    let (all, argv) = command_line::read_options(args, seen).unwrap();
    lemma_readable(seen, options);
    lemma_readable(none, options);
    lemma_written_is_read(none, options, argv);
    lemma_with_options(none, options);
    lemma_with_options(seen, options);
    let alone = with_options(none, options);
    if let Some(n) = alone.workspace_name {
        assert(options.contains(LaunchOption::Workspace(n)));
        let i = choose|i: int| 0 <= i < options.len() && options[i] == LaunchOption::Workspace(n);
        assert(unseen(seen, options[i]));
    }
    if let Some(n) = all.workspace_name {
        assert(seen.workspace_name == Some(n) || options.contains(LaunchOption::Workspace(n)));
    }
    if let Some(n) = seen.workspace_name {
        if options.contains(LaunchOption::Workspace(n)) {
            assert(all.workspace_name == Some(n));
        } else {
            assert(all.workspace_name == Some(n));
        }
    }
    if let Some(p) = alone.frame_pacing {
        assert(options.contains(LaunchOption::FramePacing(p)));
        let i = choose|i: int| 0 <= i < options.len() && options[i] == LaunchOption::FramePacing(p);
        assert(unseen(seen, options[i]));
    }
    if let Some(p) = all.frame_pacing {
        assert(seen.frame_pacing == Some(p) || options.contains(LaunchOption::FramePacing(p)));
    }
    if let Some(p) = seen.frame_pacing {
        if options.contains(LaunchOption::FramePacing(p)) {
            assert(all.frame_pacing == Some(p));
        } else {
            assert(all.frame_pacing == Some(p));
        }
    }
    if alone.isolated_input {
        let i = choose|i: int|
            0 <= i < options.len() && options[i] == LaunchOption::IsolatedInput;
        assert(unseen(seen, options[i]));
    }
}

/// Putting an option before a launch changes what the option is for and
/// nothing else; an option that the launch has already makes it no launch.
/// Any other word in front makes it no launch either.
pub proof fn law_option_in_front(
    args: Seq<Seq<char>>,
    launch: LaunchArgsView,
    value: Seq<char>,
    word: Seq<char>,
)
    requires
        command_line::read_launch(args) == Some(launch),
    ensures
        command_line::read_launch(seq!["--isolated-input"@] + args) == if launch.isolated_input {
            None
        } else {
            Some(LaunchArgsView { isolated_input: true, ..launch })
        },
        command_line::read_launch(seq!["--workspace"@, value] + args) is None,
        launch.frame_pacing != "standard"@ || (value != "standard"@ && value != "demand"@)
            ==> command_line::read_launch(seq!["--frame-pacing"@, value] + args) is None,
        command_line::read_launch(seq!["--frame-pacing"@, value] + args) matches Some(paced)
            ==> paced == (LaunchArgsView { frame_pacing: value, ..launch }),
        word != "--"@ && word != "--workspace"@ && word != "--frame-pacing"@ && word
            != "--isolated-input"@ ==> command_line::read_launch(seq![word] + args) is None,
{
    lemma_flags_differ();
    let none = command_line::no_options();
    let options = lemma_read_is_written(args, none);
    lemma_readable(none, options);
    lemma_with_options(none, options);
    let (alone, argv) = command_line::read_options(args, none).unwrap();

    let one = seq!["--isolated-input"@] + args;
    let isolated = Options { isolated_input: true, ..none };
    assert(one.skip(1) =~= args);
    assert(one[0] == "--isolated-input"@);
    assert(command_line::read_options(one, none) == command_line::read_options(args, isolated));
    if command_line::read_options(args, isolated) is Some {
        lemma_read_after(args, isolated);
    }
    if !launch.isolated_input {
        assert forall|i: int| 0 <= i < options.len() implies unseen(
            isolated,
            #[trigger] options[i],
        ) by {
            assert(options.contains(options[i]));
        }
        lemma_readable(isolated, options);
        lemma_written_is_read(isolated, options, argv);
        lemma_read_after(args, isolated);
    }
    let two = seq!["--workspace"@, value] + args;
    let named = Options { workspace_name: Some(value), ..none };
    assert(two.skip(2) =~= args);
    assert(two[0] == "--workspace"@ && two[1] == value);
    if command_line::read_options(args, named) is Some {
        lemma_read_after(args, named);
    }
    let three = seq!["--frame-pacing"@, value] + args;
    let paced = Options { frame_pacing: Some(value), ..none };
    assert(three.skip(2) =~= args);
    assert(three[0] == "--frame-pacing"@ && three[1] == value);
    if command_line::read_options(args, paced) is Some {
        lemma_read_after(args, paced);
    }
    let four = seq![word] + args;
    assert(four[0] == word);
}

/// A line with the launch id alone behind one of the three words is a command
/// on that launch, unless the id is blank; no other line is. A line is a
/// launch command exactly if it reads as a launch.
pub proof fn law_commands_on_a_launch(
    args: Seq<Seq<char>>,
    id: Seq<char>,
    launch: LaunchArgsView,
)
    ensures
        command_line::read_command(args) == Some(CommandArgsView::Reconcile(id)) <==> args == seq![
            "--reconcile"@,
            id,
        ] && !text::blank(id),
        command_line::read_command(args) == Some(CommandArgsView::IsolationStatus(id)) <==> args
            == seq!["--isolation-status"@, id] && !text::blank(id),
        command_line::read_command(args) == Some(CommandArgsView::Release(id)) <==> args == seq![
            "--release"@,
            id,
        ] && !text::blank(id),
        command_line::read_command(args) == Some(CommandArgsView::Launch(launch))
            <==> command_line::read_launch(args) == Some(launch),
{
    law_command_grammar(args, CommandArgsView::Reconcile(id));
    law_command_grammar(args, CommandArgsView::IsolationStatus(id));
    law_command_grammar(args, CommandArgsView::Release(id));
    law_command_grammar(args, CommandArgsView::Launch(launch));
    law_launch_grammar(args, launch);
}

/// The client and the service know the same pacings, and the client's default
/// is the standard one.
pub proof fn law_pacings_agree(name: Seq<char>)
    ensures
        command_line::is_frame_pacing(name) <==> background_launch::pacing_named(name) is Some,
        command_line::is_frame_pacing(name) <==> name == "standard"@ || name == "demand"@,
        command_line::default_frame_pacing() == "standard"@,
{
}

/// How many words the options take: two for a workspace, two for a pacing and
/// one for isolated input.
proof fn lemma_words_len(seen: Options, options: Seq<LaunchOption>)
    requires
        readable(seen, options),
    ensures
        ({
            let all = with_options(seen, options);
            &&& words(options).len() == (if all.workspace_name is Some
                && seen.workspace_name is None {
                2int
            } else {
                0
            }) + (if all.frame_pacing is Some && seen.frame_pacing is None {
                2int
            } else {
                0
            }) + (if all.isolated_input && !seen.isolated_input {
                1int
            } else {
                0
            })
            &&& seen.workspace_name is Some ==> all.workspace_name is Some
            &&& seen.frame_pacing is Some ==> all.frame_pacing is Some
            &&& seen.isolated_input ==> all.isolated_input
        }),
    decreases options.len(),
{
    if options.len() > 0 {
        lemma_words_len(with_option(seen, options[0]), options.skip(1));
    }
}

/// Nothing else stands in the line of a launch: before the `--` there are two
/// words for the workspace, one for isolated input where it is asked for, and
/// at most two more, which name the pacing.
pub proof fn law_nothing_else_stands_in_the_line(args: Seq<Seq<char>>, launch: LaunchArgsView)
    requires
        command_line::read_launch(args) == Some(launch),
    ensures
        ({
            let end = args.len() - launch.argv.len() - 1;
            let named = if launch.isolated_input {
                3int
            } else {
                2
            };
            ||| end == named && launch.frame_pacing == "standard"@
            ||| end == named + 2 && exists|i: int|
                0 <= i < end - 1 && #[trigger] args[i] == "--frame-pacing"@ && args[i + 1]
                    == launch.frame_pacing
        }),
{
    let none = command_line::no_options();
    let options = lemma_read_is_written(args, none);
    let (all, argv) = command_line::read_options(args, none).unwrap();
    lemma_words_len(none, options);
    lemma_with_options(none, options);
    assert(args.len() == words(options).len() + 1 + argv.len());
    if let Some(p) = all.frame_pacing {
        assert(options.contains(LaunchOption::FramePacing(p)));
        let at = lemma_option_in_words(options, LaunchOption::FramePacing(p));
        assert(words(options)[at] == "--frame-pacing"@);
        assert(words(options)[at + 1] == p);
        assert(args[at] == words(options)[at]);
        assert(args[at + 1] == words(options)[at + 1]);
    }
}

/// Two options may stand in either order, whatever follows.
pub proof fn law_options_in_either_order(
    name: Seq<char>,
    pacing: Seq<char>,
    rest: Seq<Seq<char>>,
)
    ensures
        command_line::read_launch(
            seq!["--workspace"@, name, "--frame-pacing"@, pacing] + rest,
        ) == command_line::read_launch(
            seq!["--frame-pacing"@, pacing, "--workspace"@, name] + rest,
        ),
        command_line::read_launch(seq!["--workspace"@, name, "--isolated-input"@] + rest)
            == command_line::read_launch(seq!["--isolated-input"@, "--workspace"@, name] + rest),
        command_line::read_launch(seq!["--frame-pacing"@, pacing, "--isolated-input"@] + rest)
            == command_line::read_launch(seq!["--isolated-input"@, "--frame-pacing"@, pacing] + rest),
{
    lemma_flags_differ();
    let none = command_line::no_options();
    let wp = seq!["--workspace"@, name, "--frame-pacing"@, pacing] + rest;
    let pw = seq!["--frame-pacing"@, pacing, "--workspace"@, name] + rest;
    let wi = seq!["--workspace"@, name, "--isolated-input"@] + rest;
    let iw = seq!["--isolated-input"@, "--workspace"@, name] + rest;
    let p_i = seq!["--frame-pacing"@, pacing, "--isolated-input"@] + rest;
    let ip = seq!["--isolated-input"@, "--frame-pacing"@, pacing] + rest;
    reveal_with_fuel(command_line::read_options, 3);
    assert(wp.skip(2) =~= seq!["--frame-pacing"@, pacing] + rest);
    assert(wp.skip(2).skip(2) =~= rest);
    assert(pw.skip(2) =~= seq!["--workspace"@, name] + rest);
    assert(pw.skip(2).skip(2) =~= rest);
    assert(wi.skip(2) =~= seq!["--isolated-input"@] + rest);
    assert(wi.skip(2).skip(1) =~= rest);
    assert(iw.skip(1) =~= seq!["--workspace"@, name] + rest);
    assert(iw.skip(1).skip(2) =~= rest);
    assert(p_i.skip(2) =~= seq!["--isolated-input"@] + rest);
    assert(p_i.skip(2).skip(1) =~= rest);
    assert(ip.skip(1) =~= seq!["--frame-pacing"@, pacing] + rest);
    assert(ip.skip(1).skip(2) =~= rest);
}

/// The arguments read as a command on a launch exactly if they are one of the
/// three words and a launch id that is not blank, and then as the command of
/// that word. They read as a launch only with a workspace that is not blank,
/// a known pacing, and the command behind the last of the other words.
pub proof fn law_arguments_as_a_command(args: Vec<String>, command: Option<command_line::CommandArgs>)
    requires
        call_ensures(command_line::parse_args, (args,), command),
    ensures
        ({
            let on_launch = args@.len() == 2 && !text::blank(args@[1]@);
            &&& on_launch && args@[0]@ == "--reconcile"@ <==> command is Some
                && command->Some_0 is Reconcile
            &&& on_launch && args@[0]@ == "--isolation-status"@ <==> command is Some
                && command->Some_0 is IsolationStatus
            &&& on_launch && args@[0]@ == "--release"@ <==> command is Some
                && command->Some_0 is Release
        }),
        command matches Some(command_line::CommandArgs::Reconcile { launch_id }) ==> launch_id@
            == args@[1]@,
        command matches Some(command_line::CommandArgs::IsolationStatus { launch_id }) ==> launch_id@
            == args@[1]@,
        command matches Some(command_line::CommandArgs::Release { launch_id }) ==> launch_id@
            == args@[1]@,
        command matches Some(command_line::CommandArgs::Launch(launch)) ==> {
            let end = args@.len() - launch.argv@.len() - 1;
            &&& !text::blank(launch.workspace_name@)
            &&& launch.frame_pacing@ == "standard"@ || launch.frame_pacing@ == "demand"@
            &&& launch.argv@.len() > 0
            &&& 2 <= end && args@[end]@ == "--"@
            &&& forall|i: int|
                0 <= i < launch.argv@.len() ==> (#[trigger] launch.argv@[i])@ == args@[end + 1
                    + i]@
        },
{
    let all = text::texts(args@);
    if args@.len() == 2 {
        let id = args@[1]@;
        assert(all =~= seq![args@[0]@, id]);
        law_commands_on_a_launch(all, id, LaunchArgsView {
            workspace_name: id,
            frame_pacing: id,
            isolated_input: false,
            argv: Seq::empty(),
        });
    }
    if let Some(c) = command {
        assert(command_line::read_command(all) == Some(c@));
        law_command_grammar(all, c@);
        match c {
            command_line::CommandArgs::Launch(launch) => {
                law_commands_on_a_launch(all, Seq::empty(), launch@);
                law_launch_stands_in_its_line(all, launch@);
                let end = args@.len() - launch.argv@.len() - 1;
                assert(all[end] == args@[end]@);
                assert forall|i: int| 0 <= i < launch.argv@.len() implies (
                #[trigger] launch.argv@[i])@ == args@[end + 1 + i]@ by {
                    assert(launch@.argv[i] == all.skip(end + 1)[i]);
                }
            },
            command_line::CommandArgs::Reconcile { launch_id } => {
                assert(all[1] == launch_id@ && all[0] == "--reconcile"@);
            },
            command_line::CommandArgs::IsolationStatus { launch_id } => {
                assert(all[1] == launch_id@ && all[0] == "--isolation-status"@);
            },
            command_line::CommandArgs::Release { launch_id } => {
                assert(all[1] == launch_id@ && all[0] == "--release"@);
            },
        }
    }
}

} // verus!
