//! The background launch service: the requests it takes over D-Bus, the
//! answers it gives, and the steps of a launch.
//!
//! A launch alternates between decisions, which are made here, and work on
//! the rest of the compositor, which is the caller's: each step says what to
//! do next, and the next function takes what came of it.

use vstd::prelude::*;
use crate::environment;
use crate::environment::EnvVars;
use crate::text;

verus! {

/// How the frames of background-launched windows are paced.
#[derive(Clone, Copy, Debug, PartialEq, Eq, Structural)]
pub enum BackgroundFramePacing {
    Standard,
    Demand,
}

/// The pacing with this name.
pub open spec fn pacing_named(name: Seq<char>) -> Option<BackgroundFramePacing> {
    if name == "standard"@ {
        Some(BackgroundFramePacing::Standard)
    } else if name == "demand"@ {
        Some(BackgroundFramePacing::Demand)
    } else {
        None
    }
}

impl BackgroundFramePacing {
    /// The pacing with this name, if there is one.
    pub fn from_name(name: &String) -> (r: Option<BackgroundFramePacing>)
        ensures
            r == pacing_named(name@),
    {
        if text::same_text(name, "standard") {
            Some(BackgroundFramePacing::Standard)
        } else if text::same_text(name, "demand") {
            Some(BackgroundFramePacing::Demand)
        } else {
            None
        }
    }
}

/// A request to launch a program in a workspace. `reply` is where the answer
/// goes.
pub struct LaunchRequest<R> {
    pub workspace_name: String,
    pub argv: Vec<String>,
    pub cwd: String,
    pub env: EnvVars,
    pub frame_pacing: BackgroundFramePacing,
    pub reply: R,
}

/// A request to reconcile the windows of a launch. `reply` is where the
/// answer goes.
pub struct ReconcileRequest<R> {
    pub launch_id: String,
    pub reply: R,
}

/// A request to the compositor.
pub enum BackgroundRequest<L, R> {
    Launch(LaunchRequest<L>),
    Reconcile(ReconcileRequest<R>),
}

/// The answer to a launch that succeeded.
pub struct LaunchReply {
    pub pid: u32,
    pub launch_id: String,
}

/// Why the service fails a call.
pub enum ServiceError {
    InvalidArgs(String),
    Failed(String),
}

/// The seconds that a call waits for the compositor's answer.
pub const REPLY_TIMEOUT_SECS: u64 = 5;

/// What came of handing a request to the compositor: it could not be sent,
/// no answer came in time, or an answer came. The strings are the errors of
/// the channels.
pub enum Exchange<T> {
    Unsent(String),
    Unanswered(String),
    Answered(Result<T, String>),
}

/// An answer, and where it goes.
pub struct Answer<R, T> {
    pub reply: R,
    pub result: Result<T, String>,
}

/// `error` is an `InvalidArgs` with this message.
pub open spec fn is_invalid_args(error: ServiceError, message: Seq<char>) -> bool {
    error matches ServiceError::InvalidArgs(m) && m@ == message
}

/// `error` is a `Failed` with this message.
pub open spec fn is_failed(error: ServiceError, message: Seq<char>) -> bool {
    error matches ServiceError::Failed(m) && m@ == message
}

fn joined(prefix: &str, rest: &String) -> (r: String)
    ensures
        r@ == prefix@ + rest@,
{
    let mut r = prefix.to_owned();
    r.append(rest.as_str());
    r
}

/// The method `Launch`: a launch with standard frame pacing.
pub fn launch<L, R>(
    workspace_name: String,
    argv: Vec<String>,
    cwd: String,
    env: EnvVars,
    reply: L,
) -> (r: BackgroundRequest<L, R>)
    ensures
        r == BackgroundRequest::<L, R>::Launch(
            (LaunchRequest {
                workspace_name,
                argv,
                cwd,
                env,
                frame_pacing: BackgroundFramePacing::Standard,
                reply,
            }),
        ),
{
    BackgroundRequest::Launch(
        LaunchRequest {
            workspace_name,
            argv,
            cwd,
            env,
            frame_pacing: BackgroundFramePacing::Standard,
            reply,
        },
    )
}

/// The method `LaunchWithOptions`: a launch with the frame pacing of a given
/// name. A name that no pacing has is refused.
pub fn launch_with_options<L, R>(
    workspace_name: String,
    argv: Vec<String>,
    cwd: String,
    env: EnvVars,
    frame_pacing: String,
    reply: L,
) -> (r: Result<BackgroundRequest<L, R>, ServiceError>)
    ensures
        match pacing_named(frame_pacing@) {
            Some(pacing) => r == Ok::<_, ServiceError>(
                BackgroundRequest::<L, R>::Launch(
                    (LaunchRequest {
                        workspace_name,
                        argv,
                        cwd,
                        env,
                        frame_pacing: pacing,
                        reply,
                    }),
                ),
            ),
            None => r is Err && is_invalid_args(
                r->Err_0,
                "unknown frame pacing: "@ + frame_pacing@,
            ),
        },
{
    match BackgroundFramePacing::from_name(&frame_pacing) {
        Some(pacing) => Ok(
            BackgroundRequest::Launch(
                LaunchRequest { workspace_name, argv, cwd, env, frame_pacing: pacing, reply },
            ),
        ),
        None => Err(ServiceError::InvalidArgs(joined("unknown frame pacing: ", &frame_pacing))),
    }
}

/// The method `Reconcile`: a blank launch id is refused.
pub fn reconcile<L, R>(launch_id: String, reply: R) -> (r: Result<
    BackgroundRequest<L, R>,
    ServiceError,
>)
    ensures
        if text::blank(launch_id@) {
            r is Err && is_invalid_args(r->Err_0, "launch ID must not be empty"@)
        } else {
            r == Ok::<_, ServiceError>(
                BackgroundRequest::<L, R>::Reconcile((ReconcileRequest { launch_id, reply })),
            )
        },
{
    if text::is_blank(launch_id.as_str()) {
        Err(ServiceError::InvalidArgs("launch ID must not be empty".to_owned()))
    } else {
        Ok(BackgroundRequest::Reconcile(ReconcileRequest { launch_id, reply }))
    }
}

/// What a launch call returns: the process id and the launch id, or why there
/// are none.
pub fn launch_result(exchange: Exchange<LaunchReply>) -> (r: Result<(u32, String), ServiceError>)
    ensures
        match exchange {
            Exchange::Unsent(err) => r is Err && is_failed(
                r->Err_0,
                "compositor unavailable: "@ + err@,
            ),
            Exchange::Unanswered(err) => r is Err && is_failed(
                r->Err_0,
                "launch timed out: "@ + err@,
            ),
            Exchange::Answered(Ok(reply)) => r == Ok::<_, ServiceError>(
                (reply.pid, reply.launch_id),
            ),
            Exchange::Answered(Err(message)) => r is Err && is_failed(r->Err_0, message@),
        },
{
    match exchange {
        Exchange::Unsent(err) => Err(
            ServiceError::Failed(joined("compositor unavailable: ", &err)),
        ),
        Exchange::Unanswered(err) => Err(ServiceError::Failed(joined("launch timed out: ", &err))),
        Exchange::Answered(Ok(reply)) => Ok((reply.pid, reply.launch_id)),
        Exchange::Answered(Err(message)) => Err(ServiceError::Failed(message)),
    }
}

/// What a reconcile call returns: the number of windows, or why there is none.
pub fn reconcile_result(exchange: Exchange<u32>) -> (r: Result<u32, ServiceError>)
    ensures
        match exchange {
            Exchange::Unsent(err) => r is Err && is_failed(
                r->Err_0,
                "compositor unavailable: "@ + err@,
            ),
            Exchange::Unanswered(err) => r is Err && is_failed(
                r->Err_0,
                "reconcile timed out: "@ + err@,
            ),
            Exchange::Answered(Ok(count)) => r == Ok::<_, ServiceError>(count),
            Exchange::Answered(Err(message)) => r is Err && is_failed(r->Err_0, message@),
        },
{
    match exchange {
        Exchange::Unsent(err) => Err(
            ServiceError::Failed(joined("compositor unavailable: ", &err)),
        ),
        Exchange::Unanswered(err) => Err(
            ServiceError::Failed(joined("reconcile timed out: ", &err)),
        ),
        Exchange::Answered(Ok(count)) => Ok(count),
        Exchange::Answered(Err(message)) => Err(ServiceError::Failed(message)),
    }
}

/// Why a launch is refused before anything is done for it, if it is.
pub open spec fn launch_refusal(workspace_name: Seq<char>, argv: Seq<Seq<char>>) -> Option<
    Seq<char>,
> {
    if text::blank(workspace_name) {
        Some("workspace name must not be empty"@)
    } else if argv.len() == 0 {
        Some("argv must not be empty"@)
    } else if argv[0].len() == 0 {
        Some("program must not be empty"@)
    } else {
        None
    }
}

/// The id of the `number`th launch of a compositor process.
pub open spec fn launch_id(process_id: u32, number: u64) -> Seq<char> {
    "background-launch-"@ + text::decimal(process_id as nat) + "-"@ + text::decimal(number as nat)
}

/// A launch that was accepted. Its workspace is to be made ready, and the
/// session's environment read.
pub struct PendingLaunch<R> {
    pub workspace_name: String,
    pub program: String,
    pub args: Vec<String>,
    pub cwd: String,
    pub env: EnvVars,
    pub frame_pacing: BackgroundFramePacing,
    pub launch_id: String,
    pub reply: R,
}

/// The process to start. Without a `cwd` it starts where the compositor runs.
pub struct SpawnCommand {
    pub program: String,
    pub args: Vec<String>,
    pub cwd: Option<String>,
    pub env: EnvVars,
}

/// A launch whose process is being started.
pub struct StartingLaunch<R> {
    pub workspace_name: String,
    pub program: String,
    pub frame_pacing: BackgroundFramePacing,
    pub launch_id: String,
    pub reply: R,
}

/// A running launch, as the shell gets to know it.
pub struct Registration {
    pub launch_id: String,
    pub workspace_name: String,
    pub pid: u32,
    pub frame_pacing: BackgroundFramePacing,
}

/// What to do about a launch request.
pub enum LaunchStep<R> {
    /// The launch is refused.
    Answer(Answer<R, LaunchReply>),
    /// Make the workspace ready, whatever comes of it, then read the session's
    /// environment.
    EnsureWorkspace(PendingLaunch<R>),
}

/// What to do once the session's environment was read.
pub enum SpawnStep<R> {
    /// It could not be read.
    Answer(Answer<R, LaunchReply>),
    /// Start the process.
    Spawn(SpawnCommand, StartingLaunch<R>),
}

/// What to do once the process was started.
pub enum RegisterStep<R> {
    /// It could not be started.
    Answer(Answer<R, LaunchReply>),
    /// Register the launch with the shell, then answer.
    Register(Registration, Answer<R, LaunchReply>),
}

/// `answer` goes to `reply` and fails with this message.
pub open spec fn refuses<R, T>(answer: Answer<R, T>, reply: R, message: Seq<char>) -> bool {
    &&& answer.reply == reply
    &&& answer.result is Err
    &&& answer.result->Err_0@ == message
}

/// The step after a launch request: it is refused, or accepted with an id.
pub open spec fn launch_step<R>(request: LaunchRequest<R>, id: Seq<char>, step: LaunchStep<R>) -> bool {
    match launch_refusal(request.workspace_name@, text::texts(request.argv@)) {
        Some(message) => step matches LaunchStep::Answer(answer) && refuses(
            answer,
            request.reply,
            message,
        ),
        None => {
            &&& step matches LaunchStep::EnsureWorkspace(pending)
            &&& pending.workspace_name@ == request.workspace_name@
            &&& pending.program@ == request.argv@[0]@
            &&& text::texts(pending.args@) == text::texts(request.argv@).skip(1)
            &&& pending.cwd@ == request.cwd@
            &&& pending.env@ == request.env@
            &&& pending.frame_pacing == request.frame_pacing
            &&& pending.launch_id@ == id
            &&& pending.reply == request.reply
        },
    }
}

/// The step after the session's environment was read: the process is started
/// with it, or the launch fails with the error that came instead.
pub open spec fn spawn_step<R>(
    pending: PendingLaunch<R>,
    session: Result<EnvVars, String>,
    step: SpawnStep<R>,
) -> bool {
    match session {
        Err(message) => step matches SpawnStep::Answer(answer) && refuses(
            answer,
            pending.reply,
            message@,
        ),
        Ok(session) => {
            &&& step matches SpawnStep::Spawn(command, starting)
            &&& command.program@ == pending.program@
            &&& text::texts(command.args@) == text::texts(pending.args@)
            &&& text::text_of(command.cwd) == if pending.cwd@.len() == 0 {
                None
            } else {
                Some(pending.cwd@)
            }
            &&& command.env@ == environment::child_variables(
                session@,
                pending.env@,
                pending.launch_id@,
            )
            &&& starting.workspace_name@ == pending.workspace_name@
            &&& starting.program@ == pending.program@
            &&& starting.frame_pacing == pending.frame_pacing
            &&& starting.launch_id@ == pending.launch_id@
            &&& starting.reply == pending.reply
        },
    }
}

/// The step after the process was started: the launch is registered under its
/// process id, or it fails with the name of the program.
pub open spec fn register_step<R>(
    starting: StartingLaunch<R>,
    pid: Option<u32>,
    step: RegisterStep<R>,
) -> bool {
    match pid {
        None => step matches RegisterStep::Answer(answer) && refuses(
            answer,
            starting.reply,
            "failed to spawn "@ + text::debug_text(starting.program@),
        ),
        Some(pid) => {
            &&& step matches RegisterStep::Register(registration, answer)
            &&& registration.launch_id@ == starting.launch_id@
            &&& registration.workspace_name@ == starting.workspace_name@
            &&& registration.pid == pid
            &&& registration.frame_pacing == starting.frame_pacing
            &&& answer.reply == starting.reply
            &&& answer.result is Ok
            &&& answer.result->Ok_0.pid == pid
            &&& answer.result->Ok_0.launch_id@ == starting.launch_id@
        },
    }
}

/// Writes the id of the `number`th launch of a compositor process.
pub fn launch_id_text(process_id: u32, number: u64) -> (r: String)
    ensures
        r@ == launch_id(process_id, number),
{
    let mut r = "background-launch-".to_owned();
    r.append(text::decimal_text(process_id as u64).as_str());
    r.append("-");
    r.append(text::decimal_text(number).as_str());
    r
}

fn refusal_of(workspace_name: &String, argv: &Vec<String>) -> (r: Option<String>)
    ensures
        text::text_of(r) == launch_refusal(workspace_name@, text::texts(argv@)),
{
    if text::is_blank(workspace_name.as_str()) {
        return Some("workspace name must not be empty".to_owned());
    }
    if argv.len() == 0 {
        return Some("argv must not be empty".to_owned());
    }
    if argv[0].as_str().is_empty() {
        return Some("program must not be empty".to_owned());
    }
    None
}

/// Takes a launch request: it is refused, or accepted as the `number`th launch.
pub(crate) fn begin_launch<R>(process_id: u32, number: u64, request: LaunchRequest<R>) -> (r:
    LaunchStep<R>)
    ensures
        launch_step(request, launch_id(process_id, number), r),
{
    if let Some(message) = refusal_of(&request.workspace_name, &request.argv) {
        return LaunchStep::Answer(Answer { reply: request.reply, result: Err(message) });
    }
    let ghost all = request.argv@;
    let mut argv = request.argv;
    let program = argv.remove(0);
    proof {
        assert(text::texts(all)[0] == all[0]@);
        assert(text::texts(argv@) =~= text::texts(all).skip(1));
    }
    LaunchStep::EnsureWorkspace(
        PendingLaunch {
            workspace_name: request.workspace_name,
            program,
            args: argv,
            cwd: request.cwd,
            env: request.env,
            frame_pacing: request.frame_pacing,
            launch_id: launch_id_text(process_id, number),
            reply: request.reply,
        },
    )
}

impl<R> PendingLaunch<R> {
    /// Goes on with a launch once the session's environment was read.
    pub fn with_session_environment(self, session: Result<EnvVars, String>) -> (r: SpawnStep<R>)
        ensures
            spawn_step(self, session, r),
    {
        match session {
            Err(message) => SpawnStep::Answer(Answer { reply: self.reply, result: Err(message) }),
            Ok(session) => {
                let env = environment::child_environment(session, self.env, &self.launch_id);
                let cwd = if self.cwd.as_str().is_empty() {
                    None
                } else {
                    Some(self.cwd)
                };
                SpawnStep::Spawn(
                    SpawnCommand { program: self.program.clone(), args: self.args, cwd, env },
                    StartingLaunch {
                        workspace_name: self.workspace_name,
                        program: self.program,
                        frame_pacing: self.frame_pacing,
                        launch_id: self.launch_id,
                        reply: self.reply,
                    },
                )
            },
        }
    }
}

/// The answer to a launch whose program could not be started, from the
/// program's name in quotes.
pub fn spawn_failure(quoted_program: &String) -> (r: String)
    ensures
        r@ == "failed to spawn "@ + quoted_program@,
{
    joined("failed to spawn ", quoted_program)
}

impl<R> StartingLaunch<R> {
    /// Ends a launch once the process was started, or could not be.
    pub(crate) fn finish(self, pid: Option<u32>) -> (r: RegisterStep<R>)
        ensures
            register_step(self, pid, r),
    {
        match pid {
            None => RegisterStep::Answer(
                Answer {
                    reply: self.reply,
                    result: Err(spawn_failure(&text::quoted(&self.program))),
                },
            ),
            Some(pid) => RegisterStep::Register(
                Registration {
                    launch_id: self.launch_id.clone(),
                    workspace_name: self.workspace_name,
                    pid,
                    frame_pacing: self.frame_pacing,
                },
                Answer { reply: self.reply, result: Ok(LaunchReply { pid, launch_id: self.launch_id }) },
            ),
        }
    }
}

/// A reconcile request under way.
pub struct PendingReconcile<R> {
    pub reply: R,
}

/// A count, as far as it fits.
pub open spec fn capped_count(count: usize) -> u32 {
    if count <= u32::MAX {
        count as u32
    } else {
        u32::MAX
    }
}

impl<R> PendingReconcile<R> {
    /// Answers a reconcile request with what the shell made of it.
    pub fn finish(self, outcome: Result<usize, String>) -> (r: Answer<R, u32>)
        ensures
            match outcome {
                Ok(count) => r == (Answer {
                    reply: self.reply,
                    result: Ok::<u32, String>(capped_count(count)),
                }),
                Err(message) => refuses(r, self.reply, message@),
            },
    {
        match outcome {
            Ok(count) => Answer {
                reply: self.reply,
                result: Ok(
                    if count <= u32::MAX as usize {
                        count as u32
                    } else {
                        u32::MAX
                    },
                ),
            },
            Err(message) => Answer { reply: self.reply, result: Err(message) },
        }
    }
}

/// A launch that goes through starts the program of its request, in the
/// workspace of its request, and one id stands in the child's environment, in
/// the registration and in the answer, which goes where the request said.
pub proof fn law_launch_keeps_its_id<R>(
    request: LaunchRequest<R>,
    id: Seq<char>,
    pending: PendingLaunch<R>,
    session: EnvVars,
    command: SpawnCommand,
    starting: StartingLaunch<R>,
    pid: u32,
    registration: Registration,
    answer: Answer<R, LaunchReply>,
    name: Seq<char>,
)
    requires
        launch_step(request, id, LaunchStep::EnsureWorkspace(pending)),
        spawn_step(pending, Ok(session), SpawnStep::Spawn(command, starting)),
        register_step(starting, Some(pid), RegisterStep::Register(registration, answer)),
        environment::is_launch_variable(name),
    ensures
        request.argv@.len() > 0,
        command.program@ == request.argv@[0]@,
        text::texts(command.args@) == text::texts(request.argv@).skip(1),
        command.env@.dom().contains(name),
        command.env@[name] == id,
        registration.launch_id@ == id,
        registration.workspace_name@ == request.workspace_name@,
        registration.frame_pacing == request.frame_pacing,
        registration.pid == pid,
        answer.reply == request.reply,
        answer.result is Ok,
        answer.result->Ok_0.launch_id@ == id,
        answer.result->Ok_0.pid == pid,
{
    environment::law_child_knows_its_launch(session@, pending.env@, pending.launch_id@, name);
}

/// However a launch ends, its answer goes where the request said.
pub proof fn law_launch_answers_its_request<R>(
    request: LaunchRequest<R>,
    id: Seq<char>,
    first: LaunchStep<R>,
    session: Result<EnvVars, String>,
    second: SpawnStep<R>,
    pid: Option<u32>,
    third: RegisterStep<R>,
)
    requires
        launch_step(request, id, first),
        first matches LaunchStep::EnsureWorkspace(pending) ==> spawn_step(pending, session, second),
        second matches SpawnStep::Spawn(_, starting) ==> register_step(starting, pid, third),
    ensures
        match first {
            LaunchStep::Answer(answer) => answer.reply == request.reply,
            LaunchStep::EnsureWorkspace(_) => match second {
                SpawnStep::Answer(answer) => answer.reply == request.reply,
                SpawnStep::Spawn(_, _) => match third {
                    RegisterStep::Answer(answer) => answer.reply == request.reply,
                    RegisterStep::Register(_, answer) => answer.reply == request.reply,
                },
            },
        },
{
}

/// Two launches have the same id only if they are the same launch of the same
/// compositor process.
pub proof fn law_launch_ids_differ(process_a: u32, number_a: u64, process_b: u32, number_b: u64)
    requires
        launch_id(process_a, number_a) == launch_id(process_b, number_b),
    ensures
        process_a == process_b,
        number_a == number_b,
{
    reveal_strlit("background-launch-");
    reveal_strlit("-");
    let head = "background-launch-"@.len() as int;
    let pa = text::decimal(process_a as nat);
    let pb = text::decimal(process_b as nat);
    let na = text::decimal(number_a as nat);
    let nb = text::decimal(number_b as nat);
    let a = launch_id(process_a, number_a);
    let b = launch_id(process_b, number_b);
    text::lemma_decimal_digits(process_a as nat);
    text::lemma_decimal_digits(process_b as nat);
    assert(a[head + pa.len()] == '-');
    assert(b[head + pb.len()] == '-');
    if pa.len() < pb.len() {
        assert(b[head + pa.len()] == pb[pa.len() as int]);
        assert(false);
    }
    if pb.len() < pa.len() {
        assert(a[head + pb.len()] == pa[pb.len() as int]);
        assert(false);
    }
    assert(a.subrange(head, head + pa.len()) =~= pa);
    assert(b.subrange(head, head + pb.len()) =~= pb);
    assert(a.skip(head + pa.len() + 1) =~= na);
    assert(b.skip(head + pb.len() + 1) =~= nb);
    text::lemma_decimal_injective(process_a as nat, process_b as nat);
    text::lemma_decimal_injective(number_a as nat, number_b as nat);
}

/// Each pacing has one name, and no other name has a pacing.
pub proof fn law_pacing_names(name: Seq<char>)
    ensures
        pacing_named(name) == Some(BackgroundFramePacing::Standard) <==> name == "standard"@,
        pacing_named(name) == Some(BackgroundFramePacing::Demand) <==> name == "demand"@,
        pacing_named(name) is None <==> name != "standard"@ && name != "demand"@,
{
    reveal_strlit("standard");
    reveal_strlit("demand");
    assert("standard"@.len() == 8);
    assert("demand"@.len() == 6);
}

/// A launch is accepted exactly if its workspace is not blank and its program
/// has a name. A refusal goes where the request said, and names the first of
/// these that is missing.
pub proof fn law_what_a_launch_needs<R>(
    request: LaunchRequest<R>,
    id: Seq<char>,
    step: LaunchStep<R>,
)
    requires
        launch_step(request, id, step),
    ensures
        step is EnsureWorkspace <==> !text::blank(request.workspace_name@) && request.argv@.len()
            > 0 && request.argv@[0]@.len() > 0,
        step matches LaunchStep::Answer(answer) ==> {
            &&& answer.reply == request.reply
            &&& answer.result matches Err(message)
            &&& text::blank(request.workspace_name@) ==> message@
                == "workspace name must not be empty"@
            &&& !text::blank(request.workspace_name@) && request.argv@.len() == 0 ==> message@
                == "argv must not be empty"@
            &&& !text::blank(request.workspace_name@) && request.argv@.len() > 0 ==> message@
                == "program must not be empty"@
        },
{
    if request.argv@.len() > 0 {
        text::law_texts_in_place(request.argv@, 0, request.cwd);
    }
}

/// An accepted launch is that of its request, under the id that it was given.
pub proof fn law_accepted_launch_is_the_requested_one<R>(
    request: LaunchRequest<R>,
    id: Seq<char>,
    pending: PendingLaunch<R>,
    i: int,
)
    requires
        launch_step(request, id, LaunchStep::EnsureWorkspace(pending)),
    ensures
        pending.workspace_name@ == request.workspace_name@,
        pending.program@ == request.argv@[0]@,
        pending.args@.len() == request.argv@.len() - 1,
        1 <= i < request.argv@.len() ==> pending.args@[i - 1]@ == request.argv@[i]@,
        pending.cwd@ == request.cwd@,
        pending.env@ == request.env@,
        pending.frame_pacing == request.frame_pacing,
        pending.launch_id@ == id,
        pending.reply == request.reply,
{
    let all = text::texts(request.argv@);
    assert(text::texts(pending.args@).len() == all.skip(1).len());
    if 1 <= i < request.argv@.len() {
        assert(text::texts(pending.args@)[i - 1] == all.skip(1)[i - 1]);
    }
}

/// A launch starts its program in the directory of its request, if the request
/// names one, and else in no directory of its own. Nothing else in the request
/// or the session has a say in it.
pub proof fn law_launch_starts_where_asked<R>(
    request: LaunchRequest<R>,
    id: Seq<char>,
    pending: PendingLaunch<R>,
    session: EnvVars,
    command: SpawnCommand,
    starting: StartingLaunch<R>,
)
    requires
        launch_step(request, id, LaunchStep::EnsureWorkspace(pending)),
        spawn_step(pending, Ok(session), SpawnStep::Spawn(command, starting)),
    ensures
        request.cwd@.len() > 0 ==> command.cwd is Some && command.cwd->Some_0@ == request.cwd@,
        request.cwd@.len() == 0 <==> command.cwd is None,
{
    if let Some(cwd) = command.cwd {
        text::law_texts_in_place(seq![cwd], 0, cwd);
    }
}

/// A launch starts its program with the arguments of its request, in the
/// session's environment with the request's over it and the launch id under
/// all three names.
pub proof fn law_launch_starts_as_asked<R>(
    request: LaunchRequest<R>,
    id: Seq<char>,
    pending: PendingLaunch<R>,
    session: EnvVars,
    command: SpawnCommand,
    starting: StartingLaunch<R>,
    i: int,
    name: Seq<char>,
    value: Seq<char>,
)
    requires
        launch_step(request, id, LaunchStep::EnsureWorkspace(pending)),
        spawn_step(pending, Ok(session), SpawnStep::Spawn(command, starting)),
    ensures
        command.program@ == request.argv@[0]@,
        command.args@.len() == request.argv@.len() - 1,
        1 <= i < request.argv@.len() ==> command.args@[i - 1]@ == request.argv@[i]@,
        ({
            let own = name == "COSMIC_BACKGROUND_LAUNCH_ID"@ || name == "XDG_ACTIVATION_TOKEN"@
                || name == "DESKTOP_STARTUP_ID"@;
            command.env@.dom().contains(name) && command.env@[name] == value <==> {
                ||| own && value == id
                ||| !own && request.env@.dom().contains(name) && request.env@[name] == value
                ||| !own && !request.env@.dom().contains(name) && session@.dom().contains(name)
                    && session@[name] == value
            }
        }),
{
    law_accepted_launch_is_the_requested_one(request, id, pending, i);
    environment::law_where_a_variable_comes_from(session@, pending.env@, id, name, value);
    assert(text::texts(command.args@).len() == text::texts(pending.args@).len());
    if 1 <= i < request.argv@.len() {
        assert(text::texts(command.args@)[i - 1] == text::texts(pending.args@)[i - 1]);
    }
}

/// A launch goes on exactly if the session's environment could be read; else it
/// fails with the error that came instead.
pub proof fn law_launch_needs_the_session<R>(
    pending: PendingLaunch<R>,
    session: Result<EnvVars, String>,
    step: SpawnStep<R>,
)
    requires
        spawn_step(pending, session, step),
    ensures
        step is Spawn <==> session is Ok,
        step matches SpawnStep::Answer(answer) ==> {
            &&& answer.reply == pending.reply
            &&& answer.result is Err
            &&& answer.result->Err_0@ == session->Err_0@
        },
        step matches SpawnStep::Spawn(_, starting) ==> {
            &&& starting.workspace_name@ == pending.workspace_name@
            &&& starting.program@ == pending.program@
            &&& starting.frame_pacing == pending.frame_pacing
            &&& starting.launch_id@ == pending.launch_id@
            &&& starting.reply == pending.reply
        },
{
}

/// A launch is registered exactly if its process was started, under that
/// process and the launch's own workspace, pacing and id, and is answered with
/// the process and the id. Else it fails with the name of the program.
pub proof fn law_started_launch_is_registered<R>(
    starting: StartingLaunch<R>,
    pid: Option<u32>,
    step: RegisterStep<R>,
)
    requires
        register_step(starting, pid, step),
    ensures
        step is Register <==> pid is Some,
        step matches RegisterStep::Answer(answer) ==> {
            &&& answer.reply == starting.reply
            &&& answer.result is Err
            &&& answer.result->Err_0@ == "failed to spawn "@ + text::debug_text(starting.program@)
        },
        step matches RegisterStep::Register(registration, answer) ==> {
            &&& pid == Some(registration.pid)
            &&& registration.launch_id@ == starting.launch_id@
            &&& registration.workspace_name@ == starting.workspace_name@
            &&& registration.frame_pacing == starting.frame_pacing
            &&& answer.reply == starting.reply
            &&& answer.result is Ok
            &&& pid == Some(answer.result->Ok_0.pid)
            &&& answer.result->Ok_0.launch_id@ == starting.launch_id@
        },
{
}

/// A launch id starts with the same words for every launch, and the numbers
/// behind them read back as the compositor's process and the launch's number.
pub proof fn law_launch_id_reads_back(process_id: u32, number: u64) -> (dash: int)
    ensures
        18 < dash < launch_id(process_id, number).len() - 1,
        launch_id(process_id, number).take(18) == "background-launch-"@,
        launch_id(process_id, number)[dash] == '-',
        text::numeral_value(launch_id(process_id, number).subrange(18, dash)) == process_id,
        text::numeral_value(launch_id(process_id, number).skip(dash + 1)) == number,
        forall|i: int|
            18 <= i < launch_id(process_id, number).len() && i != dash ==> '0'
                <= #[trigger] launch_id(process_id, number)[i] <= '9',
{
    reveal_strlit("background-launch-");
    reveal_strlit("-");
    let id = launch_id(process_id, number);
    let p = text::decimal(process_id as nat);
    let n = text::decimal(number as nat);
    assert("background-launch-"@.len() == 18);
    assert("-"@.len() == 1);
    text::law_decimal_reads_back(process_id as nat);
    text::law_decimal_reads_back(number as nat);
    let dash = 18 + p.len() as int;
    assert(id.take(18) =~= "background-launch-"@);
    assert(id.subrange(18, dash) =~= p);
    assert(id.skip(dash + 1) =~= n);
    assert forall|i: int| 18 <= i < id.len() && i != dash implies '0' <= #[trigger] id[i]
        <= '9' by {
        if i < dash {
            assert(id[i] == p[i - 18]);
        } else {
            assert(id[i] == n[i - dash - 1]);
        }
    }
    dash
}

/// A count is answered as it is wherever it fits, and else with the largest
/// count there is.
pub proof fn law_count_is_kept_where_it_fits(count: usize, more: usize)
    ensures
        count <= 0xffff_ffff ==> capped_count(count) == count,
        count > 0xffff_ffff ==> capped_count(count) == 0xffff_ffff,
        count <= more ==> capped_count(count) <= capped_count(more),
{
}

/// A reconcile request is answered where it said, with the count or the error
/// that came of it.
pub proof fn law_reconcile_answers_its_request<R>(
    pending: PendingReconcile<R>,
    outcome: Result<usize, String>,
    answer: Answer<R, u32>,
)
    requires
        call_ensures(PendingReconcile::<R>::finish, (pending, outcome), answer),
    ensures
        answer.reply == pending.reply,
        answer.result is Ok <==> outcome is Ok,
        outcome matches Ok(count) ==> answer.result->Ok_0 == if count <= 0xffff_ffff {
            count as int
        } else {
            0xffff_ffff
        },
        outcome matches Err(message) ==> answer.result->Err_0@ == message@,
{
}

/// The plain launch method and the one with options ask for the same where the
/// options name the standard pacing. An unknown pacing is refused, and is in
/// the message.
pub proof fn law_launch_methods_agree<L, R>(
    workspace_name: String,
    argv: Vec<String>,
    cwd: String,
    env: EnvVars,
    frame_pacing: String,
    reply: L,
    plain: BackgroundRequest<L, R>,
    with_options: Result<BackgroundRequest<L, R>, ServiceError>,
)
    requires
        call_ensures(launch::<L, R>, (workspace_name, argv, cwd, env, reply), plain),
        call_ensures(
            launch_with_options::<L, R>,
            (workspace_name, argv, cwd, env, frame_pacing, reply),
            with_options,
        ),
    ensures
        frame_pacing@ == "standard"@ ==> with_options == Ok::<_, ServiceError>(plain),
        frame_pacing@ == "demand"@ ==> {
            &&& with_options is Ok
            &&& with_options->Ok_0 matches BackgroundRequest::Launch(request)
            &&& plain matches BackgroundRequest::Launch(standard)
            &&& request == (LaunchRequest {
                frame_pacing: BackgroundFramePacing::Demand,
                ..standard
            })
        },
        with_options is Ok <==> frame_pacing@ == "standard"@ || frame_pacing@ == "demand"@,
        with_options matches Err(error) ==> error matches ServiceError::InvalidArgs(message)
            && message@ == "unknown frame pacing: "@ + frame_pacing@,
        plain matches BackgroundRequest::Launch(request) && request.workspace_name
            == workspace_name && request.argv == argv && request.cwd == cwd && request.env == env
            && request.reply == reply && request.frame_pacing == BackgroundFramePacing::Standard,
{
    law_pacing_names(frame_pacing@);
}

/// A reconcile call is refused exactly for a blank launch id, and else asks for
/// that launch.
pub proof fn law_reconcile_needs_an_id<L, R>(
    launch_id: String,
    reply: R,
    r: Result<BackgroundRequest<L, R>, ServiceError>,
)
    requires
        call_ensures(reconcile::<L, R>, (launch_id, reply), r),
    ensures
        r is Err <==> text::blank(launch_id@),
        r matches Err(error) ==> error matches ServiceError::InvalidArgs(message) && message@
            == "launch ID must not be empty"@,
        r matches Ok(request) ==> request matches BackgroundRequest::Reconcile(asked)
            && asked.launch_id == launch_id && asked.reply == reply,
{
}

/// A call succeeds exactly if the compositor answered with success, and hands
/// that on. A failed call says what failed, and why.
pub proof fn law_call_hands_the_answer_on(
    launched: Exchange<LaunchReply>,
    launch_returns: Result<(u32, String), ServiceError>,
    reconciled: Exchange<u32>,
    reconcile_returns: Result<u32, ServiceError>,
)
    requires
        call_ensures(launch_result, (launched,), launch_returns),
        call_ensures(reconcile_result, (reconciled,), reconcile_returns),
    ensures
        launch_returns matches Ok(pair) ==> launched matches Exchange::Answered(Ok(reply))
            && pair.0 == reply.pid && pair.1 == reply.launch_id,
        launch_returns matches Err(error) ==> error matches ServiceError::Failed(message) && {
            ||| launched matches Exchange::Unsent(err) && message@ == "compositor unavailable: "@
                + err@
            ||| launched matches Exchange::Unanswered(err) && message@ == "launch timed out: "@
                + err@
            ||| launched matches Exchange::Answered(Err(err)) && message@ == err@
        },
        reconcile_returns matches Ok(count) ==> reconciled == Exchange::Answered(
            Ok::<u32, String>(count),
        ),
        reconcile_returns matches Err(error) ==> error matches ServiceError::Failed(message) && {
            ||| reconciled matches Exchange::Unsent(err) && message@
                == "compositor unavailable: "@ + err@
            ||| reconciled matches Exchange::Unanswered(err) && message@
                == "reconcile timed out: "@ + err@
            ||| reconciled matches Exchange::Answered(Err(err)) && message@ == err@
        },
{
}

/// Once the session's environment was read, the program of the launch is
/// started in the launch's own directory, if it has one, whatever its pacing or
/// its workspace, with its own arguments, and with its variables over the
/// session's and its id over both. The launch itself stays as it is.
pub proof fn law_session_starts_the_launch<R>(
    pending: PendingLaunch<R>,
    session: Result<EnvVars, String>,
    step: SpawnStep<R>,
    i: int,
    name: Seq<char>,
    value: Seq<char>,
)
    requires
        call_ensures(PendingLaunch::<R>::with_session_environment, (pending, session), step),
    ensures
        step is Spawn <==> session is Ok,
        step matches SpawnStep::Answer(answer) ==> answer.reply == pending.reply
            && answer.result is Err && answer.result->Err_0@ == session->Err_0@,
        step matches SpawnStep::Spawn(command, starting) ==> {
            let own = name == "COSMIC_BACKGROUND_LAUNCH_ID"@ || name == "XDG_ACTIVATION_TOKEN"@
                || name == "DESKTOP_STARTUP_ID"@;
            let below = session->Ok_0@;
            &&& pending.cwd@.len() > 0 ==> command.cwd is Some && command.cwd->Some_0@
                == pending.cwd@
            &&& pending.cwd@.len() == 0 ==> command.cwd is None
            &&& command.program@ == pending.program@
            &&& command.args@.len() == pending.args@.len()
            &&& 0 <= i < pending.args@.len() ==> command.args@[i]@ == pending.args@[i]@
            &&& command.env@.dom().contains(name) && command.env@[name] == value <==> {
                ||| own && value == pending.launch_id@
                ||| !own && pending.env@.dom().contains(name) && pending.env@[name] == value
                ||| !own && !pending.env@.dom().contains(name) && below.dom().contains(name)
                    && below[name] == value
            }
            &&& starting.workspace_name@ == pending.workspace_name@
            &&& starting.program@ == pending.program@
            &&& starting.frame_pacing == pending.frame_pacing
            &&& starting.launch_id@ == pending.launch_id@
            &&& starting.reply == pending.reply
        },
{
    if let SpawnStep::Spawn(command, starting) = step {
        if let Ok(below) = session {
            environment::law_where_a_variable_comes_from(
                below@,
                pending.env@,
                pending.launch_id@,
                name,
                value,
            );
        }
        if let Some(cwd) = command.cwd {
            text::law_texts_in_place(seq![cwd], 0, cwd);
        }
        assert(text::texts(command.args@).len() == text::texts(pending.args@).len());
        if 0 <= i < pending.args@.len() {
            assert(text::texts(command.args@)[i] == text::texts(pending.args@)[i]);
        }
    }
}

/// A pacing is found by its own name and by no other, and the id of a launch is
/// written so that no other launch of any compositor has it.
pub proof fn law_names_and_ids(
    name: &String,
    pacing: Option<BackgroundFramePacing>,
    process_a: u32,
    number_a: u64,
    id_a: String,
    process_b: u32,
    number_b: u64,
    id_b: String,
)
    requires
        call_ensures(BackgroundFramePacing::from_name, (name,), pacing),
        call_ensures(launch_id_text, (process_a, number_a), id_a),
        call_ensures(launch_id_text, (process_b, number_b), id_b),
    ensures
        pacing == Some(BackgroundFramePacing::Standard) <==> name@ == "standard"@,
        pacing == Some(BackgroundFramePacing::Demand) <==> name@ == "demand"@,
        id_a@ == id_b@ <==> process_a == process_b && number_a == number_b,
{
    law_pacing_names(name@);
    if id_a@ == id_b@ {
        law_launch_ids_differ(process_a, number_a, process_b, number_b);
    }
}

} // verus!
