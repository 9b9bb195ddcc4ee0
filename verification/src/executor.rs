//! The supervisor of one agent process, without its I/O.
//!
//! The caller owns the child process. It hands each line of the child's
//! output to [`ClaudeCodeExecutor::on_line`], writes to the child what the
//! executor asks for, and sleeps between the polls of a running task.

use vstd::prelude::*;
use crate::clock::{fresh_id, now_millis, now_rfc3339};
use crate::json::{clone_value, json_of, Json};
use crate::permission::{
    decision_for, default_pre_approved, pending_after, with_item, HumanWait,
    PermissionDecision, PermissionDecisionView, PermissionManager, PermissionPolicy,
    PermissionRequestView, HUMAN_POLL_MILLIS,
};
use crate::state_machine::{
    next_state, AgentState, AgentStateView, StateEvent, StateEventView, StateMachine,
};
use crate::stream_parser::{
    events_view, line_outcome, memory_after_line, LineOutcome, ParsedEvent, ParsedEventView,
    ParserMemory, StreamParser,
};
use crate::text::{
    clone_opt_string, clone_strings, concat2, concat3, decimal_of, opt_view, owned, u64_to_string,
    views,
};

verus! {

/// The program that is run as the agent where the options name none.
pub const AGENT_PROGRAM: &'static str = "agent";

/// The pause between two polls of a running task, in milliseconds.
pub const COMPLETION_POLL_MILLIS: u64 = 100;

/// Why an operation of the executor failed.
#[derive(Debug)]
pub enum ExecutorError {
    Process(String),
    Io(String),
    Json(String),
    PermissionDenied(String),
    Timeout(String),
    AlreadyRunning,
    NotRunning,
}

/// The mathematical content of an [`ExecutorError`].
pub enum ExecutorErrorView {
    Process(Seq<char>),
    Io(Seq<char>),
    Json(Seq<char>),
    PermissionDenied(Seq<char>),
    Timeout(Seq<char>),
    AlreadyRunning,
    NotRunning,
}

impl View for ExecutorError {
    type V = ExecutorErrorView;

    open spec fn view(&self) -> ExecutorErrorView {
        match *self {
            ExecutorError::Process(s) => ExecutorErrorView::Process(s@),
            ExecutorError::Io(s) => ExecutorErrorView::Io(s@),
            ExecutorError::Json(s) => ExecutorErrorView::Json(s@),
            ExecutorError::PermissionDenied(s) => ExecutorErrorView::PermissionDenied(s@),
            ExecutorError::Timeout(s) => ExecutorErrorView::Timeout(s@),
            ExecutorError::AlreadyRunning => ExecutorErrorView::AlreadyRunning,
            ExecutorError::NotRunning => ExecutorErrorView::NotRunning,
        }
    }
}

/// The error as a line of text.
pub open spec fn executor_error_text(e: ExecutorErrorView) -> Seq<char> {
    match e {
        ExecutorErrorView::Process(s) => "Process error: "@ + s,
        ExecutorErrorView::Io(s) => "IO error: "@ + s,
        ExecutorErrorView::Json(s) => "JSON error: "@ + s,
        ExecutorErrorView::PermissionDenied(s) => "Permission denied: "@ + s,
        ExecutorErrorView::Timeout(s) => "Timeout: "@ + s,
        ExecutorErrorView::AlreadyRunning => "Already running"@,
        ExecutorErrorView::NotRunning => "Not running"@,
    }
}

impl ExecutorError {
    /// The error as a line of text.
    pub fn message(&self) -> (r: String)
        ensures
            r@ == executor_error_text(self@),
    {
        match self {
            ExecutorError::Process(s) => concat2("Process error: ", s.as_str()),
            ExecutorError::Io(s) => concat2("IO error: ", s.as_str()),
            ExecutorError::Json(s) => concat2("JSON error: ", s.as_str()),
            ExecutorError::PermissionDenied(s) => concat2("Permission denied: ", s.as_str()),
            ExecutorError::Timeout(s) => concat2("Timeout: ", s.as_str()),
            ExecutorError::AlreadyRunning => owned("Already running"),
            ExecutorError::NotRunning => owned("Not running"),
        }
    }
}

/// What the executor tells its observers.
#[derive(Debug)]
pub enum ExecutorEvent {
    StateChanged { old_state: AgentState, new_state: AgentState },
    Output { content: String },
    ToolExecution { name: String, input: serde_json::Value, result: Option<String>, is_error: bool },
    PermissionRequired { request_id: String, tool_name: String, options: Vec<String> },
    Progress { message: String, percentage: u8 },
    Completed { output: String },
    Error { message: String, recoverable: bool },
}

/// The mathematical content of an [`ExecutorEvent`].
pub enum ExecutorEventView {
    StateChanged { old_state: AgentStateView, new_state: AgentStateView },
    Output { content: Seq<char> },
    ToolExecution { name: Seq<char>, input: Json, result: Option<Seq<char>>, is_error: bool },
    PermissionRequired { request_id: Seq<char>, tool_name: Seq<char>, options: Seq<Seq<char>> },
    Progress { message: Seq<char>, percentage: u8 },
    Completed { output: Seq<char> },
    Error { message: Seq<char>, recoverable: bool },
}

impl View for ExecutorEvent {
    type V = ExecutorEventView;

    open spec fn view(&self) -> ExecutorEventView {
        match *self {
            ExecutorEvent::StateChanged { old_state, new_state } => ExecutorEventView::StateChanged {
                old_state: old_state@,
                new_state: new_state@,
            },
            ExecutorEvent::Output { content } => ExecutorEventView::Output { content: content@ },
            ExecutorEvent::ToolExecution { name, input, result, is_error } => {
                ExecutorEventView::ToolExecution {
                    name: name@,
                    input: json_of(input),
                    result: opt_view(result),
                    is_error,
                }
            },
            ExecutorEvent::PermissionRequired { request_id, tool_name, options } => {
                ExecutorEventView::PermissionRequired {
                    request_id: request_id@,
                    tool_name: tool_name@,
                    options: views(options@),
                }
            },
            ExecutorEvent::Progress { message, percentage } => ExecutorEventView::Progress {
                message: message@,
                percentage,
            },
            ExecutorEvent::Completed { output } => ExecutorEventView::Completed { output: output@ },
            ExecutorEvent::Error { message, recoverable } => ExecutorEventView::Error {
                message: message@,
                recoverable,
            },
        }
    }
}

/// The contents of a list of executor events.
pub open spec fn surface_view(es: Seq<ExecutorEvent>) -> Seq<ExecutorEventView> {
    Seq::new(es.len(), |i: int| es[i]@)
}

/// How an executor is set up.
#[derive(Debug)]
pub struct ExecutorOptions {
    /// The directory in which the agent runs.
    pub working_dir: Option<String>,
    /// Tools and patterns that are pre-approved on top of the defaults.
    pub allowed_tools: Vec<String>,
    /// How long a task may take, in seconds.
    pub timeout_secs: u64,
    /// The session to resume.
    pub session_id: Option<String>,
    /// Whether a request that needs a human is allowed without asking.
    pub auto_approve: bool,
    /// The program that is run as the agent.
    pub program: String,
}

impl Default for ExecutorOptions {
    fn default() -> (r: Self)
        ensures
            r.program@ == AGENT_PROGRAM@,
            r.working_dir is None,
            r.allowed_tools@.len() == 0,
            r.timeout_secs == 300,
            r.session_id is None,
            !r.auto_approve,
    {
        ExecutorOptions {
            working_dir: None,
            allowed_tools: Vec::new(),
            timeout_secs: 300,
            session_id: None,
            auto_approve: false,
            program: owned(AGENT_PROGRAM),
        }
    }
}

impl Clone for ExecutorOptions {
    fn clone(&self) -> (r: Self)
        ensures
            opt_view(r.working_dir) == opt_view(self.working_dir),
            views(r.allowed_tools@) == views(self.allowed_tools@),
            r.timeout_secs == self.timeout_secs,
            opt_view(r.session_id) == opt_view(self.session_id),
            r.auto_approve == self.auto_approve,
            r.program@ == self.program@,
    {
        ExecutorOptions {
            working_dir: clone_opt_string(&self.working_dir),
            allowed_tools: clone_strings(&self.allowed_tools),
            timeout_secs: self.timeout_secs,
            session_id: clone_opt_string(&self.session_id),
            auto_approve: self.auto_approve,
            program: self.program.clone(),
        }
    }
}

// ---------------------------------------------------------------------------
// What the executor surfaces, as mathematics
// ---------------------------------------------------------------------------

/// The answers offered with a permission request that is surfaced.
pub open spec fn surfaced_options() -> Seq<Seq<char>> {
    seq!["Yes"@, "No"@]
}

/// The events that tell of a state that was entered: a completed task, an
/// error, or a wait for permission. None where the state did not change.
pub open spec fn entry_events(old_state: AgentStateView, new_state: AgentStateView) -> Seq<
    ExecutorEventView,
> {
    if new_state == old_state {
        Seq::empty()
    } else {
        match new_state {
            AgentStateView::Completed { output } => seq![ExecutorEventView::Completed { output }],
            AgentStateView::Error { message, recoverable } => seq![
                ExecutorEventView::Error { message, recoverable },
            ],
            AgentStateView::WaitingForPermission { tool_name, request_id, .. } => seq![
                ExecutorEventView::PermissionRequired {
                    request_id,
                    tool_name,
                    options: surfaced_options(),
                },
            ],
            _ => Seq::empty(),
        }
    }
}

/// The events that one parsed event is surfaced as, from state `s`.
pub open spec fn surfaced(s: AgentStateView, e: ParsedEventView, now: int) -> Seq<ExecutorEventView> {
    match e {
        ParsedEventView::StateChange(ev) => seq![
            ExecutorEventView::StateChanged { old_state: s, new_state: next_state(s, ev, now) },
        ] + entry_events(s, next_state(s, ev, now)),
        ParsedEventView::TextOutput(t) => seq![ExecutorEventView::Output { content: t }],
        ParsedEventView::ToolExecution { name, input, result, is_error } => seq![
            ExecutorEventView::ToolExecution { name, input, result, is_error },
        ],
        ParsedEventView::Progress { message, percentage } => seq![
            ExecutorEventView::Progress {
                message,
                percentage: match percentage {
                    Some(p) => p,
                    None => 0u8,
                },
            },
        ],
    }
}

/// The state after one parsed event.
pub open spec fn state_after(s: AgentStateView, e: ParsedEventView, now: int) -> AgentStateView {
    match e {
        ParsedEventView::StateChange(ev) => next_state(s, ev, now),
        _ => s,
    }
}

/// The state after the parsed events of one line, applied in order.
pub open spec fn state_after_all(s: AgentStateView, es: Seq<ParsedEventView>, now: int) -> AgentStateView
    decreases es.len(),
{
    if es.len() == 0 {
        s
    } else {
        state_after(state_after_all(s, es.drop_last(), now), es.last(), now)
    }
}

/// The events that the parsed events of one line are surfaced as, in order.
pub open spec fn surfaced_all(s: AgentStateView, es: Seq<ParsedEventView>, now: int) -> Seq<
    ExecutorEventView,
>
    decreases es.len(),
{
    if es.len() == 0 {
        Seq::empty()
    } else {
        surfaced_all(s, es.drop_last(), now) + surfaced(
            state_after_all(s, es.drop_last(), now),
            es.last(),
            now,
        )
    }
}

/// The parsed events of a line; none for a line that fails to parse.
pub open spec fn parsed_of(m: ParserMemory, line: Seq<char>) -> Seq<ParsedEventView> {
    match line_outcome(m, line) {
        LineOutcome::Events(es) => es,
        _ => Seq::empty(),
    }
}

/// The session id after a line: a known id stays; otherwise the id that the
/// stream announced is taken, or, once the agent is idle, the fresh one.
pub open spec fn session_after(
    session: Option<Seq<char>>,
    announced: Option<Seq<char>>,
    state: AgentStateView,
    fresh: Seq<char>,
) -> Option<Seq<char>> {
    if session is Some {
        session
    } else if announced is Some {
        announced
    } else if state is Idle {
        Some(fresh)
    } else {
        None
    }
}

/// The arguments with which the agent is launched.
pub open spec fn launch_arguments(session: Option<Seq<char>>, tool_args: Seq<Seq<char>>) -> Seq<
    Seq<char>,
> {
    let fixed = seq!["--print"@, "--output-format"@, "stream-json"@];
    match session {
        Some(id) => fixed + seq!["--resume"@, id] + tool_args,
        None => fixed + tool_args,
    }
}

/// What the host is told of a permission request.
#[derive(Debug)]
pub struct PermissionNotice {
    pub request_id: String,
    pub tool_name: String,
    pub tool_input: serde_json::Value,
}

/// How the agent is to be launched.
#[derive(Debug)]
pub struct LaunchPlan {
    pub program: String,
    pub args: Vec<String>,
    pub working_dir: Option<String>,
}

/// What one poll of a running task gives.
#[derive(Debug)]
pub enum CompletionStep {
    /// The task is done; this is its output.
    Finished(String),
    /// The task failed.
    Failed(ExecutorError),
    /// The agent waits for a permission: handle it, then poll again.
    HandlePermission,
    /// Nothing yet: sleep this many milliseconds and poll again.
    Sleep { millis: u64 },
}

/// The mathematical content of a [`CompletionStep`].
pub enum CompletionStepView {
    Finished(Seq<char>),
    Failed(ExecutorErrorView),
    HandlePermission,
    Sleep { millis: u64 },
}

impl View for CompletionStep {
    type V = CompletionStepView;

    open spec fn view(&self) -> CompletionStepView {
        match *self {
            CompletionStep::Finished(s) => CompletionStepView::Finished(s@),
            CompletionStep::Failed(e) => CompletionStepView::Failed(e@),
            CompletionStep::HandlePermission => CompletionStepView::HandlePermission,
            CompletionStep::Sleep { millis } => CompletionStepView::Sleep { millis },
        }
    }
}

/// What a poll gives in state `s` after `elapsed_secs` of a task that may
/// take `timeout_secs`.
pub open spec fn completion_step(s: AgentStateView, elapsed_secs: u64, timeout_secs: u64) -> CompletionStepView {
    match s {
        AgentStateView::Completed { output } => CompletionStepView::Finished(output),
        AgentStateView::Error { message, recoverable: false } => CompletionStepView::Failed(
            ExecutorErrorView::Process(message),
        ),
        AgentStateView::WaitingForPermission { .. } => CompletionStepView::HandlePermission,
        _ => if elapsed_secs >= timeout_secs {
            CompletionStepView::Failed(
                ExecutorErrorView::Timeout(
                    "Task did not complete within "@ + decimal_of(timeout_secs as nat)
                        + " seconds"@,
                ),
            )
        } else {
            CompletionStepView::Sleep { millis: COMPLETION_POLL_MILLIS }
        },
    }
}

/// What handling a permission request asks of the caller.
#[derive(Debug)]
pub enum PermissionStep {
    /// The agent does not wait for a permission.
    NotWaiting,
    /// Write `text` to the agent and flush. `denied` holds the reason where
    /// the request was denied: the task then fails with it.
    Answer { text: String, denied: Option<String> },
    /// Wait for the human's answer to `request_id`, then resolve with it.
    AwaitHuman { request_id: String },
}

impl PermissionStep {
    /// The failure of the task that the step stands for: a denial fails the
    /// task with its reason.
    pub fn failure(&self) -> (r: Option<ExecutorError>)
        ensures
            match *self {
                PermissionStep::Answer { denied: Some(reason), .. } => r matches Some(
                    ExecutorError::PermissionDenied(s),
                ) && s@ == reason@,
                _ => r is None,
            },
    {
        match self {
            PermissionStep::Answer { denied: Some(reason), .. } => Some(
                ExecutorError::PermissionDenied(reason.clone()),
            ),
            _ => None,
        }
    }
}

/// The mathematical content of a [`PermissionStep`].
pub enum PermissionStepView {
    NotWaiting,
    Answer { text: Seq<char>, denied: Option<Seq<char>> },
    AwaitHuman { request_id: Seq<char> },
}

impl View for PermissionStep {
    type V = PermissionStepView;

    open spec fn view(&self) -> PermissionStepView {
        match *self {
            PermissionStep::NotWaiting => PermissionStepView::NotWaiting,
            PermissionStep::Answer { text, denied } => PermissionStepView::Answer {
                text: text@,
                denied: opt_view(denied),
            },
            PermissionStep::AwaitHuman { request_id } => PermissionStepView::AwaitHuman {
                request_id: request_id@,
            },
        }
    }
}

/// What a decision asks of the caller while the agent waits for a
/// permission: an approval is answered with `1`, a denial with `3`, and a
/// request for a human is approved only where that is configured.
pub open spec fn permission_step(
    s: AgentStateView,
    d: PermissionDecisionView,
    auto_approve: bool,
) -> PermissionStepView {
    if !(s is WaitingForPermission) {
        PermissionStepView::NotWaiting
    } else {
        match d {
            PermissionDecisionView::Allow { .. } => PermissionStepView::Answer {
                text: "1\n"@,
                denied: None,
            },
            PermissionDecisionView::Deny { reason } => PermissionStepView::Answer {
                text: "3\n"@,
                denied: Some(reason),
            },
            PermissionDecisionView::RequireHuman { request_id, .. } => if auto_approve {
                PermissionStepView::Answer { text: "1\n"@, denied: None }
            } else {
                PermissionStepView::AwaitHuman { request_id }
            },
        }
    }
}

/// The state after a prompt was written at time `now`: a task has started,
/// where the executor runs.
pub open spec fn state_after_prompt(
    s: AgentStateView,
    running: bool,
    prompt: Seq<char>,
    now: int,
) -> AgentStateView {
    if running {
        next_state(s, StateEventView::TaskStarted { prompt }, now)
    } else {
        s
    }
}

/// The state after a decision was applied at time `now`.
pub open spec fn state_after_decision(
    s: AgentStateView,
    d: PermissionDecisionView,
    auto_approve: bool,
    now: int,
) -> AgentStateView {
    match s {
        AgentStateView::WaitingForPermission { request_id, .. } => match d {
            PermissionDecisionView::Allow { .. } => next_state(
                s,
                StateEventView::PermissionGranted { request_id },
                now,
            ),
            PermissionDecisionView::Deny { reason } => next_state(
                s,
                StateEventView::PermissionDenied { request_id, reason },
                now,
            ),
            PermissionDecisionView::RequireHuman { .. } => if auto_approve {
                next_state(s, StateEventView::PermissionGranted { request_id }, now)
            } else {
                s
            },
        },
        _ => s,
    }
}

// ---------------------------------------------------------------------------
// The executor
// ---------------------------------------------------------------------------

/// The supervisor of one agent.
#[derive(Debug)]
pub struct ClaudeCodeExecutor {
    session_id: Option<String>,
    permission_manager: PermissionManager,
    state_machine: StateMachine,
    parser: StreamParser,
    options: ExecutorOptions,
    is_running: bool,
}

fn surface_entry(old_state: &AgentState, new_state: &AgentState, changed: bool, out: &mut Vec<ExecutorEvent>)
    requires
        changed == (new_state@ != old_state@),
    ensures
        surface_view(final(out)@) == surface_view(old(out)@) + entry_events(old_state@, new_state@),
{
    let ghost before = surface_view(out@);
    if changed {
        match new_state {
            AgentState::Completed { output } => {
                out.push(ExecutorEvent::Completed { output: output.clone() });
            },
            AgentState::Error { message, recoverable } => {
                out.push(ExecutorEvent::Error { message: message.clone(), recoverable: *recoverable });
            },
            AgentState::WaitingForPermission { tool_name, tool_input: _, request_id } => {
                let mut options: Vec<String> = Vec::new();
                options.push(owned("Yes"));
                options.push(owned("No"));
                proof {
                    assert(views(options@) =~= surfaced_options());
                }
                out.push(
                    ExecutorEvent::PermissionRequired {
                        request_id: request_id.clone(),
                        tool_name: tool_name.clone(),
                        options,
                    },
                );
            },
            _ => {},
        }
    }
    proof {
        assert(surface_view(out@) =~= before + entry_events(old_state@, new_state@));
    }
}

/// True when two states have the same contents, told by their kind and, for
/// the states that the machine can re-enter unchanged, by comparison.
fn same_state(a: &AgentState, b: &AgentState) -> (r: bool)
    ensures
        r ==> a@ == b@,
        !r ==> a@ != b@ || a@ is WaitingForPermission || a@ is WaitingForInput,
{
    match (a, b) {
        (AgentState::Initializing, AgentState::Initializing) => true,
        (AgentState::Idle, AgentState::Idle) => true,
        (
            AgentState::Processing { current_tool: t1, started_at: s1 },
            AgentState::Processing { current_tool: t2, started_at: s2 },
        ) => {
            *s1 == *s2 && match (t1, t2) {
                (Some(x), Some(y)) => crate::text::str_eq(x.as_str(), y.as_str()),
                (None, None) => true,
                _ => false,
            }
        },
        (
            AgentState::Error { message: m1, recoverable: r1 },
            AgentState::Error { message: m2, recoverable: r2 },
        ) => *r1 == *r2 && crate::text::str_eq(m1.as_str(), m2.as_str()),
        (AgentState::Completed { output: o1 }, AgentState::Completed { output: o2 }) => {
            crate::text::str_eq(o1.as_str(), o2.as_str())
        },
        _ => false,
    }
}

impl ClaudeCodeExecutor {
    /// The state of the agent.
    pub closed spec fn state(&self) -> AgentStateView {
        self.state_machine.state()
    }

    /// True while the agent process is taken to be alive.
    pub closed spec fn running(&self) -> bool {
        self.is_running
    }

    /// The session id, once known.
    pub closed spec fn session(&self) -> Option<Seq<char>> {
        opt_view(self.session_id)
    }

    /// What the stream parser remembers.
    pub closed spec fn memory(&self) -> ParserMemory {
        self.parser.memory()
    }

    /// The permission manager.
    pub closed spec fn manager(&self) -> PermissionManager {
        self.permission_manager
    }

    /// How long a task may take, in seconds.
    pub closed spec fn timeout_secs(&self) -> u64 {
        self.options.timeout_secs
    }

    /// Whether a request that needs a human is allowed without asking.
    pub closed spec fn auto_approve(&self) -> bool {
        self.options.auto_approve
    }

    /// The program that is run as the agent.
    pub closed spec fn program(&self) -> Seq<char> {
        self.options.program@
    }

    /// The directory in which the agent runs, where one is set.
    pub closed spec fn working_dir(&self) -> Option<Seq<char>> {
        opt_view(self.options.working_dir)
    }

    /// True when this executor is set up as `before` was: the same program
    /// and working directory, the same timeout, the same answer to requests
    /// that need a human.
    pub open spec fn keeps_setup(&self, before: &Self) -> bool {
        &&& self.program() == before.program()
        &&& self.working_dir() == before.working_dir()
        &&& self.timeout_secs() == before.timeout_secs()
        &&& self.auto_approve() == before.auto_approve()
    }

    /// The manager's decision on the request that the agent waits for. Where
    /// the agent waits for none, there is nothing to decide, and the state
    /// stays as it is whatever stands here.
    pub open spec fn decision(&self) -> PermissionDecisionView {
        match self.state() {
            AgentStateView::WaitingForPermission { tool_name, tool_input, request_id } => decision_for(
                self.manager().policy(),
                self.manager().pre_approved(),
                self.manager().session_approved(),
                tool_name,
                tool_input,
                request_id,
            ),
            _ => PermissionDecisionView::Allow { always: false },
        }
    }

    /// The pending requests after the manager has decided on the request
    /// that the agent waits for, at the time `stamp`: the request is stored
    /// where it needs a human. Where the agent waits for no request, they
    /// stay as they are.
    pub open spec fn pending_after_decision(&self, stamp: Seq<char>) -> Map<
        Seq<char>,
        PermissionRequestView,
    > {
        match self.state() {
            AgentStateView::WaitingForPermission { tool_name, tool_input, request_id } => pending_after(
                self.manager().pending(),
                self.decision(),
                tool_name,
                tool_input,
                request_id,
                stamp,
            ),
            _ => self.manager().pending(),
        }
    }

    /// The state machine and the permission manager are well formed.
    pub closed spec fn wf(&self) -> bool {
        &&& self.state_machine.wf()
        &&& self.permission_manager.wf()
    }

    /// An executor that is not running, in `Initializing`, whose manager
    /// pre-approves the allowed tools of the options on top of its
    /// defaults.
    #[verifier::rlimit(50)]
    pub fn new(options: ExecutorOptions) -> (r: Self)
        ensures
            r.wf(),
            !r.running(),
            r.state() == AgentStateView::Initializing,
            r.session() == opt_view(options.session_id),
            r.timeout_secs() == options.timeout_secs,
            r.auto_approve() == options.auto_approve,
            r.program() == options.program@,
            r.working_dir() == opt_view(options.working_dir),
            r.memory() == (ParserMemory { tool_id: None, tool_name: None, session_id: None }),
            r.manager().policy() == PermissionPolicy::Standard,
            r.manager().session_approved() == Seq::<Seq<char>>::empty(),
            r.manager().pending() == Map::<
                Seq<char>,
                PermissionRequestView,
            >::empty(),
            r.manager().responses() == Map::<Seq<char>, PermissionDecisionView>::empty(),
            r.manager().pre_approved().no_duplicates(),
            forall|t: Seq<char>|
                r.manager().pre_approved().contains(t) <==> (default_pre_approved().contains(t)
                    || views(options.allowed_tools@).contains(t)),
    {
        let mut permission_manager = PermissionManager::new();
        let mut i: usize = 0;
        while i < options.allowed_tools.len()
            invariant
                0 <= i <= options.allowed_tools.len(),
                permission_manager.wf(),
                permission_manager.policy() == PermissionPolicy::Standard,
                permission_manager.session_approved() == Seq::<Seq<char>>::empty(),
                permission_manager.pending() == Map::<
                    Seq<char>,
                    PermissionRequestView,
                >::empty(),
                permission_manager.responses() == Map::<Seq<char>, PermissionDecisionView>::empty(),
                permission_manager.pre_approved().no_duplicates(),
                forall|t: Seq<char>|
                    permission_manager.pre_approved().contains(t) <==> (
                    default_pre_approved().contains(t) || (exists|k: int|
                        0 <= k < i && #[trigger] views(options.allowed_tools@)[k] == t)),
            decreases options.allowed_tools.len() - i,
        {
            let ghost before = permission_manager.pre_approved();
            permission_manager.add_pre_approved(options.allowed_tools[i].as_str());
            proof {
                let item = options.allowed_tools@[i as int]@;
                let after = permission_manager.pre_approved();
                assert(after == with_item(before, item));
                assert(views(options.allowed_tools@)[i as int] == item);
                assert forall|t: Seq<char>| after.contains(t) <==> (before.contains(t) || t
                    == item) by {
                    if before.contains(t) {
                        let j = choose|j: int| 0 <= j < before.len() && before[j] == t;
                        assert(after[j] == t);
                    }
                    if t == item && !before.contains(item) {
                        assert(after[before.len() as int] == item);
                    }
                    if after.contains(t) && !before.contains(item) {
                        let j = choose|j: int| 0 <= j < after.len() && after[j] == t;
                        if j < before.len() {
                            assert(before[j] == t);
                        }
                    }
                }
                if !before.contains(item) {
                    assert forall|a: int, b: int|
                        0 <= a < after.len() && 0 <= b < after.len() && a != b implies after[a]
                        != after[b] by {
                        if a < before.len() && b < before.len() {
                            assert(before[a] != before[b]);
                        } else if a < before.len() {
                            assert(before[a] == after[a]);
                        } else {
                            assert(before[b] == after[b]);
                        }
                    }
                }
            }
            i = i + 1;
        }
        let session_id = clone_opt_string(&options.session_id);
        proof {
            assert forall|t: Seq<char>|
                permission_manager.pre_approved().contains(t) <==> (default_pre_approved().contains(
                    t,
                ) || views(options.allowed_tools@).contains(t)) by {
                if views(options.allowed_tools@).contains(t) {
                    let k = choose|k: int|
                        0 <= k < views(options.allowed_tools@).len() && views(
                            options.allowed_tools@,
                        )[k] == t;
                    assert(views(options.allowed_tools@)[k] == t);
                }
            }
        }
        ClaudeCodeExecutor {
            session_id,
            permission_manager,
            state_machine: StateMachine::new(),
            parser: StreamParser::new(),
            options,
            is_running: false,
        }
    }

    /// The state of the agent.
    pub fn current_state(&self) -> (r: AgentState)
        ensures
            r@ == self.state(),
    {
        self.state_machine.current_state().clone()
    }

    /// The session id, once known.
    pub fn session_id(&self) -> (r: Option<String>)
        ensures
            opt_view(r) == self.session(),
    {
        clone_opt_string(&self.session_id)
    }

    /// True while the agent process is taken to be alive.
    pub fn is_running(&self) -> (r: bool)
        ensures
            r == self.running(),
    {
        self.is_running
    }

    /// The permission manager.
    pub fn permissions(&self) -> (r: &PermissionManager)
        ensures
            *r == self.manager(),
    {
        &self.permission_manager
    }

    /// How the agent is to be launched; an executor that runs is not
    /// launched again.
    pub fn launch_plan(&self) -> (r: Result<LaunchPlan, ExecutorError>)
        ensures
            self.running() ==> r matches Err(ExecutorError::AlreadyRunning),
            !self.running() ==> (r matches Ok(plan) && plan.program@ == self.program() && opt_view(
                plan.working_dir,
            ) == self.working_dir() && views(plan.args@) == launch_arguments(
                self.session(),
                crate::permission::allowed_tools_args(self.manager().pre_approved()),
            )),
    {
        if self.is_running {
            return Err(ExecutorError::AlreadyRunning);
        }
        let mut args: Vec<String> = Vec::new();
        args.push(owned("--print"));
        args.push(owned("--output-format"));
        args.push(owned("stream-json"));
        match &self.session_id {
            Some(id) => {
                args.push(owned("--resume"));
                args.push(id.clone());
            },
            None => {},
        }
        let ghost head = views(args@);
        let mut tool_args = self.permission_manager.generate_allowed_tools_args();
        let ghost tail = views(tool_args@);
        args.append(&mut tool_args);
        proof {
            assert(views(args@) =~= head + tail);
            assert(head =~= match self.session() {
                Some(id) => seq!["--print"@, "--output-format"@, "stream-json"@] + seq![
                    "--resume"@,
                    id,
                ],
                None => seq!["--print"@, "--output-format"@, "stream-json"@],
            });
            assert(views(args@) =~= launch_arguments(self.session(), tail));
        }
        Ok(
            LaunchPlan {
                program: self.options.program.clone(),
                args,
                working_dir: clone_opt_string(&self.options.working_dir),
            },
        )
    }

    /// Notes at time `now` that the agent was launched: the executor runs and
    /// waits for the agent's initialisation.
    pub fn mark_started_at(&mut self, now: i64)
        requires
            old(self).wf(),
        ensures
            final(self).wf(),
            final(self).running(),
            final(self).state() == AgentStateView::Initializing,
            final(self).session() == old(self).session(),
            final(self).manager() == old(self).manager(),
            final(self).keeps_setup(old(self)),
            final(self).memory() == (ParserMemory {
                tool_id: None,
                tool_name: None,
                session_id: None,
            }),
    {
        self.is_running = true;
        self.parser = StreamParser::new();
        self.state_machine.force_state_at(AgentState::initializing(), now);
    }

    /// Notes that the agent was launched; the time is read from the clock.
    pub fn mark_started(&mut self)
        requires
            old(self).wf(),
        ensures
            final(self).wf(),
            final(self).running(),
            final(self).state() == AgentStateView::Initializing,
            final(self).session() == old(self).session(),
            final(self).manager() == old(self).manager(),
            final(self).keeps_setup(old(self)),
            final(self).memory() == (ParserMemory {
                tool_id: None,
                tool_name: None,
                session_id: None,
            }),
    {
        self.mark_started_at(now_millis());
    }

    /// Takes one line of the agent's output at time `now`: the line is
    /// parsed, the state machine is fed, and the events to surface are
    /// handed back. A line that fails to parse changes nothing. `fresh` is
    /// the session id to use if the agent becomes idle without having
    /// announced one.
    #[verifier::rlimit(50)]
    pub fn on_line_at(&mut self, line: &str, now: i64, fresh: String) -> (r: Vec<ExecutorEvent>)
        requires
            old(self).wf(),
        ensures
            final(self).wf(),
            final(self).running() == old(self).running(),
            final(self).manager() == old(self).manager(),
            final(self).keeps_setup(old(self)),
            final(self).memory() == memory_after_line(old(self).memory(), line@),
            final(self).state() == state_after_all(
                old(self).state(),
                parsed_of(old(self).memory(), line@),
                now as int,
            ),
            surface_view(r@) == surfaced_all(
                old(self).state(),
                parsed_of(old(self).memory(), line@),
                now as int,
            ),
            final(self).session() == session_after(
                old(self).session(),
                final(self).memory().session_id,
                final(self).state(),
                fresh@,
            ),
    {
        let mut out: Vec<ExecutorEvent> = Vec::new();
        let ghost parsed = parsed_of(self.memory(), line@);
        let ghost s0 = self.state();
        proof {
            assert(parsed.take(0) =~= Seq::empty());
            assert(surface_view(out@) =~= Seq::empty());
        }
        match self.parser.parse_line(line) {
            Ok(events) => {
                let mut i: usize = 0;
                while i < events.len()
                    invariant
                        0 <= i <= events.len(),
                        events_view(events@) == parsed,
                        self.state_machine.wf(),
                        self.permission_manager == old(self).permission_manager,
                        self.parser.memory() == memory_after_line(old(self).memory(), line@),
                        self.options == old(self).options,
                        self.is_running == old(self).is_running,
                        self.session_id == old(self).session_id,
                        self.state_machine.state() == state_after_all(s0, parsed.take(i as int), now as int),
                        surface_view(out@) == surfaced_all(s0, parsed.take(i as int), now as int),
                    decreases events.len() - i,
                {
                    let ghost before = surface_view(out@);
                    let ghost s = self.state_machine.state();
                    proof {
                        let next = parsed.take(i as int + 1);
                        assert(next.drop_last() =~= parsed.take(i as int));
                        assert(next.last() == events@[i as int]@);
                    }
                    match &events[i] {
                        ParsedEvent::StateChange(ev) => {
                            let old_state = self.state_machine.current_state().clone();
                            let new_state = self.state_machine.transition_at(ev.clone(), now);
                            let unchanged = same_state(&old_state, &new_state) || (
                                old_state.is_waiting() && new_state.is_waiting());
                            let ghost mid = surface_view(out@);
                            out.push(
                                ExecutorEvent::StateChanged {
                                    old_state: old_state.clone(),
                                    new_state: new_state.clone(),
                                },
                            );
                            proof {
                                assert(surface_view(out@) =~= mid.push(
                                    ExecutorEventView::StateChanged {
                                        old_state: s,
                                        new_state: next_state(s, ev@, now as int),
                                    },
                                ));
                                lemma_waiting_is_entered(s, ev@, now as int);
                            }
                            surface_entry(&old_state, &new_state, !unchanged, &mut out);
                        },
                        ParsedEvent::TextOutput(text) => {
                            out.push(ExecutorEvent::Output { content: text.clone() });
                        },
                        ParsedEvent::ToolExecution { name, input, result, is_error } => {
                            out.push(
                                ExecutorEvent::ToolExecution {
                                    name: name.clone(),
                                    input: clone_value(input),
                                    result: clone_opt_string(result),
                                    is_error: *is_error,
                                },
                            );
                        },
                        ParsedEvent::Progress { message, percentage } => {
                            out.push(
                                ExecutorEvent::Progress {
                                    message: message.clone(),
                                    percentage: match percentage {
                                        Some(p) => *p,
                                        None => 0,
                                    },
                                },
                            );
                        },
                    }
                    proof {
                        assert(surface_view(out@) =~= before + surfaced(s, events@[i as int]@, now as int));
                    }
                    i = i + 1;
                }
                proof {
                    assert(parsed.take(i as int) =~= parsed);
                }
            },
            Err(_) => {},
        }
        if self.session_id.is_none() {
            match self.parser.session_id() {
                Some(id) => {
                    self.session_id = Some(id);
                },
                None => {
                    let idle = match self.state_machine.current_state() {
                        AgentState::Idle => true,
                        _ => false,
                    };
                    if idle {
                        self.session_id = Some(fresh);
                    }
                },
            }
        }
        out
    }

    /// Takes one line of the agent's output; the time is read from the
    /// clock and the fallback session id is a fresh random one.
    pub fn on_line(&mut self, line: &str) -> (r: Vec<ExecutorEvent>)
        requires
            old(self).wf(),
        ensures
            final(self).wf(),
            final(self).running() == old(self).running(),
            final(self).manager() == old(self).manager(),
            final(self).keeps_setup(old(self)),
            final(self).memory() == memory_after_line(old(self).memory(), line@),
            exists|now: int|
                {
                    &&& final(self).state() == #[trigger] state_after_all(
                        old(self).state(),
                        parsed_of(old(self).memory(), line@),
                        now,
                    )
                    &&& surface_view(r@) == surfaced_all(
                        old(self).state(),
                        parsed_of(old(self).memory(), line@),
                        now,
                    )
                },
            exists|fresh: Seq<char>|
                final(self).session() == #[trigger] session_after(
                    old(self).session(),
                    final(self).memory().session_id,
                    final(self).state(),
                    fresh,
                ),
    {
        let now = now_millis();
        let fresh = fresh_id();
        let ghost id = fresh@;
        let r = self.on_line_at(line, now, fresh);
        proof {
            let s = state_after_all(
                old(self).state(),
                parsed_of(old(self).memory(), line@),
                now as int,
            );
            assert(self.state() == s);
            assert(self.session() == session_after(
                old(self).session(),
                self.memory().session_id,
                self.state(),
                id,
            ));
        }
        r
    }

    /// Notes at time `now` that the agent's output ended: the executor stops
    /// running and is in an error that no task recovers from.
    pub fn on_eof_at(&mut self, now: i64) -> (r: ExecutorEvent)
        requires
            old(self).wf(),
        ensures
            final(self).wf(),
            !final(self).running(),
            final(self).state() == (AgentStateView::Error { message: "EOF"@, recoverable: false }),
            r@ == (ExecutorEventView::Error { message: "EOF"@, recoverable: false }),
            final(self).session() == old(self).session(),
            final(self).manager() == old(self).manager(),
            final(self).memory() == old(self).memory(),
            final(self).keeps_setup(old(self)),
    {
        self.is_running = false;
        self.state_machine.force_state_at(AgentState::error(owned("EOF"), false), now);
        ExecutorEvent::Error { message: owned("EOF"), recoverable: false }
    }

    /// Notes that the agent's output ended; the time is read from the clock.
    pub fn on_eof(&mut self) -> (r: ExecutorEvent)
        requires
            old(self).wf(),
        ensures
            final(self).wf(),
            !final(self).running(),
            final(self).state() == (AgentStateView::Error { message: "EOF"@, recoverable: false }),
            r@ == (ExecutorEventView::Error { message: "EOF"@, recoverable: false }),
            final(self).session() == old(self).session(),
            final(self).manager() == old(self).manager(),
            final(self).memory() == old(self).memory(),
            final(self).keeps_setup(old(self)),
    {
        self.on_eof_at(now_millis())
    }

    /// The text to write to the agent for a task: the prompt and a line
    /// feed. An executor that does not run takes no task.
    pub fn prompt_line(&self, prompt: &str) -> (r: Result<String, ExecutorError>)
        ensures
            !self.running() ==> r matches Err(ExecutorError::NotRunning),
            self.running() ==> (r matches Ok(text) && text@ == prompt@ + "\n"@),
    {
        if !self.is_running {
            return Err(ExecutorError::NotRunning);
        }
        Ok(concat2(prompt, "\n"))
    }

    /// Notes at time `now` that the prompt was written to the agent: the
    /// state machine of a running executor is told that a task started.
    pub fn prompt_sent_at(&mut self, prompt: &str, now: i64)
        requires
            old(self).wf(),
        ensures
            final(self).wf(),
            final(self).running() == old(self).running(),
            final(self).session() == old(self).session(),
            final(self).manager() == old(self).manager(),
            final(self).memory() == old(self).memory(),
            final(self).keeps_setup(old(self)),
            final(self).state() == state_after_prompt(
                old(self).state(),
                old(self).running(),
                prompt@,
                now as int,
            ),
    {
        if self.is_running {
            let _ = self.state_machine.transition_at(
                StateEvent::TaskStarted { prompt: owned(prompt) },
                now,
            );
        }
    }

    /// Notes that the prompt was written to the agent; the time is read from
    /// the clock.
    pub fn prompt_sent(&mut self, prompt: &str)
        requires
            old(self).wf(),
        ensures
            final(self).wf(),
            final(self).running() == old(self).running(),
            final(self).session() == old(self).session(),
            final(self).manager() == old(self).manager(),
            final(self).memory() == old(self).memory(),
            final(self).keeps_setup(old(self)),
            exists|now: int|
                final(self).state() == #[trigger] state_after_prompt(
                    old(self).state(),
                    old(self).running(),
                    prompt@,
                    now,
                ),
    {
        let now = now_millis();
        self.prompt_sent_at(prompt, now);
        proof {
            let s = state_after_prompt(old(self).state(), old(self).running(), prompt@, now as int);
            assert(self.state() == s);
        }
    }

    /// One poll of the running task, `elapsed_secs` after it began.
    pub fn poll_completion(&self, elapsed_secs: u64) -> (r: CompletionStep)
        ensures
            r@ == completion_step(self.state(), elapsed_secs, self.timeout_secs()),
    {
        match self.state_machine.current_state() {
            AgentState::Completed { output } => CompletionStep::Finished(output.clone()),
            AgentState::Error { message, recoverable: false } => CompletionStep::Failed(
                ExecutorError::Process(message.clone()),
            ),
            AgentState::WaitingForPermission { .. } => CompletionStep::HandlePermission,
            _ => {
                if elapsed_secs >= self.options.timeout_secs {
                    let text = concat3(
                        "Task did not complete within ",
                        u64_to_string(self.options.timeout_secs).as_str(),
                        " seconds",
                    );
                    CompletionStep::Failed(ExecutorError::Timeout(text))
                } else {
                    CompletionStep::Sleep { millis: COMPLETION_POLL_MILLIS }
                }
            },
        }
    }

    /// Applies a decision to the permission request that the agent waits
    /// for, at time `now`, and says what to write to the agent.
    pub fn resolve_permission_at(&mut self, decision: &PermissionDecision, now: i64) -> (r:
        PermissionStep)
        requires
            old(self).wf(),
        ensures
            final(self).wf(),
            final(self).running() == old(self).running(),
            final(self).session() == old(self).session(),
            final(self).manager() == old(self).manager(),
            final(self).memory() == old(self).memory(),
            final(self).keeps_setup(old(self)),
            r@ == permission_step(old(self).state(), decision@, old(self).auto_approve()),
            final(self).state() == state_after_decision(
                old(self).state(),
                decision@,
                old(self).auto_approve(),
                now as int,
            ),
    {
        let request_id = match self.state_machine.current_state() {
            AgentState::WaitingForPermission { request_id, .. } => request_id.clone(),
            _ => {
                return PermissionStep::NotWaiting;
            },
        };
        let granted = match decision {
            PermissionDecision::Allow { .. } => true,
            PermissionDecision::Deny { reason } => {
                let _ = self.state_machine.transition_at(
                    StateEvent::PermissionDenied { request_id, reason: reason.clone() },
                    now,
                );
                return PermissionStep::Answer { text: owned("3\n"), denied: Some(reason.clone()) };
            },
            PermissionDecision::RequireHuman { request_id: asked, .. } => {
                if !self.options.auto_approve {
                    return PermissionStep::AwaitHuman { request_id: asked.clone() };
                }
                true
            },
        };
        let _ = self.state_machine.transition_at(StateEvent::PermissionGranted { request_id }, now);
        PermissionStep::Answer { text: owned("1\n"), denied: None }
    }

    /// Applies a decision to the permission request that the agent waits
    /// for; the time is read from the clock.
    pub fn resolve_permission(&mut self, decision: &PermissionDecision) -> (r: PermissionStep)
        requires
            old(self).wf(),
        ensures
            final(self).wf(),
            final(self).running() == old(self).running(),
            final(self).session() == old(self).session(),
            final(self).manager() == old(self).manager(),
            final(self).memory() == old(self).memory(),
            final(self).keeps_setup(old(self)),
            r@ == permission_step(old(self).state(), decision@, old(self).auto_approve()),
            exists|now: int|
                final(self).state() == #[trigger] state_after_decision(
                    old(self).state(),
                    decision@,
                    old(self).auto_approve(),
                    now,
                ),
    {
        let now = now_millis();
        let r = self.resolve_permission_at(decision, now);
        proof {
            let s = state_after_decision(
                old(self).state(),
                decision@,
                old(self).auto_approve(),
                now as int,
            );
            assert(self.state() == s);
        }
        r
    }

    /// One turn of waiting for a human's answer to `request_id`,
    /// `elapsed_secs` after the wait began. The wait ends once it has lasted
    /// as long as a task may take.
    pub fn poll_human_response(&mut self, request_id: &str, elapsed_secs: u64) -> (r: HumanWait)
        requires
            old(self).wf(),
        ensures
            final(self).wf(),
            final(self).running() == old(self).running(),
            final(self).state() == old(self).state(),
            final(self).session() == old(self).session(),
            final(self).memory() == old(self).memory(),
            final(self).keeps_setup(old(self)),
            final(self).manager().policy() == old(self).manager().policy(),
            final(self).manager().pre_approved() == old(self).manager().pre_approved(),
            final(self).manager().session_approved() == old(self).manager().session_approved(),
            final(self).manager().responses() == old(self).manager().responses().remove(
                request_id@,
            ),
            final(self).manager().pending() == old(self).manager().pending(),
            match r {
                HumanWait::Decided(d) => old(self).manager().responses().contains_key(request_id@)
                    && d@ == old(self).manager().responses()[request_id@],
                HumanWait::TimedOut(m) => !old(self).manager().responses().contains_key(
                    request_id@,
                ) && elapsed_secs >= old(self).timeout_secs() && m@
                    == "Timeout waiting for human response: "@ + request_id@,
                HumanWait::Sleep { millis } => !old(self).manager().responses().contains_key(
                    request_id@,
                ) && elapsed_secs < old(self).timeout_secs() && millis == HUMAN_POLL_MILLIS,
            },
    {
        self.permission_manager.poll_human_response(
            request_id,
            elapsed_secs,
            self.options.timeout_secs,
        )
    }

    /// What the host is told of the permission request that the agent waits
    /// for; nothing where it waits for none.
    pub fn waiting_request(&self) -> (r: Option<PermissionNotice>)
        ensures
            match self.state() {
                AgentStateView::WaitingForPermission { tool_name, tool_input, request_id } => {
                    r matches Some(n) && n.request_id@ == request_id && n.tool_name@ == tool_name
                        && json_of(n.tool_input) == tool_input
                },
                _ => r is None,
            },
    {
        match self.state_machine.current_state() {
            AgentState::WaitingForPermission { tool_name, tool_input, request_id } => Some(
                PermissionNotice {
                    request_id: request_id.clone(),
                    tool_name: tool_name.clone(),
                    tool_input: clone_value(tool_input),
                },
            ),
            _ => None,
        }
    }

    /// How long a task may take, in seconds.
    pub fn timeout(&self) -> (r: u64)
        ensures
            r == self.timeout_secs(),
    {
        self.options.timeout_secs
    }

    /// Consults the permission manager on the request that the agent waits
    /// for, applies its decision at time `now`, and says what to write to
    /// the agent. A request that needs a human is stored with the time
    /// `stamp`.
    pub fn handle_permission_request_at(&mut self, now: i64, stamp: String) -> (r: PermissionStep)
        requires
            old(self).wf(),
        ensures
            final(self).wf(),
            final(self).running() == old(self).running(),
            final(self).session() == old(self).session(),
            final(self).memory() == old(self).memory(),
            final(self).keeps_setup(old(self)),
            final(self).manager().wf(),
            final(self).manager().policy() == old(self).manager().policy(),
            final(self).manager().pre_approved() == old(self).manager().pre_approved(),
            final(self).manager().session_approved() == old(self).manager().session_approved(),
            final(self).manager().responses() == old(self).manager().responses(),
            r@ == permission_step(
                old(self).state(),
                old(self).decision(),
                old(self).auto_approve(),
            ),
            final(self).state() == state_after_decision(
                old(self).state(),
                old(self).decision(),
                old(self).auto_approve(),
                now as int,
            ),
            final(self).manager().pending() == old(self).pending_after_decision(stamp@),
    {
        let decision = match self.state_machine.current_state() {
            AgentState::WaitingForPermission { tool_name, tool_input, request_id } => {
                self.permission_manager.check_permission_at(
                    tool_name.as_str(),
                    tool_input,
                    request_id.as_str(),
                    stamp,
                )
            },
            _ => {
                return PermissionStep::NotWaiting;
            },
        };
        self.resolve_permission_at(&decision, now)
    }

    /// Consults the permission manager on the request that the agent waits
    /// for; the times are read from the clock.
    pub fn handle_permission_request(&mut self) -> (r: PermissionStep)
        requires
            old(self).wf(),
        ensures
            final(self).wf(),
            final(self).running() == old(self).running(),
            final(self).session() == old(self).session(),
            final(self).memory() == old(self).memory(),
            final(self).keeps_setup(old(self)),
            final(self).manager().wf(),
            final(self).manager().policy() == old(self).manager().policy(),
            final(self).manager().pre_approved() == old(self).manager().pre_approved(),
            final(self).manager().session_approved() == old(self).manager().session_approved(),
            final(self).manager().responses() == old(self).manager().responses(),
            r@ == permission_step(
                old(self).state(),
                old(self).decision(),
                old(self).auto_approve(),
            ),
            exists|now: int|
                final(self).state() == #[trigger] state_after_decision(
                    old(self).state(),
                    old(self).decision(),
                    old(self).auto_approve(),
                    now,
                ),
            exists|stamp: Seq<char>|
                final(self).manager().pending() == #[trigger] old(self).pending_after_decision(
                    stamp,
                ),
    {
        let now = now_millis();
        let stamp = now_rfc3339();
        let ghost t = stamp@;
        let r = self.handle_permission_request_at(now, stamp);
        proof {
            assert(self.state() == state_after_decision(
                old(self).state(),
                old(self).decision(),
                old(self).auto_approve(),
                now as int,
            ));
            assert(self.manager().pending() == old(self).pending_after_decision(t));
        }
        r
    }

    /// Takes a human's answer to a permission request.
    pub fn submit_permission_response(&mut self, request_id: &str, decision: PermissionDecision) -> (r:
        Result<(), String>)
        requires
            old(self).wf(),
        ensures
            final(self).wf(),
            r is Ok,
            final(self).running() == old(self).running(),
            final(self).state() == old(self).state(),
            final(self).session() == old(self).session(),
            final(self).memory() == old(self).memory(),
            final(self).keeps_setup(old(self)),
            final(self).manager().policy() == old(self).manager().policy(),
            final(self).manager().pre_approved() == old(self).manager().pre_approved(),
            final(self).manager().session_approved() == crate::permission::session_after_answer(
                old(self).manager().session_approved(),
                old(self).manager().pending(),
                request_id@,
                decision@,
            ),
            final(self).manager().responses() == old(self).manager().responses().insert(
                request_id@,
                decision@,
            ),
            final(self).manager().pending() == old(self).manager().pending().remove(request_id@),
    {
        self.permission_manager.submit_human_response(request_id, decision)
    }

    /// Stops the executor at time `now`. True is handed back where the
    /// agent was running and is to be killed; the state is then `Idle`.
    pub fn stop_at(&mut self, now: i64) -> (r: bool)
        requires
            old(self).wf(),
        ensures
            final(self).wf(),
            r == old(self).running(),
            !final(self).running(),
            final(self).state() == if old(self).running() {
                AgentStateView::Idle
            } else {
                old(self).state()
            },
            final(self).session() == old(self).session(),
            final(self).manager() == old(self).manager(),
            final(self).memory() == old(self).memory(),
            final(self).keeps_setup(old(self)),
    {
        if !self.is_running {
            return false;
        }
        self.is_running = false;
        self.state_machine.force_state_at(AgentState::idle(), now);
        true
    }

    /// Stops the executor; the time is read from the clock.
    pub fn stop(&mut self) -> (r: bool)
        requires
            old(self).wf(),
        ensures
            final(self).wf(),
            r == old(self).running(),
            !final(self).running(),
            final(self).state() == if old(self).running() {
                AgentStateView::Idle
            } else {
                old(self).state()
            },
            final(self).session() == old(self).session(),
            final(self).manager() == old(self).manager(),
            final(self).memory() == old(self).memory(),
            final(self).keeps_setup(old(self)),
    {
        self.stop_at(now_millis())
    }
}

/// A waiting state that follows a state by an event differs from that state
/// only if it was entered from `Processing`, so a waiting state is never
/// re-entered with other contents.
proof fn lemma_waiting_is_entered(s: AgentStateView, e: StateEventView, now: int)
    ensures
        (next_state(s, e, now) is WaitingForPermission || next_state(s, e, now) is WaitingForInput)
            && (s is WaitingForPermission || s is WaitingForInput) ==> next_state(s, e, now) == s,
{
}

} // verus!
