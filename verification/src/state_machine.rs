//! The derived state of one agent and the transition function that drives it.

use vstd::prelude::*;
use crate::clock::now_millis;
use crate::json::{clone_value, json_of, Json};
use crate::text::{clone_opt_string, clone_strings, concat2, opt_view, views};

verus! {

/// Most entries that the history of a state machine keeps.
pub const HISTORY_LIMIT: usize = 100;

/// The state of one agent.
#[derive(Debug)]
pub enum AgentState {
    /// The child was spawned and has not reported its initialisation yet.
    Initializing,
    /// Ready for a task.
    Idle,
    /// Working on a task.
    Processing { current_tool: Option<String>, started_at: i64 },
    /// Stopped at a tool call that needs approval.
    WaitingForPermission { tool_name: String, tool_input: serde_json::Value, request_id: String },
    /// Stopped at a question to the user.
    WaitingForInput { question: String, options: Vec<String> },
    /// Failed; a recoverable error accepts a new task.
    Error { message: String, recoverable: bool },
    /// The task is done.
    Completed { output: String },
}

/// The mathematical content of an [`AgentState`].
pub enum AgentStateView {
    Initializing,
    Idle,
    Processing { current_tool: Option<Seq<char>>, started_at: int },
    WaitingForPermission { tool_name: Seq<char>, tool_input: Json, request_id: Seq<char> },
    WaitingForInput { question: Seq<char>, options: Seq<Seq<char>> },
    Error { message: Seq<char>, recoverable: bool },
    Completed { output: Seq<char> },
}

impl View for AgentState {
    type V = AgentStateView;

    open spec fn view(&self) -> AgentStateView {
        match *self {
            AgentState::Initializing => AgentStateView::Initializing,
            AgentState::Idle => AgentStateView::Idle,
            AgentState::Processing { current_tool, started_at } => AgentStateView::Processing {
                current_tool: opt_view(current_tool),
                started_at: started_at as int,
            },
            AgentState::WaitingForPermission {
                tool_name,
                tool_input,
                request_id,
            } => AgentStateView::WaitingForPermission {
                tool_name: tool_name@,
                tool_input: json_of(tool_input),
                request_id: request_id@,
            },
            AgentState::WaitingForInput { question, options } => AgentStateView::WaitingForInput {
                question: question@,
                options: views(options@),
            },
            AgentState::Error { message, recoverable } => AgentStateView::Error {
                message: message@,
                recoverable,
            },
            AgentState::Completed { output } => AgentStateView::Completed { output: output@ },
        }
    }
}

impl Clone for AgentState {
    fn clone(&self) -> (r: Self)
        ensures
            r@ == self@,
    {
        match self {
            AgentState::Initializing => AgentState::Initializing,
            AgentState::Idle => AgentState::Idle,
            AgentState::Processing { current_tool, started_at } => AgentState::Processing {
                current_tool: clone_opt_string(current_tool),
                started_at: *started_at,
            },
            AgentState::WaitingForPermission {
                tool_name,
                tool_input,
                request_id,
            } => AgentState::WaitingForPermission {
                tool_name: tool_name.clone(),
                tool_input: clone_value(tool_input),
                request_id: request_id.clone(),
            },
            AgentState::WaitingForInput { question, options } => AgentState::WaitingForInput {
                question: question.clone(),
                options: clone_strings(options),
            },
            AgentState::Error { message, recoverable } => AgentState::Error {
                message: message.clone(),
                recoverable: *recoverable,
            },
            AgentState::Completed { output } => AgentState::Completed { output: output.clone() },
        }
    }
}

impl AgentState {
    /// The state of a freshly spawned agent.
    pub fn initializing() -> (r: Self)
        ensures
            r@ == AgentStateView::Initializing,
    {
        AgentState::Initializing
    }

    /// The state of an agent that accepts work.
    pub fn idle() -> (r: Self)
        ensures
            r@ == AgentStateView::Idle,
    {
        AgentState::Idle
    }

    /// A processing state that started at the given time.
    pub fn processing_at(current_tool: Option<String>, started_at: i64) -> (r: Self)
        ensures
            r@ == (AgentStateView::Processing {
                current_tool: opt_view(current_tool),
                started_at: started_at as int,
            }),
    {
        AgentState::Processing { current_tool, started_at }
    }

    /// A processing state that starts now; the start time is read from the
    /// clock.
    pub fn processing(current_tool: Option<String>) -> (r: Self)
        ensures
            r@ is Processing,
            r@->Processing_current_tool == opt_view(current_tool),
    {
        AgentState::processing_at(current_tool, now_millis())
    }

    /// A state that waits for approval of a tool call.
    pub fn waiting_for_permission(
        tool_name: String,
        tool_input: serde_json::Value,
        request_id: String,
    ) -> (r: Self)
        ensures
            r@ == (AgentStateView::WaitingForPermission {
                tool_name: tool_name@,
                tool_input: json_of(tool_input),
                request_id: request_id@,
            }),
    {
        AgentState::WaitingForPermission { tool_name, tool_input, request_id }
    }

    /// A state that waits for an answer from the user.
    pub fn waiting_for_input(question: String, options: Vec<String>) -> (r: Self)
        ensures
            r@ == (AgentStateView::WaitingForInput {
                question: question@,
                options: views(options@),
            }),
    {
        AgentState::WaitingForInput { question, options }
    }

    /// An error state.
    pub fn error(message: String, recoverable: bool) -> (r: Self)
        ensures
            r@ == (AgentStateView::Error { message: message@, recoverable }),
    {
        AgentState::Error { message, recoverable }
    }

    /// A completed state.
    pub fn completed(output: String) -> (r: Self)
        ensures
            r@ == (AgentStateView::Completed { output: output@ }),
    {
        AgentState::Completed { output }
    }

    /// True while a task is being worked on.
    pub fn is_processing(&self) -> (r: bool)
        ensures
            r == self@ is Processing,
    {
        match self {
            AgentState::Processing { .. } => true,
            _ => false,
        }
    }

    /// True when a new task can be accepted: idle or completed.
    pub fn is_ready(&self) -> (r: bool)
        ensures
            r == (self@ is Idle || self@ is Completed),
    {
        match self {
            AgentState::Idle => true,
            AgentState::Completed { .. } => true,
            _ => false,
        }
    }

    /// True when the agent waits for approval or for input.
    pub fn is_waiting(&self) -> (r: bool)
        ensures
            r == (self@ is WaitingForPermission || self@ is WaitingForInput),
    {
        match self {
            AgentState::WaitingForPermission { .. } => true,
            AgentState::WaitingForInput { .. } => true,
            _ => false,
        }
    }

    /// The name of the state, as shown to users.
    pub fn state_name(&self) -> (r: &'static str)
        ensures
            r@ == state_name_of(self@),
    {
        match self {
            AgentState::Initializing => "initializing",
            AgentState::Idle => "idle",
            AgentState::Processing { .. } => "processing",
            AgentState::WaitingForPermission { .. } => "waiting_for_permission",
            AgentState::WaitingForInput { .. } => "waiting_for_input",
            AgentState::Error { .. } => "error",
            AgentState::Completed { .. } => "completed",
        }
    }
}

/// The display name of each state.
pub open spec fn state_name_of(s: AgentStateView) -> Seq<char> {
    match s {
        AgentStateView::Initializing => "initializing"@,
        AgentStateView::Idle => "idle"@,
        AgentStateView::Processing { .. } => "processing"@,
        AgentStateView::WaitingForPermission { .. } => "waiting_for_permission"@,
        AgentStateView::WaitingForInput { .. } => "waiting_for_input"@,
        AgentStateView::Error { .. } => "error"@,
        AgentStateView::Completed { .. } => "completed"@,
    }
}

impl Default for AgentState {
    fn default() -> (r: Self)
        ensures
            r@ == AgentStateView::Initializing,
    {
        AgentState::Initializing
    }
}

/// An input of the state machine.
#[derive(Debug)]
pub enum StateEvent {
    Initialized,
    TaskStarted { prompt: String },
    ToolUseStarted { tool_name: String },
    ToolUseCompleted { tool_name: String, success: bool },
    PermissionRequired { tool_name: String, tool_input: serde_json::Value, request_id: String },
    PermissionGranted { request_id: String },
    PermissionDenied { request_id: String, reason: String },
    InputRequired { question: String, options: Vec<String> },
    InputReceived { answer: String },
    ErrorOccurred { message: String, recoverable: bool },
    TaskCompleted { output: String },
}

/// The mathematical content of a [`StateEvent`].
pub enum StateEventView {
    Initialized,
    TaskStarted { prompt: Seq<char> },
    ToolUseStarted { tool_name: Seq<char> },
    ToolUseCompleted { tool_name: Seq<char>, success: bool },
    PermissionRequired { tool_name: Seq<char>, tool_input: Json, request_id: Seq<char> },
    PermissionGranted { request_id: Seq<char> },
    PermissionDenied { request_id: Seq<char>, reason: Seq<char> },
    InputRequired { question: Seq<char>, options: Seq<Seq<char>> },
    InputReceived { answer: Seq<char> },
    ErrorOccurred { message: Seq<char>, recoverable: bool },
    TaskCompleted { output: Seq<char> },
}

impl View for StateEvent {
    type V = StateEventView;

    open spec fn view(&self) -> StateEventView {
        match *self {
            StateEvent::Initialized => StateEventView::Initialized,
            StateEvent::TaskStarted { prompt } => StateEventView::TaskStarted { prompt: prompt@ },
            StateEvent::ToolUseStarted { tool_name } => StateEventView::ToolUseStarted {
                tool_name: tool_name@,
            },
            StateEvent::ToolUseCompleted { tool_name, success } => StateEventView::ToolUseCompleted {
                tool_name: tool_name@,
                success,
            },
            StateEvent::PermissionRequired {
                tool_name,
                tool_input,
                request_id,
            } => StateEventView::PermissionRequired {
                tool_name: tool_name@,
                tool_input: json_of(tool_input),
                request_id: request_id@,
            },
            StateEvent::PermissionGranted { request_id } => StateEventView::PermissionGranted {
                request_id: request_id@,
            },
            StateEvent::PermissionDenied { request_id, reason } => StateEventView::PermissionDenied {
                request_id: request_id@,
                reason: reason@,
            },
            StateEvent::InputRequired { question, options } => StateEventView::InputRequired {
                question: question@,
                options: views(options@),
            },
            StateEvent::InputReceived { answer } => StateEventView::InputReceived { answer: answer@ },
            StateEvent::ErrorOccurred { message, recoverable } => StateEventView::ErrorOccurred {
                message: message@,
                recoverable,
            },
            StateEvent::TaskCompleted { output } => StateEventView::TaskCompleted { output: output@ },
        }
    }
}

impl Clone for StateEvent {
    fn clone(&self) -> (r: Self)
        ensures
            r@ == self@,
    {
        match self {
            StateEvent::Initialized => StateEvent::Initialized,
            StateEvent::TaskStarted { prompt } => StateEvent::TaskStarted { prompt: prompt.clone() },
            StateEvent::ToolUseStarted { tool_name } => StateEvent::ToolUseStarted {
                tool_name: tool_name.clone(),
            },
            StateEvent::ToolUseCompleted { tool_name, success } => StateEvent::ToolUseCompleted {
                tool_name: tool_name.clone(),
                success: *success,
            },
            StateEvent::PermissionRequired {
                tool_name,
                tool_input,
                request_id,
            } => StateEvent::PermissionRequired {
                tool_name: tool_name.clone(),
                tool_input: clone_value(tool_input),
                request_id: request_id.clone(),
            },
            StateEvent::PermissionGranted { request_id } => StateEvent::PermissionGranted {
                request_id: request_id.clone(),
            },
            StateEvent::PermissionDenied { request_id, reason } => StateEvent::PermissionDenied {
                request_id: request_id.clone(),
                reason: reason.clone(),
            },
            StateEvent::InputRequired { question, options } => StateEvent::InputRequired {
                question: question.clone(),
                options: clone_strings(options),
            },
            StateEvent::InputReceived { answer } => StateEvent::InputReceived { answer: answer.clone() },
            StateEvent::ErrorOccurred { message, recoverable } => StateEvent::ErrorOccurred {
                message: message.clone(),
                recoverable: *recoverable,
            },
            StateEvent::TaskCompleted { output } => StateEvent::TaskCompleted { output: output.clone() },
        }
    }
}

/// A processing state without a current tool.
pub open spec fn fresh_processing(now: int) -> AgentStateView {
    AgentStateView::Processing { current_tool: None, started_at: now }
}

/// The transition table: the state that follows `s` on event `e`, where a
/// processing state that is entered starts at `now`. Pairs that the table does
/// not list leave the state as it is.
pub open spec fn next_state(s: AgentStateView, e: StateEventView, now: int) -> AgentStateView {
    match (s, e) {
        (AgentStateView::Initializing, StateEventView::Initialized) => AgentStateView::Idle,
        (AgentStateView::Idle, StateEventView::TaskStarted { .. }) => fresh_processing(now),
        (
            AgentStateView::Processing { .. },
            StateEventView::ToolUseStarted { tool_name },
        ) => AgentStateView::Processing { current_tool: Some(tool_name), started_at: now },
        (
            AgentStateView::Processing { .. },
            StateEventView::PermissionRequired { tool_name, tool_input, request_id },
        ) => AgentStateView::WaitingForPermission { tool_name, tool_input, request_id },
        (
            AgentStateView::Processing { .. },
            StateEventView::InputRequired { question, options },
        ) => AgentStateView::WaitingForInput { question, options },
        (
            AgentStateView::Processing { .. },
            StateEventView::ErrorOccurred { message, recoverable },
        ) => AgentStateView::Error { message, recoverable },
        (
            AgentStateView::Processing { .. },
            StateEventView::TaskCompleted { output },
        ) => AgentStateView::Completed { output },
        (
            AgentStateView::WaitingForPermission { .. },
            StateEventView::PermissionGranted { .. },
        ) => fresh_processing(now),
        (
            AgentStateView::WaitingForPermission { .. },
            StateEventView::PermissionDenied { reason, .. },
        ) => AgentStateView::Error { message: "Permission denied: "@ + reason, recoverable: true },
        (
            AgentStateView::WaitingForInput { .. },
            StateEventView::InputReceived { .. },
        ) => fresh_processing(now),
        (
            AgentStateView::Error { recoverable: true, .. },
            StateEventView::TaskStarted { .. },
        ) => fresh_processing(now),
        (AgentStateView::Completed { .. }, StateEventView::TaskStarted { .. }) => fresh_processing(
            now,
        ),
        (AgentStateView::Completed { .. }, StateEventView::Initialized) => AgentStateView::Idle,
        _ => s,
    }
}

/// One timed input of the machine.
pub struct TimedEvent {
    pub event: StateEventView,
    pub at: int,
}

/// The state reached from `s` by the events of `events`, in order.
pub open spec fn run_events(s: AgentStateView, events: Seq<TimedEvent>) -> AgentStateView
    decreases events.len(),
{
    if events.len() == 0 {
        s
    } else {
        next_state(run_events(s, events.drop_last()), events.last().event, events.last().at)
    }
}

/// A history with one more entry, the oldest dropped once the limit is
/// passed.
pub open spec fn push_capped(
    h: Seq<(AgentStateView, int)>,
    entry: (AgentStateView, int),
) -> Seq<(AgentStateView, int)> {
    if h.len() + 1 > HISTORY_LIMIT {
        h.push(entry).drop_first()
    } else {
        h.push(entry)
    }
}

/// Computes the state that follows `current` on `event`; `now` stamps a
/// processing state that is entered.
pub fn apply_event(current: &AgentState, event: &StateEvent, now: i64) -> (r: AgentState)
    ensures
        r@ == next_state(current@, event@, now as int),
{
    match (current, event) {
        (AgentState::Initializing, StateEvent::Initialized) => AgentState::idle(),
        (AgentState::Idle, StateEvent::TaskStarted { .. }) => AgentState::processing_at(None, now),
        (AgentState::Processing { .. }, StateEvent::ToolUseStarted { tool_name }) => {
            AgentState::processing_at(Some(tool_name.clone()), now)
        },
        (
            AgentState::Processing { .. },
            StateEvent::PermissionRequired { tool_name, tool_input, request_id },
        ) => AgentState::waiting_for_permission(
            tool_name.clone(),
            clone_value(tool_input),
            request_id.clone(),
        ),
        (AgentState::Processing { .. }, StateEvent::InputRequired { question, options }) => {
            AgentState::waiting_for_input(question.clone(), clone_strings(options))
        },
        (AgentState::Processing { .. }, StateEvent::ErrorOccurred { message, recoverable }) => {
            AgentState::error(message.clone(), *recoverable)
        },
        (AgentState::Processing { .. }, StateEvent::TaskCompleted { output }) => {
            AgentState::completed(output.clone())
        },
        (AgentState::WaitingForPermission { .. }, StateEvent::PermissionGranted { .. }) => {
            AgentState::processing_at(None, now)
        },
        (AgentState::WaitingForPermission { .. }, StateEvent::PermissionDenied { reason, .. }) => {
            AgentState::error(concat2("Permission denied: ", reason.as_str()), true)
        },
        (AgentState::WaitingForInput { .. }, StateEvent::InputReceived { .. }) => {
            AgentState::processing_at(None, now)
        },
        (AgentState::Error { recoverable: true, .. }, StateEvent::TaskStarted { .. }) => {
            AgentState::processing_at(None, now)
        },
        (AgentState::Completed { .. }, StateEvent::TaskStarted { .. }) => {
            AgentState::processing_at(None, now)
        },
        (AgentState::Completed { .. }, StateEvent::Initialized) => AgentState::idle(),
        _ => current.clone(),
    }
}

/// One entry of the history: a state and the time at which it was entered.
#[derive(Debug)]
pub struct HistoryEntry {
    pub state: AgentState,
    pub at: i64,
}

/// The contents of a history.
pub open spec fn history_view(h: Seq<HistoryEntry>) -> Seq<(AgentStateView, int)> {
    Seq::new(h.len(), |i: int| (h[i].state@, h[i].at as int))
}

/// The state machine of one agent: the current state and a bounded history.
#[derive(Debug)]
pub struct StateMachine {
    current_state: AgentState,
    history: Vec<HistoryEntry>,
}

impl StateMachine {
    /// The current state.
    pub closed spec fn state(&self) -> AgentStateView {
        self.current_state@
    }

    /// The recorded history, oldest entry first.
    pub closed spec fn past(&self) -> Seq<(AgentStateView, int)> {
        history_view(self.history@)
    }

    /// The history is never empty, never longer than the limit, and ends in
    /// the current state.
    pub closed spec fn wf(&self) -> bool {
        &&& 0 < self.history@.len() <= HISTORY_LIMIT
        &&& self.history@.last().state@ == self.current_state@
    }

    /// What `wf` says, over the public models.
    pub proof fn lemma_wf(&self)
        requires
            self.wf(),
        ensures
            0 < self.past().len() <= HISTORY_LIMIT,
            self.past().last().0 == self.state(),
    {
    }

    /// A machine in `Initializing` whose history holds that state, entered at
    /// `now`.
    pub fn new_at(now: i64) -> (r: Self)
        ensures
            r.wf(),
            r.state() == AgentStateView::Initializing,
            r.past() == seq![(AgentStateView::Initializing, now as int)],
    {
        let mut history: Vec<HistoryEntry> = Vec::new();
        history.push(HistoryEntry { state: AgentState::Initializing, at: now });
        let r = StateMachine { current_state: AgentState::Initializing, history };
        proof {
            assert(history_view(r.history@) =~= seq![(AgentStateView::Initializing, now as int)]);
        }
        r
    }

    /// A machine in `Initializing`; the time of its first history entry is
    /// read from the clock.
    pub fn new() -> (r: Self)
        ensures
            r.wf(),
            r.state() == AgentStateView::Initializing,
            r.past().len() == 1,
            r.past()[0].0 == AgentStateView::Initializing,
    {
        StateMachine::new_at(now_millis())
    }

    /// The current state.
    pub fn current_state(&self) -> (r: &AgentState)
        ensures
            r@ == self.state(),
    {
        &self.current_state
    }

    /// The recorded history, oldest entry first.
    pub fn history(&self) -> (r: &Vec<HistoryEntry>)
        ensures
            history_view(r@) == self.past(),
    {
        &self.history
    }

    fn record(&mut self, state: AgentState, now: i64)
        requires
            old(self).history@.len() <= HISTORY_LIMIT,
        ensures
            final(self).wf(),
            final(self).state() == state@,
            final(self).past() == push_capped(old(self).past(), (state@, now as int)),
    {
        let ghost before = history_view(self.history@);
        self.history.push(HistoryEntry { state: state.clone(), at: now });
        proof {
            assert(history_view(self.history@) =~= before.push((state@, now as int)));
        }
        if self.history.len() > HISTORY_LIMIT {
            let _ = self.history.remove(0);
            proof {
                assert(history_view(self.history@) =~= before.push(
                    (state@, now as int),
                ).drop_first());
            }
        }
        self.current_state = state;
    }

    /// Feeds one event at time `now`: the state moves as the transition table
    /// says, and the new state is appended to the history.
    pub fn transition_at(&mut self, event: StateEvent, now: i64) -> (r: AgentState)
        requires
            old(self).wf(),
        ensures
            final(self).wf(),
            final(self).state() == next_state(old(self).state(), event@, now as int),
            final(self).past() == push_capped(old(self).past(), (final(self).state(), now as int)),
            r@ == final(self).state(),
    {
        let new_state = apply_event(&self.current_state, &event, now);
        let out = new_state.clone();
        self.record(new_state, now);
        out
    }

    /// Feeds one event, stamped with the time that the clock gives.
    pub fn transition(&mut self, event: StateEvent) -> (r: AgentState)
        requires
            old(self).wf(),
        ensures
            final(self).wf(),
            exists|now: int|
                {
                    &&& final(self).state() == #[trigger] next_state(
                        old(self).state(),
                        event@,
                        now,
                    )
                    &&& final(self).past() == push_capped(
                        old(self).past(),
                        (final(self).state(), now),
                    )
                },
            r@ == final(self).state(),
    {
        let now = now_millis();
        let r = self.transition_at(event, now);
        proof {
            assert(self.state() == next_state(old(self).state(), event@, now as int));
        }
        r
    }

    /// Sets the state without consulting the transition table, for
    /// supervisory resets, and records it at time `now`.
    pub fn force_state_at(&mut self, state: AgentState, now: i64)
        requires
            old(self).wf(),
        ensures
            final(self).wf(),
            final(self).state() == state@,
            final(self).past() == push_capped(old(self).past(), (state@, now as int)),
    {
        self.record(state, now);
    }

    /// Sets the state without consulting the transition table, for
    /// supervisory resets; the time of the history entry is read from the
    /// clock.
    pub fn force_state(&mut self, state: AgentState)
        requires
            old(self).wf(),
        ensures
            final(self).wf(),
            final(self).state() == state@,
            exists|now: int| final(self).past() == #[trigger] push_capped(
                old(self).past(),
                (state@, now),
            ),
    {
        let now = now_millis();
        self.force_state_at(state, now);
        proof {
            assert(self.past() == push_capped(old(self).past(), (state@, now as int)));
        }
    }
}

impl Default for StateMachine {
    fn default() -> (r: Self)
        ensures
            r.wf(),
            r.state() == AgentStateView::Initializing,
    {
        StateMachine::new()
    }
}

// ---------------------------------------------------------------------------
// Laws of the transition table
// ---------------------------------------------------------------------------

/// Whatever events are fed, the machine is in one of its seven states.
pub proof fn lemma_run_stays_in_the_seven_states(s: AgentStateView, events: Seq<TimedEvent>)
    ensures
        ({
            let t = run_events(s, events);
            t is Initializing || t is Idle || t is Processing || t is WaitingForPermission
                || t is WaitingForInput || t is Error || t is Completed
        }),
{
}

/// `Initialized` moves only `Initializing` and `Completed`; from every other
/// state it leaves the state as it is.
pub proof fn lemma_initialized_is_rejected_elsewhere(s: AgentStateView, now: int)
    requires
        !(s is Initializing),
        !(s is Completed),
    ensures
        next_state(s, StateEventView::Initialized, now) == s,
{
}

/// `Initializing` is left only on the `Initialized` event.
pub proof fn lemma_initializing_waits_for_init(e: StateEventView, now: int)
    requires
        !(e is Initialized),
    ensures
        next_state(AgentStateView::Initializing, e, now) == AgentStateView::Initializing,
{
}

/// A waiting state is entered from `Processing` only.
pub proof fn lemma_waiting_follows_processing(s: AgentStateView, e: StateEventView, now: int)
    requires
        next_state(s, e, now) is WaitingForPermission || next_state(s, e, now) is WaitingForInput,
        next_state(s, e, now) != s,
    ensures
        s is Processing,
{
}

/// An error that is not recoverable is a sink: no event moves the machine.
pub proof fn lemma_fatal_error_is_a_sink(s: AgentStateView, e: StateEventView, now: int)
    requires
        s is Error,
        !s->Error_recoverable,
    ensures
        next_state(s, e, now) == s,
{
}

/// From an error, `Processing` is entered only if the error is recoverable.
pub proof fn lemma_only_recoverable_errors_resume(s: AgentStateView, e: StateEventView, now: int)
    requires
        s is Error,
        next_state(s, e, now) is Processing,
    ensures
        s->Error_recoverable,
        e is TaskStarted,
{
}

} // verus!
