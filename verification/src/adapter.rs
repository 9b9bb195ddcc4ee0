//! What passes between the protocol and an agent's native interface: task
//! payloads, shared context and output chunks.

use vstd::prelude::*;
use crate::clock::{fresh_id, now_millis};
use crate::text::{concat2, concat3, owned, views};

verus! {

/// Why an adapter failed.
#[derive(Debug)]
pub enum AdapterError {
    InitializationFailed(String),
    CommunicationFailed(String),
    TaskExecutionFailed(String),
    InvalidInput(String),
    Timeout(String),
    NotReady,
    Cancelled,
}

impl AdapterError {
    /// The error as a line of text.
    pub fn message(&self) -> (r: String)
        ensures
            r@ == match *self {
                AdapterError::InitializationFailed(s) => "Initialization failed: "@ + s@,
                AdapterError::CommunicationFailed(s) => "Communication failed: "@ + s@,
                AdapterError::TaskExecutionFailed(s) => "Task execution failed: "@ + s@,
                AdapterError::InvalidInput(s) => "Invalid input: "@ + s@,
                AdapterError::Timeout(s) => "Timeout: "@ + s@,
                AdapterError::NotReady => "Agent not ready"@,
                AdapterError::Cancelled => "Task cancelled"@,
            },
    {
        match self {
            AdapterError::InitializationFailed(s) => concat2("Initialization failed: ", s.as_str()),
            AdapterError::CommunicationFailed(s) => concat2("Communication failed: ", s.as_str()),
            AdapterError::TaskExecutionFailed(s) => concat2("Task execution failed: ", s.as_str()),
            AdapterError::InvalidInput(s) => concat2("Invalid input: ", s.as_str()),
            AdapterError::Timeout(s) => concat2("Timeout: ", s.as_str()),
            AdapterError::NotReady => owned("Agent not ready"),
            AdapterError::Cancelled => owned("Task cancelled"),
        }
    }
}

/// What an agent is doing.
#[derive(Debug, PartialEq, Eq)]
pub enum AgentExecutionStatus {
    Idle,
    Busy { task_id: String },
    Error { message: String },
    Shutdown,
}

/// The content of a task: a prompt and, optionally, structured data.
#[derive(Debug)]
pub struct TaskPayload {
    pub content: String,
    pub data: Option<serde_json::Value>,
}

impl TaskPayload {
    /// A payload without data.
    pub fn new(content: &str) -> (r: Self)
        ensures
            r.content@ == content@,
            r.data is None,
    {
        TaskPayload { content: owned(content), data: None }
    }

    /// The same payload with the given data.
    pub fn with_data(self, data: serde_json::Value) -> (r: Self)
        ensures
            r == (TaskPayload { data: Some(data), ..self }),
    {
        TaskPayload { content: self.content, data: Some(data) }
    }
}

/// One entry of the history that agents share. The time is in milliseconds
/// since the Unix epoch.
#[derive(Debug)]
pub struct ContextEntry {
    pub agent_id: String,
    pub summary: String,
    pub timestamp: i64,
}

/// What agents share: a history of summaries and a list of files.
#[derive(Debug)]
pub struct SharedContext {
    pub conversation_history: Vec<ContextEntry>,
    pub shared_files: Vec<String>,
    pub metadata: Option<serde_json::Value>,
}

impl Default for SharedContext {
    fn default() -> (r: Self)
        ensures
            r.conversation_history@.len() == 0,
            r.shared_files@.len() == 0,
            r.metadata is None,
    {
        SharedContext { conversation_history: Vec::new(), shared_files: Vec::new(), metadata: None }
    }
}

impl SharedContext {
    /// An empty context.
    pub fn new() -> (r: Self)
        ensures
            r.conversation_history@.len() == 0,
            r.shared_files@.len() == 0,
            r.metadata is None,
    {
        SharedContext { conversation_history: Vec::new(), shared_files: Vec::new(), metadata: None }
    }

    /// The same context with the given history.
    pub fn with_history(self, history: Vec<ContextEntry>) -> (r: Self)
        ensures
            r == (SharedContext { conversation_history: history, ..self }),
    {
        SharedContext {
            conversation_history: history,
            shared_files: self.shared_files,
            metadata: self.metadata,
        }
    }

    /// The same context with the given files.
    pub fn with_files(self, files: Vec<String>) -> (r: Self)
        ensures
            r == (SharedContext { shared_files: files, ..self }),
    {
        SharedContext {
            conversation_history: self.conversation_history,
            shared_files: files,
            metadata: self.metadata,
        }
    }

    /// Appends an entry made at time `now`.
    pub fn add_entry_at(&mut self, agent_id: String, summary: String, now: i64)
        ensures
            final(self).conversation_history@ == old(self).conversation_history@.push(
                ContextEntry { agent_id, summary, timestamp: now },
            ),
            final(self).shared_files == old(self).shared_files,
            final(self).metadata == old(self).metadata,
    {
        self.conversation_history.push(ContextEntry { agent_id, summary, timestamp: now });
    }

    /// Appends an entry; the time is read from the clock.
    pub fn add_entry(&mut self, agent_id: String, summary: String)
        ensures
            final(self).conversation_history@.len() == old(self).conversation_history@.len() + 1,
            final(self).conversation_history@.last().agent_id == agent_id,
            final(self).conversation_history@.last().summary == summary,
            final(self).conversation_history@.drop_last() == old(self).conversation_history@,
            final(self).shared_files == old(self).shared_files,
            final(self).metadata == old(self).metadata,
    {
        self.add_entry_at(agent_id, summary, now_millis());
        proof {
            assert(self.conversation_history@.drop_last() =~= old(self).conversation_history@);
        }
    }
}

/// A task for an agent. The id is random.
#[derive(Debug)]
pub struct TaskRequest {
    pub task_id: String,
    pub payload: TaskPayload,
    pub context: Option<SharedContext>,
}

impl TaskRequest {
    /// A task with the given prompt, without context.
    pub fn new(content: &str) -> (r: Self)
        ensures
            r.payload.content@ == content@,
            r.payload.data is None,
            r.context is None,
    {
        TaskRequest { task_id: fresh_id(), payload: TaskPayload::new(content), context: None }
    }

    /// The same task with the given context.
    pub fn with_context(self, context: SharedContext) -> (r: Self)
        ensures
            r == (TaskRequest { context: Some(context), ..self }),
    {
        TaskRequest { task_id: self.task_id, payload: self.payload, context: Some(context) }
    }
}

/// A piece of streamed output.
#[derive(Debug)]
pub struct StreamChunk {
    pub text: String,
    pub is_final: bool,
}

impl StreamChunk {
    /// A chunk that is not the last.
    pub fn new(text: &str) -> (r: Self)
        ensures
            r.text@ == text@,
            !r.is_final,
    {
        StreamChunk { text: owned(text), is_final: false }
    }

    /// The last chunk.
    pub fn final_chunk(text: &str) -> (r: Self)
        ensures
            r.text@ == text@,
            r.is_final,
    {
        StreamChunk { text: owned(text), is_final: true }
    }
}

/// The result of a task.
#[derive(Debug)]
pub struct TaskResult {
    pub output: String,
    pub metadata: Option<serde_json::Value>,
}

impl TaskResult {
    /// A result without metadata.
    pub fn new(output: &str) -> (r: Self)
        ensures
            r.output@ == output@,
            r.metadata is None,
    {
        TaskResult { output: owned(output), metadata: None }
    }

    /// The same result with the given metadata.
    pub fn with_metadata(self, metadata: serde_json::Value) -> (r: Self)
        ensures
            r == (TaskResult { metadata: Some(metadata), ..self }),
    {
        TaskResult { output: self.output, metadata: Some(metadata) }
    }
}

/// The kind of a piece of parsed output.
#[derive(Debug)]
pub enum OutputContentType {
    Text,
    CodeBlock { language: String },
    Thinking,
    ToolUse { tool_name: String },
    ErrorMessage,
}

/// A piece of parsed output.
#[derive(Debug)]
pub struct ParsedOutput {
    pub content: String,
    pub content_type: OutputContentType,
    pub metadata: Option<serde_json::Value>,
}

/// The list of shared files as a section of a prompt.
pub open spec fn files_section(files: Seq<Seq<char>>, n: int) -> Seq<char>
    decreases n,
{
    if n <= 0 {
        "## Related Files\n\n"@
    } else {
        files_section(files, n - 1) + "- "@ + files[n - 1] + "\n"@
    }
}

/// The shared history as a section of a prompt.
pub open spec fn history_section(history: Seq<ContextEntry>, n: int) -> Seq<char>
    decreases n,
{
    if n <= 0 {
        "## Previous Context\n\n"@
    } else {
        history_section(history, n - 1) + "> ["@ + history[n - 1].agent_id@ + "] "@ + history[n
            - 1].summary@ + "\n\n"@
    }
}

/// A prompt with the shared context in front of it: the files, the
/// history, a rule, then the prompt. A prompt without context stays as it
/// is.
pub open spec fn with_context_of(
    prompt: Seq<char>,
    files: Seq<Seq<char>>,
    history: Seq<ContextEntry>,
) -> Seq<char> {
    if files.len() == 0 && history.len() == 0 {
        prompt
    } else {
        (if files.len() > 0 {
            files_section(files, files.len() as int) + "\n"@
        } else {
            Seq::empty()
        }) + (if history.len() > 0 {
            history_section(history, history.len() as int)
        } else {
            Seq::empty()
        }) + "---\n\n"@ + prompt
    }
}

/// Turns tasks into what the agent reads: the agent understands natural
/// language, so a task is its own prompt.
#[derive(Debug)]
pub struct ClaudeCodeInputConverter;

impl ClaudeCodeInputConverter {
    /// The input of the agent for a task: the content of the task.
    pub fn convert_input(&self, task: &TaskPayload) -> (r: Result<String, AdapterError>)
        ensures
            r matches Ok(s) && s@ == task.content@,
    {
        Ok(task.content.clone())
    }

    /// The prompt with the shared context in front of it.
    pub fn embed_context(&self, prompt: &str, context: &SharedContext) -> (r: String)
        ensures
            r@ == with_context_of(
                prompt@,
                views(context.shared_files@),
                context.conversation_history@,
            ),
    {
        if context.conversation_history.len() == 0 && context.shared_files.len() == 0 {
            return owned(prompt);
        }
        let mut full = String::new();
        if context.shared_files.len() > 0 {
            let mut section = owned("## Related Files\n\n");
            let mut i: usize = 0;
            while i < context.shared_files.len()
                invariant
                    0 <= i <= context.shared_files.len(),
                    section@ == files_section(views(context.shared_files@), i as int),
                decreases context.shared_files.len() - i,
            {
                let line = concat3("- ", context.shared_files[i].as_str(), "\n");
                section = section.concat(line.as_str());
                proof {
                    assert(section@ =~= files_section(views(context.shared_files@), i as int + 1));
                }
                i = i + 1;
            }
            full = concat2(section.as_str(), "\n");
        }
        let ghost head = full@;
        if context.conversation_history.len() > 0 {
            let mut section = owned("## Previous Context\n\n");
            let mut i: usize = 0;
            while i < context.conversation_history.len()
                invariant
                    0 <= i <= context.conversation_history.len(),
                    section@ == history_section(context.conversation_history@, i as int),
                decreases context.conversation_history.len() - i,
            {
                let entry = &context.conversation_history[i];
                let who = concat3("> [", entry.agent_id.as_str(), "] ");
                let line = concat3(who.as_str(), entry.summary.as_str(), "\n\n");
                section = section.concat(line.as_str());
                proof {
                    assert(section@ =~= history_section(
                        context.conversation_history@,
                        i as int + 1,
                    ));
                }
                i = i + 1;
            }
            full = full.concat(section.as_str());
        }
        let r = concat3(full.as_str(), "---\n\n", prompt);
        proof {
            assert(r@ =~= with_context_of(
                prompt@,
                views(context.shared_files@),
                context.conversation_history@,
            ));
        }
        r
    }
}

} // verus!
