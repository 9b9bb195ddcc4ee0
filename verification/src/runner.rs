//! The pipeline runner: prompt building, stage dispatch and the bookkeeping
//! of a run, one stage at a time. The caller performs what a stage asks for
//! and reports how it went.

use vstd::prelude::*;
use vstd::string::StringSliceAdditionalSpecFns;
use crate::assoc::StrMap;
use crate::clock::{fresh_id, now_millis};
use crate::json::{
    array_value, as_array, as_i64, as_text, as_u64, empty_object, encode,
    error_message, field, insert_member, json_of, json_text, jsons_of, key_order, member,
    number_i64, number_u64, object_keys, parse, parsed_json, text_member, text_value,
    unsigned_value, Json,
};
use crate::subtitle_parser::{
    parse_translated_text, parsed_vtt, rebuilt, segments_view, translated_texts, translation_text,
    SegmentView, SubtitleSegment, VttParser,
};
use crate::message::{
    clone_stages, stages_view, AgentAddress, AgentAddressView, PipelineStage, PipelineStageView,
};
use crate::pipeline::{
    cancelled, new_execution, pipeline_error_text, progress_of, stage_completed, stage_failed,
    stage_failed_continuing, started, ExecutionView, PipelineDefinition, PipelineDefinitionView,
    PipelineError, PipelineErrorView, PipelineExecution, PipelineExecutor, PipelineStatus,
};
use crate::text_lemmas::lemma_replace_without_match;
use crate::text::{
    concat2, concat3, decimal_of, opt_view, owned, replace, replace_of,
    seq_contains, str_eq, strip_prefix, trim, trim_of, u64_to_string, views,
};

verus! {

broadcast use vstd::utf8::encode_utf8_valid_utf8;

/// The longest prefix of `s` of at most `max_bytes` bytes that ends at a
/// character boundary; `s` itself where it is short enough.
pub fn truncate_safe(s: &str, max_bytes: usize) -> (r: &str)
    ensures
        s.len() <= max_bytes ==> r@ == s@,
        s.len() > max_bytes ==> {
            &&& r.spec_bytes().len() <= max_bytes
            &&& r.spec_bytes() == s.spec_bytes().subrange(0, r.spec_bytes().len() as int)
            &&& vstd::utf8::is_char_boundary(s.spec_bytes(), r.spec_bytes().len() as int)
            &&& forall|b: int|
                r.spec_bytes().len() < b <= max_bytes ==> !vstd::utf8::is_char_boundary(
                    s.spec_bytes(),
                    b,
                )
        },
{
    if s.len() <= max_bytes {
        return s;
    }
    let mut boundary = max_bytes;
    while boundary > 0 && !s.is_char_boundary(boundary)
        invariant
            boundary <= max_bytes < s.len(),
            forall|b: int|
                boundary < b <= max_bytes ==> !vstd::utf8::is_char_boundary(s.spec_bytes(), b),
        decreases boundary,
    {
        boundary = boundary - 1;
    }
    let (head, _) = s.split_at(boundary);
    head
}

// ---------------------------------------------------------------------------
// Prompts
// ---------------------------------------------------------------------------

/// A name and the text that stands for it in a template.
pub struct Binding {
    pub name: Seq<char>,
    pub text: Seq<char>,
}

/// The placeholder of a name: the name in double braces.
pub open spec fn placeholder(name: Seq<char>) -> Seq<char> {
    "{{"@ + name + "}}"@
}

/// `t` with the placeholders of `bindings` replaced, one binding after the
/// other.
pub open spec fn apply_bindings(t: Seq<char>, bindings: Seq<Binding>) -> Seq<char>
    decreases bindings.len(),
{
    if bindings.len() == 0 {
        t
    } else {
        replace_of(
            apply_bindings(t, bindings.drop_last()),
            placeholder(bindings.last().name),
            bindings.last().text,
        )
    }
}

/// The bindings of the outputs of earlier stages, in the order in which the
/// stages finished.
pub open spec fn output_bindings(names: Seq<Seq<char>>, outputs: Seq<String>) -> Seq<Binding> {
    Seq::new(names.len(), |i: int| Binding { name: names[i], text: outputs[i]@ })
}

/// The text that stands for a member of the input: a string stands for
/// itself, any other value for its JSON encoding.
pub open spec fn input_text(v: Json) -> Seq<char> {
    match v {
        Json::Text(s) => s,
        _ => json_text(v),
    }
}

/// The bindings of the top-level keys of the input; none where the input is
/// not an object.
pub open spec fn input_bindings(input: Json) -> Seq<Binding> {
    match input {
        Json::Object(m) => Seq::new(
            key_order(m.dom()).len(),
            |i: int|
                Binding { name: key_order(m.dom())[i], text: input_text(m[key_order(m.dom())[i]]) },
        ),
        _ => Seq::empty(),
    }
}

/// The JSON object that holds each output under the name of its stage.
pub open spec fn outputs_object(bindings: Seq<Binding>) -> Map<Seq<char>, Json>
    decreases bindings.len(),
{
    if bindings.len() == 0 {
        Map::empty()
    } else {
        outputs_object(bindings.drop_last()).insert(
            bindings.last().name,
            Json::Text(bindings.last().text),
        )
    }
}

/// The prompt of a stage without a template.
pub open spec fn default_prompt(name: Seq<char>, outputs: Seq<Binding>, input: Json) -> Seq<char> {
    "Context: "@ + json_text(Json::Object(outputs_object(outputs))) + "\n\nInput: "@ + json_text(
        input,
    ) + "\n\nExecute stage: "@ + name
}

/// The template with the outputs of earlier stages, the members of the
/// input and the whole input filled in.
pub open spec fn filled_template(t: Seq<char>, outputs: Seq<Binding>, input: Json) -> Seq<char> {
    replace_of(
        apply_bindings(apply_bindings(t, outputs), input_bindings(input)),
        "{{input}}"@,
        json_text(input),
    )
}

/// The prompt of a stage.
pub open spec fn built_prompt(
    stage: PipelineStageView,
    outputs: Seq<Binding>,
    input: Json,
) -> Seq<char> {
    match stage.prompt_template {
        Some(t) => filled_template(t, outputs, input),
        None => default_prompt(stage.name, outputs, input),
    }
}

fn fill_outputs(template: &str, outputs: &StrMap<String>) -> (r: String)
    requires
        outputs.wf(),
    ensures
        r@ == apply_bindings(template@, output_bindings(outputs.keys(), outputs.vals())),
{
    let ghost all = output_bindings(outputs.keys(), outputs.vals());
    let mut result = owned(template);
    let mut i: usize = 0;
    proof {
        assert(all.take(0) =~= Seq::empty());
    }
    while i < outputs.len()
        invariant
            outputs.wf(),
            all == output_bindings(outputs.keys(), outputs.vals()),
            0 <= i <= outputs.keys().len(),
            result@ == apply_bindings(template@, all.take(i as int)),
        decreases outputs.keys().len() - i,
    {
        proof {
            reveal_strlit("{{");
            let next = all.take(i as int + 1);
            assert(next.drop_last() =~= all.take(i as int));
            assert(next.last() == all[i as int]);
        }
        let key = concat3("{{", outputs.key_at(i).as_str(), "}}");
        result = replace(result.as_str(), key.as_str(), outputs.value_at(i).as_str());
        i = i + 1;
    }
    proof {
        assert(all.take(i as int) =~= all);
    }
    result
}

fn fill_input(template: &str, input: &serde_json::Value) -> (r: String)
    ensures
        r@ == apply_bindings(template@, input_bindings(json_of(*input))),
{
    let ghost all = input_bindings(json_of(*input));
    let keys = match object_keys(input) {
        Some(keys) => keys,
        None => {
            return owned(template);
        },
    };
    let ghost m = json_of(*input)->Object_0;
    let mut result = owned(template);
    let mut i: usize = 0;
    proof {
        assert(all.take(0) =~= Seq::empty());
    }
    while i < keys.len()
        invariant
            json_of(*input) == Json::Object(m),
            all == input_bindings(json_of(*input)),
            views(keys@) == key_order(m.dom()),
            views(keys@).to_set() == m.dom(),
            0 <= i <= keys.len(),
            result@ == apply_bindings(template@, all.take(i as int)),
        decreases keys.len() - i,
    {
        proof {
            reveal_strlit("{{");
            let next = all.take(i as int + 1);
            assert(next.drop_last() =~= all.take(i as int));
            assert(next.last() == all[i as int]);
            assert(views(keys@).contains(views(keys@)[i as int]));
            assert(views(keys@).to_set().contains(keys@[i as int]@));
            assert(m.dom().contains(keys@[i as int]@));
        }
        let name = concat3("{{", keys[i].as_str(), "}}");
        match field(input, keys[i].as_str()) {
            Some(v) => {
                match as_text(v) {
                    Some(s) => {
                        result = replace(result.as_str(), name.as_str(), s);
                    },
                    None => {
                        let encoded = encode(v);
                        result = replace(result.as_str(), name.as_str(), encoded.as_str());
                    },
                }
            },
            None => {
                assert(false);
            },
        }
        i = i + 1;
    }
    proof {
        assert(all.take(i as int) =~= all);
    }
    result
}

fn outputs_value(outputs: &StrMap<String>) -> (r: serde_json::Value)
    requires
        outputs.wf(),
    ensures
        json_of(r) == Json::Object(
            outputs_object(output_bindings(outputs.keys(), outputs.vals())),
        ),
{
    let ghost all = output_bindings(outputs.keys(), outputs.vals());
    let mut obj = empty_object();
    let mut i: usize = 0;
    proof {
        assert(all.take(0) =~= Seq::empty());
    }
    while i < outputs.len()
        invariant
            outputs.wf(),
            all == output_bindings(outputs.keys(), outputs.vals()),
            0 <= i <= outputs.keys().len(),
            json_of(obj) == Json::Object(outputs_object(all.take(i as int))),
        decreases outputs.keys().len() - i,
    {
        proof {
            let next = all.take(i as int + 1);
            assert(next.drop_last() =~= all.take(i as int));
            assert(next.last() == all[i as int]);
        }
        insert_member(&mut obj, outputs.key_at(i).as_str(), text_value(outputs.value_at(i).clone()));
        i = i + 1;
    }
    proof {
        assert(all.take(i as int) =~= all);
    }
    obj
}

/// Builds the prompt of a stage from the outputs of earlier stages and the
/// input of the run. Placeholders that nothing binds stay as they are.
pub fn build_prompt(stage: &PipelineStage, stage_outputs: &StrMap<String>, input: &serde_json::Value) -> (r:
    String)
    requires
        stage_outputs.wf(),
    ensures
        r@ == built_prompt(
            stage@,
            output_bindings(stage_outputs.keys(), stage_outputs.vals()),
            json_of(*input),
        ),
{
    match &stage.prompt_template {
        Some(template) => {
            let with_outputs = fill_outputs(template.as_str(), stage_outputs);
            let with_input = fill_input(with_outputs.as_str(), input);
            proof {
                reveal_strlit("{{input}}");
            }
            replace(with_input.as_str(), "{{input}}", encode(input).as_str())
        },
        None => {
            let context = encode(&outputs_value(stage_outputs));
            let head = concat3("Context: ", context.as_str(), "\n\nInput: ");
            let tail = concat3(encode(input).as_str(), "\n\nExecute stage: ", stage.name.as_str());
            let r = concat2(head.as_str(), tail.as_str());
            proof {
                assert(r@ =~= default_prompt(
                    stage@.name,
                    output_bindings(stage_outputs.keys(), stage_outputs.vals()),
                    json_of(*input),
                ));
            }
            r
        },
    }
}

// ---------------------------------------------------------------------------
// Laws of substitution
// ---------------------------------------------------------------------------

/// True when no placeholder of `bindings` occurs in `s`.
pub open spec fn free_of_placeholders(s: Seq<char>, bindings: Seq<Binding>) -> bool {
    forall|i: int| 0 <= i < bindings.len() ==> !seq_contains(s, placeholder(#[trigger] bindings[i].name))
}

/// Applying bindings to a text that holds none of their placeholders
/// changes nothing.
pub proof fn lemma_bindings_leave_bound_text(s: Seq<char>, bindings: Seq<Binding>)
    requires
        free_of_placeholders(s, bindings),
    ensures
        apply_bindings(s, bindings) == s,
    decreases bindings.len(),
{
    if bindings.len() > 0 {
        let rest = bindings.drop_last();
        assert forall|i: int| 0 <= i < rest.len() implies !seq_contains(
            s,
            placeholder(#[trigger] rest[i].name),
        ) by {
            assert(rest[i] == bindings[i]);
        }
        lemma_bindings_leave_bound_text(s, rest);
        assert(bindings.last() == bindings[bindings.len() - 1]);
        lemma_replace_without_match(s, placeholder(bindings.last().name), bindings.last().text);
    }
}

/// Substitution is idempotent once all placeholders are bound: if the
/// filled template holds no placeholder of a bound name any more, filling
/// it again gives the same text.
pub proof fn lemma_filling_twice_is_filling_once(t: Seq<char>, outputs: Seq<Binding>, input: Json)
    requires
        free_of_placeholders(filled_template(t, outputs, input), outputs),
        free_of_placeholders(filled_template(t, outputs, input), input_bindings(input)),
        !seq_contains(filled_template(t, outputs, input), "{{input}}"@),
    ensures
        filled_template(filled_template(t, outputs, input), outputs, input) == filled_template(
            t,
            outputs,
            input,
        ),
{
    let once = filled_template(t, outputs, input);
    lemma_bindings_leave_bound_text(once, outputs);
    lemma_bindings_leave_bound_text(once, input_bindings(input));
    lemma_replace_without_match(once, "{{input}}"@, json_text(input));
}


// ---------------------------------------------------------------------------
// Errors, contexts and progress
// ---------------------------------------------------------------------------

/// Why a run failed.
#[derive(Debug)]
pub enum RunnerError {
    Pipeline(PipelineError),
    AgentNotFound(String),
    Timeout(String),
    StageFailed(String),
    ExecutionNotFound(String),
    Json(String),
    Io(String),
    Youtube(String),
    VttParse(String),
    Voicevox(String),
    Executor(String),
    ExecutorNotAvailable,
}

/// The mathematical content of a [`RunnerError`].
pub enum RunnerErrorView {
    Pipeline(PipelineErrorView),
    AgentNotFound(Seq<char>),
    Timeout(Seq<char>),
    StageFailed(Seq<char>),
    ExecutionNotFound(Seq<char>),
    Json(Seq<char>),
    Io(Seq<char>),
    Youtube(Seq<char>),
    VttParse(Seq<char>),
    Voicevox(Seq<char>),
    Executor(Seq<char>),
    ExecutorNotAvailable,
}

impl View for RunnerError {
    type V = RunnerErrorView;

    open spec fn view(&self) -> RunnerErrorView {
        match *self {
            RunnerError::Pipeline(e) => RunnerErrorView::Pipeline(e@),
            RunnerError::AgentNotFound(s) => RunnerErrorView::AgentNotFound(s@),
            RunnerError::Timeout(s) => RunnerErrorView::Timeout(s@),
            RunnerError::StageFailed(s) => RunnerErrorView::StageFailed(s@),
            RunnerError::ExecutionNotFound(s) => RunnerErrorView::ExecutionNotFound(s@),
            RunnerError::Json(s) => RunnerErrorView::Json(s@),
            RunnerError::Io(s) => RunnerErrorView::Io(s@),
            RunnerError::Youtube(s) => RunnerErrorView::Youtube(s@),
            RunnerError::VttParse(s) => RunnerErrorView::VttParse(s@),
            RunnerError::Voicevox(s) => RunnerErrorView::Voicevox(s@),
            RunnerError::Executor(s) => RunnerErrorView::Executor(s@),
            RunnerError::ExecutorNotAvailable => RunnerErrorView::ExecutorNotAvailable,
        }
    }
}

/// The error as a line of text.
pub open spec fn runner_error_text(e: RunnerErrorView) -> Seq<char> {
    match e {
        RunnerErrorView::Pipeline(p) => "Pipeline error: "@ + pipeline_error_text(p),
        RunnerErrorView::AgentNotFound(s) => "Agent not found: "@ + s,
        RunnerErrorView::Timeout(s) => "Timeout waiting for agent: "@ + s,
        RunnerErrorView::StageFailed(s) => "Stage failed: "@ + s,
        RunnerErrorView::ExecutionNotFound(s) => "Execution not found: "@ + s,
        RunnerErrorView::Json(s) => "JSON error: "@ + s,
        RunnerErrorView::Io(s) => "IO error: "@ + s,
        RunnerErrorView::Youtube(s) => "YouTube download error: "@ + s,
        RunnerErrorView::VttParse(s) => "VTT parse error: "@ + s,
        RunnerErrorView::Voicevox(s) => "VOICEVOX error: "@ + s,
        RunnerErrorView::Executor(s) => "Agent executor error: "@ + s,
        RunnerErrorView::ExecutorNotAvailable => "Executor not available"@,
    }
}

impl RunnerError {
    /// The error as a line of text.
    pub fn message(&self) -> (r: String)
        ensures
            r@ == runner_error_text(self@),
    {
        match self {
            RunnerError::Pipeline(p) => concat2("Pipeline error: ", p.message().as_str()),
            RunnerError::AgentNotFound(s) => concat2("Agent not found: ", s.as_str()),
            RunnerError::Timeout(s) => concat2("Timeout waiting for agent: ", s.as_str()),
            RunnerError::StageFailed(s) => concat2("Stage failed: ", s.as_str()),
            RunnerError::ExecutionNotFound(s) => concat2("Execution not found: ", s.as_str()),
            RunnerError::Json(s) => concat2("JSON error: ", s.as_str()),
            RunnerError::Io(s) => concat2("IO error: ", s.as_str()),
            RunnerError::Youtube(s) => concat2("YouTube download error: ", s.as_str()),
            RunnerError::VttParse(s) => concat2("VTT parse error: ", s.as_str()),
            RunnerError::Voicevox(s) => concat2("VOICEVOX error: ", s.as_str()),
            RunnerError::Executor(s) => concat2("Agent executor error: ", s.as_str()),
            RunnerError::ExecutorNotAvailable => owned("Executor not available"),
        }
    }
}

/// What the stages of one run share: the outputs of the stages that
/// finished, and the input of the run.
#[derive(Debug)]
pub struct ExecutionContext {
    pub pipeline_id: String,
    pub execution_id: String,
    pub current_stage: usize,
    pub stage_outputs: StrMap<String>,
    pub input: serde_json::Value,
}

impl ExecutionContext {
    /// A context without outputs.
    pub fn new(pipeline_id: &str, execution_id: &str, input: serde_json::Value) -> (r: Self)
        ensures
            r.pipeline_id@ == pipeline_id@,
            r.execution_id@ == execution_id@,
            r.current_stage == 0,
            r.stage_outputs.wf(),
            r.stage_outputs.keys() == Seq::<Seq<char>>::empty(),
            r.stage_outputs.vals() == Seq::<String>::empty(),
            json_of(r.input) == json_of(input),
    {
        ExecutionContext {
            pipeline_id: owned(pipeline_id),
            execution_id: owned(execution_id),
            current_stage: 0,
            stage_outputs: StrMap::new(),
            input,
        }
    }
}

/// One progress report of a run.
#[derive(Debug)]
pub struct ProgressPayload {
    pub execution_id: String,
    pub stage_index: usize,
    pub stage_name: String,
    pub status: String,
    pub progress_percent: u8,
    pub message: String,
}

/// The mathematical content of a [`ProgressPayload`].
pub struct ProgressView {
    pub execution_id: Seq<char>,
    pub stage_index: nat,
    pub stage_name: Seq<char>,
    pub status: Seq<char>,
    pub progress_percent: int,
    pub message: Seq<char>,
}

impl View for ProgressPayload {
    type V = ProgressView;

    open spec fn view(&self) -> ProgressView {
        ProgressView {
            execution_id: self.execution_id@,
            stage_index: self.stage_index as nat,
            stage_name: self.stage_name@,
            status: self.status@,
            progress_percent: self.progress_percent as int,
            message: self.message@,
        }
    }
}

/// The contents of a list of progress reports.
pub open spec fn progress_views(ps: Seq<ProgressPayload>) -> Seq<ProgressView> {
    Seq::new(ps.len(), |i: int| ps[i]@)
}

/// The JSON object that a progress report is sent as.
pub open spec fn progress_json(p: ProgressView) -> Json {
    Json::Object(
        Map::<Seq<char>, Json>::empty().insert("execution_id"@, Json::Text(p.execution_id)).insert(
            "stage_index"@,
            Json::Number(decimal_of(p.stage_index)),
        ).insert("stage_name"@, Json::Text(p.stage_name)).insert("status"@, Json::Text(p.status)).insert(
            "progress_percent"@,
            Json::Number(decimal_of(p.progress_percent as nat)),
        ).insert("message"@, Json::Text(p.message)),
    )
}

impl ProgressPayload {
    /// The report as JSON text.
    pub fn to_json(&self) -> (r: String)
        ensures
            r@ == json_text(progress_json(self@)),
    {
        let mut obj = empty_object();
        insert_member(&mut obj, "execution_id", text_value(self.execution_id.clone()));
        insert_member(&mut obj, "stage_index", unsigned_value(self.stage_index as u64));
        insert_member(&mut obj, "stage_name", text_value(self.stage_name.clone()));
        insert_member(&mut obj, "status", text_value(self.status.clone()));
        insert_member(&mut obj, "progress_percent", unsigned_value(self.progress_percent as u64));
        insert_member(&mut obj, "message", text_value(self.message.clone()));
        encode(&obj)
    }
}

/// The report on stage `stage_index` of an execution: the name of that
/// stage, where there is one, and the progress of the execution.
pub open spec fn report_on(
    e: ExecutionView,
    stage_index: nat,
    status: Seq<char>,
    message: Seq<char>,
) -> ProgressView {
    ProgressView {
        execution_id: e.execution_id,
        stage_index,
        stage_name: if stage_index < e.stage_results.len() {
            e.stage_results[stage_index as int].stage_name
        } else {
            Seq::empty()
        },
        status,
        progress_percent: progress_of(e),
        message,
    }
}

/// Builds the report on stage `stage_index` of an execution.
pub fn progress_report(execution: &PipelineExecution, stage_index: usize, status: &str, message: String) -> (r:
    ProgressPayload)
    ensures
        r@ == report_on(execution@, stage_index as nat, status@, message@),
{
    let stage_name = if stage_index < execution.stage_results.len() {
        execution.stage_results[stage_index].stage_name.clone()
    } else {
        String::new()
    };
    ProgressPayload {
        execution_id: execution.execution_id.clone(),
        stage_index,
        stage_name,
        status: owned(status),
        progress_percent: execution.progress(),
        message,
    }
}

// ---------------------------------------------------------------------------
// Dispatch
// ---------------------------------------------------------------------------

/// What the caller has to do next.
#[derive(Debug)]
pub enum NextStep {
    /// Run the deterministic stage handler named `stage` with `params`.
    Direct { stage: String, params: serde_json::Value },
    /// Hand `prompt` to the agent.
    Agent { prompt: String },
    /// The run went through its last stage.
    Done,
    /// The run stopped at a failed stage.
    Stopped,
}

/// The mathematical content of a [`NextStep`].
pub enum NextStepView {
    Direct { stage: Seq<char>, params: Json },
    Agent { prompt: Seq<char> },
    Done,
    Stopped,
}

impl View for NextStep {
    type V = NextStepView;

    open spec fn view(&self) -> NextStepView {
        match *self {
            NextStep::Direct { stage, params } => NextStepView::Direct {
                stage: stage@,
                params: json_of(params),
            },
            NextStep::Agent { prompt } => NextStepView::Agent { prompt: prompt@ },
            NextStep::Done => NextStepView::Done,
            NextStep::Stopped => NextStepView::Stopped,
        }
    }
}

/// How a prompt is executed: a prompt that starts with `RUST_DIRECT:`
/// followed by a JSON object with a text member `stage` goes to the
/// deterministic handler of that name, every other prompt to the agent.
pub open spec fn classified(prompt: Seq<char>) -> NextStepView {
    if "RUST_DIRECT:"@.is_prefix_of(prompt) {
        match parsed_json(prompt.subrange("RUST_DIRECT:"@.len() as int, prompt.len() as int)) {
            Some(j) => match text_member(j, "stage"@) {
                Some(stage) => NextStepView::Direct { stage, params: j },
                None => NextStepView::Agent { prompt },
            },
            None => NextStepView::Agent { prompt },
        }
    } else {
        NextStepView::Agent { prompt }
    }
}

/// Decides how a prompt is executed.
pub fn classify_prompt(prompt: String) -> (r: NextStep)
    ensures
        r@ == classified(prompt@),
{
    let parsed = match strip_prefix(prompt.as_str(), "RUST_DIRECT:") {
        Some(rest) => parse(rest),
        None => {
            return NextStep::Agent { prompt };
        },
    };
    match parsed {
        Ok(params) => {
            let stage = match field(&params, "stage") {
                Some(v) => match as_text(v) {
                    Some(s) => Some(owned(s)),
                    None => None,
                },
                None => None,
            };
            match stage {
                Some(stage) => NextStep::Direct { stage, params },
                None => NextStep::Agent { prompt },
            }
        },
        Err(_) => NextStep::Agent { prompt },
    }
}

/// The parameters of one of the built-in deterministic stages.
#[derive(Debug)]
pub enum DirectStage {
    Download { url: String, lang: String, output_dir: String },
    Parse { output_dir: String },
    Voicevox { output_dir: String, speaker: i64 },
}

/// The mathematical content of a [`DirectStage`].
pub enum DirectStageView {
    Download { url: Seq<char>, lang: Seq<char>, output_dir: Seq<char> },
    Parse { output_dir: Seq<char> },
    Voicevox { output_dir: Seq<char>, speaker: i64 },
}

impl View for DirectStage {
    type V = DirectStageView;

    open spec fn view(&self) -> DirectStageView {
        match *self {
            DirectStage::Download { url, lang, output_dir } => DirectStageView::Download {
                url: url@,
                lang: lang@,
                output_dir: output_dir@,
            },
            DirectStage::Parse { output_dir } => DirectStageView::Parse { output_dir: output_dir@ },
            DirectStage::Voicevox { output_dir, speaker } => DirectStageView::Voicevox {
                output_dir: output_dir@,
                speaker,
            },
        }
    }
}

pub open spec fn stage_failure(message: Seq<char>) -> Result<DirectStageView, RunnerErrorView> {
    Err(RunnerErrorView::StageFailed(message))
}

/// The speaker that the parameters name; 1 where they name none.
pub open spec fn speaker_of(params: Json) -> i64 {
    match member(params, "speaker"@) {
        Some(v) => match number_i64(v) {
            Some(n) => n,
            None => 1,
        },
        None => 1,
    }
}

/// The built-in stage that a stage name and its parameters stand for, or
/// the failure of the stage where the name is unknown or a parameter is
/// missing.
pub open spec fn builtin_stage_of(stage: Seq<char>, params: Json) -> Result<
    DirectStageView,
    RunnerErrorView,
> {
    if stage == "download"@ {
        match text_member(params, "url"@) {
            None => stage_failure("Missing url"@),
            Some(url) => match text_member(params, "lang"@) {
                None => stage_failure("Missing lang"@),
                Some(lang) => match text_member(params, "output_dir"@) {
                    None => stage_failure("Missing output_dir"@),
                    Some(output_dir) => Ok(DirectStageView::Download { url, lang, output_dir }),
                },
            },
        }
    } else if stage == "parse"@ {
        match text_member(params, "output_dir"@) {
            None => stage_failure("Missing output_dir"@),
            Some(output_dir) => Ok(DirectStageView::Parse { output_dir }),
        }
    } else if stage == "voicevox"@ {
        match text_member(params, "output_dir"@) {
            None => stage_failure("Missing output_dir"@),
            Some(output_dir) => Ok(
                DirectStageView::Voicevox { output_dir, speaker: speaker_of(params) },
            ),
        }
    } else {
        stage_failure("Unknown RUST_DIRECT stage: "@ + stage)
    }
}

fn text_param(params: &serde_json::Value, key: &str) -> (r: Option<String>)
    ensures
        opt_view(r) == text_member(json_of(*params), key@),
{
    match field(params, key) {
        Some(v) => match as_text(v) {
            Some(s) => Some(owned(s)),
            None => None,
        },
        None => None,
    }
}

/// The view of the result of reading a built-in stage.
pub open spec fn direct_result(r: Result<DirectStage, RunnerError>) -> Result<
    DirectStageView,
    RunnerErrorView,
> {
    match r {
        Ok(d) => Ok(d@),
        Err(e) => Err(e@),
    }
}

fn missing(what: &str) -> (r: Result<DirectStage, RunnerError>)
    ensures
        direct_result(r) == stage_failure(what@),
{
    Err(RunnerError::StageFailed(owned(what)))
}

/// Reads the parameters of a built-in deterministic stage.
pub fn builtin_stage(stage: &str, params: &serde_json::Value) -> (r: Result<DirectStage, RunnerError>)
    ensures
        direct_result(r) == builtin_stage_of(stage@, json_of(*params)),
{
    if str_eq(stage, "download") {
        let url = match text_param(params, "url") {
            Some(v) => v,
            None => {
                return missing("Missing url");
            },
        };
        let lang = match text_param(params, "lang") {
            Some(v) => v,
            None => {
                return missing("Missing lang");
            },
        };
        let output_dir = match text_param(params, "output_dir") {
            Some(v) => v,
            None => {
                return missing("Missing output_dir");
            },
        };
        Ok(DirectStage::Download { url, lang, output_dir })
    } else if str_eq(stage, "parse") {
        match text_param(params, "output_dir") {
            Some(output_dir) => Ok(DirectStage::Parse { output_dir }),
            None => missing("Missing output_dir"),
        }
    } else if str_eq(stage, "voicevox") {
        let output_dir = match text_param(params, "output_dir") {
            Some(v) => v,
            None => {
                return missing("Missing output_dir");
            },
        };
        let speaker = match field(params, "speaker") {
            Some(v) => match as_i64(v) {
                Some(n) => n,
                None => 1,
            },
            None => 1,
        };
        Ok(DirectStage::Voicevox { output_dir, speaker })
    } else {
        Err(RunnerError::StageFailed(concat2("Unknown RUST_DIRECT stage: ", stage)))
    }
}

/// What stands in for the agent's answer where no agent is available.
pub fn fallback_output(prompt: &str) -> (r: String)
    ensures
        r@ == "[FALLBACK - Manual execution required]\n\n"@ + prompt@,
{
    concat2("[FALLBACK - Manual execution required]\n\n", prompt)
}


// ---------------------------------------------------------------------------
// A run, one stage at a time
// ---------------------------------------------------------------------------

/// What the runner knows of one run, as mathematics.
pub struct RunView {
    pub stages: Seq<PipelineStageView>,
    pub stop_on_failure: bool,
    pub outputs: Seq<Binding>,
    pub input: Json,
}

/// One turn of a run: the execution as it stands, the progress reports to
/// send, and what to do next.
pub struct TurnView {
    pub execution: ExecutionView,
    pub events: Seq<ProgressView>,
    pub next: NextStepView,
}

/// True when `name` has an output.
pub open spec fn is_bound(outputs: Seq<Binding>, name: Seq<char>) -> bool {
    exists|i: int| 0 <= i < outputs.len() && #[trigger] outputs[i].name == name
}

/// The outputs with `text` stored under `name`: in place of an older output
/// of that name, or at the end.
pub open spec fn bind(outputs: Seq<Binding>, name: Seq<char>, text: Seq<char>) -> Seq<Binding> {
    if is_bound(outputs, name) {
        outputs.update(
            choose|i: int| 0 <= i < outputs.len() && #[trigger] outputs[i].name == name,
            Binding { name, text },
        )
    } else {
        outputs.push(Binding { name, text })
    }
}

/// What follows once the bookkeeping of a stage is done: the next stage is
/// announced and dispatched, or the run is reported as completed.
pub open spec fn following(run: RunView, e: ExecutionView) -> TurnView {
    let cur = e.current_stage as int;
    if e.status == PipelineStatus::Running && cur < run.stages.len() {
        TurnView {
            execution: e,
            events: seq![
                report_on(
                    e,
                    cur as nat,
                    "stage-started"@,
                    "ステージ開始: "@ + run.stages[cur].name,
                ),
            ],
            next: classified(built_prompt(run.stages[cur], run.outputs, run.input)),
        }
    } else {
        TurnView {
            execution: e,
            events: seq![
                report_on(
                    e,
                    if run.stages.len() > 0 {
                        (run.stages.len() - 1) as nat
                    } else {
                        0
                    },
                    "pipeline-completed"@,
                    "パイプライン完了"@,
                ),
            ],
            next: NextStepView::Done,
        }
    }
}

/// The run that starts for a definition and an input.
pub open spec fn first_run(def: PipelineDefinitionView, input: Json) -> RunView {
    RunView {
        stages: def.stages,
        stop_on_failure: def.stop_on_failure,
        outputs: Seq::empty(),
        input,
    }
}

/// The first turn of a run: the execution is started, the start of the
/// pipeline is reported, and the first stage is announced and dispatched.
pub open spec fn first_turn(
    def: PipelineDefinitionView,
    execution_id: Seq<char>,
    input: Json,
    now: int,
) -> TurnView {
    let e = started(new_execution(def, execution_id, now));
    let rest = following(first_run(def, input), e);
    TurnView {
        execution: e,
        events: seq![report_on(e, 0, "pipeline-started"@, "パイプライン開始"@)] + rest.events,
        next: rest.next,
    }
}

/// The outcome of a stage: its output, or the message of its failure.
pub open spec fn outcome_view(o: Result<String, String>) -> Result<Seq<char>, Seq<char>> {
    match o {
        Ok(s) => Ok(s@),
        Err(s) => Err(s@),
    }
}

/// The run after the current stage of `e` ended with `outcome`: an output
/// is stored under the name of the stage.
pub open spec fn run_after(run: RunView, e: ExecutionView, outcome: Result<Seq<char>, Seq<char>>) -> RunView {
    match outcome {
        Ok(output) => RunView {
            outputs: bind(run.outputs, run.stages[e.current_stage as int].name, output),
            ..run
        },
        Err(_) => run,
    }
}

/// The turn after the current stage of `e` ended with `outcome` at time
/// `now`. An output completes the stage. A failure fails it, and the run
/// stops there if the pipeline stops on failure and goes on otherwise.
pub open spec fn turn_after(
    run: RunView,
    e: ExecutionView,
    outcome: Result<Seq<char>, Seq<char>>,
    now: int,
) -> TurnView {
    let cur = e.current_stage;
    let name = run.stages[cur as int].name;
    match outcome {
        Ok(output) => {
            let e2 = stage_completed(e, Json::Text(output), now);
            let rest = following(run_after(run, e, outcome), e2);
            TurnView {
                execution: e2,
                events: seq![report_on(e2, cur, "stage-completed"@, "ステージ完了: "@ + name)]
                    + rest.events,
                next: rest.next,
            }
        },
        Err(message) => {
            let text = "ステージ失敗: "@ + name + " - "@ + message;
            if run.stop_on_failure {
                let e2 = stage_failed(e, message, now);
                TurnView {
                    execution: e2,
                    events: seq![report_on(e2, cur, "stage-failed"@, text)],
                    next: NextStepView::Stopped,
                }
            } else {
                let e2 = stage_failed_continuing(e, message, now);
                let rest = following(run, e2);
                TurnView {
                    execution: e2,
                    events: seq![report_on(e2, cur, "stage-failed"@, text)] + rest.events,
                    next: rest.next,
                }
            }
        },
    }
}

/// One turn of a run.
#[derive(Debug)]
pub struct RunTurn {
    pub execution: PipelineExecution,
    pub events: Vec<ProgressPayload>,
    pub next: NextStep,
}

impl View for RunTurn {
    type V = TurnView;

    open spec fn view(&self) -> TurnView {
        TurnView {
            execution: self.execution@,
            events: progress_views(self.events@),
            next: self.next@,
        }
    }
}

/// The view of the result of a turn.
pub open spec fn turn_result(r: Result<RunTurn, RunnerError>) -> Result<TurnView, RunnerErrorView> {
    match r {
        Ok(t) => Ok(t@),
        Err(e) => Err(e@),
    }
}

#[derive(Debug)]
struct RunState {
    context: ExecutionContext,
    stages: Vec<PipelineStage>,
    stop_on_failure: bool,
}

spec fn run_view(r: RunState) -> RunView {
    RunView {
        stages: stages_view(r.stages@),
        stop_on_failure: r.stop_on_failure,
        outputs: output_bindings(r.context.stage_outputs.keys(), r.context.stage_outputs.vals()),
        input: json_of(r.context.input),
    }
}

fn announce(run: &RunState, e: &PipelineExecution, events: &mut Vec<ProgressPayload>) -> (r: NextStep)
    requires
        run.context.stage_outputs.wf(),
    ensures
        progress_views(final(events)@) == progress_views(old(events)@) + following(
            run_view(*run),
            e@,
        ).events,
        r@ == following(run_view(*run), e@).next,
{
    let ghost before = progress_views(events@);
    let cur = e.current_stage;
    if e.status == PipelineStatus::Running && cur < run.stages.len() {
        let stage = &run.stages[cur];
        events.push(
            progress_report(e, cur, "stage-started", concat2("ステージ開始: ", stage.name.as_str())),
        );
        proof {
            assert(progress_views(events@) =~= before + following(run_view(*run), e@).events);
        }
        classify_prompt(build_prompt(stage, &run.context.stage_outputs, &run.context.input))
    } else {
        let last = if run.stages.len() > 0 {
            run.stages.len() - 1
        } else {
            0
        };
        events.push(progress_report(e, last, "pipeline-completed", owned("パイプライン完了")));
        proof {
            assert(progress_views(events@) =~= before + following(run_view(*run), e@).events);
        }
        NextStep::Done
    }
}

/// The runner: the registry of pipelines and executions, and what each run
/// has produced so far.
#[derive(Debug)]
pub struct PipelineRunner {
    executor: PipelineExecutor,
    runs: StrMap<RunState>,
}

impl PipelineRunner {
    /// The registered definitions, by id.
    pub closed spec fn pipelines(&self) -> Map<Seq<char>, PipelineDefinitionView> {
        self.executor.pipelines()
    }

    /// The executions, by execution id.
    pub closed spec fn executions(&self) -> Map<Seq<char>, ExecutionView> {
        self.executor.executions()
    }

    /// The executions, in the order in which they were started.
    pub closed spec fn execution_list(&self) -> Seq<ExecutionView> {
        self.executor.execution_list()
    }

    /// The runs, by execution id.
    pub closed spec fn runs(&self) -> Map<Seq<char>, RunView> {
        self.runs.map().map_values(|r: RunState| run_view(r))
    }

    /// The registry and the map of runs are well formed.
    pub closed spec fn wf(&self) -> bool {
        &&& self.executor.wf()
        &&& self.runs.wf()
        &&& forall|i: int|
            0 <= i < self.runs.vals().len() ==> (
            #[trigger] self.runs.vals()[i]).context.stage_outputs.wf()
    }

    /// A runner over the given registry, without runs.
    pub fn new(executor: PipelineExecutor) -> (r: Self)
        requires
            executor.wf(),
        ensures
            r.wf(),
            r.pipelines() == executor.pipelines(),
            r.executions() == executor.executions(),
            r.runs() == Map::<Seq<char>, RunView>::empty(),
    {
        let r = PipelineRunner { executor, runs: StrMap::new() };
        proof {
            assert(r.runs() =~= Map::<Seq<char>, RunView>::empty());
        }
        r
    }

    /// Registers a definition. A definition without stages is rejected.
    pub fn register(&mut self, pipeline: PipelineDefinition) -> (r: Result<String, PipelineError>)
        requires
            old(self).wf(),
        ensures
            final(self).wf(),
            final(self).executions() == old(self).executions(),
            final(self).runs() == old(self).runs(),
            pipeline@.stages.len() == 0 ==> (r matches Err(PipelineError::NoStages)
                && final(self).pipelines() == old(self).pipelines()),
            pipeline@.stages.len() > 0 ==> (r matches Ok(id) && id@ == pipeline@.id
                && final(self).pipelines() == old(self).pipelines().insert(pipeline@.id, pipeline@)),
    {
        self.executor.register(pipeline)
    }

    /// The execution recorded under `execution_id`.
    pub fn get_execution(&self, execution_id: &str) -> (r: Option<PipelineExecution>)
        requires
            self.wf(),
        ensures
            r is Some == self.executions().contains_key(execution_id@),
            r matches Some(e) ==> e.wf() && e@ == self.executions()[execution_id@],
    {
        self.executor.get_execution(execution_id)
    }

    /// The executions that are running, in the order in which they were
    /// started.
    pub fn get_active_executions(&self) -> (r: Vec<PipelineExecution>)
        requires
            self.wf(),
        ensures
            crate::pipeline::executions_view(r@) == crate::pipeline::running_only(
                self.execution_list(),
            ),
    {
        self.executor.get_active_executions()
    }

    /// The output that the stage `stage_name` of a run produced.
    pub fn stage_output(&self, execution_id: &str, stage_name: &str) -> (r: Option<String>)
        requires
            self.wf(),
        ensures
            r is Some ==> self.runs().contains_key(execution_id@) && is_bound(
                self.runs()[execution_id@].outputs,
                stage_name@,
            ),
            r is None ==> !self.runs().contains_key(execution_id@) || !is_bound(
                self.runs()[execution_id@].outputs,
                stage_name@,
            ),
            r matches Some(text) ==> exists|i: int|
                0 <= i < self.runs()[execution_id@].outputs.len()
                    && #[trigger] self.runs()[execution_id@].outputs[i] == (Binding {
                    name: stage_name@,
                    text: text@,
                }),
    {
        let i = match self.runs.position(execution_id) {
            Some(i) => i,
            None => {
                return None;
            },
        };
        let run = self.runs.value_at(i);
        let ghost outs = run_view(*run).outputs;
        match run.context.stage_outputs.position(stage_name) {
            Some(k) => {
                proof {
                    assert(outs[k as int].name == stage_name@);
                }
                Some(run.context.stage_outputs.value_at(k).clone())
            },
            None => {
                proof {
                    if is_bound(outs, stage_name@) {
                        let j = choose|j: int| 0 <= j < outs.len() && #[trigger] outs[j].name == stage_name@;
                        assert(run.context.stage_outputs.keys()[j] == stage_name@);
                    }
                }
                None
            },
        }
    }

    /// Starts a run of the pipeline `pipeline_id` on `input`, under the
    /// given execution id and at time `now`.
    #[verifier::rlimit(50)]
    pub fn start_run_at(&mut self, pipeline_id: &str, input: serde_json::Value, execution_id: String, now: i64) -> (r:
        Result<RunTurn, RunnerError>)
        requires
            old(self).wf(),
        ensures
            final(self).wf(),
            final(self).pipelines() == old(self).pipelines(),
            turn_result(r) == if !old(self).pipelines().contains_key(pipeline_id@) {
                Err(RunnerErrorView::Pipeline(PipelineErrorView::NotFound(pipeline_id@)))
            } else if old(self).pipelines()[pipeline_id@].stages.len() == 0 {
                Err(RunnerErrorView::Pipeline(PipelineErrorView::NoStages))
            } else {
                Ok(
                    first_turn(
                        old(self).pipelines()[pipeline_id@],
                        execution_id@,
                        json_of(input),
                        now as int,
                    ),
                )
            },
            r is Err ==> final(self).executions() == old(self).executions() && final(self).runs()
                == old(self).runs(),
            r matches Ok(t) ==> t.execution.wf() && final(self).executions() == old(
                self,
            ).executions().insert(execution_id@, t@.execution) && final(self).runs() == old(
                self,
            ).runs().insert(
                execution_id@,
                first_run(old(self).pipelines()[pipeline_id@], json_of(input)),
            ),
    {
        let definition = match self.executor.get_pipeline(pipeline_id) {
            Some(d) => d,
            None => {
                return Err(RunnerError::Pipeline(PipelineError::NotFound(owned(pipeline_id))));
            },
        };
        let execution = match self.executor.start_execution_at(pipeline_id, execution_id.clone(), now) {
            Ok(e) => e,
            Err(e) => {
                return Err(RunnerError::Pipeline(e));
            },
        };
        let run = RunState {
            context: ExecutionContext::new(pipeline_id, execution_id.as_str(), input),
            stages: clone_stages(&definition.stages),
            stop_on_failure: definition.stop_on_failure,
        };
        proof {
            assert(run_view(run).outputs =~= Seq::<Binding>::empty());
            assert(run_view(run) == first_run(old(self).pipelines()[pipeline_id@], json_of(input)));
        }
        let mut events: Vec<ProgressPayload> = Vec::new();
        events.push(progress_report(&execution, 0, "pipeline-started", owned("パイプライン開始")));
        let ghost head = progress_views(events@);
        let next = announce(&run, &execution, &mut events);
        let ghost rv = run_view(run);
        let ghost before = self.runs.vals();
        let ghost had = self.runs.has(execution_id@);
        let ghost idx = self.runs.keys().index_of(execution_id@);
        let _ = self.runs.insert(execution_id, run);
        proof {
            assert(head =~= seq![
                report_on(execution@, 0, "pipeline-started"@, "パイプライン開始"@),
            ]);
            assert(self.runs() =~= old(self).runs().insert(execution_id@, rv));
            assert forall|i: int| 0 <= i < self.runs.vals().len() implies (
            #[trigger] self.runs.vals()[i]).context.stage_outputs.wf() by {
                if had {
                    if i != idx {
                        assert(self.runs.vals()[i] == before[i]);
                    }
                } else {
                    if i < before.len() {
                        assert(self.runs.vals()[i] == before[i]);
                    }
                }
            }
        }
        Ok(RunTurn { execution, events, next })
    }

    /// Starts a run of the pipeline `pipeline_id` on `input`, with a fresh
    /// random execution id and the time that the clock gives.
    pub fn start_run(&mut self, pipeline_id: &str, input: serde_json::Value) -> (r: Result<
        RunTurn,
        RunnerError,
    >)
        requires
            old(self).wf(),
        ensures
            final(self).wf(),
            final(self).pipelines() == old(self).pipelines(),
            !old(self).pipelines().contains_key(pipeline_id@) ==> turn_result(r) == Err::<
                TurnView,
                RunnerErrorView,
            >(RunnerErrorView::Pipeline(PipelineErrorView::NotFound(pipeline_id@))),
            old(self).pipelines().contains_key(pipeline_id@) && old(
                self,
            ).pipelines()[pipeline_id@].stages.len() == 0 ==> turn_result(r) == Err::<
                TurnView,
                RunnerErrorView,
            >(RunnerErrorView::Pipeline(PipelineErrorView::NoStages)),
            old(self).pipelines().contains_key(pipeline_id@) && old(
                self,
            ).pipelines()[pipeline_id@].stages.len() > 0 ==> (r matches Ok(t) && t@ == first_turn(
                old(self).pipelines()[pipeline_id@],
                t@.execution.execution_id,
                json_of(input),
                t@.execution.start_time,
            )),
            r is Err ==> final(self).executions() == old(self).executions() && final(self).runs()
                == old(self).runs(),
            r matches Ok(t) ==> t.execution.wf() && final(self).executions() == old(
                self,
            ).executions().insert(t@.execution.execution_id, t@.execution) && final(self).runs()
                == old(self).runs().insert(
                t@.execution.execution_id,
                first_run(old(self).pipelines()[pipeline_id@], json_of(input)),
            ),
    {
        self.start_run_at(pipeline_id, input, fresh_id(), now_millis())
    }

    /// Takes the outcome of the current stage of a run at time `now`, does
    /// the bookkeeping, and says what comes next. Only a running execution
    /// with a stage at its current index takes an outcome.
    #[verifier::rlimit(50)]
    pub fn stage_finished_at(&mut self, execution_id: &str, outcome: Result<String, String>, now: i64) -> (r:
        Result<RunTurn, RunnerError>)
        requires
            old(self).wf(),
        ensures
            final(self).wf(),
            final(self).pipelines() == old(self).pipelines(),
            turn_result(r) == if !old(self).runs().contains_key(execution_id@) || !old(
                self,
            ).executions().contains_key(execution_id@) {
                Err(RunnerErrorView::ExecutionNotFound(execution_id@))
            } else if old(self).executions()[execution_id@].status != PipelineStatus::Running {
                Err(RunnerErrorView::Pipeline(PipelineErrorView::AlreadyRunning(execution_id@)))
            } else if old(self).executions()[execution_id@].current_stage >= old(
                self,
            ).runs()[execution_id@].stages.len() {
                Err(
                    RunnerErrorView::Pipeline(
                        PipelineErrorView::InvalidStageIndex(
                            old(self).executions()[execution_id@].current_stage as usize,
                        ),
                    ),
                )
            } else {
                Ok(
                    turn_after(
                        old(self).runs()[execution_id@],
                        old(self).executions()[execution_id@],
                        outcome_view(outcome),
                        now as int,
                    ),
                )
            },
            r is Err ==> final(self).executions() == old(self).executions() && final(self).runs()
                == old(self).runs(),
            r matches Ok(t) ==> t.execution.wf() && final(self).executions() == old(
                self,
            ).executions().insert(execution_id@, t@.execution) && final(self).runs() == old(
                self,
            ).runs().insert(
                execution_id@,
                run_after(
                    old(self).runs()[execution_id@],
                    old(self).executions()[execution_id@],
                    outcome_view(outcome),
                ),
            ),
    {
        let at = match self.runs.position(execution_id) {
            Some(i) => i,
            None => {
                return Err(RunnerError::ExecutionNotFound(owned(execution_id)));
            },
        };
        let execution = match self.executor.get_execution(execution_id) {
            Some(e) => e,
            None => {
                return Err(RunnerError::ExecutionNotFound(owned(execution_id)));
            },
        };
        if execution.status != PipelineStatus::Running {
            return Err(RunnerError::Pipeline(PipelineError::AlreadyRunning(owned(execution_id))));
        }
        let cur = execution.current_stage;
        let stop = self.runs.value_at(at).stop_on_failure;
        if cur >= self.runs.value_at(at).stages.len() {
            return Err(RunnerError::Pipeline(PipelineError::InvalidStageIndex(cur)));
        }
        let name = self.runs.value_at(at).stages[cur].name.clone();
        let ghost run0 = run_view(self.runs.vals()[at as int]);
        let ghost e0 = execution@;
        let mut events: Vec<ProgressPayload> = Vec::new();
        match outcome {
            Ok(output) => {
                let mut run = self.take_run(execution_id);
                let ghost outs = run.context.stage_outputs;
                let _ = run.context.stage_outputs.insert(name.clone(), output.clone());
                proof {
                    lemma_insert_binds(outs, run.context.stage_outputs, name@, output);
                }
                let done = match self.executor.complete_stage_at(execution_id, text_value(output), now) {
                    Ok(e) => e,
                    Err(e) => {
                        assert(false);
                        return Err(RunnerError::Pipeline(e));
                    },
                };
                events.push(
                    progress_report(
                        &done,
                        cur,
                        "stage-completed",
                        concat2("ステージ完了: ", name.as_str()),
                    ),
                );
                let ghost head = progress_views(events@);
                let next = announce(&run, &done, &mut events);
                proof {
                    assert(head =~= seq![
                        report_on(done@, cur as nat, "stage-completed"@, "ステージ完了: "@ + name@),
                    ]);
                }
                self.put_run(execution_id, run);
                Ok(RunTurn { execution: done, events, next })
            },
            Err(message) => {
                let text = concat2(
                    concat3("ステージ失敗: ", name.as_str(), " - ").as_str(),
                    message.as_str(),
                );
                if stop {
                    let failed = match self.executor.fail_stage_at(execution_id, message, now) {
                        Ok(e) => e,
                        Err(e) => {
                            assert(false);
                            return Err(RunnerError::Pipeline(e));
                        },
                    };
                    events.push(progress_report(&failed, cur, "stage-failed", text));
                    proof {
                        assert(progress_views(events@) =~= seq![
                            report_on(
                                failed@,
                                cur as nat,
                                "stage-failed"@,
                                "ステージ失敗: "@ + name@ + " - "@ + message@,
                            ),
                        ]);
                        assert(self.runs() =~= old(self).runs().insert(execution_id@, run0));
                    }
                    Ok(RunTurn { execution: failed, events, next: NextStep::Stopped })
                } else {
                    let failed = match self.executor.fail_stage_continuing_at(
                        execution_id,
                        message,
                        now,
                    ) {
                        Ok(e) => e,
                        Err(e) => {
                            assert(false);
                            return Err(RunnerError::Pipeline(e));
                        },
                    };
                    events.push(progress_report(&failed, cur, "stage-failed", text));
                    let ghost head = progress_views(events@);
                    let next = announce(self.runs.value_at(at), &failed, &mut events);
                    proof {
                        assert(head =~= seq![
                            report_on(
                                failed@,
                                cur as nat,
                                "stage-failed"@,
                                "ステージ失敗: "@ + name@ + " - "@ + message@,
                            ),
                        ]);
                        assert(self.runs() =~= old(self).runs().insert(execution_id@, run0));
                    }
                    Ok(RunTurn { execution: failed, events, next })
                }
            },
        }
    }

    /// Takes the outcome of the current stage of a run; the time is read
    /// from the clock.
    pub fn stage_finished(&mut self, execution_id: &str, outcome: Result<String, String>) -> (r:
        Result<RunTurn, RunnerError>)
        requires
            old(self).wf(),
        ensures
            final(self).wf(),
            final(self).pipelines() == old(self).pipelines(),
            exists|now: int|
                turn_result(r) == if !old(self).runs().contains_key(execution_id@) || !old(
                    self,
                ).executions().contains_key(execution_id@) {
                    Err(RunnerErrorView::ExecutionNotFound(execution_id@))
                } else if old(self).executions()[execution_id@].status != PipelineStatus::Running {
                    Err(RunnerErrorView::Pipeline(PipelineErrorView::AlreadyRunning(execution_id@)))
                } else if old(self).executions()[execution_id@].current_stage >= old(
                    self,
                ).runs()[execution_id@].stages.len() {
                    Err(
                        RunnerErrorView::Pipeline(
                            PipelineErrorView::InvalidStageIndex(
                                old(self).executions()[execution_id@].current_stage as usize,
                            ),
                        ),
                    )
                } else {
                    Ok(
                        #[trigger] turn_after(
                            old(self).runs()[execution_id@],
                            old(self).executions()[execution_id@],
                            outcome_view(outcome),
                            now,
                        ),
                    )
                },
            r is Err ==> final(self).executions() == old(self).executions() && final(self).runs()
                == old(self).runs(),
            r matches Ok(t) ==> t.execution.wf() && final(self).executions() == old(
                self,
            ).executions().insert(execution_id@, t@.execution) && final(self).runs() == old(
                self,
            ).runs().insert(
                execution_id@,
                run_after(
                    old(self).runs()[execution_id@],
                    old(self).executions()[execution_id@],
                    outcome_view(outcome),
                ),
            ),
    {
        let now = now_millis();
        let r = self.stage_finished_at(execution_id, outcome, now);
        proof {
            let t = turn_after(
                old(self).runs()[execution_id@],
                old(self).executions()[execution_id@],
                outcome_view(outcome),
                now as int,
            );
            assert(t == t);
        }
        r
    }

    /// Cancels a run at time `now` and reports it.
    pub fn cancel_execution_at(&mut self, execution_id: &str, now: i64) -> (r: Result<
        (PipelineExecution, ProgressPayload),
        RunnerError,
    >)
        requires
            old(self).wf(),
        ensures
            final(self).wf(),
            final(self).pipelines() == old(self).pipelines(),
            final(self).runs() == old(self).runs(),
            !old(self).executions().contains_key(execution_id@) ==> (r matches Err(e) && e@
                == RunnerErrorView::Pipeline(PipelineErrorView::ExecutionNotFound(execution_id@))
                && final(self).executions() == old(self).executions()),
            old(self).executions().contains_key(execution_id@) ==> (r matches Ok(pair) && pair.0.wf()
                && pair.0@ == cancelled(old(self).executions()[execution_id@], now as int)
                && pair.1@ == report_on(
                pair.0@,
                pair.0@.current_stage,
                "cancelled"@,
                "パイプラインキャンセル"@,
            ) && final(self).executions() == old(self).executions().insert(
                execution_id@,
                pair.0@,
            )),
    {
        match self.executor.cancel_execution_at(execution_id, now) {
            Ok(e) => {
                let report = progress_report(
                    &e,
                    e.current_stage,
                    "cancelled",
                    owned("パイプラインキャンセル"),
                );
                Ok((e, report))
            },
            Err(e) => Err(RunnerError::Pipeline(e)),
        }
    }

    /// Cancels a run and reports it; the time is read from the clock.
    pub fn cancel_execution(&mut self, execution_id: &str) -> (r: Result<
        (PipelineExecution, ProgressPayload),
        RunnerError,
    >)
        requires
            old(self).wf(),
        ensures
            final(self).wf(),
            final(self).pipelines() == old(self).pipelines(),
            final(self).runs() == old(self).runs(),
            !old(self).executions().contains_key(execution_id@) ==> (r matches Err(e) && e@
                == RunnerErrorView::Pipeline(PipelineErrorView::ExecutionNotFound(execution_id@))
                && final(self).executions() == old(self).executions()),
            old(self).executions().contains_key(execution_id@) ==> (r matches Ok(pair) && pair.0.wf()
                && (exists|now: int|
                pair.0@ == #[trigger] cancelled(old(self).executions()[execution_id@], now))
                && pair.1@ == report_on(
                pair.0@,
                pair.0@.current_stage,
                "cancelled"@,
                "パイプラインキャンセル"@,
            ) && final(self).executions() == old(self).executions().insert(
                execution_id@,
                pair.0@,
            )),
    {
        let now = now_millis();
        let r = self.cancel_execution_at(execution_id, now);
        proof {
            let c = cancelled(old(self).executions()[execution_id@], now as int);
            assert(c == c);
        }
        r
    }

    fn take_run(&mut self, execution_id: &str) -> (r: RunState)
        requires
            old(self).wf(),
            old(self).runs.has(execution_id@),
        ensures
            r == old(self).runs.at(execution_id@),
            r.context.stage_outputs.wf(),
            final(self).executor == old(self).executor,
            final(self).runs.wf(),
            final(self).runs.map() == old(self).runs.map().remove(execution_id@),
            final(self).runs.keys() == old(self).runs.keys().remove(
                old(self).runs.keys().index_of(execution_id@),
            ),
            forall|i: int|
                0 <= i < final(self).runs.vals().len() ==> (
                #[trigger] final(self).runs.vals()[i]).context.stage_outputs.wf(),
    {
        let ghost idx = self.runs.keys().index_of(execution_id@);
        let ghost before = self.runs.vals();
        proof {
            assert(0 <= idx < self.runs.keys().len() && self.runs.keys()[idx] == execution_id@);
        }
        let r = self.runs.remove(execution_id);
        proof {
            assert forall|i: int| 0 <= i < self.runs.vals().len() implies (
            #[trigger] self.runs.vals()[i]).context.stage_outputs.wf() by {
                if i < idx {
                    assert(self.runs.vals()[i] == before[i]);
                } else {
                    assert(self.runs.vals()[i] == before[i + 1]);
                }
            }
            assert(before[idx].context.stage_outputs.wf());
        }
        r.unwrap()
    }

    fn put_run(&mut self, execution_id: &str, run: RunState)
        requires
            old(self).executor.wf(),
            old(self).runs.wf(),
            run.context.stage_outputs.wf(),
            forall|i: int|
                0 <= i < old(self).runs.vals().len() ==> (
                #[trigger] old(self).runs.vals()[i]).context.stage_outputs.wf(),
        ensures
            final(self).wf(),
            final(self).executor == old(self).executor,
            final(self).runs.map() == old(self).runs.map().insert(execution_id@, run),
    {
        let ghost before = self.runs.vals();
        let ghost had = self.runs.has(execution_id@);
        let ghost idx = self.runs.keys().index_of(execution_id@);
        let _ = self.runs.insert(owned(execution_id), run);
        proof {
            assert forall|i: int| 0 <= i < self.runs.vals().len() implies (
            #[trigger] self.runs.vals()[i]).context.stage_outputs.wf() by {
                if had {
                    if i != idx {
                        assert(self.runs.vals()[i] == before[i]);
                    }
                } else {
                    if i < before.len() {
                        assert(self.runs.vals()[i] == before[i]);
                    }
                }
            }
        }
    }
}

proof fn lemma_insert_binds(before: StrMap<String>, after: StrMap<String>, name: Seq<char>, output: String)
    requires
        before.wf(),
        after.wf(),
        before.has(name) ==> after.keys() == before.keys() && after.vals() == before.vals().update(
            before.keys().index_of(name),
            output,
        ),
        !before.has(name) ==> after.keys() == before.keys().push(name) && after.vals()
            == before.vals().push(output),
    ensures
        output_bindings(after.keys(), after.vals()) == bind(
            output_bindings(before.keys(), before.vals()),
            name,
            output@,
        ),
{
    let b = output_bindings(before.keys(), before.vals());
    let a = output_bindings(after.keys(), after.vals());
    if before.has(name) {
        let j = before.keys().index_of(name);
        assert(0 <= j < before.keys().len() && before.keys()[j] == name);
        assert(b[j].name == name);
        assert(is_bound(b, name));
        let c = choose|i: int| 0 <= i < b.len() && #[trigger] b[i].name == name;
        assert(before.keys()[c] == name);
        assert(c == j);
        assert(a =~= b.update(c, Binding { name, text: output@ }));
    } else {
        if is_bound(b, name) {
            let c = choose|i: int| 0 <= i < b.len() && #[trigger] b[i].name == name;
            assert(before.keys()[c] == name);
            assert(false);
        }
        assert(a =~= b.push(Binding { name, text: output@ }));
    }
}


// ---------------------------------------------------------------------------
// The subtitle pipeline
// ---------------------------------------------------------------------------

/// The prompt template of the translation stage.
pub const TRANSLATE_TEMPLATE: &'static str =
    "以下の字幕テキストを日本語に翻訳してください。\n翻訳結果のみを出力してください。各セグメントの番号を維持してください。\n\n{{parse-subtitles}}\n\n【翻訳ルール】\n1. 自然な日本語に翻訳\n2. 短すぎず長すぎない、適切な長さに\n3. 番号付きフォーマットを維持: [0] テキスト\n\n翻訳結果:";

/// The agent address of the deterministic stages.
pub open spec fn direct_agent() -> AgentAddressView {
    AgentAddressView { id: "rust-direct"@, instance: None }
}

/// A deterministic stage: its template is the marker followed by the JSON
/// encoding of its parameters.
pub open spec fn direct_stage(name: Seq<char>, params: Json) -> PipelineStageView {
    PipelineStageView {
        name,
        agent: direct_agent(),
        prompt_template: Some("RUST_DIRECT:"@ + json_text(params)),
    }
}

/// The name of the stage that downloads the subtitles.
pub const DOWNLOAD_STAGE: &'static str = "download-subtitles";

/// The name of the stage that parses the subtitles.
pub const PARSE_STAGE: &'static str = "parse-subtitles";

/// The name of the stage that translates the subtitles.
pub const TRANSLATE_STAGE: &'static str = "translate-subtitles";

/// The name of the stage that speaks the translation.
pub const VOICE_STAGE: &'static str = "voice-synthesis";

/// The four stages of the subtitle pipeline: download, parse, translate,
/// synthesise.
pub open spec fn subtitle_stages(url: Seq<char>, lang: Seq<char>, dir: Seq<char>) -> Seq<
    PipelineStageView,
> {
    let empty = Map::<Seq<char>, Json>::empty();
    seq![
        direct_stage(
            DOWNLOAD_STAGE@,
            Json::Object(
                empty.insert("url"@, Json::Text(url)).insert("lang"@, Json::Text(lang)).insert(
                    "output_dir"@,
                    Json::Text(dir),
                ).insert("stage"@, Json::Text("download"@)),
            ),
        ),
        direct_stage(
            PARSE_STAGE@,
            Json::Object(
                empty.insert("stage"@, Json::Text("parse"@)).insert("output_dir"@, Json::Text(dir)),
            ),
        ),
        PipelineStageView {
            name: TRANSLATE_STAGE@,
            agent: AgentAddressView { id: "coding-agent"@, instance: None },
            prompt_template: Some(TRANSLATE_TEMPLATE@),
        },
        direct_stage(
            VOICE_STAGE@,
            Json::Object(
                empty.insert("stage"@, Json::Text("voicevox"@)).insert(
                    "output_dir"@,
                    Json::Text(dir),
                ).insert("speaker"@, Json::Number(decimal_of(1))),
            ),
        ),
    ]
}

fn make_direct_stage(name: &str, params: &serde_json::Value) -> (r: PipelineStage)
    ensures
        r@ == direct_stage(name@, json_of(*params)),
{
    let template = concat2("RUST_DIRECT:", encode(params).as_str());
    PipelineStage::new(name, AgentAddress::new("rust-direct")).with_prompt_template(template.as_str())
}

/// The definition of the subtitle pipeline for a video, a subtitle language
/// and an output directory, under a fresh random id.
pub fn create_subtitle_pipeline(youtube_url: &str, subtitle_lang: &str, output_dir: &str) -> (r:
    PipelineDefinition)
    ensures
        r@.name == "subtitle-translation"@,
        r@.stages == subtitle_stages(youtube_url@, subtitle_lang@, output_dir@),
        r@.default_input is None,
        r@.stop_on_failure,
{
    let mut download = empty_object();
    insert_member(&mut download, "url", text_value(owned(youtube_url)));
    insert_member(&mut download, "lang", text_value(owned(subtitle_lang)));
    insert_member(&mut download, "output_dir", text_value(owned(output_dir)));
    insert_member(&mut download, "stage", text_value(owned("download")));
    let mut parse_params = empty_object();
    insert_member(&mut parse_params, "stage", text_value(owned("parse")));
    insert_member(&mut parse_params, "output_dir", text_value(owned(output_dir)));
    let mut voice = empty_object();
    insert_member(&mut voice, "stage", text_value(owned("voicevox")));
    insert_member(&mut voice, "output_dir", text_value(owned(output_dir)));
    insert_member(&mut voice, "speaker", unsigned_value(1));
    let translate = PipelineStage::new(
        TRANSLATE_STAGE,
        AgentAddress::new("coding-agent"),
    ).with_prompt_template(TRANSLATE_TEMPLATE);
    let r = PipelineDefinition::new("subtitle-translation").add_stage(
        make_direct_stage(DOWNLOAD_STAGE, &download),
    ).add_stage(make_direct_stage(PARSE_STAGE, &parse_params)).add_stage(translate).add_stage(
        make_direct_stage(VOICE_STAGE, &voice),
    );
    proof {
        assert(r@.stages =~= subtitle_stages(youtube_url@, subtitle_lang@, output_dir@));
    }
    r
}

/// The input of a run of the subtitle pipeline.
pub fn subtitle_input(youtube_url: &str, subtitle_lang: &str, output_dir: &str) -> (r: serde_json::Value)
    ensures
        json_of(r) == Json::Object(
            Map::<Seq<char>, Json>::empty().insert("youtube_url"@, Json::Text(youtube_url@)).insert(
                "subtitle_lang"@,
                Json::Text(subtitle_lang@),
            ).insert("output_dir"@, Json::Text(output_dir@)),
        ),
{
    let mut input = empty_object();
    insert_member(&mut input, "youtube_url", text_value(owned(youtube_url)));
    insert_member(&mut input, "subtitle_lang", text_value(owned(subtitle_lang)));
    insert_member(&mut input, "output_dir", text_value(owned(output_dir)));
    input
}

// ---------------------------------------------------------------------------
// What the deterministic stages compute
// ---------------------------------------------------------------------------

/// The JSON object that a segment is stored as.
pub open spec fn segment_json(s: SegmentView) -> Json {
    Json::Object(
        Map::<Seq<char>, Json>::empty().insert(
            "index"@,
            Json::Number(decimal_of(s.index as nat)),
        ).insert("start_ms"@, Json::Number(decimal_of(s.start_ms as nat))).insert(
            "end_ms"@,
            Json::Number(decimal_of(s.end_ms as nat)),
        ).insert("text"@, Json::Text(s.text)),
    )
}

/// The JSON array that a list of segments is stored as.
pub open spec fn segments_json(segments: Seq<SegmentView>) -> Json {
    Json::Array(Seq::new(segments.len(), |i: int| segment_json(segments[i])))
}

/// The segments as JSON text, for the stage that needs them later.
pub fn segments_to_json(segments: &[SubtitleSegment]) -> (r: String)
    ensures
        r@ == json_text(segments_json(segments_view(segments@))),
{
    let mut items: Vec<serde_json::Value> = Vec::new();
    let mut i: usize = 0;
    while i < segments.len()
        invariant
            0 <= i <= segments@.len(),
            items@.len() == i,
            forall|k: int| 0 <= k < i ==> json_of(#[trigger] items@[k]) == segment_json(segments@[k]@),
        decreases segments@.len() - i,
    {
        let mut obj = empty_object();
        insert_member(&mut obj, "index", unsigned_value(segments[i].index as u64));
        insert_member(&mut obj, "start_ms", unsigned_value(segments[i].start_ms));
        insert_member(&mut obj, "end_ms", unsigned_value(segments[i].end_ms));
        insert_member(&mut obj, "text", text_value(segments[i].text.clone()));
        items.push(obj);
        i = i + 1;
    }
    proof {
        assert(jsons_of(items@) =~= Seq::new(
            segments@.len(),
            |i: int| segment_json(segments_view(segments@)[i]),
        ));
    }
    encode(&array_value(items))
}

/// The segment that a stored JSON object stands for: an object with the
/// numbers `index`, `start_ms` and `end_ms` and the text `text`, the index
/// within 32 bits and the start not after the end.
pub open spec fn stored_segment(j: Json) -> Option<SegmentView> {
    match (member(j, "index"@), member(j, "start_ms"@), member(j, "end_ms"@), text_member(j, "text"@)) {
        (Some(i), Some(s), Some(e), Some(text)) => match (
            number_u64(i),
            number_u64(s),
            number_u64(e),
        ) {
            (Some(index), Some(start_ms), Some(end_ms)) => if index <= u32::MAX && start_ms
                <= end_ms {
                Some(SegmentView { index: index as u32, start_ms, end_ms, text })
            } else {
                None
            },
            _ => None,
        },
        _ => None,
    }
}

/// The segments that a stored JSON text stands for: an array whose elements
/// all stand for segments.
pub open spec fn stored_segments(text: Seq<char>) -> Option<Seq<SegmentView>> {
    match parsed_json(text) {
        Some(Json::Array(items)) => if forall|i: int|
            0 <= i < items.len() ==> (#[trigger] stored_segment(items[i])) is Some {
            Some(Seq::new(items.len(), |i: int| stored_segment(items[i]).unwrap()))
        } else {
            None
        },
        _ => None,
    }
}

fn read_segment(v: &serde_json::Value) -> (r: Option<SubtitleSegment>)
    ensures
        r is Some == stored_segment(json_of(*v)) is Some,
        r matches Some(s) ==> s.wf() && Some(s@) == stored_segment(json_of(*v)),
{
    let index = match field(v, "index") {
        Some(m) => as_u64(m),
        None => {
            return None;
        },
    };
    let start = match field(v, "start_ms") {
        Some(m) => as_u64(m),
        None => {
            return None;
        },
    };
    let end = match field(v, "end_ms") {
        Some(m) => as_u64(m),
        None => {
            return None;
        },
    };
    let text = match field(v, "text") {
        Some(m) => match as_text(m) {
            Some(t) => owned(t),
            None => {
                return None;
            },
        },
        None => {
            return None;
        },
    };
    match (index, start, end) {
        (Some(index), Some(start_ms), Some(end_ms)) => {
            if index <= u32::MAX as u64 && start_ms <= end_ms {
                Some(SubtitleSegment::new(index as u32, start_ms, end_ms, text))
            } else {
                None
            }
        },
        _ => None,
    }
}

/// Reads stored segments back.
pub fn segments_from_json(text: &str) -> (r: Result<Vec<SubtitleSegment>, RunnerError>)
    ensures
        r is Ok == stored_segments(text@) is Some,
        r matches Ok(v) ==> Some(segments_view(v@)) == stored_segments(text@) && (forall|i: int|
            0 <= i < v@.len() ==> (#[trigger] v@[i]).wf()),
        r matches Err(e) ==> e is Json,
{
    let value = match parse(text) {
        Ok(v) => v,
        Err(e) => {
            return Err(RunnerError::Json(error_message(&e)));
        },
    };
    let items = match as_array(&value) {
        Some(a) => a,
        None => {
            return Err(RunnerError::Json(owned("expected an array of segments")));
        },
    };
    let mut out: Vec<SubtitleSegment> = Vec::new();
    let mut i: usize = 0;
    while i < items.len()
        invariant
            0 <= i <= items.len(),
            out@.len() == i,
            parsed_json(text@) == Some(Json::Array(jsons_of(items@))),
            forall|k: int| 0 <= k < i ==> Some((#[trigger] out@[k])@) == stored_segment(jsons_of(items@)[k]),
            forall|k: int| 0 <= k < i ==> (#[trigger] out@[k]).wf(),
        decreases items.len() - i,
    {
        match read_segment(&items[i]) {
            Some(s) => {
                out.push(s);
            },
            None => {
                proof {
                    assert(stored_segment(jsons_of(items@)[i as int]) is None);
                }
                return Err(RunnerError::Json(owned("not a segment")));
            },
        }
        i = i + 1;
    }
    proof {
        let js = jsons_of(items@);
        assert forall|i: int| 0 <= i < js.len() implies (#[trigger] stored_segment(js[i])) is Some by {
            assert(Some(out@[i]@) == stored_segment(js[i]));
        }
        assert(segments_view(out@) =~= Seq::new(js.len(), |i: int| stored_segment(js[i]).unwrap()));
    }
    Ok(out)
}

/// What the parse stage computes from the text of a subtitle file: the
/// segments, and the text that is handed to the translator.
pub fn parse_stage(content: &str) -> (r: Result<(Vec<SubtitleSegment>, String), RunnerError>)
    ensures
        match parsed_vtt(content@) {
            Ok(segments) => r matches Ok(pair) && segments_view(pair.0@) == segments && pair.1@
                == translation_text(segments),
            Err(_) => r matches Err(RunnerError::VttParse(_)),
        },
{
    match VttParser::parse(content) {
        Ok(segments) => {
            let text = VttParser::to_translation_text(segments.as_slice());
            Ok((segments, text))
        },
        Err(e) => Err(RunnerError::VttParse(e.message())),
    }
}

/// What the voice stage computes from the stored segments and the
/// translator's answer: the translated texts, and the subtitle file with
/// the translations in place.
pub fn voice_stage(original: &[SubtitleSegment], translated_text: &str) -> (r: (Vec<String>, String))
    ensures
        views(r.0@) == translated_texts(translated_text@),
        r.1@ == rebuilt(
            segments_view(original@),
            translated_texts(translated_text@),
            original@.len() as int,
        ),
{
    let translations = parse_translated_text(translated_text);
    let vtt = VttParser::rebuild_vtt(original, translations.as_slice());
    (translations, vtt)
}

/// True for a translation that is spoken: one that is not blank.
pub fn is_spoken(text: &str) -> (r: bool)
    ensures
        r == (trim_of(text@).len() > 0),
{
    !trim(text).is_empty()
}

/// Where the segments of a run are stored.
pub fn segments_path(output_dir: &str) -> (r: String)
    ensures
        r@ == output_dir@ + "/segments.json"@,
{
    concat2(output_dir, "/segments.json")
}

/// Where the translated subtitle file of a run is stored.
pub fn translated_vtt_path(output_dir: &str) -> (r: String)
    ensures
        r@ == output_dir@ + "/translated.ja.vtt"@,
{
    concat2(output_dir, "/translated.ja.vtt")
}

/// The directory of the audio files of a run.
pub fn audio_dir(output_dir: &str) -> (r: String)
    ensures
        r@ == output_dir@ + "/audio"@,
{
    concat2(output_dir, "/audio")
}

/// The number of a segment in the name of its audio file: four digits at
/// least.
pub open spec fn four_digits(i: nat) -> Seq<char> {
    crate::text::zeros(4 - decimal_of(i).len()) + decimal_of(i)
}

/// The audio file of the segment at index `i`.
pub fn audio_path(audio_dir: &str, i: u64) -> (r: String)
    ensures
        r@ == audio_dir@ + "/audio_"@ + four_digits(i as nat) + ".wav"@,
{
    let digits = u64_to_string(i);
    let len = digits.as_str().unicode_len();
    let mut number = String::new();
    let mut k: usize = len;
    while k < 4
        invariant
            len <= k,
            k <= 4 || k == len,
            number@ == crate::text::zeros(k - len),
        decreases 4 - k,
    {
        number = number.concat("0");
        proof {
            reveal_strlit("0");
            assert(number@ =~= crate::text::zeros(k + 1 - len));
        }
        k = k + 1;
    }
    proof {
        assert(number@ =~= crate::text::zeros(4 - len));
    }
    let name = concat3("/audio_", number.concat(digits.as_str()).as_str(), ".wav");
    let r = concat2(audio_dir, name.as_str());
    proof {
        assert(r@ =~= audio_dir@ + "/audio_"@ + four_digits(i as nat) + ".wav"@);
    }
    r
}

/// The output of the voice stage where the speech engine does not run.
pub fn voice_skipped(vtt_path: &str) -> (r: String)
    ensures
        r@ == "Translated VTT saved to "@ + vtt_path@ + " (VOICEVOX not running)"@,
{
    concat3("Translated VTT saved to ", vtt_path, " (VOICEVOX not running)")
}

/// The output of the voice stage after `count` audio files were written.
pub fn voice_summary(count: u64, audio_dir: &str) -> (r: String)
    ensures
        r@ == "Generated "@ + decimal_of(count as nat) + " audio files in "@ + audio_dir@,
{
    let head = concat3("Generated ", u64_to_string(count).as_str(), " audio files in ");
    concat2(head.as_str(), audio_dir)
}

impl PipelineRunner {
    /// True when `r` is the output of the stage `stage_name` of a run: the
    /// text that the stage gave, the failure `missing` where it gave none,
    /// and the failure of a run that is not known.
    pub open spec fn gives_output(
        &self,
        execution_id: Seq<char>,
        stage_name: Seq<char>,
        missing: Seq<char>,
        r: Result<String, RunnerError>,
    ) -> bool {
        &&& !self.runs().contains_key(execution_id) ==> (r matches Err(e) && e@
            == RunnerErrorView::ExecutionNotFound(execution_id))
        &&& self.runs().contains_key(execution_id) && !is_bound(
            self.runs()[execution_id].outputs,
            stage_name,
        ) ==> (r matches Err(e) && e@ == RunnerErrorView::StageFailed(missing))
        &&& self.runs().contains_key(execution_id) && is_bound(
            self.runs()[execution_id].outputs,
            stage_name,
        ) ==> (r matches Ok(text) && (exists|i: int|
            0 <= i < self.runs()[execution_id].outputs.len()
                && #[trigger] self.runs()[execution_id].outputs[i] == (Binding {
                name: stage_name,
                text: text@,
            })))
    }

    /// The subtitle file that the download stage of a run gave, which the
    /// parse stage reads.
    pub fn downloaded_file(&self, execution_id: &str) -> (r: Result<String, RunnerError>)
        requires
            self.wf(),
        ensures
            self.gives_output(execution_id@, DOWNLOAD_STAGE@, "No subtitle file from stage1"@, r),
    {
        self.required_output(execution_id, DOWNLOAD_STAGE, "No subtitle file from stage1")
    }

    /// The translated text that the translation stage of a run gave, which
    /// the voice stage reads.
    pub fn translated_text(&self, execution_id: &str) -> (r: Result<String, RunnerError>)
        requires
            self.wf(),
        ensures
            self.gives_output(
                execution_id@,
                TRANSLATE_STAGE@,
                "No translated text from stage3"@,
                r,
            ),
    {
        self.required_output(execution_id, TRANSLATE_STAGE, "No translated text from stage3")
    }

    /// The output of the stage `stage_name` of a run, which a later stage
    /// needs; `missing` is the failure where there is none.
    pub fn required_output(&self, execution_id: &str, stage_name: &str, missing: &str) -> (r: Result<
        String,
        RunnerError,
    >)
        requires
            self.wf(),
        ensures
            self.gives_output(execution_id@, stage_name@, missing@, r),
    {
        if !self.runs.contains_key(execution_id) {
            return Err(RunnerError::ExecutionNotFound(owned(execution_id)));
        }
        match self.stage_output(execution_id, stage_name) {
            Some(text) => Ok(text),
            None => Err(RunnerError::StageFailed(owned(missing))),
        }
    }
}

} // verus!
