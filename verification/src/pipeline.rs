//! Pipelines: their definitions, the bookkeeping of one execution, and the
//! registry of definitions and executions.

use vstd::prelude::*;
use crate::assoc::StrMap;
use crate::clock::{fresh_id, now_millis};
use crate::json::{
    clone_value, empty_object, encode, encode_pretty, insert_member, json_of, json_pretty_text,
    json_text, Json,
};
use crate::message::{
    address_text, clone_stages, stages_view, ACPMessageV3, AgentAddress, MessageType,
    PipelineStage, PipelineStageView,
};
use crate::text::{
    clone_opt_string, concat2, concat3, opt_view, owned, replace, replace_of, u64_to_string,
};

verus! {

/// The state of a whole execution.
#[derive(Debug, Clone, Copy, PartialEq, Eq, Structural)]
pub enum PipelineStatus {
    Pending,
    Running,
    Completed,
    Failed,
    Cancelled,
}

/// The state of one stage of an execution.
#[derive(Debug, Clone, Copy, PartialEq, Eq, Structural)]
pub enum StageStatus {
    Pending,
    Running,
    Completed,
    Failed,
    Skipped,
}

/// The view of an optional JSON value.
pub open spec fn opt_json(o: Option<serde_json::Value>) -> Option<Json> {
    match o {
        Some(v) => Some(json_of(v)),
        None => None,
    }
}

/// The view of an optional time.
pub open spec fn opt_time(o: Option<i64>) -> Option<int> {
    match o {
        Some(t) => Some(t as int),
        None => None,
    }
}

fn clone_opt_value(o: &Option<serde_json::Value>) -> (r: Option<serde_json::Value>)
    ensures
        opt_json(r) == opt_json(*o),
{
    match o {
        Some(v) => Some(clone_value(v)),
        None => None,
    }
}

// ---------------------------------------------------------------------------
// Definitions
// ---------------------------------------------------------------------------

/// Whether a pipeline stops at its first failed stage unless told
/// otherwise.
pub fn default_stop_on_failure() -> (r: bool)
    ensures
        r,
{
    true
}

/// The static description of a pipeline.
#[derive(Debug)]
pub struct PipelineDefinition {
    pub id: String,
    pub name: String,
    pub stages: Vec<PipelineStage>,
    pub default_input: Option<serde_json::Value>,
    pub stop_on_failure: bool,
}

/// The mathematical content of a [`PipelineDefinition`].
pub struct PipelineDefinitionView {
    pub id: Seq<char>,
    pub name: Seq<char>,
    pub stages: Seq<PipelineStageView>,
    pub default_input: Option<Json>,
    pub stop_on_failure: bool,
}

impl View for PipelineDefinition {
    type V = PipelineDefinitionView;

    open spec fn view(&self) -> PipelineDefinitionView {
        PipelineDefinitionView {
            id: self.id@,
            name: self.name@,
            stages: stages_view(self.stages@),
            default_input: opt_json(self.default_input),
            stop_on_failure: self.stop_on_failure,
        }
    }
}

impl Clone for PipelineDefinition {
    fn clone(&self) -> (r: Self)
        ensures
            r@ == self@,
    {
        PipelineDefinition {
            id: self.id.clone(),
            name: self.name.clone(),
            stages: clone_stages(&self.stages),
            default_input: clone_opt_value(&self.default_input),
            stop_on_failure: self.stop_on_failure,
        }
    }
}

impl PipelineDefinition {
    /// A definition with the given id and name: no stages, no default input,
    /// stopping at the first failure.
    pub fn with_id(id: String, name: &str) -> (r: Self)
        ensures
            r@ == (PipelineDefinitionView {
                id: id@,
                name: name@,
                stages: Seq::empty(),
                default_input: None,
                stop_on_failure: true,
            }),
    {
        let r = PipelineDefinition {
            id,
            name: owned(name),
            stages: Vec::new(),
            default_input: None,
            stop_on_failure: true,
        };
        proof {
            assert(stages_view(r.stages@) =~= Seq::empty());
        }
        r
    }

    /// A definition with a fresh random id.
    pub fn new(name: &str) -> (r: Self)
        ensures
            r@ == (PipelineDefinitionView {
                id: r@.id,
                name: name@,
                stages: Seq::empty(),
                default_input: None,
                stop_on_failure: true,
            }),
    {
        PipelineDefinition::with_id(fresh_id(), name)
    }

    /// The same definition with one more stage at its end.
    pub fn add_stage(self, stage: PipelineStage) -> (r: Self)
        ensures
            r@ == (PipelineDefinitionView { stages: self@.stages.push(stage@), ..self@ }),
    {
        let mut stages = self.stages;
        let ghost before = stages_view(stages@);
        stages.push(stage);
        proof {
            assert(stages_view(stages@) =~= before.push(stage@));
        }
        PipelineDefinition {
            id: self.id,
            name: self.name,
            stages,
            default_input: self.default_input,
            stop_on_failure: self.stop_on_failure,
        }
    }

    /// The same definition with the given stages in place of its own.
    pub fn with_stages(self, stages: Vec<PipelineStage>) -> (r: Self)
        ensures
            r@ == (PipelineDefinitionView { stages: stages_view(stages@), ..self@ }),
    {
        PipelineDefinition {
            id: self.id,
            name: self.name,
            stages,
            default_input: self.default_input,
            stop_on_failure: self.stop_on_failure,
        }
    }

    /// The same definition with the given default input.
    pub fn with_default_input(self, input: serde_json::Value) -> (r: Self)
        ensures
            r@ == (PipelineDefinitionView { default_input: Some(json_of(input)), ..self@ }),
    {
        PipelineDefinition {
            id: self.id,
            name: self.name,
            stages: self.stages,
            default_input: Some(input),
            stop_on_failure: self.stop_on_failure,
        }
    }

    /// The same definition, stopping at the first failure or not.
    pub fn with_stop_on_failure(self, stop: bool) -> (r: Self)
        ensures
            r@ == (PipelineDefinitionView { stop_on_failure: stop, ..self@ }),
    {
        PipelineDefinition {
            id: self.id,
            name: self.name,
            stages: self.stages,
            default_input: self.default_input,
            stop_on_failure: stop,
        }
    }

    /// The number of stages.
    pub fn stage_count(&self) -> (r: usize)
        ensures
            r == self@.stages.len(),
    {
        self.stages.len()
    }
}

// ---------------------------------------------------------------------------
// Stage results
// ---------------------------------------------------------------------------

/// What is known of one stage of an execution. Times are milliseconds since
/// the Unix epoch.
#[derive(Debug)]
pub struct StageResult {
    pub stage_name: String,
    pub stage_index: usize,
    pub status: StageStatus,
    pub output: Option<serde_json::Value>,
    pub error: Option<String>,
    pub start_time: i64,
    pub end_time: Option<i64>,
}

/// The mathematical content of a [`StageResult`].
pub struct StageResultView {
    pub stage_name: Seq<char>,
    pub stage_index: nat,
    pub status: StageStatus,
    pub output: Option<Json>,
    pub error: Option<Seq<char>>,
    pub start_time: int,
    pub end_time: Option<int>,
}

impl View for StageResult {
    type V = StageResultView;

    open spec fn view(&self) -> StageResultView {
        StageResultView {
            stage_name: self.stage_name@,
            stage_index: self.stage_index as nat,
            status: self.status,
            output: opt_json(self.output),
            error: opt_view(self.error),
            start_time: self.start_time as int,
            end_time: opt_time(self.end_time),
        }
    }
}

impl Clone for StageResult {
    fn clone(&self) -> (r: Self)
        ensures
            r@ == self@,
    {
        StageResult {
            stage_name: self.stage_name.clone(),
            stage_index: self.stage_index,
            status: self.status,
            output: clone_opt_value(&self.output),
            error: clone_opt_string(&self.error),
            start_time: self.start_time,
            end_time: self.end_time,
        }
    }
}

/// A stage that has not begun, noted at time `now`.
pub open spec fn pending_result(name: Seq<char>, index: nat, now: int) -> StageResultView {
    StageResultView {
        stage_name: name,
        stage_index: index,
        status: StageStatus::Pending,
        output: None,
        error: None,
        start_time: now,
        end_time: None,
    }
}

/// A stage that began at time `now`.
pub open spec fn running_result(name: Seq<char>, index: nat, now: int) -> StageResultView {
    StageResultView { status: StageStatus::Running, ..pending_result(name, index, now) }
}

/// The milliseconds from `start` to `end`, kept within the range of `i64`.
pub open spec fn millis_between(start: int, end: int) -> int {
    if end - start > i64::MAX {
        i64::MAX as int
    } else if end - start < i64::MIN {
        i64::MIN as int
    } else {
        end - start
    }
}

fn millis_diff(start: i64, end: i64) -> (r: i64)
    ensures
        r == millis_between(start as int, end as int),
{
    let d: i128 = end as i128 - start as i128;
    if d > i64::MAX as i128 {
        i64::MAX
    } else if d < i64::MIN as i128 {
        i64::MIN
    } else {
        d as i64
    }
}

impl StageResult {
    /// A stage that has not begun, noted at time `now`.
    pub fn pending_at(stage_name: String, stage_index: usize, now: i64) -> (r: Self)
        ensures
            r@ == pending_result(stage_name@, stage_index as nat, now as int),
    {
        StageResult {
            stage_name,
            stage_index,
            status: StageStatus::Pending,
            output: None,
            error: None,
            start_time: now,
            end_time: None,
        }
    }

    /// A stage that has not begun; the time is read from the clock.
    pub fn pending(stage_name: String, stage_index: usize) -> (r: Self)
        ensures
            r@ == pending_result(stage_name@, stage_index as nat, r@.start_time),
    {
        StageResult::pending_at(stage_name, stage_index, now_millis())
    }

    /// A stage that began at time `now`.
    pub fn running_at(stage_name: String, stage_index: usize, now: i64) -> (r: Self)
        ensures
            r@ == running_result(stage_name@, stage_index as nat, now as int),
    {
        StageResult {
            stage_name,
            stage_index,
            status: StageStatus::Running,
            output: None,
            error: None,
            start_time: now,
            end_time: None,
        }
    }

    /// A stage that begins now; the time is read from the clock.
    pub fn running(stage_name: String, stage_index: usize) -> (r: Self)
        ensures
            r@ == running_result(stage_name@, stage_index as nat, r@.start_time),
    {
        StageResult::running_at(stage_name, stage_index, now_millis())
    }

    /// The stage, completed with `output` at time `now`.
    pub fn complete_at(self, output: serde_json::Value, now: i64) -> (r: Self)
        ensures
            r@ == (StageResultView {
                status: StageStatus::Completed,
                output: Some(json_of(output)),
                end_time: Some(now as int),
                ..self@
            }),
    {
        StageResult {
            stage_name: self.stage_name,
            stage_index: self.stage_index,
            status: StageStatus::Completed,
            output: Some(output),
            error: self.error,
            start_time: self.start_time,
            end_time: Some(now),
        }
    }

    /// The stage, completed with `output`; the end time is read from the
    /// clock.
    pub fn complete(self, output: serde_json::Value) -> (r: Self)
        ensures
            r@.end_time is Some,
            r@ == (StageResultView {
                status: StageStatus::Completed,
                output: Some(json_of(output)),
                end_time: r@.end_time,
                ..self@
            }),
    {
        self.complete_at(output, now_millis())
    }

    /// The stage, failed with `error` at time `now`.
    pub fn fail_at(self, error: String, now: i64) -> (r: Self)
        ensures
            r@ == (StageResultView {
                status: StageStatus::Failed,
                error: Some(error@),
                end_time: Some(now as int),
                ..self@
            }),
    {
        StageResult {
            stage_name: self.stage_name,
            stage_index: self.stage_index,
            status: StageStatus::Failed,
            output: self.output,
            error: Some(error),
            start_time: self.start_time,
            end_time: Some(now),
        }
    }

    /// The stage, failed with `error`; the end time is read from the clock.
    pub fn fail(self, error: String) -> (r: Self)
        ensures
            r@.end_time is Some,
            r@ == (StageResultView {
                status: StageStatus::Failed,
                error: Some(error@),
                end_time: r@.end_time,
                ..self@
            }),
    {
        self.fail_at(error, now_millis())
    }

    /// The stage, skipped at time `now`.
    pub fn skip_at(self, now: i64) -> (r: Self)
        ensures
            r@ == (StageResultView {
                status: StageStatus::Skipped,
                end_time: Some(now as int),
                ..self@
            }),
    {
        StageResult {
            stage_name: self.stage_name,
            stage_index: self.stage_index,
            status: StageStatus::Skipped,
            output: self.output,
            error: self.error,
            start_time: self.start_time,
            end_time: Some(now),
        }
    }

    /// The stage, skipped; the end time is read from the clock.
    pub fn skip(self) -> (r: Self)
        ensures
            r@.end_time is Some,
            r@ == (StageResultView {
                status: StageStatus::Skipped,
                end_time: r@.end_time,
                ..self@
            }),
    {
        self.skip_at(now_millis())
    }

    /// How long the stage took, in milliseconds, once it has ended.
    pub fn duration_ms(&self) -> (r: Option<i64>)
        ensures
            r == match self@.end_time {
                Some(end) => Some(millis_between(self@.start_time, end) as i64),
                None => None,
            },
    {
        match self.end_time {
            Some(end) => Some(millis_diff(self.start_time, end)),
            None => None,
        }
    }
}

// ---------------------------------------------------------------------------
// The bookkeeping of one execution, as mathematics
// ---------------------------------------------------------------------------

/// The mathematical content of a [`PipelineExecution`].
pub struct ExecutionView {
    pub pipeline_id: Seq<char>,
    pub execution_id: Seq<char>,
    pub status: PipelineStatus,
    pub current_stage: nat,
    pub stage_results: Seq<StageResultView>,
    pub context: Map<Seq<char>, Json>,
    pub start_time: int,
    pub end_time: Option<int>,
    pub error: Option<Seq<char>>,
}

/// A new execution of `def`, created at time `now`: every stage pending.
pub open spec fn new_execution(
    def: PipelineDefinitionView,
    execution_id: Seq<char>,
    now: int,
) -> ExecutionView {
    ExecutionView {
        pipeline_id: def.id,
        execution_id,
        status: PipelineStatus::Pending,
        current_stage: 0,
        stage_results: Seq::new(
            def.stages.len(),
            |i: int| pending_result(def.stages[i].name, i as nat, now),
        ),
        context: Map::empty(),
        start_time: now,
        end_time: None,
        error: None,
    }
}

/// The execution once started: it runs, and so does its first stage.
pub open spec fn started(e: ExecutionView) -> ExecutionView {
    ExecutionView {
        status: PipelineStatus::Running,
        stage_results: if e.stage_results.len() > 0 {
            e.stage_results.update(
                0,
                StageResultView { status: StageStatus::Running, ..e.stage_results[0] },
            )
        } else {
            e.stage_results
        },
        ..e
    }
}

/// The execution after its current stage completed with `output` at time
/// `now`: the output is stored under the stage's name, and the next stage
/// runs, or, after the last stage, the execution is completed.
pub open spec fn stage_completed(e: ExecutionView, output: Json, now: int) -> ExecutionView {
    let cur = e.current_stage as int;
    if cur < e.stage_results.len() {
        let name = e.stage_results[cur].stage_name;
        let done = StageResultView {
            status: StageStatus::Completed,
            output: Some(output),
            end_time: Some(now),
            ..running_result(name, cur as nat, now)
        };
        let results = e.stage_results.update(cur, done);
        let context = e.context.insert(name, output);
        if cur + 1 < e.stage_results.len() {
            ExecutionView {
                current_stage: (cur + 1) as nat,
                stage_results: results.update(
                    cur + 1,
                    running_result(results[cur + 1].stage_name, (cur + 1) as nat, now),
                ),
                context,
                ..e
            }
        } else {
            ExecutionView {
                current_stage: (cur + 1) as nat,
                stage_results: results,
                context,
                status: PipelineStatus::Completed,
                end_time: Some(now),
                ..e
            }
        }
    } else {
        e
    }
}

/// The execution after its current stage failed with `error` at time `now`.
pub open spec fn stage_failed(e: ExecutionView, error: Seq<char>, now: int) -> ExecutionView {
    let cur = e.current_stage as int;
    ExecutionView {
        stage_results: if cur < e.stage_results.len() {
            e.stage_results.update(
                cur,
                StageResultView {
                    status: StageStatus::Failed,
                    error: Some(error),
                    end_time: Some(now),
                    ..running_result(e.stage_results[cur].stage_name, cur as nat, now)
                },
            )
        } else {
            e.stage_results
        },
        status: PipelineStatus::Failed,
        error: Some(error),
        end_time: Some(now),
        ..e
    }
}

/// The execution after its current stage failed with `error` at time `now`
/// while the pipeline goes on: the stage is failed, and the next stage
/// runs, or, after the last stage, the execution is completed.
pub open spec fn stage_failed_continuing(e: ExecutionView, error: Seq<char>, now: int) -> ExecutionView {
    let cur = e.current_stage as int;
    if cur < e.stage_results.len() {
        let failed = StageResultView {
            status: StageStatus::Failed,
            error: Some(error),
            end_time: Some(now),
            ..running_result(e.stage_results[cur].stage_name, cur as nat, now)
        };
        let results = e.stage_results.update(cur, failed);
        if cur + 1 < e.stage_results.len() {
            ExecutionView {
                current_stage: (cur + 1) as nat,
                stage_results: results.update(
                    cur + 1,
                    running_result(results[cur + 1].stage_name, (cur + 1) as nat, now),
                ),
                ..e
            }
        } else {
            ExecutionView {
                current_stage: (cur + 1) as nat,
                stage_results: results,
                status: PipelineStatus::Completed,
                end_time: Some(now),
                ..e
            }
        }
    } else {
        e
    }
}

/// A stage skipped at time `now`.
pub open spec fn skipped_result(name: Seq<char>, index: nat, now: int) -> StageResultView {
    StageResultView {
        status: StageStatus::Skipped,
        end_time: Some(now),
        ..pending_result(name, index, now)
    }
}

/// The execution after it was cancelled at time `now`: the current stage
/// and all that follow are skipped.
pub open spec fn cancelled(e: ExecutionView, now: int) -> ExecutionView {
    ExecutionView {
        status: PipelineStatus::Cancelled,
        end_time: Some(now),
        stage_results: Seq::new(
            e.stage_results.len(),
            |i: int|
                if i >= e.current_stage {
                    skipped_result(e.stage_results[i].stage_name, i as nat, now)
                } else {
                    e.stage_results[i]
                },
        ),
        ..e
    }
}

/// The number of results with the given status.
pub open spec fn count_status(results: Seq<StageResultView>, status: StageStatus) -> nat
    decreases results.len(),
{
    if results.len() == 0 {
        0
    } else {
        count_status(results.drop_last(), status) + if results.last().status == status {
            1nat
        } else {
            0nat
        }
    }
}

/// The number of stages that are over: completed or skipped.
pub open spec fn done_count(results: Seq<StageResultView>) -> nat {
    count_status(results, StageStatus::Completed) + count_status(results, StageStatus::Skipped)
}

/// The share of stages that are over, in percent, rounded down; 100 for an
/// execution without stages.
pub open spec fn progress_of(e: ExecutionView) -> int {
    if e.stage_results.len() == 0 {
        100
    } else {
        ((done_count(e.stage_results) * 100) as int) / (e.stage_results.len() as int)
    }
}

/// One successful stage completion: the output and the time.
pub struct Completion {
    pub output: Json,
    pub at: int,
}

/// The execution after the completions of `steps`, in order.
pub open spec fn after_completions(e: ExecutionView, steps: Seq<Completion>) -> ExecutionView
    decreases steps.len(),
{
    if steps.len() == 0 {
        e
    } else {
        stage_completed(after_completions(e, steps.drop_last()), steps.last().output, steps.last().at)
    }
}

// ---------------------------------------------------------------------------
// Laws of the bookkeeping
// ---------------------------------------------------------------------------

/// A sequence whose first `j` results are completed and whose others all
/// have one other status holds `j` completed results and `len - j` of the
/// other status.
pub proof fn lemma_count_prefix(results: Seq<StageResultView>, j: int, tail: StageStatus)
    requires
        0 <= j <= results.len(),
        tail != StageStatus::Completed,
        forall|i: int| 0 <= i < j ==> results[i].status == StageStatus::Completed,
        forall|i: int| j <= i < results.len() ==> results[i].status == tail,
    ensures
        count_status(results, StageStatus::Completed) == j,
        count_status(results, tail) == results.len() - j,
    decreases results.len(),
{
    if results.len() > 0 {
        let rest = results.drop_last();
        if j == results.len() {
            lemma_count_prefix(rest, j - 1, tail);
        } else {
            lemma_count_prefix(rest, j, tail);
        }
    }
}

/// The shape of a started execution of `k` stages after `j` of them
/// completed.
pub open spec fn in_progress(e: ExecutionView, k: int, j: int) -> bool {
    &&& e.stage_results.len() == k
    &&& e.current_stage == j
    &&& e.status == if j < k {
        PipelineStatus::Running
    } else {
        PipelineStatus::Completed
    }
    &&& forall|i: int| 0 <= i < j ==> (#[trigger] e.stage_results[i]).status == StageStatus::Completed
    &&& forall|i: int|
        j < i < k ==> (#[trigger] e.stage_results[i]).status == StageStatus::Pending
    &&& j < k ==> e.stage_results[j].status == StageStatus::Running
}

/// After `j` completions, a started execution of `k >= 1` stages has its
/// first `j` stages completed and stands at stage `j`.
pub proof fn lemma_completions_advance(
    def: PipelineDefinitionView,
    execution_id: Seq<char>,
    created: int,
    steps: Seq<Completion>,
)
    requires
        def.stages.len() >= 1,
        steps.len() <= def.stages.len(),
    ensures
        in_progress(
            after_completions(started(new_execution(def, execution_id, created)), steps),
            def.stages.len() as int,
            steps.len() as int,
        ),
    decreases steps.len(),
{
    let e0 = started(new_execution(def, execution_id, created));
    if steps.len() > 0 {
        lemma_completions_advance(def, execution_id, created, steps.drop_last());
    }
}

/// After as many successful completions as it has stages, an execution of at
/// least one stage is completed and its progress is 100.
pub proof fn lemma_all_stages_complete(
    def: PipelineDefinitionView,
    execution_id: Seq<char>,
    created: int,
    steps: Seq<Completion>,
)
    requires
        def.stages.len() >= 1,
        steps.len() == def.stages.len(),
    ensures
        ({
            let e = after_completions(started(new_execution(def, execution_id, created)), steps);
            e.status == PipelineStatus::Completed && progress_of(e) == 100
        }),
{
    let e = after_completions(started(new_execution(def, execution_id, created)), steps);
    let k = def.stages.len() as int;
    lemma_completions_advance(def, execution_id, created, steps);
    lemma_count_prefix(e.stage_results, k, StageStatus::Skipped);
    assert(done_count(e.stage_results) == k);
    assert((k * 100) / k == 100) by (nonlinear_arith)
        requires
            k >= 1,
    ;
}

/// A cancellation after `j` of `k` stages completed leaves exactly `k - j`
/// skipped stages, and the `j` completed ones as they were.
pub proof fn lemma_cancel_skips_the_rest(
    def: PipelineDefinitionView,
    execution_id: Seq<char>,
    created: int,
    steps: Seq<Completion>,
    now: int,
)
    requires
        steps.len() <= def.stages.len(),
    ensures
        ({
            let e = cancelled(
                after_completions(started(new_execution(def, execution_id, created)), steps),
                now,
            );
            &&& e.status == PipelineStatus::Cancelled
            &&& count_status(e.stage_results, StageStatus::Skipped) == def.stages.len() - steps.len()
            &&& count_status(e.stage_results, StageStatus::Completed) == steps.len()
        }),
{
    let before = after_completions(started(new_execution(def, execution_id, created)), steps);
    let e = cancelled(before, now);
    if def.stages.len() >= 1 {
        lemma_completions_advance(def, execution_id, created, steps);
        lemma_count_prefix(e.stage_results, steps.len() as int, StageStatus::Skipped);
    } else {
        assert(steps.len() == 0);
        assert(e.stage_results.len() == 0);
    }
}


// ---------------------------------------------------------------------------
// The bookkeeping of one execution
// ---------------------------------------------------------------------------

/// The contents of a list of stage results.
pub open spec fn results_view(rs: Seq<StageResult>) -> Seq<StageResultView> {
    Seq::new(rs.len(), |i: int| rs[i]@)
}

/// The state of one run of a pipeline. Times are milliseconds since the
/// Unix epoch.
#[derive(Debug)]
pub struct PipelineExecution {
    pub pipeline_id: String,
    pub execution_id: String,
    pub status: PipelineStatus,
    pub current_stage: usize,
    pub stage_results: Vec<StageResult>,
    pub context: StrMap<serde_json::Value>,
    pub start_time: i64,
    pub end_time: Option<i64>,
    pub error: Option<String>,
}

impl View for PipelineExecution {
    type V = ExecutionView;

    open spec fn view(&self) -> ExecutionView {
        ExecutionView {
            pipeline_id: self.pipeline_id@,
            execution_id: self.execution_id@,
            status: self.status,
            current_stage: self.current_stage as nat,
            stage_results: results_view(self.stage_results@),
            context: self.context.json_map(),
            start_time: self.start_time as int,
            end_time: opt_time(self.end_time),
            error: opt_view(self.error),
        }
    }
}

fn clone_results(v: &Vec<StageResult>) -> (r: Vec<StageResult>)
    ensures
        results_view(r@) == results_view(v@),
{
    let mut out: Vec<StageResult> = Vec::new();
    let mut i: usize = 0;
    while i < v.len()
        invariant
            0 <= i <= v.len(),
            out@.len() == i,
            forall|k: int| 0 <= k < i ==> out@[k]@ == v@[k]@,
        decreases v.len() - i,
    {
        out.push(v[i].clone());
        i = i + 1;
    }
    proof {
        assert(results_view(out@) =~= results_view(v@));
    }
    out
}

impl Clone for PipelineExecution {
    fn clone(&self) -> (r: Self)
        ensures
            self.wf() ==> r.wf() && r@ == self@,
    {
        let r = PipelineExecution {
            pipeline_id: self.pipeline_id.clone(),
            execution_id: self.execution_id.clone(),
            status: self.status,
            current_stage: self.current_stage,
            stage_results: clone_results(&self.stage_results),
            context: self.context.duplicate(),
            start_time: self.start_time,
            end_time: self.end_time,
            error: clone_opt_string(&self.error),
        };
        proof {
            if self.wf() {
                self.context.lemma_same_entries_same_views();
                assert(r.context.json_map() == self.context.json_map());
                assert(r.stage_results@.len() == self.stage_results@.len()) by {
                    assert(results_view(r.stage_results@).len() == results_view(
                        self.stage_results@,
                    ).len());
                }
            }
        }
        r
    }
}

impl PipelineExecution {
    /// The current stage is a stage or just past the last one, and the
    /// context holds no name twice.
    pub open spec fn wf(&self) -> bool {
        &&& self.context.wf()
        &&& self.current_stage <= self.stage_results@.len()
    }

    /// A new execution of `definition` under the given id, created at time
    /// `now`: every stage pending.
    pub fn new_at(definition: &PipelineDefinition, execution_id: String, now: i64) -> (r: Self)
        ensures
            r.wf(),
            r@ == new_execution(definition@, execution_id@, now as int),
    {
        let mut stage_results: Vec<StageResult> = Vec::new();
        let mut i: usize = 0;
        while i < definition.stages.len()
            invariant
                0 <= i <= definition.stages.len(),
                stage_results@.len() == i,
                forall|k: int|
                    0 <= k < i ==> stage_results@[k]@ == pending_result(
                        definition.stages@[k].name@,
                        k as nat,
                        now as int,
                    ),
            decreases definition.stages.len() - i,
        {
            stage_results.push(StageResult::pending_at(definition.stages[i].name.clone(), i, now));
            i = i + 1;
        }
        let r = PipelineExecution {
            pipeline_id: definition.id.clone(),
            execution_id,
            status: PipelineStatus::Pending,
            current_stage: 0,
            stage_results,
            context: StrMap::new(),
            start_time: now,
            end_time: None,
            error: None,
        };
        proof {
            assert(r@.stage_results =~= new_execution(
                definition@,
                execution_id@,
                now as int,
            ).stage_results);
            assert(r@.context =~= Map::<Seq<char>, Json>::empty());
        }
        r
    }

    /// A new execution of `definition`, with a fresh random id and the time
    /// that the clock gives.
    pub fn new(definition: &PipelineDefinition) -> (r: Self)
        ensures
            r.wf(),
            r@ == new_execution(definition@, r@.execution_id, r@.start_time),
    {
        PipelineExecution::new_at(definition, fresh_id(), now_millis())
    }

    /// Starts the execution: it runs, and so does its first stage.
    pub fn start(&mut self)
        requires
            old(self).wf(),
        ensures
            final(self).wf(),
            final(self)@ == started(old(self)@),
    {
        self.status = PipelineStatus::Running;
        if self.stage_results.len() > 0 {
            let mut first = self.stage_results[0].clone();
            first.status = StageStatus::Running;
            self.stage_results.set(0, first);
        }
        proof {
            assert(self@.stage_results =~= started(old(self)@).stage_results);
        }
    }

    /// Completes the current stage with `output` at time `now`. Past the
    /// last stage nothing changes.
    pub fn complete_stage_at(&mut self, output: serde_json::Value, now: i64)
        requires
            old(self).wf(),
        ensures
            final(self).wf(),
            final(self)@ == stage_completed(old(self)@, json_of(output), now as int),
    {
        if self.current_stage < self.stage_results.len() {
            let cur = self.current_stage;
            let stage_name = self.stage_results[cur].stage_name.clone();
            let done = StageResult::running_at(stage_name.clone(), cur, now).complete_at(
                clone_value(&output),
                now,
            );
            self.stage_results.set(cur, done);
            let ghost ov = json_of(output);
            let _ = self.context.insert(stage_name, output);
            proof {
                assert(self.context.json_map() =~= old(self)@.context.insert(
                    old(self)@.stage_results[cur as int].stage_name,
                    ov,
                ));
            }
            self.current_stage = cur + 1;
            if self.current_stage < self.stage_results.len() {
                let next_name = self.stage_results[cur + 1].stage_name.clone();
                self.stage_results.set(cur + 1, StageResult::running_at(next_name, cur + 1, now));
            } else {
                self.status = PipelineStatus::Completed;
                self.end_time = Some(now);
            }
            proof {
                assert(self@.stage_results =~= stage_completed(
                    old(self)@,
                    ov,
                    now as int,
                ).stage_results);
            }
        }
    }

    /// Completes the current stage with `output`; the time is read from the
    /// clock.
    pub fn complete_stage(&mut self, output: serde_json::Value)
        requires
            old(self).wf(),
        ensures
            final(self).wf(),
            exists|now: int| final(self)@ == #[trigger] stage_completed(
                old(self)@,
                json_of(output),
                now,
            ),
    {
        let now = now_millis();
        self.complete_stage_at(output, now);
        proof {
            assert(self@ == stage_completed(old(self)@, json_of(output), now as int));
        }
    }

    /// Fails the current stage, and with it the execution, at time `now`.
    pub fn fail_stage_at(&mut self, error: String, now: i64)
        requires
            old(self).wf(),
        ensures
            final(self).wf(),
            final(self)@ == stage_failed(old(self)@, error@, now as int),
    {
        if self.current_stage < self.stage_results.len() {
            let cur = self.current_stage;
            let stage_name = self.stage_results[cur].stage_name.clone();
            let failed = StageResult::running_at(stage_name, cur, now).fail_at(error.clone(), now);
            self.stage_results.set(cur, failed);
        }
        self.status = PipelineStatus::Failed;
        self.error = Some(error);
        self.end_time = Some(now);
        proof {
            assert(self@.stage_results =~= stage_failed(
                old(self)@,
                error@,
                now as int,
            ).stage_results);
        }
    }

    /// Fails the current stage at time `now` and goes on with the next one.
    /// Past the last stage nothing changes.
    pub fn fail_stage_continuing_at(&mut self, error: String, now: i64)
        requires
            old(self).wf(),
        ensures
            final(self).wf(),
            final(self)@ == stage_failed_continuing(old(self)@, error@, now as int),
    {
        if self.current_stage < self.stage_results.len() {
            let cur = self.current_stage;
            let stage_name = self.stage_results[cur].stage_name.clone();
            let failed = StageResult::running_at(stage_name, cur, now).fail_at(error, now);
            self.stage_results.set(cur, failed);
            self.current_stage = cur + 1;
            if self.current_stage < self.stage_results.len() {
                let next_name = self.stage_results[cur + 1].stage_name.clone();
                self.stage_results.set(cur + 1, StageResult::running_at(next_name, cur + 1, now));
            } else {
                self.status = PipelineStatus::Completed;
                self.end_time = Some(now);
            }
            proof {
                assert(self@.stage_results =~= stage_failed_continuing(
                    old(self)@,
                    error@,
                    now as int,
                ).stage_results);
            }
        }
    }

    /// Fails the current stage, and with it the execution; the time is read
    /// from the clock.
    pub fn fail_stage(&mut self, error: String)
        requires
            old(self).wf(),
        ensures
            final(self).wf(),
            exists|now: int| final(self)@ == #[trigger] stage_failed(old(self)@, error@, now),
    {
        let now = now_millis();
        self.fail_stage_at(error, now);
        proof {
            assert(self@ == stage_failed(old(self)@, error@, now as int));
        }
    }

    /// Cancels the execution at time `now`: the current stage and all that
    /// follow are skipped.
    pub fn cancel_at(&mut self, now: i64)
        requires
            old(self).wf(),
        ensures
            final(self).wf(),
            final(self)@ == cancelled(old(self)@, now as int),
    {
        self.status = PipelineStatus::Cancelled;
        self.end_time = Some(now);
        let mut i: usize = self.current_stage;
        while i < self.stage_results.len()
            invariant
                self.current_stage == old(self).current_stage,
                self.current_stage <= i <= self.stage_results@.len(),
                self.stage_results@.len() == old(self).stage_results@.len(),
                self.context == old(self).context,
                self.pipeline_id == old(self).pipeline_id,
                self.execution_id == old(self).execution_id,
                self.start_time == old(self).start_time,
                self.error == old(self).error,
                self.status == PipelineStatus::Cancelled,
                self.end_time == Some(now),
                forall|k: int|
                    0 <= k < self.stage_results@.len() ==> #[trigger] self.stage_results@[k]@ == (if self.current_stage
                        <= k < i {
                        skipped_result(old(self).stage_results@[k].stage_name@, k as nat, now as int)
                    } else {
                        old(self).stage_results@[k]@
                    }),
            decreases self.stage_results@.len() - i,
        {
            assert(self.stage_results@[i as int]@ == old(self).stage_results@[i as int]@);
            let ghost before = self.stage_results@;
            let stage_name = self.stage_results[i].stage_name.clone();
            self.stage_results.set(i, StageResult::pending_at(stage_name, i, now).skip_at(now));
            assert forall|k: int| 0 <= k < self.stage_results@.len() && k != i implies self.stage_results@[k]
                == before[k] by {}
            i = i + 1;
        }
        proof {
            assert(self@.stage_results =~= cancelled(old(self)@, now as int).stage_results);
        }
    }

    /// Cancels the execution; the time is read from the clock.
    pub fn cancel(&mut self)
        requires
            old(self).wf(),
        ensures
            final(self).wf(),
            exists|now: int| final(self)@ == #[trigger] cancelled(old(self)@, now),
    {
        let now = now_millis();
        self.cancel_at(now);
        proof {
            assert(self@ == cancelled(old(self)@, now as int));
        }
    }

    /// The share of stages that are over, in percent.
    pub fn progress(&self) -> (r: u8)
        ensures
            r == progress_of(self@),
            r <= 100,
    {
        let n = self.stage_results.len();
        if n == 0 {
            return 100;
        }
        let mut done: usize = 0;
        let mut i: usize = 0;
        proof {
            assert(results_view(self.stage_results@).take(0) =~= Seq::empty());
        }
        while i < n
            invariant
                n == self.stage_results@.len(),
                0 <= i <= n,
                done <= i,
                done == done_count(results_view(self.stage_results@).take(i as int)),
            decreases n - i,
        {
            proof {
                let next = results_view(self.stage_results@).take(i as int + 1);
                assert(next.drop_last() =~= results_view(self.stage_results@).take(i as int));
                assert(next.last() == self.stage_results@[i as int]@);
            }
            let st = self.stage_results[i].status;
            if st == StageStatus::Completed || st == StageStatus::Skipped {
                done = done + 1;
            }
            i = i + 1;
        }
        proof {
            assert(results_view(self.stage_results@).take(n as int) =~= results_view(
                self.stage_results@,
            ));
        }
        let p: u128 = (done as u128 * 100) / (n as u128);
        proof {
            assert((done * 100) / (n as int) <= 100) by (nonlinear_arith)
                requires
                    0 <= done <= n,
                    n > 0,
            ;
        }
        p as u8
    }

    /// How long the execution took, in milliseconds, once it has ended.
    pub fn duration_ms(&self) -> (r: Option<i64>)
        ensures
            r == match self@.end_time {
                Some(end) => Some(millis_between(self@.start_time, end) as i64),
                None => None,
            },
    {
        match self.end_time {
            Some(end) => Some(millis_diff(self.start_time, end)),
            None => None,
        }
    }
}


// ---------------------------------------------------------------------------
// The registry
// ---------------------------------------------------------------------------

/// Why an operation of the registry failed.
#[derive(Debug)]
pub enum PipelineError {
    NotFound(String),
    ExecutionNotFound(String),
    NoStages,
    StageFailed(String),
    AgentNotAvailable(String),
    InvalidStageIndex(usize),
    AlreadyRunning(String),
    JsonError(String),
}

/// The mathematical content of a [`PipelineError`].
pub enum PipelineErrorView {
    NotFound(Seq<char>),
    ExecutionNotFound(Seq<char>),
    NoStages,
    StageFailed(Seq<char>),
    AgentNotAvailable(Seq<char>),
    InvalidStageIndex(usize),
    AlreadyRunning(Seq<char>),
    JsonError(Seq<char>),
}

impl View for PipelineError {
    type V = PipelineErrorView;

    open spec fn view(&self) -> PipelineErrorView {
        match *self {
            PipelineError::NotFound(s) => PipelineErrorView::NotFound(s@),
            PipelineError::ExecutionNotFound(s) => PipelineErrorView::ExecutionNotFound(s@),
            PipelineError::NoStages => PipelineErrorView::NoStages,
            PipelineError::StageFailed(s) => PipelineErrorView::StageFailed(s@),
            PipelineError::AgentNotAvailable(s) => PipelineErrorView::AgentNotAvailable(s@),
            PipelineError::InvalidStageIndex(i) => PipelineErrorView::InvalidStageIndex(i),
            PipelineError::AlreadyRunning(s) => PipelineErrorView::AlreadyRunning(s@),
            PipelineError::JsonError(s) => PipelineErrorView::JsonError(s@),
        }
    }
}

/// The error as a line of text.
pub open spec fn pipeline_error_text(e: PipelineErrorView) -> Seq<char> {
    match e {
        PipelineErrorView::NotFound(s) => "Pipeline not found: "@ + s,
        PipelineErrorView::ExecutionNotFound(s) => "Execution not found: "@ + s,
        PipelineErrorView::NoStages => "No stages defined in pipeline"@,
        PipelineErrorView::StageFailed(s) => "Stage failed: "@ + s,
        PipelineErrorView::AgentNotAvailable(s) => "Agent not available: "@ + s,
        PipelineErrorView::InvalidStageIndex(i) => "Invalid stage index: "@ + crate::text::decimal_of(
            i as nat,
        ),
        PipelineErrorView::AlreadyRunning(s) => "Pipeline already running: "@ + s,
        PipelineErrorView::JsonError(s) => "JSON error: "@ + s,
    }
}

impl PipelineError {
    /// The error as a line of text.
    pub fn message(&self) -> (r: String)
        ensures
            r@ == pipeline_error_text(self@),
    {
        match self {
            PipelineError::NotFound(s) => concat2("Pipeline not found: ", s.as_str()),
            PipelineError::ExecutionNotFound(s) => concat2("Execution not found: ", s.as_str()),
            PipelineError::NoStages => owned("No stages defined in pipeline"),
            PipelineError::StageFailed(s) => concat2("Stage failed: ", s.as_str()),
            PipelineError::AgentNotAvailable(s) => concat2("Agent not available: ", s.as_str()),
            PipelineError::InvalidStageIndex(i) => concat2(
                "Invalid stage index: ",
                u64_to_string(*i as u64).as_str(),
            ),
            PipelineError::AlreadyRunning(s) => concat2("Pipeline already running: ", s.as_str()),
            PipelineError::JsonError(s) => concat2("JSON error: ", s.as_str()),
        }
    }
}

/// True when more than `max_age_seconds` whole seconds lie between `end` and
/// `now`, both in milliseconds.
pub open spec fn older_than(end: int, now: int, max_age_seconds: int) -> bool {
    if max_age_seconds >= 0 {
        now - end >= (max_age_seconds + 1) * 1000
    } else {
        now - end > max_age_seconds * 1000
    }
}

/// True for an execution that is over and ended more than
/// `max_age_seconds` before `now`.
pub open spec fn is_stale(e: ExecutionView, max_age_seconds: int, now: int) -> bool {
    &&& e.status != PipelineStatus::Running
    &&& e.status != PipelineStatus::Pending
    &&& match e.end_time {
        Some(end) => older_than(end, now, max_age_seconds),
        None => false,
    }
}

/// The executions among `es` that are running, in order.
pub open spec fn running_only(es: Seq<ExecutionView>) -> Seq<ExecutionView>
    decreases es.len(),
{
    if es.len() == 0 {
        Seq::empty()
    } else if es.last().status == PipelineStatus::Running {
        running_only(es.drop_last()).push(es.last())
    } else {
        running_only(es.drop_last())
    }
}

/// The contents of a list of definitions.
pub open spec fn definitions_view(ds: Seq<PipelineDefinition>) -> Seq<PipelineDefinitionView> {
    Seq::new(ds.len(), |i: int| ds[i]@)
}

/// The contents of a list of executions.
pub open spec fn executions_view(es: Seq<PipelineExecution>) -> Seq<ExecutionView> {
    Seq::new(es.len(), |i: int| es[i]@)
}

/// The view of an optional definition.
pub open spec fn opt_definition(o: Option<PipelineDefinition>) -> Option<PipelineDefinitionView> {
    match o {
        Some(d) => Some(d@),
        None => None,
    }
}

/// The view of an optional execution.
pub open spec fn opt_execution(o: Option<PipelineExecution>) -> Option<ExecutionView> {
    match o {
        Some(e) => Some(e@),
        None => None,
    }
}

/// The view of the result of an operation on an execution.
pub open spec fn execution_result(
    r: Result<PipelineExecution, PipelineError>,
) -> Result<ExecutionView, PipelineErrorView> {
    match r {
        Ok(e) => Ok(e@),
        Err(e) => Err(e@),
    }
}

fn is_stale_now(e: &PipelineExecution, max_age_seconds: i64, now: i64) -> (r: bool)
    ensures
        r == is_stale(e@, max_age_seconds as int, now as int),
{
    if e.status == PipelineStatus::Running || e.status == PipelineStatus::Pending {
        return false;
    }
    match e.end_time {
        None => false,
        Some(end) => {
            let d: i128 = now as i128 - end as i128;
            if max_age_seconds >= 0 {
                d >= (max_age_seconds as i128 + 1) * 1000
            } else {
                d > max_age_seconds as i128 * 1000
            }
        },
    }
}

/// The registry of pipeline definitions and of their executions.
#[derive(Debug)]
pub struct PipelineExecutor {
    pipelines: StrMap<PipelineDefinition>,
    executions: StrMap<PipelineExecution>,
}

impl PipelineExecutor {
    /// The registered definitions, by id.
    pub closed spec fn pipelines(&self) -> Map<Seq<char>, PipelineDefinitionView> {
        self.pipelines.map().map_values(|d: PipelineDefinition| d@)
    }

    /// The registered definitions, in the order of their registration.
    pub closed spec fn pipeline_list(&self) -> Seq<PipelineDefinitionView> {
        definitions_view(self.pipelines.vals())
    }

    /// The executions, by execution id.
    pub closed spec fn executions(&self) -> Map<Seq<char>, ExecutionView> {
        self.executions.map().map_values(|e: PipelineExecution| e@)
    }

    /// The executions, in the order in which they were started.
    pub closed spec fn execution_list(&self) -> Seq<ExecutionView> {
        executions_view(self.executions.vals())
    }

    /// Both maps are well formed, and so is every execution.
    pub closed spec fn wf(&self) -> bool {
        &&& self.pipelines.wf()
        &&& self.executions.wf()
        &&& forall|i: int|
            0 <= i < self.executions.vals().len() ==> (#[trigger] self.executions.vals()[i]).wf()
    }

    /// An empty registry.
    pub fn new() -> (r: Self)
        ensures
            r.wf(),
            r.pipelines() == Map::<Seq<char>, PipelineDefinitionView>::empty(),
            r.executions() == Map::<Seq<char>, ExecutionView>::empty(),
            r.pipeline_list() == Seq::<PipelineDefinitionView>::empty(),
            r.execution_list() == Seq::<ExecutionView>::empty(),
    {
        let r = PipelineExecutor { pipelines: StrMap::new(), executions: StrMap::new() };
        proof {
            assert(r.pipelines() =~= Map::<Seq<char>, PipelineDefinitionView>::empty());
            assert(r.executions() =~= Map::<Seq<char>, ExecutionView>::empty());
            assert(r.pipeline_list() =~= Seq::<PipelineDefinitionView>::empty());
            assert(r.execution_list() =~= Seq::<ExecutionView>::empty());
        }
        r
    }

    /// Registers a definition under its id and hands the id back. A
    /// definition without stages is rejected.
    pub fn register(&mut self, pipeline: PipelineDefinition) -> (r: Result<String, PipelineError>)
        requires
            old(self).wf(),
        ensures
            final(self).wf(),
            final(self).executions() == old(self).executions(),
            final(self).execution_list() == old(self).execution_list(),
            pipeline@.stages.len() == 0 ==> (r matches Err(PipelineError::NoStages)
                && final(self).pipelines() == old(self).pipelines()),
            pipeline@.stages.len() > 0 ==> (r matches Ok(id) && id@ == pipeline@.id
                && final(self).pipelines() == old(self).pipelines().insert(pipeline@.id, pipeline@)),
    {
        if pipeline.stages.len() == 0 {
            return Err(PipelineError::NoStages);
        }
        let id = pipeline.id.clone();
        let ghost pv = pipeline@;
        let _ = self.pipelines.insert(pipeline.id.clone(), pipeline);
        proof {
            assert(self.pipelines() =~= old(self).pipelines().insert(pv.id, pv));
        }
        Ok(id)
    }

    /// Takes a definition out of the registry.
    pub fn unregister(&mut self, pipeline_id: &str) -> (r: Result<(), PipelineError>)
        requires
            old(self).wf(),
        ensures
            final(self).wf(),
            final(self).executions() == old(self).executions(),
            final(self).execution_list() == old(self).execution_list(),
            final(self).pipelines() == old(self).pipelines().remove(pipeline_id@),
            old(self).pipelines().contains_key(pipeline_id@) ==> r is Ok,
            !old(self).pipelines().contains_key(pipeline_id@) ==> (r matches Err(
                PipelineError::NotFound(id),
            ) && id@ == pipeline_id@),
    {
        let removed = self.pipelines.remove(pipeline_id);
        proof {
            assert(self.pipelines() =~= old(self).pipelines().remove(pipeline_id@));
        }
        match removed {
            Some(_) => Ok(()),
            None => Err(PipelineError::NotFound(owned(pipeline_id))),
        }
    }

    /// The definition registered under `pipeline_id`.
    pub fn get_pipeline(&self, pipeline_id: &str) -> (r: Option<PipelineDefinition>)
        requires
            self.wf(),
        ensures
            r is Some == self.pipelines().contains_key(pipeline_id@),
            r matches Some(d) ==> d@ == self.pipelines()[pipeline_id@],
    {
        match self.pipelines.get(pipeline_id) {
            Some(d) => Some(d.clone()),
            None => None,
        }
    }

    /// All registered definitions, in the order of their registration.
    pub fn list_pipelines(&self) -> (r: Vec<PipelineDefinition>)
        requires
            self.wf(),
        ensures
            definitions_view(r@) == self.pipeline_list(),
    {
        let mut out: Vec<PipelineDefinition> = Vec::new();
        let mut i: usize = 0;
        while i < self.pipelines.len()
            invariant
                self.pipelines.wf(),
                0 <= i <= self.pipelines.keys().len(),
                out@.len() == i,
                forall|k: int| 0 <= k < i ==> out@[k]@ == self.pipelines.vals()[k]@,
            decreases self.pipelines.keys().len() - i,
        {
            out.push(self.pipelines.value_at(i).clone());
            i = i + 1;
        }
        proof {
            assert(definitions_view(out@) =~= self.pipeline_list());
        }
        out
    }

    /// Starts a new execution of the definition `pipeline_id` under the
    /// given execution id at time `now`, and records it.
    pub fn start_execution_at(&mut self, pipeline_id: &str, execution_id: String, now: i64) -> (r:
        Result<PipelineExecution, PipelineError>)
        requires
            old(self).wf(),
        ensures
            final(self).wf(),
            final(self).pipelines() == old(self).pipelines(),
            final(self).pipeline_list() == old(self).pipeline_list(),
            r is Ok ==> r.unwrap().wf(),
            execution_result(r) == if !old(self).pipelines().contains_key(pipeline_id@) {
                Err(PipelineErrorView::NotFound(pipeline_id@))
            } else if old(self).pipelines()[pipeline_id@].stages.len() == 0 {
                Err(PipelineErrorView::NoStages)
            } else {
                Ok(
                    started(
                        new_execution(
                            old(self).pipelines()[pipeline_id@],
                            execution_id@,
                            now as int,
                        ),
                    ),
                )
            },
            final(self).executions() == match r {
                Ok(e) => old(self).executions().insert(execution_id@, e@),
                Err(_) => old(self).executions(),
            },
    {
        let definition = match self.pipelines.get(pipeline_id) {
            Some(d) => d,
            None => {
                return Err(PipelineError::NotFound(owned(pipeline_id)));
            },
        };
        if definition.stages.len() == 0 {
            return Err(PipelineError::NoStages);
        }
        let mut execution = PipelineExecution::new_at(definition, execution_id.clone(), now);
        execution.start();
        let out = execution.clone();
        let ghost ev = execution@;
        let ghost before = self.executions.vals();
        let ghost had = self.executions.has(execution_id@);
        let ghost idx = self.executions.keys().index_of(execution_id@);
        let _ = self.executions.insert(execution_id, execution);
        proof {
            assert(self.executions() =~= old(self).executions().insert(execution_id@, ev));
            assert forall|i: int| 0 <= i < self.executions.vals().len() implies (
            #[trigger] self.executions.vals()[i]).wf() by {
                if had {
                    if i != idx {
                        assert(self.executions.vals()[i] == before[i]);
                    }
                } else {
                    if i < before.len() {
                        assert(self.executions.vals()[i] == before[i]);
                    }
                }
            }
        }
        Ok(out)
    }

    /// Starts a new execution of the definition `pipeline_id`, with a fresh
    /// random id and the time that the clock gives, and records it.
    pub fn start_execution(&mut self, pipeline_id: &str) -> (r: Result<
        PipelineExecution,
        PipelineError,
    >)
        requires
            old(self).wf(),
        ensures
            final(self).wf(),
            final(self).pipelines() == old(self).pipelines(),
            final(self).pipeline_list() == old(self).pipeline_list(),
            r is Ok ==> r.unwrap().wf(),
            !old(self).pipelines().contains_key(pipeline_id@) ==> execution_result(r) == Err::<
                ExecutionView,
                PipelineErrorView,
            >(PipelineErrorView::NotFound(pipeline_id@)),
            old(self).pipelines().contains_key(pipeline_id@) && old(
                self,
            ).pipelines()[pipeline_id@].stages.len() == 0 ==> execution_result(r) == Err::<
                ExecutionView,
                PipelineErrorView,
            >(PipelineErrorView::NoStages),
            old(self).pipelines().contains_key(pipeline_id@) && old(
                self,
            ).pipelines()[pipeline_id@].stages.len() > 0 ==> (r matches Ok(e) && e@ == started(
                new_execution(old(self).pipelines()[pipeline_id@], e@.execution_id, e@.start_time),
            )),
            final(self).executions() == match r {
                Ok(e) => old(self).executions().insert(e@.execution_id, e@),
                Err(_) => old(self).executions(),
            },
    {
        self.start_execution_at(pipeline_id, fresh_id(), now_millis())
    }

    /// The execution recorded under `execution_id`.
    pub fn get_execution(&self, execution_id: &str) -> (r: Option<PipelineExecution>)
        requires
            self.wf(),
        ensures
            r is Some == self.executions().contains_key(execution_id@),
            r matches Some(e) ==> e.wf() && e@ == self.executions()[execution_id@],
    {
        match self.executions.position(execution_id) {
            Some(i) => Some(self.executions.value_at(i).clone()),
            None => None,
        }
    }

    fn store(&mut self, execution_id: &str, execution: PipelineExecution)
        requires
            old(self).wf(),
            execution.wf(),
            old(self).executions.has(execution_id@),
        ensures
            final(self).wf(),
            final(self).pipelines() == old(self).pipelines(),
            final(self).pipeline_list() == old(self).pipeline_list(),
            final(self).executions() == old(self).executions().insert(execution_id@, execution@),
    {
        let ghost ev = execution@;
        let ghost before = self.executions.vals();
        let ghost idx = self.executions.keys().index_of(execution_id@);
        let _ = self.executions.insert(owned(execution_id), execution);
        proof {
            assert(self.executions() =~= old(self).executions().insert(execution_id@, ev));
            assert forall|i: int| 0 <= i < self.executions.vals().len() implies (
            #[trigger] self.executions.vals()[i]).wf() by {
                if i != idx {
                    assert(self.executions.vals()[i] == before[i]);
                }
            }
        }
    }

    /// Completes the current stage of an execution with `output` at time
    /// `now`. Only a running execution takes a completion.
    pub fn complete_stage_at(&mut self, execution_id: &str, output: serde_json::Value, now: i64) -> (r:
        Result<PipelineExecution, PipelineError>)
        requires
            old(self).wf(),
        ensures
            final(self).wf(),
            final(self).pipelines() == old(self).pipelines(),
            final(self).pipeline_list() == old(self).pipeline_list(),
            r is Ok ==> r.unwrap().wf(),
            execution_result(r) == if !old(self).executions().contains_key(execution_id@) {
                Err(PipelineErrorView::ExecutionNotFound(execution_id@))
            } else if old(self).executions()[execution_id@].status != PipelineStatus::Running {
                Err(PipelineErrorView::AlreadyRunning(execution_id@))
            } else {
                Ok(stage_completed(old(self).executions()[execution_id@], json_of(output), now as int))
            },
            final(self).executions() == match r {
                Ok(e) => old(self).executions().insert(execution_id@, e@),
                Err(_) => old(self).executions(),
            },
    {
        let mut execution = match self.executions.position(execution_id) {
            Some(i) => self.executions.value_at(i).clone(),
            None => {
                return Err(PipelineError::ExecutionNotFound(owned(execution_id)));
            },
        };
        if execution.status != PipelineStatus::Running {
            return Err(PipelineError::AlreadyRunning(owned(execution_id)));
        }
        execution.complete_stage_at(output, now);
        let out = execution.clone();
        self.store(execution_id, execution);
        Ok(out)
    }

    /// Completes the current stage of an execution with `output`; the time
    /// is read from the clock.
    pub fn complete_stage(&mut self, execution_id: &str, output: serde_json::Value) -> (r: Result<
        PipelineExecution,
        PipelineError,
    >)
        requires
            old(self).wf(),
        ensures
            final(self).wf(),
            final(self).pipelines() == old(self).pipelines(),
            final(self).pipeline_list() == old(self).pipeline_list(),
            r is Ok ==> r.unwrap().wf(),
            exists|now: int|
                execution_result(r) == if !old(self).executions().contains_key(execution_id@) {
                    Err(PipelineErrorView::ExecutionNotFound(execution_id@))
                } else if old(self).executions()[execution_id@].status != PipelineStatus::Running {
                    Err(PipelineErrorView::AlreadyRunning(execution_id@))
                } else {
                    Ok(
                        #[trigger] stage_completed(
                            old(self).executions()[execution_id@],
                            json_of(output),
                            now,
                        ),
                    )
                },
            final(self).executions() == match r {
                Ok(e) => old(self).executions().insert(execution_id@, e@),
                Err(_) => old(self).executions(),
            },
    {
        let now = now_millis();
        let r = self.complete_stage_at(execution_id, output, now);
        proof {
            let e = old(self).executions()[execution_id@];
            assert(stage_completed(e, json_of(output), now as int) == stage_completed(
                e,
                json_of(output),
                now as int,
            ));
        }
        r
    }

    /// Fails the current stage of an execution at time `now`.
    pub fn fail_stage_at(&mut self, execution_id: &str, error: String, now: i64) -> (r: Result<
        PipelineExecution,
        PipelineError,
    >)
        requires
            old(self).wf(),
        ensures
            final(self).wf(),
            final(self).pipelines() == old(self).pipelines(),
            final(self).pipeline_list() == old(self).pipeline_list(),
            r is Ok ==> r.unwrap().wf(),
            execution_result(r) == if !old(self).executions().contains_key(execution_id@) {
                Err(PipelineErrorView::ExecutionNotFound(execution_id@))
            } else {
                Ok(stage_failed(old(self).executions()[execution_id@], error@, now as int))
            },
            final(self).executions() == match r {
                Ok(e) => old(self).executions().insert(execution_id@, e@),
                Err(_) => old(self).executions(),
            },
    {
        let mut execution = match self.executions.position(execution_id) {
            Some(i) => self.executions.value_at(i).clone(),
            None => {
                return Err(PipelineError::ExecutionNotFound(owned(execution_id)));
            },
        };
        execution.fail_stage_at(error, now);
        let out = execution.clone();
        self.store(execution_id, execution);
        Ok(out)
    }

    /// Fails the current stage of an execution at time `now` and lets the
    /// execution go on with its next stage.
    pub fn fail_stage_continuing_at(&mut self, execution_id: &str, error: String, now: i64) -> (r:
        Result<PipelineExecution, PipelineError>)
        requires
            old(self).wf(),
        ensures
            final(self).wf(),
            final(self).pipelines() == old(self).pipelines(),
            final(self).pipeline_list() == old(self).pipeline_list(),
            r is Ok ==> r.unwrap().wf(),
            execution_result(r) == if !old(self).executions().contains_key(execution_id@) {
                Err(PipelineErrorView::ExecutionNotFound(execution_id@))
            } else {
                Ok(stage_failed_continuing(old(self).executions()[execution_id@], error@, now as int))
            },
            final(self).executions() == match r {
                Ok(e) => old(self).executions().insert(execution_id@, e@),
                Err(_) => old(self).executions(),
            },
    {
        let mut execution = match self.executions.position(execution_id) {
            Some(i) => self.executions.value_at(i).clone(),
            None => {
                return Err(PipelineError::ExecutionNotFound(owned(execution_id)));
            },
        };
        execution.fail_stage_continuing_at(error, now);
        let out = execution.clone();
        self.store(execution_id, execution);
        Ok(out)
    }

    /// Fails the current stage of an execution; the time is read from the
    /// clock.
    pub fn fail_stage(&mut self, execution_id: &str, error: String) -> (r: Result<
        PipelineExecution,
        PipelineError,
    >)
        requires
            old(self).wf(),
        ensures
            final(self).wf(),
            final(self).pipelines() == old(self).pipelines(),
            final(self).pipeline_list() == old(self).pipeline_list(),
            r is Ok ==> r.unwrap().wf(),
            exists|now: int|
                execution_result(r) == if !old(self).executions().contains_key(execution_id@) {
                    Err(PipelineErrorView::ExecutionNotFound(execution_id@))
                } else {
                    Ok(#[trigger] stage_failed(old(self).executions()[execution_id@], error@, now))
                },
            final(self).executions() == match r {
                Ok(e) => old(self).executions().insert(execution_id@, e@),
                Err(_) => old(self).executions(),
            },
    {
        let now = now_millis();
        let r = self.fail_stage_at(execution_id, error, now);
        proof {
            let e = old(self).executions()[execution_id@];
            assert(stage_failed(e, error@, now as int) == stage_failed(e, error@, now as int));
        }
        r
    }

    /// Cancels an execution at time `now`.
    pub fn cancel_execution_at(&mut self, execution_id: &str, now: i64) -> (r: Result<
        PipelineExecution,
        PipelineError,
    >)
        requires
            old(self).wf(),
        ensures
            final(self).wf(),
            final(self).pipelines() == old(self).pipelines(),
            final(self).pipeline_list() == old(self).pipeline_list(),
            r is Ok ==> r.unwrap().wf(),
            execution_result(r) == if !old(self).executions().contains_key(execution_id@) {
                Err(PipelineErrorView::ExecutionNotFound(execution_id@))
            } else {
                Ok(cancelled(old(self).executions()[execution_id@], now as int))
            },
            final(self).executions() == match r {
                Ok(e) => old(self).executions().insert(execution_id@, e@),
                Err(_) => old(self).executions(),
            },
    {
        let mut execution = match self.executions.position(execution_id) {
            Some(i) => self.executions.value_at(i).clone(),
            None => {
                return Err(PipelineError::ExecutionNotFound(owned(execution_id)));
            },
        };
        execution.cancel_at(now);
        let out = execution.clone();
        self.store(execution_id, execution);
        Ok(out)
    }

    /// Cancels an execution; the time is read from the clock.
    pub fn cancel_execution(&mut self, execution_id: &str) -> (r: Result<
        PipelineExecution,
        PipelineError,
    >)
        requires
            old(self).wf(),
        ensures
            final(self).wf(),
            final(self).pipelines() == old(self).pipelines(),
            final(self).pipeline_list() == old(self).pipeline_list(),
            r is Ok ==> r.unwrap().wf(),
            exists|now: int|
                execution_result(r) == if !old(self).executions().contains_key(execution_id@) {
                    Err(PipelineErrorView::ExecutionNotFound(execution_id@))
                } else {
                    Ok(#[trigger] cancelled(old(self).executions()[execution_id@], now))
                },
            final(self).executions() == match r {
                Ok(e) => old(self).executions().insert(execution_id@, e@),
                Err(_) => old(self).executions(),
            },
    {
        let now = now_millis();
        let r = self.cancel_execution_at(execution_id, now);
        proof {
            let e = old(self).executions()[execution_id@];
            assert(cancelled(e, now as int) == cancelled(e, now as int));
        }
        r
    }

    /// The executions that are running, in the order in which they were
    /// started.
    pub fn get_active_executions(&self) -> (r: Vec<PipelineExecution>)
        requires
            self.wf(),
        ensures
            executions_view(r@) == running_only(self.execution_list()),
    {
        let mut out: Vec<PipelineExecution> = Vec::new();
        let mut i: usize = 0;
        proof {
            assert(self.execution_list().take(0) =~= Seq::empty());
            assert(executions_view(out@) =~= Seq::empty());
        }
        while i < self.executions.len()
            invariant
                self.wf(),
                0 <= i <= self.executions.keys().len(),
                executions_view(out@) == running_only(self.execution_list().take(i as int)),
            decreases self.executions.keys().len() - i,
        {
            let ghost before = executions_view(out@);
            proof {
                let next = self.execution_list().take(i as int + 1);
                assert(next.drop_last() =~= self.execution_list().take(i as int));
                assert(next.last() == self.executions.vals()[i as int]@);
            }
            let e = self.executions.value_at(i);
            if e.status == PipelineStatus::Running {
                out.push(e.clone());
                proof {
                    assert(executions_view(out@) =~= before.push(e@));
                }
            }
            i = i + 1;
        }
        proof {
            assert(self.execution_list().take(i as int) =~= self.execution_list());
        }
        out
    }

    /// Removes the executions that are over and ended more than
    /// `max_age_seconds` before `now`, and hands their ids back.
    #[verifier::rlimit(50)]
    pub fn cleanup_stale_at(&mut self, max_age_seconds: i64, now: i64) -> (r: Vec<String>)
        requires
            old(self).wf(),
        ensures
            final(self).wf(),
            final(self).pipelines() == old(self).pipelines(),
            final(self).pipeline_list() == old(self).pipeline_list(),
            forall|id: Seq<char>|
                final(self).executions().contains_key(id) <==> old(self).executions().contains_key(
                    id,
                ) && !is_stale(old(self).executions()[id], max_age_seconds as int, now as int),
            forall|id: Seq<char>|
                final(self).executions().contains_key(id) ==> final(self).executions()[id] == old(
                    self,
                ).executions()[id],
            forall|id: Seq<char>|
                crate::text::views(r@).contains(id) <==> old(self).executions().contains_key(id)
                    && is_stale(old(self).executions()[id], max_age_seconds as int, now as int),
    {
        let mut removed: Vec<String> = Vec::new();
        let mut i: usize = 0;
        let ghost m = max_age_seconds as int;
        let ghost t = now as int;
        while i < self.executions.len()
            invariant
                self.wf(),
                old(self).wf(),
                m == max_age_seconds as int,
                t == now as int,
                self.pipelines == old(self).pipelines,
                0 <= i <= self.executions.keys().len(),
                forall|k: Seq<char>|
                    self.executions.has(k) ==> old(self).executions.has(k) && self.executions.at(k)
                        == old(self).executions.at(k),
                forall|k: Seq<char>|
                    old(self).executions.has(k) ==> self.executions.has(k) || (is_stale(
                        old(self).executions.at(k)@,
                        m,
                        t,
                    ) && crate::text::views(removed@).contains(k)),
                forall|j: int|
                    0 <= j < removed@.len() ==> old(self).executions.has(
                        #[trigger] crate::text::views(removed@)[j],
                    ) && is_stale(old(self).executions.at(crate::text::views(removed@)[j])@, m, t)
                        && !self.executions.has(crate::text::views(removed@)[j]),
                forall|j: int|
                    0 <= j < i ==> !is_stale((#[trigger] self.executions.vals()[j])@, m, t),
            decreases self.executions.keys().len() - i,
        {
            let stale = is_stale_now(self.executions.value_at(i), max_age_seconds, now);
            if stale {
                let key = self.executions.key_at(i).clone();
                let ghost mid = *self;
                let ghost rv = crate::text::views(removed@);
                proof {
                    mid.executions.lemma_at_index(i as int);
                    let j = mid.executions.keys().index_of(key@);
                    assert(0 <= j < mid.executions.keys().len() && mid.executions.keys()[j] == key@);
                    assert(j == i);
                }
                let _ = self.executions.remove(key.as_str());
                removed.push(key);
                proof {
                    assert(crate::text::views(removed@) =~= rv.push(key@));
                    assert forall|k: Seq<char>| self.executions.has(k) implies mid.executions.has(k)
                        && self.executions.at(k) == mid.executions.at(k) by {
                        assert(self.executions.map().contains_key(k));
                        assert(mid.executions.map().contains_key(k));
                        assert(self.executions.map()[k] == mid.executions.map()[k]);
                    }
                    assert forall|k: Seq<char>| mid.executions.has(k) && k != key@ implies self.executions.has(
                        k,
                    ) by {
                        assert(mid.executions.map().contains_key(k));
                        assert(self.executions.map().contains_key(k));
                    }
                    assert(!self.executions.has(key@)) by {
                        assert(!self.executions.map().contains_key(key@));
                    }
                    assert forall|k: Seq<char>| old(self).executions.has(k) implies self.executions.has(
                        k,
                    ) || (is_stale(old(self).executions.at(k)@, m, t) && crate::text::views(
                        removed@,
                    ).contains(k)) by {
                        if k == key@ {
                            assert(mid.executions.has(key@));
                            assert(mid.executions.at(key@) == old(self).executions.at(key@));
                            assert(mid.executions.at(key@) == mid.executions.vals()[i as int]);
                            assert(is_stale(old(self).executions.at(k)@, m, t));
                            assert(crate::text::views(removed@)[rv.len() as int] == key@);
                        } else if !mid.executions.has(k) {
                            assert(rv.contains(k));
                            let j = choose|j: int| 0 <= j < rv.len() && rv[j] == k;
                            assert(crate::text::views(removed@)[j] == k);
                        }
                    }
                    assert forall|j: int| 0 <= j < removed@.len() implies old(self).executions.has(
                        #[trigger] crate::text::views(removed@)[j],
                    ) && is_stale(old(self).executions.at(crate::text::views(removed@)[j])@, m, t)
                        && !self.executions.has(crate::text::views(removed@)[j]) by {
                        if j < rv.len() {
                            assert(crate::text::views(removed@)[j] == rv[j]);
                        }
                    }
                    assert forall|j: int| 0 <= j < self.executions.vals().len() implies (
                    #[trigger] self.executions.vals()[j]).wf() by {
                        if j < i {
                            assert(self.executions.vals()[j] == mid.executions.vals()[j]);
                        } else {
                            assert(self.executions.vals()[j] == mid.executions.vals()[j + 1]);
                        }
                    }
                    assert forall|j: int| 0 <= j < i implies !is_stale(
                        (#[trigger] self.executions.vals()[j])@,
                        m,
                        t,
                    ) by {
                        assert(self.executions.vals()[j] == mid.executions.vals()[j]);
                    }
                }
            } else {
                assert(!is_stale(self.executions.vals()[i as int]@, m, t));
                i = i + 1;
            }
        }
        proof {
            assert forall|id: Seq<char>|
                self.executions().contains_key(id) <==> old(self).executions().contains_key(id)
                    && !is_stale(old(self).executions()[id], m, t) by {
                if self.executions.has(id) {
                    let j = self.executions.keys().index_of(id);
                    assert(0 <= j < self.executions.keys().len() && self.executions.keys()[j] == id);
                    self.executions.lemma_at_index(j);
                }
                if old(self).executions.has(id) && !self.executions.has(id) {
                }
            }
            assert forall|id: Seq<char>| crate::text::views(removed@).contains(id) <==> old(
                self,
            ).executions().contains_key(id) && is_stale(old(self).executions()[id], m, t) by {
                if crate::text::views(removed@).contains(id) {
                    let j = choose|j: int|
                        0 <= j < removed@.len() && crate::text::views(removed@)[j] == id;
                    assert(old(self).executions.has(crate::text::views(removed@)[j]));
                }
                if old(self).executions.has(id) && self.executions.has(id) {
                    let j = self.executions.keys().index_of(id);
                    assert(0 <= j < self.executions.keys().len() && self.executions.keys()[j] == id);
                    self.executions.lemma_at_index(j);
                }
            }
        }
        removed
    }

    /// Removes the executions that are stale by the clock and hands their ids
    /// back: what `cleanup_stale_at` does at the time that the clock gave.
    pub fn cleanup_stale(&mut self, max_age_seconds: i64) -> (r: Vec<String>)
        requires
            old(self).wf(),
        ensures
            final(self).wf(),
            final(self).pipelines() == old(self).pipelines(),
            final(self).pipeline_list() == old(self).pipeline_list(),
            exists|now: i64| #[trigger]
                swept(
                    old(self).executions(),
                    final(self).executions(),
                    crate::text::views(r@),
                    max_age_seconds as int,
                    now as int,
                ),
    {
        let now = now_millis();
        let r = self.cleanup_stale_at(max_age_seconds, now);
        proof {
            assert(swept(
                old(self).executions(),
                self.executions(),
                crate::text::views(r@),
                max_age_seconds as int,
                now as int,
            ));
        }
        r
    }
}

impl Default for PipelineExecutor {
    fn default() -> (r: Self)
        ensures
            r.wf(),
            r.pipelines() == Map::<Seq<char>, PipelineDefinitionView>::empty(),
            r.executions() == Map::<Seq<char>, ExecutionView>::empty(),
    {
        PipelineExecutor::new()
    }
}


/// True when `after` is `before` without its executions that are stale at
/// `now`, each one that stays unchanged, and `removed` holds the ids of those
/// that left and no others.
pub open spec fn swept(
    before: Map<Seq<char>, ExecutionView>,
    after: Map<Seq<char>, ExecutionView>,
    removed: Seq<Seq<char>>,
    max_age_seconds: int,
    now: int,
) -> bool {
    &&& forall|id: Seq<char>|
        after.contains_key(id) <==> before.contains_key(id) && !is_stale(
            before[id],
            max_age_seconds,
            now,
        )
    &&& forall|id: Seq<char>| after.contains_key(id) ==> after[id] == before[id]
    &&& forall|id: Seq<char>|
        removed.contains(id) <==> before.contains_key(id) && is_stale(
            before[id],
            max_age_seconds,
            now,
        )
}

// ---------------------------------------------------------------------------
// Prompts as messages
// ---------------------------------------------------------------------------

/// `t` with the placeholder `{{key}}` of each of the first `n` entries of a
/// context replaced by the JSON encoding of its value, one entry after the
/// other.
pub open spec fn filled_from_context(
    t: Seq<char>,
    keys: Seq<Seq<char>>,
    values: Seq<serde_json::Value>,
    n: int,
) -> Seq<char>
    decreases n,
{
    if n <= 0 {
        t
    } else {
        replace_of(
            filled_from_context(t, keys, values, n - 1),
            "{{"@ + keys[n - 1] + "}}"@,
            json_text(json_of(values[n - 1])),
        )
    }
}

/// The JSON object that holds the first `n` entries of a context.
pub open spec fn context_object(keys: Seq<Seq<char>>, values: Seq<serde_json::Value>, n: int) -> Map<
    Seq<char>,
    Json,
>
    decreases n,
{
    if n <= 0 {
        Map::empty()
    } else {
        context_object(keys, values, n - 1).insert(keys[n - 1], json_of(values[n - 1]))
    }
}

/// The view of an optional reference to a JSON value.
pub open spec fn opt_json_ref(o: Option<&serde_json::Value>) -> Option<Json> {
    match o {
        Some(v) => Some(json_of(*v)),
        None => None,
    }
}

/// The content of the prompt message of a stage: its template with the
/// context and the input filled in, or, without a template, the context and
/// the name of the stage.
pub open spec fn prompt_content(
    stage: PipelineStageView,
    keys: Seq<Seq<char>>,
    values: Seq<serde_json::Value>,
    input: Option<Json>,
) -> Seq<char> {
    match stage.prompt_template {
        Some(t) => {
            let filled = filled_from_context(t, keys, values, keys.len() as int);
            match input {
                Some(i) => replace_of(filled, "{{input}}"@, json_text(i)),
                None => filled,
            }
        },
        None => "Context:\n"@ + json_pretty_text(
            Json::Object(context_object(keys, values, keys.len() as int)),
        ) + "\n\nPlease process this stage: "@ + stage.name,
    }
}

impl PipelineStage {
    /// The prompt message of this stage, from `from` to the agent of the
    /// stage. The id of the message is random and its time is read from the
    /// clock.
    pub fn create_prompt(&self, from: &AgentAddress, context: &StrMap<serde_json::Value>, input: Option<
        &serde_json::Value,
    >) -> (r: ACPMessageV3)
        requires
            context.wf(),
        ensures
            r.is_message(
                MessageType::Prompt,
                address_text(from@),
                prompt_content(self@, context.keys(), context.vals(), opt_json_ref(input)),
            ),
            r.is_to(address_text(self@.agent)),
            r.payload.data is None,
            r.metadata is None,
    {
        let content = match &self.prompt_template {
            Some(template) => {
                let mut result = template.clone();
                let mut i: usize = 0;
                while i < context.len()
                    invariant
                        context.wf(),
                        0 <= i <= context.keys().len(),
                        result@ == filled_from_context(
                            template@,
                            context.keys(),
                            context.vals(),
                            i as int,
                        ),
                    decreases context.keys().len() - i,
                {
                    proof {
                        reveal_strlit("{{");
                    }
                    let key = concat3("{{", context.key_at(i).as_str(), "}}");
                    let value = encode(context.value_at(i));
                    result = replace(result.as_str(), key.as_str(), value.as_str());
                    i = i + 1;
                }
                match input {
                    Some(v) => {
                        proof {
                            reveal_strlit("{{input}}");
                        }
                        replace(result.as_str(), "{{input}}", encode(v).as_str())
                    },
                    None => result,
                }
            },
            None => {
                let mut obj = empty_object();
                let mut i: usize = 0;
                while i < context.len()
                    invariant
                        context.wf(),
                        0 <= i <= context.keys().len(),
                        json_of(obj) == Json::Object(
                            context_object(context.keys(), context.vals(), i as int),
                        ),
                    decreases context.keys().len() - i,
                {
                    insert_member(
                        &mut obj,
                        context.key_at(i).as_str(),
                        clone_value(context.value_at(i)),
                    );
                    i = i + 1;
                }
                let head = concat3(
                    "Context:\n",
                    encode_pretty(&obj).as_str(),
                    "\n\nPlease process this stage: ",
                );
                concat2(head.as_str(), self.name.as_str())
            },
        };
        ACPMessageV3::prompt(
            from.to_address_string().as_str(),
            self.agent.to_address_string().as_str(),
            content.as_str(),
        )
    }
}

} // verus!
