//! Running a `<script type="application/wasm">` module.
//!
//! The host compiles the bytes, registers an instance, makes the import object, instantiates the
//! module, binds its memory and its dispatcher, and calls its start function. What fails on the
//! way surfaces as an exception, exactly once, as it would for any other script.

use vstd::prelude::*;
use vstd::string::StringExecFns;
use vstd::utf8::encode_utf8;

use crate::error::Error;
use crate::handles::ObjectId;
use crate::import_object::{
    all_nameable, build_import_object, object_of, ImportObjectPlan, NamespaceView,
};
use crate::imports::{import_table, MemberImport};
use crate::instance::{InstanceView, WasmDomInstance};
use crate::instantiate::{
    compile_module, compile_step, compiling_runs_the_module_constructor, export_step,
    instance_export, instantiate_module, instantiate_step,
    instantiating_runs_the_instance_constructor, reading_an_export_goes_through_the_exports,
    only_a_failed_request_fails_a_task, outcome_of, tasks_come_to_an_end, Answer, Engine, Outcome,
    Request, RequestView, Task, TaskStep, TaskStepView, TaskView, Value,
};
use crate::registry::InstanceRegistry;
use crate::script_execution::{can_run_script, may_run_script, ScriptSettings};
use crate::servo_wasm_dom::{type_error, wrong_type};

verus! {

/// Why a script is given up with an exception that the host throws itself.
#[derive(Clone, Copy, Debug, Eq, PartialEq, Structural)]
pub enum ScriptFailure {
    /// The content security policy of the page forbids it.
    Blocked,
    /// The page has taken away what modules are compiled and instantiated with.
    NoWebAssembly,
    /// The import object could not be built.
    NoImportObject,
    /// The module does not export its memory.
    NoMemory,
    /// The module exports no start function.
    NoStart,
}

/// Whether an error is the one for a failure.
pub open spec fn is_error_of(error: Error, failure: ScriptFailure, url: Seq<char>) -> bool {
    match failure {
        ScriptFailure::Blocked => error matches Error::Security(Some(text)) && text@
            == "wasm-dom: refused to compile "@ + url
            + ": blocked by Content Security Policy"@,
        ScriptFailure::NoWebAssembly => wrong_type(
            error,
            "wasm-dom: the page provides no usable `WebAssembly`"@,
        ),
        ScriptFailure::NoImportObject => wrong_type(
            error,
            "wasm-dom: could not build the import object"@,
        ),
        ScriptFailure::NoMemory => wrong_type(
            error,
            "wasm-dom: module must export its memory as `memory`"@,
        ),
        ScriptFailure::NoStart => wrong_type(
            error,
            "wasm-dom: module exports neither _servo_dom_start nor _start"@,
        ),
    }
}

/// The error that is thrown for a failure.
pub fn script_error(failure: ScriptFailure, url: &str) -> (error: Error)
    ensures
        is_error_of(error, failure, url@),
{
    match failure {
        ScriptFailure::Blocked => {
            let refused: String = "wasm-dom: refused to compile ".to_owned();
            Error::Security(
                Some(refused.concat(url).concat(": blocked by Content Security Policy")),
            )
        },
        ScriptFailure::NoWebAssembly => type_error(
            "wasm-dom: the page provides no usable `WebAssembly`",
        ),
        ScriptFailure::NoImportObject => type_error("wasm-dom: could not build the import object"),
        ScriptFailure::NoMemory => type_error(
            "wasm-dom: module must export its memory as `memory`",
        ),
        ScriptFailure::NoStart => type_error(
            "wasm-dom: module exports neither _servo_dom_start nor _start",
        ),
    }
}

/// A script that is being run, and how far along it is.
pub enum ScriptRun {
    Compiling { global: ObjectId, task: Task },
    MakingImports { global: ObjectId, module: ObjectId, index: usize },
    Instantiating { index: usize, task: Task },
    FindingMemory { index: usize, instance: ObjectId, task: Task },
    FindingDispatcher { index: usize, instance: ObjectId, task: Task },
    FindingStart { instance: ObjectId, task: Task },
    /// Looking for the start function that other toolchains export.
    FindingFallback { task: Task },
    Calling,
}

/// What the engine has to do for a script.
pub enum ScriptAction {
    Engine(Request),
    /// Make the import object. The answer is the object.
    MakeImportObject(ImportObjectPlan),
    /// Call the start function without arguments. The answer is whatever it returns.
    Call(ObjectId),
}

/// Where a script stands.
pub enum ScriptStep {
    Ask(ScriptRun, ScriptAction),
    /// It is given up, and the pending exception is to be reported.
    Report,
    /// It is given up: an exception is to be thrown and reported.
    Throw(ScriptFailure),
    /// It is over.
    Done,
}

/// A script that is being run, and how far along it is.
pub enum ScriptView {
    Compiling { global: ObjectId, task: TaskView },
    MakingImports { global: ObjectId, module: ObjectId, index: nat },
    Instantiating { index: nat, task: TaskView },
    FindingMemory { index: nat, instance: ObjectId, task: TaskView },
    FindingDispatcher { index: nat, instance: ObjectId, task: TaskView },
    FindingStart { instance: ObjectId, task: TaskView },
    FindingFallback { task: TaskView },
    Calling,
}

/// What the engine has to do for a script.
pub enum ActionView {
    Engine(RequestView),
    MakeImportObject(Seq<NamespaceView>),
    Call(ObjectId),
}

/// Where a script stands.
pub enum ScriptStepView {
    Ask(ScriptView, ActionView),
    Report,
    Throw(ScriptFailure),
    Done,
}

impl View for ScriptRun {
    type V = ScriptView;

    open spec fn view(&self) -> ScriptView {
        match *self {
            ScriptRun::Compiling { global, task } => ScriptView::Compiling { global, task: task@ },
            ScriptRun::MakingImports { global, module, index } => ScriptView::MakingImports {
                global,
                module,
                index: index as nat,
            },
            ScriptRun::Instantiating { index, task } => ScriptView::Instantiating {
                index: index as nat,
                task: task@,
            },
            ScriptRun::FindingMemory { index, instance, task } => ScriptView::FindingMemory {
                index: index as nat,
                instance,
                task: task@,
            },
            ScriptRun::FindingDispatcher {
                index,
                instance,
                task,
            } => ScriptView::FindingDispatcher { index: index as nat, instance, task: task@ },
            ScriptRun::FindingStart { instance, task } => ScriptView::FindingStart {
                instance,
                task: task@,
            },
            ScriptRun::FindingFallback { task } => ScriptView::FindingFallback { task: task@ },
            ScriptRun::Calling => ScriptView::Calling,
        }
    }
}

impl View for ScriptAction {
    type V = ActionView;

    open spec fn view(&self) -> ActionView {
        match *self {
            ScriptAction::Engine(request) => ActionView::Engine(request@),
            ScriptAction::MakeImportObject(plan) => ActionView::MakeImportObject(plan@),
            ScriptAction::Call(function) => ActionView::Call(function),
        }
    }
}

impl View for ScriptStep {
    type V = ScriptStepView;

    open spec fn view(&self) -> ScriptStepView {
        match *self {
            ScriptStep::Ask(run, action) => ScriptStepView::Ask(run@, action@),
            ScriptStep::Report => ScriptStepView::Report,
            ScriptStep::Throw(failure) => ScriptStepView::Throw(failure),
            ScriptStep::Done => ScriptStepView::Done,
        }
    }
}

// ---------------------------------------------------------------------------------------
// What each stage leads to
// ---------------------------------------------------------------------------------------

/// What compiling leads to: once there is a module, an instance is registered under the next
/// index, and its imports are made.
pub open spec fn compile_stage(
    global: ObjectId,
    step: TaskStepView,
    count: nat,
    members: Seq<MemberImport>,
) -> ScriptStepView {
    match step {
        TaskStepView::Ask(task, request) => ScriptStepView::Ask(
            ScriptView::Compiling { global, task },
            ActionView::Engine(request),
        ),
        TaskStepView::Missing => ScriptStepView::Throw(ScriptFailure::NoWebAssembly),
        TaskStepView::Failed => ScriptStepView::Report,
        TaskStepView::Done(module) => if count <= i32::MAX && all_nameable(members) {
            ScriptStepView::Ask(
                ScriptView::MakingImports { global, module, index: count },
                ActionView::MakeImportObject(
                    object_of(import_table(members), import_table(members).len(), count as i32),
                ),
            )
        } else {
            ScriptStepView::Throw(ScriptFailure::NoImportObject)
        },
    }
}

/// What instantiating leads to: the memory is looked for.
pub open spec fn instantiate_stage(index: nat, step: TaskStepView) -> ScriptStepView {
    match step {
        TaskStepView::Ask(task, request) => ScriptStepView::Ask(
            ScriptView::Instantiating { index, task },
            ActionView::Engine(request),
        ),
        TaskStepView::Missing => ScriptStepView::Throw(ScriptFailure::NoWebAssembly),
        TaskStepView::Failed => ScriptStepView::Report,
        TaskStepView::Done(instance) => memory_stage(
            index,
            instance,
            export_step(instance, "memory"@),
        ),
    }
}

/// What looking for the memory leads to. It is required, since every string goes through it.
pub open spec fn memory_stage(
    index: nat,
    instance: ObjectId,
    step: TaskStepView,
) -> ScriptStepView {
    match step {
        TaskStepView::Ask(task, request) => ScriptStepView::Ask(
            ScriptView::FindingMemory { index, instance, task },
            ActionView::Engine(request),
        ),
        TaskStepView::Missing | TaskStepView::Failed => ScriptStepView::Throw(
            ScriptFailure::NoMemory,
        ),
        TaskStepView::Done(_) => dispatcher_stage(
            index,
            instance,
            export_step(instance, "_servo_dom_dispatch"@),
        ),
    }
}

/// What looking for the dispatcher leads to. It is optional, so it may be missing.
pub open spec fn dispatcher_stage(
    index: nat,
    instance: ObjectId,
    step: TaskStepView,
) -> ScriptStepView {
    match step {
        TaskStepView::Ask(task, request) => ScriptStepView::Ask(
            ScriptView::FindingDispatcher { index, instance, task },
            ActionView::Engine(request),
        ),
        TaskStepView::Failed => ScriptStepView::Report,
        TaskStepView::Missing | TaskStepView::Done(_) => start_stage(
            instance,
            export_step(instance, "_servo_dom_start"@),
        ),
    }
}

/// What looking for the start function leads to.
pub open spec fn start_stage(instance: ObjectId, step: TaskStepView) -> ScriptStepView {
    match step {
        TaskStepView::Ask(task, request) => ScriptStepView::Ask(
            ScriptView::FindingStart { instance, task },
            ActionView::Engine(request),
        ),
        TaskStepView::Missing => fallback_stage(export_step(instance, "_start"@)),
        TaskStepView::Failed => ScriptStepView::Report,
        TaskStepView::Done(function) => ScriptStepView::Ask(
            ScriptView::Calling,
            ActionView::Call(function),
        ),
    }
}

/// What looking for the other start function leads to.
pub open spec fn fallback_stage(step: TaskStepView) -> ScriptStepView {
    match step {
        TaskStepView::Ask(task, request) => ScriptStepView::Ask(
            ScriptView::FindingFallback { task },
            ActionView::Engine(request),
        ),
        TaskStepView::Missing | TaskStepView::Failed => ScriptStepView::Throw(
            ScriptFailure::NoStart,
        ),
        TaskStepView::Done(function) => ScriptStepView::Ask(
            ScriptView::Calling,
            ActionView::Call(function),
        ),
    }
}

impl ScriptView {
    /// Where a script stands after an answer, given how many instances there are.
    pub open spec fn advanced(
        self,
        answer: Answer,
        count: nat,
        members: Seq<MemberImport>,
    ) -> ScriptStepView {
        match self {
            ScriptView::Compiling { global, task } => compile_stage(
                global,
                task.advanced(answer),
                count,
                members,
            ),
            ScriptView::MakingImports { global, module, index } => match answer {
                Answer::Value(Value::Object(imports)) => instantiate_stage(
                    index,
                    instantiate_step(global, module, imports),
                ),
                _ => ScriptStepView::Throw(ScriptFailure::NoImportObject),
            },
            ScriptView::Instantiating { index, task } => instantiate_stage(
                index,
                task.advanced(answer),
            ),
            ScriptView::FindingMemory { index, instance, task } => memory_stage(
                index,
                instance,
                task.advanced(answer),
            ),
            ScriptView::FindingDispatcher { index, instance, task } => dispatcher_stage(
                index,
                instance,
                task.advanced(answer),
            ),
            ScriptView::FindingStart { instance, task } => start_stage(
                instance,
                task.advanced(answer),
            ),
            ScriptView::FindingFallback { task } => fallback_stage(task.advanced(answer)),
            ScriptView::Calling => match answer {
                Answer::Failed => ScriptStepView::Report,
                Answer::Value(_) => ScriptStepView::Done,
            },
        }
    }

    /// The instances after an answer: one is registered when the module is compiled, and it is
    /// given the memory and the dispatcher when they are found.
    pub open spec fn instances_advanced(
        self,
        answer: Answer,
        instances: Seq<InstanceView>,
        max_handles: u64,
    ) -> Seq<InstanceView> {
        match self {
            ScriptView::Compiling { task, .. } => if task.advanced(answer) is Done {
                instances.push(InstanceView::fresh(max_handles))
            } else {
                instances
            },
            ScriptView::FindingMemory { index, task, .. } => match task.advanced(answer) {
                TaskStepView::Done(memory) => instances.update(
                    index as int,
                    InstanceView { memory: Some(memory), ..instances[index as int] },
                ),
                _ => instances,
            },
            ScriptView::FindingDispatcher { index, task, .. } => match task.advanced(answer) {
                TaskStepView::Done(dispatcher) => instances.update(
                    index as int,
                    InstanceView { dispatcher: Some(dispatcher), ..instances[index as int] },
                ),
                _ => instances,
            },
            _ => instances,
        }
    }

    /// The instance of the script, once it is registered.
    pub open spec fn index(self) -> Option<nat> {
        match self {
            ScriptView::MakingImports { index, .. } => Some(index),
            ScriptView::Instantiating { index, .. } => Some(index),
            ScriptView::FindingMemory { index, .. } => Some(index),
            ScriptView::FindingDispatcher { index, .. } => Some(index),
            _ => None,
        }
    }

    /// The task that a script waits for.
    pub open spec fn task(self) -> Option<TaskView> {
        match self {
            ScriptView::Compiling { task, .. } => Some(task),
            ScriptView::Instantiating { task, .. } => Some(task),
            ScriptView::FindingMemory { task, .. } => Some(task),
            ScriptView::FindingDispatcher { task, .. } => Some(task),
            ScriptView::FindingStart { task, .. } => Some(task),
            ScriptView::FindingFallback { task } => Some(task),
            _ => None,
        }
    }

    /// Whether the task that a script waits for has somewhere to go.
    pub open spec fn waits_properly(self) -> bool {
        self.task() matches Some(task) ==> task.waits_properly()
    }
}

// ---------------------------------------------------------------------------------------
// Running a script
// ---------------------------------------------------------------------------------------

impl ScriptRun {
    /// What holds of every script that waits for an answer.
    pub open spec fn wf(&self) -> bool {
        match *self {
            ScriptRun::Compiling { task, .. } => task.wf(),
            ScriptRun::Instantiating { task, .. } => task.wf(),
            ScriptRun::FindingMemory { task, .. } => task.wf(),
            ScriptRun::FindingDispatcher { task, .. } => task.wf(),
            ScriptRun::FindingStart { task, .. } => task.wf(),
            ScriptRun::FindingFallback { task } => task.wf(),
            _ => true,
        }
    }

    /// Goes on with a script, given the answer to what it asked for.
    pub fn advance(
        self,
        registry: &mut InstanceRegistry,
        members: &[MemberImport],
        max_handles: u64,
        answer: Answer,
    ) -> (step: ScriptStep)
        requires
            self.wf(),
            old(registry).wf(),
            self@.index() matches Some(index) ==> index < old(registry)@.len(),
        ensures
            final(registry).wf(),
            step.wf(),
            step@ == self@.advanced(answer, old(registry)@.len(), members@),
            final(registry)@ == self@.instances_advanced(answer, old(registry)@, max_handles),
            step matches ScriptStep::Ask(next, _) ==> (next@.index() matches Some(index) ==> index
                < final(registry)@.len()),
    {
        match self {
            ScriptRun::Compiling { global, task } => match task.advance(answer) {
                TaskStep::Ask(task, request) => ScriptStep::Ask(
                    ScriptRun::Compiling { global, task },
                    ScriptAction::Engine(request),
                ),
                TaskStep::Missing => ScriptStep::Throw(ScriptFailure::NoWebAssembly),
                TaskStep::Failed => ScriptStep::Report,
                TaskStep::Done(module) => {
                    // The import object carries the index, so the instance comes first.
                    let index: usize = registry.register(WasmDomInstance::new(max_handles));
                    match build_import_object(index, members) {
                        Some(plan) => ScriptStep::Ask(
                            ScriptRun::MakingImports { global, module, index },
                            ScriptAction::MakeImportObject(plan),
                        ),
                        None => ScriptStep::Throw(ScriptFailure::NoImportObject),
                    }
                },
            },
            ScriptRun::MakingImports { global, module, index } => match answer {
                Answer::Value(Value::Object(imports)) => instantiate_next(
                    index,
                    instantiate_module(global, module, imports),
                ),
                Answer::Value(Value::Other) | Answer::Failed => ScriptStep::Throw(
                    ScriptFailure::NoImportObject,
                ),
            },
            ScriptRun::Instantiating { index, task } => instantiate_next(
                index,
                task.advance(answer),
            ),
            ScriptRun::FindingMemory { index, instance, task } => match task.advance(answer) {
                TaskStep::Ask(task, request) => ScriptStep::Ask(
                    ScriptRun::FindingMemory { index, instance, task },
                    ScriptAction::Engine(request),
                ),
                TaskStep::Missing | TaskStep::Failed => ScriptStep::Throw(
                    ScriptFailure::NoMemory,
                ),
                TaskStep::Done(memory) => {
                    registry.registered_mut(index).set_memory(Some(memory));
                    match instance_export(instance, "_servo_dom_dispatch") {
                        TaskStep::Ask(task, request) => ScriptStep::Ask(
                            ScriptRun::FindingDispatcher { index, instance, task },
                            ScriptAction::Engine(request),
                        ),
                        TaskStep::Done(_) | TaskStep::Missing | TaskStep::Failed => {
                            assert(false);
                            ScriptStep::Done
                        },
                    }
                },
            },
            ScriptRun::FindingDispatcher { index, instance, task } => match task.advance(answer) {
                TaskStep::Ask(task, request) => ScriptStep::Ask(
                    ScriptRun::FindingDispatcher { index, instance, task },
                    ScriptAction::Engine(request),
                ),
                TaskStep::Failed => ScriptStep::Report,
                TaskStep::Missing => start_next(
                    instance,
                    instance_export(instance, "_servo_dom_start"),
                ),
                TaskStep::Done(dispatcher) => {
                    registry.registered_mut(index).set_dispatcher(Some(dispatcher));
                    start_next(instance, instance_export(instance, "_servo_dom_start"))
                },
            },
            ScriptRun::FindingStart { instance, task } => start_next(
                instance,
                task.advance(answer),
            ),
            ScriptRun::FindingFallback { task } => fallback_next(task.advance(answer)),
            ScriptRun::Calling => match answer {
                Answer::Failed => ScriptStep::Report,
                Answer::Value(_) => ScriptStep::Done,
            },
        }
    }
}

impl ScriptStep {
    /// What holds of every step.
    pub open spec fn wf(&self) -> bool {
        *self matches ScriptStep::Ask(run, _) ==> run.wf()
    }
}

/// What instantiating leads to.
fn instantiate_next(index: usize, step: TaskStep) -> (next: ScriptStep)
    requires
        step.wf(),
    ensures
        next@ == instantiate_stage(index as nat, step@),
        next.wf(),
{
    match step {
        TaskStep::Ask(task, request) => ScriptStep::Ask(
            ScriptRun::Instantiating { index, task },
            ScriptAction::Engine(request),
        ),
        TaskStep::Missing => ScriptStep::Throw(ScriptFailure::NoWebAssembly),
        TaskStep::Failed => ScriptStep::Report,
        TaskStep::Done(instance) => match instance_export(instance, "memory") {
            TaskStep::Ask(task, request) => ScriptStep::Ask(
                ScriptRun::FindingMemory { index, instance, task },
                ScriptAction::Engine(request),
            ),
            TaskStep::Done(_) | TaskStep::Missing | TaskStep::Failed => {
                assert(false);
                ScriptStep::Done
            },
        },
    }
}

/// What looking for the start function leads to.
fn start_next(instance: ObjectId, step: TaskStep) -> (next: ScriptStep)
    requires
        step.wf(),
    ensures
        next@ == start_stage(instance, step@),
        next.wf(),
{
    match step {
        TaskStep::Ask(task, request) => ScriptStep::Ask(
            ScriptRun::FindingStart { instance, task },
            ScriptAction::Engine(request),
        ),
        TaskStep::Missing => fallback_next(instance_export(instance, "_start")),
        TaskStep::Failed => ScriptStep::Report,
        TaskStep::Done(function) => ScriptStep::Ask(
            ScriptRun::Calling,
            ScriptAction::Call(function),
        ),
    }
}

/// What looking for the other start function leads to.
fn fallback_next(step: TaskStep) -> (next: ScriptStep)
    requires
        step.wf(),
    ensures
        next@ == fallback_stage(step@),
        next.wf(),
{
    match step {
        TaskStep::Ask(task, request) => ScriptStep::Ask(
            ScriptRun::FindingFallback { task },
            ScriptAction::Engine(request),
        ),
        TaskStep::Missing | TaskStep::Failed => ScriptStep::Throw(ScriptFailure::NoStart),
        TaskStep::Done(function) => ScriptStep::Ask(
            ScriptRun::Calling,
            ScriptAction::Call(function),
        ),
    }
}

/// Whether a script is to be run at all. The content security policy is only asked about one
/// that is.
#[derive(Clone, Copy, Debug, Eq, PartialEq, Structural)]
pub enum ScriptStart {
    DoNotRun,
    AskPolicy,
}

/// Starts to run a module as a script of a global.
pub fn run_a_wasm_dom_script(settings: ScriptSettings) -> (start: ScriptStart)
    ensures
        start == (if may_run_script(settings) {
            ScriptStart::AskPolicy
        } else {
            ScriptStart::DoNotRun
        }),
{
    if can_run_script(settings) {
        ScriptStart::AskPolicy
    } else {
        ScriptStart::DoNotRun
    }
}

/// The first step of a script that may run, given whether the content security policy of the
/// page allows it. A policy that forbids it is told to the page, since a silent block cannot be
/// told from a broken module.
pub fn start_wasm_script(allowed_by_policy: bool, global: ObjectId) -> (step: ScriptStep)
    ensures
        step@ == first_stage(allowed_by_policy, global),
        step.wf(),
{
    if !allowed_by_policy {
        return ScriptStep::Throw(ScriptFailure::Blocked);
    }
    match compile_module(global) {
        TaskStep::Ask(task, request) => ScriptStep::Ask(
            ScriptRun::Compiling { global, task },
            ScriptAction::Engine(request),
        ),
        TaskStep::Done(_) | TaskStep::Missing | TaskStep::Failed => {
            assert(false);
            ScriptStep::Report
        },
    }
}

/// What a script that may run starts with.
pub open spec fn first_stage(allowed_by_policy: bool, global: ObjectId) -> ScriptStepView {
    if allowed_by_policy {
        match compile_step(global) {
            TaskStepView::Ask(task, request) => ScriptStepView::Ask(
                ScriptView::Compiling { global, task },
                ActionView::Engine(request),
            ),
            _ => ScriptStepView::Report,
        }
    } else {
        ScriptStepView::Throw(ScriptFailure::Blocked)
    }
}

// ---------------------------------------------------------------------------------------
// Laws
// ---------------------------------------------------------------------------------------

impl ScriptView {
    /// How many answers a script can still take.
    pub open spec fn patience(self) -> nat {
        match self {
            ScriptView::Compiling { task, .. } => task.patience() + 13,
            ScriptView::MakingImports { .. } => 13,
            ScriptView::Instantiating { task, .. } => task.patience() + 9,
            ScriptView::FindingMemory { task, .. } => task.patience() + 7,
            ScriptView::FindingDispatcher { task, .. } => task.patience() + 5,
            ScriptView::FindingStart { task, .. } => task.patience() + 3,
            ScriptView::FindingFallback { task } => task.patience() + 1,
            ScriptView::Calling => 1,
        }
    }
}

/// Every script comes to an end: with each answer it can take fewer.
pub proof fn scripts_come_to_an_end(
    run: ScriptView,
    answer: Answer,
    count: nat,
    members: Seq<MemberImport>,
)
    requires
        run.waits_properly(),
    ensures
        run.advanced(answer, count, members) matches ScriptStepView::Ask(next, _)
            ==> next.waits_properly() && next.patience() < run.patience(),
{
    if let Some(task) = run.task() {
        tasks_come_to_an_end(task, answer);
    }
}

/// A request that fails ends a script at once, with an exception that is reported: the pending one,
/// or one that the host throws in its place. The pending one is reported in no other case, so
/// there always is one.
pub proof fn a_failed_request_is_reported(
    run: ScriptView,
    answer: Answer,
    count: nat,
    members: Seq<MemberImport>,
)
    ensures
        answer is Failed ==> run.advanced(answer, count, members) is Report || run.advanced(
            answer,
            count,
            members,
        ) is Throw,
        run.advanced(answer, count, members) is Report ==> answer is Failed,
{
    if let Some(task) = run.task() {
        only_a_failed_request_fails_a_task(task, answer);
    }
}

/// Running a script concerns the instance that it registers and no other one: those that were
/// there before stay as they are.
pub proof fn a_script_keeps_to_its_instance(
    run: ScriptView,
    answer: Answer,
    instances: Seq<InstanceView>,
    max_handles: u64,
    other: int,
)
    requires
        0 <= other < instances.len(),
        run.index() matches Some(index) ==> index < instances.len() && index != other,
    ensures
        run.instances_advanced(answer, instances, max_handles).len() >= instances.len(),
        run.instances_advanced(answer, instances, max_handles)[other] == instances[other],
{
}

/// A page with an engine that always gives the same answer to the same request.
pub struct Page {
    pub engine: Engine,
    pub make_imports: spec_fn(Seq<NamespaceView>) -> Answer,
    pub call: spec_fn(ObjectId) -> Answer,
    pub members: Seq<MemberImport>,
    pub max_handles: u64,
}

/// How a script ends, and what it leaves of the instances.
pub struct Ending {
    pub step: ScriptStepView,
    pub instances: Seq<InstanceView>,
    /// The start function, if it was called.
    pub started: Option<ObjectId>,
}

impl Page {
    /// The answer to what a script asks for.
    pub open spec fn answer(self, action: ActionView) -> Answer {
        match action {
            ActionView::Engine(request) => self.engine.answer(request),
            ActionView::MakeImportObject(plan) => (self.make_imports)(plan),
            ActionView::Call(function) => (self.call)(function),
        }
    }

    /// How a script ends if this page answers what it asks for.
    pub open spec fn ending(
        self,
        step: ScriptStepView,
        instances: Seq<InstanceView>,
        started: Option<ObjectId>,
    ) -> Ending
        decreases
                (match step {
                    ScriptStepView::Ask(run, _) => run.patience() + 1,
                    _ => 0,
                }),
        when step matches ScriptStepView::Ask(run, _) ==> run.waits_properly()
        via Self::ending_decreases
    {
        match step {
            ScriptStepView::Ask(run, action) => self.ending(
                run.advanced(self.answer(action), instances.len(), self.members),
                run.instances_advanced(self.answer(action), instances, self.max_handles),
                if let ActionView::Call(function) = action {
                    Some(function)
                } else {
                    started
                },
            ),
            _ => Ending { step, instances, started },
        }
    }

    #[via_fn]
    proof fn ending_decreases(
        self,
        step: ScriptStepView,
        instances: Seq<InstanceView>,
        started: Option<ObjectId>,
    ) {
        if let ScriptStepView::Ask(run, action) = step {
            scripts_come_to_an_end(run, self.answer(action), instances.len(), self.members);
        }
    }

    /// How a script ends whose start function is called.
    pub open spec fn outcome_of_call(
        self,
        function: ObjectId,
        instances: Seq<InstanceView>,
    ) -> Ending {
        Ending {
            step: match (self.call)(function) {
                Answer::Failed => ScriptStepView::Report,
                Answer::Value(_) => ScriptStepView::Done,
            },
            instances,
            started: Some(function),
        }
    }

    /// How a script ends once its memory and its dispatcher are bound. The start function is
    /// `_servo_dom_start`, else `_start`.
    pub open spec fn outcome_of_start(
        self,
        instance: ObjectId,
        instances: Seq<InstanceView>,
    ) -> Ending {
        match self.engine.exported(instance, "_servo_dom_start"@) {
            Outcome::Found(function) => self.outcome_of_call(function, instances),
            Outcome::Failed => given_up(ScriptStepView::Report, instances),
            Outcome::Missing => match self.engine.exported(instance, "_start"@) {
                Outcome::Found(function) => self.outcome_of_call(function, instances),
                _ => given_up(ScriptStepView::Throw(ScriptFailure::NoStart), instances),
            },
        }
    }

    /// How a script ends that was instantiated for the instance with an index.
    pub open spec fn outcome_of_instance(
        self,
        instance: ObjectId,
        instances: Seq<InstanceView>,
        index: int,
    ) -> Ending {
        match self.engine.exported(instance, "memory"@) {
            Outcome::Found(memory) => {
                let bound = InstanceView { memory: Some(memory), ..instances[index] };
                match self.engine.exported(instance, "_servo_dom_dispatch"@) {
                    Outcome::Found(dispatcher) => self.outcome_of_start(
                        instance,
                        instances.update(
                            index,
                            InstanceView { dispatcher: Some(dispatcher), ..bound },
                        ),
                    ),
                    Outcome::Missing => self.outcome_of_start(
                        instance,
                        instances.update(index, bound),
                    ),
                    Outcome::Failed => given_up(
                        ScriptStepView::Report,
                        instances.update(index, bound),
                    ),
                }
            },
            _ => given_up(ScriptStepView::Throw(ScriptFailure::NoMemory), instances),
        }
    }

    /// How a script ends, in one piece: the first thing that fails decides.
    pub open spec fn outcome(self, global: ObjectId, instances: Seq<InstanceView>) -> Ending {
        let index = instances.len();
        let registered = instances.push(InstanceView::fresh(self.max_handles));
        match self.engine.compiled(global) {
            Outcome::Failed => given_up(ScriptStepView::Report, instances),
            Outcome::Missing => given_up(
                ScriptStepView::Throw(ScriptFailure::NoWebAssembly),
                instances,
            ),
            Outcome::Found(module) => {
                let plan = object_of(
                    import_table(self.members),
                    import_table(self.members).len(),
                    index as i32,
                );
                match (self.make_imports)(plan) {
                    Answer::Value(Value::Object(imports)) if index <= i32::MAX && all_nameable(
                        self.members,
                    ) => match self.engine.instantiated(global, module, imports) {
                        Outcome::Failed => given_up(ScriptStepView::Report, registered),
                        Outcome::Missing => given_up(
                            ScriptStepView::Throw(ScriptFailure::NoWebAssembly),
                            registered,
                        ),
                        Outcome::Found(instance) => self.outcome_of_instance(
                            instance,
                            registered,
                            index as int,
                        ),
                    },
                    _ => given_up(
                        ScriptStepView::Throw(ScriptFailure::NoImportObject),
                        registered,
                    ),
                }
            },
        }
    }

    /// Whether the last thing that a script asks for fails, so that an exception is pending when
    /// it ends, given whether what it asked for before has failed.
    pub open spec fn fails_last(
        self,
        step: ScriptStepView,
        instances: Seq<InstanceView>,
        failed: bool,
    ) -> bool
        decreases
                (match step {
                    ScriptStepView::Ask(run, _) => run.patience() + 1,
                    _ => 0,
                }),
        when step matches ScriptStepView::Ask(run, _) ==> run.waits_properly()
        via Self::fails_last_decreases
    {
        match step {
            ScriptStepView::Ask(run, action) => self.fails_last(
                run.advanced(self.answer(action), instances.len(), self.members),
                run.instances_advanced(self.answer(action), instances, self.max_handles),
                self.answer(action) is Failed,
            ),
            _ => failed,
        }
    }

    #[via_fn]
    proof fn fails_last_decreases(
        self,
        step: ScriptStepView,
        instances: Seq<InstanceView>,
        failed: bool,
    ) {
        if let ScriptStepView::Ask(run, action) = step {
            scripts_come_to_an_end(run, self.answer(action), instances.len(), self.members);
        }
    }
}

/// The end of a script that is given up before its start function is called.
pub open spec fn given_up(step: ScriptStepView, instances: Seq<InstanceView>) -> Ending {
    Ending { step, instances, started: None }
}

/// The step that a task has come to.
spec fn concluded(end: Outcome) -> TaskStepView {
    match end {
        Outcome::Found(object) => TaskStepView::Done(object),
        Outcome::Missing => TaskStepView::Missing,
        Outcome::Failed => TaskStepView::Failed,
    }
}

/// Whether a task that waits has somewhere to go.
spec fn proper(step: TaskStepView) -> bool {
    step matches TaskStepView::Ask(task, _) ==> task.waits_properly()
}

/// How many answers a task can still take.
spec fn patience_of(step: TaskStepView) -> nat {
    match step {
        TaskStepView::Ask(task, _) => task.patience(),
        _ => 0,
    }
}

impl Page {
    /// The instances once compiling has come to a step.
    spec fn compile_instances(self, step: TaskStepView, instances: Seq<InstanceView>) -> Seq<
        InstanceView,
    > {
        if step is Done {
            instances.push(InstanceView::fresh(self.max_handles))
        } else {
            instances
        }
    }

    /// The instances once looking for the memory has come to a step.
    spec fn memory_instances(
        self,
        step: TaskStepView,
        instances: Seq<InstanceView>,
        index: nat,
    ) -> Seq<InstanceView> {
        match step {
            TaskStepView::Done(memory) => instances.update(
                index as int,
                InstanceView { memory: Some(memory), ..instances[index as int] },
            ),
            _ => instances,
        }
    }

    /// The instances once looking for the dispatcher has come to a step.
    spec fn dispatcher_instances(
        self,
        step: TaskStepView,
        instances: Seq<InstanceView>,
        index: nat,
    ) -> Seq<InstanceView> {
        match step {
            TaskStepView::Done(dispatcher) => instances.update(
                index as int,
                InstanceView { dispatcher: Some(dispatcher), ..instances[index as int] },
            ),
            _ => instances,
        }
    }

    /// A script that compiles ends as if the module were there at once.
    proof fn lemma_compile(self, global: ObjectId, step: TaskStepView, instances: Seq<InstanceView>)
        requires
            proper(step),
        ensures
            ({
                let end = concluded(self.engine.settled(step));
                self.ending(
                    compile_stage(global, step, instances.len(), self.members),
                    self.compile_instances(step, instances),
                    None,
                ) == self.ending(
                    compile_stage(global, end, instances.len(), self.members),
                    self.compile_instances(end, instances),
                    None,
                )
            }),
        decreases patience_of(step),
    {
        if let TaskStepView::Ask(task, request) = step {
            let answer = self.engine.answer(request);
            tasks_come_to_an_end(task, answer);
            self.lemma_compile(global, task.advanced(answer), instances);
        }
    }

    /// A script that instantiates ends as if the instance were there at once.
    proof fn lemma_instantiate(
        self,
        index: nat,
        step: TaskStepView,
        instances: Seq<InstanceView>,
    )
        requires
            proper(step),
        ensures
            self.ending(instantiate_stage(index, step), instances, None) == self.ending(
                instantiate_stage(index, concluded(self.engine.settled(step))),
                instances,
                None,
            ),
        decreases patience_of(step),
    {
        if let TaskStepView::Ask(task, request) = step {
            let answer = self.engine.answer(request);
            tasks_come_to_an_end(task, answer);
            self.lemma_instantiate(index, task.advanced(answer), instances);
        }
    }

    /// A script that looks for the memory ends as if the answer were there at once.
    proof fn lemma_memory(
        self,
        index: nat,
        instance: ObjectId,
        step: TaskStepView,
        instances: Seq<InstanceView>,
    )
        requires
            proper(step),
        ensures
            ({
                let end = concluded(self.engine.settled(step));
                self.ending(
                    memory_stage(index, instance, step),
                    self.memory_instances(step, instances, index),
                    None,
                ) == self.ending(
                    memory_stage(index, instance, end),
                    self.memory_instances(end, instances, index),
                    None,
                )
            }),
        decreases patience_of(step),
    {
        if let TaskStepView::Ask(task, request) = step {
            let answer = self.engine.answer(request);
            tasks_come_to_an_end(task, answer);
            self.lemma_memory(index, instance, task.advanced(answer), instances);
        }
    }

    /// A script that looks for the dispatcher ends as if the answer were there at once.
    proof fn lemma_dispatcher(
        self,
        index: nat,
        instance: ObjectId,
        step: TaskStepView,
        instances: Seq<InstanceView>,
    )
        requires
            proper(step),
        ensures
            ({
                let end = concluded(self.engine.settled(step));
                self.ending(
                    dispatcher_stage(index, instance, step),
                    self.dispatcher_instances(step, instances, index),
                    None,
                ) == self.ending(
                    dispatcher_stage(index, instance, end),
                    self.dispatcher_instances(end, instances, index),
                    None,
                )
            }),
        decreases patience_of(step),
    {
        if let TaskStepView::Ask(task, request) = step {
            let answer = self.engine.answer(request);
            tasks_come_to_an_end(task, answer);
            self.lemma_dispatcher(index, instance, task.advanced(answer), instances);
        }
    }

    /// A script that looks for its start function ends as if the answer were there at once.
    proof fn lemma_start(
        self,
        instance: ObjectId,
        step: TaskStepView,
        instances: Seq<InstanceView>,
    )
        requires
            proper(step),
        ensures
            self.ending(start_stage(instance, step), instances, None) == self.ending(
                start_stage(instance, concluded(self.engine.settled(step))),
                instances,
                None,
            ),
        decreases patience_of(step),
    {
        if let TaskStepView::Ask(task, request) = step {
            let answer = self.engine.answer(request);
            tasks_come_to_an_end(task, answer);
            self.lemma_start(instance, task.advanced(answer), instances);
        }
    }

    /// A script that looks for its other start function ends as if the answer were there at
    /// once.
    proof fn lemma_fallback(self, step: TaskStepView, instances: Seq<InstanceView>)
        requires
            proper(step),
        ensures
            self.ending(fallback_stage(step), instances, None) == self.ending(
                fallback_stage(concluded(self.engine.settled(step))),
                instances,
                None,
            ),
        decreases patience_of(step),
    {
        if let TaskStepView::Ask(task, request) = step {
            let answer = self.engine.answer(request);
            tasks_come_to_an_end(task, answer);
            self.lemma_fallback(task.advanced(answer), instances);
        }
    }

    /// Where a script ends with the report of the pending exception, what it asked for last has
    /// failed, and where it is done, that has succeeded.
    proof fn lemma_report(
        self,
        step: ScriptStepView,
        instances: Seq<InstanceView>,
        started: Option<ObjectId>,
        failed: bool,
    )
        requires
            step matches ScriptStepView::Ask(run, _) ==> run.waits_properly(),
            step is Report ==> failed,
            step is Done ==> !failed,
        ensures
            self.ending(step, instances, started).step is Report ==> self.fails_last(
                step,
                instances,
                failed,
            ),
            self.ending(step, instances, started).step is Done ==> !self.fails_last(
                step,
                instances,
                failed,
            ),
        decreases
                (match step {
                    ScriptStepView::Ask(run, _) => run.patience() + 1,
                    _ => 0,
                }),
    {
        if let ScriptStepView::Ask(run, action) = step {
            let answer = self.answer(action);
            scripts_come_to_an_end(run, answer, instances.len(), self.members);
            a_failed_request_is_reported(run, answer, instances.len(), self.members);
            self.lemma_report(
                run.advanced(answer, instances.len(), self.members),
                run.instances_advanced(answer, instances, self.max_handles),
                if let ActionView::Call(function) = action {
                    Some(function)
                } else {
                    started
                },
                answer is Failed,
            );
        }
    }

    /// From the start function on, the script ends as it should.
    proof fn lemma_from_start(self, instance: ObjectId, instances: Seq<InstanceView>)
        ensures
            self.ending(
                start_stage(instance, export_step(instance, "_servo_dom_start"@)),
                instances,
                None,
            ) == self.outcome_of_start(instance, instances),
    {
        let first = export_step(instance, "_servo_dom_start"@);
        let second = export_step(instance, "_start"@);
        self.lemma_start(instance, first, instances);
        self.lemma_fallback(second, instances);
        reading_an_export_goes_through_the_exports(
            self.engine,
            instance,
            "_servo_dom_start"@,
        );
        reading_an_export_goes_through_the_exports(self.engine, instance, "_start"@);
        reveal_with_fuel(Page::ending, 2);
    }

    /// From the memory on, the script ends as it should.
    proof fn lemma_from_memory(
        self,
        index: nat,
        instance: ObjectId,
        instances: Seq<InstanceView>,
    )
        requires
            index < instances.len(),
        ensures
            self.ending(
                memory_stage(index, instance, export_step(instance, "memory"@)),
                instances,
                None,
            ) == self.outcome_of_instance(instance, instances, index as int),
    {
        let at = index as int;
        let found = self.engine.exported(instance, "memory"@);
        self.lemma_memory(index, instance, export_step(instance, "memory"@), instances);
        reading_an_export_goes_through_the_exports(self.engine, instance, "memory"@);
        if let Outcome::Found(memory) = found {
            let bound = self.memory_instances(concluded(found), instances, index);
            let step = export_step(instance, "_servo_dom_dispatch"@);
            let dispatcher = self.engine.exported(instance, "_servo_dom_dispatch"@);
            self.lemma_dispatcher(index, instance, step, bound);
            reading_an_export_goes_through_the_exports(
                self.engine,
                instance,
                "_servo_dom_dispatch"@,
            );
            let wired = self.dispatcher_instances(concluded(dispatcher), bound, index);
            self.lemma_from_start(instance, wired);
            let after = InstanceView { memory: Some(memory), ..instances[at] };
            assert(bound =~= instances.update(at, after));
            if let Outcome::Found(dispatcher) = dispatcher {
                assert(wired =~= instances.update(
                    at,
                    InstanceView { dispatcher: Some(dispatcher), ..after },
                ));
            }
        }
    }
}

/// A script ends as its outcome says. Its start function is called only once everything before
/// has succeeded: the module is compiled, its instance is registered, its imports are made, it
/// is instantiated, and its memory and its dispatcher, if it has one, are bound. The first thing
/// that fails ends it, with one report.
///
/// Whatever fails is told to the page. Where the pending exception is to be reported, there is
/// one, left by the request that failed; and a script that is done leaves none behind.
pub proof fn a_script_ends_as_it_should(
    page: Page,
    global: ObjectId,
    instances: Seq<InstanceView>,
)
    ensures
        page.ending(first_stage(true, global), instances, None) == page.outcome(global, instances),
        page.outcome(global, instances).step is Report ==> page.fails_last(
            first_stage(true, global),
            instances,
            false,
        ),
        page.outcome(global, instances).step is Done ==> !page.fails_last(
            first_stage(true, global),
            instances,
            false,
        ),
{
    page.lemma_report(first_stage(true, global), instances, None, false);
    reveal_with_fuel(Page::ending, 2);
    let index = instances.len();
    let registered = instances.push(InstanceView::fresh(page.max_handles));
    page.lemma_compile(global, compile_step(global), instances);
    compiling_runs_the_module_constructor(page.engine, global);
    assert(first_stage(true, global) == compile_stage(
        global,
        compile_step(global),
        index,
        page.members,
    ));
    if let Outcome::Found(module) = page.engine.compiled(global) {
        let plan = object_of(
            import_table(page.members),
            import_table(page.members).len(),
            index as i32,
        );
        if index <= i32::MAX && all_nameable(page.members) {
            if let Answer::Value(Value::Object(imports)) = (page.make_imports)(plan) {
                let step = instantiate_step(global, module, imports);
                page.lemma_instantiate(index, step, registered);
                instantiating_runs_the_instance_constructor(
                    page.engine,
                    global,
                    module,
                    imports,
                );
                let instantiated = page.engine.instantiated(global, module, imports);
                if let Outcome::Found(instance) = instantiated {
                    page.lemma_from_memory(index, instance, registered);
                }
            }
        }
    }
}

/// A script that the policy of the page forbids is given up before anything is compiled, and
/// the page is told.
pub proof fn a_blocked_script_is_never_compiled(
    page: Page,
    global: ObjectId,
    instances: Seq<InstanceView>,
)
    ensures
        page.ending(first_stage(false, global), instances, None) == (Ending {
            step: ScriptStepView::Throw(ScriptFailure::Blocked),
            instances,
            started: None,
        }),
{
}

// ---------------------------------------------------------------------------------------
// What a script needs of a page
// ---------------------------------------------------------------------------------------

/// What a page has for a script: the objects that are found and made on the way.
pub struct Parts {
    /// What the global has under `WebAssembly`.
    pub namespace: ObjectId,
    pub module_constructor: ObjectId,
    pub source: ObjectId,
    pub module: ObjectId,
    pub imports: ObjectId,
    pub instance_constructor: ObjectId,
    pub instance: ObjectId,
    pub exports: ObjectId,
}

/// The answer that is an object.
pub open spec fn object(found: ObjectId) -> Answer {
    Answer::Value(Value::Object(found))
}

/// The answer that there is no object.
pub open spec fn nothing() -> Answer {
    Answer::Value(Value::Other)
}

impl Page {
    /// Whether a module is compiled and instantiated for the instance with an index: both
    /// constructors are found under `WebAssembly`, that of modules makes the module of the bytes,
    /// the import object is made for the index, that of instances makes the instance of the
    /// module and the import object, and the instance has exports.
    pub open spec fn instantiates(self, global: ObjectId, index: nat, parts: Parts) -> bool {
        let table = import_table(self.members);
        &&& (self.engine.property)(global, "WebAssembly"@) == object(parts.namespace)
        &&& (self.engine.property)(parts.namespace, "Module"@) == object(parts.module_constructor)
        &&& self.engine.source == object(parts.source)
        &&& (self.engine.construct)(parts.module_constructor, seq![parts.source]) == object(
            parts.module,
        )
        &&& index <= i32::MAX
        &&& all_nameable(self.members)
        &&& (self.make_imports)(object_of(table, table.len(), index as i32)) == object(
            parts.imports,
        )
        &&& (self.engine.property)(parts.namespace, "Instance"@) == object(
            parts.instance_constructor,
        )
        &&& (self.engine.construct)(parts.instance_constructor, seq![parts.module, parts.imports])
            == object(parts.instance)
        &&& (self.engine.property)(parts.instance, "exports"@) == object(parts.exports)
    }

    /// Whether exports hold a start function: `_servo_dom_start`, or `_start` where there is none.
    pub open spec fn starts_with(self, exports: ObjectId, function: ObjectId) -> bool {
        ||| (self.engine.property)(exports, "_servo_dom_start"@) == object(function)
        ||| {
            &&& (self.engine.property)(exports, "_servo_dom_start"@) == nothing()
            &&& (self.engine.property)(exports, "_start"@) == object(function)
        }
    }

    /// How a script ends on this page.
    pub open spec fn end_of_script(self, global: ObjectId, instances: Seq<InstanceView>) -> Ending {
        self.ending(first_stage(true, global), instances, None)
    }
}

/// A module that has what it needs is started: its start function is called, and by then there is
/// one more instance, at the end, with the exported memory and, if one is exported, with the
/// exported dispatcher. All others are as they were. Whether the script is done or the pending
/// exception is reported is decided by that call.
pub proof fn a_complete_module_is_started(
    page: Page,
    global: ObjectId,
    instances: Seq<InstanceView>,
    parts: Parts,
    memory: ObjectId,
    dispatcher: Option<ObjectId>,
    start: ObjectId,
)
    requires
        page.instantiates(global, instances.len(), parts),
        (page.engine.property)(parts.exports, "memory"@) == object(memory),
        (page.engine.property)(parts.exports, "_servo_dom_dispatch"@) == (match dispatcher {
            Some(dispatcher) => object(dispatcher),
            None => nothing(),
        }),
        page.starts_with(parts.exports, start),
    ensures
        ({
            let end = page.end_of_script(global, instances);
            let added = end.instances[instances.len() as int];
            &&& end.started == Some(start)
            &&& end.step == (if (page.call)(start) is Failed {
                ScriptStepView::Report
            } else {
                ScriptStepView::Done
            })
            &&& end.instances == instances.push(added)
            &&& added == (InstanceView {
                memory: Some(memory),
                dispatcher,
                ..InstanceView::fresh(page.max_handles)
            })
        }),
{
    a_script_ends_as_it_should(page, global, instances);
    let fresh = InstanceView::fresh(page.max_handles);
    let registered = instances.push(fresh);
    let index = instances.len() as int;
    let bound = InstanceView { memory: Some(memory), ..fresh };
    assert(registered[index] == fresh);
    assert(registered.update(index, bound) =~= instances.push(bound));
    if let Some(dispatcher) = dispatcher {
        let wired = InstanceView { dispatcher: Some(dispatcher), ..bound };
        assert(registered.update(index, wired) =~= instances.push(wired));
    }
}

/// A start function is called only if the module has what it needs: whatever is called is the
/// start function of the very instance that was made of the compiled module and of the imports
/// for the new index, and its memory was found and its dispatcher was looked for.
pub proof fn only_a_complete_module_is_started(
    page: Page,
    global: ObjectId,
    instances: Seq<InstanceView>,
)
    ensures
        page.end_of_script(global, instances).started matches Some(start) ==> exists|parts: Parts|
            {
                &&& #[trigger] page.instantiates(global, instances.len(), parts)
                &&& page.starts_with(parts.exports, start)
                &&& (page.engine.property)(
                    parts.exports,
                    "memory"@,
                ) matches Answer::Value(Value::Object(_))
                &&& (page.engine.property)(parts.exports, "_servo_dom_dispatch"@) !is Failed
            },
{
    a_script_ends_as_it_should(page, global, instances);
    if page.outcome(global, instances).started is Some {
        let table = import_table(page.members);
        let plan = object_of(table, table.len(), instances.len() as i32);
        let engine = page.engine;
        let namespace = engine.object_at(global, "WebAssembly"@)->Found_0;
        let module_constructor = engine.object_at(namespace, "Module"@)->Found_0;
        let instance_constructor = engine.object_at(namespace, "Instance"@)->Found_0;
        let source = outcome_of(engine.source)->Found_0;
        let module = engine.constructed(module_constructor, seq![source])->Found_0;
        let imports = outcome_of((page.make_imports)(plan))->Found_0;
        let instance = engine.constructed(instance_constructor, seq![module, imports])->Found_0;
        let exports = engine.object_at(instance, "exports"@)->Found_0;
        let parts = Parts {
            namespace,
            module_constructor,
            source,
            module,
            imports,
            instance_constructor,
            instance,
            exports,
        };
        assert(page.instantiates(global, instances.len(), parts));
    }
}

/// A page that has taken away `WebAssembly`, or a constructor from it, is told so by an exception
/// of the host. Where looking for them throws, that exception is reported. Before there is a
/// module, no instance is registered.
pub proof fn a_page_without_web_assembly_is_told_so(
    page: Page,
    global: ObjectId,
    instances: Seq<InstanceView>,
    namespace: ObjectId,
)
    ensures
        ({
            let end = page.end_of_script(global, instances);
            let found = (page.engine.property)(global, "WebAssembly"@);
            let constructor = (page.engine.property)(namespace, "Module"@);
            &&& found == nothing() || found == object(namespace) && constructor == nothing()
                ==> end == given_up(ScriptStepView::Throw(ScriptFailure::NoWebAssembly), instances)
            &&& found is Failed || found == object(namespace) && constructor is Failed ==> end
                == given_up(ScriptStepView::Report, instances)
        }),
{
    a_script_ends_as_it_should(page, global, instances);
}

/// Bytes that do not compile are reported with the exception of the constructor, and no instance
/// is registered for them.
pub proof fn a_module_that_does_not_compile_is_reported(
    page: Page,
    global: ObjectId,
    instances: Seq<InstanceView>,
    parts: Parts,
)
    requires
        (page.engine.property)(global, "WebAssembly"@) == object(parts.namespace),
        (page.engine.property)(parts.namespace, "Module"@) == object(parts.module_constructor),
        page.engine.source == object(parts.source),
        (page.engine.construct)(parts.module_constructor, seq![parts.source]) is Failed,
    ensures
        page.end_of_script(global, instances) == given_up(ScriptStepView::Report, instances),
{
    a_script_ends_as_it_should(page, global, instances);
}

/// A module whose imports cannot be made, that finds no constructor for its instance, that does
/// not link, that exports no memory or no start function is given up, each with its own
/// exception, and its start function is not called. The
/// instance that was registered for it stays, with the memory if that was found.
pub proof fn an_incomplete_module_is_given_up(
    page: Page,
    global: ObjectId,
    instances: Seq<InstanceView>,
    parts: Parts,
    memory: ObjectId,
)
    ensures
        ({
            let end = page.end_of_script(global, instances);
            let table = import_table(page.members);
            let fresh = InstanceView::fresh(page.max_handles);
            let imports = (page.make_imports)(
                object_of(table, table.len(), instances.len() as i32),
            );
            let compiles = {
                &&& (page.engine.property)(global, "WebAssembly"@) == object(parts.namespace)
                &&& (page.engine.property)(parts.namespace, "Module"@) == object(
                    parts.module_constructor,
                )
                &&& page.engine.source == object(parts.source)
                &&& (page.engine.construct)(parts.module_constructor, seq![parts.source])
                    == object(parts.module)
            };
            &&& compiles && (instances.len() > i32::MAX || !all_nameable(page.members)
                || !(imports matches Answer::Value(Value::Object(_)))) ==> end == given_up(
                ScriptStepView::Throw(ScriptFailure::NoImportObject),
                instances.push(fresh),
            )
            &&& compiles && instances.len() <= i32::MAX && all_nameable(page.members) && imports
                == object(parts.imports) && (page.engine.property)(parts.namespace, "Instance"@)
                == object(parts.instance_constructor) && (page.engine.construct)(
                parts.instance_constructor,
                seq![parts.module, parts.imports],
            ) is Failed ==> end == given_up(ScriptStepView::Report, instances.push(fresh))
            &&& compiles && instances.len() <= i32::MAX && all_nameable(page.members) && imports
                == object(parts.imports) && (page.engine.property)(parts.namespace, "Instance"@)
                == nothing() ==> end == given_up(
                ScriptStepView::Throw(ScriptFailure::NoWebAssembly),
                instances.push(fresh),
            )
            &&& compiles && instances.len() <= i32::MAX && all_nameable(page.members) && imports
                == object(parts.imports) && (page.engine.property)(parts.namespace, "Instance"@)
                is Failed ==> end == given_up(ScriptStepView::Report, instances.push(fresh))
            &&& page.instantiates(global, instances.len(), parts) && !((page.engine.property)(
                parts.exports,
                "memory"@,
            ) matches Answer::Value(Value::Object(_))) ==> end == given_up(
                ScriptStepView::Throw(ScriptFailure::NoMemory),
                instances.push(fresh),
            )
            &&& page.instantiates(global, instances.len(), parts) && (page.engine.property)(
                parts.exports,
                "memory"@,
            ) == object(memory) && (page.engine.property)(parts.exports, "_servo_dom_dispatch"@)
                == nothing() && (page.engine.property)(parts.exports, "_servo_dom_start"@)
                == nothing() && !((page.engine.property)(parts.exports, "_start"@) matches
                Answer::Value(Value::Object(_))) ==> end == given_up(
                ScriptStepView::Throw(ScriptFailure::NoStart),
                instances.push(InstanceView { memory: Some(memory), ..fresh }),
            )
        }),
{
    a_script_ends_as_it_should(page, global, instances);
    let fresh = InstanceView::fresh(page.max_handles);
    let bound = InstanceView { memory: Some(memory), ..fresh };
    assert(instances.push(fresh).update(instances.len() as int, bound) =~= instances.push(bound));
}

/// What is thrown says what is wrong: a policy that forbids the script is a security error that
/// names the script, and all else is a type error with a message of its own.
pub proof fn a_failure_is_thrown_with_its_message(error: Error, url: Seq<char>)
    ensures
        is_error_of(error, ScriptFailure::Blocked, url) ==> (error matches Error::Security(
            Some(text),
        ) && text@ == "wasm-dom: refused to compile "@ + url
            + ": blocked by Content Security Policy"@),
        is_error_of(error, ScriptFailure::NoWebAssembly, url) ==> (error matches Error::Type(bytes)
            && bytes@ == encode_utf8("wasm-dom: the page provides no usable `WebAssembly`"@)),
        is_error_of(error, ScriptFailure::NoImportObject, url) ==> (error matches Error::Type(bytes)
            && bytes@ == encode_utf8("wasm-dom: could not build the import object"@)),
        is_error_of(error, ScriptFailure::NoMemory, url) ==> (error matches Error::Type(bytes)
            && bytes@ == encode_utf8("wasm-dom: module must export its memory as `memory`"@)),
        is_error_of(error, ScriptFailure::NoStart, url) ==> (error matches Error::Type(bytes)
            && bytes@ == encode_utf8(
            "wasm-dom: module exports neither _servo_dom_start nor _start"@,
        )),
{
}

/// What a script asks for is shown as it is.
pub proof fn an_action_is_shown_as_it_is(action: ScriptAction)
    ensures
        match action {
            ScriptAction::Engine(request) => action@ == ActionView::Engine(request@),
            ScriptAction::MakeImportObject(plan) => action@ == ActionView::MakeImportObject(plan@),
            ScriptAction::Call(function) => action@ == ActionView::Call(function),
        },
{
}

} // verus!
