//! Compiling and instantiating a module through the constructors of the engine.
//!
//! `WebAssembly.Module` and `WebAssembly.Instance` are looked up and run as ordinary
//! constructors, so whatever governs them for a page governs them here. The engine is asked one
//! thing at a time; each answer leads to the next request, until the task is done, has failed, or
//! finds something missing. Only a request that fails leaves an exception behind.

use vstd::prelude::*;

use crate::handles::ObjectId;

verus! {

/// A value of the engine, as far as it matters here.
#[derive(Clone, Copy, Debug, Eq, PartialEq, Structural)]
pub enum Value {
    Object(ObjectId),
    /// Anything that is not an object, a null or undefined value among them.
    Other,
}

/// What the engine answers to a request.
#[derive(Clone, Copy, Debug, Eq, PartialEq, Structural)]
pub enum Answer {
    /// The request failed, and an exception is pending.
    Failed,
    Value(Value),
}

/// Something that only the engine can do.
pub enum Request {
    /// Read a property.
    ReadProperty { object: ObjectId, name: &'static str },
    /// Make a byte array that holds the bytes of the module.
    CopyBytes,
    /// Run a constructor.
    Construct { constructor: ObjectId, arguments: Vec<ObjectId> },
}

/// Something that only the engine can do.
pub enum RequestView {
    ReadProperty { object: ObjectId, name: Seq<char> },
    CopyBytes,
    Construct { constructor: ObjectId, arguments: Seq<ObjectId> },
}

impl View for Request {
    type V = RequestView;

    open spec fn view(&self) -> RequestView {
        match *self {
            Request::ReadProperty { object, name } => RequestView::ReadProperty {
                object,
                name: name@,
            },
            Request::CopyBytes => RequestView::CopyBytes,
            Request::Construct { constructor, arguments } => RequestView::Construct {
                constructor,
                arguments: arguments@,
            },
        }
    }
}

// ---------------------------------------------------------------------------------------
// Looking up a path
// ---------------------------------------------------------------------------------------

/// The way to a property of a property, and how far along it is.
pub struct PathLookup {
    path: Vec<&'static str>,
    taken: usize,
    current: Value,
}

/// What is left of a path, and the value that it starts from.
#[verifier::ext_equal]
pub struct PathView {
    pub rest: Seq<Seq<char>>,
    pub current: Value,
}

/// What to do next on a path.
#[derive(Clone, Copy)]
pub enum PathStep {
    Read { object: ObjectId, name: &'static str },
    /// The end of the path is reached.
    Found(Value),
    /// The path goes on from something that is not an object.
    Missing,
}

impl View for PathLookup {
    type V = PathView;

    closed spec fn view(&self) -> PathView {
        PathView {
            rest: self.path@.skip(self.taken as int).map_values(|name: &'static str| name@),
            current: self.current,
        }
    }
}

impl PathView {
    /// The lookup after a step, given the value that was read.
    pub open spec fn stepped(self, value: Value) -> Self {
        PathView { rest: self.rest.skip(1), current: value }
    }
}

impl PathLookup {
    /// What holds of every lookup.
    pub closed spec fn wf(&self) -> bool {
        self.taken <= self.path@.len()
    }

    /// Starts at an object.
    fn new(start: ObjectId, path: Vec<&'static str>) -> (lookup: Self)
        ensures
            lookup.wf(),
            lookup@ == (PathView {
                rest: path@.map_values(|name: &'static str| name@),
                current: Value::Object(start),
            }),
    {
        let lookup = PathLookup { path, taken: 0, current: Value::Object(start) };
        assert(path@.skip(0) =~= path@);
        lookup
    }

    /// What to do next.
    fn step(&self) -> (step: PathStep)
        requires
            self.wf(),
        ensures
            match step {
                PathStep::Read { object, name } => {
                    &&& self@.rest.len() > 0
                    &&& self@.current == Value::Object(object)
                    &&& name@ == self@.rest[0]
                },
                PathStep::Found(value) => self@.rest.len() == 0 && value == self@.current,
                PathStep::Missing => self@.rest.len() > 0 && self@.current == Value::Other,
            },
    {
        if self.taken == self.path.len() {
            return PathStep::Found(self.current);
        }
        match self.current {
            Value::Object(object) => PathStep::Read { object, name: self.path[self.taken] },
            Value::Other => PathStep::Missing,
        }
    }

    /// Goes on with the value that was read.
    fn take(self, value: Value) -> (next: Self)
        requires
            self.wf(),
            self@.rest.len() > 0,
        ensures
            next.wf(),
            next@ == self@.stepped(value),
    {
        let ghost before = self@;
        let length: usize = self.path.len();
        assert(self.taken < length);
        let next = PathLookup { path: self.path, taken: self.taken + 1, current: value };
        assert(next@.rest =~= before.rest.skip(1));
        next
    }
}

// ---------------------------------------------------------------------------------------
// Tasks
// ---------------------------------------------------------------------------------------

/// Something that takes several requests, and how far along it is.
pub enum Task {
    /// Looking up the constructor of modules.
    FindModule(PathLookup),
    /// Handing the bytes of the module to the engine.
    CopySource { constructor: ObjectId },
    /// Looking up the constructor of instances.
    FindInstance { lookup: PathLookup, module: ObjectId, imports: ObjectId },
    /// Running a constructor.
    Constructing,
    /// Reading the exports of an instance.
    ReadExports { name: &'static str },
    /// Reading one export.
    ReadExport,
}

/// Something that takes several requests, and how far along it is.
pub enum TaskView {
    FindModule(PathView),
    CopySource { constructor: ObjectId },
    FindInstance { lookup: PathView, module: ObjectId, imports: ObjectId },
    Constructing,
    ReadExports { name: Seq<char> },
    ReadExport,
}

/// Where a task stands.
pub enum TaskStep {
    /// It waits for an answer.
    Ask(Task, Request),
    /// It is done, with an object.
    Done(ObjectId),
    /// An object that it needs is not there. No request failed, and no exception is pending.
    Missing,
    /// A request failed.
    Failed,
}

/// Where a task stands.
pub enum TaskStepView {
    Ask(TaskView, RequestView),
    Done(ObjectId),
    Missing,
    Failed,
}

impl View for Task {
    type V = TaskView;

    open spec fn view(&self) -> TaskView {
        match *self {
            Task::FindModule(lookup) => TaskView::FindModule(lookup@),
            Task::CopySource { constructor } => TaskView::CopySource { constructor },
            Task::FindInstance { lookup, module, imports } => TaskView::FindInstance {
                lookup: lookup@,
                module,
                imports,
            },
            Task::Constructing => TaskView::Constructing,
            Task::ReadExports { name } => TaskView::ReadExports { name: name@ },
            Task::ReadExport => TaskView::ReadExport,
        }
    }
}

impl View for TaskStep {
    type V = TaskStepView;

    open spec fn view(&self) -> TaskStepView {
        match *self {
            TaskStep::Ask(task, request) => TaskStepView::Ask(task@, request@),
            TaskStep::Done(object) => TaskStepView::Done(object),
            TaskStep::Missing => TaskStepView::Missing,
            TaskStep::Failed => TaskStepView::Failed,
        }
    }
}

/// The step of looking up the constructor of modules. Something that is not an object cannot
/// be the constructor.
pub open spec fn find_module_step(lookup: PathView) -> TaskStepView {
    match lookup.current {
        Value::Other => TaskStepView::Missing,
        Value::Object(object) => if lookup.rest.len() > 0 {
            TaskStepView::Ask(
                TaskView::FindModule(lookup),
                RequestView::ReadProperty { object, name: lookup.rest[0] },
            )
        } else {
            TaskStepView::Ask(
                TaskView::CopySource { constructor: object },
                RequestView::CopyBytes,
            )
        },
    }
}

/// The step of looking up the constructor of instances.
pub open spec fn find_instance_step(
    lookup: PathView,
    module: ObjectId,
    imports: ObjectId,
) -> TaskStepView {
    match lookup.current {
        Value::Other => TaskStepView::Missing,
        Value::Object(object) => if lookup.rest.len() > 0 {
            TaskStepView::Ask(
                TaskView::FindInstance { lookup, module, imports },
                RequestView::ReadProperty { object, name: lookup.rest[0] },
            )
        } else {
            TaskStepView::Ask(
                TaskView::Constructing,
                RequestView::Construct {
                    constructor: object,
                    arguments: seq![module, imports],
                },
            )
        },
    }
}

/// Compiling a module.
pub open spec fn compile_step(global: ObjectId) -> TaskStepView {
    find_module_step(
        PathView { rest: seq!["WebAssembly"@, "Module"@], current: Value::Object(global) },
    )
}

/// Instantiating a module against its imports.
pub open spec fn instantiate_step(
    global: ObjectId,
    module: ObjectId,
    imports: ObjectId,
) -> TaskStepView {
    find_instance_step(
        PathView { rest: seq!["WebAssembly"@, "Instance"@], current: Value::Object(global) },
        module,
        imports,
    )
}

/// Reading an export of an instance.
pub open spec fn export_step(instance: ObjectId, name: Seq<char>) -> TaskStepView {
    TaskStepView::Ask(
        TaskView::ReadExports { name },
        RequestView::ReadProperty { object: instance, name: "exports"@ },
    )
}

impl TaskView {
    /// Where a task stands after an answer. A request that failed ends every task, and so does a
    /// value that is not an object where one is needed, which counts as missing.
    pub open spec fn advanced(self, answer: Answer) -> TaskStepView {
        match (self, answer) {
            (_, Answer::Failed) => TaskStepView::Failed,
            (TaskView::FindModule(lookup), Answer::Value(value)) => find_module_step(
                lookup.stepped(value),
            ),
            (
                TaskView::FindInstance { lookup, module, imports },
                Answer::Value(value),
            ) => find_instance_step(lookup.stepped(value), module, imports),
            (_, Answer::Value(Value::Other)) => TaskStepView::Missing,
            (
                TaskView::CopySource { constructor },
                Answer::Value(Value::Object(source)),
            ) => TaskStepView::Ask(
                TaskView::Constructing,
                RequestView::Construct { constructor, arguments: seq![source] },
            ),
            (
                TaskView::ReadExports { name },
                Answer::Value(Value::Object(exports)),
            ) => TaskStepView::Ask(
                TaskView::ReadExport,
                RequestView::ReadProperty { object: exports, name },
            ),
            (_, Answer::Value(Value::Object(object))) => TaskStepView::Done(object),
        }
    }

    /// Whether a lookup that a task waits for has somewhere to go.
    pub open spec fn waits_properly(self) -> bool {
        match self {
            TaskView::FindModule(lookup) => lookup.rest.len() > 0,
            TaskView::FindInstance { lookup, .. } => lookup.rest.len() > 0,
            _ => true,
        }
    }

    /// How many answers a task can still take.
    pub open spec fn patience(self) -> nat {
        match self {
            TaskView::FindModule(lookup) => lookup.rest.len() + 2,
            TaskView::CopySource { .. } => 2,
            TaskView::FindInstance { lookup, .. } => lookup.rest.len() + 1,
            TaskView::Constructing => 1,
            TaskView::ReadExports { .. } => 2,
            TaskView::ReadExport => 1,
        }
    }
}

impl Task {
    /// What holds of every task that waits for an answer.
    pub open spec fn wf(&self) -> bool {
        &&& self@.waits_properly()
        &&& match *self {
            Task::FindModule(lookup) => lookup.wf(),
            Task::FindInstance { lookup, .. } => lookup.wf(),
            _ => true,
        }
    }

    /// Goes on with a task, given the answer to its request.
    pub fn advance(self, answer: Answer) -> (step: TaskStep)
        requires
            self.wf(),
        ensures
            step@ == self@.advanced(answer),
            step.wf(),
    {
        let value = match answer {
            Answer::Failed => return TaskStep::Failed,
            Answer::Value(value) => value,
        };
        match self {
            Task::FindModule(lookup) => find_module(lookup.take(value)),
            Task::FindInstance { lookup, module, imports } => find_instance(
                lookup.take(value),
                module,
                imports,
            ),
            Task::CopySource { constructor } => match value {
                Value::Object(source) => {
                    let mut arguments: Vec<ObjectId> = Vec::new();
                    arguments.push(source);
                    assert(arguments@ =~= seq![source]);
                    TaskStep::Ask(Task::Constructing, Request::Construct { constructor, arguments })
                },
                Value::Other => TaskStep::Missing,
            },
            Task::ReadExports { name } => match value {
                Value::Object(exports) => TaskStep::Ask(
                    Task::ReadExport,
                    Request::ReadProperty { object: exports, name },
                ),
                Value::Other => TaskStep::Missing,
            },
            Task::Constructing | Task::ReadExport => match value {
                Value::Object(object) => TaskStep::Done(object),
                Value::Other => TaskStep::Missing,
            },
        }
    }
}

impl TaskStep {
    /// What holds of every step.
    pub open spec fn wf(&self) -> bool {
        *self matches TaskStep::Ask(task, _) ==> task.wf()
    }
}

/// The next step of looking up the constructor of modules.
fn find_module(lookup: PathLookup) -> (step: TaskStep)
    requires
        lookup.wf(),
    ensures
        step@ == find_module_step(lookup@),
        step.wf(),
{
    match lookup.step() {
        PathStep::Read { object, name } => TaskStep::Ask(
            Task::FindModule(lookup),
            Request::ReadProperty { object, name },
        ),
        PathStep::Found(Value::Object(constructor)) => TaskStep::Ask(
            Task::CopySource { constructor },
            Request::CopyBytes,
        ),
        PathStep::Found(Value::Other) | PathStep::Missing => TaskStep::Missing,
    }
}

/// The next step of looking up the constructor of instances.
fn find_instance(lookup: PathLookup, module: ObjectId, imports: ObjectId) -> (step: TaskStep)
    requires
        lookup.wf(),
    ensures
        step@ == find_instance_step(lookup@, module, imports),
        step.wf(),
{
    match lookup.step() {
        PathStep::Read { object, name } => TaskStep::Ask(
            Task::FindInstance { lookup, module, imports },
            Request::ReadProperty { object, name },
        ),
        PathStep::Found(Value::Object(constructor)) => {
            let mut arguments: Vec<ObjectId> = Vec::new();
            arguments.push(module);
            arguments.push(imports);
            assert(arguments@ =~= seq![module, imports]);
            TaskStep::Ask(Task::Constructing, Request::Construct { constructor, arguments })
        },
        PathStep::Found(Value::Other) | PathStep::Missing => TaskStep::Missing,
    }
}

/// Starts to compile the bytes of a module.
pub fn compile_module(global: ObjectId) -> (step: TaskStep)
    ensures
        step@ == compile_step(global),
        step.wf(),
{
    let mut path: Vec<&'static str> = Vec::new();
    path.push("WebAssembly");
    path.push("Module");
    assert(path@.map_values(|name: &'static str| name@) =~= seq!["WebAssembly"@, "Module"@]);
    find_module(PathLookup::new(global, path))
}

/// Starts to instantiate a compiled module against its imports.
pub fn instantiate_module(global: ObjectId, module: ObjectId, imports: ObjectId) -> (step: TaskStep)
    ensures
        step@ == instantiate_step(global, module, imports),
        step.wf(),
{
    let mut path: Vec<&'static str> = Vec::new();
    path.push("WebAssembly");
    path.push("Instance");
    assert(path@.map_values(|name: &'static str| name@) =~= seq!["WebAssembly"@, "Instance"@]);
    find_instance(PathLookup::new(global, path), module, imports)
}

/// Starts to read an export of an instance.
pub fn instance_export(instance: ObjectId, name: &'static str) -> (step: TaskStep)
    ensures
        step@ == export_step(instance, name@),
        step.wf(),
        step is Ask,
{
    TaskStep::Ask(
        Task::ReadExports { name },
        Request::ReadProperty { object: instance, name: "exports" },
    )
}

// ---------------------------------------------------------------------------------------
// Laws
// ---------------------------------------------------------------------------------------

/// What comes of looking for an object, or of making one.
pub enum Outcome {
    Found(ObjectId),
    /// There is no object.
    Missing,
    /// A request failed.
    Failed,
}

/// What an answer comes to.
pub open spec fn outcome_of(answer: Answer) -> Outcome {
    match answer {
        Answer::Value(Value::Object(object)) => Outcome::Found(object),
        Answer::Value(Value::Other) => Outcome::Missing,
        Answer::Failed => Outcome::Failed,
    }
}

/// An engine that always gives the same answer to the same request.
pub struct Engine {
    pub property: spec_fn(ObjectId, Seq<char>) -> Answer,
    pub source: Answer,
    pub construct: spec_fn(ObjectId, Seq<ObjectId>) -> Answer,
}

impl Engine {
    /// The answer to a request.
    pub open spec fn answer(self, request: RequestView) -> Answer {
        match request {
            RequestView::ReadProperty { object, name } => (self.property)(object, name),
            RequestView::CopyBytes => self.source,
            RequestView::Construct { constructor, arguments } => (self.construct)(
                constructor,
                arguments,
            ),
        }
    }

    /// What comes of reading a property.
    pub open spec fn object_at(self, object: ObjectId, name: Seq<char>) -> Outcome {
        outcome_of((self.property)(object, name))
    }

    /// What comes of running a constructor.
    pub open spec fn constructed(self, constructor: ObjectId, arguments: Seq<ObjectId>) -> Outcome {
        outcome_of((self.construct)(constructor, arguments))
    }

    /// Where a task ends if this engine answers its requests.
    pub open spec fn settled(self, step: TaskStepView) -> Outcome
        decreases
                (match step {
                    TaskStepView::Ask(task, _) => task.patience() + 1,
                    _ => 0,
                }),
        when step matches TaskStepView::Ask(task, _) ==> task.waits_properly()
    {
        match step {
            TaskStepView::Ask(task, request) => self.settled(task.advanced(self.answer(request))),
            TaskStepView::Done(object) => Outcome::Found(object),
            TaskStepView::Missing => Outcome::Missing,
            TaskStepView::Failed => Outcome::Failed,
        }
    }

    /// What comes of looking for a constructor under `WebAssembly` of the global.
    pub open spec fn constructor(self, global: ObjectId, name: Seq<char>) -> Outcome {
        match self.object_at(global, "WebAssembly"@) {
            Outcome::Found(namespace) => self.object_at(namespace, name),
            other => other,
        }
    }

    /// What comes of compiling.
    pub open spec fn compiled(self, global: ObjectId) -> Outcome {
        match self.constructor(global, "Module"@) {
            Outcome::Found(constructor) => match outcome_of(self.source) {
                Outcome::Found(source) => self.constructed(constructor, seq![source]),
                other => other,
            },
            other => other,
        }
    }

    /// What comes of instantiating.
    pub open spec fn instantiated(
        self,
        global: ObjectId,
        module: ObjectId,
        imports: ObjectId,
    ) -> Outcome {
        match self.constructor(global, "Instance"@) {
            Outcome::Found(constructor) => self.constructed(constructor, seq![module, imports]),
            other => other,
        }
    }

    /// What comes of reading an export of an instance.
    pub open spec fn exported(self, instance: ObjectId, name: Seq<char>) -> Outcome {
        match self.object_at(instance, "exports"@) {
            Outcome::Found(exports) => self.object_at(exports, name),
            other => other,
        }
    }
}

/// Every task comes to an end: with each answer it can take fewer.
pub proof fn tasks_come_to_an_end(task: TaskView, answer: Answer)
    requires
        task.waits_properly(),
    ensures
        task.advanced(answer) matches TaskStepView::Ask(next, _) ==> next.waits_properly()
            && next.patience() < task.patience(),
{
}

/// A task fails only on a request that fails, and on every such request. One that finds something
/// missing has had all its requests granted.
pub proof fn only_a_failed_request_fails_a_task(task: TaskView, answer: Answer)
    ensures
        task.advanced(answer) is Failed <==> answer is Failed,
{
}

/// Compiling gives the module that the constructor makes of the bytes. The first step on the way
/// that fails or finds something missing decides.
pub proof fn compiling_runs_the_module_constructor(engine: Engine, global: ObjectId)
    ensures
        engine.settled(compile_step(global)) == engine.compiled(global),
{
    reveal_with_fuel(Engine::settled, 6);
    let path = seq!["WebAssembly"@, "Module"@];
    assert(path.skip(1) =~= seq!["Module"@]);
    assert(path.skip(1).skip(1) =~= Seq::empty());
}

/// Instantiating gives the instance that the constructor makes of the module and the imports.
pub proof fn instantiating_runs_the_instance_constructor(
    engine: Engine,
    global: ObjectId,
    module: ObjectId,
    imports: ObjectId,
)
    ensures
        engine.settled(instantiate_step(global, module, imports)) == engine.instantiated(
            global,
            module,
            imports,
        ),
{
    reveal_with_fuel(Engine::settled, 5);
    let path = seq!["WebAssembly"@, "Instance"@];
    assert(path.skip(1) =~= seq!["Instance"@]);
    assert(path.skip(1).skip(1) =~= Seq::empty());
}

/// Reading an export gives the object that the exports hold under the name.
pub proof fn reading_an_export_goes_through_the_exports(
    engine: Engine,
    instance: ObjectId,
    name: Seq<char>,
)
    ensures
        engine.settled(export_step(instance, name)) == engine.exported(instance, name),
{
    reveal_with_fuel(Engine::settled, 4);
}

/// A request is shown as it is.
pub proof fn a_request_is_shown_as_it_is(request: Request)
    ensures
        match request {
            Request::ReadProperty { object, name } => request@ == RequestView::ReadProperty {
                object,
                name: name@,
            },
            Request::CopyBytes => request@ == RequestView::CopyBytes,
            Request::Construct { constructor, arguments } => request@ == RequestView::Construct {
                constructor,
                arguments: arguments@,
            },
        },
{
}

} // verus!
