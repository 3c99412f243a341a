use wasm_dom::error::Error;
use wasm_dom::imports::MemberImport;
use wasm_dom::instantiate::{
    compile_module, instance_export, instantiate_module, Answer, Request, TaskStep, Value,
};
use wasm_dom::registry::InstanceRegistry;
use wasm_dom::script_execution::{
    can_run_script, create_a_classic_script, evaluate_script, fill_compile_options,
    finish_module_script, muted_error_message, plan_classic_script, run_a_classic_script,
    run_a_module_script, ClassicRun, ClassicStart, Compilation, ErrorReporting,
    ExceptionHandling, ModuleEnd, ModuleStart, RethrowErrors, ScriptSettings,
};
use wasm_dom::wasm_script::{
    run_a_wasm_dom_script, script_error, start_wasm_script, ScriptAction, ScriptFailure,
    ScriptStart, ScriptStep,
};

const GLOBAL: u64 = 1;
const NAMESPACE: u64 = 2;
const MODULE_CONSTRUCTOR: u64 = 3;
const INSTANCE_CONSTRUCTOR: u64 = 4;
const SOURCE: u64 = 5;
const MODULE: u64 = 6;
const IMPORTS: u64 = 7;
const INSTANCE: u64 = 8;
const EXPORTS: u64 = 9;
const MEMORY: u64 = 10;
const DISPATCHER: u64 = 11;
const START: u64 = 12;
const OTHER_START: u64 = 13;

const ACTIVE: ScriptSettings = ScriptSettings::Window {
    fully_active: true,
    sandboxing_flags: 0,
};

/// An engine with everything in place, from which things can be taken away.
struct Engine {
    missing: Vec<&'static str>,
    failing: Vec<&'static str>,
    called: Vec<u64>,
}

impl Engine {
    fn new() -> Self {
        Engine {
            missing: Vec::new(),
            failing: Vec::new(),
            called: Vec::new(),
        }
    }

    fn without(names: &[&'static str]) -> Self {
        Engine {
            missing: names.to_vec(),
            ..Engine::new()
        }
    }

    fn failing(names: &[&'static str]) -> Self {
        Engine {
            failing: names.to_vec(),
            ..Engine::new()
        }
    }

    fn give(&self, name: &'static str, object: u64) -> Answer {
        if self.failing.contains(&name) {
            Answer::Failed
        } else if self.missing.contains(&name) {
            Answer::Value(Value::Other)
        } else {
            Answer::Value(Value::Object(object))
        }
    }

    fn answer(&self, request: &Request) -> Answer {
        match request {
            Request::ReadProperty { object, name } => match (*object, *name) {
                (GLOBAL, "WebAssembly") => self.give("WebAssembly", NAMESPACE),
                (NAMESPACE, "Module") => self.give("Module", MODULE_CONSTRUCTOR),
                (NAMESPACE, "Instance") => self.give("Instance", INSTANCE_CONSTRUCTOR),
                (INSTANCE, "exports") => self.give("exports", EXPORTS),
                (EXPORTS, "memory") => self.give("memory", MEMORY),
                (EXPORTS, "_servo_dom_dispatch") => self.give("_servo_dom_dispatch", DISPATCHER),
                (EXPORTS, "_servo_dom_start") => self.give("_servo_dom_start", START),
                (EXPORTS, "_start") => self.give("_start", OTHER_START),
                _ => panic!("an unexpected property is read"),
            },
            Request::CopyBytes => self.give("source", SOURCE),
            Request::Construct {
                constructor,
                arguments,
            } => {
                if *constructor == MODULE_CONSTRUCTOR {
                    assert_eq!(arguments, &vec![SOURCE]);
                    self.give("module", MODULE)
                } else {
                    assert_eq!(*constructor, INSTANCE_CONSTRUCTOR);
                    assert_eq!(arguments, &vec![MODULE, IMPORTS]);
                    self.give("instance", INSTANCE)
                }
            }
        }
    }

    fn settle(&self, mut step: TaskStep) -> TaskStep {
        loop {
            match step {
                TaskStep::Ask(task, request) => step = task.advance(self.answer(&request)),
                ended => return ended,
            }
        }
    }

    fn run(&mut self, registry: &mut InstanceRegistry, members: &[MemberImport]) -> ScriptStep {
        let mut step = start_wasm_script(true, GLOBAL);
        loop {
            match step {
                ScriptStep::Ask(run, action) => {
                    let answer = match action {
                        ScriptAction::Engine(request) => self.answer(&request),
                        ScriptAction::MakeImportObject(plan) => {
                            let index = registry.count() as i32 - 1;
                            assert_eq!(plan.namespaces[0].functions[0].instance, index);
                            self.give("imports", IMPORTS)
                        }
                        ScriptAction::Call(function) => {
                            self.called.push(function);
                            self.give("call", 99)
                        }
                    };
                    step = run.advance(registry, members, 32, answer);
                }
                ended => return ended,
            }
        }
    }
}

fn is_done(step: TaskStep, object: u64) -> bool {
    matches!(step, TaskStep::Done(found) if found == object)
}

fn is_missing(step: TaskStep) -> bool {
    matches!(step, TaskStep::Missing)
}

fn is_failed(step: TaskStep) -> bool {
    matches!(step, TaskStep::Failed)
}

#[test]
fn compiling_goes_through_the_constructor() {
    let compile = || compile_module(GLOBAL);
    assert!(is_done(Engine::new().settle(compile()), MODULE));
    for name in ["WebAssembly", "Module", "source", "module"] {
        assert!(is_missing(Engine::without(&[name]).settle(compile())));
        assert!(is_failed(Engine::failing(&[name]).settle(compile())));
    }
}

#[test]
fn instantiating_goes_through_the_constructor() {
    let instantiate = || instantiate_module(GLOBAL, MODULE, IMPORTS);
    assert!(is_done(Engine::new().settle(instantiate()), INSTANCE));
    for name in ["WebAssembly", "Instance", "instance"] {
        assert!(is_missing(Engine::without(&[name]).settle(instantiate())));
        assert!(is_failed(Engine::failing(&[name]).settle(instantiate())));
    }
}

#[test]
fn exports_are_read_off_the_instance() {
    let export = || instance_export(INSTANCE, "memory");
    assert!(is_done(Engine::new().settle(export()), MEMORY));
    for name in ["exports", "memory"] {
        assert!(is_missing(Engine::without(&[name]).settle(export())));
        assert!(is_failed(Engine::failing(&[name]).settle(export())));
    }
}

#[test]
fn a_script_is_wired_up_and_started() {
    let mut registry = InstanceRegistry::new();
    let mut engine = Engine::new();
    assert!(matches!(engine.run(&mut registry, &[]), ScriptStep::Done));
    assert_eq!(engine.called, vec![START]);
    assert_eq!(registry.count(), 1);
    let instance = registry.registered(0).unwrap();
    assert_eq!(instance.memory(), Some(MEMORY));
    assert_eq!(instance.dispatcher(), Some(DISPATCHER));

    // A second script gets an instance of its own.
    assert!(matches!(engine.run(&mut registry, &[]), ScriptStep::Done));
    assert_eq!(registry.count(), 2);
}

#[test]
fn the_dispatcher_and_the_first_start_function_are_optional() {
    let mut registry = InstanceRegistry::new();
    let mut engine = Engine::without(&["_servo_dom_dispatch", "_servo_dom_start"]);
    assert!(matches!(engine.run(&mut registry, &[]), ScriptStep::Done));
    assert_eq!(engine.called, vec![OTHER_START]);
    assert_eq!(registry.registered(0).unwrap().dispatcher(), None);

    // A read that throws is another matter: the exception is reported.
    for name in ["_servo_dom_dispatch", "_servo_dom_start"] {
        let mut engine = Engine::failing(&[name]);
        assert!(matches!(engine.run(&mut registry, &[]), ScriptStep::Report));
        assert!(engine.called.is_empty());
    }
}

#[test]
fn the_first_failure_ends_a_script() {
    let cases: [(&[&'static str], ScriptFailure, bool, usize); 9] = [
        (&["WebAssembly"], ScriptFailure::NoWebAssembly, true, 0),
        (&["Module"], ScriptFailure::NoWebAssembly, true, 0),
        (&["module"], ScriptFailure::NoWebAssembly, true, 0),
        (&["imports"], ScriptFailure::NoImportObject, false, 1),
        (&["Instance"], ScriptFailure::NoWebAssembly, true, 1),
        (&["instance"], ScriptFailure::NoWebAssembly, true, 1),
        (&["exports"], ScriptFailure::NoMemory, false, 1),
        (&["memory"], ScriptFailure::NoMemory, false, 1),
        (
            &["_servo_dom_start", "_start"],
            ScriptFailure::NoStart,
            true,
            1,
        ),
    ];
    for (names, failure, reports, count) in cases {
        // What is missing is no exception by itself, so one is thrown.
        let mut engine = Engine::without(names);
        let mut registry = InstanceRegistry::new();
        match engine.run(&mut registry, &[]) {
            ScriptStep::Throw(thrown) => assert_eq!(thrown, failure),
            _ => panic!("the script ends in another way"),
        }
        assert!(engine.called.is_empty());
        assert_eq!(registry.count(), count);

        // What fails leaves an exception, which is reported or replaced.
        let mut engine = Engine::failing(names);
        let mut registry = InstanceRegistry::new();
        match engine.run(&mut registry, &[]) {
            ScriptStep::Report => assert!(reports),
            ScriptStep::Throw(thrown) => {
                assert!(!reports);
                assert_eq!(thrown, failure);
            }
            _ => panic!("the script ends in another way"),
        }
        assert!(engine.called.is_empty());
        assert_eq!(registry.count(), count);
    }
}

#[test]
fn a_fallback_that_cannot_be_read_ends_a_script() {
    let mut registry = InstanceRegistry::new();
    let mut engine = Engine {
        missing: vec!["_servo_dom_start"],
        failing: vec!["_start"],
        ..Engine::new()
    };
    assert!(matches!(
        engine.run(&mut registry, &[]),
        ScriptStep::Throw(ScriptFailure::NoStart)
    ));
}

#[test]
fn a_trap_is_reported() {
    let mut registry = InstanceRegistry::new();
    let mut engine = Engine::failing(&["call"]);
    assert!(matches!(engine.run(&mut registry, &[]), ScriptStep::Report));
    assert_eq!(engine.called, vec![START]);
    // A start function that returns nothing has not trapped.
    let mut engine = Engine::without(&["call"]);
    assert!(matches!(engine.run(&mut registry, &[]), ScriptStep::Done));
}

#[test]
fn unnameable_imports_end_a_script() {
    let mut registry = InstanceRegistry::new();
    let mut engine = Engine::new();
    let members = [MemberImport {
        module: "a\0",
        name: "b",
        nargs: 0,
    }];
    assert!(matches!(
        engine.run(&mut registry, &members),
        ScriptStep::Throw(ScriptFailure::NoImportObject)
    ));
    assert_eq!(registry.count(), 1);
}

#[test]
fn a_blocked_script_is_not_compiled() {
    assert!(matches!(
        start_wasm_script(false, GLOBAL),
        ScriptStep::Throw(ScriptFailure::Blocked)
    ));
    assert_eq!(
        script_error(ScriptFailure::Blocked, "https://example.org/a.wasm"),
        Error::Security(Some(
            "wasm-dom: refused to compile https://example.org/a.wasm: blocked by Content Security \
             Policy"
                .to_owned()
        ))
    );
}

#[test]
fn failures_have_their_messages() {
    assert_eq!(
        script_error(ScriptFailure::NoWebAssembly, ""),
        Error::Type(b"wasm-dom: the page provides no usable `WebAssembly`".to_vec())
    );
    assert_eq!(
        script_error(ScriptFailure::NoImportObject, ""),
        Error::Type(b"wasm-dom: could not build the import object".to_vec())
    );
    assert_eq!(
        script_error(ScriptFailure::NoMemory, ""),
        Error::Type(b"wasm-dom: module must export its memory as `memory`".to_vec())
    );
    assert_eq!(
        script_error(ScriptFailure::NoStart, ""),
        Error::Type(b"wasm-dom: module exports neither _servo_dom_start nor _start".to_vec())
    );
}

#[test]
fn scripts_run_where_they_may() {
    assert!(can_run_script(ScriptSettings::Other));
    assert!(can_run_script(ACTIVE));
    for (fully_active, sandboxing_flags, may_run) in [
        (false, 0, false),
        (true, 0x100, false),
        (true, 0x1ff, false),
        (true, 0xff, true),
        (true, 0x3_feff, true),
        (true, 0x3_ffff, false),
        (true, 0xffff_feff, true),
        (true, 0xffff_ffff, false),
        (false, 0x100, false),
    ] {
        let settings = ScriptSettings::Window {
            fully_active,
            sandboxing_flags,
        };
        assert_eq!(can_run_script(settings), may_run);
        assert_eq!(
            run_a_wasm_dom_script(settings) == ScriptStart::AskPolicy,
            may_run
        );
    }
    assert_eq!(
        run_a_wasm_dom_script(ScriptSettings::Other),
        ScriptStart::AskPolicy
    );
}

#[test]
fn errors_are_muted_on_request() {
    assert_eq!(ErrorReporting::from(true), ErrorReporting::Muted);
    assert_eq!(ErrorReporting::from(false), ErrorReporting::Unmuted);
    let options = fill_compile_options(
        "page.js",
        Some("inlineScript"),
        ErrorReporting::Muted,
        false,
        7,
    );
    assert_eq!(options.filename, "page.js");
    assert_eq!(options.introduction_type, Some("inlineScript"));
    assert_eq!(options.line_number, 7);
    assert!(options.muted_errors);
    assert!(options.is_run_once);
    assert!(!options.no_script_rval);
}

#[test]
fn classic_scripts_are_created() {
    let plan = plan_classic_script(true, "a.js", ErrorReporting::Unmuted, None, 1);
    assert!(plan.unminify);
    assert!(plan.options.no_script_rval);
    assert!(!plan.options.muted_errors);
    assert_eq!(plan.options.filename, "a.js");
    assert!(!plan_classic_script(false, "a.js", ErrorReporting::Unmuted, None, 1).unminify);

    let good = create_a_classic_script(
        Compilation::Script(4),
        "a.js".to_owned(),
        "options",
        ErrorReporting::Muted,
    );
    assert_eq!(good.record, Ok(4));
    assert_eq!(good.url, "a.js");
    assert_eq!(good.fetch_options, "options");
    assert_eq!(good.muted_errors, ErrorReporting::Muted);
    let bad = create_a_classic_script(
        Compilation::Failed(5),
        "b.js".to_owned(),
        (),
        ErrorReporting::Unmuted,
    );
    assert_eq!(bad.record, Err(5));

    assert_eq!(
        run_a_classic_script(ACTIVE, &good, RethrowErrors::Yes),
        Some(ClassicRun {
            start: ClassicStart::Evaluate(4),
            rethrow_errors: RethrowErrors::Yes,
            muted_errors: ErrorReporting::Muted,
        })
    );
    let run = run_a_classic_script(ACTIVE, &bad, RethrowErrors::No).expect("it may run");
    assert_eq!(run.start, ClassicStart::Throw(5));
    assert_eq!(run.muted_errors, ErrorReporting::Unmuted);
    // A script that only throws never succeeds.
    assert!(run.finish(false, true).result.is_err());
    assert!(run.finish(true, false).result.is_err());
    let inactive = ScriptSettings::Window {
        fully_active: false,
        sandboxing_flags: 0,
    };
    assert_eq!(
        run_a_classic_script(inactive, &good, RethrowErrors::Yes),
        None
    );
}

#[test]
fn classic_scripts_end_in_one_of_six_ways() {
    let cases = [
        (
            RethrowErrors::Yes,
            ErrorReporting::Unmuted,
            ExceptionHandling::Keep,
            Error::JSFailed,
        ),
        (
            RethrowErrors::Yes,
            ErrorReporting::Muted,
            ExceptionHandling::Clear,
            Error::Network(None),
        ),
        (
            RethrowErrors::No,
            ErrorReporting::Unmuted,
            ExceptionHandling::Report,
            Error::JSFailed,
        ),
        (
            RethrowErrors::No,
            ErrorReporting::Muted,
            ExceptionHandling::ClearAndReport,
            Error::JSFailed,
        ),
    ];
    for (rethrow_errors, muted_errors, handling, error) in cases {
        let run = ClassicRun {
            start: ClassicStart::Evaluate(1),
            rethrow_errors,
            muted_errors,
        };
        for executed in [false, true] {
            let end = run.finish(true, executed);
            assert_eq!(end.handling, handling);
            assert_eq!(end.result, Err(error.clone()));
        }
        let end = run.finish(false, true);
        assert_eq!(end.handling, ExceptionHandling::Nothing);
        assert_eq!(end.result, Ok(()));
        let end = run.finish(false, false);
        assert_eq!(end.handling, ExceptionHandling::Nothing);
        assert_eq!(
            end.result,
            Err(Error::QuotaExceeded {
                quota: None,
                requested: None
            })
        );
    }
    assert_eq!(muted_error_message(), "Script error.");
}

#[test]
fn a_script_is_given_its_private_data_once() {
    let data = evaluate_script(false, "a.js".to_owned(), 9u8).expect("there is none yet");
    assert_eq!(data.url, "a.js");
    assert_eq!(data.fetch_options, 9);
    assert!(evaluate_script(true, "a.js".to_owned(), 9u8).is_none());
}

#[test]
fn module_scripts_run_or_report() {
    let inactive = ScriptSettings::Window {
        fully_active: true,
        sandboxing_flags: 0x100,
    };
    assert_eq!(
        run_a_module_script(inactive, true, Some(1)),
        ModuleStart::DoNotRun
    );
    assert_eq!(
        run_a_module_script(ACTIVE, true, Some(1)),
        ModuleStart::Report
    );
    assert_eq!(
        run_a_module_script(ACTIVE, false, Some(1)),
        ModuleStart::Execute(1)
    );
    assert_eq!(
        run_a_module_script(ACTIVE, false, None),
        ModuleStart::Nothing
    );
    assert_eq!(finish_module_script(None), ModuleEnd::Nothing);
    assert_eq!(finish_module_script(Some(3)), ModuleEnd::KeepAndReport(3));
}
