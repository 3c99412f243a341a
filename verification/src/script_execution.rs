//! Whether and how scripts run.

use vstd::prelude::*;
use vstd::std_specs::convert::FromSpecImpl;

use content_security_policy::sandboxing_directive::SandboxingFlagSet;

use crate::error::Error;
use crate::handles::ObjectId;
use crate::servo_wasm_dom::quota_exceeded;

verus! {

// ---------------------------------------------------------------------------------------
// Whether a script may run
// ---------------------------------------------------------------------------------------

/// The global that a script is to run in.
#[derive(Clone, Copy, Debug, Eq, PartialEq, Structural)]
pub enum ScriptSettings {
    Window {
        /// Whether the document of the window is fully active.
        fully_active: bool,
        /// The bits of the active sandboxing flag set of the document.
        sandboxing_flags: u32,
    },
    /// Anything else, such as a worker.
    Other,
}

/// The bit of the sandboxing flag that keeps scripts from running.
pub const SANDBOXED_SCRIPTS_BIT: u32 = 0x100;

/// Asks the content security policy crate whether a set of sandboxing flags, given as bits,
/// contains the flag that keeps scripts from running, with `SandboxingFlagSet::contains`: it does
/// if the bit of `SANDBOXED_SCRIPTS_BROWSING_CONTEXT_FLAG` is set.
#[verifier::external_body]
fn scripts_are_sandboxed(flags: u32) -> (sandboxed: bool)
    ensures
        sandboxed == (flags & SANDBOXED_SCRIPTS_BIT != 0),
{
    SandboxingFlagSet::from_bits_truncate(flags).contains(
        SandboxingFlagSet::SANDBOXED_SCRIPTS_BROWSING_CONTEXT_FLAG,
    )
}

/// Whether a script may run: always outside a window, and in a window if its document is fully
/// active and not sandboxed against scripts.
pub open spec fn may_run_script(settings: ScriptSettings) -> bool {
    match settings {
        ScriptSettings::Window { fully_active, sandboxing_flags } => fully_active
            && sandboxing_flags & SANDBOXED_SCRIPTS_BIT == 0,
        ScriptSettings::Other => true,
    }
}

/// Checks whether a script may run.
pub fn can_run_script(settings: ScriptSettings) -> (may_run: bool)
    ensures
        may_run == may_run_script(settings),
{
    match settings {
        ScriptSettings::Window { fully_active, sandboxing_flags } => {
            fully_active && !scripts_are_sandboxed(sandboxing_flags)
        },
        ScriptSettings::Other => true,
    }
}

// ---------------------------------------------------------------------------------------
// Classic scripts
// ---------------------------------------------------------------------------------------

/// The identity of a compiled script.
pub type ScriptId = u64;

/// Whether the errors of a script are kept from the page.
#[derive(Clone, Copy, Debug, Eq, PartialEq, Structural)]
pub enum ErrorReporting {
    Muted,
    Unmuted,
}

impl From<bool> for ErrorReporting {
    fn from(muted: bool) -> (reporting: Self) {
        if muted {
            ErrorReporting::Muted
        } else {
            ErrorReporting::Unmuted
        }
    }
}

impl FromSpecImpl<bool> for ErrorReporting {
    open spec fn obeys_from_spec() -> bool {
        true
    }

    open spec fn from_spec(muted: bool) -> Self {
        if muted {
            ErrorReporting::Muted
        } else {
            ErrorReporting::Unmuted
        }
    }
}

/// Whether the errors of a script are for the caller to handle.
#[derive(Clone, Copy, Debug, Eq, PartialEq, Structural)]
pub enum RethrowErrors {
    Yes,
    No,
}

/// The options that a script is compiled with.
pub struct CompileOptions {
    pub filename: String,
    pub line_number: u32,
    /// How the script came about, if that is known.
    pub introduction_type: Option<&'static str>,
    pub muted_errors: bool,
    pub is_run_once: bool,
    pub no_script_rval: bool,
}

/// Whether options are those for a script.
pub open spec fn are_options_for(
    options: CompileOptions,
    filename: Seq<char>,
    introduction_type: Option<&'static str>,
    muted_errors: ErrorReporting,
    no_script_rval: bool,
    line_number: u32,
) -> bool {
    &&& options.filename@ == filename
    &&& options.line_number == line_number
    &&& options.introduction_type == introduction_type
    &&& options.muted_errors == (muted_errors == ErrorReporting::Muted)
    &&& options.is_run_once
    &&& options.no_script_rval == no_script_rval
}

/// The options to compile a script with. Every script is compiled to be run once.
pub fn fill_compile_options(
    filename: &str,
    introduction_type: Option<&'static str>,
    muted_errors: ErrorReporting,
    no_script_rval: bool,
    line_number: u32,
) -> (options: CompileOptions)
    ensures
        are_options_for(
            options,
            filename@,
            introduction_type,
            muted_errors,
            no_script_rval,
            line_number,
        ),
{
    let muted_errors = match muted_errors {
        ErrorReporting::Muted => true,
        ErrorReporting::Unmuted => false,
    };
    CompileOptions {
        filename: filename.to_owned(),
        line_number,
        introduction_type,
        muted_errors,
        is_run_once: true,
        no_script_rval,
    }
}

/// A classic script: what became of compiling it, and what is needed to run it.
pub struct ClassicScript<F> {
    /// The compiled script, or the exception to throw when it is run.
    pub record: Result<ScriptId, ObjectId>,
    pub fetch_options: F,
    pub url: String,
    pub muted_errors: ErrorReporting,
}

/// How a classic script is to be compiled.
pub struct ClassicScriptPlan {
    /// Whether the source is to be unminified first.
    pub unminify: bool,
    pub options: CompileOptions,
}

/// What became of compiling a script.
#[derive(Clone, Copy, Debug, Eq, PartialEq, Structural)]
pub enum Compilation {
    Script(ScriptId),
    /// It failed, with this exception.
    Failed(ObjectId),
}

/// Plans how to compile a classic script. The source is unminified where there is a directory to
/// keep unminified sources in, and a script of this kind gives no value.
pub fn plan_classic_script(
    has_unminified_dir: bool,
    url: &str,
    muted_errors: ErrorReporting,
    introduction_type: Option<&'static str>,
    line_number: u32,
) -> (plan: ClassicScriptPlan)
    ensures
        plan.unminify == has_unminified_dir,
        are_options_for(
            plan.options,
            url@,
            introduction_type,
            muted_errors,
            true,
            line_number,
        ),
{
    ClassicScriptPlan {
        unminify: has_unminified_dir,
        options: fill_compile_options(url, introduction_type, muted_errors, true, line_number),
    }
}

/// Creates a classic script from what became of compiling it. One that does not compile is a
/// script too: it throws when it is run.
pub fn create_a_classic_script<F>(
    compiled: Compilation,
    url: String,
    fetch_options: F,
    muted_errors: ErrorReporting,
) -> (script: ClassicScript<F>)
    ensures
        script.record == (match compiled {
            Compilation::Script(script) => Ok::<ScriptId, ObjectId>(script),
            Compilation::Failed(exception) => Err(exception),
        }),
        script.url == url,
        script.fetch_options == fetch_options,
        script.muted_errors == muted_errors,
{
    let record = match compiled {
        Compilation::Script(script) => Ok(script),
        Compilation::Failed(exception) => Err(exception),
    };
    ClassicScript { record, fetch_options, url, muted_errors }
}

/// How a classic script is to be run.
#[derive(Clone, Copy, Debug, Eq, PartialEq, Structural)]
pub enum ClassicStart {
    /// By throwing the exception that it failed to compile with.
    Throw(ObjectId),
    /// By evaluating it.
    Evaluate(ScriptId),
}

/// A classic script that is being run.
#[derive(Clone, Copy, Debug, Eq, PartialEq, Structural)]
pub struct ClassicRun {
    pub start: ClassicStart,
    pub rethrow_errors: RethrowErrors,
    pub muted_errors: ErrorReporting,
}

/// Starts to run a classic script. One that may not run is passed over, which is no error.
pub fn run_a_classic_script<F>(
    settings: ScriptSettings,
    script: &ClassicScript<F>,
    rethrow_errors: RethrowErrors,
) -> (run: Option<ClassicRun>)
    ensures
        run == (if may_run_script(settings) {
            Some(
                ClassicRun {
                    start: match script.record {
                        Ok(compiled) => ClassicStart::Evaluate(compiled),
                        Err(exception) => ClassicStart::Throw(exception),
                    },
                    rethrow_errors,
                    muted_errors: script.muted_errors,
                },
            )
        } else {
            None
        }),
{
    if !can_run_script(settings) {
        return None;
    }
    let start = match &script.record {
        Ok(compiled) => ClassicStart::Evaluate(*compiled),
        Err(exception) => ClassicStart::Throw(*exception),
    };
    Some(ClassicRun { start, rethrow_errors, muted_errors: script.muted_errors })
}

/// What is to be done about the exception that a script left.
#[derive(Clone, Copy, Debug, Eq, PartialEq, Structural)]
pub enum ExceptionHandling {
    /// There is none: a panic that was held back is to go on.
    Nothing,
    /// It stays pending for the caller.
    Keep,
    /// It is cleared.
    Clear,
    /// It is reported as it is.
    Report,
    /// It is cleared, and an error that says nothing of it is reported with a null value.
    ClearAndReport,
}

/// How a classic script ended.
pub struct ClassicEnd {
    pub handling: ExceptionHandling,
    pub result: Result<(), Error>,
}

/// What is to be done about the exception that a script left.
pub open spec fn exception_handling(
    exception_pending: bool,
    rethrow_errors: RethrowErrors,
    muted_errors: ErrorReporting,
) -> ExceptionHandling {
    if !exception_pending {
        ExceptionHandling::Nothing
    } else {
        match (rethrow_errors, muted_errors) {
            (RethrowErrors::Yes, ErrorReporting::Unmuted) => ExceptionHandling::Keep,
            (RethrowErrors::Yes, ErrorReporting::Muted) => ExceptionHandling::Clear,
            (RethrowErrors::No, ErrorReporting::Unmuted) => ExceptionHandling::Report,
            (RethrowErrors::No, ErrorReporting::Muted) => ExceptionHandling::ClearAndReport,
        }
    }
}

/// What the caller of a script is told. A script that ended without an exception and without
/// completing was aborted.
pub open spec fn classic_result(
    exception_pending: bool,
    completed: bool,
    rethrow_errors: RethrowErrors,
    muted_errors: ErrorReporting,
) -> Result<(), Error> {
    if exception_pending {
        if rethrow_errors == RethrowErrors::Yes && muted_errors == ErrorReporting::Muted {
            Err(Error::Network(None))
        } else {
            Err(Error::JSFailed)
        }
    } else if completed {
        Ok(())
    } else {
        Err(quota_exceeded())
    }
}

impl ClassicRun {
    /// Ends the run, given whether an exception is pending and whether the execution completed.
    /// Nothing was executed if the script only threw.
    pub fn finish(self, exception_pending: bool, executed: bool) -> (end: ClassicEnd)
        ensures
            end.handling == exception_handling(
                exception_pending,
                self.rethrow_errors,
                self.muted_errors,
            ),
            end.result == classic_result(
                exception_pending,
                executed && self.start is Evaluate,
                self.rethrow_errors,
                self.muted_errors,
            ),
    {
        if exception_pending {
            return match self.rethrow_errors {
                RethrowErrors::Yes => match self.muted_errors {
                    ErrorReporting::Unmuted => ClassicEnd {
                        handling: ExceptionHandling::Keep,
                        result: Err(Error::JSFailed),
                    },
                    ErrorReporting::Muted => ClassicEnd {
                        handling: ExceptionHandling::Clear,
                        result: Err(Error::Network(None)),
                    },
                },
                RethrowErrors::No => match self.muted_errors {
                    ErrorReporting::Unmuted => ClassicEnd {
                        handling: ExceptionHandling::Report,
                        result: Err(Error::JSFailed),
                    },
                    ErrorReporting::Muted => ClassicEnd {
                        handling: ExceptionHandling::ClearAndReport,
                        result: Err(Error::JSFailed),
                    },
                },
            };
        }
        let completed = match self.start {
            ClassicStart::Evaluate(_) => executed,
            ClassicStart::Throw(_) => false,
        };
        if completed {
            return ClassicEnd { handling: ExceptionHandling::Nothing, result: Ok(()) };
        }
        ClassicEnd {
            handling: ExceptionHandling::Nothing,
            result: Err(Error::QuotaExceeded { quota: None, requested: None }),
        }
    }
}

/// The message that stands in for the errors of a script whose errors are kept from the page.
pub fn muted_error_message() -> (message: String)
    ensures
        message@ == "Script error."@,
{
    "Script error.".to_owned()
}

/// The data that lets a running script import modules.
pub struct ModuleScript<F> {
    pub url: String,
    pub fetch_options: F,
}

/// The data that a compiled script has to be given before it is executed: none if it has some
/// already.
pub fn evaluate_script<F>(has_script_private: bool, url: String, fetch_options: F) -> (data: Option<
    ModuleScript<F>,
>)
    ensures
        data == (if has_script_private {
            None
        } else {
            Some(ModuleScript { url, fetch_options })
        }),
{
    if has_script_private {
        None
    } else {
        Some(ModuleScript { url, fetch_options })
    }
}

// ---------------------------------------------------------------------------------------
// Module scripts
// ---------------------------------------------------------------------------------------

/// How a module script is to be run.
#[derive(Clone, Copy, Debug, Eq, PartialEq, Structural)]
pub enum ModuleStart {
    DoNotRun,
    /// By reporting the error that it failed with earlier.
    Report,
    /// It has no record, and there is nothing to do.
    Nothing,
    /// By executing its record.
    Execute(ObjectId),
}

/// Starts to run a module script.
pub fn run_a_module_script(
    settings: ScriptSettings,
    has_error: bool,
    record: Option<ObjectId>,
) -> (start: ModuleStart)
    ensures
        start == (if !may_run_script(settings) {
            ModuleStart::DoNotRun
        } else if has_error {
            ModuleStart::Report
        } else {
            match record {
                Some(record) => ModuleStart::Execute(record),
                None => ModuleStart::Nothing,
            }
        }),
{
    if !can_run_script(settings) {
        return ModuleStart::DoNotRun;
    }
    if has_error {
        return ModuleStart::Report;
    }
    match record {
        Some(record) => ModuleStart::Execute(record),
        None => ModuleStart::Nothing,
    }
}

/// What is to be done once a module script was executed.
#[derive(Clone, Copy, Debug, Eq, PartialEq, Structural)]
pub enum ModuleEnd {
    Nothing,
    /// The module keeps the exception as its error, and it is reported.
    KeepAndReport(ObjectId),
}

/// Ends the run of a module script, given the exception that it threw, if it did.
pub fn finish_module_script(exception: Option<ObjectId>) -> (end: ModuleEnd)
    ensures
        end == (match exception {
            Some(exception) => ModuleEnd::KeepAndReport(exception),
            None => ModuleEnd::Nothing,
        }),
{
    match exception {
        Some(exception) => ModuleEnd::KeepAndReport(exception),
        None => ModuleEnd::Nothing,
    }
}

// ---------------------------------------------------------------------------------------
// Laws
// ---------------------------------------------------------------------------------------

/// The exception of a script whose errors are muted never gets out: it does not stay pending, it
/// is not reported as it is, and the caller is not told that there is one to rethrow.
pub proof fn muted_errors_never_get_out(
    exception_pending: bool,
    completed: bool,
    rethrow_errors: RethrowErrors,
)
    ensures
        ({
            let handling = exception_handling(
                exception_pending,
                rethrow_errors,
                ErrorReporting::Muted,
            );
            &&& handling != ExceptionHandling::Keep
            &&& handling != ExceptionHandling::Report
            &&& exception_pending && rethrow_errors == RethrowErrors::Yes ==> classic_result(
                exception_pending,
                completed,
                rethrow_errors,
                ErrorReporting::Muted,
            ) == Err::<(), Error>(Error::Network(None))
        }),
{
}

/// An exception is dealt with once: it is left to the caller, or reported, or replaced by an
/// error of the caller. A script succeeds exactly if it completes without one.
pub proof fn exceptions_are_dealt_with(
    exception_pending: bool,
    completed: bool,
    rethrow_errors: RethrowErrors,
    muted_errors: ErrorReporting,
)
    ensures
        exception_handling(exception_pending, rethrow_errors, muted_errors)
            == ExceptionHandling::Nothing <==> !exception_pending,
        exception_pending && rethrow_errors == RethrowErrors::No ==> exception_handling(
            exception_pending,
            rethrow_errors,
            muted_errors,
        ) == ExceptionHandling::Report || exception_handling(
            exception_pending,
            rethrow_errors,
            muted_errors,
        ) == ExceptionHandling::ClearAndReport,
        classic_result(exception_pending, completed, rethrow_errors, muted_errors) is Ok <==> (
        !exception_pending && completed),
{
}

/// A script runs in a window exactly if the document is fully active and the flag of the sandbox
/// against scripts, the ninth one, is not set. Outside a window it always runs.
pub proof fn scripts_run_unless_inactive_or_sandboxed(fully_active: bool, sandboxing_flags: u32)
    ensures
        may_run_script(ScriptSettings::Window { fully_active, sandboxing_flags }) <==> fully_active
            && (sandboxing_flags / 256) % 2 == 0,
        may_run_script(ScriptSettings::Other),
{
    assert(sandboxing_flags & 0x100u32 == 0 <==> (sandboxing_flags / 256u32) % 2u32 == 0)
        by (bit_vector);
}

/// The exception of a script whose errors are not muted is left pending where the caller asks for
/// it, and is reported as it is otherwise; the caller is told of a pending exception either way.
/// That of a script whose errors are muted is cleared; the caller who asks for it gets a network
/// error in its place, and otherwise an error that says nothing of it is reported.
pub proof fn exceptions_go_where_they_belong(completed: bool)
    ensures
        exception_handling(true, RethrowErrors::Yes, ErrorReporting::Unmuted)
            == ExceptionHandling::Keep,
        exception_handling(true, RethrowErrors::No, ErrorReporting::Unmuted)
            == ExceptionHandling::Report,
        exception_handling(true, RethrowErrors::Yes, ErrorReporting::Muted)
            == ExceptionHandling::Clear,
        exception_handling(true, RethrowErrors::No, ErrorReporting::Muted)
            == ExceptionHandling::ClearAndReport,
        classic_result(true, completed, RethrowErrors::Yes, ErrorReporting::Unmuted) == Err::<
            (),
            Error,
        >(Error::JSFailed),
        classic_result(true, completed, RethrowErrors::No, ErrorReporting::Unmuted) == Err::<
            (),
            Error,
        >(Error::JSFailed),
        classic_result(true, completed, RethrowErrors::No, ErrorReporting::Muted) == Err::<
            (),
            Error,
        >(Error::JSFailed),
{
}

/// A script that was aborted, without an exception, is a quota that was exceeded, however its
/// errors are reported.
pub proof fn an_aborted_script_exceeds_its_quota(
    rethrow_errors: RethrowErrors,
    muted_errors: ErrorReporting,
)
    ensures
        classic_result(false, false, rethrow_errors, muted_errors) == Err::<(), Error>(
            Error::QuotaExceeded { quota: None, requested: None },
        ),
        classic_result(false, true, rethrow_errors, muted_errors) == Ok::<(), Error>(()),
{
}

/// A script is compiled under its name and from its line, as what introduced it, with its errors
/// muted exactly if they are to be, to be run once, and for a value only if one is asked for.
pub proof fn a_script_is_compiled_as_what_it_is(
    options: CompileOptions,
    filename: Seq<char>,
    introduction_type: Option<&'static str>,
    muted_errors: ErrorReporting,
    no_script_rval: bool,
    line_number: u32,
)
    requires
        are_options_for(
            options,
            filename,
            introduction_type,
            muted_errors,
            no_script_rval,
            line_number,
        ),
    ensures
        options.filename@ == filename,
        options.line_number == line_number,
        options.introduction_type == introduction_type,
        options.muted_errors <==> muted_errors is Muted,
        options.is_run_once,
        options.no_script_rval == no_script_rval,
{
}

} // verus!
