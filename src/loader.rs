use vstd::prelude::*;
use crate::engine::{Engine, EngineConfig, StartupError, initialize_v8, spec_initialize, required_features, STACK_SIZE_KB};
use crate::table::{DescriptorTable, initial_slots};

verus! {

/// The name of the global through which the guest sees its arguments.
pub const ARGV_GLOBAL: &'static str = "process_argv";

/// The script name under which the loader is compiled, for diagnostics.
pub const SCRIPT_NAME: &'static str = "moonc";

/// At most this many stack frames are kept of an uncaught guest error.
pub const STACK_FRAME_LIMIT: usize = 10;

/// An uncaught error raised while the guest ran.
#[derive(Debug)]
pub struct GuestError {
    pub message: String,
    pub frames: Vec<String>,
}

/// The single outcome of a run.
#[derive(Debug)]
pub enum RunOutcome {
    Success,
    /// The loader script itself did not compile: a broken build, not a guest fault.
    CompileFailed,
    GuestFailed(GuestError),
}

/// Where a run stands.
#[derive(Clone, Copy, Debug, PartialEq, Eq, Structural)]
pub enum RunPhase {
    Created,
    Compiling,
    Running,
    Finished,
}

/// What the host reports back to the run after doing the last action.
#[derive(Debug)]
pub enum LoaderEvent {
    Start,
    CompileSucceeded,
    CompileFailed,
    EntryReturned,
    EntryThrew(GuestError),
}

/// What the host is to do next.
#[derive(Debug)]
pub enum LoaderAction {
    /// Compile the loader script under `SCRIPT_NAME`.
    CompileScript,
    /// Run the compiled script, which invokes the guest's entry point.
    InvokeEntry,
    /// The run is over, with this outcome.
    Report(RunOutcome),
    /// Nothing to do: the event does not fit the phase.
    Idle,
}

pub open spec fn spec_next_phase(p: RunPhase, e: LoaderEvent) -> RunPhase {
    match (p, e) {
        (RunPhase::Created, LoaderEvent::Start) => RunPhase::Compiling,
        (RunPhase::Compiling, LoaderEvent::CompileSucceeded) => RunPhase::Running,
        (RunPhase::Compiling, LoaderEvent::CompileFailed) => RunPhase::Finished,
        (RunPhase::Running, LoaderEvent::EntryReturned) => RunPhase::Finished,
        (RunPhase::Running, LoaderEvent::EntryThrew(_)) => RunPhase::Finished,
        _ => p,
    }
}

/// The step from `p` on `e` invokes the guest's entry point.
pub open spec fn invokes_entry(p: RunPhase, e: LoaderEvent) -> bool {
    p == RunPhase::Compiling && e is CompileSucceeded
}

/// The step from `p` on `e` reports the run's outcome.
pub open spec fn reports(p: RunPhase, e: LoaderEvent) -> bool {
    spec_next_phase(p, e) == RunPhase::Finished && p != RunPhase::Finished
}

/// The frames kept of an uncaught guest error.
pub open spec fn kept_frames(frames: Seq<String>) -> Seq<String> {
    if frames.len() <= STACK_FRAME_LIMIT {
        frames
    } else {
        frames.take(STACK_FRAME_LIMIT as int)
    }
}

/// One isolated run: its descriptor table, its arguments, and where its
/// loader stands.
pub struct ExecutionContext {
    table: DescriptorTable,
    argv: Vec<String>,
    phase: RunPhase,
}

impl ExecutionContext {
    pub closed spec fn spec_table(&self) -> DescriptorTable {
        self.table
    }

    pub closed spec fn spec_argv(&self) -> Seq<String> {
        self.argv@
    }

    pub closed spec fn spec_phase(&self) -> RunPhase {
        self.phase
    }

    /// The run's descriptor table.
    pub fn table(&self) -> (t: &DescriptorTable)
        ensures
            *t == self.spec_table(),
    {
        &self.table
    }

    /// The run's descriptor table, for the bridge operations; the arguments
    /// and the loader's phase stay as they are.
    pub fn table_mut(&mut self) -> (t: &mut DescriptorTable)
        ensures
            *t == old(self).spec_table(),
            final(self).spec_table() == *final(t),
            final(self).spec_argv() == old(self).spec_argv(),
            final(self).spec_phase() == old(self).spec_phase(),
    {
        &mut self.table
    }

    /// The arguments the guest sees, as delivered.
    pub fn argv(&self) -> (a: &Vec<String>)
        ensures
            a@ == self.spec_argv(),
    {
        &self.argv
    }

    pub fn phase(&self) -> (p: RunPhase)
        ensures
            p == self.spec_phase(),
    {
        self.phase
    }

    /// Takes the report of the last action and says what to do next. The
    /// entry point is invoked only after the script compiled, and the outcome
    /// is reported once, when the run finishes.
    pub fn advance(&mut self, event: LoaderEvent) -> (a: LoaderAction)
        ensures
            final(self).spec_table() == old(self).spec_table(),
            final(self).spec_argv() == old(self).spec_argv(),
            final(self).spec_phase() == spec_next_phase(old(self).spec_phase(), event),
            a is CompileScript <==> old(self).spec_phase() == RunPhase::Created && event is Start,
            a is InvokeEntry <==> invokes_entry(old(self).spec_phase(), event),
            a is Report <==> reports(old(self).spec_phase(), event),
            a is Report && event is EntryReturned ==> a->Report_0 is Success,
            a is Report && event is CompileFailed ==> a->Report_0 is CompileFailed,
            a is Report && event is EntryThrew ==> a->Report_0 is GuestFailed
                && a->Report_0->GuestFailed_0.message@ == event->EntryThrew_0.message@
                && a->Report_0->GuestFailed_0.frames@ == kept_frames(event->EntryThrew_0.frames@),
    {
        match (self.phase, event) {
            (RunPhase::Created, LoaderEvent::Start) => {
                self.phase = RunPhase::Compiling;
                LoaderAction::CompileScript
            },
            (RunPhase::Compiling, LoaderEvent::CompileSucceeded) => {
                self.phase = RunPhase::Running;
                LoaderAction::InvokeEntry
            },
            (RunPhase::Compiling, LoaderEvent::CompileFailed) => {
                self.phase = RunPhase::Finished;
                LoaderAction::Report(RunOutcome::CompileFailed)
            },
            (RunPhase::Running, LoaderEvent::EntryReturned) => {
                self.phase = RunPhase::Finished;
                LoaderAction::Report(RunOutcome::Success)
            },
            (RunPhase::Running, LoaderEvent::EntryThrew(err)) => {
                self.phase = RunPhase::Finished;
                let GuestError { message, mut frames } = err;
                frames.truncate(STACK_FRAME_LIMIT);
                LoaderAction::Report(RunOutcome::GuestFailed(GuestError { message, frames }))
            },
            _ => LoaderAction::Idle,
        }
    }
}

/// Creates the context of one run: a fresh descriptor table holding only the
/// standard streams, the arguments as given, and a loader that has not
/// started. Refused with `NotInitialized` before the engine is set up.
pub fn run_wasmoo(engine: &Engine, argv: Vec<String>) -> (r: Result<ExecutionContext, StartupError>)
    ensures
        r is Ok <==> engine.ready(),
        r is Err ==> r->Err_0 == StartupError::NotInitialized,
        r is Ok ==> r->Ok_0.spec_table()@ == initial_slots() && r->Ok_0.spec_table().wf(),
        r is Ok ==> r->Ok_0.spec_argv() == argv@,
        r is Ok ==> r->Ok_0.spec_phase() == RunPhase::Created,
{
    if !engine.is_initialized() {
        return Err(StartupError::NotInitialized);
    }
    Ok(ExecutionContext { table: DescriptorTable::new(), argv, phase: RunPhase::Created })
}

/// A started engine and the context of its first run.
pub struct Launch {
    pub config: EngineConfig,
    pub context: ExecutionContext,
}

/// Sets the engine up and creates the context of a run with `argv`. Refused
/// with `AlreadyInitialized` where the engine was set up before.
pub fn run_moonc(engine: &mut Engine, argv: Vec<String>) -> (r: Result<Launch, StartupError>)
    ensures
        (final(engine).ready(), r is Ok) == spec_initialize(old(engine).ready()),
        r is Err ==> r->Err_0 == StartupError::AlreadyInitialized,
        r is Ok ==> r->Ok_0.config.stack_size_kb == STACK_SIZE_KB,
        r is Ok ==> r->Ok_0.config.features@ == required_features(),
        r is Ok ==> r->Ok_0.context.spec_table()@ == initial_slots() && r->Ok_0.context.spec_table().wf(),
        r is Ok ==> r->Ok_0.context.spec_argv() == argv@,
        r is Ok ==> r->Ok_0.context.spec_phase() == RunPhase::Created,
{
    let config = match initialize_v8(engine) {
        Ok(c) => c,
        Err(e) => return Err(e),
    };
    match run_wasmoo(engine, argv) {
        Ok(context) => Ok(Launch { config, context }),
        Err(e) => Err(e),
    }
}

/// How many times a run starting in `p` invokes the entry point over `evs`.
pub open spec fn entry_invocations(p: RunPhase, evs: Seq<LoaderEvent>) -> nat
    decreases evs.len(),
{
    if evs.len() == 0 {
        0
    } else {
        (if invokes_entry(p, evs[0]) { 1nat } else { 0nat })
            + entry_invocations(spec_next_phase(p, evs[0]), evs.subrange(1, evs.len() as int))
    }
}

/// How many outcomes a run starting in `p` reports over `evs`.
pub open spec fn outcome_reports(p: RunPhase, evs: Seq<LoaderEvent>) -> nat
    decreases evs.len(),
{
    if evs.len() == 0 {
        0
    } else {
        (if reports(p, evs[0]) { 1nat } else { 0nat })
            + outcome_reports(spec_next_phase(p, evs[0]), evs.subrange(1, evs.len() as int))
    }
}

/// The phase after a run starting in `p` has taken every event of `evs`.
pub open spec fn phase_after(p: RunPhase, evs: Seq<LoaderEvent>) -> RunPhase
    decreases evs.len(),
{
    if evs.len() == 0 {
        p
    } else {
        phase_after(spec_next_phase(p, evs[0]), evs.subrange(1, evs.len() as int))
    }
}

/// The rank of a phase: a step never lowers it.
pub open spec fn phase_rank(p: RunPhase) -> nat {
    match p {
        RunPhase::Created => 0,
        RunPhase::Compiling => 1,
        RunPhase::Running => 2,
        RunPhase::Finished => 3,
    }
}

proof fn lemma_counts_from(p: RunPhase, evs: Seq<LoaderEvent>)
    ensures
        entry_invocations(p, evs) <= (if phase_rank(p) <= 1 { 1nat } else { 0nat }),
        outcome_reports(p, evs) <= (if p == RunPhase::Finished { 0nat } else { 1nat }),
        outcome_reports(p, evs) == 1 <==> (p != RunPhase::Finished && phase_after(p, evs) == RunPhase::Finished),
        phase_rank(phase_after(p, evs)) >= phase_rank(p),
    decreases evs.len(),
{
    if evs.len() > 0 {
        lemma_counts_from(spec_next_phase(p, evs[0]), evs.subrange(1, evs.len() as int));
    }
}

/// Whatever the host reports, in whatever order, a run from a new context
/// invokes the guest's entry point at most once and reports at most one
/// outcome; it reports exactly one when it finishes, and never leaves the
/// finished phase.
pub proof fn lemma_single_invocation(evs: Seq<LoaderEvent>)
    ensures
        entry_invocations(RunPhase::Created, evs) <= 1,
        outcome_reports(RunPhase::Created, evs) <= 1,
        outcome_reports(RunPhase::Created, evs) == 1 <==> phase_after(RunPhase::Created, evs) == RunPhase::Finished,
        forall|more: Seq<LoaderEvent>| entry_invocations(RunPhase::Finished, more) == 0 && outcome_reports(RunPhase::Finished, more) == 0,
{
    lemma_counts_from(RunPhase::Created, evs);
    assert forall|more: Seq<LoaderEvent>| entry_invocations(RunPhase::Finished, more) == 0 && outcome_reports(RunPhase::Finished, more) == 0 by {
        lemma_counts_from(RunPhase::Finished, more);
    }
}

} // verus!
