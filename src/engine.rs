use vstd::prelude::*;

verus! {

/// Engine stack size, in kilobytes: room for a deeply recursive guest.
pub const STACK_SIZE_KB: u32 = 102400;

/// Guest features that must be switched on before the engine starts.
#[derive(Clone, Copy, Debug, PartialEq, Eq, Structural)]
pub enum EngineFeature {
    /// Exception references, used by the guest's calling convention.
    ExceptionRefs,
    /// Strings imported from the host, used to pass text to the guest.
    ImportedStrings,
}

impl EngineFeature {
    /// The engine flag that switches the feature on.
    pub fn flag(&self) -> (s: &'static str)
        ensures
            *self == EngineFeature::ExceptionRefs ==> s@ == "--experimental-wasm-exnref"@,
            *self == EngineFeature::ImportedStrings ==> s@ == "--experimental-wasm-imported-strings"@,
    {
        match self {
            EngineFeature::ExceptionRefs => "--experimental-wasm-exnref",
            EngineFeature::ImportedStrings => "--experimental-wasm-imported-strings",
        }
    }
}

/// The engine-wide settings applied once, before the engine starts.
#[derive(Debug)]
pub struct EngineConfig {
    pub stack_size_kb: u32,
    pub features: Vec<EngineFeature>,
}

pub open spec fn required_features() -> Seq<EngineFeature> {
    seq![EngineFeature::ExceptionRefs, EngineFeature::ImportedStrings]
}

/// Fatal errors of startup, which end the run before any guest code runs.
#[derive(Clone, Copy, Debug, PartialEq, Eq, Structural)]
pub enum StartupError {
    /// The engine was set up once already in this process.
    AlreadyInitialized,
    /// A context was asked for before the engine was set up.
    NotInitialized,
}

/// Process-wide engine state: whether the one-time setup has happened.
///
/// The setup is once per process only where the process holds exactly one
/// `Engine`, created at startup and passed to every bootstrap and context
/// request; the once-only guarantees below are stated of that one value.
pub struct Engine {
    initialized: bool,
}

/// One bootstrap request on an engine whose setup state is `ready`: the state
/// afterwards, and whether the request was accepted.
pub open spec fn spec_initialize(ready: bool) -> (bool, bool) {
    (true, !ready)
}

impl Engine {
    pub closed spec fn ready(&self) -> bool {
        self.initialized
    }

    /// An engine that has not been set up.
    pub fn new() -> (e: Engine)
        ensures
            !e.ready(),
    {
        Engine { initialized: false }
    }

    pub fn is_initialized(&self) -> (b: bool)
        ensures
            b == self.ready(),
    {
        self.initialized
    }
}

/// Performs the one-time engine setup: hands back the settings to apply
/// (stack size, guest features), after which the engine counts as started.
/// A second call is refused with `AlreadyInitialized` and changes nothing.
pub fn initialize_v8(engine: &mut Engine) -> (r: Result<EngineConfig, StartupError>)
    ensures
        (final(engine).ready(), r is Ok) == spec_initialize(old(engine).ready()),
        r is Err ==> r->Err_0 == StartupError::AlreadyInitialized,
        r is Ok ==> r->Ok_0.stack_size_kb == STACK_SIZE_KB,
        r is Ok ==> r->Ok_0.features@ == required_features(),
{
    if engine.initialized {
        return Err(StartupError::AlreadyInitialized);
    }
    engine.initialized = true;
    let mut features: Vec<EngineFeature> = Vec::new();
    features.push(EngineFeature::ExceptionRefs);
    features.push(EngineFeature::ImportedStrings);
    proof {
        assert(features@ =~= required_features());
    }
    Ok(EngineConfig { stack_size_kb: STACK_SIZE_KB, features })
}

/// Bootstrap is accepted on a fresh engine, and whatever the state before,
/// a second bootstrap right after the first is refused.
pub proof fn lemma_bootstrap_once(ready: bool)
    ensures
        spec_initialize(false).1,
        !spec_initialize(spec_initialize(ready).0).1,
        spec_initialize(spec_initialize(ready).0).0,
{
}

} // verus!
