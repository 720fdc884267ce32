use vstd::prelude::*;

use std::sync::Arc;

use crate::operation::BatchOperation;
use crate::utils::{check_errno, Errno, Metric, MetricError};
use crate::version::{ErrorModelAPIVersion, VersionError};

verus! {

/// A bit-valued result reported by the error model.
#[derive(Debug, Default, Clone, Copy, PartialEq, Eq, Structural)]
pub struct BoolResult {
    pub result_id: u64,
    pub value: bool,
}

/// An integer-valued result reported by the error model.
#[derive(Debug, Default, Clone, Copy, PartialEq, Eq, Structural)]
pub struct U64Result {
    pub result_id: u64,
    pub value: u64,
}

/// The results of one batch, in the order the error model reported them.
#[derive(Debug)]
pub struct BatchResult {
    pub bool_results: Vec<BoolResult>,
    pub u64_results: Vec<U64Result>,
}

impl BatchResult {
    /// A result set with no entries.
    pub fn new() -> (r: Self)
        ensures
            r.bool_results@.len() == 0,
            r.u64_results@.len() == 0,
    {
        BatchResult { bool_results: Vec::new(), u64_results: Vec::new() }
    }

    /// Records a bit-valued result.
    pub fn set_bool_result(&mut self, result_id: u64, value: bool)
        ensures
            final(self).bool_results@ == old(self).bool_results@.push(
                BoolResult { result_id, value },
            ),
            final(self).u64_results@ == old(self).u64_results@,
    {
        self.bool_results.push(BoolResult { result_id, value });
    }

    /// Records an integer-valued result.
    pub fn set_u64_result(&mut self, result_id: u64, value: u64)
        ensures
            final(self).u64_results@ == old(self).u64_results@.push(
                U64Result { result_id, value },
            ),
            final(self).bool_results@ == old(self).bool_results@,
    {
        self.u64_results.push(U64Result { result_id, value });
    }
}

/// Accumulates the results that a plugin pushes back during one batch exchange.
pub struct BatchResultBuilder(pub BatchResult);

impl BatchResultBuilder {
    /// A builder holding no result.
    pub fn new() -> (r: Self)
        ensures
            r.0.bool_results@.len() == 0,
            r.0.u64_results@.len() == 0,
    {
        BatchResultBuilder(BatchResult::new())
    }

    /// Records a bit-valued result pushed by the plugin.
    pub fn set_bool_result(&mut self, result_id: u64, value: bool)
        ensures
            final(self).0.bool_results@ == old(self).0.bool_results@.push(
                BoolResult { result_id, value },
            ),
            final(self).0.u64_results@ == old(self).0.u64_results@,
    {
        self.0.set_bool_result(result_id, value);
    }

    /// Records an integer-valued result pushed by the plugin.
    pub fn set_u64_result(&mut self, result_id: u64, value: u64)
        ensures
            final(self).0.u64_results@ == old(self).0.u64_results@.push(
                U64Result { result_id, value },
            ),
            final(self).0.bool_results@ == old(self).0.bool_results@,
    {
        self.0.set_u64_result(result_id, value);
    }

    /// The accumulated results.
    pub fn finish(self) -> (r: BatchResult)
        ensures
            r.bool_results@ == self.0.bool_results@,
            r.u64_results@ == self.0.u64_results@,
    {
        self.0
    }
}

/// The entry points of an error model plugin.
#[derive(Debug, Clone, Copy, PartialEq, Eq, Structural)]
pub enum PluginCall {
    Init,
    Exit,
    ShotStart,
    ShotEnd,
    HandleOperations,
    DumpSimulatorState,
    GetMetric,
    GetSimulatorMetric,
}

/// A failed call into an error model.
#[derive(Debug, Clone)]
pub enum PluginError {
    /// The entry point returned a nonzero errno.
    CallFailed { call: PluginCall, errno: Errno },
    /// The plugin does not provide this optional entry point.
    Unsupported(PluginCall),
    /// A metric read across the boundary was malformed.
    Metric(MetricError),
    /// A failure described in words by an in-process implementation.
    Other(String),
}

/// Translates the errno returned by entry point `call`.
pub fn errno_result(call: PluginCall, errno: Errno) -> (r: Result<(), PluginError>)
    ensures
        errno == 0 ==> r is Ok,
        errno != 0 ==> (r matches Err(PluginError::CallFailed { call: c, errno: e }) && c == call
            && e == errno),
{
    check_errno(errno, || -> (e: PluginError)
        ensures
            e matches PluginError::CallFailed { call: c, errno: n } && c == call && n == errno,
        { PluginError::CallFailed { call, errno } })
}

/// The entry points that the dynamic loader resolved in a plugin library.
#[derive(Debug, Clone, Copy, PartialEq, Eq, Structural)]
pub struct ResolvedSymbols {
    pub init: bool,
    pub exit: bool,
    pub shot_start: bool,
    pub shot_end: bool,
    pub handle_operations: bool,
    pub dump_simulator_state: bool,
    pub get_metrics: bool,
    pub get_simulator_metrics: bool,
}

/// Why a plugin library was refused at load time.
#[derive(Debug, Clone, Copy, PartialEq, Eq, Structural)]
pub enum LoadError {
    /// The library has no version query entry point.
    MissingVersionQuery,
    /// The reported version is not compatible with the host.
    Version(VersionError),
    /// A mandatory entry point is missing.
    MissingSymbol(PluginCall),
}

/// The outcome of loading a plugin whose version query returned `version_word`
/// (`None` where it has none) and which resolved `symbols`.
pub open spec fn spec_load(version_word: Option<u64>, symbols: ResolvedSymbols) -> Result<
    ErrorModelAPIVersion,
    LoadError,
> {
    match version_word {
        None => Err(LoadError::MissingVersionQuery),
        Some(w) => {
            let v = crate::version::unpacked(w);
            match v.spec_validate() {
                Err(e) => Err(LoadError::Version(e)),
                Ok(_) => if !symbols.init {
                    Err(LoadError::MissingSymbol(PluginCall::Init))
                } else if !symbols.shot_start {
                    Err(LoadError::MissingSymbol(PluginCall::ShotStart))
                } else if !symbols.shot_end {
                    Err(LoadError::MissingSymbol(PluginCall::ShotEnd))
                } else if !symbols.handle_operations {
                    Err(LoadError::MissingSymbol(PluginCall::HandleOperations))
                } else {
                    Ok(v)
                },
            }
        },
    }
}

/// Decides whether a plugin may be bound: the version query must exist and report
/// a compatible version, and the mandatory entry points (init, shot_start,
/// shot_end, handle_operations) must resolve; the optional ones may be missing.
pub fn validate_plugin(version_word: Option<u64>, symbols: ResolvedSymbols) -> (r: Result<
    ErrorModelAPIVersion,
    LoadError,
>)
    ensures
        r == spec_load(version_word, symbols),
{
    let word = match version_word {
        None => return Err(LoadError::MissingVersionQuery),
        Some(w) => w,
    };
    let version = ErrorModelAPIVersion::from(word);
    if let Err(e) = version.validate() {
        return Err(LoadError::Version(e));
    }
    if !symbols.init {
        return Err(LoadError::MissingSymbol(PluginCall::Init));
    }
    if !symbols.shot_start {
        return Err(LoadError::MissingSymbol(PluginCall::ShotStart));
    }
    if !symbols.shot_end {
        return Err(LoadError::MissingSymbol(PluginCall::ShotEnd));
    }
    if !symbols.handle_operations {
        return Err(LoadError::MissingSymbol(PluginCall::HandleOperations));
    }
    Ok(version)
}

/// An error model: a plugin loaded across the ABI, or an implementation in process.
pub trait ErrorModelInterface {
    /// Releases the instance; no other call may follow.
    fn exit(&mut self) -> Result<(), PluginError>;

    /// Prepares a shot, reseeding the error model and its simulator.
    fn shot_start(&mut self, shot_id: u64, error_model_seed: u64, simulator_seed: u64) -> Result<
        (),
        PluginError,
    >;

    /// Ends the current shot.
    fn shot_end(&mut self) -> Result<(), PluginError>;

    /// Asks the simulator to dump its state for `qubits` to the file `file`.
    fn dump_simulator_state(&mut self, file: &str, qubits: &[u64]) -> Result<(), PluginError>;

    /// Executes one batch and reports the results of its measurements.
    fn handle_operations(&mut self, operations: BatchOperation) -> Result<BatchResult, PluginError>;

    /// The `nth_metric`-th metric of the error model, if there is one.
    fn get_metric(&mut self, nth_metric: u8) -> Result<Option<Metric>, PluginError>;

    /// The `nth_metric`-th metric of the simulator, if there is one.
    fn get_simulator_metric(&mut self, nth_metric: u8) -> Result<Option<Metric>, PluginError>;
}

/// Holds the factory that a plugin's exported entry points create instances with.
pub struct Helper<F> {
    factory: Arc<F>,
}

impl<F> Helper<F> {
    pub fn new(factory: Arc<F>) -> (r: Self)
        ensures
            r.spec_factory() == factory,
    {
        Helper { factory }
    }

    pub closed spec fn spec_factory(&self) -> Arc<F> {
        self.factory
    }

    /// The factory this helper holds.
    pub fn factory(&self) -> (r: &Arc<F>)
        ensures
            *r == self.spec_factory(),
    {
        &self.factory
    }
}

} // verus!
