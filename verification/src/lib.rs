//! A verified runtime shell for an embedded scripting engine: a FIFO job
//! queue that drives promise reactions, a caching module loader that
//! tolerates cyclic imports, a native async bridge for host timers, and the
//! script-context lifecycle that ties them together.
mod bridge;
mod context;
mod errors;
mod job_queue;
mod module_loader;
mod process;

pub use bridge::{
    coerce_sleep_millis, elapsed_seconds_parts, sleep_request_outcome, AsyncOpHandle,
    PromiseOutcome,
};
pub use context::{
    apply_outcome, lemma_failure_sticky, lemma_first_failure_is_final, outcome_error, run_outcomes,
    runtime_init, spec_pending, ExtensionLoader, ExtensionOutcome, Phase, ScriptExtension, Tanxium,
};
pub use errors::RuntimeError;
pub use process::{
    build_process_global, dec_digits, u32_decimal, version_bytes, version_seq, ProcessFeatures,
    ProcessGlobal,
};
pub use job_queue::{enqueue_all, lemma_fifo_order, Job, JobOrigin, JobQueue};
pub use module_loader::{
    all_loaded, count_low, deps_evaluated, deps_linked, healthy, lemma_count_low_update,
    lemma_resolve_identity, monotone, no_errored, no_evaluating, no_linking, rank, resolve_post,
    same_shape, wf_records, ModuleLoader, ModuleRecord, ModuleState,
};
