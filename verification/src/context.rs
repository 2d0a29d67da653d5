//! The script context: the façade that owns one interpreter's job queue,
//! module loader and `process` global, and sequences extension loading,
//! transpilation dispatch, evaluation and loop draining. The engine itself
//! is a black box on the other side of the host; every decision the shell
//! makes — what runs next, what aborts a load, what is rejected before any
//! work is scheduled — is made and verified here.
use crate::bridge::{coerce_sleep_millis, AsyncOpHandle, PromiseOutcome};
use crate::errors::RuntimeError;
use crate::job_queue::{Job, JobOrigin, JobQueue};
use crate::module_loader::{healthy, wf_records, ModuleLoader};
use crate::process::ProcessGlobal;
use vstd::prelude::*;

verus! {

/// Carries the engine's opaque script values through the shell. Relies on
/// `boa_engine::JsValue` only as an owned value that is stored and moved,
/// never inspected.
#[verifier::external_type_specification]
#[verifier::external_body]
pub struct ExJsValue(boa_engine::JsValue);

/// Where the context stands in its lifecycle. `Evaluating` and `Draining`
/// are the transient stages inside an evaluation or a drain; the context is
/// back at `Idle` when either returns.
#[derive(Debug, Clone, Copy, PartialEq, Eq, Structural)]
pub enum Phase {
    Created,
    ExtensionsLoading,
    Ready,
    Evaluating,
    Draining,
    Idle,
    Terminated,
}

/// A file to preload into the context before user code runs: its path and
/// whether its source must be transpiled first. Consumed once, not retained.
#[derive(Debug)]
pub struct ScriptExtension {
    pub path: String,
    pub transpile: bool,
}

/// What the host observed while processing the pending extension: it
/// evaluated to completion, or the read, the transpilation or the
/// evaluation failed with a diagnostic.
#[derive(Debug)]
pub enum ExtensionOutcome {
    Evaluated,
    ReadFailed(String),
    TranspileFailed(String),
    EvalFailed(String),
}

/// The error an outcome carries, mapped to the shell's error kinds; `None`
/// for a successful evaluation.
pub open spec fn outcome_error(o: ExtensionOutcome) -> Option<RuntimeError> {
    match o {
        ExtensionOutcome::Evaluated => None,
        ExtensionOutcome::ReadFailed(m) => Some(RuntimeError::IoError(m)),
        ExtensionOutcome::TranspileFailed(m) => Some(RuntimeError::TranspileError(m)),
        ExtensionOutcome::EvalFailed(m) => Some(RuntimeError::EvaluationError(m)),
    }
}

/// Sequences one `load_extensions` call: extensions are processed strictly
/// in list order, and the first failure ends the whole call — every later
/// extension stays untouched, and the call reports that first error.
#[derive(Debug)]
pub struct ExtensionLoader {
    pub exts: Vec<ScriptExtension>,
    pub next: usize,
    pub error: Option<RuntimeError>,
}

/// The index of the extension the host must process next, or `None` when
/// the call is over — every extension done, or one of them failed.
pub open spec fn spec_pending(l: ExtensionLoader) -> Option<int> {
    if l.error is Some || l.next >= l.exts@.len() {
        None
    } else {
        Some(l.next as int)
    }
}

/// The loader after one recorded outcome: a success moves on to the next
/// extension, a failure pins the loader on the failing index with the
/// mapped error. A loader that already failed never changes again.
pub open spec fn apply_outcome(l: ExtensionLoader, o: ExtensionOutcome) -> ExtensionLoader {
    if l.error is Some {
        l
    } else {
        match outcome_error(o) {
            None => ExtensionLoader { exts: l.exts, next: (l.next + 1) as usize, error: None },
            Some(e) => ExtensionLoader { exts: l.exts, next: l.next, error: Some(e) },
        }
    }
}

/// The loader after a whole sequence of recorded outcomes, first first.
pub open spec fn run_outcomes(l: ExtensionLoader, os: Seq<ExtensionOutcome>) -> ExtensionLoader
    decreases os.len(),
{
    if os.len() == 0 {
        l
    } else {
        run_outcomes(apply_outcome(l, os[0]), os.subrange(1, os.len() as int))
    }
}

/// A failed loader is inert: no further outcome changes it.
pub proof fn lemma_failure_sticky(l: ExtensionLoader, os: Seq<ExtensionOutcome>)
    requires
        l.error is Some,
    ensures
        run_outcomes(l, os) == l,
    decreases os.len(),
{
    if os.len() > 0 {
        lemma_failure_sticky(l, os.subrange(1, os.len() as int));
    }
}

/// Extension loading is all-or-nothing up to the first failure: if the
/// first `k` outcomes succeed and outcome `k` fails, the whole run stops
/// there — the loader ends pinned on index `k` carrying exactly that
/// error, nothing is pending any more, and no extension after `k` is ever
/// handed out, whatever outcomes would have followed.
pub proof fn lemma_first_failure_is_final(l0: ExtensionLoader, os: Seq<ExtensionOutcome>, k: int)
    requires
        l0.error is None,
        l0.next + os.len() <= usize::MAX,
        0 <= k < os.len(),
        forall|i: int| 0 <= i < k ==> outcome_error(#[trigger] os[i]) is None,
        outcome_error(os[k]) is Some,
    ensures
        run_outcomes(l0, os).error == outcome_error(os[k]),
        run_outcomes(l0, os).next == l0.next + k,
        run_outcomes(l0, os).exts == l0.exts,
        spec_pending(run_outcomes(l0, os)) is None,
    decreases os.len(),
{
    let rest = os.subrange(1, os.len() as int);
    if k == 0 {
        lemma_failure_sticky(apply_outcome(l0, os[0]), rest);
    } else {
        assert(outcome_error(os[0]) is None);
        let l1 = apply_outcome(l0, os[0]);
        assert(forall|i: int| 0 <= i < k - 1 ==> outcome_error(#[trigger] rest[i]) is None);
        assert(rest[k - 1] == os[k]);
        lemma_first_failure_is_final(l1, rest, k - 1);
    }
}

impl ExtensionLoader {
    /// The index of the extension to process next, or `None` when the call
    /// is over.
    pub fn pending(&self) -> (r: Option<usize>)
        ensures
            r is Some <==> spec_pending(*self) is Some,
            r matches Some(i) ==> spec_pending(*self) == Some(i as int) && i == self.next,
    {
        if self.error.is_some() || self.next >= self.exts.len() {
            None
        } else {
            Some(self.next)
        }
    }

    /// Records what happened to the pending extension.
    pub fn record_outcome(&mut self, outcome: ExtensionOutcome)
        requires
            spec_pending(*old(self)) is Some,
        ensures
            *final(self) == apply_outcome(*old(self), outcome),
    {
        match outcome {
            ExtensionOutcome::Evaluated => {
                let n = self.exts.len();
                proof {
                    assert(self.next < n);
                }
                self.next = self.next + 1;
            },
            ExtensionOutcome::ReadFailed(m) => {
                self.error = Some(RuntimeError::IoError(m));
            },
            ExtensionOutcome::TranspileFailed(m) => {
                self.error = Some(RuntimeError::TranspileError(m));
            },
            ExtensionOutcome::EvalFailed(m) => {
                self.error = Some(RuntimeError::EvaluationError(m));
            },
        }
    }

    /// The result of the whole call: `Ok` only if every extension
    /// evaluated, otherwise exactly the first failure.
    pub fn finish(self) -> (r: Result<(), RuntimeError>)
        ensures
            self.error is None ==> r == Ok::<(), RuntimeError>(()),
            self.error matches Some(e) ==> r == Err::<(), RuntimeError>(e),
    {
        match self.error {
            None => Ok(()),
            Some(e) => Err(e),
        }
    }
}

/// One isolated scripting context: the job queue and module loader it owns,
/// the `process` global it was configured with, and where it stands in its
/// lifecycle. The interpreter instance itself lives with the host; every
/// scheduling and sequencing decision is taken here.
pub struct Tanxium {
    pub phase: Phase,
    pub jobs: JobQueue,
    pub modules: ModuleLoader,
    pub process: Option<ProcessGlobal>,
}

impl Tanxium {
    /// A fresh context: empty job queue, empty module cache, no globals
    /// installed yet.
    pub fn new() -> (r: Result<Tanxium, RuntimeError>)
        ensures
            r matches Ok(t) && t.phase == Phase::Created && t.jobs@.len() == 0
                && t.modules.records@.len() == 0 && wf_records(t.modules.records@) && healthy(
                t.modules.records@,
            ) && t.process is None,
    {
        Ok(
            Tanxium {
                phase: Phase::Created,
                jobs: JobQueue::new(),
                modules: ModuleLoader::new(),
                process: None,
            },
        )
    }

    /// Begins loading the given extensions, strictly in list order. The
    /// host drives the returned sequencer: read the pending extension,
    /// transpile it if it asks for that, evaluate it, record the outcome,
    /// and stop as soon as nothing is pending.
    pub fn load_extensions(&mut self, ext: Vec<ScriptExtension>) -> (l: ExtensionLoader)
        requires
            old(self).phase == Phase::Created || old(self).phase == Phase::Ready || old(
                self,
            ).phase == Phase::Idle,
        ensures
            final(self).phase == Phase::ExtensionsLoading,
            final(self).jobs@ == old(self).jobs@,
            final(self).modules == old(self).modules,
            final(self).process == old(self).process,
            l == (ExtensionLoader { exts: ext, next: 0, error: None }),
    {
        self.phase = Phase::ExtensionsLoading;
        ExtensionLoader { exts: ext, next: 0, error: None }
    }

    /// Ends an extension-loading call: the context is ready for user code,
    /// and the call reports `Ok` only if every extension evaluated,
    /// otherwise the first failure.
    pub fn extensions_finished(&mut self, loader: ExtensionLoader) -> (r: Result<
        (),
        RuntimeError,
    >)
        requires
            old(self).phase == Phase::ExtensionsLoading,
            spec_pending(loader) is None,
        ensures
            final(self).phase == Phase::Ready,
            final(self).jobs@ == old(self).jobs@,
            final(self).modules == old(self).modules,
            final(self).process == old(self).process,
            loader.error is None ==> r == Ok::<(), RuntimeError>(()),
            loader.error matches Some(e) ==> r == Err::<(), RuntimeError>(e),
    {
        self.phase = Phase::Ready;
        loader.finish()
    }

    /// Accepts the engine's verdict on an immediate evaluation: the value
    /// it produced, or its diagnostic mapped to an `EvaluationError`. The
    /// job queue is untouched — evaluation never drains implicitly; any
    /// promises the script created wait for `run_event_loop`.
    pub fn eval(&mut self, engine_result: Result<boa_engine::JsValue, String>) -> (r: Result<
        boa_engine::JsValue,
        RuntimeError,
    >)
        requires
            old(self).phase == Phase::Ready || old(self).phase == Phase::Idle,
        ensures
            final(self).phase == Phase::Idle,
            final(self).jobs@ == old(self).jobs@,
            final(self).modules == old(self).modules,
            final(self).process == old(self).process,
            engine_result matches Ok(v) ==> r == Ok::<boa_engine::JsValue, RuntimeError>(v),
            engine_result matches Err(m) ==> r == Err::<boa_engine::JsValue, RuntimeError>(
                RuntimeError::EvaluationError(m),
            ),
    {
        self.phase = Phase::Evaluating;
        self.phase = Phase::Idle;
        match engine_result {
            Ok(v) => Ok(v),
            Err(m) => Err(RuntimeError::EvaluationError(m)),
        }
    }

    /// Accepts the transpiler's verdict on a source text: the produced
    /// script, or its diagnostic mapped to a `TranspileError`. The
    /// transpiler itself is the host's pure `string -> string` collaborator.
    pub fn transpile(&mut self, transpiler_output: Result<String, String>) -> (r: Result<
        String,
        RuntimeError,
    >)
        ensures
            *final(self) == *old(self),
            transpiler_output matches Ok(js) ==> r == Ok::<String, RuntimeError>(js),
            transpiler_output matches Err(d) ==> r == Err::<String, RuntimeError>(
                RuntimeError::TranspileError(d),
            ),
    {
        match transpiler_output {
            Ok(js) => Ok(js),
            Err(d) => Err(RuntimeError::TranspileError(d)),
        }
    }

    /// The script side of the sleep bridge: validates the requested
    /// duration. A value outside `0 ..= u32::MAX` is a `CoercionError`
    /// rejected immediately — the context, and in particular the job
    /// queue, is untouched, so no host timer and no job can exist for it.
    pub fn sleep(&mut self, duration: i64) -> (r: Result<AsyncOpHandle, RuntimeError>)
        ensures
            *final(self) == *old(self),
            (0 <= duration <= 0xffff_ffffi64) <==> r is Ok,
            r matches Ok(h) ==> h.requested_ms == duration,
            r matches Err(e) ==> e is CoercionError,
    {
        match coerce_sleep_millis(duration) {
            Ok(ms) => Ok(AsyncOpHandle { requested_ms: ms }),
            Err(e) => Err(e),
        }
    }

    /// The completion side of the sleep bridge: the host timer elapsed
    /// (measured on a monotonic clock, so never less than what was
    /// requested), and exactly one timer-originated job joins the tail of
    /// the queue to settle the promise with the elapsed time.
    pub fn complete_sleep(&mut self, handle: AsyncOpHandle, elapsed_ms: u64, job_id: u64) -> (out:
        PromiseOutcome<u64>)
        requires
            elapsed_ms >= handle.requested_ms,
        ensures
            final(self).jobs@ == old(self).jobs@.push(
                (Job { id: job_id, origin: JobOrigin::Timer }),
            ),
            final(self).phase == old(self).phase,
            final(self).modules == old(self).modules,
            final(self).process == old(self).process,
            out matches PromiseOutcome::Fulfilled(e) && e == elapsed_ms && e
                >= handle.requested_ms,
    {
        self.jobs.enqueue(Job { id: job_id, origin: JobOrigin::Timer });
        PromiseOutcome::Fulfilled(elapsed_ms)
    }

    /// One drain pass: hands back every job currently pending, in exactly
    /// enqueue order, leaving the queue empty. With nothing pending it
    /// returns at once, empty-handed and without error. The host executes
    /// the jobs and pumps again until no more work appears — the context
    /// never loops on its own.
    pub fn run_event_loop(&mut self) -> (jobs: Vec<Job>)
        requires
            old(self).phase == Phase::Ready || old(self).phase == Phase::Idle,
        ensures
            jobs@ == old(self).jobs@,
            final(self).jobs@.len() == 0,
            final(self).phase == Phase::Idle,
            final(self).modules == old(self).modules,
            final(self).process == old(self).process,
    {
        self.phase = Phase::Draining;
        let jobs = self.jobs.drain();
        self.phase = Phase::Idle;
        jobs
    }

    /// Disposal: the context is terminal and owns no further work.
    pub fn terminate(&mut self)
        ensures
            final(self).phase == Phase::Terminated,
            final(self).jobs@ == old(self).jobs@,
            final(self).modules == old(self).modules,
            final(self).process == old(self).process,
    {
        self.phase = Phase::Terminated;
    }
}

/// Installs the `process` global built from the host application's version
/// numbers and feature flags on this context, atomically and exactly as
/// configured.
pub fn runtime_init(
    t: &mut Tanxium,
    major: u32,
    minor: u32,
    patch: u32,
    ts_supported: bool,
    is_test: bool,
)
    ensures
        final(t).process matches Some(p) && p.version@ == crate::process::version_seq(
            major as int,
            minor as int,
            patch as int,
        ) && p.engine_version@ == crate::process::version_seq(
            major as int,
            minor as int,
            patch as int,
        ) && p.features == (crate::process::ProcessFeatures {
            typescript: ts_supported,
            test: is_test,
        }),
        final(t).phase == old(t).phase,
        final(t).jobs@ == old(t).jobs@,
        final(t).modules == old(t).modules,
{
    let p = crate::process::build_process_global(major, minor, patch, ts_supported, is_test);
    t.process = Some(p);
}

} // verus!
