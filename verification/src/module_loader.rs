//! The module loader: resolves import specifiers to cached module records,
//! detects cycles, and drives the link/evaluate pipeline. A record is keyed
//! by its canonicalized specifier; for one specifier at most one record ever
//! exists per loader, failures are terminal per record, and a cyclic import
//! resolves to the same in-progress record instead of recursing forever.
use crate::errors::RuntimeError;
use vstd::prelude::*;

verus! {

/// The lifecycle of one module record. A record only ever moves forward:
/// `Unlinked -> Linking -> Linked -> Evaluating -> Evaluated`, or into the
/// terminal `Errored` from any stage.
#[derive(Debug, Clone, Copy, PartialEq, Eq, Structural)]
pub enum ModuleState {
    Unlinked,
    Linking,
    Linked,
    Evaluating,
    Evaluated,
    Errored,
}

/// Position of a state along the pipeline; states never move to a lower
/// rank, and `Errored` is ranked above all so that it is terminal.
pub open spec fn rank(st: ModuleState) -> int {
    match st {
        ModuleState::Unlinked => 0,
        ModuleState::Linking => 1,
        ModuleState::Linked => 2,
        ModuleState::Evaluating => 3,
        ModuleState::Evaluated => 4,
        ModuleState::Errored => 5,
    }
}

/// The loader's cached representation of one resolved module: its canonical
/// specifier (the cache key), its pipeline state, the ids of the modules it
/// imports, and whether its source has been handed in by the host.
pub struct ModuleRecord {
    pub specifier: String,
    pub state: ModuleState,
    pub deps: Vec<usize>,
    pub loaded: bool,
}

/// Resolution cache and pipeline driver. Record ids are indices into
/// `records` and are stable for the lifetime of the loader.
pub struct ModuleLoader {
    pub records: Vec<ModuleRecord>,
}

/// Well-formedness: specifiers identify records uniquely, and every
/// dependency id points at a record of this loader.
pub open spec fn wf_records(s: Seq<ModuleRecord>) -> bool {
    &&& forall|i: int, j: int|
        0 <= i < s.len() && 0 <= j < s.len() && i != j ==> (#[trigger] s[i].specifier@)
            != (#[trigger] s[j].specifier@)
    &&& forall|i: int, k: int|
        0 <= i < s.len() && 0 <= k < s[i].deps@.len() ==> (#[trigger] s[i].deps@[k]) < s.len()
}

/// Identity of everything but the pipeline state: linking and evaluating
/// never add or drop records, never touch a specifier, a dependency list or
/// a loaded flag.
pub open spec fn same_shape(a: Seq<ModuleRecord>, b: Seq<ModuleRecord>) -> bool {
    &&& a.len() == b.len()
    &&& forall|j: int|
        0 <= j < a.len() ==> (#[trigger] b[j]).specifier == a[j].specifier && b[j].deps == a[j].deps
            && b[j].loaded == a[j].loaded
}

/// States only ever move forward along the pipeline.
pub open spec fn monotone(a: Seq<ModuleRecord>, b: Seq<ModuleRecord>) -> bool {
    &&& a.len() == b.len()
    &&& forall|j: int| 0 <= j < a.len() ==> rank((#[trigger] b[j]).state) >= rank(a[j].state)
}

pub open spec fn no_linking(s: Seq<ModuleRecord>) -> bool {
    forall|j: int| 0 <= j < s.len() ==> (#[trigger] s[j]).state != ModuleState::Linking
}

pub open spec fn no_evaluating(s: Seq<ModuleRecord>) -> bool {
    forall|j: int| 0 <= j < s.len() ==> (#[trigger] s[j]).state != ModuleState::Evaluating
}

pub open spec fn no_errored(s: Seq<ModuleRecord>) -> bool {
    forall|j: int| 0 <= j < s.len() ==> (#[trigger] s[j]).state != ModuleState::Errored
}

pub open spec fn all_loaded(s: Seq<ModuleRecord>) -> bool {
    forall|j: int| 0 <= j < s.len() ==> (#[trigger] s[j]).loaded
}

/// Every dependency of a record that reached `Linked` (or further, short of
/// an error) has itself entered the pipeline: linking visits dependencies
/// before marking the dependent linked, except that a cyclic reference may
/// still be in progress.
pub open spec fn deps_linked(s: Seq<ModuleRecord>) -> bool {
    forall|j: int, k: int|
        0 <= j < s.len() && 2 <= rank(s[j].state) <= 4 && 0 <= k < s[j].deps@.len() ==> rank(
            s[(#[trigger] s[j].deps@[k]) as int].state,
        ) >= 1
}

/// Every dependency of an `Evaluated` record has at least started
/// evaluating: dependencies run before the dependent module's own top-level
/// code, except across a cycle.
pub open spec fn deps_evaluated(s: Seq<ModuleRecord>) -> bool {
    forall|j: int, k: int|
        0 <= j < s.len() && s[j].state == ModuleState::Evaluated && 0 <= k < s[j].deps@.len()
            ==> rank(s[(#[trigger] s[j].deps@[k]) as int].state) >= 3
}

/// A loader at rest between pipeline calls with no failed record: nothing is
/// mid-link or mid-evaluation, and the two dependency orderings above hold.
pub open spec fn healthy(s: Seq<ModuleRecord>) -> bool {
    no_linking(s) && no_evaluating(s) && no_errored(s) && deps_linked(s) && deps_evaluated(s)
}

/// How many records still sit below pipeline rank `r`: the termination
/// measure of the recursive pipeline walks.
pub open spec fn count_low(s: Seq<ModuleRecord>, r: int) -> nat
    decreases s.len(),
{
    if s.len() == 0 {
        0
    } else {
        count_low(s.drop_last(), r) + if rank(s.last().state) < r {
            1nat
        } else {
            0nat
        }
    }
}

/// Replacing one record changes the measure exactly by what that record
/// contributes before and after.
pub proof fn lemma_count_low_update(s: Seq<ModuleRecord>, i: int, rec: ModuleRecord, r: int)
    requires
        0 <= i < s.len(),
    ensures
        count_low(s.update(i, rec), r) as int == count_low(s, r) as int - (if rank(s[i].state) < r {
            1int
        } else {
            0int
        }) + (if rank(rec.state) < r {
            1int
        } else {
            0int
        }),
    decreases s.len(),
{
    let t = s.update(i, rec);
    if i == s.len() - 1 {
        assert(t.drop_last() =~= s.drop_last());
    } else {
        assert(t.drop_last() =~= s.drop_last().update(i, rec));
        lemma_count_low_update(s.drop_last(), i, rec, r);
    }
}

/// What `ModuleLoader::resolve` promises, written over the loader values
/// before (`pre`) and after (`post`) the call: a cache hit returns the
/// existing record's id and changes nothing; a miss appends one fresh
/// `Unlinked` record and returns its id.
pub open spec fn resolve_post(
    pre: ModuleLoader,
    specifier: Seq<char>,
    post: ModuleLoader,
    id: int,
) -> bool {
    &&& 0 <= id < post.records@.len()
    &&& post.records@[id].specifier@ == specifier
    &&& if pre.has_module(specifier) {
        post == pre
    } else {
        &&& id == pre.records@.len()
        &&& post.records@.len() == pre.records@.len() + 1
        &&& forall|j: int| 0 <= j < pre.records@.len() ==> post.records@[j] == pre.records@[j]
        &&& post.records@[id].state == ModuleState::Unlinked
        &&& post.records@[id].deps@.len() == 0
        &&& !post.records@[id].loaded
    }
}

impl ModuleLoader {
    /// A loader with an empty cache.
    pub fn new() -> (l: ModuleLoader)
        ensures
            l.records@.len() == 0,
            wf_records(l.records@),
            healthy(l.records@),
    {
        ModuleLoader { records: Vec::new() }
    }

    /// There is a cached record for this canonical specifier.
    pub open spec fn has_module(self, specifier: Seq<char>) -> bool {
        exists|i: int|
            0 <= i < self.records@.len() && (#[trigger] self.records@[i]).specifier@ == specifier
    }

    pub fn module_count(&self) -> (n: usize)
        ensures
            n == self.records@.len(),
    {
        self.records.len()
    }

    pub fn state_of(&self, id: usize) -> (st: ModuleState)
        requires
            id < self.records@.len(),
        ensures
            st == self.records@[id as int].state,
    {
        self.records[id].state
    }

    /// Maps a canonical specifier to a record id. A specifier already in the
    /// cache yields the identical record — same id, loader untouched, source
    /// neither re-read nor re-linked; otherwise one fresh `Unlinked`,
    /// unloaded record is created. `referrer` is the importing record, if
    /// any; identity is by canonical specifier alone.
    #[allow(unused_variables)]
    #[verifier::loop_isolation(false)]
    pub fn resolve(&mut self, specifier: String, referrer: Option<usize>) -> (id: usize)
        requires
            wf_records(old(self).records@),
        ensures
            wf_records(final(self).records@),
            resolve_post(*old(self), specifier@, *final(self), id as int),
            healthy(old(self).records@) ==> healthy(final(self).records@),
    {
        let n = self.records.len();
        let mut i: usize = 0;
        while i < n
            invariant
                n == self.records@.len(),
                i <= n,
                forall|j: int| 0 <= j < i ==> (#[trigger] self.records@[j]).specifier@ != specifier@,
            decreases n - i,
        {
            if self.records[i].specifier == specifier {
                return i;
            }
            i += 1;
        }
        let rec = ModuleRecord {
            specifier,
            state: ModuleState::Unlinked,
            deps: Vec::new(),
            loaded: false,
        };
        self.records.push(rec);
        proof {
            assert(!old(self).has_module(specifier@));
            assert forall|j: int| 0 <= j < old(self).records@.len() implies self.records@[j] == old(self).records@[j] by {
                assert(self.records@[j] == old(self).records@.push(rec)[j]);
            }
            assert(healthy(old(self).records@) ==> healthy(self.records@)) by {
                if healthy(old(self).records@) {
                    assert forall|j: int, k: int|
                        0 <= j < self.records@.len() && 2 <= rank(
                            self.records@[j].state,
                        ) <= 4 && 0 <= k < self.records@[j].deps@.len() implies rank(
                        self.records@[(self.records@[j].deps@[k]) as int].state,
                    ) >= 1 by {
                        assert(j < old(self).records@.len());
                        assert(self.records@[j] == old(self).records@[j]);
                    }
                    assert forall|j: int, k: int|
                        0 <= j < self.records@.len() && self.records@[j].state
                            == ModuleState::Evaluated && 0 <= k
                            < self.records@[j].deps@.len() implies rank(
                        self.records@[(self.records@[j].deps@[k]) as int].state,
                    ) >= 3 by {
                        assert(j < old(self).records@.len());
                        assert(self.records@[j] == old(self).records@[j]);
                    }
                }
            }
        }
        n
    }

    /// The host has read and parsed the module's source: record which
    /// modules it imports (already resolved to ids) and mark it loaded. Only
    /// an `Unlinked` record can take a source.
    pub fn set_loaded(&mut self, id: usize, deps: Vec<usize>)
        requires
            wf_records(old(self).records@),
            id < old(self).records@.len(),
            old(self).records@[id as int].state == ModuleState::Unlinked,
            forall|k: int| 0 <= k < deps@.len() ==> (#[trigger] deps@[k]) < old(self).records@.len(),
        ensures
            wf_records(final(self).records@),
            final(self).records@ == old(self).records@.update(
                id as int,
                (ModuleRecord {
                    specifier: old(self).records@[id as int].specifier,
                    state: ModuleState::Unlinked,
                    deps,
                    loaded: true,
                }),
            ),
            healthy(old(self).records@) ==> healthy(final(self).records@),
    {
        self.records[id].deps = deps;
        self.records[id].loaded = true;
        proof {
            assert(self.records@ =~= old(self).records@.update(
                id as int,
                (ModuleRecord {
                    specifier: old(self).records@[id as int].specifier,
                    state: ModuleState::Unlinked,
                    deps,
                    loaded: true,
                }),
            ));
        }
    }

    /// A read, parse, link or evaluation failure reported for this record:
    /// it moves to the terminal `Errored` state and stays there; no
    /// re-attempt is ever made for this id within this loader.
    pub fn mark_errored(&mut self, id: usize)
        requires
            wf_records(old(self).records@),
            id < old(self).records@.len(),
        ensures
            wf_records(final(self).records@),
            final(self).records@ == old(self).records@.update(
                id as int,
                (ModuleRecord {
                    specifier: old(self).records@[id as int].specifier,
                    state: ModuleState::Errored,
                    deps: old(self).records@[id as int].deps,
                    loaded: old(self).records@[id as int].loaded,
                }),
            ),
            same_shape(old(self).records@, final(self).records@),
            monotone(old(self).records@, final(self).records@),
    {
        self.records[id].state = ModuleState::Errored;
        proof {
            assert(self.records@ =~= old(self).records@.update(
                id as int,
                (ModuleRecord {
                    specifier: old(self).records@[id as int].specifier,
                    state: ModuleState::Errored,
                    deps: old(self).records@[id as int].deps,
                    loaded: old(self).records@[id as int].loaded,
                }),
            ));
        }
    }
}

/// Dependency `m` of record `id` has at least started evaluating.
pub open spec fn dep_settled(s: Seq<ModuleRecord>, id: int, m: int) -> bool {
    s[(s[id].deps@[m]) as int].state == ModuleState::Evaluating || s[(s[id].deps@[m]) as int].state
        == ModuleState::Evaluated
}

/// Chains shape identity and forward movement across two pipeline steps.
proof fn lemma_shape_chain(a: Seq<ModuleRecord>, b: Seq<ModuleRecord>, c: Seq<ModuleRecord>)
    requires
        same_shape(a, b),
        same_shape(b, c),
        monotone(a, b),
        monotone(b, c),
    ensures
        same_shape(a, c),
        monotone(a, c),
{
    assert forall|j: int| 0 <= j < a.len() implies (#[trigger] c[j]).specifier == a[j].specifier
        && c[j].deps == a[j].deps && c[j].loaded == a[j].loaded && rank(c[j].state) >= rank(
        a[j].state,
    ) by {
        assert(b[j].specifier == a[j].specifier);
        assert(rank(b[j].state) >= rank(a[j].state));
    }
}

/// A loader whose records only changed state keeps its well-formedness.
proof fn lemma_wf_same_shape(a: Seq<ModuleRecord>, b: Seq<ModuleRecord>)
    requires
        wf_records(a),
        same_shape(a, b),
    ensures
        wf_records(b),
{
    assert forall|i: int, j: int|
        0 <= i < b.len() && 0 <= j < b.len() && i != j implies (#[trigger] b[i].specifier@)
        != (#[trigger] b[j].specifier@) by {
        assert(b[i].specifier == a[i].specifier);
        assert(b[j].specifier == a[j].specifier);
    }
    assert forall|i: int, k: int|
        0 <= i < b.len() && 0 <= k < b[i].deps@.len() implies (#[trigger] b[i].deps@[k])
        < b.len() by {
        assert(b[i].deps == a[i].deps);
        assert(a[i].deps@[k] < a.len());
    }
}

impl ModuleLoader {
    /// One linking walk rooted at an `Unlinked`, loaded record: marks it
    /// `Linking`, brings every dependency at least into the pipeline
    /// (recursing only into unlinked ones, so a cyclic reference to a record
    /// already `Linking` is tolerated rather than recursed into), then marks
    /// it `Linked`. Terminates because every recursion permanently moves one
    /// record out of `Unlinked`.
    #[verifier::loop_isolation(false)]
    #[verifier::rlimit(60)]
    fn link_rec(&mut self, id: usize) -> (r: Result<(), RuntimeError>)
        requires
            wf_records(old(self).records@),
            id < old(self).records@.len(),
            old(self).records@[id as int].state == ModuleState::Unlinked,
            old(self).records@[id as int].loaded,
        ensures
            wf_records(final(self).records@),
            same_shape(old(self).records@, final(self).records@),
            monotone(old(self).records@, final(self).records@),
            forall|j: int|
                0 <= j < old(self).records@.len() && old(self).records@[j].state
                    != ModuleState::Unlinked ==> (#[trigger] final(self).records@[j]).state == old(self).records@[j].state,
            forall|j: int|
                0 <= j < old(self).records@.len() && old(self).records@[j].state
                    == ModuleState::Unlinked ==> ((#[trigger] final(self).records@[j]).state
                    == ModuleState::Unlinked || final(self).records@[j].state == ModuleState::Linked
                    || final(self).records@[j].state == ModuleState::Errored),
            count_low(final(self).records@, 1) as int <= count_low(old(self).records@, 1) as int
                - 1,
            r is Ok ==> final(self).records@[id as int].state == ModuleState::Linked,
            r is Err ==> final(self).records@[id as int].state == ModuleState::Errored,
            deps_linked(old(self).records@) ==> deps_linked(final(self).records@),
            deps_evaluated(old(self).records@) ==> deps_evaluated(final(self).records@),
            all_loaded(old(self).records@) && no_errored(old(self).records@) ==> r is Ok
                && no_errored(final(self).records@),
        decreases count_low(old(self).records@, 1),
    {
        let ghost o = old(self).records@;
        self.records[id].state = ModuleState::Linking;
        proof {
            lemma_count_low_update(o, id as int, self.records@[id as int], 1);
            lemma_wf_same_shape(o, self.records@);
        }
        let num_deps = self.records[id].deps.len();
        let mut k: usize = 0;
        while k < num_deps
            invariant
                wf_records(self.records@),
                same_shape(o, self.records@),
                monotone(o, self.records@),
                k <= num_deps,
                num_deps == self.records@[id as int].deps@.len(),
                self.records@[id as int].state == ModuleState::Linking,
                count_low(self.records@, 1) as int <= count_low(o, 1) as int - 1,
                forall|j: int|
                    0 <= j < o.len() && o[j].state != ModuleState::Unlinked ==> (
                    #[trigger] self.records@[j]).state == o[j].state,
                forall|j: int|
                    0 <= j < o.len() && o[j].state == ModuleState::Unlinked && j != id ==> ((
                    #[trigger] self.records@[j]).state == ModuleState::Unlinked
                        || self.records@[j].state == ModuleState::Linked || self.records@[j].state
                        == ModuleState::Errored),
                forall|m: int|
                    0 <= m < k ==> rank(
                        self.records@[(#[trigger] self.records@[id as int].deps@[m]) as int].state,
                    ) >= 1,
                deps_linked(o) ==> deps_linked(self.records@),
                deps_evaluated(o) ==> deps_evaluated(self.records@),
                all_loaded(o) && no_errored(o) ==> no_errored(self.records@),
            decreases num_deps - k,
        {
            let d = self.records[id].deps[k];
            let d_loaded = self.records[d].loaded;
            let dstate = self.records[d].state;
            proof {
                assert(self.records@[id as int].deps@[k as int] == d);
                assert(d < self.records@.len());
            }
            match dstate {
                ModuleState::Unlinked => {
                    if d_loaded {
                        let ghost mid = self.records@;
                        let res = self.link_rec(d);
                        proof {
                            lemma_shape_chain(o, mid, self.records@);
                            assert(all_loaded(o) && no_errored(o) ==> all_loaded(mid)
                                && no_errored(mid)) by {
                                if all_loaded(o) {
                                    assert forall|j: int| 0 <= j < mid.len() implies (
                                    #[trigger] mid[j]).loaded by {
                                        assert(mid[j].loaded == o[j].loaded);
                                    }
                                }
                            }
                        }
                        if let Err(e) = res {
                            let ghost pre = self.records@;
                            self.records[id].state = ModuleState::Errored;
                            proof {
                                lemma_count_low_update(pre, id as int, self.records@[id as int], 1);
                                lemma_shape_chain(o, pre, self.records@);
                                lemma_wf_same_shape(o, self.records@);
                            }
                            return Err(e);
                        }
                    } else {
                        let msg = self.records[d].specifier.clone();
                        let ghost pre = self.records@;
                        self.records[id].state = ModuleState::Errored;
                        proof {
                            lemma_count_low_update(pre, id as int, self.records@[id as int], 1);
                            lemma_shape_chain(o, pre, self.records@);
                            lemma_wf_same_shape(o, self.records@);
                            assert(all_loaded(o) ==> o[d as int].loaded);
                        }
                        return Err(RuntimeError::ResolutionError(msg));
                    }
                },
                ModuleState::Errored => {
                    let msg = self.records[d].specifier.clone();
                    let ghost pre = self.records@;
                    self.records[id].state = ModuleState::Errored;
                    proof {
                        lemma_count_low_update(pre, id as int, self.records@[id as int], 1);
                        lemma_shape_chain(o, pre, self.records@);
                        lemma_wf_same_shape(o, self.records@);
                        assert(no_errored(o) ==> o[d as int].state != ModuleState::Errored);
                    }
                    return Err(RuntimeError::ResolutionError(msg));
                },
                _ => {},
            }
            k += 1;
        }
        let ghost pre = self.records@;
        self.records[id].state = ModuleState::Linked;
        proof {
            lemma_count_low_update(pre, id as int, self.records@[id as int], 1);
            lemma_shape_chain(o, pre, self.records@);
            lemma_wf_same_shape(o, self.records@);
        }
        Ok(())
    }

    /// One evaluation walk rooted at a `Linked` record: marks it
    /// `Evaluating`, runs every dependency first (recursing only into linked
    /// ones, so a cyclic reference to a record already `Evaluating` is
    /// tolerated), then marks it `Evaluated`. Terminates because every
    /// recursion permanently moves one record past `Linked`.
    #[verifier::loop_isolation(false)]
    #[verifier::rlimit(60)]
    fn evaluate_rec(&mut self, id: usize) -> (r: Result<(), RuntimeError>)
        requires
            wf_records(old(self).records@),
            id < old(self).records@.len(),
            old(self).records@[id as int].state == ModuleState::Linked,
        ensures
            wf_records(final(self).records@),
            same_shape(old(self).records@, final(self).records@),
            monotone(old(self).records@, final(self).records@),
            forall|j: int|
                0 <= j < old(self).records@.len() && old(self).records@[j].state
                    != ModuleState::Linked ==> (#[trigger] final(self).records@[j]).state == old(self).records@[j].state,
            forall|j: int|
                0 <= j < old(self).records@.len() && old(self).records@[j].state
                    == ModuleState::Linked ==> ((#[trigger] final(self).records@[j]).state
                    == ModuleState::Linked || final(self).records@[j].state
                    == ModuleState::Evaluated || final(self).records@[j].state
                    == ModuleState::Errored),
            count_low(final(self).records@, 3) as int <= count_low(old(self).records@, 3) as int
                - 1,
            r is Ok ==> final(self).records@[id as int].state == ModuleState::Evaluated,
            r is Ok ==> forall|m: int|
                0 <= m < final(self).records@[id as int].deps@.len() ==> #[trigger] dep_settled(
                    final(self).records@,
                    id as int,
                    m,
                ),
            r is Err ==> final(self).records@[id as int].state == ModuleState::Errored,
            deps_linked(old(self).records@) ==> deps_linked(final(self).records@),
            deps_evaluated(old(self).records@) ==> deps_evaluated(final(self).records@),
            deps_linked(old(self).records@) && no_linking(old(self).records@) && no_errored(
                old(self).records@,
            ) ==> r is Ok && no_errored(final(self).records@),
        decreases count_low(old(self).records@, 3),
    {
        let ghost o = old(self).records@;
        self.records[id].state = ModuleState::Evaluating;
        proof {
            lemma_count_low_update(o, id as int, self.records@[id as int], 3);
            lemma_wf_same_shape(o, self.records@);
        }
        let num_deps = self.records[id].deps.len();
        let mut k: usize = 0;
        while k < num_deps
            invariant
                wf_records(self.records@),
                same_shape(o, self.records@),
                monotone(o, self.records@),
                k <= num_deps,
                num_deps == self.records@[id as int].deps@.len(),
                self.records@[id as int].state == ModuleState::Evaluating,
                count_low(self.records@, 3) as int <= count_low(o, 3) as int - 1,
                forall|j: int|
                    0 <= j < o.len() && o[j].state != ModuleState::Linked ==> (
                    #[trigger] self.records@[j]).state == o[j].state,
                forall|j: int|
                    0 <= j < o.len() && o[j].state == ModuleState::Linked && j != id ==> ((
                    #[trigger] self.records@[j]).state == ModuleState::Linked
                        || self.records@[j].state == ModuleState::Evaluated
                        || self.records@[j].state == ModuleState::Errored),
                forall|m: int| 0 <= m < k ==> #[trigger] dep_settled(self.records@, id as int, m),
                deps_linked(o) ==> deps_linked(self.records@),
                deps_evaluated(o) ==> deps_evaluated(self.records@),
                deps_linked(o) && no_linking(o) && no_errored(o) ==> no_errored(self.records@),
                no_linking(o) ==> no_linking(self.records@),
            decreases num_deps - k,
        {
            let ghost it0 = self.records@;
            let d = self.records[id].deps[k];
            let dstate = self.records[d].state;
            proof {
                assert(self.records@[id as int].deps@[k as int] == d);
                assert(d < self.records@.len());
                if deps_linked(o) && no_linking(o) && no_errored(o) {
                    assert(rank(self.records@[id as int].state) == 3);
                    assert(rank(self.records@[(self.records@[id as int].deps@[k as int]) as int].state)
                        >= 1);
                    assert(self.records@[d as int].state != ModuleState::Linking);
                    assert(self.records@[d as int].state != ModuleState::Errored);
                }
            }
            match dstate {
                ModuleState::Linked => {
                    let ghost mid = self.records@;
                    let res = self.evaluate_rec(d);
                    proof {
                        lemma_shape_chain(o, mid, self.records@);
                    }
                    if let Err(e) = res {
                        let ghost pre = self.records@;
                        self.records[id].state = ModuleState::Errored;
                        proof {
                            lemma_count_low_update(pre, id as int, self.records@[id as int], 3);
                            lemma_shape_chain(o, pre, self.records@);
                            lemma_wf_same_shape(o, self.records@);
                        }
                        return Err(e);
                    }
                },
                ModuleState::Evaluating => {},
                ModuleState::Evaluated => {},
                _ => {
                    let msg = self.records[d].specifier.clone();
                    let ghost pre = self.records@;
                    self.records[id].state = ModuleState::Errored;
                    proof {
                        lemma_count_low_update(pre, id as int, self.records@[id as int], 3);
                        lemma_shape_chain(o, pre, self.records@);
                        lemma_wf_same_shape(o, self.records@);
                    }
                    return Err(RuntimeError::ResolutionError(msg));
                },
            }
            proof {
                assert forall|m: int| 0 <= m < k + 1 implies #[trigger] dep_settled(
                    self.records@,
                    id as int,
                    m,
                ) by {
                    assert(self.records@[id as int].deps == o[id as int].deps);
                    assert(it0[id as int].deps == o[id as int].deps);
                    let dep = o[id as int].deps@[m] as int;
                    if m < k {
                        assert(dep_settled(it0, id as int, m));
                        assert(it0[dep].state != ModuleState::Linked);
                        assert(self.records@[dep].state == it0[dep].state);
                    } else {
                        assert(dep == d as int);
                    }
                }
            }
            k += 1;
        }
        let ghost pre = self.records@;
        self.records[id].state = ModuleState::Evaluated;
        proof {
            lemma_count_low_update(pre, id as int, self.records@[id as int], 3);
            lemma_shape_chain(o, pre, self.records@);
            lemma_wf_same_shape(o, self.records@);
            assert forall|m: int| 0 <= m < self.records@[id as int].deps@.len() implies #[trigger] dep_settled(
                self.records@,
                id as int,
                m,
            ) by {
                assert(self.records@[id as int].deps == pre[id as int].deps);
                let dep = pre[id as int].deps@[m] as int;
                assert(dep_settled(pre, id as int, m));
                if dep != id as int {
                    assert(self.records@[dep] == pre[dep]);
                }
            }
            if deps_evaluated(o) {
                assert(deps_evaluated(pre));
                assert forall|j: int, m: int|
                    0 <= j < self.records@.len() && self.records@[j].state
                        == ModuleState::Evaluated && 0 <= m
                        < self.records@[j].deps@.len() implies rank(
                    self.records@[(#[trigger] self.records@[j].deps@[m]) as int].state,
                ) >= 3 by {
                    assert(self.records@[j].deps == pre[j].deps);
                    let dep = pre[j].deps@[m] as int;
                    if j == id as int {
                        assert(dep_settled(self.records@, id as int, m));
                    } else {
                        assert(pre[j].state == ModuleState::Evaluated);
                        assert(rank(pre[dep].state) >= 3);
                        if dep != id as int {
                            assert(self.records@[dep] == pre[dep]);
                        }
                    }
                }
            }
        }
        Ok(())
    }

    /// Links the record `id`: brings it and its dependencies from
    /// `Unlinked` into `Linked`, tolerating cycles. A record whose source
    /// was never handed in cannot link; a record already `Errored` stays
    /// failed and yields the error again without any re-attempt. On a
    /// healthy, fully loaded cache linking always succeeds.
    #[verifier::rlimit(60)]
    pub fn link(&mut self, id: usize) -> (r: Result<(), RuntimeError>)
        requires
            wf_records(old(self).records@),
            id < old(self).records@.len(),
        ensures
            wf_records(final(self).records@),
            same_shape(old(self).records@, final(self).records@),
            monotone(old(self).records@, final(self).records@),
            forall|j: int|
                0 <= j < final(self).records@.len() && (#[trigger] final(self).records@[j]).state
                    == ModuleState::Linking ==> old(self).records@[j].state == ModuleState::Linking,
            forall|j: int|
                0 <= j < final(self).records@.len() && (#[trigger] final(self).records@[j]).state
                    == ModuleState::Evaluating ==> old(self).records@[j].state
                    == ModuleState::Evaluating,
            old(self).records@[id as int].state == ModuleState::Errored ==> r is Err && *final(self)
                == *old(self),
            r is Ok ==> final(self).records@[id as int].state != ModuleState::Unlinked && final(self).records@[id as int].state != ModuleState::Errored,
            r is Err ==> final(self).records@[id as int].state == ModuleState::Errored,
            forall|j: int|
                0 <= j < final(self).records@.len() && (#[trigger] final(self).records@[j]).state
                    != old(self).records@[j].state ==> old(self).records@[j].state
                    == ModuleState::Unlinked && (final(self).records@[j].state
                    == ModuleState::Linked || final(self).records@[j].state
                    == ModuleState::Errored),
            deps_linked(old(self).records@) ==> deps_linked(final(self).records@),
            deps_evaluated(old(self).records@) ==> deps_evaluated(final(self).records@),
            healthy(old(self).records@) && all_loaded(old(self).records@) ==> r is Ok && healthy(
                final(self).records@,
            ) && rank(final(self).records@[id as int].state) >= 2,
    {
        let st = self.records[id].state;
        match st {
            ModuleState::Unlinked => {
                if self.records[id].loaded {
                    let res = self.link_rec(id);
                    proof {
                        if healthy(old(self).records@) && all_loaded(old(self).records@) {
                            assert(no_linking(final(self).records@));
                            assert(no_evaluating(final(self).records@));
                        }
                    }
                    res
                } else {
                    let msg = self.records[id].specifier.clone();
                    self.records[id].state = ModuleState::Errored;
                    proof {
                        lemma_wf_same_shape(old(self).records@, self.records@);
                        assert(all_loaded(old(self).records@) ==> old(self).records@[id as int].loaded);
                    }
                    Err(RuntimeError::ResolutionError(msg))
                }
            },
            ModuleState::Errored => {
                let msg = self.records[id].specifier.clone();
                Err(RuntimeError::ResolutionError(msg))
            },
            _ => Ok(()),
        }
    }

    /// Evaluates the record `id` after linking: runs dependencies before the
    /// dependent, tolerating cycles, and marks everything reached
    /// `Evaluated`. Asking to evaluate a record that never linked is a
    /// resolution failure; an `Errored` record yields its failure again. On
    /// a healthy cache every linked record evaluates, and afterwards the
    /// record and each of its dependencies are `Evaluated`.
    #[verifier::rlimit(60)]
    pub fn evaluate(&mut self, id: usize) -> (r: Result<(), RuntimeError>)
        requires
            wf_records(old(self).records@),
            id < old(self).records@.len(),
        ensures
            wf_records(final(self).records@),
            same_shape(old(self).records@, final(self).records@),
            monotone(old(self).records@, final(self).records@),
            forall|j: int|
                0 <= j < final(self).records@.len() && (#[trigger] final(self).records@[j]).state
                    == ModuleState::Linking ==> old(self).records@[j].state == ModuleState::Linking,
            forall|j: int|
                0 <= j < final(self).records@.len() && (#[trigger] final(self).records@[j]).state
                    == ModuleState::Evaluating ==> old(self).records@[j].state
                    == ModuleState::Evaluating,
            old(self).records@[id as int].state == ModuleState::Errored ==> r is Err && *final(self)
                == *old(self),
            r is Ok ==> final(self).records@[id as int].state == ModuleState::Evaluating || final(self).records@[id as int].state == ModuleState::Evaluated,
            r is Err ==> final(self).records@[id as int].state == ModuleState::Errored,
            forall|j: int|
                0 <= j < final(self).records@.len() && (#[trigger] final(self).records@[j]).state
                    != old(self).records@[j].state ==> (old(self).records@[j].state
                    == ModuleState::Linked && (final(self).records@[j].state
                    == ModuleState::Evaluated || final(self).records@[j].state
                    == ModuleState::Errored)) || (j == id as int && final(self).records@[j].state
                    == ModuleState::Errored),
            deps_linked(old(self).records@) ==> deps_linked(final(self).records@),
            deps_evaluated(old(self).records@) ==> deps_evaluated(final(self).records@),
            healthy(old(self).records@) && (old(self).records@[id as int].state
                == ModuleState::Linked || old(self).records@[id as int].state
                == ModuleState::Evaluated) ==> r is Ok && healthy(final(self).records@) && final(self).records@[id as int].state == ModuleState::Evaluated && (forall|m: int|
                0 <= m < final(self).records@[id as int].deps@.len() ==> final(self).records@[(
                #[trigger] final(self).records@[id as int].deps@[m]) as int].state
                    == ModuleState::Evaluated),
    {
        let st = self.records[id].state;
        match st {
            ModuleState::Linked => {
                let res = self.evaluate_rec(id);
                proof {
                    if healthy(old(self).records@) {
                        assert(no_linking(final(self).records@));
                        assert(no_evaluating(final(self).records@));
                        assert(res is Ok);
                        assert forall|m: int|
                            0 <= m < final(self).records@[id as int].deps@.len() implies final(self).records@[(#[trigger] final(self).records@[id as int].deps@[m]) as int].state
                            == ModuleState::Evaluated by {
                            assert(dep_settled(final(self).records@, id as int, m));
                        }
                    }
                }
                res
            },
            ModuleState::Evaluated => {
                proof {
                    if healthy(old(self).records@) {
                        assert forall|m: int|
                            0 <= m < self.records@[id as int].deps@.len() implies self.records@[(
                        #[trigger] self.records@[id as int].deps@[m]) as int].state
                            == ModuleState::Evaluated by {
                            let dep = self.records@[id as int].deps@[m] as int;
                            assert(rank(self.records@[dep].state) >= 3);
                            assert(self.records@[dep].state != ModuleState::Evaluating);
                            assert(self.records@[dep].state != ModuleState::Errored);
                        }
                    }
                }
                Ok(())
            },
            ModuleState::Evaluating => Ok(()),
            ModuleState::Errored => {
                let msg = self.records[id].specifier.clone();
                Err(RuntimeError::ResolutionError(msg))
            },
            _ => {
                let msg = self.records[id].specifier.clone();
                self.records[id].state = ModuleState::Errored;
                proof {
                    lemma_wf_same_shape(old(self).records@, self.records@);
                }
                Err(RuntimeError::ResolutionError(msg))
            },
        }
    }

    /// The full pipeline for one resolved record: link it, then evaluate it.
    /// On a healthy, fully loaded cache the pipeline succeeds and leaves the
    /// record and each of its dependencies `Evaluated`, even across an
    /// import cycle. A failure anywhere leaves the record terminally
    /// `Errored`.
    #[verifier::rlimit(60)]
    pub fn load_link_evaluate(&mut self, id: usize) -> (r: Result<(), RuntimeError>)
        requires
            wf_records(old(self).records@),
            id < old(self).records@.len(),
        ensures
            wf_records(final(self).records@),
            same_shape(old(self).records@, final(self).records@),
            monotone(old(self).records@, final(self).records@),
            r is Err ==> final(self).records@[id as int].state == ModuleState::Errored,
            forall|j: int|
                0 <= j < final(self).records@.len() && (#[trigger] final(self).records@[j]).state
                    != old(self).records@[j].state ==> final(self).records@[j].state
                    == ModuleState::Linked || final(self).records@[j].state
                    == ModuleState::Evaluated || final(self).records@[j].state
                    == ModuleState::Errored,
            healthy(old(self).records@) && all_loaded(old(self).records@) ==> r is Ok && healthy(
                final(self).records@,
            ) && final(self).records@[id as int].state == ModuleState::Evaluated && (forall|m: int|
                0 <= m < final(self).records@[id as int].deps@.len() ==> final(self).records@[(
                #[trigger] final(self).records@[id as int].deps@[m]) as int].state
                    == ModuleState::Evaluated),
    {
        let ghost o = old(self).records@;
        let linked = self.link(id);
        match linked {
            Err(e) => Err(e),
            Ok(()) => {
                let ghost mid = self.records@;
                let res = self.evaluate(id);
                proof {
                    lemma_shape_chain(o, mid, self.records@);
                    if healthy(o) && all_loaded(o) {
                        assert(healthy(mid));
                        assert(rank(mid[id as int].state) >= 2);
                        assert(mid[id as int].state != ModuleState::Evaluating);
                        assert(mid[id as int].state != ModuleState::Errored);
                    }
                }
                res
            },
        }
    }
}

/// Resolution is idempotent on identity: resolving the same specifier twice
/// returns the identical module record, not a fresh copy. The second call
/// finds the cache entry the first call returned (or created), hands back
/// the same id, and leaves the loader untouched.
pub proof fn lemma_resolve_identity(
    pre: ModuleLoader,
    specifier: Seq<char>,
    mid: ModuleLoader,
    id1: int,
    post: ModuleLoader,
    id2: int,
)
    requires
        wf_records(pre.records@),
        wf_records(mid.records@),
        resolve_post(pre, specifier, mid, id1),
        resolve_post(mid, specifier, post, id2),
    ensures
        id2 == id1,
        post == mid,
{
    assert(mid.has_module(specifier));
    assert(post == mid);
    if id1 != id2 {
        assert(mid.records@[id1].specifier@ == mid.records@[id2].specifier@);
    }
}

} // verus!
