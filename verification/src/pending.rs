//! The pending-generation store: per output target, the ordered list of
//! generation requests whose flatten dependencies are not yet registered,
//! and the sweep that retries every queued request whenever a new definition
//! becomes known.

use vstd::prelude::*;
use vstd::pervasive::VecAdditionalExecFns;

use crate::expand::{can_generate_immediately, expand_nested_structs, spec_resolvable};
use crate::model::{ArgsModel, ConfigDocsArgs, StructInfo, StructModel};
use crate::registry::StructRegistry;
use crate::render::{generate_markdown_table, spec_generated_content};
use crate::text::str_eq;

verus! {

/// Mathematical model of [`PendingGeneration`].
pub ghost struct PendingModel {
    pub struct_info: StructModel,
    pub args: ArgsModel,
}

/// One queued generation request: the definition as declared, and its output
/// configuration.
#[derive(Debug)]
pub struct PendingGeneration {
    pub struct_info: StructInfo,
    pub args: ConfigDocsArgs,
}

impl View for PendingGeneration {
    type V = PendingModel;

    open spec fn view(&self) -> PendingModel {
        PendingModel { struct_info: self.struct_info@, args: self.args@ }
    }
}

impl Clone for PendingGeneration {
    fn clone(&self) -> (r: Self)
        ensures
            r@ == self@,
            r.args == self.args,
    {
        PendingGeneration { struct_info: self.struct_info.clone(), args: self.args.clone() }
    }
}

/// Mathematical model of [`PendingTarget`].
pub ghost struct TargetQueueModel {
    pub target: Seq<char>,
    pub requests: Seq<PendingModel>,
}

/// The queue of one output target.
#[derive(Debug)]
pub struct PendingTarget {
    pub target: String,
    pub requests: Vec<PendingGeneration>,
}

impl View for PendingTarget {
    type V = TargetQueueModel;

    open spec fn view(&self) -> TargetQueueModel {
        TargetQueueModel {
            target: self.target@,
            requests: self.requests@.map_values(|p: PendingGeneration| p@),
        }
    }
}

/// One document write owed to a target: the rendered content to splice into
/// that target's marker region.
#[derive(Debug)]
pub struct WriteAction {
    pub target: String,
    pub content: String,
}

/// Mathematical model of [`WriteAction`].
pub ghost struct WriteModel {
    pub target: Seq<char>,
    pub content: Seq<char>,
}

impl View for WriteAction {
    type V = WriteModel;

    open spec fn view(&self) -> WriteModel {
        WriteModel { target: self.target@, content: self.content@ }
    }
}

/// The targets queued in a store, in order.
pub open spec fn spec_store_targets(q: Seq<TargetQueueModel>) -> Seq<Seq<char>> {
    q.map_values(|e: TargetQueueModel| e.target)
}

/// First position of target `t` in the store.
pub open spec fn spec_target_index(q: Seq<TargetQueueModel>, t: Seq<char>) -> int
    decreases q.len(),
{
    if q.len() == 0 {
        0
    } else if q.first().target == t {
        0
    } else {
        1 + spec_target_index(q.drop_first(), t)
    }
}

pub proof fn lemma_target_index(q: Seq<TargetQueueModel>, t: Seq<char>)
    requires
        spec_store_targets(q).contains(t),
    ensures
        0 <= spec_target_index(q, t) < q.len(),
        q[spec_target_index(q, t)].target == t,
    decreases q.len(),
{
    if q.len() > 0 && q.first().target != t {
        let j = choose|j: int| 0 <= j < q.len() && spec_store_targets(q)[j] == t;
        assert(spec_store_targets(q.drop_first())[j - 1] == t);
        lemma_target_index(q.drop_first(), t);
    }
}

/// What enqueuing a request does to the store: appended to its target's
/// queue, or opening a new queue at the end for a first-seen target.
pub open spec fn spec_enqueue(q: Seq<TargetQueueModel>, pm: PendingModel) -> Seq<
    TargetQueueModel,
> {
    let t = pm.args.target;
    if spec_store_targets(q).contains(t) {
        let i = spec_target_index(q, t);
        q.update(i, TargetQueueModel { target: q[i].target, requests: q[i].requests.push(pm) })
    } else {
        q.push(TargetQueueModel { target: t, requests: seq![pm] })
    }
}

/// One target's sweep: requests that became resolvable leave the queue and
/// become writes, in their original enqueue order; the rest stay queued, in
/// order.
pub open spec fn spec_sweep_requests(
    reg: Map<Seq<char>, StructModel>,
    reqs: Seq<PendingModel>,
) -> (Seq<PendingModel>, Seq<WriteModel>)
    decreases reqs.len(),
{
    if reqs.len() == 0 {
        (Seq::empty(), Seq::empty())
    } else {
        let (kept, writes) = spec_sweep_requests(reg, reqs.drop_last());
        let pm = reqs.last();
        if spec_resolvable(reg, pm.struct_info.fields) {
            (
                kept,
                writes.push(
                    WriteModel {
                        target: pm.args.target,
                        content: spec_generated_content(reg, pm.struct_info, pm.args.format),
                    },
                ),
            )
        } else {
            (kept.push(pm), writes)
        }
    }
}

/// The whole store's sweep: every target's queue is swept in store order;
/// targets whose queue empties are removed.
pub open spec fn spec_sweep_store(
    reg: Map<Seq<char>, StructModel>,
    q: Seq<TargetQueueModel>,
) -> (Seq<TargetQueueModel>, Seq<WriteModel>)
    decreases q.len(),
{
    if q.len() == 0 {
        (Seq::empty(), Seq::empty())
    } else {
        let (pq, pw) = spec_sweep_store(reg, q.drop_last());
        let entry = q.last();
        let (kept, writes) = spec_sweep_requests(reg, entry.requests);
        if kept.len() == 0 {
            (pq, pw + writes)
        } else {
            (pq.push(TargetQueueModel { target: entry.target, requests: kept }), pw + writes)
        }
    }
}

/// A sweep keeps only targets that were already queued, each at most once.
proof fn lemma_sweep_store_wf(reg: Map<Seq<char>, StructModel>, q: Seq<TargetQueueModel>)
    requires
        forall|a: int, b: int|
            0 <= a < b < q.len() ==> q[a].target != q[b].target,
    ensures
        ({
            let kept = spec_sweep_store(reg, q).0;
            &&& forall|a: int, b: int|
                0 <= a < b < kept.len() ==> kept[a].target != kept[b].target
            &&& forall|a: int|
                0 <= a < kept.len() ==> exists|b: int|
                    0 <= b < q.len() && #[trigger] kept[a].target == q[b].target
        }),
    decreases q.len(),
{
    if q.len() > 0 {
        assert(forall|a: int, b: int|
            0 <= a < b < q.drop_last().len() ==> q.drop_last()[a].target
                != q.drop_last()[b].target);
        lemma_sweep_store_wf(reg, q.drop_last());
        let pq = spec_sweep_store(reg, q.drop_last()).0;
        let kept = spec_sweep_store(reg, q).0;
        let (kr, _w) = spec_sweep_requests(reg, q.last().requests);
        if kr.len() == 0 {
            assert forall|a: int| 0 <= a < kept.len() implies exists|b: int|
                0 <= b < q.len() && #[trigger] kept[a].target == q[b].target by {
                let b0 = choose|b: int|
                    0 <= b < q.drop_last().len() && pq[a].target == q.drop_last()[b].target;
                assert(kept[a].target == q[b0].target);
            }
        } else {
            assert forall|a: int| 0 <= a < kept.len() implies exists|b: int|
                0 <= b < q.len() && #[trigger] kept[a].target == q[b].target by {
                if a < pq.len() {
                    let b0 = choose|b: int|
                        0 <= b < q.drop_last().len() && pq[a].target == q.drop_last()[b].target;
                    assert(kept[a].target == q[b0].target);
                } else {
                    assert(kept[a].target == q[q.len() - 1].target);
                }
            }
            assert forall|a: int, b: int| 0 <= a < b < kept.len() implies kept[a].target
                != kept[b].target by {
                if b == kept.len() - 1 {
                    let b0 = choose|c: int|
                        0 <= c < q.drop_last().len() && pq[a].target == q.drop_last()[c].target;
                    assert(q[b0].target != q[q.len() - 1].target);
                }
            }
        }
    }
}

/// The process-wide store of pending generation requests, keyed by output
/// target.
pub struct PendingStore {
    entries: Vec<PendingTarget>,
}

impl View for PendingStore {
    type V = Seq<TargetQueueModel>;

    closed spec fn view(&self) -> Seq<TargetQueueModel> {
        self.entries@.map_values(|e: PendingTarget| e@)
    }
}

impl PendingStore {
    /// Internal well-formedness: no target path occurs twice.
    pub closed spec fn wf(&self) -> bool {
        forall|a: int, b: int| 0 <= a < b < self@.len() ==> self@[a].target != self@[b].target
    }

    /// An empty store: the state at the start of a build.
    pub fn new() -> (r: PendingStore)
        ensures
            r@ == Seq::<TargetQueueModel>::empty(),
            r.wf(),
    {
        let r = PendingStore { entries: Vec::new() };
        proof {
            assert(r@ =~= Seq::<TargetQueueModel>::empty());
        }
        r
    }

    /// Queues a generation request under its own target path, creating the
    /// queue if absent.
    pub fn enqueue(&mut self, pg: PendingGeneration)
        requires
            old(self).wf(),
        ensures
            final(self)@ == spec_enqueue(old(self)@, pg@),
            final(self).wf(),
    {
        let ghost q0 = self@;
        let mut i: usize = 0;
        while i < self.entries.len()
            invariant
                i <= self.entries@.len(),
                self@ == q0,
                q0 == old(self)@,
                self@ == self.entries@.map_values(|e: PendingTarget| e@),
                self.entries@.len() == q0.len(),
                old(self).wf(),
                forall|j: int| 0 <= j < i ==> q0[j].target != pg@.args.target,
            decreases self.entries@.len() - i,
        {
            if str_eq(self.entries[i].target.as_str(), pg.args.target.as_str()) {
                proof {
                    assert(spec_store_targets(q0)[i as int] == pg@.args.target);
                    assert(spec_store_targets(q0).contains(pg@.args.target));
                    lemma_target_index(q0, pg@.args.target);
                    lemma_target_index_first(q0, pg@.args.target, i as int);
                }
                let ghost pgm = pg@;
                let mut entry = PendingTarget { target: String::new(), requests: Vec::new() };
                self.entries.set_and_swap(i, &mut entry);
                entry.requests.push(pg);
                let ghost ev = entry@;
                self.entries.set_and_swap(i, &mut entry);
                proof {
                    assert(ev.requests =~= q0[i as int].requests.push(pgm));
                    assert(ev == (TargetQueueModel {
                        target: q0[i as int].target,
                        requests: q0[i as int].requests.push(pgm),
                    }));
                    let cur = self@;
                    let tgt = spec_enqueue(q0, pgm);
                    assert(cur.len() == tgt.len());
                    assert forall|k: int| 0 <= k < cur.len() implies cur[k] == tgt[k] by {
                        if k == i as int {
                            assert(cur[k] == ev);
                        }
                    }
                    assert(self@ =~= spec_enqueue(q0, pgm));
                }
                return ;
            }
            i += 1;
        }
        proof {
            if spec_store_targets(q0).contains(pg@.args.target) {
                let j = choose|j: int|
                    0 <= j < q0.len() && spec_store_targets(q0)[j] == pg@.args.target;
                assert(q0[j].target == pg@.args.target);
                assert(false);
            }
        }
        let target = pg.args.target.clone();
        let mut requests: Vec<PendingGeneration> = Vec::new();
        let ghost pgm = pg@;
        requests.push(pg);
        self.entries.push(PendingTarget { target, requests });
        proof {
            assert(requests@.map_values(|p: PendingGeneration| p@) =~= seq![pgm]);
            assert(self@ =~= spec_enqueue(q0, pgm));
        }
    }
}

proof fn lemma_target_index_first(q: Seq<TargetQueueModel>, t: Seq<char>, i: int)
    requires
        0 <= i < q.len(),
        q[i].target == t,
        forall|j: int| 0 <= j < i ==> q[j].target != t,
    ensures
        spec_target_index(q, t) == i,
    decreases q.len(),
{
    if i > 0 {
        assert(q.first().target != t);
        lemma_target_index_first(q.drop_first(), t, i - 1);
    }
}

/// Re-attempts every queued request across every target, in store order:
/// each request that became resolvable is expanded and rendered, and its
/// write leaves the store; unsatisfied requests stay queued, and emptied
/// targets are removed.
pub fn try_process_pending_generations(registry: &StructRegistry, pending: &mut PendingStore) -> (
    writes: Vec<WriteAction>)
    requires
        registry.wf(),
        old(pending).wf(),
    ensures
        final(pending)@ == spec_sweep_store(registry@, old(pending)@).0,
        writes@.map_values(|w: WriteAction| w@) == spec_sweep_store(registry@, old(pending)@).1,
        final(pending).wf(),
{
    let ghost q0 = pending@;
    let mut writes: Vec<WriteAction> = Vec::new();
    let mut new_entries: Vec<PendingTarget> = Vec::new();
    let n = pending.entries.len();
    proof {
        assert(q0.take(0) =~= Seq::<TargetQueueModel>::empty());
        assert(writes@.map_values(|w: WriteAction| w@) =~= Seq::<WriteModel>::empty());
        assert(new_entries@.map_values(|e: PendingTarget| e@) =~= Seq::<TargetQueueModel>::empty());
    }
    let mut i: usize = 0;
    while i < n
        invariant
            i <= n,
            registry.wf(),
            q0 == old(pending)@,
            pending@ == q0,
            pending@ == pending.entries@.map_values(|e: PendingTarget| e@),
            n == pending.entries@.len(),
            n == q0.len(),
            new_entries@.map_values(|e: PendingTarget| e@) =~= spec_sweep_store(
                registry@,
                q0.take(i as int),
            ).0,
            writes@.map_values(|w: WriteAction| w@) =~= spec_sweep_store(
                registry@,
                q0.take(i as int),
            ).1,
        decreases n - i,
    {
        let ghost epre = new_entries@.map_values(|e: PendingTarget| e@);
        let ghost wpre = writes@.map_values(|w: WriteAction| w@);
        let ghost reqs = q0[i as int].requests;
        let entry = &pending.entries[i];
        let m = entry.requests.len();
        let mut kept: Vec<PendingGeneration> = Vec::new();
        proof {
            assert(reqs.take(0) =~= Seq::<PendingModel>::empty());
            assert(kept@.map_values(|p: PendingGeneration| p@) =~= Seq::<PendingModel>::empty());
        }
        let mut j: usize = 0;
        while j < m
            invariant
                j <= m,
                i < n,
                registry.wf(),
                pending@ == q0,
                pending@ == pending.entries@.map_values(|e: PendingTarget| e@),
                n == pending.entries@.len(),
                n == q0.len(),
                reqs == q0[i as int].requests,
                m == pending.entries@[i as int].requests@.len(),
                pending.entries@[i as int].requests@.map_values(|p: PendingGeneration| p@)
                    == reqs,
                kept@.map_values(|p: PendingGeneration| p@) =~= spec_sweep_requests(
                    registry@,
                    reqs.take(j as int),
                ).0,
                writes@.map_values(|w: WriteAction| w@) =~= wpre + spec_sweep_requests(
                    registry@,
                    reqs.take(j as int),
                ).1,
            decreases m - j,
        {
            let pg = &pending.entries[i].requests[j];
            proof {
                assert(pg@ == reqs[j as int]);
                assert(reqs.take(j + 1).drop_last() =~= reqs.take(j as int));
            }
            let ghost wcur = writes@.map_values(|w: WriteAction| w@);
            let ghost kpre = kept@.map_values(|p: PendingGeneration| p@);
            if can_generate_immediately(registry, &pg.struct_info) {
                let expanded = expand_nested_structs(registry, pg.struct_info.clone());
                let content = generate_markdown_table(&expanded, pg.args.format);
                let action = WriteAction { target: pg.args.target.clone(), content };
                writes.push(action);
                proof {
                    assert(writes@.map_values(|w: WriteAction| w@) =~= wcur.push(
                        WriteModel {
                            target: reqs[j as int].args.target,
                            content: spec_generated_content(
                                registry@,
                                reqs[j as int].struct_info,
                                reqs[j as int].args.format,
                            ),
                        },
                    ));
                    assert(writes@.map_values(|w: WriteAction| w@) =~= wpre
                        + spec_sweep_requests(registry@, reqs.take(j + 1)).1);
                }
            } else {
                kept.push(pg.clone());
                proof {
                    assert(kept@.map_values(|p: PendingGeneration| p@) =~= kpre.push(
                        reqs[j as int],
                    ));
                    assert(kept@.map_values(|p: PendingGeneration| p@) =~= spec_sweep_requests(
                        registry@,
                        reqs.take(j + 1),
                    ).0);
                }
            }
            j += 1;
        }
        proof {
            assert(reqs.take(reqs.len() as int) =~= reqs);
            assert(q0.take(i + 1).drop_last() =~= q0.take(i as int));
            assert(q0.take(i + 1).last() == q0[i as int]);
        }
        if kept.len() > 0 {
            let new_entry = PendingTarget { target: pending.entries[i].target.clone(), requests: kept };
            new_entries.push(new_entry);
            proof {
                assert(new_entries@.map_values(|e: PendingTarget| e@) =~= epre.push(
                    TargetQueueModel {
                        target: q0[i as int].target,
                        requests: spec_sweep_requests(registry@, reqs).0,
                    },
                ));
                assert(new_entries@.map_values(|e: PendingTarget| e@) =~= spec_sweep_store(
                    registry@,
                    q0.take(i + 1),
                ).0);
            }
        } else {
            proof {
                assert(kept@.map_values(|p: PendingGeneration| p@).len() == 0);
                assert(new_entries@.map_values(|e: PendingTarget| e@) =~= spec_sweep_store(
                    registry@,
                    q0.take(i + 1),
                ).0);
            }
        }
        proof {
            assert(writes@.map_values(|w: WriteAction| w@) =~= wpre + spec_sweep_requests(
                registry@,
                reqs,
            ).1);
            assert(writes@.map_values(|w: WriteAction| w@) =~= spec_sweep_store(
                registry@,
                q0.take(i + 1),
            ).1);
        }
        i += 1;
    }
    pending.entries = new_entries;
    proof {
        assert(q0.take(q0.len() as int) =~= q0);
        lemma_sweep_store_wf(registry@, q0);
    }
    writes
}

} // verus!
