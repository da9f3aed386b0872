//! The resolution driver: on a generation request, either renders now or
//! queues; on a registration, inserts the definition and re-attempts every
//! pending request. Document writes are returned as actions for the caller
//! to perform, in the order they became due.

use vstd::prelude::*;

use crate::expand::{can_generate_immediately, expand_nested_structs, spec_resolvable};
use crate::model::{ArgsModel, ConfigDocsArgs, StructInfo, StructModel};
use crate::pending::{
    spec_enqueue, spec_store_targets, spec_sweep_requests, spec_sweep_store,
    try_process_pending_generations, PendingGeneration, PendingModel, PendingStore,
    TargetQueueModel, WriteAction, WriteModel,
};
use crate::registry::StructRegistry;
use crate::render::{generate_markdown_table, spec_generated_content};

verus! {

/// Handles one declaration that requests generation: a resolvable definition
/// is expanded, rendered and returned as the due document write; an
/// unresolvable one is queued under its target, to be retried on every
/// later registration.
pub fn generate_config_docs(
    registry: &StructRegistry,
    pending: &mut PendingStore,
    struct_info: StructInfo,
    args: ConfigDocsArgs,
) -> (r: Option<WriteAction>)
    requires
        registry.wf(),
        old(pending).wf(),
    ensures
        final(pending).wf(),
        spec_resolvable(registry@, struct_info@.fields) ==> {
            &&& r is Some
            &&& r->0@ == (WriteModel {
                target: args@.target,
                content: spec_generated_content(registry@, struct_info@, args.format),
            })
            &&& final(pending)@ == old(pending)@
        },
        !spec_resolvable(registry@, struct_info@.fields) ==> {
            &&& r is None
            &&& final(pending)@ == spec_enqueue(
                old(pending)@,
                PendingModel { struct_info: struct_info@, args: args@ },
            )
        },
{
    if can_generate_immediately(registry, &struct_info) {
        let format = args.format;
        let expanded = expand_nested_structs(registry, struct_info);
        let content = generate_markdown_table(&expanded, format);
        Some(WriteAction { target: args.target, content })
    } else {
        pending.enqueue(PendingGeneration { struct_info, args });
        None
    }
}

/// Handles one plain registration: the definition enters the registry,
/// overwriting any earlier definition of the same name, and every pending
/// request is re-attempted against the grown registry. The returned writes
/// are due in order.
pub fn register_struct_definition(
    registry: &mut StructRegistry,
    pending: &mut PendingStore,
    struct_info: StructInfo,
) -> (writes: Vec<WriteAction>)
    requires
        old(registry).wf(),
        old(pending).wf(),
    ensures
        final(registry)@ == old(registry)@.insert(struct_info@.name, struct_info@),
        final(registry).wf(),
        final(pending).wf(),
        final(pending)@ == spec_sweep_store(final(registry)@, old(pending)@).0,
        writes@.map_values(|w: WriteAction| w@) == spec_sweep_store(
            final(registry)@,
            old(pending)@,
        ).1,
{
    registry.insert(struct_info);
    try_process_pending_generations(registry, pending)
}

/// Order independence, over one request and the registration it waits for:
/// starting from a registry under which record `a`'s request is not yet
/// resolvable and an empty pending store, declaring the request first (it
/// queues; registering `b` then sweeps it out) and registering `b` first
/// (the request then generates immediately) end in the same registry, the
/// same empty pending store, and the same single document write.
pub proof fn lemma_order_independence(
    reg: Map<Seq<char>, StructModel>,
    a: StructModel,
    args: ArgsModel,
    b: StructModel,
)
    requires
        !spec_resolvable(reg, a.fields),
        spec_resolvable(reg.insert(b.name, b), a.fields),
    ensures
        ({
            // The request queued first, then swept out by b's registration:
            let reg2 = reg.insert(b.name, b);
            let queued = spec_enqueue(
                Seq::<TargetQueueModel>::empty(),
                PendingModel { struct_info: a, args },
            );
            let write = WriteModel {
                target: args.target,
                content: spec_generated_content(reg2, a, args.format),
            };
            // ... ends exactly where immediate generation after b's
            // registration ends: nothing left queued, the same one write.
            spec_sweep_store(reg2, queued) == (Seq::<TargetQueueModel>::empty(), seq![write])
        }),
{
    let reg2 = reg.insert(b.name, b);
    let pm = PendingModel { struct_info: a, args };
    let write = WriteModel {
        target: args.target,
        content: spec_generated_content(reg2, a, args.format),
    };
    assert(!spec_store_targets(Seq::<TargetQueueModel>::empty()).contains(args.target));
    let queued = spec_enqueue(Seq::<TargetQueueModel>::empty(), pm);
    let entry = TargetQueueModel { target: args.target, requests: seq![pm] };
    assert(queued == Seq::<TargetQueueModel>::empty().push(entry));
    assert(seq![pm].drop_last() =~= Seq::<PendingModel>::empty());
    assert(spec_sweep_requests(reg2, Seq::<PendingModel>::empty()) == (
        Seq::<PendingModel>::empty(),
        Seq::<WriteModel>::empty(),
    ));
    assert(seq![pm].last() == pm);
    assert(spec_resolvable(reg2, pm.struct_info.fields));
    assert(spec_sweep_requests(reg2, seq![pm]).0 =~= Seq::<PendingModel>::empty());
    assert(spec_sweep_requests(reg2, seq![pm]).1 =~= seq![write]);
    assert(queued.drop_last() =~= Seq::<TargetQueueModel>::empty());
    assert(spec_sweep_store(reg2, Seq::<TargetQueueModel>::empty()) == (
        Seq::<TargetQueueModel>::empty(),
        Seq::<WriteModel>::empty(),
    ));
    assert(queued.last() == entry);
    assert(spec_sweep_store(reg2, queued).0 =~= Seq::<TargetQueueModel>::empty());
    assert(spec_sweep_store(reg2, queued).1 =~= seq![write]);
}

} // verus!
