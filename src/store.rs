//! An object store held in memory, and the loop that runs a reconciliation
//! against it. The store keeps the one guarantee the reconciler relies on:
//! an object cannot be created under a name its namespace already holds.

use vstd::prelude::*;

use crate::endpoints::{is_global_slice, lemma_global_slice_same_sources, spec_slice_name};
use crate::identity::{spec_cluster_name, spec_global_name, spec_parent_name};
use crate::model::{lookup, EndpointSliceObject, MirrorError, ServiceObject, PARENT_NAME_LABEL, SERVICE_NAME_LABEL};
use crate::reconcile::{awaits, misnamed, rank, Action, Phase, Reconciler, Signal};
use crate::service::{is_global_service, spec_existence};

verus! {

/// How many of `services` are named `name`, in any namespace.
pub open spec fn count_services(services: Seq<ServiceObject>, name: Seq<char>) -> nat
    decreases services.len(),
{
    if services.len() == 0 {
        0
    } else {
        count_services(services.drop_last(), name) + if services.last().name@ == name {
            1nat
        } else {
            0nat
        }
    }
}

/// How many of `slices` are named `name`, in any namespace.
pub open spec fn count_slices(slices: Seq<EndpointSliceObject>, name: Seq<char>) -> nat
    decreases slices.len(),
{
    if slices.len() == 0 {
        0
    } else {
        count_slices(slices.drop_last(), name) + if slices.last().name@ == name {
            1nat
        } else {
            0nat
        }
    }
}

/// `ns` holds a Service named `name`.
pub open spec fn has_service(services: Seq<ServiceObject>, ns: Seq<char>, name: Seq<char>) -> bool {
    exists|k: int|
        0 <= k < services.len() && (#[trigger] services[k]).namespace@ == ns && services[k].name@
            == name
}

/// `ns` holds an EndpointSlice named `name`.
pub open spec fn has_slice(slices: Seq<EndpointSliceObject>, ns: Seq<char>, name: Seq<char>) -> bool {
    exists|k: int|
        0 <= k < slices.len() && (#[trigger] slices[k]).namespace@ == ns && slices[k].name@ == name
}

/// The slices of `ns` labelled as backing `service`, in store order.
pub open spec fn backing_slices(
    slices: Seq<EndpointSliceObject>,
    ns: Seq<char>,
    service: Seq<char>,
) -> Seq<EndpointSliceObject>
    decreases slices.len(),
{
    if slices.len() == 0 {
        Seq::empty()
    } else {
        let rest = backing_slices(slices.drop_last(), ns, service);
        let s = slices.last();
        if s.namespace@ == ns && lookup(s.labels@, SERVICE_NAME_LABEL@) == Some(service) {
            rest.push(s)
        } else {
            rest
        }
    }
}

/// The Services after one store operation: unchanged, or with one more
/// that was created where its namespace held none of its name.
pub open spec fn service_step(before: Seq<ServiceObject>, after: Seq<ServiceObject>) -> bool {
    ||| after == before
    ||| (after.len() == before.len() + 1 && after.drop_last() == before && !has_service(
        before,
        after.last().namespace@,
        after.last().name@,
    ))
}

/// The signal that asks for another try after `secs` seconds.
pub open spec fn retry_signal(secs: u64, error: MirrorError) -> Signal {
    Signal::RetryAfter { secs, error }
}

/// The global Service name of `shard`.
pub open spec fn global_of(shard: ServiceObject) -> Seq<char> {
    spec_global_name(spec_parent_name(shard), spec_cluster_name(shard))
}

/// The global slice name of `shard`.
pub open spec fn slice_of(shard: ServiceObject) -> Seq<char> {
    spec_slice_name(global_of(shard), spec_cluster_name(shard))
}

proof fn lemma_count_services_push(s: Seq<ServiceObject>, x: ServiceObject, name: Seq<char>)
    ensures
        count_services(s.push(x), name) == count_services(s, name) + if x.name@ == name {
            1nat
        } else {
            0nat
        },
{
    assert(s.push(x).drop_last() =~= s);
}

proof fn lemma_count_slices_push(s: Seq<EndpointSliceObject>, x: EndpointSliceObject, name: Seq<char>)
    ensures
        count_slices(s.push(x), name) == count_slices(s, name) + if x.name@ == name {
            1nat
        } else {
            0nat
        },
{
    assert(s.push(x).drop_last() =~= s);
}

proof fn lemma_count_positive(s: Seq<ServiceObject>, name: Seq<char>)
    requires
        count_services(s, name) >= 1,
    ensures
        exists|k: int| 0 <= k < s.len() && (#[trigger] s[k]).name@ == name,
    decreases s.len(),
{
    if s.last().name@ == name {
        assert(s[s.len() - 1].name@ == name);
    } else {
        lemma_count_positive(s.drop_last(), name);
        let k = choose|k: int| 0 <= k < s.drop_last().len() && (#[trigger] s.drop_last()[k]).name@ == name;
        assert(s[k] == s.drop_last()[k]);
    }
}

proof fn lemma_history_prefix(
    history: Seq<Seq<ServiceObject>>,
    global: Seq<char>,
    ns: Seq<char>,
    i: int,
)
    requires
        0 <= i < history.len(),
        count_services(history[0], global) == 0,
        forall|j: int| 0 <= j < history.len() - 1 ==> service_step(#[trigger] history[j], history[j + 1]),
        forall|j: int|
            0 < j < history.len() && (#[trigger] history[j]).len() > history[j - 1].len()
                && history[j].last().name@ == global ==> history[j].last().namespace@ == ns,
    ensures
        count_services(history[i], global) <= 1,
        forall|k: int|
            0 <= k < history[i].len() && (#[trigger] history[i][k]).name@ == global
                ==> history[i][k].namespace@ == ns,
    decreases i,
{
    if i == 0 {
        if exists|k: int| 0 <= k < history[0].len() && (#[trigger] history[0][k]).name@ == global {
            let k = choose|k: int| 0 <= k < history[0].len() && (#[trigger] history[0][k]).name@ == global;
            lemma_count_at_least_one(history[0], global, k);
        }
    } else {
        lemma_history_prefix(history, global, ns, i - 1);
        let before = history[i - 1];
        let after = history[i];
        assert(service_step(history[i - 1], history[i]));
        if after != before {
            let x = after.last();
            assert(after =~= before.push(x));
            lemma_count_services_push(before, x, global);
            if x.name@ == global {
                if count_services(before, global) >= 1 {
                    lemma_count_positive(before, global);
                    let k = choose|k: int| 0 <= k < before.len() && (#[trigger] before[k]).name@ == global;
                    assert(has_service(before, ns, global));
                }
            }
            assert forall|k: int|
                0 <= k < after.len() && (#[trigger] after[k]).name@ == global implies after[k].namespace@
                == ns by {
                if k < before.len() {
                    assert(after[k] == before[k]);
                }
            }
        }
    }
}

proof fn lemma_count_at_least_one(s: Seq<ServiceObject>, name: Seq<char>, k: int)
    requires
        0 <= k < s.len(),
        s[k].name@ == name,
    ensures
        count_services(s, name) >= 1,
    decreases s.len(),
{
    if k < s.len() - 1 {
        assert(s.drop_last()[k] == s[k]);
        lemma_count_at_least_one(s.drop_last(), name, k);
    }
}

proof fn lemma_slice_count_at_least_one(s: Seq<EndpointSliceObject>, name: Seq<char>, k: int)
    requires
        0 <= k < s.len(),
        s[k].name@ == name,
    ensures
        count_slices(s, name) >= 1,
    decreases s.len(),
{
    if k < s.len() - 1 {
        assert(s.drop_last()[k] == s[k]);
        lemma_slice_count_at_least_one(s.drop_last(), name, k);
    }
}

proof fn lemma_uncounted(
    services: Seq<ServiceObject>,
    slices: Seq<EndpointSliceObject>,
    ns: Seq<char>,
    service: Seq<char>,
    slice: Seq<char>,
)
    ensures
        count_services(services, service) == 0 ==> !has_service(services, ns, service),
        count_slices(slices, slice) == 0 ==> !has_slice(slices, ns, slice),
{
    if has_service(services, ns, service) {
        let k = choose|k: int|
            0 <= k < services.len() && (#[trigger] services[k]).namespace@ == ns && services[k].name@
                == service;
        lemma_count_at_least_one(services, service, k);
    }
    if has_slice(slices, ns, slice) {
        let k = choose|k: int|
            0 <= k < slices.len() && (#[trigger] slices[k]).namespace@ == ns && slices[k].name@
                == slice;
        lemma_slice_count_at_least_one(slices, slice, k);
    }
}

/// Once a create has added the global Service to a store that held no
/// Service of its name in any namespace, the exact-name query finds exactly
/// that one, so the existence check reports it present.
pub proof fn lemma_created_then_exists(
    before: Seq<ServiceObject>,
    svc: ServiceObject,
    global: Seq<char>,
)
    requires
        count_services(before, global) == 0,
        svc.name@ == global,
    ensures
        spec_existence(count_services(before.push(svc), global)) == Ok::<bool, MirrorError>(true),
{
    lemma_count_services_push(before, svc, global);
}

/// However the store operations of concurrent reconciliations interleave,
/// the store never holds more than one Service named `global`: provided it
/// held none at first, each operation is one the store allows (it leaves the
/// Services alone, or creates one where the namespace held none of that
/// name), and every Service created under that name goes to the one
/// namespace `ns` that sibling shards share. Since a converged run leaves one
/// there, exactly one exists once any of them converged.
pub proof fn lemma_one_global_service(
    history: Seq<Seq<ServiceObject>>,
    global: Seq<char>,
    ns: Seq<char>,
)
    requires
        history.len() > 0,
        count_services(history[0], global) == 0,
        forall|j: int| 0 <= j < history.len() - 1 ==> service_step(#[trigger] history[j], history[j + 1]),
        forall|j: int|
            0 < j < history.len() && (#[trigger] history[j]).len() > history[j - 1].len()
                && history[j].last().name@ == global ==> history[j].last().namespace@ == ns,
    ensures
        forall|i: int| 0 <= i < history.len() ==> count_services(#[trigger] history[i], global) <= 1,
{
    assert forall|i: int| 0 <= i < history.len() implies count_services(#[trigger] history[i], global) <= 1 by {
        lemma_history_prefix(history, global, ns, i);
    }
}

/// Services and EndpointSlices held in memory.
pub struct MemStore {
    pub services: Vec<ServiceObject>,
    pub slices: Vec<EndpointSliceObject>,
}

impl MemStore {
    /// An empty store.
    pub fn new() -> (r: MemStore)
        ensures
            r.services@.len() == 0,
            r.slices@.len() == 0,
    {
        MemStore { services: Vec::new(), slices: Vec::new() }
    }

    /// Puts a Service into the store as it is, without the name check of
    /// `create_service`: for seeding a store, a corrupt one included.
    pub fn insert_service(&mut self, svc: ServiceObject)
        ensures
            final(self).services@ == old(self).services@.push(svc),
            final(self).slices@ == old(self).slices@,
    {
        self.services.push(svc);
    }

    /// Puts an EndpointSlice into the store as it is, without a name check.
    pub fn insert_slice(&mut self, slice: EndpointSliceObject)
        ensures
            final(self).slices@ == old(self).slices@.push(slice),
            final(self).services@ == old(self).services@,
    {
        self.slices.push(slice);
    }

    /// The number of Services named `name` in all namespaces.
    pub fn count_services_named(&self, name: &String) -> (r: usize)
        ensures
            r == count_services(self.services@, name@),
    {
        let mut n: usize = 0;
        let mut i: usize = 0;
        while i < self.services.len()
            invariant
                i <= self.services@.len(),
                n == count_services(self.services@.subrange(0, i as int), name@),
                n <= i,
            decreases self.services.len() - i,
        {
            assert(self.services@.subrange(0, i + 1).drop_last() =~= self.services@.subrange(0, i as int));
            if self.services[i].name == *name {
                n += 1;
            }
            i += 1;
        }
        assert(self.services@.subrange(0, self.services@.len() as int) =~= self.services@);
        n
    }

    /// The number of EndpointSlices named `name` in all namespaces.
    pub fn count_slices_named(&self, name: &String) -> (r: usize)
        ensures
            r == count_slices(self.slices@, name@),
    {
        let mut n: usize = 0;
        let mut i: usize = 0;
        while i < self.slices.len()
            invariant
                i <= self.slices@.len(),
                n == count_slices(self.slices@.subrange(0, i as int), name@),
                n <= i,
            decreases self.slices.len() - i,
        {
            assert(self.slices@.subrange(0, i + 1).drop_last() =~= self.slices@.subrange(0, i as int));
            if self.slices[i].name == *name {
                n += 1;
            }
            i += 1;
        }
        assert(self.slices@.subrange(0, self.slices@.len() as int) =~= self.slices@);
        n
    }

    fn holds_service(&self, ns: &String, name: &String) -> (r: bool)
        ensures
            r == has_service(self.services@, ns@, name@),
    {
        let mut i: usize = 0;
        while i < self.services.len()
            invariant
                i <= self.services@.len(),
                forall|k: int|
                    0 <= k < i ==> !((#[trigger] self.services@[k]).namespace@ == ns@
                        && self.services@[k].name@ == name@),
            decreases self.services.len() - i,
        {
            if self.services[i].namespace == *ns && self.services[i].name == *name {
                return true;
            }
            i += 1;
        }
        false
    }

    fn holds_slice(&self, ns: &String, name: &String) -> (r: bool)
        ensures
            r == has_slice(self.slices@, ns@, name@),
    {
        let mut i: usize = 0;
        while i < self.slices.len()
            invariant
                i <= self.slices@.len(),
                forall|k: int|
                    0 <= k < i ==> !((#[trigger] self.slices@[k]).namespace@ == ns@
                        && self.slices@[k].name@ == name@),
            decreases self.slices.len() - i,
        {
            if self.slices[i].namespace == *ns && self.slices[i].name == *name {
                return true;
            }
            i += 1;
        }
        false
    }

    /// Creates a Service, refused with a conflict when its namespace already
    /// holds one of its name.
    pub fn create_service(&mut self, svc: ServiceObject) -> (r: Result<(), MirrorError>)
        ensures
            final(self).slices@ == old(self).slices@,
            has_service(old(self).services@, svc.namespace@, svc.name@) ==> r == Err::<
                (),
                MirrorError,
            >(MirrorError::CreateConflict) && final(self).services@ == old(self).services@,
            !has_service(old(self).services@, svc.namespace@, svc.name@) ==> r is Ok && final(self).services@ == old(self).services@.push(svc),
    {
        if self.holds_service(&svc.namespace, &svc.name) {
            Err(MirrorError::CreateConflict)
        } else {
            self.services.push(svc);
            Ok(())
        }
    }

    /// Creates an EndpointSlice, refused with a conflict when its namespace
    /// already holds one of its name.
    pub fn create_slice(&mut self, slice: EndpointSliceObject) -> (r: Result<(), MirrorError>)
        ensures
            final(self).services@ == old(self).services@,
            has_slice(old(self).slices@, slice.namespace@, slice.name@) ==> r == Err::<
                (),
                MirrorError,
            >(MirrorError::CreateConflict) && final(self).slices@ == old(self).slices@,
            !has_slice(old(self).slices@, slice.namespace@, slice.name@) ==> r is Ok && final(self).slices@ == old(self).slices@.push(slice),
    {
        if self.holds_slice(&slice.namespace, &slice.name) {
            Err(MirrorError::CreateConflict)
        } else {
            self.slices.push(slice);
            Ok(())
        }
    }

    /// Copies of the slices of `ns` labelled as backing `service_name`.
    pub fn list_backing_slices(&self, ns: &String, service_name: &String) -> (r: Vec<
        EndpointSliceObject,
    >)
        ensures
            r@.len() == backing_slices(self.slices@, ns@, service_name@).len(),
            forall|k: int|
                0 <= k < r@.len() ==> (#[trigger] r@[k]).same_as(
                    backing_slices(self.slices@, ns@, service_name@)[k],
                ),
    {
        let mut out: Vec<EndpointSliceObject> = Vec::new();
        let mut i: usize = 0;
        while i < self.slices.len()
            invariant
                i <= self.slices@.len(),
                out@.len() == backing_slices(self.slices@.subrange(0, i as int), ns@, service_name@).len(),
                forall|k: int|
                    0 <= k < out@.len() ==> (#[trigger] out@[k]).same_as(
                        backing_slices(self.slices@.subrange(0, i as int), ns@, service_name@)[k],
                    ),
            decreases self.slices.len() - i,
        {
            let ghost pre = self.slices@.subrange(0, i as int);
            let ghost next = self.slices@.subrange(0, i + 1);
            assert(next.drop_last() =~= pre);
            let s = &self.slices[i];
            let label = crate::model::label_value(&s.labels, SERVICE_NAME_LABEL);
            let backs = match label {
                Some(v) => v == *service_name,
                None => false,
            };
            if s.namespace == *ns && backs {
                out.push(s.clone());
            }
            i += 1;
        }
        assert(self.slices@.subrange(0, self.slices@.len() as int) =~= self.slices@);
        out
    }

    /// Runs one reconciliation of `shard` against the store, performing each
    /// operation the driver asks for, until it ends.
    ///
    /// A per-pod mirror changes nothing and converges. A misnamed shard, or
    /// one whose global Service name (or, next, global slice name) is held
    /// more than once, asks for a retry and creates nothing further. Any other
    /// shard converges: the global Service is created from the shards' ports
    /// when no Service has its name, then the shard's global slice from the
    /// slices backing the shard when no slice has its name. A run on a store
    /// that already holds both by name changes nothing, so running again
    /// after convergence leaves the store as it was.
    pub fn run(&mut self, shard: &ServiceObject, retry_secs: u64) -> (r: Signal)
        ensures
            lookup(shard.labels@, PARENT_NAME_LABEL@) is Some ==> r == Signal::Converged
                && final(self).services@ == old(self).services@ && final(self).slices@ == old(self).slices@,
            lookup(shard.labels@, PARENT_NAME_LABEL@) is None && misnamed(*shard) ==> r
                == retry_signal(retry_secs, MirrorError::NameMismatch)
                && final(self).services@ == old(self).services@ && final(self).slices@ == old(self).slices@,
            lookup(shard.labels@, PARENT_NAME_LABEL@) is None && !misnamed(*shard) && count_services(
                old(self).services@,
                global_of(*shard),
            ) >= 2 ==> r == retry_signal(retry_secs, MirrorError::AmbiguousIdentity) && final(self).services@ == old(self).services@ && final(self).slices@ == old(self).slices@,
            lookup(shard.labels@, PARENT_NAME_LABEL@) is None && !misnamed(*shard) && count_services(
                old(self).services@,
                global_of(*shard),
            ) <= 1 && count_slices(old(self).slices@, slice_of(*shard)) >= 2 ==> r
                == retry_signal(retry_secs, MirrorError::AmbiguousIdentity)
                && final(self).slices@ == old(self).slices@,
            lookup(shard.labels@, PARENT_NAME_LABEL@) is None && !misnamed(*shard) && count_services(
                old(self).services@,
                global_of(*shard),
            ) <= 1 && count_slices(old(self).slices@, slice_of(*shard)) <= 1 ==> r
                == Signal::Converged,
            lookup(shard.labels@, PARENT_NAME_LABEL@) is None && r == Signal::Converged ==> count_services(
                final(self).services@,
                global_of(*shard),
            ) >= 1 && count_slices(final(self).slices@, slice_of(*shard)) >= 1,
            count_services(old(self).services@, global_of(*shard)) >= 1 && count_slices(
                old(self).slices@,
                slice_of(*shard),
            ) >= 1 ==> final(self).services@ == old(self).services@ && final(self).slices@ == old(self).slices@,
            service_step(old(self).services@, final(self).services@),
            final(self).services@.len() > old(self).services@.len() ==> count_services(
                old(self).services@,
                global_of(*shard),
            ) == 0 && is_global_service(
                final(self).services@.last(),
                global_of(*shard),
                shard.namespace@,
                old(self).services@,
            ),
            final(self).slices@ == old(self).slices@ || final(self).slices@ == old(self).slices@.push(final(self).slices@.last()),
            final(self).slices@.len() > old(self).slices@.len() ==> count_slices(
                old(self).slices@,
                slice_of(*shard),
            ) == 0 && is_global_slice(
                final(self).slices@.last(),
                global_of(*shard),
                spec_cluster_name(*shard),
                shard.namespace@,
                backing_slices(old(self).slices@, shard.namespace@, shard.name@),
            ),
    {
        let ghost old_services = self.services@;
        let ghost old_slices = self.slices@;
        let ghost covered = count_services(old_services, global_of(*shard)) >= 1 && count_slices(
            old_slices,
            slice_of(*shard),
        ) >= 1;
        let ghost skipped = lookup(shard.labels@, PARENT_NAME_LABEL@) is Some;
        let ghost misn = misnamed(*shard);
        let ghost cs = count_services(old_services, global_of(*shard));
        let ghost cl = count_slices(old_slices, slice_of(*shard));
        let ghost backing = backing_slices(old_slices, shard.namespace@, shard.name@);
        proof {
            lemma_uncounted(old_services, old_slices, shard.namespace@, global_of(*shard), slice_of(*shard));
        }
        let (mut m, mut action) = Reconciler::start(shard, retry_secs);
        loop
            invariant
                old_services == old(self).services@,
                old_slices == old(self).slices@,
                covered == (count_services(old_services, global_of(*shard)) >= 1 && count_slices(
                    old_slices,
                    slice_of(*shard),
                ) >= 1),
                skipped == (lookup(shard.labels@, PARENT_NAME_LABEL@) is Some),
                m.targets(*shard),
                awaits(m.phase, action),
                skipped ==> m.phase == Phase::Done && action == Action::Finish(Signal::Converged),
                m.phase != Phase::Done ==> !skipped,
                m.phase == Phase::CheckService ==> action->CountServices_name@ == global_of(*shard),
                m.phase == Phase::CheckSlice ==> action->CountSlices_name@ == slice_of(*shard),
                m.phase == Phase::CreateService ==> is_global_service(
                    action->CreateService_0,
                    global_of(*shard),
                    shard.namespace@,
                    old_services,
                ),
                m.phase == Phase::GatherEndpoints ==> action->ListSlices_namespace@ == shard.namespace@
                    && action->ListSlices_service_name@ == shard.name@,
                m.phase == Phase::CreateSlice ==> is_global_slice(
                    action->CreateSlice_0,
                    global_of(*shard),
                    spec_cluster_name(*shard),
                    shard.namespace@,
                    backing,
                ),
                misn == misnamed(*shard),
                cs == count_services(old_services, global_of(*shard)),
                cl == count_slices(old_slices, slice_of(*shard)),
                backing == backing_slices(old_slices, shard.namespace@, shard.name@),
                cs == 0 ==> !has_service(old_services, shard.namespace@, global_of(*shard)),
                cl == 0 ==> !has_slice(old_slices, shard.namespace@, slice_of(*shard)),
                m.retry_secs == retry_secs,
                m.phase == Phase::GatherPorts || m.phase == Phase::CreateService ==> cs == 0,
                m.phase == Phase::GatherEndpoints || m.phase == Phase::CreateSlice ==> cl == 0,
                !skipped && misn ==> m.phase == Phase::Done && action == Action::Finish(
                    retry_signal(retry_secs, MirrorError::NameMismatch),
                ) && self.services@ == old_services && self.slices@ == old_slices,
                !skipped && !misn && cs >= 2 ==> (m.phase == Phase::CheckService || (m.phase
                    == Phase::Done && action == Action::Finish(
                    retry_signal(retry_secs, MirrorError::AmbiguousIdentity),
                ))) && self.services@ == old_services && self.slices@ == old_slices,
                !skipped && !misn && cs <= 1 && cl >= 2 ==> self.slices@ == old_slices && (m.phase
                    == Phase::Done ==> action == Action::Finish(
                    retry_signal(retry_secs, MirrorError::AmbiguousIdentity),
                )),
                !skipped && !misn && cs <= 1 && cl <= 1 && m.phase == Phase::Done ==> action
                    == Action::Finish(Signal::Converged),
                rank(m.phase) <= 2 ==> self.services@ == old_services,
                m.phase != Phase::Done ==> self.slices@ == old_slices,
                service_step(old_services, self.services@),
                self.services@.len() > old_services.len() ==> cs == 0 && is_global_service(
                    self.services@.last(),
                    global_of(*shard),
                    shard.namespace@,
                    old_services,
                ),
                self.slices@ == old_slices || (self.slices@ == old_slices.push(self.slices@.last())
                    && cl == 0 && is_global_slice(
                    self.slices@.last(),
                    global_of(*shard),
                    spec_cluster_name(*shard),
                    shard.namespace@,
                    backing,
                )),
                rank(m.phase) >= 3 && m.phase != Phase::Done ==> count_services(
                    self.services@,
                    global_of(*shard),
                ) >= 1,
                !skipped && action == Action::Finish(Signal::Converged) ==> count_services(
                    self.services@,
                    global_of(*shard),
                ) >= 1 && count_slices(self.slices@, slice_of(*shard)) >= 1,
                covered || skipped ==> self.services@ == old_services && self.slices@ == old_slices,
                covered ==> m.phase == Phase::CheckService || m.phase == Phase::CheckSlice || m.phase
                    == Phase::Done,
            decreases 6 - rank(m.phase),
        {
            let next = match action {
                Action::Finish(signal) => {
                    return signal;
                },
                Action::CountServices { name } => {
                    let n = self.count_services_named(&name);
                    m.on_count(n)
                },
                Action::ListServices { namespace: _ } => m.on_services(&self.services),
                Action::CreateService(svc) => {
                    proof {
                        lemma_count_services_push(self.services@, svc, global_of(*shard));
                    }
                    let ghost before = self.services@;
                    match self.create_service(svc) {
                        Ok(()) => {
                            assert(self.services@.drop_last() =~= before);
                            m.on_created()
                        },
                        Err(e) => m.on_failed(e),
                    }
                },
                Action::CountSlices { name } => {
                    let n = self.count_slices_named(&name);
                    m.on_count(n)
                },
                Action::ListSlices { namespace, service_name } => {
                    let found = self.list_backing_slices(&namespace, &service_name);
                    let next = m.on_slices(&found);
                    proof {
                        lemma_global_slice_same_sources(
                            next->CreateSlice_0,
                            global_of(*shard),
                            spec_cluster_name(*shard),
                            shard.namespace@,
                            found@,
                            backing,
                        );
                    }
                    next
                },
                Action::CreateSlice(slice) => {
                    proof {
                        lemma_count_slices_push(self.slices@, slice, slice_of(*shard));
                    }
                    match self.create_slice(slice) {
                        Ok(()) => m.on_created(),
                        Err(e) => m.on_failed(e),
                    }
                },
            };
            action = next;
        }
    }
}

} // verus!
