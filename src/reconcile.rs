//! The reconcile driver: the decisions of one reconciliation of a shard
//! service, as a state machine. Each step names the store operation to
//! perform next; whoever runs the machine performs it and reports back.

use vstd::prelude::*;
use vstd::string::*;

use crate::endpoints::{create_ep_slice, is_global_slice, slice_name, spec_slice_name};
use crate::identity::{
    has_parent_label, resolve_identity, spec_cluster_name, spec_degenerate, spec_global_name,
    spec_parent_name,
    Identity,
};
use crate::model::{lookup, EndpointSliceObject, MirrorError, ServiceObject, PARENT_NAME_LABEL};
use crate::service::{create_global_svc, decide_existence, is_global_service, list_svc_port, spec_existence};

verus! {

/// Where a reconciliation stands: each phase but `Done` waits for the result
/// of one store operation.
#[derive(Debug, Clone, Copy, PartialEq, Eq, Structural)]
pub enum Phase {
    /// Waits for the number of Services named like the global Service.
    CheckService,
    /// Waits for the Services of the shard's namespace.
    GatherPorts,
    /// Waits for the creation of the global Service.
    CreateService,
    /// Waits for the number of EndpointSlices named like the global slice.
    CheckSlice,
    /// Waits for the EndpointSlices that back the shard.
    GatherEndpoints,
    /// Waits for the creation of the global slice.
    CreateSlice,
    /// Finished.
    Done,
}

/// What the driver hands back when a reconciliation ends.
#[derive(Debug, Clone, Copy, PartialEq, Eq, Structural)]
pub enum Signal {
    /// Nothing more to do until the object changes again.
    Converged,
    /// Run the reconciliation again from the start after `secs` seconds.
    RetryAfter { secs: u64, error: MirrorError },
}

/// The store operation the driver asks for next.
pub enum Action {
    /// Count the Services named `name`, in every namespace.
    CountServices { name: String },
    /// List the Services of `namespace`.
    ListServices { namespace: String },
    /// Create this Service.
    CreateService(ServiceObject),
    /// Count the EndpointSlices named `name`, in every namespace.
    CountSlices { name: String },
    /// List the EndpointSlices of `namespace` labelled as backing `service_name`.
    ListSlices { namespace: String, service_name: String },
    /// Create this EndpointSlice.
    CreateSlice(EndpointSliceObject),
    /// The reconciliation is over.
    Finish(Signal),
}

/// The operation that `action` asks for is the one `phase` waits for.
pub open spec fn awaits(phase: Phase, action: Action) -> bool {
    match phase {
        Phase::CheckService => action is CountServices,
        Phase::GatherPorts => action is ListServices,
        Phase::CreateService => action is CreateService,
        Phase::CheckSlice => action is CountSlices,
        Phase::GatherEndpoints => action is ListSlices,
        Phase::CreateSlice => action is CreateSlice,
        Phase::Done => action is Finish,
    }
}

/// `shard` carries a cluster token that is not the `-<cluster>` suffix of its
/// parent name.
pub open spec fn misnamed(shard: ServiceObject) -> bool {
    spec_cluster_name(shard).len() > 0 && spec_degenerate(
        spec_parent_name(shard),
        spec_cluster_name(shard),
    )
}

/// How far along a reconciliation is; every step moves it forward.
pub open spec fn rank(phase: Phase) -> nat {
    match phase {
        Phase::CheckService => 0,
        Phase::GatherPorts => 1,
        Phase::CreateService => 2,
        Phase::CheckSlice => 3,
        Phase::GatherEndpoints => 4,
        Phase::CreateSlice => 5,
        Phase::Done => 6,
    }
}

/// One reconciliation of one shard service.
pub struct Reconciler {
    /// The namespace of the shard, where the global objects are created.
    pub namespace: String,
    /// The name of the shard.
    pub shard_name: String,
    pub identity: Identity,
    pub phase: Phase,
    /// The delay before a failed reconciliation is tried again.
    pub retry_secs: u64,
}

impl Reconciler {
    /// The shard and the settings did not change from `self` to `other`.
    pub open spec fn same_target(self, other: Reconciler) -> bool {
        &&& other.namespace@ == self.namespace@
        &&& other.shard_name@ == self.shard_name@
        &&& other.identity.parent_name@ == self.identity.parent_name@
        &&& other.identity.cluster_name@ == self.identity.cluster_name@
        &&& other.identity.global_name@ == self.identity.global_name@
        &&& other.identity.degenerate == self.identity.degenerate
        &&& other.retry_secs == self.retry_secs
    }

    /// The reconciliation was started for `shard`.
    pub open spec fn targets(self, shard: ServiceObject) -> bool {
        &&& self.namespace@ == shard.namespace@
        &&& self.shard_name@ == shard.name@
        &&& self.identity.parent_name@ == spec_parent_name(shard)
        &&& self.identity.cluster_name@ == spec_cluster_name(shard)
        &&& self.identity.global_name@ == spec_global_name(
            spec_parent_name(shard),
            spec_cluster_name(shard),
        )
    }

    /// The name of the global slice this reconciliation ensures.
    pub open spec fn slice_name(self) -> Seq<char> {
        spec_slice_name(self.identity.global_name@, self.identity.cluster_name@)
    }

    /// The action that ends the reconciliation with `error`, to be retried.
    pub open spec fn retry(self, error: MirrorError) -> Action {
        Action::Finish(Signal::RetryAfter { secs: self.retry_secs, error })
    }

    /// Starts reconciling `shard`. A per-pod mirror, which carries the
    /// parent-name label, needs no work: only per-cluster shards drive the
    /// global objects. A shard whose cluster token is not the `-<cluster>`
    /// suffix of its parent name is a naming error, retried in case the labels
    /// are mended. Any other shard, one without a cluster token included,
    /// first has the global Service looked up by its exact name.
    pub fn start(shard: &ServiceObject, retry_secs: u64) -> (r: (Reconciler, Action))
        ensures
            r.0.targets(*shard),
            r.0.retry_secs == retry_secs,
            awaits(r.0.phase, r.1),
            lookup(shard.labels@, PARENT_NAME_LABEL@) is Some ==> r.0.phase == Phase::Done && r.1
                == Action::Finish(Signal::Converged),
            lookup(shard.labels@, PARENT_NAME_LABEL@) is None && misnamed(*shard) ==> r.0.phase
                == Phase::Done && r.1 == r.0.retry(MirrorError::NameMismatch),
            lookup(shard.labels@, PARENT_NAME_LABEL@) is None && !misnamed(*shard) ==> r.0.phase
                == Phase::CheckService && r.1 is CountServices && r.1->CountServices_name@
                == r.0.identity.global_name@,
    {
        let skip = has_parent_label(shard);
        let identity = resolve_identity(shard);
        let (phase, action) = if skip {
            (Phase::Done, Action::Finish(Signal::Converged))
        } else if identity.cluster_name.unicode_len() > 0 && identity.degenerate {
            (
                Phase::Done,
                Action::Finish(Signal::RetryAfter { secs: retry_secs, error: MirrorError::NameMismatch }),
            )
        } else {
            (Phase::CheckService, Action::CountServices { name: identity.global_name.clone() })
        };
        let m = Reconciler {
            namespace: shard.namespace.clone(),
            shard_name: shard.name.clone(),
            identity,
            phase,
            retry_secs,
        };
        (m, action)
    }

    fn finish(&mut self, signal: Signal) -> (r: Action)
        ensures
            old(self).same_target(*final(self)),
            final(self).phase == Phase::Done,
            r == Action::Finish(signal),
    {
        self.phase = Phase::Done;
        Action::Finish(signal)
    }

    fn count_slices(&mut self) -> (r: Action)
        ensures
            old(self).same_target(*final(self)),
            final(self).phase == Phase::CheckSlice,
            r is CountSlices && r->CountSlices_name@ == old(self).slice_name(),
    {
        self.phase = Phase::CheckSlice;
        Action::CountSlices { name: slice_name(&self.identity.global_name, &self.identity.cluster_name) }
    }

    /// Takes the number of objects that the exact-name query of the current
    /// phase found. For the global Service: none means it is built next, one
    /// means the slice is checked next. For the global slice: none means it is
    /// built next, one means the reconciliation converged. More than one is
    /// ambiguous and ends the reconciliation with a retry.
    pub fn on_count(&mut self, matches: usize) -> (r: Action)
        requires
            old(self).phase == Phase::CheckService || old(self).phase == Phase::CheckSlice,
        ensures
            old(self).same_target(*final(self)),
            awaits(final(self).phase, r),
            rank(final(self).phase) > rank(old(self).phase),
            old(self).phase == Phase::CheckService ==> match spec_existence(matches as nat) {
                Ok(true) => final(self).phase == Phase::CheckSlice && r->CountSlices_name@ == old(self).slice_name(),
                Ok(false) => final(self).phase == Phase::GatherPorts && r->ListServices_namespace@
                    == old(self).namespace@,
                Err(e) => final(self).phase == Phase::Done && r == old(self).retry(e),
            },
            old(self).phase == Phase::CheckSlice ==> match spec_existence(matches as nat) {
                Ok(true) => final(self).phase == Phase::Done && r == Action::Finish(
                    Signal::Converged,
                ),
                Ok(false) => final(self).phase == Phase::GatherEndpoints
                    && r->ListSlices_namespace@ == old(self).namespace@
                    && r->ListSlices_service_name@ == old(self).shard_name@,
                Err(e) => final(self).phase == Phase::Done && r == old(self).retry(e),
            },
    {
        let secs = self.retry_secs;
        match decide_existence(matches) {
            Err(e) => self.finish(Signal::RetryAfter { secs, error: e }),
            Ok(true) => {
                if self.phase == Phase::CheckService {
                    self.count_slices()
                } else {
                    self.finish(Signal::Converged)
                }
            },
            Ok(false) => {
                if self.phase == Phase::CheckService {
                    self.phase = Phase::GatherPorts;
                    Action::ListServices { namespace: self.namespace.clone() }
                } else {
                    self.phase = Phase::GatherEndpoints;
                    Action::ListSlices {
                        namespace: self.namespace.clone(),
                        service_name: self.shard_name.clone(),
                    }
                }
            },
        }
    }

    /// Takes the Services of the shard's namespace and builds the global
    /// Service from the ports of the shards among them.
    pub fn on_services(&mut self, services: &Vec<ServiceObject>) -> (r: Action)
        requires
            old(self).phase == Phase::GatherPorts,
        ensures
            old(self).same_target(*final(self)),
            final(self).phase == Phase::CreateService,
            r is CreateService,
            is_global_service(
                r->CreateService_0,
                old(self).identity.global_name@,
                old(self).namespace@,
                services@,
            ),
    {
        let ports = list_svc_port(&self.identity.global_name, &self.namespace, services);
        let svc = create_global_svc(&self.identity.global_name, &self.namespace, ports);
        self.phase = Phase::CreateService;
        Action::CreateService(svc)
    }

    /// Takes the EndpointSlices that back the shard and builds the global slice
    /// for the shard's cluster.
    pub fn on_slices(&mut self, shard_slices: &Vec<EndpointSliceObject>) -> (r: Action)
        requires
            old(self).phase == Phase::GatherEndpoints,
        ensures
            old(self).same_target(*final(self)),
            final(self).phase == Phase::CreateSlice,
            r is CreateSlice,
            is_global_slice(
                r->CreateSlice_0,
                old(self).identity.global_name@,
                old(self).identity.cluster_name@,
                old(self).namespace@,
                shard_slices@,
            ),
    {
        let slice = create_ep_slice(
            &self.namespace,
            &self.identity.global_name,
            &self.identity.cluster_name,
            shard_slices,
        );
        self.phase = Phase::CreateSlice;
        Action::CreateSlice(slice)
    }

    /// The create call of the current phase succeeded: after the global
    /// Service the slice is checked; after the slice the reconciliation
    /// converged.
    pub fn on_created(&mut self) -> (r: Action)
        requires
            old(self).phase == Phase::CreateService || old(self).phase == Phase::CreateSlice,
        ensures
            old(self).same_target(*final(self)),
            awaits(final(self).phase, r),
            rank(final(self).phase) > rank(old(self).phase),
            old(self).phase == Phase::CreateService ==> final(self).phase == Phase::CheckSlice
                && r->CountSlices_name@ == old(self).slice_name(),
            old(self).phase == Phase::CreateSlice ==> final(self).phase == Phase::Done && r
                == Action::Finish(Signal::Converged),
    {
        if self.phase == Phase::CreateService {
            self.count_slices()
        } else {
            self.finish(Signal::Converged)
        }
    }

    /// The store operation of the current phase failed (a conflict on create
    /// included): the reconciliation ends and is to be tried again.
    pub fn on_failed(&mut self, error: MirrorError) -> (r: Action)
        requires
            old(self).phase != Phase::Done,
        ensures
            old(self).same_target(*final(self)),
            final(self).phase == Phase::Done,
            r == old(self).retry(error),
    {
        let secs = self.retry_secs;
        self.finish(Signal::RetryAfter { secs, error })
    }
}

} // verus!
