//! Mirrors per-cluster headless services into one cluster-spanning global
//! Service and one EndpointSlice per source cluster.
//!
//! The library holds the reconciliation logic: deriving the global identity of
//! a shard from its labels, deciding existence from name queries, aggregating
//! ports, translating endpoints, and the driver that sequences these steps
//! against an object store. Talking to a real store is left to the caller,
//! which performs the actions the driver asks for and hands back what it saw.
//! An in-memory store runs the same driver for tests and simulations.

mod endpoints;
mod identity;
mod model;
mod reconcile;
mod service;
mod store;
mod text;

pub use endpoints::{
    create_ep_slice, get_address_type, get_eps_labels, lemma_qualify_once, list_endpoints,
    list_ports, qualify_hostname, slice_name,
};
pub use identity::{
    get_cluster_name, get_parent_name, global_name_of, has_parent_label, resolve_identity,
    Identity,
};
pub use model::{
    label_value, Endpoint, EndpointPort, EndpointSliceObject, Label, MirrorError, ObjectRef,
    PortTarget, ServiceObject, ServicePort, ZoneHints, CLUSTER_NAME_LABEL, CONTROLLER_NAME, GLOBAL_MIRROR_OF_LABEL,
    MANAGED_BY_LABEL, PARENT_NAME_LABEL, SERVICE_NAME_LABEL,
};
pub use reconcile::{Action, Phase, Reconciler, Signal};
pub use service::{
    check_if_aggregation_service_exists, create_global_svc, decide_existence,
    lemma_port_union_order_free, list_svc_port,
};
pub use store::{lemma_created_then_exists, lemma_one_global_service, MemStore};
pub use text::{contains_str, ends_with_str, replace_str};
