//! Deriving the global identity of a shard service from its labels.

use vstd::prelude::*;
use vstd::string::*;

use crate::model::{label_value, lookup, ServiceObject, CLUSTER_NAME_LABEL, PARENT_NAME_LABEL};
use crate::text::{ends_with_seq, ends_with_str, replace_seq, replace_str};

verus! {

/// The name, cluster and global name a shard service answers to.
pub struct Identity {
    /// The headless service the shard belongs to.
    pub parent_name: String,
    /// The cluster the shard was mirrored from; empty when the label is missing.
    pub cluster_name: String,
    /// The name of the global Service that aggregates the shard.
    pub global_name: String,
    /// Set when the global name could not be derived by the naming convention:
    /// the cluster token is missing or is not a `-<cluster>` suffix of the parent.
    pub degenerate: bool,
}

/// The parent-name label's value, or the service's own name without it.
pub open spec fn spec_parent_name(svc: ServiceObject) -> Seq<char> {
    match lookup(svc.labels@, PARENT_NAME_LABEL@) {
        Some(v) => v,
        None => svc.name@,
    }
}

/// The cluster-name label's value, or the empty token without it.
pub open spec fn spec_cluster_name(svc: ServiceObject) -> Seq<char> {
    match lookup(svc.labels@, CLUSTER_NAME_LABEL@) {
        Some(v) => v,
        None => Seq::empty(),
    }
}

/// The global name: `-<cluster>` in the parent name replaced by `-global`;
/// the parent name itself when there is no cluster token.
pub open spec fn spec_global_name(parent: Seq<char>, cluster: Seq<char>) -> Seq<char> {
    if cluster.len() == 0 {
        parent
    } else {
        replace_seq(parent, "-"@ + cluster, "-global"@)
    }
}

/// The naming convention does not hold: no cluster token, or the parent name
/// does not end with `-<cluster>`.
pub open spec fn spec_degenerate(parent: Seq<char>, cluster: Seq<char>) -> bool {
    cluster.len() == 0 || !ends_with_seq(parent, "-"@ + cluster)
}

/// Whether the service carries the parent-name label, which marks a per-pod
/// mirror rather than a per-cluster shard.
pub fn has_parent_label(svc: &ServiceObject) -> (r: bool)
    ensures
        r == (lookup(svc.labels@, PARENT_NAME_LABEL@) is Some),
{
    label_value(&svc.labels, PARENT_NAME_LABEL).is_some()
}

/// The name of the headless service that `svc` belongs to.
pub fn get_parent_name(svc: &ServiceObject) -> (r: String)
    ensures
        r@ == spec_parent_name(*svc),
{
    match label_value(&svc.labels, PARENT_NAME_LABEL) {
        Some(v) => v,
        None => svc.name.clone(),
    }
}

/// The cluster that `svc` was mirrored from, empty when unlabelled.
pub fn get_cluster_name(svc: &ServiceObject) -> (r: String)
    ensures
        r@ == spec_cluster_name(*svc),
{
    match label_value(&svc.labels, CLUSTER_NAME_LABEL) {
        Some(v) => v,
        None => String::new(),
    }
}

/// `-<cluster>`.
fn cluster_suffix(cluster: &String) -> (r: String)
    ensures
        r@ == "-"@ + cluster@,
        r@.len() > 0,
{
    proof {
        reveal_strlit("-");
    }
    let mut r = String::from_str("-");
    r.append(cluster.as_str());
    r
}

/// The global name derived from a parent name and a cluster token.
pub fn global_name_of(parent: &String, cluster: &String) -> (r: String)
    ensures
        r@ == spec_global_name(parent@, cluster@),
{
    if cluster.unicode_len() == 0 {
        parent.clone()
    } else {
        let pat = cluster_suffix(cluster);
        replace_str(parent.as_str(), pat.as_str(), "-global")
    }
}

/// Resolves the identity of a shard service from its labels and name.
pub fn resolve_identity(svc: &ServiceObject) -> (r: Identity)
    ensures
        r.parent_name@ == spec_parent_name(*svc),
        r.cluster_name@ == spec_cluster_name(*svc),
        r.global_name@ == spec_global_name(spec_parent_name(*svc), spec_cluster_name(*svc)),
        r.degenerate == spec_degenerate(spec_parent_name(*svc), spec_cluster_name(*svc)),
{
    let parent_name = get_parent_name(svc);
    let cluster_name = get_cluster_name(svc);
    let global_name = global_name_of(&parent_name, &cluster_name);
    let degenerate = if cluster_name.unicode_len() == 0 {
        true
    } else {
        let pat = cluster_suffix(&cluster_name);
        !ends_with_str(parent_name.as_str(), pat.as_str())
    };
    Identity { parent_name, cluster_name, global_name, degenerate }
}

} // verus!
