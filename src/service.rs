//! The global Service: deciding whether it exists, aggregating the ports of
//! its shards, and building the object to create.

use vstd::prelude::*;
use vstd::string::*;

use crate::identity::{spec_cluster_name, spec_global_name, spec_parent_name, Identity, resolve_identity};
use crate::model::{Label, MirrorError, ServiceObject, ServicePort, ServicePortView, GLOBAL_MIRROR_OF_LABEL};
use crate::text::{replace_seq, replace_str};

verus! {

/// What an exact-name query that found `matches` objects says: absent for
/// none, present for one, and a broken uniqueness invariant for more.
pub open spec fn spec_existence(matches: nat) -> Result<bool, MirrorError> {
    if matches == 0 {
        Ok(false)
    } else if matches == 1 {
        Ok(true)
    } else {
        Err(MirrorError::AmbiguousIdentity)
    }
}

/// Decides existence from the number of objects an exact-name query found.
pub fn decide_existence(matches: usize) -> (r: Result<bool, MirrorError>)
    ensures
        r == spec_existence(matches as nat),
{
    if matches == 0 {
        Ok(false)
    } else if matches == 1 {
        Ok(true)
    } else {
        Err(MirrorError::AmbiguousIdentity)
    }
}

/// Whether the global Service of `identity` exists, given the number of
/// Services that the cluster-wide query by its exact name returned; the
/// global name comes back alongside.
pub fn check_if_aggregation_service_exists(identity: &Identity, matches: usize) -> (r: Result<
    (bool, String),
    MirrorError,
>)
    ensures
        matches == 0 ==> r is Ok && !r->Ok_0.0,
        matches == 1 ==> r is Ok && r->Ok_0.0,
        matches > 1 ==> r == Err::<(bool, String), MirrorError>(MirrorError::AmbiguousIdentity),
        r is Ok ==> r->Ok_0.1@ == identity.global_name@,
{
    match decide_existence(matches) {
        Ok(exists) => Ok((exists, identity.global_name.clone())),
        Err(e) => Err(e),
    }
}

/// `svc` is a shard of the global service named `global` in namespace `ns`:
/// it carries a cluster token and its derived global name is `global`.
pub open spec fn belongs_to(svc: ServiceObject, global: Seq<char>, ns: Seq<char>) -> bool {
    &&& svc.namespace@ == ns
    &&& spec_cluster_name(svc).len() > 0
    &&& spec_global_name(spec_parent_name(svc), spec_cluster_name(svc)) == global
}

/// The ports, up to equality, of a list of ports.
pub open spec fn port_set(ports: Seq<ServicePort>) -> Set<ServicePortView> {
    Set::new(|p: ServicePortView| exists|k: int| 0 <= k < ports.len() && (#[trigger] ports[k])@ == p)
}

/// Every port exposed by a shard of `global` in `ns`.
pub open spec fn port_union(services: Seq<ServiceObject>, global: Seq<char>, ns: Seq<char>) -> Set<
    ServicePortView,
> {
    Set::new(
        |p: ServicePortView|
            exists|i: int|
                0 <= i < services.len() && belongs_to(services[i], global, ns) && #[trigger] port_set(
                    services[i].ports@,
                ).contains(p),
    )
}

/// No two ports of the list are equal.
pub open spec fn distinct_ports(ports: Seq<ServicePort>) -> bool {
    forall|a: int, b: int| 0 <= a < b < ports.len() ==> ports[a]@ != ports[b]@
}

fn contains_port(ports: &Vec<ServicePort>, p: &ServicePort) -> (r: bool)
    ensures
        r == port_set(ports@).contains(p@),
{
    let mut k: usize = 0;
    while k < ports.len()
        invariant
            k <= ports@.len(),
            forall|j: int| 0 <= j < k ==> ports@[j]@ != p@,
        decreases ports.len() - k,
    {
        if ports[k] == *p {
            assert(port_set(ports@).contains(p@));
            return true;
        }
        k += 1;
    }
    false
}

/// The ports of the shards of `global` in `ns` among `services`, shard after
/// shard, each shard's ports in its own order.
pub open spec fn member_ports(services: Seq<ServiceObject>, global: Seq<char>, ns: Seq<char>) -> Seq<
    ServicePort,
>
    decreases services.len(),
{
    if services.len() == 0 {
        Seq::empty()
    } else {
        member_ports(services.drop_last(), global, ns) + if belongs_to(services.last(), global, ns) {
            services.last().ports@
        } else {
            Seq::empty()
        }
    }
}

/// `ports` without each port that equals an earlier one: first occurrences
/// kept, in their order.
pub open spec fn first_seen(ports: Seq<ServicePort>) -> Seq<ServicePort>
    decreases ports.len(),
{
    if ports.len() == 0 {
        Seq::empty()
    } else if port_set(ports.drop_last()).contains(ports.last()@) {
        first_seen(ports.drop_last())
    } else {
        first_seen(ports.drop_last()).push(ports.last())
    }
}

proof fn lemma_port_set_push(ports: Seq<ServicePort>, p: ServicePort)
    ensures
        port_set(ports.push(p)) == port_set(ports).insert(p@),
{
    let q = ports.push(p);
    assert forall|v: ServicePortView| port_set(q).contains(v) implies port_set(ports).insert(p@).contains(v) by {
        let k = choose|k: int| 0 <= k < q.len() && (#[trigger] q[k])@ == v;
        if k < ports.len() {
            assert(q[k] == ports[k]);
        }
    }
    assert forall|v: ServicePortView| port_set(ports).insert(p@).contains(v) implies port_set(q).contains(v) by {
        if v == p@ {
            assert(q[ports.len() as int] == p);
        } else {
            let k = choose|k: int| 0 <= k < ports.len() && (#[trigger] ports[k])@ == v;
            assert(q[k] == ports[k]);
        }
    }
    assert(port_set(q) =~= port_set(ports).insert(p@));
}

proof fn lemma_port_set_concat(a: Seq<ServicePort>, b: Seq<ServicePort>)
    ensures
        port_set(a + b) == port_set(a).union(port_set(b)),
{
    let c = a + b;
    assert forall|v: ServicePortView| port_set(c).contains(v) implies port_set(a).union(port_set(b)).contains(v) by {
        let k = choose|k: int| 0 <= k < c.len() && (#[trigger] c[k])@ == v;
        if k < a.len() {
            assert(c[k] == a[k]);
        } else {
            assert(c[k] == b[k - a.len()]);
        }
    }
    assert forall|v: ServicePortView| port_set(a).union(port_set(b)).contains(v) implies port_set(c).contains(v) by {
        if port_set(a).contains(v) {
            let k = choose|k: int| 0 <= k < a.len() && (#[trigger] a[k])@ == v;
            assert(c[k] == a[k]);
        } else {
            let k = choose|k: int| 0 <= k < b.len() && (#[trigger] b[k])@ == v;
            assert(c[k + a.len()] == b[k]);
        }
    }
    assert(port_set(c) =~= port_set(a).union(port_set(b)));
}

proof fn lemma_first_seen(ports: Seq<ServicePort>)
    ensures
        port_set(first_seen(ports)) == port_set(ports),
        distinct_ports(first_seen(ports)),
    decreases ports.len(),
{
    if ports.len() > 0 {
        let rest = ports.drop_last();
        let p = ports.last();
        lemma_first_seen(rest);
        assert(ports =~= rest.push(p));
        lemma_port_set_push(rest, p);
        if !port_set(rest).contains(p@) {
            let f = first_seen(rest);
            lemma_port_set_push(f, p);
            assert forall|a: int, b: int| 0 <= a < b < f.push(p).len() implies f.push(p)[a]@ != f.push(p)[b]@ by {
                if b == f.len() {
                    assert(f.push(p)[a] == f[a]);
                    assert(port_set(f).contains(f[a]@));
                } else {
                    assert(f.push(p)[a] == f[a]);
                    assert(f.push(p)[b] == f[b]);
                }
            }
        } else {
            assert(port_set(rest).insert(p@) =~= port_set(rest));
        }
    }
}

proof fn lemma_member_union(services: Seq<ServiceObject>, global: Seq<char>, ns: Seq<char>)
    ensures
        port_set(member_ports(services, global, ns)) == port_union(services, global, ns),
    decreases services.len(),
{
    if services.len() == 0 {
        assert(port_set(Seq::<ServicePort>::empty()) =~= Set::<ServicePortView>::empty());
        assert(port_union(services, global, ns) =~= Set::<ServicePortView>::empty());
    } else {
        let rest = services.drop_last();
        let last = services.last();
        lemma_member_union(rest, global, ns);
        let tail = if belongs_to(last, global, ns) {
            last.ports@
        } else {
            Seq::<ServicePort>::empty()
        };
        lemma_port_set_concat(member_ports(rest, global, ns), tail);
        assert forall|v: ServicePortView| port_union(services, global, ns).contains(v) <==> (port_union(rest, global, ns).contains(v) || port_set(tail).contains(v)) by {
            if port_union(services, global, ns).contains(v) {
                let i = choose|i: int| 0 <= i < services.len() && belongs_to(services[i], global, ns) && #[trigger] port_set(services[i].ports@).contains(v);
                if i < rest.len() {
                    assert(rest[i] == services[i]);
                } else {
                    assert(services[i] == last);
                }
            }
            if port_union(rest, global, ns).contains(v) {
                let i = choose|i: int| 0 <= i < rest.len() && belongs_to(rest[i], global, ns) && #[trigger] port_set(rest[i].ports@).contains(v);
                assert(rest[i] == services[i]);
            }
            if port_set(tail).contains(v) {
                if !belongs_to(last, global, ns) {
                    let k = choose|k: int| 0 <= k < tail.len() && (#[trigger] tail[k])@ == v;
                }
                assert(services[services.len() - 1] == last);
            }
        }
        assert(port_union(services, global, ns) =~= port_union(rest, global, ns).union(port_set(tail)));
    }
}

/// The ports of every shard of the global service `global_svc_name` in
/// `namespace` among `services`: shard after shard in list order, each port
/// kept where it first occurs and left out where it repeats.
pub fn list_svc_port(global_svc_name: &String, namespace: &String, services: &Vec<ServiceObject>) -> (r:
    Vec<ServicePort>)
    ensures
        r@ == first_seen(member_ports(services@, global_svc_name@, namespace@)),
        distinct_ports(r@),
        port_set(r@) == port_union(services@, global_svc_name@, namespace@),
{
    let mut out: Vec<ServicePort> = Vec::new();
    let mut i: usize = 0;
    while i < services.len()
        invariant
            i <= services@.len(),
            out@ == first_seen(member_ports(services@.subrange(0, i as int), global_svc_name@, namespace@)),
        decreases services.len() - i,
    {
        let svc = &services[i];
        let identity = resolve_identity(svc);
        let member = svc.namespace == *namespace && identity.cluster_name.unicode_len() > 0
            && identity.global_name == *global_svc_name;
        assert(member == belongs_to(*svc, global_svc_name@, namespace@));
        let ghost base = member_ports(services@.subrange(0, i as int), global_svc_name@, namespace@);
        let mut j: usize = 0;
        if member {
            assert(base + svc.ports@.subrange(0, 0) =~= base);
            while j < svc.ports.len()
                invariant
                    0 <= i < services@.len(),
                    *svc == services@[i as int],
                    j <= svc.ports@.len(),
                    out@ == first_seen(base + svc.ports@.subrange(0, j as int)),
                decreases svc.ports.len() - j,
            {
                let p = &svc.ports[j];
                let ghost cur = base + svc.ports@.subrange(0, j as int);
                let ghost next = base + svc.ports@.subrange(0, j + 1);
                proof {
                    assert(next =~= cur.push(*p));
                    assert(next.drop_last() =~= cur);
                    lemma_first_seen(cur);
                }
                if !contains_port(&out, p) {
                    out.push(p.clone());
                }
                j += 1;
            }
        }
        proof {
            let next = services@.subrange(0, i + 1);
            assert(next.drop_last() =~= services@.subrange(0, i as int));
            assert(next.last() == *svc);
            if member {
                assert(svc.ports@.subrange(0, svc.ports@.len() as int) =~= svc.ports@);
            } else {
                assert(base + Seq::<ServicePort>::empty() =~= base);
            }
        }
        i += 1;
    }
    proof {
        assert(services@.subrange(0, services@.len() as int) =~= services@);
        lemma_first_seen(member_ports(services@, global_svc_name@, namespace@));
        lemma_member_union(services@, global_svc_name@, namespace@);
    }
    out
}

/// Shard lists holding the same services give the same port union, whatever
/// the order the store returned them in.
pub proof fn lemma_port_union_order_free(
    a: Seq<ServiceObject>,
    b: Seq<ServiceObject>,
    global: Seq<char>,
    ns: Seq<char>,
)
    requires
        forall|s: ServiceObject| a.contains(s) <==> b.contains(s),
    ensures
        port_union(a, global, ns) == port_union(b, global, ns),
{
    assert forall|q: ServicePortView| port_union(a, global, ns).contains(q) implies port_union(b, global, ns).contains(q) by {
        let i = choose|i: int| 0 <= i < a.len() && belongs_to(a[i], global, ns) && #[trigger] port_set(a[i].ports@).contains(q);
        assert(a.contains(a[i]));
        let k = choose|k: int| 0 <= k < b.len() && #[trigger] b[k] == a[i];
    }
    assert forall|q: ServicePortView| port_union(b, global, ns).contains(q) implies port_union(a, global, ns).contains(q) by {
        let i = choose|i: int| 0 <= i < b.len() && belongs_to(b[i], global, ns) && #[trigger] port_set(b[i].ports@).contains(q);
        assert(b.contains(b[i]));
        let k = choose|k: int| 0 <= k < a.len() && #[trigger] a[k] == b[i];
    }
    assert(port_union(a, global, ns) =~= port_union(b, global, ns));
}

/// `svc` is the global Service named `global` in `ns` for the shards among
/// `services`: headless, labelled with the service it mirrors, exposing each
/// port of those shards once, in the order first seen.
pub open spec fn is_global_service(
    svc: ServiceObject,
    global: Seq<char>,
    ns: Seq<char>,
    services: Seq<ServiceObject>,
) -> bool {
    &&& svc.name@ == global
    &&& svc.namespace@ == ns
    &&& svc.labels@.len() == 1
    &&& svc.labels@[0].key@ == GLOBAL_MIRROR_OF_LABEL@
    &&& svc.labels@[0].value@ == replace_seq(global, "-global"@, ""@)
    &&& svc.ports@ == first_seen(member_ports(services, global, ns))
    &&& distinct_ports(svc.ports@)
    &&& port_set(svc.ports@) == port_union(services, global, ns)
    &&& svc.cluster_ip is Some && svc.cluster_ip->0@ == "None"@
}

/// The global Service to create: headless, named `global_svc_name` in `ns`,
/// labelled with the service it mirrors (the global name without `-global`),
/// exposing `ports`.
pub fn create_global_svc(global_svc_name: &String, ns: &String, ports: Vec<ServicePort>) -> (r:
    ServiceObject)
    ensures
        r.name@ == global_svc_name@,
        r.namespace@ == ns@,
        r.labels@.len() == 1,
        r.labels@[0].key@ == GLOBAL_MIRROR_OF_LABEL@,
        r.labels@[0].value@ == replace_seq(global_svc_name@, "-global"@, ""@),
        r.ports == ports,
        r.cluster_ip is Some && r.cluster_ip->0@ == "None"@,
{
    proof {
        reveal_strlit("-global");
    }
    let mirror_of = replace_str(global_svc_name.as_str(), "-global", "");
    let mut labels: Vec<Label> = Vec::new();
    labels.push(Label::new(GLOBAL_MIRROR_OF_LABEL, mirror_of));
    ServiceObject {
        name: global_svc_name.clone(),
        namespace: ns.clone(),
        labels,
        ports,
        cluster_ip: Some(String::from_str("None")),
    }
}

} // verus!
