//! The global EndpointSlices: translating a shard's endpoints so that their
//! hostnames name the cluster, and building the slice to create.

use vstd::prelude::*;
use vstd::string::*;

use crate::model::{
    opt_view, Endpoint, EndpointPort, EndpointSliceObject, Label, CLUSTER_NAME_LABEL,
    CONTROLLER_NAME, MANAGED_BY_LABEL, SERVICE_NAME_LABEL,
};
use crate::text::{contains_seq, contains_str};

verus! {

/// The labels of a global EndpointSlice backing `svc` for `cluster`: the
/// cluster it came from, the global Service it backs, and this controller as
/// its manager.
pub open spec fn is_eps_labels(labels: Seq<Label>, svc: Seq<char>, cluster: Seq<char>) -> bool {
    &&& labels.len() == 3
    &&& labels[0].key@ == CLUSTER_NAME_LABEL@
    &&& labels[0].value@ == cluster
    &&& labels[1].key@ == SERVICE_NAME_LABEL@
    &&& labels[1].value@ == svc
    &&& labels[2].key@ == MANAGED_BY_LABEL@
    &&& labels[2].value@ == CONTROLLER_NAME@
}

/// The labels of the global EndpointSlice that backs `svc_refer_to` with the
/// endpoints of `cluster_name`.
pub fn get_eps_labels(svc_refer_to: String, cluster_name: String) -> (r: Vec<Label>)
    ensures
        is_eps_labels(r@, svc_refer_to@, cluster_name@),
{
    let mut labels: Vec<Label> = Vec::new();
    labels.push(Label::new(CLUSTER_NAME_LABEL, cluster_name));
    labels.push(Label::new(SERVICE_NAME_LABEL, svc_refer_to));
    labels.push(Label::new(MANAGED_BY_LABEL, CONTROLLER_NAME.to_string()));
    labels
}

/// A hostname qualified by a cluster token: unchanged when it already holds
/// the token, else suffixed with `-<cluster>`; a missing hostname becomes empty.
pub open spec fn spec_qualified(hostname: Option<Seq<char>>, cluster: Seq<char>) -> Seq<char> {
    match hostname {
        Some(h) => if contains_seq(h, cluster) {
            h
        } else {
            h + "-"@ + cluster
        },
        None => Seq::empty(),
    }
}

/// Qualifies a hostname with the cluster it was mirrored from.
pub fn qualify_hostname(hostname: &Option<String>, cluster_name: &String) -> (r: String)
    ensures
        r@ == spec_qualified(opt_view(*hostname), cluster_name@),
{
    match hostname {
        Some(h) => {
            if contains_str(h.as_str(), cluster_name.as_str()) {
                h.clone()
            } else {
                let mut r = h.clone();
                r.append("-");
                r.append(cluster_name.as_str());
                r
            }
        },
        None => String::new(),
    }
}

/// Qualifying a hostname a second time changes nothing.
pub proof fn lemma_qualify_once(hostname: Seq<char>, cluster: Seq<char>)
    ensures
        spec_qualified(Some(spec_qualified(Some(hostname), cluster)), cluster) == spec_qualified(
            Some(hostname),
            cluster,
        ),
{
    if !contains_seq(hostname, cluster) {
        let q = hostname + "-"@ + cluster;
        let at = q.len() - cluster.len();
        assert(q.subrange(at, at + cluster.len()) =~= cluster);
        assert(crate::text::occurs_at(q, cluster, at));
    }
}

/// `out` is `src` with its hostname qualified by `cluster`; everything else
/// is carried over.
pub open spec fn translated(src: Endpoint, out: Endpoint, cluster: Seq<char>) -> bool {
    &&& out.same_but_hostname(src)
    &&& out.hostname is Some
    &&& out.hostname->0@ == spec_qualified(opt_view(src.hostname), cluster)
}

/// The endpoints of all slices, slice after slice.
pub open spec fn flat_endpoints(slices: Seq<EndpointSliceObject>) -> Seq<Endpoint>
    decreases slices.len(),
{
    if slices.len() == 0 {
        Seq::empty()
    } else {
        flat_endpoints(slices.drop_last()) + slices.last().endpoints@
    }
}

/// The ports of all slices, slice after slice.
pub open spec fn flat_ports(slices: Seq<EndpointSliceObject>) -> Seq<EndpointPort>
    decreases slices.len(),
{
    if slices.len() == 0 {
        Seq::empty()
    } else {
        flat_ports(slices.drop_last()) + slices.last().ports@
    }
}

fn translate_endpoint(ep: &Endpoint, cluster_name: &String) -> (r: Endpoint)
    ensures
        translated(*ep, r, cluster_name@),
{
    let hostname = qualify_hostname(&ep.hostname, cluster_name);
    ep.with_hostname(Some(hostname))
}

/// The endpoints of the shard's slices, in order, each with its hostname
/// qualified by `cluster_name`.
pub fn list_endpoints(endpoints_list: &Vec<EndpointSliceObject>, cluster_name: &String) -> (r: Vec<
    Endpoint,
>)
    ensures
        r@.len() == flat_endpoints(endpoints_list@).len(),
        forall|k: int|
            0 <= k < r@.len() ==> translated(
                #[trigger] flat_endpoints(endpoints_list@)[k],
                r@[k],
                cluster_name@,
            ),
{
    let mut out: Vec<Endpoint> = Vec::new();
    let mut i: usize = 0;
    while i < endpoints_list.len()
        invariant
            i <= endpoints_list@.len(),
            out@.len() == flat_endpoints(endpoints_list@.subrange(0, i as int)).len(),
            forall|k: int|
                0 <= k < out@.len() ==> translated(
                    #[trigger] flat_endpoints(endpoints_list@.subrange(0, i as int))[k],
                    out@[k],
                    cluster_name@,
                ),
        decreases endpoints_list.len() - i,
    {
        let slice = &endpoints_list[i];
        let ghost prev = flat_endpoints(endpoints_list@.subrange(0, i as int));
        let ghost base = out@.len();
        let mut j: usize = 0;
        while j < slice.endpoints.len()
            invariant
                i < endpoints_list@.len(),
                *slice == endpoints_list@[i as int],
                j <= slice.endpoints@.len(),
                base == prev.len(),
                out@.len() == base + j,
                forall|k: int| 0 <= k < base ==> translated(#[trigger] prev[k], out@[k], cluster_name@),
                forall|k: int|
                    0 <= k < j ==> translated(
                        #[trigger] slice.endpoints@[k],
                        out@[base + k],
                        cluster_name@,
                    ),
            decreases slice.endpoints.len() - j,
        {
            let t = translate_endpoint(&slice.endpoints[j], cluster_name);
            out.push(t);
            j += 1;
        }
        proof {
            let next = endpoints_list@.subrange(0, i + 1);
            assert(next.drop_last() =~= endpoints_list@.subrange(0, i as int));
            assert(flat_endpoints(next) == prev + slice.endpoints@);
            assert forall|k: int| 0 <= k < out@.len() implies translated(
                #[trigger] flat_endpoints(next)[k],
                out@[k],
                cluster_name@,
            ) by {
                if k >= base {
                    assert(translated(slice.endpoints@[k - base], out@[base + (k - base)], cluster_name@));
                }
            }
        }
        i += 1;
    }
    assert(endpoints_list@.subrange(0, endpoints_list@.len() as int) =~= endpoints_list@);
    out
}

/// The ports of the shard's slices, in order.
pub fn list_ports(endpoints_list: &Vec<EndpointSliceObject>) -> (r: Vec<EndpointPort>)
    ensures
        r@ == flat_ports(endpoints_list@),
{
    let mut out: Vec<EndpointPort> = Vec::new();
    let mut i: usize = 0;
    while i < endpoints_list.len()
        invariant
            i <= endpoints_list@.len(),
            out@ == flat_ports(endpoints_list@.subrange(0, i as int)),
        decreases endpoints_list.len() - i,
    {
        let slice = &endpoints_list[i];
        let ghost prev = out@;
        let mut j: usize = 0;
        while j < slice.ports.len()
            invariant
                i < endpoints_list@.len(),
                *slice == endpoints_list@[i as int],
                j <= slice.ports@.len(),
                out@ == prev + slice.ports@.subrange(0, j as int),
            decreases slice.ports.len() - j,
        {
            out.push(slice.ports[j].clone());
            assert(slice.ports@.subrange(0, j + 1) =~= slice.ports@.subrange(0, j as int).push(
                slice.ports@[j as int],
            ));
            assert(out@ =~= prev + slice.ports@.subrange(0, j + 1));
            j += 1;
        }
        proof {
            let next = endpoints_list@.subrange(0, i + 1);
            assert(next.drop_last() =~= endpoints_list@.subrange(0, i as int));
            assert(slice.ports@.subrange(0, slice.ports@.len() as int) =~= slice.ports@);
        }
        i += 1;
    }
    assert(endpoints_list@.subrange(0, endpoints_list@.len() as int) =~= endpoints_list@);
    out
}

/// The address type of the first slice, `IPv4` when there is none.
pub open spec fn spec_address_type(slices: Seq<EndpointSliceObject>) -> Seq<char> {
    if slices.len() > 0 {
        slices[0].address_type@
    } else {
        "IPv4"@
    }
}

/// The address type the global slice takes over from the shard's slices.
pub fn get_address_type(eps_list: &Vec<EndpointSliceObject>) -> (r: String)
    ensures
        r@ == spec_address_type(eps_list@),
{
    if eps_list.len() > 0 {
        eps_list[0].address_type.clone()
    } else {
        String::from_str("IPv4")
    }
}

/// The name of the global slice for one cluster: `<global>-<cluster>`.
pub open spec fn spec_slice_name(global: Seq<char>, cluster: Seq<char>) -> Seq<char> {
    global + "-"@ + cluster
}

/// Builds the name of the global slice for one cluster.
pub fn slice_name(global_svc_name: &String, cluster_name: &String) -> (r: String)
    ensures
        r@ == spec_slice_name(global_svc_name@, cluster_name@),
{
    let mut r = global_svc_name.clone();
    r.append("-");
    r.append(cluster_name.as_str());
    r
}

/// `s` is the global slice of `global` for `cluster` in `ns`, built from the
/// slices that back the shard.
pub open spec fn is_global_slice(
    s: EndpointSliceObject,
    global: Seq<char>,
    cluster: Seq<char>,
    ns: Seq<char>,
    shard_slices: Seq<EndpointSliceObject>,
) -> bool {
    &&& s.name@ == spec_slice_name(global, cluster)
    &&& s.namespace@ == ns
    &&& is_eps_labels(s.labels@, global, cluster)
    &&& s.address_type@ == spec_address_type(shard_slices)
    &&& s.ports@ == flat_ports(shard_slices)
    &&& s.endpoints@.len() == flat_endpoints(shard_slices).len()
    &&& forall|k: int|
        0 <= k < s.endpoints@.len() ==> translated(
            #[trigger] flat_endpoints(shard_slices)[k],
            s.endpoints@[k],
            cluster,
        )
}

/// A global slice built from some slices is the global slice of any slices
/// that hold the same contents, one for one.
pub proof fn lemma_global_slice_same_sources(
    s: EndpointSliceObject,
    global: Seq<char>,
    cluster: Seq<char>,
    ns: Seq<char>,
    a: Seq<EndpointSliceObject>,
    b: Seq<EndpointSliceObject>,
)
    requires
        a.len() == b.len(),
        forall|k: int| 0 <= k < a.len() ==> (#[trigger] a[k]).same_as(b[k]),
        is_global_slice(s, global, cluster, ns, a),
    ensures
        is_global_slice(s, global, cluster, ns, b),
{
    lemma_same_sources(a, b);
    assert forall|k: int| 0 <= k < s.endpoints@.len() implies translated(
        #[trigger] flat_endpoints(b)[k],
        s.endpoints@[k],
        cluster,
    ) by {
        assert(translated(flat_endpoints(a)[k], s.endpoints@[k], cluster));
        assert(flat_endpoints(a)[k].same_as(flat_endpoints(b)[k]));
    }
}

proof fn lemma_same_sources(a: Seq<EndpointSliceObject>, b: Seq<EndpointSliceObject>)
    requires
        a.len() == b.len(),
        forall|k: int| 0 <= k < a.len() ==> (#[trigger] a[k]).same_as(b[k]),
    ensures
        flat_ports(a) == flat_ports(b),
        spec_address_type(a) == spec_address_type(b),
        flat_endpoints(a).len() == flat_endpoints(b).len(),
        forall|k: int|
            0 <= k < flat_endpoints(a).len() ==> (#[trigger] flat_endpoints(a)[k]).same_as(
                flat_endpoints(b)[k],
            ),
    decreases a.len(),
{
    if a.len() > 0 {
        assert(a[0].same_as(b[0]));
        let (a0, b0) = (a.drop_last(), b.drop_last());
        assert forall|k: int| 0 <= k < a0.len() implies (#[trigger] a0[k]).same_as(b0[k]) by {
            assert(a[k].same_as(b[k]));
        }
        lemma_same_sources(a0, b0);
        let (la, lb) = (a.last(), b.last());
        assert(a[a.len() - 1].same_as(b[b.len() - 1]));
        let (fa, fb) = (flat_endpoints(a0), flat_endpoints(b0));
        assert(flat_endpoints(a) == fa + la.endpoints@);
        assert(flat_endpoints(b) == fb + lb.endpoints@);
        assert forall|k: int|
            0 <= k < flat_endpoints(a).len() implies (#[trigger] flat_endpoints(a)[k]).same_as(
            flat_endpoints(b)[k],
        ) by {
            if k < fa.len() {
                assert(fa[k].same_as(fb[k]));
            } else {
                assert(la.endpoints@[k - fa.len()].same_as(lb.endpoints@[k - fa.len()]));
            }
        }
    }
}

/// The global EndpointSlice to create in `namespace` for the shard of
/// `cluster_name`, from the slices that back the shard: named
/// `<global>-<cluster>`, carrying the translated
/// endpoints, the ports and the address type of the shard's slices.
pub fn create_ep_slice(
    namespace: &String,
    global_svc_name: &String,
    cluster_name: &String,
    shard_slices: &Vec<EndpointSliceObject>,
) -> (r: EndpointSliceObject)
    ensures
        r.name@ == spec_slice_name(global_svc_name@, cluster_name@),
        r.namespace@ == namespace@,
        is_eps_labels(r.labels@, global_svc_name@, cluster_name@),
        r.address_type@ == spec_address_type(shard_slices@),
        r.ports@ == flat_ports(shard_slices@),
        r.endpoints@.len() == flat_endpoints(shard_slices@).len(),
        forall|k: int|
            0 <= k < r.endpoints@.len() ==> translated(
                #[trigger] flat_endpoints(shard_slices@)[k],
                r.endpoints@[k],
                cluster_name@,
            ),
{
    let endpoints = list_endpoints(shard_slices, cluster_name);
    let ports = list_ports(shard_slices);
    let address_type = get_address_type(shard_slices);
    EndpointSliceObject {
        name: slice_name(global_svc_name, cluster_name),
        namespace: namespace.clone(),
        labels: get_eps_labels(global_svc_name.clone(), cluster_name.clone()),
        address_type,
        ports,
        endpoints,
    }
}

} // verus!
