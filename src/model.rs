//! The objects the reconciler reads from and writes to the object store,
//! held as plain values.

use vstd::prelude::*;

verus! {

/// Label on a per-pod mirror naming the headless service it belongs to.
pub const PARENT_NAME_LABEL: &'static str = "mirror.linkerd.io/headless-mirror-svc-name";

/// Label naming the cluster an object was mirrored from.
pub const CLUSTER_NAME_LABEL: &'static str = "mirror.linkerd.io/cluster-name";

/// Label on a global Service recording the service it mirrors.
pub const GLOBAL_MIRROR_OF_LABEL: &'static str = "mirror.linkerd.io/global-mirror-of";

/// Label tying an EndpointSlice to the Service it backs.
pub const SERVICE_NAME_LABEL: &'static str = "kubernetes.io/service-name";

/// Label naming the controller that owns an object.
pub const MANAGED_BY_LABEL: &'static str = "kubernetes.io/managed-by";

/// Value of the managed-by label on the objects this controller creates.
pub const CONTROLLER_NAME: &'static str = "global-mirror-controller";

/// One `key=value` label of an object.
pub struct Label {
    pub key: String,
    pub value: String,
}

impl Label {
    pub fn new(key: &str, value: String) -> (r: Label)
        ensures
            r.key@ == key@,
            r.value == value,
    {
        Label { key: key.to_string(), value }
    }
}

impl Clone for Label {
    fn clone(&self) -> (r: Self)
        ensures
            r == *self,
    {
        Label { key: self.key.clone(), value: self.value.clone() }
    }
}

/// The value of the first label in `labels` whose key is `key`.
pub open spec fn lookup(labels: Seq<Label>, key: Seq<char>) -> Option<Seq<char>>
    decreases labels.len(),
{
    if labels.len() == 0 {
        None
    } else if labels[0].key@ == key {
        Some(labels[0].value@)
    } else {
        lookup(labels.drop_first(), key)
    }
}

/// Looks up the value of the label `key`.
pub fn label_value(labels: &Vec<Label>, key: &str) -> (r: Option<String>)
    ensures
        r is Some <==> lookup(labels@, key@) is Some,
        r is Some ==> r->0@ == lookup(labels@, key@)->0,
{
    let k = key.to_string();
    let mut i: usize = 0;
    assert(labels@.subrange(0, labels@.len() as int) =~= labels@);
    while i < labels.len()
        invariant
            k@ == key@,
            i <= labels@.len(),
            lookup(labels@, key@) == lookup(labels@.subrange(i as int, labels@.len() as int), key@),
        decreases labels.len() - i,
    {
        let ghost rest = labels@.subrange(i as int, labels@.len() as int);
        assert(rest.drop_first() =~= labels@.subrange(i + 1, labels@.len() as int));
        if labels[i].key == k {
            return Some(labels[i].value.clone());
        }
        i += 1;
    }
    None
}

/// Where a service port sends its traffic on the backing pods.
pub enum PortTarget {
    Number(i32),
    Name(String),
}

pub enum PortTargetView {
    Number(i32),
    Name(Seq<char>),
}

impl View for PortTarget {
    type V = PortTargetView;

    open spec fn view(&self) -> PortTargetView {
        match self {
            PortTarget::Number(n) => PortTargetView::Number(*n),
            PortTarget::Name(s) => PortTargetView::Name(s@),
        }
    }
}

impl Clone for PortTarget {
    fn clone(&self) -> (r: Self)
        ensures
            r == *self,
    {
        match self {
            PortTarget::Number(n) => PortTarget::Number(*n),
            PortTarget::Name(s) => PortTarget::Name(s.clone()),
        }
    }
}

/// The view of an optional string.
pub open spec fn opt_view(o: Option<String>) -> Option<Seq<char>> {
    match o {
        Some(s) => Some(s@),
        None => None,
    }
}

pub fn opt_str_eq(a: &Option<String>, b: &Option<String>) -> (r: bool)
    ensures
        r == (opt_view(*a) == opt_view(*b)),
{
    match (a, b) {
        (Some(x), Some(y)) => *x == *y,
        (None, None) => true,
        _ => false,
    }
}

/// A port of a Service.
pub struct ServicePort {
    pub name: Option<String>,
    pub protocol: Option<String>,
    pub port: i32,
    pub target_port: Option<PortTarget>,
    pub app_protocol: Option<String>,
    pub node_port: Option<i32>,
}

/// What makes two service ports the same.
pub struct ServicePortView {
    pub name: Option<Seq<char>>,
    pub protocol: Option<Seq<char>>,
    pub port: i32,
    pub target_port: Option<PortTargetView>,
    pub app_protocol: Option<Seq<char>>,
    pub node_port: Option<i32>,
}

impl View for ServicePort {
    type V = ServicePortView;

    open spec fn view(&self) -> ServicePortView {
        ServicePortView {
            name: opt_view(self.name),
            protocol: opt_view(self.protocol),
            port: self.port,
            target_port: match self.target_port {
                Some(t) => Some(t@),
                None => None,
            },
            app_protocol: opt_view(self.app_protocol),
            node_port: self.node_port,
        }
    }
}

impl Clone for ServicePort {
    fn clone(&self) -> (r: Self)
        ensures
            r == *self,
    {
        ServicePort {
            name: self.name.clone(),
            protocol: self.protocol.clone(),
            port: self.port,
            target_port: self.target_port.clone(),
            app_protocol: self.app_protocol.clone(),
            node_port: self.node_port,
        }
    }
}

impl PartialEq for ServicePort {
    fn eq(&self, o: &ServicePort) -> (r: bool) {
        let same_target = match (&self.target_port, &o.target_port) {
            (Some(PortTarget::Number(a)), Some(PortTarget::Number(b))) => *a == *b,
            (Some(PortTarget::Name(a)), Some(PortTarget::Name(b))) => *a == *b,
            (None, None) => true,
            _ => false,
        };
        let same_node_port = match (self.node_port, o.node_port) {
            (Some(a), Some(b)) => a == b,
            (None, None) => true,
            _ => false,
        };
        opt_str_eq(&self.name, &o.name) && opt_str_eq(&self.protocol, &o.protocol) && self.port
            == o.port && same_target && opt_str_eq(&self.app_protocol, &o.app_protocol)
            && same_node_port
    }
}

impl vstd::std_specs::cmp::PartialEqSpecImpl for ServicePort {
    open spec fn obeys_eq_spec() -> bool {
        true
    }

    open spec fn eq_spec(&self, o: &ServicePort) -> bool {
        self@ == o@
    }
}

/// A port of an EndpointSlice.
pub struct EndpointPort {
    pub name: Option<String>,
    pub protocol: Option<String>,
    pub port: Option<i32>,
    pub app_protocol: Option<String>,
}

impl Clone for EndpointPort {
    fn clone(&self) -> (r: Self)
        ensures
            r == *self,
    {
        EndpointPort {
            name: self.name.clone(),
            protocol: self.protocol.clone(),
            port: self.port,
            app_protocol: self.app_protocol.clone(),
        }
    }
}

/// A reference to the object that backs an endpoint.
pub struct ObjectRef {
    pub api_version: Option<String>,
    pub field_path: Option<String>,
    pub kind: Option<String>,
    pub name: Option<String>,
    pub namespace: Option<String>,
    pub resource_version: Option<String>,
    pub uid: Option<String>,
}

impl Clone for ObjectRef {
    fn clone(&self) -> (r: Self)
        ensures
            r == *self,
    {
        ObjectRef {
            api_version: self.api_version.clone(),
            field_path: self.field_path.clone(),
            kind: self.kind.clone(),
            name: self.name.clone(),
            namespace: self.namespace.clone(),
            resource_version: self.resource_version.clone(),
            uid: self.uid.clone(),
        }
    }
}

/// Topology hints of an endpoint: the zones that should consume it.
pub struct ZoneHints {
    pub for_zones: Option<Vec<String>>,
}

/// The contents of optional zone hints.
pub open spec fn hints_view(h: Option<ZoneHints>) -> Option<Option<Seq<String>>> {
    match h {
        Some(z) => Some(
            match z.for_zones {
                Some(v) => Some(v@),
                None => None,
            },
        ),
        None => None,
    }
}

/// The contents of an optional list of labels.
pub open spec fn labels_view(t: Option<Vec<Label>>) -> Option<Seq<Label>> {
    match t {
        Some(v) => Some(v@),
        None => None,
    }
}

fn copy_hints(h: &Option<ZoneHints>) -> (r: Option<ZoneHints>)
    ensures
        hints_view(r) == hints_view(*h),
{
    match h {
        Some(z) => {
            let for_zones = match &z.for_zones {
                Some(v) => {
                    let c = v.clone();
                    assert(c@ =~= v@);
                    Some(c)
                },
                None => None,
            };
            Some(ZoneHints { for_zones })
        },
        None => None,
    }
}

fn copy_labels(t: &Option<Vec<Label>>) -> (r: Option<Vec<Label>>)
    ensures
        labels_view(r) == labels_view(*t),
{
    match t {
        Some(v) => {
            let c = v.clone();
            assert(c@ =~= v@);
            Some(c)
        },
        None => None,
    }
}

/// One address record of an EndpointSlice. Everything but the hostname is
/// passed through untouched.
pub struct Endpoint {
    pub addresses: Vec<String>,
    pub hostname: Option<String>,
    pub ready: Option<bool>,
    pub serving: Option<bool>,
    pub terminating: Option<bool>,
    pub node_name: Option<String>,
    pub zone: Option<String>,
    pub target_ref: Option<ObjectRef>,
    pub hints: Option<ZoneHints>,
    pub deprecated_topology: Option<Vec<Label>>,
}

impl Endpoint {
    /// `self` holds the same addresses, conditions and references as `o`,
    /// whatever the hostnames.
    pub open spec fn same_but_hostname(self, o: Endpoint) -> bool {
        &&& self.addresses@ == o.addresses@
        &&& self.ready == o.ready
        &&& self.serving == o.serving
        &&& self.terminating == o.terminating
        &&& self.node_name == o.node_name
        &&& self.zone == o.zone
        &&& self.target_ref == o.target_ref
        &&& hints_view(self.hints) == hints_view(o.hints)
        &&& labels_view(self.deprecated_topology) == labels_view(o.deprecated_topology)
    }

    /// `self` holds the same contents as `o`.
    pub open spec fn same_as(self, o: Endpoint) -> bool {
        self.same_but_hostname(o) && self.hostname == o.hostname
    }

    /// A copy of the endpoint with `hostname` in place of its own.
    pub fn with_hostname(&self, hostname: Option<String>) -> (r: Endpoint)
        ensures
            r.same_but_hostname(*self),
            r.hostname == hostname,
    {
        let addresses = self.addresses.clone();
        assert(addresses@ =~= self.addresses@);
        Endpoint {
            addresses,
            hostname,
            ready: self.ready,
            serving: self.serving,
            terminating: self.terminating,
            node_name: self.node_name.clone(),
            zone: self.zone.clone(),
            target_ref: self.target_ref.clone(),
            hints: copy_hints(&self.hints),
            deprecated_topology: copy_labels(&self.deprecated_topology),
        }
    }
}

impl Clone for Endpoint {
    fn clone(&self) -> (r: Self)
        ensures
            r.same_as(*self),
    {
        self.with_hostname(self.hostname.clone())
    }
}

/// A Service as the object store holds it.
pub struct ServiceObject {
    pub name: String,
    pub namespace: String,
    pub labels: Vec<Label>,
    pub ports: Vec<ServicePort>,
    pub cluster_ip: Option<String>,
}

/// An EndpointSlice as the object store holds it.
pub struct EndpointSliceObject {
    pub name: String,
    pub namespace: String,
    pub labels: Vec<Label>,
    pub address_type: String,
    pub ports: Vec<EndpointPort>,
    pub endpoints: Vec<Endpoint>,
}

impl EndpointSliceObject {
    /// `self` holds the same name, labels, ports and endpoints as `o`.
    pub open spec fn same_as(self, o: EndpointSliceObject) -> bool {
        &&& self.name == o.name
        &&& self.namespace == o.namespace
        &&& self.labels@ == o.labels@
        &&& self.address_type == o.address_type
        &&& self.ports@ == o.ports@
        &&& self.endpoints@.len() == o.endpoints@.len()
        &&& forall|k: int|
            0 <= k < self.endpoints@.len() ==> (#[trigger] self.endpoints@[k]).same_as(
                o.endpoints@[k],
            )
    }
}

impl Clone for EndpointSliceObject {
    fn clone(&self) -> (r: Self)
        ensures
            r.same_as(*self),
    {
        let labels = self.labels.clone();
        assert(labels@ =~= self.labels@);
        let ports = self.ports.clone();
        assert(ports@ =~= self.ports@);
        let mut endpoints: Vec<Endpoint> = Vec::new();
        let mut k: usize = 0;
        while k < self.endpoints.len()
            invariant
                k <= self.endpoints@.len(),
                endpoints@.len() == k,
                forall|j: int| 0 <= j < k ==> (#[trigger] endpoints@[j]).same_as(self.endpoints@[j]),
            decreases self.endpoints.len() - k,
        {
            endpoints.push(self.endpoints[k].clone());
            k += 1;
        }
        EndpointSliceObject {
            name: self.name.clone(),
            namespace: self.namespace.clone(),
            labels,
            address_type: self.address_type.clone(),
            ports,
            endpoints,
        }
    }
}

/// What can go wrong in one reconciliation.
#[derive(Debug, Clone, Copy, PartialEq, Eq, Structural)]
pub enum MirrorError {
    /// A query or a create call against the store failed; trying again may help.
    Transient,
    /// More than one object answers to a name that must be unique.
    AmbiguousIdentity,
    /// The object to create already exists.
    CreateConflict,
    /// The shard names a cluster that is not the `-<cluster>` suffix of its
    /// parent name, so no global name can be derived by the convention.
    NameMismatch,
}

} // verus!
