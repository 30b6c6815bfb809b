use global_mirror::{
    ObjectRef, ZoneHints,
    create_ep_slice, create_global_svc, get_address_type, get_eps_labels, list_endpoints,
    list_ports, list_svc_port, qualify_hostname, slice_name, Endpoint, EndpointPort,
    EndpointSliceObject, Label, PortTarget, ServiceObject, ServicePort, CLUSTER_NAME_LABEL,
    CONTROLLER_NAME, GLOBAL_MIRROR_OF_LABEL, MANAGED_BY_LABEL, SERVICE_NAME_LABEL,
};

fn port(n: i32) -> ServicePort {
    ServicePort {
        name: None,
        protocol: Some("TCP".to_string()),
        port: n,
        target_port: Some(PortTarget::Number(n)),
        app_protocol: None,
        node_port: None,
    }
}

fn shard(name: &str, cluster: &str, ports: Vec<ServicePort>) -> ServiceObject {
    ServiceObject {
        name: name.to_string(),
        namespace: "default".to_string(),
        labels: vec![Label::new(CLUSTER_NAME_LABEL, cluster.to_string())],
        ports,
        cluster_ip: Some("None".to_string()),
    }
}

fn endpoint(host: Option<&str>, ip: &str) -> Endpoint {
    Endpoint {
        addresses: vec![ip.to_string()],
        hostname: host.map(|h| h.to_string()),
        ready: Some(true),
        serving: Some(true),
        terminating: None,
        node_name: Some("node-1".to_string()),
        zone: None,
        target_ref: None,
        hints: None,
        deprecated_topology: None,
    }
}

fn slice(address_type: &str, endpoints: Vec<Endpoint>, ports: Vec<i32>) -> EndpointSliceObject {
    EndpointSliceObject {
        name: "orders-svc-us-abc".to_string(),
        namespace: "default".to_string(),
        labels: vec![Label::new(SERVICE_NAME_LABEL, "orders-svc-us".to_string())],
        address_type: address_type.to_string(),
        ports: ports
            .into_iter()
            .map(|p| EndpointPort {
                name: None,
                protocol: Some("TCP".to_string()),
                port: Some(p),
                app_protocol: None,
            })
            .collect(),
        endpoints,
    }
}

fn port_numbers(ports: &[ServicePort]) -> Vec<i32> {
    let mut v: Vec<i32> = ports.iter().map(|p| p.port).collect();
    v.sort();
    v
}

#[test]
fn port_union_is_a_set_union_in_either_order() {
    let a = shard("orders-svc-us", "us", vec![port(80)]);
    let b = shard("orders-svc-eu", "eu", vec![port(80), port(443)]);
    let global = "orders-svc-global".to_string();
    let ns = "default".to_string();
    let ab = list_svc_port(&global, &ns, &vec![a, b]);
    assert_eq!(port_numbers(&ab), vec![80, 443]);
    let a = shard("orders-svc-us", "us", vec![port(80)]);
    let b = shard("orders-svc-eu", "eu", vec![port(80), port(443)]);
    let ba = list_svc_port(&global, &ns, &vec![b, a]);
    assert_eq!(port_numbers(&ba), vec![80, 443]);
    assert_eq!(ba.len(), 2);
}

#[test]
fn port_union_skips_other_services_and_keeps_distinct_ports() {
    let named = ServicePort {
        name: Some("http".to_string()),
        protocol: Some("TCP".to_string()),
        port: 80,
        target_port: Some(PortTarget::Name("web".to_string())),
        app_protocol: Some("http".to_string()),
        node_port: None,
    };
    let services = vec![
        shard("orders-svc-us", "us", vec![port(80), named.clone()]),
        shard("billing-us", "us", vec![port(9000)]),
        shard("orders-svc-global", "", vec![port(1)]),
        ServiceObject {
            namespace: "other".to_string(),
            ..shard("orders-svc-eu", "eu", vec![port(8080)])
        },
    ];
    let r = list_svc_port(
        &"orders-svc-global".to_string(),
        &"default".to_string(),
        &services,
    );
    assert_eq!(r.len(), 2);
    assert!(r[0] == port(80));
    assert!(r[1] == named);
}

#[test]
fn global_service_is_headless_with_backref() {
    let svc = create_global_svc(
        &"orders-svc-global".to_string(),
        &"default".to_string(),
        vec![port(80), port(443)],
    );
    assert_eq!(svc.name, "orders-svc-global");
    assert_eq!(svc.namespace, "default");
    assert_eq!(svc.cluster_ip, Some("None".to_string()));
    assert_eq!(svc.labels.len(), 1);
    assert_eq!(svc.labels[0].key, GLOBAL_MIRROR_OF_LABEL);
    assert_eq!(svc.labels[0].value, "orders-svc");
    assert_eq!(port_numbers(&svc.ports), vec![80, 443]);
}

#[test]
fn hostname_is_qualified_at_most_once() {
    let us = "us".to_string();
    assert_eq!(qualify_hostname(&Some("web-0".to_string()), &us), "web-0-us");
    assert_eq!(qualify_hostname(&Some("web-0-us".to_string()), &us), "web-0-us");
    let once = qualify_hostname(&Some("web-0".to_string()), &us);
    assert_eq!(qualify_hostname(&Some(once.clone()), &us), once);
    assert_eq!(qualify_hostname(&None, &us), "");
    assert_eq!(qualify_hostname(&Some("web-0".to_string()), &String::new()), "web-0");
}

#[test]
fn endpoints_are_flattened_and_translated() {
    let slices = vec![
        slice("IPv6", vec![endpoint(Some("web-0"), "fd00::1"), endpoint(None, "fd00::2")], vec![80]),
        slice("IPv4", vec![endpoint(Some("web-1-us"), "10.0.0.3")], vec![443]),
    ];
    let eps = list_endpoints(&slices, &"us".to_string());
    assert_eq!(eps.len(), 3);
    assert_eq!(eps[0].hostname, Some("web-0-us".to_string()));
    assert_eq!(eps[0].addresses, vec!["fd00::1".to_string()]);
    assert_eq!(eps[0].ready, Some(true));
    assert_eq!(eps[0].node_name, Some("node-1".to_string()));
    assert_eq!(eps[1].hostname, Some(String::new()));
    assert_eq!(eps[2].hostname, Some("web-1-us".to_string()));
    let ports = list_ports(&slices);
    assert_eq!(ports.len(), 2);
    assert_eq!(ports[0].port, Some(80));
    assert_eq!(ports[1].port, Some(443));
    assert_eq!(get_address_type(&slices), "IPv6");
}

#[test]
fn address_type_defaults_to_ipv4() {
    assert_eq!(get_address_type(&Vec::new()), "IPv4");
}

#[test]
fn endpoint_slice_labels() {
    let labels = get_eps_labels("orders-svc-global".to_string(), "eu".to_string());
    assert_eq!(labels.len(), 3);
    assert_eq!(labels[0].key, CLUSTER_NAME_LABEL);
    assert_eq!(labels[0].value, "eu");
    assert_eq!(labels[1].key, SERVICE_NAME_LABEL);
    assert_eq!(labels[1].value, "orders-svc-global");
    assert_eq!(labels[2].key, MANAGED_BY_LABEL);
    assert_eq!(labels[2].value, CONTROLLER_NAME);
}

#[test]
fn global_endpoint_slice_is_named_per_cluster() {
    assert_eq!(
        slice_name(&"orders-svc-global".to_string(), &"us".to_string()),
        "orders-svc-global-us"
    );
    let slices = vec![slice("IPv4", vec![endpoint(Some("web-0"), "10.0.0.1")], vec![80])];
    let s = create_ep_slice(
        &"default".to_string(),
        &"orders-svc-global".to_string(),
        &"us".to_string(),
        &slices,
    );
    assert_eq!(s.name, "orders-svc-global-us");
    assert_eq!(s.namespace, "default");
    assert_eq!(s.address_type, "IPv4");
    assert_eq!(s.endpoints.len(), 1);
    assert_eq!(s.endpoints[0].hostname, Some("web-0-us".to_string()));
    assert_eq!(s.ports.len(), 1);
    assert_eq!(s.labels[1].value, "orders-svc-global");
}

#[test]
fn port_union_keeps_first_seen_order() {
    let services = vec![
        shard("orders-svc-eu", "eu", vec![port(443), port(80)]),
        shard("orders-svc-us", "us", vec![port(80), port(8080), port(443)]),
    ];
    let r = list_svc_port(
        &"orders-svc-global".to_string(),
        &"default".to_string(),
        &services,
    );
    let order: Vec<i32> = r.iter().map(|p| p.port).collect();
    assert_eq!(order, vec![443, 80, 8080]);
}

#[test]
fn ports_differing_in_node_port_are_distinct() {
    let mut a = port(80);
    a.node_port = Some(30080);
    let services = vec![shard("orders-svc-us", "us", vec![port(80), a.clone(), a.clone()])];
    let r = list_svc_port(
        &"orders-svc-global".to_string(),
        &"default".to_string(),
        &services,
    );
    assert_eq!(r.len(), 2);
    assert!(r[1] == a);
    assert!(!(r[0] == a));
}

#[test]
fn translation_carries_references_and_hints() {
    let mut ep = endpoint(Some("web-0"), "10.0.0.1");
    ep.target_ref = Some(ObjectRef {
        api_version: None,
        field_path: None,
        kind: Some("Pod".to_string()),
        name: Some("web-0".to_string()),
        namespace: Some("default".to_string()),
        resource_version: None,
        uid: Some("1234".to_string()),
    });
    ep.hints = Some(ZoneHints { for_zones: Some(vec!["zone-a".to_string()]) });
    ep.deprecated_topology = Some(vec![Label::new("topology.kubernetes.io/zone", "zone-a".to_string())]);
    let eps = list_endpoints(&vec![slice("IPv4", vec![ep], vec![80])], &"eu".to_string());
    assert_eq!(eps[0].hostname, Some("web-0-eu".to_string()));
    let r = eps[0].target_ref.as_ref().unwrap();
    assert_eq!(r.kind, Some("Pod".to_string()));
    assert_eq!(r.uid, Some("1234".to_string()));
    assert_eq!(
        eps[0].hints.as_ref().unwrap().for_zones,
        Some(vec!["zone-a".to_string()])
    );
    assert_eq!(eps[0].deprecated_topology.as_ref().unwrap()[0].value, "zone-a");
}
