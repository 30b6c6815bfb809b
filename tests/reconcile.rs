use global_mirror::{
    Action, Endpoint, EndpointPort, EndpointSliceObject, Label, MemStore, MirrorError, Phase,
    PortTarget, Reconciler, ServiceObject, ServicePort, Signal, CLUSTER_NAME_LABEL,
    PARENT_NAME_LABEL, SERVICE_NAME_LABEL,
};

fn port(n: i32) -> ServicePort {
    ServicePort {
        name: None,
        protocol: Some("TCP".to_string()),
        port: n,
        target_port: Some(PortTarget::Number(n)),
        app_protocol: None,
        node_port: None,
    }
}

fn shard(name: &str, cluster: &str, ports: &[i32]) -> ServiceObject {
    ServiceObject {
        name: name.to_string(),
        namespace: "default".to_string(),
        labels: vec![Label::new(CLUSTER_NAME_LABEL, cluster.to_string())],
        ports: ports.iter().map(|p| port(*p)).collect(),
        cluster_ip: Some("None".to_string()),
    }
}

fn shard_slice(service: &str, hosts: &[&str]) -> EndpointSliceObject {
    EndpointSliceObject {
        name: format!("{}-slice", service),
        namespace: "default".to_string(),
        labels: vec![Label::new(SERVICE_NAME_LABEL, service.to_string())],
        address_type: "IPv4".to_string(),
        ports: vec![EndpointPort {
            name: None,
            protocol: Some("TCP".to_string()),
            port: Some(80),
            app_protocol: None,
        }],
        endpoints: hosts
            .iter()
            .enumerate()
            .map(|(i, h)| Endpoint {
                addresses: vec![format!("10.0.0.{}", i + 1)],
                hostname: Some(h.to_string()),
                ready: Some(true),
                serving: None,
                terminating: None,
                node_name: None,
                zone: None,
                target_ref: None,
                hints: None,
                deprecated_topology: None,
            })
            .collect(),
    }
}

fn orders_store() -> MemStore {
    let mut store = MemStore::new();
    store.insert_service(shard("orders-svc-us", "us", &[80]));
    store.insert_service(shard("orders-svc-eu", "eu", &[80, 443]));
    store.insert_slice(shard_slice("orders-svc-us", &["web-0", "web-1"]));
    store.insert_slice(shard_slice("orders-svc-eu", &["web-0"]));
    store
}

fn names_of_services(store: &MemStore) -> Vec<String> {
    store.services.iter().map(|s| s.name.clone()).collect()
}

fn names_of_slices(store: &MemStore) -> Vec<String> {
    store.slices.iter().map(|s| s.name.clone()).collect()
}

#[test]
fn two_shards_reconciled_in_sequence() {
    let mut store = orders_store();
    let us = shard("orders-svc-us", "us", &[80]);
    let eu = shard("orders-svc-eu", "eu", &[80, 443]);
    assert_eq!(store.run(&us, 5), Signal::Converged);
    assert_eq!(store.run(&eu, 5), Signal::Converged);

    let globals: Vec<&ServiceObject> =
        store.services.iter().filter(|s| s.name == "orders-svc-global").collect();
    assert_eq!(globals.len(), 1);
    let mut ports: Vec<i32> = globals[0].ports.iter().map(|p| p.port).collect();
    ports.sort();
    assert_eq!(ports, vec![80, 443]);
    assert_eq!(globals[0].cluster_ip, Some("None".to_string()));

    let us_slice = store.slices.iter().find(|s| s.name == "orders-svc-global-us").unwrap();
    let hosts: Vec<String> =
        us_slice.endpoints.iter().map(|e| e.hostname.clone().unwrap()).collect();
    assert_eq!(hosts, vec!["web-0-us".to_string(), "web-1-us".to_string()]);
    let eu_slice = store.slices.iter().find(|s| s.name == "orders-svc-global-eu").unwrap();
    assert_eq!(eu_slice.endpoints[0].hostname, Some("web-0-eu".to_string()));
    assert_eq!(store.services.len(), 3);
    assert_eq!(store.slices.len(), 4);
}

#[test]
fn second_run_changes_nothing() {
    let mut store = orders_store();
    let us = shard("orders-svc-us", "us", &[80]);
    assert_eq!(store.run(&us, 5), Signal::Converged);
    let services = names_of_services(&store);
    let slices = names_of_slices(&store);
    assert_eq!(store.run(&us, 5), Signal::Converged);
    assert_eq!(names_of_services(&store), services);
    assert_eq!(names_of_slices(&store), slices);
}

#[test]
fn pod_mirror_is_not_reconciled() {
    let mut store = orders_store();
    let mut pod = shard("web-0-us", "us", &[80]);
    pod.labels.push(Label::new(PARENT_NAME_LABEL, "orders-svc-us".to_string()));
    assert_eq!(store.run(&pod, 5), Signal::Converged);
    assert_eq!(store.services.len(), 2);
    assert_eq!(store.slices.len(), 2);
    let (m, action) = Reconciler::start(&pod, 5);
    assert_eq!(m.phase, Phase::Done);
    assert!(matches!(action, Action::Finish(Signal::Converged)));
}

#[test]
fn concurrent_siblings_create_one_global_service() {
    let mut store = orders_store();
    let us = shard("orders-svc-us", "us", &[80]);
    let eu = shard("orders-svc-eu", "eu", &[80, 443]);
    let (mut a, act_a) = Reconciler::start(&us, 5);
    let (mut b, act_b) = Reconciler::start(&eu, 5);
    let name_a = match act_a {
        Action::CountServices { name } => name,
        _ => panic!("expected a count"),
    };
    let name_b = match act_b {
        Action::CountServices { name } => name,
        _ => panic!("expected a count"),
    };
    assert_eq!(name_a, "orders-svc-global");
    assert_eq!(name_b, "orders-svc-global");
    // Both see the global Service absent before either creates it.
    let act_a = a.on_count(store.count_services_named(&name_a));
    let act_b = b.on_count(store.count_services_named(&name_b));
    assert!(matches!(act_a, Action::ListServices { .. }));
    assert!(matches!(act_b, Action::ListServices { .. }));
    let act_a = a.on_services(&store.services);
    let act_b = b.on_services(&store.services);
    let svc_a = match act_a {
        Action::CreateService(s) => s,
        _ => panic!("expected a create"),
    };
    let svc_b = match act_b {
        Action::CreateService(s) => s,
        _ => panic!("expected a create"),
    };
    // The second create loses the race.
    assert_eq!(store.create_service(svc_b), Ok(()));
    let err = store.create_service(svc_a).unwrap_err();
    assert_eq!(err, MirrorError::CreateConflict);
    let act_a = a.on_failed(err);
    assert!(matches!(
        act_a,
        Action::Finish(Signal::RetryAfter { secs: 5, error: MirrorError::CreateConflict })
    ));
    let act_b = b.on_created();
    assert!(matches!(act_b, Action::CountSlices { .. }));
    // The requeued attempt finds the Service and goes on past it.
    assert_eq!(store.run(&us, 5), Signal::Converged);
    assert_eq!(store.run(&eu, 5), Signal::Converged);
    let globals = store.services.iter().filter(|s| s.name == "orders-svc-global").count();
    assert_eq!(globals, 1);
}

#[test]
fn duplicate_global_services_are_ambiguous() {
    let mut store = orders_store();
    let mut dup = shard("orders-svc-global", "", &[80]);
    dup.labels.clear();
    store.insert_service(dup);
    let mut other = shard("orders-svc-global", "", &[80]);
    other.labels.clear();
    other.namespace = "other".to_string();
    store.insert_service(other);
    let us = shard("orders-svc-us", "us", &[80]);
    assert_eq!(
        store.run(&us, 7),
        Signal::RetryAfter { secs: 7, error: MirrorError::AmbiguousIdentity }
    );
    assert_eq!(store.services.len(), 4);
    assert_eq!(store.slices.len(), 2);
}

#[test]
fn duplicate_global_slices_are_ambiguous() {
    let mut store = orders_store();
    let mut first = shard_slice("orders-svc-global", &[]);
    first.name = "orders-svc-global-us".to_string();
    let mut second = first.clone();
    second.namespace = "other".to_string();
    store.insert_slice(first);
    store.insert_slice(second);
    let us = shard("orders-svc-us", "us", &[80]);
    assert_eq!(
        store.run(&us, 5),
        Signal::RetryAfter { secs: 5, error: MirrorError::AmbiguousIdentity }
    );
}

#[test]
fn driver_steps_through_every_phase() {
    let us = shard("orders-svc-us", "us", &[80]);
    let (mut m, action) = Reconciler::start(&us, 5);
    assert_eq!(m.phase, Phase::CheckService);
    assert!(matches!(action, Action::CountServices { .. }));
    let action = m.on_count(0);
    assert_eq!(m.phase, Phase::GatherPorts);
    assert!(matches!(action, Action::ListServices { ref namespace } if namespace == "default"));
    let action = m.on_services(&vec![shard("orders-svc-us", "us", &[80])]);
    assert_eq!(m.phase, Phase::CreateService);
    assert!(matches!(action, Action::CreateService(ref s) if s.ports.len() == 1));
    let action = m.on_created();
    assert_eq!(m.phase, Phase::CheckSlice);
    assert!(matches!(action, Action::CountSlices { ref name } if name == "orders-svc-global-us"));
    let action = m.on_count(0);
    assert_eq!(m.phase, Phase::GatherEndpoints);
    assert!(matches!(
        action,
        Action::ListSlices { ref service_name, .. } if service_name == "orders-svc-us"
    ));
    let action = m.on_slices(&vec![shard_slice("orders-svc-us", &["web-0"])]);
    assert_eq!(m.phase, Phase::CreateSlice);
    assert!(matches!(action, Action::CreateSlice(ref s) if s.endpoints.len() == 1));
    let action = m.on_created();
    assert_eq!(m.phase, Phase::Done);
    assert!(matches!(action, Action::Finish(Signal::Converged)));
}

#[test]
fn store_failure_asks_for_retry() {
    let us = shard("orders-svc-us", "us", &[80]);
    let (mut m, _) = Reconciler::start(&us, 30);
    let action = m.on_failed(MirrorError::Transient);
    assert_eq!(m.phase, Phase::Done);
    assert!(matches!(
        action,
        Action::Finish(Signal::RetryAfter { secs: 30, error: MirrorError::Transient })
    ));
}

#[test]
fn existing_objects_converge_without_creating() {
    let us = shard("orders-svc-us", "us", &[80]);
    let (mut m, _) = Reconciler::start(&us, 5);
    let action = m.on_count(1);
    assert!(matches!(action, Action::CountSlices { .. }));
    let action = m.on_count(1);
    assert!(matches!(action, Action::Finish(Signal::Converged)));
}

#[test]
fn cluster_token_mid_name_is_a_naming_error() {
    let mut store = orders_store();
    let odd = shard("us-orders-us-east", "us", &[80]);
    assert_eq!(
        store.run(&odd, 5),
        Signal::RetryAfter { secs: 5, error: MirrorError::NameMismatch }
    );
    assert_eq!(store.services.len(), 2);
    assert_eq!(store.slices.len(), 2);
}

#[test]
fn missing_cluster_token_proceeds_unqualified() {
    let mut store = MemStore::new();
    let mut bare = shard("orders-svc", "", &[80]);
    bare.labels.clear();
    store.insert_slice(shard_slice("orders-svc", &["web-0"]));
    // The derived global name is the shard's own name, which is not in the
    // store, so the global Service is created under it.
    assert_eq!(store.run(&bare, 5), Signal::Converged);
    assert_eq!(names_of_services(&store), vec!["orders-svc".to_string()]);
    let created = store.slices.iter().find(|s| s.name == "orders-svc-").unwrap();
    assert_eq!(created.endpoints[0].hostname, Some("web-0".to_string()));
}
