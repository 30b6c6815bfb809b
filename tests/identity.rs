use global_mirror::{
    check_if_aggregation_service_exists, contains_str, decide_existence, ends_with_str,
    get_cluster_name, get_parent_name, global_name_of, has_parent_label, label_value,
    replace_str, resolve_identity, Label, MirrorError, ServiceObject, CLUSTER_NAME_LABEL,
    PARENT_NAME_LABEL,
};

fn shard(name: &str, parent: Option<&str>, cluster: Option<&str>) -> ServiceObject {
    let mut labels = Vec::new();
    if let Some(p) = parent {
        labels.push(Label::new(PARENT_NAME_LABEL, p.to_string()));
    }
    if let Some(c) = cluster {
        labels.push(Label::new(CLUSTER_NAME_LABEL, c.to_string()));
    }
    ServiceObject {
        name: name.to_string(),
        namespace: "default".to_string(),
        labels,
        ports: Vec::new(),
        cluster_ip: None,
    }
}

#[test]
fn replace_replaces_every_occurrence_left_to_right() {
    assert_eq!(replace_str("a-us-b-us", "-us", "-global"), "a-global-b-global");
    assert_eq!(replace_str("aaa", "aa", "b"), "ba");
    assert_eq!(replace_str("orders-svc-global", "-global", ""), "orders-svc");
    assert_eq!(replace_str("", "-x", "y"), "");
}

#[test]
fn contains_and_ends_with() {
    assert!(contains_str("web-0-us", "us"));
    assert!(!contains_str("web-0", "eu"));
    assert!(contains_str("web", ""));
    assert!(ends_with_str("orders-svc-us", "-us"));
    assert!(!ends_with_str("us-orders", "-us"));
    assert!(!ends_with_str("s", "-us"));
}

#[test]
fn label_lookup_takes_first_match() {
    let labels = vec![
        Label::new("a", "1".to_string()),
        Label::new("b", "2".to_string()),
        Label::new("a", "3".to_string()),
    ];
    assert_eq!(label_value(&labels, "a"), Some("1".to_string()));
    assert_eq!(label_value(&labels, "b"), Some("2".to_string()));
    assert_eq!(label_value(&labels, "c"), None);
}

#[test]
fn identity_without_parent_label_uses_own_name() {
    let svc = shard("orders-svc-us", None, Some("us"));
    let id = resolve_identity(&svc);
    assert_eq!(id.parent_name, "orders-svc-us");
    assert_eq!(id.cluster_name, "us");
    assert_eq!(id.global_name, "orders-svc-global");
    assert!(!id.degenerate);
    assert!(!has_parent_label(&svc));
}

#[test]
fn identity_with_both_labels_replaces_cluster_suffix() {
    let svc = shard("web-0-eu", Some("web-eu"), Some("eu"));
    let id = resolve_identity(&svc);
    assert_eq!(get_parent_name(&svc), "web-eu");
    assert_eq!(get_cluster_name(&svc), "eu");
    assert_eq!(id.global_name, "web-global");
    assert!(!id.degenerate);
    assert!(has_parent_label(&svc));
}

#[test]
fn identity_without_cluster_label_is_degenerate() {
    let svc = shard("orders-svc", None, None);
    let id = resolve_identity(&svc);
    assert_eq!(id.cluster_name, "");
    assert_eq!(id.global_name, "orders-svc");
    assert!(id.degenerate);
}

#[test]
fn identity_with_cluster_token_mid_name_is_degenerate() {
    let svc = shard("us-orders-us-east", None, Some("us"));
    let id = resolve_identity(&svc);
    assert_eq!(id.global_name, "us-orders-global-east");
    assert!(id.degenerate);
}

#[test]
fn global_name_of_is_no_op_without_cluster() {
    assert_eq!(global_name_of(&"a-b".to_string(), &String::new()), "a-b");
    assert_eq!(global_name_of(&"a-b".to_string(), &"b".to_string()), "a-global");
}

#[test]
fn existence_is_exactly_one_match() {
    let id = resolve_identity(&shard("orders-svc-us", None, Some("us")));
    assert_eq!(
        check_if_aggregation_service_exists(&id, 0),
        Ok((false, "orders-svc-global".to_string()))
    );
    assert_eq!(
        check_if_aggregation_service_exists(&id, 1),
        Ok((true, "orders-svc-global".to_string()))
    );
    assert_eq!(
        check_if_aggregation_service_exists(&id, 2),
        Err(MirrorError::AmbiguousIdentity)
    );
    assert_eq!(decide_existence(0), Ok(false));
    assert_eq!(decide_existence(1), Ok(true));
    assert_eq!(decide_existence(7), Err(MirrorError::AmbiguousIdentity));
}
