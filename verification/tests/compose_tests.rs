use gestalt::compose::{join, NodeInfo, PodInfo};

fn pod(name: &str, ns: &str, phase: &str, node: Option<&str>) -> PodInfo {
    PodInfo {
        name: name.to_string(),
        namespace: ns.to_string(),
        phase: phase.to_string(),
        node_name: node.map(|n| n.to_string()),
    }
}

fn node(name: &str, mem: &str) -> NodeInfo {
    NodeInfo { name: name.to_string(), allocatable_mem: mem.to_string() }
}

#[test]
fn missing_node_yields_sentinel_not_error() {
    let pods = vec![
        pod("web", "default", "Running", Some("n1")),
        pod("db", "default", "Running", Some("n2")),
        pod("pending", "default", "Pending", None),
    ];
    let nodes = vec![node("n2", "16Gi")];
    let out = join(&pods, &nodes);
    assert_eq!(out.len(), 3);
    // Declared node absent from the node cache: name kept, memory empty.
    assert_eq!(out[0].pod_name, "web");
    assert_eq!(out[0].node_name, "n1");
    assert_eq!(out[0].allocatable_mem, "");
    // Declared node present: its data is joined in.
    assert_eq!(out[1].node_name, "n2");
    assert_eq!(out[1].allocatable_mem, "16Gi");
    // No declared node at all: the marker.
    assert_eq!(out[2].node_name, "<no node>");
    assert_eq!(out[2].allocatable_mem, "");
    assert_eq!(out[2].pod_status, "Pending");
}

#[test]
fn join_carries_pod_fields_through() {
    let pods = vec![pod("api", "prod", "Running", Some("n1"))];
    let nodes = vec![node("n1", "8Gi")];
    let out = join(&pods, &nodes);
    assert_eq!(out.len(), 1);
    assert_eq!(out[0].pod_name, "api");
    assert_eq!(out[0].pod_namespace, "prod");
    assert_eq!(out[0].pod_status, "Running");
    assert_eq!(out[0].node_name, "n1");
    assert_eq!(out[0].allocatable_mem, "8Gi");
}

#[test]
fn join_of_no_pods_is_empty() {
    let pods: Vec<PodInfo> = Vec::new();
    let nodes = vec![node("n1", "8Gi")];
    let out = join(&pods, &nodes);
    assert_eq!(out.len(), 0);
}

#[test]
fn first_matching_node_wins() {
    let pods = vec![pod("p", "default", "Running", Some("n1"))];
    let nodes = vec![node("n1", "first"), node("n1", "second")];
    let out = join(&pods, &nodes);
    assert_eq!(out[0].allocatable_mem, "first");
}
