use gestalt::compose::{join, NodeInfo, PodInfo, PodNodeSummary};
use gestalt::html::{
    escape_html, render_node_list, render_number_fragment, render_pod_list, render_summary_list,
    random_fragment, u32_decimal,
};

#[test]
fn escaping_replaces_markup_characters() {
    let out = escape_html("a<b&c>\"d'");
    assert_eq!(out, "a&lt;b&amp;c&gt;&quot;d&#x27;");
}

#[test]
fn escaping_keeps_plain_text() {
    assert_eq!(escape_html("node-1 8Gi"), "node-1 8Gi");
    assert_eq!(escape_html(""), "");
}

#[test]
fn decimal_rendering_is_exact() {
    assert_eq!(u32_decimal(0), "0");
    assert_eq!(u32_decimal(7), "7");
    assert_eq!(u32_decimal(42), "42");
    assert_eq!(u32_decimal(30000), "30000");
    assert_eq!(u32_decimal(u32::MAX), "4294967295");
}

#[test]
fn node_list_fragment_text() {
    let nodes = vec![
        NodeInfo { name: "n1".to_string(), allocatable_mem: "8Gi".to_string() },
        NodeInfo { name: "n2".to_string(), allocatable_mem: "16Gi".to_string() },
    ];
    let out = render_node_list(&nodes);
    assert_eq!(out, "<li>n1: 8Gi</li>\n<li>n2: 16Gi</li>\n");
}

#[test]
fn pod_list_fragment_text() {
    let pods = vec![PodInfo {
        name: "web".to_string(),
        namespace: "default".to_string(),
        phase: "Running".to_string(),
        node_name: Some("n1".to_string()),
    }];
    let out = render_pod_list(&pods);
    assert_eq!(out, "<li>web default Running</li>\n");
}

#[test]
fn summary_fragment_escapes_values() {
    let pods = vec![PodInfo {
        name: "a<b".to_string(),
        namespace: "ns".to_string(),
        phase: "Running".to_string(),
        node_name: Some("n1".to_string()),
    }];
    let nodes = vec![NodeInfo { name: "n1".to_string(), allocatable_mem: "8Gi".to_string() }];
    let summaries: Vec<PodNodeSummary> = join(&pods, &nodes);
    let out = render_summary_list(&summaries);
    assert_eq!(out, "<li>a&lt;b ns Running n1 8Gi</li>\n");
}

#[test]
fn empty_lists_render_empty_fragments() {
    let nodes: Vec<NodeInfo> = Vec::new();
    assert_eq!(render_node_list(&nodes), "");
    let pods: Vec<PodInfo> = Vec::new();
    assert_eq!(render_pod_list(&pods), "");
}

#[test]
fn number_fragment_text() {
    assert_eq!(render_number_fragment(7), "<p>7</p>");
    assert_eq!(render_number_fragment(123456), "<p>123456</p>");
}

#[test]
fn random_fragment_is_a_numeric_paragraph() {
    let out = random_fragment();
    assert!(out.starts_with("<p>"));
    assert!(out.ends_with("</p>"));
    let inner = &out[3..out.len() - 4];
    assert!(!inner.is_empty());
    assert!(inner.parse::<u32>().is_ok());
}
