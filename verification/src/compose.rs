//! The query layer: joins the pod cache with the node cache into
//! per-pod summaries.
//!
//! A pod whose declared node is missing from the node cache (a real
//! race between two independently refreshing caches, or a pod not yet
//! scheduled) never fails the whole join: its summary carries the
//! declared node name with an empty allocatable-memory field, and a
//! pod with no declared node carries the `<no node>` marker.

use vstd::prelude::*;

verus! {

/// Mathematical view of a [`PodInfo`].
#[verifier::ext_equal]
pub struct PodView {
    pub name: Seq<char>,
    pub namespace: Seq<char>,
    pub phase: Seq<char>,
    pub node_name: Option<Seq<char>>,
}

/// What the query layer reads of one pod: its identity, its status
/// phase, and the node it declares itself scheduled on, if any.
pub struct PodInfo {
    pub name: String,
    pub namespace: String,
    pub phase: String,
    pub node_name: Option<String>,
}

impl View for PodInfo {
    type V = PodView;

    open spec fn view(&self) -> PodView {
        PodView {
            name: self.name@,
            namespace: self.namespace@,
            phase: self.phase@,
            node_name: match self.node_name {
                Option::Some(ref n) => Option::Some(n@),
                Option::None => Option::None,
            },
        }
    }
}

/// Mathematical view of a [`NodeInfo`].
#[verifier::ext_equal]
pub struct NodeView {
    pub name: Seq<char>,
    pub allocatable_mem: Seq<char>,
}

/// What the query layer reads of one node: its name and its
/// allocatable memory.
pub struct NodeInfo {
    pub name: String,
    pub allocatable_mem: String,
}

impl View for NodeInfo {
    type V = NodeView;

    open spec fn view(&self) -> NodeView {
        NodeView { name: self.name@, allocatable_mem: self.allocatable_mem@ }
    }
}

/// Mathematical view of a [`PodNodeSummary`].
#[verifier::ext_equal]
pub struct SummaryView {
    pub pod_name: Seq<char>,
    pub pod_namespace: Seq<char>,
    pub pod_status: Seq<char>,
    pub node_name: Seq<char>,
    pub allocatable_mem: Seq<char>,
}

/// One row of the joined view: a pod and what is known of its node.
pub struct PodNodeSummary {
    pub pod_name: String,
    pub pod_namespace: String,
    pub pod_status: String,
    pub node_name: String,
    pub allocatable_mem: String,
}

impl View for PodNodeSummary {
    type V = SummaryView;

    open spec fn view(&self) -> SummaryView {
        SummaryView {
            pod_name: self.pod_name@,
            pod_namespace: self.pod_namespace@,
            pod_status: self.pod_status@,
            node_name: self.node_name@,
            allocatable_mem: self.allocatable_mem@,
        }
    }
}

/// The views of a sequence of nodes.
pub open spec fn node_views(s: Seq<NodeInfo>) -> Seq<NodeView> {
    s.map_values(|n: NodeInfo| n@)
}

/// The views of a sequence of pods.
pub open spec fn pod_views(s: Seq<PodInfo>) -> Seq<PodView> {
    s.map_values(|p: PodInfo| p@)
}

/// The first node of the sequence carrying `name`, if any.
pub open spec fn find_node(nodes: Seq<NodeView>, name: Seq<char>) -> Option<NodeView>
    decreases nodes.len(),
{
    if nodes.len() == 0 {
        Option::None
    } else if nodes[0].name == name {
        Option::Some(nodes[0])
    } else {
        find_node(nodes.drop_first(), name)
    }
}

/// The summary of one pod against the node cache. A pod with no
/// declared node gets the `<no node>` marker; a declared node missing
/// from the cache keeps its name, with empty allocatable memory.
pub open spec fn summarize(p: PodView, nodes: Seq<NodeView>) -> SummaryView {
    match p.node_name {
        Option::None => SummaryView {
            pod_name: p.name,
            pod_namespace: p.namespace,
            pod_status: p.phase,
            node_name: "<no node>"@,
            allocatable_mem: Seq::empty(),
        },
        Option::Some(n) => match find_node(nodes, n) {
            Option::Some(node) => SummaryView {
                pod_name: p.name,
                pod_namespace: p.namespace,
                pod_status: p.phase,
                node_name: node.name,
                allocatable_mem: node.allocatable_mem,
            },
            Option::None => SummaryView {
                pod_name: p.name,
                pod_namespace: p.namespace,
                pod_status: p.phase,
                node_name: n,
                allocatable_mem: Seq::empty(),
            },
        },
    }
}

/// Skipping past non-matching nodes does not change the find.
proof fn lemma_find_node_skip(nodes: Seq<NodeView>, name: Seq<char>, i: int)
    requires
        0 <= i <= nodes.len(),
        forall|j: int| 0 <= j < i ==> nodes[j].name != name,
    ensures
        find_node(nodes, name) == find_node(nodes.skip(i), name),
    decreases i,
{
    if i == 0 {
        assert(nodes.skip(0) =~= nodes);
    } else {
        assert(nodes[0].name != name);
        assert(nodes.len() > 0);
        lemma_find_node_skip(nodes.drop_first(), name, i - 1);
        assert(nodes.drop_first().skip(i - 1) =~= nodes.skip(i));
    }
}

/// Looks `name` up in the node list; agrees with [`find_node`].
fn lookup_node<'a>(nodes: &'a Vec<NodeInfo>, name: &String) -> (r: Option<&'a NodeInfo>)
    ensures
        match r {
            Some(n) => find_node(node_views(nodes@), name@) == Some(n@),
            None => find_node(node_views(nodes@), name@) == None::<NodeView>,
        },
{
    let ghost nv = node_views(nodes@);
    let mut i: usize = 0;
    while i < nodes.len()
        invariant
            i <= nodes@.len(),
            nv == node_views(nodes@),
            forall|j: int| 0 <= j < i ==> nv[j].name != name@,
        decreases nodes@.len() - i,
    {
        if nodes[i].name == *name {
            proof {
                lemma_find_node_skip(nv, name@, i as int);
                assert(nv.skip(i as int)[0] == nv[i as int]);
                assert(nv.skip(i as int).len() > 0);
            }
            return Some(&nodes[i]);
        }
        i = i + 1;
    }
    proof {
        lemma_find_node_skip(nv, name@, nodes@.len() as int);
        assert(nv.skip(nodes@.len() as int).len() == 0);
    }
    None
}

/// The summary of one pod; agrees with [`summarize`].
fn summarize_pod(pod: &PodInfo, nodes: &Vec<NodeInfo>) -> (r: PodNodeSummary)
    ensures
        r@ == summarize(pod@, node_views(nodes@)),
{
    match &pod.node_name {
        Some(name) => {
            match lookup_node(nodes, name) {
                Some(node) => {
                    let r = PodNodeSummary {
                        pod_name: pod.name.clone(),
                        pod_namespace: pod.namespace.clone(),
                        pod_status: pod.phase.clone(),
                        node_name: node.name.clone(),
                        allocatable_mem: node.allocatable_mem.clone(),
                    };
                    proof {
                        assert(r@ =~= summarize(pod@, node_views(nodes@)));
                    }
                    r
                },
                None => {
                    let r = PodNodeSummary {
                        pod_name: pod.name.clone(),
                        pod_namespace: pod.namespace.clone(),
                        pod_status: pod.phase.clone(),
                        node_name: name.clone(),
                        allocatable_mem: String::new(),
                    };
                    proof {
                        assert(r@ =~= summarize(pod@, node_views(nodes@)));
                    }
                    r
                },
            }
        },
        None => {
            let r = PodNodeSummary {
                pod_name: pod.name.clone(),
                pod_namespace: pod.namespace.clone(),
                pod_status: pod.phase.clone(),
                node_name: String::from_str("<no node>"),
                allocatable_mem: String::new(),
            };
            proof {
                assert(r@ =~= summarize(pod@, node_views(nodes@)));
            }
            r
        },
    }
}

/// Joins the pod cache with the node cache: one summary per pod, in
/// pod order, each as [`summarize`] says. A missing node never fails
/// the join.
pub fn join(pods: &Vec<PodInfo>, nodes: &Vec<NodeInfo>) -> (r: Vec<PodNodeSummary>)
    ensures
        r@.len() == pods@.len(),
        forall|i: int|
            0 <= i < pods@.len() ==> r@[i]@ == summarize(pods@[i]@, node_views(nodes@)),
{
    let mut out: Vec<PodNodeSummary> = Vec::new();
    let mut i: usize = 0;
    while i < pods.len()
        invariant
            i <= pods@.len(),
            out@.len() == i,
            forall|j: int| 0 <= j < i ==> out@[j]@ == summarize(pods@[j]@, node_views(nodes@)),
        decreases pods@.len() - i,
    {
        out.push(summarize_pod(&pods[i], nodes));
        i = i + 1;
    }
    out
}

} // verus!
