//! Renders cache contents and join results as HTML fragments for a
//! polling browser: list items for nodes, pods and joined summaries,
//! and the demo paragraph with a random number.
//!
//! Every value interpolated into markup is escaped first; the exact
//! text of each fragment is pinned by a spec function.

use vstd::prelude::*;
use vstd::string::*;
use crate::compose::{NodeInfo, NodeView, PodInfo, PodView, PodNodeSummary, SummaryView,
    node_views, pod_views};

verus! {

/// The replacement for one character in fragment text.
pub open spec fn escape_char(c: char) -> Seq<char> {
    if c == '&' {
        "&amp;"@
    } else if c == '<' {
        "&lt;"@
    } else if c == '>' {
        "&gt;"@
    } else if c == '"' {
        "&quot;"@
    } else if c == '\'' {
        "&#x27;"@
    } else {
        seq![c]
    }
}

/// Markup-escaped text.
pub open spec fn escaped(s: Seq<char>) -> Seq<char>
    decreases s.len(),
{
    if s.len() == 0 {
        Seq::empty()
    } else {
        escape_char(s[0]) + escaped(s.drop_first())
    }
}

/// Escaping one more character appends its replacement.
proof fn lemma_escaped_snoc(s: Seq<char>, i: int)
    requires
        0 <= i < s.len(),
    ensures
        escaped(s.take(i + 1)) == escaped(s.take(i)) + escape_char(s[i]),
    decreases i,
{
    if i == 0 {
        assert(s.take(1).len() == 1);
        assert(s.take(1)[0] == s[0]);
        assert(s.take(1).drop_first() =~= s.take(0));
        assert(escaped(s.take(0)) == Seq::<char>::empty());
        assert(escape_char(s[0]) + escaped(s.take(1).drop_first()) =~= Seq::<char>::empty()
            + escape_char(s[0]));
    } else {
        let rest = s.drop_first();
        assert(s.take(i + 1)[0] == s[0]);
        assert(s.take(i + 1).drop_first() =~= rest.take(i));
        assert(escaped(s.take(i + 1)) == escape_char(s[0]) + escaped(rest.take(i)));
        assert(s.take(i)[0] == s[0]);
        assert(s.take(i).drop_first() =~= rest.take(i - 1));
        assert(escaped(s.take(i)) == escape_char(s[0]) + escaped(rest.take(i - 1)));
        lemma_escaped_snoc(rest, i - 1);
        assert(rest[i - 1] == s[i]);
        assert(escape_char(s[0]) + (escaped(rest.take(i - 1)) + escape_char(s[i])) =~= (
        escape_char(s[0]) + escaped(rest.take(i - 1))) + escape_char(s[i]));
    }
}

/// Relies on String::push: appends exactly the given character.
#[verifier::external_body]
fn push_char(s: &mut String, c: char)
    ensures
        final(s)@ == old(s)@.push(c),
{
    s.push(c);
}

/// Escapes text for interpolation into markup.
pub fn escape_html(s: &str) -> (r: String)
    ensures
        r@ == escaped(s@),
{
    let n = s.unicode_len();
    let mut out = String::new();
    let mut i: usize = 0;
    proof {
        assert(s@.take(0) =~= Seq::<char>::empty());
    }
    while i < n
        invariant
            n == s@.len(),
            i <= n,
            out@ == escaped(s@.take(i as int)),
        decreases n - i,
    {
        let c = s.get_char(i);
        proof {
            lemma_escaped_snoc(s@, i as int);
        }
        if c == '&' {
            out.append("&amp;");
        } else if c == '<' {
            out.append("&lt;");
        } else if c == '>' {
            out.append("&gt;");
        } else if c == '"' {
            out.append("&quot;");
        } else if c == '\'' {
            out.append("&#x27;");
        } else {
            push_char(&mut out, c);
            proof {
                assert(out@ =~= escaped(s@.take(i as int)) + escape_char(c));
            }
        }
        i = i + 1;
    }
    proof {
        assert(s@.take(n as int) =~= s@);
    }
    out
}

/// The decimal digit character for `d` (0 through 9).
pub open spec fn digit_char(d: nat) -> char {
    if d == 0 {
        '0'
    } else if d == 1 {
        '1'
    } else if d == 2 {
        '2'
    } else if d == 3 {
        '3'
    } else if d == 4 {
        '4'
    } else if d == 5 {
        '5'
    } else if d == 6 {
        '6'
    } else if d == 7 {
        '7'
    } else if d == 8 {
        '8'
    } else {
        '9'
    }
}

/// The decimal numeral of `n`, most significant digit first.
pub open spec fn decimal(n: nat) -> Seq<char>
    decreases n,
{
    if n < 10 {
        seq![digit_char(n)]
    } else {
        decimal(n / 10).push(digit_char(n % 10))
    }
}

/// The one-character string for one decimal digit.
fn digit_string(d: u32) -> (r: String)
    requires
        d < 10,
    ensures
        r@ == seq![digit_char(d as nat)],
{
    proof {
        reveal_strlit("0");
        reveal_strlit("1");
        reveal_strlit("2");
        reveal_strlit("3");
        reveal_strlit("4");
        reveal_strlit("5");
        reveal_strlit("6");
        reveal_strlit("7");
        reveal_strlit("8");
        reveal_strlit("9");
    }
    let r = match d {
        0 => String::from_str("0"),
        1 => String::from_str("1"),
        2 => String::from_str("2"),
        3 => String::from_str("3"),
        4 => String::from_str("4"),
        5 => String::from_str("5"),
        6 => String::from_str("6"),
        7 => String::from_str("7"),
        8 => String::from_str("8"),
        _ => String::from_str("9"),
    };
    proof {
        assert(r@ =~= seq![digit_char(d as nat)]);
    }
    r
}

/// The decimal numeral of `n` as a string.
pub fn u32_decimal(n: u32) -> (r: String)
    ensures
        r@ == decimal(n as nat),
    decreases n,
{
    if n < 10 {
        digit_string(n)
    } else {
        let mut r = u32_decimal(n / 10);
        let d = digit_string(n % 10);
        r.append(d.as_str());
        proof {
            assert(r@ =~= decimal((n / 10) as nat).push(digit_char((n % 10) as nat)));
        }
        r
    }
}

/// Items joined into one fragment, each on its own line.
pub open spec fn lines(items: Seq<Seq<char>>) -> Seq<char>
    decreases items.len(),
{
    if items.len() == 0 {
        Seq::empty()
    } else {
        items[0] + seq!['\n'] + lines(items.drop_first())
    }
}

/// Joining one more item appends it and a newline.
proof fn lemma_lines_snoc(items: Seq<Seq<char>>, i: int)
    requires
        0 <= i < items.len(),
    ensures
        lines(items.take(i + 1)) == lines(items.take(i)) + items[i] + seq!['\n'],
    decreases i,
{
    if i == 0 {
        assert(items.take(1).len() == 1);
        assert(items.take(1)[0] == items[0]);
        assert(items.take(1).drop_first() =~= items.take(0));
        assert(lines(items.take(0)) == Seq::<char>::empty());
        assert(items[0] + seq!['\n'] + lines(items.take(0)) =~= Seq::<char>::empty() + items[0]
            + seq!['\n']);
    } else {
        let rest = items.drop_first();
        assert(items.take(i + 1)[0] == items[0]);
        assert(items.take(i + 1).drop_first() =~= rest.take(i));
        assert(lines(items.take(i + 1)) == items[0] + seq!['\n'] + lines(rest.take(i)));
        assert(items.take(i)[0] == items[0]);
        assert(items.take(i).drop_first() =~= rest.take(i - 1));
        assert(lines(items.take(i)) == items[0] + seq!['\n'] + lines(rest.take(i - 1)));
        lemma_lines_snoc(rest, i - 1);
        assert(rest[i - 1] == items[i]);
        assert(items[0] + seq!['\n'] + (lines(rest.take(i - 1)) + items[i] + seq!['\n']) =~= (
        items[0] + seq!['\n'] + lines(rest.take(i - 1))) + items[i] + seq!['\n']);
    }
}

/// The list item for one node: its name and allocatable memory.
pub open spec fn node_item(n: NodeView) -> Seq<char> {
    "<li>"@ + escaped(n.name) + ": "@ + escaped(n.allocatable_mem) + "</li>"@
}

/// Renders the list item for one node.
pub fn render_node_item(n: &NodeInfo) -> (r: String)
    ensures
        r@ == node_item(n@),
{
    let mut out = String::from_str("<li>");
    out.append(escape_html(n.name.as_str()).as_str());
    out.append(": ");
    out.append(escape_html(n.allocatable_mem.as_str()).as_str());
    out.append("</li>");
    out
}

/// The list item for one pod: its name, namespace and status phase.
pub open spec fn pod_item(p: PodView) -> Seq<char> {
    "<li>"@ + escaped(p.name) + " "@ + escaped(p.namespace) + " "@ + escaped(p.phase) + "</li>"@
}

/// Renders the list item for one pod.
pub fn render_pod_item(p: &PodInfo) -> (r: String)
    ensures
        r@ == pod_item(p@),
{
    let mut out = String::from_str("<li>");
    out.append(escape_html(p.name.as_str()).as_str());
    out.append(" ");
    out.append(escape_html(p.namespace.as_str()).as_str());
    out.append(" ");
    out.append(escape_html(p.phase.as_str()).as_str());
    out.append("</li>");
    out
}

/// The list item for one joined pod/node summary.
pub open spec fn summary_item(s: SummaryView) -> Seq<char> {
    "<li>"@ + escaped(s.pod_name) + " "@ + escaped(s.pod_namespace) + " "@ + escaped(s.pod_status)
        + " "@ + escaped(s.node_name) + " "@ + escaped(s.allocatable_mem) + "</li>"@
}

/// Renders the list item for one joined pod/node summary.
pub fn render_summary_item(s: &PodNodeSummary) -> (r: String)
    ensures
        r@ == summary_item(s@),
{
    let mut out = String::from_str("<li>");
    out.append(escape_html(s.pod_name.as_str()).as_str());
    out.append(" ");
    out.append(escape_html(s.pod_namespace.as_str()).as_str());
    out.append(" ");
    out.append(escape_html(s.pod_status.as_str()).as_str());
    out.append(" ");
    out.append(escape_html(s.node_name.as_str()).as_str());
    out.append(" ");
    out.append(escape_html(s.allocatable_mem.as_str()).as_str());
    out.append("</li>");
    out
}

/// The fragment for the whole node list.
pub open spec fn node_list_fragment(ns: Seq<NodeView>) -> Seq<char> {
    lines(ns.map_values(|n: NodeView| node_item(n)))
}

/// Renders the node list fragment, one item per cached node.
pub fn render_node_list(nodes: &Vec<NodeInfo>) -> (r: String)
    ensures
        r@ == node_list_fragment(node_views(nodes@)),
{
    let ghost items = node_views(nodes@).map_values(|n: NodeView| node_item(n));
    let mut out = String::new();
    let mut i: usize = 0;
    proof {
        assert(items.take(0) =~= Seq::<Seq<char>>::empty());
    }
    while i < nodes.len()
        invariant
            i <= nodes@.len(),
            items == node_views(nodes@).map_values(|n: NodeView| node_item(n)),
            items.len() == nodes@.len(),
            out@ == lines(items.take(i as int)),
        decreases nodes@.len() - i,
    {
        proof {
            lemma_lines_snoc(items, i as int);
        }
        let item = render_node_item(&nodes[i]);
        out.append(item.as_str());
        out.append("\n");
        proof {
            reveal_strlit("\n");
            assert(out@ =~= lines(items.take(i as int)) + items[i as int] + seq!['\n']);
        }
        i = i + 1;
    }
    proof {
        assert(items.take(nodes@.len() as int) =~= items);
    }
    out
}

/// The fragment for the whole pod list.
pub open spec fn pod_list_fragment(ps: Seq<PodView>) -> Seq<char> {
    lines(ps.map_values(|p: PodView| pod_item(p)))
}

/// Renders the pod list fragment, one item per cached pod.
pub fn render_pod_list(pods: &Vec<PodInfo>) -> (r: String)
    ensures
        r@ == pod_list_fragment(pod_views(pods@)),
{
    let ghost items = pod_views(pods@).map_values(|p: PodView| pod_item(p));
    let mut out = String::new();
    let mut i: usize = 0;
    proof {
        assert(items.take(0) =~= Seq::<Seq<char>>::empty());
    }
    while i < pods.len()
        invariant
            i <= pods@.len(),
            items == pod_views(pods@).map_values(|p: PodView| pod_item(p)),
            items.len() == pods@.len(),
            out@ == lines(items.take(i as int)),
        decreases pods@.len() - i,
    {
        proof {
            lemma_lines_snoc(items, i as int);
        }
        let item = render_pod_item(&pods[i]);
        out.append(item.as_str());
        out.append("\n");
        proof {
            reveal_strlit("\n");
            assert(out@ =~= lines(items.take(i as int)) + items[i as int] + seq!['\n']);
        }
        i = i + 1;
    }
    proof {
        assert(items.take(pods@.len() as int) =~= items);
    }
    out
}

/// The views of a sequence of summaries.
pub open spec fn summary_views(s: Seq<PodNodeSummary>) -> Seq<SummaryView> {
    s.map_values(|x: PodNodeSummary| x@)
}

/// The fragment for the joined pod/node list.
pub open spec fn summary_list_fragment(ss: Seq<SummaryView>) -> Seq<char> {
    lines(ss.map_values(|s: SummaryView| summary_item(s)))
}

/// Renders the joined pod/node fragment, one item per summary.
pub fn render_summary_list(summaries: &Vec<PodNodeSummary>) -> (r: String)
    ensures
        r@ == summary_list_fragment(summary_views(summaries@)),
{
    let ghost items = summary_views(summaries@).map_values(|s: SummaryView| summary_item(s));
    let mut out = String::new();
    let mut i: usize = 0;
    proof {
        assert(items.take(0) =~= Seq::<Seq<char>>::empty());
    }
    while i < summaries.len()
        invariant
            i <= summaries@.len(),
            items == summary_views(summaries@).map_values(|s: SummaryView| summary_item(s)),
            items.len() == summaries@.len(),
            out@ == lines(items.take(i as int)),
        decreases summaries@.len() - i,
    {
        proof {
            lemma_lines_snoc(items, i as int);
        }
        let item = render_summary_item(&summaries[i]);
        out.append(item.as_str());
        out.append("\n");
        proof {
            reveal_strlit("\n");
            assert(out@ =~= lines(items.take(i as int)) + items[i as int] + seq!['\n']);
        }
        i = i + 1;
    }
    proof {
        assert(items.take(summaries@.len() as int) =~= items);
    }
    out
}

/// The demo paragraph holding one number.
pub open spec fn number_fragment(n: u32) -> Seq<char> {
    "<p>"@ + decimal(n as nat) + "</p>"@
}

/// Renders the demo paragraph for a given number.
pub fn render_number_fragment(n: u32) -> (r: String)
    ensures
        r@ == number_fragment(n),
{
    let mut out = String::from_str("<p>");
    let d = u32_decimal(n);
    out.append(d.as_str());
    out.append("</p>");
    out
}

/// Relies on rand's thread-local generator for one draw of a 32-bit
/// number; nothing is promised of its value.
#[verifier::external_body]
fn next_u32() -> u32 {
    rand::Rng::next_u32(&mut rand::rng())
}

/// Renders the demo paragraph for a freshly drawn random number.
pub fn random_fragment() -> (r: String)
    ensures
        exists|n: u32| r@ == number_fragment(n),
{
    let n = next_u32();
    let r = render_number_fragment(n);
    proof {
        assert(r@ == number_fragment(n));
    }
    r
}

} // verus!
