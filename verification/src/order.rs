//! Orderings of the crate's records: texts compared character by character
//! (the order of `str`, since UTF-8 keeps the order of code points), proxy
//! nodes by name then id, and stable sorting by those orders.
use vstd::prelude::*;

use crate::proxy::{
    nodes_view, statuses_view, ProxyNodeConfig, ProxyNodeRuntimeStatus, ProxyNodeRuntimeStatusView,
    ProxyNodeView,
};

verus! {

/// Whether `a` comes strictly before `b` in the lexicographic order of characters.
pub open spec fn text_lt(a: Seq<char>, b: Seq<char>) -> bool
    decreases a.len(),
{
    if a.len() == 0 {
        b.len() > 0
    } else if b.len() == 0 {
        false
    } else if a[0] != b[0] {
        (a[0] as int) < (b[0] as int)
    } else {
        text_lt(a.drop_first(), b.drop_first())
    }
}

/// The lexicographic order is irreflexive and total.
pub proof fn lemma_text_lt_total(a: Seq<char>, b: Seq<char>)
    ensures
        !text_lt(a, a),
        a != b ==> (text_lt(a, b) || text_lt(b, a)),
        !(text_lt(a, b) && text_lt(b, a)),
    decreases a.len(),
{
    if a.len() > 0 && b.len() > 0 {
        lemma_text_lt_total(a.drop_first(), b.drop_first());
        lemma_text_lt_total(a.drop_first(), a.drop_first());
        if a != b && a[0] == b[0] {
            assert(a.drop_first() != b.drop_first()) by {
                if a.drop_first() == b.drop_first() {
                    assert(a =~= seq![a[0]] + a.drop_first());
                    assert(b =~= seq![b[0]] + b.drop_first());
                }
            }
        }
    } else if a.len() > 0 {
        lemma_text_lt_total(a.drop_first(), a.drop_first());
    } else if b.len() == 0 {
        assert(a =~= b);
    }
}

/// The lexicographic order is transitive.
pub proof fn lemma_text_lt_trans(a: Seq<char>, b: Seq<char>, c: Seq<char>)
    requires
        text_lt(a, b),
        text_lt(b, c),
    ensures
        text_lt(a, c),
    decreases a.len(),
{
    if a.len() > 0 && b.len() > 0 && c.len() > 0 && a[0] == b[0] && b[0] == c[0] {
        lemma_text_lt_trans(a.drop_first(), b.drop_first(), c.drop_first());
    }
}

/// Whether node `a` comes strictly before node `b`: by name, then by id.
pub open spec fn node_lt(a: ProxyNodeView, b: ProxyNodeView) -> bool {
    text_lt(a.name, b.name) || (a.name == b.name && a.id < b.id)
}

/// Whether the nodes are in order.
pub open spec fn nodes_sorted(s: Seq<ProxyNodeView>) -> bool {
    forall|i: int, j: int| 0 <= i < j < s.len() ==> !node_lt(#[trigger] s[j], #[trigger] s[i])
}

/// Whether `a` comes strictly before `b` by name, in the order of `str`.
pub exec fn text_less(a: &str, b: &str) -> (r: bool)
    ensures
        r == text_lt(a@, b@),
{
    let n = a.unicode_len();
    let m = b.unicode_len();
    let mut i: usize = 0;
    assert(a@.skip(0) =~= a@);
    assert(b@.skip(0) =~= b@);
    while i < n && i < m
        invariant
            n == a@.len(),
            m == b@.len(),
            i <= n,
            i <= m,
            text_lt(a@, b@) == text_lt(a@.skip(i as int), b@.skip(i as int)),
        decreases n - i,
    {
        let ca = a.get_char(i);
        let cb = b.get_char(i);
        let ghost sa = a@.skip(i as int);
        let ghost sb = b@.skip(i as int);
        assert(sa[0] == ca && sb[0] == cb);
        if ca != cb {
            return (ca as u32) < (cb as u32);
        }
        assert(sa.drop_first() =~= a@.skip(i + 1));
        assert(sb.drop_first() =~= b@.skip(i + 1));
        i = i + 1;
    }
    i == n && i < m
}

/// Whether node `a` comes strictly before node `b`.
pub fn node_less(a: &ProxyNodeConfig, b: &ProxyNodeConfig) -> (r: bool)
    ensures
        r == node_lt(a@, b@),
{
    if text_less(a.name.as_str(), b.name.as_str()) {
        return true;
    }
    if text_less(b.name.as_str(), a.name.as_str()) {
        proof {
            lemma_text_lt_total(a@.name, b@.name);
        }
        return false;
    }
    proof {
        lemma_text_lt_total(a@.name, b@.name);
    }
    a.id < b.id
}

/// The nodes, sorted by name then id; nodes that compare equal keep their order.
pub fn sort_nodes(nodes: Vec<ProxyNodeConfig>) -> (r: Vec<ProxyNodeConfig>)
    ensures
        nodes_sorted(nodes_view(r@)),
        nodes_view(r@).to_multiset() == nodes_view(nodes@).to_multiset(),
{
    broadcast use vstd::seq_lib::group_to_multiset_ensures;

    let mut sorted: Vec<ProxyNodeConfig> = Vec::new();
    let ghost input = nodes_view(nodes@);
    let mut taken: usize = 0;
    let total = nodes.len();
    assert(nodes_view(sorted@).to_multiset() =~= input.subrange(0, 0).to_multiset());
    while taken < total
        invariant
            total == input.len(),
            taken <= total,
            input == nodes_view(nodes@),
            nodes_sorted(nodes_view(sorted@)),
            nodes_view(sorted@).to_multiset() == input.subrange(0, taken as int).to_multiset(),
        decreases total - taken,
    {
        let x = nodes[taken].clone();
        let ghost xv = x@;
        assert(xv == input[taken as int]);
        let mut p: usize = sorted.len();
        while p > 0 && node_less(&x, &sorted[p - 1])
            invariant
                p <= sorted@.len(),
                xv == x@,
                forall|k: int| p <= k < sorted@.len() ==> node_lt(xv, #[trigger] nodes_view(sorted@)[k]),
            decreases p,
        {
            p = p - 1;
        }
        let ghost sv = nodes_view(sorted@);
        sorted.insert(p, x);
        proof {
            let nv = nodes_view(sorted@);
            assert(nv =~= sv.insert(p as int, xv));
            assert forall|i: int, j: int| 0 <= i < j < nv.len() implies !node_lt(
                #[trigger] nv[j],
                #[trigger] nv[i],
            ) by {
                lemma_text_lt_total(nv[i].name, nv[j].name);
                if i < p && j == p {
                    // nv[i] = sv[i], sv[p-1] is not after xv.
                    assert(!node_lt(xv, sv[p - 1]));
                    if i < p - 1 {
                        assert(!node_lt(sv[p - 1], sv[i]));
                        lemma_node_le_trans(sv[i], sv[p - 1], xv);
                    }
                } else if i == p && j > p {
                    assert(node_lt(xv, sv[j - 1]));
                } else if i < p && j > p {
                    assert(!node_lt(sv[j - 1], sv[i]));
                } else if i > p {
                    assert(!node_lt(sv[j - 1], sv[i - 1]));
                } else {
                    assert(!node_lt(sv[j], sv[i]));
                }
            }
            vstd::seq_lib::to_multiset_insert(sv, p as int, xv);
            assert(input.subrange(0, taken + 1) =~= input.subrange(0, taken as int).push(xv));
            vstd::seq_lib::to_multiset_build(input.subrange(0, taken as int), xv);
            assert(nv.to_multiset() == sv.to_multiset().insert(xv));
        }
        taken = taken + 1;
    }
    assert(input.subrange(0, total as int) =~= input);
    sorted
}

/// Not-after is transitive for nodes.
proof fn lemma_node_le_trans(a: ProxyNodeView, b: ProxyNodeView, c: ProxyNodeView)
    requires
        !node_lt(b, a),
        !node_lt(c, b),
    ensures
        !node_lt(c, a),
{
    lemma_text_lt_total(a.name, b.name);
    lemma_text_lt_total(b.name, c.name);
    lemma_text_lt_total(a.name, c.name);
    if text_lt(c.name, a.name) {
        if text_lt(c.name, b.name) {
        } else if c.name == b.name {
        } else {
            lemma_text_lt_trans(b.name, c.name, a.name);
        }
    }
    if text_lt(a.name, b.name) && text_lt(b.name, c.name) {
        lemma_text_lt_trans(a.name, b.name, c.name);
    }
}

/// Whether the statuses are in the order of their container names.
pub open spec fn statuses_sorted(s: Seq<ProxyNodeRuntimeStatusView>) -> bool {
    forall|i: int, j: int| 0 <= i < j < s.len() ==> !text_lt(#[trigger] s[j].container_name, #[trigger] s[i].container_name)
}

proof fn lemma_text_le_trans(a: Seq<char>, b: Seq<char>, c: Seq<char>)
    requires
        !text_lt(b, a),
        !text_lt(c, b),
    ensures
        !text_lt(c, a),
{
    lemma_text_lt_total(a, b);
    lemma_text_lt_total(b, c);
    lemma_text_lt_total(a, c);
    if text_lt(c, a) {
        if a != b && b != c {
            lemma_text_lt_trans(a, b, c);
        }
    }
}

/// The statuses, sorted by container name; statuses with equal names keep
/// their order.
pub fn sort_statuses(statuses: Vec<ProxyNodeRuntimeStatus>) -> (r: Vec<ProxyNodeRuntimeStatus>)
    ensures
        statuses_sorted(statuses_view(r@)),
        statuses_view(r@).to_multiset() == statuses_view(statuses@).to_multiset(),
{
    broadcast use vstd::seq_lib::group_to_multiset_ensures;

    let mut sorted: Vec<ProxyNodeRuntimeStatus> = Vec::new();
    let ghost input = statuses_view(statuses@);
    let mut taken: usize = 0;
    let total = statuses.len();
    assert(statuses_view(sorted@).to_multiset() =~= input.subrange(0, 0).to_multiset());
    while taken < total
        invariant
            total == input.len(),
            taken <= total,
            input == statuses_view(statuses@),
            statuses_sorted(statuses_view(sorted@)),
            statuses_view(sorted@).to_multiset() == input.subrange(0, taken as int).to_multiset(),
        decreases total - taken,
    {
        let x = statuses[taken].clone();
        let ghost xv = x@;
        assert(xv == input[taken as int]);
        let mut p: usize = sorted.len();
        while p > 0 && text_less(x.container_name.as_str(), sorted[p - 1].container_name.as_str())
            invariant
                p <= sorted@.len(),
                xv == x@,
                forall|k: int| p <= k < sorted@.len() ==> text_lt(xv.container_name, (#[trigger] statuses_view(sorted@)[k]).container_name),
            decreases p,
        {
            p = p - 1;
        }
        let ghost sv = statuses_view(sorted@);
        sorted.insert(p, x);
        proof {
            let nv = statuses_view(sorted@);
            assert(nv =~= sv.insert(p as int, xv));
            assert forall|i: int, j: int| 0 <= i < j < nv.len() implies !text_lt(
                #[trigger] nv[j].container_name,
                #[trigger] nv[i].container_name,
            ) by {
                lemma_text_lt_total(nv[i].container_name, nv[j].container_name);
                if i < p && j == p {
                    assert(!text_lt(xv.container_name, sv[p - 1].container_name));
                    if i < p - 1 {
                        assert(!text_lt(sv[p - 1].container_name, sv[i].container_name));
                        lemma_text_le_trans(sv[i].container_name, sv[p - 1].container_name, xv.container_name);
                    }
                } else if i == p && j > p {
                    assert(text_lt(xv.container_name, sv[j - 1].container_name));
                } else if i < p && j > p {
                    assert(!text_lt(sv[j - 1].container_name, sv[i].container_name));
                } else if i > p {
                    assert(!text_lt(sv[j - 1].container_name, sv[i - 1].container_name));
                } else {
                    assert(!text_lt(sv[j].container_name, sv[i].container_name));
                }
            }
            vstd::seq_lib::to_multiset_insert(sv, p as int, xv);
            assert(input.subrange(0, taken + 1) =~= input.subrange(0, taken as int).push(xv));
            vstd::seq_lib::to_multiset_build(input.subrange(0, taken as int), xv);
            assert(nv.to_multiset() == sv.to_multiset().insert(xv));
        }
        taken = taken + 1;
    }
    assert(input.subrange(0, total as int) =~= input);
    sorted
}

} // verus!
