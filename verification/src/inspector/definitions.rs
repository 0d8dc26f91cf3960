//! One row per resolver of every mutation of a set of topologies.
use vstd::prelude::*;
use crate::topology::{Resolver, Mutation, Topology};

verus! {

/// A resolver row: the namespace it belongs to and the resolver's name,
/// target kind, target, input and output types.
#[derive(Debug, PartialEq, Eq)]
pub struct Item {
    pub namespace: String,
    pub name: String,
    pub kind: String,
    pub target: String,
    pub input: String,
    pub output: String,
}

/// The text of a resolver row.
pub struct ItemView {
    pub namespace: Seq<char>,
    pub name: Seq<char>,
    pub kind: Seq<char>,
    pub target: Seq<char>,
    pub input: Seq<char>,
    pub output: Seq<char>,
}

impl View for Item {
    type V = ItemView;

    open spec fn view(&self) -> ItemView {
        ItemView {
            namespace: self.namespace@,
            name: self.name@,
            kind: self.kind@,
            target: self.target@,
            input: self.input@,
            output: self.output@,
        }
    }
}

/// The text of a sequence of rows.
pub open spec fn item_views(s: Seq<Item>) -> Seq<ItemView> {
    s.map_values(|i: Item| i@)
}

/// The row of resolver `r` of namespace `ns`.
pub open spec fn resolver_row(ns: Seq<char>, r: Resolver) -> ItemView {
    ItemView {
        namespace: ns,
        name: r.name@,
        kind: r.kind@,
        target: r.target_arn@,
        input: r.input@,
        output: r.output@,
    }
}

/// The rows of resolvers `rs`, in order.
pub open spec fn resolver_rows(ns: Seq<char>, rs: Seq<(String, Resolver)>) -> Seq<ItemView>
    decreases rs.len(),
{
    if rs.len() == 0 {
        Seq::<ItemView>::empty()
    } else {
        resolver_rows(ns, rs.drop_last()).push(resolver_row(ns, rs.last().1))
    }
}

/// The rows of the resolvers of mutations `ms`, mutation after mutation.
pub open spec fn mutation_rows(ns: Seq<char>, ms: Seq<(String, Mutation)>) -> Seq<ItemView>
    decreases ms.len(),
{
    if ms.len() == 0 {
        Seq::<ItemView>::empty()
    } else {
        mutation_rows(ns, ms.drop_last()) + resolver_rows(ns, ms.last().1.resolvers@)
    }
}

/// The rows of one topology's own mutations.
pub open spec fn topology_rows(t: Topology) -> Seq<ItemView> {
    mutation_rows(t.namespace@, t.mutations@)
}

/// The rows of the topologies `nodes`, one after the other.
pub open spec fn nodes_rows(nodes: Seq<Topology>) -> Seq<ItemView>
    decreases nodes.len(),
{
    if nodes.len() == 0 {
        Seq::<ItemView>::empty()
    } else {
        nodes_rows(nodes.drop_last()) + topology_rows(nodes.last())
    }
}

/// The rows of each topology of `ts` followed by those of its nodes.
pub open spec fn all_rows(ts: Seq<Topology>) -> Seq<ItemView>
    decreases ts.len(),
{
    if ts.len() == 0 {
        Seq::<ItemView>::empty()
    } else {
        all_rows(ts.drop_last()) + topology_rows(ts.last()) + nodes_rows(ts.last().nodes@)
    }
}

/// The rows of two runs of resolvers are the rows of the first run followed
/// by those of the second; a single resolver gives its own row.
pub proof fn lemma_resolver_rows_append(
    ns: Seq<char>,
    a: Seq<(String, Resolver)>,
    b: Seq<(String, Resolver)>,
)
    ensures
        resolver_rows(ns, a + b) == resolver_rows(ns, a) + resolver_rows(ns, b),
        forall|r: (String, Resolver)| #[trigger] resolver_rows(ns, seq![r]) == seq![resolver_row(ns, r.1)],
    decreases b.len(),
{
    assert forall|r: (String, Resolver)| #[trigger] resolver_rows(ns, seq![r]) == seq![resolver_row(ns, r.1)] by {
        assert(seq![r].drop_last() =~= Seq::<(String, Resolver)>::empty());
        assert(seq![r].last() == r);
        assert(resolver_rows(ns, Seq::<(String, Resolver)>::empty()) == Seq::<ItemView>::empty());
        assert(Seq::<ItemView>::empty().push(resolver_row(ns, r.1)) =~= seq![resolver_row(ns, r.1)]);
    }
    if b.len() == 0 {
        assert(a + b =~= a);
        assert(resolver_rows(ns, a) + resolver_rows(ns, b) =~= resolver_rows(ns, a));
    } else {
        lemma_resolver_rows_append(ns, a, b.drop_last());
        assert((a + b).drop_last() =~= a + b.drop_last());
        assert((a + b).last() == b.last());
        assert(resolver_rows(ns, a + b) =~= resolver_rows(ns, a) + resolver_rows(ns, b));
    }
}

/// The rows of two runs of mutations are the rows of the first run followed
/// by those of the second; a single mutation gives the rows of its
/// resolvers.
pub proof fn lemma_mutation_rows_append(
    ns: Seq<char>,
    a: Seq<(String, Mutation)>,
    b: Seq<(String, Mutation)>,
)
    ensures
        mutation_rows(ns, a + b) == mutation_rows(ns, a) + mutation_rows(ns, b),
        forall|m: (String, Mutation)| #[trigger] mutation_rows(ns, seq![m]) == resolver_rows(ns, m.1.resolvers@),
    decreases b.len(),
{
    assert forall|m: (String, Mutation)| #[trigger] mutation_rows(ns, seq![m]) == resolver_rows(ns, m.1.resolvers@) by {
        assert(seq![m].drop_last() =~= Seq::<(String, Mutation)>::empty());
        assert(seq![m].last() == m);
        assert(mutation_rows(ns, Seq::<(String, Mutation)>::empty()) == Seq::<ItemView>::empty());
        assert(Seq::<ItemView>::empty() + resolver_rows(ns, m.1.resolvers@) =~= resolver_rows(ns, m.1.resolvers@));
    }
    if b.len() == 0 {
        assert(a + b =~= a);
        assert(mutation_rows(ns, a) + mutation_rows(ns, b) =~= mutation_rows(ns, a));
    } else {
        lemma_mutation_rows_append(ns, a, b.drop_last());
        assert((a + b).drop_last() =~= a + b.drop_last());
        assert((a + b).last() == b.last());
        assert(mutation_rows(ns, a + b) =~= mutation_rows(ns, a) + mutation_rows(ns, b));
    }
}

/// The rows of two runs of nodes are the rows of the first run followed by
/// those of the second; a single node gives the rows of its own mutations.
/// So no node of a topology is left out of its rows.
pub proof fn lemma_nodes_rows_append(a: Seq<Topology>, b: Seq<Topology>)
    ensures
        nodes_rows(a + b) == nodes_rows(a) + nodes_rows(b),
        forall|t: Topology| #[trigger] nodes_rows(seq![t]) == topology_rows(t),
    decreases b.len(),
{
    assert forall|t: Topology| #[trigger] nodes_rows(seq![t]) == topology_rows(t) by {
        assert(seq![t].drop_last() =~= Seq::<Topology>::empty());
        assert(seq![t].last() == t);
        assert(nodes_rows(Seq::<Topology>::empty()) == Seq::<ItemView>::empty());
        assert(Seq::<ItemView>::empty() + topology_rows(t) =~= topology_rows(t));
    }
    if b.len() == 0 {
        assert(a + b =~= a);
        assert(nodes_rows(a) + nodes_rows(b) =~= nodes_rows(a));
    } else {
        lemma_nodes_rows_append(a, b.drop_last());
        assert((a + b).drop_last() =~= a + b.drop_last());
        assert((a + b).last() == b.last());
        assert(nodes_rows(a + b) =~= nodes_rows(a) + nodes_rows(b));
    }
}

/// The rows of two runs of topologies are the rows of the first run followed
/// by those of the second; a single topology gives the rows of its own
/// mutations followed by the rows of its nodes.
pub proof fn lemma_all_rows_append(a: Seq<Topology>, b: Seq<Topology>)
    ensures
        all_rows(a + b) == all_rows(a) + all_rows(b),
        forall|t: Topology| #[trigger] all_rows(seq![t]) == topology_rows(t) + nodes_rows(t.nodes@),
    decreases b.len(),
{
    assert forall|t: Topology| #[trigger] all_rows(seq![t]) == topology_rows(t) + nodes_rows(t.nodes@) by {
        assert(seq![t].drop_last() =~= Seq::<Topology>::empty());
        assert(seq![t].last() == t);
        assert(all_rows(Seq::<Topology>::empty()) == Seq::<ItemView>::empty());
        assert(Seq::<ItemView>::empty() + topology_rows(t) + nodes_rows(t.nodes@) =~= topology_rows(t)
            + nodes_rows(t.nodes@));
    }
    if b.len() == 0 {
        assert(a + b =~= a);
        assert(all_rows(a) + all_rows(b) =~= all_rows(a));
    } else {
        lemma_all_rows_append(a, b.drop_last());
        assert((a + b).drop_last() =~= a + b.drop_last());
        assert((a + b).last() == b.last());
        assert(all_rows(a + b) =~= all_rows(a) + all_rows(b));
    }
}

/// The row of one resolver.
fn resolver_item(ns: &String, r: &Resolver) -> (item: Item)
    ensures
        item@ == resolver_row(ns@, *r),
{
    Item {
        namespace: ns.clone(),
        name: r.name.clone(),
        kind: r.kind.clone(),
        target: r.target_arn.clone(),
        input: r.input.clone(),
        output: r.output.clone(),
    }
}

/// The rows of the resolvers of every mutation of `topology`.
pub fn build_aux(topology: &Topology) -> (xs: Vec<Item>)
    requires
        topology.well_formed(),
    ensures
        item_views(xs@) == topology_rows(*topology),
{
    let ghost ns = topology.namespace@;
    let ghost ms = topology.mutations@;
    let mut xs: Vec<Item> = Vec::new();
    let mut i: usize = 0;
    assert(ms.take(0) =~= Seq::<(String, Mutation)>::empty());
    assert(item_views(xs@) =~= Seq::<ItemView>::empty());
    while i < topology.mutations.len()
        invariant
            i <= ms.len(),
            ns == topology.namespace@,
            ms == topology.mutations@,
            item_views(xs@) == mutation_rows(ns, ms.take(i as int)),
        decreases ms.len() - i,
    {
        let m = &topology.mutations[i].1;
        let ghost rs = m.resolvers@;
        let ghost head = item_views(xs@);
        let mut j: usize = 0;
        assert(rs.take(0) =~= Seq::<(String, Resolver)>::empty());
        assert(head + resolver_rows(ns, rs.take(0)) =~= head);
        while j < m.resolvers.len()
            invariant
                j <= rs.len(),
                rs == m.resolvers@,
                ns == topology.namespace@,
                item_views(xs@) == head + resolver_rows(ns, rs.take(j as int)),
            decreases rs.len() - j,
        {
            let item = resolver_item(&topology.namespace, &m.resolvers[j].1);
            let ghost prev = item_views(xs@);
            xs.push(item);
            assert(rs.take(j + 1).drop_last() =~= rs.take(j as int));
            assert(item_views(xs@) =~= prev.push(item@));
            assert(item_views(xs@) =~= head + resolver_rows(ns, rs.take(j + 1)));
            j = j + 1;
        }
        assert(rs.take(j as int) =~= rs);
        assert(ms.take(i + 1).drop_last() =~= ms.take(i as int));
        assert(ms.take(i + 1).last() == ms[i as int]);
        i = i + 1;
    }
    assert(ms.take(i as int) =~= ms);
    xs
}

/// The rows of every topology of `topologies`, each followed by the rows of
/// the topologies composed under it.
pub fn build(topologies: &Vec<Topology>) -> (xs: Vec<Item>)
    requires
        forall|i: int| 0 <= i < topologies.len() ==> (#[trigger] topologies[i]).well_formed() && forall|
            j: int,
        | 0 <= j < topologies[i].nodes.len() ==> (#[trigger] topologies[i].nodes[j]).well_formed(),
    ensures
        item_views(xs@) == all_rows(topologies@),
{
    let ghost ts = topologies@;
    let mut xs: Vec<Item> = Vec::new();
    let mut i: usize = 0;
    assert(ts.take(0) =~= Seq::<Topology>::empty());
    assert(item_views(xs@) =~= Seq::<ItemView>::empty());
    while i < topologies.len()
        invariant
            i <= ts.len(),
            ts == topologies@,
            forall|i: int| 0 <= i < topologies.len() ==> (#[trigger] topologies[i]).well_formed()
                && forall|j: int| 0 <= j < topologies[i].nodes.len() ==> (
                #[trigger] topologies[i].nodes[j]).well_formed(),
            item_views(xs@) == all_rows(ts.take(i as int)),
        decreases ts.len() - i,
    {
        let topology = &topologies[i];
        let ghost head = item_views(xs@);
        let mut items = build_aux(topology);
        xs.append(&mut items);
        assert(item_views(xs@) =~= head + topology_rows(*topology));
        let ghost mid = item_views(xs@);
        let ghost nodes = topology.nodes@;
        let mut j: usize = 0;
        assert(nodes.take(0) =~= Seq::<Topology>::empty());
        assert(mid + nodes_rows(nodes.take(0)) =~= mid);
        while j < topology.nodes.len()
            invariant
                j <= nodes.len(),
                nodes == topology.nodes@,
                forall|j: int| 0 <= j < topology.nodes.len() ==> (#[trigger] topology.nodes[j]).well_formed(),
                item_views(xs@) == mid + nodes_rows(nodes.take(j as int)),
            decreases nodes.len() - j,
        {
            let ghost prev = item_views(xs@);
            let mut node_items = build_aux(&topology.nodes[j]);
            xs.append(&mut node_items);
            assert(nodes.take(j + 1).drop_last() =~= nodes.take(j as int));
            assert(item_views(xs@) =~= prev + topology_rows(nodes[j as int]));
            assert(item_views(xs@) =~= mid + nodes_rows(nodes.take(j + 1)));
            j = j + 1;
        }
        assert(nodes.take(j as int) =~= nodes);
        assert(ts.take(i + 1).drop_last() =~= ts.take(i as int));
        assert(ts.take(i + 1).last() == ts[i as int]);
        i = i + 1;
    }
    assert(ts.take(i as int) =~= ts);
    xs
}

} // verus!
