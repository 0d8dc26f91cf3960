//! One release row per topology, ordered by namespace.
use vstd::prelude::*;
use crate::text::chars_of;
use crate::topology::Topology;

verus! {

/// A release row: the topology's id (its namespace), namespace and version.
#[derive(Debug, PartialEq, Eq)]
pub struct Item {
    pub id: String,
    pub namespace: String,
    pub version: String,
}

/// The text of a release row.
pub struct ItemView {
    pub id: Seq<char>,
    pub namespace: Seq<char>,
    pub version: Seq<char>,
}

impl View for Item {
    type V = ItemView;

    open spec fn view(&self) -> ItemView {
        ItemView { id: self.id@, namespace: self.namespace@, version: self.version@ }
    }
}

/// The text of a sequence of rows.
pub open spec fn item_views(s: Seq<Item>) -> Seq<ItemView> {
    s.map_values(|i: Item| i@)
}

/// Whether `a` comes strictly before `b` in the order of `String`:
/// lexicographic by character.
pub open spec fn lex_lt(a: Seq<char>, b: Seq<char>) -> bool
    decreases a.len(),
{
    if a.len() == 0 {
        b.len() > 0
    } else if b.len() == 0 {
        false
    } else if a[0] != b[0] {
        a[0] < b[0]
    } else {
        lex_lt(a.drop_first(), b.drop_first())
    }
}

/// The row of topology `t`.
pub open spec fn release_row(t: Topology) -> ItemView {
    ItemView { id: t.namespace@, namespace: t.namespace@, version: t.version@ }
}

/// The position where `x` goes in `s`: before the first row whose namespace
/// does not come strictly before that of `x`.
pub open spec fn insert_pos(s: Seq<ItemView>, x: ItemView) -> int
    decreases s.len(),
{
    if s.len() == 0 || !lex_lt(s[0].namespace, x.namespace) {
        0
    } else {
        1 + insert_pos(s.drop_first(), x)
    }
}

/// The rows of `s` ordered by namespace, each row going in before the rows
/// already placed that do not come before it: rows with equal namespaces end
/// up in the reverse of their order in `s`.
pub open spec fn ordered_rows(s: Seq<ItemView>) -> Seq<ItemView>
    decreases s.len(),
{
    if s.len() == 0 {
        Seq::<ItemView>::empty()
    } else {
        let r = ordered_rows(s.drop_last());
        r.insert(insert_pos(r, s.last()), s.last())
    }
}

/// Whether the rows of `s` come in order of namespace.
pub open spec fn sorted_by_namespace(s: Seq<ItemView>) -> bool {
    forall|i: int, j: int| 0 <= i < j < s.len() ==> !lex_lt(#[trigger] s[j].namespace, #[trigger] s[i].namespace)
}

/// No text comes before itself.
pub proof fn lemma_lex_lt_irreflexive(a: Seq<char>)
    ensures
        !lex_lt(a, a),
    decreases a.len(),
{
    if a.len() > 0 {
        lemma_lex_lt_irreflexive(a.drop_first());
    }
}

/// Of two texts, at most one comes before the other.
pub proof fn lemma_lex_lt_asymmetric(a: Seq<char>, b: Seq<char>)
    ensures
        lex_lt(a, b) ==> !lex_lt(b, a),
    decreases a.len(),
{
    if a.len() > 0 && b.len() > 0 && a[0] == b[0] {
        lemma_lex_lt_asymmetric(a.drop_first(), b.drop_first());
    }
}

/// The order of texts is transitive.
pub proof fn lemma_lex_lt_transitive(a: Seq<char>, b: Seq<char>, c: Seq<char>)
    ensures
        lex_lt(a, b) && lex_lt(b, c) ==> lex_lt(a, c),
    decreases a.len(),
{
    if a.len() > 0 && b.len() > 0 && c.len() > 0 {
        lemma_lex_lt_transitive(a.drop_first(), b.drop_first(), c.drop_first());
    }
}

/// Of two different texts, one comes before the other.
pub proof fn lemma_lex_lt_total(a: Seq<char>, b: Seq<char>)
    ensures
        a != b ==> lex_lt(a, b) || lex_lt(b, a),
    decreases a.len(),
{
    if a.len() > 0 && b.len() > 0 && a[0] == b[0] {
        lemma_lex_lt_total(a.drop_first(), b.drop_first());
        if a.drop_first() == b.drop_first() {
            assert(a =~= seq![a[0]] + a.drop_first());
            assert(b =~= seq![b[0]] + b.drop_first());
        }
    } else if a.len() == 0 && b.len() == 0 {
        assert(a =~= b);
    }
}

/// Whether `a` comes before `b` in the order of `String`.
pub fn str_lt(a: &str, b: &str) -> (r: bool)
    ensures
        r == lex_lt(a@, b@),
{
    let ca = chars_of(a);
    let cb = chars_of(b);
    let mut k: usize = 0;
    assert(a@.skip(0) =~= a@);
    assert(b@.skip(0) =~= b@);
    loop
        invariant
            ca@ == a@,
            cb@ == b@,
            k <= ca.len(),
            k <= cb.len(),
            lex_lt(a@, b@) == lex_lt(a@.skip(k as int), b@.skip(k as int)),
        decreases ca.len() - k,
    {
        if k == ca.len() {
            return k < cb.len();
        }
        if k == cb.len() {
            return false;
        }
        if ca[k] != cb[k] {
            return ca[k] < cb[k];
        }
        assert(a@.skip(k as int).drop_first() =~= a@.skip(k + 1));
        assert(b@.skip(k as int).drop_first() =~= b@.skip(k + 1));
        k = k + 1;
    }
}

/// The row of one topology.
fn release_item(t: &Topology) -> (item: Item)
    ensures
        item@ == release_row(*t),
{
    Item { id: t.namespace.clone(), namespace: t.namespace.clone(), version: t.version.clone() }
}

/// `insert_pos` is the first position whose row does not come before `x`.
proof fn lemma_insert_pos_at(s: Seq<ItemView>, x: ItemView, p: int)
    requires
        0 <= p <= s.len(),
        forall|k: int| 0 <= k < p ==> lex_lt(#[trigger] s[k].namespace, x.namespace),
        p < s.len() ==> !lex_lt(s[p].namespace, x.namespace),
    ensures
        insert_pos(s, x) == p,
    decreases p,
{
    if p > 0 {
        assert(lex_lt(s[0].namespace, x.namespace));
        assert forall|k: int| 0 <= k < p - 1 implies lex_lt(
            #[trigger] s.drop_first()[k].namespace,
            x.namespace,
        ) by {
            assert(s.drop_first()[k] == s[k + 1]);
        }
        lemma_insert_pos_at(s.drop_first(), x, p - 1);
    }
}

/// What `insert_pos` picks: a position in range, with every row before it
/// coming before `x` and the row at it, if any, not.
proof fn lemma_insert_pos_props(s: Seq<ItemView>, x: ItemView)
    ensures
        0 <= insert_pos(s, x) <= s.len(),
        forall|k: int| 0 <= k < insert_pos(s, x) ==> lex_lt(#[trigger] s[k].namespace, x.namespace),
        insert_pos(s, x) < s.len() ==> !lex_lt(s[insert_pos(s, x)].namespace, x.namespace),
    decreases s.len(),
{
    if s.len() > 0 && lex_lt(s[0].namespace, x.namespace) {
        lemma_insert_pos_props(s.drop_first(), x);
        assert forall|k: int| 0 <= k < insert_pos(s, x) implies lex_lt(
            #[trigger] s[k].namespace,
            x.namespace,
        ) by {
            if k > 0 {
                assert(s[k] == s.drop_first()[k - 1]);
            }
        }
        if insert_pos(s, x) < s.len() {
            assert(s[insert_pos(s, x)] == s.drop_first()[insert_pos(s.drop_first(), x)]);
        }
    }
}

/// `ordered_rows` orders its rows by namespace.
pub proof fn lemma_ordered_rows_sorted(s: Seq<ItemView>)
    ensures
        sorted_by_namespace(ordered_rows(s)),
    decreases s.len(),
{
    if s.len() > 0 {
        let r = ordered_rows(s.drop_last());
        let x = s.last();
        lemma_ordered_rows_sorted(s.drop_last());
        lemma_insert_pos_props(r, x);
        let p = insert_pos(r, x);
        let q = r.insert(p, x);
        assert forall|k: int| p <= k < r.len() implies !lex_lt(#[trigger] r[k].namespace, x.namespace) by {
            if k > p {
                assert(!lex_lt(r[k].namespace, r[p].namespace));
                lemma_lex_lt_total(r[k].namespace, r[p].namespace);
                lemma_lex_lt_total(r[p].namespace, x.namespace);
                lemma_lex_lt_transitive(x.namespace, r[p].namespace, r[k].namespace);
                lemma_lex_lt_asymmetric(x.namespace, r[k].namespace);
                lemma_lex_lt_asymmetric(r[k].namespace, x.namespace);
            }
        }
        assert forall|i: int, j: int| 0 <= i < j < q.len() implies !lex_lt(
            #[trigger] q[j].namespace,
            #[trigger] q[i].namespace,
        ) by {
            if j < p {
                assert(q[i] == r[i] && q[j] == r[j]);
            } else if j == p {
                assert(q[i] == r[i]);
                lemma_lex_lt_asymmetric(r[i].namespace, x.namespace);
            } else if i < p {
                assert(q[i] == r[i] && q[j] == r[j - 1]);
            } else if i == p {
                assert(q[j] == r[j - 1]);
            } else {
                assert(q[i] == r[i - 1] && q[j] == r[j - 1]);
            }
        }
    }
}

/// `ordered_rows` keeps exactly the rows it is given.
pub proof fn lemma_ordered_rows_permutation(s: Seq<ItemView>)
    ensures
        ordered_rows(s).to_multiset() == s.to_multiset(),
    decreases s.len(),
{
    broadcast use vstd::seq_lib::group_to_multiset_ensures;

    if s.len() == 0 {
        assert(ordered_rows(s) =~= s);
    } else {
        let r = ordered_rows(s.drop_last());
        let x = s.last();
        lemma_ordered_rows_permutation(s.drop_last());
        lemma_insert_pos_props(r, x);
        let p = insert_pos(r, x);
        let q = r.insert(p, x);
        assert(q.remove(p) =~= r);
        assert(q[p] == x);
        assert(q.to_multiset().remove(x) =~= r.to_multiset());
        assert(q.to_multiset().count(x) > 0) by {
            assert(q.contains(x));
        }
        assert(q.to_multiset() =~= r.to_multiset().insert(x));
        assert(s.drop_last().push(x) =~= s);
    }
}

/// The rows of `s` whose namespace is `n`, in order.
pub open spec fn rows_named(s: Seq<ItemView>, n: Seq<char>) -> Seq<ItemView>
    decreases s.len(),
{
    if s.len() == 0 {
        Seq::<ItemView>::empty()
    } else if s.last().namespace == n {
        rows_named(s.drop_last(), n).push(s.last())
    } else {
        rows_named(s.drop_last(), n)
    }
}

/// Picking the rows of one namespace distributes over concatenation.
proof fn lemma_rows_named_append(a: Seq<ItemView>, b: Seq<ItemView>, n: Seq<char>)
    ensures
        rows_named(a + b, n) == rows_named(a, n) + rows_named(b, n),
    decreases b.len(),
{
    if b.len() == 0 {
        assert(a + b =~= a);
        assert(rows_named(a, n) + rows_named(b, n) =~= rows_named(a, n));
    } else {
        lemma_rows_named_append(a, b.drop_last(), n);
        assert((a + b).drop_last() =~= a + b.drop_last());
        assert((a + b).last() == b.last());
        if b.last().namespace == n {
            assert(rows_named(a + b, n) =~= rows_named(a, n) + rows_named(b, n));
        }
    }
}

/// Rows that all come strictly before `n` hold none of namespace `n`.
proof fn lemma_rows_named_before(a: Seq<ItemView>, n: Seq<char>)
    requires
        forall|k: int| 0 <= k < a.len() ==> lex_lt(#[trigger] a[k].namespace, n),
    ensures
        rows_named(a, n) == Seq::<ItemView>::empty(),
    decreases a.len(),
{
    if a.len() > 0 {
        assert forall|k: int| 0 <= k < a.drop_last().len() implies lex_lt(
            #[trigger] a.drop_last()[k].namespace,
            n,
        ) by {
            assert(a.drop_last()[k] == a[k]);
        }
        lemma_rows_named_before(a.drop_last(), n);
        assert(lex_lt(a[a.len() - 1].namespace, n));
        lemma_lex_lt_irreflexive(n);
    }
}

/// In `ordered_rows`, the rows of any one namespace come in the reverse of
/// their order in the input.
pub proof fn lemma_ordered_rows_ties_reversed(s: Seq<ItemView>, n: Seq<char>)
    ensures
        rows_named(ordered_rows(s), n) == rows_named(s, n).reverse(),
    decreases s.len(),
{
    if s.len() == 0 {
        assert(rows_named(s, n).reverse() =~= Seq::<ItemView>::empty());
    } else {
        let d = s.drop_last();
        let x = s.last();
        let r = ordered_rows(d);
        lemma_ordered_rows_ties_reversed(d, n);
        lemma_insert_pos_props(r, x);
        let p = insert_pos(r, x);
        let q = r.insert(p, x);
        assert(q =~= r.take(p) + seq![x] + r.skip(p));
        assert(r =~= r.take(p) + r.skip(p));
        lemma_rows_named_append(r.take(p) + seq![x], r.skip(p), n);
        lemma_rows_named_append(r.take(p), seq![x], n);
        lemma_rows_named_append(r.take(p), r.skip(p), n);
        assert(seq![x].drop_last() =~= Seq::<ItemView>::empty());
        assert(seq![x].last() == x);
        assert(rows_named(seq![x].drop_last(), n).len() == 0);
        if x.namespace == n {
            assert forall|k: int| 0 <= k < r.take(p).len() implies lex_lt(
                #[trigger] r.take(p)[k].namespace,
                n,
            ) by {
                assert(r.take(p)[k] == r[k]);
            }
            lemma_rows_named_before(r.take(p), n);
            assert(rows_named(seq![x], n) =~= seq![x]);
            assert(rows_named(s, n) == rows_named(d, n).push(x));
            assert(rows_named(d, n).push(x).reverse() =~= seq![x] + rows_named(d, n).reverse());
            assert(rows_named(q, n) =~= rows_named(s, n).reverse());
        } else {
            assert(rows_named(seq![x], n) =~= Seq::<ItemView>::empty());
            assert(rows_named(s, n) == rows_named(d, n));
            assert(rows_named(q, n) =~= rows_named(s, n).reverse());
        }
    }
}

/// One release row per topology, ordered by namespace; rows of topologies
/// that share a namespace come in the reverse of their order in
/// `topologies`.
pub fn build(topologies: &Vec<Topology>) -> (xs: Vec<Item>)
    ensures
        item_views(xs@) == ordered_rows(topologies@.map_values(|t: Topology| release_row(t))),
        sorted_by_namespace(item_views(xs@)),
        item_views(xs@).to_multiset() == topologies@.map_values(
            |t: Topology| release_row(t),
        ).to_multiset(),
        forall|n: Seq<char>|
            #[trigger] rows_named(item_views(xs@), n) == rows_named(
                topologies@.map_values(|t: Topology| release_row(t)),
                n,
            ).reverse(),
{
    let ghost rows = topologies@.map_values(|t: Topology| release_row(t));
    let mut xs: Vec<Item> = Vec::new();
    let mut i: usize = 0;
    assert(rows.take(0) =~= Seq::<ItemView>::empty());
    assert(item_views(xs@) =~= Seq::<ItemView>::empty());
    while i < topologies.len()
        invariant
            i <= topologies.len(),
            rows == topologies@.map_values(|t: Topology| release_row(t)),
            item_views(xs@) == ordered_rows(rows.take(i as int)),
        decreases topologies.len() - i,
    {
        let item = release_item(&topologies[i]);
        let ghost r = item_views(xs@);
        let mut p: usize = 0;
        while p < xs.len() && str_lt(xs[p].namespace.as_str(), item.namespace.as_str())
            invariant
                p <= xs.len(),
                r == item_views(xs@),
                forall|k: int| 0 <= k < p ==> lex_lt(#[trigger] r[k].namespace, item@.namespace),
            decreases xs.len() - p,
        {
            p = p + 1;
        }
        proof {
            lemma_insert_pos_at(r, item@, p as int);
        }
        let ghost x = item@;
        xs.insert(p, item);
        assert(item_views(xs@) =~= r.insert(p as int, x));
        assert(rows.take(i + 1).drop_last() =~= rows.take(i as int));
        assert(rows.take(i + 1).last() == x);
        i = i + 1;
    }
    assert(rows.take(i as int) =~= rows);
    proof {
        lemma_ordered_rows_sorted(rows);
        lemma_ordered_rows_permutation(rows);
        assert forall|n: Seq<char>| #[trigger] rows_named(item_views(xs@), n) == rows_named(
            rows,
            n,
        ).reverse() by {
            lemma_ordered_rows_ties_reversed(rows, n);
        }
    }
    xs
}

} // verus!
