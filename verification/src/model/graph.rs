use vstd::prelude::*;

verus! {

/// Every path of child links from `node` stays inside the node list and
/// visits at most `fuel` nodes; with `fuel` the number of nodes this says the
/// hierarchy below `node` has no cycle.
pub open spec fn bounded_from(children: Seq<Vec<usize>>, node: int, fuel: nat) -> bool
    decreases fuel,
{
    &&& fuel > 0
    &&& 0 <= node < children.len()
    &&& forall|j: int| 0 <= j < children[node]@.len()
        ==> bounded_from(children, #[trigger] children[node]@[j] as int, (fuel - 1) as nat)
}

/// The nodes of the hierarchy are a forest below `roots`.
pub open spec fn is_forest(children: Seq<Vec<usize>>, roots: Seq<usize>) -> bool {
    forall|r: int| 0 <= r < roots.len() ==> bounded_from(children, #[trigger] roots[r] as int, children.len())
}

/// Depth-first, parent-first walk below `node`: the node with its parent,
/// then the walk of each child in order.
pub open spec fn visit(children: Seq<Vec<usize>>, node: usize, parent: Option<usize>, fuel: nat) -> Seq<(usize, Option<usize>)>
    decreases fuel, 0nat, 0nat,
{
    if fuel == 0 || node >= children.len() {
        Seq::empty()
    } else {
        seq![(node, parent)] + visit_list(children, node, children[node as int]@, (fuel - 1) as nat)
    }
}

/// Walks of the nodes `kids` in order, each with `parent` as its parent.
pub open spec fn visit_list(children: Seq<Vec<usize>>, parent: usize, kids: Seq<usize>, fuel: nat) -> Seq<(usize, Option<usize>)>
    decreases fuel, 1nat, kids.len(),
{
    if kids.len() == 0 {
        Seq::empty()
    } else {
        visit_list(children, parent, kids.drop_last(), fuel) + visit(children, kids.last(), Some(parent), fuel)
    }
}

/// Walks below each root in order, roots having no parent.
pub open spec fn visit_roots(children: Seq<Vec<usize>>, roots: Seq<usize>, fuel: nat) -> Seq<(usize, Option<usize>)>
    decreases roots.len(),
{
    if roots.len() == 0 {
        Seq::empty()
    } else {
        visit_roots(children, roots.drop_last(), fuel) + visit(children, roots.last(), None, fuel)
    }
}

/// The order in which node transforms are computed: every node of the forest
/// below `roots`, each paired with its parent.
pub open spec fn graph_run_order(children: Seq<Vec<usize>>, roots: Seq<usize>) -> Seq<(usize, Option<usize>)> {
    visit_roots(children, roots, children.len())
}

fn build_graph_run_indices_rec(
    children: &Vec<Vec<usize>>,
    node_index: usize,
    parent_index: Option<usize>,
    indices: &mut Vec<(usize, Option<usize>)>,
    Ghost(fuel): Ghost<nat>,
)
    requires
        bounded_from(children@, node_index as int, fuel),
    ensures
        final(indices)@ == old(indices)@ + visit(children@, node_index, parent_index, fuel),
    decreases fuel,
{
    indices.push((node_index, parent_index));
    let ghost start = old(indices)@;
    let kids = &children[node_index];
    let mut j: usize = 0;
    while j < kids.len()
        invariant
            kids@ == children@[node_index as int]@,
            bounded_from(children@, node_index as int, fuel),
            fuel > 0,
            j <= kids@.len(),
            indices@ == start + seq![(node_index, parent_index)]
                + visit_list(children@, node_index, kids@.take(j as int), (fuel - 1) as nat),
        decreases kids@.len() - j,
    {
        assert(bounded_from(children@, kids@[j as int] as int, (fuel - 1) as nat));
        build_graph_run_indices_rec(children, kids[j], Some(node_index), indices, Ghost((fuel - 1) as nat));
        assert(kids@.take(j + 1).drop_last() =~= kids@.take(j as int));
        j = j + 1;
    }
    assert(kids@.take(kids@.len() as int) =~= kids@);
}

/// Order in which node transforms are computed: a depth-first walk from each
/// root, each node listed with its parent before any of its children.
pub fn build_graph_run_indices(roots_indices: &[usize], children: &Vec<Vec<usize>>) -> (indices: Vec<(usize, Option<usize>)>)
    requires
        is_forest(children@, roots_indices@),
    ensures
        indices@ == graph_run_order(children@, roots_indices@),
{
    let mut indices: Vec<(usize, Option<usize>)> = Vec::new();
    let mut r: usize = 0;
    while r < roots_indices.len()
        invariant
            is_forest(children@, roots_indices@),
            r <= roots_indices@.len(),
            indices@ == visit_roots(children@, roots_indices@.take(r as int), children@.len()),
        decreases roots_indices@.len() - r,
    {
        assert(bounded_from(children@, roots_indices@[r as int] as int, children@.len()));
        build_graph_run_indices_rec(children, roots_indices[r], None, &mut indices, Ghost(children@.len()));
        assert(roots_indices@.take(r + 1).drop_last() =~= roots_indices@.take(r as int));
        r = r + 1;
    }
    assert(roots_indices@.take(roots_indices@.len() as int) =~= roots_indices@);
    indices
}


/// Entry `k` of `order` names a parent that is listed at an earlier position
/// and has the entry's node among its children.
pub open spec fn parent_listed_before(children: Seq<Vec<usize>>, order: Seq<(usize, Option<usize>)>, k: int) -> bool {
    order[k].1 matches Some(p) && exists|j: int|
        0 <= j < k && #[trigger] order[j].0 == p && p < children.len() && children[p as int]@.contains(order[k].0)
}

/// Every entry of `order` is a root without parent, or comes after its parent.
pub open spec fn parents_precede(children: Seq<Vec<usize>>, roots: Seq<usize>, order: Seq<(usize, Option<usize>)>) -> bool {
    forall|k: int| 0 <= k < order.len() ==>
        (#[trigger] order[k].1 is None && roots.contains(order[k].0))
        || parent_listed_before(children, order, k)
}

proof fn lemma_shift_listed(children: Seq<Vec<usize>>, a: Seq<(usize, Option<usize>)>, b: Seq<(usize, Option<usize>)>, k: int)
    requires
        0 <= k < b.len(),
        parent_listed_before(children, b, k),
    ensures
        parent_listed_before(children, a + b, a.len() + k),
{
    let s = a + b;
    let j = choose|j: int| 0 <= j < k && #[trigger] b[j].0 == b[k].1->Some_0 && b[k].1->Some_0 < children.len()
        && children[b[k].1->Some_0 as int]@.contains(b[k].0);
    assert(s[a.len() + j] == b[j]);
    assert(s[a.len() + k] == b[k]);
}

proof fn lemma_visit_order(children: Seq<Vec<usize>>, node: usize, parent: Option<usize>, fuel: nat)
    ensures
        ({
            let s = visit(children, node, parent, fuel);
            &&& s.len() > 0 ==> s[0] == (node, parent)
            &&& forall|k: int| 1 <= k < s.len() ==> #[trigger] parent_listed_before(children, s, k)
        }),
    decreases fuel, 0nat, 0nat,
{
    let s = visit(children, node, parent, fuel);
    if fuel > 0 && node < children.len() {
        let kids = children[node as int]@;
        let l = visit_list(children, node, kids, (fuel - 1) as nat);
        lemma_visit_list_order(children, node, kids, (fuel - 1) as nat);
        let head = seq![(node, parent)];
        assert(s == head + l);
        assert forall|k: int| 1 <= k < s.len() implies #[trigger] parent_listed_before(children, s, k) by {
            let k2 = k - 1;
            assert(s[k] == l[k2]);
            if l[k2].1 == Some(node) && kids.contains(l[k2].0) {
                assert(s[0].0 == node);
            } else {
                lemma_shift_listed(children, head, l, k2);
            }
        }
    }
}

proof fn lemma_visit_list_order(children: Seq<Vec<usize>>, parent: usize, kids: Seq<usize>, fuel: nat)
    ensures
        ({
            let s = visit_list(children, parent, kids, fuel);
            forall|k: int| 0 <= k < s.len() ==>
                (#[trigger] s[k].1 == Some(parent) && kids.contains(s[k].0))
                || parent_listed_before(children, s, k)
        }),
    decreases fuel, 1nat, kids.len(),
{
    if kids.len() > 0 {
        let a = visit_list(children, parent, kids.drop_last(), fuel);
        let b = visit(children, kids.last(), Some(parent), fuel);
        lemma_visit_list_order(children, parent, kids.drop_last(), fuel);
        lemma_visit_order(children, kids.last(), Some(parent), fuel);
        let s = a + b;
        assert forall|k: int| 0 <= k < s.len() implies
            (#[trigger] s[k].1 == Some(parent) && kids.contains(s[k].0))
            || parent_listed_before(children, s, k) by {
            if k < a.len() {
                assert(s[k] == a[k]);
                if a[k].1 == Some(parent) && kids.drop_last().contains(a[k].0) {
                    let i = choose|i: int| 0 <= i < kids.drop_last().len() && kids.drop_last()[i] == a[k].0;
                    assert(kids[i] == a[k].0);
                } else {
                    let j = choose|j: int| 0 <= j < k && #[trigger] a[j].0 == a[k].1->Some_0
                        && a[k].1->Some_0 < children.len() && children[a[k].1->Some_0 as int]@.contains(a[k].0);
                    assert(s[j] == a[j]);
                }
            } else {
                let k2 = k - a.len();
                assert(s[k] == b[k2]);
                if k2 == 0 {
                    assert(kids[kids.len() - 1] == kids.last());
                } else {
                    lemma_shift_listed(children, a, b, k2);
                }
            }
        }
    }
}

proof fn lemma_visit_roots_order(children: Seq<Vec<usize>>, roots: Seq<usize>, fuel: nat)
    ensures
        parents_precede(children, roots, visit_roots(children, roots, fuel)),
    decreases roots.len(),
{
    if roots.len() > 0 {
        let a = visit_roots(children, roots.drop_last(), fuel);
        let b = visit(children, roots.last(), None, fuel);
        lemma_visit_roots_order(children, roots.drop_last(), fuel);
        lemma_visit_order(children, roots.last(), None, fuel);
        let s = a + b;
        assert forall|k: int| 0 <= k < s.len() implies
            (#[trigger] s[k].1 is None && roots.contains(s[k].0))
            || parent_listed_before(children, s, k) by {
            if k < a.len() {
                assert(s[k] == a[k]);
                if a[k].1 is None && roots.drop_last().contains(a[k].0) {
                    let i = choose|i: int| 0 <= i < roots.drop_last().len() && roots.drop_last()[i] == a[k].0;
                    assert(roots[i] == a[k].0);
                } else {
                    let j = choose|j: int| 0 <= j < k && #[trigger] a[j].0 == a[k].1->Some_0
                        && a[k].1->Some_0 < children.len() && children[a[k].1->Some_0 as int]@.contains(a[k].0);
                    assert(s[j] == a[j]);
                }
            } else {
                let k2 = k - a.len();
                assert(s[k] == b[k2]);
                if k2 == 0 {
                    assert(roots[roots.len() - 1] == roots.last());
                } else {
                    lemma_shift_listed(children, a, b, k2);
                }
            }
        }
    }
}

/// In the transform order every node is either a root, listed without a
/// parent, or is listed after its parent, of which it is a child; so a node's
/// parent transform is always computed before the node's own.
pub proof fn lemma_graph_run_order_parents_first(children: Seq<Vec<usize>>, roots: Seq<usize>)
    ensures
        parents_precede(children, roots, graph_run_order(children, roots)),
{
    lemma_visit_roots_order(children, roots, children.len());
}

/// Every listed node is a node of the hierarchy, and every child of a
/// listed node is listed too, with that node as its parent.
pub open spec fn lists_all_children(children: Seq<Vec<usize>>, order: Seq<(usize, Option<usize>)>) -> bool {
    &&& forall|k: int| 0 <= k < order.len() ==> (#[trigger] order[k]).0 < children.len()
    &&& forall|k: int, j: int| #![trigger order[k], children[order[k].0 as int]@[j]]
        0 <= k < order.len() && 0 <= j < children[order[k].0 as int]@.len()
            ==> order.contains((children[order[k].0 as int]@[j], Some(order[k].0)))
}

proof fn lemma_contains_left(a: Seq<(usize, Option<usize>)>, b: Seq<(usize, Option<usize>)>, x: (usize, Option<usize>))
    requires
        a.contains(x),
    ensures
        (a + b).contains(x),
{
    let i = choose|i: int| 0 <= i < a.len() && a[i] == x;
    assert((a + b)[i] == x);
}

proof fn lemma_contains_right(a: Seq<(usize, Option<usize>)>, b: Seq<(usize, Option<usize>)>, x: (usize, Option<usize>))
    requires
        b.contains(x),
    ensures
        (a + b).contains(x),
{
    let i = choose|i: int| 0 <= i < b.len() && b[i] == x;
    assert((a + b)[a.len() + i] == x);
}

proof fn lemma_lists_all_concat(children: Seq<Vec<usize>>, a: Seq<(usize, Option<usize>)>, b: Seq<(usize, Option<usize>)>)
    requires
        lists_all_children(children, a),
        lists_all_children(children, b),
    ensures
        lists_all_children(children, a + b),
{
    let s = a + b;
    assert forall|k: int| 0 <= k < s.len() implies (#[trigger] s[k]).0 < children.len() by {
        if k < a.len() {
            assert(s[k] == a[k]);
        } else {
            assert(s[k] == b[k - a.len()]);
        }
    }
    assert forall|k: int, j: int| #![trigger s[k], children[s[k].0 as int]@[j]]
        0 <= k < s.len() && 0 <= j < children[s[k].0 as int]@.len()
            implies s.contains((children[s[k].0 as int]@[j], Some(s[k].0))) by {
        if k < a.len() {
            assert(s[k] == a[k]);
            assert(a.contains((children[a[k].0 as int]@[j], Some(a[k].0))));
            lemma_contains_left(a, b, (children[a[k].0 as int]@[j], Some(a[k].0)));
        } else {
            let k2 = k - a.len();
            assert(s[k] == b[k2]);
            assert(b.contains((children[b[k2].0 as int]@[j], Some(b[k2].0))));
            lemma_contains_right(a, b, (children[b[k2].0 as int]@[j], Some(b[k2].0)));
        }
    }
}

proof fn lemma_visit_complete(children: Seq<Vec<usize>>, node: usize, parent: Option<usize>, fuel: nat)
    requires
        bounded_from(children, node as int, fuel),
    ensures
        visit(children, node, parent, fuel).len() > 0,
        visit(children, node, parent, fuel)[0] == (node, parent),
        lists_all_children(children, visit(children, node, parent, fuel)),
    decreases fuel, 0nat, 0nat,
{
    let s = visit(children, node, parent, fuel);
    let kids = children[node as int]@;
    assert forall|i: int| 0 <= i < kids.len() implies bounded_from(children, #[trigger] kids[i] as int, (fuel - 1) as nat) by {}
    lemma_visit_list_complete(children, node, kids, (fuel - 1) as nat);
    let head = seq![(node, parent)];
    let l = visit_list(children, node, kids, (fuel - 1) as nat);
    assert(s == head + l);
    assert forall|k: int| 0 <= k < s.len() implies (#[trigger] s[k]).0 < children.len() by {
        if k > 0 {
            assert(s[k] == l[k - 1]);
        }
    }
    assert forall|k: int, j: int| #![trigger s[k], children[s[k].0 as int]@[j]]
        0 <= k < s.len() && 0 <= j < children[s[k].0 as int]@.len()
            implies s.contains((children[s[k].0 as int]@[j], Some(s[k].0))) by {
        if k == 0 {
            assert(l.contains((kids[j], Some(node))));
            lemma_contains_right(head, l, (kids[j], Some(node)));
        } else {
            assert(s[k] == l[k - 1]);
            assert(l.contains((children[l[k - 1].0 as int]@[j], Some(l[k - 1].0))));
            lemma_contains_right(head, l, (children[l[k - 1].0 as int]@[j], Some(l[k - 1].0)));
        }
    }
}

proof fn lemma_visit_list_complete(children: Seq<Vec<usize>>, parent: usize, kids: Seq<usize>, fuel: nat)
    requires
        forall|i: int| 0 <= i < kids.len() ==> bounded_from(children, #[trigger] kids[i] as int, fuel),
    ensures
        forall|i: int| 0 <= i < kids.len() ==> visit_list(children, parent, kids, fuel).contains((#[trigger] kids[i], Some(parent))),
        lists_all_children(children, visit_list(children, parent, kids, fuel)),
    decreases fuel, 1nat, kids.len(),
{
    if kids.len() > 0 {
        let init = kids.drop_last();
        assert forall|i: int| 0 <= i < init.len() implies bounded_from(children, #[trigger] init[i] as int, fuel) by {
            assert(init[i] == kids[i]);
        }
        lemma_visit_list_complete(children, parent, init, fuel);
        assert(bounded_from(children, kids[kids.len() - 1] as int, fuel));
        lemma_visit_complete(children, kids.last(), Some(parent), fuel);
        let a = visit_list(children, parent, init, fuel);
        let b = visit(children, kids.last(), Some(parent), fuel);
        lemma_lists_all_concat(children, a, b);
        assert forall|i: int| 0 <= i < kids.len() implies (a + b).contains((#[trigger] kids[i], Some(parent))) by {
            if i < init.len() {
                assert(init[i] == kids[i]);
                assert(a.contains((init[i], Some(parent))));
                lemma_contains_left(a, b, (kids[i], Some(parent)));
            } else {
                assert(b[0] == (kids[i], Some(parent)));
                lemma_contains_right(a, b, (kids[i], Some(parent)));
            }
        }
    }
}

proof fn lemma_visit_roots_complete(children: Seq<Vec<usize>>, roots: Seq<usize>, fuel: nat)
    requires
        forall|r: int| 0 <= r < roots.len() ==> bounded_from(children, #[trigger] roots[r] as int, fuel),
    ensures
        forall|r: int| 0 <= r < roots.len() ==> visit_roots(children, roots, fuel).contains((#[trigger] roots[r], None::<usize>)),
        lists_all_children(children, visit_roots(children, roots, fuel)),
    decreases roots.len(),
{
    if roots.len() > 0 {
        let init = roots.drop_last();
        assert forall|r: int| 0 <= r < init.len() implies bounded_from(children, #[trigger] init[r] as int, fuel) by {
            assert(init[r] == roots[r]);
        }
        lemma_visit_roots_complete(children, init, fuel);
        assert(bounded_from(children, roots[roots.len() - 1] as int, fuel));
        lemma_visit_complete(children, roots.last(), None, fuel);
        let a = visit_roots(children, init, fuel);
        let b = visit(children, roots.last(), None, fuel);
        lemma_lists_all_concat(children, a, b);
        assert forall|r: int| 0 <= r < roots.len() implies (a + b).contains((#[trigger] roots[r], None::<usize>)) by {
            if r < init.len() {
                assert(init[r] == roots[r]);
                assert(a.contains((init[r], None::<usize>)));
                lemma_contains_left(a, b, (roots[r], None::<usize>));
            } else {
                assert(b[0] == (roots[r], None::<usize>));
                lemma_contains_right(a, b, (roots[r], None::<usize>));
            }
        }
    }
}

/// Over a forest the transform order leaves no node out: every root is
/// listed without a parent, and every child of a listed node is listed with
/// that node as its parent, so every node reachable from a root has its
/// transform computed.
pub proof fn lemma_graph_run_order_complete(children: Seq<Vec<usize>>, roots: Seq<usize>)
    requires
        is_forest(children, roots),
    ensures
        forall|r: int| 0 <= r < roots.len() ==> graph_run_order(children, roots).contains((#[trigger] roots[r], None::<usize>)),
        lists_all_children(children, graph_run_order(children, roots)),
{
    lemma_visit_roots_complete(children, roots, children.len());
}

fn check_bounded_from(children: &Vec<Vec<usize>>, node: usize, Ghost(fuel): Ghost<nat>, budget: usize) -> (r: bool)
    requires
        budget == fuel,
    ensures
        r == bounded_from(children@, node as int, fuel),
    decreases fuel,
{
    if budget == 0 || node >= children.len() {
        return false;
    }
    let kids = &children[node];
    let mut j: usize = 0;
    while j < kids.len()
        invariant
            kids@ == children@[node as int]@,
            budget == fuel,
            fuel > 0,
            node < children@.len(),
            j <= kids@.len(),
            forall|i: int| 0 <= i < j ==> bounded_from(children@, #[trigger] kids@[i] as int, (fuel - 1) as nat),
        decreases kids@.len() - j,
    {
        if !check_bounded_from(children, kids[j], Ghost((fuel - 1) as nat), budget - 1) {
            return false;
        }
        j = j + 1;
    }
    true
}

/// Whether the node hierarchy below `roots_indices` is a forest: every child
/// index names a node and no node is its own descendant.
pub fn is_node_forest(roots_indices: &[usize], children: &Vec<Vec<usize>>) -> (r: bool)
    ensures
        r == is_forest(children@, roots_indices@),
{
    let mut i: usize = 0;
    while i < roots_indices.len()
        invariant
            i <= roots_indices@.len(),
            forall|k: int| 0 <= k < i ==> bounded_from(children@, #[trigger] roots_indices@[k] as int, children@.len()),
        decreases roots_indices@.len() - i,
    {
        if !check_bounded_from(children, roots_indices[i], Ghost(children@.len()), children.len()) {
            return false;
        }
        i = i + 1;
    }
    true
}

/// The transform order of a node hierarchy, or nothing when the hierarchy
/// below the roots is not a forest (a child index out of range, or a cycle).
pub fn try_build_graph_run_indices(roots_indices: &[usize], children: &Vec<Vec<usize>>) -> (r: Option<Vec<(usize, Option<usize>)>>)
    ensures
        r is None <==> !is_forest(children@, roots_indices@),
        r matches Some(order) ==> order@ == graph_run_order(children@, roots_indices@),
{
    if is_node_forest(roots_indices, children) {
        Some(build_graph_run_indices(roots_indices, children))
    } else {
        None
    }
}

} // verus!
