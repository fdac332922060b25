//! What undo and redo give back: of a deletion of the selection, and of
//! every edit that can be reversed.
use crate::canvas::{
    delete_connection_action, delete_part_action, deleted_parts, deletion_batch,
    deletion_result, not_selected, not_touching, touched_by, untouched_by, without_part,
};
use crate::canvas_laws::{canvas_edit, lemma_canvas_edit_keeps_graph_closed};
use crate::graph::{
    connections_closed, connection_differs, find_part, has_part, id_differs, ids_unique, is_first_index,
    lemma_first_index_exists, with_position, without_connection, without_id, ModuleConnection,
    ModuleGraph, ModulePart,
};
use crate::history::{redo_effect, redo_effect_seq, undo_effect, undo_effect_seq, CanvasAction};
use vstd::multiset::Multiset;
use vstd::prelude::*;

verus! {

/// Filtering twice is filtering once by both predicates.
pub(crate) proof fn lemma_filter_twice<A>(
    s: Seq<A>,
    p: spec_fn(A) -> bool,
    q: spec_fn(A) -> bool,
    r: spec_fn(A) -> bool,
)
    requires
        forall|x: A| #[trigger] r(x) == (p(x) && q(x)),
    ensures
        s.filter(p).filter(q) == s.filter(r),
    decreases s.len(),
{
    reveal_with_fuel(Seq::filter, 1);
    if s.len() > 0 {
        let front = s.drop_last();
        lemma_filter_twice(front, p, q, r);
        assert(s =~= front.push(s.last()));
        front.lemma_filter_push(s.last(), p);
        front.lemma_filter_push(s.last(), r);
        if p(s.last()) {
            front.filter(p).lemma_filter_push(s.last(), q);
        }
    }
}

/// Filtering keeps a sequence whose elements all pass.
pub(crate) proof fn lemma_filter_all_pass<A>(s: Seq<A>, p: spec_fn(A) -> bool)
    requires
        forall|i: int| 0 <= i < s.len() ==> p(#[trigger] s[i]),
    ensures
        s.filter(p) == s,
    decreases s.len(),
{
    reveal_with_fuel(Seq::filter, 1);
    if s.len() > 0 {
        let front = s.drop_last();
        assert forall|i: int| 0 <= i < front.len() implies p(#[trigger] front[i]) by {
            assert(front[i] == s[i]);
        }
        lemma_filter_all_pass(front, p);
        assert(s =~= front.push(s.last()));
        front.lemma_filter_push(s.last(), p);
    }
}

/// Filtering empties a sequence whose elements all fail.
proof fn lemma_filter_all_fail<A>(s: Seq<A>, p: spec_fn(A) -> bool)
    requires
        forall|i: int| 0 <= i < s.len() ==> !p(#[trigger] s[i]),
    ensures
        s.filter(p) == Seq::<A>::empty(),
    decreases s.len(),
{
    reveal_with_fuel(Seq::filter, 1);
    if s.len() > 0 {
        let front = s.drop_last();
        assert forall|i: int| 0 <= i < front.len() implies !p(#[trigger] front[i]) by {
            assert(front[i] == s[i]);
        }
        lemma_filter_all_fail(front, p);
        assert(s =~= front.push(s.last()));
        front.lemma_filter_push(s.last(), p);
    }
}

/// Undoing the first `m` edits of `s1 + s2` is undoing the first `m` of `s1`.
proof fn lemma_undo_prefix<P>(
    x: ModuleGraph<P>,
    s1: Seq<CanvasAction<P>>,
    s2: Seq<CanvasAction<P>>,
    m: int,
)
    requires
        0 <= m <= s1.len(),
    ensures
        undo_effect_seq(x, s1 + s2, m) == undo_effect_seq(x, s1, m),
    decreases m,
{
    if m > 0 {
        assert((s1 + s2)[m - 1] == s1[m - 1]);
        lemma_undo_prefix(undo_effect(x, s1[m - 1]), s1, s2, m - 1);
    }
}

/// Undoing `s1 + s2` undoes `s2` first, then `s1`.
proof fn lemma_undo_concat<P>(
    x: ModuleGraph<P>,
    s1: Seq<CanvasAction<P>>,
    s2: Seq<CanvasAction<P>>,
    k: int,
)
    requires
        0 <= k <= s2.len(),
    ensures
        undo_effect_seq(x, s1 + s2, s1.len() + k) == undo_effect_seq(
            undo_effect_seq(x, s2, k),
            s1,
            s1.len() as int,
        ),
    decreases k,
{
    if k == 0 {
        lemma_undo_prefix(x, s1, s2, s1.len() as int);
    } else {
        assert((s1 + s2)[s1.len() + k - 1] == s2[k - 1]);
        lemma_undo_concat(undo_effect(x, s2[k - 1]), s1, s2, k - 1);
    }
}

/// Redoing the first `m` edits of `s1 + s2` is redoing the first `m` of `s1`.
proof fn lemma_redo_prefix<P>(
    x: ModuleGraph<P>,
    s1: Seq<CanvasAction<P>>,
    s2: Seq<CanvasAction<P>>,
    m: int,
)
    requires
        0 <= m <= s1.len(),
    ensures
        redo_effect_seq(x, s1 + s2, m) == redo_effect_seq(x, s1, m),
    decreases m,
{
    if m > 0 {
        assert((s1 + s2)[m - 1] == s1[m - 1]);
        lemma_redo_prefix(x, s1, s2, m - 1);
    }
}

/// Redoing `s1 + s2` redoes `s1` first, then `s2`.
proof fn lemma_redo_concat<P>(
    x: ModuleGraph<P>,
    s1: Seq<CanvasAction<P>>,
    s2: Seq<CanvasAction<P>>,
    k: int,
)
    requires
        0 <= k <= s2.len(),
    ensures
        redo_effect_seq(x, s1 + s2, s1.len() + k) == redo_effect_seq(
            redo_effect_seq(x, s1, s1.len() as int),
            s2,
            k,
        ),
    decreases k,
{
    if k == 0 {
        lemma_redo_prefix(x, s1, s2, s1.len() as int);
    } else {
        assert((s1 + s2)[s1.len() + k - 1] == s2[k - 1]);
        lemma_redo_concat(x, s1, s2, k - 1);
    }
}

/// The recorded part deletions of `ds`.
pub open spec fn part_actions<P>(ds: Seq<ModulePart<P>>) -> Seq<CanvasAction<P>> {
    ds.map_values(|p: ModulePart<P>| delete_part_action(p))
}

/// The recorded connection deletions of `cs`.
pub open spec fn connection_actions<P>(cs: Seq<ModuleConnection>) -> Seq<CanvasAction<P>> {
    cs.map_values(|c: ModuleConnection| delete_connection_action(c))
}

/// Undoing part deletions appends the parts in reverse order.
proof fn lemma_undo_part_deletions<P>(x: ModuleGraph<P>, ds: Seq<ModulePart<P>>, n: int)
    requires
        0 <= n <= ds.len(),
    ensures
        undo_effect_seq(x, part_actions(ds), n) == (ModuleGraph {
            parts: x.parts + ds.take(n).reverse(),
            connections: x.connections,
        }),
    decreases n,
{
    if n > 0 {
        let y = undo_effect(x, part_actions(ds)[n - 1]);
        assert(y == ModuleGraph { parts: x.parts.push(ds[n - 1]), connections: x.connections });
        lemma_undo_part_deletions(y, ds, n - 1);
        assert(x.parts + ds.take(n).reverse() =~= x.parts.push(ds[n - 1]) + ds.take(
            n - 1,
        ).reverse());
    } else {
        assert(x.parts + ds.take(0).reverse() =~= x.parts);
    }
}

/// Undoing connection deletions appends the connections in reverse order.
proof fn lemma_undo_connection_deletions<P>(x: ModuleGraph<P>, cs: Seq<ModuleConnection>, n: int)
    requires
        0 <= n <= cs.len(),
    ensures
        undo_effect_seq(x, connection_actions(cs), n) == (ModuleGraph {
            parts: x.parts,
            connections: x.connections + cs.take(n).reverse(),
        }),
    decreases n,
{
    if n > 0 {
        let y = undo_effect(x, connection_actions::<P>(cs)[n - 1]);
        assert(y == ModuleGraph {
            parts: x.parts,
            connections: x.connections.push(cs[n - 1]),
        });
        lemma_undo_connection_deletions(y, cs, n - 1);
        assert(x.connections + cs.take(n).reverse() =~= x.connections.push(cs[n - 1]) + cs.take(
            n - 1,
        ).reverse());
    } else {
        assert(x.connections + cs.take(0).reverse() =~= x.connections);
    }
}

/// Holds of a connection equal to none of `cs`.
spec fn not_among(cs: Seq<ModuleConnection>) -> spec_fn(ModuleConnection) -> bool {
    |c: ModuleConnection| !cs.contains(c)
}

/// Holds of a part whose id is the id of none of `ds`.
spec fn id_not_among<P>(ds: Seq<ModulePart<P>>) -> spec_fn(ModulePart<P>) -> bool {
    |p: ModulePart<P>| forall|k: int| 0 <= k < ds.len() ==> ds[k].id != p.id
}

/// Redoing connection deletions removes every connection equal to a deleted one.
proof fn lemma_redo_connection_deletions<P>(x: ModuleGraph<P>, cs: Seq<ModuleConnection>, n: int)
    requires
        0 <= n <= cs.len(),
    ensures
        redo_effect_seq(x, connection_actions(cs), n) == (ModuleGraph {
            parts: x.parts,
            connections: x.connections.filter(not_among(cs.take(n))),
        }),
    decreases n,
{
    if n > 0 {
        lemma_redo_connection_deletions(x, cs, n - 1);
        let prev = x.connections.filter(not_among(cs.take(n - 1)));
        let acts = connection_actions::<P>(cs);
        assert(acts[n - 1] == delete_connection_action::<P>(cs[n - 1]));
        let r = redo_effect_seq(x, acts, n - 1);
        assert(redo_effect_seq(x, acts, n) == redo_effect(r, acts[n - 1]));
        assert(redo_effect(r, acts[n - 1]) == ModuleGraph {
            parts: r.parts,
            connections: without_connection(r.connections, cs[n - 1]),
        });
        assert(redo_effect_seq(x, connection_actions::<P>(cs), n) == ModuleGraph {
            parts: x.parts,
            connections: without_connection(prev, cs[n - 1]),
        });
        assert forall|c: ModuleConnection| #[trigger]
            not_among(cs.take(n))(c) == (not_among(cs.take(n - 1))(c) && connection_differs(
                cs[n - 1],
            )(c)) by {
            let t = cs.take(n - 1);
            assert(cs.take(n) =~= t.push(cs[n - 1]));
            if t.contains(c) {
                let j = choose|j: int| 0 <= j < t.len() && t[j] == c;
                assert(cs.take(n)[j] == c);
            }
            if c == cs[n - 1] {
                assert(cs.take(n)[n - 1] == c);
            }
            if cs.take(n).contains(c) {
                let j = choose|j: int| 0 <= j < n && cs.take(n)[j] == c;
                if j < n - 1 {
                    assert(t[j] == c);
                }
            }
        }
        lemma_filter_twice(
            x.connections,
            not_among(cs.take(n - 1)),
            connection_differs(cs[n - 1]),
            not_among(cs.take(n)),
        );
    } else {
        lemma_filter_all_pass(x.connections, not_among(cs.take(0)));
    }
}

/// Redoing part deletions removes every part with the id of a deleted one.
proof fn lemma_redo_part_deletions<P>(x: ModuleGraph<P>, ds: Seq<ModulePart<P>>, n: int)
    requires
        0 <= n <= ds.len(),
    ensures
        redo_effect_seq(x, part_actions(ds), n) == (ModuleGraph {
            parts: x.parts.filter(id_not_among(ds.take(n))),
            connections: x.connections,
        }),
    decreases n,
{
    if n > 0 {
        lemma_redo_part_deletions(x, ds, n - 1);
        let prev = x.parts.filter(id_not_among(ds.take(n - 1)));
        let acts = part_actions(ds);
        assert(acts[n - 1] == delete_part_action(ds[n - 1]));
        let r = redo_effect_seq(x, acts, n - 1);
        assert(redo_effect_seq(x, acts, n) == redo_effect(r, acts[n - 1]));
        assert(redo_effect(r, acts[n - 1]) == ModuleGraph {
            parts: without_id(r.parts, ds[n - 1].id),
            connections: r.connections,
        });
        assert(redo_effect_seq(x, part_actions(ds), n) == ModuleGraph {
            parts: without_id(prev, ds[n - 1].id),
            connections: x.connections,
        });
        assert forall|p: ModulePart<P>| #[trigger]
            id_not_among(ds.take(n))(p) == (id_not_among(ds.take(n - 1))(p) && id_differs(
                ds[n - 1].id,
            )(p)) by {
            assert(ds.take(n) =~= ds.take(n - 1).push(ds[n - 1]));
            if id_not_among(ds.take(n - 1))(p) && id_differs(ds[n - 1].id)(p) {
                assert forall|k: int| 0 <= k < ds.take(n).len() implies #[trigger] ds.take(n)[k].id
                    != p.id by {
                    if k < n - 1 {
                        assert(ds.take(n)[k] == ds.take(n - 1)[k]);
                    }
                }
            }
            if id_not_among(ds.take(n))(p) {
                assert forall|k: int| 0 <= k < ds.take(n - 1).len() implies #[trigger] ds.take(
                    n - 1,
                )[k].id != p.id by {
                    assert(ds.take(n)[k] == ds.take(n - 1)[k]);
                }
                assert(ds.take(n)[n - 1] == ds[n - 1]);
            }
        }
        lemma_filter_twice(
            x.parts,
            id_not_among(ds.take(n - 1)),
            id_differs(ds[n - 1].id),
            id_not_among(ds.take(n)),
        );
    } else {
        lemma_filter_all_pass(x.parts, id_not_among(ds.take(0)));
    }
}

/// Every part that a deletion records is a part of the graph whose id is selected.
proof fn lemma_deleted_parts_selected<P>(parts: Seq<ModulePart<P>>, sel: Seq<u64>, k: int)
    requires
        0 <= k < deleted_parts(parts, sel).len(),
    ensures
        sel.contains(deleted_parts(parts, sel)[k].id),
        parts.contains(deleted_parts(parts, sel)[k]),
    decreases sel.len(),
{
    let front = sel.drop_last();
    let rest = deleted_parts(parts, front);
    if k < rest.len() {
        lemma_deleted_parts_selected(parts, front, k);
        let j = choose|j: int| 0 <= j < front.len() && front[j] == rest[k].id;
        assert(sel[j] == front[j]);
    } else {
        lemma_first_index_exists(parts, sel.last());
        let i = choose|i: int| is_first_index(parts, sel.last(), i);
        assert(parts[i] == deleted_parts(parts, sel)[k]);
        assert(sel[sel.len() - 1] == sel.last());
    }
}

/// Undoing a deletion of the selection puts back the removed connections and
/// the removed parts, each after the ones that stayed, in reverse order of removal.
pub proof fn lemma_undo_deletion_result<P>(g: ModuleGraph<P>, sel: Seq<u64>)
    ensures
        ({
            let b = deletion_batch(g, sel);
            undo_effect_seq(deletion_result(g, sel), b, b.len() as int) == ModuleGraph {
                parts: g.parts.filter(not_selected(sel)) + deleted_parts(
                    g.parts,
                    sel,
                ).reverse(),
                connections: g.connections.filter(untouched_by(sel)) + g.connections.filter(
                    touched_by(sel),
                ).reverse(),
            }
        }),
{
    let after = deletion_result(g, sel);
    let ts = g.connections.filter(touched_by(sel));
    let ds = deleted_parts(g.parts, sel);
    let ca = connection_actions::<P>(ts);
    let pa = part_actions(ds);
    assert(deletion_batch(g, sel) == ca + pa);
    lemma_undo_concat(after, ca, pa, pa.len() as int);
    lemma_undo_part_deletions(after, ds, ds.len() as int);
    assert(ds.take(ds.len() as int) =~= ds);
    let mid = undo_effect_seq(after, pa, pa.len() as int);
    lemma_undo_connection_deletions(mid, ts, ts.len() as int);
    assert(ts.take(ts.len() as int) =~= ts);
}

/// Redoing a deletion after undoing it gives back exactly the graph that the
/// deletion left.
pub proof fn lemma_redo_after_undo_of_deletion<P>(g: ModuleGraph<P>, sel: Seq<u64>)
    ensures
        ({
            let b = deletion_batch(g, sel);
            let after = deletion_result(g, sel);
            redo_effect_seq(undo_effect_seq(after, b, b.len() as int), b, b.len() as int)
                == after
        }),
{
    let after = deletion_result(g, sel);
    let ts = g.connections.filter(touched_by(sel));
    let ks = g.connections.filter(untouched_by(sel));
    let ds = deleted_parts(g.parts, sel);
    let kp = g.parts.filter(not_selected(sel));
    let ca = connection_actions::<P>(ts);
    let pa = part_actions(ds);
    let b = deletion_batch(g, sel);
    assert(b == ca + pa);
    lemma_undo_deletion_result(g, sel);
    let restored = ModuleGraph { parts: kp + ds.reverse(), connections: ks + ts.reverse() };
    lemma_redo_concat(restored, ca, pa, pa.len() as int);
    lemma_redo_connection_deletions(restored, ts, ts.len() as int);
    assert(ts.take(ts.len() as int) =~= ts);
    let mid = ModuleGraph { parts: restored.parts, connections: restored.connections.filter(
        not_among(ts),
    ) };
    lemma_redo_part_deletions(mid, ds, ds.len() as int);
    assert(ds.take(ds.len() as int) =~= ds);
    // The connections that stayed differ from every removed one.
    Seq::filter_distributes_over_add(ks, ts.reverse(), not_among(ts));
    assert forall|i: int| 0 <= i < ks.len() implies not_among(ts)(#[trigger] ks[i]) by {
        assert(untouched_by(sel)(ks[i])) by {
            g.connections.lemma_filter_pred(untouched_by(sel), i);
        }
        if ts.contains(ks[i]) {
            let j = choose|j: int| 0 <= j < ts.len() && ts[j] == ks[i];
            g.connections.lemma_filter_pred(touched_by(sel), j);
        }
    }
    lemma_filter_all_pass(ks, not_among(ts));
    assert forall|i: int| 0 <= i < ts.reverse().len() implies !not_among(ts)(
        #[trigger] ts.reverse()[i],
    ) by {
        assert(ts.reverse()[i] == ts[ts.len() - 1 - i]);
    }
    lemma_filter_all_fail(ts.reverse(), not_among(ts));
    assert(ks + Seq::<ModuleConnection>::empty() =~= ks);
    // The parts that stayed have no selected id; the removed ones do.
    Seq::filter_distributes_over_add(kp, ds.reverse(), id_not_among(ds));
    assert forall|i: int| 0 <= i < kp.len() implies id_not_among(ds)(#[trigger] kp[i]) by {
        g.parts.lemma_filter_pred(not_selected(sel), i);
        assert forall|k: int| 0 <= k < ds.len() implies ds[k].id != kp[i].id by {
            lemma_deleted_parts_selected(g.parts, sel, k);
        }
    }
    lemma_filter_all_pass(kp, id_not_among(ds));
    assert forall|i: int| 0 <= i < ds.reverse().len() implies !id_not_among(ds)(
        #[trigger] ds.reverse()[i],
    ) by {
        assert(ds.reverse()[i] == ds[ds.len() - 1 - i]);
    }
    lemma_filter_all_fail(ds.reverse(), id_not_among(ds));
    assert(kp + Seq::<ModulePart<P>>::empty() =~= kp);
}

/// Splitting a sequence by a predicate and its negation keeps every element.
proof fn lemma_filter_split_multiset<A>(s: Seq<A>, p: spec_fn(A) -> bool, q: spec_fn(A) -> bool)
    requires
        forall|x: A| #[trigger] q(x) == !p(x),
    ensures
        s.filter(p).to_multiset().add(s.filter(q).to_multiset()) =~= s.to_multiset(),
    decreases s.len(),
{
    broadcast use vstd::seq_lib::group_to_multiset_ensures;
    broadcast use vstd::multiset::group_multiset_axioms;

    reveal_with_fuel(Seq::filter, 1);
    if s.len() == 0 {
        assert(s.filter(p).to_multiset() =~= Multiset::empty());
        assert(s.filter(q).to_multiset() =~= Multiset::empty());
        assert(s.to_multiset() =~= Multiset::empty());
    } else {
        let front = s.drop_last();
        let x = s.last();
        lemma_filter_split_multiset(front, p, q);
        assert(s =~= front.push(x));
        front.lemma_filter_push(x, p);
        front.lemma_filter_push(x, q);
    }
}

/// Two duplicate-free sequences with the same elements have the same multiset.
proof fn lemma_same_elements_same_multiset<A>(a: Seq<A>, b: Seq<A>)
    requires
        a.no_duplicates(),
        b.no_duplicates(),
        forall|x: A| a.contains(x) <==> b.contains(x),
    ensures
        a.to_multiset() =~= b.to_multiset(),
{
    broadcast use vstd::seq_lib::group_to_multiset_ensures;
    broadcast use vstd::multiset::group_multiset_axioms;

    a.lemma_multiset_has_no_duplicates();
    b.lemma_multiset_has_no_duplicates();
    assert forall|x: A| a.to_multiset().count(x) == b.to_multiset().count(x) by {
        if a.contains(x) {
            assert(a.to_multiset().contains(x));
            assert(b.to_multiset().contains(x));
        } else {
            assert(a.to_multiset().count(x) == 0);
            assert(b.to_multiset().count(x) == 0);
        }
    }
}

/// Filtering keeps a sequence free of duplicates.
pub(crate) proof fn lemma_filter_no_duplicates<A>(s: Seq<A>, p: spec_fn(A) -> bool)
    requires
        s.no_duplicates(),
    ensures
        s.filter(p).no_duplicates(),
    decreases s.len(),
{
    reveal_with_fuel(Seq::filter, 1);
    if s.len() > 0 {
        let front = s.drop_last();
        let x = s.last();
        assert(front.no_duplicates()) by {
            assert forall|i: int, j: int|
                0 <= i < front.len() && 0 <= j < front.len() && i != j implies front[i]
                != front[j] by {
                assert(front[i] == s[i] && front[j] == s[j]);
            }
        }
        lemma_filter_no_duplicates(front, p);
        assert(s =~= front.push(x));
        front.lemma_filter_push(x, p);
        if p(x) {
            let f = front.filter(p);
            if f.contains(x) {
                front.lemma_filter_contains_rev(p, x);
                let j = choose|j: int| 0 <= j < front.len() && front[j] == x;
                assert(s[j] == s[s.len() - 1]);
            }
            assert forall|i: int, j: int|
                0 <= i < f.push(x).len() && 0 <= j < f.push(x).len() && i != j implies f.push(
                x,
            )[i] != f.push(x)[j] by {
                if i < f.len() && j == f.len() {
                    assert(f.contains(f[i]));
                }
                if j < f.len() && i == f.len() {
                    assert(f.contains(f[j]));
                }
            }
        }
    }
}

/// The parts that a deletion records have distinct ids, all selected.
proof fn lemma_deleted_parts_distinct<P>(parts: Seq<ModulePart<P>>, sel: Seq<u64>)
    requires
        sel.no_duplicates(),
    ensures
        forall|i: int, j: int|
            0 <= i < j < deleted_parts(parts, sel).len() ==> deleted_parts(parts, sel)[i].id
                != deleted_parts(parts, sel)[j].id,
    decreases sel.len(),
{
    if sel.len() > 0 {
        let front = sel.drop_last();
        assert(front.no_duplicates()) by {
            assert forall|i: int, j: int|
                0 <= i < front.len() && 0 <= j < front.len() && i != j implies front[i]
                != front[j] by {
                assert(front[i] == sel[i] && front[j] == sel[j]);
            }
        }
        lemma_deleted_parts_distinct(parts, front);
        let rest = deleted_parts(parts, front);
        let all = deleted_parts(parts, sel);
        if has_part(parts, sel.last()) {
            lemma_first_index_exists(parts, sel.last());
            let f = choose|i: int| is_first_index(parts, sel.last(), i);
            assert(all == rest.push(parts[f]));
            assert forall|i: int, j: int| 0 <= i < j < all.len() implies all[i].id
                != all[j].id by {
                if j == all.len() - 1 {
                    lemma_deleted_parts_selected(parts, front, i);
                    let k = choose|k: int| 0 <= k < front.len() && front[k] == rest[i].id;
                    assert(sel[k] == front[k]);
                    assert(sel[sel.len() - 1] == sel.last());
                } else {
                    assert(all[i] == rest[i] && all[j] == rest[j]);
                }
            }
        }
    }
}

/// A selected id with a part has its first part among the recorded ones.
proof fn lemma_deleted_parts_complete<P>(parts: Seq<ModulePart<P>>, sel: Seq<u64>, id: u64)
    requires
        sel.contains(id),
        has_part(parts, id),
    ensures
        deleted_parts(parts, sel).contains(find_part(parts, id).unwrap()),
    decreases sel.len(),
{
    let front = sel.drop_last();
    let rest = deleted_parts(parts, front);
    lemma_first_index_exists(parts, id);
    if sel.last() == id {
        assert(deleted_parts(parts, sel) == rest.push(find_part(parts, id).unwrap()));
        assert(deleted_parts(parts, sel)[rest.len() as int] == find_part(parts, id).unwrap());
    } else {
        let k = choose|k: int| 0 <= k < sel.len() && sel[k] == id;
        assert(front[k] == id);
        lemma_deleted_parts_complete(parts, front, id);
        let j = choose|j: int| 0 <= j < rest.len() && rest[j] == find_part(parts, id).unwrap();
        if has_part(parts, sel.last()) {
            lemma_first_index_exists(parts, sel.last());
            assert(deleted_parts(parts, sel)[j] == rest[j]);
        }
    }
}

/// Undoing a deletion of the selection gives back every part and every
/// connection that the graph had, each as often as before, when part ids are
/// unique and the selection lists no id twice.
pub proof fn lemma_undo_restores_deletion<P>(g: ModuleGraph<P>, sel: Seq<u64>)
    requires
        ids_unique(g.parts),
        sel.no_duplicates(),
    ensures
        ({
            let b = deletion_batch(g, sel);
            let r = undo_effect_seq(deletion_result(g, sel), b, b.len() as int);
            &&& r.parts.to_multiset() == g.parts.to_multiset()
            &&& r.connections.to_multiset() == g.connections.to_multiset()
        }),
{
    broadcast use vstd::seq_lib::group_to_multiset_ensures;
    broadcast use vstd::multiset::group_multiset_axioms;

    lemma_undo_deletion_result(g, sel);
    let ts = g.connections.filter(touched_by(sel));
    let ks = g.connections.filter(untouched_by(sel));
    let ds = deleted_parts(g.parts, sel);
    let kp = g.parts.filter(not_selected(sel));
    // Connections.
    vstd::seq_lib::lemma_multiset_commutative(ks, ts.reverse());
    ts.lemma_reverse_to_multiset();
    lemma_filter_split_multiset(g.connections, untouched_by(sel), touched_by(sel));
    // Parts.
    assert(g.parts.no_duplicates()) by {
        assert forall|i: int, j: int|
            0 <= i < g.parts.len() && 0 <= j < g.parts.len() && i != j implies g.parts[i]
            != g.parts[j] by {
            if i < j {
                assert(g.parts[i].id != g.parts[j].id);
            } else {
                assert(g.parts[j].id != g.parts[i].id);
            }
        }
    }
    lemma_filter_no_duplicates(g.parts, not_selected(sel));
    lemma_deleted_parts_distinct(g.parts, sel);
    let rd = ds.reverse();
    let all = kp + rd;
    assert forall|i: int| 0 <= i < rd.len() implies #[trigger] rd[i] == ds[ds.len() - 1 - i] by {}
    assert(all.no_duplicates()) by {
        assert forall|i: int, j: int|
            0 <= i < all.len() && 0 <= j < all.len() && i != j implies all[i] != all[j] by {
            if i < kp.len() && j < kp.len() {
            } else if i >= kp.len() && j >= kp.len() {
                let a = ds.len() - 1 - (i - kp.len());
                let b = ds.len() - 1 - (j - kp.len());
                assert(all[i] == ds[a] && all[j] == ds[b]);
                if a < b {
                    assert(ds[a].id != ds[b].id);
                } else {
                    assert(ds[b].id != ds[a].id);
                }
            } else if i < kp.len() {
                let b = ds.len() - 1 - (j - kp.len());
                g.parts.lemma_filter_pred(not_selected(sel), i);
                lemma_deleted_parts_selected(g.parts, sel, b);
            } else {
                let a = ds.len() - 1 - (i - kp.len());
                g.parts.lemma_filter_pred(not_selected(sel), j);
                lemma_deleted_parts_selected(g.parts, sel, a);
            }
        }
    }
    assert forall|x: ModulePart<P>| all.contains(x) <==> g.parts.contains(x) by {
        if all.contains(x) {
            let i = choose|i: int| 0 <= i < all.len() && all[i] == x;
            if i < kp.len() {
                assert(kp.contains(x));
                g.parts.lemma_filter_contains_rev(not_selected(sel), x);
            } else {
                lemma_deleted_parts_selected(g.parts, sel, ds.len() - 1 - (i - kp.len()));
            }
        }
        if g.parts.contains(x) {
            let i = choose|i: int| 0 <= i < g.parts.len() && g.parts[i] == x;
            if sel.contains(x.id) {
                assert(has_part(g.parts, x.id));
                lemma_first_index_exists(g.parts, x.id);
                let f = choose|f: int| is_first_index(g.parts, x.id, f);
                assert(f == i);
                lemma_deleted_parts_complete(g.parts, sel, x.id);
                let j = choose|j: int| 0 <= j < ds.len() && ds[j] == x;
                assert(all[kp.len() + (ds.len() - 1 - j)] == x);
            } else {
                g.parts.lemma_filter_contains(not_selected(sel), i);
                let j = choose|j: int| 0 <= j < kp.len() && kp[j] == x;
                assert(all[j] == x);
            }
        }
    }
    lemma_same_elements_same_multiset(all, g.parts);
}

/// Deleting the first `k + 1` selected parts is deleting the first `k` and
/// then part `sel[k]`.
pub(crate) proof fn lemma_deletion_step<P>(g: ModuleGraph<P>, sel: Seq<u64>, k: int)
    requires
        0 <= k < sel.len(),
    ensures
        deletion_result(g, sel.take(k + 1)) == without_part(deletion_result(g, sel.take(k)), sel[k]),
{
    let a = sel.take(k);
    let b = sel.take(k + 1);
    assert(b =~= a.push(sel[k]));
    assert forall|x: u64| #[trigger] b.contains(x) == (a.contains(x) || x == sel[k]) by {
        if b.contains(x) {
            let i = choose|i: int| 0 <= i < b.len() && b[i] == x;
            if i < k {
                assert(a[i] == x);
            }
        }
        if a.contains(x) {
            let i = choose|i: int| 0 <= i < a.len() && a[i] == x;
            assert(b[i] == x);
        }
        if x == sel[k] {
            assert(b[k] == x);
        }
    }
    lemma_filter_twice(g.parts, not_selected(a), id_differs(sel[k]), not_selected(b));
    lemma_filter_twice(g.connections, untouched_by(a), not_touching(sel[k]), untouched_by(b));
}

/// Undoing an added part right after adding it gives the graph back, when
/// the part carries the edit's id and no part had that id before.
pub proof fn lemma_undo_after_add_part<P>(g: ModuleGraph<P>, part_id: u64, part_data: ModulePart<P>)
    requires
        part_data.id == part_id,
        !has_part(g.parts, part_id),
    ensures
        ({
            let a = CanvasAction::AddPart { part_id, part_data };
            undo_effect(redo_effect(g, a), a) == g
        }),
{
    reveal_with_fuel(Seq::filter, 1);
    g.parts.lemma_filter_push(part_data, id_differs(part_id));
    assert forall|i: int| 0 <= i < g.parts.len() implies id_differs::<P>(part_id)(
        #[trigger] g.parts[i],
    ) by {}
    lemma_filter_all_pass(g.parts, id_differs(part_id));
}

/// Undoing an added connection right after adding it gives the graph back,
/// when the graph did not have that connection.
pub proof fn lemma_undo_after_add_connection<P>(g: ModuleGraph<P>, connection: ModuleConnection)
    requires
        !g.connections.contains(connection),
    ensures
        ({
            let a = CanvasAction::<P>::AddConnection { connection };
            undo_effect(redo_effect(g, a), a) == g
        }),
{
    reveal_with_fuel(Seq::filter, 1);
    g.connections.lemma_filter_push(connection, connection_differs(connection));
    assert forall|i: int| 0 <= i < g.connections.len() implies connection_differs(connection)(
        #[trigger] g.connections[i],
    ) by {
        if g.connections[i] == connection {
            assert(g.connections.contains(connection));
        }
    }
    lemma_filter_all_pass(g.connections, connection_differs(connection));
}

/// Undoing a move right after making it gives the graph back, when the
/// moved part stood at the edit's old position.
pub proof fn lemma_undo_after_move<P>(g: ModuleGraph<P>, part_id: u64, old_pos: P, new_pos: P)
    requires
        find_part(g.parts, part_id) matches Some(p) ==> p.position == old_pos,
    ensures
        ({
            let a = CanvasAction::MovePart { part_id, old_pos, new_pos };
            undo_effect(redo_effect(g, a), a) == g
        }),
{
    if has_part(g.parts, part_id) {
        lemma_first_index_exists(g.parts, part_id);
        let i = choose|i: int| is_first_index(g.parts, part_id, i);
        let moved = with_position(g.parts, part_id, new_pos);
        assert(is_first_index(moved, part_id, i));
        assert(has_part(moved, part_id));
        let j = choose|j: int| is_first_index(moved, part_id, j);
        crate::graph::lemma_first_index_unique(moved, part_id, i, j);
        assert(with_position(moved, part_id, old_pos) =~= g.parts);
    }
}

/// Redoing a deleted connection right after undoing the deletion gives the
/// graph back, when the graph did not have that connection.
pub proof fn lemma_redo_after_undo_delete_connection<P>(
    g: ModuleGraph<P>,
    connection: ModuleConnection,
)
    requires
        !g.connections.contains(connection),
    ensures
        ({
            let a = CanvasAction::<P>::DeleteConnection { connection };
            redo_effect(undo_effect(g, a), a) == g
        }),
{
    lemma_undo_after_add_connection(g, connection);
}

/// Redoing a deleted part right after undoing the deletion gives the graph
/// back, when no part of the graph had the deleted part's id.
pub proof fn lemma_redo_after_undo_delete_part<P>(g: ModuleGraph<P>, part_data: ModulePart<P>)
    requires
        !has_part(g.parts, part_data.id),
    ensures
        ({
            let a = CanvasAction::DeletePart { part_data };
            redo_effect(undo_effect(g, a), a) == g
        }),
{
    lemma_undo_after_add_part(g, part_data.id, part_data);
}

/// Redoing `a` on `g` and then undoing it gives `g` back: an added part has
/// the edit's id and no part had it; an added connection was absent; a moved
/// part stood at the old position; a deleted part or connection is the last
/// of its list and occurs nowhere before; a batch is made of such edits, each
/// on the graph that the ones before it leave.
pub open spec fn reversible_edit<P>(g: ModuleGraph<P>, a: CanvasAction<P>) -> bool
    decreases a, 0int,
{
    match a {
        CanvasAction::AddPart { part_id, part_data } => part_data.id == part_id && !has_part(
            g.parts,
            part_id,
        ),
        CanvasAction::DeletePart { part_data } => g.parts.len() > 0 && g.parts.last() == part_data
            && !has_part(g.parts.drop_last(), part_data.id),
        CanvasAction::MovePart { part_id, old_pos, .. } => find_part(g.parts, part_id) matches Some(
            p,
        ) ==> p.position == old_pos,
        CanvasAction::AddConnection { connection } => !g.connections.contains(connection),
        CanvasAction::DeleteConnection { connection } => g.connections.len() > 0
            && g.connections.last() == connection && !g.connections.drop_last().contains(
            connection,
        ),
        CanvasAction::Batch(actions) => reversible_seq(g, actions@, actions@.len() as int),
    }
}

/// The first `n` edits of `s`, redone in order from `g`, are each reversible
/// on the graph that the edits before them leave.
pub open spec fn reversible_seq<P>(g: ModuleGraph<P>, s: Seq<CanvasAction<P>>, n: int) -> bool
    decreases s, n,
{
    if n <= 0 || n > s.len() {
        true
    } else {
        reversible_seq(g, s, n - 1) && reversible_edit(redo_effect_seq(g, s, n - 1), s[n - 1])
    }
}

/// Undoing an edit right after making (or redoing) it gives back the graph
/// it was made on, for every reversible edit, batches included.
pub proof fn lemma_undo_after_redo<P>(g: ModuleGraph<P>, a: CanvasAction<P>)
    requires
        reversible_edit(g, a),
    ensures
        undo_effect(redo_effect(g, a), a) == g,
    decreases a, 0int,
{
    match a {
        CanvasAction::AddPart { part_id, part_data } => {
            lemma_undo_after_add_part(g, part_id, part_data);
        },
        CanvasAction::DeletePart { part_data } => {
            let front = g.parts.drop_last();
            assert(g.parts =~= front.push(part_data));
            lemma_undo_after_add_part(
                ModuleGraph { parts: front, connections: g.connections },
                part_data.id,
                part_data,
            );
        },
        CanvasAction::MovePart { part_id, old_pos, new_pos } => {
            lemma_undo_after_move(g, part_id, old_pos, new_pos);
        },
        CanvasAction::AddConnection { connection } => {
            lemma_undo_after_add_connection(g, connection);
        },
        CanvasAction::DeleteConnection { connection } => {
            let front = g.connections.drop_last();
            assert(g.connections =~= front.push(connection));
            lemma_undo_after_add_connection::<P>(
                ModuleGraph { parts: g.parts, connections: front },
                connection,
            );
        },
        CanvasAction::Batch(actions) => {
            lemma_undo_after_redo_seq(g, actions@, actions@.len() as int);
        },
    }
}

/// Undoing the first `n` edits of `s` right after redoing them gives back the
/// graph they were redone on.
pub proof fn lemma_undo_after_redo_seq<P>(g: ModuleGraph<P>, s: Seq<CanvasAction<P>>, n: int)
    requires
        reversible_seq(g, s, n),
    ensures
        undo_effect_seq(redo_effect_seq(g, s, n), s, n) == g,
    decreases s, n,
{
    if 0 < n <= s.len() {
        let h = redo_effect_seq(g, s, n - 1);
        lemma_undo_after_redo(h, s[n - 1]);
        lemma_undo_after_redo_seq(g, s, n - 1);
    }
}

/// Filtering by two predicates that agree on every element gives the same.
proof fn lemma_filter_congruent<A>(s: Seq<A>, p: spec_fn(A) -> bool, q: spec_fn(A) -> bool)
    requires
        forall|i: int| 0 <= i < s.len() ==> p(#[trigger] s[i]) == q(s[i]),
    ensures
        s.filter(p) == s.filter(q),
    decreases s.len(),
{
    reveal_with_fuel(Seq::filter, 1);
    if s.len() > 0 {
        let front = s.drop_last();
        assert forall|i: int| 0 <= i < front.len() implies p(#[trigger] front[i]) == q(front[i]) by {
            assert(front[i] == s[i]);
        }
        lemma_filter_congruent(front, p, q);
        assert(s =~= front.push(s.last()));
        front.lemma_filter_push(s.last(), p);
        front.lemma_filter_push(s.last(), q);
    }
}

/// Redoing the edits that a deletion of the selection records, on the graph
/// the deletion was made on, gives exactly the graph the deletion left.
pub proof fn lemma_redo_of_deletion_batch<P>(g: ModuleGraph<P>, sel: Seq<u64>)
    ensures
        ({
            let b = deletion_batch(g, sel);
            redo_effect_seq(g, b, b.len() as int) == deletion_result(g, sel)
        }),
{
    let ts = g.connections.filter(touched_by(sel));
    let ds = deleted_parts(g.parts, sel);
    let ca = connection_actions::<P>(ts);
    let pa = part_actions(ds);
    let b = deletion_batch(g, sel);
    assert(b == ca + pa);
    lemma_redo_concat(g, ca, pa, pa.len() as int);
    lemma_redo_connection_deletions(g, ts, ts.len() as int);
    assert(ts.take(ts.len() as int) =~= ts);
    let mid = ModuleGraph { parts: g.parts, connections: g.connections.filter(not_among(ts)) };
    lemma_redo_part_deletions(mid, ds, ds.len() as int);
    assert(ds.take(ds.len() as int) =~= ds);
    assert forall|i: int| 0 <= i < g.connections.len() implies not_among(ts)(
        #[trigger] g.connections[i],
    ) == untouched_by(sel)(g.connections[i]) by {
        let c = g.connections[i];
        if touched_by(sel)(c) {
            g.connections.lemma_filter_contains(touched_by(sel), i);
        } else if ts.contains(c) {
            let k = choose|k: int| 0 <= k < ts.len() && ts[k] == c;
            g.connections.lemma_filter_pred(touched_by(sel), k);
        }
    }
    lemma_filter_congruent(g.connections, not_among(ts), untouched_by(sel));
    assert forall|i: int| 0 <= i < g.parts.len() implies id_not_among(ds)(#[trigger] g.parts[i])
        == not_selected::<P>(sel)(g.parts[i]) by {
        let p = g.parts[i];
        if sel.contains(p.id) {
            assert(has_part(g.parts, p.id));
            lemma_first_index_exists(g.parts, p.id);
            lemma_deleted_parts_complete(g.parts, sel, p.id);
            let k = choose|k: int| 0 <= k < ds.len() && ds[k] == find_part(g.parts, p.id).unwrap();
            assert(ds[k].id == p.id);
        } else {
            assert forall|k: int| 0 <= k < ds.len() implies ds[k].id != p.id by {
                lemma_deleted_parts_selected(g.parts, sel, k);
            }
        }
    }
    lemma_filter_congruent(g.parts, id_not_among(ds), not_selected::<P>(sel));
}

/// The edits that a deletion records: removing the connections `cs`, then
/// the parts `ds`.
pub open spec fn deletion_actions<P>(cs: Seq<ModuleConnection>, ds: Seq<ModulePart<P>>) -> Seq<
    CanvasAction<P>,
> {
    connection_actions(cs) + part_actions(ds)
}

/// Undoing a recorded deletion appends its connections and its parts, each
/// in reverse order.
proof fn lemma_undo_deletion_actions<P>(
    x: ModuleGraph<P>,
    v: Vec<CanvasAction<P>>,
    cs: Seq<ModuleConnection>,
    ds: Seq<ModulePart<P>>,
)
    requires
        v@ == deletion_actions(cs, ds),
    ensures
        undo_effect(x, CanvasAction::Batch(v)) == (ModuleGraph {
            parts: x.parts + ds.reverse(),
            connections: x.connections + cs.reverse(),
        }),
{
    let ca = connection_actions::<P>(cs);
    let pa = part_actions(ds);
    lemma_undo_concat(x, ca, pa, pa.len() as int);
    lemma_undo_part_deletions(x, ds, ds.len() as int);
    assert(ds.take(ds.len() as int) =~= ds);
    let mid = undo_effect_seq(x, pa, pa.len() as int);
    lemma_undo_connection_deletions(mid, cs, cs.len() as int);
    assert(cs.take(cs.len() as int) =~= cs);
}

/// Redoing a recorded deletion removes every connection equal to one of its
/// connections and every part with the id of one of its parts.
proof fn lemma_redo_deletion_actions<P>(
    x: ModuleGraph<P>,
    v: Vec<CanvasAction<P>>,
    cs: Seq<ModuleConnection>,
    ds: Seq<ModulePart<P>>,
)
    requires
        v@ == deletion_actions(cs, ds),
    ensures
        redo_effect(x, CanvasAction::Batch(v)) == (ModuleGraph {
            parts: x.parts.filter(id_not_among(ds)),
            connections: x.connections.filter(not_among(cs)),
        }),
{
    let ca = connection_actions::<P>(cs);
    let pa = part_actions(ds);
    lemma_redo_concat(x, ca, pa, pa.len() as int);
    lemma_redo_connection_deletions(x, cs, cs.len() as int);
    assert(cs.take(cs.len() as int) =~= cs);
    let mid = ModuleGraph { parts: x.parts, connections: x.connections.filter(not_among(cs)) };
    lemma_redo_part_deletions(mid, ds, ds.len() as int);
    assert(ds.take(ds.len() as int) =~= ds);
}

/// Every connection `cs` that undoing the deletion puts back ends at parts
/// that `x` has or that the deletion puts back (`ds`).
pub open spec fn undo_keeps_ends<P>(
    x: ModuleGraph<P>,
    cs: Seq<ModuleConnection>,
    ds: Seq<ModulePart<P>>,
) -> bool {
    forall|k: int|
        0 <= k < cs.len() ==> (has_part(x.parts, (#[trigger] cs[k]).from_part) || has_part(
            ds,
            cs[k].from_part,
        )) && (has_part(x.parts, cs[k].to_part) || has_part(ds, cs[k].to_part))
}

/// Every connection of `x` at a part with the id of one of `ds` is one of
/// the connections `cs` that redoing the deletion removes.
pub open spec fn redo_takes_cables<P>(
    x: ModuleGraph<P>,
    cs: Seq<ModuleConnection>,
    ds: Seq<ModulePart<P>>,
) -> bool {
    forall|k: int|
        0 <= k < x.connections.len() && (has_part(ds, (#[trigger] x.connections[k]).from_part)
            || has_part(ds, x.connections[k].to_part)) ==> cs.contains(x.connections[k])
}

/// `a` is a recorded deletion whose connections, once undone on `g`, end at
/// parts that are there.
pub open spec fn safe_undo<P>(g: ModuleGraph<P>, a: CanvasAction<P>) -> bool {
    exists|cs: Seq<ModuleConnection>, ds: Seq<ModulePart<P>>|
        a matches CanvasAction::Batch(v) && #[trigger] deletion_actions(cs, ds) == v@
            && undo_keeps_ends(g, cs, ds)
}

/// `a` is a recorded deletion that, redone on `g`, takes away every
/// connection at the parts it removes.
pub open spec fn safe_redo<P>(g: ModuleGraph<P>, a: CanvasAction<P>) -> bool {
    exists|cs: Seq<ModuleConnection>, ds: Seq<ModulePart<P>>|
        a matches CanvasAction::Batch(v) && #[trigger] deletion_actions(cs, ds) == v@
            && redo_takes_cables(g, cs, ds)
}

/// One step that the canvas takes on a module's graph in a frame: an edit,
/// or undoing or redoing a recorded deletion where every connection it puts
/// back ends at parts that are there, and every connection at a part it
/// removes goes with it.
pub open spec fn canvas_step<P>(g: ModuleGraph<P>, h: ModuleGraph<P>) -> bool {
    ||| canvas_edit(g, h)
    ||| exists|a: CanvasAction<P>| safe_undo(g, a) && h == #[trigger] undo_effect(g, a)
    ||| exists|a: CanvasAction<P>| safe_redo(g, a) && h == #[trigger] redo_effect(g, a)
}

/// A part of `a`, or of `b`, is a part of `a` followed by `b` reversed.
proof fn lemma_has_part_after_append<P>(a: Seq<ModulePart<P>>, b: Seq<ModulePart<P>>, id: u64)
    requires
        has_part(a, id) || has_part(b, id),
    ensures
        has_part(a + b.reverse(), id),
{
    if has_part(a, id) {
        let i = choose|i: int| 0 <= i < a.len() && a[i].id == id;
        assert((a + b.reverse())[i] == a[i]);
    } else {
        let i = choose|i: int| 0 <= i < b.len() && b[i].id == id;
        let j = a.len() + (b.len() - 1 - i);
        assert((a + b.reverse())[j] == b[i]);
    }
}

/// A part whose id is none of those of `ds` stays when they are removed.
proof fn lemma_kept_part<P>(parts: Seq<ModulePart<P>>, ds: Seq<ModulePart<P>>, id: u64)
    requires
        has_part(parts, id),
        !has_part(ds, id),
    ensures
        has_part(parts.filter(id_not_among(ds)), id),
{
    let i = choose|i: int| 0 <= i < parts.len() && parts[i].id == id;
    assert forall|k: int| 0 <= k < ds.len() implies ds[k].id != parts[i].id by {
        if ds[k].id == id {
            assert(has_part(ds, id));
        }
    }
    assert(id_not_among(ds)(parts[i]));
    parts.lemma_filter_contains(id_not_among(ds), i);
    let f = parts.filter(id_not_among(ds));
    let j = choose|j: int| 0 <= j < f.len() && f[j] == parts[i];
    assert(f[j].id == id);
}

/// Undoing a recorded deletion keeps every connection between parts that
/// exist, when each connection it puts back ends at parts that the graph has
/// or that it puts back.
pub proof fn lemma_safe_undo_keeps_graph_closed<P>(g: ModuleGraph<P>, a: CanvasAction<P>)
    requires
        connections_closed(g),
        safe_undo(g, a),
    ensures
        connections_closed(undo_effect(g, a)),
{
    let (cs, ds) = choose|cs: Seq<ModuleConnection>, ds: Seq<ModulePart<P>>|
        a matches CanvasAction::Batch(v) && #[trigger] deletion_actions(cs, ds) == v@
            && undo_keeps_ends(g, cs, ds);
    let v = a->Batch_0;
    lemma_undo_deletion_actions(g, v, cs, ds);
    let h = undo_effect(g, a);
    let n = g.connections.len();
    assert forall|k: int| 0 <= k < h.connections.len() implies has_part(
        h.parts,
        #[trigger] h.connections[k].from_part,
    ) && has_part(h.parts, h.connections[k].to_part) by {
        let c = h.connections[k];
        if k < n {
            assert(c == g.connections[k]);
            assert(has_part(g.parts, g.connections[k].from_part));
        } else {
            let j = cs.len() - 1 - (k - n);
            assert(c == cs[j]);
        }
        lemma_has_part_after_append(g.parts, ds, c.from_part);
        lemma_has_part_after_append(g.parts, ds, c.to_part);
    }
}

/// Redoing a recorded deletion keeps every connection between parts that
/// exist, when it takes away every connection at the parts it removes.
pub proof fn lemma_safe_redo_keeps_graph_closed<P>(g: ModuleGraph<P>, a: CanvasAction<P>)
    requires
        connections_closed(g),
        safe_redo(g, a),
    ensures
        connections_closed(redo_effect(g, a)),
{
    let (cs, ds) = choose|cs: Seq<ModuleConnection>, ds: Seq<ModulePart<P>>|
        a matches CanvasAction::Batch(v) && #[trigger] deletion_actions(cs, ds) == v@
            && redo_takes_cables(g, cs, ds);
    let v = a->Batch_0;
    lemma_redo_deletion_actions(g, v, cs, ds);
    let h = redo_effect(g, a);
    assert forall|k: int| 0 <= k < h.connections.len() implies has_part(
        h.parts,
        #[trigger] h.connections[k].from_part,
    ) && has_part(h.parts, h.connections[k].to_part) by {
        let c = h.connections[k];
        g.connections.lemma_filter_pred(not_among(cs), k);
        assert(g.connections.filter(not_among(cs)).contains(c));
        g.connections.lemma_filter_contains_rev(not_among(cs), c);
        let i = choose|i: int| 0 <= i < g.connections.len() && g.connections[i] == c;
        assert(has_part(g.parts, g.connections[i].from_part));
        assert(!has_part(ds, c.from_part) && !has_part(ds, c.to_part));
        lemma_kept_part(g.parts, ds, c.from_part);
        lemma_kept_part(g.parts, ds, c.to_part);
    }
}

/// Every step that the canvas takes keeps every connection between parts
/// that exist.
pub proof fn lemma_canvas_step_keeps_graph_closed<P>(g: ModuleGraph<P>, h: ModuleGraph<P>)
    requires
        connections_closed(g),
        canvas_step(g, h),
    ensures
        connections_closed(h),
{
    if canvas_edit(g, h) {
        lemma_canvas_edit_keeps_graph_closed(g, h);
    } else if exists|a: CanvasAction<P>| safe_undo(g, a) && h == #[trigger] undo_effect(g, a) {
        let a = choose|a: CanvasAction<P>| safe_undo(g, a) && h == #[trigger] undo_effect(g, a);
        lemma_safe_undo_keeps_graph_closed(g, a);
    } else {
        let a = choose|a: CanvasAction<P>| safe_redo(g, a) && h == #[trigger] redo_effect(g, a);
        lemma_safe_redo_keeps_graph_closed(g, a);
    }
}

/// Over any run of canvas steps, every graph keeps every connection between
/// parts that exist, when the first one does.
pub proof fn lemma_canvas_steps_keep_graph_closed<P>(gs: Seq<ModuleGraph<P>>)
    requires
        gs.len() > 0,
        connections_closed(gs[0]),
        forall|i: int| 0 <= i < gs.len() - 1 ==> canvas_step(#[trigger] gs[i], gs[i + 1]),
    ensures
        forall|i: int| 0 <= i < gs.len() ==> connections_closed(#[trigger] gs[i]),
    decreases gs.len(),
{
    if gs.len() > 1 {
        let front = gs.drop_last();
        assert forall|i: int| 0 <= i < front.len() - 1 implies canvas_step(
            #[trigger] front[i],
            front[i + 1],
        ) by {
            assert(front[i] == gs[i] && front[i + 1] == gs[i + 1]);
            assert(canvas_step(gs[i], gs[i + 1]));
        }
        lemma_canvas_steps_keep_graph_closed(front);
        let last = gs.len() - 1;
        assert(front[last - 1] == gs[last - 1]);
        assert(connections_closed(front[last - 1]));
        assert(canvas_step(gs[last - 1], gs[last]));
        lemma_canvas_step_keeps_graph_closed(gs[last - 1], gs[last]);
        assert forall|i: int| 0 <= i < gs.len() implies connections_closed(#[trigger] gs[i]) by {
            if i < last {
                assert(front[i] == gs[i]);
            }
        }
    }
}

/// Right after a deletion of the selection on a graph whose connections all
/// join existing parts, undoing the recorded deletion is safe; and right
/// after that undo, redoing it is safe.
pub proof fn lemma_recorded_deletion_safe<P>(
    g: ModuleGraph<P>,
    sel: Seq<u64>,
    v: Vec<CanvasAction<P>>,
)
    requires
        connections_closed(g),
        v@ == deletion_batch(g, sel),
    ensures
        safe_undo(deletion_result(g, sel), CanvasAction::Batch(v)),
        safe_redo(
            undo_effect(deletion_result(g, sel), CanvasAction::Batch(v)),
            CanvasAction::Batch(v),
        ),
{
    let h = deletion_result(g, sel);
    let ts = g.connections.filter(touched_by(sel));
    let ds = deleted_parts(g.parts, sel);
    assert(v@ == deletion_actions(ts, ds));
    assert forall|k: int| 0 <= k < ts.len() implies (has_part(h.parts, (#[trigger] ts[k]).from_part)
        || has_part(ds, ts[k].from_part)) && (has_part(h.parts, ts[k].to_part) || has_part(
        ds,
        ts[k].to_part,
    )) by {
        let c = ts[k];
        assert(ts.contains(c));
        g.connections.lemma_filter_contains_rev(touched_by(sel), c);
        let i = choose|i: int| 0 <= i < g.connections.len() && g.connections[i] == c;
        assert(has_part(g.parts, g.connections[i].from_part));
        lemma_end_restored(g.parts, sel, c.from_part);
        lemma_end_restored(g.parts, sel, c.to_part);
    }
    assert(undo_keeps_ends(h, ts, ds));
    lemma_undo_deletion_actions(h, v, ts, ds);
    let u = undo_effect(h, CanvasAction::Batch(v));
    let n = h.connections.len();
    assert forall|k: int|
        0 <= k < u.connections.len() && (has_part(ds, (#[trigger] u.connections[k]).from_part)
            || has_part(ds, u.connections[k].to_part)) implies ts.contains(u.connections[k]) by {
        let c = u.connections[k];
        if k < n {
            assert(c == h.connections[k]);
            g.connections.lemma_filter_pred(untouched_by(sel), k);
            if has_part(ds, c.from_part) {
                let j = choose|j: int| 0 <= j < ds.len() && ds[j].id == c.from_part;
                lemma_deleted_parts_selected(g.parts, sel, j);
            } else {
                let j = choose|j: int| 0 <= j < ds.len() && ds[j].id == c.to_part;
                lemma_deleted_parts_selected(g.parts, sel, j);
            }
        } else {
            let j = ts.len() - 1 - (k - n);
            assert(c == ts[j]);
        }
    }
    assert(redo_takes_cables(u, ts, ds));
}

/// An end of a connection of the graph is, after a deletion of the
/// selection, a part that stayed or a part that the deletion records.
proof fn lemma_end_restored<P>(parts: Seq<ModulePart<P>>, sel: Seq<u64>, id: u64)
    requires
        has_part(parts, id),
    ensures
        has_part(parts.filter(not_selected(sel)), id) || has_part(deleted_parts(parts, sel), id),
{
    if sel.contains(id) {
        lemma_first_index_exists(parts, id);
        lemma_deleted_parts_complete(parts, sel, id);
        let ds = deleted_parts(parts, sel);
        let k = choose|k: int| 0 <= k < ds.len() && ds[k] == find_part(parts, id).unwrap();
        assert(ds[k].id == id);
    } else {
        let i = choose|i: int| 0 <= i < parts.len() && parts[i].id == id;
        parts.lemma_filter_contains(not_selected(sel), i);
        let f = parts.filter(not_selected(sel));
        let j = choose|j: int| 0 <= j < f.len() && f[j] == parts[i];
        assert(f[j].id == id);
    }
}

} // verus!
