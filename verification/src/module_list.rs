//! The module selector lists the modules by name, ignoring case; modules
//! whose names compare equal keep their order.
use crate::search::{chars_of, lowercase, to_lowercase};
use vstd::prelude::*;

verus! {

/// `a` comes strictly before `b` in the order of texts: at the first place
/// where they differ the character of `a` is smaller, or `a` is a proper
/// prefix of `b`.
pub open spec fn text_less(a: Seq<char>, b: Seq<char>) -> bool
    decreases a.len(),
{
    if b.len() == 0 {
        false
    } else if a.len() == 0 {
        true
    } else if a[0] != b[0] {
        (a[0] as u32) < (b[0] as u32)
    } else {
        text_less(a.drop_first(), b.drop_first())
    }
}

/// The texts that `strings` hold.
pub open spec fn string_views(strings: Seq<String>) -> Seq<Seq<char>> {
    strings.map_values(|x: String| x@)
}

/// Entry `i` is listed before entry `j`: its key is smaller, or the keys are
/// equal and `i` came first.
pub open spec fn key_before(keys: Seq<Seq<char>>, i: int, j: int) -> bool {
    text_less(keys[i], keys[j]) || (keys[i] == keys[j] && i < j)
}

/// `order` lists every index of `keys` once, each before the next.
pub open spec fn is_key_order(keys: Seq<Seq<char>>, order: Seq<usize>) -> bool {
    &&& order.len() == keys.len()
    &&& forall|k: int| 0 <= k < order.len() ==> #[trigger] order[k] < keys.len()
    &&& forall|a: int, b: int|
        0 <= a < b < order.len() ==> key_before(keys, #[trigger] order[a] as int, #[trigger] order[b] as int)
}

/// The sort keys of the modules: their lowercased names.
pub open spec fn name_keys(names: Seq<(u64, String)>) -> Seq<Seq<char>> {
    Seq::new(names.len(), |i: int| lowercase(names[i].1@))
}

/// `order` lists every module of `names` once, by lowercased name, equal
/// names in their given order.
pub open spec fn is_name_order(names: Seq<(u64, String)>, order: Seq<usize>) -> bool {
    is_key_order(name_keys(names), order)
}

proof fn lemma_text_less_irreflexive(a: Seq<char>)
    ensures
        !text_less(a, a),
    decreases a.len(),
{
    if a.len() > 0 {
        lemma_text_less_irreflexive(a.drop_first());
    }
}

proof fn lemma_text_less_transitive(a: Seq<char>, b: Seq<char>, c: Seq<char>)
    requires
        text_less(a, b),
        text_less(b, c),
    ensures
        text_less(a, c),
    decreases a.len(),
{
    if a.len() > 0 && b.len() > 0 && c.len() > 0 && a[0] == b[0] && b[0] == c[0] {
        lemma_text_less_transitive(a.drop_first(), b.drop_first(), c.drop_first());
    }
}

proof fn lemma_text_less_total(a: Seq<char>, b: Seq<char>)
    requires
        !text_less(a, b),
        !text_less(b, a),
    ensures
        a == b,
    decreases a.len(),
{
    if a.len() > 0 && b.len() > 0 {
        if a[0] == b[0] {
            lemma_text_less_total(a.drop_first(), b.drop_first());
            assert(a =~= seq![a[0]] + a.drop_first());
            assert(b =~= seq![b[0]] + b.drop_first());
        } else {
            vstd::utf8::char_u32_cast(a[0], a[0] as u32);
            vstd::utf8::char_u32_cast(b[0], b[0] as u32);
        }
    } else {
        assert(a.len() == 0 && b.len() == 0);
        assert(a =~= b);
    }
}

/// Whether `a` comes strictly before `b` in the order of texts.
fn text_less_exec(a: &Vec<char>, b: &Vec<char>) -> (r: bool)
    ensures
        r == text_less(a@, b@),
{
    let mut i: usize = 0;
    assert(a@.skip(0) =~= a@ && b@.skip(0) =~= b@);
    assert(a@.take(0) =~= b@.take(0));
    while i < a.len() && i < b.len()
        invariant
            i <= a@.len(),
            i <= b@.len(),
            a@.take(i as int) == b@.take(i as int),
            text_less(a@, b@) == text_less(a@.skip(i as int), b@.skip(i as int)),
        decreases a@.len() - i,
    {
        let x = a[i];
        let y = b[i];
        if x != y {
            assert(a@.skip(i as int)[0] == x && b@.skip(i as int)[0] == y);
            return (x as u32) < (y as u32);
        }
        proof {
            assert(a@.skip(i as int).drop_first() =~= a@.skip(i + 1));
            assert(b@.skip(i as int).drop_first() =~= b@.skip(i + 1));
            assert(a@.take(i + 1) =~= a@.take(i as int).push(x));
            assert(b@.take(i + 1) =~= b@.take(i as int).push(y));
        }
        i = i + 1;
    }
    i < b.len()
}

/// The order of `texts` by the order of texts: each index once, equal
/// texts in their given order.
pub fn order_by_keys(texts: &Vec<String>) -> (order: Vec<usize>)
    ensures
        is_key_order(string_views(texts@), order@),
{
    let ghost ks = string_views(texts@);
    let n = texts.len();
    let mut keys: Vec<Vec<char>> = Vec::new();
    let mut i: usize = 0;
    while i < n
        invariant
            n == texts@.len(),
            ks == string_views(texts@),
            i <= n,
            keys@.len() == i,
            forall|k: int| 0 <= k < i ==> (#[trigger] keys@[k])@ == ks[k],
        decreases n - i,
    {
        keys.push(chars_of(texts[i].as_str()));
        i = i + 1;
    }
    let mut order: Vec<usize> = Vec::new();
    let mut i: usize = 0;
    while i < n
        invariant
            n == ks.len(),
            keys@.len() == n,
            forall|k: int| 0 <= k < n ==> (#[trigger] keys@[k])@ == ks[k],
            i <= n,
            order@.len() == i,
            forall|k: int| 0 <= k < order@.len() ==> #[trigger] order@[k] < i,
            forall|a: int, b: int|
                0 <= a < b < order@.len() ==> key_before(ks, #[trigger] order@[a] as int, #[trigger] order@[b] as int),
        decreases n - i,
    {
        // The first listed module whose key is greater than that of module i.
        let mut p: usize = 0;
        while p < order.len() && !text_less_exec(&keys[i], &keys[order[p]])
            invariant
                n == ks.len(),
                keys@.len() == n,
                forall|k: int| 0 <= k < n ==> (#[trigger] keys@[k])@ == ks[k],
                i < n,
                forall|k: int| 0 <= k < order@.len() ==> #[trigger] order@[k] < i,
                p <= order@.len(),
                forall|q: int| 0 <= q < p ==> !text_less(ks[i as int], ks[#[trigger] order@[q] as int]),
            decreases order@.len() - p,
        {
            p = p + 1;
        }
        let ghost before = order@;
        proof {
            let ki = ks[i as int];
            // Every module from p on has a greater key than module i.
            assert forall|q: int| p <= q < before.len() implies text_less(ki, ks[#[trigger] before[q] as int]) by {
                if q > p {
                    assert(key_before(ks, before[p as int] as int, before[q] as int));
                    let kp = ks[before[p as int] as int];
                    let kq = ks[before[q] as int];
                    if text_less(kp, kq) {
                        lemma_text_less_transitive(ki, kp, kq);
                    }
                }
            }
            // Every module before p is listed before module i.
            assert forall|q: int| 0 <= q < p implies key_before(ks, #[trigger] before[q] as int, i as int) by {
                let kq = ks[before[q] as int];
                if !text_less(kq, ki) {
                    lemma_text_less_total(kq, ki);
                }
            }
        }
        order.insert(p, i);
        proof {
            assert forall|a: int, b: int|
                0 <= a < b < order@.len() implies key_before(ks, #[trigger] order@[a] as int, #[trigger] order@[b] as int) by {
                if a < p && b < p {
                    assert(order@[a] == before[a] && order@[b] == before[b]);
                } else if a < p && b == p {
                    assert(order@[a] == before[a]);
                } else if a < p {
                    assert(order@[a] == before[a] && order@[b] == before[b - 1]);
                } else if a == p {
                    assert(order@[b] == before[b - 1]);
                    let ki = ks[i as int];
                    lemma_text_less_irreflexive(ki);
                } else {
                    assert(order@[a] == before[a - 1] && order@[b] == before[b - 1]);
                }
            }
        }
        i = i + 1;
    }
    order
}

/// The order in which the module selector lists `names` (module id and name):
/// by lowercased name; equal names keep their order.
pub fn module_list_order(names: &Vec<(u64, String)>) -> (order: Vec<usize>)
    ensures
        is_name_order(names@, order@),
{
    let mut lowered: Vec<String> = Vec::new();
    let mut i: usize = 0;
    while i < names.len()
        invariant
            i <= names@.len(),
            lowered@.len() == i,
            forall|k: int| 0 <= k < i ==> (#[trigger] lowered@[k])@ == lowercase(names@[k].1@),
        decreases names@.len() - i,
    {
        lowered.push(to_lowercase(names[i].1.as_str()));
        i = i + 1;
    }
    assert(string_views(lowered@) =~= name_keys(names@));
    order_by_keys(&lowered)
}

/// The modules as the selector lists them: by lowercased name, equal names
/// in their given order.
pub fn sort_modules_by_name(names: &Vec<(u64, String)>) -> (r: Vec<(u64, String)>)
    ensures
        exists|order: Seq<usize>|
            is_name_order(names@, order) && r@.len() == order.len() && forall|t: int|
                0 <= t < order.len() ==> #[trigger] r@[t] == names@[order[t] as int],
{
    let order = module_list_order(names);
    let mut r: Vec<(u64, String)> = Vec::new();
    let mut t: usize = 0;
    while t < order.len()
        invariant
            is_name_order(names@, order@),
            t <= order@.len(),
            r@.len() == t,
            forall|u: int| 0 <= u < t ==> #[trigger] r@[u] == names@[order@[u] as int],
        decreases order@.len() - t,
    {
        let k = order[t];
        let entry = &names[k];
        r.push((entry.0, entry.1.clone()));
        t = t + 1;
    }
    r
}

/// An order by keys lists every entry exactly once.
pub proof fn lemma_key_order_lists_each_once(names: Seq<Seq<char>>, order: Seq<usize>)
    requires
        is_key_order(names, order),
    ensures
        order.no_duplicates(),
        forall|i: usize| i < names.len() ==> #[trigger] order.contains(i),
{
    assert forall|a: int, b: int| 0 <= a < order.len() && 0 <= b < order.len() && a != b implies order[a] != order[b] by {
        let (x, y) = if a < b { (a, b) } else { (b, a) };
        assert(key_before(names, order[x] as int, order[y] as int));
        if order[x] == order[y] {
            lemma_text_less_irreflexive(names[order[x] as int]);
        }
    }
    let ints = order.map_values(|k: usize| k as int);
    assert(ints.no_duplicates()) by {
        assert forall|a: int, b: int| 0 <= a < ints.len() && 0 <= b < ints.len() && a != b implies ints[a] != ints[b] by {
            assert(order[a] != order[b]);
        }
    }
    ints.unique_seq_to_set();
    let range = vstd::set_lib::set_int_range(0, names.len() as int);
    vstd::set_lib::lemma_int_range(0, names.len() as int);
    assert(ints.to_set().subset_of(range)) by {
        assert forall|x: int| ints.to_set().contains(x) implies range.contains(x) by {
            let k = choose|k: int| 0 <= k < ints.len() && ints[k] == x;
            assert(order[k] < names.len());
        }
    }
    vstd::set_lib::lemma_len_subset(ints.to_set(), range);
    vstd::set_lib::lemma_subset_equality(ints.to_set(), range);
    assert forall|i: usize| i < names.len() implies #[trigger] order.contains(i) by {
        assert(range.contains(i as int));
        assert(ints.to_set().contains(i as int));
        let k = choose|k: int| 0 <= k < ints.len() && ints[k] == i as int;
        assert(order[k] == i);
    }
}

} // verus!
