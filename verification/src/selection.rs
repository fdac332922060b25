//! Which parts of the canvas are selected: clicks, shift-clicks, box
//! selection, select-all and the keys that clear the selection.
use crate::canvas::{contains_id, ModuleCanvas};
use crate::graph::{max_part_id, MapFlowModule, ModulePart, PartKind};
use crate::layout::add_module_node;
use crate::canvas_laws::canvas_edit;
use vstd::prelude::*;

verus! {

/// Holds of an id other than `id`.
pub open spec fn other_than(id: u64) -> spec_fn(u64) -> bool {
    |x: u64| x != id
}

/// The selection after a click on part `id`: with shift the part is added if
/// missing, without shift it becomes the only selected part.
pub open spec fn clicked_selection(sel: Seq<u64>, id: u64, shift: bool) -> Seq<u64> {
    if shift {
        if sel.contains(id) {
            sel
        } else {
            sel.push(id)
        }
    } else {
        seq![id]
    }
}

/// The selection after a shift-click that toggles part `id`.
pub open spec fn toggled_selection(sel: Seq<u64>, id: u64) -> Seq<u64> {
    if sel.contains(id) {
        sel.filter(other_than(id))
    } else {
        sel.push(id)
    }
}

/// `sel` with the ids of `hits` appended in order, each one only if it is
/// not selected yet.
pub open spec fn with_added(sel: Seq<u64>, hits: Seq<u64>) -> Seq<u64>
    decreases hits.len(),
{
    if hits.len() == 0 {
        sel
    } else {
        let s = with_added(sel, hits.drop_last());
        if s.contains(hits.last()) {
            s
        } else {
            s.push(hits.last())
        }
    }
}

/// The ids of the parts, in order.
pub open spec fn part_ids<P>(parts: Seq<ModulePart<P>>) -> Seq<u64> {
    parts.map_values(|p: ModulePart<P>| p.id)
}

/// Removes every occurrence of `id` from `ids`, keeping the order of the others.
fn remove_all(ids: &mut Vec<u64>, id: u64)
    ensures
        final(ids)@ == old(ids)@.filter(other_than(id)),
{
    let ghost orig = ids@;
    let ghost pred = other_than(id);
    let mut out: Vec<u64> = Vec::new();
    let mut i: usize = 0;
    reveal_with_fuel(Seq::filter, 1);
    assert(orig.take(0) =~= Seq::<u64>::empty());
    while i < ids.len()
        invariant
            ids@ == orig,
            pred == other_than(id),
            i <= orig.len(),
            out@ == orig.take(i as int).filter(pred),
        decreases orig.len() - i,
    {
        let x = ids[i];
        proof {
            assert(orig.take(i + 1) =~= orig.take(i as int).push(x));
            orig.take(i as int).lemma_filter_push(x, pred);
        }
        if x != id {
            out.push(x);
        }
        i = i + 1;
    }
    assert(orig.take(orig.len() as int) =~= orig);
    *ids = out;
}

impl<P: Copy, S, T> ModuleCanvas<P, S, T> {
    /// The last selected part, the one the inspector shows.
    pub fn get_selected_part_id(&self) -> (r: Option<u64>)
        ensures
            r == if self.selected_parts@.len() > 0 {
                Some(self.selected_parts@.last())
            } else {
                None::<u64>
            },
    {
        if self.selected_parts.len() > 0 {
            Some(self.selected_parts[self.selected_parts.len() - 1])
        } else {
            None
        }
    }

    /// A click on part `id`: with shift the part is added to the selection,
    /// without shift it becomes the only selected part.
    pub fn click_part(&mut self, id: u64, shift: bool)
        ensures
            *final(self) == (ModuleCanvas {
                selected_parts: final(self).selected_parts,
                ..*old(self)
            }),
            final(self).selected_parts@ == clicked_selection(old(self).selected_parts@, id, shift),
    {
        if !shift {
            self.selected_parts.clear();
        }
        if !contains_id(&self.selected_parts, id) {
            self.selected_parts.push(id);
        }
        proof {
            if !shift {
                assert(self.selected_parts@ =~= seq![id]);
            }
        }
    }

    /// A shift-click that toggles part `id` in the selection.
    pub fn toggle_part_selection(&mut self, id: u64)
        ensures
            *final(self) == (ModuleCanvas {
                selected_parts: final(self).selected_parts,
                ..*old(self)
            }),
            final(self).selected_parts@ == toggled_selection(old(self).selected_parts@, id),
    {
        if contains_id(&self.selected_parts, id) {
            remove_all(&mut self.selected_parts, id);
        } else {
            self.selected_parts.push(id);
        }
    }

    /// Makes part `id` the only selected part.
    pub fn select_only(&mut self, id: u64)
        ensures
            *final(self) == (ModuleCanvas {
                selected_parts: final(self).selected_parts,
                ..*old(self)
            }),
            final(self).selected_parts@ == seq![id],
    {
        self.selected_parts.clear();
        self.selected_parts.push(id);
        assert(self.selected_parts@ =~= seq![id]);
    }

    /// Box selection over the parts `hits` (in part order): without shift the
    /// selection is replaced, with shift it is extended; no id is added twice.
    pub fn box_select(&mut self, hits: &Vec<u64>, shift: bool)
        ensures
            *final(self) == (ModuleCanvas {
                selected_parts: final(self).selected_parts,
                ..*old(self)
            }),
            final(self).selected_parts@ == with_added(
                if shift {
                    old(self).selected_parts@
                } else {
                    Seq::empty()
                },
                hits@,
            ),
    {
        if !shift {
            self.selected_parts.clear();
        }
        let ghost start = self.selected_parts@;
        let mut i: usize = 0;
        assert(hits@.take(0) =~= Seq::<u64>::empty());
        while i < hits.len()
            invariant
                i <= hits@.len(),
                self.selected_parts@ == with_added(start, hits@.take(i as int)),
                *self == (ModuleCanvas { selected_parts: self.selected_parts, ..*old(self) }),
            decreases hits@.len() - i,
        {
            let h = hits[i];
            assert(hits@.take(i + 1).drop_last() =~= hits@.take(i as int));
            if !contains_id(&self.selected_parts, h) {
                self.selected_parts.push(h);
            }
            i = i + 1;
        }
        assert(hits@.take(hits@.len() as int) =~= hits@);
    }

    /// Selects every part of the module, in part order.
    pub fn select_all(&mut self, module: &MapFlowModule<P>)
        ensures
            *final(self) == (ModuleCanvas {
                selected_parts: final(self).selected_parts,
                ..*old(self)
            }),
            final(self).selected_parts@ == part_ids(module.parts@),
    {
        let mut ids: Vec<u64> = Vec::new();
        let mut i: usize = 0;
        while i < module.parts.len()
            invariant
                i <= module.parts@.len(),
                ids@ == part_ids(module.parts@.take(i as int)),
            decreases module.parts@.len() - i,
        {
            ids.push(module.parts[i].id);
            i = i + 1;
            assert(ids@ =~= part_ids(module.parts@.take(i as int)));
        }
        assert(module.parts@.take(module.parts@.len() as int) =~= module.parts@);
        self.selected_parts = ids;
    }

    /// Escape: closes the search popup if it is open, else clears the selection.
    pub fn escape_pressed(&mut self)
        ensures
            old(self).show_search ==> *final(self) == (ModuleCanvas {
                show_search: false,
                ..*old(self)
            }),
            !old(self).show_search ==> *final(self) == (ModuleCanvas {
                selected_parts: final(self).selected_parts,
                ..*old(self)
            }) && final(self).selected_parts@.len() == 0,
    {
        if self.show_search {
            self.show_search = false;
        } else {
            self.selected_parts.clear();
        }
    }

    /// Ctrl+F: toggles the search popup; opening it clears the search text.
    pub fn toggle_search(&mut self)
        ensures
            final(self).show_search == !old(self).show_search,
            final(self).show_search ==> final(self).search_filter@.len() == 0,
            !final(self).show_search ==> final(self).search_filter == old(self).search_filter,
            *final(self) == (ModuleCanvas {
                show_search: final(self).show_search,
                search_filter: final(self).search_filter,
                ..*old(self)
            }),
    {
        self.show_search = !self.show_search;
        if self.show_search {
            self.search_filter = String::new();
        }
    }

    /// The parts that move when part `id` is dragged: the whole selection if
    /// `id` is selected, else `id` alone.
    pub fn moving_part_ids(&self, id: u64) -> (r: Vec<u64>)
        ensures
            r@ == if self.selected_parts@.contains(id) {
                self.selected_parts@
            } else {
                seq![id]
            },
    {
        if contains_id(&self.selected_parts, id) {
            self.selected_parts.clone()
        } else {
            let v = vec![id];
            assert(v@ =~= seq![id]);
            v
        }
    }
}

/// Holds of a part that is selected.
pub open spec fn is_selected<P>(sel: Seq<u64>) -> spec_fn(ModulePart<P>) -> bool {
    |p: ModulePart<P>| sel.contains(p.id)
}

/// Part `j` of a paste of `items` into a graph whose largest id is `m`.
pub open spec fn pasted_part<P>(items: Seq<(PartKind, P)>, m: int, j: int) -> ModulePart<P> {
    ModulePart { id: (m + 1 + j) as u64, kind: items[j].0, position: items[j].1 }
}

impl<P: Copy, S, T> ModuleCanvas<P, S, T> {
    /// Ctrl+C: the selected parts, in the order of the module.
    pub fn copy_selection(&self, module: &MapFlowModule<P>) -> (r: Vec<ModulePart<P>>)
        ensures
            r@ == module.parts@.filter(is_selected::<P>(self.selected_parts@)),
    {
        let ghost pred = is_selected::<P>(self.selected_parts@);
        let ghost orig = module.parts@;
        let mut r: Vec<ModulePart<P>> = Vec::new();
        let mut i: usize = 0;
        reveal_with_fuel(Seq::filter, 1);
        assert(orig.take(0) =~= Seq::<ModulePart<P>>::empty());
        while i < module.parts.len()
            invariant
                orig == module.parts@,
                pred == is_selected::<P>(self.selected_parts@),
                i <= orig.len(),
                r@ == orig.take(i as int).filter(pred),
            decreases orig.len() - i,
        {
            let p = module.parts[i];
            proof {
                assert(orig.take(i + 1) =~= orig.take(i as int).push(p));
                orig.take(i as int).lemma_filter_push(p, pred);
            }
            if contains_id(&self.selected_parts, p.id) {
                r.push(p);
            }
            i = i + 1;
        }
        assert(orig.take(orig.len() as int) =~= orig);
        r
    }

    /// Ctrl+V: adds a part for each of `items` (kind and position), with ids
    /// following the largest one, and selects exactly the new parts.
    pub fn paste_parts(&mut self, module: &mut MapFlowModule<P>, items: &Vec<(PartKind, P)>)
        requires
            max_part_id(old(module).parts@) + items@.len() <= u64::MAX,
        ensures
            final(module).parts@ == old(module).parts@ + Seq::new(
                items@.len(),
                |j: int| pasted_part(items@, max_part_id(old(module).parts@) as int, j),
            ),
            final(module).connections@ == old(module).connections@,
            final(module).id == old(module).id,
            final(self).selected_parts@ == Seq::new(
                items@.len(),
                |j: int| (max_part_id(old(module).parts@) + 1 + j) as u64,
            ),
            *final(self) == (ModuleCanvas {
                selected_parts: final(self).selected_parts,
                ..*old(self)
            }),
        canvas_edit(old(module)@, final(module)@),
    {
        let ghost start = module.parts@;
        let ghost m = max_part_id(module.parts@) as int;
        self.selected_parts.clear();
        let mut k: usize = 0;
        assert(start + Seq::new(0, |j: int| pasted_part(items@, m, j)) =~= start);
        while k < items.len()
            invariant
                m + items@.len() <= u64::MAX,
                k <= items@.len(),
                module.parts@ == start + Seq::new(k as nat, |j: int| pasted_part(items@, m, j)),
                max_part_id(module.parts@) == m + k,
                module.connections@ == old(module).connections@,
                module.id == old(module).id,
                self.selected_parts@ == Seq::new(k as nat, |j: int| (m + 1 + j) as u64),
                *self == (ModuleCanvas { selected_parts: self.selected_parts, ..*old(self) }),
            decreases items@.len() - k,
        {
            let (kind, pos) = items[k];
            let id = add_module_node(module, kind, pos);
            self.selected_parts.push(id);
            proof {
                assert(module.parts@.drop_last() =~= start + Seq::new(
                    k as nat,
                    |j: int| pasted_part(items@, m, j),
                ));
                assert(module.parts@ =~= start + Seq::new(
                    (k + 1) as nat,
                    |j: int| pasted_part(items@, m, j),
                ));
                assert(self.selected_parts@ =~= Seq::new((k + 1) as nat, |j: int| (m + 1 + j) as u64));
            }
            k = k + 1;
        }
    }
}

} // verus!
