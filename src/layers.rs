//! Allocation of render layers: each canvas draws on a layer of its own, so that only its
//! camera sees what it draws. Layer zero is the shared default and is never handed out.
use vstd::prelude::*;

verus! {

/// Number of layers; allocation fails past it.
pub const MAX_LAYER: usize = 4096;

pub struct RenderLayersManager {
    used: Vec<bool>,
    next_free: usize,
}

/// `l` is the smallest layer, other than zero, that is free.
pub open spec fn is_lowest_free(used: Seq<bool>, l: int) -> bool {
    &&& 1 <= l < MAX_LAYER
    &&& !used[l]
    &&& forall|k: int| 1 <= k < l ==> #[trigger] used[k]
}

/// Whether some layer other than zero is free.
pub open spec fn has_free(used: Seq<bool>) -> bool {
    exists|l: int| 1 <= l < MAX_LAYER && !#[trigger] used[l]
}

impl RenderLayersManager {
    /// Which layers are taken.
    pub closed spec fn used(&self) -> Seq<bool> {
        self.used@
    }

    pub closed spec fn wf(&self) -> bool {
        &&& self.used@.len() == MAX_LAYER
        &&& 1 <= self.next_free <= MAX_LAYER
        &&& forall|k: int| 1 <= k < self.next_free ==> #[trigger] self.used@[k]
        &&& self.next_free < MAX_LAYER ==> !self.used@[self.next_free as int]
    }

    pub fn new() -> (r: RenderLayersManager)
        ensures
            r.wf(),
            r.used().len() == MAX_LAYER,
            forall|k: int| 0 <= k < MAX_LAYER ==> !#[trigger] r.used()[k],
    {
        let mut used: Vec<bool> = Vec::new();
        let mut i: usize = 0;
        while i < MAX_LAYER
            invariant
                i <= MAX_LAYER,
                used@.len() == i,
                forall|k: int| 0 <= k < i ==> !#[trigger] used@[k],
            decreases MAX_LAYER - i,
        {
            used.push(false);
            i = i + 1;
        }
        RenderLayersManager { used, next_free: 1 }
    }

    /// Takes the lowest free layer; `None` when every layer is taken.
    pub fn allocate(&mut self) -> (r: Option<usize>)
        requires
            old(self).wf(),
        ensures
            final(self).wf(),
            has_free(old(self).used()) ==> (r matches Some(l) && is_lowest_free(
                old(self).used(),
                l as int,
            ) && final(self).used() == old(self).used().update(l as int, true)),
            !has_free(old(self).used()) ==> r is None && final(self).used() == old(self).used(),
    {
        let layer = self.next_free;
        if layer >= MAX_LAYER {
            assert(!has_free(self.used@));
            return None;
        }
        self.used.set(layer, true);
        let mut next = layer + 1;
        while next < MAX_LAYER && self.used[next]
            invariant
                layer < next <= MAX_LAYER,
                self.used@.len() == MAX_LAYER,
                forall|k: int| 1 <= k < next ==> #[trigger] self.used@[k],
            decreases MAX_LAYER - next,
        {
            next = next + 1;
        }
        self.next_free = next;
        assert(is_lowest_free(old(self).used(), layer as int));
        Some(layer)
    }

    /// Releases layers; layer zero and layers past the last one are left alone.
    pub fn free(&mut self, layers: &Vec<usize>)
        requires
            old(self).wf(),
        ensures
            final(self).wf(),
            final(self).used().len() == old(self).used().len(),
            forall|k: int|
                0 <= k < MAX_LAYER ==> #[trigger] final(self).used()[k] == (old(self).used()[k]
                    && !(k != 0 && layers@.contains(k as usize))),
    {
        let mut i: usize = 0;
        while i < layers.len()
            invariant
                self.wf(),
                i <= layers@.len(),
                forall|k: int|
                    0 <= k < MAX_LAYER ==> #[trigger] self.used@[k] == (old(self).used@[k] && !(k
                        != 0 && layers@.take(i as int).contains(k as usize))),
            decreases layers@.len() - i,
        {
            let l = layers[i];
            let ghost prev = self.used@;
            if l != 0 && l < MAX_LAYER {
                self.used.set(l, false);
                if l < self.next_free {
                    self.next_free = l;
                }
            }
            proof {
                let p = layers@.take(i as int);
                let t = layers@.take(i + 1);
                assert(t =~= p.push(l));
                assert forall|k: int| 0 <= k < MAX_LAYER implies #[trigger] self.used@[k] == (
                old(self).used@[k] && !(k != 0 && t.contains(k as usize))) by {
                    assert(prev[k] == (old(self).used@[k] && !(k != 0 && p.contains(k as usize))));
                    if k as usize == l {
                        assert(t[i as int] == l);
                        assert(t.contains(k as usize));
                    } else {
                        assert(self.used@[k] == prev[k]);
                        if t.contains(k as usize) {
                            let j = choose|j: int| 0 <= j < t.len() && t[j] == k as usize;
                            assert(j < i);
                            assert(p[j] == k as usize);
                        }
                        if p.contains(k as usize) {
                            let j = choose|j: int| 0 <= j < p.len() && p[j] == k as usize;
                            assert(t[j] == k as usize);
                        }
                    }
                }
            }
            i = i + 1;
        }
        proof {
            assert(layers@.take(i as int) =~= layers@);
        }
    }

    pub fn is_used(&self, layer: usize) -> (r: bool)
        requires
            self.wf(),
        ensures
            r == (layer < MAX_LAYER && self.used()[layer as int]),
    {
        layer < MAX_LAYER && self.used[layer]
    }
}

} // verus!
