use crate::error::{is_missing_id, missing_id, FFError};
use crate::float::Float;
use crate::scalar::Scalar;
use std::collections::HashMap;
use vstd::prelude::*;

verus! {

broadcast use vstd::std_specs::hash::group_hash_axioms;

/// `m` after `g` is added to the gradient of node `id`, where that node needs
/// a gradient; `m` itself where it does not.
pub open spec fn accumulate<V: Scalar>(m: Map<usize, Float<V>>, id: usize, g: V) -> Map<
    usize,
    Float<V>,
> {
    if m[id].is_need_grad {
        m.insert(
            id,
            Float { value: m[id].value, grad: V::spec_add(m[id].grad, g), is_need_grad: true },
        )
    } else {
        m
    }
}

/// The value store: one cell per node id, shared by every graph whose ids
/// come from the same allocator.
pub struct Store<V> {
    cells: HashMap<usize, Float<V>>,
}

impl<V> View for Store<V> {
    type V = Map<usize, Float<V>>;

    closed spec fn view(&self) -> Map<usize, Float<V>> {
        self.cells@
    }
}

impl<V: Copy> Store<V> {
    /// An empty store.
    pub fn new() -> (s: Store<V>)
        ensures
            s@ == Map::<usize, Float<V>>::empty(),
    {
        Store { cells: HashMap::new() }
    }

    /// The cell of node `id`, if the store holds one.
    pub fn get(&self, id: usize) -> (r: Option<Float<V>>)
        ensures
            r == (if self@.contains_key(id) {
                Some(self@[id])
            } else {
                None
            }),
    {
        match self.cells.get(&id) {
            Some(f) => Some(*f),
            None => None,
        }
    }

    /// Puts `f` as the cell of node `id`, in place of any earlier one.
    pub fn insert(&mut self, id: usize, f: Float<V>)
        ensures
            final(self)@ == old(self)@.insert(id, f),
    {
        self.cells.insert(id, f);
    }
}

impl<V: Scalar> Store<V> {
    /// The cell of node `id`, or the error that names the missing id.
    pub fn fetch(&self, id: usize) -> (r: Result<Float<V>, FFError>)
        ensures
            match r {
                Ok(f) => self@.contains_key(id) && f == self@[id],
                Err(e) => !self@.contains_key(id) && is_missing_id(e, id),
            },
    {
        match self.cells.get(&id) {
            Some(f) => Ok(*f),
            None => Err(missing_id(id)),
        }
    }

    /// Adds `g` to the gradient of node `id`, where that node needs a gradient.
    pub fn accumulate_grad(&mut self, id: usize, g: V)
        requires
            old(self)@.contains_key(id),
        ensures
            final(self)@ == accumulate(old(self)@, id, g),
    {
        let f = *self.cells.get(&id).unwrap();
        if f.is_need_grad {
            let grad = f.grad.add(g);
            self.cells.insert(id, Float { value: f.value, grad, is_need_grad: true });
        }
    }

    /// Sets the gradient of node `id` to `g`, keeping its value and flag.
    pub fn set_grad(&mut self, id: usize, g: V) -> (r: Result<(), FFError>)
        ensures
            match r {
                Ok(()) => old(self)@.contains_key(id) && final(self)@ == old(self)@.insert(
                    id,
                    Float { value: old(self)@[id].value, grad: g, is_need_grad: old(self)@[id].is_need_grad },
                ),
                Err(e) => !old(self)@.contains_key(id) && final(self)@ == old(self)@ && is_missing_id(e, id),
            },
    {
        let f = self.fetch(id)?;
        self.cells.insert(id, Float { value: f.value, grad: g, is_need_grad: f.is_need_grad });
        Ok(())
    }
}

} // verus!
