use vstd::prelude::*;

use crate::entity::Id;

verus! {

/// What a map holds for `id`, as an optional value.
pub open spec fn lookup<C>(m: Map<Id, C>, id: Id) -> Option<C> {
    if m.contains_key(id) {
        Some(m[id])
    } else {
        None
    }
}

/// The components of one kind, one slot per entity identifier: slot `i`
/// holds the component of entity `Id(i)`, if it has one.
pub struct ComponentStorage<C> {
    slots: Vec<Option<C>>,
}

impl<C> View for ComponentStorage<C> {
    type V = Map<Id, C>;

    closed spec fn view(&self) -> Map<Id, C> {
        Map::new(
            |id: Id| (id.0 as int) < self.slots@.len() && self.slots@[id.0 as int] is Some,
            |id: Id| self.slots@[id.0 as int]->Some_0,
        )
    }
}

impl<C> ComponentStorage<C> {
    /// Number of slots: every stored identifier lies below it.
    pub fn span(&self) -> (r: usize)
        ensures
            forall|id: Id| #[trigger] self@.contains_key(id) ==> (id.0 as int) < r,
    {
        self.slots.len()
    }

    /// An empty storage.
    pub fn new() -> (r: Self)
        ensures
            r@ == Map::<Id, C>::empty(),
    {
        let r = ComponentStorage { slots: Vec::new() };
        assert(r@ =~= Map::<Id, C>::empty());
        r
    }

    /// Attaches `value` to `id`, handing back the component it replaces.
    pub fn insert(&mut self, id: Id, value: C) -> (r: Option<C>)
        ensures
            final(self)@ == old(self)@.insert(id, value),
            r == lookup(old(self)@, id),
    {
        let i = id.0 as usize;
        while self.slots.len() <= i
            invariant
                self@ == old(self)@,
            decreases i + 1 - self.slots.len(),
        {
            let ghost before = self@;
            self.slots.push(None);
            assert(self@ =~= before);
        }
        let mut cell = Some(value);
        self.slots.set_and_swap(i, &mut cell);
        assert(self@ =~= old(self)@.insert(id, value));
        cell
    }

    /// Detaches and returns the component of `id`, if it has one.
    pub fn remove(&mut self, id: Id) -> (r: Option<C>)
        ensures
            final(self)@ == old(self)@.remove(id),
            r == lookup(old(self)@, id),
    {
        let i = id.0 as usize;
        if i < self.slots.len() {
            let mut cell = None;
            self.slots.set_and_swap(i, &mut cell);
            assert(self@ =~= old(self)@.remove(id));
            cell
        } else {
            assert(self@ =~= old(self)@.remove(id));
            None
        }
    }

    /// Whether `id` has a component here.
    pub fn contains(&self, id: Id) -> (r: bool)
        ensures
            r == self@.contains_key(id),
    {
        let i = id.0 as usize;
        i < self.slots.len() && self.slots[i].is_some()
    }

    /// The component of `id`, if it has one.
    pub fn get(&self, id: Id) -> (r: Option<&C>)
        ensures
            r is Some <==> self@.contains_key(id),
            r is Some ==> *r->Some_0 == self@[id],
    {
        let i = id.0 as usize;
        if i < self.slots.len() {
            self.slots[i].as_ref()
        } else {
            None
        }
    }

    /// The component of `id`, if it has one, for changing in place.
    pub fn get_mut(&mut self, id: Id) -> (r: Option<&mut C>)
        ensures
            r is Some <==> old(self)@.contains_key(id),
            r is Some ==> *r.unwrap() == old(self)@[id] && final(self)@ == old(self)@.insert(
                id,
                *final(r.unwrap()),
            ),
            r is None ==> final(self)@ == old(self)@,
    {
        let i = id.0 as usize;
        if i < self.slots.len() {
            self.slots[i].as_mut()
        } else {
            None
        }
    }

    /// Every identifier that has a component here, in increasing order.
    pub fn ids(&self) -> (r: Vec<Id>)
        ensures
            forall|id: Id| self@.contains_key(id) <==> r@.contains(id),
            forall|a: int, b: int| 0 <= a < b < r@.len() ==> r@[a].0 < r@[b].0,
    {
        let mut r: Vec<Id> = Vec::new();
        let mut i: usize = 0;
        while i < self.slots.len() && i <= u32::MAX as usize
            invariant
                i <= self.slots@.len(),
                forall|id: Id| (self@.contains_key(id) && (id.0 as int) < i) <==> r@.contains(id),
                forall|a: int, b: int| 0 <= a < b < r@.len() ==> r@[a].0 < r@[b].0,
                forall|a: int| 0 <= a < r@.len() ==> (r@[a].0 as int) < i,
            decreases self.slots@.len() - i,
        {
            let ghost before = r@;
            if self.slots[i].is_some() {
                r.push(Id(i as u32));
                assert(r@ == before.push(Id(i as u32)));
            }
            assert forall|id: Id|
                (self@.contains_key(id) && (id.0 as int) < i + 1) <==> r@.contains(id) by {
                if r@.contains(id) && !before.contains(id) {
                    let k = choose|k: int| 0 <= k < r@.len() && r@[k] == id;
                    assert(k == before.len());
                }
                if before.contains(id) {
                    let k = choose|k: int| 0 <= k < before.len() && before[k] == id;
                    assert(r@[k] == id);
                }
                if self@.contains_key(id) && id.0 as int == i {
                    assert(r@[r@.len() - 1] == id);
                }
            }
            i = i + 1;
        }
        r
    }

    /// Every identifier with its component, in increasing order of identifier.
    pub fn iter(&self) -> (r: Vec<(Id, &C)>)
        ensures
            forall|a: int| 0 <= a < r@.len() ==> self@.contains_key(#[trigger] r@[a].0) && *r@[a].1 == self@[r@[a].0],
            forall|id: Id| self@.contains_key(id) ==> exists|a: int| 0 <= a < r@.len() && #[trigger] r@[a].0 == id,
            forall|a: int, b: int| 0 <= a < b < r@.len() ==> r@[a].0.0 < r@[b].0.0,
    {
        let mut r: Vec<(Id, &C)> = Vec::new();
        let mut i: usize = 0;
        while i < self.slots.len() && i <= u32::MAX as usize
            invariant
                i <= self.slots@.len(),
                forall|a: int| 0 <= a < r@.len() ==> self@.contains_key(#[trigger] r@[a].0) && *r@[a].1 == self@[r@[a].0],
                forall|id: Id| self@.contains_key(id) && (id.0 as int) < i ==> exists|a: int| 0 <= a < r@.len() && #[trigger] r@[a].0 == id,
                forall|a: int, b: int| 0 <= a < b < r@.len() ==> r@[a].0.0 < r@[b].0.0,
                forall|a: int| 0 <= a < r@.len() ==> (r@[a].0.0 as int) < i,
            decreases self.slots@.len() - i,
        {
            let ghost before = r@;
            match self.slots[i].as_ref() {
                Some(v) => {
                    r.push((Id(i as u32), v));
                    assert(r@ == before.push((Id(i as u32), v)));
                    assert(self@.contains_key(Id(i as u32)));
                },
                None => {},
            }
            assert forall|id: Id| self@.contains_key(id) && (id.0 as int) < i + 1 implies exists|a: int| 0 <= a < r@.len() && #[trigger] r@[a].0 == id by {
                if (id.0 as int) < i {
                    let a = choose|a: int| 0 <= a < before.len() && #[trigger] before[a].0 == id;
                    assert(r@[a].0 == id);
                } else {
                    assert(r@[r@.len() - 1].0 == id);
                }
            }
            i = i + 1;
        }
        proof {
            assert forall|id: Id| self@.contains_key(id) implies exists|a: int| 0 <= a < r@.len() && #[trigger] r@[a].0 == id by {
                assert((id.0 as int) < i);
            }
        }
        r
    }
}

} // verus!
