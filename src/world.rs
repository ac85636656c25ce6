use vstd::prelude::*;

use crate::entity::{Id, Kind};
use crate::storage::{lookup, ComponentStorage};

verus! {

/// The abstract content of a `World`: the live entities, the counter that the
/// next identifier comes from, and for each kind the components of that kind.
pub struct WorldModel<V> {
    pub live: Set<Id>,
    pub next: nat,
    pub table: Map<Kind, Map<Id, V>>,
}

impl<V> WorldModel<V> {
    /// Nothing live, nothing issued, every storage empty.
    pub open spec fn empty() -> Self {
        WorldModel { live: Set::empty(), next: 0, table: Map::new(|k: Kind| true, |k: Kind| Map::empty()) }
    }

    /// Every kind has a storage, live identifiers were issued, and only live
    /// entities hold components.
    pub open spec fn wf(self) -> bool {
        &&& self.next <= u32::MAX
        &&& forall|k: Kind| #[trigger] self.table.contains_key(k)
        &&& forall|id: Id| #[trigger] self.live.contains(id) ==> (id.0 as nat) < self.next
        &&& forall|k: Kind, id: Id| #[trigger] self.table[k].contains_key(id) ==> self.live.contains(id)
    }

    /// The component of kind `k` on `id`.
    pub open spec fn component(self, id: Id, k: Kind) -> Option<V> {
        lookup(self.table[k], id)
    }

    /// Whether `id` holds a component of kind `k`.
    pub open spec fn has(self, id: Id, k: Kind) -> bool {
        self.table[k].contains_key(id)
    }

    /// The identifier that the next spawn issues.
    pub open spec fn next_id(self) -> Id {
        Id(self.next as u32)
    }

    /// After a spawn: one more live entity, with no components.
    pub open spec fn spawned(self) -> Self {
        WorldModel { live: self.live.insert(self.next_id()), next: self.next + 1, table: self.table }
    }

    /// After a despawn of `id`: it is no longer live and holds nothing.
    pub open spec fn despawned(self, id: Id) -> Self {
        WorldModel {
            live: self.live.remove(id),
            next: self.next,
            table: Map::new(|k: Kind| self.table.contains_key(k), |k: Kind| self.table[k].remove(id)),
        }
    }

    /// After attaching `v` of kind `k` to `id`: replaced if `id` is live,
    /// nothing changed otherwise.
    pub open spec fn attached(self, id: Id, k: Kind, v: V) -> Self {
        if self.live.contains(id) {
            WorldModel { table: self.table.insert(k, self.table[k].insert(id, v)), ..self }
        } else {
            self
        }
    }

    /// After detaching the component of kind `k` from `id`.
    pub open spec fn detached(self, id: Id, k: Kind) -> Self {
        WorldModel { table: self.table.insert(k, self.table[k].remove(id)), ..self }
    }
}

/// Owner of every entity and every component.
pub struct World<V> {
    next: u32,
    alive: Vec<bool>,
    storages: Vec<ComponentStorage<V>>,
}

impl<V> View for World<V> {
    type V = WorldModel<V>;

    closed spec fn view(&self) -> WorldModel<V> {
        WorldModel {
            live: Set::new(|id: Id| (id.0 as int) < self.alive@.len() && self.alive@[id.0 as int]),
            next: self.next as nat,
            table: table_of(self.storages@),
        }
    }
}

/// The components of every kind, from one storage per kind, indexed by kind.
spec fn table_of<V>(storages: Seq<ComponentStorage<V>>) -> Map<Kind, Map<Id, V>> {
    Map::new(
        |k: Kind| true,
        |k: Kind|
            if (k.0 as int) < storages.len() {
                storages[k.0 as int]@
            } else {
                Map::empty()
            },
    )
}

impl<V> World<V> {
    /// The private fields agree with each other.
    pub closed spec fn layout(&self) -> bool {
        self.alive@.len() == self.next as nat
    }

    /// The world's invariant.
    pub open spec fn inv(&self) -> bool {
        self.layout() && self@.wf()
    }

    /// A world with no entities.
    pub fn new() -> (r: Self)
        ensures
            r.inv(),
            r@ == WorldModel::<V>::empty(),
    {
        let r = World { next: 0, alive: Vec::new(), storages: Vec::new() };
        assert(r@.live =~= Set::empty());
        assert(r@.table =~= WorldModel::<V>::empty().table);
        r
    }

    /// Whether `id` is live.
    pub fn is_alive(&self, id: Id) -> (r: bool)
        ensures
            r == self@.live.contains(id),
    {
        let i = id.0 as usize;
        i < self.alive.len() && self.alive[i]
    }

    /// Issues a fresh identifier and makes it live.
    pub fn spawn(&mut self) -> (r: Id)
        requires
            old(self).inv(),
            old(self)@.next < u32::MAX,
        ensures
            final(self).inv(),
            r == old(self)@.next_id(),
            !old(self)@.live.contains(r),
            final(self)@ == old(self)@.spawned(),
    {
        let r = Id(self.next);
        self.alive.push(true);
        self.next = self.next + 1;
        assert(self@.live =~= old(self)@.live.insert(r));
        assert(self@.table =~= old(self)@.table);
        r
    }

    /// Makes `id` no longer live and removes its components of every kind.
    /// An identifier that is not live is left as it is.
    pub fn despawn(&mut self, id: Id)
        requires
            old(self).inv(),
        ensures
            final(self).inv(),
            final(self)@ == old(self)@.despawned(id),
            !old(self)@.live.contains(id) ==> final(self)@ == old(self)@,
    {
        let i = id.0 as usize;
        if i < self.alive.len() && self.alive[i] {
            self.alive.set(i, false);
            let mut j: usize = 0;
            while j < self.storages.len()
                invariant
                    self.alive@ == old(self).alive@.update(i as int, false),
                    self.next == old(self).next,
                    i < self.alive@.len(),
                    i < old(self).alive@.len(),
                    id.0 as int == i,
                    j <= self.storages@.len(),
                    self.storages@.len() == old(self).storages@.len(),
                    forall|t: int| 0 <= t < j ==> #[trigger] self.storages@[t]@ == old(self).storages@[t]@.remove(id),
                    forall|t: int| j <= t < self.storages@.len() ==> #[trigger] self.storages@[t]@ == old(self).storages@[t]@,
                decreases self.storages@.len() - j,
            {
                let mut st = self.storages.remove(j);
                st.remove(id);
                self.storages.insert(j, st);
                j = j + 1;
            }
        }
        proof {
            let want = old(self)@.despawned(id);
            assert(self@.live =~= want.live);
            assert forall|k: Kind| #[trigger] self@.table[k] == want.table[k] by {
                assert(self@.table[k] =~= want.table[k]);
            }
            assert(self@.table =~= want.table);
            if !old(self)@.live.contains(id) {
                assert forall|k: Kind| #[trigger] old(self)@.table[k].remove(id) == old(self)@.table[k] by {
                    assert(old(self)@.table[k].remove(id) =~= old(self)@.table[k]);
                }
                assert(want.live =~= old(self)@.live);
                assert(want.table =~= old(self)@.table);
            }
        }
    }

    /// Attaches `value` of kind `k` to `id`, handing back the component it
    /// replaces. An entity that is not live gets nothing.
    pub fn attach(&mut self, id: Id, k: Kind, value: V) -> (r: Option<V>)
        requires
            old(self).inv(),
        ensures
            final(self).inv(),
            final(self)@ == old(self)@.attached(id, k, value),
            r == old(self)@.component(id, k),
    {
        if !self.is_alive(id) {
            return None;
        }
        let i = k.0 as usize;
        while self.storages.len() <= i
            invariant
                self@ == old(self)@,
                self.inv(),
            decreases i + 1 - self.storages.len(),
        {
            self.storages.push(ComponentStorage::new());
            assert(self@.table =~= old(self)@.table);
        }
        let mut st = self.storages.remove(i);
        let r = st.insert(id, value);
        self.storages.insert(i, st);
        assert(self@.table =~= old(self)@.attached(id, k, value).table);
        r
    }

    /// Detaches and returns the component of kind `k` from `id`.
    pub fn detach(&mut self, id: Id, k: Kind) -> (r: Option<V>)
        requires
            old(self).inv(),
        ensures
            final(self).inv(),
            final(self)@ == old(self)@.detached(id, k),
            r == old(self)@.component(id, k),
    {
        let i = k.0 as usize;
        if i < self.storages.len() {
            let mut st = self.storages.remove(i);
            let r = st.remove(id);
            self.storages.insert(i, st);
            assert(self@.table =~= old(self)@.detached(id, k).table);
            r
        } else {
            assert(self@.table[k] =~= old(self)@.table[k].remove(id));
            assert(self@.table =~= old(self)@.detached(id, k).table);
            None
        }
    }

    /// Whether `id` holds a component of kind `k`.
    pub fn has(&self, id: Id, k: Kind) -> (r: bool)
        ensures
            r == self@.has(id, k),
    {
        let i = k.0 as usize;
        i < self.storages.len() && self.storages[i].contains(id)
    }

    /// The component of kind `k` on `id`.
    pub fn get(&self, id: Id, k: Kind) -> (r: Option<&V>)
        ensures
            r is Some <==> self@.has(id, k),
            r is Some ==> Some(*r->Some_0) == self@.component(id, k),
    {
        let i = k.0 as usize;
        if i < self.storages.len() {
            self.storages[i].get(id)
        } else {
            None
        }
    }

    /// The component of kind `k` on `id`, for changing in place.
    pub fn get_mut(&mut self, id: Id, k: Kind) -> (r: Option<&mut V>)
        requires
            old(self).inv(),
        ensures
            final(self).inv(),
            r is Some <==> old(self)@.has(id, k),
            r is Some ==> Some(*r.unwrap()) == old(self)@.component(id, k) && final(self)@
                == old(self)@.attached(id, k, *final(r.unwrap())),
            r is None ==> final(self)@ == old(self)@,
    {
        let i = k.0 as usize;
        if i < self.storages.len() {
            proof {
                let s0 = self.storages@;
                assert forall|st: ComponentStorage<V>| #[trigger]
                    table_of(s0.update(i as int, st)) == table_of(s0).insert(k, st@) by {
                    assert(table_of(s0.update(i as int, st)) =~= table_of(s0).insert(k, st@));
                }
                assert(table_of(s0.update(i as int, s0[i as int])) == table_of(s0));
            }
            self.storages[i].get_mut(id)
        } else {
            None
        }
    }

    /// Size of the storage of kind `k`, as a bound on the identifiers it
    /// holds: a cheap estimate of how many candidates it would yield.
    pub fn span(&self, k: Kind) -> (r: usize)
        ensures
            forall|id: Id| #[trigger] self@.has(id, k) ==> (id.0 as int) < r,
    {
        let i = k.0 as usize;
        if i < self.storages.len() {
            self.storages[i].span()
        } else {
            0
        }
    }

    /// The entities holding a component of kind `k`, in increasing order.
    pub fn ids_with(&self, k: Kind) -> (r: Vec<Id>)
        ensures
            forall|id: Id| self@.has(id, k) <==> r@.contains(id),
            forall|a: int, b: int| 0 <= a < b < r@.len() ==> r@[a].0 < r@[b].0,
    {
        let i = k.0 as usize;
        if i < self.storages.len() {
            self.storages[i].ids()
        } else {
            Vec::new()
        }
    }

    /// The live entities, in increasing order.
    pub fn live_ids(&self) -> (r: Vec<Id>)
        ensures
            forall|id: Id| self@.live.contains(id) <==> r@.contains(id),
            forall|a: int, b: int| 0 <= a < b < r@.len() ==> r@[a].0 < r@[b].0,
    {
        let mut r: Vec<Id> = Vec::new();
        let mut i: usize = 0;
        while i < self.alive.len() && i <= u32::MAX as usize
            invariant
                i <= self.alive@.len(),
                forall|id: Id| (self@.live.contains(id) && (id.0 as int) < i) <==> r@.contains(id),
                forall|a: int, b: int| 0 <= a < b < r@.len() ==> r@[a].0 < r@[b].0,
                forall|a: int| 0 <= a < r@.len() ==> (r@[a].0 as int) < i,
            decreases self.alive@.len() - i,
        {
            let ghost before = r@;
            if self.alive[i] {
                r.push(Id(i as u32));
                assert(r@ == before.push(Id(i as u32)));
            }
            assert forall|id: Id|
                (self@.live.contains(id) && (id.0 as int) < i + 1) <==> r@.contains(id) by {
                if r@.contains(id) && !before.contains(id) {
                    let j = choose|j: int| 0 <= j < r@.len() && r@[j] == id;
                    assert(j == before.len());
                }
                if before.contains(id) {
                    let j = choose|j: int| 0 <= j < before.len() && before[j] == id;
                    assert(r@[j] == id);
                }
                if self@.live.contains(id) && id.0 as int == i {
                    assert(r@[r@.len() - 1] == id);
                }
            }
            i = i + 1;
        }
        r
    }

    /// The counter that the next spawn issues its identifier from.
    pub fn next_raw(&self) -> (r: u32)
        ensures
            r == self@.next,
    {
        self.next
    }

    /// The storage of kind `k`, if a component of that kind was ever attached.
    pub fn storage(&self, k: Kind) -> (r: Option<&ComponentStorage<V>>)
        ensures
            r matches Some(s) ==> s@ == self@.table[k],
            r is None ==> self@.table[k] == Map::<Id, V>::empty(),
    {
        let i = k.0 as usize;
        if i < self.storages.len() {
            Some(&self.storages[i])
        } else {
            None
        }
    }
}

} // verus!
