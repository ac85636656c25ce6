use vstd::prelude::*;

use crate::entity::{Id, Kind};
use crate::filter::Filter;
use crate::world::{World, WorldModel};

verus! {

/// How a query uses the components of one kind.
#[derive(Debug, Clone, Copy, PartialEq, Eq, Structural)]
pub enum Access {
    Read(Kind),
    Write(Kind),
}

impl Access {
    /// The kind that is accessed.
    pub open spec fn kind_of(self) -> Kind {
        match self {
            Access::Read(k) => k,
            Access::Write(k) => k,
        }
    }

    /// Whether the access may change the components.
    pub open spec fn writes(self) -> bool {
        self is Write
    }

    /// The kind that is accessed.
    pub fn kind(&self) -> (r: Kind)
        ensures
            r == self.kind_of(),
    {
        match self {
            Access::Read(k) => *k,
            Access::Write(k) => *k,
        }
    }

    /// Whether the access may change the components.
    pub fn is_write(&self) -> (r: bool)
        ensures
            r == self.writes(),
    {
        match self {
            Access::Read(_) => false,
            Access::Write(_) => true,
        }
    }
}

/// Two accesses alias: same kind, and at least one of them writes.
pub open spec fn clash(a: Access, b: Access) -> bool {
    a.kind_of() == b.kind_of() && (a.writes() || b.writes())
}

/// Some two positions of the list alias.
pub open spec fn conflicting(s: Seq<Access>) -> bool {
    exists|i: int, j: int| 0 <= i < j < s.len() && clash(s[i], s[j])
}

/// Why a query could not be built.
#[derive(Debug, Clone, Copy, PartialEq, Eq, Structural)]
pub enum QueryError {
    /// Two accesses to this kind alias.
    Conflict(Kind),
}

/// A filter together with a list of accesses, no two of which alias.
pub struct Query {
    access: Vec<Access>,
    filter: Filter,
}

impl Query {
    /// The accesses, in order.
    pub closed spec fn accesses(&self) -> Seq<Access> {
        self.access@
    }

    /// The explicit filter.
    pub closed spec fn filter_of(&self) -> Filter {
        self.filter
    }

    /// Whether the query yields `id` in `w`: it is live, holds every
    /// accessed kind, and the filter holds of it.
    pub open spec fn selects<V>(&self, w: WorldModel<V>, id: Id) -> bool {
        &&& w.live.contains(id)
        &&& forall|i: int| 0 <= i < self.accesses().len() ==> w.has(id, #[trigger] self.accesses()[i].kind_of())
        &&& self.filter_of().holds(w, id)
    }

    /// Builds a query, refusing a list of accesses in which two alias.
    pub fn new(access: Vec<Access>, filter: Filter) -> (r: Result<Query, QueryError>)
        ensures
            r is Ok <==> !conflicting(access@),
            r is Ok ==> r->Ok_0.accesses() == access@ && r->Ok_0.filter_of() == filter,
            r is Err ==> exists|i: int, j: int|
                0 <= i < j < access@.len() && clash(access@[i], access@[j]) && r->Err_0
                    == QueryError::Conflict(access@[i].kind_of()),
    {
        let n = access.len();
        let mut i: usize = 0;
        while i < n
            invariant
                n == access@.len(),
                i <= n,
                forall|a: int, b: int| 0 <= a < i && a < b < n ==> !clash(access@[a], access@[b]),
            decreases n - i,
        {
            let mut j: usize = i + 1;
            while j < n
                invariant
                    n == access@.len(),
                    i < n,
                    i < j <= n,
                    forall|a: int, b: int| 0 <= a < i && a < b < n ==> !clash(access@[a], access@[b]),
                    forall|b: int| i < b < j ==> !clash(access@[i as int], access@[b]),
                decreases n - j,
            {
                let ki = access[i].kind();
                if ki == access[j].kind() && (access[i].is_write() || access[j].is_write()) {
                    assert(clash(access@[i as int], access@[j as int]));
                    return Err(QueryError::Conflict(ki));
                }
                j = j + 1;
            }
            i = i + 1;
        }
        Ok(Query { access, filter })
    }

    /// Whether the query yields `id` in `world`.
    pub fn admits<V>(&self, world: &World<V>, id: Id) -> (r: bool)
        ensures
            r == self.selects(world@, id),
    {
        if !world.is_alive(id) {
            return false;
        }
        let mut i: usize = 0;
        while i < self.access.len()
            invariant
                i <= self.access@.len(),
                forall|a: int| 0 <= a < i ==> world@.has(id, #[trigger] self.accesses()[a].kind_of()),
            decreases self.access@.len() - i,
        {
            if !world.has(id, self.access[i].kind()) {
                assert(!world@.has(id, self.accesses()[i as int].kind_of()));
                return false;
            }
            i = i + 1;
        }
        self.filter.matches(world, id)
    }

    /// The kind whose storage is walked to find candidates: among the
    /// accessed kinds, one whose storage is the smallest.
    fn driver<V>(&self, world: &World<V>) -> (r: Kind)
        requires
            self.accesses().len() > 0,
        ensures
            exists|i: int| 0 <= i < self.accesses().len() && self.accesses()[i].kind_of() == r,
    {
        let mut best = self.access[0].kind();
        let mut best_span = world.span(best);
        let mut i: usize = 1;
        while i < self.access.len()
            invariant
                1 <= i <= self.access@.len(),
                exists|a: int| 0 <= a < self.accesses().len() && self.accesses()[a].kind_of() == best,
            decreases self.access@.len() - i,
        {
            let k = self.access[i].kind();
            let sp = world.span(k);
            if sp < best_span {
                best = k;
                best_span = sp;
                assert(self.accesses()[i as int].kind_of() == best);
            }
            i = i + 1;
        }
        best
    }

    /// Every entity that the query yields, in increasing order.
    pub fn run<V>(&self, world: &World<V>) -> (r: Vec<Id>)
        requires
            world.inv(),
        ensures
            forall|id: Id| r@.contains(id) <==> self.selects(world@, id),
            forall|a: int, b: int| 0 <= a < b < r@.len() ==> r@[a].0 < r@[b].0,
    {
        let candidates = if self.access.len() == 0 {
            world.live_ids()
        } else {
            let k = self.driver(world);
            let c = world.ids_with(k);
            assert forall|id: Id| self.selects(world@, id) implies c@.contains(id) by {
                let i = choose|i: int| 0 <= i < self.accesses().len() && self.accesses()[i].kind_of() == k;
                assert(world@.has(id, self.accesses()[i].kind_of()));
            }
            c
        };
        let mut r: Vec<Id> = Vec::new();
        let mut i: usize = 0;
        while i < candidates.len()
            invariant
                i <= candidates@.len(),
                forall|id: Id| self.selects(world@, id) ==> candidates@.contains(id),
                forall|a: int, b: int| 0 <= a < b < candidates@.len() ==> candidates@[a].0 < candidates@[b].0,
                forall|id: Id| #[trigger] r@.contains(id) <==> (self.selects(world@, id) && candidates@.subrange(0, i as int).contains(id)),
                forall|a: int, b: int| 0 <= a < b < r@.len() ==> r@[a].0 < r@[b].0,
                forall|a: int, b: int| 0 <= a < r@.len() && i <= b < candidates@.len() ==> r@[a].0 < candidates@[b].0,
            decreases candidates@.len() - i,
        {
            let id = candidates[i];
            let ghost before = r@;
            let keep = self.admits(world, id);
            if keep {
                r.push(id);
                assert(r@ == before.push(id));
            }
            let ghost post = candidates@.subrange(0, i + 1);
            proof {
                let pre = candidates@.subrange(0, i as int);
                assert(post == pre.push(id));
                assert forall|x: Id| #[trigger] r@.contains(x) <==> (self.selects(world@, x) && post.contains(x)) by {
                    if r@.contains(x) && !before.contains(x) {
                        let j = choose|j: int| 0 <= j < r@.len() && r@[j] == x;
                        assert(j == before.len());
                        assert(post[i as int] == x);
                    }
                    if before.contains(x) {
                        let j = choose|j: int| 0 <= j < before.len() && before[j] == x;
                        assert(r@[j] == x);
                    }
                    if post.contains(x) && !pre.contains(x) {
                        let j = choose|j: int| 0 <= j < post.len() && post[j] == x;
                        if j < i {
                            assert(pre[j] == x);
                        }
                        assert(x == id);
                        if self.selects(world@, x) {
                            assert(r@[r@.len() - 1] == x);
                        }
                    }
                    if pre.contains(x) {
                        let j = choose|j: int| 0 <= j < pre.len() && pre[j] == x;
                        assert(post[j] == x);
                    }
                }
            }
            i = i + 1;
            assert(candidates@.subrange(0, i as int) == post);
        }
        assert(candidates@.subrange(0, candidates@.len() as int) == candidates@);
        r
    }
}

impl Query {
    /// The first entity from `start` on that the query yields, looked up in
    /// the world as it is now: calling again from one past the result walks
    /// the entities in increasing order, and sees what changed in between.
    pub fn next_from<V>(&self, world: &World<V>, start: u32) -> (r: Option<Id>)
        requires
            world.inv(),
        ensures
            r matches Some(id) ==> self.selects(world@, id) && start <= id.0,
            r matches Some(id) ==> forall|x: Id| start <= x.0 < id.0 ==> !#[trigger] self.selects(world@, x),
            r is None ==> forall|x: Id| start <= x.0 ==> !#[trigger] self.selects(world@, x),
    {
        let end = world.next_raw();
        let mut j: u32 = start;
        while j < end
            invariant
                world.inv(),
                end == world@.next,
                start <= j,
                forall|x: Id| start <= x.0 < j ==> !#[trigger] self.selects(world@, x),
            decreases end - j,
        {
            if self.admits(world, Id(j)) {
                return Some(Id(j));
            }
            j = j + 1;
        }
        None
    }
}

impl Query {
    /// The accessed components of `id`, one per access and in the same order,
    /// when the query yields `id`.
    pub fn fetch<'a, V>(&self, world: &'a World<V>, id: Id) -> (r: Option<Vec<&'a V>>)
        requires
            world.inv(),
        ensures
            r is Some <==> self.selects(world@, id),
            r matches Some(v) ==> v@.len() == self.accesses().len() && forall|i: int|
                0 <= i < v@.len() ==> Some(*#[trigger] v@[i]) == world@.component(id, self.accesses()[i].kind_of()),
    {
        if !self.admits(world, id) {
            return None;
        }
        let mut r: Vec<&'a V> = Vec::new();
        let mut i: usize = 0;
        while i < self.access.len()
            invariant
                i <= self.access@.len(),
                self.selects(world@, id),
                r@.len() == i,
                forall|j: int| 0 <= j < i ==> Some(*#[trigger] r@[j]) == world@.component(id, self.accesses()[j].kind_of()),
            decreases self.access@.len() - i,
        {
            let k = self.access[i].kind();
            assert(world@.has(id, self.accesses()[i as int].kind_of()));
            match world.get(id, k) {
                Some(v) => r.push(v),
                None => {},
            }
            i = i + 1;
        }
        Some(r)
    }
}

impl<V> World<V> {
    /// Builds the query and runs it: the entities it yields in increasing
    /// order, or why it could not be built.
    pub fn query(&self, access: Vec<Access>, filter: Filter) -> (r: Result<Vec<Id>, QueryError>)
        requires
            self.inv(),
        ensures
            r is Err <==> conflicting(access@),
            r is Ok ==> (forall|id: Id| r->Ok_0@.contains(id) <==> (
                self@.live.contains(id)
                && (forall|i: int| 0 <= i < access@.len() ==> self@.has(id, #[trigger] access@[i].kind_of()))
                && filter.holds(self@, id))),
            r is Ok ==> forall|a: int, b: int| 0 <= a < b < r->Ok_0@.len() ==> r->Ok_0@[a].0 < r->Ok_0@[b].0,
            r is Err ==> exists|i: int, j: int|
                0 <= i < j < access@.len() && clash(access@[i], access@[j]) && r->Err_0
                    == QueryError::Conflict(access@[i].kind_of()),
    {
        match Query::new(access, filter) {
            Ok(q) => Ok(q.run(self)),
            Err(e) => Err(e),
        }
    }
}

} // verus!
