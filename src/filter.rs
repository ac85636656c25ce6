use vstd::prelude::*;

use crate::entity::{Id, Kind};
use crate::world::{World, WorldModel};

verus! {

/// A predicate over which component kinds an entity holds.
pub enum Filter {
    /// Holds of every entity.
    Always,
    /// The entity holds a component of this kind.
    Has(Kind),
    /// The entity holds no component of this kind.
    Not(Kind),
    /// Both hold; the right one is looked at only when the left one holds.
    And(Box<Filter>, Box<Filter>),
    /// Either holds; the right one is looked at only when the left one fails.
    Or(Box<Filter>, Box<Filter>),
}

/// Conjunction of the filters, first to last, ending in `Always`.
pub open spec fn conj(fs: Seq<Filter>) -> Filter
    decreases fs.len(),
{
    if fs.len() == 0 {
        Filter::Always
    } else {
        Filter::And(Box::new(fs[0]), Box::new(conj(fs.drop_first())))
    }
}

impl Filter {
    /// Whether the filter holds of `id` in `w`.
    pub open spec fn holds<V>(self, w: WorldModel<V>, id: Id) -> bool
        decreases self,
    {
        match self {
            Filter::Always => true,
            Filter::Has(k) => w.has(id, k),
            Filter::Not(k) => !w.has(id, k),
            Filter::And(a, b) => a.holds(w, id) && b.holds(w, id),
            Filter::Or(a, b) => a.holds(w, id) || b.holds(w, id),
        }
    }

    /// Whether the filter looks at kind `k`.
    pub open spec fn mentions(self, k: Kind) -> bool
        decreases self,
    {
        match self {
            Filter::Always => false,
            Filter::Has(j) => j == k,
            Filter::Not(j) => j == k,
            Filter::And(a, b) => a.mentions(k) || b.mentions(k),
            Filter::Or(a, b) => a.mentions(k) || b.mentions(k),
        }
    }

    /// Evaluates the filter on `id`.
    pub fn matches<V>(&self, world: &World<V>, id: Id) -> (r: bool)
        ensures
            r == self.holds(world@, id),
        decreases self,
    {
        match self {
            Filter::Always => true,
            Filter::Has(k) => world.has(id, *k),
            Filter::Not(k) => !world.has(id, *k),
            Filter::And(a, b) => a.matches(world, id) && b.matches(world, id),
            Filter::Or(a, b) => a.matches(world, id) || b.matches(world, id),
        }
    }

    /// Conjunction of the two filters.
    pub fn and(self, other: Filter) -> (r: Filter)
        ensures
            r == Filter::And(Box::new(self), Box::new(other)),
    {
        Filter::And(Box::new(self), Box::new(other))
    }

    /// Conjunction of all the filters, as a tuple of filters reads.
    pub fn all(filters: Vec<Filter>) -> (r: Filter)
        ensures
            r == conj(filters@),
    {
        let ghost all = filters@;
        let mut rest = filters;
        let mut r = Filter::Always;
        proof {
            assert(all.subrange(all.len() as int, all.len() as int) =~= Seq::<Filter>::empty());
        }
        while rest.len() > 0
            invariant
                rest@.len() <= all.len(),
                rest@ == all.subrange(0, rest@.len() as int),
                r == conj(all.subrange(rest@.len() as int, all.len() as int)),
            decreases rest@.len(),
        {
            let ghost before = rest@;
            let f = rest.pop().unwrap();
            proof {
                let k = rest@.len() as int;
                assert(f == before[k]);
                assert(before[k] == all[k]);
                let tail = all.subrange(k, all.len() as int);
                assert(tail.drop_first() =~= all.subrange(k + 1, all.len() as int));
                assert(tail[0] == f);
                assert(rest@ =~= all.subrange(0, k));
            }
            r = Filter::And(Box::new(f), Box::new(r));
        }
        proof {
            assert(all.subrange(0, all.len() as int) =~= all);
        }
        r
    }

    /// Disjunction of the two filters.
    pub fn or(self, other: Filter) -> (r: Filter)
        ensures
            r == Filter::Or(Box::new(self), Box::new(other)),
    {
        Filter::Or(Box::new(self), Box::new(other))
    }
}

/// A conjunction holds exactly when each of its filters holds.
pub proof fn lemma_conj_holds<V>(fs: Seq<Filter>, w: WorldModel<V>, id: Id)
    ensures
        conj(fs).holds(w, id) == forall|i: int| 0 <= i < fs.len() ==> #[trigger] fs[i].holds(w, id),
    decreases fs.len(),
{
    if fs.len() > 0 {
        let rest = fs.drop_first();
        lemma_conj_holds(rest, w, id);
        if conj(fs).holds(w, id) {
            assert forall|i: int| 0 <= i < fs.len() implies #[trigger] fs[i].holds(w, id) by {
                if i > 0 {
                    assert(fs[i] == rest[i - 1]);
                }
            }
        }
        if forall|i: int| 0 <= i < fs.len() ==> #[trigger] fs[i].holds(w, id) {
            assert(fs[0].holds(w, id));
            assert forall|i: int| 0 <= i < rest.len() implies #[trigger] rest[i].holds(w, id) by {
                assert(rest[i] == fs[i + 1]);
            }
        }
    }
}

/// A filter holds alike in two worlds that agree on every kind it looks at.
pub proof fn lemma_holds_on_agreeing<V>(f: Filter, w1: WorldModel<V>, w2: WorldModel<V>, id: Id)
    requires
        forall|k: Kind| f.mentions(k) ==> #[trigger] w1.table[k] == w2.table[k],
    ensures
        f.holds(w1, id) == f.holds(w2, id),
    decreases f,
{
    match f {
        Filter::And(a, b) => {
            lemma_holds_on_agreeing(*a, w1, w2, id);
            lemma_holds_on_agreeing(*b, w1, w2, id);
        },
        Filter::Or(a, b) => {
            lemma_holds_on_agreeing(*a, w1, w2, id);
            lemma_holds_on_agreeing(*b, w1, w2, id);
        },
        _ => {},
    }
}

} // verus!
