use vstd::prelude::*;

use crate::entity::{Id, Kind};
use crate::query::Query;
use crate::world::WorldModel;

verus! {

/// One change to the components of a world.
pub enum Edit<V> {
    Attach(Id, Kind, V),
    Detach(Id, Kind),
}

/// The world after one edit, as `World::attach` and `World::detach` leave it.
pub open spec fn apply_edit<V>(w: WorldModel<V>, e: Edit<V>) -> WorldModel<V> {
    match e {
        Edit::Attach(id, k, v) => w.attached(id, k, v),
        Edit::Detach(id, k) => w.detached(id, k),
    }
}

/// The world after the edits, first to last.
pub open spec fn apply_edits<V>(w: WorldModel<V>, edits: Seq<Edit<V>>) -> WorldModel<V>
    decreases edits.len(),
{
    if edits.len() == 0 {
        w
    } else {
        apply_edit(apply_edits(w, edits.drop_last()), edits.last())
    }
}

/// The value of the last edit of kind `k` on `id`: what it attached, or
/// nothing if it detached; `init` if there is no such edit.
pub open spec fn last_write<V>(init: Option<V>, edits: Seq<Edit<V>>, id: Id, k: Kind) -> Option<V>
    decreases edits.len(),
{
    if edits.len() == 0 {
        init
    } else {
        match edits.last() {
            Edit::Attach(i, j, v) => if i == id && j == k {
                Some(v)
            } else {
                last_write(init, edits.drop_last(), id, k)
            },
            Edit::Detach(i, j) => if i == id && j == k {
                None
            } else {
                last_write(init, edits.drop_last(), id, k)
            },
        }
    }
}

/// Attaching and detaching never change which entities are live.
pub proof fn lemma_edits_keep_live<V>(w: WorldModel<V>, edits: Seq<Edit<V>>)
    ensures
        apply_edits(w, edits).live == w.live,
        apply_edits(w, edits).next == w.next,
    decreases edits.len(),
{
    if edits.len() > 0 {
        lemma_edits_keep_live(w, edits.drop_last());
    }
}

/// Last write wins: after any sequence of attaches and detaches, the
/// component of kind `k` on a live `id` is the one the last edit of that kind
/// on that entity left, and an entity that is not live holds nothing.
pub proof fn lemma_last_write_wins<V>(w: WorldModel<V>, edits: Seq<Edit<V>>, id: Id, k: Kind)
    requires
        w.wf(),
    ensures
        apply_edits(w, edits).component(id, k) == if w.live.contains(id) {
            last_write(w.component(id, k), edits, id, k)
        } else {
            None
        },
    decreases edits.len(),
{
    if edits.len() == 0 {
        if !w.live.contains(id) {
            assert(!w.table[k].contains_key(id));
        }
    } else {
        let rest = edits.drop_last();
        lemma_last_write_wins(w, rest, id, k);
        lemma_edits_keep_live(w, rest);
    }
}

/// Attaching a value makes it the component; detaching it afterwards leaves
/// none.
pub proof fn lemma_attach_detach_round_trip<V>(w: WorldModel<V>, id: Id, k: Kind, v: V)
    requires
        w.wf(),
        w.live.contains(id),
    ensures
        w.attached(id, k, v).component(id, k) == Some(v),
        w.attached(id, k, v).detached(id, k).component(id, k) == None::<V>,
{
}

/// A despawned entity holds nothing of any kind, is no longer live, and lies
/// below the counter, so no later spawn issues it again.
pub proof fn lemma_despawn_clears<V>(w: WorldModel<V>, id: Id)
    requires
        w.wf(),
        w.live.contains(id),
    ensures
        forall|k: Kind| #[trigger] w.despawned(id).component(id, k) == None::<V>,
        !w.despawned(id).live.contains(id),
        (id.0 as nat) < w.despawned(id).next,
        w.despawned(id).next_id() != id,
{
}

/// Despawning twice is despawning once.
pub proof fn lemma_despawn_idempotent<V>(w: WorldModel<V>, id: Id)
    requires
        w.wf(),
    ensures
        w.despawned(id).despawned(id) == w.despawned(id),
{
    let once = w.despawned(id);
    let twice = once.despawned(id);
    assert forall|k: Kind| #[trigger] twice.table[k] == once.table[k] by {
        assert(twice.table[k] =~= once.table[k]);
    }
    assert(twice.table =~= once.table);
    assert(twice.live =~= once.live);
}

impl Query {
    /// Whether the query reads, writes or filters on kind `k`.
    pub open spec fn touches(&self, k: Kind) -> bool {
        (exists|i: int| 0 <= i < self.accesses().len() && #[trigger] self.accesses()[i].kind_of() == k)
            || self.filter_of().mentions(k)
    }
}

/// A query selects alike in two worlds with the same live entities that agree
/// on every kind it touches.
pub proof fn lemma_selects_on_agreeing<V>(q: Query, w1: WorldModel<V>, w2: WorldModel<V>, x: Id)
    requires
        w1.live == w2.live,
        forall|k: Kind| q.touches(k) ==> #[trigger] w1.table[k] == w2.table[k],
    ensures
        q.selects(w1, x) == q.selects(w2, x),
{
    crate::filter::lemma_holds_on_agreeing(q.filter_of(), w1, w2, x);
    assert forall|i: int| 0 <= i < q.accesses().len() implies w1.table[#[trigger] q.accesses()[i].kind_of()]
        == w2.table[q.accesses()[i].kind_of()] by {
        assert(q.touches(q.accesses()[i].kind_of()));
    }
}

/// Two queries over disjoint kinds do not disturb each other: attaching or
/// detaching (or writing through `World::get_mut`, which the contract states
/// as an attach) a component of a kind that the first touches leaves what the
/// second selects unchanged.
pub proof fn lemma_disjoint_queries<V>(
    a: Query,
    b: Query,
    w: WorldModel<V>,
    id: Id,
    k: Kind,
    v: V,
    x: Id,
)
    requires
        forall|j: Kind| !(#[trigger] a.touches(j) && b.touches(j)),
        a.touches(k),
    ensures
        b.selects(w.attached(id, k, v), x) == b.selects(w, x),
        b.selects(w.detached(id, k), x) == b.selects(w, x),
{
    assert(!b.touches(k));
    lemma_selects_on_agreeing(b, w.attached(id, k, v), w, x);
    lemma_selects_on_agreeing(b, w.detached(id, k), w, x);
}

} // verus!
