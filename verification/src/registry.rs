//! The subscription registry: maps monotonically growing ids to callback
//! handles and hands dispatchers a snapshot of the live ids.

use vstd::prelude::*;

verus! {

/// One live subscription: the id it was issued and the opaque callback
/// handle it delivers to.
pub struct Subscription<C> {
    pub id: u32,
    pub callback: C,
}

/// The registry. `next_id` is the last id ever issued (zero before the
/// first); live subscriptions are kept in issue order.
pub struct Registry<C> {
    pub next_id: u32,
    pub subs: Vec<Subscription<C>>,
}

/// The ids of the live subscriptions, in issue order.
pub open spec fn spec_ids<C>(subs: Seq<Subscription<C>>) -> Seq<u32> {
    subs.map_values(|s: Subscription<C>| s.id)
}

/// What removing an id leaves behind: the first subscription carrying it is
/// taken out, everything else stays in order.
pub open spec fn spec_remove_id<C>(subs: Seq<Subscription<C>>, id: u32) -> Seq<Subscription<C>>
    decreases subs.len(),
{
    if subs.len() == 0 {
        subs
    } else if subs[0].id == id {
        subs.drop_first()
    } else {
        seq![subs[0]] + spec_remove_id(subs.drop_first(), id)
    }
}

impl<C> Registry<C> {
    /// The structural invariant: ids were issued starting at one, are at
    /// most the counter, and sit in strictly increasing order — so an id
    /// never names two subscriptions and is never issued twice.
    pub open spec fn wf(self) -> bool {
        &&& forall|i: int|
            0 <= i < self.subs@.len() ==> 1 <= (#[trigger] self.subs@[i].id) <= self.next_id
        &&& forall|i: int, j: int|
            0 <= i < j < self.subs@.len() ==> self.subs@[i].id < self.subs@[j].id
    }

    /// An empty registry; the first subscription will get id one.
    pub fn new() -> (r: Registry<C>)
        ensures
            r.next_id == 0,
            r.subs@.len() == 0,
            r.wf(),
    {
        Registry { next_id: 0, subs: Vec::new() }
    }

    /// Registers a callback under a fresh id: one more than the last id ever
    /// issued, and so strictly greater than every id issued before it.
    pub fn register(&mut self, callback: C) -> (id: u32)
        requires
            old(self).wf(),
            old(self).next_id < u32::MAX,
        ensures
            final(self).wf(),
            id == old(self).next_id + 1,
            final(self).next_id == id,
            final(self).subs@ == old(self).subs@.push(Subscription { id, callback }),
            final(self).subs@.len() == old(self).subs@.len() + 1,
            final(self).subs@.last().id == id,
            forall|i: int|
                0 <= i < old(self).subs@.len() ==> final(self).subs@[i] == old(self).subs@[i],
            forall|i: int| 0 <= i < old(self).subs@.len() ==> old(self).subs@[i].id < id,
    {
        let id = self.next_id + 1;
        self.next_id = id;
        self.subs.push(Subscription { id, callback });
        id
    }

    /// Removes the subscription carrying `id`. Returns false when no live
    /// subscription carries it (unknown, or already removed).
    pub fn unregister(&mut self, id: u32) -> (removed: bool)
        requires
            old(self).wf(),
        ensures
            final(self).wf(),
            final(self).next_id == old(self).next_id,
            removed <==> exists|k: int|
                0 <= k < old(self).subs@.len() && (#[trigger] old(self).subs@[k].id) == id,
            final(self).subs@ == spec_remove_id(old(self).subs@, id),
    {
        let mut i: usize = 0;
        loop
            invariant
                old(self).wf(),
                self.next_id == old(self).next_id,
                self.subs@ == old(self).subs@,
                i <= self.subs@.len(),
                forall|k: int| 0 <= k < i ==> (#[trigger] old(self).subs@[k].id) != id,
            decreases self.subs@.len() - i,
        {
            if i >= self.subs.len() {
                proof {
                    lemma_remove_id_no_match(self.subs@, id);
                }
                return false;
            }
            if self.subs[i].id == id {
                proof {
                    lemma_remove_id_at(self.subs@, id, i as int);
                    lemma_remove_keeps_sorted(self.subs@, self.next_id, i as int);
                }
                self.subs.remove(i);
                return true;
            }
            i = i + 1;
        }
    }

    /// A snapshot of the live ids, in issue order: what a dispatcher walks
    /// outside the registry's critical section.
    pub fn ids(&self) -> (r: Vec<u32>)
        ensures
            r@ == spec_ids(self.subs@),
    {
        let mut out: Vec<u32> = Vec::new();
        let mut i: usize = 0;
        while i < self.subs.len()
            invariant
                i <= self.subs@.len(),
                out@ == spec_ids(self.subs@.take(i as int)),
            decreases self.subs@.len() - i,
        {
            out.push(self.subs[i].id);
            proof {
                assert(self.subs@.take(i + 1 as int) =~= self.subs@.take(i as int).push(
                    self.subs@[i as int],
                ));
                assert(out@ =~= spec_ids(self.subs@.take(i + 1 as int)));
            }
            i = i + 1;
        }
        proof {
            assert(self.subs@.take(self.subs@.len() as int) =~= self.subs@);
        }
        out
    }

    /// How many subscriptions are live.
    pub fn len(&self) -> (n: usize)
        ensures
            n == self.subs@.len(),
    {
        self.subs.len()
    }

    /// Borrows the callback registered under `id`, or nothing when no live
    /// subscription carries it.
    pub fn get(&self, id: u32) -> (r: Option<&C>)
        ensures
            match r {
                Some(c) => exists|k: int|
                    0 <= k < self.subs@.len() && (#[trigger] self.subs@[k].id) == id
                        && self.subs@[k].callback == *c,
                None => forall|k: int|
                    0 <= k < self.subs@.len() ==> (#[trigger] self.subs@[k].id) != id,
            },
    {
        let mut i: usize = 0;
        while i < self.subs.len()
            invariant
                i <= self.subs@.len(),
                forall|k: int| 0 <= k < i ==> (#[trigger] self.subs@[k].id) != id,
            decreases self.subs@.len() - i,
        {
            if self.subs[i].id == id {
                return Some(&self.subs[i].callback);
            }
            i = i + 1;
        }
        None
    }

    /// Drops every live subscription, keeping the id counter: stop clears
    /// the registry, and ids are still never reused afterwards.
    pub fn clear(&mut self)
        ensures
            final(self).wf(),
            final(self).next_id == old(self).next_id,
            final(self).subs@.len() == 0,
    {
        self.subs.clear();
    }
}

/// Removing one element keeps ids within bounds and strictly increasing.
proof fn lemma_remove_keeps_sorted<C>(subs: Seq<Subscription<C>>, next_id: u32, i: int)
    requires
        0 <= i < subs.len(),
        forall|k: int| 0 <= k < subs.len() ==> 1 <= (#[trigger] subs[k].id) <= next_id,
        forall|a: int, b: int| 0 <= a < b < subs.len() ==> subs[a].id < subs[b].id,
    ensures
        forall|k: int|
            0 <= k < subs.remove(i).len() ==> 1 <= (#[trigger] subs.remove(i)[k].id) <= next_id,
        forall|a: int, b: int|
            0 <= a < b < subs.remove(i).len() ==> subs.remove(i)[a].id < subs.remove(i)[b].id,
{
    let r = subs.remove(i);
    assert forall|k: int| 0 <= k < r.len() implies 1 <= (#[trigger] r[k].id) <= next_id by {
        if k < i {
            assert(r[k] == subs[k]);
        } else {
            assert(r[k] == subs[k + 1]);
        }
    }
    assert forall|a: int, b: int| 0 <= a < b < r.len() implies r[a].id < r[b].id by {
        let oa = if a < i {
            a
        } else {
            a + 1
        };
        let ob = if b < i {
            b
        } else {
            b + 1
        };
        assert(r[a] == subs[oa] && r[b] == subs[ob]);
        assert(subs[oa].id < subs[ob].id);
    }
}

/// When no subscription carries `id`, removing it changes nothing.
proof fn lemma_remove_id_no_match<C>(subs: Seq<Subscription<C>>, id: u32)
    requires
        forall|k: int| 0 <= k < subs.len() ==> (#[trigger] subs[k].id) != id,
    ensures
        spec_remove_id(subs, id) == subs,
    decreases subs.len(),
{
    if subs.len() > 0 {
        lemma_remove_id_no_match(subs.drop_first(), id);
        assert(seq![subs[0]] + subs.drop_first() =~= subs);
    }
}

/// When the first match with `id` sits at `i`, removing the id removes
/// exactly the element at `i`.
proof fn lemma_remove_id_at<C>(subs: Seq<Subscription<C>>, id: u32, i: int)
    requires
        0 <= i < subs.len(),
        subs[i].id == id,
        forall|k: int| 0 <= k < i ==> (#[trigger] subs[k].id) != id,
    ensures
        spec_remove_id(subs, id) == subs.remove(i),
    decreases i,
{
    if i == 0 {
        assert(spec_remove_id(subs, id) == subs.drop_first());
        assert(subs.drop_first() =~= subs.remove(0));
    } else {
        lemma_remove_id_at(subs.drop_first(), id, i - 1);
        assert(spec_remove_id(subs, id) == seq![subs[0]] + subs.drop_first().remove(i - 1));
        assert(seq![subs[0]] + subs.drop_first().remove(i - 1) =~= subs.remove(i));
    }
}

/// What one registration does, seen from the id counter: it issues the next
/// id and advances the counter to it.
pub open spec fn spec_issued_id(next_id: u32) -> u32
    recommends
        next_id < u32::MAX,
{
    (next_id + 1) as u32
}

/// Ids are strictly increasing and never reused: registering, unregistering
/// (anything, even the id just issued) and registering again always issues a
/// second id strictly greater than the first, because unregistering never
/// rewinds the counter.
pub proof fn lemma_ids_never_reused(next0: u32)
    requires
        next0 < u32::MAX - 1,
    ensures
        ({
            let id1 = spec_issued_id(next0);
            let id2 = spec_issued_id(id1);
            id2 > id1 && id1 > next0
        }),
{
}

} // verus!
