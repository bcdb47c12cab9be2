//! Incremental child-list reconciliation.
//!
//! A reconciliation site owns an ordered list of child entities and keeps it
//! synchronized with its source, applying the minimal set of spawn, despawn
//! and move operations: an entity is created only when its element first
//! appears, destroyed only when its element disappears, and never churned
//! because its position moved. Two source shapes exist: an optional value
//! driving a single slot ([`OptionalSlot`]), and a [`TrackedSequence`] whose
//! drained edits are replayed against the child list ([`TrackedSite`]).
//! Each spawned child is populated by binding the element's value to a
//! component on the fresh entity, standing for the host's construction
//! closure, which runs exactly once per spawn.

use vstd::prelude::*;
use crate::observer::{Observer, Value};
use crate::tracked_seq::{apply_edit, edit_ok, edits_ok, replay, step_len, Edit, TrackedSequence};
use crate::world::{Entity, World};

verus! {

broadcast use vstd::seq_lib::group_seq_properties;

/// The scalar a slot binds onto its child: the leading scalar of the value.
pub open spec fn scalar_spec(v: Value) -> u64
    decreases v,
{
    match v {
        Value::U(x) => x,
        Value::Pair(a, _) => scalar_spec(*a),
    }
}

/// Extract the leading scalar of an observed value.
pub fn scalar_of(v: &Value) -> (r: u64)
    ensures
        r == scalar_spec(*v),
    decreases v,
{
    match v {
        Value::U(x) => *x,
        Value::Pair(a, _) => scalar_of(a),
    }
}

/// The child entities are all live in `w` and pairwise distinct.
pub open spec fn children_ok(cs: Seq<u64>, w: World) -> bool {
    &&& forall|i: int| 0 <= i < cs.len() ==> w.is_live(#[trigger] cs[i])
    &&& forall|i: int, j: int| 0 <= i < j < cs.len() ==> cs[i] != cs[j]
}

/// Child `i` displays element `i`: its bound component holds `vals[i]`.
pub open spec fn bound_to(cs: Seq<u64>, vals: Seq<u64>, key: u64, w: World) -> bool {
    &&& cs.len() == vals.len()
    &&& forall|i: int| 0 <= i < cs.len() ==> w.comp_value(#[trigger] cs[i], key) == Some(vals[i])
}

/// The child list after one structural edit, `next` being the id the next
/// spawn hands out: an appearing element brings exactly one fresh entity,
/// a disappearing one takes exactly its own child with it, a swap permutes
/// the existing children, an overwrite touches none.
pub open spec fn child_apply(cs: Seq<u64>, e: Edit<u64>, next: int) -> Seq<u64> {
    match e {
        Edit::Append(_) => cs.push(next as u64),
        Edit::Insert(i, _) => if i <= cs.len() {
            cs.insert(i as int, next as u64)
        } else {
            cs
        },
        Edit::RemoveAt(i) => if i < cs.len() {
            cs.remove(i as int)
        } else {
            cs
        },
        Edit::Swap(i, j) => if i < cs.len() && j < cs.len() {
            cs.update(i as int, cs[j as int]).update(j as int, cs[i as int])
        } else {
            cs
        },
        Edit::Clear => Seq::empty(),
        Edit::Overwrite(_, _) => cs,
    }
}

/// How many entities one edit spawns.
pub open spec fn spawns(e: Edit<u64>) -> int {
    match e {
        Edit::Append(_) => 1,
        Edit::Insert(_, _) => 1,
        _ => 0,
    }
}

/// The child list after a whole queue of edits, entity ids handed out in
/// spawn order starting at `next`.
pub open spec fn child_replay(cs: Seq<u64>, es: Seq<Edit<u64>>, next: int) -> Seq<u64>
    decreases es.len(),
{
    if es.len() == 0 {
        cs
    } else {
        child_replay(
            child_apply(cs, es.first(), next),
            es.drop_first(),
            next + spawns(es.first()),
        )
    }
}

/// Replay one structural edit against the child list: spawn a fresh child
/// for an appearing element, despawn the child of a disappearing one, move
/// without churn for a swap, rebind in place for an overwrite.
pub fn apply_child_edit(
    children: &mut Vec<u64>,
    edit: &Edit<u64>,
    key: u64,
    w: &mut World,
    Ghost(vals): Ghost<Seq<u64>>,
)
    requires
        old(w).wf(),
        matches!(*edit, Edit::Append(_) | Edit::Insert(_, _)) ==> old(w).next_id < u64::MAX,
        children_ok(old(children)@, *old(w)),
        bound_to(old(children)@, vals, key, *old(w)),
        edit_ok(vals.len(), *edit),
    ensures
        final(w).wf(),
        children_ok(final(children)@, *final(w)),
        bound_to(final(children)@, apply_edit(vals, *edit), key, *final(w)),
        final(children)@.len() == step_len(old(children)@.len(), *edit),
        final(w).resources@ == old(w).resources@,
        final(w).touched_res@ == old(w).touched_res@,
        old(w).next_id <= final(w).next_id <= old(w).next_id + 1,
        match *edit {
            Edit::Append(_) => {
                &&& final(children)@ == old(children)@.push(old(w).next_id)
                &&& !old(w).is_live(old(w).next_id)
                &&& forall|x: u64|
                    final(w).is_live(x) <==> old(w).is_live(x) || x == old(w).next_id
            },
            Edit::Insert(i, _) => {
                &&& final(children)@ == old(children)@.insert(i as int, old(w).next_id)
                &&& !old(w).is_live(old(w).next_id)
                &&& forall|x: u64|
                    final(w).is_live(x) <==> old(w).is_live(x) || x == old(w).next_id
            },
            Edit::RemoveAt(i) => {
                &&& final(children)@ == old(children)@.remove(i as int)
                &&& final(w).same_data(*old(w))
                &&& final(w).next_id == old(w).next_id
                &&& forall|x: u64|
                    final(w).is_live(x) <==> old(w).is_live(x) && x != old(children)@[i as int]
            },
            Edit::Swap(i, j) => {
                &&& final(children)@ == old(children)@.update(
                    i as int,
                    old(children)@[j as int],
                ).update(j as int, old(children)@[i as int])
                &&& *final(w) == *old(w)
            },
            Edit::Clear => {
                &&& final(children)@ == Seq::<u64>::empty()
                &&& final(w).same_data(*old(w))
                &&& final(w).next_id == old(w).next_id
                &&& forall|x: u64|
                    final(w).is_live(x) <==> old(w).is_live(x) && !old(children)@.contains(x)
            },
            Edit::Overwrite(i, _) => {
                &&& final(children)@ == old(children)@
                &&& forall|x: u64| final(w).is_live(x) <==> old(w).is_live(x)
                &&& final(w).next_id == old(w).next_id
            },
        },
{
    match edit {
        Edit::Append(v) => {
            let e = w.spawn();
            w.set_component(e, key, *v);
            children.push(e);
            proof {
                assert(vals.push(*v).len() == children@.len());
            }
        },
        Edit::Insert(i, v) => {
            let e = w.spawn();
            w.set_component(e, key, *v);
            children.insert(*i, e);
        },
        Edit::RemoveAt(i) => {
            let victim = children.remove(*i);
            w.despawn(victim);
        },
        Edit::Swap(i, j) => {
            let a = children[*i];
            let b = children[*j];
            children[*i] = b;
            children[*j] = a;
        },
        Edit::Clear => {
            let ghost pre = *w;
            let ghost cs0 = children@;
            let mut k: usize = 0;
            while k < children.len()
                invariant
                    k <= children@.len(),
                    children@ == cs0,
                    w.wf(),
                    w.next_id == pre.next_id,
                    w.same_data(pre),
                    forall|x: u64| pre.is_live(x) && !cs0.contains(x) ==> w.is_live(x),
                    forall|x: u64| w.is_live(x) ==> pre.is_live(x),
                    forall|j: int| 0 <= j < k ==> !w.is_live(#[trigger] cs0[j]),
                    forall|j: int| k <= j < cs0.len() ==> w.is_live(#[trigger] cs0[j]),
                    forall|i: int, j: int| 0 <= i < j < cs0.len() ==> cs0[i] != cs0[j],
                decreases children@.len() - k,
            {
                let victim = children[k];
                w.despawn(victim);
                proof {
                    assert(cs0.contains(cs0[k as int]));
                }
                k = k + 1;
            }
            children.clear();
            proof {
                assert forall|x: u64|
                    w.is_live(x) <==> (pre.is_live(x) && !cs0.contains(x)) by {
                    if cs0.contains(x) {
                        let j = choose|j: int| 0 <= j < cs0.len() && cs0[j] == x;
                        assert(!w.is_live(cs0[j]));
                    }
                }
            }
        },
        Edit::Overwrite(i, v) => {
            let target = children[*i];
            w.set_component(target, key, *v);
            proof {
                assert forall|n: int| 0 <= n < children@.len() implies final(w).comp_value(
                    #[trigger] children@[n],
                    key,
                ) == Some(apply_edit(vals, *edit)[n]) by {
                    if n != *i as int {
                        assert(children@[n] != children@[*i as int]);
                    }
                }
            }
        },
    }
}

/// Replay a whole drained queue in order. With nothing queued, the child
/// list and the world come out bit-for-bit unchanged.
pub fn apply_edits(
    children: &mut Vec<u64>,
    edits: &Vec<Edit<u64>>,
    key: u64,
    w: &mut World,
    Ghost(vals): Ghost<Seq<u64>>,
)
    requires
        old(w).wf(),
        old(w).next_id + edits@.len() <= u64::MAX,
        children_ok(old(children)@, *old(w)),
        bound_to(old(children)@, vals, key, *old(w)),
        edits_ok(vals.len(), edits@),
    ensures
        final(w).wf(),
        children_ok(final(children)@, *final(w)),
        bound_to(final(children)@, replay(vals, edits@), key, *final(w)),
        final(children)@ == child_replay(old(children)@, edits@, old(w).next_id as int),
        final(w).resources@ == old(w).resources@,
        final(w).touched_res@ == old(w).touched_res@,
        old(w).next_id <= final(w).next_id <= old(w).next_id + edits@.len(),
        edits@.len() == 0 ==> final(children)@ == old(children)@ && *final(w) == *old(w),
{
    if edits.len() == 0 {
        proof {
            assert(replay(vals, edits@) == vals);
        }
        return;
    }
    let ghost n0 = old(w).next_id;
    let ghost cur = vals;
    let mut k: usize = 0;
    while k < edits.len()
        invariant
            k <= edits@.len(),
            w.wf(),
            w.next_id + (edits@.len() - k) <= u64::MAX,
            n0 <= w.next_id <= n0 + k,
            children_ok(children@, *w),
            bound_to(children@, cur, key, *w),
            edits_ok(cur.len(), edits@.skip(k as int)),
            replay(cur, edits@.skip(k as int)) == replay(vals, edits@),
            child_replay(children@, edits@.skip(k as int), w.next_id as int) == child_replay(
                old(children)@,
                edits@,
                n0 as int,
            ),
            w.resources@ == old(w).resources@,
            w.touched_res@ == old(w).touched_res@,
        decreases edits@.len() - k,
    {
        proof {
            assert(edits@.skip(k as int).len() > 0);
            assert(edits@.skip(k as int).first() == edits@[k as int]);
            assert(edits@.skip(k as int).drop_first() =~= edits@.skip(k + 1));
        }
        let ghost cs_pre = children@;
        let ghost next_pre = w.next_id as int;
        apply_child_edit(children, &edits[k], key, w, Ghost(cur));
        proof {
            cur = apply_edit(cur, edits@[k as int]);
            assert(children@ == child_apply(cs_pre, edits@[k as int], next_pre));
            assert(w.next_id as int == next_pre + spawns(edits@[k as int]));
        }
        k = k + 1;
    }
    proof {
        assert(edits@.skip(edits@.len() as int) =~= Seq::<Edit<u64>>::empty());
    }
}

/// A mounted dynamic-children site driven by a [`TrackedSequence`]: the
/// site's consumer token, the component key its children are bound under,
/// and the ordered child entities mirroring the sequence.
pub struct TrackedSite {
    token: usize,
    key: u64,
    children: Vec<u64>,
}

/// The site's children mirror what its consumer last saw of the sequence:
/// one live, distinct child per element, bound to that element's value.
pub open spec fn site_ok(site: TrackedSite, seq: TrackedSequence<u64>, w: World) -> bool {
    &&& seq.inv()
    &&& seq.valid_token(site.token())
    &&& children_ok(site.children(), w)
    &&& bound_to(site.children(), seq.snapshot(site.token()), site.key(), w)
}

impl TrackedSite {
    /// The consumer token this site drains.
    pub closed spec fn token(self) -> usize {
        self.token
    }

    /// The component key child values are bound under.
    pub closed spec fn key(self) -> u64 {
        self.key
    }

    /// The child entities, in render order.
    pub closed spec fn children(self) -> Seq<u64> {
        self.children@
    }

    /// Number of mounted children.
    pub fn child_count(&self) -> (n: usize)
        ensures
            n == self.children().len(),
    {
        self.children.len()
    }

    /// The child entity at position `i`.
    pub fn child_at(&self, i: usize) -> (e: Entity)
        requires
            i < self.children().len(),
        ensures
            e == self.children()[i as int],
    {
        self.children[i]
    }

    /// The per-element observer for child `i`: a leaf binding that reads
    /// the value the reconciler keeps bound on that child. This is what a
    /// per-item construction closure hands to the bindings it attaches, so
    /// an overwritten element reaches its leaves on their own next poll,
    /// with no entity churn.
    pub fn item_observer(&self, i: usize) -> (r: Observer)
        requires
            i < self.children().len(),
        ensures
            r == Observer::Single(self.children()[i as int], self.key()),
    {
        Observer::Single(self.children[i], self.key)
    }

    /// One reconciliation pass: drain this site's queued edits and replay
    /// them against the child list. Afterwards the children mirror the live
    /// sequence element for element; with nothing queued, the child list
    /// and the world are bit-for-bit unchanged.
    pub fn tick(&mut self, seq: &mut TrackedSequence<u64>, w: &mut World)
        requires
            old(w).wf(),
            site_ok(*old(self), *old(seq), *old(w)),
            old(w).next_id + old(seq).pending(old(self).token()).len() <= u64::MAX,
        ensures
            final(w).wf(),
            site_ok(*final(self), *final(seq), *final(w)),
            final(self).token() == old(self).token(),
            final(self).key() == old(self).key(),
            final(seq).view() == old(seq).view(),
            final(seq).snapshot(final(self).token()) == final(seq).view(),
            final(self).children().len() == final(seq).view().len(),
            bound_to(final(self).children(), final(seq).view(), final(self).key(), *final(w)),
            final(self).children() == child_replay(
                old(self).children(),
                old(seq).pending(old(self).token()),
                old(w).next_id as int,
            ),
            final(w).resources@ == old(w).resources@,
            final(w).touched_res@ == old(w).touched_res@,
            old(seq).pending(old(self).token()).len() == 0 ==> final(self).children() == old(
                self,
            ).children() && *final(w) == *old(w),
            forall|t2: usize|
                t2 != old(self).token() ==> (final(seq).valid_token(t2) <==> old(seq).valid_token(
                    t2,
                )),
            forall|t2: usize|
                t2 != old(self).token() && old(seq).valid_token(t2) ==> final(seq).snapshot(t2)
                    == old(seq).snapshot(t2) && final(seq).pending(t2) == old(seq).pending(t2),
    {
        let ghost snap = old(seq).snapshot(old(self).token());
        let edits = seq.drain_edits(self.token);
        apply_edits(&mut self.children, &edits, self.key, w, Ghost(snap));
    }

    /// Tear the site down: despawn every child and drop its consumer.
    pub fn unmount(self, seq: &mut TrackedSequence<u64>, w: &mut World)
        requires
            old(w).wf(),
            site_ok(self, *old(seq), *old(w)),
        ensures
            final(w).wf(),
            final(seq).inv(),
            final(seq).view() == old(seq).view(),
            !final(seq).valid_token(self.token()),
            forall|x: u64|
                final(w).is_live(x) <==> old(w).is_live(x) && !self.children().contains(x),
            final(w).same_data(*old(w)),
            final(w).next_id == old(w).next_id,
            forall|t2: usize|
                t2 != self.token() ==> (final(seq).valid_token(t2) <==> old(seq).valid_token(t2)),
            forall|t2: usize|
                t2 != self.token() && old(seq).valid_token(t2) ==> final(seq).snapshot(t2) == old(
                    seq,
                ).snapshot(t2) && final(seq).pending(t2) == old(seq).pending(t2),
    {
        let TrackedSite { token, key, mut children } = self;
        let ghost snap = old(seq).snapshot(token);
        apply_child_edit(&mut children, &Edit::Clear, key, w, Ghost(snap));
        seq.remove_consumer(token);
    }
}

/// Mount a dynamic-children site on `seq`: subscribe a consumer and build
/// one child per current element, each bound to its element's value.
pub fn mount_tracked(seq: &mut TrackedSequence<u64>, key: u64, w: &mut World) -> (site:
    TrackedSite)
    requires
        old(seq).inv(),
        old(w).wf(),
        old(w).next_id + old(seq).view().len() <= u64::MAX,
    ensures
        final(w).wf(),
        final(seq).view() == old(seq).view(),
        site_ok(site, *final(seq), *final(w)),
        site.key() == key,
        !old(seq).valid_token(site.token()),
        final(seq).snapshot(site.token()) == final(seq).view(),
        final(seq).pending(site.token()) == Seq::<Edit<u64>>::empty(),
        site.children().len() == old(seq).view().len(),
        bound_to(site.children(), final(seq).view(), key, *final(w)),
        final(w).resources@ == old(w).resources@,
        final(w).touched_res@ == old(w).touched_res@,
        forall|x: u64| old(w).is_live(x) ==> final(w).is_live(x),
        forall|i: int|
            0 <= i < site.children().len() ==> #[trigger] site.children()[i] == old(w).next_id + i,
        forall|t2: usize|
            t2 != site.token() ==> (final(seq).valid_token(t2) <==> old(seq).valid_token(t2)),
        forall|t2: usize|
            t2 != site.token() && old(seq).valid_token(t2) ==> final(seq).snapshot(t2) == old(
                seq,
            ).snapshot(t2) && final(seq).pending(t2) == old(seq).pending(t2),
{
    let token = seq.register_consumer();
    let mut children: Vec<u64> = Vec::new();
    let ghost target = seq.view();
    let mut i: usize = 0;
    while i < seq.len()
        invariant
            i <= target.len(),
            seq.inv(),
            seq.view() == target,
            w.wf(),
            w.next_id + (target.len() - i) <= u64::MAX,
            w.next_id == old(w).next_id + i,
            children@.len() == i,
            forall|j: int|
                0 <= j < children@.len() ==> #[trigger] children@[j] == old(w).next_id + j,
            children_ok(children@, *w),
            bound_to(children@, target.take(i as int), key, *w),
            w.resources@ == old(w).resources@,
            w.touched_res@ == old(w).touched_res@,
            forall|x: u64| old(w).is_live(x) ==> w.is_live(x),
            seq.valid_token(token),
            seq.snapshot(token) == target,
            seq.pending(token) == Seq::<Edit<u64>>::empty(),
            !old(seq).valid_token(token),
            forall|t2: usize|
                t2 != token ==> (seq.valid_token(t2) <==> old(seq).valid_token(t2)),
            forall|t2: usize|
                t2 != token && old(seq).valid_token(t2) ==> seq.snapshot(t2) == old(seq).snapshot(
                    t2,
                ) && seq.pending(t2) == old(seq).pending(t2),
        decreases target.len() - i,
    {
        let v = *seq.get(i);
        let e = w.spawn();
        w.set_component(e, key, v);
        children.push(e);
        proof {
            assert(target.take(i + 1) =~= target.take(i as int).push(target[i as int]));
        }
        i = i + 1;
    }
    proof {
        assert(target.take(target.len() as int) =~= target);
    }
    TrackedSite { token, key, children }
}

/// A mounted optional-content slot: its source observer, the component key
/// the resolved value is bound under, and the single child, if mounted.
pub struct OptionalSlot {
    source: Observer,
    key: u64,
    child: Option<u64>,
}

impl OptionalSlot {
    /// The observer this slot polls.
    pub closed spec fn source(self) -> Observer {
        self.source
    }

    /// The component key the resolved value is bound under.
    pub closed spec fn key(self) -> u64 {
        self.key
    }

    /// The mounted child entity, if any.
    pub closed spec fn mounted(self) -> Option<u64> {
        self.child
    }

    /// A mounted child is live.
    pub open spec fn wf(self, w: World) -> bool {
        match self.mounted() {
            Some(e) => w.is_live(e),
            None => true,
        }
    }

    /// Mount an optional-content slot with no child yet.
    pub fn new(source: Observer, key: u64) -> (s: OptionalSlot)
        ensures
            s.source() == source,
            s.key() == key,
            s.mounted() is None,
    {
        OptionalSlot { source, key, child: None }
    }

    /// The mounted child entity, if any.
    pub fn mounted_entity(&self) -> (r: Option<Entity>)
        ensures
            r == self.mounted(),
    {
        self.child
    }

    /// One reconciliation pass. When the source reports no change, nothing
    /// happens at all. Otherwise: a value appearing spawns a fresh child
    /// bound to it; a value disappearing despawns the child; a value that
    /// merely changed leaves the existing child in place, its own leaf
    /// bindings picking the new value up on their next poll.
    pub fn tick(&mut self, w: &mut World)
        requires
            old(w).wf(),
            old(self).wf(*old(w)),
            old(w).next_id < u64::MAX,
        ensures
            final(w).wf(),
            final(self).wf(*final(w)),
            final(self).key() == old(self).key(),
            final(self).source() == old(self).source().step(*old(w)),
            final(w).resources@ == old(w).resources@,
            final(w).touched_res@ == old(w).touched_res@,
            !old(self).source().changed(*old(w)) ==> final(self).mounted() == old(self).mounted()
                && *final(w) == *old(w),
            (old(self).source().changed(*old(w)) && old(self).source().value(*old(w)) is None)
                ==> {
                &&& final(self).mounted() is None
                &&& final(w).next_id == old(w).next_id
                &&& final(w).same_data(*old(w))
                &&& forall|x: u64|
                    final(w).is_live(x) <==> old(w).is_live(x) && Some(x) != old(self).mounted()
            },
            (old(self).source().changed(*old(w)) && old(self).source().value(*old(w)) is Some
                && old(self).mounted() is Some) ==> final(self).mounted() == old(self).mounted()
                && *final(w) == *old(w),
            (old(self).source().changed(*old(w)) && old(self).source().value(*old(w)) is Some
                && old(self).mounted() is None) ==> {
                &&& final(self).mounted() == Some(old(w).next_id)
                &&& !old(w).is_live(old(w).next_id)
                &&& final(w).next_id == old(w).next_id + 1
                &&& forall|x: u64|
                    final(w).is_live(x) <==> old(w).is_live(x) || x == old(w).next_id
                &&& final(w).comp_value(old(w).next_id, old(self).key()) == Some(
                    scalar_spec(old(self).source().value(*old(w))->0),
                )
            },
    {
        let (v, ch) = self.source.poll(w);
        if !ch {
            return;
        }
        match v {
            Some(val) => {
                if self.child.is_none() {
                    let e = w.spawn();
                    let s = scalar_of(&val);
                    w.set_component(e, self.key, s);
                    self.child = Some(e);
                }
            },
            None => {
                match self.child {
                    Some(e) => {
                        w.despawn(e);
                        self.child = None;
                    },
                    None => {},
                }
            },
        }
    }
}

} // verus!
