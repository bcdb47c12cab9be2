//! Explicit context object standing for the host's entity/component store.
//!
//! The reactive core never reaches for ambient state: every poll and every
//! reconciliation step receives a `World`, which owns the live entity
//! handles, the named resources, the per-entity components, and the
//! "touched this tick" change marks that the primitive observers read.
//! Entity handles are never reused: each spawn hands out a fresh id.

use vstd::prelude::*;

verus! {

broadcast use vstd::seq_lib::group_seq_properties;

/// Opaque stable identifier for a node in the UI tree.
pub type Entity = u64;

/// Value of the last store to key `k`: absent when never stored or since
/// removed (a removal is recorded as an entry carrying no value).
pub open spec fn res_lookup(s: Seq<(u64, Option<u64>)>, k: u64) -> Option<u64>
    decreases s.len(),
{
    if s.len() == 0 {
        None
    } else if s.last().0 == k {
        s.last().1
    } else {
        res_lookup(s.drop_last(), k)
    }
}

/// Value of the last store to component `k` of entity `e`, if any.
pub open spec fn comp_lookup(s: Seq<(u64, u64, u64)>, e: u64, k: u64) -> Option<u64>
    decreases s.len(),
{
    if s.len() == 0 {
        None
    } else if s.last().0 == e && s.last().1 == k {
        Some(s.last().2)
    } else {
        comp_lookup(s.drop_last(), e, k)
    }
}

/// The host's store: entities, resources, components, and change marks.
pub struct World {
    /// Next entity id to hand out; strictly above every live id.
    pub next_id: u64,
    /// Ids of the entities currently alive.
    pub live: Vec<u64>,
    /// Store log of named resources; the last entry for a key wins, and an
    /// entry carrying no value records a removal.
    pub resources: Vec<(u64, Option<u64>)>,
    /// Store log of components, keyed by entity and component key.
    pub components: Vec<(u64, u64, u64)>,
    /// Resource keys written since the last end-of-tick.
    pub touched_res: Vec<u64>,
    /// (entity, component key) pairs written since the last end-of-tick.
    pub touched_comp: Vec<(u64, u64)>,
}

impl World {
    /// Every live id is below `next_id`, so a fresh id is never live.
    pub open spec fn wf(self) -> bool {
        forall|i: int| 0 <= i < self.live@.len() ==> self.live@[i] < self.next_id
    }

    /// Whether entity `e` is currently alive.
    pub open spec fn is_live(self, e: u64) -> bool {
        self.live@.contains(e)
    }

    /// Current value of resource `k`.
    pub open spec fn res_value(self, k: u64) -> Option<u64> {
        res_lookup(self.resources@, k)
    }

    /// Current value of component `k` on entity `e`; absent once `e` dies.
    pub open spec fn comp_value(self, e: u64, k: u64) -> Option<u64> {
        if self.is_live(e) {
            comp_lookup(self.components@, e, k)
        } else {
            None
        }
    }

    /// Whether resource `k` was written this tick.
    pub open spec fn res_touched(self, k: u64) -> bool {
        self.touched_res@.contains(k)
    }

    /// Whether component `k` on `e` was written this tick.
    pub open spec fn comp_touched(self, e: u64, k: u64) -> bool {
        self.touched_comp@.contains((e, k))
    }

    /// The stores and change marks of `self` and `other` agree; only the
    /// entity set may differ.
    pub open spec fn same_data(self, other: World) -> bool {
        &&& self.resources@ == other.resources@
        &&& self.components@ == other.components@
        &&& self.touched_res@ == other.touched_res@
        &&& self.touched_comp@ == other.touched_comp@
    }

    /// The entity set of `self` and `other` agree.
    pub open spec fn same_entities(self, other: World) -> bool {
        &&& self.next_id == other.next_id
        &&& self.live@ == other.live@
    }

    /// A world with no entities, no data, and no change marks.
    pub fn new() -> (w: World)
        ensures
            w.wf(),
            w.next_id == 0,
            forall|e: u64| !w.is_live(e),
            forall|k: u64| w.res_value(k) is None,
            forall|e: u64, k: u64| w.comp_value(e, k) is None,
            forall|k: u64| !w.res_touched(k),
            forall|e: u64, k: u64| !w.comp_touched(e, k),
    {
        World {
            next_id: 0,
            live: Vec::new(),
            resources: Vec::new(),
            components: Vec::new(),
            touched_res: Vec::new(),
            touched_comp: Vec::new(),
        }
    }

    /// Create a fresh, empty entity. The returned id was never live before.
    pub fn spawn(&mut self) -> (e: Entity)
        requires
            old(self).wf(),
            old(self).next_id < u64::MAX,
        ensures
            final(self).wf(),
            e == old(self).next_id,
            !old(self).is_live(e),
            final(self).next_id == old(self).next_id + 1,
            forall|x: u64| final(self).is_live(x) <==> old(self).is_live(x) || x == e,
            final(self).same_data(*old(self)),
    {
        let e = self.next_id;
        self.next_id = self.next_id + 1;
        self.live.push(e);
        e
    }

    /// Destroy entity `e`; its components become unreadable.
    pub fn despawn(&mut self, e: Entity)
        requires
            old(self).wf(),
        ensures
            final(self).wf(),
            final(self).next_id == old(self).next_id,
            forall|x: u64| final(self).is_live(x) <==> old(self).is_live(x) && x != e,
            final(self).same_data(*old(self)),
    {
        let mut out: Vec<u64> = Vec::new();
        let mut i: usize = 0;
        while i < self.live.len()
            invariant
                i <= self.live@.len(),
                forall|j: int| 0 <= j < self.live@.len() ==> self.live@[j] < self.next_id,
                forall|x: u64| out@.contains(x) <==> (self.live@.take(i as int).contains(x) && x != e),
                forall|j: int| 0 <= j < out@.len() ==> out@[j] < self.next_id,
            decreases self.live@.len() - i,
        {
            let v = self.live[i];
            if v != e {
                out.push(v);
            }
            proof {
                assert(self.live@.take(i + 1) =~= self.live@.take(i as int).push(self.live@[i as int]));
            }
            i = i + 1;
        }
        proof {
            assert(self.live@.take(self.live@.len() as int) =~= self.live@);
        }
        self.live = out;
    }

    /// Whether entity `e` is alive right now.
    pub fn check_live(&self, e: Entity) -> (r: bool)
        ensures
            r == self.is_live(e),
    {
        let mut i: usize = 0;
        while i < self.live.len()
            invariant
                i <= self.live@.len(),
                forall|j: int| 0 <= j < i ==> self.live@[j] != e,
            decreases self.live@.len() - i,
        {
            if self.live[i] == e {
                return true;
            }
            i = i + 1;
        }
        false
    }

    /// Write resource `k`, marking it touched for this tick.
    pub fn set_res(&mut self, k: u64, v: u64)
        requires
            old(self).wf(),
        ensures
            final(self).wf(),
            final(self).res_value(k) == Some(v),
            forall|k2: u64| k2 != k ==> final(self).res_value(k2) == old(self).res_value(k2),
            forall|k2: u64| final(self).res_touched(k2) <==> old(self).res_touched(k2) || k2 == k,
            final(self).components@ == old(self).components@,
            final(self).touched_comp@ == old(self).touched_comp@,
            final(self).same_entities(*old(self)),
    {
        self.resources.push((k, Some(v)));
        self.touched_res.push(k);
        proof {
            assert(self.resources@.drop_last() =~= old(self).resources@);
        }
    }

    /// Remove resource `k`, marking it touched for this tick.
    pub fn clear_res(&mut self, k: u64)
        requires
            old(self).wf(),
        ensures
            final(self).wf(),
            final(self).res_value(k) is None,
            forall|k2: u64| k2 != k ==> final(self).res_value(k2) == old(self).res_value(k2),
            forall|k2: u64| final(self).res_touched(k2) <==> old(self).res_touched(k2) || k2 == k,
            final(self).components@ == old(self).components@,
            final(self).touched_comp@ == old(self).touched_comp@,
            final(self).same_entities(*old(self)),
    {
        self.resources.push((k, None));
        self.touched_res.push(k);
        proof {
            assert(self.resources@.drop_last() =~= old(self).resources@);
        }
    }

    /// Read resource `k`.
    pub fn get_res(&self, k: u64) -> (r: Option<u64>)
        ensures
            r == self.res_value(k),
    {
        let s = &self.resources;
        let mut acc: Option<u64> = None;
        let mut i: usize = 0;
        while i < s.len()
            invariant
                i <= s@.len(),
                acc == res_lookup(s@.take(i as int), k),
            decreases s@.len() - i,
        {
            let p = s[i];
            if p.0 == k {
                acc = p.1;
            }
            proof {
                assert(s@.take(i + 1).drop_last() =~= s@.take(i as int));
            }
            i = i + 1;
        }
        proof {
            assert(s@.take(s@.len() as int) =~= s@);
        }
        acc
    }

    /// Whether resource `k` was written this tick.
    pub fn check_res_touched(&self, k: u64) -> (r: bool)
        ensures
            r == self.res_touched(k),
    {
        let mut i: usize = 0;
        while i < self.touched_res.len()
            invariant
                i <= self.touched_res@.len(),
                forall|j: int| 0 <= j < i ==> self.touched_res@[j] != k,
            decreases self.touched_res@.len() - i,
        {
            if self.touched_res[i] == k {
                return true;
            }
            i = i + 1;
        }
        false
    }

    /// Write component `k` on live entity `e`, marking it touched.
    pub fn set_component(&mut self, e: Entity, k: u64, v: u64)
        requires
            old(self).wf(),
            old(self).is_live(e),
        ensures
            final(self).wf(),
            final(self).comp_value(e, k) == Some(v),
            forall|e2: u64, k2: u64|
                !(e2 == e && k2 == k) ==> final(self).comp_value(e2, k2) == old(self).comp_value(e2, k2),
            forall|e2: u64, k2: u64|
                final(self).comp_touched(e2, k2) <==> old(self).comp_touched(e2, k2) || (e2 == e && k2 == k),
            final(self).resources@ == old(self).resources@,
            final(self).touched_res@ == old(self).touched_res@,
            final(self).same_entities(*old(self)),
    {
        self.components.push((e, k, v));
        self.touched_comp.push((e, k));
        proof {
            assert(self.components@.drop_last() =~= old(self).components@);
            assert forall|e2: u64, k2: u64| final(self).comp_touched(e2, k2)
                <==> old(self).comp_touched(e2, k2) || (e2 == e && k2 == k) by {
                assert(self.touched_comp@ == old(self).touched_comp@.push((e, k)));
            }
        }
    }

    /// Read component `k` on entity `e`; `None` once `e` is despawned.
    pub fn get_component(&self, e: Entity, k: u64) -> (r: Option<u64>)
        ensures
            r == self.comp_value(e, k),
    {
        if !self.check_live(e) {
            return None;
        }
        let s = &self.components;
        let mut acc: Option<u64> = None;
        let mut i: usize = 0;
        while i < s.len()
            invariant
                i <= s@.len(),
                acc == comp_lookup(s@.take(i as int), e, k),
            decreases s@.len() - i,
        {
            let p = s[i];
            if p.0 == e && p.1 == k {
                acc = Some(p.2);
            }
            proof {
                assert(s@.take(i + 1).drop_last() =~= s@.take(i as int));
            }
            i = i + 1;
        }
        proof {
            assert(s@.take(s@.len() as int) =~= s@);
        }
        acc
    }

    /// Whether component `k` on `e` was written this tick.
    pub fn check_comp_touched(&self, e: Entity, k: u64) -> (r: bool)
        ensures
            r == self.comp_touched(e, k),
    {
        let mut i: usize = 0;
        while i < self.touched_comp.len()
            invariant
                i <= self.touched_comp@.len(),
                forall|j: int| 0 <= j < i ==> self.touched_comp@[j] != (e, k),
            decreases self.touched_comp@.len() - i,
        {
            let p = self.touched_comp[i];
            if p.0 == e && p.1 == k {
                proof {
                    assert(self.touched_comp@[i as int] == (e, k));
                }
                return true;
            }
            i = i + 1;
        }
        false
    }

    /// Close the tick: clear every change mark, touch nothing else.
    pub fn end_tick(&mut self)
        requires
            old(self).wf(),
        ensures
            final(self).wf(),
            forall|k: u64| !final(self).res_touched(k),
            forall|e: u64, k: u64| !final(self).comp_touched(e, k),
            forall|k: u64| final(self).res_value(k) == old(self).res_value(k),
            forall|e: u64, k: u64| final(self).comp_value(e, k) == old(self).comp_value(e, k),
            final(self).same_entities(*old(self)),
    {
        self.touched_res.clear();
        self.touched_comp.clear();
    }
}

} // verus!
