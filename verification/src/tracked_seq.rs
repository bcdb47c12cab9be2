//! Mutable ordered container whose structural edits are logged per consumer.
//!
//! Every mutation of a [`TrackedSequence`] appends an [`Edit`] record to the
//! queue of each registered consumer. Replaying a consumer's queued edits
//! against that consumer's last-seen snapshot reproduces the live sequence
//! exactly; [`TrackedSequence::drain_edits`] states this as its contract.
//! Consumers read independently: draining one queue never disturbs another.

use vstd::prelude::*;

verus! {

/// One structural edit, with indices as they stood when the edit was applied.
#[derive(Clone, Copy, PartialEq, Eq, Debug)]
pub enum Edit<T> {
    /// Push `T` at the end.
    Append(T),
    /// Insert `T` at the index, shifting the suffix right.
    Insert(usize, T),
    /// Remove the element at the index, shifting the suffix left.
    RemoveAt(usize),
    /// Exchange the elements at the two indices.
    Swap(usize, usize),
    /// Remove every element.
    Clear,
    /// Replace the element at the index in place.
    Overwrite(usize, T),
}

/// The sequence that results from one edit; an out-of-range index is a no-op
/// (the recorded queues only ever hold in-range edits).
pub open spec fn apply_edit<T>(s: Seq<T>, e: Edit<T>) -> Seq<T> {
    match e {
        Edit::Append(v) => s.push(v),
        Edit::Insert(i, v) => if i <= s.len() { s.insert(i as int, v) } else { s },
        Edit::RemoveAt(i) => if i < s.len() { s.remove(i as int) } else { s },
        Edit::Swap(i, j) => if i < s.len() && j < s.len() {
            s.update(i as int, s[j as int]).update(j as int, s[i as int])
        } else {
            s
        },
        Edit::Clear => Seq::empty(),
        Edit::Overwrite(i, v) => if i < s.len() { s.update(i as int, v) } else { s },
    }
}

/// The sequence that results from replaying `es` in order against `s`.
pub open spec fn replay<T>(s: Seq<T>, es: Seq<Edit<T>>) -> Seq<T>
    decreases es.len(),
{
    if es.len() == 0 {
        s
    } else {
        replay(apply_edit(s, es.first()), es.drop_first())
    }
}

/// Whether one edit is in range for a sequence of length `n`.
pub open spec fn edit_ok<T>(n: nat, e: Edit<T>) -> bool {
    match e {
        Edit::Append(_) => true,
        Edit::Insert(i, _) => i <= n,
        Edit::RemoveAt(i) => i < n,
        Edit::Swap(i, j) => i < n && j < n,
        Edit::Clear => true,
        Edit::Overwrite(i, _) => i < n,
    }
}

/// Length after one edit of a sequence of length `n`.
pub open spec fn step_len<T>(n: nat, e: Edit<T>) -> nat {
    match e {
        Edit::Append(_) => n + 1,
        Edit::Insert(_, _) => n + 1,
        Edit::RemoveAt(_) => if n > 0 { (n - 1) as nat } else { 0 },
        Edit::Swap(_, _) => n,
        Edit::Clear => 0,
        Edit::Overwrite(_, _) => n,
    }
}

/// Whether every edit of `es` is in range at its own replay position.
pub open spec fn edits_ok<T>(n: nat, es: Seq<Edit<T>>) -> bool
    decreases es.len(),
{
    if es.len() == 0 {
        true
    } else {
        edit_ok(n, es.first()) && edits_ok(step_len(n, es.first()), es.drop_first())
    }
}

/// Length after replaying `es` against a sequence of length `n`.
pub open spec fn final_len<T>(n: nat, es: Seq<Edit<T>>) -> nat
    decreases es.len(),
{
    if es.len() == 0 {
        n
    } else {
        final_len(step_len(n, es.first()), es.drop_first())
    }
}

/// Replaying a queue with one more edit at its end first replays the queue,
/// then applies that edit.
pub proof fn lemma_replay_snoc<T>(s: Seq<T>, es: Seq<Edit<T>>, e: Edit<T>)
    ensures
        replay(s, es.push(e)) == apply_edit(replay(s, es), e),
    decreases es.len(),
{
    if es.len() == 0 {
        assert(es.push(e).first() == e);
        assert(es.push(e).drop_first() =~= Seq::<Edit<T>>::empty());
        assert(replay(apply_edit(s, e), Seq::<Edit<T>>::empty()) == apply_edit(s, e));
        assert(replay(s, es.push(e)) == replay(apply_edit(s, e), es.push(e).drop_first()));
    } else {
        assert(es.push(e).first() == es.first());
        assert(es.push(e).drop_first() =~= es.drop_first().push(e));
        lemma_replay_snoc(apply_edit(s, es.first()), es.drop_first(), e);
        assert(replay(s, es.push(e)) == replay(apply_edit(s, es.first()), es.drop_first().push(e)));
        assert(replay(s, es) == replay(apply_edit(s, es.first()), es.drop_first()));
    }
}

/// An in-range queue stays in range when an edit that fits its final length
/// is appended.
pub proof fn lemma_edits_ok_snoc<T>(n: nat, es: Seq<Edit<T>>, e: Edit<T>)
    requires
        edits_ok(n, es),
        edit_ok(final_len(n, es), e),
    ensures
        edits_ok(n, es.push(e)),
        final_len(n, es.push(e)) == step_len(final_len(n, es), e),
    decreases es.len(),
{
    if es.len() == 0 {
        assert(es.push(e).first() == e);
        assert(es.push(e).drop_first() =~= Seq::<Edit<T>>::empty());
        assert(edits_ok(step_len(n, e), Seq::<Edit<T>>::empty()));
        assert(final_len(step_len(n, e), Seq::<Edit<T>>::empty()) == step_len(n, e));
        assert(edits_ok(n, es.push(e)) == (edit_ok(n, e) && edits_ok(
            step_len(n, e),
            es.push(e).drop_first(),
        )));
        assert(final_len(n, es.push(e)) == final_len(step_len(n, e), es.push(e).drop_first()));
    } else {
        assert(es.push(e).first() == es.first());
        assert(es.push(e).drop_first() =~= es.drop_first().push(e));
        lemma_edits_ok_snoc(step_len(n, es.first()), es.drop_first(), e);
        assert(edits_ok(n, es.push(e)) == (edit_ok(n, es.first()) && edits_ok(
            step_len(n, es.first()),
            es.drop_first().push(e),
        )));
        assert(final_len(n, es.push(e)) == final_len(
            step_len(n, es.first()),
            es.drop_first().push(e),
        ));
    }
}

/// Replaying an in-range queue yields the length `final_len` predicts.
pub proof fn lemma_replay_len<T>(s: Seq<T>, es: Seq<Edit<T>>)
    requires
        edits_ok(s.len(), es),
    ensures
        replay(s, es).len() == final_len(s.len(), es),
    decreases es.len(),
{
    if es.len() > 0 {
        assert(apply_edit(s, es.first()).len() == step_len(s.len(), es.first()));
        lemma_replay_len(apply_edit(s, es.first()), es.drop_first());
    }
}

/// Ordered sequence of `T` plus one structural-edit queue per consumer.
pub struct TrackedSequence<T> {
    items: Vec<T>,
    log: Vec<Edit<T>>,
    cursors: Vec<usize>,
    active: Vec<bool>,
    snaps: Ghost<Seq<Seq<T>>>,
}

impl<T> TrackedSequence<T> {
    /// The live contents, in order.
    pub closed spec fn view(self) -> Seq<T> {
        self.items@
    }

    /// Whether `t` names a registered, not yet removed consumer.
    pub closed spec fn valid_token(self, t: usize) -> bool {
        t < self.active@.len() && self.active@[t as int]
    }

    /// The contents as consumer `t` last observed them.
    pub closed spec fn snapshot(self, t: usize) -> Seq<T> {
        self.snaps@[t as int]
    }

    /// The edits queued for consumer `t` since its last drain.
    pub closed spec fn pending(self, t: usize) -> Seq<Edit<T>> {
        self.log@.skip(self.cursors@[t as int] as int)
    }

    /// Internal consistency: for every live consumer, replaying its queue
    /// against its snapshot reproduces the live contents, all queued edits
    /// in range.
    pub closed spec fn inv(self) -> bool {
        &&& self.cursors@.len() == self.active@.len()
        &&& self.cursors@.len() == self.snaps@.len()
        &&& forall|t: int|
            0 <= t < self.cursors@.len() && self.active@[t] ==> {
                &&& #[trigger] self.cursors@[t] <= self.log@.len()
                &&& replay(self.snaps@[t], self.log@.skip(self.cursors@[t] as int)) == self.items@
                &&& edits_ok(self.snaps@[t].len(), self.log@.skip(self.cursors@[t] as int))
            }
    }

    /// An empty sequence with no consumers.
    pub fn new() -> (s: TrackedSequence<T>)
        ensures
            s.inv(),
            s.view() == Seq::<T>::empty(),
            forall|t: usize| !s.valid_token(t),
    {
        TrackedSequence {
            items: Vec::new(),
            log: Vec::new(),
            cursors: Vec::new(),
            active: Vec::new(),
            snaps: Ghost(Seq::empty()),
        }
    }

    /// Number of elements.
    pub fn len(&self) -> (n: usize)
        ensures
            n == self.view().len(),
    {
        self.items.len()
    }

    /// Read the element at `i`.
    pub fn get(&self, i: usize) -> (r: &T)
        requires
            i < self.view().len(),
        ensures
            *r == self.view()[i as int],
    {
        &self.items[i]
    }

    /// Subscribe a new consumer whose first drain will report no edits
    /// against the current full contents.
    pub fn register_consumer(&mut self) -> (t: usize)
        requires
            old(self).inv(),
        ensures
            final(self).inv(),
            final(self).view() == old(self).view(),
            final(self).valid_token(t),
            !old(self).valid_token(t),
            final(self).snapshot(t) == old(self).view(),
            final(self).pending(t) == Seq::<Edit<T>>::empty(),
            forall|t2: usize|
                t2 != t ==> (final(self).valid_token(t2) <==> old(self).valid_token(t2)),
            forall|t2: usize|
                t2 != t && old(self).valid_token(t2) ==> final(self).snapshot(t2) == old(self).snapshot(t2)
                    && final(self).pending(t2) == old(self).pending(t2),
    {
        let t = self.cursors.len();
        self.cursors.push(self.log.len());
        self.active.push(true);
        proof {
            self.snaps@ = self.snaps@.push(self.items@);
            assert(self.log@.skip(self.log@.len() as int) =~= Seq::<Edit<T>>::empty());
        }
        t
    }

    /// Unsubscribe consumer `t`; every other consumer's queue is untouched.
    pub fn remove_consumer(&mut self, t: usize)
        requires
            old(self).inv(),
            old(self).valid_token(t),
        ensures
            final(self).inv(),
            final(self).view() == old(self).view(),
            !final(self).valid_token(t),
            forall|t2: usize|
                t2 != t ==> (final(self).valid_token(t2) <==> old(self).valid_token(t2)),
            forall|t2: usize|
                t2 != t && old(self).valid_token(t2) ==> final(self).snapshot(t2) == old(self).snapshot(t2)
                    && final(self).pending(t2) == old(self).pending(t2),
    {
        self.active[t] = false;
    }

}

impl<T: Copy> TrackedSequence<T> {
    /// Return and clear the queue of consumer `t`. Replaying the returned
    /// edits against the consumer's last-seen snapshot yields exactly the
    /// live contents; no other consumer is affected.
    pub fn drain_edits(&mut self, t: usize) -> (r: Vec<Edit<T>>)
        requires
            old(self).inv(),
            old(self).valid_token(t),
        ensures
            final(self).inv(),
            r@ == old(self).pending(t),
            edits_ok(old(self).snapshot(t).len(), r@),
            replay(old(self).snapshot(t), r@) == old(self).view(),
            final(self).view() == old(self).view(),
            final(self).valid_token(t),
            final(self).snapshot(t) == old(self).view(),
            final(self).pending(t) == Seq::<Edit<T>>::empty(),
            forall|t2: usize|
                final(self).valid_token(t2) <==> old(self).valid_token(t2),
            forall|t2: usize|
                t2 != t && old(self).valid_token(t2) ==> final(self).snapshot(t2) == old(self).snapshot(t2)
                    && final(self).pending(t2) == old(self).pending(t2),
    {
        let start = self.cursors[t];
        let mut out: Vec<Edit<T>> = Vec::new();
        let mut i = start;
        while i < self.log.len()
            invariant
                start <= i <= self.log@.len(),
                out@ == self.log@.subrange(start as int, i as int),
            decreases self.log@.len() - i,
        {
            let e = self.log[i];
            out.push(e);
            proof {
                assert(self.log@.subrange(start as int, i + 1)
                    =~= self.log@.subrange(start as int, i as int).push(self.log@[i as int]));
            }
            i = i + 1;
        }
        self.cursors[t] = self.log.len();
        proof {
            self.snaps@ = self.snaps@.update(t as int, self.items@);
            assert(out@ =~= old(self).log@.skip(start as int));
            assert(self.log@.skip(self.log@.len() as int) =~= Seq::<Edit<T>>::empty());
        }
        out
    }

    /// After the items were edited and the edit recorded, every consumer's
    /// queue has grown by exactly that edit and replays to the new contents.
    proof fn lemma_after_mutate(pre: Self, post: Self, e: Edit<T>)
        requires
            pre.inv(),
            edit_ok(pre.items@.len(), e),
            post.items@ == apply_edit(pre.items@, e),
            post.log@ == pre.log@.push(e),
            post.cursors@ == pre.cursors@,
            post.active@ == pre.active@,
            post.snaps@ == pre.snaps@,
        ensures
            post.inv(),
            forall|t: usize| post.valid_token(t) <==> pre.valid_token(t),
            forall|t: usize| pre.valid_token(t) ==> post.snapshot(t) == pre.snapshot(t),
            forall|t: usize| pre.valid_token(t) ==> post.pending(t) == pre.pending(t).push(e),
    {
        assert forall|t: int| 0 <= t < pre.cursors@.len() && pre.active@[t] implies {
            &&& post.cursors@[t] <= post.log@.len()
            &&& replay(post.snaps@[t], post.log@.skip(post.cursors@[t] as int)) == post.items@
            &&& edits_ok(post.snaps@[t].len(), post.log@.skip(post.cursors@[t] as int))
            &&& post.log@.skip(post.cursors@[t] as int)
                == pre.log@.skip(pre.cursors@[t] as int).push(e)
        } by {
            let c = pre.cursors@[t] as int;
            let pend = pre.log@.skip(c);
            assert(post.log@.skip(c) =~= pend.push(e));
            lemma_replay_snoc(pre.snaps@[t], pend, e);
            lemma_replay_len(pre.snaps@[t], pend);
            lemma_edits_ok_snoc(pre.snaps@[t].len(), pend, e);
        }
    }

    /// Append `v` at the end and queue `Append` for every consumer.
    pub fn append(&mut self, v: T)
        requires
            old(self).inv(),
        ensures
            final(self).inv(),
            final(self).view() == old(self).view().push(v),
            forall|t: usize| final(self).valid_token(t) <==> old(self).valid_token(t),
            forall|t: usize| old(self).valid_token(t) ==> final(self).snapshot(t) == old(self).snapshot(t),
            forall|t: usize|
                old(self).valid_token(t) ==> final(self).pending(t) == old(self).pending(t).push(
                    Edit::Append(v),
                ),
    {
        let ghost pre = *self;
        self.items.push(v);
        self.log.push(Edit::Append(v));
        proof {
            Self::lemma_after_mutate(pre, *self, Edit::Append(v));
        }
    }

    /// Insert `v` at `i` and queue `Insert` for every consumer.
    pub fn insert(&mut self, i: usize, v: T)
        requires
            old(self).inv(),
            i <= old(self).view().len(),
        ensures
            final(self).inv(),
            final(self).view() == old(self).view().insert(i as int, v),
            forall|t: usize| final(self).valid_token(t) <==> old(self).valid_token(t),
            forall|t: usize| old(self).valid_token(t) ==> final(self).snapshot(t) == old(self).snapshot(t),
            forall|t: usize|
                old(self).valid_token(t) ==> final(self).pending(t) == old(self).pending(t).push(
                    Edit::Insert(i, v),
                ),
    {
        let ghost pre = *self;
        self.items.insert(i, v);
        self.log.push(Edit::Insert(i, v));
        proof {
            Self::lemma_after_mutate(pre, *self, Edit::Insert(i, v));
        }
    }

    /// Remove the element at `i` and queue `RemoveAt` for every consumer.
    pub fn remove_at(&mut self, i: usize)
        requires
            old(self).inv(),
            i < old(self).view().len(),
        ensures
            final(self).inv(),
            final(self).view() == old(self).view().remove(i as int),
            forall|t: usize| final(self).valid_token(t) <==> old(self).valid_token(t),
            forall|t: usize| old(self).valid_token(t) ==> final(self).snapshot(t) == old(self).snapshot(t),
            forall|t: usize|
                old(self).valid_token(t) ==> final(self).pending(t) == old(self).pending(t).push(
                    Edit::RemoveAt(i),
                ),
    {
        let ghost pre = *self;
        self.items.remove(i);
        self.log.push(Edit::RemoveAt(i));
        proof {
            Self::lemma_after_mutate(pre, *self, Edit::RemoveAt(i));
        }
    }

    /// Exchange the elements at `i` and `j` and queue `Swap`.
    pub fn swap(&mut self, i: usize, j: usize)
        requires
            old(self).inv(),
            i < old(self).view().len(),
            j < old(self).view().len(),
        ensures
            final(self).inv(),
            final(self).view() == old(self).view().update(i as int, old(self).view()[j as int]).update(
                j as int,
                old(self).view()[i as int],
            ),
            forall|t: usize| final(self).valid_token(t) <==> old(self).valid_token(t),
            forall|t: usize| old(self).valid_token(t) ==> final(self).snapshot(t) == old(self).snapshot(t),
            forall|t: usize|
                old(self).valid_token(t) ==> final(self).pending(t) == old(self).pending(t).push(
                    Edit::Swap(i, j),
                ),
    {
        let ghost pre = *self;
        let a = self.items[i];
        let b = self.items[j];
        self.items[i] = b;
        self.items[j] = a;
        self.log.push(Edit::Swap(i, j));
        proof {
            Self::lemma_after_mutate(pre, *self, Edit::Swap(i, j));
        }
    }

    /// Replace the element at `i` in place and queue `Overwrite`.
    pub fn overwrite(&mut self, i: usize, v: T)
        requires
            old(self).inv(),
            i < old(self).view().len(),
        ensures
            final(self).inv(),
            final(self).view() == old(self).view().update(i as int, v),
            forall|t: usize| final(self).valid_token(t) <==> old(self).valid_token(t),
            forall|t: usize| old(self).valid_token(t) ==> final(self).snapshot(t) == old(self).snapshot(t),
            forall|t: usize|
                old(self).valid_token(t) ==> final(self).pending(t) == old(self).pending(t).push(
                    Edit::Overwrite(i, v),
                ),
    {
        let ghost pre = *self;
        self.items[i] = v;
        self.log.push(Edit::Overwrite(i, v));
        proof {
            Self::lemma_after_mutate(pre, *self, Edit::Overwrite(i, v));
        }
    }

    /// Remove every element and queue `Clear`.
    pub fn clear(&mut self)
        requires
            old(self).inv(),
        ensures
            final(self).inv(),
            final(self).view() == Seq::<T>::empty(),
            forall|t: usize| final(self).valid_token(t) <==> old(self).valid_token(t),
            forall|t: usize| old(self).valid_token(t) ==> final(self).snapshot(t) == old(self).snapshot(t),
            forall|t: usize|
                old(self).valid_token(t) ==> final(self).pending(t) == old(self).pending(t).push(
                    Edit::Clear,
                ),
    {
        let ghost pre = *self;
        self.items.clear();
        self.log.push(Edit::Clear);
        proof {
            assert(self.items@ =~= apply_edit(pre.items@, Edit::Clear));
            Self::lemma_after_mutate(pre, *self, Edit::Clear);
        }
    }
}

} // verus!
