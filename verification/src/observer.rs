//! Pull-based, composable reads over the world, with change detection.
//!
//! An [`Observer`] is polled once per tick and yields its optional current
//! value together with a flag saying whether that value changed since the
//! previous poll. Primitive observers ([`res`], [`single`]) read one piece
//! of external state and report "changed" when that cell was written this
//! tick; combinators (`map`, `and`, `dedup`) build new observers from
//! existing ones without knowing the underlying data source. Absence of a
//! dependency propagates as `None`, never as a fault, and polling is
//! deterministic: what comes back is a function of the observer's state
//! and the world alone.

use vstd::prelude::*;
use crate::world::World;

verus! {

/// A value an observer can emit: a scalar, or a pair built by `and`.
#[derive(Debug)]
pub enum Value {
    /// A scalar read from a resource or component.
    U(u64),
    /// The pairing of two observed values.
    Pair(Box<Value>, Box<Value>),
}

/// Structural equality of two observed values.
pub fn value_eq(a: &Value, b: &Value) -> (r: bool)
    ensures
        r == (a == b),
    decreases a,
{
    match (a, b) {
        (Value::U(x), Value::U(y)) => x == y,
        (Value::Pair(a1, a2), Value::Pair(b1, b2)) => value_eq(a1, b1) && value_eq(a2, b2),
        _ => false,
    }
}

/// A copy of an observed value.
pub fn value_clone(v: &Value) -> (r: Value)
    ensures
        r == *v,
    decreases v,
{
    match v {
        Value::U(x) => Value::U(*x),
        Value::Pair(a, b) => Value::Pair(Box::new(value_clone(a)), Box::new(value_clone(b))),
    }
}

/// Structural equality of two optional observed values.
pub fn opt_value_eq(a: &Option<Value>, b: &Option<Value>) -> (r: bool)
    ensures
        r == (a == b),
{
    match (a, b) {
        (Some(x), Some(y)) => value_eq(x, y),
        (None, None) => true,
        _ => false,
    }
}

/// A copy of an optional observed value.
pub fn opt_value_clone(v: &Option<Value>) -> (r: Option<Value>)
    ensures
        r == *v,
{
    match v {
        Some(x) => Some(value_clone(x)),
        None => None,
    }
}

/// A pure transformation a `map` observer applies to each emitted value.
pub enum MapFn {
    /// Pass the value through.
    Ident,
    /// Project the left half of a pair; other values pass through.
    Fst,
    /// Project the right half of a pair; other values pass through.
    Snd,
}

/// What a [`MapFn`] does to a value.
pub open spec fn map_spec(f: MapFn, v: Value) -> Value {
    match f {
        MapFn::Ident => v,
        MapFn::Fst => match v { Value::Pair(a, _) => *a, _ => v },
        MapFn::Snd => match v { Value::Pair(_, b) => *b, _ => v },
    }
}

/// Apply a [`MapFn`] to a value.
pub fn map_apply(f: &MapFn, v: Value) -> (r: Value)
    ensures
        r == map_spec(*f, v),
{
    match f {
        MapFn::Ident => v,
        MapFn::Fst => match v { Value::Pair(a, _) => *a, other => other },
        MapFn::Snd => match v { Value::Pair(_, b) => *b, other => other },
    }
}

/// A composable, pollable read with change detection. Observers are built
/// once at setup time and own no entities; `dedup` is the one stateful
/// variant, remembering the value it last emitted.
pub enum Observer {
    /// Read the resource with this key.
    Res(u64),
    /// Read this component key on this single bound entity.
    Single(u64, u64),
    /// Transform the base observer's value; change passes through.
    Mapped(MapFn, Box<Observer>),
    /// Pair two observers; present only when both are, changed when either is.
    And(Box<Observer>, Box<Observer>),
    /// Suppress "changed" whenever the newly polled value equals the last
    /// emitted one, held in the second field.
    Dedup(Box<Observer>, Option<Value>),
}

impl Observer {
    /// The value this observer emits against world `w`.
    pub open spec fn value(self, w: World) -> Option<Value>
        decreases self,
    {
        match self {
            Observer::Res(k) => match w.res_value(k) {
                Some(x) => Some(Value::U(x)),
                None => None,
            },
            Observer::Single(e, k) => match w.comp_value(e, k) {
                Some(x) => Some(Value::U(x)),
                None => None,
            },
            Observer::Mapped(f, o) => match o.value(w) {
                Some(v) => Some(map_spec(f, v)),
                None => None,
            },
            Observer::And(a, b) => match (a.value(w), b.value(w)) {
                (Some(x), Some(y)) => Some(Value::Pair(Box::new(x), Box::new(y))),
                _ => None,
            },
            Observer::Dedup(o, _) => o.value(w),
        }
    }

    /// The change flag this observer reports against world `w`.
    pub open spec fn changed(self, w: World) -> bool
        decreases self,
    {
        match self {
            Observer::Res(k) => w.res_touched(k),
            Observer::Single(e, k) => w.comp_touched(e, k),
            Observer::Mapped(_, o) => o.changed(w),
            Observer::And(a, b) => a.changed(w) || b.changed(w),
            Observer::Dedup(o, last) => o.value(w) != last,
        }
    }

    /// The observer's state after one poll against world `w`.
    pub open spec fn step(self, w: World) -> Observer
        decreases self,
    {
        match self {
            Observer::Res(k) => Observer::Res(k),
            Observer::Single(e, k) => Observer::Single(e, k),
            Observer::Mapped(f, o) => Observer::Mapped(f, Box::new(o.step(w))),
            Observer::And(a, b) => Observer::And(Box::new(a.step(w)), Box::new(b.step(w))),
            Observer::Dedup(o, _) => Observer::Dedup(Box::new(o.step(w)), o.value(w)),
        }
    }

    /// Poll once: yield the current optional value and whether it changed
    /// since the previous poll, updating any remembered state.
    pub fn poll(&mut self, w: &World) -> (r: (Option<Value>, bool))
        ensures
            *final(self) == old(self).step(*w),
            r.0 == old(self).value(*w),
            r.1 == old(self).changed(*w),
        decreases *old(self),
    {
        match self {
            Observer::Res(k) => {
                let v = match w.get_res(*k) {
                    Some(x) => Some(Value::U(x)),
                    None => None,
                };
                let ch = w.check_res_touched(*k);
                (v, ch)
            },
            Observer::Single(e, k) => {
                let v = match w.get_component(*e, *k) {
                    Some(x) => Some(Value::U(x)),
                    None => None,
                };
                let ch = w.check_comp_touched(*e, *k);
                (v, ch)
            },
            Observer::Mapped(f, o) => {
                let (v, ch) = o.poll(w);
                let v = match v {
                    Some(x) => Some(map_apply(f, x)),
                    None => None,
                };
                (v, ch)
            },
            Observer::And(a, b) => {
                let (va, ca) = a.poll(w);
                let (vb, cb) = b.poll(w);
                let v = match (va, vb) {
                    (Some(x), Some(y)) => Some(Value::Pair(Box::new(x), Box::new(y))),
                    _ => None,
                };
                (v, ca || cb)
            },
            Observer::Dedup(o, last) => {
                let (v, _ch) = o.poll(w);
                let ch = !opt_value_eq(&v, last);
                *last = opt_value_clone(&v);
                (v, ch)
            },
        }
    }

    /// Wrap this observer so its values run through `f`; the change flag
    /// passes through untouched.
    pub fn map(self, f: MapFn) -> (r: Observer)
        ensures
            r == Observer::Mapped(f, Box::new(self)),
    {
        Observer::Mapped(f, Box::new(self))
    }

    /// Pair this observer with `other`: available only when both are,
    /// changed when either is.
    pub fn and(self, other: Observer) -> (r: Observer)
        ensures
            r == Observer::And(Box::new(self), Box::new(other)),
    {
        Observer::And(Box::new(self), Box::new(other))
    }

    /// Remember the last emitted value and suppress `changed` whenever the
    /// new value compares equal to it.
    pub fn dedup(self) -> (r: Observer)
        ensures
            r == Observer::Dedup(Box::new(self), None),
    {
        Observer::Dedup(Box::new(self), None)
    }
}

/// Observer of the resource named `key`.
pub fn res(key: u64) -> (r: Observer)
    ensures
        r == Observer::Res(key),
{
    Observer::Res(key)
}

/// Observer of component `key` on the single bound entity `e`.
pub fn single(e: u64, key: u64) -> (r: Observer)
    ensures
        r == Observer::Single(e, key),
{
    Observer::Single(e, key)
}

/// Change suppression: when two consecutive polls of the base observer
/// yield equal values, the second poll of its `dedup` reports no change.
pub proof fn lemma_dedup_suppresses(base: Observer, last: Option<Value>, w1: World, w2: World)
    requires
        base.value(w1) == base.step(w1).value(w2),
    ensures
        !Observer::Dedup(Box::new(base), last).step(w1).changed(w2),
{
}

} // verus!
