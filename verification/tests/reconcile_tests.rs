use ui4::childable::{mount_tracked, OptionalSlot, TrackedSite};
use ui4::observer::res;
use ui4::tracked_seq::TrackedSequence;
use ui4::world::World;

const KEY: u64 = 100;

fn children_of(site: &TrackedSite) -> Vec<u64> {
    let mut out = Vec::new();
    let mut i = 0;
    while i < site.child_count() {
        out.push(site.child_at(i));
        i += 1;
    }
    out
}

#[test]
fn mounting_builds_one_child_per_element() {
    let mut w = World::new();
    let mut s: TrackedSequence<u64> = TrackedSequence::new();
    s.append(10);
    s.append(20);
    s.append(30);
    let site = mount_tracked(&mut s, KEY, &mut w);
    let cs = children_of(&site);
    assert_eq!(cs.len(), 3);
    assert_eq!(w.get_component(cs[0], KEY), Some(10));
    assert_eq!(w.get_component(cs[1], KEY), Some(20));
    assert_eq!(w.get_component(cs[2], KEY), Some(30));
}

#[test]
fn insert_then_remove_scenario() {
    // Sequence ["a","b"] reconciled to two children; Insert(1,"x") must
    // slot one fresh child between them without touching either; then
    // RemoveAt(0) must despawn exactly the first child.
    let a = 'a' as u64;
    let b = 'b' as u64;
    let x = 'x' as u64;
    let mut w = World::new();
    let mut s: TrackedSequence<u64> = TrackedSequence::new();
    s.append(a);
    s.append(b);
    let mut site = mount_tracked(&mut s, KEY, &mut w);
    let cs = children_of(&site);
    let (e0, e1) = (cs[0], cs[1]);

    s.insert(1, x);
    site.tick(&mut s, &mut w);
    let cs = children_of(&site);
    assert_eq!(cs.len(), 3);
    assert_eq!(cs[0], e0);
    assert_eq!(cs[2], e1);
    let e_new = cs[1];
    assert_ne!(e_new, e0);
    assert_ne!(e_new, e1);
    assert_eq!(w.get_component(e0, KEY), Some(a));
    assert_eq!(w.get_component(e_new, KEY), Some(x));
    assert_eq!(w.get_component(e1, KEY), Some(b));

    s.remove_at(0);
    site.tick(&mut s, &mut w);
    let cs = children_of(&site);
    assert_eq!(cs, vec![e_new, e1]);
    assert!(!w.check_live(e0));
    assert!(w.check_live(e_new));
    assert!(w.check_live(e1));
}

#[test]
fn swap_preserves_identity() {
    // [a,b,c] reconciled to [Ea,Eb,Ec]; Swap(0,2) must yield [Ec,Eb,Ea]
    // with no entity destroyed or recreated.
    let mut w = World::new();
    let mut s: TrackedSequence<u64> = TrackedSequence::new();
    s.append(1);
    s.append(2);
    s.append(3);
    let mut site = mount_tracked(&mut s, KEY, &mut w);
    let cs = children_of(&site);
    let (ea, eb, ec) = (cs[0], cs[1], cs[2]);

    s.swap(0, 2);
    site.tick(&mut s, &mut w);
    assert_eq!(children_of(&site), vec![ec, eb, ea]);
    assert!(w.check_live(ea));
    assert!(w.check_live(eb));
    assert!(w.check_live(ec));
}

#[test]
fn insert_spawns_exactly_one_and_remove_destroys_exactly_one() {
    let mut w = World::new();
    let mut s: TrackedSequence<u64> = TrackedSequence::new();
    s.append(1);
    s.append(2);
    s.append(3);
    let mut site = mount_tracked(&mut s, KEY, &mut w);
    let before = children_of(&site);

    s.insert(1, 9);
    site.tick(&mut s, &mut w);
    let after = children_of(&site);
    assert_eq!(after.len(), 4);
    // Every previous child is still present and live; one single new id.
    for e in &before {
        assert!(after.contains(e));
        assert!(w.check_live(*e));
    }
    let fresh: Vec<u64> = after.iter().copied().filter(|e| !before.contains(e)).collect();
    assert_eq!(fresh.len(), 1);

    let before = after;
    s.remove_at(1);
    site.tick(&mut s, &mut w);
    let after = children_of(&site);
    assert_eq!(after.len(), 3);
    let gone: Vec<u64> = before.iter().copied().filter(|e| !after.contains(e)).collect();
    assert_eq!(gone.len(), 1);
    assert!(!w.check_live(gone[0]));
    for e in &after {
        assert!(w.check_live(*e));
    }
}

#[test]
fn tick_without_edits_is_a_no_op() {
    let mut w = World::new();
    let mut s: TrackedSequence<u64> = TrackedSequence::new();
    s.append(5);
    s.append(6);
    let mut site = mount_tracked(&mut s, KEY, &mut w);
    let before = children_of(&site);
    site.tick(&mut s, &mut w);
    assert_eq!(children_of(&site), before);
    site.tick(&mut s, &mut w);
    assert_eq!(children_of(&site), before);
    for e in &before {
        assert!(w.check_live(*e));
    }
}

#[test]
fn overwrite_rebinds_in_place() {
    let mut w = World::new();
    let mut s: TrackedSequence<u64> = TrackedSequence::new();
    s.append(5);
    let mut site = mount_tracked(&mut s, KEY, &mut w);
    let e = children_of(&site)[0];
    s.overwrite(0, 42);
    site.tick(&mut s, &mut w);
    assert_eq!(children_of(&site), vec![e]);
    assert_eq!(w.get_component(e, KEY), Some(42));
}

#[test]
fn item_observers_see_overwrites_without_churn() {
    let mut w = World::new();
    let mut s: TrackedSequence<u64> = TrackedSequence::new();
    s.append(5);
    let mut site = mount_tracked(&mut s, KEY, &mut w);
    let e = site.child_at(0);
    let mut leaf = site.item_observer(0);
    let (v, _) = leaf.poll(&w);
    assert!(matches!(v, Some(ui4::observer::Value::U(5))));
    w.end_tick();

    s.overwrite(0, 42);
    site.tick(&mut s, &mut w);
    // Same entity, and the leaf binding picks the new value up on its own.
    assert_eq!(site.child_at(0), e);
    let (v, ch) = leaf.poll(&w);
    assert!(matches!(v, Some(ui4::observer::Value::U(42))));
    assert!(ch);
}

#[test]
fn clear_despawns_every_child() {
    let mut w = World::new();
    let mut s: TrackedSequence<u64> = TrackedSequence::new();
    s.append(1);
    s.append(2);
    let mut site = mount_tracked(&mut s, KEY, &mut w);
    let before = children_of(&site);
    s.clear();
    site.tick(&mut s, &mut w);
    assert_eq!(site.child_count(), 0);
    for e in &before {
        assert!(!w.check_live(*e));
    }
}

#[test]
fn unmount_despawns_children_and_drops_the_consumer() {
    let mut w = World::new();
    let mut s: TrackedSequence<u64> = TrackedSequence::new();
    s.append(1);
    s.append(2);
    let site = mount_tracked(&mut s, KEY, &mut w);
    let before = children_of(&site);
    site.unmount(&mut s, &mut w);
    for e in &before {
        assert!(!w.check_live(*e));
    }
}

#[test]
fn optional_slot_toggles_across_ticks() {
    // Source toggles Some(5) -> None -> Some(7): the first tick spawns a
    // child bound to 5, the second despawns it, the third spawns a fresh
    // child (a new identity) bound to 7.
    let mut w = World::new();
    let mut slot = OptionalSlot::new(res(1), KEY);

    w.set_res(1, 5);
    slot.tick(&mut w);
    let first = slot.mounted_entity().expect("child after first tick");
    assert_eq!(w.get_component(first, KEY), Some(5));
    w.end_tick();

    w.clear_res(1);
    slot.tick(&mut w);
    assert!(slot.mounted_entity().is_none());
    assert!(!w.check_live(first));
    w.end_tick();

    w.set_res(1, 7);
    slot.tick(&mut w);
    let second = slot.mounted_entity().expect("child after third tick");
    assert_ne!(second, first);
    assert_eq!(w.get_component(second, KEY), Some(7));
}

#[test]
fn optional_slot_keeps_entity_on_value_change() {
    let mut w = World::new();
    let mut slot = OptionalSlot::new(res(1), KEY);
    w.set_res(1, 5);
    slot.tick(&mut w);
    let e = slot.mounted_entity().unwrap();
    w.end_tick();

    // The value changes but the slot stays populated: the entity is left
    // in place, leaf bindings pick the new value up on their own.
    w.set_res(1, 6);
    slot.tick(&mut w);
    assert_eq!(slot.mounted_entity(), Some(e));
    assert!(w.check_live(e));
}

#[test]
fn optional_slot_unchanged_source_does_nothing() {
    let mut w = World::new();
    let mut slot = OptionalSlot::new(res(1), KEY);
    w.set_res(1, 5);
    slot.tick(&mut w);
    let e = slot.mounted_entity().unwrap();
    w.end_tick();

    slot.tick(&mut w);
    assert_eq!(slot.mounted_entity(), Some(e));
    slot.tick(&mut w);
    assert_eq!(slot.mounted_entity(), Some(e));
}
