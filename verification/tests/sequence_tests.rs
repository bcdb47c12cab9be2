use ui4::tracked_seq::{Edit, TrackedSequence};

fn contents(s: &TrackedSequence<u64>) -> Vec<u64> {
    let mut out = Vec::new();
    let mut i = 0;
    while i < s.len() {
        out.push(*s.get(i));
        i += 1;
    }
    out
}

fn replay_edits(snapshot: &[u64], edits: &[Edit<u64>]) -> Vec<u64> {
    let mut cur: Vec<u64> = snapshot.to_vec();
    for e in edits {
        match *e {
            Edit::Append(v) => cur.push(v),
            Edit::Insert(i, v) => cur.insert(i, v),
            Edit::RemoveAt(i) => {
                cur.remove(i);
            },
            Edit::Swap(i, j) => cur.swap(i, j),
            Edit::Clear => cur.clear(),
            Edit::Overwrite(i, v) => cur[i] = v,
        }
    }
    cur
}

#[test]
fn edits_are_recorded_in_order() {
    let mut s: TrackedSequence<u64> = TrackedSequence::new();
    let t = s.register_consumer();
    s.append(1);
    s.append(2);
    s.insert(1, 9);
    s.remove_at(0);
    s.swap(0, 1);
    s.overwrite(1, 5);
    let edits = s.drain_edits(t);
    assert_eq!(
        edits,
        vec![
            Edit::Append(1),
            Edit::Append(2),
            Edit::Insert(1, 9),
            Edit::RemoveAt(0),
            Edit::Swap(0, 1),
            Edit::Overwrite(1, 5),
        ]
    );
    assert_eq!(contents(&s), vec![2, 5]);
}

#[test]
fn replaying_a_drain_reproduces_the_live_sequence() {
    let mut s: TrackedSequence<u64> = TrackedSequence::new();
    s.append(10);
    s.append(20);
    let t = s.register_consumer();
    let snapshot = contents(&s);
    s.insert(1, 15);
    s.remove_at(0);
    s.append(30);
    s.swap(0, 2);
    s.overwrite(1, 99);
    let edits = s.drain_edits(t);
    assert_eq!(replay_edits(&snapshot, &edits), contents(&s));

    // The queue was cleared: replaying a fresh drain against the new
    // snapshot is the identity.
    let snapshot = contents(&s);
    let edits = s.drain_edits(t);
    assert!(edits.is_empty());
    assert_eq!(replay_edits(&snapshot, &edits), contents(&s));
}

#[test]
fn a_new_consumer_first_sees_no_edits() {
    let mut s: TrackedSequence<u64> = TrackedSequence::new();
    s.append(1);
    s.append(2);
    let t = s.register_consumer();
    assert!(s.drain_edits(t).is_empty());
}

#[test]
fn consumers_have_independent_queues() {
    let mut s: TrackedSequence<u64> = TrackedSequence::new();
    let t1 = s.register_consumer();
    s.append(1);
    let t2 = s.register_consumer();
    s.append(2);

    let e1 = s.drain_edits(t1);
    assert_eq!(e1, vec![Edit::Append(1), Edit::Append(2)]);

    // Draining the first consumer did not disturb the second.
    let e2 = s.drain_edits(t2);
    assert_eq!(e2, vec![Edit::Append(2)]);

    s.append(3);
    assert_eq!(s.drain_edits(t1), vec![Edit::Append(3)]);
    assert_eq!(s.drain_edits(t2), vec![Edit::Append(3)]);
}

#[test]
fn removing_a_consumer_leaves_others_alone() {
    let mut s: TrackedSequence<u64> = TrackedSequence::new();
    let t1 = s.register_consumer();
    let t2 = s.register_consumer();
    s.append(4);
    s.remove_consumer(t1);
    s.append(5);
    assert_eq!(s.drain_edits(t2), vec![Edit::Append(4), Edit::Append(5)]);
}

#[test]
fn clear_empties_and_is_replayable() {
    let mut s: TrackedSequence<u64> = TrackedSequence::new();
    s.append(1);
    s.append(2);
    let t = s.register_consumer();
    let snapshot = contents(&s);
    s.clear();
    s.append(8);
    let edits = s.drain_edits(t);
    assert_eq!(edits, vec![Edit::Clear, Edit::Append(8)]);
    assert_eq!(replay_edits(&snapshot, &edits), vec![8]);
    assert_eq!(contents(&s), vec![8]);
}
