use marty::memory::{energy_rank_of, tag, visit, Hotspot, Hotspots, Trace};
use marty::signals::Signal;

fn bits(x: f64) -> u64 {
    x.to_bits()
}

#[test]
fn visit_creates_then_updates_a_hotspot() {
    let mut hs = Hotspots::new();
    let mut trace = Trace::new();
    assert_eq!(hs.energy_of(&"/p".to_string()), None);
    visit(&mut hs, &mut trace, "/p".to_string(), bits(1.0), 100);
    assert_eq!(hs.energy_of(&"/p".to_string()), Some(bits(1.0)));
    visit(&mut hs, &mut trace, "/p".to_string(), bits(2.0), 200);
    assert_eq!(hs.len(), 1);
    assert_eq!(hs.items[0].1.energy_bits, bits(2.0));
    assert_eq!(hs.items[0].1.last_ts, 200);
    assert_eq!(hs.items[0].1.path, "/p");
    assert_eq!(trace.entries.len(), 2);
    match &trace.entries[1] {
        Signal::Visit { path, ts } => {
            assert_eq!(path, "/p");
            assert_eq!(*ts, 200);
        }
        other => panic!("unexpected {:?}", other),
    }
}

#[test]
fn visit_leaves_other_hotspots() {
    let mut hs = Hotspots::new();
    let mut trace = Trace::new();
    visit(&mut hs, &mut trace, "/a".to_string(), bits(1.0), 1);
    visit(&mut hs, &mut trace, "/b".to_string(), bits(1.0), 2);
    visit(&mut hs, &mut trace, "/a".to_string(), bits(2.0), 3);
    assert_eq!(hs.energy_of(&"/b".to_string()), Some(bits(1.0)));
    assert_eq!(hs.energy_of(&"/a".to_string()), Some(bits(2.0)));
}

#[test]
fn energy_ranks_follow_the_doubles() {
    let values = [-3.5, -1.0, 0.0, 0.5, 1.0, 2.0, 1e300];
    for w in values.windows(2) {
        assert!(energy_rank_of(bits(w[0])) < energy_rank_of(bits(w[1])));
    }
}

#[test]
fn ranked_puts_highest_energy_first() {
    let mut hs = Hotspots::new();
    let mut trace = Trace::new();
    visit(&mut hs, &mut trace, "/low".to_string(), bits(0.5), 1);
    visit(&mut hs, &mut trace, "/high".to_string(), bits(9.0), 1);
    visit(&mut hs, &mut trace, "/mid".to_string(), bits(3.0), 1);
    let r: Vec<String> = hs.ranked().into_iter().map(|h| h.path).collect();
    assert_eq!(r, vec!["/high", "/mid", "/low"]);
    let t: Vec<String> = hs.top(2).into_iter().map(|h| h.path).collect();
    assert_eq!(t, vec!["/high", "/mid"]);
    assert_eq!(hs.top(10).len(), 3);
}

#[test]
fn set_energy_at_changes_only_energy() {
    let mut hs = Hotspots::new();
    let mut trace = Trace::new();
    visit(&mut hs, &mut trace, "/a".to_string(), bits(1.0), 7);
    hs.set_energy_at(0, bits(0.95));
    assert_eq!(hs.items[0].1.energy_bits, bits(0.95));
    assert_eq!(hs.items[0].1.last_ts, 7);
    assert_eq!(hs.items[0].0, "/a");
}

#[test]
fn recent_is_newest_first() {
    let mut trace = Trace::new();
    for i in 0..5 {
        tag(&mut trace, format!("/d{}", i), "t".to_string(), i);
    }
    let r = trace.recent(3);
    let ts: Vec<i64> = r
        .iter()
        .map(|s| match s {
            Signal::Tag { ts, .. } => *ts,
            _ => -1,
        })
        .collect();
    assert_eq!(ts, vec![4, 3, 2]);
    assert_eq!(trace.recent(50).len(), 5);
}

#[test]
fn hotspot_copies_are_equal() {
    let h = Hotspot { path: "/x".to_string(), energy_bits: 3, last_ts: 4 };
    let c = h.duplicate();
    assert_eq!(c.path, "/x");
    assert_eq!(c.energy_bits, 3);
    assert_eq!(c.last_ts, 4);
}

#[test]
fn timestamp_now_is_recent() {
    assert!(Signal::timestamp_now() > 1_600_000_000);
}
