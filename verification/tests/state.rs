use marty::cli::Cli;
use marty::memory::{visit, Beliefs, Hotspot, Hotspots, Node, Trace};
use marty::paths::{expand_tilde, expand_tilde_with};
use marty::persistence::{
    needs_migration, normalize_state, state_path_under, State, MAX_BELIEFS, MAX_HOTSPOTS,
    MAX_TRACE_ENTRIES, STATE_VERSION,
};
use marty::signals::Signal;

fn many_hotspots(n: usize) -> Vec<(String, Hotspot)> {
    (0..n)
        .map(|i| {
            let p = format!("/d{}", i);
            (p.clone(), Hotspot { path: p, energy_bits: (i as f64).to_bits(), last_ts: 0 })
        })
        .collect()
}

#[test]
fn normalize_keeps_highest_energy() {
    let mut s = State { version: 0, hotspots: many_hotspots(150), beliefs: vec![], trace: vec![] };
    normalize_state(&mut s);
    assert_eq!(s.version, STATE_VERSION);
    assert_eq!(s.hotspots.len(), MAX_HOTSPOTS);
    let min_kept = s.hotspots.iter().map(|e| f64::from_bits(e.1.energy_bits)).fold(f64::MAX, f64::min);
    assert_eq!(min_kept, 50.0);
}

#[test]
fn normalize_keeps_newest_trace_and_first_beliefs() {
    let trace: Vec<Signal> = (0..600).map(|i| Signal::Visit { path: "/t".to_string(), ts: i }).collect();
    let beliefs: Vec<(String, Node)> = (0..1200)
        .map(|i| (format!("/b{}", i), Node { label: "l".to_string(), metadata: vec![] }))
        .collect();
    let mut s = State { version: 7, hotspots: many_hotspots(3), beliefs, trace };
    normalize_state(&mut s);
    assert_eq!(s.trace.len(), MAX_TRACE_ENTRIES);
    match &s.trace[0] {
        Signal::Visit { ts, .. } => assert_eq!(*ts, 100),
        _ => panic!(),
    }
    assert_eq!(s.beliefs.len(), MAX_BELIEFS);
    assert_eq!(s.beliefs[0].0, "/b0");
    assert_eq!(s.hotspots.len(), 3);
    normalize_state(&mut s);
    assert_eq!(s.trace.len(), MAX_TRACE_ENTRIES);
}

#[test]
fn capture_then_parts() {
    let mut hs = Hotspots::new();
    let mut tr = Trace::new();
    visit(&mut hs, &mut tr, "/p".to_string(), 1.0f64.to_bits(), 5);
    let st = State::capture(&hs, &Beliefs::new(), &tr);
    assert_eq!(st.version, 1);
    let (h2, b2, t2) = st.into_parts();
    assert_eq!(h2.items[0].0, "/p");
    assert!(b2.nodes.is_empty());
    assert_eq!(t2.entries.len(), 1);
}

#[test]
fn capture_caps_only_the_copy() {
    let hs = Hotspots { items: many_hotspots(150) };
    let tr = Trace { entries: (0..600).map(|i| Signal::Visit { path: "/t".to_string(), ts: i }).collect() };
    let bs = Beliefs {
        nodes: (0..1200).map(|i| (format!("/b{}", i), Node { label: "l".to_string(), metadata: vec![] })).collect(),
    };
    let st = State::capture(&hs, &bs, &tr);
    assert_eq!(st.hotspots.len(), MAX_HOTSPOTS);
    assert_eq!(st.trace.len(), MAX_TRACE_ENTRIES);
    assert_eq!(st.beliefs.len(), MAX_BELIEFS);
    assert_eq!(hs.items.len(), 150);
    assert_eq!(tr.entries.len(), 600);
    assert_eq!(bs.nodes.len(), 1200);
    assert_eq!(hs.items[0].0, "/d0");
    match &tr.entries[0] {
        Signal::Visit { ts, .. } => assert_eq!(*ts, 0),
        _ => panic!(),
    }
}

#[test]
fn migration_versions() {
    assert!(!needs_migration(0));
    assert!(!needs_migration(1));
    assert!(needs_migration(2));
}

#[test]
fn state_paths() {
    assert_eq!(state_path_under(Some("/home/al".to_string())), "/home/al/.marty/state.json");
    assert_eq!(state_path_under(None), "./.marty/state.json");
    let cli = Cli { state: Some("/tmp/s.json".to_string()), command: None };
    assert_eq!(cli.state_path(), "/tmp/s.json");
    let cli = Cli { state: None, command: None };
    assert!(cli.state_path().ends_with(".marty/state.json"));
}

#[test]
fn tilde_expansion() {
    assert_eq!(expand_tilde_with("~", Some("/home/al".to_string())), "/home/al");
    assert_eq!(expand_tilde_with("~/w", Some("/home/al".to_string())), "/home/al/w");
    assert_eq!(expand_tilde_with("~/w", None), "./w");
    assert_eq!(expand_tilde_with("~x", Some("/h".to_string())), "~x");
    assert_eq!(expand_tilde_with("/abs", Some("/h".to_string())), "/abs");
    assert!(!expand_tilde("~").starts_with('~'));
}
