use marty::metrics::{encode_families, gather_metrics};
use marty::tui::{next_index, previous_index, shown_selection, Key, TuiState};

#[test]
fn selection_wraps() {
    assert_eq!(next_index(None, 3), Some(0));
    assert_eq!(next_index(Some(2), 3), Some(0));
    assert_eq!(next_index(Some(0), 3), Some(1));
    assert_eq!(previous_index(Some(0), 3), Some(2));
    assert_eq!(previous_index(None, 3), Some(2));
    assert_eq!(next_index(Some(1), 0), Some(1));
    assert_eq!(shown_selection(None, 2), Some(0));
    assert_eq!(shown_selection(None, 0), None);
}

#[test]
fn down_then_up_returns() {
    for i in 0..4 {
        assert_eq!(previous_index(next_index(Some(i), 4), 4), Some(i));
    }
}

#[test]
fn keys_move_tabs_and_selection() {
    let mut s = TuiState::new();
    s.handle_key(Key::Down, 2, 0, 70);
    assert_eq!(s.hotspots_selected, Some(0));
    s.handle_key(Key::PreviousTab, 2, 0, 70);
    assert_eq!(s.active_tab, 2);
    s.handle_key(Key::Up, 2, 0, 70);
    assert_eq!(s.trace_selected, Some(49));
    s.handle_key(Key::NextTab, 2, 0, 70);
    assert_eq!(s.active_tab, 0);
    assert!(!s.should_quit);
    s.handle_key(Key::Quit, 2, 0, 70);
    assert!(s.should_quit);
}

#[test]
fn metrics_text_lists_the_counter() {
    let registry = prometheus::Registry::new();
    let counter = prometheus::IntCounter::with_opts(prometheus::Opts::new(
        "http_requests_total",
        "Total number of HTTP requests",
    ))
    .unwrap();
    registry.register(Box::new(counter.clone())).unwrap();
    counter.inc();
    let text = gather_metrics(&registry).unwrap();
    assert!(text.contains("http_requests_total 1"));
}

#[test]
fn tabs_go_round() {
    let mut s = TuiState::new();
    for _ in 0..3 {
        s.handle_key(Key::NextTab, 0, 0, 0);
    }
    assert_eq!(s.active_tab, 0);
    s.handle_key(Key::NextTab, 0, 0, 0);
    s.handle_key(Key::PreviousTab, 0, 0, 0);
    assert_eq!(s.active_tab, 0);
    s.handle_key(Key::Other, 0, 0, 0);
    assert_eq!(s.active_tab, 0);
    assert_eq!(s.hotspots_selected, None);
}

struct UntypedCollector {
    desc: prometheus::core::Desc,
}

impl prometheus::core::Collector for UntypedCollector {
    fn desc(&self) -> Vec<&prometheus::core::Desc> {
        vec![&self.desc]
    }

    fn collect(&self) -> Vec<prometheus::proto::MetricFamily> {
        let mut untyped = prometheus::proto::Untyped::new();
        untyped.set_value(1.0);
        let mut metric = prometheus::proto::Metric::new();
        metric.set_untyped(untyped);
        let mut family = prometheus::proto::MetricFamily::default();
        family.set_name("odd_metric".to_string());
        family.set_help("an untyped metric".to_string());
        family.set_field_type(prometheus::proto::MetricType::UNTYPED);
        family.set_metric(vec![metric]);
        vec![family]
    }
}

#[test]
fn untyped_families_are_refused_not_encoded() {
    let registry = prometheus::Registry::new();
    let desc = prometheus::core::Desc::new(
        "odd_metric".to_string(),
        "an untyped metric".to_string(),
        vec![],
        std::collections::HashMap::new(),
    )
    .unwrap();
    registry.register(Box::new(UntypedCollector { desc })).unwrap();
    match gather_metrics(&registry) {
        Err(marty::error::MartyError::Http(m)) => {
            assert_eq!(m, "untyped metric families cannot be encoded as text")
        }
        other => panic!("unexpected {:?}", other),
    }
}

#[test]
fn families_encode_as_prometheus_text() {
    let registry = prometheus::Registry::new();
    let counter = prometheus::IntCounter::with_opts(prometheus::Opts::new("visits_total", "Visits")).unwrap();
    registry.register(Box::new(counter.clone())).unwrap();
    counter.inc_by(3);
    let families = registry.gather();
    let text = encode_families(&families).unwrap();
    assert_eq!(text, "# HELP visits_total Visits\n# TYPE visits_total counter\nvisits_total 3\n");
    assert_eq!(encode_families(&Vec::new()).unwrap(), "");
}

#[test]
fn untyped_family_in_a_list_is_refused() {
    let mut family = prometheus::proto::MetricFamily::default();
    family.set_name("odd".to_string());
    family.set_field_type(prometheus::proto::MetricType::UNTYPED);
    family.mut_metric().push(prometheus::proto::Metric::default());
    match encode_families(&vec![family]) {
        Err(marty::error::MartyError::Http(m)) => {
            assert_eq!(m, "untyped metric families cannot be encoded as text")
        }
        other => panic!("unexpected {:?}", other),
    }
}

#[test]
fn nameless_family_is_an_http_error() {
    let mut family = prometheus::proto::MetricFamily::default();
    family.set_field_type(prometheus::proto::MetricType::COUNTER);
    family.mut_metric().push(prometheus::proto::Metric::default());
    assert!(matches!(encode_families(&vec![family]), Err(marty::error::MartyError::Http(_))));
}
