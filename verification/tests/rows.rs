use marty::memory::Node;
use marty::rows::{
    belief_details, belief_label, signal_details, signed_decimal_string, trace_item, trace_row,
    DetailLine, ItemTone, RowDetail,
};
use marty::signals::{epoch_seconds_of, Signal};

fn texts(v: Vec<DetailLine>) -> Vec<String> {
    v.into_iter()
        .map(|l| match l {
            DetailLine::Text(t) => t,
            DetailLine::WeightBits(b) => format!("<{}>", f64::from_bits(b)),
        })
        .collect()
}

#[test]
fn trace_rows_per_signal() {
    let row = trace_row(&Signal::Tag { path: "/p".to_string(), tag: "api".to_string(), ts: 3 }).unwrap();
    assert_eq!(row.icon, "🏷️");
    assert_eq!(row.path, "/p");
    assert_eq!(row.ts, 3);
    assert!(matches!(row.detail, RowDetail::Text(ref t) if t == "Tag: api"));
    let row = trace_row(&Signal::Reinforce { path: "/p".to_string(), weight_bits: 2.5f64.to_bits(), ts: 3 }).unwrap();
    assert!(matches!(row.detail, RowDetail::WeightBits(b) if f64::from_bits(b) == 2.5));
    let row = trace_row(&Signal::Visit { path: "/v".to_string(), ts: 1 }).unwrap();
    assert!(matches!(row.detail, RowDetail::Text(ref t) if t.is_empty()));
    assert!(trace_row(&Signal::Promote { path: "/p".to_string(), ts: 1 }).is_none());
    assert!(trace_row(&Signal::Demote { path: "/p".to_string(), reason: "r".to_string(), ts: 1 }).is_none());
}

#[test]
fn trace_items_and_details() {
    let tag = Signal::Tag { path: "/p".to_string(), tag: "x".to_string(), ts: -5 };
    assert_eq!(trace_item(&tag), (ItemTone::Tag, "🏷️", "/p (Tag: x)".to_string()));
    assert_eq!(
        trace_item(&Signal::Promote { path: "/p".to_string(), ts: 0 }),
        (ItemTone::Other, "🔹", "Unknown signal".to_string())
    );
    assert_eq!(texts(signal_details(&tag)), vec!["Type: Tag 🏷️", "Path: /p", "Tag: x", "Timestamp: -5"]);
    let d = Signal::Demote { path: "/q".to_string(), reason: "stale".to_string(), ts: 1700000000 };
    assert_eq!(texts(signal_details(&d)), vec!["Type: Demote 📉", "Path: /q", "Reason: stale", "Timestamp: 1700000000"]);
    let r = Signal::Reinforce { path: "/q".to_string(), weight_bits: 0.5f64.to_bits(), ts: 0 };
    assert_eq!(texts(signal_details(&r)), vec!["Type: Reinforce 💪", "Path: /q", "<0.5>", "Timestamp: 0"]);
}

#[test]
fn signed_decimals() {
    assert_eq!(signed_decimal_string(0), "0");
    assert_eq!(signed_decimal_string(-42), "-42");
    assert_eq!(signed_decimal_string(i64::MIN), i64::MIN.to_string());
    assert_eq!(signed_decimal_string(i64::MAX), i64::MAX.to_string());
}

#[test]
fn belief_rows() {
    let n = Node { label: "api".to_string(), metadata: vec![("lang".to_string(), "rust".to_string())] };
    assert_eq!(belief_label(&n), "🔹 api");
    assert_eq!(belief_details("/w", &n), vec!["Label: api", "Path: /w", "Metadata:", "  lang: rust"]);
}

#[test]
fn epoch_seconds_before_and_after() {
    assert_eq!(epoch_seconds_of(true, 1_700_000_000), 1_700_000_000);
    assert_eq!(epoch_seconds_of(false, 5), -5);
    assert_eq!(epoch_seconds_of(true, u64::MAX), i64::MAX);
    assert_eq!(epoch_seconds_of(false, u64::MAX), -i64::MAX);
}

#[test]
fn clock_reads_after_the_epoch() {
    assert!(Signal::timestamp_now() > 1_600_000_000);
}
