//! The rows and detail lines that list signals and beliefs. A reinforcement weight is a
//! double, so it is handed on as its bits for the caller to print.

use vstd::prelude::*;
use crate::memory::{pair_texts, Node};
use crate::signals::{signal_path, signal_ts, Signal};
use crate::text::{decimal, decimal_string};

verus! {

/// `n` written in decimal with a leading `-` when negative, as `Display` writes an integer.
pub open spec fn signed_decimal(n: int) -> Seq<char> {
    if n < 0 {
        "-"@ + decimal((-n) as nat)
    } else {
        decimal(n as nat)
    }
}

/// Writes `n` in decimal.
pub fn signed_decimal_string(n: i64) -> (r: String)
    ensures
        r@ == signed_decimal(n as int),
{
    if n < 0 {
        let magnitude: u64 = (0i128 - n as i128) as u64;
        let digits = decimal_string(magnitude);
        let mut r = String::from_str("-");
        r.append(digits.as_str());
        r
    } else {
        decimal_string(n as u64)
    }
}

/// `prefix` followed by `body`.
fn joined(prefix: &str, body: &str) -> (r: String)
    ensures
        r@ == prefix@ + body@,
{
    let mut r = String::from_str(prefix);
    r.append(body);
    r
}

/// The last cell of a trace row: text, or a weight to print from its bits.
#[derive(Debug)]
pub enum RowDetail {
    Text(String),
    WeightBits(u64),
}

/// A row of the trace table: its icon, path, time (seconds since the Unix epoch) and
/// details.
#[derive(Debug)]
pub struct TraceRow {
    pub icon: &'static str,
    pub path: String,
    pub ts: i64,
    pub detail: RowDetail,
}

/// The row of `r` is the one the table shows for `s`: visits, reinforcements and tags have
/// one; promotions and demotions have none.
pub open spec fn is_row_of(s: Signal, r: Option<TraceRow>) -> bool {
    match s {
        Signal::Visit { path, ts } => r matches Some(row) && row.icon == "🚶" && row.path@ == path@
            && row.ts == ts && (row.detail matches RowDetail::Text(t) && t@ == Seq::<char>::empty()),
        Signal::Reinforce { path, weight_bits, ts } => r matches Some(row) && row.icon == "💪"
            && row.path@ == path@ && row.ts == ts && row.detail == RowDetail::WeightBits(weight_bits),
        Signal::Tag { path, tag, ts } => r matches Some(row) && row.icon == "🏷️" && row.path@
            == path@ && row.ts == ts && (row.detail matches RowDetail::Text(t) && t@ == "Tag: "@ + tag@),
        _ => r is None,
    }
}

/// The trace table's row for a signal.
pub fn trace_row(s: &Signal) -> (r: Option<TraceRow>)
    ensures
        is_row_of(*s, r),
{
    match s {
        Signal::Visit { path, ts } => Some(
            TraceRow { icon: "🚶", path: path.clone(), ts: *ts, detail: RowDetail::Text(String::new()) },
        ),
        Signal::Reinforce { path, weight_bits, ts } => Some(
            TraceRow {
                icon: "💪",
                path: path.clone(),
                ts: *ts,
                detail: RowDetail::WeightBits(*weight_bits),
            },
        ),
        Signal::Tag { path, tag, ts } => Some(
            TraceRow {
                icon: "🏷️",
                path: path.clone(),
                ts: *ts,
                detail: RowDetail::Text(joined("Tag: ", tag.as_str())),
            },
        ),
        _ => None,
    }
}

/// Every row of the trace table shows the path and the time of the signal it lists; visits,
/// reinforcements and tags each have a row, promotions and demotions none.
pub proof fn law_row_shows_its_signal(s: Signal, r: Option<TraceRow>)
    requires
        is_row_of(s, r),
    ensures
        r matches Some(row) ==> row.path@ == signal_path(s) && row.ts == signal_ts(s),
        r is Some <==> (s is Visit || s is Reinforce || s is Tag),
{
}

/// The dashboard's list names the directory of every visit and tag: its text starts with
/// the signal's path.
pub proof fn law_item_names_its_directory(s: Signal)
    requires
        s is Visit || s is Tag,
    ensures
        signal_path(s).is_prefix_of(trace_item_of(s).2),
{
    match s {
        Signal::Tag { path, tag, .. } => {
            assert(trace_item_of(s).2.subrange(0, path@.len() as int) =~= path@);
        },
        _ => {
            assert(trace_item_of(s).2.subrange(0, signal_path(s).len() as int) =~= signal_path(s));
        },
    }
}

/// How a trace item is coloured in the dashboard's list.
#[derive(Debug, Clone, Copy, PartialEq, Eq)]
pub enum ItemTone {
    Visit,
    Tag,
    Other,
}

/// What the dashboard's trace list shows for a signal: a tone, an icon and a text.
pub open spec fn trace_item_of(s: Signal) -> (ItemTone, &'static str, Seq<char>) {
    match s {
        Signal::Visit { path, .. } => (ItemTone::Visit, "🚶", path@),
        Signal::Tag { path, tag, .. } => (ItemTone::Tag, "🏷️", path@ + " (Tag: "@ + tag@ + ")"@),
        _ => (ItemTone::Other, "🔹", "Unknown signal"@),
    }
}

/// The dashboard's list entry for a signal.
pub fn trace_item(s: &Signal) -> (r: (ItemTone, &'static str, String))
    ensures
        (r.0, r.1, r.2@) == trace_item_of(*s),
{
    match s {
        Signal::Visit { path, .. } => (ItemTone::Visit, "🚶", path.clone()),
        Signal::Tag { path, tag, .. } => {
            let mut t = joined(path.as_str(), " (Tag: ");
            t.append(tag.as_str());
            t.append(")");
            (ItemTone::Tag, "🏷️", t)
        },
        _ => (ItemTone::Other, "🔹", String::from_str("Unknown signal")),
    }
}

/// A line of the dashboard's details: text, or a weight to print from its bits.
#[derive(Debug)]
pub enum DetailLine {
    Text(String),
    WeightBits(u64),
}

/// A detail line as text.
pub enum DetailView {
    Text(Seq<char>),
    Weight(u64),
}

/// The view of a detail line.
pub open spec fn detail_view(d: DetailLine) -> DetailView {
    match d {
        DetailLine::Text(t) => DetailView::Text(t@),
        DetailLine::WeightBits(b) => DetailView::Weight(b),
    }
}

/// The views of detail lines.
pub open spec fn detail_views(v: Seq<DetailLine>) -> Seq<DetailView> {
    Seq::new(v.len(), |i: int| detail_view(v[i]))
}

/// The dashboard's details of a signal: its type, path, what it carries and its time.
pub open spec fn details_of(s: Signal) -> Seq<DetailView> {
    match s {
        Signal::Visit { path, ts } => seq![
            DetailView::Text("Type: Visit 🚶"@),
            DetailView::Text("Path: "@ + path@),
            DetailView::Text("Timestamp: "@ + signed_decimal(ts as int)),
        ],
        Signal::Tag { path, tag, ts } => seq![
            DetailView::Text("Type: Tag 🏷️"@),
            DetailView::Text("Path: "@ + path@),
            DetailView::Text("Tag: "@ + tag@),
            DetailView::Text("Timestamp: "@ + signed_decimal(ts as int)),
        ],
        Signal::Reinforce { path, weight_bits, ts } => seq![
            DetailView::Text("Type: Reinforce 💪"@),
            DetailView::Text("Path: "@ + path@),
            DetailView::Weight(weight_bits),
            DetailView::Text("Timestamp: "@ + signed_decimal(ts as int)),
        ],
        Signal::Promote { path, ts } => seq![
            DetailView::Text("Type: Promote 🚀"@),
            DetailView::Text("Path: "@ + path@),
            DetailView::Text("Timestamp: "@ + signed_decimal(ts as int)),
        ],
        Signal::Demote { path, reason, ts } => seq![
            DetailView::Text("Type: Demote 📉"@),
            DetailView::Text("Path: "@ + path@),
            DetailView::Text("Reason: "@ + reason@),
            DetailView::Text("Timestamp: "@ + signed_decimal(ts as int)),
        ],
    }
}

/// The "Timestamp: " line for `ts`.
fn timestamp_line(ts: i64) -> (r: DetailLine)
    ensures
        detail_view(r) == DetailView::Text("Timestamp: "@ + signed_decimal(ts as int)),
{
    let digits = signed_decimal_string(ts);
    DetailLine::Text(joined("Timestamp: ", digits.as_str()))
}

/// The dashboard's details of a signal.
pub fn signal_details(s: &Signal) -> (r: Vec<DetailLine>)
    ensures
        detail_views(r@) == details_of(*s),
{
    let r = match s {
        Signal::Visit { path, ts } => vec![
            DetailLine::Text(String::from_str("Type: Visit 🚶")),
            DetailLine::Text(joined("Path: ", path.as_str())),
            timestamp_line(*ts),
        ],
        Signal::Tag { path, tag, ts } => vec![
            DetailLine::Text(String::from_str("Type: Tag 🏷️")),
            DetailLine::Text(joined("Path: ", path.as_str())),
            DetailLine::Text(joined("Tag: ", tag.as_str())),
            timestamp_line(*ts),
        ],
        Signal::Reinforce { path, weight_bits, ts } => vec![
            DetailLine::Text(String::from_str("Type: Reinforce 💪")),
            DetailLine::Text(joined("Path: ", path.as_str())),
            DetailLine::WeightBits(*weight_bits),
            timestamp_line(*ts),
        ],
        Signal::Promote { path, ts } => vec![
            DetailLine::Text(String::from_str("Type: Promote 🚀")),
            DetailLine::Text(joined("Path: ", path.as_str())),
            timestamp_line(*ts),
        ],
        Signal::Demote { path, reason, ts } => vec![
            DetailLine::Text(String::from_str("Type: Demote 📉")),
            DetailLine::Text(joined("Path: ", path.as_str())),
            DetailLine::Text(joined("Reason: ", reason.as_str())),
            timestamp_line(*ts),
        ],
    };
    assert(detail_views(r@) =~= details_of(*s));
    r
}

/// The label under which a belief is listed: a diamond and the node's label.
pub fn belief_label(node: &Node) -> (r: String)
    ensures
        r@ == "🔹 "@ + node.label@,
{
    joined("🔹 ", node.label.as_str())
}

/// One indented `key: value` line.
pub open spec fn meta_line(p: (Seq<char>, Seq<char>)) -> Seq<char> {
    "  "@ + p.0 + ": "@ + p.1
}

/// The dashboard's details of the belief about `path`: label, path, then one indented
/// `key: value` line per metadata entry.
pub open spec fn belief_details_of(path: Seq<char>, m: Seq<(Seq<char>, Seq<char>)>, label: Seq<char>) -> Seq<Seq<char>> {
    seq!["Label: "@ + label, "Path: "@ + path, "Metadata:"@] + Seq::new(
        m.len(),
        |i: int| meta_line(m[i]),
    )
}

/// Computes `belief_details_of`.
pub fn belief_details(path: &str, node: &Node) -> (r: Vec<String>)
    ensures
        Seq::new(r@.len(), |i: int| r@[i]@) == belief_details_of(path@, node@.metadata, node.label@),
{
    let mut r: Vec<String> = Vec::new();
    r.push(joined("Label: ", node.label.as_str()));
    r.push(joined("Path: ", path));
    r.push(String::from_str("Metadata:"));
    let ghost m = pair_texts(node.metadata@);
    let mut i: usize = 0;
    while i < node.metadata.len()
        invariant
            i <= node.metadata@.len(),
            m == pair_texts(node.metadata@),
            r@.len() == 3 + i,
            Seq::new(r@.len(), |k: int| r@[k]@) == belief_details_of(path@, m.take(i as int), node.label@),
        decreases node.metadata@.len() - i,
    {
        let mut line = joined("  ", node.metadata[i].0.as_str());
        line.append(": ");
        line.append(node.metadata[i].1.as_str());
        let ghost before = r@;
        let ghost old_i = i as int;
        assert(line@ == meta_line(m[old_i]));
        r.push(line);
        i = i + 1;
        proof {
            let now = Seq::new(r@.len(), |k: int| r@[k]@);
            let was = Seq::new(before.len(), |k: int| before[k]@);
            let want = belief_details_of(path@, m.take(i as int), node.label@);
            let had = belief_details_of(path@, m.take(old_i), node.label@);
            assert forall|k: int| 0 <= k < now.len() implies now[k] == want[k] by {
                if k < before.len() {
                    assert(now[k] == was[k]);
                    assert(was[k] == had[k]);
                    if k >= 3 {
                        assert(m.take(old_i)[k - 3] == m.take(i as int)[k - 3]);
                    }
                } else {
                    assert(k == 3 + old_i);
                    assert(m.take(i as int)[old_i] == m[old_i]);
                }
            }
            assert(now =~= want);
        }
    }
    assert(m.take(i as int) =~= m);
    r
}

} // verus!
