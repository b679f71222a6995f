//! The state that is saved between runs, and the caps it is held to on every save.

use vstd::prelude::*;
use crate::memory::{
    belief_views, duplicate_entry, keys_unique, lemma_same_keys_unique, sort_by_rank_desc, sorted_desc, double_less, law_rank_follows_double_order, Beliefs, Hotspot, Hotspots,
    Node, NodeView, Ranked, Trace,
};
use crate::paths::{home_dir, joined_path, path_join};
use crate::signals::Signal;

verus! {

broadcast use vstd::seq_lib::group_to_multiset_ensures;

/// The format version that is written.
pub const STATE_VERSION: u32 = 1;

/// At most this many hotspots are kept.
pub const MAX_HOTSPOTS: usize = 100;

/// At most this many trace entries are kept.
pub const MAX_TRACE_ENTRIES: usize = 500;

/// At most this many beliefs are kept.
pub const MAX_BELIEFS: usize = 1000;

/// Everything that is saved: hotspots and beliefs under their keys, and the trace.
#[derive(Debug)]
pub struct State {
    pub version: u32,
    pub hotspots: Vec<(String, Hotspot)>,
    pub beliefs: Vec<(String, Node)>,
    pub trace: Vec<Signal>,
}

/// `after` is `before` held to the hotspot cap: unchanged within the cap, otherwise the
/// `MAX_HOTSPOTS` first of a ranking of all of them by energy, highest first.
pub open spec fn capped_hotspots(before: Seq<(String, Hotspot)>, after: Seq<(String, Hotspot)>) -> bool {
    if before.len() <= MAX_HOTSPOTS {
        after == before
    } else {
        exists|full: Seq<(String, Hotspot)>|
            {
                &&& full.to_multiset() == before.to_multiset()
                &&& sorted_desc(full)
                &&& after == full.take(MAX_HOTSPOTS as int)
            }
    }
}

/// `after` is `before` held to the trace cap: the most recent entries are kept.
pub open spec fn capped_trace(before: Seq<Signal>, after: Seq<Signal>) -> bool {
    after == if before.len() <= MAX_TRACE_ENTRIES {
        before
    } else {
        before.skip(before.len() - MAX_TRACE_ENTRIES)
    }
}

/// `after` is `before` held to the belief cap: the first `MAX_BELIEFS` are kept.
pub open spec fn capped_beliefs(before: Seq<(Seq<char>, NodeView)>, after: Seq<(Seq<char>, NodeView)>) -> bool {
    after == if before.len() <= MAX_BELIEFS {
        before
    } else {
        before.take(MAX_BELIEFS as int)
    }
}

/// `after` is `before` made ready to be written: the current version, and every part
/// held to its cap.
pub open spec fn normalized(
    hotspots: Seq<(String, Hotspot)>,
    beliefs: Seq<(Seq<char>, NodeView)>,
    trace: Seq<Signal>,
    after: State,
) -> bool {
    &&& after.version == STATE_VERSION
    &&& capped_hotspots(hotspots, after.hotspots@)
    &&& capped_beliefs(beliefs, belief_views(after.beliefs@))
    &&& capped_trace(trace, after.trace@)
}

/// Rearranging entries keeps their keys unique.
proof fn lemma_permutation_keeps_keys_unique(before: Seq<(String, Hotspot)>, after: Seq<(String, Hotspot)>)
    requires
        after.to_multiset() == before.to_multiset(),
        keys_unique(before),
    ensures
        keys_unique(after),
{
    assert(before.no_duplicates()) by {
        assert forall|i: int, j: int| 0 <= i < before.len() && 0 <= j < before.len() && i != j implies before[i] != before[j] by {
            if i < j {
                assert(before[i].0@ != before[j].0@);
            } else {
                assert(before[j].0@ != before[i].0@);
            }
        }
    }
    before.lemma_multiset_has_no_duplicates();
    assert forall|x: (String, Hotspot)| after.to_multiset().contains(x) implies after.to_multiset().count(x) == 1 by {}
    after.lemma_multiset_has_no_duplicates_conv();
    assert forall|i: int, j: int| 0 <= i < j < after.len() implies after[i].0@ != after[j].0@ by {
        assert(after.contains(after[i]));
        assert(after.contains(after[j]));
        assert(before.to_multiset().count(after[i]) > 0);
        assert(before.to_multiset().count(after[j]) > 0);
        assert(before.contains(after[i]));
        assert(before.contains(after[j]));
        let a = choose|a: int| 0 <= a < before.len() && before[a] == after[i];
        let b = choose|b: int| 0 <= b < before.len() && before[b] == after[j];
        assert(after[i] != after[j]);
        if a < b {
            assert(before[a].0@ != before[b].0@);
        } else {
            assert(a != b);
            assert(before[b].0@ != before[a].0@);
        }
    }
}

/// Sets the current version and holds every part of the state to its cap: beyond
/// `MAX_HOTSPOTS` the hotspots with the lowest energy go, beyond `MAX_TRACE_ENTRIES` the
/// oldest trace entries go, beyond `MAX_BELIEFS` the beliefs after the first ones go.
pub fn normalize_state(state: &mut State)
    ensures
        normalized(old(state).hotspots@, belief_views(old(state).beliefs@), old(state).trace@, *final(state)),
        keys_unique(old(state).beliefs@) ==> keys_unique(final(state).beliefs@),
        keys_unique(old(state).hotspots@) ==> keys_unique(final(state).hotspots@),
{
    state.version = STATE_VERSION;
    if state.hotspots.len() > MAX_HOTSPOTS {
        let mut items: Vec<(String, Hotspot)> = Vec::new();
        std::mem::swap(&mut items, &mut state.hotspots);
        let ghost whole = items@;
        let mut sorted = sort_by_rank_desc(items);
        let ghost full = sorted@;
        assert(full.len() == whole.len()) by {
            assert(full.to_multiset().len() == whole.to_multiset().len());
        }
        proof {
            if keys_unique(whole) {
                lemma_permutation_keeps_keys_unique(whole, full);
            }
        }
        sorted.truncate(MAX_HOTSPOTS);
        state.hotspots = sorted;
        assert(state.hotspots@ == full.take(MAX_HOTSPOTS as int));
    }
    if state.trace.len() > MAX_TRACE_ENTRIES {
        let start = state.trace.len() - MAX_TRACE_ENTRIES;
        state.trace = state.trace.split_off(start);
        assert(state.trace@ =~= old(state).trace@.skip(start as int));
    }
    if state.beliefs.len() > MAX_BELIEFS {
        let ghost before = state.beliefs@;
        state.beliefs.truncate(MAX_BELIEFS);
        assert(state.beliefs@ =~= before.take(MAX_BELIEFS as int));
        assert(belief_views(state.beliefs@) =~= belief_views(old(state).beliefs@).take(MAX_BELIEFS as int));
    }
}

/// Whether a state read from disk was written in an older format (version 0 means the
/// file had no version). Such a state is used as read and rewritten in the current
/// format on the next save.
pub fn needs_migration(version: u32) -> (r: bool)
    ensures
        r == (version > 0 && version != STATE_VERSION),
{
    version > 0 && version != STATE_VERSION
}

impl State {
    /// An empty state of the current version.
    pub fn new() -> (r: State)
        ensures
            r.version == STATE_VERSION,
            r.hotspots@.len() == 0,
            r.beliefs@.len() == 0,
            r.trace@.len() == 0,
    {
        State { version: STATE_VERSION, hotspots: Vec::new(), beliefs: Vec::new(), trace: Vec::new() }
    }

    /// The state to write for these models: a copy of each, held to the caps.
    pub fn capture(hotspots: &Hotspots, beliefs: &Beliefs, trace: &Trace) -> (r: State)
        ensures
            normalized(hotspots.items@, belief_views(beliefs.nodes@), trace.entries@, r),
            beliefs.wf() ==> keys_unique(r.beliefs@),
            hotspots.wf() ==> keys_unique(r.hotspots@),
    {
        let mut hs: Vec<(String, Hotspot)> = Vec::new();
        let mut i: usize = 0;
        while i < hotspots.items.len()
            invariant
                i <= hotspots.items@.len(),
                hs@ == hotspots.items@.take(i as int),
            decreases hotspots.items@.len() - i,
        {
            hs.push(duplicate_entry(&hotspots.items[i]));
            i = i + 1;
            assert(hs@ =~= hotspots.items@.take(i as int));
        }
        assert(hotspots.items@.take(i as int) =~= hotspots.items@);
        let mut bs: Vec<(String, Node)> = Vec::new();
        let mut j: usize = 0;
        while j < beliefs.nodes.len()
            invariant
                j <= beliefs.nodes@.len(),
                belief_views(bs@) == belief_views(beliefs.nodes@).take(j as int),
            decreases beliefs.nodes@.len() - j,
        {
            let key = beliefs.nodes[j].0.clone();
            let node = beliefs.nodes[j].1.duplicate();
            assert(belief_views(bs@.push((key, node))) =~= belief_views(bs@).push((key@, node@)));
            bs.push((key, node));
            j = j + 1;
            assert(belief_views(bs@) =~= belief_views(beliefs.nodes@).take(j as int));
        }
        assert(belief_views(beliefs.nodes@).take(j as int) =~= belief_views(beliefs.nodes@));
        proof {
            assert forall|a: int| 0 <= a < bs@.len() implies #[trigger] bs@[a].0@ == beliefs.nodes@[a].0@ by {
                assert(belief_views(bs@)[a] == belief_views(beliefs.nodes@)[a]);
            }
            lemma_same_keys_unique(bs@, beliefs.nodes@);
        }
        let mut ts: Vec<Signal> = Vec::new();
        let mut k: usize = 0;
        while k < trace.entries.len()
            invariant
                k <= trace.entries@.len(),
                ts@ == trace.entries@.take(k as int),
            decreases trace.entries@.len() - k,
        {
            ts.push(trace.entries[k].duplicate());
            k = k + 1;
            assert(ts@ =~= trace.entries@.take(k as int));
        }
        assert(trace.entries@.take(k as int) =~= trace.entries@);
        let mut state = State { version: 0, hotspots: hs, beliefs: bs, trace: ts };
        normalize_state(&mut state);
        state
    }

    /// The models held by this state.
    pub fn into_parts(self) -> (r: (Hotspots, Beliefs, Trace))
        ensures
            r.0.items@ == self.hotspots@,
            r.1.nodes@ == self.beliefs@,
            r.2.entries@ == self.trace@,
    {
        (
            Hotspots { items: self.hotspots },
            Beliefs { nodes: self.beliefs },
            Trace { entries: self.trace },
        )
    }
}

/// Where the state is kept under the home directory `home` (or under the working
/// directory when there is none): `.marty/state.json`.
pub open spec fn state_path_in(home: Option<Seq<char>>) -> Seq<char> {
    joined_path(
        joined_path(
            match home {
                Some(h) => h,
                None => "."@,
            },
            ".marty"@,
        ),
        "state.json"@,
    )
}

/// Computes `state_path_in`.
pub fn state_path_under(home: Option<String>) -> (r: String)
    ensures
        r@ == state_path_in(
            match home {
                Some(h) => Some(h@),
                None => None,
            },
        ),
{
    let base = match home {
        Some(h) => h,
        None => String::from_str("."),
    };
    let dir = path_join(base.as_str(), ".marty");
    path_join(dir.as_str(), "state.json")
}

/// The default location of the state: `~/.marty/state.json`.
pub fn default_state_path() -> (r: String)
    ensures
        exists|home: Option<Seq<char>>| (home matches Some(h) ==> h.len() > 0) && r@ == state_path_in(home),
{
    let home = home_dir();
    let r = state_path_under(home);
    r
}

/// Held to the caps, a state stays within them: every part is at most its cap long, and
/// normalizing it again changes nothing.
pub proof fn law_caps_are_stable(
    hotspots: Seq<(String, Hotspot)>,
    beliefs: Seq<(Seq<char>, NodeView)>,
    trace: Seq<Signal>,
    after: State,
)
    requires
        normalized(hotspots, beliefs, trace, after),
    ensures
        after.hotspots@.len() <= MAX_HOTSPOTS,
        after.beliefs@.len() <= MAX_BELIEFS,
        after.trace@.len() <= MAX_TRACE_ENTRIES,
        capped_hotspots(after.hotspots@, after.hotspots@),
        capped_beliefs(belief_views(after.beliefs@), belief_views(after.beliefs@)),
        capped_trace(after.trace@, after.trace@),
{
    assert(belief_views(after.beliefs@).len() == after.beliefs@.len());
    if hotspots.len() > MAX_HOTSPOTS {
        let full = choose|full: Seq<(String, Hotspot)>|
            {
                &&& full.to_multiset() == hotspots.to_multiset()
                &&& sorted_desc(full)
                &&& after.hotspots@ == full.take(MAX_HOTSPOTS as int)
            };
        assert(full.len() == hotspots.len()) by {
            assert(full.to_multiset().len() == hotspots.to_multiset().len());
        }
    }
}

/// The hotspots that a save drops have no more energy than any that it keeps.
pub proof fn law_lowest_energy_dropped_first(
    before: Seq<(String, Hotspot)>,
    after: Seq<(String, Hotspot)>,
    dropped: (String, Hotspot),
)
    requires
        capped_hotspots(before, after),
        before.to_multiset().count(dropped) > after.to_multiset().count(dropped),
    ensures
        forall|i: int| 0 <= i < after.len() ==> after[i].rank() >= dropped.rank(),
        forall|i: int| 0 <= i < after.len() ==> !double_less(#[trigger] after[i].1.energy_bits, dropped.1.energy_bits),
{
    broadcast use vstd::seq_lib::lemma_multiset_commutative;

    if before.len() > MAX_HOTSPOTS {
        let full = choose|full: Seq<(String, Hotspot)>|
            {
                &&& full.to_multiset() == before.to_multiset()
                &&& sorted_desc(full)
                &&& after == full.take(MAX_HOTSPOTS as int)
            };
        assert(full.len() == before.len()) by {
            assert(full.to_multiset().len() == before.to_multiset().len());
        }
        let rest = full.skip(MAX_HOTSPOTS as int);
        assert(full =~= after + rest);
        assert(full.to_multiset() == after.to_multiset().add(rest.to_multiset()));
        assert(rest.to_multiset().count(dropped) > 0);
        assert(rest.contains(dropped));
        let k = choose|k: int| 0 <= k < rest.len() && rest[k] == dropped;
        assert(full[MAX_HOTSPOTS + k] == dropped);
        assert forall|i: int| 0 <= i < after.len() implies after[i].rank() >= dropped.rank() by {
            assert(after[i] == full[i]);
        }
        assert forall|i: int| 0 <= i < after.len() implies !double_less(#[trigger] after[i].1.energy_bits, dropped.1.energy_bits) by {
            assert(after[i] == full[i]);
            if double_less(after[i].1.energy_bits, dropped.1.energy_bits) {
                law_rank_follows_double_order(after[i].1.energy_bits, dropped.1.energy_bits);
            }
        }
    }
}

/// A save caps only the copy that it writes. Past a cap, the written part is exactly the
/// cap long, shorter than the model it was taken from, and holds nothing that the model
/// does not hold; `capture` reads the models through shared references, so they keep
/// every entry.
pub proof fn law_caps_apply_to_the_copy(
    hotspots: Seq<(String, Hotspot)>,
    beliefs: Seq<(Seq<char>, NodeView)>,
    trace: Seq<Signal>,
    after: State,
)
    requires
        normalized(hotspots, beliefs, trace, after),
    ensures
        hotspots.len() > MAX_HOTSPOTS ==> after.hotspots@.len() == MAX_HOTSPOTS,
        beliefs.len() > MAX_BELIEFS ==> after.beliefs@.len() == MAX_BELIEFS,
        trace.len() > MAX_TRACE_ENTRIES ==> after.trace@.len() == MAX_TRACE_ENTRIES,
        after.hotspots@.to_multiset().subset_of(hotspots.to_multiset()),
        belief_views(after.beliefs@).is_prefix_of(beliefs),
        after.trace@.is_suffix_of(trace),
{
    broadcast use vstd::seq_lib::lemma_multiset_commutative;

    assert(belief_views(after.beliefs@).len() == after.beliefs@.len());
    if hotspots.len() > MAX_HOTSPOTS {
        let full = choose|full: Seq<(String, Hotspot)>|
            {
                &&& full.to_multiset() == hotspots.to_multiset()
                &&& sorted_desc(full)
                &&& after.hotspots@ == full.take(MAX_HOTSPOTS as int)
            };
        assert(full.len() == hotspots.len()) by {
            assert(full.to_multiset().len() == hotspots.to_multiset().len());
        }
        let rest = full.skip(MAX_HOTSPOTS as int);
        assert(full =~= after.hotspots@ + rest);
        assert(full.to_multiset() == after.hotspots@.to_multiset().add(rest.to_multiset()));
    }
    if trace.len() > MAX_TRACE_ENTRIES {
        assert(after.trace@ =~= trace.subrange(trace.len() - after.trace@.len(), trace.len() as int));
    } else {
        assert(after.trace@ =~= trace.subrange(0, trace.len() as int));
    }
    if beliefs.len() <= MAX_BELIEFS {
        assert(beliefs =~= beliefs.subrange(0, beliefs.len() as int));
    }
}

/// Within the caps, what a save writes is exactly what was in memory, so loading it back
/// (`into_parts`) gives the same hotspots, beliefs and trace, at the current version.
pub proof fn law_save_keeps_everything_within_caps(
    hotspots: Seq<(String, Hotspot)>,
    beliefs: Seq<(Seq<char>, NodeView)>,
    trace: Seq<Signal>,
    after: State,
)
    requires
        normalized(hotspots, beliefs, trace, after),
        hotspots.len() <= MAX_HOTSPOTS,
        beliefs.len() <= MAX_BELIEFS,
        trace.len() <= MAX_TRACE_ENTRIES,
    ensures
        after.version == STATE_VERSION,
        after.hotspots@ == hotspots,
        belief_views(after.beliefs@) == beliefs,
        after.trace@ == trace,
{
}

} // verus!
