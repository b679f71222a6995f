//! What Marty remembers: hotspots ranked by energy, beliefs about directories, and the
//! trace of recent activity.

use vstd::prelude::*;
use crate::signals::Signal;
use vstd::multiset::Multiset;

verus! {

broadcast use vstd::seq_lib::group_to_multiset_ensures;

/// The order of IEEE-754 doubles, read off their bits (`f64::to_bits`): negative values
/// (sign bit set) come first, in reverse order of their bits, then the others in order of
/// their bits. For any two doubles that are not NaN, the smaller one has the smaller rank,
/// except that -0.0 ranks just below 0.0.
pub open spec fn energy_rank(bits: u64) -> int {
    if bits >= 0x8000_0000_0000_0000 {
        u64::MAX - bits
    } else {
        bits + 0x8000_0000_0000_0000
    }
}

/// Computes `energy_rank`.
pub fn energy_rank_of(bits: u64) -> (r: u64)
    ensures
        r as int == energy_rank(bits),
{
    if bits >= 0x8000_0000_0000_0000 {
        u64::MAX - bits
    } else {
        bits + 0x8000_0000_0000_0000
    }
}

/// The sign bit of the double whose bits are `b` (1 for negative).
pub open spec fn double_sign(b: u64) -> int {
    b as int / 0x8000_0000_0000_0000
}

/// The biased exponent field of the double whose bits are `b`.
pub open spec fn double_exponent(b: u64) -> int {
    (b as int / 0x10_0000_0000_0000) % 0x800
}

/// The fraction field of the double whose bits are `b`.
pub open spec fn double_fraction(b: u64) -> int {
    b as int % 0x10_0000_0000_0000
}

/// The double whose bits are `b` is NaN: all exponent bits set and a fraction.
pub open spec fn double_is_nan(b: u64) -> bool {
    double_exponent(b) == 0x7ff && double_fraction(b) != 0
}

/// The double whose bits are `b` is 0.0 or -0.0.
pub open spec fn double_is_zero(b: u64) -> bool {
    double_exponent(b) == 0 && double_fraction(b) == 0
}

/// The magnitude of the double `a` is below that of `b`: IEEE-754 orders magnitudes by
/// exponent, then by fraction (subnormals and infinity included).
pub open spec fn magnitude_below(a: u64, b: u64) -> bool {
    double_exponent(a) < double_exponent(b) || (double_exponent(a) == double_exponent(b)
        && double_fraction(a) < double_fraction(b))
}

/// The double with bits `a` is less than the double with bits `b`, as IEEE-754 compares
/// them (`<` on `f64`): neither is NaN, zeros of either sign are equal, a negative value is
/// below a positive one, and between two of the same sign the magnitude decides.
pub open spec fn double_less(a: u64, b: u64) -> bool {
    &&& !double_is_nan(a)
    &&& !double_is_nan(b)
    &&& !(double_is_zero(a) && double_is_zero(b))
    &&& if double_sign(a) == 0 && double_sign(b) == 0 {
        magnitude_below(a, b)
    } else if double_sign(a) == 1 && double_sign(b) == 1 {
        magnitude_below(b, a)
    } else {
        double_sign(a) == 1
    }
}

/// The bits of a double are its sign, exponent and fraction fields, laid out from the top.
proof fn lemma_double_fields(b: u64)
    ensures
        0 <= double_sign(b) <= 1,
        0 <= double_exponent(b) < 0x800,
        0 <= double_fraction(b) < 0x10_0000_0000_0000,
        b as int == double_sign(b) * 0x8000_0000_0000_0000 + double_exponent(b) * 0x10_0000_0000_0000
            + double_fraction(b),
{
    let x = b as int;
    let q = x / 0x10_0000_0000_0000;
    vstd::arithmetic::div_mod::lemma_fundamental_div_mod(x, 0x10_0000_0000_0000);
    vstd::arithmetic::div_mod::lemma_fundamental_div_mod(q, 0x800);
    vstd::arithmetic::div_mod::lemma_div_denominator(x, 0x10_0000_0000_0000, 0x800);
    assert(0x10_0000_0000_0000int * 0x800 == 0x8000_0000_0000_0000int);
}

/// The rank of an energy follows the order of the doubles: of two energies that are not
/// NaN, the smaller has the smaller rank.
pub proof fn law_rank_follows_double_order(a: u64, b: u64)
    requires
        double_less(a, b),
    ensures
        energy_rank(a) < energy_rank(b),
{
    lemma_double_fields(a);
    lemma_double_fields(b);
}

/// A list highest rank first holds its energies from the greatest double down: no entry
/// has less energy than one after it.
pub proof fn law_sorted_by_energy<T: Ranked>(s: Seq<T>, energy: spec_fn(T) -> u64)
    requires
        sorted_desc(s),
        forall|i: int| 0 <= i < s.len() ==> #[trigger] s[i].rank() == energy_rank(energy(s[i])),
    ensures
        forall|i: int, j: int| 0 <= i < j < s.len() ==> !double_less(energy(s[i]), energy(s[j])),
{
    assert forall|i: int, j: int| 0 <= i < j < s.len() implies !double_less(energy(s[i]), energy(s[j])) by {
        if double_less(energy(s[i]), energy(s[j])) {
            law_rank_follows_double_order(energy(s[i]), energy(s[j]));
            assert(s[i].rank() >= s[j].rank());
        }
    }
}

/// Things that are ranked by a number.
pub trait Ranked {
    /// The rank.
    spec fn rank(&self) -> int;

    /// Computes the rank.
    fn rank_key(&self) -> (r: u64)
        ensures
            r as int == self.rank(),
    ;
}

/// Highest rank first.
pub open spec fn sorted_desc<T: Ranked>(s: Seq<T>) -> bool {
    forall|i: int, j: int| 0 <= i < j < s.len() ==> s[i].rank() >= s[j].rank()
}

/// The items of `v`, highest rank first (among equal ranks in no promised order).
pub fn sort_by_rank_desc<T: Ranked>(v: Vec<T>) -> (r: Vec<T>)
    ensures
        r@.to_multiset() == v@.to_multiset(),
        sorted_desc(r@),
{
    let ghost whole = v@;
    let mut rest = v;
    let mut out: Vec<T> = Vec::new();
    while rest.len() > 0
        invariant
            out@.to_multiset().add(rest@.to_multiset()) == whole.to_multiset(),
            sorted_desc(out@),
        decreases rest@.len(),
    {
        let ghost before = rest@;
        let x = rest.pop().unwrap();
        proof {
            assert(before =~= rest@.push(x));
        }
        let k = x.rank_key();
        let mut pos: usize = 0;
        while pos < out.len() && out[pos].rank_key() >= k
            invariant
                pos <= out@.len(),
                forall|j: int| 0 <= j < pos ==> out@[j].rank() >= k,
            decreases out@.len() - pos,
        {
            pos = pos + 1;
        }
        let ghost prev = out@;
        out.insert(pos, x);
        proof {
            assert forall|i: int, j: int| 0 <= i < j < out@.len() implies out@[i].rank() >= out@[j].rank() by {
                if pos < prev.len() {
                    assert(prev[pos as int].rank() < k);
                }
                if j < pos {
                } else if j == pos {
                } else if i < pos {
                    assert(prev[i].rank() >= prev[j - 1].rank());
                } else if i == pos {
                    assert(prev[pos as int].rank() >= prev[j - 1].rank());
                } else {
                    assert(prev[i - 1].rank() >= prev[j - 1].rank());
                }
            }
            assert(out@.to_multiset() == prev.to_multiset().insert(x));
            assert(before.to_multiset() == rest@.to_multiset().insert(x));
            assert(out@.to_multiset().add(rest@.to_multiset()) =~= prev.to_multiset().add(before.to_multiset()));
        }
    }
    proof {
        assert(rest@.to_multiset() =~= Multiset::empty());
        assert(out@.to_multiset().add(Multiset::empty()) =~= out@.to_multiset());
    }
    out
}

/// A directory that has been visited: its path, its energy (the bits of an IEEE-754
/// double, `f64::to_bits`) and when it was last visited (seconds since the Unix epoch).
#[derive(Debug)]
pub struct Hotspot {
    pub path: String,
    pub energy_bits: u64,
    pub last_ts: i64,
}

impl Hotspot {
    /// A copy of this hotspot.
    pub fn duplicate(&self) -> (r: Hotspot)
        ensures
            r == *self,
    {
        Hotspot { path: self.path.clone(), energy_bits: self.energy_bits, last_ts: self.last_ts }
    }
}

impl Ranked for Hotspot {
    open spec fn rank(&self) -> int {
        energy_rank(self.energy_bits)
    }

    fn rank_key(&self) -> (r: u64) {
        energy_rank_of(self.energy_bits)
    }
}

impl Ranked for (String, Hotspot) {
    open spec fn rank(&self) -> int {
        energy_rank(self.1.energy_bits)
    }

    fn rank_key(&self) -> (r: u64) {
        energy_rank_of(self.1.energy_bits)
    }
}

/// A copy of a keyed hotspot.
pub fn duplicate_entry(e: &(String, Hotspot)) -> (r: (String, Hotspot))
    ensures
        r == *e,
{
    (e.0.clone(), e.1.duplicate())
}

/// Entry `i` is the first whose key is `k`.
pub open spec fn is_first<V>(items: Seq<(String, V)>, k: Seq<char>, i: int) -> bool {
    &&& 0 <= i < items.len()
    &&& items[i].0@ == k
    &&& forall|j: int| 0 <= j < i ==> items[j].0@ != k
}

/// The index of the first entry whose key is `k`, if any.
pub open spec fn first_index<V>(items: Seq<(String, V)>, k: Seq<char>) -> Option<int> {
    if exists|i: int| is_first(items, k, i) {
        Some(choose|i: int| is_first(items, k, i))
    } else {
        None
    }
}

/// What a list of keyed entries maps a key to: the value of its first entry.
pub open spec fn entries_map<V>(items: Seq<(String, V)>) -> Map<Seq<char>, V> {
    Map::new(
        |k: Seq<char>| first_index(items, k) is Some,
        |k: Seq<char>| items[first_index(items, k)->Some_0].1,
    )
}

/// No key occurs twice.
pub open spec fn keys_unique<V>(items: Seq<(String, V)>) -> bool {
    forall|i: int, j: int| 0 <= i < j < items.len() ==> items[i].0@ != items[j].0@
}

/// There is one first entry for a key.
pub proof fn lemma_first_index<V>(items: Seq<(String, V)>, k: Seq<char>, i: int)
    requires
        is_first(items, k, i),
    ensures
        first_index(items, k) == Some(i),
{
    let c = choose|c: int| is_first(items, k, c);
    assert(is_first(items, k, c));
    if c < i {
        assert(items[c].0@ != k);
    } else if c > i {
        assert(items[i].0@ != k);
    }
}

/// A key that occurs has a first entry.
pub proof fn lemma_first_exists<V>(items: Seq<(String, V)>, k: Seq<char>, i: int)
    requires
        0 <= i < items.len(),
        items[i].0@ == k,
    ensures
        first_index(items, k) is Some,
        is_first(items, k, first_index(items, k)->Some_0),
    decreases i,
{
    if exists|j: int| 0 <= j < i && items[j].0@ == k {
        let j = choose|j: int| 0 <= j < i && items[j].0@ == k;
        lemma_first_exists(items, k, j);
    } else {
        assert(is_first(items, k, i));
    }
}

/// Finds the first entry with key `k`.
pub fn find_key<V>(items: &Vec<(String, V)>, k: &String) -> (r: Option<usize>)
    ensures
        match r {
            Some(i) => is_first(items@, k@, i as int) && first_index(items@, k@) == Some(i as int),
            None => first_index(items@, k@) is None && forall|j: int| 0 <= j < items@.len() ==> items@[j].0@ != k@,
        },
{
    let mut i: usize = 0;
    while i < items.len()
        invariant
            i <= items@.len(),
            forall|j: int| 0 <= j < i ==> items@[j].0@ != k@,
        decreases items@.len() - i,
    {
        if items[i].0 == *k {
            proof {
                lemma_first_index(items@, k@, i as int);
            }
            return Some(i);
        }
        i = i + 1;
    }
    None
}

/// The visited directories, each under its key (the path it was visited by).
#[derive(Debug)]
pub struct Hotspots {
    pub items: Vec<(String, Hotspot)>,
}

impl View for Hotspots {
    type V = Map<Seq<char>, Hotspot>;

    open spec fn view(&self) -> Map<Seq<char>, Hotspot> {
        entries_map(self.items@)
    }
}

impl Hotspots {
    /// No hotspots.
    pub fn new() -> (r: Hotspots)
        ensures
            r@ == Map::<Seq<char>, Hotspot>::empty(),
            r.items@.len() == 0,
    {
        let r = Hotspots { items: Vec::new() };
        assert(r@ =~= Map::<Seq<char>, Hotspot>::empty());
        r
    }

    /// Every key occurs once.
    pub open spec fn wf(&self) -> bool {
        keys_unique(self.items@)
    }

    /// The number of hotspots.
    pub fn len(&self) -> (r: usize)
        ensures
            r == self.items@.len(),
    {
        self.items.len()
    }

    /// The energy (as IEEE-754 bits) of the hotspot under `key`, if there is one.
    pub fn energy_of(&self, key: &String) -> (r: Option<u64>)
        ensures
            match r {
                Some(e) => self@.contains_key(key@) && self@[key@].energy_bits == e,
                None => !self@.contains_key(key@),
            },
    {
        match find_key(&self.items, key) {
            Some(i) => Some(self.items[i].1.energy_bits),
            None => None,
        }
    }

    /// Records a visit of `key` at time `now`, leaving the hotspot with `energy_bits`: an
    /// existing hotspot keeps its path and takes the new energy and time; a new one takes
    /// `key` as its path. No other hotspot changes.
    pub fn record_visit(&mut self, key: String, energy_bits: u64, now: i64)
        ensures
            final(self)@ == old(self)@.insert(
                key@,
                Hotspot {
                    path: if old(self)@.contains_key(key@) {
                        old(self)@[key@].path
                    } else {
                        key
                    },
                    energy_bits,
                    last_ts: now,
                },
            ),
            old(self).wf() ==> final(self).wf(),
    {
        let ghost old_items = self.items@;
        match find_key(&self.items, &key) {
            Some(i) => {
                let path = self.items[i].1.path.clone();
                let k = self.items[i].0.clone();
                self.items.set(i, (k, Hotspot { path, energy_bits, last_ts: now }));
                proof {
                    let new_items = self.items@;
                    assert forall|q: Seq<char>| first_index(new_items, q) == first_index(old_items, q) by {
                        assert forall|f: int| is_first(new_items, q, f) <==> is_first(old_items, q, f) by {
                            assert forall|j: int| 0 <= j < new_items.len() implies new_items[j].0@ == old_items[j].0@ by {}
                        }
                        if first_index(old_items, q) is Some {
                            lemma_first_index(new_items, q, first_index(old_items, q)->Some_0);
                        }
                    }
                    assert forall|a: int, b: int| old(self).wf() && 0 <= a < b < new_items.len() implies new_items[a].0@ != new_items[b].0@ by {
                        assert(new_items[a].0@ == old_items[a].0@);
                        assert(new_items[b].0@ == old_items[b].0@);
                    }
                    assert(self@ =~= old(self)@.insert(key@, self.items@[i as int].1));
                }
            },
            None => {
                let k = key.clone();
                self.items.push((k, Hotspot { path: key, energy_bits, last_ts: now }));
                proof {
                    let new_items = self.items@;
                    let n = old_items.len() as int;
                    assert forall|j: int| 0 <= j < n implies new_items[j].0@ == old_items[j].0@ by {}
                    assert forall|q: Seq<char>| q != key@ implies first_index(new_items, q) == first_index(old_items, q) by {
                        assert forall|f: int| is_first(new_items, q, f) <==> is_first(old_items, q, f) by {
                            if is_first(new_items, q, f) {
                                assert(f != n);
                            }
                        }
                        if first_index(old_items, q) is Some {
                            lemma_first_index(new_items, q, first_index(old_items, q)->Some_0);
                        }
                    }
                    assert(is_first(new_items, key@, n));
                    lemma_first_index(new_items, key@, n);
                    assert(self@ =~= old(self)@.insert(key@, new_items[n].1));
                }
            },
        }
    }

    /// Sets the energy of the `i`-th hotspot (the decay of energies over time is computed
    /// outside, on the doubles); keys, paths and times stay.
    pub fn set_energy_at(&mut self, i: usize, energy_bits: u64)
        requires
            i < old(self).items@.len(),
        ensures
            final(self).items@.len() == old(self).items@.len(),
            forall|j: int| 0 <= j < old(self).items@.len() && j != i ==> final(self).items@[j] == old(self).items@[j],
            final(self).items@[i as int].0 == old(self).items@[i as int].0,
            final(self).items@[i as int].1 == (Hotspot { energy_bits, ..old(self).items@[i as int].1 }),
    {
        let k = self.items[i].0.clone();
        let path = self.items[i].1.path.clone();
        let last_ts = self.items[i].1.last_ts;
        self.items.set(i, (k, Hotspot { path, energy_bits, last_ts }));
    }

    /// All hotspots, highest energy first (among equal energies in no promised order).
    pub fn ranked(&self) -> (r: Vec<Hotspot>)
        ensures
            exists|full: Seq<(String, Hotspot)>|
                {
                    &&& full.to_multiset() == self.items@.to_multiset()
                    &&& sorted_desc(full)
                    &&& r@ == full.map_values(|e: (String, Hotspot)| e.1)
                },
            forall|i: int, j: int|
                0 <= i < j < r@.len() ==> !double_less(#[trigger] r@[i].energy_bits, #[trigger] r@[j].energy_bits),
    {
        let mut copy: Vec<(String, Hotspot)> = Vec::new();
        let mut i: usize = 0;
        while i < self.items.len()
            invariant
                i <= self.items@.len(),
                copy@ == self.items@.take(i as int),
            decreases self.items@.len() - i,
        {
            copy.push(duplicate_entry(&self.items[i]));
            i = i + 1;
            assert(copy@ =~= self.items@.take(i as int));
        }
        assert(self.items@.take(i as int) =~= self.items@);
        let sorted = sort_by_rank_desc(copy);
        let mut r: Vec<Hotspot> = Vec::new();
        let mut j: usize = 0;
        while j < sorted.len()
            invariant
                j <= sorted@.len(),
                r@ == sorted@.take(j as int).map_values(|e: (String, Hotspot)| e.1),
            decreases sorted@.len() - j,
        {
            r.push(sorted[j].1.duplicate());
            j = j + 1;
            assert(r@ =~= sorted@.take(j as int).map_values(|e: (String, Hotspot)| e.1));
        }
        assert(sorted@.take(j as int) =~= sorted@);
        proof {
            assert forall|a: int, b: int| 0 <= a < b < r@.len() implies r@[a].rank() >= r@[b].rank() by {
                assert(r@[a] == sorted@[a].1);
                assert(r@[b] == sorted@[b].1);
            }
            law_sorted_by_energy(r@, |h: Hotspot| h.energy_bits);
        }
        r
    }

    /// The `n` hotspots with the highest energy, highest first: the first `n` of a ranking
    /// of all of them.
    pub fn top(&self, n: usize) -> (r: Vec<Hotspot>)
        ensures
            exists|full: Seq<(String, Hotspot)>|
                {
                    &&& full.to_multiset() == self.items@.to_multiset()
                    &&& sorted_desc(full)
                    &&& r@ == full.map_values(|e: (String, Hotspot)| e.1).take(
                        if n < full.len() { n as int } else { full.len() as int },
                    )
                },
            forall|i: int, j: int|
                0 <= i < j < r@.len() ==> !double_less(#[trigger] r@[i].energy_bits, #[trigger] r@[j].energy_bits),
    {
        let mut all = self.ranked();
        let ghost whole = all@;
        if n < all.len() {
            all.truncate(n);
        }
        assert(all@ =~= whole.take(if n < whole.len() { n as int } else { whole.len() as int }));
        all
    }
}

/// What Marty believes about a directory: a label and free-form metadata.
#[derive(Debug)]
pub struct Node {
    pub label: String,
    pub metadata: Vec<(String, String)>,
}

/// A node as text.
pub struct NodeView {
    pub label: Seq<char>,
    pub metadata: Seq<(Seq<char>, Seq<char>)>,
}

/// The text of each key/value pair.
pub open spec fn pair_texts(s: Seq<(String, String)>) -> Seq<(Seq<char>, Seq<char>)> {
    Seq::new(s.len(), |i: int| (s[i].0@, s[i].1@))
}

impl View for Node {
    type V = NodeView;

    open spec fn view(&self) -> NodeView {
        NodeView { label: self.label@, metadata: pair_texts(self.metadata@) }
    }
}

/// Lists with the same keys, key by key, have unique keys together.
pub proof fn lemma_same_keys_unique<V, W>(a: Seq<(String, V)>, b: Seq<(String, W)>)
    requires
        a.len() == b.len(),
        forall|i: int| 0 <= i < a.len() ==> #[trigger] a[i].0@ == b[i].0@,
    ensures
        keys_unique(a) <==> keys_unique(b),
{
    if keys_unique(a) {
        assert forall|i: int, j: int| 0 <= i < j < b.len() implies b[i].0@ != b[j].0@ by {
            assert(a[i].0@ == b[i].0@);
            assert(a[j].0@ == b[j].0@);
        }
    }
    if keys_unique(b) {
        assert forall|i: int, j: int| 0 <= i < j < a.len() implies a[i].0@ != a[j].0@ by {
            assert(a[i].0@ == b[i].0@);
            assert(a[j].0@ == b[j].0@);
        }
    }
}

/// Beliefs as text, key by key.
pub open spec fn belief_views(s: Seq<(String, Node)>) -> Seq<(Seq<char>, NodeView)> {
    Seq::new(s.len(), |i: int| (s[i].0@, s[i].1@))
}

impl Node {
    /// Every metadata key occurs once.
    pub open spec fn wf(&self) -> bool {
        keys_unique(self.metadata@)
    }

    /// A copy of this node.
    pub fn duplicate(&self) -> (r: Node)
        ensures
            r@ == self@,
            self.wf() ==> r.wf(),
    {
        let mut metadata: Vec<(String, String)> = Vec::new();
        let mut i: usize = 0;
        while i < self.metadata.len()
            invariant
                i <= self.metadata@.len(),
                pair_texts(metadata@) == pair_texts(self.metadata@).take(i as int),
            decreases self.metadata@.len() - i,
        {
            let k = self.metadata[i].0.clone();
            let v = self.metadata[i].1.clone();
            assert(pair_texts(metadata@.push((k, v))) =~= pair_texts(metadata@).push((k@, v@)));
            metadata.push((k, v));
            i = i + 1;
            assert(pair_texts(metadata@) =~= pair_texts(self.metadata@).take(i as int));
        }
        assert(pair_texts(self.metadata@).take(i as int) =~= pair_texts(self.metadata@));
        proof {
            assert forall|a: int| 0 <= a < metadata@.len() implies metadata@[a].0@ == self.metadata@[a].0@ by {
                assert(pair_texts(metadata@)[a] == pair_texts(self.metadata@)[a]);
            }
        }
        Node { label: self.label.clone(), metadata }
    }
}

/// Beliefs, each under the directory it is about.
#[derive(Debug)]
pub struct Beliefs {
    pub nodes: Vec<(String, Node)>,
}

impl Beliefs {
    /// Every key occurs once.
    pub open spec fn wf(&self) -> bool {
        keys_unique(self.nodes@)
    }

    /// No beliefs.
    pub fn new() -> (r: Beliefs)
        ensures
            r.nodes@.len() == 0,
            r.wf(),
    {
        Beliefs { nodes: Vec::new() }
    }
}

/// Recent activity, oldest first.
#[derive(Debug)]
pub struct Trace {
    pub entries: Vec<Signal>,
}

impl Trace {
    /// No activity.
    pub fn new() -> (r: Trace)
        ensures
            r.entries@.len() == 0,
    {
        Trace { entries: Vec::new() }
    }

    /// Appends a signal.
    pub fn record(&mut self, s: Signal)
        ensures
            final(self).entries@ == old(self).entries@.push(s),
    {
        self.entries.push(s);
    }

    /// The `last` most recent signals, newest first.
    pub fn recent(&self, last: usize) -> (r: Vec<Signal>)
        ensures
            r@ == self.entries@.reverse().take(
                if last < self.entries@.len() { last as int } else { self.entries@.len() as int },
            ),
    {
        let n = self.entries.len();
        let count = if last < n { last } else { n };
        let mut r: Vec<Signal> = Vec::new();
        let mut k: usize = 0;
        while k < count
            invariant
                count <= n,
                n == self.entries@.len(),
                k <= count,
                r@ == self.entries@.reverse().take(k as int),
            decreases count - k,
        {
            r.push(self.entries[n - 1 - k].duplicate());
            k = k + 1;
            assert(r@ =~= self.entries@.reverse().take(k as int));
        }
        r
    }
}

/// Records a visit of the directory `key` at `now`: its hotspot takes `energy_bits` (the
/// caller adds one to the energy it had, or to zero) and the time, and a `Visit` signal
/// is appended to the trace.
pub fn visit(hotspots: &mut Hotspots, trace: &mut Trace, key: String, energy_bits: u64, now: i64)
    ensures
        final(hotspots)@ == old(hotspots)@.insert(
            key@,
            Hotspot {
                path: if old(hotspots)@.contains_key(key@) {
                    old(hotspots)@[key@].path
                } else {
                    key
                },
                energy_bits,
                last_ts: now,
            },
        ),
        old(hotspots).wf() ==> final(hotspots).wf(),
        final(trace).entries@ == old(trace).entries@.push(Signal::Visit { path: key, ts: now }),
{
    let path = key.clone();
    hotspots.record_visit(key, energy_bits, now);
    trace.record(Signal::Visit { path, ts: now });
}

/// Records that the directory `key` was tagged `tag` at `now`: a `Tag` signal is appended
/// to the trace.
pub fn tag(trace: &mut Trace, key: String, tag: String, now: i64)
    ensures
        final(trace).entries@ == old(trace).entries@.push(Signal::Tag { path: key, tag, ts: now }),
{
    trace.record(Signal::Tag { path: key, tag, ts: now });
}

/// After a visit, the energy read back for the directory is the one the visit left, and
/// every other directory reads back as before.
pub proof fn law_visit_then_read(before: Map<Seq<char>, Hotspot>, key: Seq<char>, h: Hotspot, other: Seq<char>)
    requires
        other != key,
    ensures
        before.insert(key, h).contains_key(key),
        before.insert(key, h)[key].energy_bits == h.energy_bits,
        before.insert(key, h).contains_key(other) == before.contains_key(other),
        before.contains_key(other) ==> before.insert(key, h)[other] == before[other],
{
}

/// The most recent signal read back after recording one is the one recorded.
pub proof fn law_record_then_recent(entries: Seq<Signal>, s: Signal)
    ensures
        entries.push(s).reverse().take(1) == seq![s],
{
    assert(entries.push(s).reverse().take(1) =~= seq![s]);
}

} // verus!
