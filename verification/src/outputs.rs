//! The text that Marty shows: paths with the home directory as 🏠, relative times, ranks
//! and metadata.

use vstd::prelude::*;
use crate::memory::{pair_texts, Node};
use crate::signals::Signal;
use crate::text::{decimal, decimal_string, digits_value, law_decimal_reads_back, replace, replace_all, starts_with, suffix_from, trim, trimmed};

verus! {

/// `path` with a leading `home` (when `home` is not empty) shown as 🏠.
pub open spec fn home_shortened(path: Seq<char>, home: Seq<char>) -> Seq<char> {
    if home.len() > 0 && home.is_prefix_of(path) {
        "🏠"@ + path.skip(home.len() as int)
    } else {
        path
    }
}

/// `path` as shown: a leading home directory, every `$HOME` and every `~` become 🏠.
pub open spec fn emoji_path(path: Seq<char>, home: Seq<char>) -> Seq<char> {
    replace_all(replace_all(home_shortened(path, home), "$HOME"@, "🏠"@), "~"@, "🏠"@)
}

/// Shows `path` with the home directory `home` (the value of `$HOME`, empty when it is
/// not set) as 🏠: a leading `home` becomes 🏠, and so do every `$HOME` and every `~`.
pub fn format_path_with_emojis(path: &str, home: &str) -> (r: String)
    ensures
        r@ == emoji_path(path@, home@),
{
    proof {
        reveal_strlit("$HOME");
        reveal_strlit("~");
    }
    let shortened = if home.unicode_len() > 0 && starts_with(path, home) {
        let mut s = String::from_str("🏠");
        let rest = suffix_from(path, home.unicode_len());
        s.append(rest.as_str());
        s
    } else {
        String::from_str(path)
    };
    let no_var = replace(shortened.as_str(), "$HOME", "🏠");
    replace(no_var.as_str(), "~", "🏠")
}

proof fn lemma_replace_removes(s: Seq<char>, c: char, rep: Seq<char>)
    requires
        !rep.contains(c),
    ensures
        !replace_all(s, seq![c], rep).contains(c),
    decreases s.len(),
{
    if s.len() > 0 {
        if seq![c].is_prefix_of(s) {
            lemma_replace_removes(s.skip(1), c, rep);
            let r = replace_all(s.skip(1), seq![c], rep);
            assert forall|i: int| 0 <= i < (rep + r).len() implies (rep + r)[i] != c by {
                if i < rep.len() {
                    assert(rep[i] != c);
                } else {
                    assert((rep + r)[i] == r[i - rep.len()]);
                }
            }
        } else {
            lemma_replace_removes(s.drop_first(), c, rep);
            assert(s[0] != c) by {
                if s[0] == c {
                    assert(seq![c] =~= s.take(1));
                }
            }
            let r = replace_all(s.drop_first(), seq![c], rep);
            assert forall|i: int| 0 <= i < (seq![s[0]] + r).len() implies (seq![s[0]] + r)[i] != c by {
                if i > 0 {
                    assert((seq![s[0]] + r)[i] == r[i - 1]);
                }
            }
        }
    }
}

/// A path as shown never holds a `~`.
pub proof fn law_shown_path_has_no_tilde(path: Seq<char>, home: Seq<char>)
    ensures
        !emoji_path(path, home).contains('~'),
{
    reveal_strlit("~");
    reveal_strlit("🏠");
    assert("~"@ =~= seq!['~']);
    assert(!"🏠"@.contains('~')) by {
        assert("🏠"@ =~= seq!['🏠']);
    }
    lemma_replace_removes(replace_all(home_shortened(path, home), "$HOME"@, "🏠"@), '~', "🏠"@);
}

/// How long ago `ts` was at `now` (both in seconds since the Unix epoch): "just now" under
/// a minute (and for times ahead), then whole minutes, hours or days.
pub open spec fn relative_time(ts: i64, now: i64) -> Seq<char> {
    let diff = now - ts;
    if diff < 60 {
        "just now"@
    } else if diff < 3600 {
        decimal((diff / 60) as nat) + " mins ago"@
    } else if diff < 86400 {
        decimal((diff / 3600) as nat) + " hours ago"@
    } else {
        decimal((diff / 86400) as nat) + " days ago"@
    }
}

/// Relative times count whole units: `k` minutes and less than a minute more ago
/// (`1 <= k < 60`) reads "k mins ago", `k` hours and less than an hour more (`1 <= k < 24`)
/// "k hours ago", `k` days and less than a day more (`k >= 1`) "k days ago", and anything
/// under a minute ago, or ahead, "just now".
pub proof fn law_relative_time_counts_whole_units(ts: i64, now: i64, k: nat, rest: int)
    ensures
        now - ts < 60 ==> relative_time(ts, now) == "just now"@,
        1 <= k < 60 && 0 <= rest < 60 && now - ts == 60 * k + rest ==> relative_time(ts, now)
            == decimal(k) + " mins ago"@,
        1 <= k < 24 && 0 <= rest < 3600 && now - ts == 3600 * k + rest ==> relative_time(ts, now)
            == decimal(k) + " hours ago"@,
        1 <= k && 0 <= rest < 86400 && now - ts == 86400 * k + rest ==> relative_time(ts, now)
            == decimal(k) + " days ago"@,
{
}

/// Says how long ago `ts` was at `now`.
pub fn format_relative_time_at(ts: i64, now: i64) -> (r: String)
    ensures
        r@ == relative_time(ts, now),
{
    let diff: i128 = now as i128 - ts as i128;
    if diff < 60 {
        String::from_str("just now")
    } else if diff < 3600 {
        let mut r = decimal_string((diff / 60) as u64);
        r.append(" mins ago");
        r
    } else if diff < 86400 {
        let mut r = decimal_string((diff / 3600) as u64);
        r.append(" hours ago");
        r
    } else {
        let mut r = decimal_string((diff / 86400) as u64);
        r.append(" days ago");
        r
    }
}

/// Says how long ago `ts` is now, by the clock.
pub fn format_relative_time(ts: i64) -> (r: String)
    ensures
        exists|now: i64| r@ == relative_time(ts, now),
{
    let now = Signal::timestamp_now();
    format_relative_time_at(ts, now)
}

/// The label of the `i`-th hotspot (counted from 0) in a ranking: medals for the first
/// three, then `#` and the place.
pub open spec fn rank_text(i: nat) -> Seq<char> {
    if i == 0 {
        "🥇"@
    } else if i == 1 {
        "🥈"@
    } else if i == 2 {
        "🥉"@
    } else {
        "#"@ + decimal(i + 1)
    }
}

/// From the fourth place on, a place is shown as `#` followed by its number counted from
/// one: the digits after the `#` read back as `i + 1`.
pub proof fn law_rank_label_counts_from_one(i: nat)
    requires
        i >= 3,
    ensures
        rank_text(i)[0] == '#',
        digits_value(rank_text(i).skip(1)) == i + 1,
{
    reveal_strlit("#");
    law_decimal_reads_back(i + 1);
    assert(rank_text(i).skip(1) =~= decimal(i + 1));
}

/// Computes `rank_text`.
pub fn rank_label(i: usize) -> (r: String)
    requires
        i < usize::MAX,
    ensures
        r@ == rank_text(i as nat),
{
    if i == 0 {
        String::from_str("🥇")
    } else if i == 1 {
        String::from_str("🥈")
    } else if i == 2 {
        String::from_str("🥉")
    } else {
        let mut r = String::from_str("#");
        let place = decimal_string((i + 1) as u64);
        r.append(place.as_str());
        r
    }
}

/// One `key: value` line per metadata entry.
pub open spec fn metadata_lines(m: Seq<(Seq<char>, Seq<char>)>) -> Seq<char>
    decreases m.len(),
{
    if m.len() == 0 {
        seq![]
    } else {
        metadata_lines(m.drop_last()) + m.last().0 + ": "@ + m.last().1 + "\n"@
    }
}

/// The metadata of a belief as shown: one `key: value` line per entry, trimmed.
pub fn metadata_text(node: &Node) -> (r: String)
    ensures
        r@ == trimmed(metadata_lines(node@.metadata)),
{
    let mut acc = String::new();
    let mut i: usize = 0;
    while i < node.metadata.len()
        invariant
            i <= node.metadata@.len(),
            acc@ == metadata_lines(pair_texts(node.metadata@).take(i as int)),
        decreases node.metadata@.len() - i,
    {
        let ghost m = pair_texts(node.metadata@).take(i as int + 1);
        assert(m.drop_last() =~= pair_texts(node.metadata@).take(i as int));
        acc.append(node.metadata[i].0.as_str());
        acc.append(": ");
        acc.append(node.metadata[i].1.as_str());
        acc.append("\n");
        i = i + 1;
    }
    assert(pair_texts(node.metadata@).take(i as int) =~= pair_texts(node.metadata@));
    trim(acc.as_str())
}

} // verus!
