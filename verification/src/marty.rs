//! Directory history and the motions of the interactive shell: `<` back, `>` forward,
//! `^` up, and `{name}` into a child directory.

use vstd::prelude::*;
use crate::error::MartyError;
use crate::paths::{path_join, path_parent, joined_path, parent_path};
use crate::text::{chars_of, is_white_space, push_char, string_of, trim, trimmed};

verus! {

/// The text of each string in `v`.
pub open spec fn texts(v: Seq<String>) -> Seq<Seq<char>> {
    Seq::new(v.len(), |i: int| v[i]@)
}

/// Directories left behind (`backward`, most recent last) and directories that `>`
/// returns to (`forward`, next one last).
#[derive(Debug, Default)]
pub struct History {
    pub backward: Vec<String>,
    pub forward: Vec<String>,
}

/// A position in the shell: the current directory and the two stacks, as text.
pub struct Nav {
    pub current: Seq<char>,
    pub backward: Seq<Seq<char>>,
    pub forward: Seq<Seq<char>>,
}

impl History {
    /// The position made of `current` and this history.
    pub open spec fn nav(&self, current: Seq<char>) -> Nav {
        Nav { current, backward: texts(self.backward@), forward: texts(self.forward@) }
    }

    /// An empty history.
    pub fn new() -> (h: History)
        ensures
            h.backward@.len() == 0,
            h.forward@.len() == 0,
    {
        History { backward: Vec::new(), forward: Vec::new() }
    }

    /// The history that the shell starts with: `start` to go back to, nothing ahead.
    pub fn starting_at(start: String) -> (h: History)
        ensures
            texts(h.backward@) == seq![start@],
            h.forward@.len() == 0,
    {
        let mut backward = Vec::new();
        backward.push(start);
        let h = History { backward, forward: Vec::new() };
        assert(texts(h.backward@) =~= seq![start@]);
        h
    }
}

/// The kind of a motion.
#[derive(Debug, Clone, Copy, PartialEq, Eq)]
pub enum Motion {
    Back,
    Forward,
    Up,
    Jump,
}

/// Why a traversal stopped.
pub enum Refusal {
    Unrecognized(char),
    NoPrevious,
    NoNext,
    NoParent,
    NoSubdir(Seq<char>),
}

/// The message that each refusal is reported with.
pub open spec fn refusal_message(r: Refusal) -> Seq<char> {
    match r {
        Refusal::Unrecognized(c) => "Unrecognized traversal character '"@ + seq![c] + "'"@,
        Refusal::NoPrevious => "No previous directory in history to go back to"@,
        Refusal::NoNext => "No forward directory in history to go to"@,
        Refusal::NoParent => "No parent directory exists"@,
        Refusal::NoSubdir(name) => "Target subdirectory '"@ + name + "' does not exist"@,
    }
}

/// The breadcrumb shown after a motion: at most the five most recent directories left
/// behind, then the directory reached.
pub open spec fn trail(backward: Seq<Seq<char>>, current: Seq<char>) -> Seq<Seq<char>> {
    backward.skip(if backward.len() > 5 { backward.len() - 5 } else { 0 }).push(current)
}

/// One group of equal motions, as reported to the user.
pub struct StepView {
    pub motion: Motion,
    pub count: nat,
    pub reached: Option<Seq<char>>,
    pub trail: Seq<Seq<char>>,
}

/// One group of equal motions: its kind, how many, the directory it reached (`None` when
/// it was refused part way) and the breadcrumb after it.
#[derive(Debug)]
pub struct Step {
    pub motion: Motion,
    pub count: usize,
    pub reached: Option<String>,
    pub trail: Vec<String>,
}

impl View for Step {
    type V = StepView;

    open spec fn view(&self) -> StepView {
        StepView {
            motion: self.motion,
            count: self.count as nat,
            reached: match self.reached {
                Some(s) => Some(s@),
                None => None,
            },
            trail: texts(self.trail@),
        }
    }
}

/// The views of a sequence of steps.
pub open spec fn step_views(v: Seq<Step>) -> Seq<StepView> {
    Seq::new(v.len(), |i: int| v[i]@)
}

/// How many times `c` repeats at the start of `s`.
pub open spec fn run_len(s: Seq<char>, c: char) -> nat
    decreases s.len(),
{
    if s.len() > 0 && s[0] == c {
        1 + run_len(s.drop_first(), c)
    } else {
        0
    }
}

/// `n` motions back: each one moves the current directory to `forward` and takes the last
/// directory of `backward`. The flag is false when `backward` ran out part way; the moves
/// made before stay made.
pub open spec fn back_steps(nav: Nav, n: nat) -> (Nav, bool)
    decreases n,
{
    if n == 0 {
        (nav, true)
    } else if nav.backward.len() == 0 {
        (nav, false)
    } else {
        back_steps(
            Nav {
                current: nav.backward.last(),
                backward: nav.backward.drop_last(),
                forward: nav.forward.push(nav.current),
            },
            (n - 1) as nat,
        )
    }
}

/// `n` motions forward, the mirror of `back_steps`.
pub open spec fn forward_steps(nav: Nav, n: nat) -> (Nav, bool)
    decreases n,
{
    if n == 0 {
        (nav, true)
    } else if nav.forward.len() == 0 {
        (nav, false)
    } else {
        forward_steps(
            Nav {
                current: nav.forward.last(),
                backward: nav.backward.push(nav.current),
                forward: nav.forward.drop_last(),
            },
            (n - 1) as nat,
        )
    }
}

/// `n` motions up: each one pushes the current directory on `backward` and moves to its
/// parent; `forward` is left as it is.
pub open spec fn up_steps(nav: Nav, n: nat) -> (Nav, bool)
    decreases n,
{
    if n == 0 {
        (nav, true)
    } else {
        match parent_path(nav.current) {
            None => (nav, false),
            Some(p) => up_steps(
                Nav { current: p, backward: nav.backward.push(nav.current), forward: nav.forward },
                (n - 1) as nat,
            ),
        }
    }
}

/// The motion that a character stands for.
pub open spec fn motion_of(c: char) -> Option<Motion> {
    if c == '<' {
        Some(Motion::Back)
    } else if c == '>' {
        Some(Motion::Forward)
    } else if c == '^' {
        Some(Motion::Up)
    } else {
        None
    }
}

/// `n` motions of kind `m`.
pub open spec fn motion_steps(m: Motion, nav: Nav, n: nat) -> (Nav, bool) {
    match m {
        Motion::Back => back_steps(nav, n),
        Motion::Forward => forward_steps(nav, n),
        _ => up_steps(nav, n),
    }
}

/// Why a group of motions of kind `m` can stop.
pub open spec fn refusal_of(m: Motion) -> Refusal {
    match m {
        Motion::Back => Refusal::NoPrevious,
        Motion::Forward => Refusal::NoNext,
        _ => Refusal::NoParent,
    }
}

/// Where a traversal ends, what it reports and how it ends.
pub struct Walk {
    pub nav: Nav,
    pub steps: Seq<StepView>,
    pub outcome: Result<Seq<char>, Refusal>,
}

/// A run of `c` is never longer than `s`, and is at least one long when `s` starts with `c`.
pub proof fn lemma_run_len_bounds(s: Seq<char>, c: char)
    ensures
        run_len(s, c) <= s.len(),
        s.len() > 0 && s[0] == c ==> run_len(s, c) >= 1,
    decreases s.len(),
{
    if s.len() > 0 && s[0] == c {
        lemma_run_len_bounds(s.drop_first(), c);
    }
}

/// The motions of `s`, group by group: a run of equal characters is one group. A character
/// that is no motion stops the walk; so does a group that runs out of history or parents.
pub open spec fn walk(s: Seq<char>, nav: Nav) -> Walk
    decreases s.len(),
{
    if s.len() == 0 {
        Walk { nav, steps: seq![], outcome: Ok(nav.current) }
    } else {
        let c = s[0];
        let n = run_len(s, c);
        match motion_of(c) {
            None => Walk { nav, steps: seq![], outcome: Err(Refusal::Unrecognized(c)) },
            Some(m) => {
                let (nav2, ok) = motion_steps(m, nav, n);
                if !ok {
                    Walk {
                        nav: nav2,
                        steps: seq![StepView { motion: m, count: n, reached: None, trail: seq![] }],
                        outcome: Err(refusal_of(m)),
                    }
                } else {
                    proof {
                        lemma_run_len_bounds(s, c);
                    }
                    let rest = walk(s.skip(n as int), nav2);
                    Walk {
                        nav: rest.nav,
                        steps: seq![
                            StepView {
                                motion: m,
                                count: n,
                                reached: Some(nav2.current),
                                trail: trail(nav2.backward, nav2.current),
                            },
                        ] + rest.steps,
                        outcome: rest.outcome,
                    }
                }
            },
        }
    }
}

/// Whether a (trimmed) command is a jump into a child directory: `{name}`.
pub open spec fn is_jump(t: Seq<char>) -> bool {
    t.len() > 0 && t[0] == '{' && t.last() == '}'
}

/// The child directory named by a jump command.
pub open spec fn jump_name(t: Seq<char>) -> Seq<char> {
    t.subrange(1, t.len() - 1)
}

/// What a command does from `nav`: a jump enters `current` joined with the name (if that
/// directory exists, which `target_exists` says), remembers `current` and forgets
/// `forward`; any other command is walked motion by motion after trimming.
pub open spec fn traversal(cmd: Seq<char>, nav: Nav, target_exists: bool) -> Walk {
    let t = trimmed(cmd);
    if is_jump(t) {
        let target = joined_path(nav.current, jump_name(t));
        if target_exists {
            let nav2 = Nav {
                current: target,
                backward: nav.backward.push(nav.current),
                forward: seq![],
            };
            Walk {
                nav: nav2,
                steps: seq![
                    StepView {
                        motion: Motion::Jump,
                        count: 1,
                        reached: Some(target),
                        trail: trail(nav2.backward, target),
                    },
                ],
                outcome: Ok(target),
            }
        } else {
            Walk { nav, steps: seq![], outcome: Err(Refusal::NoSubdir(jump_name(t))) }
        }
    } else {
        walk(t, nav)
    }
}

/// The result of a traversal as the caller sees it: the directory reached, or the refusal
/// with its message.
pub open spec fn outcome_matches(r: Result<String, MartyError>, w: Result<Seq<char>, Refusal>) -> bool {
    match w {
        Ok(d) => r matches Ok(s) && s@ == d,
        Err(f) => r matches Err(MartyError::Internal(m)) && m@ == refusal_message(f),
    }
}

/// What `traverse` hands back: the groups of motions as they happened, then the directory
/// reached or the error that stopped it.
#[derive(Debug)]
pub struct Traversal {
    pub steps: Vec<Step>,
    pub outcome: Result<String, MartyError>,
}


/// Copies of the strings in `v`.
fn copy_texts(v: &Vec<String>, from: usize) -> (r: Vec<String>)
    requires
        from <= v@.len(),
    ensures
        texts(r@) == texts(v@).skip(from as int),
{
    let mut r: Vec<String> = Vec::new();
    let mut i = from;
    while i < v.len()
        invariant
            from <= i <= v@.len(),
            texts(r@) == texts(v@).subrange(from as int, i as int),
        decreases v@.len() - i,
    {
        let x = v[i].clone();
        assert(x@ == texts(v@)[i as int]);
        proof {
            lemma_texts_push(r@, x);
        }
        r.push(x);
        i = i + 1;
        assert(texts(r@) =~= texts(v@).subrange(from as int, i as int));
    }
    assert(texts(v@).subrange(from as int, v@.len() as int) =~= texts(v@).skip(from as int));
    r
}

/// The breadcrumb after reaching `current` with `backward` behind.
fn trail_of(backward: &Vec<String>, current: &String) -> (r: Vec<String>)
    ensures
        texts(r@) == trail(texts(backward@), current@),
{
    let from = if backward.len() > 5 { backward.len() - 5 } else { 0 };
    let mut r = copy_texts(backward, from);
    r.push(current.clone());
    assert(texts(r@) =~= trail(texts(backward@), current@));
    r
}

proof fn lemma_texts_push(v: Seq<String>, x: String)
    ensures
        texts(v.push(x)) == texts(v).push(x@),
{
    assert(texts(v.push(x)) =~= texts(v).push(x@));
}

proof fn lemma_texts_drop_last(v: Seq<String>)
    requires
        v.len() > 0,
    ensures
        texts(v.drop_last()) == texts(v).drop_last(),
        texts(v).last() == v.last()@,
{
    assert(texts(v.drop_last()) =~= texts(v).drop_last());
}

/// Makes `n` motions back from `current`.
fn go_back(current: String, history: &mut History, n: usize) -> (r: (String, bool))
    ensures
        back_steps(old(history).nav(current@), n as nat) == (final(history).nav(r.0@), r.1),
{
    let ghost start = old(history).nav(current@);
    let mut cur = current;
    let mut k: usize = 0;
    while k < n
        invariant
            k <= n,
            start == old(history).nav(current@),
            back_steps(start, n as nat) == back_steps(history.nav(cur@), (n - k) as nat),
        decreases n - k,
    {
        let ghost before = history.nav(cur@);
        let ghost old_backward = history.backward@;
        let ghost old_forward = history.forward@;
        match history.backward.pop() {
            Some(prev) => {
                proof {
                    lemma_texts_drop_last(old_backward);
                    lemma_texts_push(old_forward, cur);
                }
                history.forward.push(cur);
                cur = prev;
                assert(history.nav(cur@) == Nav {
                    current: before.backward.last(),
                    backward: before.backward.drop_last(),
                    forward: before.forward.push(before.current),
                });
            },
            None => {
                return (cur, false);
            },
        }
        k = k + 1;
    }
    (cur, true)
}

/// Makes `n` motions forward from `current`.
fn go_forward(current: String, history: &mut History, n: usize) -> (r: (String, bool))
    ensures
        forward_steps(old(history).nav(current@), n as nat) == (final(history).nav(r.0@), r.1),
{
    let ghost start = old(history).nav(current@);
    let mut cur = current;
    let mut k: usize = 0;
    while k < n
        invariant
            k <= n,
            start == old(history).nav(current@),
            forward_steps(start, n as nat) == forward_steps(history.nav(cur@), (n - k) as nat),
        decreases n - k,
    {
        let ghost before = history.nav(cur@);
        let ghost old_backward = history.backward@;
        let ghost old_forward = history.forward@;
        match history.forward.pop() {
            Some(next) => {
                proof {
                    lemma_texts_drop_last(old_forward);
                    lemma_texts_push(old_backward, cur);
                }
                history.backward.push(cur);
                cur = next;
                assert(history.nav(cur@) == Nav {
                    current: before.forward.last(),
                    backward: before.backward.push(before.current),
                    forward: before.forward.drop_last(),
                });
            },
            None => {
                return (cur, false);
            },
        }
        k = k + 1;
    }
    (cur, true)
}

/// Makes `n` motions up from `current`.
fn go_up(current: String, history: &mut History, n: usize) -> (r: (String, bool))
    ensures
        up_steps(old(history).nav(current@), n as nat) == (final(history).nav(r.0@), r.1),
{
    let ghost start = old(history).nav(current@);
    let mut cur = current;
    let mut k: usize = 0;
    while k < n
        invariant
            k <= n,
            start == old(history).nav(current@),
            up_steps(start, n as nat) == up_steps(history.nav(cur@), (n - k) as nat),
        decreases n - k,
    {
        let ghost before = history.nav(cur@);
        let ghost old_backward = history.backward@;
        match path_parent(cur.as_str()) {
            Some(parent) => {
                proof {
                    lemma_texts_push(old_backward, cur);
                }
                history.backward.push(cur);
                cur = parent;
                assert(history.nav(cur@) == Nav {
                    current: parent_path(before.current)->Some_0,
                    backward: before.backward.push(before.current),
                    forward: before.forward,
                });
            },
            None => {
                return (cur, false);
            },
        }
        k = k + 1;
    }
    (cur, true)
}

/// The message of a refusal.
fn refusal_text(m: Motion) -> (r: String)
    requires
        m != Motion::Jump,
    ensures
        r@ == refusal_message(refusal_of(m)),
{
    match m {
        Motion::Back => String::from_str("No previous directory in history to go back to"),
        Motion::Forward => String::from_str("No forward directory in history to go to"),
        _ => String::from_str("No parent directory exists"),
    }
}

/// The message for a character that is no motion.
fn unrecognized_text(c: char) -> (r: String)
    ensures
        r@ == refusal_message(Refusal::Unrecognized(c)),
{
    let mut r = String::from_str("Unrecognized traversal character '");
    push_char(&mut r, c);
    r.append("'");
    r
}

/// The message for a child directory that does not exist.
fn no_subdir_text(name: &String) -> (r: String)
    ensures
        r@ == refusal_message(Refusal::NoSubdir(name@)),
{
    let mut r = String::from_str("Target subdirectory '");
    r.append(name.as_str());
    r.append("' does not exist");
    r
}

proof fn lemma_run_len_skip(s: Seq<char>, c: char, i: int, j: int)
    requires
        0 <= i <= j <= s.len(),
        forall|k: int| i <= k < j ==> s[k] == c,
        j == s.len() || s[j] != c,
    ensures
        run_len(s.skip(i), c) == j - i,
    decreases j - i,
{
    if i == j {
    } else {
        lemma_run_len_skip(s, c, i + 1, j);
        assert(s.skip(i).drop_first() =~= s.skip(i + 1));
    }
}

/// The child directory that a jump command enters from `current`, or `None` when `cmd`
/// is no jump. The shell asks whether it exists before it traverses.
pub fn jump_target(cmd: &str, current: &str) -> (r: Option<String>)
    ensures
        match r {
            Some(t) => is_jump(trimmed(cmd@)) && t@ == joined_path(current@, jump_name(trimmed(cmd@))),
            None => !is_jump(trimmed(cmd@)),
        },
{
    let t = trim(cmd);
    let v = chars_of(t.as_str());
    let n = v.len();
    if n >= 2 && v[0] == '{' && v[n - 1] == '}' {
        assert(v@.last() == v@[n - 1]);
        let name = string_of(&v, 1, n - 1);
        Some(path_join(current, name.as_str()))
    } else {
        assert(n == 1 ==> v@.last() == v@[0]);
        None
    }
}

/// Carries out a command of the interactive shell from `current`.
///
/// `{name}` enters the child directory `name` when it exists (`target_exists`, which the
/// caller learns from `jump_target`), pushing `current` on the history and clearing what
/// lies ahead. Otherwise the command, trimmed, is read as groups of `<` (back), `>`
/// (forward) and `^` (up): a run of one character is one group, carried out move by move.
/// The first character that is none of these, or a group that runs out of history or of
/// parents, stops the command with an error; the moves made before it stay made.
pub fn traverse(cmd: &str, current: String, target_exists: bool, history: &mut History) -> (r:
    Traversal)
    ensures
        ({
            let w = traversal(cmd@, old(history).nav(current@), target_exists);
            &&& texts(final(history).backward@) == w.nav.backward
            &&& texts(final(history).forward@) == w.nav.forward
            &&& step_views(r.steps@) == w.steps
            &&& outcome_matches(r.outcome, w.outcome)
        }),
{
    let ghost start = old(history).nav(current@);
    let t = trim(cmd);
    let v = chars_of(t.as_str());
    let n = v.len();
    let mut steps: Vec<Step> = Vec::new();
    assert(n == 1 ==> v@.last() == v@[0]);
    if n >= 2 && v[0] == '{' && v[n - 1] == '}' {
        assert(v@.last() == v@[n - 1]);
        let name = string_of(&v, 1, n - 1);
        let target = path_join(current.as_str(), name.as_str());
        if target_exists {
            proof {
                lemma_texts_push(history.backward@, current);
            }
            history.backward.push(current);
            history.forward.clear();
            assert(texts(history.forward@) =~= seq![]);
            let tr = trail_of(&history.backward, &target);
            let reached = target.clone();
            steps.push(Step { motion: Motion::Jump, count: 1, reached: Some(reached), trail: tr });
            assert(step_views(steps@) =~= traversal(cmd@, start, target_exists).steps);
            return Traversal { steps, outcome: Ok(target) };
        } else {
            return Traversal { steps, outcome: Err(MartyError::Internal(no_subdir_text(&name))) };
        }
    }
    let mut cur = current;
    let mut i: usize = 0;
    assert(v@.skip(0) =~= v@);
    while i < n
        invariant
            start == old(history).nav(current@),
            v@ == trimmed(cmd@),
            !is_jump(v@),
            n == v@.len(),
            i <= n,
            ({
                let whole = walk(v@, start);
                let rest = walk(v@.skip(i as int), history.nav(cur@));
                &&& whole.nav == rest.nav
                &&& whole.outcome == rest.outcome
                &&& whole.steps == step_views(steps@) + rest.steps
            }),
        decreases n - i,
    {
        let c = v[i];
        let mut j = i + 1;
        while j < n && v[j] == c
            invariant
                i < j <= n,
                n == v@.len(),
                c == v@[i as int],
                forall|k: int| i <= k < j ==> v@[k] == c,
            decreases n - j,
        {
            j = j + 1;
        }
        let count = j - i;
        let ghost s = v@.skip(i as int);
        let ghost nav = history.nav(cur@);
        proof {
            lemma_run_len_skip(v@, c, i as int, j as int);
            assert(s[0] == c);
            assert(s.skip(count as int) =~= v@.skip(j as int));
        }
        let motion = if c == '<' {
            Motion::Back
        } else if c == '>' {
            Motion::Forward
        } else if c == '^' {
            Motion::Up
        } else {
            let msg = unrecognized_text(c);
            assert(step_views(steps@) + seq![] =~= step_views(steps@));
            return Traversal { steps, outcome: Err(MartyError::Internal(msg)) };
        };
        let (next, ok) = match motion {
            Motion::Back => go_back(cur, history, count),
            Motion::Forward => go_forward(cur, history, count),
            _ => go_up(cur, history, count),
        };
        let ghost step_count = count as nat;
        if !ok {
            steps.push(Step { motion, count, reached: None, trail: Vec::new() });
            proof {
                let st = StepView { motion, count: step_count, reached: None, trail: seq![] };
                assert(texts(Seq::<String>::empty()) =~= seq![]);
                assert(step_views(steps@) =~= step_views(steps@.drop_last()) + seq![st]);
            }
            return Traversal { steps, outcome: Err(MartyError::Internal(refusal_text(motion))) };
        }
        let tr = trail_of(&history.backward, &next);
        let reached = next.clone();
        let ghost prev_steps = steps@;
        steps.push(Step { motion, count, reached: Some(reached), trail: tr });
        proof {
            let st = StepView {
                motion,
                count: step_count,
                reached: Some(next@),
                trail: trail(texts(history.backward@), next@),
            };
            assert(step_views(steps@) =~= step_views(prev_steps) + seq![st]);
            assert(step_views(prev_steps) + seq![st] + walk(v@.skip(j as int), history.nav(next@)).steps
                =~= step_views(prev_steps) + (seq![st] + walk(v@.skip(j as int), history.nav(next@)).steps));
        }
        cur = next;
        i = j;
    }
    assert(step_views(steps@) + seq![] =~= step_views(steps@));
    Traversal { steps, outcome: Ok(cur) }
}

/// `n` copies of `c`.
pub open spec fn repeat(c: char, n: nat) -> Seq<char> {
    Seq::new(n, |i: int| c)
}

proof fn lemma_trimmed_plain(s: Seq<char>)
    requires
        s.len() > 0,
        !is_white_space(s[0]),
        !is_white_space(s.last()),
    ensures
        trimmed(s) == s,
{
}

proof fn lemma_walk_group(c: char, n: nat, nav: Nav)
    requires
        n > 0,
        motion_of(c) is Some,
    ensures
        ({
            let (nav2, ok) = motion_steps(motion_of(c)->Some_0, nav, n);
            let w = traversal(repeat(c, n), nav, false);
            &&& w.nav == nav2
            &&& ok ==> w.outcome == Ok::<Seq<char>, Refusal>(nav2.current)
            &&& !ok ==> w.outcome == Err::<Seq<char>, Refusal>(refusal_of(motion_of(c)->Some_0))
        }),
{
    reveal_with_fuel(walk, 2);
    let s = repeat(c, n);
    assert(s[0] == c);
    assert(s.last() == c);
    lemma_trimmed_plain(s);
    assert(!is_jump(s));
    lemma_run_len_skip(s, c, 0, n as int);
    assert(s.skip(0) =~= s);
    assert(s.skip(n as int) =~= Seq::<char>::empty());
}

proof fn lemma_forward_split(x: Nav, a: nat)
    ensures
        forward_steps(x, a + 1) == (if forward_steps(x, a).1 {
            forward_steps(forward_steps(x, a).0, 1)
        } else {
            forward_steps(x, a)
        }),
    decreases a,
{
    if a > 0 && x.forward.len() > 0 {
        let x1 = Nav {
            current: x.forward.last(),
            backward: x.backward.push(x.current),
            forward: x.forward.drop_last(),
        };
        lemma_forward_split(x1, (a - 1) as nat);
        assert(forward_steps(x, a + 1) == forward_steps(x1, a));
        assert(((a - 1) as nat) + 1 == a);
    }
}

proof fn lemma_back_undone(nav: Nav, n: nat)
    requires
        back_steps(nav, n).1,
    ensures
        forward_steps(back_steps(nav, n).0, n) == (nav, true),
    decreases n,
{
    if n > 0 {
        let nav1 = Nav {
            current: nav.backward.last(),
            backward: nav.backward.drop_last(),
            forward: nav.forward.push(nav.current),
        };
        let m = (n - 1) as nat;
        lemma_back_undone(nav1, m);
        let x = back_steps(nav, n).0;
        lemma_forward_split(x, m);
        assert(m + 1 == n);
        let back_one = Nav {
            current: nav1.forward.last(),
            backward: nav1.backward.push(nav1.current),
            forward: nav1.forward.drop_last(),
        };
        assert(back_one.backward =~= nav.backward);
        assert(back_one.forward =~= nav.forward);
        assert(back_one == nav);
        assert(forward_steps(nav1, 1) == forward_steps(back_one, 0));
    }
}

/// Going back `n` times and then forward `n` times returns to where the shell started,
/// with the history it had, whenever at least `n` directories lie behind.
pub proof fn law_back_then_forward_returns(nav: Nav, n: nat)
    requires
        n > 0,
        nav.backward.len() >= n,
    ensures
        ({
            let there = traversal(repeat('<', n), nav, false);
            let back = traversal(repeat('>', n), there.nav, false);
            &&& there.outcome is Ok
            &&& back.nav == nav
            &&& back.outcome == Ok::<Seq<char>, Refusal>(nav.current)
        }),
{
    lemma_back_succeeds(nav, n);
    lemma_walk_group('<', n, nav);
    let there = back_steps(nav, n).0;
    lemma_walk_group('>', n, there);
    lemma_back_undone(nav, n);
}

proof fn lemma_back_succeeds(nav: Nav, n: nat)
    requires
        nav.backward.len() >= n,
    ensures
        back_steps(nav, n).1,
    decreases n,
{
    if n > 0 {
        let nav1 = Nav {
            current: nav.backward.last(),
            backward: nav.backward.drop_last(),
            forward: nav.forward.push(nav.current),
        };
        lemma_back_succeeds(nav1, (n - 1) as nat);
    }
}

/// Going back with no directory behind is refused and changes nothing.
pub proof fn law_back_without_history_is_refused(nav: Nav, n: nat)
    requires
        n > 0,
        nav.backward.len() == 0,
    ensures
        ({
            let w = traversal(repeat('<', n), nav, false);
            &&& w.nav == nav
            &&& w.outcome == Err::<Seq<char>, Refusal>(Refusal::NoPrevious)
        }),
{
    lemma_walk_group('<', n, nav);
}

/// Going up one level and then back returns to the starting directory, with the same
/// directories behind; the parent is then the one directory ahead.
pub proof fn law_up_then_back_returns(nav: Nav)
    requires
        parent_path(nav.current) is Some,
    ensures
        ({
            let up = traversal(repeat('^', 1), nav, false);
            let back = traversal(repeat('<', 1), up.nav, false);
            &&& up.outcome == Ok::<Seq<char>, Refusal>(parent_path(nav.current)->Some_0)
            &&& back.outcome == Ok::<Seq<char>, Refusal>(nav.current)
            &&& back.nav.backward == nav.backward
            &&& back.nav.forward == nav.forward.push(parent_path(nav.current)->Some_0)
        }),
{
    reveal_with_fuel(up_steps, 2);
    reveal_with_fuel(back_steps, 2);
    lemma_walk_group('^', 1, nav);
    let up = up_steps(nav, 1).0;
    lemma_walk_group('<', 1, up);
    assert(back_steps(up, 1).0.backward =~= nav.backward);
}

/// Entering an existing child directory and then going back returns to the starting
/// directory with the same directories behind; the child is then the one directory ahead.
pub proof fn law_jump_then_back_returns(cmd: Seq<char>, nav: Nav)
    requires
        is_jump(trimmed(cmd)),
    ensures
        ({
            let target = joined_path(nav.current, jump_name(trimmed(cmd)));
            let jump = traversal(cmd, nav, true);
            let back = traversal(repeat('<', 1), jump.nav, false);
            &&& jump.outcome == Ok::<Seq<char>, Refusal>(target)
            &&& back.outcome == Ok::<Seq<char>, Refusal>(nav.current)
            &&& back.nav.backward == nav.backward
            &&& back.nav.forward == seq![target]
        }),
{
    reveal_with_fuel(back_steps, 2);
    let jump = traversal(cmd, nav, true);
    lemma_walk_group('<', 1, jump.nav);
    assert(back_steps(jump.nav, 1).0.backward =~= nav.backward);
    assert(back_steps(jump.nav, 1).0.forward =~= seq![joined_path(nav.current, jump_name(trimmed(cmd)))]);
}

/// A line typed at the shell's prompt.
#[derive(Debug)]
pub enum ReplInput {
    /// Nothing but white space: ignored.
    Empty,
    /// `exit` in any ASCII case: leave the shell.
    Exit,
    /// Anything else, trimmed: a command to traverse.
    Command(String),
}

/// `exit`, in any ASCII case.
pub open spec fn is_exit_word(t: Seq<char>) -> bool {
    &&& t.len() == 4
    &&& (t[0] == 'e' || t[0] == 'E')
    &&& (t[1] == 'x' || t[1] == 'X')
    &&& (t[2] == 'i' || t[2] == 'I')
    &&& (t[3] == 't' || t[3] == 'T')
}

/// Reads a line typed at the prompt: it is trimmed; an empty line is ignored, `exit` (in
/// any ASCII case) leaves, anything else is a command.
pub fn classify_input(line: &str) -> (r: ReplInput)
    ensures
        trimmed(line@).len() == 0 ==> r is Empty,
        trimmed(line@).len() > 0 && is_exit_word(trimmed(line@)) ==> r is Exit,
        trimmed(line@).len() > 0 && !is_exit_word(trimmed(line@)) ==> (r matches ReplInput::Command(c) && c@ == trimmed(line@)),
{
    let t = trim(line);
    let v = chars_of(t.as_str());
    if v.len() == 0 {
        ReplInput::Empty
    } else if v.len() == 4 && (v[0] == 'e' || v[0] == 'E') && (v[1] == 'x' || v[1] == 'X') && (v[2]
        == 'i' || v[2] == 'I') && (v[3] == 't' || v[3] == 'T') {
        ReplInput::Exit
    } else {
        ReplInput::Command(t)
    }
}

} // verus!
