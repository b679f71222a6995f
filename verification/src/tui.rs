//! The dashboard's navigation: three tabs (hotspots, beliefs, trace), each a list with a
//! selection that wraps around.

use vstd::prelude::*;

verus! {

/// How many tabs there are.
pub const TAB_COUNT: usize = 3;

/// How many trace entries the trace tab lists at most.
pub const TRACE_SHOWN: usize = 50;

/// The keys the dashboard acts on.
#[derive(Debug, Clone, Copy, PartialEq, Eq)]
pub enum Key {
    /// `q`
    Quit,
    /// right arrow or tab
    NextTab,
    /// left arrow
    PreviousTab,
    /// down arrow or `j`
    Down,
    /// up arrow or `k`
    Up,
    /// anything else
    Other,
}

/// The selection after moving down a list of `count` items: the next one, wrapping to
/// the first; the first when nothing was selected; unchanged in an empty list.
pub open spec fn next_selection(sel: Option<usize>, count: usize) -> Option<usize> {
    if count == 0 {
        sel
    } else {
        match sel {
            Some(i) => if i >= count - 1 {
                Some(0)
            } else {
                Some((i + 1) as usize)
            },
            None => Some(0),
        }
    }
}

/// The selection after moving up a list of `count` items: the previous one, wrapping to
/// the last; the last when nothing was selected; unchanged in an empty list.
pub open spec fn previous_selection(sel: Option<usize>, count: usize) -> Option<usize> {
    if count == 0 {
        sel
    } else {
        match sel {
            Some(i) => if i == 0 {
                Some((count - 1) as usize)
            } else {
                Some((i - 1) as usize)
            },
            None => Some((count - 1) as usize),
        }
    }
}

/// Computes `next_selection`.
pub fn next_index(sel: Option<usize>, count: usize) -> (r: Option<usize>)
    ensures
        r == next_selection(sel, count),
{
    if count == 0 {
        sel
    } else {
        match sel {
            Some(i) => if i >= count - 1 {
                Some(0)
            } else {
                Some(i + 1)
            },
            None => Some(0),
        }
    }
}

/// Computes `previous_selection`.
pub fn previous_index(sel: Option<usize>, count: usize) -> (r: Option<usize>)
    ensures
        r == previous_selection(sel, count),
{
    if count == 0 {
        sel
    } else {
        match sel {
            Some(i) => if i == 0 {
                Some(count - 1)
            } else {
                Some(i - 1)
            },
            None => Some(count - 1),
        }
    }
}

/// What a list shows as selected: the first item when nothing is selected yet and the
/// list is not empty.
pub fn shown_selection(sel: Option<usize>, count: usize) -> (r: Option<usize>)
    ensures
        r == if sel is None && count > 0 {
            Some(0usize)
        } else {
            sel
        },
{
    if sel.is_none() && count > 0 {
        Some(0)
    } else {
        sel
    }
}

/// The state of the dashboard.
#[derive(Debug)]
pub struct TuiState {
    pub active_tab: usize,
    pub should_quit: bool,
    pub hotspots_selected: Option<usize>,
    pub beliefs_selected: Option<usize>,
    pub trace_selected: Option<usize>,
}

impl TuiState {
    /// The active tab is one of the tabs.
    pub open spec fn wf(&self) -> bool {
        self.active_tab < TAB_COUNT
    }

    /// The dashboard as it opens: the first tab, nothing selected.
    pub fn new() -> (r: TuiState)
        ensures
            r.wf(),
            r.active_tab == 0,
            !r.should_quit,
            r.hotspots_selected is None,
            r.beliefs_selected is None,
            r.trace_selected is None,
    {
        TuiState {
            active_tab: 0,
            should_quit: false,
            hotspots_selected: None,
            beliefs_selected: None,
            trace_selected: None,
        }
    }

    /// Acts on a key. `hotspots`, `beliefs` and `trace` are how many items each list has
    /// (the trace tab shows at most `TRACE_SHOWN`). `q` quits; the tab keys move to the next
    /// or previous tab, wrapping; down and up move the selection of the active tab's list.
    pub fn handle_key(&mut self, key: Key, hotspots: usize, beliefs: usize, trace: usize)
        requires
            old(self).wf(),
        ensures
            final(self).wf(),
            final(self).should_quit == (old(self).should_quit || key == Key::Quit),
            final(self).active_tab == match key {
                Key::NextTab => (old(self).active_tab + 1) % (TAB_COUNT as int),
                Key::PreviousTab => (old(self).active_tab + 2) % (TAB_COUNT as int),
                _ => old(self).active_tab as int,
            },
            ({
                let count = if old(self).active_tab == 0 {
                    hotspots
                } else if old(self).active_tab == 1 {
                    beliefs
                } else if trace < TRACE_SHOWN {
                    trace
                } else {
                    TRACE_SHOWN
                };
                let moved = |sel: Option<usize>|
                    match key {
                        Key::Down => next_selection(sel, count),
                        Key::Up => previous_selection(sel, count),
                        _ => sel,
                    };
                &&& final(self).hotspots_selected == if old(self).active_tab == 0 {
                    moved(old(self).hotspots_selected)
                } else {
                    old(self).hotspots_selected
                }
                &&& final(self).beliefs_selected == if old(self).active_tab == 1 {
                    moved(old(self).beliefs_selected)
                } else {
                    old(self).beliefs_selected
                }
                &&& final(self).trace_selected == if old(self).active_tab == 2 {
                    moved(old(self).trace_selected)
                } else {
                    old(self).trace_selected
                }
            }),
    {
        match key {
            Key::Quit => {
                self.should_quit = true;
            },
            Key::NextTab => {
                self.active_tab = (self.active_tab + 1) % TAB_COUNT;
            },
            Key::PreviousTab => {
                self.active_tab = (self.active_tab + 2) % TAB_COUNT;
            },
            Key::Down => {
                if self.active_tab == 0 {
                    self.hotspots_selected = next_index(self.hotspots_selected, hotspots);
                } else if self.active_tab == 1 {
                    self.beliefs_selected = next_index(self.beliefs_selected, beliefs);
                } else {
                    let count = if trace < TRACE_SHOWN { trace } else { TRACE_SHOWN };
                    self.trace_selected = next_index(self.trace_selected, count);
                }
            },
            Key::Up => {
                if self.active_tab == 0 {
                    self.hotspots_selected = previous_index(self.hotspots_selected, hotspots);
                } else if self.active_tab == 1 {
                    self.beliefs_selected = previous_index(self.beliefs_selected, beliefs);
                } else {
                    let count = if trace < TRACE_SHOWN { trace } else { TRACE_SHOWN };
                    self.trace_selected = previous_index(self.trace_selected, count);
                }
            },
            Key::Other => {},
        }
    }
}

/// Moving down selects the very next item, and from the last item the first; moving up
/// selects the item just before, and from the first item the last.
pub proof fn law_moves_go_one_item(i: usize, count: usize)
    requires
        i < count,
    ensures
        i + 1 < count ==> next_selection(Some(i), count) == Some((i + 1) as usize),
        i + 1 == count ==> next_selection(Some(i), count) == Some(0usize),
        0 < i ==> previous_selection(Some(i), count) == Some((i - 1) as usize),
        i == 0 ==> previous_selection(Some(i), count) == Some((count - 1) as usize),
{
}

/// With nothing selected, moving down selects the first item and moving up the last; in an
/// empty list moving changes nothing.
pub proof fn law_moves_from_no_selection(sel: Option<usize>, count: usize)
    ensures
        count > 0 ==> next_selection(None, count) == Some(0usize),
        count > 0 ==> previous_selection(None, count) == Some((count - 1) as usize),
        count == 0 ==> next_selection(sel, count) == sel && previous_selection(sel, count) == sel,
{
}

/// Moving down and then up a non-empty list returns to the item selected, and so does
/// moving up and then down.
pub proof fn law_down_then_up_returns(i: usize, count: usize)
    requires
        i < count,
    ensures
        previous_selection(next_selection(Some(i), count), count) == Some(i),
        next_selection(previous_selection(Some(i), count), count) == Some(i),
{
}

/// Moving down or up a non-empty list keeps the selection on one of its items, when it was
/// on one or on none.
pub proof fn law_selection_stays_in_list(sel: Option<usize>, count: usize)
    requires
        count > 0,
        sel matches Some(i) ==> i < count,
    ensures
        next_selection(sel, count) matches Some(j) && j < count,
        previous_selection(sel, count) matches Some(j) && j < count,
{
}

/// The next tab after the previous one, and the previous after the next, is the tab
/// itself; three steps either way go round once.
pub proof fn law_tabs_go_round(t: usize)
    requires
        t < TAB_COUNT,
    ensures
        ((t + 1) % 3 + 2) % 3 == t,
        ((t + 2) % 3 + 1) % 3 == t,
        (((t + 1) % 3 + 1) % 3 + 1) % 3 == t,
{
}

} // verus!
