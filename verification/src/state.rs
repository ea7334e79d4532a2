use vstd::prelude::*;

use crate::fsys::Filesystem;
use crate::input::{Key, KeySequence};
use crate::panel::Panel;
use crate::tabstate::{spec_clamp_cursor, TabState, MAIN_PANEL_IDX, PANELS_PER_TAB};

verus! {

/// The panel slot that starts out active: the current-directory
/// listing.
pub const DEFAULT_PANEL_IDX: usize = 1;

/// The whole navigation state: the tabs, which tab and panel are
/// active, and the pending-chord bookkeeping of the dispatcher.
pub struct State {
    pub current_tab: usize,
    pub key_seq: KeySequence,
    pub message: String,
    pub tabs: Vec<TabState>,
    pub last_key_time: Option<u64>,
    pub current_panel_idx: usize,
}

/// How one panel looks after a selection refresh: the active listing
/// shows its cursor (clamped into the listing, or cleared when the
/// listing is empty), every other listing is force-unselected, and
/// non-listing panels are untouched; no panel's contents change.
pub open spec fn panel_refreshed(p_old: Panel, p_new: Panel, active: bool) -> bool {
    match (p_old, p_new) {
        (Panel::FileListPanel(a), Panel::FileListPanel(b)) => {
            &&& b.root@ == a.root@
            &&& b.list.items@ == a.list.items@
            &&& b.list.selected == (if active {
                spec_clamp_cursor(a.list.cursor_pos, a.list.items@.len() as int)
            } else {
                None::<usize>
            })
            &&& b.list.cursor_pos == (match (if active {
                spec_clamp_cursor(a.list.cursor_pos, a.list.items@.len() as int)
            } else {
                None::<usize>
            }) {
                Some(t) => t,
                None => a.list.cursor_pos,
            })
        },
        (a, b) => b == a,
    }
}

/// The selection refresh applied to every panel of one tab; nothing
/// else of the tab changes.
pub open spec fn tab_refreshed(t_old: TabState, t_new: TabState, active_panel: int) -> bool {
    &&& t_new.dir == t_old.dir
    &&& t_new.marked_paths@ == t_old.marked_paths@
    &&& t_new.panels@.len() == t_old.panels@.len()
    &&& (forall|i: int|
        0 <= i < t_old.panels@.len() ==> panel_refreshed(
            t_old.panels@[i],
            #[trigger] t_new.panels@[i],
            i == active_panel,
        ))
}

impl State {
    /// There is always at least one tab, the active indices are in
    /// range, and every tab is well formed.
    pub open spec fn wf(&self) -> bool {
        &&& self.tabs@.len() > 0
        &&& (self.current_tab as int) < self.tabs@.len()
        &&& (self.current_panel_idx as int) < PANELS_PER_TAB
        &&& (forall|i: int| 0 <= i < self.tabs@.len() ==> (#[trigger] self.tabs@[i]).wf())
    }

    /// The active tab.
    pub open spec fn cur_tab(&self) -> TabState {
        self.tabs@[self.current_tab as int]
    }

    /// The active panel of the active tab.
    pub open spec fn cur_panel(&self) -> Panel {
        self.cur_tab().panels@[self.current_panel_idx as int]
    }

    /// The selection of the active panel, when it is a listing.
    pub open spec fn spec_selected(&self) -> Option<usize> {
        match self.cur_panel() {
            Panel::FileListPanel(fl) => fl.list.selected,
            _ => None,
        }
    }

    /// One tab rooted at `dir`, with the current-directory panel
    /// active.
    pub fn default<F: Filesystem>(dir: Option<String>, fs: &mut F) -> (r: Self)
        ensures
            r.wf(),
            r.tabs@.len() == 1,
            r.current_tab == 0,
            r.current_panel_idx == DEFAULT_PANEL_IDX,
            r.key_seq@ == Seq::<Key>::empty(),
            r.last_key_time is None,
            r.tabs@[0].dir == dir,
            r.tabs@[0].marked_paths@.len() == 0,
    {
        Self::from_tab_count(1, dir, fs)
    }

    /// `tab_count` tabs, all rooted at `dir`, with the first tab and
    /// its current-directory panel active.
    pub fn from_tab_count<F: Filesystem>(tab_count: u8, dir: Option<String>, fs: &mut F) -> (r:
        Self)
        requires
            tab_count >= 1,
        ensures
            r.wf(),
            r.tabs@.len() == tab_count,
            r.current_tab == 0,
            r.current_panel_idx == DEFAULT_PANEL_IDX,
            r.key_seq@ == Seq::<Key>::empty(),
            r.last_key_time is None,
            forall|i: int|
                0 <= i < r.tabs@.len() ==> (#[trigger] r.tabs@[i]).dir == dir
                    && r.tabs@[i].marked_paths@.len() == 0,
    {
        let mut tabs: Vec<TabState> = Vec::new();
        let mut i: u8 = 0;
        while i < tab_count
            invariant
                i <= tab_count,
                tabs@.len() == i,
                forall|k: int|
                    0 <= k < tabs@.len() ==> (#[trigger] tabs@[k]).wf() && tabs@[k].dir == dir
                        && tabs@[k].marked_paths@.len() == 0,
            decreases tab_count - i,
        {
            let dir_copy: Option<String> = match &dir {
                Some(d) => Some(d.clone()),
                None => None,
            };
            let tab = TabState::new(dir_copy, fs);
            tabs.push(tab);
            i += 1;
        }
        Self {
            current_tab: 0,
            key_seq: KeySequence::default(),
            message: String::new(),
            tabs,
            last_key_time: None,
            current_panel_idx: DEFAULT_PANEL_IDX,
        }
    }

    pub fn get_current_tab(&self) -> (r: &TabState)
        requires
            self.wf(),
        ensures
            *r == self.cur_tab(),
    {
        &self.tabs[self.current_tab]
    }

    /// The active panel's listing, or `None` when the active slot is
    /// not a listing panel.
    pub fn get_current_panel(&self) -> (r: Option<&crate::filelist::FileList>)
        requires
            self.wf(),
        ensures
            (match self.cur_panel() {
                Panel::FileListPanel(fl) => (r matches Some(x) && *x == fl),
                _ => r is None,
            }),
    {
        let tab = &self.tabs[self.current_tab];
        match &tab.panels[self.current_panel_idx] {
            Panel::FileListPanel(fl) => Some(fl),
            _ => None,
        }
    }

    /// The selection of the active panel.
    pub fn selected(&self) -> (r: Option<usize>)
        requires
            self.wf(),
        ensures
            r == self.spec_selected(),
    {
        match self.get_current_panel() {
            Some(fl) => fl.selected(),
            None => None,
        }
    }

    /// Re-derives which panel shows its cursor: the active listing
    /// selects its (clamped) cursor anchor, every other listing is
    /// unselected; no listing is re-enumerated.
    pub fn refresh(&mut self)
        requires
            old(self).wf(),
        ensures
            final(self).wf(),
            final(self).current_tab == old(self).current_tab,
            final(self).current_panel_idx == old(self).current_panel_idx,
            final(self).key_seq == old(self).key_seq,
            final(self).message == old(self).message,
            final(self).last_key_time == old(self).last_key_time,
            final(self).tabs@.len() == old(self).tabs@.len(),
            forall|i: int|
                0 <= i < old(self).tabs@.len() && i != old(self).current_tab as int
                    ==> final(self).tabs@[i] == old(self).tabs@[i],
            tab_refreshed(
                old(self).cur_tab(),
                final(self).cur_tab(),
                old(self).current_panel_idx as int,
            ),
    {
        let cur = self.current_tab;
        let idx = self.current_panel_idx;
        let mut tab = self.tabs.remove(cur);
        let ghost tab0 = tab;
        let mut i: usize = 0;
        while i < PANELS_PER_TAB
            invariant
                tab.panels@.len() == tab0.panels@.len(),
                tab0.panels@.len() == PANELS_PER_TAB,
                i <= PANELS_PER_TAB,
                tab.dir == tab0.dir,
                tab.marked_paths@ == tab0.marked_paths@,
                tab0.wf(),
                idx < PANELS_PER_TAB,
                forall|k: int|
                    0 <= k < i ==> panel_refreshed(
                        tab0.panels@[k],
                        #[trigger] tab.panels@[k],
                        k == idx as int,
                    ),
                forall|k: int|
                    i <= k < tab.panels@.len() ==> tab.panels@[k] == tab0.panels@[k],
            decreases PANELS_PER_TAB - i,
        {
            let ghost prev = tab.panels@;
            let p = tab.panels.remove(i);
            let p2: Panel = match p {
                Panel::FileListPanel(mut fl) => {
                    proof {
                        assert(tab0.panels@[i as int].wf());
                    }
                    if i == idx {
                        let n = fl.list.items.len();
                        if n > 0 {
                            let tgt: usize = if fl.list.cursor_pos < n {
                                fl.list.cursor_pos
                            } else {
                                n - 1
                            };
                            fl.select(tgt);
                        } else {
                            fl.unselect();
                        }
                    } else {
                        fl.unselect();
                    }
                    Panel::FileListPanel(fl)
                },
                other => other,
            };
            tab.panels.insert(i, p2);
            proof {
                assert(tab.panels@ =~= prev.update(i as int, p2));
            }
            i += 1;
        }
        self.tabs.insert(cur, tab);
        proof {
            assert(self.tabs@ =~= old(self).tabs@.update(cur as int, tab));
            assert(panel_refreshed(tab0.panels@[0], tab.panels@[0], 0 == idx as int));
            assert(panel_refreshed(tab0.panels@[1], tab.panels@[1], 1 == idx as int));
            assert(panel_refreshed(tab0.panels@[2], tab.panels@[2], 2 == idx as int));
            assert(tab.wf());
        }
    }

    /// Advances to the next tab, wrapping past the last one, and clears
    /// any pending chord: a tab switch is a command boundary.
    pub fn next_tab(&mut self)
        requires
            old(self).wf(),
        ensures
            final(self).wf(),
            final(self).current_tab == if old(self).current_tab + 1 < old(self).tabs@.len() {
                (old(self).current_tab + 1) as usize
            } else {
                0usize
            },
            final(self).key_seq@ == Seq::<Key>::empty(),
            final(self).tabs@ == old(self).tabs@,
            final(self).current_panel_idx == old(self).current_panel_idx,
            final(self).last_key_time == old(self).last_key_time,
            final(self).message == old(self).message,
    {
        let len = self.tabs.len();
        let mut next: usize = self.current_tab + 1;
        if next >= len {
            next = 0;
        }
        self.current_tab = next;
        self.key_seq.clear();
    }

    /// Advances to the next panel slot, wrapping past the last one, and
    /// re-derives the visible selection.
    pub fn next_panel(&mut self)
        requires
            old(self).wf(),
        ensures
            final(self).wf(),
            final(self).current_panel_idx == if old(self).current_panel_idx + 1
                < PANELS_PER_TAB {
                (old(self).current_panel_idx + 1) as usize
            } else {
                0usize
            },
            final(self).current_tab == old(self).current_tab,
            final(self).key_seq == old(self).key_seq,
            final(self).message == old(self).message,
            final(self).last_key_time == old(self).last_key_time,
            final(self).tabs@.len() == old(self).tabs@.len(),
            forall|i: int|
                0 <= i < old(self).tabs@.len() && i != old(self).current_tab as int
                    ==> final(self).tabs@[i] == old(self).tabs@[i],
            tab_refreshed(
                old(self).cur_tab(),
                final(self).cur_tab(),
                final(self).current_panel_idx as int,
            ),
    {
        self.current_panel_idx = self.current_panel_idx + 1;
        if self.current_panel_idx >= PANELS_PER_TAB {
            self.current_panel_idx = 0;
        }
        self.refresh();
    }

    /// Opens a new tab rooted at the active tab's directory and
    /// switches to it.
    pub fn new_tab<F: Filesystem>(&mut self, fs: &mut F)
        requires
            old(self).wf(),
        ensures
            final(self).wf(),
            final(self).tabs@.len() == old(self).tabs@.len() + 1,
            final(self).tabs@.drop_last() == old(self).tabs@,
            final(self).current_tab == old(self).tabs@.len(),
            final(self).tabs@.last().wf(),
            final(self).tabs@.last().dir == old(self).cur_tab().dir,
            final(self).tabs@.last().marked_paths@.len() == 0,
            final(self).current_panel_idx == old(self).current_panel_idx,
            final(self).key_seq == old(self).key_seq,
            final(self).last_key_time == old(self).last_key_time,
            final(self).message == old(self).message,
    {
        let dir_copy: Option<String> = {
            let tab = &self.tabs[self.current_tab];
            match &tab.dir {
                Some(d) => Some(d.clone()),
                None => None,
            }
        };
        let tab = TabState::new(dir_copy, fs);
        self.tabs.push(tab);
        self.current_tab = self.tabs.len() - 1;
        proof {
            assert(self.tabs@.drop_last() =~= old(self).tabs@);
        }
    }
}

} // verus!
