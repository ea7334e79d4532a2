use vstd::prelude::*;

use crate::events::EventLoopAction;
use crate::fsys::Filesystem;
use crate::panel::Panel;
use crate::state::{tab_refreshed, State};
use crate::statefullist::{spec_next_index, spec_previous_index};
use crate::strutil::{spec_parent, str_eq};
use crate::tabstate::{cd_shape, marks_contain, preview_shows, PANELS_PER_TAB, PREVIEW_PANEL_IDX};

verus! {

/// The fixed, enumerated set of dispatchable commands; a binding maps a
/// chord to one of these, and a single dispatch function maps each to
/// its effect on the navigation state.
#[derive(Clone, Copy, Debug, PartialEq, Eq, Structural)]
pub enum Action {
    Quit,
    MoveDown,
    MoveUp,
    Mark,
    NextPanel,
    NextTab,
    NewTab,
    CdParent,
    CdSelected,
}

/// The action a configuration name denotes, if the name is recognized.
pub open spec fn spec_action_of(name: Seq<char>) -> Option<Action> {
    if name == "quit"@ {
        Some(Action::Quit)
    } else if name == "move_down"@ {
        Some(Action::MoveDown)
    } else if name == "move_up"@ {
        Some(Action::MoveUp)
    } else if name == "mark"@ {
        Some(Action::Mark)
    } else if name == "next_panel"@ {
        Some(Action::NextPanel)
    } else if name == "next_tab"@ {
        Some(Action::NextTab)
    } else if name == "new_tab"@ {
        Some(Action::NewTab)
    } else if name == "cd_parent"@ {
        Some(Action::CdParent)
    } else if name == "cd_selected"@ {
        Some(Action::CdSelected)
    } else {
        None
    }
}

/// Resolves a configuration name to its action.
pub fn action_of(name: &str) -> (r: Option<Action>)
    ensures
        r == spec_action_of(name@),
{
    if str_eq(name, "quit") {
        Some(Action::Quit)
    } else if str_eq(name, "move_down") {
        Some(Action::MoveDown)
    } else if str_eq(name, "move_up") {
        Some(Action::MoveUp)
    } else if str_eq(name, "mark") {
        Some(Action::Mark)
    } else if str_eq(name, "next_panel") {
        Some(Action::NextPanel)
    } else if str_eq(name, "next_tab") {
        Some(Action::NextTab)
    } else if str_eq(name, "new_tab") {
        Some(Action::NewTab)
    } else if str_eq(name, "cd_parent") {
        Some(Action::CdParent)
    } else if str_eq(name, "cd_selected") {
        Some(Action::CdSelected)
    } else {
        None
    }
}

/// The catalog of recognized action names.
pub fn get_actions() -> (r: Vec<(String, Action)>)
    ensures
        r@.len() == 9,
        r@[0].0@ == "quit"@ && r@[0].1 == Action::Quit,
        r@[1].0@ == "move_down"@ && r@[1].1 == Action::MoveDown,
        r@[2].0@ == "move_up"@ && r@[2].1 == Action::MoveUp,
        r@[3].0@ == "mark"@ && r@[3].1 == Action::Mark,
        r@[4].0@ == "next_panel"@ && r@[4].1 == Action::NextPanel,
        r@[5].0@ == "next_tab"@ && r@[5].1 == Action::NextTab,
        r@[6].0@ == "new_tab"@ && r@[6].1 == Action::NewTab,
        r@[7].0@ == "cd_parent"@ && r@[7].1 == Action::CdParent,
        r@[8].0@ == "cd_selected"@ && r@[8].1 == Action::CdSelected,
{
    let mut v: Vec<(String, Action)> = Vec::new();
    v.push(("quit".to_owned(), Action::Quit));
    v.push(("move_down".to_owned(), Action::MoveDown));
    v.push(("move_up".to_owned(), Action::MoveUp));
    v.push(("mark".to_owned(), Action::Mark));
    v.push(("next_panel".to_owned(), Action::NextPanel));
    v.push(("next_tab".to_owned(), Action::NextTab));
    v.push(("new_tab".to_owned(), Action::NewTab));
    v.push(("cd_parent".to_owned(), Action::CdParent));
    v.push(("cd_selected".to_owned(), Action::CdSelected));
    v
}

/// The active indices and every inactive tab are untouched; the
/// navigation effect is confined to the active tab.
pub open spec fn only_cur_tab_changed(pre: State, post: State) -> bool {
    &&& post.current_tab == pre.current_tab
    &&& post.current_panel_idx == pre.current_panel_idx
    &&& post.tabs@.len() == pre.tabs@.len()
    &&& (forall|i: int|
        0 <= i < pre.tabs@.len() && i != pre.current_tab as int ==> post.tabs@[i]
            == pre.tabs@[i])
}

/// Moving the cursor of the active panel one step (forward or
/// backward), then refreshing the preview against the newly selected
/// entry of the current listing.
pub open spec fn move_rel(pre: State, post: State, forward: bool) -> bool {
    let t0 = pre.cur_tab();
    let t1 = post.cur_tab();
    let idx = pre.current_panel_idx as int;
    &&& only_cur_tab_changed(pre, post)
    &&& t1.dir == t0.dir
    &&& t1.marked_paths@ == t0.marked_paths@
    &&& t1.panels@.len() == t0.panels@.len()
    &&& (forall|k: int|
        0 <= k < t0.panels@.len() && k != idx && k != PREVIEW_PANEL_IDX as int
            ==> t1.panels@[k] == t0.panels@[k])
    &&& (idx != PREVIEW_PANEL_IDX as int ==> (match t0.panels@[idx] {
        Panel::FileListPanel(a) => (match t1.panels@[idx] {
            Panel::FileListPanel(b) => {
                &&& b.root@ == a.root@
                &&& b.list.items@ == a.list.items@
                &&& (a.list.items@.len() == 0 ==> b.list.selected == a.list.selected
                    && b.list.cursor_pos == a.list.cursor_pos)
                &&& (a.list.items@.len() > 0 ==> {
                    let tgt = if forward {
                        spec_next_index(a.list.selected, a.list.items@.len() as int)
                    } else {
                        spec_previous_index(a.list.selected, a.list.items@.len() as int)
                    };
                    b.list.selected == Some(tgt as usize) && b.list.cursor_pos == tgt
                })
            },
            _ => false,
        }),
        _ => t1.panels@[idx] == t0.panels@[idx],
    }))
    &&& preview_shows(t1.panels@[PREVIEW_PANEL_IDX as int], t1.main_selected_item())
}

/// Toggling the mark of the selected entry of the active panel and
/// advancing the cursor one step, with the tab's set of marked paths
/// kept in step; with no selection (or no listing) nothing changes.
pub open spec fn mark_rel(pre: State, post: State) -> bool {
    let t0 = pre.cur_tab();
    let t1 = post.cur_tab();
    let idx = pre.current_panel_idx as int;
    &&& only_cur_tab_changed(pre, post)
    &&& t1.dir == t0.dir
    &&& t1.panels@.len() == t0.panels@.len()
    &&& (forall|k: int|
        0 <= k < t0.panels@.len() && k != idx ==> t1.panels@[k] == t0.panels@[k])
    &&& (match t0.panels@[idx] {
        Panel::FileListPanel(a) => (match a.list.selected {
            Some(i) => {
                &&& (match t1.panels@[idx] {
                    Panel::FileListPanel(b) => {
                        &&& b.root@ == a.root@
                        &&& b.list.items@.len() == a.list.items@.len()
                        &&& b.list.items@[i as int].marked == !a.list.items@[
                            i as int
                        ].marked
                        &&& b.list.items@[i as int].path == a.list.items@[i as int].path
                        &&& b.list.items@[i as int].is_directory == a.list.items@[
                            i as int
                        ].is_directory
                        &&& (forall|k: int|
                            0 <= k < a.list.items@.len() && k != i as int
                                ==> b.list.items@[k] == a.list.items@[k])
                        &&& {
                            let tgt = spec_next_index(
                                Some(i),
                                a.list.items@.len() as int,
                            );
                            b.list.selected == Some(tgt as usize) && b.list.cursor_pos
                                == tgt
                        }
                    },
                    _ => false,
                })
                &&& marks_contain(t1.marked_paths@, a.list.items@[i as int].path@) == !a
                    .list.items@[i as int].marked
                &&& (forall|q: Seq<char>|
                    q != a.list.items@[i as int].path@ ==> marks_contain(
                        t1.marked_paths@,
                        q,
                    ) == marks_contain(t0.marked_paths@, q))
            },
            None => t1.panels@[idx] == t0.panels@[idx] && t1.marked_paths@
                == t0.marked_paths@,
        }),
        _ => t1.panels@[idx] == t0.panels@[idx] && t1.marked_paths@ == t0.marked_paths@,
    })
}

fn move_cursor<F: Filesystem>(state: &mut State, forward: bool, fs: &mut F)
    requires
        old(state).wf(),
    ensures
        final(state).wf(),
        move_rel(*old(state), *final(state), forward),
        final(state).key_seq == old(state).key_seq,
        final(state).message == old(state).message,
        final(state).last_key_time == old(state).last_key_time,
{
    let cur = state.current_tab;
    let idx = state.current_panel_idx;
    let mut tab = state.tabs.remove(cur);
    let ghost tab0 = tab;
    let p = tab.panels.remove(idx);
    let p2: Panel = match p {
        Panel::FileListPanel(mut fl) => {
            proof {
                assert(tab0.panels@[idx as int].wf());
            }
            if forward {
                fl.next();
            } else {
                fl.previous();
            }
            Panel::FileListPanel(fl)
        },
        other => other,
    };
    tab.panels.insert(idx, p2);
    proof {
        assert(tab.panels@ =~= tab0.panels@.update(idx as int, p2));
        assert(tab.wf());
    }
    tab.update_preview(fs);
    state.tabs.insert(cur, tab);
    proof {
        assert(state.tabs@ =~= old(state).tabs@.update(cur as int, tab));
    }
}

fn mark_selected(state: &mut State)
    requires
        old(state).wf(),
    ensures
        final(state).wf(),
        mark_rel(*old(state), *final(state)),
        final(state).key_seq == old(state).key_seq,
        final(state).message == old(state).message,
        final(state).last_key_time == old(state).last_key_time,
{
    let cur = state.current_tab;
    let idx = state.current_panel_idx;
    let mut tab = state.tabs.remove(cur);
    let ghost tab0 = tab;
    let p = tab.panels.remove(idx);
    let mut toggled: Option<(String, bool)> = None;
    let p2: Panel = match p {
        Panel::FileListPanel(mut fl) => {
            proof {
                assert(tab0.panels@[idx as int].wf());
            }
            match fl.selected() {
                Some(i) => {
                    let path = fl.list.items[i].path.clone();
                    let was = fl.list.items[i].marked;
                    fl.toggle_mark(i);
                    fl.next();
                    toggled = Some((path, !was));
                },
                None => {},
            }
            Panel::FileListPanel(fl)
        },
        other => other,
    };
    tab.panels.insert(idx, p2);
    proof {
        assert(tab.panels@ =~= tab0.panels@.update(idx as int, p2));
        assert(tab.wf());
    }
    match &toggled {
        Some(pair) => {
            tab.set_mark(pair.0.as_str(), pair.1);
        },
        None => {},
    }
    state.tabs.insert(cur, tab);
    proof {
        assert(state.tabs@ =~= old(state).tabs@.update(cur as int, tab));
    }
}

/// Applies one action to the navigation state and reports the loop
/// decision: `QuitLoop` exactly for the quit action. An action is total
/// over the state — a failing filesystem access degrades to an empty
/// listing or an empty preview, never to an error.
pub fn apply_action<F: Filesystem>(state: &mut State, action: Action, fs: &mut F) -> (r:
    EventLoopAction)
    requires
        old(state).wf(),
    ensures
        final(state).wf(),
        r == (if action == Action::Quit {
            EventLoopAction::QuitLoop
        } else {
            EventLoopAction::ContinueLoop
        }),
        final(state).message == old(state).message,
        final(state).last_key_time == old(state).last_key_time,
        action != Action::NextTab ==> final(state).key_seq == old(state).key_seq,
        action == Action::NextTab ==> final(state).key_seq@ == Seq::<
            crate::input::Key,
        >::empty(),
        action == Action::Quit ==> *final(state) == *old(state),
        action == Action::MoveDown ==> move_rel(*old(state), *final(state), true),
        action == Action::MoveUp ==> move_rel(*old(state), *final(state), false),
        action == Action::Mark ==> mark_rel(*old(state), *final(state)),
        action == Action::NextTab ==> {
            &&& final(state).current_tab == if old(state).current_tab + 1 < old(
                state,
            ).tabs@.len() {
                (old(state).current_tab + 1) as usize
            } else {
                0usize
            }
            &&& final(state).tabs@ == old(state).tabs@
            &&& final(state).current_panel_idx == old(state).current_panel_idx
        },
        action == Action::NextPanel ==> {
            &&& final(state).current_panel_idx == if old(state).current_panel_idx + 1
                < PANELS_PER_TAB {
                (old(state).current_panel_idx + 1) as usize
            } else {
                0usize
            }
            &&& final(state).current_tab == old(state).current_tab
            &&& final(state).tabs@.len() == old(state).tabs@.len()
            &&& tab_refreshed(
                old(state).cur_tab(),
                final(state).cur_tab(),
                final(state).current_panel_idx as int,
            )
        },
        action == Action::NewTab ==> {
            &&& final(state).tabs@.len() == old(state).tabs@.len() + 1
            &&& final(state).tabs@.drop_last() == old(state).tabs@
            &&& final(state).current_tab == old(state).tabs@.len()
            &&& final(state).tabs@.last().dir == old(state).cur_tab().dir
            &&& final(state).current_panel_idx == old(state).current_panel_idx
        },
        action == Action::CdParent ==> {
            &&& only_cur_tab_changed(*old(state), *final(state))
            &&& (match old(state).cur_tab().dir {
                Some(d) => match spec_parent(d@) {
                    Some(par) => cd_shape(
                        final(state).cur_tab(),
                        par,
                        old(state).cur_tab().main_cursor(),
                    ),
                    None => final(state).cur_tab() == old(state).cur_tab(),
                },
                None => final(state).cur_tab() == old(state).cur_tab(),
            })
        },
        action == Action::CdSelected ==> {
            &&& only_cur_tab_changed(*old(state), *final(state))
            &&& (match old(state).cur_tab().main_selected_item() {
                Some(it) => {
                    if it.is_directory {
                        cd_shape(
                            final(state).cur_tab(),
                            it.path@,
                            old(state).cur_tab().main_cursor(),
                        )
                    } else {
                        final(state).cur_tab() == old(state).cur_tab()
                    }
                },
                None => final(state).cur_tab() == old(state).cur_tab(),
            })
        },
{
    match action {
        Action::Quit => EventLoopAction::QuitLoop,
        Action::MoveDown => {
            move_cursor(state, true, fs);
            EventLoopAction::ContinueLoop
        },
        Action::MoveUp => {
            move_cursor(state, false, fs);
            EventLoopAction::ContinueLoop
        },
        Action::Mark => {
            mark_selected(state);
            EventLoopAction::ContinueLoop
        },
        Action::NextPanel => {
            state.next_panel();
            EventLoopAction::ContinueLoop
        },
        Action::NextTab => {
            state.next_tab();
            EventLoopAction::ContinueLoop
        },
        Action::NewTab => {
            state.new_tab(fs);
            EventLoopAction::ContinueLoop
        },
        Action::CdParent => {
            let cur = state.current_tab;
            let mut tab = state.tabs.remove(cur);
            tab.cd_parent(fs);
            state.tabs.insert(cur, tab);
            proof {
                assert(state.tabs@ =~= old(state).tabs@.update(cur as int, tab));
            }
            EventLoopAction::ContinueLoop
        },
        Action::CdSelected => {
            let cur = state.current_tab;
            let mut tab = state.tabs.remove(cur);
            tab.cd_selected(fs);
            state.tabs.insert(cur, tab);
            proof {
                assert(state.tabs@ =~= old(state).tabs@.update(cur as int, tab));
            }
            EventLoopAction::ContinueLoop
        },
    }
}

} // verus!
