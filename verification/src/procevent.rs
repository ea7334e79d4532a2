use vstd::prelude::*;

use crate::actions::{mark_rel, move_rel, only_cur_tab_changed, Action};
use crate::config::{spec_lookup, Config};
use crate::events::EventLoopAction;
use crate::fsys::Filesystem;
use crate::input::{Key, KeySequence};
use crate::state::{tab_refreshed, State};
use crate::strutil::spec_parent;
use crate::tabstate::cd_shape;

verus! {

/// How long a partial chord survives without a following key.
pub const KEY_TIMEOUT_MS: u64 = 1000;

/// Whether the pending chord has outlived the timeout at `now_ms`:
/// there was a previous key and more than the timeout has elapsed
/// since. A timestamp that runs backwards counts as no elapsed time.
pub open spec fn chord_expired(last: Option<u64>, now_ms: u64) -> bool {
    match last {
        Some(t) => now_ms >= t && now_ms - t > KEY_TIMEOUT_MS,
        None => false,
    }
}

/// Nothing of the navigation proper moved: tabs, active indices and
/// message are exactly as before.
pub open spec fn nav_unchanged(pre: State, post: State) -> bool {
    &&& post.tabs == pre.tabs
    &&& post.current_tab == pre.current_tab
    &&& post.current_panel_idx == pre.current_panel_idx
    &&& post.message == pre.message
}

/// A periodic tick: the only way an incomplete chord is discarded
/// purely by inactivity. With a previous key older than the timeout the
/// pending chord is cleared; nothing else changes.
pub fn handle_tick(state: &mut State, now_ms: u64)
    ensures
        final(state).key_seq@ == (if chord_expired(old(state).last_key_time, now_ms) {
            Seq::<Key>::empty()
        } else {
            old(state).key_seq@
        }),
        final(state).last_key_time == old(state).last_key_time,
        nav_unchanged(*old(state), *final(state)),
{
    match state.last_key_time {
        Some(t) => {
            let elapsed: u64 = if now_ms >= t {
                now_ms - t
            } else {
                0
            };
            if elapsed > KEY_TIMEOUT_MS {
                state.key_seq.clear();
            }
        },
        None => {},
    }
}

/// One key event, in full: Escape cancels the pending chord
/// unconditionally; any other key first discards a timed-out partial
/// chord, then accumulates, then fires the binding the accumulated
/// chord matches exactly, if any. A fired chord is always cleared;
/// only the quit action ends the loop.
///
/// Where one bound chord is a strict prefix of another, the shorter
/// fires the moment it matches, and the longer binding behind it is
/// unreachable: firing eagerly is this dispatcher's deliberate answer
/// to that ambiguity, not an accident of scan order.
pub fn handle_key_event<F: Filesystem>(
    state: &mut State,
    config: &Config,
    k: Key,
    now_ms: u64,
    fs: &mut F,
) -> (r: EventLoopAction)
    requires
        old(state).wf(),
    ensures
        final(state).wf(),
        final(state).last_key_time == Some(now_ms),
        k == Key::Esc ==> {
            &&& r == EventLoopAction::ContinueLoop
            &&& final(state).key_seq@ == Seq::<Key>::empty()
            &&& nav_unchanged(*old(state), *final(state))
        },
        k != Key::Esc ==> {
            let base = if chord_expired(old(state).last_key_time, now_ms) {
                Seq::<Key>::empty()
            } else {
                old(state).key_seq@
            };
            let chord = base.push(k);
            match spec_lookup(config.key_map@, chord) {
                None => {
                    &&& r == EventLoopAction::ContinueLoop
                    &&& final(state).key_seq@ == chord
                    &&& nav_unchanged(*old(state), *final(state))
                },
                Some(a) => {
                    &&& final(state).key_seq@ == Seq::<Key>::empty()
                    &&& r == (if a == Action::Quit {
                        EventLoopAction::QuitLoop
                    } else {
                        EventLoopAction::ContinueLoop
                    })
                    &&& final(state).message == old(state).message
                    &&& (a == Action::Quit ==> nav_unchanged(*old(state), *final(state)))
                    &&& (a == Action::MoveDown ==> move_rel(*old(state), *final(state), true))
                    &&& (a == Action::MoveUp ==> move_rel(*old(state), *final(state), false))
                    &&& (a == Action::Mark ==> mark_rel(*old(state), *final(state)))
                    &&& (a == Action::NextTab ==> final(state).tabs@ == old(state).tabs@
                        && final(state).current_tab == (if old(state).current_tab + 1 < old(
                        state,
                    ).tabs@.len() {
                        (old(state).current_tab + 1) as usize
                    } else {
                        0usize
                    }))
                    &&& (a == Action::NextPanel ==> final(state).current_panel_idx == (if old(
                        state,
                    ).current_panel_idx + 1 < crate::tabstate::PANELS_PER_TAB {
                        (old(state).current_panel_idx + 1) as usize
                    } else {
                        0usize
                    }) && tab_refreshed(
                        old(state).cur_tab(),
                        final(state).cur_tab(),
                        final(state).current_panel_idx as int,
                    ))
                    &&& (a == Action::NewTab ==> final(state).tabs@.len() == old(
                        state,
                    ).tabs@.len() + 1 && final(state).tabs@.drop_last() == old(state).tabs@)
                    &&& (a == Action::CdParent ==> only_cur_tab_changed(
                        *old(state),
                        *final(state),
                    ) && (match old(state).cur_tab().dir {
                        Some(d) => match spec_parent(d@) {
                            Some(par) => cd_shape(
                                final(state).cur_tab(),
                                par,
                                old(state).cur_tab().main_cursor(),
                            ),
                            None => final(state).cur_tab() == old(state).cur_tab(),
                        },
                        None => final(state).cur_tab() == old(state).cur_tab(),
                    }))
                    &&& (a == Action::CdSelected ==> only_cur_tab_changed(
                        *old(state),
                        *final(state),
                    ) && (match old(state).cur_tab().main_selected_item() {
                        Some(it) => {
                            if it.is_directory {
                                cd_shape(
                                    final(state).cur_tab(),
                                    it.path@,
                                    old(state).cur_tab().main_cursor(),
                                )
                            } else {
                                final(state).cur_tab() == old(state).cur_tab()
                            }
                        },
                        None => final(state).cur_tab() == old(state).cur_tab(),
                    }))
                },
            }
        },
{
    if k == Key::Esc {
        state.key_seq.clear();
        state.last_key_time = Some(now_ms);
        return EventLoopAction::ContinueLoop;
    }
    match state.last_key_time {
        Some(t) => {
            let elapsed: u64 = if now_ms >= t {
                now_ms - t
            } else {
                0
            };
            if elapsed > KEY_TIMEOUT_MS {
                state.key_seq.clear();
            }
        },
        None => {},
    }
    state.key_seq.push(k);
    state.last_key_time = Some(now_ms);
    let matched = config.find_action(&state.key_seq);
    match matched {
        Some(a) => {
            let r = crate::actions::apply_action(state, a, fs);
            state.key_seq.clear();
            r
        },
        None => EventLoopAction::ContinueLoop,
    }
}

/// Entry point for one input event: delegates to the key handler.
pub fn handle_input<F: Filesystem>(
    state: &mut State,
    config: &Config,
    key: Key,
    now_ms: u64,
    fs: &mut F,
) -> (r: EventLoopAction)
    requires
        old(state).wf(),
    ensures
        final(state).wf(),
        final(state).last_key_time == Some(now_ms),
        key == Key::Esc ==> r == EventLoopAction::ContinueLoop && final(state).key_seq@
            == Seq::<Key>::empty(),
        key != Key::Esc ==> {
            let base = if chord_expired(old(state).last_key_time, now_ms) {
                Seq::<Key>::empty()
            } else {
                old(state).key_seq@
            };
            let chord = base.push(key);
            match spec_lookup(config.key_map@, chord) {
                None => r == EventLoopAction::ContinueLoop && final(state).key_seq@ == chord,
                Some(a) => final(state).key_seq@ == Seq::<Key>::empty() && r == (if a
                    == Action::Quit {
                    EventLoopAction::QuitLoop
                } else {
                    EventLoopAction::ContinueLoop
                }),
            }
        },
{
    handle_key_event(state, config, key, now_ms, fs)
}

} // verus!
