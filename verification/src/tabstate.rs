use vstd::prelude::*;

use crate::filelist::{entries_sorted, FileList, FileListItem};
use crate::fsys::Filesystem;
use crate::panel::Panel;
use crate::preview::Preview;
use crate::strutil::{parent_of, spec_parent};

verus! {

/// Number of panel slots every tab owns.
pub const PANELS_PER_TAB: usize = 3;

/// Slot of the panel that lists the parent of the current directory.
pub const PARENT_PANEL_IDX: usize = 0;

/// Slot of the panel that lists the current directory.
pub const MAIN_PANEL_IDX: usize = 1;

/// Slot of the content-preview panel.
pub const PREVIEW_PANEL_IDX: usize = 2;

/// Where a remembered cursor anchor lands in a listing of `n` items:
/// clamped to the end, or nowhere when the listing is empty.
pub open spec fn spec_clamp_cursor(pos: usize, n: int) -> Option<usize> {
    if n == 0 {
        None
    } else if (pos as int) < n {
        Some(pos)
    } else {
        Some((n - 1) as usize)
    }
}

/// One working-directory context: the current directory, the fixed
/// arrangement of panels (parent, current, preview), and the set of
/// marked paths.
pub struct TabState {
    pub dir: Option<String>,
    pub panels: Vec<Panel>,
    pub marked_paths: Vec<String>,
}

/// The preview pane points at the selected entry of the current
/// listing, and holds no target or content when nothing is selected.
pub open spec fn preview_shows(p: Panel, sel: Option<FileListItem>) -> bool {
    match p {
        Panel::PreviewPanel(pv) => match sel {
            Some(it) => (pv.path matches Some(q) && q@ == it.path@),
            None => pv.path is None && pv.file_contents is None,
        },
        _ => false,
    }
}

impl TabState {
    /// The cursor anchor of the current listing (0 when the slot is not
    /// a listing, which well-formedness rules out).
    pub open spec fn main_cursor(&self) -> usize {
        match self.panels@[MAIN_PANEL_IDX as int] {
            Panel::FileListPanel(fl) => fl.list.cursor_pos,
            _ => 0,
        }
    }

    /// The entry under the cursor of the current listing, if any.
    pub open spec fn main_selected_item(&self) -> Option<FileListItem> {
        match self.panels@[MAIN_PANEL_IDX as int] {
            Panel::FileListPanel(fl) => match fl.list.selected {
                Some(i) => {
                    if (i as int) < fl.list.items@.len() {
                        Some(fl.list.items@[i as int])
                    } else {
                        None
                    }
                },
                None => None,
            },
            _ => None,
        }
    }

    /// The slots hold their fixed kinds: a listing (or empty
    /// placeholder) for the parent, a listing for the current
    /// directory, a preview; listings have well-formed cursors.
    pub open spec fn panels_wf(&self) -> bool {
        &&& self.panels@.len() == PANELS_PER_TAB
        &&& (self.panels@[PARENT_PANEL_IDX as int] matches Panel::FileListPanel(_)
            || self.panels@[PARENT_PANEL_IDX as int] matches Panel::EmptyPanel)
        &&& self.panels@[PARENT_PANEL_IDX as int].wf()
        &&& self.panels@[MAIN_PANEL_IDX as int] matches Panel::FileListPanel(_)
        &&& self.panels@[MAIN_PANEL_IDX as int].wf()
        &&& self.panels@[PREVIEW_PANEL_IDX as int] matches Panel::PreviewPanel(_)
    }

    /// The panel roots agree with the current directory: the current
    /// slot lists it, and the parent slot lists its parent or is empty
    /// at a filesystem root.
    pub open spec fn roots_agree(&self) -> bool {
        match self.dir {
            Some(d) => {
                &&& (match self.panels@[MAIN_PANEL_IDX as int] {
                    Panel::FileListPanel(fl) => fl.root@ == d@,
                    _ => false,
                })
                &&& (match spec_parent(d@) {
                    Some(par) => (match self.panels@[PARENT_PANEL_IDX as int] {
                        Panel::FileListPanel(fl) => fl.root@ == par,
                        _ => false,
                    }),
                    None => self.panels@[PARENT_PANEL_IDX as int] matches Panel::EmptyPanel,
                })
            },
            None => true,
        }
    }

    /// No path is marked twice.
    pub open spec fn marks_distinct(&self) -> bool {
        forall|i: int, j: int|
            0 <= i < j < self.marked_paths@.len() ==> self.marked_paths@[i]@
                != self.marked_paths@[j]@
    }

    pub open spec fn wf(&self) -> bool {
        self.panels_wf() && self.roots_agree() && self.marks_distinct()
    }
}

/// Whether the set of marked paths contains `p`.
pub open spec fn marks_contain(s: Seq<String>, p: Seq<char>) -> bool {
    exists|i: int| 0 <= i < s.len() && s[i]@ == p
}

/// What every arrival in directory `d` establishes: the tab points at
/// `d`, the current slot lists `d` sorted with the cursor anchor
/// `anchor` clamped into it, the parent slot lists `d`'s parent (or is
/// empty at a root) with no selection, and the preview follows the new
/// selection.
pub open spec fn cd_shape(post: TabState, d: Seq<char>, anchor: usize) -> bool {
    &&& post.panels@.len() == PANELS_PER_TAB
    &&& (post.dir matches Some(nd) && nd@ == d)
    &&& (match post.panels@[MAIN_PANEL_IDX as int] {
        Panel::FileListPanel(fl) => {
            &&& fl.root@ == d
            &&& entries_sorted(fl.list.items@)
            &&& fl.list.selected == spec_clamp_cursor(anchor, fl.list.items@.len() as int)
        },
        _ => false,
    })
    &&& (match spec_parent(d) {
        Some(par) => (match post.panels@[PARENT_PANEL_IDX as int] {
            Panel::FileListPanel(fl) => {
                &&& fl.root@ == par
                &&& entries_sorted(fl.list.items@)
                &&& fl.list.selected is None
            },
            _ => false,
        }),
        None => post.panels@[PARENT_PANEL_IDX as int] matches Panel::EmptyPanel,
    })
    &&& preview_shows(post.panels@[PREVIEW_PANEL_IDX as int], post.main_selected_item())
}

/// Replaces the panel in slot `i`.
fn set_panel(panels: &mut Vec<Panel>, i: usize, p: Panel)
    requires
        i < old(panels)@.len(),
    ensures
        final(panels)@ == old(panels)@.update(i as int, p),
{
    panels.remove(i);
    panels.insert(i, p);
    proof {
        assert(old(panels)@.remove(i as int).insert(i as int, p) =~= old(panels)@.update(
            i as int,
            p,
        ));
    }
}

impl TabState {
    /// A fresh tab for `dir`: empty mark set, panels populated by one
    /// enumeration of `dir` and of its parent.
    pub fn new<F: Filesystem>(dir: Option<String>, fs: &mut F) -> (r: Self)
        ensures
            r.wf(),
            r.dir == dir,
            r.marked_paths@.len() == 0,
            (match dir {
                Some(d) => cd_shape(r, d@, 0),
                None => true,
            }),
    {
        let mut panels: Vec<Panel> = Vec::new();
        panels.push(Panel::EmptyPanel);
        panels.push(Panel::FileListPanel(FileList::new("")));
        panels.push(Panel::PreviewPanel(Preview::default()));
        let mut tab = Self { dir: None, panels, marked_paths: Vec::new() };
        tab.cd(dir, fs);
        tab
    }

    /// The single authoritative directory change. Records `new_dir`
    /// unconditionally, re-enumerates the parent and current slots (a
    /// failed enumeration degrades to an empty listing), restores the
    /// clamped cursor anchor, and refreshes the preview against the new
    /// selection.
    pub fn cd<F: Filesystem>(&mut self, new_dir: Option<String>, fs: &mut F)
        requires
            old(self).wf(),
        ensures
            final(self).wf(),
            final(self).dir == new_dir,
            final(self).marked_paths@ == old(self).marked_paths@,
            new_dir is None ==> final(self).panels@ == old(self).panels@,
            (match new_dir {
                Some(d) => cd_shape(*final(self), d@, old(self).main_cursor()),
                None => true,
            }),
    {
        let d = match new_dir {
            Some(d) => d,
            None => {
                self.dir = None;
                return ;
            },
        };
        let anchor: usize = {
            let p = &self.panels[MAIN_PANEL_IDX];
            match p {
                Panel::FileListPanel(fl) => fl.list.cursor_pos,
                _ => 0,
            }
        };
        self.dir = Some(d.clone());
        match parent_of(d.as_str()) {
            Some(par) => {
                let raw = match fs.list_dir(par.as_str()) {
                    Some(v) => v,
                    None => Vec::new(),
                };
                let mut fl = FileList::new(par.as_str());
                fl.refresh_list(raw);
                set_panel(&mut self.panels, PARENT_PANEL_IDX, Panel::FileListPanel(fl));
            },
            None => {
                set_panel(&mut self.panels, PARENT_PANEL_IDX, Panel::EmptyPanel);
            },
        }
        let raw = match fs.list_dir(d.as_str()) {
            Some(v) => v,
            None => Vec::new(),
        };
        let mut fl = FileList::new(d.as_str());
        fl.refresh_list(raw);
        let n = fl.list.items.len();
        if n > 0 {
            let tgt: usize = if anchor < n {
                anchor
            } else {
                n - 1
            };
            fl.select(tgt);
        }
        set_panel(&mut self.panels, MAIN_PANEL_IDX, Panel::FileListPanel(fl));
        self.update_preview(fs);
    }

    /// Steps to the parent of the current directory; at a filesystem
    /// root (or with no directory at all) deliberately a no-op.
    pub fn cd_parent<F: Filesystem>(&mut self, fs: &mut F)
        requires
            old(self).wf(),
        ensures
            final(self).wf(),
            final(self).marked_paths@ == old(self).marked_paths@,
            (match old(self).dir {
                Some(d) => match spec_parent(d@) {
                    Some(par) => cd_shape(*final(self), par, old(self).main_cursor()),
                    None => *final(self) == *old(self),
                },
                None => *final(self) == *old(self),
            }),
    {
        let target: Option<String> = match &self.dir {
            Some(d) => parent_of(d.as_str()),
            None => None,
        };
        match target {
            Some(p) => {
                self.cd(Some(p), fs);
            },
            None => {},
        }
    }

    /// Enters the selected entry of the current listing; a no-op when
    /// nothing is selected, and — deliberately — when the selected
    /// entry is not a directory.
    pub fn cd_selected<F: Filesystem>(&mut self, fs: &mut F)
        requires
            old(self).wf(),
        ensures
            final(self).wf(),
            final(self).marked_paths@ == old(self).marked_paths@,
            (match old(self).main_selected_item() {
                Some(it) => {
                    if it.is_directory {
                        cd_shape(*final(self), it.path@, old(self).main_cursor())
                    } else {
                        *final(self) == *old(self)
                    }
                },
                None => *final(self) == *old(self),
            }),
    {
        let path: Option<String> = {
            let p = &self.panels[MAIN_PANEL_IDX];
            match p {
                Panel::FileListPanel(fl) => {
                    match fl.selected_item() {
                        Some(it) => {
                            if it.is_dir() {
                                Some(it.path.clone())
                            } else {
                                None
                            }
                        },
                        None => None,
                    }
                },
                _ => None,
            }
        };
        match path {
            Some(p) => {
                self.cd(Some(p), fs);
            },
            None => {},
        }
    }

    /// Records (`on`) or clears (`!on`) the mark on `path` in the tab's
    /// set of marked paths; the panels and directory are untouched.
    pub fn set_mark(&mut self, path: &str, on: bool)
        requires
            old(self).marks_distinct(),
        ensures
            final(self).dir == old(self).dir,
            final(self).panels@ == old(self).panels@,
            final(self).marks_distinct(),
            marks_contain(final(self).marked_paths@, path@) == on,
            forall|q: Seq<char>|
                q != path@ ==> marks_contain(final(self).marked_paths@, q) == marks_contain(
                    old(self).marked_paths@,
                    q,
                ),
    {
        let n = self.marked_paths.len();
        let mut i: usize = 0;
        while i < n
            invariant
                self.marked_paths@ == old(self).marked_paths@,
                self.dir == old(self).dir,
                self.panels@ == old(self).panels@,
                old(self).marks_distinct(),
                n == self.marked_paths@.len(),
                i <= n,
                forall|k: int| 0 <= k < i ==> (#[trigger] self.marked_paths@[k])@ != path@,
            decreases n - i,
        {
            if crate::strutil::str_eq(self.marked_paths[i].as_str(), path) {
                if !on {
                    self.marked_paths.remove(i);
                    proof {
                        let pre = old(self).marked_paths@;
                        let post = self.marked_paths@;
                        assert(post =~= pre.remove(i as int));
                        assert forall|q: Seq<char>| q != path@ implies marks_contain(post, q)
                            == marks_contain(pre, q) by {
                            if marks_contain(pre, q) {
                                let k = choose|k: int| 0 <= k < pre.len() && pre[k]@ == q;
                                if k < i {
                                    assert(post[k]@ == q);
                                } else {
                                    assert(post[k - 1]@ == q);
                                }
                            }
                            if marks_contain(post, q) {
                                let k = choose|k: int|
                                    0 <= k < post.len() && post[k]@ == q;
                                if k < i {
                                    assert(pre[k]@ == q);
                                } else {
                                    assert(pre[k + 1]@ == q);
                                }
                            }
                        }
                        assert(!marks_contain(post, path@)) by {
                            if marks_contain(post, path@) {
                                let k = choose|k: int|
                                    0 <= k < post.len() && post[k]@ == path@;
                                if k < i {
                                    assert(pre[k]@ == path@);
                                } else {
                                    assert(pre[k + 1]@ == path@);
                                }
                            }
                        }
                        assert forall|a: int, b: int|
                            0 <= a < b < post.len() implies post[a]@ != post[b]@ by {
                            let a0 = if a < i {
                                a
                            } else {
                                a + 1
                            };
                            let b0 = if b < i {
                                b
                            } else {
                                b + 1
                            };
                            assert(pre[a0]@ != pre[b0]@);
                        }
                    }
                } else {
                    proof {
                        assert(marks_contain(self.marked_paths@, path@)) by {
                            assert(self.marked_paths@[i as int]@ == path@);
                        }
                    }
                }
                return ;
            }
            i += 1;
        }
        if on {
            self.marked_paths.push(path.to_owned());
            proof {
                let pre = old(self).marked_paths@;
                let post = self.marked_paths@;
                assert(marks_contain(post, path@)) by {
                    assert(post[post.len() - 1]@ == path@);
                }
                assert forall|q: Seq<char>| q != path@ implies marks_contain(post, q)
                    == marks_contain(pre, q) by {
                    if marks_contain(post, q) {
                        let k = choose|k: int| 0 <= k < post.len() && post[k]@ == q;
                        assert(k < pre.len());
                        assert(pre[k]@ == q);
                    }
                    if marks_contain(pre, q) {
                        let k = choose|k: int| 0 <= k < pre.len() && pre[k]@ == q;
                        assert(post[k]@ == q);
                    }
                }
            }
        } else {
            proof {
                assert(!marks_contain(self.marked_paths@, path@));
            }
        }
    }

    /// Reloads the preview pane against the entry now selected in the
    /// current listing.
    pub fn update_preview<F: Filesystem>(&mut self, fs: &mut F)
        requires
            old(self).wf(),
        ensures
            final(self).wf(),
            final(self).dir == old(self).dir,
            final(self).marked_paths@ == old(self).marked_paths@,
            final(self).panels@.len() == old(self).panels@.len(),
            final(self).panels@[PARENT_PANEL_IDX as int] == old(self).panels@[
                PARENT_PANEL_IDX as int
            ],
            final(self).panels@[MAIN_PANEL_IDX as int] == old(self).panels@[
                MAIN_PANEL_IDX as int
            ],
            preview_shows(
                final(self).panels@[PREVIEW_PANEL_IDX as int],
                old(self).main_selected_item(),
            ),
    {
        let target: Option<String> = {
            let p = &self.panels[MAIN_PANEL_IDX];
            match p {
                Panel::FileListPanel(fl) => {
                    match fl.selected_item() {
                        Some(it) => Some(it.path.clone()),
                        None => None,
                    }
                },
                _ => None,
            }
        };
        let taken = self.panels.remove(PREVIEW_PANEL_IDX);
        let mut pv: Preview = match taken {
            Panel::PreviewPanel(pv) => pv,
            _ => Preview { path: None, file_contents: None },
        };
        pv.set_path(target, fs);
        self.panels.insert(PREVIEW_PANEL_IDX, Panel::PreviewPanel(pv));
        proof {
            assert(self.panels@ =~= old(self).panels@.update(
                PREVIEW_PANEL_IDX as int,
                self.panels@[PREVIEW_PANEL_IDX as int],
            ));
        }
    }
}

} // verus!
