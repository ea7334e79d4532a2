use vstd::prelude::*;

use crate::filelist::FileList;
use crate::preview::Preview;

verus! {

/// One pane of a tab: a directory listing, a content preview, or an
/// empty placeholder (the parent slot at a filesystem root).
pub enum Panel {
    FileListPanel(FileList),
    PreviewPanel(Preview),
    EmptyPanel,
}

impl Panel {
    /// A listing panel's cursor is well formed; the other kinds carry no
    /// invariant.
    pub open spec fn wf(&self) -> bool {
        match self {
            Panel::FileListPanel(fl) => fl.wf(),
            Panel::PreviewPanel(_) => true,
            Panel::EmptyPanel => true,
        }
    }
}

} // verus!
