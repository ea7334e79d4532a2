use vstd::prelude::*;

use crate::fsys::Filesystem;

verus! {

/// The content-preview pane: the path it was last pointed at and the
/// cached text of that file.
///
/// "No target" and "target unreadable or not a regular file" both leave
/// `file_contents` absent; telling the two apart in the display is the
/// renderer's business, not this component's.
pub struct Preview {
    pub path: Option<String>,
    pub file_contents: Option<String>,
}

impl Preview {
    /// A preview pointed at `path`, with the file's text read once, now;
    /// content is only ever (re)loaded by an explicit call, never per
    /// frame.
    pub fn new<F: Filesystem>(path: Option<String>, fs: &mut F) -> (r: Self)
        ensures
            r.path == path,
            path is None ==> r.file_contents is None,
    {
        let file_contents: Option<String> = match &path {
            Some(p) => fs.read_text(p.as_str()),
            None => None,
        };
        Self { path, file_contents }
    }

    /// Points the preview at a new target and reloads its cached text.
    pub fn set_path<F: Filesystem>(&mut self, path: Option<String>, fs: &mut F)
        ensures
            final(self).path == path,
            path is None ==> final(self).file_contents is None,
    {
        self.file_contents = match &path {
            Some(p) => fs.read_text(p.as_str()),
            None => None,
        };
        self.path = path;
    }
}

impl Default for Preview {
    /// An empty preview: no target, no content.
    fn default() -> (r: Self)
        ensures
            r.path is None,
            r.file_contents is None,
    {
        Self { path: None, file_contents: None }
    }
}

} // verus!
