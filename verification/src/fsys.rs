use vstd::prelude::*;

use crate::filelist::FileListItem;
use crate::strutil::str_eq;

verus! {

/// The filesystem as the navigation core consumes it: a "list
/// directory" capability and a "read file text" capability.
///
/// The methods promise nothing, so everything proved about the
/// navigation protocol holds for every implementation — the in-memory
/// model below, or an unverified one backed by the real filesystem.
pub trait Filesystem {
    /// The immediate children of the directory at `path`, in no
    /// particular order, or `None` when `path` is not a readable
    /// directory.
    fn list_dir(&mut self, path: &str) -> Option<Vec<FileListItem>>;

    /// The full text of the regular file at `path`, or `None` when
    /// `path` is not a readable text file.
    fn read_text(&mut self, path: &str) -> Option<String>;
}

fn clone_entries(v: &Vec<FileListItem>) -> (r: Vec<FileListItem>)
    ensures
        r@ == v@,
{
    let mut out: Vec<FileListItem> = Vec::new();
    let mut i: usize = 0;
    while i < v.len()
        invariant
            i <= v@.len(),
            out@ =~= v@.take(i as int),
        decreases v@.len() - i,
    {
        out.push(v[i].clone());
        i += 1;
    }
    proof {
        assert(out@ =~= v@);
    }
    out
}

/// An in-memory filesystem model: directories with their listings and
/// files with their texts, looked up by exact path.
pub struct MemFs {
    pub dirs: Vec<(String, Vec<FileListItem>)>,
    pub files: Vec<(String, String)>,
}

impl MemFs {
    pub fn new() -> (r: Self)
        ensures
            r.dirs@.len() == 0,
            r.files@.len() == 0,
    {
        Self { dirs: Vec::new(), files: Vec::new() }
    }

    /// Registers the listing of one directory.
    pub fn add_dir(&mut self, path: &str, entries: Vec<FileListItem>)
        ensures
            final(self).dirs@.len() == old(self).dirs@.len() + 1,
            final(self).dirs@.drop_last() == old(self).dirs@,
            final(self).dirs@.last().0@ == path@,
            final(self).dirs@.last().1 == entries,
            final(self).files@ == old(self).files@,
    {
        let owned: String = path.to_owned();
        self.dirs.push((owned, entries));
        proof {
            assert(self.dirs@.drop_last() =~= old(self).dirs@);
        }
    }

    /// Registers the text of one file.
    pub fn add_file(&mut self, path: &str, text: &str)
        ensures
            final(self).files@.len() == old(self).files@.len() + 1,
            final(self).files@.drop_last() == old(self).files@,
            final(self).files@.last().0@ == path@,
            final(self).files@.last().1@ == text@,
            final(self).dirs@ == old(self).dirs@,
    {
        let p: String = path.to_owned();
        let t: String = text.to_owned();
        self.files.push((p, t));
        proof {
            assert(self.files@.drop_last() =~= old(self).files@);
        }
    }
}

impl Filesystem for MemFs {
    fn list_dir(&mut self, path: &str) -> Option<Vec<FileListItem>> {
        let mut i: usize = 0;
        let n = self.dirs.len();
        while i < n
            invariant
                n == self.dirs@.len(),
                i <= n,
            decreases n - i,
        {
            if str_eq(self.dirs[i].0.as_str(), path) {
                return Some(clone_entries(&self.dirs[i].1));
            }
            i += 1;
        }
        None
    }

    fn read_text(&mut self, path: &str) -> Option<String> {
        let mut i: usize = 0;
        let n = self.files.len();
        while i < n
            invariant
                n == self.files@.len(),
                i <= n,
            decreases n - i,
        {
            if str_eq(self.files[i].0.as_str(), path) {
                return Some(self.files[i].1.clone());
            }
            i += 1;
        }
        None
    }
}

} // verus!
