use vstd::prelude::*;

use crate::statefullist::{spec_next_index, spec_previous_index, StatefulList};
use crate::strutil::{
    lex_lt, lemma_lex_lt_asymmetric, lemma_lex_lt_total, lemma_lex_lt_transitive, str_lt,
};

verus! {

/// One entry of a directory listing: a path, whether it names a
/// directory (recorded at enumeration time), and a transient mark.
#[derive(Debug)]
pub struct FileListItem {
    pub path: String,
    pub is_directory: bool,
    pub marked: bool,
}

impl Clone for FileListItem {
    fn clone(&self) -> (r: Self)
        ensures
            r == *self,
    {
        Self { path: self.path.clone(), is_directory: self.is_directory, marked: self.marked }
    }
}

impl FileListItem {
    pub fn new(path: String, is_directory: bool) -> (r: Self)
        ensures
            r.path == path,
            r.is_directory == is_directory,
            !r.marked,
    {
        Self { path, is_directory, marked: false }
    }

    pub fn is_dir(&self) -> (r: bool)
        ensures
            r == self.is_directory,
    {
        self.is_directory
    }

    pub fn is_file(&self) -> (r: bool)
        ensures
            r == !self.is_directory,
    {
        !self.is_directory
    }
}

/// A sequence without its leading spaces.
pub open spec fn trim_leading_spaces(s: Seq<char>) -> Seq<char>
    decreases s.len(),
{
    if s.len() > 0 && s[0] == ' ' {
        trim_leading_spaces(s.drop_first())
    } else {
        s
    }
}

/// `n` spaces.
pub open spec fn spaces(n: int) -> Seq<char> {
    Seq::new(n as nat, |i: int| ' ')
}

/// The padding between name and size column: what is left of the pane
/// width after both texts and a separating space each, but at least
/// one space.
pub open spec fn spec_pad_width(width: int, base_len: int, size_len: int) -> int {
    let w1 = if width > base_len + 1 {
        width - (base_len + 1)
    } else {
        0
    };
    let w2 = if w1 > size_len + 1 {
        w1 - (size_len + 1)
    } else {
        0
    };
    if w2 > 1 {
        w2
    } else {
        1
    }
}

/// The display line of one entry: the file name (directories in
/// brackets), a `>` sigil replacing the leading spaces of a marked
/// entry, padding to the pane width, and the size text.
pub open spec fn spec_display_line(
    name: Seq<char>,
    is_dir: bool,
    marked: bool,
    width: int,
    size_text: Seq<char>,
) -> Seq<char> {
    let base0 = if is_dir {
        " ["@ + name + "]"@
    } else {
        " "@ + name
    };
    let base = if marked {
        ">"@ + trim_leading_spaces(base0)
    } else {
        base0
    };
    base + spaces(spec_pad_width(width, base.len() as int, size_text.len() as int)) + size_text
}

/// Group rank for display ordering: directories first, then files.
pub open spec fn group_rank(e: FileListItem) -> int {
    if e.is_directory {
        0
    } else {
        1
    }
}

/// Strict display order on entries: by group, then lexicographically by
/// path within the group.
pub open spec fn entry_lt(a: FileListItem, b: FileListItem) -> bool {
    group_rank(a) < group_rank(b) || (group_rank(a) == group_rank(b) && lex_lt(a.path@, b.path@))
}

/// Two entries that occupy the same place in the display order: same
/// group, same path.
pub open spec fn same_key(a: FileListItem, b: FileListItem) -> bool {
    group_rank(a) == group_rank(b) && a.path@ == b.path@
}

/// A listing in display order: strictly increasing, so every directory
/// stands before every file and no key repeats.
pub open spec fn entries_sorted(s: Seq<FileListItem>) -> bool {
    forall|i: int, j: int| 0 <= i < j < s.len() ==> entry_lt(s[i], s[j])
}

/// Entries that are not ordered either way share their key.
pub proof fn lemma_entry_trichotomy(a: FileListItem, b: FileListItem)
    requires
        !entry_lt(a, b),
        !entry_lt(b, a),
    ensures
        same_key(a, b),
{
    if a.path@ != b.path@ {
        lemma_lex_lt_total(a.path@, b.path@);
    }
}

/// Entries with one key are not ordered against each other.
pub proof fn lemma_same_key_unordered(a: FileListItem, b: FileListItem)
    requires
        same_key(a, b),
    ensures
        !entry_lt(a, b),
        !entry_lt(b, a),
{
    if entry_lt(a, b) {
        lemma_lex_lt_asymmetric(a.path@, b.path@);
    }
    if entry_lt(b, a) {
        lemma_lex_lt_asymmetric(b.path@, a.path@);
    }
}

/// The display order is transitive.
pub proof fn lemma_entry_lt_transitive(a: FileListItem, b: FileListItem, c: FileListItem)
    requires
        entry_lt(a, b),
        entry_lt(b, c),
    ensures
        entry_lt(a, c),
{
    if group_rank(a) == group_rank(b) && group_rank(b) == group_rank(c) {
        lemma_lex_lt_transitive(a.path@, b.path@, c.path@);
    }
}

proof fn lemma_trim_at(s: Seq<char>, i: int)
    requires
        0 <= i <= s.len(),
        forall|j: int| 0 <= j < i ==> s[j] == ' ',
        i < s.len() ==> s[i] != ' ',
    ensures
        trim_leading_spaces(s) == s.skip(i),
    decreases i,
{
    if i == 0 {
        assert(s.skip(0) =~= s);
    } else {
        assert(s[0] == ' ');
        let t = s.drop_first();
        assert(t =~= s.skip(1));
        assert(forall|j: int| 0 <= j < i - 1 ==> t[j] == s[j + 1] && t[j] == ' ');
        lemma_trim_at(t, i - 1);
        assert(t.skip(i - 1) =~= s.skip(i));
    }
}

fn first_non_space(s: &str) -> (r: usize)
    ensures
        r <= s@.len(),
        forall|j: int| 0 <= j < r ==> s@[j] == ' ',
        r < s@.len() ==> s@[r as int] != ' ',
{
    let n = s.unicode_len();
    let mut i: usize = 0;
    while i < n
        invariant
            n == s@.len(),
            i <= n,
            forall|j: int| 0 <= j < i ==> s@[j] == ' ',
        decreases n - i,
    {
        if s.get_char(i) != ' ' {
            return i;
        }
        i += 1;
    }
    n
}

impl FileListItem {
    /// Renders the entry's display line for a pane `width` characters
    /// wide, given the already-formatted size column text.
    pub fn get_text(&self, width: u16, size_text: &str) -> (r: String)
        ensures
            r@ == spec_display_line(
                crate::strutil::spec_basename(self.path@),
                self.is_directory,
                self.marked,
                width as int,
                size_text@,
            ),
    {
        let name = crate::strutil::basename_of(self.path.as_str());
        let base: String = if self.is_directory {
            let mut s: String = " [".to_owned();
            s.append(name.as_str());
            s.append("]");
            s
        } else {
            let mut s: String = " ".to_owned();
            s.append(name.as_str());
            s
        };
        let base: String = if self.marked {
            let n = base.unicode_len();
            let i = first_non_space(base.as_str());
            proof {
                lemma_trim_at(base@, i as int);
            }
            let rest = base.as_str().substring_char(i, n);
            let mut s: String = ">".to_owned();
            s.append(rest);
            s
        } else {
            base
        };
        let bl = base.unicode_len();
        let sl = size_text.unicode_len();
        let w: usize = width as usize;
        let w1: usize = if bl < w && w - bl > 1 {
            w - bl - 1
        } else {
            0
        };
        let w2: usize = if sl < w1 && w1 - sl > 1 {
            w1 - sl - 1
        } else {
            0
        };
        let pw: usize = if w2 > 1 {
            w2
        } else {
            1
        };
        proof {
            assert(pw == spec_pad_width(width as int, base@.len() as int, size_text@.len() as int));
        }
        let ghost gbase = base@;
        let mut s = base;
        let mut i: usize = 0;
        while i < pw
            invariant
                i <= pw,
                s@ == gbase + spaces(i as int),
            decreases pw - i,
        {
            s.append(" ");
            proof {
                reveal_strlit(" ");
                assert(s@ =~= gbase + spaces(i + 1));
            }
            i += 1;
        }
        s.append(size_text);
        proof {
            assert(s@ =~= gbase + spaces(pw as int) + size_text@);
        }
        s
    }
}

/// Where `e` lands when inserted into the already-sorted `s`; an entry
/// whose key is already present is dropped, so listings stay
/// deduplicated.
pub open spec fn spec_insert_entry(s: Seq<FileListItem>, e: FileListItem) -> Seq<FileListItem>
    decreases s.len(),
{
    if s.len() == 0 {
        seq![e]
    } else if entry_lt(s[0], e) {
        seq![s[0]] + spec_insert_entry(s.drop_first(), e)
    } else if same_key(s[0], e) {
        s
    } else {
        seq![e] + s
    }
}

/// The whole listing in display order: entries inserted one by one.
pub open spec fn spec_sort_entries(s: Seq<FileListItem>) -> Seq<FileListItem>
    decreases s.len(),
{
    if s.len() == 0 {
        Seq::<FileListItem>::empty()
    } else {
        spec_insert_entry(spec_sort_entries(s.drop_last()), s.last())
    }
}

/// Compares two entries in the display order.
pub fn order(a: &FileListItem, b: &FileListItem) -> (r: core::cmp::Ordering)
    ensures
        (r == core::cmp::Ordering::Less) == entry_lt(*a, *b),
        (r == core::cmp::Ordering::Greater) == entry_lt(*b, *a),
        (r == core::cmp::Ordering::Equal) == same_key(*a, *b),
{
    if a.is_directory == b.is_directory {
        if str_lt(a.path.as_str(), b.path.as_str()) {
            proof {
                lemma_lex_lt_asymmetric(a.path@, b.path@);
            }
            core::cmp::Ordering::Less
        } else if str_lt(b.path.as_str(), a.path.as_str()) {
            proof {
                lemma_lex_lt_asymmetric(b.path@, a.path@);
            }
            core::cmp::Ordering::Greater
        } else {
            proof {
                if a.path@ != b.path@ {
                    lemma_lex_lt_total(a.path@, b.path@);
                }
            }
            core::cmp::Ordering::Equal
        }
    } else if a.is_directory {
        core::cmp::Ordering::Less
    } else {
        core::cmp::Ordering::Greater
    }
}

proof fn lemma_insert_entry_at(s: Seq<FileListItem>, e: FileListItem, pos: int)
    requires
        entries_sorted(s),
        0 <= pos <= s.len(),
        forall|i: int| 0 <= i < pos ==> entry_lt(s[i], e),
        pos < s.len() ==> !entry_lt(s[pos as int], e),
    ensures
        spec_insert_entry(s, e) == if pos < s.len() && same_key(s[pos as int], e) {
            s
        } else {
            s.insert(pos, e)
        },
    decreases pos,
{
    if s.len() == 0 {
        assert(s.insert(0, e) =~= seq![e]);
    } else if pos == 0 {
        if same_key(s[0], e) {
        } else {
            assert(s.insert(0, e) =~= seq![e] + s);
        }
    } else {
        assert(entry_lt(s[0], e));
        let t = s.drop_first();
        assert(entries_sorted(t)) by {
            assert(forall|i: int, j: int|
                0 <= i < j < t.len() ==> entry_lt(#[trigger] t[i], #[trigger] t[j])) by {
                assert(forall|i: int, j: int|
                    0 <= i < j < t.len() ==> t[i] == s[i + 1] && t[j] == s[j + 1]);
            }
        }
        assert(forall|i: int| 0 <= i < pos - 1 ==> entry_lt(#[trigger] t[i], e)) by {
            assert(forall|i: int| 0 <= i < pos - 1 ==> t[i] == s[i + 1]);
        }
        assert(pos - 1 < t.len() ==> !entry_lt(t[pos - 1], e));
        lemma_insert_entry_at(t, e, pos - 1);
        if pos < s.len() && same_key(s[pos as int], e) {
            assert(spec_insert_entry(s, e) =~= s);
        } else {
            assert(seq![s[0]] + t.insert(pos - 1, e) =~= s.insert(pos, e));
        }
    }
}

/// Inserts `e` into the sorted listing `items`, keeping it sorted and
/// dropping `e` when its key is already present.
pub fn insert_entry(items: &mut Vec<FileListItem>, e: FileListItem)
    requires
        entries_sorted(old(items)@),
    ensures
        final(items)@ == spec_insert_entry(old(items)@, e),
{
    let n = items.len();
    let mut pos: usize = 0;
    while pos < n
        invariant
            items@ == old(items)@,
            n == items@.len(),
            pos <= n,
            entries_sorted(items@),
            forall|i: int| 0 <= i < pos ==> entry_lt(#[trigger] items@[i], e),
        decreases n - pos,
    {
        match order(&items[pos], &e) {
            core::cmp::Ordering::Less => {
                pos += 1;
            },
            core::cmp::Ordering::Equal => {
                proof {
                    lemma_same_key_unordered(items@[pos as int], e);
                    lemma_insert_entry_at(items@, e, pos as int);
                }
                return ;
            },
            core::cmp::Ordering::Greater => {
                proof {
                    if same_key(items@[pos as int], e) {
                        lemma_same_key_unordered(items@[pos as int], e);
                    }
                    assert(!entry_lt(items@[pos as int], e)) by {
                        if entry_lt(items@[pos as int], e) {
                            lemma_entry_lt_transitive(e, items@[pos as int], e);
                            lemma_same_key_unordered(e, e);
                        }
                    }
                    lemma_insert_entry_at(items@, e, pos as int);
                }
                items.insert(pos, e);
                return ;
            },
        }
    }
    proof {
        lemma_insert_entry_at(items@, e, pos as int);
    }
    items.insert(pos, e);
}

/// Sorting preserves sortedness: the inserted listing is sorted again.
proof fn lemma_insert_entry_sorted(s: Seq<FileListItem>, e: FileListItem)
    requires
        entries_sorted(s),
    ensures
        entries_sorted(spec_insert_entry(s, e)),
        forall|x: FileListItem|
            spec_insert_entry(s, e).contains(x) ==> s.contains(x) || x == e,
        forall|x: FileListItem| s.contains(x) ==> spec_insert_entry(s, e).contains(x),
    decreases s.len(),
{
    let out = spec_insert_entry(s, e);
    if s.len() == 0 {
    } else if entry_lt(s[0], e) {
        let t = s.drop_first();
        assert(entries_sorted(t)) by {
            assert(forall|i: int, j: int|
                0 <= i < j < t.len() ==> t[i] == s[i + 1] && t[j] == s[j + 1]);
        }
        lemma_insert_entry_sorted(t, e);
        let u = spec_insert_entry(t, e);
        assert(out =~= seq![s[0]] + u);
        assert forall|i: int, j: int| 0 <= i < j < out.len() implies entry_lt(
            #[trigger] out[i],
            #[trigger] out[j],
        ) by {
            if i == 0 {
                let y = out[j];
                assert(u.contains(y)) by {
                    assert(u[j - 1] == y);
                }
                if t.contains(y) {
                    let k = choose|k: int| 0 <= k < t.len() && t[k] == y;
                    assert(s[k + 1] == y);
                    assert(entry_lt(s[0], s[k + 1]));
                } else {
                    assert(y == e);
                }
            } else {
                assert(entry_lt(u[i - 1], u[j - 1]));
            }
        }
        assert forall|x: FileListItem| out.contains(x) implies s.contains(x) || x == e by {
            let k = choose|k: int| 0 <= k < out.len() && out[k] == x;
            if k == 0 {
                assert(s[0] == x);
            } else {
                assert(u[k - 1] == x);
                assert(u.contains(x));
                if t.contains(x) {
                    let m = choose|m: int| 0 <= m < t.len() && t[m] == x;
                    assert(s[m + 1] == x);
                }
            }
        }
        assert forall|x: FileListItem| s.contains(x) implies out.contains(x) by {
            let k = choose|k: int| 0 <= k < s.len() && s[k] == x;
            if k == 0 {
                assert(out[0] == x);
            } else {
                assert(t[k - 1] == x);
                assert(t.contains(x));
                assert(u.contains(x));
                let m = choose|m: int| 0 <= m < u.len() && u[m] == x;
                assert(out[m + 1] == x);
            }
        }
    } else if same_key(s[0], e) {
    } else {
        assert(entry_lt(e, s[0])) by {
            if !entry_lt(e, s[0]) {
                lemma_entry_trichotomy(s[0], e);
            }
        }
        assert(out =~= seq![e] + s);
        assert forall|i: int, j: int| 0 <= i < j < out.len() implies entry_lt(
            #[trigger] out[i],
            #[trigger] out[j],
        ) by {
            if i == 0 {
                if j == 1 {
                } else {
                    lemma_entry_lt_transitive(e, s[0], s[j - 1]);
                }
            }
        }
        assert forall|x: FileListItem| out.contains(x) implies s.contains(x) || x == e by {
            let k = choose|k: int| 0 <= k < out.len() && out[k] == x;
            if k > 0 {
                assert(s[k - 1] == x);
            }
        }
        assert forall|x: FileListItem| s.contains(x) implies out.contains(x) by {
            let k = choose|k: int| 0 <= k < s.len() && s[k] == x;
            assert(out[k + 1] == x);
        }
    }
}

/// Sorted output of the listing sort, with every output entry drawn from
/// the input and every input entry represented by its key.
pub proof fn lemma_sort_entries_sorted(s: Seq<FileListItem>)
    ensures
        entries_sorted(spec_sort_entries(s)),
        forall|x: FileListItem| spec_sort_entries(s).contains(x) ==> s.contains(x),
    decreases s.len(),
{
    if s.len() > 0 {
        lemma_sort_entries_sorted(s.drop_last());
        lemma_insert_entry_sorted(spec_sort_entries(s.drop_last()), s.last());
        assert forall|x: FileListItem| spec_sort_entries(s).contains(x) implies s.contains(
            x,
        ) by {
            if spec_sort_entries(s.drop_last()).contains(x) {
                assert(s.drop_last().contains(x));
                let k = choose|k: int|
                    0 <= k < s.drop_last().len() && s.drop_last()[k] == x;
                assert(s.drop_last()[k] == s[k]);
                assert(s.contains(x)) by {
                    assert(s[k] == x);
                }
            } else {
                assert(s.contains(x)) by {
                    assert(s[s.len() - 1] == s.last());
                    assert(x == s.last());
                }
            }
        }
    }
}

/// Sorts a freshly enumerated listing into display order: directories
/// before files, lexicographic within each group, duplicate keys
/// dropped.
pub fn sort_entries(input: Vec<FileListItem>) -> (r: Vec<FileListItem>)
    ensures
        r@ == spec_sort_entries(input@),
        entries_sorted(r@),
{
    let mut out: Vec<FileListItem> = Vec::new();
    let n = input.len();
    let mut i: usize = 0;
    while i < n
        invariant
            n == input@.len(),
            i <= n,
            out@ == spec_sort_entries(input@.take(i as int)),
            entries_sorted(out@),
        decreases n - i,
    {
        proof {
            lemma_insert_entry_sorted(out@, input@[i as int]);
            assert(input@.take(i + 1).drop_last() =~= input@.take(i as int));
            assert(input@.take(i + 1).last() == input@[i as int]);
        }
        let e = input[i].clone();
        insert_entry(&mut out, e);
        i += 1;
    }
    proof {
        assert(input@.take(n as int) =~= input@);
        lemma_sort_entries_sorted(input@);
    }
    out
}

/// One directory-listing pane: a root path and the cursor over the
/// listing of that root.
pub struct FileList {
    pub root: String,
    pub list: StatefulList<FileListItem>,
}

impl FileList {
    pub open spec fn wf(&self) -> bool {
        self.list.wf()
    }

    /// Selected index, if any.
    pub open spec fn spec_selected(&self) -> Option<usize> {
        self.list.selected
    }

    pub fn new(root: &str) -> (r: Self)
        ensures
            r.root@ == root@,
            r.list.items@ == Seq::<FileListItem>::empty(),
            r.list.selected == None::<usize>,
            r.list.cursor_pos == 0,
            r.wf(),
    {
        Self { root: root.to_owned(), list: StatefulList::new() }
    }

    pub fn with_items(items: Vec<FileListItem>, root: &str) -> (r: Self)
        ensures
            r.root@ == root@,
            r.list.items@ == items@,
            r.list.selected == None::<usize>,
            r.list.cursor_pos == 0,
            r.wf(),
    {
        Self { root: root.to_owned(), list: StatefulList::with_items(items) }
    }

    pub fn set_items(&mut self, items: Vec<FileListItem>)
        ensures
            final(self).root == old(self).root,
            final(self).list.items@ == items@,
            final(self).list.cursor_pos == old(self).list.cursor_pos,
            final(self).list.selected == match old(self).list.selected {
                Some(i) => if (i as int) < items@.len() {
                    Some(i)
                } else {
                    None::<usize>
                },
                None => None::<usize>,
            },
            final(self).wf(),
    {
        self.list.set_items(items);
    }

    pub fn select(&mut self, index: usize)
        requires
            index < old(self).list.items@.len(),
        ensures
            final(self).root == old(self).root,
            final(self).list.items@ == old(self).list.items@,
            final(self).list.selected == Some(index),
            final(self).list.cursor_pos == index,
            final(self).wf(),
    {
        self.list.select(index);
    }

    pub fn selected(&self) -> (r: Option<usize>)
        ensures
            r == self.spec_selected(),
    {
        self.list.selected()
    }

    /// The entry under the cursor, if one is selected.
    pub fn selected_item(&self) -> (r: Option<&FileListItem>)
        requires
            self.wf(),
        ensures
            match self.spec_selected() {
                Some(i) => (r matches Some(e) && *e == self.list.items@[i as int]),
                None => r is None,
            },
    {
        match self.list.selected {
            Some(i) => Some(&self.list.items[i]),
            None => None,
        }
    }

    /// Installs a freshly enumerated listing, sorted into display order;
    /// a selection past the new end is cleared.
    pub fn refresh_list(&mut self, raw: Vec<FileListItem>)
        ensures
            final(self).root == old(self).root,
            final(self).list.items@ == spec_sort_entries(raw@),
            entries_sorted(final(self).list.items@),
            final(self).list.cursor_pos == old(self).list.cursor_pos,
            final(self).list.selected == match old(self).list.selected {
                Some(i) => if (i as int) < spec_sort_entries(raw@).len() {
                    Some(i)
                } else {
                    None::<usize>
                },
                None => None::<usize>,
            },
            final(self).wf(),
    {
        let sorted = sort_entries(raw);
        self.list.set_items(sorted);
    }

    /// Points the pane at a new root and installs that root's listing.
    pub fn set_root(&mut self, root: &str, raw: Vec<FileListItem>)
        ensures
            final(self).root@ == root@,
            final(self).list.items@ == spec_sort_entries(raw@),
            entries_sorted(final(self).list.items@),
            final(self).list.cursor_pos == old(self).list.cursor_pos,
            final(self).list.selected == match old(self).list.selected {
                Some(i) => if (i as int) < spec_sort_entries(raw@).len() {
                    Some(i)
                } else {
                    None::<usize>
                },
                None => None::<usize>,
            },
            final(self).wf(),
    {
        self.root = root.to_owned();
        self.refresh_list(raw);
    }

    pub fn next(&mut self)
        requires
            old(self).wf(),
        ensures
            final(self).root == old(self).root,
            final(self).list.items@ == old(self).list.items@,
            final(self).wf(),
            old(self).list.items@.len() == 0 ==> final(self).list.selected == old(
                self,
            ).list.selected && final(self).list.cursor_pos == old(self).list.cursor_pos,
            old(self).list.items@.len() > 0 ==> {
                let target = spec_next_index(
                    old(self).list.selected,
                    old(self).list.items@.len() as int,
                );
                final(self).list.selected == Some(target as usize)
                    && final(self).list.cursor_pos == target
            },
    {
        self.list.next();
    }

    pub fn previous(&mut self)
        requires
            old(self).wf(),
        ensures
            final(self).root == old(self).root,
            final(self).list.items@ == old(self).list.items@,
            final(self).wf(),
            old(self).list.items@.len() == 0 ==> final(self).list.selected == old(
                self,
            ).list.selected && final(self).list.cursor_pos == old(self).list.cursor_pos,
            old(self).list.items@.len() > 0 ==> {
                let target = spec_previous_index(
                    old(self).list.selected,
                    old(self).list.items@.len() as int,
                );
                final(self).list.selected == Some(target as usize)
                    && final(self).list.cursor_pos == target
            },
    {
        self.list.previous();
    }

    pub fn unselect(&mut self)
        ensures
            final(self).root == old(self).root,
            final(self).list.items@ == old(self).list.items@,
            final(self).list.selected == None::<usize>,
            final(self).list.cursor_pos == old(self).list.cursor_pos,
            final(self).wf(),
    {
        self.list.unselect();
    }

    /// Flips the mark of the entry at `i`; nothing else of the listing
    /// changes.
    pub fn toggle_mark(&mut self, i: usize)
        requires
            old(self).wf(),
            i < old(self).list.items@.len(),
        ensures
            final(self).root == old(self).root,
            final(self).list.selected == old(self).list.selected,
            final(self).list.cursor_pos == old(self).list.cursor_pos,
            final(self).list.items@.len() == old(self).list.items@.len(),
            final(self).list.items@[i as int].path == old(self).list.items@[i as int].path,
            final(self).list.items@[i as int].is_directory == old(self).list.items@[
                i as int
            ].is_directory,
            final(self).list.items@[i as int].marked == !old(self).list.items@[i as int].marked,
            forall|k: int|
                0 <= k < old(self).list.items@.len() && k != i ==> final(self).list.items@[k]
                    == old(self).list.items@[k],
            final(self).wf(),
    {
        let mut e = self.list.items.remove(i);
        e.marked = !e.marked;
        self.list.items.insert(i, e);
        proof {
            assert(self.list.items@ =~= old(self).list.items@.update(
                i as int,
                self.list.items@[i as int],
            ));
        }
    }
}

/// The sorted order places every directory before every file and is
/// strictly lexicographically increasing within each group.
pub proof fn lemma_sorted_display_order(s: Seq<FileListItem>)
    requires
        entries_sorted(s),
    ensures
        forall|i: int, j: int|
            0 <= i < j < s.len() && s[j].is_directory ==> s[i].is_directory,
        forall|i: int, j: int|
            0 <= i < j < s.len() && s[i].is_directory == s[j].is_directory ==> lex_lt(
                s[i].path@,
                s[j].path@,
            ),
{
    assert forall|i: int, j: int|
        0 <= i < j < s.len() && s[j].is_directory implies s[i].is_directory by {
        assert(entry_lt(s[i], s[j]));
    }
    assert forall|i: int, j: int|
        0 <= i < j < s.len() && s[i].is_directory == s[j].is_directory implies lex_lt(
        s[i].path@,
        s[j].path@,
    ) by {
        assert(entry_lt(s[i], s[j]));
    }
}

} // verus!
