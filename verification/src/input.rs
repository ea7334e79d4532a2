use vstd::prelude::*;

verus! {

/// One key event as the dispatcher sees it.
///
/// `Char`, `Ctrl` and `Alt` are the forms a binding file can express;
/// `Esc` is the designated chord-cancel key. `Other` stands for any key
/// the binding grammar cannot name: it still accumulates into a pending
/// chord (so it spoils partial chords exactly like any unbound key), but
/// no binding ever contains it.
#[derive(Clone, Copy, Debug, PartialEq, Eq, Structural)]
pub enum Key {
    Char(char),
    Ctrl(char),
    Alt(char),
    Esc,
    Other,
}

/// An accumulated sequence of key events: a chord, or the pending prefix
/// of one.
#[derive(Debug)]
pub struct KeySequence {
    keys: Vec<Key>,
}

impl View for KeySequence {
    type V = Seq<Key>;

    closed spec fn view(&self) -> Seq<Key> {
        self.keys@
    }
}

impl KeySequence {
    pub fn from_keys(keys: &[Key]) -> (r: Self)
        ensures
            r@ == keys@,
    {
        Self { keys: vstd::slice::slice_to_vec(keys) }
    }

    pub fn default() -> (r: Self)
        ensures
            r@ == Seq::<Key>::empty(),
    {
        Self { keys: Vec::new() }
    }

    pub fn push(&mut self, key: Key)
        ensures
            final(self)@ == old(self)@.push(key),
    {
        self.keys.push(key);
    }

    pub fn clear(&mut self)
        ensures
            final(self)@ == Seq::<Key>::empty(),
    {
        self.keys.clear();
    }

    pub fn len(&self) -> (n: usize)
        ensures
            n == self@.len(),
    {
        self.keys.len()
    }

    pub fn is_empty(&self) -> (r: bool)
        ensures
            r == (self@.len() == 0),
    {
        self.keys.len() == 0
    }

    pub fn key_at(&self, i: usize) -> (k: Key)
        requires
            i < self@.len(),
        ensures
            k == self@[i as int],
    {
        self.keys[i]
    }

    /// Exact sequence equality: same length, same keys in the same order.
    pub fn matches(&self, other: &KeySequence) -> (r: bool)
        ensures
            r == (self@ == other@),
    {
        if self.keys.len() != other.keys.len() {
            proof {
                assert(self@.len() != other@.len());
            }
            return false;
        }
        let n = self.keys.len();
        let mut i: usize = 0;
        while i < n
            invariant
                n == self@.len(),
                n == other@.len(),
                i <= n,
                forall|j: int| 0 <= j < i ==> self@[j] == other@[j],
            decreases n - i,
        {
            if self.keys[i] != other.keys[i] {
                return false;
            }
            i += 1;
        }
        proof {
            assert(self@ =~= other@);
        }
        true
    }
}

impl Clone for KeySequence {
    fn clone(&self) -> (r: Self)
        ensures
            r@ == self@,
    {
        let mut ks: Vec<Key> = Vec::new();
        let mut i: usize = 0;
        while i < self.keys.len()
            invariant
                i <= self.keys.len(),
                ks@ =~= self.keys@.take(i as int),
            decreases self.keys.len() - i,
        {
            ks.push(self.keys[i]);
            i += 1;
        }
        proof {
            assert(ks@ =~= self.keys@);
        }
        Self { keys: ks }
    }
}

impl PartialEq for KeySequence {
    fn eq(&self, other: &Self) -> (r: bool) {
        self.matches(other)
    }
}

impl Eq for KeySequence {

}

impl vstd::std_specs::cmp::PartialEqSpecImpl for KeySequence {
    open spec fn obeys_eq_spec() -> bool {
        true
    }

    open spec fn eq_spec(&self, other: &KeySequence) -> bool {
        self@ == other@
    }
}

} // verus!
