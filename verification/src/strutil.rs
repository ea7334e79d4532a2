use vstd::prelude::*;

verus! {

/// Strict lexicographic order on character sequences, by code point.
///
/// This is the display order of paths within one group of a listing; it
/// agrees with Rust's own `str` ordering because UTF-8 preserves code
/// point order.
pub open spec fn lex_lt(a: Seq<char>, b: Seq<char>) -> bool
    decreases a.len(),
{
    if b.len() == 0 {
        false
    } else if a.len() == 0 {
        true
    } else if a[0] < b[0] {
        true
    } else if a[0] == b[0] {
        lex_lt(a.drop_first(), b.drop_first())
    } else {
        false
    }
}

/// Comparing sequences with a common prefix reduces to comparing what
/// follows the prefix.
pub proof fn lemma_lex_lt_skip(a: Seq<char>, b: Seq<char>, k: int)
    requires
        0 <= k <= a.len(),
        k <= b.len(),
        forall|j: int| 0 <= j < k ==> a[j] == b[j],
    ensures
        lex_lt(a, b) == lex_lt(a.skip(k), b.skip(k)),
    decreases k,
{
    if k == 0 {
        assert(a.skip(0) =~= a);
        assert(b.skip(0) =~= b);
    } else {
        assert(a[0] == b[0]);
        assert(a.drop_first() =~= a.skip(1));
        assert(b.drop_first() =~= b.skip(1));
        lemma_lex_lt_skip(a.drop_first(), b.drop_first(), k - 1);
        assert(a.drop_first().skip(k - 1) =~= a.skip(k));
        assert(b.drop_first().skip(k - 1) =~= b.skip(k));
    }
}

/// The order is total: of two distinct sequences one is strictly below
/// the other.
pub proof fn lemma_lex_lt_total(a: Seq<char>, b: Seq<char>)
    requires
        a != b,
    ensures
        lex_lt(a, b) || lex_lt(b, a),
    decreases a.len(),
{
    if a.len() == 0 {
        if b.len() == 0 {
            assert(a =~= b);
        }
    } else if b.len() == 0 {
    } else if a[0] == b[0] {
        assert(a.drop_first() != b.drop_first()) by {
            if a.drop_first() == b.drop_first() {
                assert(a =~= seq![a[0]] + a.drop_first());
                assert(b =~= seq![b[0]] + b.drop_first());
            }
        }
        lemma_lex_lt_total(a.drop_first(), b.drop_first());
    } else {
    
    }
}

/// The order is irreflexive and asymmetric.
pub proof fn lemma_lex_lt_asymmetric(a: Seq<char>, b: Seq<char>)
    requires
        lex_lt(a, b),
    ensures
        !lex_lt(b, a),
        a != b,
    decreases a.len(),
{
    if a.len() == 0 {
    } else if b.len() == 0 {
    } else if a[0] == b[0] {
        lemma_lex_lt_asymmetric(a.drop_first(), b.drop_first());
        assert(a =~= seq![a[0]] + a.drop_first());
        assert(b =~= seq![b[0]] + b.drop_first());
    }
}

/// The order is transitive.
pub proof fn lemma_lex_lt_transitive(a: Seq<char>, b: Seq<char>, c: Seq<char>)
    requires
        lex_lt(a, b),
        lex_lt(b, c),
    ensures
        lex_lt(a, c),
    decreases a.len(),
{
    if a.len() == 0 {
    } else if b.len() == 0 {
    } else if c.len() == 0 {
    } else {
        if a[0] == b[0] && b[0] == c[0] {
            lemma_lex_lt_transitive(a.drop_first(), b.drop_first(), c.drop_first());
        }
    }
}

/// Decides `lex_lt` on two string slices.
pub fn str_lt(a: &str, b: &str) -> (r: bool)
    ensures
        r == lex_lt(a@, b@),
{
    let an = a.unicode_len();
    let bn = b.unicode_len();
    let n = if an < bn {
        an
    } else {
        bn
    };
    let mut i: usize = 0;
    while i < n
        invariant
            an == a@.len(),
            bn == b@.len(),
            n <= an,
            n <= bn,
            (n == an || n == bn),
            i <= n,
            forall|j: int| 0 <= j < i ==> a@[j] == b@[j],
        decreases n - i,
    {
        let ca = a.get_char(i);
        let cb = b.get_char(i);
        if ca != cb {
            proof {
                lemma_lex_lt_skip(a@, b@, i as int);
                assert(a@.skip(i as int)[0] == a@[i as int]);
                assert(b@.skip(i as int)[0] == b@[i as int]);
            }
            return ca < cb;
        }
        i += 1;
    }
    proof {
        lemma_lex_lt_skip(a@, b@, n as int);
    }
    an < bn
}

/// Decides view equality of two string slices.
pub fn str_eq(a: &str, b: &str) -> (r: bool)
    ensures
        r == (a@ == b@),
{
    let an = a.unicode_len();
    let bn = b.unicode_len();
    if an != bn {
        return false;
    }
    let mut i: usize = 0;
    while i < an
        invariant
            an == a@.len(),
            an == b@.len(),
            i <= an,
            forall|j: int| 0 <= j < i ==> a@[j] == b@[j],
        decreases an - i,
    {
        if a.get_char(i) != b.get_char(i) {
            return false;
        }
        i += 1;
    }
    proof {
        assert(a@ =~= b@);
    }
    true
}

/// Index of the last `/` in `p`, if any.
pub open spec fn rfind_slash(p: Seq<char>) -> Option<int>
    decreases p.len(),
{
    if p.len() == 0 {
        None
    } else if p[p.len() - 1] == '/' {
        Some(p.len() - 1)
    } else {
        rfind_slash(p.drop_last())
    }
}

/// The parent directory of a slash-separated path, in this library's
/// path model: everything before the last `/`, the lone `/` being the
/// parent of its immediate children, and a path without `/` (or the
/// root `/` itself) having no parent.
pub open spec fn spec_parent(p: Seq<char>) -> Option<Seq<char>> {
    match rfind_slash(p) {
        None => None,
        Some(i) => {
            if i == 0 {
                if p.len() == 1 {
                    None
                } else {
                    Some(seq!['/'])
                }
            } else {
                Some(p.take(i))
            }
        },
    }
}

/// The final path component: everything after the last `/`, or the whole
/// path when it has none.
pub open spec fn spec_basename(p: Seq<char>) -> Seq<char> {
    match rfind_slash(p) {
        None => p,
        Some(i) => p.skip(i + 1),
    }
}

/// A found index is in range and names a `/`.
pub proof fn lemma_rfind_slash_char(p: Seq<char>)
    ensures
        match rfind_slash(p) {
            Some(i) => 0 <= i < p.len() && p[i] == '/',
            None => true,
        },
    decreases p.len(),
{
    if p.len() > 0 && p[p.len() - 1] != '/' {
        lemma_rfind_slash_char(p.drop_last());
    }
}

proof fn lemma_rfind_slash_found(p: Seq<char>, i: int)
    requires
        0 <= i < p.len(),
        p[i] == '/',
        forall|k: int| i < k < p.len() ==> p[k] != '/',
    ensures
        rfind_slash(p) == Some(i),
    decreases p.len(),
{
    if i == p.len() - 1 {
    } else {
        assert(p[p.len() - 1] != '/');
        lemma_rfind_slash_found(p.drop_last(), i);
    }
}

proof fn lemma_rfind_slash_none(p: Seq<char>)
    requires
        forall|k: int| 0 <= k < p.len() ==> p[k] != '/',
    ensures
        rfind_slash(p) == None::<int>,
    decreases p.len(),
{
    if p.len() > 0 {
        lemma_rfind_slash_none(p.drop_last());
    }
}

/// Finds the index of the last `/` in `p`.
pub fn rfind_slash_exec(p: &str) -> (r: Option<usize>)
    ensures
        match r {
            Some(i) => rfind_slash(p@) == Some(i as int),
            None => rfind_slash(p@) == None::<int>,
        },
{
    let n = p.unicode_len();
    let mut i: usize = n;
    while i > 0
        invariant
            n == p@.len(),
            i <= n,
            forall|k: int| i <= k < n ==> p@[k] != '/',
        decreases i,
    {
        i = i - 1;
        if p.get_char(i) == '/' {
            proof {
                lemma_rfind_slash_found(p@, i as int);
            }
            return Some(i);
        }
    }
    proof {
        lemma_rfind_slash_none(p@);
    }
    None
}

/// Computes `spec_parent` on a string slice.
pub fn parent_of(p: &str) -> (r: Option<String>)
    ensures
        match r {
            Some(q) => spec_parent(p@) == Some(q@),
            None => spec_parent(p@) == None::<Seq<char>>,
        },
{
    match rfind_slash_exec(p) {
        None => None,
        Some(i) => {
            if i == 0 {
                if p.unicode_len() == 1 {
                    None
                } else {
                    let root = p.substring_char(0, 1);
                    proof {
                        lemma_rfind_slash_char(p@);
                        assert(p@.take(1) =~= seq![p@[0]]);
                        assert(root@ =~= seq!['/']);
                    }
                    Some(root.to_owned())
                }
            } else {
                proof {
                    lemma_rfind_slash_char(p@);
                }
                let q = p.substring_char(0, i);
                Some(q.to_owned())
            }
        },
    }
}

/// Computes `spec_basename` on a string slice.
pub fn basename_of(p: &str) -> (r: String)
    ensures
        r@ == spec_basename(p@),
{
    let n = p.unicode_len();
    match rfind_slash_exec(p) {
        None => p.to_owned(),
        Some(i) => {
            proof {
                lemma_rfind_slash_char(p@);
            }
            let q = p.substring_char(i + 1, n);
            q.to_owned()
        },
    }
}

} // verus!
