use vstd::prelude::*;

use crate::actions::{action_of, spec_action_of, Action};
use crate::input::{Key, KeySequence};

verus! {

/// One chord bound to one action.
pub struct Binding {
    pub keys: KeySequence,
    pub action: Action,
}

/// The key→action binding table. Scan order between distinct chords is
/// deliberately unspecified to callers; within this representation the
/// first full match wins.
pub type KeyMap = Vec<Binding>;

/// The abstract value of a binding table: chords with their actions, in
/// scan order.
pub open spec fn map_view(m: Seq<Binding>) -> Seq<(Seq<Key>, Action)> {
    m.map_values(|b: Binding| (b.keys@, b.action))
}

/// Every bound chord is non-empty.
pub open spec fn chords_nonempty(m: Seq<Binding>) -> bool {
    forall|i: int| 0 <= i < m.len() ==> (#[trigger] m[i]).keys@.len() > 0
}

/// The action of the first binding whose chord equals `ks` exactly.
pub open spec fn spec_lookup(m: Seq<Binding>, ks: Seq<Key>) -> Option<Action>
    decreases m.len(),
{
    if m.len() == 0 {
        None
    } else if m[0].keys@ == ks {
        Some(m[0].action)
    } else {
        spec_lookup(m.drop_first(), ks)
    }
}

proof fn lemma_lookup_skip(m: Seq<Binding>, i: int, ks: Seq<Key>)
    requires
        0 <= i < m.len(),
        m[i].keys@ != ks,
    ensures
        spec_lookup(m.skip(i), ks) == spec_lookup(m.skip(i + 1), ks),
{
    assert(m.skip(i)[0] == m[i]);
    assert(m.skip(i).drop_first() =~= m.skip(i + 1));
}

proof fn lemma_lookup_push(m: Seq<Binding>, b: Binding, ks: Seq<Key>)
    ensures
        spec_lookup(m.push(b), ks) == (match spec_lookup(m, ks) {
            Some(a) => Some(a),
            None => if b.keys@ == ks {
                Some(b.action)
            } else {
                None::<Action>
            },
        }),
    decreases m.len(),
{
    if m.len() == 0 {
        assert(m.push(b)[0] == b);
        if b.keys@ != ks {
            assert(m.push(b).drop_first() =~= Seq::<Binding>::empty());
        }
    } else {
        assert(m.push(b)[0] == m[0]);
        if m[0].keys@ != ks {
            assert(m.push(b).drop_first() =~= m.drop_first().push(b));
            lemma_lookup_push(m.drop_first(), b, ks);
        }
    }
}

proof fn lemma_lookup_update_first(m: Seq<Binding>, i: int, b: Binding, ks: Seq<Key>)
    requires
        0 <= i < m.len(),
        m[i].keys@ == b.keys@,
        forall|j: int| 0 <= j < i ==> (#[trigger] m[j]).keys@ != b.keys@,
    ensures
        spec_lookup(m.update(i, b), b.keys@) == Some(b.action),
        ks != b.keys@ ==> spec_lookup(m.update(i, b), ks) == spec_lookup(m, ks),
    decreases i,
{
    let u = m.update(i, b);
    if i == 0 {
        assert(u[0] == b);
        if ks != b.keys@ {
            if m[0].keys@ == ks {
            } else {
                assert(u.drop_first() =~= m.drop_first());
            }
        }
    } else {
        assert(u[0] == m[0]);
        assert(m[0].keys@ != b.keys@);
        assert(u.drop_first() =~= m.drop_first().update(i - 1, b));
        lemma_lookup_update_first(m.drop_first(), i - 1, b, ks);
    }
}

/// The configured bindings and the chord lookup over them.
pub struct Config {
    pub key_map: KeyMap,
}

impl Config {
    /// The table invariant: no empty chord is ever bound.
    pub open spec fn wf(&self) -> bool {
        chords_nonempty(self.key_map@)
    }

    /// Scans the table for an exact match of the accumulated chord.
    pub fn find_action(&self, ks: &KeySequence) -> (r: Option<Action>)
        ensures
            r == spec_lookup(self.key_map@, ks@),
    {
        let n = self.key_map.len();
        let mut i: usize = 0;
        proof {
            assert(self.key_map@.skip(0) =~= self.key_map@);
        }
        while i < n
            invariant
                n == self.key_map@.len(),
                i <= n,
                spec_lookup(self.key_map@, ks@) == spec_lookup(
                    self.key_map@.skip(i as int),
                    ks@,
                ),
            decreases n - i,
        {
            if self.key_map[i].keys.matches(ks) {
                proof {
                    assert(self.key_map@.skip(i as int)[0] == self.key_map@[i as int]);
                }
                return Some(self.key_map[i].action);
            }
            proof {
                lemma_lookup_skip(self.key_map@, i as int, ks@);
            }
            i += 1;
        }
        proof {
            assert(self.key_map@.skip(n as int) =~= Seq::<Binding>::empty());
        }
        None
    }

    /// Binds `k` to `action`, replacing an existing binding of the same
    /// chord: the table stays a mapping.
    pub fn map_key(&mut self, k: KeySequence, action: Action)
        requires
            old(self).wf(),
            k@.len() > 0,
        ensures
            final(self).wf(),
            spec_lookup(final(self).key_map@, k@) == Some(action),
            forall|q: Seq<Key>|
                q != k@ ==> spec_lookup(final(self).key_map@, q) == spec_lookup(
                    old(self).key_map@,
                    q,
                ),
    {
        let n = self.key_map.len();
        let mut i: usize = 0;
        while i < n
            invariant
                self.key_map@ == old(self).key_map@,
                old(self).wf(),
                k@.len() > 0,
                n == self.key_map@.len(),
                i <= n,
                forall|j: int| 0 <= j < i ==> (#[trigger] self.key_map@[j]).keys@ != k@,
            decreases n - i,
        {
            if self.key_map[i].keys.matches(&k) {
                let ghost pre = self.key_map@;
                let b = Binding { keys: k, action };
                proof {
                    assert(pre[i as int].keys@ == b.keys@);
                }
                self.key_map.remove(i);
                self.key_map.insert(i, b);
                proof {
                    assert(self.key_map@ =~= pre.update(i as int, b));
                    assert forall|q: Seq<Key>| q != b.keys@ implies spec_lookup(
                        self.key_map@,
                        q,
                    ) == spec_lookup(pre, q) by {
                        lemma_lookup_update_first(pre, i as int, b, q);
                    }
                    lemma_lookup_update_first(pre, i as int, b, b.keys@);
                    assert forall|j: int| 0 <= j < self.key_map@.len() implies (
                    #[trigger] self.key_map@[j]).keys@.len() > 0 by {
                        if j != i as int {
                            assert(self.key_map@[j] == pre[j]);
                            assert(pre[j].keys@.len() > 0);
                        } else {
                            assert(self.key_map@[j] == b);
                        }
                    }
                }
                return ;
            }
            i += 1;
        }
        let ghost pre = self.key_map@;
        let b = Binding { keys: k, action };
        self.key_map.push(b);
        proof {
            assert forall|q: Seq<Key>| true implies spec_lookup(self.key_map@, q)
                == (match spec_lookup(pre, q) {
                Some(a) => Some(a),
                None => if b.keys@ == q {
                    Some(b.action)
                } else {
                    None::<Action>
                },
            }) by {
                lemma_lookup_push(pre, b, q);
            }
            assert(spec_lookup(pre, b.keys@) == None::<Action>) by {
                lemma_lookup_none_when_absent(pre, b.keys@);
            }
        }
    }

    /// The built-in bindings: `q` quits, `j` and `k` move, space marks.
    pub fn default() -> (r: Self)
        ensures
            r.wf(),
            spec_lookup(r.key_map@, seq![Key::Char('q')]) == Some(Action::Quit),
            spec_lookup(r.key_map@, seq![Key::Char('j')]) == Some(Action::MoveDown),
            spec_lookup(r.key_map@, seq![Key::Char('k')]) == Some(Action::MoveUp),
            spec_lookup(r.key_map@, seq![Key::Char(' ')]) == Some(Action::Mark),
            forall|q: Seq<Key>|
                q != seq![Key::Char('q')] && q != seq![Key::Char('j')] && q != seq![
                    Key::Char('k'),
                ] && q != seq![Key::Char(' ')] ==> spec_lookup(r.key_map@, q)
                    == None::<Action>,
    {
        let ghost cq: Seq<Key> = seq![Key::Char('q')];
        let ghost cj: Seq<Key> = seq![Key::Char('j')];
        let ghost ck: Seq<Key> = seq![Key::Char('k')];
        let ghost cs: Seq<Key> = seq![Key::Char(' ')];
        proof {
            assert(cq[0] != cj[0] && cq[0] != ck[0] && cq[0] != cs[0]);
            assert(cj[0] != ck[0] && cj[0] != cs[0]);
            assert(ck[0] != cs[0]);
        }
        let mut c = Config { key_map: Vec::new() };
        let mut ks = KeySequence::default();
        ks.push(Key::Char('q'));
        proof {
            assert(ks@ =~= cq);
        }
        c.map_key(ks, Action::Quit);
        let mut ks = KeySequence::default();
        ks.push(Key::Char('j'));
        proof {
            assert(ks@ =~= cj);
        }
        c.map_key(ks, Action::MoveDown);
        let mut ks = KeySequence::default();
        ks.push(Key::Char('k'));
        proof {
            assert(ks@ =~= ck);
        }
        c.map_key(ks, Action::MoveUp);
        let mut ks = KeySequence::default();
        ks.push(Key::Char(' '));
        proof {
            assert(ks@ =~= cs);
        }
        c.map_key(ks, Action::Mark);
        c
    }
}

proof fn lemma_lookup_none_when_absent(m: Seq<Binding>, ks: Seq<Key>)
    requires
        forall|j: int| 0 <= j < m.len() ==> (#[trigger] m[j]).keys@ != ks,
    ensures
        spec_lookup(m, ks) == None::<Action>,
    decreases m.len(),
{
    if m.len() > 0 {
        lemma_lookup_none_when_absent(m.drop_first(), ks);
    }
}

/// The key a configuration token denotes: a single character stands for
/// itself, `C-<char>` (either case) for control, `M-<char>` for alt;
/// anything else is malformed.
pub open spec fn spec_parse_key(tok: Seq<char>) -> Option<Key> {
    if tok.len() == 1 {
        Some(Key::Char(tok[0]))
    } else if tok.len() == 3 && tok[1] == '-' && (tok[0] == 'C' || tok[0] == 'c') {
        Some(Key::Ctrl(tok[2]))
    } else if tok.len() == 3 && tok[1] == '-' && (tok[0] == 'M' || tok[0] == 'm') {
        Some(Key::Alt(tok[2]))
    } else {
        None
    }
}

/// Parses one key token of the binding grammar.
pub fn parse_key_string(key_str: &str) -> (r: Option<Key>)
    ensures
        r == spec_parse_key(key_str@),
{
    let n = key_str.unicode_len();
    if n == 1 {
        Some(Key::Char(key_str.get_char(0)))
    } else if n == 3 && key_str.get_char(1) == '-' {
        let m = key_str.get_char(0);
        if m == 'C' || m == 'c' {
            Some(Key::Ctrl(key_str.get_char(2)))
        } else if m == 'M' || m == 'm' {
            Some(Key::Alt(key_str.get_char(2)))
        } else {
            None
        }
    } else {
        None
    }
}

/// Whether every element of a configured token list is a string that
/// parses to a key.
pub open spec fn tokens_ok(v: Seq<Option<Seq<char>>>) -> bool {
    forall|i: int|
        0 <= i < v.len() ==> (#[trigger] v[i] matches Some(t) && spec_parse_key(t) is Some)
}

/// The chord a well-formed token list denotes.
pub open spec fn parsed_tokens(v: Seq<Option<Seq<char>>>) -> Seq<Key> {
    Seq::new(
        v.len(),
        |i: int|
            match v[i] {
                Some(t) => match spec_parse_key(t) {
                    Some(k) => k,
                    None => Key::Esc,
                },
                None => Key::Esc,
            },
    )
}

/// What one parsed document builds: per entry, an unrecognized action
/// name, a non-array value, a malformed token, or an empty token list
/// drops that entry — never the whole table; the rest bind in document
/// order.
pub open spec fn spec_build_table(raw: Seq<(Seq<char>, Option<Seq<Option<Seq<char>>>>)>) -> Seq<
    (Seq<Key>, Action),
>
    decreases raw.len(),
{
    if raw.len() == 0 {
        Seq::<(Seq<Key>, Action)>::empty()
    } else {
        let rest = spec_build_table(raw.drop_last());
        let hd = raw.last();
        match spec_action_of(hd.0) {
            None => rest,
            Some(a) => match hd.1 {
                None => rest,
                Some(toks) => {
                    if tokens_ok(toks) && toks.len() > 0 {
                        rest + seq![(parsed_tokens(toks), a)]
                    } else {
                        rest
                    }
                },
            },
        }
    }
}

/// Parses one entry's token list into a chord, or nothing if any token
/// is malformed.
fn parse_token_list(toks: &Vec<Option<String>>) -> (r: Option<KeySequence>)
    ensures
        tokens_ok(toks.deep_view()) ==> (r matches Some(ks) && ks@ == parsed_tokens(
            toks.deep_view(),
        )),
        !tokens_ok(toks.deep_view()) ==> r is None,
{
    let n = toks.len();
    let mut out = KeySequence::default();
    let mut i: usize = 0;
    while i < n
        invariant
            n == toks@.len(),
            toks.deep_view().len() == n,
            i <= n,
            out@.len() == i,
            forall|j: int|
                0 <= j < i ==> (#[trigger] toks.deep_view()[j] matches Some(t)
                    && spec_parse_key(t) is Some),
            forall|j: int| 0 <= j < i ==> out@[j] == parsed_tokens(toks.deep_view())[j],
        decreases n - i,
    {
        proof {
            assert(toks.deep_view()[i as int] == (match toks@[i as int] {
                Some(s) => Some(s@),
                None => None::<Seq<char>>,
            }));
        }
        match &toks[i] {
            Some(s) => {
                match parse_key_string(s.as_str()) {
                    Some(k) => {
                        out.push(k);
                    },
                    None => {
                        return None;
                    },
                }
            },
            None => {
                return None;
            },
        }
        i += 1;
    }
    proof {
        assert(out@ =~= parsed_tokens(toks.deep_view()));
    }
    Some(out)
}

/// Builds the binding table from the plain entries of a parsed
/// document.
pub fn process_config_mappings(raw: Vec<(String, Option<Vec<Option<String>>>)>) -> (r: KeyMap)
    ensures
        map_view(r@) == spec_build_table(raw.deep_view()),
        chords_nonempty(r@),
{
    let n = raw.len();
    let mut out: KeyMap = Vec::new();
    let mut i: usize = 0;
    while i < n
        invariant
            n == raw@.len(),
            raw.deep_view().len() == n,
            i <= n,
            map_view(out@) == spec_build_table(raw.deep_view().take(i as int)),
            chords_nonempty(out@),
        decreases n - i,
    {
        let ghost rv = raw.deep_view();
        proof {
            assert(rv.take(i + 1).drop_last() =~= rv.take(i as int));
            assert(rv.take(i + 1).last() == rv[i as int]);
            assert(rv[i as int] == (raw@[i as int].0@, (match raw@[i as int].1 {
                Some(v) => Some(v.deep_view()),
                None => None::<Seq<Option<Seq<char>>>>,
            })));
        }
        let entry = &raw[i];
        match action_of(entry.0.as_str()) {
            Some(a) => {
                match &entry.1 {
                    Some(toks) => {
                        match parse_token_list(toks) {
                            Some(ks) => {
                                if ks.len() > 0 {
                                    let ghost pre = out@;
                                    out.push(Binding { keys: ks, action: a });
                                    proof {
                                        assert(map_view(out@) =~= map_view(pre) + seq![
                                            (out@.last().keys@, out@.last().action),
                                        ]);
                                    }
                                } else {
                                }
                            },
                            None => {},
                        }
                    },
                    None => {},
                }
            },
            None => {},
        }
        i += 1;
    }
    proof {
        assert(raw.deep_view().take(n as int) =~= raw.deep_view());
    }
    out
}

/// A name for what `toml`'s parser yields: the table under `key` of the
/// document `text`, as pairs of entry name and list of maybe-string
/// elements, or nothing when the document does not parse or holds no
/// such table.
pub uninterp spec fn toml_string_lists(text: Seq<char>, key: Seq<char>) -> Option<
    Seq<(Seq<char>, Option<Seq<Option<Seq<char>>>>)>,
>;

/// Relies on `toml`: `str::parse::<toml::Value>` parses the document,
/// and `Value::get` / `as_table` / `as_array` / `as_str` read it. The
/// table is iterated in its own (sorted) key order, so the result is a
/// function of the two arguments alone.
#[verifier::external_body]
fn toml_table_string_lists(text: &str, key: &str) -> (r: Option<
    Vec<(String, Option<Vec<Option<String>>>)>,
>)
    ensures
        r.deep_view() == toml_string_lists(text@, key@),
{
    let doc: toml::Value = text.parse().ok()?;
    let table = doc.get(key)?.as_table()?;
    Some(
        table
            .iter()
            .map(
                |(name, val)| {
                    let toks = val
                        .as_array()
                        .map(|a| a.iter().map(|x| x.as_str().map(|s| s.to_string())).collect());
                    (name.clone(), toks)
                },
            )
            .collect(),
    )
}

impl Config {
    /// The binding table a configuration document describes: its
    /// `mappings` table, one binding per recognized entry. A document
    /// that does not parse, or holds no `mappings` table, yields
    /// nothing, and the caller falls back to the default bindings.
    pub fn from_toml_text(text: &str) -> (r: Option<Config>)
        ensures
            (match toml_string_lists(text@, "mappings"@) {
                None => r is None,
                Some(raw) => (r matches Some(c) && map_view(c.key_map@) == spec_build_table(raw)
                    && c.wf()),
            }),
    {
        match toml_table_string_lists(text, "mappings") {
            None => None,
            Some(raw) => Some(Config { key_map: process_config_mappings(raw) }),
        }
    }
}

} // verus!
