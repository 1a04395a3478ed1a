//! Datasource keys, their order, and binding tuples: maps from keys to
//! values that keep their entries in ascending key order, no key twice.

use vstd::prelude::*;

verus! {

/// The name of a datasource: either the anonymous "bottom" datasource or a
/// named one.
#[derive(Debug, Clone, PartialEq, Eq, PartialOrd, Ord)]
pub enum DatasourceName {
    Bottom,
    Named(String),
}

pub enum DatasourceNameView {
    Bottom,
    Named(Seq<char>),
}

impl View for DatasourceName {
    type V = DatasourceNameView;

    open spec fn view(&self) -> DatasourceNameView {
        match self {
            DatasourceName::Bottom => DatasourceNameView::Bottom,
            DatasourceName::Named(s) => DatasourceNameView::Named(s@),
        }
    }
}

/// A datasource in a given scope.
#[derive(Debug, Clone, PartialEq, Eq, PartialOrd, Ord)]
pub struct Key {
    pub datasource: DatasourceName,
    pub scope: u16,
}

pub struct KeyView {
    pub datasource: DatasourceNameView,
    pub scope: u16,
}

impl View for Key {
    type V = KeyView;

    open spec fn view(&self) -> KeyView {
        KeyView { datasource: self.datasource@, scope: self.scope }
    }
}

impl DatasourceName {
    /// Value equality of datasource names.
    pub fn same_name(&self, other: &DatasourceName) -> (r: bool)
        ensures
            r == (self@ == other@),
    {
        match (self, other) {
            (DatasourceName::Bottom, DatasourceName::Bottom) => true,
            (DatasourceName::Named(a), DatasourceName::Named(b)) => *a == *b,
            _ => false,
        }
    }
}

impl Key {
    /// Value equality of keys.
    pub fn same_key(&self, other: &Key) -> (r: bool)
        ensures
            r == (self@ == other@),
    {
        self.datasource.same_name(&other.datasource) && self.scope == other.scope
    }
}

/// `a` comes before `b` in lexicographic order of code points (which is
/// the byte order of their UTF-8 encodings).
pub open spec fn chars_lt(a: Seq<char>, b: Seq<char>) -> bool
    decreases a.len(),
{
    if a.len() == 0 {
        b.len() > 0
    } else if b.len() == 0 {
        false
    } else if a[0] != b[0] {
        (a[0] as int) < (b[0] as int)
    } else {
        chars_lt(a.drop_first(), b.drop_first())
    }
}

pub proof fn lemma_chars_lt_irreflexive(a: Seq<char>)
    ensures
        !chars_lt(a, a),
    decreases a.len(),
{
    if a.len() > 0 {
        lemma_chars_lt_irreflexive(a.drop_first());
    }
}

pub proof fn lemma_chars_lt_transitive(a: Seq<char>, b: Seq<char>, c: Seq<char>)
    requires
        chars_lt(a, b),
        chars_lt(b, c),
    ensures
        chars_lt(a, c),
    decreases a.len(),
{
    if a.len() > 0 && b.len() > 0 && c.len() > 0 && a[0] == b[0] && b[0] == c[0] {
        lemma_chars_lt_transitive(a.drop_first(), b.drop_first(), c.drop_first());
    }
}

pub proof fn lemma_chars_lt_total(a: Seq<char>, b: Seq<char>)
    ensures
        a == b || chars_lt(a, b) || chars_lt(b, a),
    decreases a.len(),
{
    if a.len() > 0 && b.len() > 0 {
        if a[0] == b[0] {
            lemma_chars_lt_total(a.drop_first(), b.drop_first());
            if a.drop_first() == b.drop_first() {
                assert(a =~= seq![a[0]] + a.drop_first());
                assert(b =~= seq![b[0]] + b.drop_first());
            }
        } else {
            assert((a[0] as int) != (b[0] as int));
        }
    } else if a.len() == 0 && b.len() == 0 {
        assert(a =~= b);
    }
}

pub proof fn lemma_chars_lt_asymmetric(a: Seq<char>, b: Seq<char>)
    requires
        chars_lt(a, b),
    ensures
        !chars_lt(b, a),
{
    if chars_lt(b, a) {
        lemma_chars_lt_transitive(a, b, a);
        lemma_chars_lt_irreflexive(a);
    }
}

/// Comparing two strings that agree on their first `i` characters is the
/// same as comparing what follows.
pub proof fn lemma_chars_lt_skip(a: Seq<char>, b: Seq<char>, i: int)
    requires
        0 <= i <= a.len(),
        i <= b.len(),
        a.take(i) == b.take(i),
    ensures
        chars_lt(a, b) == chars_lt(a.skip(i), b.skip(i)),
    decreases i,
{
    if i > 0 {
        assert(a[0] == a.take(i)[0]);
        assert(b[0] == b.take(i)[0]);
        assert(a.drop_first().take(i - 1) =~= a.take(i).drop_first());
        assert(b.drop_first().take(i - 1) =~= b.take(i).drop_first());
        lemma_chars_lt_skip(a.drop_first(), b.drop_first(), i - 1);
        assert(a.drop_first().skip(i - 1) =~= a.skip(i));
        assert(b.drop_first().skip(i - 1) =~= b.skip(i));
    } else {
        assert(a.skip(0) =~= a);
        assert(b.skip(0) =~= b);
    }
}

/// Strict order of strings, as `Ord` orders `String`.
pub fn string_lt(a: &str, b: &str) -> (r: bool)
    ensures
        r == chars_lt(a@, b@),
{
    let la = a.unicode_len();
    let lb = b.unicode_len();
    let mut i: usize = 0;
    while i < la && i < lb
        invariant
            la == a@.len(),
            lb == b@.len(),
            i <= la,
            i <= lb,
            a@.take(i as int) == b@.take(i as int),
        decreases la - i,
    {
        let ca = a.get_char(i);
        let cb = b.get_char(i);
        if ca != cb {
            proof {
                lemma_chars_lt_skip(a@, b@, i as int);
                assert(a@.skip(i as int)[0] == ca);
                assert(b@.skip(i as int)[0] == cb);
            }
            return (ca as u32) < (cb as u32);
        }
        assert(a@.take(i + 1) =~= a@.take(i as int).push(ca));
        assert(b@.take(i + 1) =~= b@.take(i as int).push(cb));
        i = i + 1;
    }
    proof {
        lemma_chars_lt_skip(a@, b@, i as int);
    }
    i == la && i < lb
}

/// Strict order of datasource names: the bottom datasource first, then named
/// datasources by name.
pub open spec fn name_lt(a: DatasourceNameView, b: DatasourceNameView) -> bool {
    match (a, b) {
        (DatasourceNameView::Bottom, DatasourceNameView::Named(_)) => true,
        (DatasourceNameView::Named(x), DatasourceNameView::Named(y)) => chars_lt(x, y),
        _ => false,
    }
}

/// Strict order of keys: by datasource name, then by scope.
pub open spec fn key_lt(a: KeyView, b: KeyView) -> bool {
    name_lt(a.datasource, b.datasource) || (a.datasource == b.datasource && a.scope < b.scope)
}

pub proof fn lemma_key_lt_irreflexive(a: KeyView)
    ensures
        !key_lt(a, a),
{
    if let DatasourceNameView::Named(x) = a.datasource {
        lemma_chars_lt_irreflexive(x);
    }
}

pub proof fn lemma_key_lt_transitive(a: KeyView, b: KeyView, c: KeyView)
    requires
        key_lt(a, b),
        key_lt(b, c),
    ensures
        key_lt(a, c),
{
    match (a.datasource, b.datasource, c.datasource) {
        (DatasourceNameView::Named(x), DatasourceNameView::Named(y), DatasourceNameView::Named(z)) => {
            if chars_lt(x, y) && chars_lt(y, z) {
                lemma_chars_lt_transitive(x, y, z);
            }
        },
        _ => {},
    }
}

pub proof fn lemma_key_lt_total(a: KeyView, b: KeyView)
    ensures
        a == b || key_lt(a, b) || key_lt(b, a),
{
    match (a.datasource, b.datasource) {
        (DatasourceNameView::Named(x), DatasourceNameView::Named(y)) => {
            lemma_chars_lt_total(x, y);
        },
        _ => {},
    }
}

impl Key {
    /// Whether `self` comes strictly before `other` in key order.
    pub fn lt_key(&self, other: &Key) -> (r: bool)
        ensures
            r == key_lt(self@, other@),
    {
        let name_lt = match (&self.datasource, &other.datasource) {
            (DatasourceName::Bottom, DatasourceName::Named(_)) => true,
            (DatasourceName::Named(x), DatasourceName::Named(y)) => string_lt(x.as_str(), y.as_str()),
            _ => false,
        };
        name_lt || (self.datasource.same_name(&other.datasource) && self.scope < other.scope)
    }
}

/// The keys of `entries` ascend strictly.
pub open spec fn sorted_keys<V>(entries: Seq<(Key, V)>) -> bool {
    forall|i: int, j: int| 0 <= i < j < entries.len() ==> key_lt(entries[i].0@, entries[j].0@)
}

/// Some entry of `entries` has a key equal to `k`.
pub open spec fn has_key<V>(entries: Seq<(Key, V)>, k: KeyView) -> bool {
    exists|i: int| 0 <= i < entries.len() && #[trigger] entries[i].0@ == k
}

/// The position of an entry whose key equals `k` (meaningful when there is
/// one).
pub open spec fn key_index<V>(entries: Seq<(Key, V)>, k: KeyView) -> int {
    choose|i: int| 0 <= i < entries.len() && #[trigger] entries[i].0@ == k
}

/// The value of the entry whose key equals `k`, if there is one.
pub open spec fn lookup<V>(entries: Seq<(Key, V)>, k: KeyView) -> Option<V> {
    if has_key(entries, k) {
        Some(entries[key_index(entries, k)].1)
    } else {
        None
    }
}

/// The entries as a map from key views to values.
pub open spec fn as_map<V>(entries: Seq<(Key, V)>) -> Map<KeyView, V> {
    Map::new(|k: KeyView| has_key(entries, k), |k: KeyView| lookup(entries, k)->Some_0)
}

/// In a sorted sequence, looking up the key of an entry finds that entry.
pub proof fn lemma_lookup_at<V>(entries: Seq<(Key, V)>, i: int)
    requires
        sorted_keys(entries),
        0 <= i < entries.len(),
    ensures
        has_key(entries, entries[i].0@),
        lookup(entries, entries[i].0@) == Some(entries[i].1),
{
    let k = entries[i].0@;
    assert(entries[i].0@ == k);
    let j = key_index(entries, k);
    if j < i {
        assert(key_lt(entries[j].0@, entries[i].0@));
        lemma_key_lt_irreflexive(k);
    } else if j > i {
        assert(key_lt(entries[i].0@, entries[j].0@));
        lemma_key_lt_irreflexive(k);
    }
    assert(has_key(entries, k));
    assert(lookup(entries, k) == Some(entries[j].1));
}

/// In a sorted sequence, the position of the key of an entry is that
/// entry's position.
pub proof fn lemma_key_index_at<V>(entries: Seq<(Key, V)>, i: int)
    requires
        sorted_keys(entries),
        0 <= i < entries.len(),
    ensures
        key_index(entries, entries[i].0@) == i,
{
    lemma_lookup_at(entries, i);
    let j = key_index(entries, entries[i].0@);
    if j < i {
        assert(key_lt(entries[j].0@, entries[i].0@));
        lemma_key_lt_irreflexive(entries[i].0@);
    } else if j > i {
        assert(key_lt(entries[i].0@, entries[j].0@));
        lemma_key_lt_irreflexive(entries[i].0@);
    }
}

/// Every prefix of a sorted sequence is sorted.
pub proof fn lemma_sorted_take<V>(entries: Seq<(Key, V)>, m: int)
    requires
        sorted_keys(entries),
        0 <= m <= entries.len(),
    ensures
        sorted_keys(entries.take(m)),
{
    assert forall|i: int, j: int| 0 <= i < j < entries.take(m).len() implies key_lt(
        entries.take(m)[i].0@,
        entries.take(m)[j].0@,
    ) by {
        assert(entries.take(m)[i] == entries[i]);
        assert(entries.take(m)[j] == entries[j]);
    }
}

/// Replacing the value of an existing entry, or inserting a new entry, both
/// update the map view by that key.
pub proof fn lemma_insert_as_map<V>(old: Seq<(Key, V)>, new: Seq<(Key, V)>, k: Key, v: V)
    requires
        sorted_keys(old),
        sorted_keys(new),
        has_key(old, k@) ==> exists|i: int|
            0 <= i < old.len() && old[i].0@ == k@ && new == old.update(i, (old[i].0, v)),
        !has_key(old, k@) ==> exists|i: int| 0 <= i <= old.len() && new == old.insert(i, (k, v)),
    ensures
        as_map(new) == as_map(old).insert(k@, v),
{
    if has_key(old, k@) {
        let i = choose|i: int|
            0 <= i < old.len() && old[i].0@ == k@ && new == old.update(i, (old[i].0, v));
        lemma_lookup_at(new, i);
        assert forall|kk: KeyView| #[trigger] has_key(new, kk) == (has_key(old, kk) || kk == k@) by {
            if has_key(new, kk) {
                let j = choose|j: int| 0 <= j < new.len() && #[trigger] new[j].0@ == kk;
                assert(old[j].0@ == kk);
            }
            if has_key(old, kk) {
                let j = choose|j: int| 0 <= j < old.len() && #[trigger] old[j].0@ == kk;
                assert(new[j].0@ == kk);
            }
        }
        assert forall|kk: KeyView| has_key(old, kk) && kk != k@ implies #[trigger] lookup(new, kk)
            == lookup(old, kk) by {
            let j = choose|j: int| 0 <= j < old.len() && #[trigger] old[j].0@ == kk;
            lemma_lookup_at(old, j);
            lemma_lookup_at(new, j);
        }
        assert(as_map(new) =~= as_map(old).insert(k@, v));
    } else {
        let i = choose|i: int| 0 <= i <= old.len() && new == old.insert(i, (k, v));
        lemma_lookup_at(new, i);
        assert forall|kk: KeyView| #[trigger] has_key(new, kk) == (has_key(old, kk) || kk == k@) by {
            if has_key(new, kk) {
                let j = choose|j: int| 0 <= j < new.len() && #[trigger] new[j].0@ == kk;
                if j < i {
                    assert(old[j].0@ == kk);
                } else if j > i {
                    assert(old[j - 1].0@ == kk);
                }
            }
            if has_key(old, kk) {
                let j = choose|j: int| 0 <= j < old.len() && #[trigger] old[j].0@ == kk;
                if j < i {
                    assert(new[j].0@ == kk);
                } else {
                    assert(new[j + 1].0@ == kk);
                }
            }
        }
        assert forall|kk: KeyView| has_key(old, kk) && kk != k@ implies #[trigger] lookup(new, kk)
            == lookup(old, kk) by {
            let j = choose|j: int| 0 <= j < old.len() && #[trigger] old[j].0@ == kk;
            lemma_lookup_at(old, j);
            if j < i {
                lemma_lookup_at(new, j);
            } else {
                lemma_lookup_at(new, j + 1);
            }
        }
        assert(as_map(new) =~= as_map(old).insert(k@, v));
    }
}

/// Every suffix of a sorted sequence is sorted.
pub proof fn lemma_sorted_skip<V>(entries: Seq<(Key, V)>, m: int)
    requires
        sorted_keys(entries),
        0 <= m <= entries.len(),
    ensures
        sorted_keys(entries.skip(m)),
{
    assert forall|i: int, j: int| 0 <= i < j < entries.skip(m).len() implies key_lt(
        entries.skip(m)[i].0@,
        entries.skip(m)[j].0@,
    ) by {
        assert(entries.skip(m)[i] == entries[i + m]);
        assert(entries.skip(m)[j] == entries[j + m]);
    }
}

/// The map of a sorted sequence with one more entry in front.
pub proof fn lemma_as_map_prepend<V>(e: (Key, V), rest: Seq<(Key, V)>)
    requires
        sorted_keys(seq![e] + rest),
    ensures
        as_map(seq![e] + rest) == as_map(rest).insert(e.0@, e.1),
{
    let s = seq![e] + rest;
    assert(s[0] == e);
    lemma_sorted_skip(s, 1);
    assert(s.skip(1) =~= rest);
    lemma_lookup_at(s, 0);
    assert forall|kk: KeyView| #[trigger] has_key(s, kk) == (has_key(rest, kk) || kk == e.0@) by {
        if has_key(s, kk) {
            let j = key_index(s, kk);
            if j > 0 {
                assert(rest[j - 1].0@ == kk);
            }
        }
        if has_key(rest, kk) {
            let j = key_index(rest, kk);
            assert(s[j + 1].0@ == kk);
        }
    }
    assert forall|kk: KeyView| has_key(rest, kk) && kk != e.0@ implies #[trigger] lookup(s, kk)
        == lookup(rest, kk) by {
        let j = key_index(rest, kk);
        lemma_lookup_at(rest, j);
        assert(s[j + 1] == rest[j]);
        lemma_lookup_at(s, j + 1);
    }
    assert(as_map(s) =~= as_map(rest).insert(e.0@, e.1));
}

/// A map from datasource keys to values that holds its entries in ascending
/// key order, each key once.
pub struct BindingTuple<V> {
    entries: Vec<(Key, V)>,
}

impl<V> View for BindingTuple<V> {
    type V = Seq<(Key, V)>;

    closed spec fn view(&self) -> Seq<(Key, V)> {
        self.entries@
    }
}

impl<V> BindingTuple<V> {
    #[verifier::type_invariant]
    closed spec fn inv(self) -> bool {
        sorted_keys(self.entries@)
    }

    pub fn new() -> (r: BindingTuple<V>)
        ensures
            r@ == Seq::<(Key, V)>::empty(),
    {
        BindingTuple { entries: Vec::new() }
    }

    /// The entries, in ascending key order.
    pub fn entries(&self) -> (r: &Vec<(Key, V)>)
        ensures
            r@ == self@,
            sorted_keys(self@),
    {
        proof {
            use_type_invariant(self);
        }
        &self.entries
    }

    pub fn len(&self) -> (r: usize)
        ensures
            r == self@.len(),
    {
        self.entries.len()
    }

    /// The position of the entry with a key equal to `k`, if any.
    fn position(&self, k: &Key) -> (r: Option<usize>)
        ensures
            r matches Some(i) ==> i < self@.len() && self@[i as int].0@ == k@,
            r is None ==> !has_key(self@, k@),
    {
        let mut i: usize = 0;
        while i < self.entries.len()
            invariant
                i <= self.entries@.len(),
                forall|j: int| 0 <= j < i ==> self.entries@[j].0@ != k@,
            decreases self.entries@.len() - i,
        {
            if self.entries[i].0.same_key(k) {
                return Some(i);
            }
            i = i + 1;
        }
        None
    }

    pub fn contains_key(&self, k: &Key) -> (r: bool)
        ensures
            r == has_key(self@, k@),
    {
        self.position(k).is_some()
    }

    pub fn get(&self, k: &Key) -> (r: Option<&V>)
        ensures
            match r {
                Some(v) => lookup(self@, k@) == Some(*v),
                None => lookup(self@, k@) is None,
            },
    {
        proof {
            use_type_invariant(self);
        }
        match self.position(k) {
            Some(i) => {
                proof {
                    let j = key_index(self@, k@);
                    if j != i {
                        if j < i {
                            assert(key_lt(self@[j].0@, self@[i as int].0@));
                        } else {
                            assert(key_lt(self@[i as int].0@, self@[j].0@));
                        }
                        lemma_key_lt_irreflexive(k@);
                    }
                }
                Some(&self.entries[i].1)
            },
            None => None,
        }
    }

    /// Inserts `v` under `k`. An existing entry with an equal key keeps its
    /// key and place and takes the new value; otherwise a new entry goes in
    /// at the place that keeps the keys in ascending order.
    pub fn insert(&mut self, k: Key, v: V)
        ensures
            sorted_keys(final(self)@),
            has_key(old(self)@, k@) ==> exists|i: int|
                0 <= i < old(self)@.len() && old(self)@[i].0@ == k@ && final(self)@ == old(self)@.update(
                    i,
                    (old(self)@[i].0, v),
                ),
            !has_key(old(self)@, k@) ==> exists|i: int|
                0 <= i <= old(self)@.len() && final(self)@ == old(self)@.insert(i, (k, v)),
            as_map(final(self)@) == as_map(old(self)@).insert(k@, v),
    {
        proof {
            use_type_invariant(&*self);
        }
        let mut entries: Vec<(Key, V)> = Vec::new();
        std::mem::swap(&mut entries, &mut self.entries);
        let ghost old_entries = entries@;
        let mut i: usize = 0;
        while i < entries.len() && entries[i].0.lt_key(&k)
            invariant
                entries@ == old_entries,
                sorted_keys(old_entries),
                i <= entries@.len(),
                forall|j: int| 0 <= j < i ==> key_lt(#[trigger] entries@[j].0@, k@),
            decreases entries@.len() - i,
        {
            i = i + 1;
        }
        if i < entries.len() && entries[i].0.same_key(&k) {
            let old_key = entries.remove(i);
            let kept = old_key.0;
            entries.insert(i, (kept, v));
            proof {
                assert(entries@ =~= old_entries.update(i as int, (old_entries[i as int].0, v)));
                assert forall|a: int, b: int| 0 <= a < b < entries@.len() implies key_lt(
                    entries@[a].0@,
                    entries@[b].0@,
                ) by {
                    assert(old_entries[a].0@ == entries@[a].0@);
                    assert(old_entries[b].0@ == entries@[b].0@);
                }
            }
        } else {
            let ghost kv = k@;
            entries.insert(i, (k, v));
            proof {
                assert(!has_key(old_entries, kv)) by {
                    if has_key(old_entries, kv) {
                        let j = choose|j: int| 0 <= j < old_entries.len() && #[trigger] old_entries[j].0@ == kv;
                        if j < i {
                            lemma_key_lt_irreflexive(kv);
                        } else if j > i {
                            lemma_key_lt_total(old_entries[i as int].0@, kv);
                            if key_lt(old_entries[i as int].0@, kv) {
                                lemma_key_lt_transitive(old_entries[i as int].0@, kv, old_entries[i as int].0@);
                                lemma_key_lt_irreflexive(kv);
                            }
                            assert(key_lt(old_entries[i as int].0@, old_entries[j].0@));
                            lemma_key_lt_transitive(kv, old_entries[i as int].0@, kv);
                            lemma_key_lt_irreflexive(kv);
                        }
                    }
                }
                assert forall|a: int, b: int| 0 <= a < b < entries@.len() implies key_lt(
                    entries@[a].0@,
                    entries@[b].0@,
                ) by {
                    if i < old_entries.len() {
                        lemma_key_lt_total(old_entries[i as int].0@, kv);
                    }
                    if a < i && b == i {
                    } else if a < i && b > i {
                        assert(entries@[b] == old_entries[b - 1]);
                        if i < old_entries.len() {
                            assert(key_lt(kv, old_entries[i as int].0@));
                            if b - 1 > i {
                                assert(key_lt(old_entries[i as int].0@, old_entries[b - 1].0@));
                                lemma_key_lt_transitive(kv, old_entries[i as int].0@, old_entries[b - 1].0@);
                            }
                            lemma_key_lt_transitive(old_entries[a].0@, kv, old_entries[b - 1].0@);
                        }
                    } else if a == i {
                        assert(entries@[b] == old_entries[b - 1]);
                        assert(key_lt(kv, old_entries[i as int].0@));
                        if b - 1 > i {
                            lemma_key_lt_transitive(kv, old_entries[i as int].0@, old_entries[b - 1].0@);
                        }
                    } else if a > i {
                        assert(entries@[a] == old_entries[a - 1]);
                        assert(entries@[b] == old_entries[b - 1]);
                    }
                }
            }
        }
        proof {
            lemma_insert_as_map(old_entries, entries@, k, v);
        }
        self.entries = entries;
    }

    /// The entries, in ascending key order, taken out of the tuple.
    pub fn into_entries(self) -> (r: Vec<(Key, V)>)
        ensures
            r@ == self@,
            sorted_keys(self@),
    {
        proof {
            use_type_invariant(&self);
        }
        self.entries
    }
}

} // verus!
