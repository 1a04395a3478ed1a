//! MQL values as the code generator builds them: BSON documents, arrays and
//! scalars. A document keeps its fields in insertion order; inserting a
//! field that is already there replaces its value in place, as
//! `bson::Document` does. Equality is `bson`'s too: two documents are equal
//! when they hold equal values under the same names, in whatever order, and
//! doubles compare as IEEE-754 floats.

use vstd::prelude::*;
use crate::text::same_str;
use vstd::std_specs::cmp::PartialEqSpecImpl;

verus! {

/// An MQL (BSON) value. A double is held as its IEEE-754 bit pattern.
#[derive(Debug)]
pub enum Bson {
    Null,
    Boolean(bool),
    String(String),
    Int32(i32),
    Int64(i64),
    Double(u64),
    Array(Vec<Bson>),
    Document(Document),
}

/// An MQL document: fields in insertion order.
#[derive(Debug)]
pub struct Document {
    pub entries: Vec<(String, Bson)>,
}

/// The value of a BSON value.
pub enum BsonView {
    Null,
    Boolean(bool),
    String(Seq<char>),
    Int32(i32),
    Int64(i64),
    Double(u64),
    Array(Seq<BsonView>),
    Document(Seq<(Seq<char>, BsonView)>),
}

impl Bson {
    pub open spec fn view_of(self) -> BsonView
        decreases self,
    {
        match self {
            Bson::Null => BsonView::Null,
            Bson::Boolean(b) => BsonView::Boolean(b),
            Bson::String(s) => BsonView::String(s@),
            Bson::Int32(i) => BsonView::Int32(i),
            Bson::Int64(i) => BsonView::Int64(i),
            Bson::Double(d) => BsonView::Double(d),
            Bson::Array(a) => BsonView::Array(
                Seq::new(
                    a@.len(),
                    |i: int|
                        if 0 <= i < a@.len() {
                            a@[i].view_of()
                        } else {
                            BsonView::Null
                        },
                ),
            ),
            Bson::Document(d) => BsonView::Document(
                Seq::new(
                    d.entries@.len(),
                    |i: int|
                        if 0 <= i < d.entries@.len() {
                            (d.entries@[i].0@, d.entries@[i].1.view_of())
                        } else {
                            (Seq::empty(), BsonView::Null)
                        },
                ),
            ),
        }
    }
}

impl Document {
    pub open spec fn view_of(self) -> Seq<(Seq<char>, BsonView)> {
        match Bson::Document(self).view_of() {
            BsonView::Document(d) => d,
            _ => Seq::empty(),
        }
    }
}

/// The position of the first field named `k`, if any.
pub open spec fn field_position(d: Seq<(Seq<char>, BsonView)>, k: Seq<char>) -> Option<int> {
    if exists|i: int| 0 <= i < d.len() && #[trigger] d[i].0 == k {
        Some(
            choose|i: int|
                0 <= i < d.len() && #[trigger] d[i].0 == k && forall|j: int| 0 <= j < i ==> d[j].0 != k,
        )
    } else {
        None
    }
}

/// `d` with the field `k` set to `v`: an existing field keeps its place,
/// a new field goes last.
pub open spec fn doc_insert(d: Seq<(Seq<char>, BsonView)>, k: Seq<char>, v: BsonView) -> Seq<(Seq<char>, BsonView)> {
    match field_position(d, k) {
        Some(i) => d.update(i, (k, v)),
        None => d.push((k, v)),
    }
}

/// The document that inserting `fields` in order into `d` gives.
pub open spec fn doc_insert_all(d: Seq<(Seq<char>, BsonView)>, fields: Seq<(Seq<char>, BsonView)>) -> Seq<(Seq<char>, BsonView)>
    decreases fields.len(),
{
    if fields.len() == 0 {
        d
    } else {
        doc_insert(doc_insert_all(d, fields.drop_last()), fields.last().0, fields.last().1)
    }
}

/// There is a field named `k`.
pub open spec fn has_field(d: Seq<(Seq<char>, BsonView)>, k: Seq<char>) -> bool {
    exists|i: int| 0 <= i < d.len() && #[trigger] d[i].0 == k
}

proof fn lemma_first_position(d: Seq<(Seq<char>, BsonView)>, k: Seq<char>, i: int)
    requires
        0 <= i < d.len(),
        d[i].0 == k,
        forall|j: int| 0 <= j < i ==> d[j].0 != k,
    ensures
        field_position(d, k) == Some(i),
{
    let p = choose|p: int|
        0 <= p < d.len() && #[trigger] d[p].0 == k && forall|j: int| 0 <= j < p ==> d[j].0 != k;
    if p < i {
    } else if p > i {
    }
}

/// A document that has a field named `k` has a first one.
proof fn lemma_first_field_exists(d: Seq<(Seq<char>, BsonView)>, k: Seq<char>, i: int)
    requires
        0 <= i < d.len(),
        d[i].0 == k,
    ensures
        exists|p: int| 0 <= p < d.len() && #[trigger] d[p].0 == k && forall|j: int| 0 <= j < p ==> d[j].0 != k,
    decreases i,
{
    if exists|j: int| 0 <= j < i && #[trigger] d[j].0 == k {
        let j = choose|j: int| 0 <= j < i && #[trigger] d[j].0 == k;
        lemma_first_field_exists(d, k, j);
    } else {
        assert(forall|j: int| 0 <= j < i ==> d[j].0 != k);
    }
}

/// Inserting a field keeps every field that was there, in its place, and
/// leaves the inserted field in the document.
pub proof fn lemma_doc_insert_keeps_fields(d: Seq<(Seq<char>, BsonView)>, k: Seq<char>, v: BsonView)
    ensures
        has_field(doc_insert(d, k, v), k),
        doc_insert(d, k, v).len() >= d.len(),
        forall|i: int| 0 <= i < d.len() ==> #[trigger] doc_insert(d, k, v)[i].0 == d[i].0,
        forall|i: int| 0 <= i < d.len() && d[i].0 != k ==> #[trigger] doc_insert(d, k, v)[i] == d[i],
{
    let r = doc_insert(d, k, v);
    if has_field(d, k) {
        let i = choose|i: int| 0 <= i < d.len() && #[trigger] d[i].0 == k;
        lemma_first_field_exists(d, k, i);
    }
    match field_position(d, k) {
        Some(p) => {
            assert(r[p].0 == k);
        },
        None => {
            assert(r[d.len() as int].0 == k);
        },
    }
}

/// Inserting fields keeps every field that was there, in its place; a
/// field whose name none of the inserted fields has keeps its value too.
pub proof fn lemma_doc_insert_all_keeps_fields(
    d: Seq<(Seq<char>, BsonView)>,
    fields: Seq<(Seq<char>, BsonView)>,
    i: int,
)
    requires
        0 <= i < d.len(),
    ensures
        doc_insert_all(d, fields).len() >= d.len(),
        doc_insert_all(d, fields)[i].0 == d[i].0,
        (forall|j: int| 0 <= j < fields.len() ==> #[trigger] fields[j].0 != d[i].0) ==> doc_insert_all(
            d,
            fields,
        )[i] == d[i],
    decreases fields.len(),
{
    if fields.len() > 0 {
        let prev = doc_insert_all(d, fields.drop_last());
        lemma_doc_insert_all_keeps_fields(d, fields.drop_last(), i);
        lemma_doc_insert_keeps_fields(prev, fields.last().0, fields.last().1);
        if forall|j: int| 0 <= j < fields.len() ==> #[trigger] fields[j].0 != d[i].0 {
            assert forall|j: int| 0 <= j < fields.drop_last().len() implies #[trigger] fields.drop_last()[j].0
                != d[i].0 by {
                assert(fields.drop_last()[j] == fields[j]);
            }
            assert(fields[fields.len() - 1].0 != d[i].0);
        }
    }
}

/// The view of a document lists the views of its fields.
pub proof fn lemma_document_view(d: Document)
    ensures
        d.view_of().len() == d.entries@.len(),
        forall|i: int|
            0 <= i < d.entries@.len() ==> #[trigger] d.view_of()[i] == (
                d.entries@[i].0@,
                d.entries@[i].1.view_of(),
            ),
{
}

/// The view of an array lists the views of its elements.
pub proof fn lemma_array_view(a: Vec<Bson>)
    ensures
        Bson::Array(a).view_of() == BsonView::Array(a@.map_values(|b: Bson| b.view_of())),
{
    let v = Bson::Array(a).view_of();
    let s = v->Array_0;
    assert(s.len() == a@.len());
    assert forall|i: int| 0 <= i < s.len() implies s[i] == a@[i].view_of() by {}
    assert(s =~= a@.map_values(|b: Bson| b.view_of()));
}

impl Document {
    pub fn new() -> (r: Document)
        ensures
            r.view_of() == Seq::<(Seq<char>, BsonView)>::empty(),
    {
        let r = Document { entries: Vec::new() };
        assert(r.view_of() =~= Seq::<(Seq<char>, BsonView)>::empty());
        r
    }

    pub fn len(&self) -> (r: usize)
        ensures
            r == self.view_of().len(),
    {
        self.entries.len()
    }

    pub fn is_empty(&self) -> (r: bool)
        ensures
            r == (self.view_of().len() == 0),
    {
        self.entries.len() == 0
    }

    pub fn contains_key(&self, key: &str) -> (r: bool)
        ensures
            r == has_field(self.view_of(), key@),
    {
        let ghost d = self.view_of();
        proof {
            lemma_document_view(*self);
        }
        let mut i: usize = 0;
        while i < self.entries.len()
            invariant
                d == self.view_of(),
                d.len() == self.entries@.len(),
                forall|j: int|
                    0 <= j < self.entries@.len() ==> #[trigger] d[j] == (
                        self.entries@[j].0@,
                        self.entries@[j].1.view_of(),
                    ),
                i <= self.entries@.len(),
                forall|j: int| 0 <= j < i ==> d[j].0 != key@,
            decreases self.entries@.len() - i,
        {
            assert(d[i as int].0 == self.entries@[i as int].0@);
            if same_str(self.entries[i].0.as_str(), key) {
                return true;
            }
            i = i + 1;
        }
        false
    }

    /// Sets the field `key` to `value`, as `bson::Document::insert` does.
    pub fn insert(&mut self, key: String, value: Bson)
        ensures
            final(self).view_of() == doc_insert(old(self).view_of(), key@, value.view_of()),
    {
        let ghost d = self.view_of();
        let ghost kv = key@;
        let ghost vv = value.view_of();
        proof {
            lemma_document_view(*self);
        }
        let mut i: usize = 0;
        while i < self.entries.len()
            invariant
                d == self.view_of(),
                forall|j: int|
                    0 <= j < self.entries@.len() ==> #[trigger] d[j] == (
                        self.entries@[j].0@,
                        self.entries@[j].1.view_of(),
                    ),
                self.entries@.len() == d.len(),
                key@ == kv,
                value.view_of() == vv,
                d == old(self).view_of(),
                i <= self.entries@.len(),
                forall|j: int| 0 <= j < i ==> d[j].0 != kv,
            decreases self.entries@.len() - i,
        {
            assert(d[i as int].0 == self.entries@[i as int].0@);
            if same_str(self.entries[i].0.as_str(), key.as_str()) {
                proof {
                    lemma_first_position(d, kv, i as int);
                }
                let _ = self.entries.remove(i);
                self.entries.insert(i, (key, value));
                proof {
                    lemma_document_view(*self);
                    assert(self.view_of() =~= d.update(i as int, (kv, vv)));
                    assert(field_position(d, kv) == Some(i as int));
                    assert(doc_insert(d, kv, vv) == d.update(i as int, (kv, vv)));
                }
                return ;
            }
            i = i + 1;
        }
        self.entries.push((key, value));
        proof {
            lemma_document_view(*self);
            assert(self.view_of() =~= d.push((kv, vv)));
        }
    }
}

impl Document {
    /// Inserts the fields of `other`, in order, as `Extend` on
    /// `bson::Document` does.
    pub fn extend(&mut self, other: Document)
        ensures
            final(self).view_of() == doc_insert_all(old(self).view_of(), other.view_of()),
    {
        let ghost ov = other.view_of();
        proof {
            lemma_document_view(other);
        }
        let mut remaining = other.entries;
        let ghost all = remaining@;
        let ghost mut i: int = 0;
        assert(remaining@ =~= all.skip(0));
        assert(ov.take(0) =~= Seq::<(Seq<char>, BsonView)>::empty());
        while remaining.len() > 0
            invariant
                0 <= i <= all.len(),
                ov.len() == all.len(),
                forall|j: int| 0 <= j < all.len() ==> #[trigger] ov[j] == (all[j].0@, all[j].1.view_of()),
                remaining@ == all.skip(i),
                self.view_of() == doc_insert_all(old(self).view_of(), ov.take(i)),
            decreases remaining@.len(),
        {
            let (k, v) = remaining.remove(0);
            assert((k, v) == all[i]);
            self.insert(k, v);
            proof {
                assert(ov.take(i + 1).drop_last() =~= ov.take(i));
                assert(ov.take(i + 1).last() == ov[i]);
                assert(remaining@ =~= all.skip(i + 1));
                i = i + 1;
            }
        }
        assert(ov.take(i) =~= ov);
    }
}


/// The double with bit pattern `x` is a NaN.
pub open spec fn is_nan_bits(x: u64) -> bool {
    x & 0x7ff0_0000_0000_0000u64 == 0x7ff0_0000_0000_0000u64 && x & 0x000f_ffff_ffff_ffffu64 != 0
}

/// `==` on the doubles with bit patterns `x` and `y`: a NaN equals
/// nothing, the two zeros are equal, and otherwise the bits must match.
pub open spec fn double_equal(x: u64, y: u64) -> bool {
    &&& !is_nan_bits(x)
    &&& !is_nan_bits(y)
    &&& (x == y || (x & 0x7fff_ffff_ffff_ffffu64 == 0 && y & 0x7fff_ffff_ffff_ffffu64 == 0))
}

/// Equality of BSON values as `bson` defines it: values of the same kind
/// with equal contents; arrays element by element; documents with the same
/// number of fields where every field of `a` has an equal value under the
/// same name in `b`, in whatever order.
pub open spec fn bson_equal(a: BsonView, b: BsonView) -> bool
    decreases a,
{
    match a {
        BsonView::Null => b is Null,
        BsonView::Boolean(x) => b matches BsonView::Boolean(y) && x == y,
        BsonView::String(x) => b matches BsonView::String(y) && x == y,
        BsonView::Int32(x) => b matches BsonView::Int32(y) && x == y,
        BsonView::Int64(x) => b matches BsonView::Int64(y) && x == y,
        BsonView::Double(x) => b matches BsonView::Double(y) && double_equal(x, y),
        BsonView::Array(x) => match b {
            BsonView::Array(y) => x.len() == y.len() && forall|i: int|
                0 <= i < x.len() ==> bson_equal(#[trigger] x[i], y[i]),
            _ => false,
        },
        BsonView::Document(x) => match b {
            BsonView::Document(y) => x.len() == y.len() && forall|i: int|
                0 <= i < x.len() ==> match field_position(y, (#[trigger] x[i]).0) {
                    Some(p) => bson_equal(x[i].1, y[p].1),
                    None => false,
                },
            _ => false,
        },
    }
}

/// Equality of documents: the same number of fields, and every field of
/// `x` has an equal value under the same name in `y`, in whatever order.
pub open spec fn doc_equal(x: Seq<(Seq<char>, BsonView)>, y: Seq<(Seq<char>, BsonView)>) -> bool {
    bson_equal(BsonView::Document(x), BsonView::Document(y))
}

/// `==` on doubles given by their bit patterns.
fn double_eq(x: u64, y: u64) -> (r: bool)
    ensures
        r == double_equal(x, y),
{
    let x_nan = x & 0x7ff0_0000_0000_0000u64 == 0x7ff0_0000_0000_0000u64 && x
        & 0x000f_ffff_ffff_ffffu64 != 0;
    let y_nan = y & 0x7ff0_0000_0000_0000u64 == 0x7ff0_0000_0000_0000u64 && y
        & 0x000f_ffff_ffff_ffffu64 != 0;
    !x_nan && !y_nan && (x == y || (x & 0x7fff_ffff_ffff_ffffu64 == 0 && y
        & 0x7fff_ffff_ffff_ffffu64 == 0))
}

/// The position of the first field of `d` named `key`.
fn first_field_index(d: &Document, key: &str) -> (r: Option<usize>)
    ensures
        match r {
            Some(p) => p < d.entries@.len() && field_position(d.view_of(), key@) == Some(p as int),
            None => field_position(d.view_of(), key@) is None,
        },
{
    let ghost v = d.view_of();
    proof {
        lemma_document_view(*d);
    }
    let mut i: usize = 0;
    while i < d.entries.len()
        invariant
            v == d.view_of(),
            v.len() == d.entries@.len(),
            forall|j: int|
                0 <= j < d.entries@.len() ==> #[trigger] v[j] == (
                    d.entries@[j].0@,
                    d.entries@[j].1.view_of(),
                ),
            i <= d.entries@.len(),
            forall|j: int| 0 <= j < i ==> v[j].0 != key@,
        decreases d.entries@.len() - i,
    {
        assert(v[i as int].0 == d.entries@[i as int].0@);
        if same_str(d.entries[i].0.as_str(), key) {
            proof {
                lemma_first_position(v, key@, i as int);
            }
            return Some(i);
        }
        i = i + 1;
    }
    None
}

/// Equality of BSON values as `bson` defines it.
pub fn bson_eq(a: &Bson, b: &Bson) -> (r: bool)
    ensures
        r == bson_equal(a.view_of(), b.view_of()),
    decreases a,
{
    match a {
        Bson::Null => match b {
            Bson::Null => true,
            _ => false,
        },
        Bson::Boolean(x) => match b {
            Bson::Boolean(y) => *x == *y,
            _ => false,
        },
        Bson::String(x) => match b {
            Bson::String(y) => same_str(x.as_str(), y.as_str()),
            _ => false,
        },
        Bson::Int32(x) => match b {
            Bson::Int32(y) => *x == *y,
            _ => false,
        },
        Bson::Int64(x) => match b {
            Bson::Int64(y) => *x == *y,
            _ => false,
        },
        Bson::Double(x) => match b {
            Bson::Double(y) => double_eq(*x, *y),
            _ => false,
        },
        Bson::Array(x) => match b {
            Bson::Array(y) => {
                proof {
                    lemma_array_view(*x);
                    lemma_array_view(*y);
                }
                let ghost xv = x@.map_values(|e: Bson| e.view_of());
                let ghost yv = y@.map_values(|e: Bson| e.view_of());
                if x.len() != y.len() {
                    return false;
                }
                let mut i: usize = 0;
                while i < x.len()
                    invariant
                        *a == Bson::Array(*x),
                        *b == Bson::Array(*y),
                        a.view_of() == BsonView::Array(xv),
                        b.view_of() == BsonView::Array(yv),
                        x@.len() == y@.len(),
                        i <= x@.len(),
                        xv == x@.map_values(|e: Bson| e.view_of()),
                        yv == y@.map_values(|e: Bson| e.view_of()),
                        forall|j: int| 0 <= j < i ==> bson_equal(#[trigger] xv[j], yv[j]),
                    decreases x@.len() - i,
                {
                    if !bson_eq(&x[i], &y[i]) {
                        assert(!bson_equal(xv[i as int], yv[i as int]));
                        assert(!bson_equal(a.view_of(), b.view_of()));
                        return false;
                    }
                    i = i + 1;
                }
                true
            },
            _ => false,
        },
        Bson::Document(x) => match b {
            Bson::Document(y) => document_eq(x, y),
            _ => false,
        },
    }
}

/// Equality of documents as `bson` defines it: the same number of fields,
/// and every field of `a` has an equal value under the same name in `b`.
pub fn document_eq(a: &Document, b: &Document) -> (r: bool)
    ensures
        r == doc_equal(a.view_of(), b.view_of()),
    decreases a,
{
    let ghost av = a.view_of();
    let ghost bv = b.view_of();
    proof {
        lemma_document_view(*a);
        lemma_document_view(*b);
    }
    if a.entries.len() != b.entries.len() {
        return false;
    }
    let mut i: usize = 0;
    while i < a.entries.len()
        invariant
            av == a.view_of(),
            bv == b.view_of(),
            av.len() == a.entries@.len(),
            bv.len() == b.entries@.len(),
            a.entries@.len() == b.entries@.len(),
            forall|j: int|
                0 <= j < a.entries@.len() ==> #[trigger] av[j] == (
                    a.entries@[j].0@,
                    a.entries@[j].1.view_of(),
                ),
            forall|j: int|
                0 <= j < b.entries@.len() ==> #[trigger] bv[j] == (
                    b.entries@[j].0@,
                    b.entries@[j].1.view_of(),
                ),
            i <= a.entries@.len(),
            forall|j: int|
                0 <= j < i ==> match field_position(bv, (#[trigger] av[j]).0) {
                    Some(p) => bson_equal(av[j].1, bv[p].1),
                    None => false,
                },
        decreases a.entries@.len() - i,
    {
        assert(av[i as int] == (a.entries@[i as int].0@, a.entries@[i as int].1.view_of()));
        match first_field_index(b, a.entries[i].0.as_str()) {
            Some(p) => {
                assert(bv[p as int] == (b.entries@[p as int].0@, b.entries@[p as int].1.view_of()));
                if !bson_eq(&a.entries[i].1, &b.entries[p].1) {
                    return false;
                }
            },
            None => {
                return false;
            },
        }
        i = i + 1;
    }
    true
}

impl PartialEq for Bson {
    fn eq(&self, other: &Self) -> (r: bool) {
        bson_eq(self, other)
    }
}

impl PartialEqSpecImpl for Bson {
    open spec fn obeys_eq_spec() -> bool {
        true
    }

    open spec fn eq_spec(&self, other: &Self) -> bool {
        bson_equal(self.view_of(), other.view_of())
    }
}

impl PartialEq for Document {
    fn eq(&self, other: &Self) -> (r: bool) {
        document_eq(self, other)
    }
}

impl PartialEqSpecImpl for Document {
    open spec fn obeys_eq_spec() -> bool {
        true
    }

    open spec fn eq_spec(&self, other: &Self) -> bool {
        doc_equal(self.view_of(), other.view_of())
    }
}

} // verus!
