//! The document payload model: a JSON-like value made of plain data, together
//! with its mathematical view and the envelope rules that separate a server
//! document into metadata fields (keys starting with `_`) and payload fields.

use vstd::prelude::*;

verus! {

/// The mathematical value of a document: text becomes a character sequence,
/// arrays and objects become sequences of views.
pub enum Val {
    Null,
    Bool(bool),
    Int(i64),
    Str(Seq<char>),
    Arr(Seq<Val>),
    Obj(Seq<(Seq<char>, Val)>),
}

/// A JSON-like document value. Object fields keep their order; the envelope
/// rules below treat keys beginning with `_` as server metadata.
#[derive(Debug, PartialEq, Eq)]
pub enum DocValue {
    Null,
    Bool(bool),
    Int(i64),
    Str(String),
    Array(Vec<DocValue>),
    Object(Vec<(String, DocValue)>),
}

/// The view of a document value.
pub open spec fn val_of(v: DocValue) -> Val
    decreases v,
{
    match v {
        DocValue::Null => Val::Null,
        DocValue::Bool(b) => Val::Bool(b),
        DocValue::Int(i) => Val::Int(i),
        DocValue::Str(s) => Val::Str(s@),
        DocValue::Array(items) => Val::Arr(vals_of(items@)),
        DocValue::Object(pairs) => Val::Obj(pair_vals_of(pairs@)),
    }
}

/// The views of a sequence of document values.
pub open spec fn vals_of(s: Seq<DocValue>) -> Seq<Val>
    decreases s,
{
    if s.len() == 0 {
        Seq::<Val>::empty()
    } else {
        seq![val_of(s[0])] + vals_of(s.drop_first())
    }
}

/// The views of a sequence of object fields.
pub open spec fn pair_vals_of(s: Seq<(String, DocValue)>) -> Seq<(Seq<char>, Val)>
    decreases s,
{
    if s.len() == 0 {
        Seq::<(Seq<char>, Val)>::empty()
    } else {
        seq![(s[0].0@, val_of(s[0].1))] + pair_vals_of(s.drop_first())
    }
}

impl View for DocValue {
    type V = Val;

    open spec fn view(&self) -> Val {
        val_of(*self)
    }
}

/// `vals_of` maps the sequence pointwise.
pub proof fn lemma_vals_of(s: Seq<DocValue>)
    ensures
        vals_of(s).len() == s.len(),
        forall|i: int| 0 <= i < s.len() ==> vals_of(s)[i] == val_of(s[i]),
    decreases s.len(),
{
    if s.len() > 0 {
        lemma_vals_of(s.drop_first());
    }
}

/// `pair_vals_of` maps the sequence pointwise.
pub proof fn lemma_pair_vals_of(s: Seq<(String, DocValue)>)
    ensures
        pair_vals_of(s).len() == s.len(),
        forall|i: int|
            0 <= i < s.len() ==> pair_vals_of(s)[i] == (s[i].0@, val_of(s[i].1)),
    decreases s.len(),
{
    if s.len() > 0 {
        lemma_pair_vals_of(s.drop_first());
    }
}

/// `vals_of` distributes over push.
pub proof fn lemma_vals_of_push(s: Seq<DocValue>, v: DocValue)
    ensures
        vals_of(s.push(v)) == vals_of(s).push(val_of(v)),
{
    lemma_vals_of(s);
    lemma_vals_of(s.push(v));
    assert(vals_of(s.push(v)) =~= vals_of(s).push(val_of(v)));
}

/// `pair_vals_of` distributes over push.
pub proof fn lemma_pair_vals_of_push(s: Seq<(String, DocValue)>, k: String, v: DocValue)
    ensures
        pair_vals_of(s.push((k, v))) == pair_vals_of(s).push((k@, val_of(v))),
{
    lemma_pair_vals_of(s);
    lemma_pair_vals_of(s.push((k, v)));
    assert(pair_vals_of(s.push((k, v))) =~= pair_vals_of(s).push((k@, val_of(v))));
}

impl DocValue {
    /// Whether this value is an object; only objects can stand for documents.
    pub fn is_object(&self) -> (r: bool)
        ensures
            r == (self@ is Obj),
    {
        match self {
            DocValue::Object(_) => true,
            _ => false,
        }
    }

    /// A structurally equal copy of this value.
    pub fn deep_clone(&self) -> (r: DocValue)
        ensures
            r@ == self@,
        decreases *self,
    {
        match self {
            DocValue::Null => DocValue::Null,
            DocValue::Bool(b) => DocValue::Bool(*b),
            DocValue::Int(i) => DocValue::Int(*i),
            DocValue::Str(s) => DocValue::Str(s.clone()),
            DocValue::Array(items) => {
                let mut out: Vec<DocValue> = Vec::new();
                let n = items.len();
                for i in 0..n
                    invariant
                        n == items@.len(),
                        out@.len() == i,
                        vals_of(out@) == vals_of(items@.take(i as int)),
                        *self is Array,
                        self->Array_0 == *items,
                {
                    proof {
                        assert(decreases_to!(*self => self->Array_0));
                        assert(decreases_to!(self->Array_0 => items@));
                        assert(decreases_to!(items@ => items@[i as int]));
                    }
                    let c = items[i].deep_clone();
                    let ghost prev_out = out@;
                    out.push(c);
                    proof {
                        lemma_vals_of_push(prev_out, c);
                        lemma_vals_of_push(items@.take(i as int), items@[i as int]);
                        assert(items@.take(i + 1) =~= items@.take(i as int).push(
                            items@[i as int],
                        ));
                    }
                }
                proof {
                    assert(items@.take(n as int) =~= items@);
                }
                DocValue::Array(out)
            },
            DocValue::Object(pairs) => {
                let mut out: Vec<(String, DocValue)> = Vec::new();
                let n = pairs.len();
                for i in 0..n
                    invariant
                        n == pairs@.len(),
                        out@.len() == i,
                        pair_vals_of(out@) == pair_vals_of(pairs@.take(i as int)),
                        *self is Object,
                        self->Object_0 == *pairs,
                {
                    proof {
                        assert(decreases_to!(*self => self->Object_0));
                        assert(decreases_to!(self->Object_0 => pairs@));
                        assert(decreases_to!(pairs@ => pairs@[i as int]));
                        assert(decreases_to!(pairs@[i as int] => pairs@[i as int].1));
                    }
                    let k = pairs[i].0.clone();
                    let v = pairs[i].1.deep_clone();
                    let ghost prev_out = out@;
                    out.push((k, v));
                    proof {
                        lemma_pair_vals_of_push(prev_out, k, v);
                        lemma_pair_vals_of_push(
                            pairs@.take(i as int),
                            pairs@[i as int].0,
                            pairs@[i as int].1,
                        );
                        assert(pairs@.take(i + 1) =~= pairs@.take(i as int).push(
                            pairs@[i as int],
                        ));
                        assert((pairs@[i as int].0, pairs@[i as int].1) == pairs@[i as int]);
                    }
                }
                proof {
                    assert(pairs@.take(n as int) =~= pairs@);
                }
                DocValue::Object(out)
            },
        }
    }
}

/// `pair_vals_of` distributes over concatenation.
pub proof fn lemma_pair_vals_of_concat(a: Seq<(String, DocValue)>, b: Seq<(String, DocValue)>)
    ensures
        pair_vals_of(a + b) == pair_vals_of(a) + pair_vals_of(b),
{
    lemma_pair_vals_of(a);
    lemma_pair_vals_of(b);
    lemma_pair_vals_of(a + b);
    assert(pair_vals_of(a + b) =~= pair_vals_of(a) + pair_vals_of(b));
}

/// Whether a key names a metadata field of the envelope.
pub open spec fn spec_is_meta_key(k: Seq<char>) -> bool {
    k.len() > 0 && k[0] == '_'
}

/// Decide whether a key names a metadata field.
pub fn is_meta_key(k: &str) -> (r: bool)
    ensures
        r == spec_is_meta_key(k@),
{
    if k.unicode_len() == 0 {
        false
    } else {
        k.get_char(0) == '_'
    }
}

/// The first value bound to `key` among the fields, if any.
pub open spec fn spec_lookup(pairs: Seq<(Seq<char>, Val)>, key: Seq<char>) -> Option<Val>
    decreases pairs,
{
    if pairs.len() == 0 {
        None
    } else if pairs[0].0 == key {
        Some(pairs[0].1)
    } else {
        spec_lookup(pairs.drop_first(), key)
    }
}

/// The payload fields of an envelope: those whose keys do not start with `_`.
pub open spec fn spec_strip_meta(pairs: Seq<(Seq<char>, Val)>) -> Seq<(Seq<char>, Val)> {
    pairs.filter(|p: (Seq<char>, Val)| !spec_is_meta_key(p.0))
}

/// Lookup distributes over push: a pushed pair is found only when no earlier
/// pair bound the key.
pub proof fn lemma_lookup_push(pairs: Seq<(Seq<char>, Val)>, p: (Seq<char>, Val), key: Seq<char>)
    ensures
        spec_lookup(pairs.push(p), key) == if spec_lookup(pairs, key) is Some {
            spec_lookup(pairs, key)
        } else if p.0 == key {
            Some(p.1)
        } else {
            None::<Val>
        },
    decreases pairs.len(),
{
    if pairs.len() == 0 {
        assert(pairs.push(p)[0] == p);
        assert(pairs.push(p).drop_first() =~= Seq::<(Seq<char>, Val)>::empty());
        assert(spec_lookup(Seq::<(Seq<char>, Val)>::empty(), key) is None);
    } else {
        assert(pairs.push(p)[0] == pairs[0]);
        assert(pairs.push(p).drop_first() =~= pairs.drop_first().push(p));
        lemma_lookup_push(pairs.drop_first(), p, key);
    }
}

/// Stripping metadata distributes over push.
pub proof fn lemma_strip_meta_push(pairs: Seq<(Seq<char>, Val)>, p: (Seq<char>, Val))
    ensures
        spec_strip_meta(pairs.push(p)) == if !spec_is_meta_key(p.0) {
            spec_strip_meta(pairs).push(p)
        } else {
            spec_strip_meta(pairs)
        },
{
    reveal(Seq::filter);
    assert(pairs.push(p).drop_last() =~= pairs);
    assert(pairs.push(p).last() == p);
}


/// Lookup over a concatenation: the left fields win.
pub proof fn lemma_lookup_concat(a: Seq<(Seq<char>, Val)>, b: Seq<(Seq<char>, Val)>, key: Seq<char>)
    ensures
        spec_lookup(a + b, key) == if spec_lookup(a, key) is Some {
            spec_lookup(a, key)
        } else {
            spec_lookup(b, key)
        },
    decreases a.len(),
{
    if a.len() == 0 {
        assert(a + b =~= b);
    } else {
        assert((a + b)[0] == a[0]);
        assert((a + b).drop_first() =~= a.drop_first() + b);
        lemma_lookup_concat(a.drop_first(), b, key);
    }
}

/// A key bound by no field is not found.
pub proof fn lemma_lookup_absent(pairs: Seq<(Seq<char>, Val)>, key: Seq<char>)
    requires
        forall|j: int| 0 <= j < pairs.len() ==> (#[trigger] pairs[j].0) != key,
    ensures
        spec_lookup(pairs, key) is None,
    decreases pairs.len(),
{
    if pairs.len() > 0 {
        assert(pairs[0].0 != key);
        assert(forall|j: int|
            0 <= j < pairs.drop_first().len() ==> (#[trigger] pairs.drop_first()[j].0) != key);
        lemma_lookup_absent(pairs.drop_first(), key);
    }
}

/// Stripping distributes over concatenation.
pub proof fn lemma_strip_meta_concat(a: Seq<(Seq<char>, Val)>, b: Seq<(Seq<char>, Val)>)
    ensures
        spec_strip_meta(a + b) == spec_strip_meta(a) + spec_strip_meta(b),
    decreases b.len(),
{
    reveal(Seq::filter);
    if b.len() == 0 {
        assert(a + b =~= a);
        assert(spec_strip_meta(b) =~= Seq::<(Seq<char>, Val)>::empty());
        assert(spec_strip_meta(a) + spec_strip_meta(b) =~= spec_strip_meta(a));
    } else {
        let b0 = b.drop_last();
        assert(a + b =~= (a + b0).push(b.last()));
        lemma_strip_meta_push(a + b0, b.last());
        lemma_strip_meta_push(b0, b.last());
        lemma_strip_meta_concat(a, b0);
        assert(b =~= b0.push(b.last()));
        if !spec_is_meta_key(b.last().0) {
            assert(spec_strip_meta(a + b) =~= spec_strip_meta(a) + spec_strip_meta(b));
        } else {
            assert(spec_strip_meta(a + b) =~= spec_strip_meta(a) + spec_strip_meta(b));
        }
    }
}

/// Fields that are all metadata strip to nothing.
pub proof fn lemma_strip_all_meta(pairs: Seq<(Seq<char>, Val)>)
    requires
        forall|j: int| 0 <= j < pairs.len() ==> spec_is_meta_key(#[trigger] pairs[j].0),
    ensures
        spec_strip_meta(pairs) == Seq::<(Seq<char>, Val)>::empty(),
    decreases pairs.len(),
{
    reveal(Seq::filter);
    if pairs.len() > 0 {
        assert(spec_is_meta_key(pairs.last().0));
        lemma_strip_all_meta(pairs.drop_last());
    }
}

/// Fields none of which are metadata strip to themselves.
pub proof fn lemma_strip_no_meta(pairs: Seq<(Seq<char>, Val)>)
    requires
        forall|j: int| 0 <= j < pairs.len() ==> !spec_is_meta_key(#[trigger] pairs[j].0),
    ensures
        spec_strip_meta(pairs) == pairs,
    decreases pairs.len(),
{
    reveal(Seq::filter);
    if pairs.len() > 0 {
        assert(!spec_is_meta_key(pairs.last().0));
        lemma_strip_no_meta(pairs.drop_last());
        assert(spec_strip_meta(pairs) =~= pairs.drop_last().push(pairs.last()));
        assert(pairs.drop_last().push(pairs.last()) =~= pairs);
    }
}

} // verus!
