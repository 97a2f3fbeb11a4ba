//! The wire value model: a JSON-shaped value type, its ghost form, and the
//! generic machinery every record codec shares — a tolerant fold over the
//! entries of a wire object.

use vstd::prelude::*;

verus! {

broadcast use vstd::std_specs::vec::group_vec_axioms;

/// Ghost form of a wire value. Strings appear as character sequences and an
/// object is the sequence of its entries in wire order; a repeated key is
/// kept, and decoding lets the last occurrence win.
pub ghost enum JsonV {
    Null,
    Bool(bool),
    Num(Seq<char>),
    Str(Seq<char>),
    Arr(Seq<JsonV>),
    Obj(Seq<(Seq<char>, JsonV)>),
}

/// A JSON-shaped wire value. An object keeps its entries in wire order.
#[derive(Debug, PartialEq, Eq)]
pub enum JsonValue {
    Null,
    Bool(bool),
    /// A JSON number, kept as its lexical wire text: no field of this
    /// library reads one, but unknown fields may carry them.
    Number(String),
    String(String),
    Array(Vec<JsonValue>),
    Object(Vec<(String, JsonValue)>),
}

/// The ghost form of a wire value.
pub open spec fn json_view(v: JsonValue) -> JsonV
    decreases v,
{
    match v {
        JsonValue::Null => JsonV::Null,
        JsonValue::Bool(b) => JsonV::Bool(b),
        JsonValue::Number(n) => JsonV::Num(n@),
        JsonValue::String(s) => JsonV::Str(s@),
        JsonValue::Array(vs) => JsonV::Arr(arr_view(vs)),
        JsonValue::Object(es) => JsonV::Obj(obj_view(es)),
    }
}

/// The ghost elements of a wire array, in order.
pub open spec fn arr_view(vs: Vec<JsonValue>) -> Seq<JsonV>
    decreases vs,
{
    Seq::new(
        vs.len() as nat,
        |i: int|
            if 0 <= i < vs.len() {
                json_view(vs[i])
            } else {
                JsonV::Null
            },
    )
}

/// The ghost entries of a wire object, in wire order.
pub open spec fn obj_view(es: Vec<(String, JsonValue)>) -> Seq<EntryV>
    decreases es,
{
    Seq::new(
        es.len() as nat,
        |i: int|
            if 0 <= i < es.len() {
                (es[i].0@, json_view(es[i].1))
            } else {
                (Seq::<char>::empty(), JsonV::Null)
            },
    )
}

impl View for JsonValue {
    type V = JsonV;

    open spec fn view(&self) -> JsonV {
        json_view(*self)
    }
}

/// One entry of a wire object in ghost form.
pub type EntryV = (Seq<char>, JsonV);

/// Why decoding a wire value failed.
#[derive(Debug, Clone, PartialEq, Eq)]
pub enum DecodeError {
    /// A required field's key was absent from the wire object.
    MissingField(String),
    /// A value did not have the JSON shape its field requires.
    TypeMismatch(String),
}

/// Ghost form of a decode failure.
pub ghost enum DecodeErrorV {
    MissingField(Seq<char>),
    TypeMismatch(Seq<char>),
}

impl View for DecodeError {
    type V = DecodeErrorV;

    open spec fn view(&self) -> DecodeErrorV {
        match self {
            DecodeError::MissingField(s) => DecodeErrorV::MissingField(s@),
            DecodeError::TypeMismatch(s) => DecodeErrorV::TypeMismatch(s@),
        }
    }
}

/// The ghost form of a decode result.
pub open spec fn res_view<T: View>(r: Result<T, DecodeError>) -> Result<T::V, DecodeErrorV> {
    match r {
        Ok(v) => Ok(v@),
        Err(e) => Err(e@),
    }
}

/// Folds a per-field dispatch step over the entries of a wire object, in wire
/// order. Unknown keys leave the state unchanged inside `step`; a malformed
/// value for a known key stops the fold with its error.
pub open spec fn fold_entries<St>(
    step: spec_fn(St, EntryV) -> Result<St, DecodeErrorV>,
    st: St,
    entries: Seq<EntryV>,
) -> Result<St, DecodeErrorV>
    decreases entries.len(),
{
    if entries.len() == 0 {
        Ok(st)
    } else {
        match step(st, entries.first()) {
            Ok(st2) => fold_entries(step, st2, entries.drop_first()),
            Err(e) => Err(e),
        }
    }
}

/// Folding one more entry applies the step to the fold of the rest.
pub proof fn lemma_fold_entries_push<St>(
    step: spec_fn(St, EntryV) -> Result<St, DecodeErrorV>,
    st: St,
    entries: Seq<EntryV>,
    e: EntryV,
)
    ensures
        fold_entries(step, st, entries.push(e)) == (match fold_entries(step, st, entries) {
            Ok(st2) => step(st2, e),
            Err(er) => Err(er),
        }),
    decreases entries.len(),
{
    if entries.len() == 0 {
        assert(entries.push(e).first() == e);
        assert(entries.push(e).drop_first() =~= Seq::<EntryV>::empty());
        match step(st, e) {
            Ok(st2) => {
                assert(fold_entries(step, st2, entries.push(e).drop_first()) == Ok::<
                    St,
                    DecodeErrorV,
                >(st2));
            },
            Err(_) => {},
        }
    } else {
        assert(entries.push(e).first() == entries.first());
        assert(entries.push(e).drop_first() =~= entries.drop_first().push(e));
        match step(st, entries.first()) {
            Ok(st2) => {
                lemma_fold_entries_push(step, st2, entries.drop_first(), e);
            },
            Err(_) => {},
        }
    }
}

/// Decodes the elements of a wire array in order, stopping at the first
/// element that fails.
pub open spec fn decode_seq<T>(
    f: spec_fn(JsonV) -> Result<T, DecodeErrorV>,
    elems: Seq<JsonV>,
) -> Result<Seq<T>, DecodeErrorV>
    decreases elems.len(),
{
    if elems.len() == 0 {
        Ok(Seq::empty())
    } else {
        match decode_seq(f, elems.drop_last()) {
            Ok(ts) => match f(elems.last()) {
                Ok(t) => Ok(ts.push(t)),
                Err(e) => Err(e),
            },
            Err(e) => Err(e),
        }
    }
}

/// When every element decodes to its expected value, the array does too.
pub proof fn lemma_decode_seq_all_ok<T>(
    f: spec_fn(JsonV) -> Result<T, DecodeErrorV>,
    elems: Seq<JsonV>,
    expected: Seq<T>,
)
    requires
        elems.len() == expected.len(),
        forall|j: int| 0 <= j < elems.len() ==> f(#[trigger] elems[j]) == Ok::<T, DecodeErrorV>(
            expected[j],
        ),
    ensures
        decode_seq(f, elems) == Ok::<Seq<T>, DecodeErrorV>(expected),
    decreases elems.len(),
{
    if elems.len() == 0 {
        assert(expected =~= Seq::<T>::empty());
    } else {
        lemma_decode_seq_all_ok(f, elems.drop_last(), expected.drop_last());
        assert(expected.drop_last().push(expected.last()) =~= expected);
    }
}

/// An array whose prefix decodes but whose next element fails decodes to
/// that element's error.
pub proof fn lemma_decode_seq_error_at<T>(
    f: spec_fn(JsonV) -> Result<T, DecodeErrorV>,
    elems: Seq<JsonV>,
    i: int,
    e: DecodeErrorV,
)
    requires
        0 <= i < elems.len(),
        decode_seq(f, elems.take(i)) is Ok,
        f(elems[i]) == Err::<T, DecodeErrorV>(e),
    ensures
        decode_seq(f, elems) == Err::<Seq<T>, DecodeErrorV>(e),
    decreases elems.len(),
{
    if i == elems.len() - 1 {
        assert(elems.drop_last() =~= elems.take(i));
        assert(elems.last() == elems[i]);
    } else {
        assert(elems.drop_last().take(i) =~= elems.take(i));
        assert(elems.drop_last()[i] == elems[i]);
        lemma_decode_seq_error_at(f, elems.drop_last(), i, e);
    }
}

/// A wire value's ghost form has the same shape as the value: each
/// variant maps to its ghost counterpart and no other.
pub proof fn lemma_view_shape(x: JsonValue)
    ensures
        json_view(x) is Str <==> x is String,
        json_view(x) is Obj <==> x is Object,
        json_view(x) is Arr <==> x is Array,
        json_view(x) is Null <==> x is Null,
        json_view(x) is Bool <==> x is Bool,
        json_view(x) is Num <==> x is Number,
{
    match x {
        JsonValue::Null => {},
        JsonValue::Bool(_) => {},
        JsonValue::Number(_) => {},
        JsonValue::String(_) => {},
        JsonValue::Array(_) => {},
        JsonValue::Object(_) => {},
    }
}

/// A fold that has reached some state and then meets a malformed entry
/// stops with that entry's error.
pub proof fn lemma_fold_entries_error_at<St>(
    step: spec_fn(St, EntryV) -> Result<St, DecodeErrorV>,
    st0: St,
    entries: Seq<EntryV>,
    i: int,
    st: St,
    e: DecodeErrorV,
)
    requires
        0 <= i < entries.len(),
        fold_entries(step, st0, entries.take(i)) == Ok::<St, DecodeErrorV>(st),
        step(st, entries[i]) == Err::<St, DecodeErrorV>(e),
    ensures
        fold_entries(step, st0, entries) == Err::<St, DecodeErrorV>(e),
    decreases entries.len(),
{
    if i == 0 {
        assert(entries.take(0) =~= Seq::<EntryV>::empty());
        assert(st == st0);
        assert(entries.first() == entries[0]);
    } else {
        assert(entries.take(i).first() == entries.first());
        assert(entries.take(i).len() > 0);
        match step(st0, entries.first()) {
            Ok(st1) => {
                assert(entries.take(i).drop_first() =~= entries.drop_first().take(i - 1));
                assert(fold_entries(step, st1, entries.drop_first().take(i - 1)) == Ok::<
                    St,
                    DecodeErrorV,
                >(st));
                assert(entries.drop_first()[i - 1] == entries[i]);
                lemma_fold_entries_error_at(step, st1, entries.drop_first(), i - 1, st, e);
            },
            Err(_) => {
                assert(false);
            },
        }
    }
}

/// A fold over a single entry is that entry's step.
pub proof fn lemma_fold_entries_single<St>(
    step: spec_fn(St, EntryV) -> Result<St, DecodeErrorV>,
    st: St,
    e: EntryV,
)
    ensures
        fold_entries(step, st, seq![e]) == step(st, e),
{
    assert(seq![e].first() == e);
    assert(seq![e].drop_first() =~= Seq::<EntryV>::empty());
    match step(st, e) {
        Ok(st2) => {
            assert(fold_entries(step, st2, seq![e].drop_first()) == Ok::<St, DecodeErrorV>(st2));
        },
        Err(_) => {},
    }
}

/// Folding a concatenation folds the first part, then the second.
pub proof fn lemma_fold_entries_append<St>(
    step: spec_fn(St, EntryV) -> Result<St, DecodeErrorV>,
    st: St,
    a: Seq<EntryV>,
    b: Seq<EntryV>,
)
    ensures
        fold_entries(step, st, a + b) == (match fold_entries(step, st, a) {
            Ok(st2) => fold_entries(step, st2, b),
            Err(e) => Err(e),
        }),
    decreases a.len(),
{
    if a.len() == 0 {
        assert(a + b =~= b);
    } else {
        assert((a + b).len() > 0);
        assert((a + b).first() == a.first());
        assert((a + b).drop_first() =~= a.drop_first() + b);
        match step(st, a.first()) {
            Ok(st2) => {
                lemma_fold_entries_append(step, st2, a.drop_first(), b);
            },
            Err(_) => {},
        }
    }
}

/// An entry that every state ignores can be inserted anywhere in a wire
/// object without changing what the fold yields: the tolerance behind
/// "unknown fields are not an error".
pub proof fn lemma_fold_entries_insert_ignored<St>(
    step: spec_fn(St, EntryV) -> Result<St, DecodeErrorV>,
    st: St,
    entries: Seq<EntryV>,
    i: int,
    e: EntryV,
)
    requires
        0 <= i <= entries.len(),
        forall|st2: St| step(st2, e) == Ok::<St, DecodeErrorV>(st2),
    ensures
        fold_entries(step, st, entries.insert(i, e)) == fold_entries(step, st, entries),
    decreases entries.len(),
{
    if i == 0 {
        assert(entries.insert(0, e).first() == e);
        assert(entries.insert(0, e).drop_first() =~= entries);
    } else {
        assert(entries.insert(i, e).first() == entries.first());
        assert(entries.insert(i, e).drop_first() =~= entries.drop_first().insert(i - 1, e));
        match step(st, entries.first()) {
            Ok(st2) => {
                lemma_fold_entries_insert_ignored(step, st2, entries.drop_first(), i - 1, e);
            },
            Err(_) => {},
        }
    }
}

/// A fold whose entries all step forward, and which meets at some point an
/// entry that establishes a state property later entries preserve, ends in
/// a state with the property: how a present required key leaves its mark.
pub proof fn lemma_fold_entries_establishes<St>(
    step: spec_fn(St, EntryV) -> Result<St, DecodeErrorV>,
    st: St,
    entries: Seq<EntryV>,
    w: int,
    q: spec_fn(St) -> bool,
)
    requires
        0 <= w < entries.len(),
        forall|st2: St, j: int|
            0 <= j < entries.len() ==> (#[trigger] step(st2, entries[j])) is Ok,
        forall|st2: St| q((#[trigger] step(st2, entries[w]))->Ok_0),
        forall|st2: St, j: int|
            w < j < entries.len() && q(st2) ==> q((#[trigger] step(st2, entries[j]))->Ok_0),
    ensures
        fold_entries(step, st, entries) is Ok,
        q(fold_entries(step, st, entries)->Ok_0),
    decreases entries.len(),
{
    assert(step(st, entries[0]) is Ok);
    let st1 = step(st, entries.first())->Ok_0;
    assert(forall|st2: St, j: int|
        0 <= j < entries.drop_first().len() ==> (#[trigger] step(
            st2,
            entries.drop_first()[j],
        )) is Ok) by {
        assert(forall|j: int|
            0 <= j < entries.drop_first().len() ==> entries.drop_first()[j] == entries[j + 1]);
    }
    if w == 0 {
        assert(q(st1));
        let p = q;
        lemma_fold_entries_preserves(step, st1, entries.drop_first(), p);
    } else {
        assert(entries.drop_first()[w - 1] == entries[w]);
        assert(forall|st2: St, j: int|
            w - 1 < j < entries.drop_first().len() && q(st2) ==> q((#[trigger] step(
                st2,
                entries.drop_first()[j],
            ))->Ok_0)) by {
            assert(forall|j: int|
                0 <= j < entries.drop_first().len() ==> entries.drop_first()[j] == entries[j + 1]);
        }
        lemma_fold_entries_establishes(step, st1, entries.drop_first(), w - 1, q);
    }
}

/// If every entry moves the fold forward while preserving a state property,
/// the fold succeeds and its result has the property.
pub proof fn lemma_fold_entries_preserves<St>(
    step: spec_fn(St, EntryV) -> Result<St, DecodeErrorV>,
    st: St,
    entries: Seq<EntryV>,
    p: spec_fn(St) -> bool,
)
    requires
        p(st),
        forall|st2: St, j: int|
            0 <= j < entries.len() && p(st2) ==> (#[trigger] step(st2, entries[j])) is Ok && p(
                step(st2, entries[j])->Ok_0,
            ),
    ensures
        fold_entries(step, st, entries) is Ok,
        p(fold_entries(step, st, entries)->Ok_0),
    decreases entries.len(),
{
    if entries.len() > 0 {
        assert(step(st, entries[0]) is Ok);
        let st2 = step(st, entries[0])->Ok_0;
        assert(forall|st3: St, j: int|
            0 <= j < entries.drop_first().len() && p(st3) ==> (#[trigger] step(
                st3,
                entries.drop_first()[j],
            )) is Ok && p(step(st3, entries.drop_first()[j])->Ok_0)) by {
            assert(forall|j: int|
                0 <= j < entries.drop_first().len() ==> entries.drop_first()[j] == entries[j + 1]);
        }
        lemma_fold_entries_preserves(step, st2, entries.drop_first(), p);
    }
}

} // verus!
