//! The JSON-serializable representation of an error: its category, wire
//! name, instance identifier, and stringified parameters ordered
//! lexicographically by key.

use vstd::prelude::*;
use vstd::string::*;

use crate::error_code::ErrorCode;
use crate::json::{
    fold_entries, lemma_fold_entries_append, lemma_fold_entries_error_at,
    lemma_fold_entries_insert_ignored, lemma_fold_entries_push, lemma_fold_entries_single,
    lemma_view_shape, obj_view, res_view, DecodeError, DecodeErrorV, EntryV, JsonV, JsonValue,
};
use crate::text::{
    lemma_seq_char_lt_trans, lemma_seq_char_lt_trichotomy, seq_char_lt, str_eq, str_lt,
};
use crate::uuid::{uuid_chars, Uuid};

verus! {

broadcast use vstd::string::group_string_axioms;

/// The ghost form of a parameter map: its entries in key order.
pub type ParamsV = Seq<(Seq<char>, Seq<char>)>;

/// The ghost form of a parameter list.
pub open spec fn params_view(s: Seq<(String, String)>) -> ParamsV {
    Seq::new(s.len(), |i: int| (s[i].0@, s[i].1@))
}

/// The entries are strictly sorted by key: each key occurs once and the
/// order is lexicographic.
pub open spec fn params_wf(s: ParamsV) -> bool {
    forall|i: int, j: int|
        0 <= i < j < s.len() ==> seq_char_lt((#[trigger] s[i]).0, (#[trigger] s[j]).0)
}

/// Inserting into a sorted map: the new entry lands at its key's place,
/// replacing an equal key — the map form of last-write-wins.
pub open spec fn spec_insert(s: ParamsV, k: Seq<char>, val: Seq<char>) -> ParamsV
    decreases s.len(),
{
    if s.len() == 0 {
        seq![(k, val)]
    } else if seq_char_lt(k, s[0].0) {
        seq![(k, val)] + s
    } else if k == s[0].0 {
        seq![(k, val)] + s.drop_first()
    } else {
        seq![s[0]] + spec_insert(s.drop_first(), k, val)
    }
}

/// Insertion keeps the map sorted, and every key of the result is the new
/// key or one that was already present.
pub proof fn lemma_spec_insert_wf(s: ParamsV, k: Seq<char>, val: Seq<char>)
    requires
        params_wf(s),
    ensures
        params_wf(spec_insert(s, k, val)),
        forall|j: int|
            0 <= j < spec_insert(s, k, val).len() ==> ((#[trigger] spec_insert(s, k, val)[j]).0 == k
                || exists|i: int| 0 <= i < s.len() && (#[trigger] s[i]).0 == spec_insert(
                s,
                k,
                val,
            )[j].0),
    decreases s.len(),
{
    let r = spec_insert(s, k, val);
    if s.len() == 0 {
    } else if seq_char_lt(k, s[0].0) {
        assert forall|i: int, j: int| 0 <= i < j < r.len() implies seq_char_lt(
            (#[trigger] r[i]).0,
            (#[trigger] r[j]).0,
        ) by {
            if i == 0 && j > 1 {
                lemma_seq_char_lt_trans(k, s[0].0, s[j - 1].0);
            }
        }
    } else if k == s[0].0 {
        assert forall|i: int, j: int| 0 <= i < j < r.len() implies seq_char_lt(
            (#[trigger] r[i]).0,
            (#[trigger] r[j]).0,
        ) by {
            if i == 0 {
                assert(r[j].0 == s[j].0);
            }
        }
    } else {
        lemma_seq_char_lt_trichotomy(k, s[0].0);
        assert(seq_char_lt(s[0].0, k));
        assert(params_wf(s.drop_first()));
        lemma_spec_insert_wf(s.drop_first(), k, val);
        let rr = spec_insert(s.drop_first(), k, val);
        assert forall|i: int, j: int| 0 <= i < j < r.len() implies seq_char_lt(
            (#[trigger] r[i]).0,
            (#[trigger] r[j]).0,
        ) by {
            if i == 0 {
                assert(r[j].0 == rr[j - 1].0);
                if rr[j - 1].0 == k {
                } else {
                    let ghost w = choose|w: int|
                        0 <= w < s.drop_first().len() && (#[trigger] s.drop_first()[w]).0 == rr[j
                            - 1].0;
                    assert(s.drop_first()[w].0 == s[w + 1].0);
                }
            }
        }
    }
}

/// Inserting a key above every present key appends the entry at the end.
pub proof fn lemma_spec_insert_append(s: ParamsV, k: Seq<char>, val: Seq<char>)
    requires
        forall|i: int| 0 <= i < s.len() ==> seq_char_lt((#[trigger] s[i]).0, k),
    ensures
        spec_insert(s, k, val) == s.push((k, val)),
    decreases s.len(),
{
    if s.len() == 0 {
        assert(spec_insert(s, k, val) =~= s.push((k, val)));
    } else {
        lemma_seq_char_lt_trichotomy(k, s[0].0);
        assert(seq_char_lt(s[0].0, k));
        lemma_spec_insert_append(s.drop_first(), k, val);
        assert(spec_insert(s, k, val) =~= s.push((k, val)));
    }
}

/// Inserting a whole entry list into a sorted map, in list order: the
/// fold every bulk parameter setter performs, a later duplicate key
/// winning over an earlier one.
pub open spec fn spec_insert_all(base: ParamsV, ps: ParamsV) -> ParamsV
    decreases ps.len(),
{
    if ps.len() == 0 {
        base
    } else {
        spec_insert(spec_insert_all(base, ps.drop_last()), ps.last().0, ps.last().1)
    }
}

/// Where the new entry lands, given the first position whose key does not
/// come before it: everything below is kept, an equal key is replaced.
proof fn lemma_spec_insert_shape(s: ParamsV, k: Seq<char>, val: Seq<char>, idx: int)
    requires
        params_wf(s),
        0 <= idx <= s.len(),
        forall|j: int| 0 <= j < idx ==> seq_char_lt((#[trigger] s[j]).0, k),
        idx < s.len() ==> !seq_char_lt(s[idx].0, k),
    ensures
        spec_insert(s, k, val) == s.take(idx) + seq![(k, val)] + (if idx < s.len() && s[idx].0
            == k {
            s.skip(idx + 1)
        } else {
            s.skip(idx)
        }),
    decreases idx,
{
    if idx == 0 {
        if s.len() == 0 {
            assert(spec_insert(s, k, val) =~= s.take(0) + seq![(k, val)] + s.skip(0));
        } else {
            lemma_seq_char_lt_trichotomy(k, s[0].0);
            if s[0].0 == k {
                assert(s.drop_first() =~= s.skip(1));
                assert(spec_insert(s, k, val) =~= s.take(0) + seq![(k, val)] + s.skip(1));
            } else {
                assert(seq_char_lt(k, s[0].0));
                assert(spec_insert(s, k, val) =~= s.take(0) + seq![(k, val)] + s.skip(0));
            }
        }
    } else {
        assert(seq_char_lt(s[0].0, k));
        lemma_seq_char_lt_trichotomy(k, s[0].0);
        assert(params_wf(s.drop_first()));
        assert(forall|j: int|
            0 <= j < idx - 1 ==> seq_char_lt((#[trigger] s.drop_first()[j]).0, k));
        lemma_spec_insert_shape(s.drop_first(), k, val, idx - 1);
        assert(s.take(idx) =~= seq![s[0]] + s.drop_first().take(idx - 1));
        if idx < s.len() && s[idx].0 == k {
            assert(s.skip(idx + 1) =~= s.drop_first().skip(idx));
            assert(spec_insert(s, k, val) =~= s.take(idx) + seq![(k, val)] + s.skip(idx + 1));
        } else {
            assert(s.skip(idx) =~= s.drop_first().skip(idx - 1));
            assert(spec_insert(s, k, val) =~= s.take(idx) + seq![(k, val)] + s.skip(idx));
        }
    }
}

/// Parameters providing more information about an error, ordered
/// lexicographically by key; each key occurs once.
#[derive(Debug, Clone, PartialEq, Eq, PartialOrd, Ord, Hash)]
pub struct Params {
    /// The entries, strictly sorted by key.
    pub entries: Vec<(String, String)>,
}

impl View for Params {
    type V = ParamsV;

    open spec fn view(&self) -> ParamsV {
        params_view(self.entries@)
    }
}

impl Params {
    /// The entries are strictly sorted by key.
    pub open spec fn wf(&self) -> bool {
        params_wf(self@)
    }

    /// An empty parameter map.
    pub fn new() -> (r: Params)
        ensures
            r@ == ParamsV::empty(),
            r.wf(),
    {
        let r = Params { entries: Vec::new() };
        proof {
            assert(r@ =~= ParamsV::empty());
        }
        r
    }

    /// How many parameters are present.
    pub fn len(&self) -> (r: usize)
        ensures
            r == self@.len(),
    {
        self.entries.len()
    }

    /// The entries, strictly sorted by key.
    pub fn entries(&self) -> (r: &Vec<(String, String)>)
        ensures
            params_view(r@) == self@,
    {
        &self.entries
    }

    /// Inserts a parameter at its key's place in the order; an equal key's
    /// earlier value is replaced.
    pub fn insert(&mut self, key: String, value: String)
        requires
            old(self).wf(),
        ensures
            final(self)@ == spec_insert(old(self)@, key@, value@),
            final(self).wf(),
    {
        let ghost sv = self@;
        let mut idx: usize = 0;
        while idx < self.entries.len() && str_lt(self.entries[idx].0.as_str(), key.as_str())
            invariant
                idx <= self.entries@.len(),
                self@ == sv,
                params_wf(sv),
                forall|j: int| 0 <= j < idx ==> seq_char_lt((#[trigger] sv[j]).0, key@),
            decreases self.entries@.len() - idx,
        {
            idx += 1;
        }
        let replace = idx < self.entries.len() && str_eq(self.entries[idx].0.as_str(), key.as_str());
        proof {
            lemma_spec_insert_shape(sv, key@, value@, idx as int);
        }
        let mut out: Vec<(String, String)> = Vec::new();
        let mut i: usize = 0;
        while i < idx
            invariant
                idx <= self.entries@.len(),
                i <= idx,
                self@ == sv,
                out@.len() == i,
                forall|j: int|
                    0 <= j < i ==> ((#[trigger] out@[j]).0@, out@[j].1@) == (sv[j].0, sv[j].1),
            decreases idx - i,
        {
            out.push((self.entries[i].0.clone(), self.entries[i].1.clone()));
            i += 1;
        }
        out.push((key, value));
        let mut j: usize = if replace {
            idx + 1
        } else {
            idx
        };
        let ghost start = j;
        while j < self.entries.len()
            invariant
                start <= j,
                j <= self.entries@.len(),
                self@ == sv,
                idx <= self.entries@.len(),
                out@.len() == idx + 1 + j - start,
                forall|w: int|
                    0 <= w < idx ==> ((#[trigger] out@[w]).0@, out@[w].1@) == (sv[w].0, sv[w].1),
                (out@[idx as int].0@, out@[idx as int].1@) == (key@, value@),
                forall|w: int|
                    idx + 1 <= w < out@.len() ==> ((#[trigger] out@[w]).0@, out@[w].1@) == sv[w
                        - idx - 1 + start],
            decreases self.entries@.len() - j,
        {
            out.push((self.entries[j].0.clone(), self.entries[j].1.clone()));
            j += 1;
        }
        self.entries = out;
        proof {
            let expected = sv.take(idx as int) + seq![(key@, value@)] + (if replace {
                sv.skip(idx + 1)
            } else {
                sv.skip(idx as int)
            });
            assert(self@ =~= expected);
            lemma_spec_insert_wf(sv, key@, value@);
        }
    }

    /// The wire entries of the parameter map: each value as a JSON string,
    /// in key order.
    pub open spec fn spec_entries_json(p: ParamsV) -> Seq<EntryV> {
        p.map_values(|e: (Seq<char>, Seq<char>)| (e.0, JsonV::Str(e.1)))
    }

    /// How one wire entry advances a parameter map being decoded: any key
    /// is accepted, a later occurrence replacing an earlier one.
    pub open spec fn step(st: ParamsV, e: EntryV) -> Result<ParamsV, DecodeErrorV> {
        match e.1 {
            JsonV::Str(s) => Ok(spec_insert(st, e.0, s)),
            _ => Err(DecodeErrorV::TypeMismatch("parameters"@)),
        }
    }

    /// The entry dispatch as a function value, for the shared fold.
    pub open spec fn step_fn() -> spec_fn(ParamsV, EntryV) -> Result<ParamsV, DecodeErrorV> {
        |st: ParamsV, e: EntryV| Params::step(st, e)
    }

    /// What decoding a wire object into a parameter map yields.
    pub open spec fn spec_decode(entries: Seq<EntryV>) -> Result<ParamsV, DecodeErrorV> {
        fold_entries(Params::step_fn(), ParamsV::empty(), entries)
    }

    /// Encodes the map as a wire object, in key order.
    pub fn to_json(&self) -> (r: JsonValue)
        ensures
            r@ == JsonV::Obj(Params::spec_entries_json(self@)),
    {
        let mut es: Vec<(String, JsonValue)> = Vec::new();
        let mut i: usize = 0;
        while i < self.entries.len()
            invariant
                i <= self.entries@.len(),
                es@.len() == i,
                forall|j: int|
                    0 <= j < i ==> ((#[trigger] es@[j]).0@, es@[j].1@) == (
                        self@[j].0,
                        JsonV::Str(self@[j].1),
                    ),
            decreases self.entries@.len() - i,
        {
            es.push(
                (self.entries[i].0.clone(), JsonValue::String(self.entries[i].1.clone())),
            );
            i += 1;
        }
        proof {
            assert(obj_view(es) =~= Params::spec_entries_json(self@));
        }
        JsonValue::Object(es)
    }
}

/// Ghost form of a [`SerializableError`].
#[verifier::ext_equal]
pub ghost struct SerializableErrorV {
    pub error_code: ErrorCode,
    pub error_name: Seq<char>,
    pub error_instance_id: Seq<u8>,
    pub parameters: ParamsV,
}

/// The JSON-serializable representation of an error.
#[derive(Debug, Clone, PartialEq, Eq, PartialOrd, Ord, Hash)]
pub struct SerializableError {
    /// The broad category of the error; over HTTP it determines the
    /// response's status code.
    pub error_code: ErrorCode,
    /// The error's name: a namespace and a more specific name, separated
    /// by a colon.
    pub error_name: String,
    /// A unique identifier for this error instance, for correlating
    /// reports across a distributed system.
    pub error_instance_id: Uuid,
    /// Parameters providing more information about the error.
    pub parameters: Params,
}

impl View for SerializableError {
    type V = SerializableErrorV;

    open spec fn view(&self) -> SerializableErrorV {
        SerializableErrorV {
            error_code: self.error_code,
            error_name: self.error_name@,
            error_instance_id: self.error_instance_id@,
            parameters: self.parameters@,
        }
    }
}

/// Decode state for [`SerializableError`].
pub ghost struct SerializableErrorParse {
    pub error_code: Option<ErrorCode>,
    pub error_name: Option<Seq<char>>,
    pub error_instance_id: Option<Seq<u8>>,
    pub parameters: Option<ParamsV>,
}

impl SerializableErrorV {
    /// The parameter map is sorted and the identifier has its sixteen
    /// bytes.
    pub open spec fn wf(self) -> bool {
        params_wf(self.parameters) && self.error_instance_id.len() == 16
    }

    /// The wire object: the three required keys always; the parameters
    /// key only when the map is non-empty.
    pub open spec fn to_json(self) -> JsonV {
        JsonV::Obj(
            seq![
                ("errorCode"@, JsonV::Str(self.error_code.wire_name())),
                ("errorName"@, JsonV::Str(self.error_name)),
                ("errorInstanceId"@, JsonV::Str(uuid_chars(self.error_instance_id))),
            ] + (if self.parameters.len() == 0 {
                Seq::<EntryV>::empty()
            } else {
                seq![("parameters"@, JsonV::Obj(Params::spec_entries_json(self.parameters)))]
            }),
        )
    }

    /// How one wire entry advances the decode state.
    pub open spec fn step(st: SerializableErrorParse, e: EntryV) -> Result<
        SerializableErrorParse,
        DecodeErrorV,
    > {
        if e.0 == "errorCode"@ {
            match ErrorCode::spec_from_json(e.1) {
                Ok(c) => Ok(SerializableErrorParse { error_code: Some(c), ..st }),
                Err(er) => Err(er),
            }
        } else if e.0 == "errorName"@ {
            match e.1 {
                JsonV::Str(s) => Ok(SerializableErrorParse { error_name: Some(s), ..st }),
                _ => Err(DecodeErrorV::TypeMismatch("errorName"@)),
            }
        } else if e.0 == "errorInstanceId"@ {
            match crate::uuid::Uuid::spec_from_json(e.1) {
                Ok(b) => Ok(SerializableErrorParse { error_instance_id: Some(b), ..st }),
                Err(er) => Err(er),
            }
        } else if e.0 == "parameters"@ {
            match e.1 {
                JsonV::Obj(pentries) => match Params::spec_decode(pentries) {
                    Ok(p) => Ok(SerializableErrorParse { parameters: Some(p), ..st }),
                    Err(er) => Err(er),
                },
                _ => Err(DecodeErrorV::TypeMismatch("parameters"@)),
            }
        } else {
            Ok(st)
        }
    }

    /// The entry dispatch as a function value, for the shared fold.
    pub open spec fn step_fn() -> spec_fn(SerializableErrorParse, EntryV) -> Result<
        SerializableErrorParse,
        DecodeErrorV,
    > {
        |st: SerializableErrorParse, e: EntryV| SerializableErrorV::step(st, e)
    }

    /// The state before any entry has been read.
    pub open spec fn init() -> SerializableErrorParse {
        SerializableErrorParse {
            error_code: None,
            error_name: None,
            error_instance_id: None,
            parameters: None,
        }
    }

    /// What decoding a wire value yields: the code, name and identifier
    /// are required, in that order of failure; unseen parameters are
    /// empty.
    pub open spec fn from_json(v: JsonV) -> Result<SerializableErrorV, DecodeErrorV> {
        match v {
            JsonV::Obj(entries) => match fold_entries(
                SerializableErrorV::step_fn(),
                SerializableErrorV::init(),
                entries,
            ) {
                Ok(st) => match st.error_code {
                    Some(c) => match st.error_name {
                        Some(n) => match st.error_instance_id {
                            Some(id) => Ok(
                                SerializableErrorV {
                                    error_code: c,
                                    error_name: n,
                                    error_instance_id: id,
                                    parameters: match st.parameters {
                                        Some(p) => p,
                                        None => Seq::empty(),
                                    },
                                },
                            ),
                            None => Err(DecodeErrorV::MissingField("errorInstanceId"@)),
                        },
                        None => Err(DecodeErrorV::MissingField("errorName"@)),
                    },
                    None => Err(DecodeErrorV::MissingField("errorCode"@)),
                },
                Err(e) => Err(e),
            },
            _ => Err(DecodeErrorV::TypeMismatch("SerializableError"@)),
        }
    }
}

impl SerializableError {
    /// Returns a new builder.
    pub fn builder() -> (r: Builder)
        ensures
            r.error_code is None,
            r.error_name is None,
            r.error_instance_id is None,
            r.parameters@ == ParamsV::empty(),
            r.parameters.wf(),
    {
        Builder {
            error_code: None,
            error_name: None,
            error_instance_id: None,
            parameters: Params::new(),
        }
    }

    /// The broad category of the error.
    pub fn error_code(&self) -> (r: &ErrorCode)
        ensures
            *r == self@.error_code,
    {
        &self.error_code
    }

    /// The error's name, `Namespace:Name`.
    pub fn error_name(&self) -> (r: &str)
        ensures
            r@ == self@.error_name,
    {
        self.error_name.as_str()
    }

    /// The error instance's unique identifier.
    pub fn error_instance_id(&self) -> (r: Uuid)
        ensures
            r@ == self@.error_instance_id,
    {
        self.error_instance_id
    }

    /// The error's parameters, ordered lexicographically by key.
    pub fn parameters(&self) -> (r: &Params)
        ensures
            r@ == self@.parameters,
    {
        &self.parameters
    }

    /// Encodes the value as its wire object: an empty parameter map leaves
    /// its key off.
    pub fn to_json(&self) -> (r: JsonValue)
        ensures
            r@ == self@.to_json(),
    {
        let mut es: Vec<(String, JsonValue)> = Vec::new();
        es.push((String::from_str("errorCode"), self.error_code.to_json()));
        es.push((String::from_str("errorName"), JsonValue::String(self.error_name.clone())));
        es.push((String::from_str("errorInstanceId"), self.error_instance_id.to_json()));
        if self.parameters.len() > 0 {
            es.push((String::from_str("parameters"), self.parameters.to_json()));
        }
        proof {
            assert(obj_view(es) =~= self@.to_json()->Obj_0);
        }
        JsonValue::Object(es)
    }

    /// Decodes a wire value, ignoring unknown keys.
    pub fn from_json(v: &JsonValue) -> (r: Result<SerializableError, DecodeError>)
        ensures
            res_view(r) == SerializableErrorV::from_json(v@),
            r is Ok ==> r->Ok_0.parameters.wf(),
    {
        let es: &Vec<(String, JsonValue)> = match v {
            JsonValue::Object(es) => es,
            _ => {
                return Err(DecodeError::TypeMismatch(String::from_str("SerializableError")));
            },
        };
        let ghost ev = obj_view(*es);
        let mut error_code: Option<ErrorCode> = None;
        let mut error_name: Option<String> = None;
        let mut error_instance_id: Option<Uuid> = None;
        let mut parameters: Option<Params> = None;
        let mut i: usize = 0;
        proof {
            assert(ev.take(0) =~= Seq::<EntryV>::empty());
        }
        while i < es.len()
            invariant
                i <= es.len(),
                ev == obj_view(*es),
                ev.len() == es.len(),
                v@ == JsonV::Obj(ev),
                match parameters {
                    Some(p) => p.wf(),
                    None => true,
                },
                fold_entries(
                    SerializableErrorV::step_fn(),
                    SerializableErrorV::init(),
                    ev.take(i as int),
                ) == Ok::<SerializableErrorParse, DecodeErrorV>(
                    SerializableErrorParse {
                        error_code: error_code,
                        error_name: match error_name {
                            Some(n) => Some(n@),
                            None => None,
                        },
                        error_instance_id: match error_instance_id {
                            Some(u) => Some(u@),
                            None => None,
                        },
                        parameters: match parameters {
                            Some(p) => Some(p@),
                            None => None,
                        },
                    },
                ),
            decreases es.len() - i,
        {
            let ghost pre = ev.take(i as int);
            let ghost st_pre = fold_entries(
                SerializableErrorV::step_fn(),
                SerializableErrorV::init(),
                pre,
            )->Ok_0;
            proof {
                lemma_fold_entries_push(
                    SerializableErrorV::step_fn(),
                    SerializableErrorV::init(),
                    pre,
                    ev[i as int],
                );
                assert(ev.take(i + 1) =~= pre.push(ev[i as int]));
            }
            let k: &String = &es[i].0;
            let val: &JsonValue = &es[i].1;
            if str_eq(k.as_str(), "errorCode") {
                match ErrorCode::from_json(val) {
                    Ok(c) => {
                        error_code = Some(c);
                    },
                    Err(e) => {
                        proof {
                            lemma_fold_entries_error_at(
                                SerializableErrorV::step_fn(),
                                SerializableErrorV::init(),
                                ev,
                                i as int,
                                st_pre,
                                e@,
                            );
                        }
                        return Err(e);
                    },
                }
            } else if str_eq(k.as_str(), "errorName") {
                match val {
                    JsonValue::String(s) => {
                        error_name = Some(s.clone());
                    },
                    _ => {
                        proof {
                            lemma_view_shape(es[i as int].1);
                            assert(SerializableErrorV::step(st_pre, ev[i as int]) == Err::<
                                SerializableErrorParse,
                                DecodeErrorV,
                            >(DecodeErrorV::TypeMismatch("errorName"@)));
                            lemma_fold_entries_error_at(
                                SerializableErrorV::step_fn(),
                                SerializableErrorV::init(),
                                ev,
                                i as int,
                                st_pre,
                                DecodeErrorV::TypeMismatch("errorName"@),
                            );
                        }
                        return Err(DecodeError::TypeMismatch(String::from_str("errorName")));
                    },
                }
            } else if str_eq(k.as_str(), "errorInstanceId") {
                match Uuid::from_json(val) {
                    Ok(u) => {
                        error_instance_id = Some(u);
                    },
                    Err(e) => {
                        proof {
                            lemma_fold_entries_error_at(
                                SerializableErrorV::step_fn(),
                                SerializableErrorV::init(),
                                ev,
                                i as int,
                                st_pre,
                                e@,
                            );
                        }
                        return Err(e);
                    },
                }
            } else if str_eq(k.as_str(), "parameters") {
                match val {
                    JsonValue::Object(pes) => {
                        let ghost pev = obj_view(*pes);
                        let mut acc = Params::new();
                        let mut j: usize = 0;
                        proof {
                            assert(pev.take(0) =~= Seq::<EntryV>::empty());
                        }
                        while j < pes.len()
                            invariant
                                j <= pes.len(),
                                pev == obj_view(*pes),
                                pev.len() == pes.len(),
                                acc.wf(),
                                fold_entries(Params::step_fn(), ParamsV::empty(), pev.take(j as int))
                                    == Ok::<ParamsV, DecodeErrorV>(acc@),
                                i < es.len(),
                                ev == obj_view(*es),
                                ev.len() == es.len(),
                                v@ == JsonV::Obj(ev),
                                ev[i as int].0 == "parameters"@,
                                ev[i as int].0 != "errorCode"@,
                                ev[i as int].0 != "errorName"@,
                                ev[i as int].0 != "errorInstanceId"@,
                                ev[i as int].1 == JsonV::Obj(pev),
                                fold_entries(
                                    SerializableErrorV::step_fn(),
                                    SerializableErrorV::init(),
                                    ev.take(i as int),
                                ) == Ok::<SerializableErrorParse, DecodeErrorV>(st_pre),
                            decreases pes.len() - j,
                        {
                            let ghost ppre = pev.take(j as int);
                            proof {
                                lemma_fold_entries_push(
                                    Params::step_fn(),
                                    ParamsV::empty(),
                                    ppre,
                                    pev[j as int],
                                );
                                assert(pev.take(j + 1) =~= ppre.push(pev[j as int]));
                            }
                            match &pes[j].1 {
                                JsonValue::String(s) => {
                                    acc.insert(pes[j].0.clone(), s.clone());
                                },
                                _ => {
                                    proof {
                                        lemma_view_shape(pes[j as int].1);
                                        lemma_fold_entries_error_at(
                                            Params::step_fn(),
                                            ParamsV::empty(),
                                            pev,
                                            j as int,
                                            acc@,
                                            DecodeErrorV::TypeMismatch("parameters"@),
                                        );
                                        assert(SerializableErrorV::step(st_pre, ev[i as int])
                                            == Err::<SerializableErrorParse, DecodeErrorV>(
                                            DecodeErrorV::TypeMismatch("parameters"@),
                                        ));
                                        lemma_fold_entries_error_at(
                                            SerializableErrorV::step_fn(),
                                            SerializableErrorV::init(),
                                            ev,
                                            i as int,
                                            st_pre,
                                            DecodeErrorV::TypeMismatch("parameters"@),
                                        );
                                    }
                                    return Err(
                                        DecodeError::TypeMismatch(String::from_str("parameters")),
                                    );
                                },
                            }
                            j += 1;
                        }
                        proof {
                            assert(pev.take(pes@.len() as int) =~= pev);
                        }
                        parameters = Some(acc);
                    },
                    _ => {
                        proof {
                            lemma_view_shape(es[i as int].1);
                            assert(!(ev[i as int].1 is Obj));
                            assert(SerializableErrorV::step(st_pre, ev[i as int]) == Err::<
                                SerializableErrorParse,
                                DecodeErrorV,
                            >(DecodeErrorV::TypeMismatch("parameters"@)));
                            lemma_fold_entries_error_at(
                                SerializableErrorV::step_fn(),
                                SerializableErrorV::init(),
                                ev,
                                i as int,
                                st_pre,
                                DecodeErrorV::TypeMismatch("parameters"@),
                            );
                        }
                        return Err(DecodeError::TypeMismatch(String::from_str("parameters")));
                    },
                }
            }
            i += 1;
        }
        proof {
            assert(ev.take(es.len() as int) =~= ev);
        }
        let error_code = match error_code {
            Some(c) => c,
            None => {
                return Err(DecodeError::MissingField(String::from_str("errorCode")));
            },
        };
        let error_name = match error_name {
            Some(n) => n,
            None => {
                return Err(DecodeError::MissingField(String::from_str("errorName")));
            },
        };
        let error_instance_id = match error_instance_id {
            Some(u) => u,
            None => {
                return Err(DecodeError::MissingField(String::from_str("errorInstanceId")));
            },
        };
        let r = SerializableError {
            error_code,
            error_name,
            error_instance_id,
            parameters: match parameters {
                Some(p) => p,
                None => Params::new(),
            },
        };
        proof {
            assert(res_view(Ok::<SerializableError, DecodeError>(r))
                == SerializableErrorV::from_json(v@)) by {
                assert(SerializableErrorV::from_json(v@)->Ok_0 =~= r@);
            }
        }
        Ok(r)
    }
}

/// A builder for the [`SerializableError`] type.
#[derive(Debug, Clone)]
pub struct Builder {
    /// The category, once set.
    pub error_code: Option<ErrorCode>,
    /// The error's name, once set.
    pub error_name: Option<String>,
    /// The instance identifier, once set.
    pub error_instance_id: Option<Uuid>,
    /// The parameters accumulated so far, in key order.
    pub parameters: Params,
}

impl Builder {
    /// Every required field has been set.
    pub open spec fn complete(&self) -> bool {
        self.error_code is Some && self.error_name is Some && self.error_instance_id is Some
    }

    /// Sets the category. Required.
    pub fn error_code(&mut self, error_code: ErrorCode) -> (r: &mut Builder)
        ensures
            *r == (Builder { error_code: Some(error_code), ..*old(self) }),
            *final(self) == *final(r),
    {
        self.error_code = Some(error_code);
        self
    }

    /// Sets the error's name. Required.
    pub fn error_name(&mut self, error_name: String) -> (r: &mut Builder)
        ensures
            *r == (Builder { error_name: Some(error_name), ..*old(self) }),
            *final(self) == *final(r),
    {
        self.error_name = Some(error_name);
        self
    }

    /// Sets the instance identifier. Required.
    pub fn error_instance_id(&mut self, error_instance_id: Uuid) -> (r: &mut Builder)
        ensures
            *r == (Builder { error_instance_id: Some(error_instance_id), ..*old(self) }),
            *final(self) == *final(r),
    {
        self.error_instance_id = Some(error_instance_id);
        self
    }

    /// Replaces the parameters with the given entries, inserted in order:
    /// a later duplicate key wins.
    pub fn parameters(&mut self, parameters: Vec<(String, String)>) -> (r: &mut Builder)
        ensures
            r.parameters@ == spec_insert_all(ParamsV::empty(), params_view(parameters@)),
            r.parameters.wf(),
            r.error_code == old(self).error_code,
            r.error_name == old(self).error_name,
            r.error_instance_id == old(self).error_instance_id,
            *final(self) == *final(r),
    {
        let ghost pv = params_view(parameters@);
        self.parameters = Params::new();
        let mut i: usize = 0;
        proof {
            assert(pv.take(0) =~= ParamsV::empty());
            assert(self.parameters@ == spec_insert_all(ParamsV::empty(), pv.take(0)));
        }
        while i < parameters.len()
            invariant
                i <= parameters@.len(),
                pv == params_view(parameters@),
                pv.len() == parameters@.len(),
                self.parameters.wf(),
                self.parameters@ == spec_insert_all(ParamsV::empty(), pv.take(i as int)),
                self.error_code == old(self).error_code,
                self.error_name == old(self).error_name,
                self.error_instance_id == old(self).error_instance_id,
            decreases parameters@.len() - i,
        {
            self.parameters.insert(parameters[i].0.clone(), parameters[i].1.clone());
            proof {
                assert(pv.take(i + 1).drop_last() =~= pv.take(i as int));
                assert(pv.take(i + 1).last() == pv[i as int]);
            }
            i += 1;
        }
        proof {
            assert(pv.take(parameters@.len() as int) =~= pv);
        }
        self
    }

    /// Inserts the given entries into the parameters, in order: a later
    /// duplicate key wins, over the old map and within the list alike.
    pub fn extend_parameters(&mut self, parameters: Vec<(String, String)>) -> (r: &mut Builder)
        requires
            old(self).parameters.wf(),
        ensures
            r.parameters@ == spec_insert_all(old(self).parameters@, params_view(parameters@)),
            r.parameters.wf(),
            r.error_code == old(self).error_code,
            r.error_name == old(self).error_name,
            r.error_instance_id == old(self).error_instance_id,
            *final(self) == *final(r),
    {
        let ghost pv = params_view(parameters@);
        let mut i: usize = 0;
        proof {
            assert(pv.take(0) =~= ParamsV::empty());
            assert(self.parameters@ == spec_insert_all(old(self).parameters@, pv.take(0)));
        }
        while i < parameters.len()
            invariant
                i <= parameters@.len(),
                pv == params_view(parameters@),
                pv.len() == parameters@.len(),
                self.parameters.wf(),
                self.parameters@ == spec_insert_all(old(self).parameters@, pv.take(i as int)),
                self.error_code == old(self).error_code,
                self.error_name == old(self).error_name,
                self.error_instance_id == old(self).error_instance_id,
            decreases parameters@.len() - i,
        {
            self.parameters.insert(parameters[i].0.clone(), parameters[i].1.clone());
            proof {
                assert(pv.take(i + 1).drop_last() =~= pv.take(i as int));
                assert(pv.take(i + 1).last() == pv[i as int]);
            }
            i += 1;
        }
        proof {
            assert(pv.take(parameters@.len() as int) =~= pv);
        }
        self
    }

    /// Inserts one parameter at its key's place.
    pub fn insert_parameters(&mut self, key: String, value: String) -> (r: &mut Builder)
        requires
            old(self).parameters.wf(),
        ensures
            r.parameters@ == spec_insert(old(self).parameters@, key@, value@),
            r.parameters.wf(),
            r.error_code == old(self).error_code,
            r.error_name == old(self).error_name,
            r.error_instance_id == old(self).error_instance_id,
            *final(self) == *final(r),
    {
        self.parameters.insert(key, value);
        self
    }

    /// Constructs a new instance of the type. Every required field must
    /// have been set. The builder stays usable: repeated builds give equal
    /// values.
    pub fn build(&self) -> (r: SerializableError)
        requires
            self.complete(),
        ensures
            r@ == (SerializableErrorV {
                error_code: self.error_code->Some_0,
                error_name: (self.error_name->Some_0)@,
                error_instance_id: (self.error_instance_id->Some_0)@,
                parameters: self.parameters@,
            }),
    {
        let error_code = match &self.error_code {
            Some(c) => *c,
            None => {
                proof {
                    assert(false);
                }
                ErrorCode::Internal
            },
        };
        let error_name = match &self.error_name {
            Some(n) => n.clone(),
            None => {
                proof {
                    assert(false);
                }
                String::new()
            },
        };
        let error_instance_id = match &self.error_instance_id {
            Some(u) => *u,
            None => {
                proof {
                    assert(false);
                }
                Uuid { bytes: [0;16] }
            },
        };
        let mut parameters = Params { entries: Vec::new() };
        let mut i: usize = 0;
        while i < self.parameters.entries.len()
            invariant
                i <= self.parameters.entries@.len(),
                parameters.entries@.len() == i,
                forall|j: int|
                    0 <= j < i ==> ((#[trigger] parameters.entries@[j]).0@,
                    parameters.entries@[j].1@) == self.parameters@[j],
            decreases self.parameters.entries@.len() - i,
        {
            parameters.entries.push(
                (self.parameters.entries[i].0.clone(), self.parameters.entries[i].1.clone()),
            );
            i += 1;
        }
        proof {
            assert(parameters@ =~= self.parameters@);
        }
        SerializableError { error_code, error_name, error_instance_id, parameters }
    }
}

impl Default for Builder {
    /// An empty builder: no field set yet, no parameters.
    fn default() -> (r: Builder)
        ensures
            r.error_code is None,
            r.error_name is None,
            r.error_instance_id is None,
            r.parameters@ == ParamsV::empty(),
            r.parameters.wf(),
    {
        Builder {
            error_code: None,
            error_name: None,
            error_instance_id: None,
            parameters: Params::new(),
        }
    }
}

impl From<SerializableError> for Builder {
    /// A builder pre-populated with the value's fields, for copy-and-modify.
    fn from(v: SerializableError) -> (r: Builder) {
        Builder {
            error_code: Some(v.error_code),
            error_name: Some(v.error_name),
            error_instance_id: Some(v.error_instance_id),
            parameters: v.parameters,
        }
    }
}

impl vstd::std_specs::convert::FromSpecImpl<SerializableError> for Builder {
    open spec fn obeys_from_spec() -> bool {
        true
    }

    open spec fn from_spec(v: SerializableError) -> Builder {
        Builder {
            error_code: Some(v.error_code),
            error_name: Some(v.error_name),
            error_instance_id: Some(v.error_instance_id),
            parameters: v.parameters,
        }
    }
}

/// Decoding the wire object an encode produced gives back the value, for
/// well-formed envelopes: the round trip holds for the error envelope too.
pub proof fn lemma_serializable_error_round_trip(v: SerializableErrorV)
    requires
        v.wf(),
    ensures
        SerializableErrorV::from_json(v.to_json()) == Ok::<SerializableErrorV, DecodeErrorV>(v),
{
    reveal_strlit("errorCode");
    reveal_strlit("errorName");
    reveal_strlit("errorInstanceId");
    reveal_strlit("parameters");
    assert("errorCode"@.len() == 9);
    assert("errorName"@.len() == 9);
    assert("errorInstanceId"@.len() == 15);
    assert("parameters"@.len() == 10);
    assert("errorCode"@[5] == 'C' && "errorName"@[5] == 'N');
    let f = SerializableErrorV::step_fn();
    let init = SerializableErrorV::init();
    let e_code: EntryV = ("errorCode"@, JsonV::Str(v.error_code.wire_name()));
    let e_name: EntryV = ("errorName"@, JsonV::Str(v.error_name));
    let e_id: EntryV = ("errorInstanceId"@, JsonV::Str(uuid_chars(v.error_instance_id)));
    let a4: Seq<EntryV> = if v.parameters.len() == 0 {
        Seq::<EntryV>::empty()
    } else {
        seq![("parameters"@, JsonV::Obj(Params::spec_entries_json(v.parameters)))]
    };
    let s = v.to_json()->Obj_0;
    assert(s =~= seq![e_code] + (seq![e_name] + (seq![e_id] + a4)));
    crate::error_code::lemma_error_code_name_round_trip(v.error_code);
    let st1 = SerializableErrorParse { error_code: Some(v.error_code), ..init };
    assert(f(init, e_code) == Ok::<SerializableErrorParse, DecodeErrorV>(st1));
    lemma_fold_entries_single(f, init, e_code);
    lemma_fold_entries_append(f, init, seq![e_code], seq![e_name] + (seq![e_id] + a4));
    let st2 = SerializableErrorParse { error_name: Some(v.error_name), ..st1 };
    assert(f(st1, e_name) == Ok::<SerializableErrorParse, DecodeErrorV>(st2));
    lemma_fold_entries_single(f, st1, e_name);
    lemma_fold_entries_append(f, st1, seq![e_name], seq![e_id] + a4);
    crate::uuid::lemma_uuid_round_trip(v.error_instance_id);
    let st3 = SerializableErrorParse { error_instance_id: Some(v.error_instance_id), ..st2 };
    assert(f(st2, e_id) == Ok::<SerializableErrorParse, DecodeErrorV>(st3));
    lemma_fold_entries_single(f, st2, e_id);
    lemma_fold_entries_append(f, st2, seq![e_id], a4);
    let st4 = if v.parameters.len() == 0 {
        st3
    } else {
        SerializableErrorParse { parameters: Some(v.parameters), ..st3 }
    };
    if v.parameters.len() > 0 {
        lemma_params_round_trip(v.parameters);
        let e_params: EntryV = ("parameters"@, JsonV::Obj(Params::spec_entries_json(v.parameters)));
        assert(f(st3, e_params) == Ok::<SerializableErrorParse, DecodeErrorV>(st4));
        lemma_fold_entries_single(f, st3, e_params);
    } else {
        assert(fold_entries(f, st3, a4) == Ok::<SerializableErrorParse, DecodeErrorV>(st4));
    }
    assert(fold_entries(f, init, s) == Ok::<SerializableErrorParse, DecodeErrorV>(st4));
    if v.parameters.len() == 0 {
        assert(v.parameters =~= ParamsV::empty());
    }
    assert(SerializableErrorV::from_json(v.to_json())->Ok_0 =~= v);
}

/// An empty parameter map leaves its key off the wire entirely: only the
/// three required keys appear.
pub proof fn lemma_serializable_error_omits_empty_params(v: SerializableErrorV)
    requires
        v.parameters.len() == 0,
    ensures
        v.to_json()->Obj_0.len() == 3,
        v.to_json()->Obj_0[0].0 == "errorCode"@,
        v.to_json()->Obj_0[1].0 == "errorName"@,
        v.to_json()->Obj_0[2].0 == "errorInstanceId"@,
{
    assert(v.to_json()->Obj_0 =~= seq![
        ("errorCode"@, JsonV::Str(v.error_code.wire_name())),
        ("errorName"@, JsonV::Str(v.error_name)),
        ("errorInstanceId"@, JsonV::Str(uuid_chars(v.error_instance_id))),
    ]);
}

/// Decoding tolerates an unrecognized key anywhere in the wire object.
pub proof fn lemma_serializable_error_ignores_unknown(entries: Seq<EntryV>, i: int, e: EntryV)
    requires
        0 <= i <= entries.len(),
        e.0 != "errorCode"@,
        e.0 != "errorName"@,
        e.0 != "errorInstanceId"@,
        e.0 != "parameters"@,
    ensures
        SerializableErrorV::from_json(JsonV::Obj(entries.insert(i, e)))
            == SerializableErrorV::from_json(JsonV::Obj(entries)),
{
    assert(forall|st: SerializableErrorParse|
        SerializableErrorV::step_fn()(st, e) == Ok::<SerializableErrorParse, DecodeErrorV>(st));
    lemma_fold_entries_insert_ignored(
        SerializableErrorV::step_fn(),
        SerializableErrorV::init(),
        entries,
        i,
        e,
    );
}

/// A wire object that never mentions a required field's key fails to
/// decode with exactly that field's `MissingField` error.
pub proof fn lemma_serializable_error_missing_code(entries: Seq<EntryV>)
    requires
        forall|j: int| 0 <= j < entries.len() ==> (#[trigger] entries[j]).0 != "errorCode"@,
        forall|j: int, st: SerializableErrorParse|
            0 <= j < entries.len() ==> (#[trigger] SerializableErrorV::step(st, entries[j])) is Ok,
    ensures
        SerializableErrorV::from_json(JsonV::Obj(entries)) == Err::<
            SerializableErrorV,
            DecodeErrorV,
        >(DecodeErrorV::MissingField("errorCode"@)),
{
    let p = |st: SerializableErrorParse| st.error_code is None;
    crate::json::lemma_fold_entries_preserves(
        SerializableErrorV::step_fn(),
        SerializableErrorV::init(),
        entries,
        p,
    );
}


/// With the code present but the name's key never mentioned, decoding
/// fails with the name's `MissingField` error: the code is checked first,
/// so its presence must be witnessed.
pub proof fn lemma_serializable_error_missing_name(entries: Seq<EntryV>, w: int)
    requires
        0 <= w < entries.len(),
        entries[w].0 == "errorCode"@,
        forall|j: int| 0 <= j < entries.len() ==> (#[trigger] entries[j]).0 != "errorName"@,
        forall|j: int, st: SerializableErrorParse|
            0 <= j < entries.len() ==> (#[trigger] SerializableErrorV::step(st, entries[j])) is Ok,
    ensures
        SerializableErrorV::from_json(JsonV::Obj(entries)) == Err::<
            SerializableErrorV,
            DecodeErrorV,
        >(DecodeErrorV::MissingField("errorName"@)),
{
    reveal_strlit("errorCode");
    reveal_strlit("errorName");
    assert("errorCode"@[5] == 'C' && "errorName"@[5] == 'N');
    let q = |st: SerializableErrorParse| st.error_code is Some;
    crate::json::lemma_fold_entries_establishes(
        SerializableErrorV::step_fn(),
        SerializableErrorV::init(),
        entries,
        w,
        q,
    );
    let p = |st: SerializableErrorParse| st.error_name is None;
    crate::json::lemma_fold_entries_preserves(
        SerializableErrorV::step_fn(),
        SerializableErrorV::init(),
        entries,
        p,
    );
}

/// With the code and name present but the identifier's key never
/// mentioned, decoding fails with the identifier's `MissingField` error.
pub proof fn lemma_serializable_error_missing_id(entries: Seq<EntryV>, w1: int, w2: int)
    requires
        0 <= w1 < entries.len(),
        0 <= w2 < entries.len(),
        entries[w1].0 == "errorCode"@,
        entries[w2].0 == "errorName"@,
        forall|j: int| 0 <= j < entries.len() ==> (#[trigger] entries[j]).0 != "errorInstanceId"@,
        forall|j: int, st: SerializableErrorParse|
            0 <= j < entries.len() ==> (#[trigger] SerializableErrorV::step(st, entries[j])) is Ok,
    ensures
        SerializableErrorV::from_json(JsonV::Obj(entries)) == Err::<
            SerializableErrorV,
            DecodeErrorV,
        >(DecodeErrorV::MissingField("errorInstanceId"@)),
{
    reveal_strlit("errorCode");
    reveal_strlit("errorName");
    assert("errorCode"@[5] == 'C' && "errorName"@[5] == 'N');
    let q1 = |st: SerializableErrorParse| st.error_code is Some;
    crate::json::lemma_fold_entries_establishes(
        SerializableErrorV::step_fn(),
        SerializableErrorV::init(),
        entries,
        w1,
        q1,
    );
    let q2 = |st: SerializableErrorParse| st.error_name is Some;
    crate::json::lemma_fold_entries_establishes(
        SerializableErrorV::step_fn(),
        SerializableErrorV::init(),
        entries,
        w2,
        q2,
    );
    let p = |st: SerializableErrorParse| st.error_instance_id is None;
    crate::json::lemma_fold_entries_preserves(
        SerializableErrorV::step_fn(),
        SerializableErrorV::init(),
        entries,
        p,
    );
}

/// Decoding a sorted map's own wire form rebuilds exactly that map:
/// inserting its entries in key order appends each at the end.
pub proof fn lemma_params_round_trip(p: ParamsV)
    requires
        params_wf(p),
    ensures
        Params::spec_decode(Params::spec_entries_json(p)) == Ok::<ParamsV, DecodeErrorV>(p),
    decreases p.len(),
{
    let enc = Params::spec_entries_json(p);
    if p.len() == 0 {
        assert(enc =~= Seq::<EntryV>::empty());
        assert(ParamsV::empty() =~= p);
    } else {
        assert(params_wf(p.drop_last()));
        lemma_params_round_trip(p.drop_last());
        assert(Params::spec_entries_json(p.drop_last()) =~= enc.drop_last());
        assert(enc =~= enc.drop_last().push(enc.last()));
        lemma_fold_entries_push(
            Params::step_fn(),
            ParamsV::empty(),
            enc.drop_last(),
            enc.last(),
        );
        assert(enc.last() == (p.last().0, JsonV::Str(p.last().1)));
        assert(forall|i: int|
            0 <= i < p.drop_last().len() ==> seq_char_lt(
                (#[trigger] p.drop_last()[i]).0,
                p.last().0,
            ));
        lemma_spec_insert_append(p.drop_last(), p.last().0, p.last().1);
        assert(p.drop_last().push((p.last().0, p.last().1)) =~= p);
    }
}

} // verus!
