//! An endpoint argument carried as a query parameter, known by the
//! identifier it uses on the wire.

use vstd::prelude::*;
use vstd::string::*;

use crate::aliases::ParameterId;
use crate::json::{
    fold_entries, lemma_fold_entries_error_at, lemma_fold_entries_insert_ignored,
    lemma_fold_entries_push, lemma_fold_entries_preserves, lemma_view_shape, obj_view,
    res_view, DecodeError, DecodeErrorV, EntryV, JsonV, JsonValue,
};
use crate::text::str_eq;

verus! {

broadcast use vstd::string::group_string_axioms;

/// Ghost form of a [`QueryParameterType`].
#[verifier::ext_equal]
pub ghost struct QueryParameterTypeV {
    pub param_id: Seq<char>,
}

/// An endpoint argument carried as a query parameter.
#[derive(Debug, Clone, PartialEq, Eq, PartialOrd, Ord, Hash)]
pub struct QueryParameterType {
    /// The identifier the parameter uses on the wire.
    pub param_id: ParameterId,
}

impl View for QueryParameterType {
    type V = QueryParameterTypeV;

    open spec fn view(&self) -> QueryParameterTypeV {
        QueryParameterTypeV { param_id: self.param_id@ }
    }
}

/// Decode state: whether the one field has been seen, and its value.
pub ghost struct QueryParameterTypeParse {
    pub param_id: Option<Seq<char>>,
}

impl QueryParameterTypeV {
    /// The wire object: the one required key is always present.
    pub open spec fn to_json(self) -> JsonV {
        JsonV::Obj(seq![("paramId"@, JsonV::Str(self.param_id))])
    }

    /// How one wire entry advances the decode state.
    pub open spec fn step(st: QueryParameterTypeParse, e: EntryV) -> Result<
        QueryParameterTypeParse,
        DecodeErrorV,
    > {
        if e.0 == "paramId"@ {
            match e.1 {
                JsonV::Str(s) => Ok(QueryParameterTypeParse { param_id: Some(s) }),
                _ => Err(DecodeErrorV::TypeMismatch("paramId"@)),
            }
        } else {
            Ok(st)
        }
    }

    /// The entry dispatch as a function value, for the shared fold.
    pub open spec fn step_fn() -> spec_fn(QueryParameterTypeParse, EntryV) -> Result<
        QueryParameterTypeParse,
        DecodeErrorV,
    > {
        |st: QueryParameterTypeParse, e: EntryV| QueryParameterTypeV::step(st, e)
    }

    /// What decoding a wire value yields.
    pub open spec fn from_json(v: JsonV) -> Result<QueryParameterTypeV, DecodeErrorV> {
        match v {
            JsonV::Obj(entries) => match fold_entries(
                QueryParameterTypeV::step_fn(),
                QueryParameterTypeParse { param_id: None },
                entries,
            ) {
                Ok(st) => match st.param_id {
                    Some(p) => Ok(QueryParameterTypeV { param_id: p }),
                    None => Err(DecodeErrorV::MissingField("paramId"@)),
                },
                Err(e) => Err(e),
            },
            _ => Err(DecodeErrorV::TypeMismatch("QueryParameterType"@)),
        }
    }
}

impl QueryParameterType {
    /// Constructs a new instance of the type.
    pub fn new(param_id: ParameterId) -> (r: QueryParameterType)
        ensures
            r@ == (QueryParameterTypeV { param_id: param_id@ }),
    {
        QueryParameterType { param_id }
    }

    /// Returns a new builder.
    pub fn builder() -> (r: Builder)
        ensures
            r.param_id is None,
    {
        Builder { param_id: None }
    }

    /// The identifier the parameter uses on the wire.
    pub fn param_id(&self) -> (r: &ParameterId)
        ensures
            r@ == self@.param_id,
    {
        &self.param_id
    }

    /// Encodes the value as its wire object.
    pub fn to_json(&self) -> (r: JsonValue)
        ensures
            r@ == self@.to_json(),
    {
        let mut es: Vec<(String, JsonValue)> = Vec::new();
        es.push((String::from_str("paramId"), self.param_id.to_json()));
        proof {
            assert(obj_view(es) =~= self@.to_json()->Obj_0);
        }
        JsonValue::Object(es)
    }

    /// Decodes a wire value, ignoring unknown keys.
    pub fn from_json(v: &JsonValue) -> (r: Result<QueryParameterType, DecodeError>)
        ensures
            res_view(r) == QueryParameterTypeV::from_json(v@),
    {
        let es: &Vec<(String, JsonValue)> = match v {
            JsonValue::Object(es) => es,
            _ => {
                return Err(DecodeError::TypeMismatch(String::from_str("QueryParameterType")));
            },
        };
        let ghost ev = obj_view(*es);
        let ghost init = QueryParameterTypeParse { param_id: None };
        let mut param_id: Option<String> = None;
        let mut i: usize = 0;
        proof {
            assert(ev.take(0) =~= Seq::<EntryV>::empty());
        }
        while i < es.len()
            invariant
                i <= es.len(),
                ev == obj_view(*es),
                ev.len() == es.len(),
                v@ == JsonV::Obj(ev),
                init == (QueryParameterTypeParse { param_id: None }),
                fold_entries(QueryParameterTypeV::step_fn(), init, ev.take(i as int)) == Ok::<
                    QueryParameterTypeParse,
                    DecodeErrorV,
                >(
                    QueryParameterTypeParse {
                        param_id: match param_id {
                            Some(p) => Some(p@),
                            None => None,
                        },
                    },
                ),
            decreases es.len() - i,
        {
            let ghost pre = ev.take(i as int);
            let ghost st_pre = fold_entries(QueryParameterTypeV::step_fn(), init, pre)->Ok_0;
            proof {
                lemma_fold_entries_push(QueryParameterTypeV::step_fn(), init, pre, ev[i as int]);
                assert(ev.take(i + 1) =~= pre.push(ev[i as int]));
            }
            let k: &String = &es[i].0;
            let val: &JsonValue = &es[i].1;
            if str_eq(k.as_str(), "paramId") {
                match val {
                    JsonValue::String(s) => {
                        param_id = Some(s.clone());
                    },
                    _ => {
                        proof {
                            lemma_view_shape(es[i as int].1);
                            assert(QueryParameterTypeV::step(st_pre, ev[i as int]) == Err::<
                                QueryParameterTypeParse,
                                DecodeErrorV,
                            >(DecodeErrorV::TypeMismatch("paramId"@)));
                            lemma_fold_entries_error_at(
                                QueryParameterTypeV::step_fn(),
                                init,
                                ev,
                                i as int,
                                st_pre,
                                DecodeErrorV::TypeMismatch("paramId"@),
                            );
                        }
                        return Err(DecodeError::TypeMismatch(String::from_str("paramId")));
                    },
                }
            }
            i += 1;
        }
        proof {
            assert(ev.take(es.len() as int) =~= ev);
        }
        let param_id = match param_id {
            Some(p) => p,
            None => {
                return Err(DecodeError::MissingField(String::from_str("paramId")));
            },
        };
        Ok(QueryParameterType { param_id: ParameterId(param_id) })
    }
}

/// Decoding the wire object an encode produced gives back the value.
pub proof fn lemma_query_parameter_type_round_trip(v: QueryParameterTypeV)
    ensures
        QueryParameterTypeV::from_json(v.to_json()) == Ok::<QueryParameterTypeV, DecodeErrorV>(v),
{
    let e0: EntryV = ("paramId"@, JsonV::Str(v.param_id));
    let s = v.to_json()->Obj_0;
    let init = QueryParameterTypeParse { param_id: None };
    let st1 = QueryParameterTypeParse { param_id: Some(v.param_id) };
    assert(s.first() == e0);
    assert(s.drop_first() =~= Seq::<EntryV>::empty());
    assert(QueryParameterTypeV::step_fn()(init, e0) == Ok::<
        QueryParameterTypeParse,
        DecodeErrorV,
    >(st1));
    assert(fold_entries(QueryParameterTypeV::step_fn(), st1, Seq::<EntryV>::empty()) == Ok::<
        QueryParameterTypeParse,
        DecodeErrorV,
    >(st1));
    assert(QueryParameterTypeV::from_json(v.to_json())->Ok_0 =~= v);
}

/// Decoding tolerates an unrecognized key anywhere in the wire object.
pub proof fn lemma_query_parameter_type_ignores_unknown(entries: Seq<EntryV>, i: int, e: EntryV)
    requires
        0 <= i <= entries.len(),
        e.0 != "paramId"@,
    ensures
        QueryParameterTypeV::from_json(JsonV::Obj(entries.insert(i, e)))
            == QueryParameterTypeV::from_json(JsonV::Obj(entries)),
{
    let init = QueryParameterTypeParse { param_id: None };
    assert(forall|st: QueryParameterTypeParse|
        QueryParameterTypeV::step_fn()(st, e) == Ok::<QueryParameterTypeParse, DecodeErrorV>(st));
    lemma_fold_entries_insert_ignored(QueryParameterTypeV::step_fn(), init, entries, i, e);
}

/// A wire object that never mentions the required key fails with its
/// `MissingField` error.
pub proof fn lemma_query_parameter_type_missing(entries: Seq<EntryV>)
    requires
        forall|j: int| 0 <= j < entries.len() ==> (#[trigger] entries[j]).0 != "paramId"@,
    ensures
        QueryParameterTypeV::from_json(JsonV::Obj(entries)) == Err::<
            QueryParameterTypeV,
            DecodeErrorV,
        >(DecodeErrorV::MissingField("paramId"@)),
{
    let init = QueryParameterTypeParse { param_id: None };
    let p = |st: QueryParameterTypeParse| st.param_id is None;
    lemma_fold_entries_preserves(QueryParameterTypeV::step_fn(), init, entries, p);
}

/// A builder for the [`QueryParameterType`] type.
#[derive(Debug, Clone)]
pub struct Builder {
    /// The parameter identifier, once set.
    pub param_id: Option<ParameterId>,
}

impl Builder {
    /// Every required field has been set.
    pub open spec fn complete(&self) -> bool {
        self.param_id is Some
    }

    /// Sets the parameter identifier. Required.
    pub fn param_id(&mut self, param_id: ParameterId) -> (r: &mut Builder)
        ensures
            r.param_id == Some(param_id),
            *final(self) == *final(r),
    {
        self.param_id = Some(param_id);
        self
    }

    /// Constructs a new instance of the type. The required field must have
    /// been set.
    pub fn build(&self) -> (r: QueryParameterType)
        requires
            self.complete(),
        ensures
            r@ == (QueryParameterTypeV { param_id: (self.param_id->Some_0)@ }),
    {
        match &self.param_id {
            Some(p) => QueryParameterType { param_id: ParameterId(p.0.clone()) },
            None => {
                proof {
                    assert(false);
                }
                QueryParameterType { param_id: ParameterId(String::new()) }
            },
        }
    }
}

impl Default for Builder {
    /// An empty builder: no field set yet.
    fn default() -> (r: Builder)
        ensures
            r.param_id is None,
    {
        Builder { param_id: None }
    }
}

impl From<QueryParameterType> for Builder {
    /// A builder pre-populated with the value's fields, for copy-and-modify.
    fn from(v: QueryParameterType) -> (r: Builder) {
        Builder { param_id: Some(v.param_id) }
    }
}

impl vstd::std_specs::convert::FromSpecImpl<QueryParameterType> for Builder {
    open spec fn obeys_from_spec() -> bool {
        true
    }

    open spec fn from_spec(v: QueryParameterType) -> Builder {
        Builder { param_id: Some(v.param_id) }
    }
}

} // verus!
