//! The definition-model entries that sit inside services and errors: a
//! named field (an error parameter) and a named endpoint, each with
//! optional documentation.

use vstd::prelude::*;
use vstd::string::*;

use crate::aliases::{Documentation, EndpointName};
use crate::json::{
    fold_entries, lemma_fold_entries_error_at, lemma_fold_entries_insert_ignored,
    lemma_fold_entries_push, lemma_view_shape, obj_view, res_view, DecodeError, DecodeErrorV,
    EntryV, JsonV, JsonValue,
};
use crate::text::str_eq;

verus! {

broadcast use vstd::string::group_string_axioms;

/// Ghost form of a [`FieldDefinition`].
#[verifier::ext_equal]
pub ghost struct FieldDefinitionV {
    pub field_name: Seq<char>,
    pub docs: Option<Seq<char>>,
}

/// A named field of an error definition: one of its parameters.
#[derive(Debug, Clone, PartialEq, Eq, PartialOrd, Ord, Hash)]
pub struct FieldDefinition {
    /// The field's name.
    pub field_name: String,
    /// Documentation, if any.
    pub docs: Option<Documentation>,
}

impl View for FieldDefinition {
    type V = FieldDefinitionV;

    open spec fn view(&self) -> FieldDefinitionV {
        FieldDefinitionV {
            field_name: self.field_name@,
            docs: match self.docs {
                Some(d) => Some(d@),
                None => None,
            },
        }
    }
}

/// Decode state for [`FieldDefinition`].
pub ghost struct FieldDefinitionParse {
    pub field_name: Option<Seq<char>>,
    pub docs: Option<Option<Seq<char>>>,
}

impl FieldDefinitionV {
    /// The wire object: the required name always, the docs key only when
    /// documentation is present.
    pub open spec fn to_json(self) -> JsonV {
        JsonV::Obj(
            seq![("fieldName"@, JsonV::Str(self.field_name))] + (match self.docs {
                Some(d) => seq![("docs"@, JsonV::Str(d))],
                None => Seq::<EntryV>::empty(),
            }),
        )
    }

    /// How one wire entry advances the decode state.
    pub open spec fn step(st: FieldDefinitionParse, e: EntryV) -> Result<
        FieldDefinitionParse,
        DecodeErrorV,
    > {
        if e.0 == "fieldName"@ {
            match e.1 {
                JsonV::Str(s) => Ok(FieldDefinitionParse { field_name: Some(s), ..st }),
                _ => Err(DecodeErrorV::TypeMismatch("fieldName"@)),
            }
        } else if e.0 == "docs"@ {
            match e.1 {
                JsonV::Str(s) => Ok(FieldDefinitionParse { docs: Some(Some(s)), ..st }),
                JsonV::Null => Ok(FieldDefinitionParse { docs: Some(None), ..st }),
                _ => Err(DecodeErrorV::TypeMismatch("docs"@)),
            }
        } else {
            Ok(st)
        }
    }

    /// The entry dispatch as a function value, for the shared fold.
    pub open spec fn step_fn() -> spec_fn(FieldDefinitionParse, EntryV) -> Result<
        FieldDefinitionParse,
        DecodeErrorV,
    > {
        |st: FieldDefinitionParse, e: EntryV| FieldDefinitionV::step(st, e)
    }

    /// The state before any entry has been read.
    pub open spec fn init() -> FieldDefinitionParse {
        FieldDefinitionParse { field_name: None, docs: None }
    }

    /// What decoding a wire value yields: the name is required, the docs
    /// default to absent.
    pub open spec fn from_json(v: JsonV) -> Result<FieldDefinitionV, DecodeErrorV> {
        match v {
            JsonV::Obj(entries) => match fold_entries(
                FieldDefinitionV::step_fn(),
                FieldDefinitionV::init(),
                entries,
            ) {
                Ok(st) => match st.field_name {
                    Some(n) => Ok(
                        FieldDefinitionV {
                            field_name: n,
                            docs: match st.docs {
                                Some(d) => d,
                                None => None,
                            },
                        },
                    ),
                    None => Err(DecodeErrorV::MissingField("fieldName"@)),
                },
                Err(e) => Err(e),
            },
            _ => Err(DecodeErrorV::TypeMismatch("FieldDefinition"@)),
        }
    }
}

impl FieldDefinition {
    /// Constructs a new instance of the type, without documentation.
    pub fn new(field_name: String) -> (r: FieldDefinition)
        ensures
            r@ == (FieldDefinitionV { field_name: field_name@, docs: None }),
    {
        FieldDefinition { field_name, docs: None }
    }

    /// The field's name.
    pub fn field_name(&self) -> (r: &str)
        ensures
            r@ == self@.field_name,
    {
        self.field_name.as_str()
    }

    /// Documentation, if any.
    pub fn docs(&self) -> (r: Option<&Documentation>)
        ensures
            match r {
                Some(d) => self@.docs == Some(d@),
                None => self@.docs is None,
            },
    {
        match &self.docs {
            Some(d) => Some(d),
            None => None,
        }
    }

    /// Encodes the value as its wire object: absent docs leave the key off.
    pub fn to_json(&self) -> (r: JsonValue)
        ensures
            r@ == self@.to_json(),
    {
        let mut es: Vec<(String, JsonValue)> = Vec::new();
        es.push((String::from_str("fieldName"), JsonValue::String(self.field_name.clone())));
        match &self.docs {
            Some(d) => {
                es.push((String::from_str("docs"), d.to_json()));
            },
            None => {},
        }
        proof {
            assert(obj_view(es) =~= self@.to_json()->Obj_0);
        }
        JsonValue::Object(es)
    }

    /// Decodes a wire value, ignoring unknown keys.
    pub fn from_json(v: &JsonValue) -> (r: Result<FieldDefinition, DecodeError>)
        ensures
            res_view(r) == FieldDefinitionV::from_json(v@),
    {
        let es: &Vec<(String, JsonValue)> = match v {
            JsonValue::Object(es) => es,
            _ => {
                return Err(DecodeError::TypeMismatch(String::from_str("FieldDefinition")));
            },
        };
        let ghost ev = obj_view(*es);
        let mut field_name: Option<String> = None;
        let mut docs: Option<Option<String>> = None;
        let mut i: usize = 0;
        proof {
            assert(ev.take(0) =~= Seq::<EntryV>::empty());
        }
        while i < es.len()
            invariant
                i <= es.len(),
                ev == obj_view(*es),
                ev.len() == es.len(),
                v@ == JsonV::Obj(ev),
                fold_entries(FieldDefinitionV::step_fn(), FieldDefinitionV::init(), ev.take(i as int))
                    == Ok::<FieldDefinitionParse, DecodeErrorV>(
                    FieldDefinitionParse {
                        field_name: match field_name {
                            Some(n) => Some(n@),
                            None => None,
                        },
                        docs: match docs {
                            Some(Some(d)) => Some(Some(d@)),
                            Some(None) => Some(None),
                            None => None,
                        },
                    },
                ),
            decreases es.len() - i,
        {
            let ghost pre = ev.take(i as int);
            let ghost st_pre = fold_entries(
                FieldDefinitionV::step_fn(),
                FieldDefinitionV::init(),
                pre,
            )->Ok_0;
            proof {
                lemma_fold_entries_push(
                    FieldDefinitionV::step_fn(),
                    FieldDefinitionV::init(),
                    pre,
                    ev[i as int],
                );
                assert(ev.take(i + 1) =~= pre.push(ev[i as int]));
            }
            let k: &String = &es[i].0;
            let val: &JsonValue = &es[i].1;
            if str_eq(k.as_str(), "fieldName") {
                match val {
                    JsonValue::String(s) => {
                        field_name = Some(s.clone());
                    },
                    _ => {
                        proof {
                            lemma_view_shape(es[i as int].1);
                            assert(FieldDefinitionV::step(st_pre, ev[i as int]) == Err::<
                                FieldDefinitionParse,
                                DecodeErrorV,
                            >(DecodeErrorV::TypeMismatch("fieldName"@)));
                            lemma_fold_entries_error_at(
                                FieldDefinitionV::step_fn(),
                                FieldDefinitionV::init(),
                                ev,
                                i as int,
                                st_pre,
                                DecodeErrorV::TypeMismatch("fieldName"@),
                            );
                        }
                        return Err(DecodeError::TypeMismatch(String::from_str("fieldName")));
                    },
                }
            } else if str_eq(k.as_str(), "docs") {
                match val {
                    JsonValue::String(s) => {
                        docs = Some(Some(s.clone()));
                    },
                    JsonValue::Null => {
                        docs = Some(None);
                    },
                    _ => {
                        proof {
                            lemma_view_shape(es[i as int].1);
                            assert(FieldDefinitionV::step(st_pre, ev[i as int]) == Err::<
                                FieldDefinitionParse,
                                DecodeErrorV,
                            >(DecodeErrorV::TypeMismatch("docs"@)));
                            lemma_fold_entries_error_at(
                                FieldDefinitionV::step_fn(),
                                FieldDefinitionV::init(),
                                ev,
                                i as int,
                                st_pre,
                                DecodeErrorV::TypeMismatch("docs"@),
                            );
                        }
                        return Err(DecodeError::TypeMismatch(String::from_str("docs")));
                    },
                }
            }
            i += 1;
        }
        proof {
            assert(ev.take(es.len() as int) =~= ev);
        }
        let field_name = match field_name {
            Some(n) => n,
            None => {
                return Err(DecodeError::MissingField(String::from_str("fieldName")));
            },
        };
        Ok(
            FieldDefinition {
                field_name,
                docs: match docs {
                    Some(Some(d)) => Some(Documentation(d)),
                    _ => None,
                },
            },
        )
    }
}

/// Decoding the wire object an encode produced gives back the value.
pub proof fn lemma_field_definition_round_trip(v: FieldDefinitionV)
    ensures
        FieldDefinitionV::from_json(v.to_json()) == Ok::<FieldDefinitionV, DecodeErrorV>(v),
{
    reveal_strlit("fieldName");
    reveal_strlit("docs");
    assert("fieldName"@.len() == 9);
    assert("docs"@.len() == 4);
    let e0: EntryV = ("fieldName"@, JsonV::Str(v.field_name));
    let s = v.to_json()->Obj_0;
    let st1 = FieldDefinitionParse { field_name: Some(v.field_name), docs: None };
    assert(s.first() == e0);
    assert(FieldDefinitionV::step_fn()(FieldDefinitionV::init(), e0) == Ok::<
        FieldDefinitionParse,
        DecodeErrorV,
    >(st1));
    match v.docs {
        Some(d) => {
            let e1: EntryV = ("docs"@, JsonV::Str(d));
            assert(s.drop_first() =~= seq![e1]);
            let st2 = FieldDefinitionParse { field_name: Some(v.field_name), docs: Some(Some(d)) };
            assert(FieldDefinitionV::step_fn()(st1, e1) == Ok::<
                FieldDefinitionParse,
                DecodeErrorV,
            >(st2));
            assert(seq![e1].drop_first() =~= Seq::<EntryV>::empty());
            assert(fold_entries(FieldDefinitionV::step_fn(), st2, Seq::<EntryV>::empty()) == Ok::<
                FieldDefinitionParse,
                DecodeErrorV,
            >(st2));
            assert(fold_entries(FieldDefinitionV::step_fn(), st1, seq![e1]) == Ok::<
                FieldDefinitionParse,
                DecodeErrorV,
            >(st2));
            assert(fold_entries(FieldDefinitionV::step_fn(), FieldDefinitionV::init(), s) == Ok::<
                FieldDefinitionParse,
                DecodeErrorV,
            >(st2));
        },
        None => {
            assert(s.drop_first() =~= Seq::<EntryV>::empty());
            assert(fold_entries(FieldDefinitionV::step_fn(), st1, Seq::<EntryV>::empty()) == Ok::<
                FieldDefinitionParse,
                DecodeErrorV,
            >(st1));
            assert(fold_entries(FieldDefinitionV::step_fn(), FieldDefinitionV::init(), s) == Ok::<
                FieldDefinitionParse,
                DecodeErrorV,
            >(st1));
        },
    }
    assert(FieldDefinitionV::from_json(v.to_json())->Ok_0 =~= v);
}

/// Decoding tolerates an unrecognized key anywhere in the wire object.
pub proof fn lemma_field_definition_ignores_unknown(entries: Seq<EntryV>, i: int, e: EntryV)
    requires
        0 <= i <= entries.len(),
        e.0 != "fieldName"@,
        e.0 != "docs"@,
    ensures
        FieldDefinitionV::from_json(JsonV::Obj(entries.insert(i, e)))
            == FieldDefinitionV::from_json(JsonV::Obj(entries)),
{
    assert(forall|st: FieldDefinitionParse|
        FieldDefinitionV::step_fn()(st, e) == Ok::<FieldDefinitionParse, DecodeErrorV>(st));
    lemma_fold_entries_insert_ignored(
        FieldDefinitionV::step_fn(),
        FieldDefinitionV::init(),
        entries,
        i,
        e,
    );
}


/// A wire object that never mentions the required key fails with its
/// `MissingField` error, provided every entry it does hold is well shaped.
pub proof fn lemma_field_definition_missing(entries: Seq<EntryV>)
    requires
        forall|j: int| 0 <= j < entries.len() ==> (#[trigger] entries[j]).0 != "fieldName"@,
        forall|j: int, st: FieldDefinitionParse|
            0 <= j < entries.len() ==> (#[trigger] FieldDefinitionV::step(st, entries[j])) is Ok,
    ensures
        FieldDefinitionV::from_json(JsonV::Obj(entries)) == Err::<FieldDefinitionV, DecodeErrorV>(
            DecodeErrorV::MissingField("fieldName"@),
        ),
{
    let p = |st: FieldDefinitionParse| st.field_name is None;
    crate::json::lemma_fold_entries_preserves(
        FieldDefinitionV::step_fn(),
        FieldDefinitionV::init(),
        entries,
        p,
    );
}

/// Ghost form of an [`EndpointDefinition`].
#[verifier::ext_equal]
pub ghost struct EndpointDefinitionV {
    pub endpoint_name: Seq<char>,
    pub docs: Option<Seq<char>>,
}

/// A named endpoint of a service definition.
#[derive(Debug, Clone, PartialEq, Eq, PartialOrd, Ord, Hash)]
pub struct EndpointDefinition {
    /// The endpoint's name.
    pub endpoint_name: EndpointName,
    /// Documentation, if any.
    pub docs: Option<Documentation>,
}

impl View for EndpointDefinition {
    type V = EndpointDefinitionV;

    open spec fn view(&self) -> EndpointDefinitionV {
        EndpointDefinitionV {
            endpoint_name: self.endpoint_name@,
            docs: match self.docs {
                Some(d) => Some(d@),
                None => None,
            },
        }
    }
}

/// Decode state for [`EndpointDefinition`].
pub ghost struct EndpointDefinitionParse {
    pub endpoint_name: Option<Seq<char>>,
    pub docs: Option<Option<Seq<char>>>,
}

impl EndpointDefinitionV {
    /// The wire object: the required name always, the docs key only when
    /// documentation is present.
    pub open spec fn to_json(self) -> JsonV {
        JsonV::Obj(
            seq![("endpointName"@, JsonV::Str(self.endpoint_name))] + (match self.docs {
                Some(d) => seq![("docs"@, JsonV::Str(d))],
                None => Seq::<EntryV>::empty(),
            }),
        )
    }

    /// How one wire entry advances the decode state.
    pub open spec fn step(st: EndpointDefinitionParse, e: EntryV) -> Result<
        EndpointDefinitionParse,
        DecodeErrorV,
    > {
        if e.0 == "endpointName"@ {
            match e.1 {
                JsonV::Str(s) => Ok(EndpointDefinitionParse { endpoint_name: Some(s), ..st }),
                _ => Err(DecodeErrorV::TypeMismatch("endpointName"@)),
            }
        } else if e.0 == "docs"@ {
            match e.1 {
                JsonV::Str(s) => Ok(EndpointDefinitionParse { docs: Some(Some(s)), ..st }),
                JsonV::Null => Ok(EndpointDefinitionParse { docs: Some(None), ..st }),
                _ => Err(DecodeErrorV::TypeMismatch("docs"@)),
            }
        } else {
            Ok(st)
        }
    }

    /// The entry dispatch as a function value, for the shared fold.
    pub open spec fn step_fn() -> spec_fn(EndpointDefinitionParse, EntryV) -> Result<
        EndpointDefinitionParse,
        DecodeErrorV,
    > {
        |st: EndpointDefinitionParse, e: EntryV| EndpointDefinitionV::step(st, e)
    }

    /// The state before any entry has been read.
    pub open spec fn init() -> EndpointDefinitionParse {
        EndpointDefinitionParse { endpoint_name: None, docs: None }
    }

    /// What decoding a wire value yields.
    pub open spec fn from_json(v: JsonV) -> Result<EndpointDefinitionV, DecodeErrorV> {
        match v {
            JsonV::Obj(entries) => match fold_entries(
                EndpointDefinitionV::step_fn(),
                EndpointDefinitionV::init(),
                entries,
            ) {
                Ok(st) => match st.endpoint_name {
                    Some(n) => Ok(
                        EndpointDefinitionV {
                            endpoint_name: n,
                            docs: match st.docs {
                                Some(d) => d,
                                None => None,
                            },
                        },
                    ),
                    None => Err(DecodeErrorV::MissingField("endpointName"@)),
                },
                Err(e) => Err(e),
            },
            _ => Err(DecodeErrorV::TypeMismatch("EndpointDefinition"@)),
        }
    }
}

impl EndpointDefinition {
    /// Constructs a new instance of the type, without documentation.
    pub fn new(endpoint_name: EndpointName) -> (r: EndpointDefinition)
        ensures
            r@ == (EndpointDefinitionV { endpoint_name: endpoint_name@, docs: None }),
    {
        EndpointDefinition { endpoint_name, docs: None }
    }

    /// The endpoint's name.
    pub fn endpoint_name(&self) -> (r: &EndpointName)
        ensures
            r@ == self@.endpoint_name,
    {
        &self.endpoint_name
    }

    /// Documentation, if any.
    pub fn docs(&self) -> (r: Option<&Documentation>)
        ensures
            match r {
                Some(d) => self@.docs == Some(d@),
                None => self@.docs is None,
            },
    {
        match &self.docs {
            Some(d) => Some(d),
            None => None,
        }
    }

    /// Encodes the value as its wire object: absent docs leave the key off.
    pub fn to_json(&self) -> (r: JsonValue)
        ensures
            r@ == self@.to_json(),
    {
        let mut es: Vec<(String, JsonValue)> = Vec::new();
        es.push((String::from_str("endpointName"), self.endpoint_name.to_json()));
        match &self.docs {
            Some(d) => {
                es.push((String::from_str("docs"), d.to_json()));
            },
            None => {},
        }
        proof {
            assert(obj_view(es) =~= self@.to_json()->Obj_0);
        }
        JsonValue::Object(es)
    }

    /// Decodes a wire value, ignoring unknown keys.
    pub fn from_json(v: &JsonValue) -> (r: Result<EndpointDefinition, DecodeError>)
        ensures
            res_view(r) == EndpointDefinitionV::from_json(v@),
    {
        let es: &Vec<(String, JsonValue)> = match v {
            JsonValue::Object(es) => es,
            _ => {
                return Err(DecodeError::TypeMismatch(String::from_str("EndpointDefinition")));
            },
        };
        let ghost ev = obj_view(*es);
        let mut endpoint_name: Option<String> = None;
        let mut docs: Option<Option<String>> = None;
        let mut i: usize = 0;
        proof {
            assert(ev.take(0) =~= Seq::<EntryV>::empty());
        }
        while i < es.len()
            invariant
                i <= es.len(),
                ev == obj_view(*es),
                ev.len() == es.len(),
                v@ == JsonV::Obj(ev),
                fold_entries(
                    EndpointDefinitionV::step_fn(),
                    EndpointDefinitionV::init(),
                    ev.take(i as int),
                ) == Ok::<EndpointDefinitionParse, DecodeErrorV>(
                    EndpointDefinitionParse {
                        endpoint_name: match endpoint_name {
                            Some(n) => Some(n@),
                            None => None,
                        },
                        docs: match docs {
                            Some(Some(d)) => Some(Some(d@)),
                            Some(None) => Some(None),
                            None => None,
                        },
                    },
                ),
            decreases es.len() - i,
        {
            let ghost pre = ev.take(i as int);
            let ghost st_pre = fold_entries(
                EndpointDefinitionV::step_fn(),
                EndpointDefinitionV::init(),
                pre,
            )->Ok_0;
            proof {
                lemma_fold_entries_push(
                    EndpointDefinitionV::step_fn(),
                    EndpointDefinitionV::init(),
                    pre,
                    ev[i as int],
                );
                assert(ev.take(i + 1) =~= pre.push(ev[i as int]));
            }
            let k: &String = &es[i].0;
            let val: &JsonValue = &es[i].1;
            if str_eq(k.as_str(), "endpointName") {
                match val {
                    JsonValue::String(s) => {
                        endpoint_name = Some(s.clone());
                    },
                    _ => {
                        proof {
                            lemma_view_shape(es[i as int].1);
                            assert(EndpointDefinitionV::step(st_pre, ev[i as int]) == Err::<
                                EndpointDefinitionParse,
                                DecodeErrorV,
                            >(DecodeErrorV::TypeMismatch("endpointName"@)));
                            lemma_fold_entries_error_at(
                                EndpointDefinitionV::step_fn(),
                                EndpointDefinitionV::init(),
                                ev,
                                i as int,
                                st_pre,
                                DecodeErrorV::TypeMismatch("endpointName"@),
                            );
                        }
                        return Err(DecodeError::TypeMismatch(String::from_str("endpointName")));
                    },
                }
            } else if str_eq(k.as_str(), "docs") {
                match val {
                    JsonValue::String(s) => {
                        docs = Some(Some(s.clone()));
                    },
                    JsonValue::Null => {
                        docs = Some(None);
                    },
                    _ => {
                        proof {
                            lemma_view_shape(es[i as int].1);
                            assert(EndpointDefinitionV::step(st_pre, ev[i as int]) == Err::<
                                EndpointDefinitionParse,
                                DecodeErrorV,
                            >(DecodeErrorV::TypeMismatch("docs"@)));
                            lemma_fold_entries_error_at(
                                EndpointDefinitionV::step_fn(),
                                EndpointDefinitionV::init(),
                                ev,
                                i as int,
                                st_pre,
                                DecodeErrorV::TypeMismatch("docs"@),
                            );
                        }
                        return Err(DecodeError::TypeMismatch(String::from_str("docs")));
                    },
                }
            }
            i += 1;
        }
        proof {
            assert(ev.take(es.len() as int) =~= ev);
        }
        let endpoint_name = match endpoint_name {
            Some(n) => n,
            None => {
                return Err(DecodeError::MissingField(String::from_str("endpointName")));
            },
        };
        Ok(
            EndpointDefinition {
                endpoint_name: EndpointName(endpoint_name),
                docs: match docs {
                    Some(Some(d)) => Some(Documentation(d)),
                    _ => None,
                },
            },
        )
    }
}

/// Decoding the wire object an encode produced gives back the value.
pub proof fn lemma_endpoint_definition_round_trip(v: EndpointDefinitionV)
    ensures
        EndpointDefinitionV::from_json(v.to_json()) == Ok::<EndpointDefinitionV, DecodeErrorV>(v),
{
    reveal_strlit("endpointName");
    reveal_strlit("docs");
    assert("endpointName"@.len() == 12);
    assert("docs"@.len() == 4);
    let e0: EntryV = ("endpointName"@, JsonV::Str(v.endpoint_name));
    let s = v.to_json()->Obj_0;
    let st1 = EndpointDefinitionParse { endpoint_name: Some(v.endpoint_name), docs: None };
    assert(s.first() == e0);
    assert(EndpointDefinitionV::step_fn()(EndpointDefinitionV::init(), e0) == Ok::<
        EndpointDefinitionParse,
        DecodeErrorV,
    >(st1));
    match v.docs {
        Some(d) => {
            let e1: EntryV = ("docs"@, JsonV::Str(d));
            assert(s.drop_first() =~= seq![e1]);
            let st2 = EndpointDefinitionParse {
                endpoint_name: Some(v.endpoint_name),
                docs: Some(Some(d)),
            };
            assert(EndpointDefinitionV::step_fn()(st1, e1) == Ok::<
                EndpointDefinitionParse,
                DecodeErrorV,
            >(st2));
            assert(seq![e1].drop_first() =~= Seq::<EntryV>::empty());
            assert(fold_entries(EndpointDefinitionV::step_fn(), st2, Seq::<EntryV>::empty())
                == Ok::<EndpointDefinitionParse, DecodeErrorV>(st2));
            assert(fold_entries(EndpointDefinitionV::step_fn(), st1, seq![e1]) == Ok::<
                EndpointDefinitionParse,
                DecodeErrorV,
            >(st2));
            assert(fold_entries(EndpointDefinitionV::step_fn(), EndpointDefinitionV::init(), s)
                == Ok::<EndpointDefinitionParse, DecodeErrorV>(st2));
        },
        None => {
            assert(s.drop_first() =~= Seq::<EntryV>::empty());
            assert(fold_entries(EndpointDefinitionV::step_fn(), st1, Seq::<EntryV>::empty())
                == Ok::<EndpointDefinitionParse, DecodeErrorV>(st1));
            assert(fold_entries(EndpointDefinitionV::step_fn(), EndpointDefinitionV::init(), s)
                == Ok::<EndpointDefinitionParse, DecodeErrorV>(st1));
        },
    }
    assert(EndpointDefinitionV::from_json(v.to_json())->Ok_0 =~= v);
}


/// A wire object that never mentions the required key fails with its
/// `MissingField` error, provided every entry it does hold is well shaped.
pub proof fn lemma_endpoint_definition_missing(entries: Seq<EntryV>)
    requires
        forall|j: int| 0 <= j < entries.len() ==> (#[trigger] entries[j]).0 != "endpointName"@,
        forall|j: int, st: EndpointDefinitionParse|
            0 <= j < entries.len() ==> (#[trigger] EndpointDefinitionV::step(st, entries[j])) is Ok,
    ensures
        EndpointDefinitionV::from_json(JsonV::Obj(entries)) == Err::<
            EndpointDefinitionV,
            DecodeErrorV,
        >(DecodeErrorV::MissingField("endpointName"@)),
{
    let p = |st: EndpointDefinitionParse| st.endpoint_name is None;
    crate::json::lemma_fold_entries_preserves(
        EndpointDefinitionV::step_fn(),
        EndpointDefinitionV::init(),
        entries,
        p,
    );
}

} // verus!
