//! A service of the definition model: a named collection of endpoints with
//! optional documentation. The endpoint list is omitted from the wire when
//! empty; absent documentation leaves its key off.

use vstd::prelude::*;
use vstd::string::*;

use crate::aliases::Documentation;
use crate::fields::{EndpointDefinition, EndpointDefinitionV};
use crate::json::{
    arr_view, decode_seq, fold_entries, lemma_decode_seq_all_ok, lemma_decode_seq_error_at,
    lemma_fold_entries_error_at, lemma_fold_entries_insert_ignored, lemma_fold_entries_push,
    lemma_view_shape, obj_view, res_view, DecodeError, DecodeErrorV, EntryV, JsonV, JsonValue,
};
use crate::names::{TypeName, TypeNameV};
use crate::text::str_eq;

verus! {

broadcast use vstd::string::group_string_axioms;

/// Ghost form of a [`ServiceDefinition`].
#[verifier::ext_equal]
pub ghost struct ServiceDefinitionV {
    pub service_name: TypeNameV,
    pub endpoints: Seq<EndpointDefinitionV>,
    pub docs: Option<Seq<char>>,
}

/// A service: a named collection of endpoints.
#[derive(Debug, Clone, PartialEq, Eq, PartialOrd, Ord, Hash)]
pub struct ServiceDefinition {
    /// The service's name.
    pub service_name: TypeName,
    /// The service's endpoints, in declaration order.
    pub endpoints: Vec<EndpointDefinition>,
    /// Documentation, if any.
    pub docs: Option<Documentation>,
}

/// The ghost form of an endpoint list.
pub open spec fn endpoints_view(es: Seq<EndpointDefinition>) -> Seq<EndpointDefinitionV> {
    Seq::new(es.len(), |i: int| es[i]@)
}

impl View for ServiceDefinition {
    type V = ServiceDefinitionV;

    open spec fn view(&self) -> ServiceDefinitionV {
        ServiceDefinitionV {
            service_name: self.service_name@,
            endpoints: endpoints_view(self.endpoints@),
            docs: match self.docs {
                Some(d) => Some(d@),
                None => None,
            },
        }
    }
}

/// Decode state for [`ServiceDefinition`].
pub ghost struct ServiceDefinitionParse {
    pub service_name: Option<TypeNameV>,
    pub endpoints: Option<Seq<EndpointDefinitionV>>,
    pub docs: Option<Option<Seq<char>>>,
}

impl ServiceDefinitionV {
    /// The wire object: the name always; the endpoint list only when
    /// non-empty; the docs key only when documentation is present.
    pub open spec fn to_json(self) -> JsonV {
        JsonV::Obj(
            seq![("serviceName"@, self.service_name.to_json())] + (if self.endpoints.len() == 0 {
                Seq::<EntryV>::empty()
            } else {
                seq![
                    (
                        "endpoints"@,
                        JsonV::Arr(self.endpoints.map_values(|e: EndpointDefinitionV| e.to_json())),
                    ),
                ]
            }) + (match self.docs {
                Some(d) => seq![("docs"@, JsonV::Str(d))],
                None => Seq::<EntryV>::empty(),
            }),
        )
    }

    /// Element decoding as a function value, for the shared array fold.
    pub open spec fn edf_fn() -> spec_fn(JsonV) -> Result<EndpointDefinitionV, DecodeErrorV> {
        |v: JsonV| EndpointDefinitionV::from_json(v)
    }

    /// How one wire entry advances the decode state.
    pub open spec fn step(st: ServiceDefinitionParse, e: EntryV) -> Result<
        ServiceDefinitionParse,
        DecodeErrorV,
    > {
        if e.0 == "serviceName"@ {
            match TypeNameV::from_json(e.1) {
                Ok(t) => Ok(ServiceDefinitionParse { service_name: Some(t), ..st }),
                Err(er) => Err(er),
            }
        } else if e.0 == "endpoints"@ {
            match e.1 {
                JsonV::Arr(elems) => match decode_seq(ServiceDefinitionV::edf_fn(), elems) {
                    Ok(es) => Ok(ServiceDefinitionParse { endpoints: Some(es), ..st }),
                    Err(er) => Err(er),
                },
                _ => Err(DecodeErrorV::TypeMismatch("endpoints"@)),
            }
        } else if e.0 == "docs"@ {
            match e.1 {
                JsonV::Str(s) => Ok(ServiceDefinitionParse { docs: Some(Some(s)), ..st }),
                JsonV::Null => Ok(ServiceDefinitionParse { docs: Some(None), ..st }),
                _ => Err(DecodeErrorV::TypeMismatch("docs"@)),
            }
        } else {
            Ok(st)
        }
    }

    /// The entry dispatch as a function value, for the shared fold.
    pub open spec fn step_fn() -> spec_fn(ServiceDefinitionParse, EntryV) -> Result<
        ServiceDefinitionParse,
        DecodeErrorV,
    > {
        |st: ServiceDefinitionParse, e: EntryV| ServiceDefinitionV::step(st, e)
    }

    /// The state before any entry has been read.
    pub open spec fn init() -> ServiceDefinitionParse {
        ServiceDefinitionParse { service_name: None, endpoints: None, docs: None }
    }

    /// What decoding a wire value yields: the name is required; an unseen
    /// endpoint list is empty; unseen docs are absent.
    pub open spec fn from_json(v: JsonV) -> Result<ServiceDefinitionV, DecodeErrorV> {
        match v {
            JsonV::Obj(entries) => match fold_entries(
                ServiceDefinitionV::step_fn(),
                ServiceDefinitionV::init(),
                entries,
            ) {
                Ok(st) => match st.service_name {
                    Some(n) => Ok(
                        ServiceDefinitionV {
                            service_name: n,
                            endpoints: match st.endpoints {
                                Some(es) => es,
                                None => Seq::empty(),
                            },
                            docs: match st.docs {
                                Some(d) => d,
                                None => None,
                            },
                        },
                    ),
                    None => Err(DecodeErrorV::MissingField("serviceName"@)),
                },
                Err(e) => Err(e),
            },
            _ => Err(DecodeErrorV::TypeMismatch("ServiceDefinition"@)),
        }
    }
}

/// A faithful copy of an endpoint, field by field.
fn copy_endpoint(e: &EndpointDefinition) -> (r: EndpointDefinition)
    ensures
        r@ == e@,
{
    EndpointDefinition {
        endpoint_name: crate::aliases::EndpointName(e.endpoint_name.0.clone()),
        docs: match &e.docs {
            Some(d) => Some(Documentation(d.0.clone())),
            None => None,
        },
    }
}

/// A faithful copy of an endpoint list, element by element.
fn copy_endpoints(es: &Vec<EndpointDefinition>) -> (r: Vec<EndpointDefinition>)
    ensures
        endpoints_view(r@) == endpoints_view(es@),
{
    let mut out: Vec<EndpointDefinition> = Vec::new();
    let mut i: usize = 0;
    while i < es.len()
        invariant
            i <= es.len(),
            out@.len() == i,
            forall|j: int| 0 <= j < i ==> (#[trigger] out@[j])@ == es@[j]@,
        decreases es.len() - i,
    {
        out.push(copy_endpoint(&es[i]));
        i += 1;
    }
    proof {
        assert(endpoints_view(out@) =~= endpoints_view(es@));
    }
    out
}

impl ServiceDefinition {
    /// Constructs a new instance of the type.
    pub fn new(service_name: TypeName, endpoints: Vec<EndpointDefinition>, docs: Documentation) -> (r:
        ServiceDefinition)
        ensures
            r@ == (ServiceDefinitionV {
                service_name: service_name@,
                endpoints: endpoints_view(endpoints@),
                docs: Some(docs@),
            }),
    {
        ServiceDefinition { service_name, endpoints, docs: Some(docs) }
    }

    /// Returns a new builder.
    pub fn builder() -> (r: Builder)
        ensures
            r.service_name is None,
            r.endpoints@.len() == 0,
            r.docs is None,
    {
        Builder { service_name: None, endpoints: Vec::new(), docs: None }
    }

    /// The service's name.
    pub fn service_name(&self) -> (r: &TypeName)
        ensures
            r@ == self@.service_name,
    {
        &self.service_name
    }

    /// The service's endpoints, in declaration order.
    pub fn endpoints(&self) -> (r: &Vec<EndpointDefinition>)
        ensures
            endpoints_view(r@) == self@.endpoints,
    {
        &self.endpoints
    }

    /// Documentation, if any.
    pub fn docs(&self) -> (r: Option<&Documentation>)
        ensures
            match r {
                Some(d) => self@.docs == Some(d@),
                None => self@.docs is None,
            },
    {
        match &self.docs {
            Some(d) => Some(d),
            None => None,
        }
    }

    /// Encodes the value as its wire object: an empty endpoint list and
    /// absent docs leave their keys off.
    pub fn to_json(&self) -> (r: JsonValue)
        ensures
            r@ == self@.to_json(),
    {
        let mut es: Vec<(String, JsonValue)> = Vec::new();
        es.push((String::from_str("serviceName"), self.service_name.to_json()));
        if self.endpoints.len() > 0 {
            let mut arr: Vec<JsonValue> = Vec::new();
            let mut j: usize = 0;
            while j < self.endpoints.len()
                invariant
                    j <= self.endpoints@.len(),
                    arr@.len() == j,
                    forall|k: int|
                        0 <= k < j ==> (#[trigger] arr@[k])@ == self@.endpoints[k].to_json(),
                decreases self.endpoints@.len() - j,
            {
                arr.push(self.endpoints[j].to_json());
                j += 1;
            }
            proof {
                assert(arr_view(arr) =~= self@.endpoints.map_values(
                    |e: EndpointDefinitionV| e.to_json(),
                ));
            }
            es.push((String::from_str("endpoints"), JsonValue::Array(arr)));
        }
        match &self.docs {
            Some(d) => {
                es.push((String::from_str("docs"), d.to_json()));
            },
            None => {},
        }
        proof {
            assert(obj_view(es) =~= self@.to_json()->Obj_0);
        }
        JsonValue::Object(es)
    }

    /// Decodes a wire value, ignoring unknown keys.
    pub fn from_json(v: &JsonValue) -> (r: Result<ServiceDefinition, DecodeError>)
        ensures
            res_view(r) == ServiceDefinitionV::from_json(v@),
    {
        let es: &Vec<(String, JsonValue)> = match v {
            JsonValue::Object(es) => es,
            _ => {
                return Err(DecodeError::TypeMismatch(String::from_str("ServiceDefinition")));
            },
        };
        let ghost ev = obj_view(*es);
        let mut service_name: Option<TypeName> = None;
        let mut endpoints: Option<Vec<EndpointDefinition>> = None;
        let mut docs: Option<Option<String>> = None;
        let mut i: usize = 0;
        proof {
            assert(ev.take(0) =~= Seq::<EntryV>::empty());
        }
        while i < es.len()
            invariant
                i <= es.len(),
                ev == obj_view(*es),
                ev.len() == es.len(),
                v@ == JsonV::Obj(ev),
                fold_entries(
                    ServiceDefinitionV::step_fn(),
                    ServiceDefinitionV::init(),
                    ev.take(i as int),
                ) == Ok::<ServiceDefinitionParse, DecodeErrorV>(
                    ServiceDefinitionParse {
                        service_name: match service_name {
                            Some(t) => Some(t@),
                            None => None,
                        },
                        endpoints: match endpoints {
                            Some(eps) => Some(endpoints_view(eps@)),
                            None => None,
                        },
                        docs: match docs {
                            Some(Some(d)) => Some(Some(d@)),
                            Some(None) => Some(None),
                            None => None,
                        },
                    },
                ),
            decreases es.len() - i,
        {
            let ghost pre = ev.take(i as int);
            let ghost st_pre = fold_entries(
                ServiceDefinitionV::step_fn(),
                ServiceDefinitionV::init(),
                pre,
            )->Ok_0;
            proof {
                lemma_fold_entries_push(
                    ServiceDefinitionV::step_fn(),
                    ServiceDefinitionV::init(),
                    pre,
                    ev[i as int],
                );
                assert(ev.take(i + 1) =~= pre.push(ev[i as int]));
            }
            let k: &String = &es[i].0;
            let val: &JsonValue = &es[i].1;
            if str_eq(k.as_str(), "serviceName") {
                match TypeName::from_json(val) {
                    Ok(t) => {
                        service_name = Some(t);
                    },
                    Err(e) => {
                        proof {
                            lemma_fold_entries_error_at(
                                ServiceDefinitionV::step_fn(),
                                ServiceDefinitionV::init(),
                                ev,
                                i as int,
                                st_pre,
                                e@,
                            );
                        }
                        return Err(e);
                    },
                }
            } else if str_eq(k.as_str(), "endpoints") {
                match val {
                    JsonValue::Array(elems) => {
                        let ghost elv = arr_view(*elems);
                        let mut acc: Vec<EndpointDefinition> = Vec::new();
                        let mut j: usize = 0;
                        proof {
                            assert(elv.take(0) =~= Seq::<JsonV>::empty());
                            assert(endpoints_view(acc@) =~= Seq::<EndpointDefinitionV>::empty());
                        }
                        while j < elems.len()
                            invariant
                                j <= elems.len(),
                                elv == arr_view(*elems),
                                elv.len() == elems.len(),
                                acc@.len() == j,
                                decode_seq(ServiceDefinitionV::edf_fn(), elv.take(j as int)) == Ok::<
                                    Seq<EndpointDefinitionV>,
                                    DecodeErrorV,
                                >(endpoints_view(acc@)),
                                i < es.len(),
                                ev == obj_view(*es),
                                ev.len() == es.len(),
                                v@ == JsonV::Obj(ev),
                                ev[i as int].0 == "endpoints"@,
                                ev[i as int].0 != "serviceName"@,
                                ev[i as int].1 == JsonV::Arr(elv),
                                fold_entries(
                                    ServiceDefinitionV::step_fn(),
                                    ServiceDefinitionV::init(),
                                    ev.take(i as int),
                                ) == Ok::<ServiceDefinitionParse, DecodeErrorV>(st_pre),
                            decreases elems.len() - j,
                        {
                            let ghost accv = endpoints_view(acc@);
                            match EndpointDefinition::from_json(&elems[j]) {
                                Ok(e) => {
                                    acc.push(e);
                                    proof {
                                        assert(elv.take(j + 1).drop_last() =~= elv.take(j as int));
                                        assert(elv.take(j + 1).last() == elv[j as int]);
                                        assert(endpoints_view(acc@) =~= accv.push(e@));
                                    }
                                },
                                Err(e) => {
                                    proof {
                                        lemma_decode_seq_error_at(
                                            ServiceDefinitionV::edf_fn(),
                                            elv,
                                            j as int,
                                            e@,
                                        );
                                        assert(ServiceDefinitionV::step(st_pre, ev[i as int])
                                            == Err::<ServiceDefinitionParse, DecodeErrorV>(e@));
                                        lemma_fold_entries_error_at(
                                            ServiceDefinitionV::step_fn(),
                                            ServiceDefinitionV::init(),
                                            ev,
                                            i as int,
                                            st_pre,
                                            e@,
                                        );
                                    }
                                    return Err(e);
                                },
                            }
                            j += 1;
                        }
                        proof {
                            assert(elv.take(elems@.len() as int) =~= elv);
                        }
                        endpoints = Some(acc);
                    },
                    _ => {
                        proof {
                            lemma_view_shape(es[i as int].1);
                            assert(!(ev[i as int].1 is Arr));
                            assert(ServiceDefinitionV::step(st_pre, ev[i as int]) == Err::<
                                ServiceDefinitionParse,
                                DecodeErrorV,
                            >(DecodeErrorV::TypeMismatch("endpoints"@)));
                            lemma_fold_entries_error_at(
                                ServiceDefinitionV::step_fn(),
                                ServiceDefinitionV::init(),
                                ev,
                                i as int,
                                st_pre,
                                DecodeErrorV::TypeMismatch("endpoints"@),
                            );
                        }
                        return Err(DecodeError::TypeMismatch(String::from_str("endpoints")));
                    },
                }
            } else if str_eq(k.as_str(), "docs") {
                match val {
                    JsonValue::String(s) => {
                        docs = Some(Some(s.clone()));
                    },
                    JsonValue::Null => {
                        docs = Some(None);
                    },
                    _ => {
                        proof {
                            lemma_view_shape(es[i as int].1);
                            assert(ServiceDefinitionV::step(st_pre, ev[i as int]) == Err::<
                                ServiceDefinitionParse,
                                DecodeErrorV,
                            >(DecodeErrorV::TypeMismatch("docs"@)));
                            lemma_fold_entries_error_at(
                                ServiceDefinitionV::step_fn(),
                                ServiceDefinitionV::init(),
                                ev,
                                i as int,
                                st_pre,
                                DecodeErrorV::TypeMismatch("docs"@),
                            );
                        }
                        return Err(DecodeError::TypeMismatch(String::from_str("docs")));
                    },
                }
            }
            i += 1;
        }
        proof {
            assert(ev.take(es.len() as int) =~= ev);
        }
        let service_name = match service_name {
            Some(t) => t,
            None => {
                return Err(DecodeError::MissingField(String::from_str("serviceName")));
            },
        };
        let r = ServiceDefinition {
            service_name,
            endpoints: match endpoints {
                Some(eps) => eps,
                None => Vec::new(),
            },
            docs: match docs {
                Some(Some(d)) => Some(Documentation(d)),
                _ => None,
            },
        };
        proof {
            assert(res_view(Ok::<ServiceDefinition, DecodeError>(r)) == ServiceDefinitionV::from_json(
                v@,
            )) by {
                assert(endpoints_view(Seq::<EndpointDefinition>::empty())
                    =~= Seq::<EndpointDefinitionV>::empty());
                assert(ServiceDefinitionV::from_json(v@)->Ok_0 =~= r@);
            }
        }
        Ok(r)
    }
}

/// A builder for the [`ServiceDefinition`] type.
#[derive(Debug, Clone)]
pub struct Builder {
    /// The service's name, once set.
    pub service_name: Option<TypeName>,
    /// The endpoints accumulated so far.
    pub endpoints: Vec<EndpointDefinition>,
    /// Documentation, if set.
    pub docs: Option<Documentation>,
}

impl Builder {
    /// Every required field has been set.
    pub open spec fn complete(&self) -> bool {
        self.service_name is Some
    }

    /// Sets the service's name. Required.
    pub fn service_name(&mut self, service_name: TypeName) -> (r: &mut Builder)
        ensures
            r.service_name == Some(service_name),
            r.endpoints == old(self).endpoints,
            r.docs == old(self).docs,
            *final(self) == *final(r),
    {
        self.service_name = Some(service_name);
        self
    }

    /// Replaces the endpoint list.
    pub fn endpoints(&mut self, endpoints: Vec<EndpointDefinition>) -> (r: &mut Builder)
        ensures
            r.endpoints == endpoints,
            r.service_name == old(self).service_name,
            r.docs == old(self).docs,
            *final(self) == *final(r),
    {
        self.endpoints = endpoints;
        self
    }

    /// Appends the given endpoints to the list.
    pub fn extend_endpoints(&mut self, endpoints: Vec<EndpointDefinition>) -> (r: &mut Builder)
        ensures
            r.endpoints@ == old(self).endpoints@ + endpoints@,
            r.service_name == old(self).service_name,
            r.docs == old(self).docs,
            *final(self) == *final(r),
    {
        let mut endpoints = endpoints;
        self.endpoints.append(&mut endpoints);
        self
    }

    /// Appends one endpoint to the list.
    pub fn push_endpoints(&mut self, value: EndpointDefinition) -> (r: &mut Builder)
        ensures
            r.endpoints@ == old(self).endpoints@.push(value),
            r.service_name == old(self).service_name,
            r.docs == old(self).docs,
            *final(self) == *final(r),
    {
        self.endpoints.push(value);
        self
    }

    /// Sets or clears the documentation.
    pub fn docs(&mut self, docs: Option<Documentation>) -> (r: &mut Builder)
        ensures
            r.docs == docs,
            r.service_name == old(self).service_name,
            r.endpoints == old(self).endpoints,
            *final(self) == *final(r),
    {
        self.docs = docs;
        self
    }

    /// Constructs a new instance of the type. The required field must have
    /// been set; every unset optional field gets its empty default. The
    /// builder stays usable: repeated builds give equal values.
    pub fn build(&self) -> (r: ServiceDefinition)
        requires
            self.complete(),
        ensures
            r@ == (ServiceDefinitionV {
                service_name: (self.service_name->Some_0)@,
                endpoints: endpoints_view(self.endpoints@),
                docs: match self.docs {
                    Some(d) => Some(d@),
                    None => None,
                },
            }),
    {
        let service_name = match &self.service_name {
            Some(t) => TypeName { name: t.name.clone(), package: t.package.clone() },
            None => {
                proof {
                    assert(false);
                }
                TypeName { name: String::new(), package: String::new() }
            },
        };
        ServiceDefinition {
            service_name,
            endpoints: copy_endpoints(&self.endpoints),
            docs: match &self.docs {
                Some(d) => Some(Documentation(d.0.clone())),
                None => None,
            },
        }
    }
}

impl Default for Builder {
    /// An empty builder: no field set yet.
    fn default() -> (r: Builder)
        ensures
            r.service_name is None,
            r.endpoints@.len() == 0,
            r.docs is None,
    {
        Builder { service_name: None, endpoints: Vec::new(), docs: None }
    }
}

impl From<ServiceDefinition> for Builder {
    /// A builder pre-populated with the value's fields, for copy-and-modify.
    fn from(v: ServiceDefinition) -> (r: Builder) {
        Builder { service_name: Some(v.service_name), endpoints: v.endpoints, docs: v.docs }
    }
}

impl vstd::std_specs::convert::FromSpecImpl<ServiceDefinition> for Builder {
    open spec fn obeys_from_spec() -> bool {
        true
    }

    open spec fn from_spec(v: ServiceDefinition) -> Builder {
        Builder { service_name: Some(v.service_name), endpoints: v.endpoints, docs: v.docs }
    }
}

/// Decoding the wire object an encode produced gives back the value.
pub proof fn lemma_service_definition_round_trip(v: ServiceDefinitionV)
    ensures
        ServiceDefinitionV::from_json(v.to_json()) == Ok::<ServiceDefinitionV, DecodeErrorV>(v),
{
    reveal_strlit("serviceName");
    reveal_strlit("endpoints");
    reveal_strlit("docs");
    assert("serviceName"@.len() == 11);
    assert("endpoints"@.len() == 9);
    assert("docs"@.len() == 4);
    let s = v.to_json()->Obj_0;
    let e0: EntryV = ("serviceName"@, v.service_name.to_json());
    let f = ServiceDefinitionV::step_fn();
    crate::names::lemma_type_name_round_trip(v.service_name);
    assert(s.first() == e0);
    let st1 = ServiceDefinitionParse {
        service_name: Some(v.service_name),
        endpoints: None,
        docs: None,
    };
    assert(f(ServiceDefinitionV::init(), e0) == Ok::<ServiceDefinitionParse, DecodeErrorV>(st1));
    let encoded = v.endpoints.map_values(|e: EndpointDefinitionV| e.to_json());
    if v.endpoints.len() > 0 {
        let e1: EntryV = ("endpoints"@, JsonV::Arr(encoded));
        assert forall|j: int| 0 <= j < encoded.len() implies ServiceDefinitionV::edf_fn()(
            #[trigger] encoded[j],
        ) == Ok::<EndpointDefinitionV, DecodeErrorV>(v.endpoints[j]) by {
            crate::fields::lemma_endpoint_definition_round_trip(v.endpoints[j]);
        }
        lemma_decode_seq_all_ok(ServiceDefinitionV::edf_fn(), encoded, v.endpoints);
        let st2 = ServiceDefinitionParse {
            service_name: Some(v.service_name),
            endpoints: Some(v.endpoints),
            docs: None,
        };
        assert(f(st1, e1) == Ok::<ServiceDefinitionParse, DecodeErrorV>(st2));
        match v.docs {
            Some(d) => {
                let e2: EntryV = ("docs"@, JsonV::Str(d));
                let st3 = ServiceDefinitionParse { docs: Some(Some(d)), ..st2 };
                assert(s.drop_first() =~= seq![e1, e2]);
                assert(seq![e1, e2].drop_first() =~= seq![e2]);
                assert(seq![e2].drop_first() =~= Seq::<EntryV>::empty());
                assert(f(st2, e2) == Ok::<ServiceDefinitionParse, DecodeErrorV>(st3));
                assert(fold_entries(f, st3, Seq::<EntryV>::empty()) == Ok::<
                    ServiceDefinitionParse,
                    DecodeErrorV,
                >(st3));
                assert(fold_entries(f, st2, seq![e2]) == Ok::<ServiceDefinitionParse, DecodeErrorV>(
                    st3,
                ));
                assert(fold_entries(f, st1, seq![e1, e2]) == Ok::<
                    ServiceDefinitionParse,
                    DecodeErrorV,
                >(st3));
                assert(fold_entries(f, ServiceDefinitionV::init(), s) == Ok::<
                    ServiceDefinitionParse,
                    DecodeErrorV,
                >(st3));
            },
            None => {
                assert(s.drop_first() =~= seq![e1]);
                assert(seq![e1].drop_first() =~= Seq::<EntryV>::empty());
                assert(fold_entries(f, st2, Seq::<EntryV>::empty()) == Ok::<
                    ServiceDefinitionParse,
                    DecodeErrorV,
                >(st2));
                assert(fold_entries(f, st1, seq![e1]) == Ok::<ServiceDefinitionParse, DecodeErrorV>(
                    st2,
                ));
                assert(fold_entries(f, ServiceDefinitionV::init(), s) == Ok::<
                    ServiceDefinitionParse,
                    DecodeErrorV,
                >(st2));
            },
        }
    } else {
        match v.docs {
            Some(d) => {
                let e2: EntryV = ("docs"@, JsonV::Str(d));
                let st3 = ServiceDefinitionParse { docs: Some(Some(d)), ..st1 };
                assert(s.drop_first() =~= seq![e2]);
                assert(seq![e2].drop_first() =~= Seq::<EntryV>::empty());
                assert(f(st1, e2) == Ok::<ServiceDefinitionParse, DecodeErrorV>(st3));
                assert(fold_entries(f, st3, Seq::<EntryV>::empty()) == Ok::<
                    ServiceDefinitionParse,
                    DecodeErrorV,
                >(st3));
                assert(fold_entries(f, st1, seq![e2]) == Ok::<ServiceDefinitionParse, DecodeErrorV>(
                    st3,
                ));
                assert(fold_entries(f, ServiceDefinitionV::init(), s) == Ok::<
                    ServiceDefinitionParse,
                    DecodeErrorV,
                >(st3));
            },
            None => {
                assert(s.drop_first() =~= Seq::<EntryV>::empty());
                assert(fold_entries(f, st1, Seq::<EntryV>::empty()) == Ok::<
                    ServiceDefinitionParse,
                    DecodeErrorV,
                >(st1));
                assert(fold_entries(f, ServiceDefinitionV::init(), s) == Ok::<
                    ServiceDefinitionParse,
                    DecodeErrorV,
                >(st1));
            },
        }
        assert(v.endpoints =~= Seq::<EndpointDefinitionV>::empty());
    }
    assert(ServiceDefinitionV::from_json(v.to_json())->Ok_0 =~= v);
}

/// An empty endpoint list and absent docs leave only the name's key on the
/// wire: optional collections are omitted, never encoded as empty or null.
pub proof fn lemma_service_definition_omits_empty(v: ServiceDefinitionV)
    requires
        v.endpoints.len() == 0,
        v.docs is None,
    ensures
        v.to_json()->Obj_0.len() == 1,
        v.to_json()->Obj_0[0].0 == "serviceName"@,
{
    assert(v.to_json()->Obj_0 =~= seq![("serviceName"@, v.service_name.to_json())]);
}


/// A wire object that never mentions the required key fails with its
/// `MissingField` error, provided every entry it does hold is well shaped.
pub proof fn lemma_service_definition_missing_name(entries: Seq<EntryV>)
    requires
        forall|j: int| 0 <= j < entries.len() ==> (#[trigger] entries[j]).0 != "serviceName"@,
        forall|j: int, st: ServiceDefinitionParse|
            0 <= j < entries.len() ==> (#[trigger] ServiceDefinitionV::step(st, entries[j])) is Ok,
    ensures
        ServiceDefinitionV::from_json(JsonV::Obj(entries)) == Err::<
            ServiceDefinitionV,
            DecodeErrorV,
        >(DecodeErrorV::MissingField("serviceName"@)),
{
    let p = |st: ServiceDefinitionParse| st.service_name is None;
    crate::json::lemma_fold_entries_preserves(
        ServiceDefinitionV::step_fn(),
        ServiceDefinitionV::init(),
        entries,
        p,
    );
}

/// Decoding tolerates an unrecognized key anywhere in the wire object.
pub proof fn lemma_service_definition_ignores_unknown(entries: Seq<EntryV>, i: int, e: EntryV)
    requires
        0 <= i <= entries.len(),
        e.0 != "serviceName"@,
        e.0 != "endpoints"@,
        e.0 != "docs"@,
    ensures
        ServiceDefinitionV::from_json(JsonV::Obj(entries.insert(i, e)))
            == ServiceDefinitionV::from_json(JsonV::Obj(entries)),
{
    assert(forall|st: ServiceDefinitionParse|
        ServiceDefinitionV::step_fn()(st, e) == Ok::<ServiceDefinitionParse, DecodeErrorV>(st));
    lemma_fold_entries_insert_ignored(
        ServiceDefinitionV::step_fn(),
        ServiceDefinitionV::init(),
        entries,
        i,
        e,
    );
}

} // verus!
