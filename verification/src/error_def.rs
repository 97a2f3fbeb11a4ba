//! An error of the definition model: a named, namespaced error with a
//! category and its safe and unsafe parameters. Empty parameter lists and
//! absent docs are left off the wire.

use vstd::prelude::*;
use vstd::string::*;

use crate::aliases::{Documentation, ErrorNamespace};
use crate::error_code::ErrorCode;
use crate::fields::{FieldDefinition, FieldDefinitionV};
use crate::json::{
    arr_view, decode_seq, fold_entries, lemma_decode_seq_all_ok, lemma_decode_seq_error_at,
    lemma_fold_entries_error_at, lemma_fold_entries_insert_ignored, lemma_fold_entries_push,
    lemma_view_shape, obj_view, res_view, DecodeError, DecodeErrorV, EntryV, JsonV, JsonValue,
};
use crate::names::{TypeName, TypeNameV};
use crate::text::str_eq;

verus! {

broadcast use vstd::string::group_string_axioms;

/// Ghost form of an [`ErrorDefinition`].
#[verifier::ext_equal]
pub ghost struct ErrorDefinitionV {
    pub error_name: TypeNameV,
    pub docs: Option<Seq<char>>,
    pub namespace: Seq<char>,
    pub code: ErrorCode,
    pub safe_args: Seq<FieldDefinitionV>,
    pub unsafe_args: Seq<FieldDefinitionV>,
}

/// A declared error: its name, namespace, category and parameters. The
/// error's wire name is the namespace joined to the name with a colon.
#[derive(Debug, Clone, PartialEq, Eq, PartialOrd, Ord, Hash)]
pub struct ErrorDefinition {
    /// The error's name.
    pub error_name: TypeName,
    /// Documentation, if any.
    pub docs: Option<Documentation>,
    /// The namespace half of the wire error name.
    pub namespace: ErrorNamespace,
    /// The error's broad category.
    pub code: ErrorCode,
    /// Parameters safe to log, in declaration order.
    pub safe_args: Vec<FieldDefinition>,
    /// Parameters that must be redacted, in declaration order.
    pub unsafe_args: Vec<FieldDefinition>,
}

/// The ghost form of a parameter list.
pub open spec fn args_view(es: Seq<FieldDefinition>) -> Seq<FieldDefinitionV> {
    Seq::new(es.len(), |i: int| es[i]@)
}

impl View for ErrorDefinition {
    type V = ErrorDefinitionV;

    open spec fn view(&self) -> ErrorDefinitionV {
        ErrorDefinitionV {
            error_name: self.error_name@,
            docs: match self.docs {
                Some(d) => Some(d@),
                None => None,
            },
            namespace: self.namespace@,
            code: self.code,
            safe_args: args_view(self.safe_args@),
            unsafe_args: args_view(self.unsafe_args@),
        }
    }
}

/// Decode state for [`ErrorDefinition`].
pub ghost struct ErrorDefinitionParse {
    pub error_name: Option<TypeNameV>,
    pub docs: Option<Option<Seq<char>>>,
    pub namespace: Option<Seq<char>>,
    pub code: Option<ErrorCode>,
    pub safe_args: Option<Seq<FieldDefinitionV>>,
    pub unsafe_args: Option<Seq<FieldDefinitionV>>,
}

impl ErrorDefinitionV {
    /// The wire object: required keys always, the docs key only when
    /// present, each parameter list only when non-empty.
    pub open spec fn to_json(self) -> JsonV {
        JsonV::Obj(
            seq![("errorName"@, self.error_name.to_json())] + (match self.docs {
                Some(d) => seq![("docs"@, JsonV::Str(d))],
                None => Seq::<EntryV>::empty(),
            }) + seq![
                ("namespace"@, JsonV::Str(self.namespace)),
                ("code"@, JsonV::Str(self.code.wire_name())),
            ] + (if self.safe_args.len() == 0 {
                Seq::<EntryV>::empty()
            } else {
                seq![
                    (
                        "safeArgs"@,
                        JsonV::Arr(self.safe_args.map_values(|e: FieldDefinitionV| e.to_json())),
                    ),
                ]
            }) + (if self.unsafe_args.len() == 0 {
                Seq::<EntryV>::empty()
            } else {
                seq![
                    (
                        "unsafeArgs"@,
                        JsonV::Arr(self.unsafe_args.map_values(|e: FieldDefinitionV| e.to_json())),
                    ),
                ]
            }),
        )
    }

    /// Element decoding as a function value, for the shared array fold.
    pub open spec fn fd_fn() -> spec_fn(JsonV) -> Result<FieldDefinitionV, DecodeErrorV> {
        |v: JsonV| FieldDefinitionV::from_json(v)
    }

    /// How one wire entry advances the decode state.
    pub open spec fn step(st: ErrorDefinitionParse, e: EntryV) -> Result<
        ErrorDefinitionParse,
        DecodeErrorV,
    > {
        if e.0 == "errorName"@ {
            match TypeNameV::from_json(e.1) {
                Ok(t) => Ok(ErrorDefinitionParse { error_name: Some(t), ..st }),
                Err(er) => Err(er),
            }
        } else if e.0 == "docs"@ {
            match e.1 {
                JsonV::Str(s) => Ok(ErrorDefinitionParse { docs: Some(Some(s)), ..st }),
                JsonV::Null => Ok(ErrorDefinitionParse { docs: Some(None), ..st }),
                _ => Err(DecodeErrorV::TypeMismatch("docs"@)),
            }
        } else if e.0 == "namespace"@ {
            match e.1 {
                JsonV::Str(s) => Ok(ErrorDefinitionParse { namespace: Some(s), ..st }),
                _ => Err(DecodeErrorV::TypeMismatch("namespace"@)),
            }
        } else if e.0 == "code"@ {
            match ErrorCode::spec_from_json(e.1) {
                Ok(c) => Ok(ErrorDefinitionParse { code: Some(c), ..st }),
                Err(er) => Err(er),
            }
        } else if e.0 == "safeArgs"@ {
            match e.1 {
                JsonV::Arr(elems) => match decode_seq(ErrorDefinitionV::fd_fn(), elems) {
                    Ok(es) => Ok(ErrorDefinitionParse { safe_args: Some(es), ..st }),
                    Err(er) => Err(er),
                },
                _ => Err(DecodeErrorV::TypeMismatch("safeArgs"@)),
            }
        } else if e.0 == "unsafeArgs"@ {
            match e.1 {
                JsonV::Arr(elems) => match decode_seq(ErrorDefinitionV::fd_fn(), elems) {
                    Ok(es) => Ok(ErrorDefinitionParse { unsafe_args: Some(es), ..st }),
                    Err(er) => Err(er),
                },
                _ => Err(DecodeErrorV::TypeMismatch("unsafeArgs"@)),
            }
        } else {
            Ok(st)
        }
    }

    /// The entry dispatch as a function value, for the shared fold.
    pub open spec fn step_fn() -> spec_fn(ErrorDefinitionParse, EntryV) -> Result<
        ErrorDefinitionParse,
        DecodeErrorV,
    > {
        |st: ErrorDefinitionParse, e: EntryV| ErrorDefinitionV::step(st, e)
    }

    /// The state before any entry has been read.
    pub open spec fn init() -> ErrorDefinitionParse {
        ErrorDefinitionParse {
            error_name: None,
            docs: None,
            namespace: None,
            code: None,
            safe_args: None,
            unsafe_args: None,
        }
    }

    /// What decoding a wire value yields: the name, namespace and code are
    /// required, in that order of failure; lists default to empty and docs
    /// to absent.
    pub open spec fn from_json(v: JsonV) -> Result<ErrorDefinitionV, DecodeErrorV> {
        match v {
            JsonV::Obj(entries) => match fold_entries(
                ErrorDefinitionV::step_fn(),
                ErrorDefinitionV::init(),
                entries,
            ) {
                Ok(st) => match st.error_name {
                    Some(n) => match st.namespace {
                        Some(ns) => match st.code {
                            Some(c) => Ok(
                                ErrorDefinitionV {
                                    error_name: n,
                                    docs: match st.docs {
                                        Some(d) => d,
                                        None => None,
                                    },
                                    namespace: ns,
                                    code: c,
                                    safe_args: match st.safe_args {
                                        Some(sa) => sa,
                                        None => Seq::empty(),
                                    },
                                    unsafe_args: match st.unsafe_args {
                                        Some(ua) => ua,
                                        None => Seq::empty(),
                                    },
                                },
                            ),
                            None => Err(DecodeErrorV::MissingField("code"@)),
                        },
                        None => Err(DecodeErrorV::MissingField("namespace"@)),
                    },
                    None => Err(DecodeErrorV::MissingField("errorName"@)),
                },
                Err(e) => Err(e),
            },
            _ => Err(DecodeErrorV::TypeMismatch("ErrorDefinition"@)),
        }
    }
}

/// A faithful copy of a field definition, field by field.
fn copy_field(e: &FieldDefinition) -> (r: FieldDefinition)
    ensures
        r@ == e@,
{
    FieldDefinition {
        field_name: e.field_name.clone(),
        docs: match &e.docs {
            Some(d) => Some(Documentation(d.0.clone())),
            None => None,
        },
    }
}

/// A faithful copy of a parameter list, element by element.
fn copy_fields(es: &Vec<FieldDefinition>) -> (r: Vec<FieldDefinition>)
    ensures
        args_view(r@) == args_view(es@),
{
    let mut out: Vec<FieldDefinition> = Vec::new();
    let mut i: usize = 0;
    while i < es.len()
        invariant
            i <= es.len(),
            out@.len() == i,
            forall|j: int| 0 <= j < i ==> (#[trigger] out@[j])@ == es@[j]@,
        decreases es.len() - i,
    {
        out.push(copy_field(&es[i]));
        i += 1;
    }
    proof {
        assert(args_view(out@) =~= args_view(es@));
    }
    out
}

/// Encodes a parameter list as a wire array.
fn args_to_json(es: &Vec<FieldDefinition>) -> (r: Vec<JsonValue>)
    ensures
        arr_view(r) == args_view(es@).map_values(|e: FieldDefinitionV| e.to_json()),
{
    let mut arr: Vec<JsonValue> = Vec::new();
    let mut j: usize = 0;
    while j < es.len()
        invariant
            j <= es@.len(),
            arr@.len() == j,
            forall|k: int| 0 <= k < j ==> (#[trigger] arr@[k])@ == es@[k]@.to_json(),
        decreases es@.len() - j,
    {
        arr.push(es[j].to_json());
        j += 1;
    }
    proof {
        assert(arr_view(arr) =~= args_view(es@).map_values(|e: FieldDefinitionV| e.to_json()));
    }
    arr
}

impl ErrorDefinition {
    /// Returns a new builder.
    pub fn builder() -> (r: Builder)
        ensures
            r.error_name is None,
            r.docs is None,
            r.namespace is None,
            r.code is None,
            r.safe_args@.len() == 0,
            r.unsafe_args@.len() == 0,
    {
        Builder {
            error_name: None,
            docs: None,
            namespace: None,
            code: None,
            safe_args: Vec::new(),
            unsafe_args: Vec::new(),
        }
    }

    /// The error's name.
    pub fn error_name(&self) -> (r: &TypeName)
        ensures
            r@ == self@.error_name,
    {
        &self.error_name
    }

    /// Documentation, if any.
    pub fn docs(&self) -> (r: Option<&Documentation>)
        ensures
            match r {
                Some(d) => self@.docs == Some(d@),
                None => self@.docs is None,
            },
    {
        match &self.docs {
            Some(d) => Some(d),
            None => None,
        }
    }

    /// The namespace half of the wire error name.
    pub fn namespace(&self) -> (r: &ErrorNamespace)
        ensures
            r@ == self@.namespace,
    {
        &self.namespace
    }

    /// The error's broad category.
    pub fn code(&self) -> (r: &ErrorCode)
        ensures
            *r == self@.code,
    {
        &self.code
    }

    /// Parameters safe to log, in declaration order.
    pub fn safe_args(&self) -> (r: &Vec<FieldDefinition>)
        ensures
            args_view(r@) == self@.safe_args,
    {
        &self.safe_args
    }

    /// Parameters that must be redacted, in declaration order.
    pub fn unsafe_args(&self) -> (r: &Vec<FieldDefinition>)
        ensures
            args_view(r@) == self@.unsafe_args,
    {
        &self.unsafe_args
    }

    /// The error's wire name: the namespace joined to the name with a
    /// colon, as the envelope carries it.
    pub fn wire_error_name(&self) -> (r: String)
        ensures
            r@ == self@.namespace + seq![':'] + self@.error_name.name,
    {
        let mut s = self.namespace.0.clone();
        s.append(":");
        s.append(self.error_name.name.as_str());
        proof {
            reveal_strlit(":");
            assert(":"@ =~= seq![':']);
            assert(s@ =~= self@.namespace + seq![':'] + self@.error_name.name);
        }
        s
    }

    /// Encodes the value as its wire object: empty lists and absent docs
    /// leave their keys off.
    pub fn to_json(&self) -> (r: JsonValue)
        ensures
            r@ == self@.to_json(),
    {
        let mut es: Vec<(String, JsonValue)> = Vec::new();
        es.push((String::from_str("errorName"), self.error_name.to_json()));
        match &self.docs {
            Some(d) => {
                es.push((String::from_str("docs"), d.to_json()));
            },
            None => {},
        }
        es.push((String::from_str("namespace"), self.namespace.to_json()));
        es.push((String::from_str("code"), self.code.to_json()));
        if self.safe_args.len() > 0 {
            es.push((String::from_str("safeArgs"), JsonValue::Array(args_to_json(&self.safe_args))));
        }
        if self.unsafe_args.len() > 0 {
            es.push(
                (String::from_str("unsafeArgs"), JsonValue::Array(args_to_json(&self.unsafe_args))),
            );
        }
        proof {
            assert(obj_view(es) =~= self@.to_json()->Obj_0);
        }
        JsonValue::Object(es)
    }

    /// Decodes a wire value, ignoring unknown keys.
    pub fn from_json(v: &JsonValue) -> (r: Result<ErrorDefinition, DecodeError>)
        ensures
            res_view(r) == ErrorDefinitionV::from_json(v@),
    {
        let es: &Vec<(String, JsonValue)> = match v {
            JsonValue::Object(es) => es,
            _ => {
                return Err(DecodeError::TypeMismatch(String::from_str("ErrorDefinition")));
            },
        };
        let ghost ev = obj_view(*es);
        let mut error_name: Option<TypeName> = None;
        let mut docs: Option<Option<String>> = None;
        let mut namespace: Option<String> = None;
        let mut code: Option<ErrorCode> = None;
        let mut safe_args: Option<Vec<FieldDefinition>> = None;
        let mut unsafe_args: Option<Vec<FieldDefinition>> = None;
        let mut i: usize = 0;
        proof {
            assert(ev.take(0) =~= Seq::<EntryV>::empty());
        }
        while i < es.len()
            invariant
                i <= es.len(),
                ev == obj_view(*es),
                ev.len() == es.len(),
                v@ == JsonV::Obj(ev),
                fold_entries(
                    ErrorDefinitionV::step_fn(),
                    ErrorDefinitionV::init(),
                    ev.take(i as int),
                ) == Ok::<ErrorDefinitionParse, DecodeErrorV>(
                    ErrorDefinitionParse {
                        error_name: match error_name {
                            Some(t) => Some(t@),
                            None => None,
                        },
                        docs: match docs {
                            Some(Some(d)) => Some(Some(d@)),
                            Some(None) => Some(None),
                            None => None,
                        },
                        namespace: match namespace {
                            Some(n) => Some(n@),
                            None => None,
                        },
                        code: code,
                        safe_args: match safe_args {
                            Some(sa) => Some(args_view(sa@)),
                            None => None,
                        },
                        unsafe_args: match unsafe_args {
                            Some(ua) => Some(args_view(ua@)),
                            None => None,
                        },
                    },
                ),
            decreases es.len() - i,
        {
            let ghost pre = ev.take(i as int);
            let ghost st_pre = fold_entries(
                ErrorDefinitionV::step_fn(),
                ErrorDefinitionV::init(),
                pre,
            )->Ok_0;
            proof {
                lemma_fold_entries_push(
                    ErrorDefinitionV::step_fn(),
                    ErrorDefinitionV::init(),
                    pre,
                    ev[i as int],
                );
                assert(ev.take(i + 1) =~= pre.push(ev[i as int]));
            }
            let k: &String = &es[i].0;
            let val: &JsonValue = &es[i].1;
            if str_eq(k.as_str(), "errorName") {
                match TypeName::from_json(val) {
                    Ok(t) => {
                        error_name = Some(t);
                    },
                    Err(e) => {
                        proof {
                            lemma_fold_entries_error_at(
                                ErrorDefinitionV::step_fn(),
                                ErrorDefinitionV::init(),
                                ev,
                                i as int,
                                st_pre,
                                e@,
                            );
                        }
                        return Err(e);
                    },
                }
            } else if str_eq(k.as_str(), "docs") {
                match val {
                    JsonValue::String(s) => {
                        docs = Some(Some(s.clone()));
                    },
                    JsonValue::Null => {
                        docs = Some(None);
                    },
                    _ => {
                        proof {
                            lemma_view_shape(es[i as int].1);
                            assert(ErrorDefinitionV::step(st_pre, ev[i as int]) == Err::<
                                ErrorDefinitionParse,
                                DecodeErrorV,
                            >(DecodeErrorV::TypeMismatch("docs"@)));
                            lemma_fold_entries_error_at(
                                ErrorDefinitionV::step_fn(),
                                ErrorDefinitionV::init(),
                                ev,
                                i as int,
                                st_pre,
                                DecodeErrorV::TypeMismatch("docs"@),
                            );
                        }
                        return Err(DecodeError::TypeMismatch(String::from_str("docs")));
                    },
                }
            } else if str_eq(k.as_str(), "namespace") {
                match val {
                    JsonValue::String(s) => {
                        namespace = Some(s.clone());
                    },
                    _ => {
                        proof {
                            lemma_view_shape(es[i as int].1);
                            assert(ErrorDefinitionV::step(st_pre, ev[i as int]) == Err::<
                                ErrorDefinitionParse,
                                DecodeErrorV,
                            >(DecodeErrorV::TypeMismatch("namespace"@)));
                            lemma_fold_entries_error_at(
                                ErrorDefinitionV::step_fn(),
                                ErrorDefinitionV::init(),
                                ev,
                                i as int,
                                st_pre,
                                DecodeErrorV::TypeMismatch("namespace"@),
                            );
                        }
                        return Err(DecodeError::TypeMismatch(String::from_str("namespace")));
                    },
                }
            } else if str_eq(k.as_str(), "code") {
                match ErrorCode::from_json(val) {
                    Ok(c) => {
                        code = Some(c);
                    },
                    Err(e) => {
                        proof {
                            lemma_fold_entries_error_at(
                                ErrorDefinitionV::step_fn(),
                                ErrorDefinitionV::init(),
                                ev,
                                i as int,
                                st_pre,
                                e@,
                            );
                        }
                        return Err(e);
                    },
                }
            } else if str_eq(k.as_str(), "safeArgs") {
                match val {
                    JsonValue::Array(elems) => {
                        let ghost elv = arr_view(*elems);
                        let mut acc: Vec<FieldDefinition> = Vec::new();
                        let mut j: usize = 0;
                        proof {
                            assert(elv.take(0) =~= Seq::<JsonV>::empty());
                            assert(args_view(acc@) =~= Seq::<FieldDefinitionV>::empty());
                        }
                        while j < elems.len()
                            invariant
                                j <= elems.len(),
                                elv == arr_view(*elems),
                                elv.len() == elems.len(),
                                acc@.len() == j,
                                decode_seq(ErrorDefinitionV::fd_fn(), elv.take(j as int)) == Ok::<
                                    Seq<FieldDefinitionV>,
                                    DecodeErrorV,
                                >(args_view(acc@)),
                                i < es.len(),
                                ev == obj_view(*es),
                                ev.len() == es.len(),
                                v@ == JsonV::Obj(ev),
                                ev[i as int].0 == "safeArgs"@,
                                ev[i as int].0 != "errorName"@,
                                ev[i as int].0 != "docs"@,
                                ev[i as int].0 != "namespace"@,
                                ev[i as int].0 != "code"@,
                                ev[i as int].1 == JsonV::Arr(elv),
                                fold_entries(
                                    ErrorDefinitionV::step_fn(),
                                    ErrorDefinitionV::init(),
                                    ev.take(i as int),
                                ) == Ok::<ErrorDefinitionParse, DecodeErrorV>(st_pre),
                            decreases elems.len() - j,
                        {
                            let ghost accv = args_view(acc@);
                            match FieldDefinition::from_json(&elems[j]) {
                                Ok(e) => {
                                    acc.push(e);
                                    proof {
                                        assert(elv.take(j + 1).drop_last() =~= elv.take(j as int));
                                        assert(elv.take(j + 1).last() == elv[j as int]);
                                        assert(args_view(acc@) =~= accv.push(e@));
                                    }
                                },
                                Err(e) => {
                                    proof {
                                        lemma_decode_seq_error_at(
                                            ErrorDefinitionV::fd_fn(),
                                            elv,
                                            j as int,
                                            e@,
                                        );
                                        assert(ErrorDefinitionV::step(st_pre, ev[i as int])
                                            == Err::<ErrorDefinitionParse, DecodeErrorV>(e@));
                                        lemma_fold_entries_error_at(
                                            ErrorDefinitionV::step_fn(),
                                            ErrorDefinitionV::init(),
                                            ev,
                                            i as int,
                                            st_pre,
                                            e@,
                                        );
                                    }
                                    return Err(e);
                                },
                            }
                            j += 1;
                        }
                        proof {
                            assert(elv.take(elems@.len() as int) =~= elv);
                        }
                        safe_args = Some(acc);
                    },
                    _ => {
                        proof {
                            lemma_view_shape(es[i as int].1);
                            assert(ErrorDefinitionV::step(st_pre, ev[i as int]) == Err::<
                                ErrorDefinitionParse,
                                DecodeErrorV,
                            >(DecodeErrorV::TypeMismatch("safeArgs"@)));
                            lemma_fold_entries_error_at(
                                ErrorDefinitionV::step_fn(),
                                ErrorDefinitionV::init(),
                                ev,
                                i as int,
                                st_pre,
                                DecodeErrorV::TypeMismatch("safeArgs"@),
                            );
                        }
                        return Err(DecodeError::TypeMismatch(String::from_str("safeArgs")));
                    },
                }
            } else if str_eq(k.as_str(), "unsafeArgs") {
                match val {
                    JsonValue::Array(elems) => {
                        let ghost elv = arr_view(*elems);
                        let mut acc: Vec<FieldDefinition> = Vec::new();
                        let mut j: usize = 0;
                        proof {
                            assert(elv.take(0) =~= Seq::<JsonV>::empty());
                            assert(args_view(acc@) =~= Seq::<FieldDefinitionV>::empty());
                        }
                        while j < elems.len()
                            invariant
                                j <= elems.len(),
                                elv == arr_view(*elems),
                                elv.len() == elems.len(),
                                acc@.len() == j,
                                decode_seq(ErrorDefinitionV::fd_fn(), elv.take(j as int)) == Ok::<
                                    Seq<FieldDefinitionV>,
                                    DecodeErrorV,
                                >(args_view(acc@)),
                                i < es.len(),
                                ev == obj_view(*es),
                                ev.len() == es.len(),
                                v@ == JsonV::Obj(ev),
                                ev[i as int].0 == "unsafeArgs"@,
                                ev[i as int].0 != "errorName"@,
                                ev[i as int].0 != "docs"@,
                                ev[i as int].0 != "namespace"@,
                                ev[i as int].0 != "code"@,
                                ev[i as int].0 != "safeArgs"@,
                                ev[i as int].1 == JsonV::Arr(elv),
                                fold_entries(
                                    ErrorDefinitionV::step_fn(),
                                    ErrorDefinitionV::init(),
                                    ev.take(i as int),
                                ) == Ok::<ErrorDefinitionParse, DecodeErrorV>(st_pre),
                            decreases elems.len() - j,
                        {
                            let ghost accv = args_view(acc@);
                            match FieldDefinition::from_json(&elems[j]) {
                                Ok(e) => {
                                    acc.push(e);
                                    proof {
                                        assert(elv.take(j + 1).drop_last() =~= elv.take(j as int));
                                        assert(elv.take(j + 1).last() == elv[j as int]);
                                        assert(args_view(acc@) =~= accv.push(e@));
                                    }
                                },
                                Err(e) => {
                                    proof {
                                        lemma_decode_seq_error_at(
                                            ErrorDefinitionV::fd_fn(),
                                            elv,
                                            j as int,
                                            e@,
                                        );
                                        assert(ErrorDefinitionV::step(st_pre, ev[i as int])
                                            == Err::<ErrorDefinitionParse, DecodeErrorV>(e@));
                                        lemma_fold_entries_error_at(
                                            ErrorDefinitionV::step_fn(),
                                            ErrorDefinitionV::init(),
                                            ev,
                                            i as int,
                                            st_pre,
                                            e@,
                                        );
                                    }
                                    return Err(e);
                                },
                            }
                            j += 1;
                        }
                        proof {
                            assert(elv.take(elems@.len() as int) =~= elv);
                        }
                        unsafe_args = Some(acc);
                    },
                    _ => {
                        proof {
                            lemma_view_shape(es[i as int].1);
                            assert(ErrorDefinitionV::step(st_pre, ev[i as int]) == Err::<
                                ErrorDefinitionParse,
                                DecodeErrorV,
                            >(DecodeErrorV::TypeMismatch("unsafeArgs"@)));
                            lemma_fold_entries_error_at(
                                ErrorDefinitionV::step_fn(),
                                ErrorDefinitionV::init(),
                                ev,
                                i as int,
                                st_pre,
                                DecodeErrorV::TypeMismatch("unsafeArgs"@),
                            );
                        }
                        return Err(DecodeError::TypeMismatch(String::from_str("unsafeArgs")));
                    },
                }
            }
            i += 1;
        }
        proof {
            assert(ev.take(es.len() as int) =~= ev);
        }
        let error_name = match error_name {
            Some(t) => t,
            None => {
                return Err(DecodeError::MissingField(String::from_str("errorName")));
            },
        };
        let namespace = match namespace {
            Some(n) => n,
            None => {
                return Err(DecodeError::MissingField(String::from_str("namespace")));
            },
        };
        let code = match code {
            Some(c) => c,
            None => {
                return Err(DecodeError::MissingField(String::from_str("code")));
            },
        };
        let r = ErrorDefinition {
            error_name,
            docs: match docs {
                Some(Some(d)) => Some(Documentation(d)),
                _ => None,
            },
            namespace: ErrorNamespace(namespace),
            code,
            safe_args: match safe_args {
                Some(sa) => sa,
                None => Vec::new(),
            },
            unsafe_args: match unsafe_args {
                Some(ua) => ua,
                None => Vec::new(),
            },
        };
        proof {
            assert(res_view(Ok::<ErrorDefinition, DecodeError>(r)) == ErrorDefinitionV::from_json(
                v@,
            )) by {
                assert(args_view(Seq::<FieldDefinition>::empty())
                    =~= Seq::<FieldDefinitionV>::empty());
                assert(ErrorDefinitionV::from_json(v@)->Ok_0 =~= r@);
            }
        }
        Ok(r)
    }
}

/// Decoding the wire object an encode produced gives back the value.
pub proof fn lemma_error_definition_round_trip(v: ErrorDefinitionV)
    ensures
        ErrorDefinitionV::from_json(v.to_json()) == Ok::<ErrorDefinitionV, DecodeErrorV>(v),
{
    reveal_strlit("errorName");
    reveal_strlit("docs");
    reveal_strlit("namespace");
    reveal_strlit("code");
    reveal_strlit("safeArgs");
    reveal_strlit("unsafeArgs");
    assert("errorName"@.len() == 9);
    assert("docs"@.len() == 4);
    assert("namespace"@.len() == 9);
    assert("code"@.len() == 4);
    assert("safeArgs"@.len() == 8);
    assert("unsafeArgs"@.len() == 10);
    assert("errorName"@[0] == 'e' && "namespace"@[0] == 'n');
    assert("docs"@[0] == 'd' && "code"@[0] == 'c');
    let f = ErrorDefinitionV::step_fn();
    let init = ErrorDefinitionV::init();
    let e_name: EntryV = ("errorName"@, v.error_name.to_json());
    let a1: Seq<EntryV> = seq![e_name];
    let a2: Seq<EntryV> = match v.docs {
        Some(d) => seq![("docs"@, JsonV::Str(d))],
        None => Seq::<EntryV>::empty(),
    };
    let e_ns: EntryV = ("namespace"@, JsonV::Str(v.namespace));
    let e_code: EntryV = ("code"@, JsonV::Str(v.code.wire_name()));
    let a3: Seq<EntryV> = seq![e_ns];
    let a4: Seq<EntryV> = seq![e_code];
    let enc_safe = v.safe_args.map_values(|e: FieldDefinitionV| e.to_json());
    let enc_unsafe = v.unsafe_args.map_values(|e: FieldDefinitionV| e.to_json());
    let a5: Seq<EntryV> = if v.safe_args.len() == 0 {
        Seq::<EntryV>::empty()
    } else {
        seq![("safeArgs"@, JsonV::Arr(enc_safe))]
    };
    let a6: Seq<EntryV> = if v.unsafe_args.len() == 0 {
        Seq::<EntryV>::empty()
    } else {
        seq![("unsafeArgs"@, JsonV::Arr(enc_unsafe))]
    };
    let s = v.to_json()->Obj_0;
    assert(s =~= a1 + (a2 + (a3 + (a4 + (a5 + a6)))));
    crate::names::lemma_type_name_round_trip(v.error_name);
    crate::error_code::lemma_error_code_name_round_trip(v.code);
    let st1 = ErrorDefinitionParse { error_name: Some(v.error_name), ..init };
    assert(f(init, e_name) == Ok::<ErrorDefinitionParse, DecodeErrorV>(st1));
    crate::json::lemma_fold_entries_single(f, init, e_name);
    crate::json::lemma_fold_entries_append(f, init, a1, a2 + (a3 + (a4 + (a5 + a6))));
    let st2 = match v.docs {
        Some(d) => ErrorDefinitionParse { docs: Some(Some(d)), ..st1 },
        None => st1,
    };
    match v.docs {
        Some(d) => {
            let e_docs: EntryV = ("docs"@, JsonV::Str(d));
            assert(f(st1, e_docs) == Ok::<ErrorDefinitionParse, DecodeErrorV>(st2));
            crate::json::lemma_fold_entries_single(f, st1, e_docs);
        },
        None => {
            assert(fold_entries(f, st1, a2) == Ok::<ErrorDefinitionParse, DecodeErrorV>(st2));
        },
    }
    crate::json::lemma_fold_entries_append(f, st1, a2, a3 + (a4 + (a5 + a6)));
    let st3 = ErrorDefinitionParse { namespace: Some(v.namespace), ..st2 };
    assert(f(st2, e_ns) == Ok::<ErrorDefinitionParse, DecodeErrorV>(st3));
    crate::json::lemma_fold_entries_single(f, st2, e_ns);
    crate::json::lemma_fold_entries_append(f, st2, a3, a4 + (a5 + (a6)));
    let st4 = ErrorDefinitionParse { code: Some(v.code), ..st3 };
    assert(f(st3, e_code) == Ok::<ErrorDefinitionParse, DecodeErrorV>(st4));
    crate::json::lemma_fold_entries_single(f, st3, e_code);
    crate::json::lemma_fold_entries_append(f, st3, a4, a5 + a6);
    let st5 = if v.safe_args.len() == 0 {
        st4
    } else {
        ErrorDefinitionParse { safe_args: Some(v.safe_args), ..st4 }
    };
    if v.safe_args.len() > 0 {
        assert forall|j: int| 0 <= j < enc_safe.len() implies ErrorDefinitionV::fd_fn()(
            #[trigger] enc_safe[j],
        ) == Ok::<FieldDefinitionV, DecodeErrorV>(v.safe_args[j]) by {
            crate::fields::lemma_field_definition_round_trip(v.safe_args[j]);
        }
        lemma_decode_seq_all_ok(ErrorDefinitionV::fd_fn(), enc_safe, v.safe_args);
        let e_safe: EntryV = ("safeArgs"@, JsonV::Arr(enc_safe));
        assert(f(st4, e_safe) == Ok::<ErrorDefinitionParse, DecodeErrorV>(st5));
        crate::json::lemma_fold_entries_single(f, st4, e_safe);
    } else {
        assert(fold_entries(f, st4, a5) == Ok::<ErrorDefinitionParse, DecodeErrorV>(st5));
    }
    crate::json::lemma_fold_entries_append(f, st4, a5, a6);
    let st6 = if v.unsafe_args.len() == 0 {
        st5
    } else {
        ErrorDefinitionParse { unsafe_args: Some(v.unsafe_args), ..st5 }
    };
    if v.unsafe_args.len() > 0 {
        assert forall|j: int| 0 <= j < enc_unsafe.len() implies ErrorDefinitionV::fd_fn()(
            #[trigger] enc_unsafe[j],
        ) == Ok::<FieldDefinitionV, DecodeErrorV>(v.unsafe_args[j]) by {
            crate::fields::lemma_field_definition_round_trip(v.unsafe_args[j]);
        }
        lemma_decode_seq_all_ok(ErrorDefinitionV::fd_fn(), enc_unsafe, v.unsafe_args);
        let e_unsafe: EntryV = ("unsafeArgs"@, JsonV::Arr(enc_unsafe));
        assert(f(st5, e_unsafe) == Ok::<ErrorDefinitionParse, DecodeErrorV>(st6));
        crate::json::lemma_fold_entries_single(f, st5, e_unsafe);
    } else {
        assert(fold_entries(f, st5, a6) == Ok::<ErrorDefinitionParse, DecodeErrorV>(st6));
    }
    assert(fold_entries(f, init, s) == Ok::<ErrorDefinitionParse, DecodeErrorV>(st6));
    if v.safe_args.len() == 0 {
        assert(v.safe_args =~= Seq::<FieldDefinitionV>::empty());
    }
    if v.unsafe_args.len() == 0 {
        assert(v.unsafe_args =~= Seq::<FieldDefinitionV>::empty());
    }
    assert(ErrorDefinitionV::from_json(v.to_json())->Ok_0 =~= v);
}

/// With no docs and no parameters, only the three required keys appear on
/// the wire, in declaration order.
pub proof fn lemma_error_definition_omits_empty(v: ErrorDefinitionV)
    requires
        v.docs is None,
        v.safe_args.len() == 0,
        v.unsafe_args.len() == 0,
    ensures
        v.to_json()->Obj_0.len() == 3,
        v.to_json()->Obj_0[0].0 == "errorName"@,
        v.to_json()->Obj_0[1].0 == "namespace"@,
        v.to_json()->Obj_0[2].0 == "code"@,
{
    assert(v.to_json()->Obj_0 =~= seq![
        ("errorName"@, v.error_name.to_json()),
        ("namespace"@, JsonV::Str(v.namespace)),
        ("code"@, JsonV::Str(v.code.wire_name())),
    ]);
}


/// A wire object that never mentions the required name fails with its
/// `MissingField` error, provided every entry it does hold is well shaped.
pub proof fn lemma_error_definition_missing_name(entries: Seq<EntryV>)
    requires
        forall|j: int| 0 <= j < entries.len() ==> (#[trigger] entries[j]).0 != "errorName"@,
        forall|j: int, st: ErrorDefinitionParse|
            0 <= j < entries.len() ==> (#[trigger] ErrorDefinitionV::step(st, entries[j])) is Ok,
    ensures
        ErrorDefinitionV::from_json(JsonV::Obj(entries)) == Err::<ErrorDefinitionV, DecodeErrorV>(
            DecodeErrorV::MissingField("errorName"@),
        ),
{
    let p = |st: ErrorDefinitionParse| st.error_name is None;
    crate::json::lemma_fold_entries_preserves(
        ErrorDefinitionV::step_fn(),
        ErrorDefinitionV::init(),
        entries,
        p,
    );
}


/// With the name present but the namespace's key never mentioned,
/// decoding fails with the namespace's `MissingField` error: the name is
/// checked first, so its presence must be witnessed.
pub proof fn lemma_error_definition_missing_namespace(entries: Seq<EntryV>, w: int)
    requires
        0 <= w < entries.len(),
        entries[w].0 == "errorName"@,
        forall|j: int| 0 <= j < entries.len() ==> (#[trigger] entries[j]).0 != "namespace"@,
        forall|j: int, st: ErrorDefinitionParse|
            0 <= j < entries.len() ==> (#[trigger] ErrorDefinitionV::step(st, entries[j])) is Ok,
    ensures
        ErrorDefinitionV::from_json(JsonV::Obj(entries)) == Err::<ErrorDefinitionV, DecodeErrorV>(
            DecodeErrorV::MissingField("namespace"@),
        ),
{
    reveal_strlit("errorName");
    reveal_strlit("namespace");
    reveal_strlit("docs");
    assert("errorName"@.len() == 9 && "namespace"@.len() == 9 && "docs"@.len() == 4);
    assert("errorName"@[0] == 'e' && "namespace"@[0] == 'n');
    let q = |st: ErrorDefinitionParse| st.error_name is Some;
    crate::json::lemma_fold_entries_establishes(
        ErrorDefinitionV::step_fn(),
        ErrorDefinitionV::init(),
        entries,
        w,
        q,
    );
    let p = |st: ErrorDefinitionParse| st.namespace is None;
    crate::json::lemma_fold_entries_preserves(
        ErrorDefinitionV::step_fn(),
        ErrorDefinitionV::init(),
        entries,
        p,
    );
}

/// With the name and namespace present but the code's key never
/// mentioned, decoding fails with the code's `MissingField` error.
pub proof fn lemma_error_definition_missing_code(entries: Seq<EntryV>, w1: int, w2: int)
    requires
        0 <= w1 < entries.len(),
        0 <= w2 < entries.len(),
        entries[w1].0 == "errorName"@,
        entries[w2].0 == "namespace"@,
        forall|j: int| 0 <= j < entries.len() ==> (#[trigger] entries[j]).0 != "code"@,
        forall|j: int, st: ErrorDefinitionParse|
            0 <= j < entries.len() ==> (#[trigger] ErrorDefinitionV::step(st, entries[j])) is Ok,
    ensures
        ErrorDefinitionV::from_json(JsonV::Obj(entries)) == Err::<ErrorDefinitionV, DecodeErrorV>(
            DecodeErrorV::MissingField("code"@),
        ),
{
    reveal_strlit("errorName");
    reveal_strlit("namespace");
    reveal_strlit("docs");
    reveal_strlit("code");
    assert("errorName"@.len() == 9 && "namespace"@.len() == 9 && "docs"@.len() == 4 && "code"@.len()
        == 4);
    assert("errorName"@[0] == 'e' && "namespace"@[0] == 'n');
    assert("docs"@[0] == 'd' && "code"@[0] == 'c');
    let q1 = |st: ErrorDefinitionParse| st.error_name is Some;
    crate::json::lemma_fold_entries_establishes(
        ErrorDefinitionV::step_fn(),
        ErrorDefinitionV::init(),
        entries,
        w1,
        q1,
    );
    let q2 = |st: ErrorDefinitionParse| st.namespace is Some;
    crate::json::lemma_fold_entries_establishes(
        ErrorDefinitionV::step_fn(),
        ErrorDefinitionV::init(),
        entries,
        w2,
        q2,
    );
    let p = |st: ErrorDefinitionParse| st.code is None;
    crate::json::lemma_fold_entries_preserves(
        ErrorDefinitionV::step_fn(),
        ErrorDefinitionV::init(),
        entries,
        p,
    );
}

/// Decoding tolerates an unrecognized key anywhere in the wire object.
pub proof fn lemma_error_definition_ignores_unknown(entries: Seq<EntryV>, i: int, e: EntryV)
    requires
        0 <= i <= entries.len(),
        e.0 != "errorName"@,
        e.0 != "docs"@,
        e.0 != "namespace"@,
        e.0 != "code"@,
        e.0 != "safeArgs"@,
        e.0 != "unsafeArgs"@,
    ensures
        ErrorDefinitionV::from_json(JsonV::Obj(entries.insert(i, e)))
            == ErrorDefinitionV::from_json(JsonV::Obj(entries)),
{
    assert(forall|st: ErrorDefinitionParse|
        ErrorDefinitionV::step_fn()(st, e) == Ok::<ErrorDefinitionParse, DecodeErrorV>(st));
    lemma_fold_entries_insert_ignored(
        ErrorDefinitionV::step_fn(),
        ErrorDefinitionV::init(),
        entries,
        i,
        e,
    );
}

/// A builder for the [`ErrorDefinition`] type.
#[derive(Debug, Clone)]
pub struct Builder {
    /// The error's name, once set.
    pub error_name: Option<TypeName>,
    /// Documentation, if set.
    pub docs: Option<Documentation>,
    /// The namespace, once set.
    pub namespace: Option<ErrorNamespace>,
    /// The category, once set.
    pub code: Option<ErrorCode>,
    /// The safe parameters accumulated so far.
    pub safe_args: Vec<FieldDefinition>,
    /// The unsafe parameters accumulated so far.
    pub unsafe_args: Vec<FieldDefinition>,
}

impl Builder {
    /// Every required field has been set.
    pub open spec fn complete(&self) -> bool {
        self.error_name is Some && self.namespace is Some && self.code is Some
    }

    /// Sets the error's name. Required.
    pub fn error_name(&mut self, error_name: TypeName) -> (r: &mut Builder)
        ensures
            *r == (Builder { error_name: Some(error_name), ..*old(self) }),
            *final(self) == *final(r),
    {
        self.error_name = Some(error_name);
        self
    }

    /// Sets or clears the documentation.
    pub fn docs(&mut self, docs: Option<Documentation>) -> (r: &mut Builder)
        ensures
            *r == (Builder { docs: docs, ..*old(self) }),
            *final(self) == *final(r),
    {
        self.docs = docs;
        self
    }

    /// Sets the namespace. Required.
    pub fn namespace(&mut self, namespace: ErrorNamespace) -> (r: &mut Builder)
        ensures
            *r == (Builder { namespace: Some(namespace), ..*old(self) }),
            *final(self) == *final(r),
    {
        self.namespace = Some(namespace);
        self
    }

    /// Sets the category. Required.
    pub fn code(&mut self, code: ErrorCode) -> (r: &mut Builder)
        ensures
            *r == (Builder { code: Some(code), ..*old(self) }),
            *final(self) == *final(r),
    {
        self.code = Some(code);
        self
    }

    /// Replaces the safe parameter list.
    pub fn safe_args(&mut self, safe_args: Vec<FieldDefinition>) -> (r: &mut Builder)
        ensures
            *r == (Builder { safe_args: safe_args, ..*old(self) }),
            *final(self) == *final(r),
    {
        self.safe_args = safe_args;
        self
    }

    /// Appends the given safe parameters.
    pub fn extend_safe_args(&mut self, safe_args: Vec<FieldDefinition>) -> (r: &mut Builder)
        ensures
            r.safe_args@ == old(self).safe_args@ + safe_args@,
            r.error_name == old(self).error_name,
            r.docs == old(self).docs,
            r.namespace == old(self).namespace,
            r.code == old(self).code,
            r.unsafe_args == old(self).unsafe_args,
            *final(self) == *final(r),
    {
        let mut safe_args = safe_args;
        self.safe_args.append(&mut safe_args);
        self
    }

    /// Appends one safe parameter.
    pub fn push_safe_args(&mut self, value: FieldDefinition) -> (r: &mut Builder)
        ensures
            r.safe_args@ == old(self).safe_args@.push(value),
            r.error_name == old(self).error_name,
            r.docs == old(self).docs,
            r.namespace == old(self).namespace,
            r.code == old(self).code,
            r.unsafe_args == old(self).unsafe_args,
            *final(self) == *final(r),
    {
        self.safe_args.push(value);
        self
    }

    /// Replaces the unsafe parameter list.
    pub fn unsafe_args(&mut self, unsafe_args: Vec<FieldDefinition>) -> (r: &mut Builder)
        ensures
            *r == (Builder { unsafe_args: unsafe_args, ..*old(self) }),
            *final(self) == *final(r),
    {
        self.unsafe_args = unsafe_args;
        self
    }

    /// Appends the given unsafe parameters.
    pub fn extend_unsafe_args(&mut self, unsafe_args: Vec<FieldDefinition>) -> (r: &mut Builder)
        ensures
            r.unsafe_args@ == old(self).unsafe_args@ + unsafe_args@,
            r.error_name == old(self).error_name,
            r.docs == old(self).docs,
            r.namespace == old(self).namespace,
            r.code == old(self).code,
            r.safe_args == old(self).safe_args,
            *final(self) == *final(r),
    {
        let mut unsafe_args = unsafe_args;
        self.unsafe_args.append(&mut unsafe_args);
        self
    }

    /// Appends one unsafe parameter.
    pub fn push_unsafe_args(&mut self, value: FieldDefinition) -> (r: &mut Builder)
        ensures
            r.unsafe_args@ == old(self).unsafe_args@.push(value),
            r.error_name == old(self).error_name,
            r.docs == old(self).docs,
            r.namespace == old(self).namespace,
            r.code == old(self).code,
            r.safe_args == old(self).safe_args,
            *final(self) == *final(r),
    {
        self.unsafe_args.push(value);
        self
    }

    /// Constructs a new instance of the type. Every required field must
    /// have been set; unset lists and docs get their empty defaults. The
    /// builder stays usable: repeated builds give equal values.
    pub fn build(&self) -> (r: ErrorDefinition)
        requires
            self.complete(),
        ensures
            r@ == (ErrorDefinitionV {
                error_name: (self.error_name->Some_0)@,
                docs: match self.docs {
                    Some(d) => Some(d@),
                    None => None,
                },
                namespace: (self.namespace->Some_0)@,
                code: self.code->Some_0,
                safe_args: args_view(self.safe_args@),
                unsafe_args: args_view(self.unsafe_args@),
            }),
    {
        let error_name = match &self.error_name {
            Some(t) => TypeName { name: t.name.clone(), package: t.package.clone() },
            None => {
                proof {
                    assert(false);
                }
                TypeName { name: String::new(), package: String::new() }
            },
        };
        let namespace = match &self.namespace {
            Some(n) => ErrorNamespace(n.0.clone()),
            None => {
                proof {
                    assert(false);
                }
                ErrorNamespace(String::new())
            },
        };
        let code = match &self.code {
            Some(c) => *c,
            None => {
                proof {
                    assert(false);
                }
                ErrorCode::Internal
            },
        };
        ErrorDefinition {
            error_name,
            docs: match &self.docs {
                Some(d) => Some(Documentation(d.0.clone())),
                None => None,
            },
            namespace,
            code,
            safe_args: copy_fields(&self.safe_args),
            unsafe_args: copy_fields(&self.unsafe_args),
        }
    }
}

impl Default for Builder {
    /// An empty builder: no field set yet.
    fn default() -> (r: Builder)
        ensures
            r.error_name is None,
            r.docs is None,
            r.namespace is None,
            r.code is None,
            r.safe_args@.len() == 0,
            r.unsafe_args@.len() == 0,
    {
        Builder {
            error_name: None,
            docs: None,
            namespace: None,
            code: None,
            safe_args: Vec::new(),
            unsafe_args: Vec::new(),
        }
    }
}

impl From<ErrorDefinition> for Builder {
    /// A builder pre-populated with the value's fields, for copy-and-modify.
    fn from(v: ErrorDefinition) -> (r: Builder) {
        Builder {
            error_name: Some(v.error_name),
            docs: v.docs,
            namespace: Some(v.namespace),
            code: Some(v.code),
            safe_args: v.safe_args,
            unsafe_args: v.unsafe_args,
        }
    }
}

impl vstd::std_specs::convert::FromSpecImpl<ErrorDefinition> for Builder {
    open spec fn obeys_from_spec() -> bool {
        true
    }

    open spec fn from_spec(v: ErrorDefinition) -> Builder {
        Builder {
            error_name: Some(v.error_name),
            docs: v.docs,
            namespace: Some(v.namespace),
            code: Some(v.code),
            safe_args: v.safe_args,
            unsafe_args: v.unsafe_args,
        }
    }
}

} // verus!
