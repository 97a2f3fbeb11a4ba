//! The name of a declared type or service: an UpperCamelCase name together
//! with a period-delimited lowercase package.

use vstd::prelude::*;
use vstd::string::*;

use crate::json::{
    fold_entries, json_view, lemma_fold_entries_insert_ignored, lemma_fold_entries_push,
    lemma_fold_entries_preserves, obj_view, res_view, DecodeError, DecodeErrorV, EntryV, JsonV,
    JsonValue,
};
use crate::text::str_eq;

verus! {

broadcast use vstd::string::group_string_axioms;

/// Ghost form of a [`TypeName`].
#[verifier::ext_equal]
pub ghost struct TypeNameV {
    pub name: Seq<char>,
    pub package: Seq<char>,
}

/// The name of a custom type or service, together with its package.
#[derive(Debug, Clone, PartialEq, Eq, PartialOrd, Ord, Hash)]
pub struct TypeName {
    /// The type's UpperCamelCase name.
    pub name: String,
    /// A period-delimited string of lowercase package names.
    pub package: String,
}

impl View for TypeName {
    type V = TypeNameV;

    open spec fn view(&self) -> TypeNameV {
        TypeNameV { name: self.name@, package: self.package@ }
    }
}

/// Decode state: which fields have been seen so far, and with what values.
pub ghost struct TypeNameParse {
    pub name: Option<Seq<char>>,
    pub package: Option<Seq<char>>,
}

impl TypeNameV {
    /// The wire object of a type name: both fields are required, so both
    /// keys are always present, in declaration order.
    pub open spec fn to_json(self) -> JsonV {
        JsonV::Obj(
            seq![("name"@, JsonV::Str(self.name)), ("package"@, JsonV::Str(self.package))],
        )
    }

    /// How one wire entry advances the decode state: a known key overwrites
    /// what an earlier occurrence stored, an unknown key changes nothing.
    pub open spec fn step(st: TypeNameParse, e: EntryV) -> Result<TypeNameParse, DecodeErrorV> {
        if e.0 == "name"@ {
            match e.1 {
                JsonV::Str(s) => Ok(TypeNameParse { name: Some(s), ..st }),
                _ => Err(DecodeErrorV::TypeMismatch("name"@)),
            }
        } else if e.0 == "package"@ {
            match e.1 {
                JsonV::Str(s) => Ok(TypeNameParse { package: Some(s), ..st }),
                _ => Err(DecodeErrorV::TypeMismatch("package"@)),
            }
        } else {
            Ok(st)
        }
    }

    /// The entry dispatch as a function value, for the shared fold.
    pub open spec fn step_fn() -> spec_fn(TypeNameParse, EntryV) -> Result<
        TypeNameParse,
        DecodeErrorV,
    > {
        |st: TypeNameParse, e: EntryV| TypeNameV::step(st, e)
    }

    /// The state before any entry has been read.
    pub open spec fn init() -> TypeNameParse {
        TypeNameParse { name: None, package: None }
    }

    /// What decoding a wire value yields: the entries are folded in wire
    /// order, then any missing required field fails, in declaration order.
    pub open spec fn from_json(v: JsonV) -> Result<TypeNameV, DecodeErrorV> {
        match v {
            JsonV::Obj(entries) => match fold_entries(
                TypeNameV::step_fn(),
                TypeNameV::init(),
                entries,
            ) {
                Ok(st) => match st.name {
                    Some(n) => match st.package {
                        Some(p) => Ok(TypeNameV { name: n, package: p }),
                        None => Err(DecodeErrorV::MissingField("package"@)),
                    },
                    None => Err(DecodeErrorV::MissingField("name"@)),
                },
                Err(e) => Err(e),
            },
            _ => Err(DecodeErrorV::TypeMismatch("TypeName"@)),
        }
    }
}

impl TypeName {
    /// Constructs a new instance of the type.
    pub fn new(name: String, package: String) -> (r: TypeName)
        ensures
            r@ == (TypeNameV { name: name@, package: package@ }),
    {
        TypeName { name, package }
    }

    /// Returns a new builder.
    pub fn builder() -> (r: Builder)
        ensures
            r.name is None,
            r.package is None,
    {
        Builder { name: None, package: None }
    }

    /// The type's UpperCamelCase name.
    pub fn name(&self) -> (r: &str)
        ensures
            r@ == self@.name,
    {
        self.name.as_str()
    }

    /// The type's period-delimited lowercase package.
    pub fn package(&self) -> (r: &str)
        ensures
            r@ == self@.package,
    {
        self.package.as_str()
    }

    /// Encodes the value as its wire object.
    pub fn to_json(&self) -> (r: JsonValue)
        ensures
            r@ == self@.to_json(),
    {
        let mut es: Vec<(String, JsonValue)> = Vec::new();
        es.push((String::from_str("name"), JsonValue::String(self.name.clone())));
        es.push((String::from_str("package"), JsonValue::String(self.package.clone())));
        proof {
            assert(obj_view(es) =~= self@.to_json()->Obj_0);
        }
        JsonValue::Object(es)
    }

    /// Decodes a wire value, ignoring unknown keys.
    pub fn from_json(v: &JsonValue) -> (r: Result<TypeName, DecodeError>)
        ensures
            res_view(r) == TypeNameV::from_json(v@),
    {
        let es: &Vec<(String, JsonValue)> = match v {
            JsonValue::Object(es) => es,
            _ => {
                return Err(DecodeError::TypeMismatch(String::from_str("TypeName")));
            },
        };
        let ghost ev = obj_view(*es);
        proof {
            assert(v@ == JsonV::Obj(ev));
        }
        let mut name: Option<String> = None;
        let mut package: Option<String> = None;
        let mut i: usize = 0;
        proof {
            assert(ev.take(0) =~= Seq::<EntryV>::empty());
        }
        while i < es.len()
            invariant
                i <= es.len(),
                ev == obj_view(*es),
                ev.len() == es.len(),
                v@ == JsonV::Obj(ev),
                fold_entries(TypeNameV::step_fn(), TypeNameV::init(), ev.take(i as int)) == Ok::<
                    TypeNameParse,
                    DecodeErrorV,
                >(
                    TypeNameParse {
                        name: match name {
                            Some(n) => Some(n@),
                            None => None,
                        },
                        package: match package {
                            Some(p) => Some(p@),
                            None => None,
                        },
                    },
                ),
            decreases es.len() - i,
        {
            let ghost pre = ev.take(i as int);
            let ghost st_pre = fold_entries(TypeNameV::step_fn(), TypeNameV::init(), pre)->Ok_0;
            proof {
                lemma_fold_entries_push(TypeNameV::step_fn(), TypeNameV::init(), pre, ev[i as int]);
                assert(ev.take(i + 1) =~= pre.push(ev[i as int]));
            }
            let k: &String = &es[i].0;
            let val: &JsonValue = &es[i].1;
            if str_eq(k.as_str(), "name") {
                match val {
                    JsonValue::String(s) => {
                        name = Some(s.clone());
                    },
                    _ => {
                        proof {
                            crate::json::lemma_view_shape(es[i as int].1);
                            assert(TypeNameV::step(st_pre, ev[i as int]) == Err::<
                                TypeNameParse,
                                DecodeErrorV,
                            >(DecodeErrorV::TypeMismatch("name"@)));
                            crate::json::lemma_fold_entries_error_at(
                                TypeNameV::step_fn(),
                                TypeNameV::init(),
                                ev,
                                i as int,
                                st_pre,
                                DecodeErrorV::TypeMismatch("name"@),
                            );
                        }
                        return Err(DecodeError::TypeMismatch(String::from_str("name")));
                    },
                }
            } else if str_eq(k.as_str(), "package") {
                match val {
                    JsonValue::String(s) => {
                        package = Some(s.clone());
                    },
                    _ => {
                        proof {
                            crate::json::lemma_view_shape(es[i as int].1);
                            assert(TypeNameV::step(st_pre, ev[i as int]) == Err::<
                                TypeNameParse,
                                DecodeErrorV,
                            >(DecodeErrorV::TypeMismatch("package"@)));
                            crate::json::lemma_fold_entries_error_at(
                                TypeNameV::step_fn(),
                                TypeNameV::init(),
                                ev,
                                i as int,
                                st_pre,
                                DecodeErrorV::TypeMismatch("package"@),
                            );
                        }
                        return Err(DecodeError::TypeMismatch(String::from_str("package")));
                    },
                }
            }
            i += 1;
        }
        proof {
            assert(ev.take(es.len() as int) =~= ev);
        }
        let name = match name {
            Some(n) => n,
            None => {
                return Err(DecodeError::MissingField(String::from_str("name")));
            },
        };
        let package = match package {
            Some(p) => p,
            None => {
                return Err(DecodeError::MissingField(String::from_str("package")));
            },
        };
        Ok(TypeName { name, package })
    }
}

/// Decoding the wire object an encode produced gives back the value: the
/// wire form carries every field faithfully.
pub proof fn lemma_type_name_round_trip(v: TypeNameV)
    ensures
        TypeNameV::from_json(v.to_json()) == Ok::<TypeNameV, DecodeErrorV>(v),
{
    reveal_strlit("name");
    reveal_strlit("package");
    assert("name"@.len() == 4);
    assert("package"@.len() == 7);
    let e0: EntryV = ("name"@, JsonV::Str(v.name));
    let e1: EntryV = ("package"@, JsonV::Str(v.package));
    let s = v.to_json()->Obj_0;
    assert(s.first() == e0);
    assert(s.drop_first() =~= seq![e1]);
    let st1 = TypeNameParse { name: Some(v.name), package: None };
    let st2 = TypeNameParse { name: Some(v.name), package: Some(v.package) };
    assert(TypeNameV::step_fn()(TypeNameV::init(), e0) == Ok::<TypeNameParse, DecodeErrorV>(st1));
    assert(TypeNameV::step_fn()(st1, e1) == Ok::<TypeNameParse, DecodeErrorV>(st2));
    assert(seq![e1].drop_first() =~= Seq::<EntryV>::empty());
    assert(fold_entries(TypeNameV::step_fn(), st2, Seq::<EntryV>::empty()) == Ok::<
        TypeNameParse,
        DecodeErrorV,
    >(st2));
    assert(fold_entries(TypeNameV::step_fn(), st1, seq![e1]) == Ok::<TypeNameParse, DecodeErrorV>(
        st2,
    ));
    assert(fold_entries(TypeNameV::step_fn(), TypeNameV::init(), s) == Ok::<
        TypeNameParse,
        DecodeErrorV,
    >(st2));
    assert(TypeNameV::from_json(v.to_json())->Ok_0 =~= v);
}

/// Decoding tolerates an unrecognized key anywhere in the wire object and
/// yields the same result as without it.
pub proof fn lemma_type_name_ignores_unknown(entries: Seq<EntryV>, i: int, e: EntryV)
    requires
        0 <= i <= entries.len(),
        e.0 != "name"@,
        e.0 != "package"@,
    ensures
        TypeNameV::from_json(JsonV::Obj(entries.insert(i, e))) == TypeNameV::from_json(
            JsonV::Obj(entries),
        ),
{
    assert(forall|st: TypeNameParse|
        TypeNameV::step_fn()(st, e) == Ok::<TypeNameParse, DecodeErrorV>(st));
    lemma_fold_entries_insert_ignored(TypeNameV::step_fn(), TypeNameV::init(), entries, i, e);
}

/// A wire object that never mentions a required field's key fails to decode
/// with exactly that field's `MissingField` error.
pub proof fn lemma_type_name_missing_name(entries: Seq<EntryV>)
    requires
        forall|j: int| 0 <= j < entries.len() ==> (#[trigger] entries[j]).0 != "name"@,
        forall|j: int|
            0 <= j < entries.len() && (#[trigger] entries[j]).0 == "package"@ ==> entries[j].1
                is Str,
    ensures
        TypeNameV::from_json(JsonV::Obj(entries)) == Err::<TypeNameV, DecodeErrorV>(
            DecodeErrorV::MissingField("name"@),
        ),
{
    let p = |st: TypeNameParse| st.name is None;
    lemma_fold_entries_preserves(TypeNameV::step_fn(), TypeNameV::init(), entries, p);
}

/// Symmetrically, a wire object that carries the name but never the
/// package key fails with the package's `MissingField` error: the name is
/// checked first, so its presence must be witnessed.
pub proof fn lemma_type_name_missing_package(entries: Seq<EntryV>, w: int)
    requires
        0 <= w < entries.len(),
        entries[w].0 == "name"@,
        forall|j: int| 0 <= j < entries.len() ==> (#[trigger] entries[j]).0 != "package"@,
        forall|j: int, st: TypeNameParse|
            0 <= j < entries.len() ==> (#[trigger] TypeNameV::step(st, entries[j])) is Ok,
    ensures
        TypeNameV::from_json(JsonV::Obj(entries)) == Err::<TypeNameV, DecodeErrorV>(
            DecodeErrorV::MissingField("package"@),
        ),
{
    let q = |st: TypeNameParse| st.name is Some;
    crate::json::lemma_fold_entries_establishes(
        TypeNameV::step_fn(),
        TypeNameV::init(),
        entries,
        w,
        q,
    );
    let p = |st: TypeNameParse| st.package is None;
    lemma_fold_entries_preserves(TypeNameV::step_fn(), TypeNameV::init(), entries, p);
}

/// A builder for the [`TypeName`] type.
#[derive(Debug, Clone)]
pub struct Builder {
    /// The type's name, once set.
    pub name: Option<String>,
    /// The type's package, once set.
    pub package: Option<String>,
}

impl Builder {
    /// Every required field has been set.
    pub open spec fn complete(&self) -> bool {
        self.name is Some && self.package is Some
    }

    /// Sets the type's name. Required.
    pub fn name(&mut self, name: String) -> (r: &mut Builder)
        ensures
            r.name == Some(name),
            r.package == old(self).package,
            *final(self) == *final(r),
    {
        self.name = Some(name);
        self
    }

    /// Sets the type's package. Required.
    pub fn package(&mut self, package: String) -> (r: &mut Builder)
        ensures
            r.package == Some(package),
            r.name == old(self).name,
            *final(self) == *final(r),
    {
        self.package = Some(package);
        self
    }

    /// Constructs a new instance of the type. Every required field must
    /// have been set; an incomplete builder has no value to give.
    pub fn build(&self) -> (r: TypeName)
        requires
            self.complete(),
        ensures
            r@ == (TypeNameV {
                name: (self.name->Some_0)@,
                package: (self.package->Some_0)@,
            }),
    {
        match (&self.name, &self.package) {
            (Some(n), Some(p)) => TypeName { name: n.clone(), package: p.clone() },
            _ => {
                proof {
                    assert(false);
                }
                TypeName { name: String::new(), package: String::new() }
            },
        }
    }
}

impl Default for Builder {
    /// An empty builder: no field set yet.
    fn default() -> (r: Builder)
        ensures
            r.name is None,
            r.package is None,
    {
        Builder { name: None, package: None }
    }
}

impl From<TypeName> for Builder {
    /// A builder pre-populated with the value's fields, for copy-and-modify.
    fn from(v: TypeName) -> (r: Builder) {
        Builder { name: Some(v.name), package: Some(v.package) }
    }
}

impl vstd::std_specs::convert::FromSpecImpl<TypeName> for Builder {
    open spec fn obeys_from_spec() -> bool {
        true
    }

    open spec fn from_spec(v: TypeName) -> Builder {
        Builder { name: Some(v.name), package: Some(v.package) }
    }
}

} // verus!
