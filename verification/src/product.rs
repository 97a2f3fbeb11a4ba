//! Example record types of the object model: a record with an enum field
//! and a record with an optional field, each with the standard codec.

use vstd::prelude::*;
use vstd::string::*;

use crate::json::{
    fold_entries, lemma_fold_entries_error_at, lemma_fold_entries_insert_ignored,
    lemma_fold_entries_push, lemma_view_shape, obj_view, res_view, DecodeError, DecodeErrorV,
    EntryV, JsonV, JsonValue,
};
use crate::text::str_eq;

verus! {

broadcast use vstd::string::group_string_axioms;

/// Ghost form of an [`EnumExample`].
pub ghost enum EnumExampleV {
    One,
    Two,
    Unknown(Seq<char>),
}

/// A closed set of named constants, kept open for forward compatibility:
/// an unrecognized wire name is carried through unchanged.
#[derive(Debug, Clone, PartialEq, Eq, PartialOrd, Ord, Hash)]
pub enum EnumExample {
    One,
    Two,
    /// A wire name this version does not know; kept verbatim.
    Unknown(String),
}

impl View for EnumExample {
    type V = EnumExampleV;

    open spec fn view(&self) -> EnumExampleV {
        match self {
            EnumExample::One => EnumExampleV::One,
            EnumExample::Two => EnumExampleV::Two,
            EnumExample::Unknown(s) => EnumExampleV::Unknown(s@),
        }
    }
}

impl EnumExampleV {
    /// The name the value uses on the wire.
    pub open spec fn wire_str(self) -> Seq<char> {
        match self {
            EnumExampleV::One => "ONE"@,
            EnumExampleV::Two => "TWO"@,
            EnumExampleV::Unknown(s) => s,
        }
    }

    /// Which value a wire name denotes: an unknown name is kept, not
    /// rejected.
    pub open spec fn from_wire_str(s: Seq<char>) -> EnumExampleV {
        if s == "ONE"@ {
            EnumExampleV::One
        } else if s == "TWO"@ {
            EnumExampleV::Two
        } else {
            EnumExampleV::Unknown(s)
        }
    }

    /// The unknown variant never shadows a known name; decoded values
    /// always satisfy this.
    pub open spec fn wf(self) -> bool {
        match self {
            EnumExampleV::Unknown(s) => s != "ONE"@ && s != "TWO"@,
            _ => true,
        }
    }
}

impl EnumExample {
    /// The name the value uses on the wire.
    pub fn as_str(&self) -> (r: &str)
        ensures
            r@ == self@.wire_str(),
    {
        match self {
            EnumExample::One => "ONE",
            EnumExample::Two => "TWO",
            EnumExample::Unknown(s) => s.as_str(),
        }
    }

    /// The value a wire name denotes.
    pub fn from_wire(s: &str) -> (r: EnumExample)
        ensures
            r@ == EnumExampleV::from_wire_str(s@),
            r@.wf(),
    {
        if str_eq(s, "ONE") {
            EnumExample::One
        } else if str_eq(s, "TWO") {
            EnumExample::Two
        } else {
            EnumExample::Unknown(String::from_str(s))
        }
    }
}

/// A wire name maps back to the value that produced it, for well-formed
/// values: the enum survives its wire form.
pub proof fn lemma_enum_example_round_trip(v: EnumExampleV)
    requires
        v.wf(),
    ensures
        EnumExampleV::from_wire_str(v.wire_str()) == v,
{
    reveal_strlit("ONE");
    reveal_strlit("TWO");
    assert("ONE"@.len() == 3);
    assert("TWO"@[0] == 'T');
    assert("ONE"@[0] == 'O');
}

/// Ghost form of an [`EnumFieldExample`].
#[verifier::ext_equal]
pub ghost struct EnumFieldExampleV {
    pub enum_: EnumExampleV,
}

/// A record with a single required enum field.
#[derive(Debug, Clone, PartialEq, Eq, PartialOrd, Ord, Hash)]
pub struct EnumFieldExample {
    /// The record's one field.
    pub enum_: EnumExample,
}

impl View for EnumFieldExample {
    type V = EnumFieldExampleV;

    open spec fn view(&self) -> EnumFieldExampleV {
        EnumFieldExampleV { enum_: self.enum_@ }
    }
}

/// Decode state for [`EnumFieldExample`].
pub ghost struct EnumFieldExampleParse {
    pub enum_: Option<EnumExampleV>,
}

impl EnumFieldExampleV {
    /// The wire object: the one required key is always present.
    pub open spec fn to_json(self) -> JsonV {
        JsonV::Obj(seq![("enum"@, JsonV::Str(self.enum_.wire_str()))])
    }

    /// How one wire entry advances the decode state.
    pub open spec fn step(st: EnumFieldExampleParse, e: EntryV) -> Result<
        EnumFieldExampleParse,
        DecodeErrorV,
    > {
        if e.0 == "enum"@ {
            match e.1 {
                JsonV::Str(s) => Ok(
                    EnumFieldExampleParse { enum_: Some(EnumExampleV::from_wire_str(s)) },
                ),
                _ => Err(DecodeErrorV::TypeMismatch("enum"@)),
            }
        } else {
            Ok(st)
        }
    }

    /// The entry dispatch as a function value, for the shared fold.
    pub open spec fn step_fn() -> spec_fn(EnumFieldExampleParse, EntryV) -> Result<
        EnumFieldExampleParse,
        DecodeErrorV,
    > {
        |st: EnumFieldExampleParse, e: EntryV| EnumFieldExampleV::step(st, e)
    }

    /// What decoding a wire value yields.
    pub open spec fn from_json(v: JsonV) -> Result<EnumFieldExampleV, DecodeErrorV> {
        match v {
            JsonV::Obj(entries) => match fold_entries(
                EnumFieldExampleV::step_fn(),
                EnumFieldExampleParse { enum_: None },
                entries,
            ) {
                Ok(st) => match st.enum_ {
                    Some(e) => Ok(EnumFieldExampleV { enum_: e }),
                    None => Err(DecodeErrorV::MissingField("enum"@)),
                },
                Err(e) => Err(e),
            },
            _ => Err(DecodeErrorV::TypeMismatch("EnumFieldExample"@)),
        }
    }
}

impl EnumFieldExample {
    /// Constructs a new instance of the type.
    pub fn new(enum_: EnumExample) -> (r: EnumFieldExample)
        ensures
            r@ == (EnumFieldExampleV { enum_: enum_@ }),
    {
        EnumFieldExample { enum_ }
    }

    /// Returns a new builder.
    pub fn builder() -> (r: Builder)
        ensures
            r.enum_ is None,
    {
        Builder { enum_: None }
    }

    /// The record's one field.
    pub fn enum_(&self) -> (r: &EnumExample)
        ensures
            r@ == self@.enum_,
    {
        &self.enum_
    }

    /// Encodes the value as its wire object.
    pub fn to_json(&self) -> (r: JsonValue)
        ensures
            r@ == self@.to_json(),
    {
        let mut es: Vec<(String, JsonValue)> = Vec::new();
        es.push((String::from_str("enum"), JsonValue::String(String::from_str(self.enum_.as_str()))));
        proof {
            assert(obj_view(es) =~= self@.to_json()->Obj_0);
        }
        JsonValue::Object(es)
    }

    /// Decodes a wire value, ignoring unknown keys.
    pub fn from_json(v: &JsonValue) -> (r: Result<EnumFieldExample, DecodeError>)
        ensures
            res_view(r) == EnumFieldExampleV::from_json(v@),
    {
        let es: &Vec<(String, JsonValue)> = match v {
            JsonValue::Object(es) => es,
            _ => {
                return Err(DecodeError::TypeMismatch(String::from_str("EnumFieldExample")));
            },
        };
        let ghost ev = obj_view(*es);
        let ghost init = EnumFieldExampleParse { enum_: None };
        let mut enum_: Option<EnumExample> = None;
        let mut i: usize = 0;
        proof {
            assert(ev.take(0) =~= Seq::<EntryV>::empty());
        }
        while i < es.len()
            invariant
                i <= es.len(),
                ev == obj_view(*es),
                ev.len() == es.len(),
                v@ == JsonV::Obj(ev),
                init == (EnumFieldExampleParse { enum_: None }),
                fold_entries(EnumFieldExampleV::step_fn(), init, ev.take(i as int)) == Ok::<
                    EnumFieldExampleParse,
                    DecodeErrorV,
                >(
                    EnumFieldExampleParse {
                        enum_: match enum_ {
                            Some(e) => Some(e@),
                            None => None,
                        },
                    },
                ),
            decreases es.len() - i,
        {
            let ghost pre = ev.take(i as int);
            let ghost st_pre = fold_entries(EnumFieldExampleV::step_fn(), init, pre)->Ok_0;
            proof {
                lemma_fold_entries_push(EnumFieldExampleV::step_fn(), init, pre, ev[i as int]);
                assert(ev.take(i + 1) =~= pre.push(ev[i as int]));
            }
            let k: &String = &es[i].0;
            let val: &JsonValue = &es[i].1;
            if str_eq(k.as_str(), "enum") {
                match val {
                    JsonValue::String(s) => {
                        enum_ = Some(EnumExample::from_wire(s.as_str()));
                    },
                    _ => {
                        proof {
                            lemma_view_shape(es[i as int].1);
                            assert(EnumFieldExampleV::step(st_pre, ev[i as int]) == Err::<
                                EnumFieldExampleParse,
                                DecodeErrorV,
                            >(DecodeErrorV::TypeMismatch("enum"@)));
                            lemma_fold_entries_error_at(
                                EnumFieldExampleV::step_fn(),
                                init,
                                ev,
                                i as int,
                                st_pre,
                                DecodeErrorV::TypeMismatch("enum"@),
                            );
                        }
                        return Err(DecodeError::TypeMismatch(String::from_str("enum")));
                    },
                }
            }
            i += 1;
        }
        proof {
            assert(ev.take(es.len() as int) =~= ev);
        }
        match enum_ {
            Some(e) => Ok(EnumFieldExample { enum_: e }),
            None => Err(DecodeError::MissingField(String::from_str("enum"))),
        }
    }
}

/// Decoding the wire object an encode produced gives back the value, for
/// well-formed enum contents.
pub proof fn lemma_enum_field_example_round_trip(v: EnumFieldExampleV)
    requires
        v.enum_.wf(),
    ensures
        EnumFieldExampleV::from_json(v.to_json()) == Ok::<EnumFieldExampleV, DecodeErrorV>(v),
{
    lemma_enum_example_round_trip(v.enum_);
    let e0: EntryV = ("enum"@, JsonV::Str(v.enum_.wire_str()));
    let s = v.to_json()->Obj_0;
    let init = EnumFieldExampleParse { enum_: None };
    let st1 = EnumFieldExampleParse { enum_: Some(v.enum_) };
    assert(s.first() == e0);
    assert(s.drop_first() =~= Seq::<EntryV>::empty());
    assert(EnumFieldExampleV::step_fn()(init, e0) == Ok::<EnumFieldExampleParse, DecodeErrorV>(
        st1,
    ));
    assert(fold_entries(EnumFieldExampleV::step_fn(), st1, Seq::<EntryV>::empty()) == Ok::<
        EnumFieldExampleParse,
        DecodeErrorV,
    >(st1));
    assert(EnumFieldExampleV::from_json(v.to_json())->Ok_0 =~= v);
}


/// A wire object that never mentions the required key fails with its
/// `MissingField` error, provided every entry it does hold is well shaped.
pub proof fn lemma_enum_field_example_missing(entries: Seq<EntryV>)
    requires
        forall|j: int| 0 <= j < entries.len() ==> (#[trigger] entries[j]).0 != "enum"@,
        forall|j: int, st: EnumFieldExampleParse|
            0 <= j < entries.len() ==> (#[trigger] EnumFieldExampleV::step(st, entries[j])) is Ok,
    ensures
        EnumFieldExampleV::from_json(JsonV::Obj(entries)) == Err::<
            EnumFieldExampleV,
            DecodeErrorV,
        >(DecodeErrorV::MissingField("enum"@)),
{
    let init = EnumFieldExampleParse { enum_: None };
    let p = |st: EnumFieldExampleParse| st.enum_ is None;
    crate::json::lemma_fold_entries_preserves(EnumFieldExampleV::step_fn(), init, entries, p);
}

/// Decoding tolerates an unrecognized key anywhere in the wire object.
pub proof fn lemma_enum_field_example_ignores_unknown(entries: Seq<EntryV>, i: int, e: EntryV)
    requires
        0 <= i <= entries.len(),
        e.0 != "enum"@,
    ensures
        EnumFieldExampleV::from_json(JsonV::Obj(entries.insert(i, e)))
            == EnumFieldExampleV::from_json(JsonV::Obj(entries)),
{
    let init = EnumFieldExampleParse { enum_: None };
    assert(forall|st: EnumFieldExampleParse|
        EnumFieldExampleV::step_fn()(st, e) == Ok::<EnumFieldExampleParse, DecodeErrorV>(st));
    lemma_fold_entries_insert_ignored(EnumFieldExampleV::step_fn(), init, entries, i, e);
}

/// A builder for the [`EnumFieldExample`] type.
#[derive(Debug, Clone)]
pub struct Builder {
    /// The enum field, once set.
    pub enum_: Option<EnumExample>,
}

impl Builder {
    /// Every required field has been set.
    pub open spec fn complete(&self) -> bool {
        self.enum_ is Some
    }

    /// Sets the enum field. Required.
    pub fn enum_(&mut self, enum_: EnumExample) -> (r: &mut Builder)
        ensures
            r.enum_ == Some(enum_),
            *final(self) == *final(r),
    {
        self.enum_ = Some(enum_);
        self
    }

    /// Constructs a new instance of the type. The required field must have
    /// been set.
    pub fn build(&self) -> (r: EnumFieldExample)
        requires
            self.complete(),
        ensures
            r@ == (EnumFieldExampleV { enum_: (self.enum_->Some_0)@ }),
    {
        match &self.enum_ {
            Some(EnumExample::One) => EnumFieldExample { enum_: EnumExample::One },
            Some(EnumExample::Two) => EnumFieldExample { enum_: EnumExample::Two },
            Some(EnumExample::Unknown(s)) => EnumFieldExample {
                enum_: EnumExample::Unknown(s.clone()),
            },
            None => {
                proof {
                    assert(false);
                }
                EnumFieldExample { enum_: EnumExample::One }
            },
        }
    }
}

impl Default for Builder {
    /// An empty builder: no field set yet.
    fn default() -> (r: Builder)
        ensures
            r.enum_ is None,
    {
        Builder { enum_: None }
    }
}

impl From<EnumFieldExample> for Builder {
    /// A builder pre-populated with the value's fields, for copy-and-modify.
    fn from(v: EnumFieldExample) -> (r: Builder) {
        Builder { enum_: Some(v.enum_) }
    }
}

impl vstd::std_specs::convert::FromSpecImpl<EnumFieldExample> for Builder {
    open spec fn obeys_from_spec() -> bool {
        true
    }

    open spec fn from_spec(v: EnumFieldExample) -> Builder {
        Builder { enum_: Some(v.enum_) }
    }
}

/// Ghost form of an [`OptionalExample`].
#[verifier::ext_equal]
pub ghost struct OptionalExampleV {
    pub item: Option<Seq<char>>,
}

/// A record with a single optional field: an absent value leaves the key
/// off the wire entirely.
#[derive(Debug, Clone, PartialEq, Eq, PartialOrd, Ord, Hash)]
pub struct OptionalExample {
    /// The optional field.
    pub item: Option<String>,
}

impl View for OptionalExample {
    type V = OptionalExampleV;

    open spec fn view(&self) -> OptionalExampleV {
        OptionalExampleV {
            item: match self.item {
                Some(s) => Some(s@),
                None => None,
            },
        }
    }
}

/// Decode state for [`OptionalExample`]: the outer option records whether
/// the key appeared at all, the inner one what it held.
pub ghost struct OptionalExampleParse {
    pub item: Option<Option<Seq<char>>>,
}

impl OptionalExampleV {
    /// The wire object: the key appears only when the value is present,
    /// and never as `null`.
    pub open spec fn to_json(self) -> JsonV {
        JsonV::Obj(
            match self.item {
                Some(s) => seq![("item"@, JsonV::Str(s))],
                None => Seq::<EntryV>::empty(),
            },
        )
    }

    /// How one wire entry advances the decode state: an explicit `null`
    /// counts as absent, matching the tolerant reader.
    pub open spec fn step(st: OptionalExampleParse, e: EntryV) -> Result<
        OptionalExampleParse,
        DecodeErrorV,
    > {
        if e.0 == "item"@ {
            match e.1 {
                JsonV::Str(s) => Ok(OptionalExampleParse { item: Some(Some(s)) }),
                JsonV::Null => Ok(OptionalExampleParse { item: Some(None) }),
                _ => Err(DecodeErrorV::TypeMismatch("item"@)),
            }
        } else {
            Ok(st)
        }
    }

    /// The entry dispatch as a function value, for the shared fold.
    pub open spec fn step_fn() -> spec_fn(OptionalExampleParse, EntryV) -> Result<
        OptionalExampleParse,
        DecodeErrorV,
    > {
        |st: OptionalExampleParse, e: EntryV| OptionalExampleV::step(st, e)
    }

    /// What decoding a wire value yields: an unseen optional field
    /// defaults to absent.
    pub open spec fn from_json(v: JsonV) -> Result<OptionalExampleV, DecodeErrorV> {
        match v {
            JsonV::Obj(entries) => match fold_entries(
                OptionalExampleV::step_fn(),
                OptionalExampleParse { item: None },
                entries,
            ) {
                Ok(st) => Ok(
                    OptionalExampleV {
                        item: match st.item {
                            Some(it) => it,
                            None => None,
                        },
                    },
                ),
                Err(e) => Err(e),
            },
            _ => Err(DecodeErrorV::TypeMismatch("OptionalExample"@)),
        }
    }
}

impl OptionalExample {
    /// Constructs a new instance of the type, with the field absent.
    pub fn new() -> (r: OptionalExample)
        ensures
            r@ == (OptionalExampleV { item: None }),
    {
        OptionalExample { item: None }
    }

    /// Constructs an instance with the field present.
    pub fn with_item(item: String) -> (r: OptionalExample)
        ensures
            r@ == (OptionalExampleV { item: Some(item@) }),
    {
        OptionalExample { item: Some(item) }
    }

    /// The optional field.
    pub fn item(&self) -> (r: Option<&str>)
        ensures
            match r {
                Some(s) => self@.item == Some(s@),
                None => self@.item is None,
            },
    {
        match &self.item {
            Some(s) => Some(s.as_str()),
            None => None,
        }
    }

    /// Encodes the value as its wire object: an absent field leaves its
    /// key off entirely.
    pub fn to_json(&self) -> (r: JsonValue)
        ensures
            r@ == self@.to_json(),
    {
        let mut es: Vec<(String, JsonValue)> = Vec::new();
        match &self.item {
            Some(s) => {
                es.push((String::from_str("item"), JsonValue::String(s.clone())));
            },
            None => {},
        }
        proof {
            assert(obj_view(es) =~= self@.to_json()->Obj_0);
        }
        JsonValue::Object(es)
    }

    /// Decodes a wire value, ignoring unknown keys; a missing key means an
    /// absent value.
    pub fn from_json(v: &JsonValue) -> (r: Result<OptionalExample, DecodeError>)
        ensures
            res_view(r) == OptionalExampleV::from_json(v@),
    {
        let es: &Vec<(String, JsonValue)> = match v {
            JsonValue::Object(es) => es,
            _ => {
                return Err(DecodeError::TypeMismatch(String::from_str("OptionalExample")));
            },
        };
        let ghost ev = obj_view(*es);
        let ghost init = OptionalExampleParse { item: None };
        let mut item: Option<Option<String>> = None;
        let mut i: usize = 0;
        proof {
            assert(ev.take(0) =~= Seq::<EntryV>::empty());
        }
        while i < es.len()
            invariant
                i <= es.len(),
                ev == obj_view(*es),
                ev.len() == es.len(),
                v@ == JsonV::Obj(ev),
                init == (OptionalExampleParse { item: None }),
                fold_entries(OptionalExampleV::step_fn(), init, ev.take(i as int)) == Ok::<
                    OptionalExampleParse,
                    DecodeErrorV,
                >(
                    OptionalExampleParse {
                        item: match item {
                            Some(Some(s)) => Some(Some(s@)),
                            Some(None) => Some(None),
                            None => None,
                        },
                    },
                ),
            decreases es.len() - i,
        {
            let ghost pre = ev.take(i as int);
            let ghost st_pre = fold_entries(OptionalExampleV::step_fn(), init, pre)->Ok_0;
            proof {
                lemma_fold_entries_push(OptionalExampleV::step_fn(), init, pre, ev[i as int]);
                assert(ev.take(i + 1) =~= pre.push(ev[i as int]));
            }
            let k: &String = &es[i].0;
            let val: &JsonValue = &es[i].1;
            if str_eq(k.as_str(), "item") {
                match val {
                    JsonValue::String(s) => {
                        item = Some(Some(s.clone()));
                    },
                    JsonValue::Null => {
                        item = Some(None);
                    },
                    _ => {
                        proof {
                            lemma_view_shape(es[i as int].1);
                            assert(!(es[i as int].1 is Null));
                            assert(!(ev[i as int].1 is Null));
                            assert(OptionalExampleV::step(st_pre, ev[i as int]) == Err::<
                                OptionalExampleParse,
                                DecodeErrorV,
                            >(DecodeErrorV::TypeMismatch("item"@)));
                            lemma_fold_entries_error_at(
                                OptionalExampleV::step_fn(),
                                init,
                                ev,
                                i as int,
                                st_pre,
                                DecodeErrorV::TypeMismatch("item"@),
                            );
                        }
                        return Err(DecodeError::TypeMismatch(String::from_str("item")));
                    },
                }
            }
            i += 1;
        }
        proof {
            assert(ev.take(es.len() as int) =~= ev);
        }
        match item {
            Some(Some(s)) => Ok(OptionalExample { item: Some(s) }),
            _ => Ok(OptionalExample { item: None }),
        }
    }
}

/// Decoding the wire object an encode produced gives back the value.
pub proof fn lemma_optional_example_round_trip(v: OptionalExampleV)
    ensures
        OptionalExampleV::from_json(v.to_json()) == Ok::<OptionalExampleV, DecodeErrorV>(v),
{
    let s = v.to_json()->Obj_0;
    let init = OptionalExampleParse { item: None };
    match v.item {
        Some(it) => {
            let e0: EntryV = ("item"@, JsonV::Str(it));
            assert(s.first() == e0);
            assert(s.drop_first() =~= Seq::<EntryV>::empty());
            let st1 = OptionalExampleParse { item: Some(Some(it)) };
            assert(OptionalExampleV::step_fn()(init, e0) == Ok::<
                OptionalExampleParse,
                DecodeErrorV,
            >(st1));
            assert(fold_entries(OptionalExampleV::step_fn(), st1, Seq::<EntryV>::empty()) == Ok::<
                OptionalExampleParse,
                DecodeErrorV,
            >(st1));
        },
        None => {
            assert(s =~= Seq::<EntryV>::empty());
        },
    }
    assert(OptionalExampleV::from_json(v.to_json())->Ok_0 =~= v);
}

/// Encoding an absent optional field produces a wire object without its
/// key: no entry at all, never a `null`.
pub proof fn lemma_optional_example_omits_absent(v: OptionalExampleV)
    requires
        v.item is None,
    ensures
        v.to_json()->Obj_0.len() == 0,
{
}

/// Decoding tolerates an unrecognized key anywhere in the wire object.
pub proof fn lemma_optional_example_ignores_unknown(entries: Seq<EntryV>, i: int, e: EntryV)
    requires
        0 <= i <= entries.len(),
        e.0 != "item"@,
    ensures
        OptionalExampleV::from_json(JsonV::Obj(entries.insert(i, e)))
            == OptionalExampleV::from_json(JsonV::Obj(entries)),
{
    let init = OptionalExampleParse { item: None };
    assert(forall|st: OptionalExampleParse|
        OptionalExampleV::step_fn()(st, e) == Ok::<OptionalExampleParse, DecodeErrorV>(st));
    lemma_fold_entries_insert_ignored(OptionalExampleV::step_fn(), init, entries, i, e);
}

} // verus!
