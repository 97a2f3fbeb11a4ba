//! The error pipeline: any typed error exposing the error capability set
//! is turned into a transport-neutral [`SerializableError`] envelope. Each
//! parameter's leaf value is stringified; structured values are dropped;
//! a missing instance identifier is drawn fresh at encode time.

use vstd::prelude::*;
use vstd::string::*;

use crate::error_code::ErrorCode;
use crate::serializable_error::{
    params_wf, spec_insert, Params, ParamsV, SerializableError, SerializableErrorV,
};
use crate::text::{
    bool_str, bool_to_string, char_to_string, dec_digits, i64_to_string, int_dec_str, seq_char_lt,
    u64_to_string,
};
use crate::uuid::{is_v4_bytes, Uuid};

verus! {

broadcast use vstd::string::group_string_axioms, vstd::std_specs::vec::group_vec_axioms;

/// Ghost form of a [`ParamValue`].
pub ghost enum ParamValueV {
    Bool(bool),
    U8(u8),
    U16(u16),
    U32(u32),
    U64(u64),
    I8(i8),
    I16(i16),
    I32(i32),
    I64(i64),
    Char(char),
    Str(Seq<char>),
    Unit,
    Option(Option<Box<ParamValueV>>),
    Newtype(Box<ParamValueV>),
    List(Seq<ParamValueV>),
    Dict(Seq<(Seq<char>, ParamValueV)>),
    Bytes(Seq<u8>),
}

/// A leaf or structured value an error parameter holds before it is
/// stringified for the envelope.
#[derive(Debug, PartialEq, Eq)]
pub enum ParamValue {
    Bool(bool),
    U8(u8),
    U16(u16),
    U32(u32),
    U64(u64),
    I8(i8),
    I16(i16),
    I32(i32),
    I64(i64),
    Char(char),
    String(String),
    Unit,
    Option(Option<Box<ParamValue>>),
    Newtype(Box<ParamValue>),
    List(Vec<ParamValue>),
    Dict(Vec<(String, ParamValue)>),
    Bytes(Vec<u8>),
}

/// The ghost form of a parameter value.
pub open spec fn param_value_view(v: ParamValue) -> ParamValueV
    decreases v,
{
    match v {
        ParamValue::Bool(b) => ParamValueV::Bool(b),
        ParamValue::U8(x) => ParamValueV::U8(x),
        ParamValue::U16(x) => ParamValueV::U16(x),
        ParamValue::U32(x) => ParamValueV::U32(x),
        ParamValue::U64(x) => ParamValueV::U64(x),
        ParamValue::I8(x) => ParamValueV::I8(x),
        ParamValue::I16(x) => ParamValueV::I16(x),
        ParamValue::I32(x) => ParamValueV::I32(x),
        ParamValue::I64(x) => ParamValueV::I64(x),
        ParamValue::Char(c) => ParamValueV::Char(c),
        ParamValue::String(s) => ParamValueV::Str(s@),
        ParamValue::Unit => ParamValueV::Unit,
        ParamValue::Option(o) => ParamValueV::Option(
            match o {
                Some(b) => Some(Box::new(param_value_view(*b))),
                None => None,
            },
        ),
        ParamValue::Newtype(b) => ParamValueV::Newtype(Box::new(param_value_view(*b))),
        ParamValue::List(vs) => ParamValueV::List(
            Seq::new(
                vs.len() as nat,
                |i: int|
                    if 0 <= i < vs.len() {
                        param_value_view(vs[i])
                    } else {
                        ParamValueV::Unit
                    },
            ),
        ),
        ParamValue::Dict(es) => ParamValueV::Dict(
            Seq::new(
                es.len() as nat,
                |i: int|
                    if 0 <= i < es.len() {
                        (es[i].0@, param_value_view(es[i].1))
                    } else {
                        (Seq::<char>::empty(), ParamValueV::Unit)
                    },
            ),
        ),
        ParamValue::Bytes(bs) => ParamValueV::Bytes(bs@),
    }
}

impl View for ParamValue {
    type V = ParamValueV;

    open spec fn view(&self) -> ParamValueV {
        param_value_view(*self)
    }
}

/// The natural text form of a leaf value: booleans, integers, characters
/// and strings stringify; a present option unwraps; unit, absent options
/// and structured values (sequences, maps, byte buffers) yield nothing
/// and are dropped from the envelope.
pub open spec fn spec_value_string(v: ParamValueV) -> Option<Seq<char>>
    decreases v,
{
    match v {
        ParamValueV::Bool(b) => Some(bool_str(b)),
        ParamValueV::U8(x) => Some(dec_digits(x as nat)),
        ParamValueV::U16(x) => Some(dec_digits(x as nat)),
        ParamValueV::U32(x) => Some(dec_digits(x as nat)),
        ParamValueV::U64(x) => Some(dec_digits(x as nat)),
        ParamValueV::I8(x) => Some(int_dec_str(x as int)),
        ParamValueV::I16(x) => Some(int_dec_str(x as int)),
        ParamValueV::I32(x) => Some(int_dec_str(x as int)),
        ParamValueV::I64(x) => Some(int_dec_str(x as int)),
        ParamValueV::Char(c) => Some(seq![c]),
        ParamValueV::Str(s) => Some(s),
        ParamValueV::Unit => None,
        ParamValueV::Option(o) => match o {
            Some(b) => spec_value_string(*b),
            None => None,
        },
        ParamValueV::Newtype(b) => spec_value_string(*b),
        ParamValueV::List(_) => None,
        ParamValueV::Dict(_) => None,
        ParamValueV::Bytes(_) => None,
    }
}

/// Stringifies one parameter value, exactly as the envelope records it.
pub fn value_string(v: &ParamValue) -> (r: Option<String>)
    ensures
        match r {
            Some(s) => spec_value_string(v@) == Some(s@),
            None => spec_value_string(v@) is None,
        },
    decreases *v,
{
    match v {
        ParamValue::Bool(b) => Some(bool_to_string(*b)),
        ParamValue::U8(x) => Some(u64_to_string(*x as u64)),
        ParamValue::U16(x) => Some(u64_to_string(*x as u64)),
        ParamValue::U32(x) => Some(u64_to_string(*x as u64)),
        ParamValue::U64(x) => Some(u64_to_string(*x)),
        ParamValue::I8(x) => Some(i64_to_string(*x as i64)),
        ParamValue::I16(x) => Some(i64_to_string(*x as i64)),
        ParamValue::I32(x) => Some(i64_to_string(*x as i64)),
        ParamValue::I64(x) => Some(i64_to_string(*x)),
        ParamValue::Char(c) => Some(char_to_string(*c)),
        ParamValue::String(s) => Some(s.clone()),
        ParamValue::Unit => None,
        ParamValue::Option(o) => match o {
            Some(b) => value_string(&**b),
            None => None,
        },
        ParamValue::Newtype(b) => value_string(&**b),
        ParamValue::List(_) => None,
        ParamValue::Dict(_) => None,
        ParamValue::Bytes(_) => None,
    }
}

/// The ghost form of a named parameter list.
pub open spec fn named_params_view(ps: Seq<(String, ParamValue)>) -> Seq<(Seq<char>, ParamValueV)> {
    Seq::new(ps.len(), |i: int| (ps[i].0@, ps[i].1@))
}

/// The envelope's parameter map for a named parameter list: each
/// stringifiable value inserted at its key's place, in order, a dropped
/// value leaving no trace; the result is ordered by key.
pub open spec fn spec_collect_params(ps: Seq<(Seq<char>, ParamValueV)>) -> ParamsV
    decreases ps.len(),
{
    if ps.len() == 0 {
        ParamsV::empty()
    } else {
        let prev = spec_collect_params(ps.drop_last());
        match spec_value_string(ps.last().1) {
            Some(s) => spec_insert(prev, ps.last().0, s),
            None => prev,
        }
    }
}

/// The collected map is sorted whatever the parameters were.
pub proof fn lemma_spec_collect_params_wf(ps: Seq<(Seq<char>, ParamValueV)>)
    ensures
        params_wf(spec_collect_params(ps)),
    decreases ps.len(),
{
    if ps.len() > 0 {
        lemma_spec_collect_params_wf(ps.drop_last());
        match spec_value_string(ps.last().1) {
            Some(s) => {
                crate::serializable_error::lemma_spec_insert_wf(
                    spec_collect_params(ps.drop_last()),
                    ps.last().0,
                    s,
                );
            },
            None => {},
        }
    }
}

/// Builds the envelope's parameter map from a named parameter list.
pub fn collect_params(ps: &Vec<(String, ParamValue)>) -> (r: Params)
    ensures
        r@ == spec_collect_params(named_params_view(ps@)),
        r.wf(),
{
    let ghost psv = named_params_view(ps@);
    let mut p = Params::new();
    let mut i: usize = 0;
    proof {
        assert(named_params_view(ps@.take(0)) =~= psv.take(0));
        assert(spec_collect_params(psv.take(0)) =~= ParamsV::empty());
    }
    while i < ps.len()
        invariant
            i <= ps@.len(),
            psv == named_params_view(ps@),
            psv.len() == ps@.len(),
            p.wf(),
            p@ == spec_collect_params(psv.take(i as int)),
        decreases ps@.len() - i,
    {
        proof {
            assert(psv.take(i + 1).drop_last() =~= psv.take(i as int));
            assert(psv.take(i + 1).last() == psv[i as int]);
        }
        match value_string(&ps[i].1) {
            Some(s) => {
                p.insert(ps[i].0.clone(), s);
            },
            None => {},
        }
        i += 1;
    }
    proof {
        assert(psv.take(ps@.len() as int) =~= psv);
    }
    p
}

/// The error capability set: what any typed error must expose to enter
/// the pipeline. The parameters are the error's fields as named leaf
/// values, already extracted — no serializer runs at encode time.
pub trait ErrorType {
    /// The error's category, as a ghost value.
    spec fn spec_code(&self) -> ErrorCode;

    /// The error's wire name, as a ghost value.
    spec fn spec_name(&self) -> Seq<char>;

    /// The error's stored instance identifier, as a ghost value.
    spec fn spec_instance_id(&self) -> Option<Seq<u8>>;

    /// The names of the error's safe parameters, as ghost values, in
    /// ascending order.
    spec fn spec_safe_args(&self) -> Seq<Seq<char>>;

    /// The error's named parameters, as ghost values.
    spec fn spec_parameters(&self) -> Seq<(Seq<char>, ParamValueV)>;

    /// Returns the error's code.
    fn code(&self) -> (c: ErrorCode)
        ensures
            c == self.spec_code(),
    ;

    /// Returns the error's name, formatted like `NamespaceName:ErrorName`.
    fn name(&self) -> (n: &str)
        ensures
            n@ == self.spec_name(),
    ;

    /// Returns the error's instance ID, if it stores one. Generated error
    /// types store none; an envelope or a wrapper stores one.
    fn instance_id(&self) -> (r: Option<Uuid>)
        ensures
            match r {
                Some(u) => self.spec_instance_id() == Some(u@),
                None => self.spec_instance_id() is None,
            },
    ;

    /// Returns the names of the error's safe parameters, in ascending
    /// order.
    fn safe_args(&self) -> (r: &'static [&'static str])
        ensures
            r@.len() == self.spec_safe_args().len(),
            forall|j: int| 0 <= j < r@.len() ==> (#[trigger] r@[j])@ == self.spec_safe_args()[j],
            forall|i: int, j: int|
                0 <= i < j < r@.len() ==> seq_char_lt(
                    (#[trigger] r@[i])@,
                    (#[trigger] r@[j])@,
                ),
    ;

    /// Returns the error's parameters as named leaf values.
    fn parameters(&self) -> (r: Vec<(String, ParamValue)>)
        ensures
            named_params_view(r@) == self.spec_parameters(),
    ;

    /// Wraps the error in another that overrides its instance ID.
    fn with_instance_id(self, instance_id: Uuid) -> (r: WithInstanceId<Self>) where
        Self: Sized,
        ensures
            r.error == self,
            r.instance_id == instance_id,
    {
        WithInstanceId { error: self, instance_id }
    }
}

/// An error wrapping another to override its instance ID, used to
/// correlate an error across a distributed boundary.
pub struct WithInstanceId<T> {
    /// The wrapped error.
    pub error: T,
    /// The identifier that replaces the wrapped error's.
    pub instance_id: Uuid,
}

impl<T: ErrorType> WithInstanceId<T> {
    /// Wraps an error, overriding its instance ID and delegating all else.
    pub fn new(error: T, instance_id: Uuid) -> (r: WithInstanceId<T>)
        ensures
            r.error == error,
            r.instance_id == instance_id,
    {
        WithInstanceId { error, instance_id }
    }
}

impl<T: ErrorType> ErrorType for WithInstanceId<T> {
    open spec fn spec_code(&self) -> ErrorCode {
        self.error.spec_code()
    }

    open spec fn spec_name(&self) -> Seq<char> {
        self.error.spec_name()
    }

    open spec fn spec_instance_id(&self) -> Option<Seq<u8>> {
        Some(self.instance_id@)
    }

    open spec fn spec_safe_args(&self) -> Seq<Seq<char>> {
        self.error.spec_safe_args()
    }

    open spec fn spec_parameters(&self) -> Seq<(Seq<char>, ParamValueV)> {
        self.error.spec_parameters()
    }

    fn code(&self) -> (c: ErrorCode) {
        self.error.code()
    }

    fn name(&self) -> (n: &str) {
        self.error.name()
    }

    fn instance_id(&self) -> (r: Option<Uuid>) {
        Some(self.instance_id)
    }

    fn safe_args(&self) -> &'static [&'static str] {
        self.error.safe_args()
    }

    fn parameters(&self) -> (r: Vec<(String, ParamValue)>) {
        self.error.parameters()
    }
}

impl ErrorType for SerializableError {
    open spec fn spec_code(&self) -> ErrorCode {
        self@.error_code
    }

    open spec fn spec_name(&self) -> Seq<char> {
        self@.error_name
    }

    open spec fn spec_instance_id(&self) -> Option<Seq<u8>> {
        Some(self@.error_instance_id)
    }

    open spec fn spec_safe_args(&self) -> Seq<Seq<char>> {
        Seq::empty()
    }

    /// An envelope's parameters re-enter the pipeline as plain strings.
    open spec fn spec_parameters(&self) -> Seq<(Seq<char>, ParamValueV)> {
        self@.parameters.map_values(
            |e: (Seq<char>, Seq<char>)| (e.0, ParamValueV::Str(e.1)),
        )
    }

    fn code(&self) -> (c: ErrorCode) {
        self.error_code
    }

    fn name(&self) -> (n: &str) {
        self.error_name.as_str()
    }

    fn instance_id(&self) -> (r: Option<Uuid>) {
        Some(self.error_instance_id)
    }

    fn safe_args(&self) -> &'static [&'static str] {
        &[]
    }

    fn parameters(&self) -> (r: Vec<(String, ParamValue)>) {
        let mut out: Vec<(String, ParamValue)> = Vec::new();
        let mut i: usize = 0;
        while i < self.parameters.entries.len()
            invariant
                i <= self.parameters.entries@.len(),
                out@.len() == i,
                forall|j: int|
                    0 <= j < i ==> ((#[trigger] out@[j]).0@, out@[j].1@) == (
                        self@.parameters[j].0,
                        ParamValueV::Str(self@.parameters[j].1),
                    ),
            decreases self.parameters.entries@.len() - i,
        {
            out.push(
                (
                    self.parameters.entries[i].0.clone(),
                    ParamValue::String(self.parameters.entries[i].1.clone()),
                ),
            );
            i += 1;
        }
        proof {
            assert(named_params_view(out@) =~= self.spec_parameters());
        }
        out
    }
}

/// Encodes a typed error into its serialized envelope. The category, name
/// and stringified parameters come from the error itself; its instance ID
/// is kept when it stores one, and drawn fresh — a random version-4
/// identifier — when it does not, never regenerated afterward.
pub fn encode<T: ErrorType>(error: &T) -> (r: SerializableError)
    ensures
        r@.error_code == error.spec_code(),
        r@.error_name == error.spec_name(),
        r@.parameters == spec_collect_params(error.spec_parameters()),
        r.parameters.wf(),
        match error.spec_instance_id() {
            Some(id) => r@.error_instance_id == id,
            None => is_v4_bytes(r@.error_instance_id),
        },
{
    let params = error.parameters();
    let parameters = collect_params(&params);
    let error_instance_id = match error.instance_id() {
        Some(id) => id,
        None => Uuid::new_v4(),
    };
    SerializableError {
        error_code: error.code(),
        error_name: String::from_str(error.name()),
        error_instance_id,
        parameters,
    }
}

/// A generic `INTERNAL` error.
#[derive(Debug, Clone, PartialEq, Eq, PartialOrd, Ord, Hash, Copy)]
pub struct Internal {}

impl Internal {
    /// Constructs a new instance of the type.
    pub fn new() -> (r: Internal) {
        Internal {  }
    }

    /// Returns a new builder.
    pub fn builder() -> (r: InternalBuilder) {
        InternalBuilder {  }
    }
}

/// A builder for the [`Internal`] type; the type has no fields to set.
#[derive(Debug, Clone)]
pub struct InternalBuilder {}

impl InternalBuilder {
    /// Constructs a new instance of the type.
    pub fn build(&self) -> (r: Internal) {
        Internal {  }
    }
}

impl Default for InternalBuilder {
    /// An empty builder.
    fn default() -> (r: InternalBuilder) {
        InternalBuilder {  }
    }
}

impl From<Internal> for InternalBuilder {
    /// A builder from the value, for symmetry with the other types.
    fn from(_v: Internal) -> (r: InternalBuilder) {
        InternalBuilder {  }
    }
}

impl vstd::std_specs::convert::FromSpecImpl<Internal> for InternalBuilder {
    open spec fn obeys_from_spec() -> bool {
        true
    }

    open spec fn from_spec(_v: Internal) -> InternalBuilder {
        InternalBuilder {  }
    }
}

impl ErrorType for Internal {
    open spec fn spec_code(&self) -> ErrorCode {
        ErrorCode::Internal
    }

    open spec fn spec_name(&self) -> Seq<char> {
        "Default:Internal"@
    }

    open spec fn spec_instance_id(&self) -> Option<Seq<u8>> {
        None
    }

    open spec fn spec_safe_args(&self) -> Seq<Seq<char>> {
        Seq::empty()
    }

    open spec fn spec_parameters(&self) -> Seq<(Seq<char>, ParamValueV)> {
        Seq::empty()
    }

    fn code(&self) -> (c: ErrorCode) {
        ErrorCode::Internal
    }

    fn name(&self) -> (n: &str) {
        "Default:Internal"
    }

    fn instance_id(&self) -> (r: Option<Uuid>) {
        None
    }

    fn safe_args(&self) -> &'static [&'static str] {
        &[]
    }

    fn parameters(&self) -> (r: Vec<(String, ParamValue)>) {
        let out: Vec<(String, ParamValue)> = Vec::new();
        proof {
            assert(named_params_view(out@) =~= Seq::<(Seq<char>, ParamValueV)>::empty());
        }
        out
    }
}

/// A generic `INVALID_ARGUMENT` error.
#[derive(Debug, Clone, PartialEq, Eq, PartialOrd, Ord, Hash, Copy)]
pub struct InvalidArgument {}

impl InvalidArgument {
    /// Constructs a new instance of the type.
    pub fn new() -> (r: InvalidArgument) {
        InvalidArgument {  }
    }

    /// Returns a new builder.
    pub fn builder() -> (r: InvalidArgumentBuilder) {
        InvalidArgumentBuilder {  }
    }
}

/// A builder for the [`InvalidArgument`] type; the type has no fields to set.
#[derive(Debug, Clone)]
pub struct InvalidArgumentBuilder {}

impl InvalidArgumentBuilder {
    /// Constructs a new instance of the type.
    pub fn build(&self) -> (r: InvalidArgument) {
        InvalidArgument {  }
    }
}

impl Default for InvalidArgumentBuilder {
    /// An empty builder.
    fn default() -> (r: InvalidArgumentBuilder) {
        InvalidArgumentBuilder {  }
    }
}

impl From<InvalidArgument> for InvalidArgumentBuilder {
    /// A builder from the value, for symmetry with the other types.
    fn from(_v: InvalidArgument) -> (r: InvalidArgumentBuilder) {
        InvalidArgumentBuilder {  }
    }
}

impl vstd::std_specs::convert::FromSpecImpl<InvalidArgument> for InvalidArgumentBuilder {
    open spec fn obeys_from_spec() -> bool {
        true
    }

    open spec fn from_spec(_v: InvalidArgument) -> InvalidArgumentBuilder {
        InvalidArgumentBuilder {  }
    }
}

impl ErrorType for InvalidArgument {
    open spec fn spec_code(&self) -> ErrorCode {
        ErrorCode::InvalidArgument
    }

    open spec fn spec_name(&self) -> Seq<char> {
        "Default:InvalidArgument"@
    }

    open spec fn spec_instance_id(&self) -> Option<Seq<u8>> {
        None
    }

    open spec fn spec_safe_args(&self) -> Seq<Seq<char>> {
        Seq::empty()
    }

    open spec fn spec_parameters(&self) -> Seq<(Seq<char>, ParamValueV)> {
        Seq::empty()
    }

    fn code(&self) -> (c: ErrorCode) {
        ErrorCode::InvalidArgument
    }

    fn name(&self) -> (n: &str) {
        "Default:InvalidArgument"
    }

    fn instance_id(&self) -> (r: Option<Uuid>) {
        None
    }

    fn safe_args(&self) -> &'static [&'static str] {
        &[]
    }

    fn parameters(&self) -> (r: Vec<(String, ParamValue)>) {
        let out: Vec<(String, ParamValue)> = Vec::new();
        proof {
            assert(named_params_view(out@) =~= Seq::<(Seq<char>, ParamValueV)>::empty());
        }
        out
    }
}

/// A generic `NOT_FOUND` error.
#[derive(Debug, Clone, PartialEq, Eq, PartialOrd, Ord, Hash, Copy)]
pub struct NotFound {}

impl NotFound {
    /// Constructs a new instance of the type.
    pub fn new() -> (r: NotFound) {
        NotFound {  }
    }

    /// Returns a new builder.
    pub fn builder() -> (r: NotFoundBuilder) {
        NotFoundBuilder {  }
    }
}

/// A builder for the [`NotFound`] type; the type has no fields to set.
#[derive(Debug, Clone)]
pub struct NotFoundBuilder {}

impl NotFoundBuilder {
    /// Constructs a new instance of the type.
    pub fn build(&self) -> (r: NotFound) {
        NotFound {  }
    }
}

impl Default for NotFoundBuilder {
    /// An empty builder.
    fn default() -> (r: NotFoundBuilder) {
        NotFoundBuilder {  }
    }
}

impl From<NotFound> for NotFoundBuilder {
    /// A builder from the value, for symmetry with the other types.
    fn from(_v: NotFound) -> (r: NotFoundBuilder) {
        NotFoundBuilder {  }
    }
}

impl vstd::std_specs::convert::FromSpecImpl<NotFound> for NotFoundBuilder {
    open spec fn obeys_from_spec() -> bool {
        true
    }

    open spec fn from_spec(_v: NotFound) -> NotFoundBuilder {
        NotFoundBuilder {  }
    }
}

impl ErrorType for NotFound {
    open spec fn spec_code(&self) -> ErrorCode {
        ErrorCode::NotFound
    }

    open spec fn spec_name(&self) -> Seq<char> {
        "Default:NotFound"@
    }

    open spec fn spec_instance_id(&self) -> Option<Seq<u8>> {
        None
    }

    open spec fn spec_safe_args(&self) -> Seq<Seq<char>> {
        Seq::empty()
    }

    open spec fn spec_parameters(&self) -> Seq<(Seq<char>, ParamValueV)> {
        Seq::empty()
    }

    fn code(&self) -> (c: ErrorCode) {
        ErrorCode::NotFound
    }

    fn name(&self) -> (n: &str) {
        "Default:NotFound"
    }

    fn instance_id(&self) -> (r: Option<Uuid>) {
        None
    }

    fn safe_args(&self) -> &'static [&'static str] {
        &[]
    }

    fn parameters(&self) -> (r: Vec<(String, ParamValue)>) {
        let out: Vec<(String, ParamValue)> = Vec::new();
        proof {
            assert(named_params_view(out@) =~= Seq::<(Seq<char>, ParamValueV)>::empty());
        }
        out
    }
}

} // verus!
