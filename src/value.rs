//! Values recorded in tracing spans and events.

use vstd::prelude::*;
use vstd::std_specs::cmp::PartialEqSpec;
use vstd::std_specs::convert::FromSpec;

verus! {

/// Serializable presentation of an error recorded as a value: its message and
/// the chain of its sources.
#[derive(Debug)]
pub struct TracedError {
    /// Message produced by the error's `Display` implementation.
    pub message: String,
    /// The error's source, if any.
    pub source: Option<Box<TracedError>>,
}

impl TracedError {
    /// Messages of the errors in the chain that starts at this one, outermost first.
    pub open spec fn messages(&self) -> Seq<Seq<char>>
        decreases self,
    {
        match self.source {
            Some(src) => seq![self.message@] + src.messages(),
            None => seq![self.message@],
        }
    }

    /// Builds an error chain from the error's message and the messages of its
    /// sources, from the direct source to the innermost one.
    pub fn new(message: String, source_messages: &Vec<String>) -> (r: TracedError)
        ensures
            r.message == message,
            r.messages() == seq![message@] + source_messages@.map_values(|m: String| m@),
    {
        let mut source: Option<Box<TracedError>> = None;
        let mut i: usize = source_messages.len();
        while i > 0
            invariant
                i <= source_messages@.len(),
                source is None <==> i == source_messages@.len(),
                source matches Some(e) ==> e.messages() == source_messages@.subrange(
                    i as int,
                    source_messages@.len() as int,
                ).map_values(|m: String| m@),
            decreases i,
        {
            i = i - 1;
            let err = TracedError { message: source_messages[i].clone(), source };
            proof {
                let tail = source_messages@.subrange(i as int, source_messages@.len() as int);
                assert(tail =~= seq![source_messages@[i as int]] + source_messages@.subrange(
                    i + 1,
                    source_messages@.len() as int,
                ));
                assert(tail.map_values(|m: String| m@) =~= seq![source_messages@[i as int]@]
                    + source_messages@.subrange(i + 1, source_messages@.len() as int).map_values(
                    |m: String| m@,
                ));
            }
            source = Some(Box::new(err));
        }
        proof {
            assert(source_messages@.subrange(0, source_messages@.len() as int)
                =~= source_messages@);
            if source is None {
                assert(source_messages@.map_values(|m: String| m@) =~= Seq::<Seq<char>>::empty());
            }
        }
        TracedError { message, source }
    }
}

impl Clone for TracedError {
    fn clone(&self) -> (r: Self)
        ensures
            r == *self,
        decreases self,
    {
        let source = match &self.source {
            Some(src) => Some(Box::new((**src).clone())),
            None => None,
        };
        TracedError { message: self.message.clone(), source }
    }
}

} // verus!

verus! {

/// Opaque wrapper for the `Debug` representation of a recorded object.
#[derive(Debug)]
pub struct DebugObject(String);

impl View for DebugObject {
    type V = Seq<char>;

    closed spec fn view(&self) -> Seq<char> {
        self.0@
    }
}

impl DebugObject {
    /// Wraps the `Debug` representation of an object.
    pub fn new(repr: String) -> (r: DebugObject)
        ensures
            r@ == repr@,
    {
        DebugObject(repr)
    }

    /// Returns the wrapped `Debug` representation.
    pub fn as_str(&self) -> (r: &str)
        ensures
            r@ == self@,
    {
        self.0.as_str()
    }
}

impl Clone for DebugObject {
    fn clone(&self) -> (r: Self)
        ensures
            r == *self,
    {
        DebugObject(self.0.clone())
    }
}

/// Value recorded in a tracing span or event.
#[derive(Debug)]
pub enum TracedValue {
    /// Boolean value.
    Bool(bool),
    /// Signed integer value.
    Int(i128),
    /// Unsigned integer value.
    UInt(u128),
    /// Floating-point value, held as its IEEE 754 binary64 bit pattern.
    Float(u64),
    /// String value.
    String(String),
    /// Opaque object given by its `Debug` representation.
    Object(DebugObject),
    /// Opaque error.
    Error(TracedError),
}

impl Clone for TracedValue {
    fn clone(&self) -> (r: Self)
        ensures
            r == *self,
    {
        match self {
            TracedValue::Bool(b) => TracedValue::Bool(*b),
            TracedValue::Int(v) => TracedValue::Int(*v),
            TracedValue::UInt(v) => TracedValue::UInt(*v),
            TracedValue::Float(v) => TracedValue::Float(*v),
            TracedValue::String(s) => TracedValue::String(s.clone()),
            TracedValue::Object(o) => TracedValue::Object(o.clone()),
            TracedValue::Error(e) => TracedValue::Error(e.clone()),
        }
    }
}

impl TracedValue {
    /// Creates a string value holding a copy of `s`.
    pub fn string(s: &str) -> (r: TracedValue)
        ensures
            r matches TracedValue::String(t) && t@ == s@,
    {
        TracedValue::String(s.to_string())
    }

    /// Creates an object value from the `Debug` representation of the object.
    pub fn debug(repr: String) -> (r: TracedValue)
        ensures
            r matches TracedValue::Object(o) && o@ == repr@,
    {
        TracedValue::Object(DebugObject::new(repr))
    }

    /// Creates an error value from an error chain.
    pub fn error(err: TracedError) -> (r: TracedValue)
        ensures
            r == TracedValue::Error(err),
    {
        TracedValue::Error(err)
    }

    /// Tries to convert this value into a specific type. Returns `None` if the variant
    /// does not match or the carried value does not fit the type.
    pub fn try_as<'s, T: FromTracedValue<'s>>(&'s self) -> (r: Option<T>)
        ensures
            r == T::from_value_spec(self),
    {
        T::from_value(self)
    }

    /// Returns the text held by a string value, or `None` for any other variant.
    pub fn as_str(&self) -> (r: Option<&str>)
        ensures
            match self {
                TracedValue::String(s) => r matches Some(t) && t@ == s@,
                _ => r is None,
            },
    {
        match self {
            TracedValue::String(s) => Some(s.as_str()),
            _ => None,
        }
    }

    /// Whether this value is an object with the given `Debug` representation.
    pub fn is_debug(&self, repr: &str) -> (r: bool)
        ensures
            r <==> (self matches TracedValue::Object(o) && o@ == repr@),
    {
        match self {
            TracedValue::Object(o) => string_eq(o.as_str(), repr),
            _ => false,
        }
    }

    /// Returns the `Debug` representation held by an object value, or `None`
    /// for any other variant.
    pub fn as_debug_str(&self) -> (r: Option<&str>)
        ensures
            match self {
                TracedValue::Object(o) => r matches Some(s) && s@ == o@,
                _ => r is None,
            },
    {
        match self {
            TracedValue::Object(o) => Some(o.as_str()),
            _ => None,
        }
    }
}

/// Compares two strings character by character.
pub fn string_eq(a: &str, b: &str) -> (r: bool)
    ensures
        r <==> a@ == b@,
{
    let n = a.unicode_len();
    if n != b.unicode_len() {
        return false;
    }
    let mut i: usize = 0;
    while i < n
        invariant
            n == a@.len(),
            n == b@.len(),
            i <= n,
            a@.subrange(0, i as int) == b@.subrange(0, i as int),
        decreases n - i,
    {
        if a.get_char(i) != b.get_char(i) {
            assert(a@[i as int] != b@[i as int]);
            return false;
        }
        assert(a@.subrange(0, i + 1) =~= a@.subrange(0, i as int).push(a@[i as int]));
        assert(b@.subrange(0, i + 1) =~= b@.subrange(0, i as int).push(b@[i as int]));
        i = i + 1;
    }
    assert(a@ =~= a@.subrange(0, n as int));
    assert(b@ =~= b@.subrange(0, n as int));
    true
}

/// Fallible conversion from a [`TracedValue`] reference.
pub trait FromTracedValue<'a>: Sized {
    /// The result of the conversion.
    spec fn from_value_spec(value: &'a TracedValue) -> Option<Self>;

    /// Performs the conversion.
    fn from_value(value: &'a TracedValue) -> (r: Option<Self>)
        ensures
            r == Self::from_value_spec(value),
    ;
}

impl<'a> FromTracedValue<'a> for bool {
    open spec fn from_value_spec(value: &'a TracedValue) -> Option<bool> {
        match value {
            TracedValue::Bool(b) => Some(*b),
            _ => None,
        }
    }

    fn from_value(value: &'a TracedValue) -> (r: Option<bool>) {
        match value {
            TracedValue::Bool(b) => Some(*b),
            _ => None,
        }
    }
}

impl<'a> FromTracedValue<'a> for i128 {
    open spec fn from_value_spec(value: &'a TracedValue) -> Option<i128> {
        match value {
            TracedValue::Int(v) => Some(*v),
            _ => None,
        }
    }

    fn from_value(value: &'a TracedValue) -> (r: Option<i128>) {
        match value {
            TracedValue::Int(v) => Some(*v),
            _ => None,
        }
    }
}

impl<'a> FromTracedValue<'a> for i64 {
    open spec fn from_value_spec(value: &'a TracedValue) -> Option<i64> {
        match value {
            TracedValue::Int(v) => if i64::MIN <= *v <= i64::MAX {
                Some(*v as i64)
            } else {
                None
            },
            _ => None,
        }
    }

    fn from_value(value: &'a TracedValue) -> (r: Option<i64>) {
        match value {
            TracedValue::Int(v) => if i64::MIN as i128 <= *v && *v <= i64::MAX as i128 {
                Some(*v as i64)
            } else {
                None
            },
            _ => None,
        }
    }
}

impl<'a> FromTracedValue<'a> for u128 {
    open spec fn from_value_spec(value: &'a TracedValue) -> Option<u128> {
        match value {
            TracedValue::UInt(v) => Some(*v),
            _ => None,
        }
    }

    fn from_value(value: &'a TracedValue) -> (r: Option<u128>) {
        match value {
            TracedValue::UInt(v) => Some(*v),
            _ => None,
        }
    }
}

impl<'a> FromTracedValue<'a> for u64 {
    open spec fn from_value_spec(value: &'a TracedValue) -> Option<u64> {
        match value {
            TracedValue::UInt(v) => if *v <= u64::MAX {
                Some(*v as u64)
            } else {
                None
            },
            _ => None,
        }
    }

    fn from_value(value: &'a TracedValue) -> (r: Option<u64>) {
        match value {
            TracedValue::UInt(v) => if *v <= u64::MAX as u128 {
                Some(*v as u64)
            } else {
                None
            },
            _ => None,
        }
    }
}

impl From<bool> for TracedValue {
    fn from(v: bool) -> (r: TracedValue) {
        TracedValue::Bool(v)
    }
}

impl vstd::std_specs::convert::FromSpecImpl<bool> for TracedValue {
    open spec fn obeys_from_spec() -> bool {
        true
    }

    open spec fn from_spec(v: bool) -> TracedValue {
        TracedValue::Bool(v)
    }
}

impl PartialEq<bool> for TracedValue {
    fn eq(&self, other: &bool) -> (r: bool) {
        match self {
            TracedValue::Bool(v) => *v == *other,
            _ => false,
        }
    }
}

impl vstd::std_specs::cmp::PartialEqSpecImpl<bool> for TracedValue {
    open spec fn obeys_eq_spec() -> bool {
        true
    }

    open spec fn eq_spec(&self, other: &bool) -> bool {
        self matches TracedValue::Bool(v) && v == *other
    }
}

impl From<i128> for TracedValue {
    fn from(v: i128) -> (r: TracedValue) {
        TracedValue::Int(v)
    }
}

impl vstd::std_specs::convert::FromSpecImpl<i128> for TracedValue {
    open spec fn obeys_from_spec() -> bool {
        true
    }

    open spec fn from_spec(v: i128) -> TracedValue {
        TracedValue::Int(v)
    }
}

impl PartialEq<i128> for TracedValue {
    fn eq(&self, other: &i128) -> (r: bool) {
        match self {
            TracedValue::Int(v) => *v == *other,
            _ => false,
        }
    }
}

impl vstd::std_specs::cmp::PartialEqSpecImpl<i128> for TracedValue {
    open spec fn obeys_eq_spec() -> bool {
        true
    }

    open spec fn eq_spec(&self, other: &i128) -> bool {
        self matches TracedValue::Int(v) && v == *other
    }
}

impl From<i64> for TracedValue {
    fn from(v: i64) -> (r: TracedValue) {
        TracedValue::Int(v as i128)
    }
}

impl vstd::std_specs::convert::FromSpecImpl<i64> for TracedValue {
    open spec fn obeys_from_spec() -> bool {
        true
    }

    open spec fn from_spec(v: i64) -> TracedValue {
        TracedValue::Int(v as i128)
    }
}

impl PartialEq<i64> for TracedValue {
    fn eq(&self, other: &i64) -> (r: bool) {
        match self {
            TracedValue::Int(v) => *v == *other as i128,
            _ => false,
        }
    }
}

impl vstd::std_specs::cmp::PartialEqSpecImpl<i64> for TracedValue {
    open spec fn obeys_eq_spec() -> bool {
        true
    }

    open spec fn eq_spec(&self, other: &i64) -> bool {
        self matches TracedValue::Int(v) && v == *other as i128
    }
}

impl From<u128> for TracedValue {
    fn from(v: u128) -> (r: TracedValue) {
        TracedValue::UInt(v)
    }
}

impl vstd::std_specs::convert::FromSpecImpl<u128> for TracedValue {
    open spec fn obeys_from_spec() -> bool {
        true
    }

    open spec fn from_spec(v: u128) -> TracedValue {
        TracedValue::UInt(v)
    }
}

impl PartialEq<u128> for TracedValue {
    fn eq(&self, other: &u128) -> (r: bool) {
        match self {
            TracedValue::UInt(v) => *v == *other,
            _ => false,
        }
    }
}

impl vstd::std_specs::cmp::PartialEqSpecImpl<u128> for TracedValue {
    open spec fn obeys_eq_spec() -> bool {
        true
    }

    open spec fn eq_spec(&self, other: &u128) -> bool {
        self matches TracedValue::UInt(v) && v == *other
    }
}

impl From<u64> for TracedValue {
    fn from(v: u64) -> (r: TracedValue) {
        TracedValue::UInt(v as u128)
    }
}

impl vstd::std_specs::convert::FromSpecImpl<u64> for TracedValue {
    open spec fn obeys_from_spec() -> bool {
        true
    }

    open spec fn from_spec(v: u64) -> TracedValue {
        TracedValue::UInt(v as u128)
    }
}

impl PartialEq<u64> for TracedValue {
    fn eq(&self, other: &u64) -> (r: bool) {
        match self {
            TracedValue::UInt(v) => *v == *other as u128,
            _ => false,
        }
    }
}

impl vstd::std_specs::cmp::PartialEqSpecImpl<u64> for TracedValue {
    open spec fn obeys_eq_spec() -> bool {
        true
    }

    open spec fn eq_spec(&self, other: &u64) -> bool {
        self matches TracedValue::UInt(v) && v == *other as u128
    }
}

impl<'a> From<&'a str> for TracedValue {
    fn from(v: &'a str) -> (r: TracedValue)
        ensures
            r matches TracedValue::String(t) && t@ == v@,
    {
        TracedValue::string(v)
    }
}

/// A `String` has no spec-level constructor from a `&str`, so conversion from a
/// `&str` states its result in the `ensures` of `from` instead of through `from_spec`.
impl<'a> vstd::std_specs::convert::FromSpecImpl<&'a str> for TracedValue {
    open spec fn obeys_from_spec() -> bool {
        false
    }

    open spec fn from_spec(v: &'a str) -> TracedValue {
        TracedValue::Bool(false)
    }
}

impl<'a> PartialEq<&'a str> for TracedValue {
    fn eq(&self, other: &&'a str) -> (r: bool) {
        match self {
            TracedValue::String(v) => string_eq(v.as_str(), *other),
            _ => false,
        }
    }
}

impl<'a> vstd::std_specs::cmp::PartialEqSpecImpl<&'a str> for TracedValue {
    open spec fn obeys_eq_spec() -> bool {
        true
    }

    open spec fn eq_spec(&self, other: &&'a str) -> bool {
        self matches TracedValue::String(v) && v@ == other@
    }
}

impl PartialEq<TracedValue> for bool {
    fn eq(&self, other: &TracedValue) -> (r: bool) {
        other.eq(self)
    }
}

impl vstd::std_specs::cmp::PartialEqSpecImpl<TracedValue> for bool {
    open spec fn obeys_eq_spec() -> bool {
        true
    }

    open spec fn eq_spec(&self, other: &TracedValue) -> bool {
        *other matches TracedValue::Bool(v) && v == *self
    }
}

impl PartialEq<TracedValue> for i128 {
    fn eq(&self, other: &TracedValue) -> (r: bool) {
        other.eq(self)
    }
}

impl vstd::std_specs::cmp::PartialEqSpecImpl<TracedValue> for i128 {
    open spec fn obeys_eq_spec() -> bool {
        true
    }

    open spec fn eq_spec(&self, other: &TracedValue) -> bool {
        *other matches TracedValue::Int(v) && v == *self
    }
}

impl PartialEq<TracedValue> for i64 {
    fn eq(&self, other: &TracedValue) -> (r: bool) {
        other.eq(self)
    }
}

impl vstd::std_specs::cmp::PartialEqSpecImpl<TracedValue> for i64 {
    open spec fn obeys_eq_spec() -> bool {
        true
    }

    open spec fn eq_spec(&self, other: &TracedValue) -> bool {
        *other matches TracedValue::Int(v) && v == *self as i128
    }
}

impl PartialEq<TracedValue> for u128 {
    fn eq(&self, other: &TracedValue) -> (r: bool) {
        other.eq(self)
    }
}

impl vstd::std_specs::cmp::PartialEqSpecImpl<TracedValue> for u128 {
    open spec fn obeys_eq_spec() -> bool {
        true
    }

    open spec fn eq_spec(&self, other: &TracedValue) -> bool {
        *other matches TracedValue::UInt(v) && v == *self
    }
}

impl PartialEq<TracedValue> for u64 {
    fn eq(&self, other: &TracedValue) -> (r: bool) {
        other.eq(self)
    }
}

impl vstd::std_specs::cmp::PartialEqSpecImpl<TracedValue> for u64 {
    open spec fn obeys_eq_spec() -> bool {
        true
    }

    open spec fn eq_spec(&self, other: &TracedValue) -> bool {
        *other matches TracedValue::UInt(v) && v == *self as u128
    }
}

impl<'a> PartialEq<TracedValue> for &'a str {
    fn eq(&self, other: &TracedValue) -> (r: bool) {
        other.eq(self)
    }
}

impl<'a> vstd::std_specs::cmp::PartialEqSpecImpl<TracedValue> for &'a str {
    open spec fn obeys_eq_spec() -> bool {
        true
    }

    open spec fn eq_spec(&self, other: &TracedValue) -> bool {
        *other matches TracedValue::String(v) && v@ == self@
    }
}

/// Value fidelity: a scalar converted into a [`TracedValue`] converts back into
/// itself and compares equal to the value, in both directions, for every boolean,
/// signed and unsigned integer of 64 or 128 bits, and string.
pub proof fn lemma_value_fidelity(b: bool, i: i64, wi: i128, u: u64, wu: u128, s: &str)
    ensures
        <bool as FromTracedValue>::from_value_spec(&<TracedValue as FromSpec<bool>>::from_spec(b))
            == Some(b),
        <TracedValue as FromSpec<bool>>::from_spec(b).eq_spec(&b),
        <bool as PartialEqSpec<TracedValue>>::eq_spec(&b, &<TracedValue as FromSpec<bool>>::from_spec(b)),
        <i64 as FromTracedValue>::from_value_spec(&<TracedValue as FromSpec<i64>>::from_spec(i))
            == Some(i),
        <TracedValue as FromSpec<i64>>::from_spec(i).eq_spec(&i),
        <i64 as PartialEqSpec<TracedValue>>::eq_spec(&i, &<TracedValue as FromSpec<i64>>::from_spec(i)),
        <i128 as FromTracedValue>::from_value_spec(&<TracedValue as FromSpec<i128>>::from_spec(wi))
            == Some(wi),
        <TracedValue as FromSpec<i128>>::from_spec(wi).eq_spec(&wi),
        <i128 as PartialEqSpec<TracedValue>>::eq_spec(&wi, &<TracedValue as FromSpec<i128>>::from_spec(wi)),
        <u64 as FromTracedValue>::from_value_spec(&<TracedValue as FromSpec<u64>>::from_spec(u))
            == Some(u),
        <TracedValue as FromSpec<u64>>::from_spec(u).eq_spec(&u),
        <u64 as PartialEqSpec<TracedValue>>::eq_spec(&u, &<TracedValue as FromSpec<u64>>::from_spec(u)),
        <u128 as FromTracedValue>::from_value_spec(&<TracedValue as FromSpec<u128>>::from_spec(wu))
            == Some(wu),
        <TracedValue as FromSpec<u128>>::from_spec(wu).eq_spec(&wu),
        <u128 as PartialEqSpec<TracedValue>>::eq_spec(&wu, &<TracedValue as FromSpec<u128>>::from_spec(wu)),
        forall|v: TracedValue|
            (v matches TracedValue::String(t) && t@ == s@) ==> v.eq_spec(&s) && <&str as PartialEqSpec<
                TracedValue,
            >>::eq_spec(&s, &v),
{
}

} // verus!
