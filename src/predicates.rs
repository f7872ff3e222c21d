//! Predicates over the fields of captured spans and events, and scanners that
//! look for the items matching them.

use vstd::prelude::*;

use crate::capture::{CapturedEvent, CapturedSpan, Storage, StorageModel};
use crate::value::TracedValue;
use crate::values::{value_of, FieldEntries, TracedValues};

verus! {

/// Matcher of a piece of text.
#[derive(Debug)]
pub enum StrMatcher {
    /// The text equals the given one.
    Equals(String),
    /// The text contains the given one.
    Contains(String),
    /// The text starts with the given one.
    StartsWith(String),
    /// The text ends with the given one.
    EndsWith(String),
}

/// Whether `t` occurs in `s` at position `i`.
pub open spec fn occurs_at(s: Seq<char>, t: Seq<char>, i: int) -> bool {
    0 <= i && i + t.len() <= s.len() && s.subrange(i, i + t.len()) == t
}

/// Whether text `s` satisfies matcher `m`.
pub open spec fn str_holds(m: StrMatcher, s: Seq<char>) -> bool {
    match m {
        StrMatcher::Equals(t) => s == t@,
        StrMatcher::Contains(t) => exists|i: int| occurs_at(s, t@, i),
        StrMatcher::StartsWith(t) => occurs_at(s, t@, 0),
        StrMatcher::EndsWith(t) => occurs_at(s, t@, s.len() - t@.len()),
    }
}

/// Whether `t` occurs in `s` at position `i`.
fn occurs_at_exec(s: &str, t: &str, i: usize) -> (r: bool)
    ensures
        r == occurs_at(s@, t@, i as int),
{
    let n = s.unicode_len();
    let k = t.unicode_len();
    if i > n || k > n - i {
        return false;
    }
    let mut j: usize = 0;
    while j < k
        invariant
            n == s@.len(),
            k == t@.len(),
            i + k <= n,
            j <= k,
            s@.subrange(i as int, i + j) == t@.subrange(0, j as int),
        decreases k - j,
    {
        if s.get_char(i + j) != t.get_char(j) {
            assert(s@.subrange(i as int, i + k)[j as int] != t@[j as int]);
            return false;
        }
        assert(s@.subrange(i as int, i + j + 1) =~= s@.subrange(i as int, i + j).push(
            s@[i + j],
        ));
        assert(t@.subrange(0, j + 1) =~= t@.subrange(0, j as int).push(t@[j as int]));
        j = j + 1;
    }
    assert(t@.subrange(0, k as int) =~= t@);
    true
}

impl StrMatcher {
    /// Whether text `s` satisfies the matcher.
    pub fn eval(&self, s: &str) -> (r: bool)
        ensures
            r == str_holds(*self, s@),
    {
        match self {
            StrMatcher::Equals(t) => crate::value::string_eq(s, t.as_str()),
            StrMatcher::StartsWith(t) => occurs_at_exec(s, t.as_str(), 0),
            StrMatcher::EndsWith(t) => {
                let n = s.unicode_len();
                let k = t.as_str().unicode_len();
                if k > n {
                    false
                } else {
                    occurs_at_exec(s, t.as_str(), n - k)
                }
            },
            StrMatcher::Contains(t) => {
                let n = s.unicode_len();
                let k = t.as_str().unicode_len();
                if k > n {
                    return false;
                }
                let last = n - k;
                let mut i: usize = 0;
                loop
                    invariant
                        n == s@.len(),
                        k == t@.len(),
                        last == n - k,
                        i <= last,
                        str_holds(*self, s@) == (exists|j: int| occurs_at(s@, t@, j)),
                        forall|j: int| 0 <= j < i ==> !occurs_at(s@, t@, j),
                    decreases last - i,
                {
                    if occurs_at_exec(s, t.as_str(), i) {
                        assert(occurs_at(s@, t@, i as int));
                        return true;
                    }
                    if i == last {
                        assert forall|j: int| !occurs_at(s@, t@, j) by {
                            if 0 <= j <= last {
                            }
                        }
                        return false;
                    }
                    i = i + 1;
                }
            },
        }
    }
}

/// Scalar that a value is compared to.
#[derive(Debug)]
pub enum Scalar {
    /// A boolean, equal to a boolean value holding it.
    Bool(bool),
    /// A signed integer, equal to a signed value holding it.
    Int(i128),
    /// An unsigned integer, equal to an unsigned value holding it.
    UInt(u128),
    /// Text, equal to a string value holding it.
    Str(String),
}

/// Whether value `v` equals scalar `s`.
pub open spec fn scalar_eq(s: Scalar, v: TracedValue) -> bool {
    match s {
        Scalar::Bool(b) => v matches TracedValue::Bool(x) && x == b,
        Scalar::Int(i) => v matches TracedValue::Int(x) && x == i,
        Scalar::UInt(u) => v matches TracedValue::UInt(x) && x == u,
        Scalar::Str(t) => v matches TracedValue::String(x) && x@ == t@,
    }
}

/// Predicate that a value equals a scalar.
#[derive(Debug)]
pub struct EquivPredicate {
    /// The scalar compared to.
    pub value: Scalar,
}

impl EquivPredicate {
    /// The scalar compared to.
    pub open spec fn scalar(self) -> Scalar {
        self.value
    }

    /// Predicate that a value equals `value`.
    pub fn new(value: Scalar) -> (r: EquivPredicate)
        ensures
            r.scalar() == value,
    {
        EquivPredicate { value }
    }

    /// Whether `variable` equals the scalar.
    pub fn eval(&self, variable: &TracedValue) -> (r: bool)
        ensures
            r == scalar_eq(self.scalar(), *variable),
    {
        match (&self.value, variable) {
            (Scalar::Bool(b), TracedValue::Bool(x)) => *x == *b,
            (Scalar::Int(i), TracedValue::Int(x)) => *x == *i,
            (Scalar::UInt(u), TracedValue::UInt(x)) => *x == *u,
            (Scalar::Str(t), TracedValue::String(x)) => crate::value::string_eq(x.as_str(), t.as_str()),
            _ => false,
        }
    }
}

/// Predicate on a single value.
#[derive(Debug)]
pub enum ValueMatcher {
    /// Any value.
    Always,
    /// A value equal to a scalar.
    Equiv(EquivPredicate),
    /// A string value whose text satisfies the matcher.
    Text(StrMatcher),
    /// An object value whose `Debug` text satisfies the matcher.
    Debug(StrMatcher),
}

/// Whether value `v` satisfies matcher `m`.
pub open spec fn value_holds(m: ValueMatcher, v: TracedValue) -> bool {
    match m {
        ValueMatcher::Always => true,
        ValueMatcher::Equiv(e) => scalar_eq(e.scalar(), v),
        ValueMatcher::Text(s) => v matches TracedValue::String(x) && str_holds(s, x@),
        ValueMatcher::Debug(s) => v matches TracedValue::Object(o) && str_holds(s, o@),
    }
}

impl ValueMatcher {
    /// Whether `value` satisfies the matcher.
    pub fn eval(&self, value: &TracedValue) -> (r: bool)
        ensures
            r == value_holds(*self, *value),
    {
        match self {
            ValueMatcher::Always => true,
            ValueMatcher::Equiv(e) => e.eval(value),
            ValueMatcher::Text(s) => match value {
                TracedValue::String(x) => s.eval(x.as_str()),
                _ => false,
            },
            ValueMatcher::Debug(s) => match value.as_debug_str() {
                Some(d) => s.eval(d),
                None => false,
            },
        }
    }
}

/// Predicate that a captured item has a field satisfying a matcher.
#[derive(Debug)]
pub struct FieldPredicate {
    name: String,
    matches: ValueMatcher,
}

/// Whether field entries `values` hold field `name` with a value satisfying `m`.
pub open spec fn field_holds(name: Seq<char>, m: ValueMatcher, values: FieldEntries) -> bool {
    value_of(values, name) matches Some(v) && value_holds(m, v)
}

/// Conversion into the matcher of a field's value: a scalar stands for equality with it.
pub trait IntoFieldPredicate: Sized {
    /// Whether value `v` satisfies the matcher this converts into.
    spec fn accepts(self, v: TracedValue) -> bool;

    /// Performs the conversion.
    fn into_predicate(self) -> (r: ValueMatcher)
        ensures
            forall|v: TracedValue| #[trigger] value_holds(r, v) == self.accepts(v),
    ;
}

impl IntoFieldPredicate for ValueMatcher {
    open spec fn accepts(self, v: TracedValue) -> bool {
        value_holds(self, v)
    }

    fn into_predicate(self) -> (r: ValueMatcher)
        ensures
            r == self,
    {
        self
    }
}

impl IntoFieldPredicate for bool {
    open spec fn accepts(self, v: TracedValue) -> bool {
        v matches TracedValue::Bool(x) && x == self
    }

    fn into_predicate(self) -> (r: ValueMatcher)
        ensures
            r == ValueMatcher::Equiv((EquivPredicate { value: Scalar::Bool(self) })),
    {
        ValueMatcher::Equiv(EquivPredicate { value: Scalar::Bool(self) })
    }
}

impl IntoFieldPredicate for i64 {
    open spec fn accepts(self, v: TracedValue) -> bool {
        v matches TracedValue::Int(x) && x == self as i128
    }

    fn into_predicate(self) -> (r: ValueMatcher)
        ensures
            r == ValueMatcher::Equiv((EquivPredicate { value: Scalar::Int(self as i128) })),
    {
        ValueMatcher::Equiv(EquivPredicate { value: Scalar::Int(self as i128) })
    }
}

impl IntoFieldPredicate for i128 {
    open spec fn accepts(self, v: TracedValue) -> bool {
        v matches TracedValue::Int(x) && x == self
    }

    fn into_predicate(self) -> (r: ValueMatcher)
        ensures
            r == ValueMatcher::Equiv((EquivPredicate { value: Scalar::Int(self) })),
    {
        ValueMatcher::Equiv(EquivPredicate { value: Scalar::Int(self) })
    }
}

impl IntoFieldPredicate for u64 {
    open spec fn accepts(self, v: TracedValue) -> bool {
        v matches TracedValue::UInt(x) && x == self as u128
    }

    fn into_predicate(self) -> (r: ValueMatcher)
        ensures
            r == ValueMatcher::Equiv((EquivPredicate { value: Scalar::UInt(self as u128) })),
    {
        ValueMatcher::Equiv(EquivPredicate { value: Scalar::UInt(self as u128) })
    }
}

impl IntoFieldPredicate for u128 {
    open spec fn accepts(self, v: TracedValue) -> bool {
        v matches TracedValue::UInt(x) && x == self
    }

    fn into_predicate(self) -> (r: ValueMatcher)
        ensures
            r == ValueMatcher::Equiv((EquivPredicate { value: Scalar::UInt(self) })),
    {
        ValueMatcher::Equiv(EquivPredicate { value: Scalar::UInt(self) })
    }
}

impl<'a> IntoFieldPredicate for &'a str {
    open spec fn accepts(self, v: TracedValue) -> bool {
        v matches TracedValue::String(x) && x@ == self@
    }

    fn into_predicate(self) -> (r: ValueMatcher)
        ensures
            r matches ValueMatcher::Equiv(e) && e.value matches Scalar::Str(t) && t@ == self@,
    {
        ValueMatcher::Equiv(EquivPredicate { value: Scalar::Str(self.to_string()) })
    }
}

/// Predicate that a captured item has field `name` with a value satisfying `matches`.
pub fn field<P: IntoFieldPredicate>(name: &str, matches: P) -> (r: FieldPredicate)
    ensures
        r.name() == name@,
        forall|v: TracedValue| #[trigger] value_holds(r.matcher(), v) == matches.accepts(v),
{
    FieldPredicate { name: name.to_string(), matches: matches.into_predicate() }
}

impl FieldPredicate {
    /// Name of the field.
    pub closed spec fn name(self) -> Seq<char> {
        self.name@
    }

    /// Matcher of the field's value.
    pub closed spec fn matcher(self) -> ValueMatcher {
        self.matches
    }

    /// Whether `values` hold the field with a value satisfying the matcher.
    pub fn eval(&self, values: &TracedValues) -> (r: bool)
        ensures
            r == field_holds(self.name(), self.matcher(), values@),
    {
        match values.get(self.name.as_str()) {
            Some(v) => self.matches.eval(v),
            None => false,
        }
    }
}

/// Predicate on the message of a captured event.
#[derive(Debug)]
pub struct MessagePredicate {
    matches: StrMatcher,
}

/// Whether field entries `values` hold a `message` field with an object value whose
/// `Debug` text satisfies `m`.
pub open spec fn message_holds(m: StrMatcher, values: FieldEntries) -> bool {
    value_of(values, "message"@) matches Some(TracedValue::Object(o)) && str_holds(m, o@)
}

/// Predicate that an event's message satisfies `matches`.
pub fn message(matches: StrMatcher) -> (r: MessagePredicate)
    ensures
        r.matcher() == matches,
{
    MessagePredicate { matches }
}

impl MessagePredicate {
    /// Matcher of the message.
    pub closed spec fn matcher(self) -> StrMatcher {
        self.matches
    }

    /// Whether `values` hold a message satisfying the matcher.
    pub fn eval(&self, values: &TracedValues) -> (r: bool)
        ensures
            r == message_holds(self.matcher(), values@),
    {
        match values.get("message") {
            Some(v) => match v.as_debug_str() {
                Some(d) => self.matches.eval(d),
                None => false,
            },
            None => false,
        }
    }
}

/// Predicate on the fields of a captured span or event, composed with `and`, `or` and
/// `not`.
#[derive(Debug)]
pub enum Predicate {
    /// A field predicate.
    Field(FieldPredicate),
    /// A message predicate.
    Message(MessagePredicate),
    /// Both predicates hold.
    And(Box<Predicate>, Box<Predicate>),
    /// At least one of the predicates holds.
    Or(Box<Predicate>, Box<Predicate>),
    /// The predicate does not hold.
    Not(Box<Predicate>),
}

/// Whether field entries `values` satisfy predicate `p`.
pub open spec fn holds(p: Predicate, values: FieldEntries) -> bool
    decreases p,
{
    match p {
        Predicate::Field(f) => field_holds(f.name(), f.matcher(), values),
        Predicate::Message(m) => message_holds(m.matcher(), values),
        Predicate::And(a, b) => holds(*a, values) && holds(*b, values),
        Predicate::Or(a, b) => holds(*a, values) || holds(*b, values),
        Predicate::Not(a) => !holds(*a, values),
    }
}

impl Predicate {
    /// Whether `values` satisfy the predicate.
    pub fn eval(&self, values: &TracedValues) -> (r: bool)
        ensures
            r == holds(*self, values@),
        decreases self,
    {
        match self {
            Predicate::Field(f) => f.eval(values),
            Predicate::Message(m) => m.eval(values),
            Predicate::And(a, b) => a.eval(values) && b.eval(values),
            Predicate::Or(a, b) => a.eval(values) || b.eval(values),
            Predicate::Not(a) => !a.eval(values),
        }
    }

    /// Both predicates hold.
    pub fn and(self, other: Predicate) -> (r: Predicate)
        ensures
            r == Predicate::And(Box::new(self), Box::new(other)),
    {
        Predicate::And(Box::new(self), Box::new(other))
    }

    /// At least one of the predicates holds.
    pub fn or(self, other: Predicate) -> (r: Predicate)
        ensures
            r == Predicate::Or(Box::new(self), Box::new(other)),
    {
        Predicate::Or(Box::new(self), Box::new(other))
    }

    /// The predicate does not hold.
    pub fn not(self) -> (r: Predicate)
        ensures
            r == Predicate::Not(Box::new(self)),
    {
        Predicate::Not(Box::new(self))
    }
}

impl From<FieldPredicate> for Predicate {
    fn from(f: FieldPredicate) -> (r: Predicate) {
        Predicate::Field(f)
    }
}

impl vstd::std_specs::convert::FromSpecImpl<FieldPredicate> for Predicate {
    open spec fn obeys_from_spec() -> bool {
        true
    }

    open spec fn from_spec(f: FieldPredicate) -> Predicate {
        Predicate::Field(f)
    }
}

impl From<MessagePredicate> for Predicate {
    fn from(m: MessagePredicate) -> (r: Predicate) {
        Predicate::Message(m)
    }
}

impl vstd::std_specs::convert::FromSpecImpl<MessagePredicate> for Predicate {
    open spec fn obeys_from_spec() -> bool {
        true
    }

    open spec fn from_spec(m: MessagePredicate) -> Predicate {
        Predicate::Message(m)
    }
}

/// Text of decimal digit `d`.
pub open spec fn digit_text(d: nat) -> Seq<char> {
    if d == 0 {
        "0"@
    } else if d == 1 {
        "1"@
    } else if d == 2 {
        "2"@
    } else if d == 3 {
        "3"@
    } else if d == 4 {
        "4"@
    } else if d == 5 {
        "5"@
    } else if d == 6 {
        "6"@
    } else if d == 7 {
        "7"@
    } else if d == 8 {
        "8"@
    } else {
        "9"@
    }
}

/// Decimal text of `n`.
pub open spec fn decimal(n: nat) -> Seq<char>
    decreases n,
{
    if n < 10 {
        digit_text(n)
    } else {
        decimal(n / 10) + digit_text(n % 10)
    }
}

fn digit_str(d: u128) -> (r: &'static str)
    requires
        d < 10,
    ensures
        r@ == digit_text(d as nat),
{
    if d == 0 {
        "0"
    } else if d == 1 {
        "1"
    } else if d == 2 {
        "2"
    } else if d == 3 {
        "3"
    } else if d == 4 {
        "4"
    } else if d == 5 {
        "5"
    } else if d == 6 {
        "6"
    } else if d == 7 {
        "7"
    } else if d == 8 {
        "8"
    } else {
        "9"
    }
}

fn decimal_string(n: u128) -> (r: String)
    ensures
        r@ == decimal(n as nat),
    decreases n,
{
    if n < 10 {
        digit_str(n).to_string()
    } else {
        decimal_string(n / 10).concat(digit_str(n % 10))
    }
}

/// Text of a text matcher.
pub open spec fn str_matcher_text(m: StrMatcher) -> Seq<char> {
    match m {
        StrMatcher::Equals(t) => "== \""@ + t@ + "\""@,
        StrMatcher::Contains(t) => "contains \""@ + t@ + "\""@,
        StrMatcher::StartsWith(t) => "starts with \""@ + t@ + "\""@,
        StrMatcher::EndsWith(t) => "ends with \""@ + t@ + "\""@,
    }
}

/// Text of a scalar.
pub open spec fn scalar_text(s: Scalar) -> Seq<char> {
    match s {
        Scalar::Bool(b) => if b {
            "true"@
        } else {
            "false"@
        },
        Scalar::Int(i) => if i < 0 {
            "-"@ + decimal((-i) as nat)
        } else {
            decimal(i as nat)
        },
        Scalar::UInt(u) => decimal(u as nat),
        Scalar::Str(t) => "\""@ + t@ + "\""@,
    }
}

/// Text of a value matcher.
pub open spec fn matcher_text(m: ValueMatcher) -> Seq<char> {
    match m {
        ValueMatcher::Always => "true"@,
        ValueMatcher::Equiv(e) => "var == "@ + scalar_text(e.scalar()),
        ValueMatcher::Text(t) => "var "@ + str_matcher_text(t),
        ValueMatcher::Debug(t) => "debug(var) "@ + str_matcher_text(t),
    }
}

/// Text of a predicate, as shown in failure reports.
pub open spec fn predicate_text(p: Predicate) -> Seq<char>
    decreases p,
{
    match p {
        Predicate::Field(f) => "fields."@ + f.name() + "("@ + matcher_text(f.matcher()) + ")"@,
        Predicate::Message(m) => "message("@ + str_matcher_text(m.matcher()) + ")"@,
        Predicate::And(a, b) => "("@ + predicate_text(*a) + " && "@ + predicate_text(*b) + ")"@,
        Predicate::Or(a, b) => "("@ + predicate_text(*a) + " || "@ + predicate_text(*b) + ")"@,
        Predicate::Not(a) => "!("@ + predicate_text(*a) + ")"@,
    }
}

impl StrMatcher {
    /// Text of the matcher.
    pub fn describe(&self) -> (r: String)
        ensures
            r@ == str_matcher_text(*self),
    {
        match self {
            StrMatcher::Equals(t) => "== \"".to_string().concat(t.as_str()).concat("\""),
            StrMatcher::Contains(t) => "contains \"".to_string().concat(t.as_str()).concat("\""),
            StrMatcher::StartsWith(t) => "starts with \"".to_string().concat(t.as_str()).concat(
                "\"",
            ),
            StrMatcher::EndsWith(t) => "ends with \"".to_string().concat(t.as_str()).concat("\""),
        }
    }
}

impl ValueMatcher {
    /// Text of the matcher.
    pub fn describe(&self) -> (r: String)
        ensures
            r@ == matcher_text(*self),
    {
        match self {
            ValueMatcher::Always => "true".to_string(),
            ValueMatcher::Equiv(e) => {
                let text = match &e.value {
                    Scalar::Bool(b) => if *b {
                        "true".to_string()
                    } else {
                        "false".to_string()
                    },
                    Scalar::Int(i) => if *i < 0 {
                        let magnitude: u128 = if *i == i128::MIN {
                            (i128::MAX as u128) + 1
                        } else {
                            (-*i) as u128
                        };
                        "-".to_string().concat(decimal_string(magnitude).as_str())
                    } else {
                        decimal_string(*i as u128)
                    },
                    Scalar::UInt(u) => decimal_string(*u),
                    Scalar::Str(t) => "\"".to_string().concat(t.as_str()).concat("\""),
                };
                "var == ".to_string().concat(text.as_str())
            },
            ValueMatcher::Text(t) => "var ".to_string().concat(t.describe().as_str()),
            ValueMatcher::Debug(t) => "debug(var) ".to_string().concat(t.describe().as_str()),
        }
    }
}

impl Predicate {
    /// Text of the predicate, as shown in failure reports.
    pub fn describe(&self) -> (r: String)
        ensures
            r@ == predicate_text(*self),
        decreases self,
    {
        match self {
            Predicate::Field(f) => "fields.".to_string().concat(f.name.as_str()).concat("(").concat(
                f.matches.describe().as_str(),
            ).concat(")"),
            Predicate::Message(m) => "message(".to_string().concat(m.matches.describe().as_str()).concat(
                ")",
            ),
            Predicate::And(a, b) => "(".to_string().concat(a.describe().as_str()).concat(" && ").concat(
                b.describe().as_str(),
            ).concat(")"),
            Predicate::Or(a, b) => "(".to_string().concat(a.describe().as_str()).concat(" || ").concat(
                b.describe().as_str(),
            ).concat(")"),
            Predicate::Not(a) => "!(".to_string().concat(a.describe().as_str()).concat(")"),
        }
    }
}

/// A value inspected while explaining a predicate's outcome.
#[derive(Debug)]
pub struct Product {
    /// What was inspected: `var` for the value itself, or the path of a field.
    pub name: String,
    /// The value found there, or `None` if there was none.
    pub value: Option<TracedValue>,
}

/// Explanation of why a predicate evaluated as it did: the values it inspected,
/// and the explanations of the parts of a composed predicate.
#[derive(Debug)]
pub struct Case {
    /// The outcome being explained.
    pub result: bool,
    /// Values inspected by this predicate.
    pub products: Vec<Product>,
    /// Explanations of the parts that decided the outcome.
    pub children: Vec<Case>,
}

/// Whether `c` explains outcome `expected` by value `v` alone: one product named
/// `var` holding it, and no parts.
pub open spec fn is_value_case(c: Case, expected: bool, v: TracedValue) -> bool {
    &&& c.result == expected
    &&& c.products@.len() == 1
    &&& c.products@[0].name@ == "var"@
    &&& c.products@[0].value == Some(v)
    &&& c.children@.len() == 0
}

/// Whether `c` explains outcome `expected` by the absence of what `name` names: one
/// product named so with no value, and no parts.
pub open spec fn is_missing_case(c: Case, expected: bool, name: Seq<char>) -> bool {
    &&& c.result == expected
    &&& c.products@.len() == 1
    &&& c.products@[0].name@ == name
    &&& c.products@[0].value is None
    &&& c.children@.len() == 0
}

/// Explanation of an outcome that rests on value `v` alone.
fn value_case(expected: bool, v: &TracedValue) -> (r: Case)
    ensures
        r.result == expected,
        r.products@.len() == 1,
        r.products@[0].name@ == "var"@,
        r.products@[0].value == Some(*v),
        r.children@.len() == 0,
{
    let mut products: Vec<Product> = Vec::new();
    products.push(Product { name: "var".to_string(), value: Some(v.clone()) });
    Case { result: expected, products, children: Vec::new() }
}

/// Explanation of an outcome decided by a field that is absent.
fn missing_case(expected: bool, name: String) -> (r: Case)
    ensures
        r.result == expected,
        r.products@.len() == 1,
        r.products@[0].name == name,
        r.products@[0].value is None,
        r.children@.len() == 0,
{
    let mut products: Vec<Product> = Vec::new();
    products.push(Product { name, value: None });
    Case { result: expected, products, children: Vec::new() }
}

/// Explanation of an outcome decided by the given parts.
fn composed_case(expected: bool, children: Vec<Case>) -> (r: Case)
    ensures
        r.result == expected,
        r.products@.len() == 0,
        r.children@ == children@,
{
    Case { result: expected, products: Vec::new(), children }
}

impl EquivPredicate {
    /// Explains an outcome of [`Self::eval`] on `variable`: `None` if the predicate
    /// does not evaluate to `expected`, otherwise the value inspected.
    pub fn find_case(&self, expected: bool, variable: &TracedValue) -> (r: Option<Case>)
        ensures
            r is Some <==> scalar_eq(self.scalar(), *variable) == expected,
            r matches Some(c) ==> is_value_case(c, expected, *variable),
    {
        if self.eval(variable) == expected {
            Some(value_case(expected, variable))
        } else {
            None
        }
    }
}

impl ValueMatcher {
    /// Explains an outcome of [`Self::eval`] on `value`: `None` if the matcher does
    /// not evaluate to `expected`, otherwise the value inspected.
    pub fn find_case(&self, expected: bool, value: &TracedValue) -> (r: Option<Case>)
        ensures
            r is Some <==> value_holds(*self, *value) == expected,
            r matches Some(c) ==> is_value_case(c, expected, *value),
    {
        match self {
            ValueMatcher::Equiv(e) => e.find_case(expected, value),
            _ => if self.eval(value) == expected {
                Some(value_case(expected, value))
            } else {
                None
            },
        }
    }
}

impl FieldPredicate {
    /// Explains an outcome of [`Self::eval`] on `values`: `None` if the predicate does
    /// not evaluate to `expected`. Otherwise, where the field is absent, the case names
    /// it with no value; where it is present, the case holds the explanation of the
    /// value matcher.
    pub fn find_case(&self, expected: bool, values: &TracedValues) -> (r: Option<Case>)
        ensures
            r is Some <==> field_holds(self.name(), self.matcher(), values@) == expected,
            r matches Some(c) ==> match value_of(values@, self.name()) {
                None => !expected && is_missing_case(c, expected, "fields."@ + self.name()),
                Some(v) => c.result == expected && c.products@.len() == 0 && c.children@.len() == 1
                    && is_value_case(c.children@[0], expected, v),
            },
    {
        match values.get(self.name.as_str()) {
            None => if expected {
                None
            } else {
                let name = "fields.".to_string().concat(self.name.as_str());
                Some(missing_case(expected, name))
            },
            Some(v) => match self.matches.find_case(expected, v) {
                Some(child) => {
                    let mut children: Vec<Case> = Vec::new();
                    children.push(child);
                    Some(composed_case(expected, children))
                },
                None => None,
            },
        }
    }
}

impl MessagePredicate {
    /// Explains an outcome of [`Self::eval`] on `values`: `None` if the predicate does
    /// not evaluate to `expected`. Otherwise, where there is no message, the case names
    /// it with no value; where there is one, the case holds the `message` value.
    pub fn find_case(&self, expected: bool, values: &TracedValues) -> (r: Option<Case>)
        ensures
            r is Some <==> message_holds(self.matcher(), values@) == expected,
            r matches Some(c) ==> match value_of(values@, "message"@) {
                Some(TracedValue::Object(o)) => c.result == expected && c.products@.len() == 0
                    && c.children@.len() == 1 && is_value_case(
                    c.children@[0],
                    expected,
                    TracedValue::Object(o),
                ),
                _ => !expected && is_missing_case(c, expected, "message"@),
            },
    {
        let text = match values.get("message") {
            Some(v) => match v.as_debug_str() {
                Some(d) => Some((v, d)),
                None => None,
            },
            None => None,
        };
        match text {
            None => if expected {
                None
            } else {
                Some(missing_case(expected, "message".to_string()))
            },
            Some((v, d)) => if self.matches.eval(d) == expected {
                let mut children: Vec<Case> = Vec::new();
                children.push(value_case(expected, v));
                Some(composed_case(expected, children))
            } else {
                None
            },
        }
    }
}

impl Predicate {
    /// Explains an outcome of [`Self::eval`] on `values`: `None` if the predicate does
    /// not evaluate to `expected`, otherwise the explanations of the parts that decide it.
    pub fn find_case(&self, expected: bool, values: &TracedValues) -> (r: Option<Case>)
        ensures
            r is Some <==> holds(*self, values@) == expected,
            r matches Some(c) ==> c.result == expected,
        decreases self,
    {
        match self {
            Predicate::Field(f) => f.find_case(expected, values),
            Predicate::Message(m) => m.find_case(expected, values),
            Predicate::Not(a) => match a.find_case(!expected, values) {
                Some(c) => {
                    let mut children: Vec<Case> = Vec::new();
                    children.push(c);
                    Some(composed_case(expected, children))
                },
                None => None,
            },
            Predicate::And(a, b) | Predicate::Or(a, b) => {
                let is_and = match self {
                    Predicate::And(..) => true,
                    _ => false,
                };
                let ca = a.find_case(expected, values);
                let cb = b.find_case(expected, values);
                let mut children: Vec<Case> = Vec::new();
                if is_and == expected {
                    // Both parts must agree with the outcome.
                    match (ca, cb) {
                        (Some(x), Some(y)) => {
                            children.push(x);
                            children.push(y);
                            Some(composed_case(expected, children))
                        },
                        _ => None,
                    }
                } else {
                    // One part agreeing with the outcome decides it.
                    match ca {
                        Some(x) => {
                            children.push(x);
                            Some(composed_case(expected, children))
                        },
                        None => match cb {
                            Some(y) => {
                                children.push(y);
                                Some(composed_case(expected, children))
                            },
                            None => None,
                        },
                    }
                }
            },
        }
    }
}

/// Marker for the kinds of captured items; implemented by spans and events only.
pub trait Sealed {
}

/// Captured item, span or event, whose fields predicates are evaluated on.
pub trait Captured: Sealed {
    /// Field entries of the item.
    spec fn field_entries(&self) -> FieldEntries;

    /// Values of the item.
    fn field_values(&self) -> (r: &TracedValues)
        ensures
            r@ == self.field_entries(),
    ;
}

impl<'a> Sealed for CapturedSpan<'a> {
}

impl<'a> Captured for CapturedSpan<'a> {
    open spec fn field_entries(&self) -> FieldEntries {
        self.record().values
    }

    fn field_values(&self) -> (r: &TracedValues) {
        self.values()
    }
}

impl<'a> Sealed for CapturedEvent<'a> {
}

impl<'a> Captured for CapturedEvent<'a> {
    open spec fn field_entries(&self) -> FieldEntries {
        self.record().values
    }

    fn field_values(&self) -> (r: &TracedValues) {
        self.values()
    }
}

/// Why a scan failed.
#[derive(Debug, Clone, Copy, PartialEq, Eq, Structural)]
pub enum ScanError {
    /// No item matched the predicate.
    NoMatch,
    /// Several items matched the predicate; these are the positions of the first two.
    MultipleMatches {
        /// Position of the first matching item.
        first: usize,
        /// Position of the second matching item.
        second: usize,
    },
    /// The item at this position did not match the predicate.
    Mismatch {
        /// Position of the first item that does not match.
        index: usize,
    },
    /// The item at this position matched the predicate.
    UnexpectedMatch {
        /// Position of the first matching item.
        index: usize,
    },
}

/// Whether the item at position `i` of `items` satisfies `p`.
pub open spec fn matches_at<T: Captured>(items: Seq<T>, p: Predicate, i: int) -> bool {
    0 <= i < items.len() && holds(p, items[i].field_entries())
}

/// Whether no item at a position in `[lo, hi)` satisfies `p`.
pub open spec fn none_in<T: Captured>(items: Seq<T>, p: Predicate, lo: int, hi: int) -> bool {
    forall|i: int| lo <= i < hi ==> !#[trigger] matches_at(items, p, i)
}

/// Holder of captured items that predicates are checked against.
#[derive(Debug)]
pub struct Scanner<T> {
    items: Vec<T>,
}

impl<T> Scanner<T> {
    /// The scanned items, in order.
    pub closed spec fn items(self) -> Seq<T> {
        self.items@
    }
}

impl<T: Copy> Clone for Scanner<T> {
    fn clone(&self) -> (r: Self)
        ensures
            r.items() == self.items(),
    {
        let mut items: Vec<T> = Vec::new();
        let mut i: usize = 0;
        while i < self.items.len()
            invariant
                i <= self.items@.len(),
                items@ == self.items@.take(i as int),
            decreases self.items@.len() - i,
        {
            items.push(self.items[i]);
            assert(items@ =~= self.items@.take(i + 1));
            i = i + 1;
        }
        assert(self.items@.take(i as int) =~= self.items@);
        Scanner { items }
    }
}

impl<T: Captured> Scanner<T> {
    /// Creates a scanner over `items`.
    pub fn new(items: Vec<T>) -> (r: Scanner<T>)
        ensures
            r.items() == items@,
    {
        Scanner { items }
    }

    /// The scanned items, in order.
    pub fn iter(self) -> (r: Vec<T>)
        ensures
            r@ == self.items(),
    {
        self.items
    }

    /// Position of the first item at or after `from` that satisfies `p`, if any.
    fn find_from(&self, p: &Predicate, from: usize) -> (r: Option<usize>)
        requires
            from <= self.items().len(),
        ensures
            match r {
                Some(i) => from <= i < self.items().len() && matches_at(self.items(), *p, i as int)
                    && none_in(self.items(), *p, from as int, i as int),
                None => none_in(self.items(), *p, from as int, self.items().len() as int),
            },
    {
        let mut i = from;
        while i < self.items.len()
            invariant
                from <= i <= self.items@.len(),
                none_in(self.items@, *p, from as int, i as int),
            decreases self.items@.len() - i,
        {
            if p.eval(self.items[i].field_values()) {
                return Some(i);
            }
            i = i + 1;
        }
        None
    }

    /// The single item satisfying `p`. Fails if none does, or if several do, naming
    /// the first two.
    pub fn try_single(self, p: &Predicate) -> (r: Result<T, ScanError>)
        ensures
            match r {
                Ok(x) => exists|i: int|
                    matches_at(self.items(), *p, i) && none_in(self.items(), *p, 0, i) && none_in(
                        self.items(),
                        *p,
                        i + 1,
                        self.items().len() as int,
                    ) && x == self.items()[i],
                Err(ScanError::NoMatch) => none_in(self.items(), *p, 0, self.items().len() as int),
                Err(ScanError::MultipleMatches { first, second }) => first < second && matches_at(
                    self.items(),
                    *p,
                    first as int,
                ) && matches_at(self.items(), *p, second as int) && none_in(
                    self.items(),
                    *p,
                    0,
                    first as int,
                ) && none_in(self.items(), *p, first + 1, second as int),
                Err(_) => false,
            },
    {
        let items = self.items;
        let scanner = Scanner { items };
        let n = scanner.items.len();
        match scanner.find_from(p, 0) {
            None => Err(ScanError::NoMatch),
            Some(first) => match scanner.find_from(p, first + 1) {
                Some(second) => Err(ScanError::MultipleMatches { first, second }),
                None => {
                    let mut items = scanner.items;
                    let x = items.remove(first);
                    Ok(x)
                },
            },
        }
    }

    /// The first item satisfying `p`. Fails if none does.
    pub fn try_first(self, p: &Predicate) -> (r: Result<T, ScanError>)
        ensures
            match r {
                Ok(x) => exists|i: int|
                    matches_at(self.items(), *p, i) && none_in(self.items(), *p, 0, i) && x
                        == self.items()[i],
                Err(ScanError::NoMatch) => none_in(self.items(), *p, 0, self.items().len() as int),
                Err(_) => false,
            },
    {
        match self.find_from(p, 0) {
            None => Err(ScanError::NoMatch),
            Some(i) => {
                let mut items = self.items;
                let x = items.remove(i);
                Ok(x)
            },
        }
    }

    /// The last item satisfying `p`. Fails if none does.
    pub fn try_last(self, p: &Predicate) -> (r: Result<T, ScanError>)
        ensures
            match r {
                Ok(x) => exists|i: int|
                    matches_at(self.items(), *p, i) && none_in(
                        self.items(),
                        *p,
                        i + 1,
                        self.items().len() as int,
                    ) && x == self.items()[i],
                Err(ScanError::NoMatch) => none_in(self.items(), *p, 0, self.items().len() as int),
                Err(_) => false,
            },
    {
        let mut i = self.items.len();
        while i > 0
            invariant
                i <= self.items@.len(),
                none_in(self.items@, *p, i as int, self.items@.len() as int),
            decreases i,
        {
            if p.eval(self.items[i - 1].field_values()) {
                assert(matches_at(self.items@, *p, i - 1));
                assert(none_in(self.items@, *p, i as int, self.items@.len() as int));
                let ghost k = i - 1;
                let mut items = self.items;
                let x = items.remove(i - 1);
                assert(x == self.items()[k]);
                assert(matches_at(self.items(), *p, k) && none_in(
                    self.items(),
                    *p,
                    k + 1,
                    self.items().len() as int,
                ) && x == self.items()[k]);
                return Ok(x);
            }
            i = i - 1;
        }
        Err(ScanError::NoMatch)
    }

    /// Checks that every item satisfies `p`; fails at the first that does not.
    pub fn try_all(self, p: &Predicate) -> (r: Result<(), ScanError>)
        ensures
            match r {
                Ok(()) => forall|i: int| 0 <= i < self.items().len() ==> #[trigger] matches_at(self.items(), *p, i),
                Err(ScanError::Mismatch { index }) => index < self.items().len() && !matches_at(
                    self.items(),
                    *p,
                    index as int,
                ) && forall|i: int| 0 <= i < index ==> #[trigger] matches_at(self.items(), *p, i),
                Err(_) => false,
            },
    {
        let mut i: usize = 0;
        while i < self.items.len()
            invariant
                i <= self.items@.len(),
                forall|j: int| 0 <= j < i ==> #[trigger] matches_at(self.items@, *p, j),
            decreases self.items@.len() - i,
        {
            if !p.eval(self.items[i].field_values()) {
                return Err(ScanError::Mismatch { index: i });
            }
            i = i + 1;
        }
        Ok(())
    }

    /// Checks that no item satisfies `p`; fails at the first that does.
    pub fn try_none(self, p: &Predicate) -> (r: Result<(), ScanError>)
        ensures
            match r {
                Ok(()) => none_in(self.items(), *p, 0, self.items().len() as int),
                Err(ScanError::UnexpectedMatch { index }) => matches_at(
                    self.items(),
                    *p,
                    index as int,
                ) && none_in(self.items(), *p, 0, index as int),
                Err(_) => false,
            },
    {
        match self.find_from(p, 0) {
            None => Ok(()),
            Some(index) => Err(ScanError::UnexpectedMatch { index }),
        }
    }

    /// The single item satisfying `p`, of which there must be exactly one.
    pub fn single(self, p: &Predicate) -> (r: T)
        requires
            exists|i: int|
                matches_at(self.items(), *p, i) && none_in(self.items(), *p, 0, i) && none_in(
                    self.items(),
                    *p,
                    i + 1,
                    self.items().len() as int,
                ),
        ensures
            exists|i: int| matches_at(self.items(), *p, i) && r == self.items()[i],
            forall|i: int| matches_at(self.items(), *p, i) ==> r == self.items()[i],
    {
        let ghost items = self.items();
        match self.try_single(p) {
            Ok(x) => x,
            Err(_) => {
                proof {
                    let i = choose|i: int|
                        matches_at(items, *p, i) && none_in(items, *p, 0, i) && none_in(
                            items,
                            *p,
                            i + 1,
                            items.len() as int,
                        );
                    assert(matches_at(items, *p, i));
                }
                vstd::pervasive::unreached()
            },
        }
    }

    /// The first item satisfying `p`, of which there must be one.
    pub fn first(self, p: &Predicate) -> (r: T)
        requires
            exists|i: int| matches_at(self.items(), *p, i),
        ensures
            exists|i: int|
                matches_at(self.items(), *p, i) && none_in(self.items(), *p, 0, i) && r
                    == self.items()[i],
    {
        let ghost items = self.items();
        match self.try_first(p) {
            Ok(x) => x,
            Err(_) => {
                proof {
                    let i = choose|i: int| matches_at(items, *p, i);
                    assert(matches_at(items, *p, i));
                }
                vstd::pervasive::unreached()
            },
        }
    }

    /// The last item satisfying `p`, of which there must be one.
    pub fn last(self, p: &Predicate) -> (r: T)
        requires
            exists|i: int| matches_at(self.items(), *p, i),
        ensures
            exists|i: int|
                matches_at(self.items(), *p, i) && none_in(
                    self.items(),
                    *p,
                    i + 1,
                    self.items().len() as int,
                ) && r == self.items()[i],
    {
        let ghost items = self.items();
        match self.try_last(p) {
            Ok(x) => x,
            Err(_) => {
                proof {
                    let i = choose|i: int| matches_at(items, *p, i);
                    assert(matches_at(items, *p, i));
                }
                vstd::pervasive::unreached()
            },
        }
    }

    /// Checks that every item satisfies `p`, which must hold.
    pub fn all(self, p: &Predicate)
        requires
            forall|i: int| 0 <= i < self.items().len() ==> #[trigger] matches_at(self.items(), *p, i),
    {
        match self.try_all(p) {
            Ok(()) => {},
            Err(_) => vstd::pervasive::unreached(),
        }
    }

    /// Checks that no item satisfies `p`, which must hold.
    pub fn none(self, p: &Predicate)
        requires
            none_in(self.items(), *p, 0, self.items().len() as int),
    {
        match self.try_none(p) {
            Ok(()) => {},
            Err(_) => vstd::pervasive::unreached(),
        }
    }
}

/// Creation of scanners over the spans and events that a storage or a span holds.
pub trait ScanExt<'a>: Sized {
    /// Whether the holder can be scanned.
    spec fn scannable(&self) -> bool;

    /// The storage whose items the holder holds.
    spec fn scan_model(&self) -> StorageModel;

    /// Capture ordinals of the spans the holder holds, in capture order.
    spec fn span_ordinals(&self) -> Seq<usize>;

    /// Capture ordinals of the events the holder holds, in capture order.
    spec fn event_ordinals(&self) -> Seq<usize>;

    /// Scanner over the spans of the holder: all spans of a storage, or the children
    /// of a span.
    fn scan_spans(self) -> (r: Scanner<CapturedSpan<'a>>)
        requires
            self.scannable(),
        ensures
            r.items().map_values(|c: CapturedSpan<'a>| c.ordinal()) == self.span_ordinals(),
            forall|i: int| 0 <= i < r.items().len() ==> (#[trigger] r.items()[i]).model() == self.scan_model(),
    ;

    /// Scanner over the events of the holder: all events of a storage, or the events
    /// attached to a span.
    fn scan_events(self) -> (r: Scanner<CapturedEvent<'a>>)
        requires
            self.scannable(),
        ensures
            r.items().map_values(|c: CapturedEvent<'a>| c.ordinal()) == self.event_ordinals(),
            forall|i: int| 0 <= i < r.items().len() ==> (#[trigger] r.items()[i]).model() == self.scan_model(),
    ;
}

/// Ordinals `0, 1, ..., n - 1`.
pub open spec fn all_ordinals(n: nat) -> Seq<usize> {
    Seq::new(n, |i: int| i as usize)
}

impl<'a> ScanExt<'a> for &'a Storage {
    open spec fn scannable(&self) -> bool {
        self.wf()
    }

    open spec fn scan_model(&self) -> StorageModel {
        (*self)@
    }

    open spec fn span_ordinals(&self) -> Seq<usize> {
        all_ordinals((*self)@.spans.len())
    }

    open spec fn event_ordinals(&self) -> Seq<usize> {
        all_ordinals((*self)@.events.len())
    }

    fn scan_spans(self) -> (r: Scanner<CapturedSpan<'a>>) {
        let spans = self.all_spans();
        assert(spans@.map_values(|c: CapturedSpan<'a>| c.ordinal()) =~= all_ordinals(self@.spans.len()));
        Scanner::new(spans)
    }

    fn scan_events(self) -> (r: Scanner<CapturedEvent<'a>>) {
        let events = self.all_events();
        assert(events@.map_values(|c: CapturedEvent<'a>| c.ordinal()) =~= all_ordinals(self@.events.len()));
        Scanner::new(events)
    }
}

impl<'a> ScanExt<'a> for CapturedSpan<'a> {
    open spec fn scannable(&self) -> bool {
        true
    }

    open spec fn scan_model(&self) -> StorageModel {
        self.model()
    }

    open spec fn span_ordinals(&self) -> Seq<usize> {
        self.record().children
    }

    open spec fn event_ordinals(&self) -> Seq<usize> {
        self.record().events
    }

    fn scan_spans(self) -> (r: Scanner<CapturedSpan<'a>>) {
        Scanner::new(self.children())
    }

    fn scan_events(self) -> (r: Scanner<CapturedEvent<'a>>) {
        Scanner::new(self.events())
    }
}

} // verus!
