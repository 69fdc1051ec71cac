//! The MessagePack value model carried by RPC messages.
use vstd::prelude::*;

verus! {

/// A MessagePack integer: either a non-negative value or a negative one.
#[derive(Copy, Clone, Debug, PartialEq, Eq, Structural)]
pub enum Integer {
    /// A value in `0..=u64::MAX`.
    PosInt(u64),
    /// A signed value; constructors in this crate only build negative ones.
    NegInt(i64),
}

/// A MessagePack string: valid UTF-8 text, or the raw bytes of an invalid one.
#[derive(Clone, Debug, PartialEq, Eq)]
pub enum Utf8String {
    /// Well-formed UTF-8.
    Valid(String),
    /// Bytes that are not well-formed UTF-8.
    Invalid(Vec<u8>),
}

/// A MessagePack value. Floating-point payloads are held as their IEEE-754 bits.
#[derive(Debug, PartialEq)]
pub enum Value {
    Nil,
    Boolean(bool),
    Integer(Integer),
    /// Bits of an `f32`.
    F32(u32),
    /// Bits of an `f64`.
    F64(u64),
    String(Utf8String),
    Binary(Vec<u8>),
    Array(Vec<Value>),
    Mapping(Vec<(Value, Value)>),
    Ext(i8, Vec<u8>),
}

/// The mathematical content of a [`Value`].
pub enum ValueModel {
    Nil,
    Boolean(bool),
    Integer(Integer),
    F32(u32),
    F64(u64),
    Str(Seq<char>),
    InvalidStr(Seq<u8>),
    Binary(Seq<u8>),
    Array(Seq<ValueModel>),
    Mapping(Seq<(ValueModel, ValueModel)>),
    Ext(i8, Seq<u8>),
}

/// The model of one value.
pub open spec fn value_model(v: Value) -> ValueModel
    decreases v, 0nat,
{
    match v {
        Value::Nil => ValueModel::Nil,
        Value::Boolean(b) => ValueModel::Boolean(b),
        Value::Integer(i) => ValueModel::Integer(i),
        Value::F32(b) => ValueModel::F32(b),
        Value::F64(b) => ValueModel::F64(b),
        Value::String(Utf8String::Valid(s)) => ValueModel::Str(s@),
        Value::String(Utf8String::Invalid(b)) => ValueModel::InvalidStr(b@),
        Value::Binary(b) => ValueModel::Binary(b@),
        Value::Array(items) => ValueModel::Array(seq_model(items@)),
        Value::Mapping(entries) => ValueModel::Mapping(entries_model(entries@)),
        Value::Ext(t, b) => ValueModel::Ext(t, b@),
    }
}

/// The models of a sequence of values, element by element.
pub open spec fn seq_model(items: Seq<Value>) -> Seq<ValueModel>
    decreases items, items.len(),
{
    if items.len() == 0 {
        Seq::empty()
    } else {
        seq_model(items.drop_last()).push(value_model(items.last()))
    }
}

/// The models of a sequence of key/value entries, element by element.
pub open spec fn entries_model(entries: Seq<(Value, Value)>) -> Seq<(ValueModel, ValueModel)>
    decreases entries, entries.len(),
{
    if entries.len() == 0 {
        Seq::empty()
    } else {
        entries_model(entries.drop_last()).push(
            (value_model(entries.last().0), value_model(entries.last().1)),
        )
    }
}

/// The model of a sequence has one model per element, in order.
pub proof fn lemma_seq_model(items: Seq<Value>)
    ensures
        seq_model(items).len() == items.len(),
        forall|i: int| 0 <= i < items.len() ==> #[trigger] seq_model(items)[i] == items[i]@,
    decreases items.len(),
{
    if items.len() > 0 {
        lemma_seq_model(items.drop_last());
    }
}

/// The model of a sequence of entries has one pair of models per entry, in order.
pub proof fn lemma_entries_model(entries: Seq<(Value, Value)>)
    ensures
        entries_model(entries).len() == entries.len(),
        forall|i: int|
            0 <= i < entries.len() ==> #[trigger] entries_model(entries)[i] == (
                entries[i].0@,
                entries[i].1@,
            ),
    decreases entries.len(),
{
    if entries.len() > 0 {
        lemma_entries_model(entries.drop_last());
    }
}

impl View for Value {
    type V = ValueModel;

    open spec fn view(&self) -> ValueModel {
        value_model(*self)
    }
}


impl Integer {
    /// The integer as a mathematical value.
    pub open spec fn spec_int(self) -> int {
        match self {
            Integer::PosInt(n) => n as int,
            Integer::NegInt(n) => n as int,
        }
    }

    /// The integer as `u64`, where it fits.
    pub open spec fn spec_as_u64(self) -> Option<u64> {
        if 0 <= self.spec_int() <= u64::MAX {
            Some(self.spec_int() as u64)
        } else {
            None
        }
    }

    /// The integer as `i64`, where it fits.
    pub open spec fn spec_as_i64(self) -> Option<i64> {
        if i64::MIN <= self.spec_int() <= i64::MAX {
            Some(self.spec_int() as i64)
        } else {
            None
        }
    }

    /// Returns the integer as `u64` if it can be represented so.
    pub fn as_u64(&self) -> (r: Option<u64>)
        ensures
            r == self.spec_as_u64(),
    {
        match *self {
            Integer::PosInt(n) => Some(n),
            Integer::NegInt(n) => if n >= 0 {
                Some(n as u64)
            } else {
                None
            },
        }
    }

    /// Returns the integer as `i64` if it can be represented so.
    pub fn as_i64(&self) -> (r: Option<i64>)
        ensures
            r == self.spec_as_i64(),
    {
        match *self {
            Integer::PosInt(n) => if n <= 0x7fff_ffff_ffff_ffffu64 {
                Some(n as i64)
            } else {
                None
            },
            Integer::NegInt(n) => Some(n),
        }
    }
}

impl ValueModel {
    /// The unsigned integer held by an integer value, where it fits in `u64`.
    pub open spec fn spec_as_u64(self) -> Option<u64> {
        match self {
            ValueModel::Integer(i) => i.spec_as_u64(),
            _ => None,
        }
    }

    /// The signed integer held by an integer value, where it fits in `i64`.
    pub open spec fn spec_as_i64(self) -> Option<i64> {
        match self {
            ValueModel::Integer(i) => i.spec_as_i64(),
            _ => None,
        }
    }

    /// The text held by a well-formed string value.
    pub open spec fn spec_as_str(self) -> Option<Seq<char>> {
        match self {
            ValueModel::Str(s) => Some(s),
            _ => None,
        }
    }
}

impl Value {
    /// Returns the integer as `u64` if this is an integer that fits.
    pub fn as_u64(&self) -> (r: Option<u64>)
        ensures
            r == self@.spec_as_u64(),
    {
        match self {
            Value::Integer(i) => i.as_u64(),
            _ => None,
        }
    }

    /// Returns the integer as `i64` if this is an integer that fits.
    pub fn as_i64(&self) -> (r: Option<i64>)
        ensures
            r == self@.spec_as_i64(),
    {
        match self {
            Value::Integer(i) => i.as_i64(),
            _ => None,
        }
    }

    /// Returns the text if this is a well-formed string.
    pub fn as_str(&self) -> (r: Option<&str>)
        ensures
            match r {
                Some(s) => self@.spec_as_str() == Some(s@),
                None => self@.spec_as_str() is None,
            },
    {
        match self {
            Value::String(Utf8String::Valid(s)) => Some(s.as_str()),
            _ => None,
        }
    }

    /// Returns `true` if this is `Nil`.
    pub fn is_nil(&self) -> (r: bool)
        ensures
            r == (self@ is Nil),
    {
        match self {
            Value::Nil => true,
            _ => false,
        }
    }
}

/// Copies a byte vector.
pub(crate) fn clone_bytes(b: &Vec<u8>) -> (r: Vec<u8>)
    ensures
        r@ == b@,
{
    let r = b.clone();
    assert(r@ =~= b@);
    r
}

/// Copies a vector of values, element by element.
fn clone_values(items: &Vec<Value>) -> (r: Vec<Value>)
    ensures
        seq_model(r@) == seq_model(items@),
    decreases items, 1nat,
{
    let mut out: Vec<Value> = Vec::new();
    let mut i: usize = 0;
    while i < items.len()
        invariant
            i <= items.len(),
            out@.len() == i,
            seq_model(out@) == seq_model(items@.take(i as int)),
        decreases items.len() - i,
    {
        let c = items[i].clone();
        let ghost before = out@;
        out.push(c);
        assert(out@.drop_last() == before);
        assert(items@.take(i + 1).drop_last() == items@.take(i as int));
        i = i + 1;
    }
    assert(items@.take(items.len() as int) == items@);
    out
}

/// Copies a vector of key/value entries, element by element.
fn clone_entries(entries: &Vec<(Value, Value)>) -> (r: Vec<(Value, Value)>)
    ensures
        entries_model(r@) == entries_model(entries@),
    decreases entries, 1nat,
{
    let mut out: Vec<(Value, Value)> = Vec::new();
    let mut i: usize = 0;
    while i < entries.len()
        invariant
            i <= entries.len(),
            out@.len() == i,
            entries_model(out@) == entries_model(entries@.take(i as int)),
        decreases entries.len() - i,
    {
        let k = entries[i].0.clone();
        let v = entries[i].1.clone();
        let ghost before = out@;
        out.push((k, v));
        assert(out@.drop_last() == before);
        assert(entries@.take(i + 1).drop_last() == entries@.take(i as int));
        i = i + 1;
    }
    assert(entries@.take(entries.len() as int) == entries@);
    out
}

impl Clone for Value {
    fn clone(&self) -> (r: Value)
        ensures
            r@ == self@,
        decreases self, 0nat,
    {
        match self {
            Value::Nil => Value::Nil,
            Value::Boolean(b) => Value::Boolean(*b),
            Value::Integer(i) => Value::Integer(*i),
            Value::F32(b) => Value::F32(*b),
            Value::F64(b) => Value::F64(*b),
            Value::String(Utf8String::Valid(s)) => Value::String(Utf8String::Valid(s.clone())),
            Value::String(Utf8String::Invalid(b)) => Value::String(Utf8String::Invalid(clone_bytes(b))),
            Value::Binary(b) => Value::Binary(clone_bytes(b)),
            Value::Array(items) => Value::Array(clone_values(items)),
            Value::Mapping(entries) => Value::Mapping(clone_entries(entries)),
            Value::Ext(t, b) => Value::Ext(*t, clone_bytes(b)),
        }
    }
}


impl Integer {
    /// The integer that a signed value becomes: negative values are kept as
    /// `NegInt`, the others as `PosInt`.
    pub open spec fn spec_from_i64(n: i64) -> Integer {
        if n < 0 {
            Integer::NegInt(n)
        } else {
            Integer::PosInt(n as u64)
        }
    }

    /// Builds the integer for a signed value.
    pub fn from_i64(n: i64) -> (r: Integer)
        ensures
            r == Integer::spec_from_i64(n),
            r.spec_int() == n,
    {
        if n < 0 {
            Integer::NegInt(n)
        } else {
            Integer::PosInt(n as u64)
        }
    }
}

impl From<bool> for Value {
    fn from(b: bool) -> (v: Value)
        ensures
            v == Value::Boolean(b),
    {
        Value::Boolean(b)
    }
}

impl vstd::std_specs::convert::FromSpecImpl<bool> for Value {
    open spec fn obeys_from_spec() -> bool {
        true
    }

    open spec fn from_spec(b: bool) -> Value {
        Value::Boolean(b)
    }
}

impl From<u64> for Value {
    fn from(n: u64) -> (v: Value)
        ensures
            v == Value::Integer(Integer::PosInt(n)),
    {
        Value::Integer(Integer::PosInt(n))
    }
}

impl vstd::std_specs::convert::FromSpecImpl<u64> for Value {
    open spec fn obeys_from_spec() -> bool {
        true
    }

    open spec fn from_spec(n: u64) -> Value {
        Value::Integer(Integer::PosInt(n))
    }
}

impl From<u32> for Value {
    fn from(n: u32) -> (v: Value)
        ensures
            v == Value::Integer(Integer::PosInt(n as u64)),
    {
        Value::Integer(Integer::PosInt(n as u64))
    }
}

impl vstd::std_specs::convert::FromSpecImpl<u32> for Value {
    open spec fn obeys_from_spec() -> bool {
        true
    }

    open spec fn from_spec(n: u32) -> Value {
        Value::Integer(Integer::PosInt(n as u64))
    }
}

impl From<i64> for Value {
    fn from(n: i64) -> (v: Value)
        ensures
            v == Value::Integer(Integer::spec_from_i64(n)),
    {
        Value::Integer(Integer::from_i64(n))
    }
}

impl vstd::std_specs::convert::FromSpecImpl<i64> for Value {
    open spec fn obeys_from_spec() -> bool {
        true
    }

    open spec fn from_spec(n: i64) -> Value {
        Value::Integer(Integer::spec_from_i64(n))
    }
}

impl From<i32> for Value {
    fn from(n: i32) -> (v: Value)
        ensures
            v == Value::Integer(Integer::spec_from_i64(n as i64)),
    {
        Value::Integer(Integer::from_i64(n as i64))
    }
}

impl vstd::std_specs::convert::FromSpecImpl<i32> for Value {
    open spec fn obeys_from_spec() -> bool {
        true
    }

    open spec fn from_spec(n: i32) -> Value {
        Value::Integer(Integer::spec_from_i64(n as i64))
    }
}

// A value built from a borrowed string owns a copy of it, which no spec
// expression can name, so this conversion leaves `from_spec` unused
// (`obeys_from_spec` is false) and states its result in its own `ensures`.
impl From<&str> for Value {
    fn from(s: &str) -> (v: Value)
        ensures
            v@ == ValueModel::Str(s@),
    {
        Value::String(Utf8String::Valid(s.to_string()))
    }
}

impl vstd::std_specs::convert::FromSpecImpl<&str> for Value {
    open spec fn obeys_from_spec() -> bool {
        false
    }

    open spec fn from_spec(s: &str) -> Value {
        Value::Nil
    }
}

impl From<String> for Value {
    fn from(s: String) -> (v: Value)
        ensures
            v@ == ValueModel::Str(s@),
    {
        Value::String(Utf8String::Valid(s))
    }
}

impl vstd::std_specs::convert::FromSpecImpl<String> for Value {
    open spec fn obeys_from_spec() -> bool {
        true
    }

    open spec fn from_spec(s: String) -> Value {
        Value::String(Utf8String::Valid(s))
    }
}

impl From<Vec<Value>> for Value {
    fn from(items: Vec<Value>) -> (v: Value)
        ensures
            v@ == ValueModel::Array(seq_model(items@)),
    {
        Value::Array(items)
    }
}

impl vstd::std_specs::convert::FromSpecImpl<Vec<Value>> for Value {
    open spec fn obeys_from_spec() -> bool {
        true
    }

    open spec fn from_spec(items: Vec<Value>) -> Value {
        Value::Array(items)
    }
}

} // verus!
