//! Reading and writing MessagePack values as bytes through `rmpv`, and
//! converting between `rmpv`'s values and the library's value model.
use rmpv::Integer as PackInteger;
use rmpv::decode::Error as PackReadError;
use rmpv::Utf8String as PackString;
use rmpv::Value as PackValue;

use vstd::prelude::*;

use crate::connection::classify_read;
use crate::error::{DecodeError, EncodeError, IoErrorKind, ProtocolError, RpcError};
use crate::message::{Message, parse_message_model, reports};
use crate::value::{
    Integer, Utf8String, Value, ValueModel, clone_bytes, entries_model, lemma_entries_model,
    lemma_seq_model, seq_model,
};

verus! {

/// `rmpv::Value`, a MessagePack value as `rmpv` reads it; this crate takes it
/// apart only through [`pack_node`].
#[verifier::external_type_specification]
#[verifier::external_body]
pub struct ExPackValue(PackValue);

/// What `rmpv::decode::read_value` reads from the start of a byte string: the
/// value, in this crate's model, and the count of bytes it takes; `None` when
/// the read fails.
pub uninterp spec fn decoded_prefix(bytes: Seq<u8>) -> Option<(ValueModel, usize)>;

/// The content of an `rmpv` value, in this crate's model.
pub uninterp spec fn pack_model(v: PackValue) -> ValueModel;

/// The contents of a sequence of `rmpv` values, element by element.
pub open spec fn pack_seq_model(items: Seq<PackValue>) -> Seq<ValueModel> {
    Seq::new(items.len(), |i: int| pack_model(items[i]))
}

/// The contents of a sequence of `rmpv` key/value entries, element by element.
pub open spec fn pack_entries_model(entries: Seq<(PackValue, PackValue)>) -> Seq<(ValueModel, ValueModel)> {
    Seq::new(entries.len(), |i: int| (pack_model(entries[i].0), pack_model(entries[i].1)))
}

/// The bytes start a value that they do not finish: some continuation makes
/// them the start of a value that takes more bytes than they hold.
pub open spec fn cut_short(bytes: Seq<u8>) -> bool {
    exists|more: Seq<u8>| #[trigger]
        decoded_prefix(bytes + more) matches Some((_, n)) && n > bytes.len()
}

/// `rmpv::decode::read_value`, reading from the start of these bytes, runs out
/// of input: it fails with an error of kind `UnexpectedEof`.
pub uninterp spec fn read_runs_out(bytes: Seq<u8>) -> bool;

/// What a read of one MessagePack value from a byte string came to.
pub(crate) enum PackRead {
    /// A value, and the count of bytes it took.
    Read(PackValue, usize),
    /// The bytes ran out inside a value: the read failed with an I/O error of
    /// kind `UnexpectedEof`.
    OutOfInput(DecodeError),
    /// The read failed otherwise.
    Failed(DecodeError),
}

/// Reads one MessagePack value from the start of `bytes`.
///
/// Wraps `rmpv::decode::read_value` on a cursor over `bytes`, and tells a
/// failure whose `rmpv::decode::Error::kind` is `UnexpectedEof` apart from the
/// others. The contract claims that the outcome is a function of the bytes
/// alone (`decoded_prefix`); that a value read took no more bytes than there
/// are and that the read looked at no byte after them (`read_value` reads a
/// value's bytes in order and stops); and that bytes which only start a value
/// make the read run out of input (a cursor reports running out as
/// `UnexpectedEof`, and so does `rmpv`'s own check on a short binary body).
/// Whether the read runs out is a function of the bytes (`read_runs_out`); a
/// cursor over bytes fails in no other way, so any other failure is the depth
/// limit.
#[verifier::external_body]
pub(crate) fn read_pack_value(bytes: &[u8]) -> (r: PackRead)
    ensures
        match r {
            PackRead::Read(v, n) => {
                &&& n <= bytes@.len()
                &&& decoded_prefix(bytes@) == Some((pack_model(v), n))
                &&& forall|rest: Seq<u8>| #[trigger]
                    decoded_prefix(bytes@.take(n as int) + rest) == Some((pack_model(v), n))
            },
            _ => decoded_prefix(bytes@) is None,
        },
        cut_short(bytes@) ==> r is OutOfInput,
        r matches PackRead::OutOfInput(d) ==> !(d is DepthLimitExceeded),
        r matches PackRead::Failed(d) ==> d is DepthLimitExceeded,
        (r is OutOfInput) == read_runs_out(bytes@),
{
    let mut cursor = std::io::Cursor::new(bytes);
    match rmpv::decode::read_value(&mut cursor) {
        Ok(v) => PackRead::Read(v, cursor.position() as usize),
        Err(e) => {
            let short = e.kind() == std::io::ErrorKind::UnexpectedEof;
            let d = match e {
                PackReadError::InvalidMarkerRead(e) => DecodeError::InvalidMarkerRead(e),
                PackReadError::InvalidDataRead(e) => DecodeError::InvalidDataRead(e),
                PackReadError::DepthLimitExceeded => DecodeError::DepthLimitExceeded,
            };
            if short { PackRead::OutOfInput(d) } else { PackRead::Failed(d) }
        },
    }
}

/// The bytes that `rmpv::encode::write_value` writes for a value of this model.
pub uninterp spec fn encoded_bytes(m: ValueModel) -> Seq<u8>;

/// The count of bytes that UTF-8 takes for one character.
pub open spec fn utf8_char_len(c: char) -> nat {
    if (c as u32) < 0x80 {
        1
    } else if (c as u32) < 0x800 {
        2
    } else if (c as u32) < 0x10000 {
        3
    } else {
        4
    }
}

/// The count of bytes that UTF-8 takes for a text.
pub open spec fn utf8_len(t: Seq<char>) -> nat
    decreases t.len(),
{
    if t.len() == 0 {
        0
    } else {
        utf8_len(t.drop_last()) + utf8_char_len(t.last())
    }
}

/// The depth budget `rmpv::decode::read_value` starts a read with.
pub open spec fn read_depth_limit() -> int {
    1024
}

/// A value of content `m` is written by `rmpv` without cutting a length and read
/// back within a depth budget of `budget`: `read_value` spends one unit on each
/// value, one more on the body of an array, a map, a string, binary or an
/// extension, and one more on the bytes of a string or an extension, and fails
/// when a unit is wanted that is not there; `write_value` writes lengths as
/// 32-bit numbers.
pub open spec fn wire_fits(m: ValueModel, budget: int) -> bool
    decreases m, 0nat,
{
    &&& budget >= 1
    &&& match m {
        ValueModel::Str(t) => budget >= 3 && utf8_len(t) <= u32::MAX,
        ValueModel::InvalidStr(b) => budget >= 2 && b.len() <= u32::MAX,
        ValueModel::Binary(b) => budget >= 2 && b.len() <= u32::MAX,
        ValueModel::Ext(_, d) => budget >= 3 && d.len() <= u32::MAX,
        ValueModel::Array(items) => budget >= 2 && items.len() <= u32::MAX && wire_fits_seq(
            items,
            budget - 2,
        ),
        ValueModel::Mapping(entries) => budget >= 2 && entries.len() <= u32::MAX
            && wire_fits_entries(entries, budget - 2),
        _ => true,
    }
}

/// [`wire_fits`] of each element.
pub open spec fn wire_fits_seq(items: Seq<ValueModel>, budget: int) -> bool
    decreases items, items.len(),
{
    if items.len() == 0 {
        true
    } else {
        wire_fits_seq(items.drop_last(), budget) && wire_fits(items.last(), budget)
    }
}

/// [`wire_fits`] of each key and value.
pub open spec fn wire_fits_entries(entries: Seq<(ValueModel, ValueModel)>, budget: int) -> bool
    decreases entries, entries.len(),
{
    if entries.len() == 0 {
        true
    } else {
        wire_fits_entries(entries.drop_last(), budget) && wire_fits(entries.last().0, budget)
            && wire_fits(entries.last().1, budget)
    }
}

/// The content `rmpv` reads back from what `write_value` wrote for content `m`:
/// the same, but a string that is not UTF-8 comes back as binary (its bytes are
/// written as `bin`), and a non-negative integer as `PosInt`.
pub open spec fn readback(m: ValueModel) -> ValueModel
    decreases m, 0nat,
{
    match m {
        ValueModel::Integer(i) => ValueModel::Integer(canonical_integer(i)),
        ValueModel::InvalidStr(b) => ValueModel::Binary(b),
        ValueModel::Array(items) => ValueModel::Array(readback_seq(items)),
        ValueModel::Mapping(entries) => ValueModel::Mapping(readback_entries(entries)),
        _ => m,
    }
}

/// [`readback`] of each element.
pub open spec fn readback_seq(items: Seq<ValueModel>) -> Seq<ValueModel>
    decreases items, items.len(),
{
    if items.len() == 0 {
        Seq::empty()
    } else {
        readback_seq(items.drop_last()).push(readback(items.last()))
    }
}

/// [`readback`] of each key and value.
pub open spec fn readback_entries(entries: Seq<(ValueModel, ValueModel)>) -> Seq<(ValueModel, ValueModel)>
    decreases entries, entries.len(),
{
    if entries.len() == 0 {
        Seq::empty()
    } else {
        readback_entries(entries.drop_last()).push(
            (readback(entries.last().0), readback(entries.last().1)),
        )
    }
}

pub(crate) proof fn lemma_readback_seq(items: Seq<ValueModel>)
    ensures
        readback_seq(items).len() == items.len(),
        forall|i: int| 0 <= i < items.len() ==> #[trigger] readback_seq(items)[i] == readback(items[i]),
    decreases items.len(),
{
    if items.len() > 0 {
        lemma_readback_seq(items.drop_last());
    }
}

/// A value comes back from the wire as it was: its integers are in `rmpv`'s
/// form and it holds no string that is not UTF-8.
pub open spec fn survives_wire(v: ValueModel) -> bool {
    readback(canonical(v)) == v
}

/// An array whose elements come back from the wire as they were comes back as
/// it was.
pub proof fn lemma_array_survives_wire(items: Seq<ValueModel>)
    requires
        forall|i: int| 0 <= i < items.len() ==> #[trigger] survives_wire(items[i]),
    ensures
        survives_wire(ValueModel::Array(items)),
{
    lemma_canonical_seq(items);
    lemma_readback_seq(canonical_seq(items));
    assert(readback_seq(canonical_seq(items)) =~= items) by {
        assert forall|i: int| 0 <= i < items.len() implies readback_seq(canonical_seq(items))[i]
            == items[i] by {
            assert(survives_wire(items[i]));
        }
    }
}

/// Appends the MessagePack encoding of `v` to `buffer`.
///
/// Wraps `rmpv::encode::write_value` on the vector. The contract claims that the
/// write succeeds (writing into a `Vec<u8>` does not fail, and `write_value`
/// fails only when its writer does); that it appended the value's encoding, a
/// function of the value alone (`encoded_bytes`), and changed nothing before
/// it; and that when the value fits the wire (`wire_fits` within the read depth
/// limit), `rmpv::decode::read_value` reads those bytes back, whatever follows
/// them, as [`readback`] of the value, taking exactly them.
#[verifier::external_body]
pub(crate) fn write_pack_value(buffer: &mut Vec<u8>, v: &PackValue) -> (r: Result<(), EncodeError>)
    ensures
        r is Ok,
        final(buffer)@ == old(buffer)@ + encoded_bytes(pack_model(*v)),
        wire_fits(pack_model(*v), read_depth_limit()) ==> forall|rest: Seq<u8>| #[trigger]
            decoded_prefix(final(buffer)@.skip(old(buffer)@.len() as int) + rest) == Some(
                (readback(pack_model(*v)), encoded_bytes(pack_model(*v)).len() as usize),
            ),
{
    match rmpv::encode::write_value(buffer, v) {
        Ok(()) => Ok(()),
        Err(rmpv::encode::Error::InvalidMarkerWrite(e)) => Err(EncodeError::InvalidMarkerWrite(e)),
        Err(rmpv::encode::Error::InvalidDataWrite(e)) => Err(EncodeError::InvalidDataWrite(e)),
    }
}

/// One level of an `rmpv` value: its variant, with the nested values of an
/// array or a map still in `rmpv`'s form.
pub enum PackNode {
    Nil,
    Boolean(bool),
    Integer(PackInteger),
    F32(u32),
    F64(u64),
    String(PackString),
    Binary(Vec<u8>),
    Array(Vec<PackValue>),
    Mapping(Vec<(PackValue, PackValue)>),
    Ext(i8, Vec<u8>),
}

/// The content of one level of an `rmpv` value, in this crate's model.
pub open spec fn node_model(n: PackNode) -> ValueModel {
    match n {
        PackNode::Nil => ValueModel::Nil,
        PackNode::Boolean(b) => ValueModel::Boolean(b),
        PackNode::Integer(i) => ValueModel::Integer(pack_integer_model(i)),
        PackNode::F32(bits) => ValueModel::F32(bits),
        PackNode::F64(bits) => ValueModel::F64(bits),
        PackNode::String(s) => pack_string_model(s),
        PackNode::Binary(b) => ValueModel::Binary(b@),
        PackNode::Array(items) => ValueModel::Array(pack_seq_model(items@)),
        PackNode::Mapping(entries) => ValueModel::Mapping(pack_entries_model(entries@)),
        PackNode::Ext(t, d) => ValueModel::Ext(t, d@),
    }
}

/// Takes one level of an `rmpv` value apart.
///
/// Moves the fields of each `rmpv::Value` variant into the matching variant; a
/// float is kept as its IEEE-754 bits (`to_bits`). The contract claims that the
/// parts are the parts of the value's content.
#[verifier::external_body]
fn pack_node(v: PackValue) -> (n: PackNode)
    ensures
        node_model(n) == pack_model(v),
{
    match v {
        PackValue::Nil => PackNode::Nil,
        PackValue::Boolean(b) => PackNode::Boolean(b),
        PackValue::Integer(i) => PackNode::Integer(i),
        PackValue::F32(f) => PackNode::F32(f.to_bits()),
        PackValue::F64(f) => PackNode::F64(f.to_bits()),
        PackValue::String(s) => PackNode::String(s),
        PackValue::Binary(b) => PackNode::Binary(b),
        PackValue::Array(items) => PackNode::Array(items),
        PackValue::Map(entries) => PackNode::Mapping(entries),
        PackValue::Ext(t, d) => PackNode::Ext(t, d),
    }
}

/// The value of an `rmpv` integer, in this crate's model.
pub uninterp spec fn pack_integer_model(i: PackInteger) -> Integer;

/// The content of an `rmpv` string, in this crate's model: `Str` for UTF-8 text,
/// `InvalidStr` for other bytes.
pub uninterp spec fn pack_string_model(s: PackString) -> ValueModel;

/// Reads an `rmpv` integer.
///
/// Wraps `rmpv::Integer::as_u64` and `as_i64`, which tell its two private
/// variants apart: a non-negative one is `PosInt`, a negative one `NegInt`.
#[verifier::external_body]
fn pack_integer(i: PackInteger) -> (r: Integer)
    ensures
        r == pack_integer_model(i),
{
    match i.as_u64() {
        Some(n) => Integer::PosInt(n),
        None => Integer::NegInt(i.as_i64().unwrap_or_default()),
    }
}

/// Reads an `rmpv` string.
///
/// Wraps `rmpv::Utf8String::is_str`, `into_str` and `into_bytes`: UTF-8 text is
/// kept as a string, other bytes as they are.
#[verifier::external_body]
fn pack_string(s: PackString) -> (r: Utf8String)
    ensures
        match r {
            Utf8String::Valid(t) => pack_string_model(s) == ValueModel::Str(t@),
            Utf8String::Invalid(b) => pack_string_model(s) == ValueModel::InvalidStr(b@),
        },
{
    match s.is_str() {
        true => Utf8String::Valid(s.into_str().unwrap_or_default()),
        false => Utf8String::Invalid(s.into_bytes()),
    }
}

/// `rmpv::Integer`, a MessagePack integer as `rmpv` holds it.
#[verifier::external_type_specification]
#[verifier::external_body]
pub struct ExPackInteger(PackInteger);

/// `rmpv::Utf8String`, a MessagePack string as `rmpv` holds it.
#[verifier::external_type_specification]
#[verifier::external_body]
pub struct ExPackString(PackString);

/// Converts an `rmpv` value into this crate's value.
pub fn value_from_pack(v: PackValue) -> (r: Value)
    ensures
        r@ == pack_model(v),
    decreases pack_model(v), 1nat,
{
    let ghost m = pack_model(v);
    match pack_node(v) {
        PackNode::Nil => Value::Nil,
        PackNode::Boolean(b) => Value::Boolean(b),
        PackNode::Integer(i) => Value::Integer(pack_integer(i)),
        PackNode::F32(bits) => Value::F32(bits),
        PackNode::F64(bits) => Value::F64(bits),
        PackNode::String(s) => Value::String(pack_string(s)),
        PackNode::Binary(b) => Value::Binary(b),
        PackNode::Array(items) => Value::Array(values_from_pack(items)),
        PackNode::Mapping(entries) => Value::Mapping(entries_from_pack(entries)),
        PackNode::Ext(t, d) => Value::Ext(t, d),
    }
}

/// Converts a vector of `rmpv` values into this crate's values, in order.
fn values_from_pack(items: Vec<PackValue>) -> (r: Vec<Value>)
    ensures
        seq_model(r@) == pack_seq_model(items@),
    decreases ValueModel::Array(pack_seq_model(items@)), 0nat,
{
    let ghost orig = items@;
    let ghost m = ValueModel::Array(pack_seq_model(orig));
    let mut rest = items;
    let mut reversed: Vec<PackValue> = Vec::new();
    while rest.len() > 0
        invariant
            rest@.len() + reversed@.len() == orig.len(),
            rest@ == orig.take(rest@.len() as int),
            forall|j: int| 0 <= j < reversed@.len() ==> #[trigger] reversed@[j] == orig[orig.len() - 1 - j],
        decreases rest@.len(),
    {
        let x = rest.pop().unwrap();
        reversed.push(x);
    }
    let mut out: Vec<Value> = Vec::new();
    while reversed.len() > 0
        invariant
            reversed@.len() + out@.len() == orig.len(),
            forall|j: int| 0 <= j < reversed@.len() ==> #[trigger] reversed@[j] == orig[orig.len() - 1 - j],
            forall|j: int| 0 <= j < out@.len() ==> #[trigger] out@[j]@ == pack_model(orig[j]),
            m == ValueModel::Array(pack_seq_model(orig)),
            m == ValueModel::Array(pack_seq_model(items@)),
        decreases reversed@.len(),
    {
        let ghost k = out@.len() as int;
        let x = reversed.pop().unwrap();
        assert(x == orig[k]);
        assert(pack_seq_model(orig)[k] == pack_model(x));
        proof {
            assert(decreases_to!(m => m->Array_0));
            assert(decreases_to!(m->Array_0 => m->Array_0[k]));
            assert(decreases_to!(m => pack_model(x)));
        }
        let y = value_from_pack(x);
        out.push(y);
    }
    proof {
        lemma_seq_model(out@);
        assert(seq_model(out@) =~= pack_seq_model(orig));
    }
    out
}

/// Converts a vector of `rmpv` key/value entries into this crate's, in order.
fn entries_from_pack(entries: Vec<(PackValue, PackValue)>) -> (r: Vec<(Value, Value)>)
    ensures
        entries_model(r@) == pack_entries_model(entries@),
    decreases ValueModel::Mapping(pack_entries_model(entries@)), 0nat,
{
    let ghost orig = entries@;
    let ghost m = ValueModel::Mapping(pack_entries_model(orig));
    let mut rest = entries;
    let mut reversed: Vec<(PackValue, PackValue)> = Vec::new();
    while rest.len() > 0
        invariant
            rest@.len() + reversed@.len() == orig.len(),
            rest@ == orig.take(rest@.len() as int),
            forall|j: int| 0 <= j < reversed@.len() ==> #[trigger] reversed@[j] == orig[orig.len() - 1 - j],
        decreases rest@.len(),
    {
        let x = rest.pop().unwrap();
        reversed.push(x);
    }
    let mut out: Vec<(Value, Value)> = Vec::new();
    while reversed.len() > 0
        invariant
            reversed@.len() + out@.len() == orig.len(),
            forall|j: int| 0 <= j < reversed@.len() ==> #[trigger] reversed@[j] == orig[orig.len() - 1 - j],
            forall|j: int| 0 <= j < out@.len() ==> #[trigger] out@[j].0@ == pack_model(orig[j].0)
                && out@[j].1@ == pack_model(orig[j].1),
            m == ValueModel::Mapping(pack_entries_model(orig)),
            m == ValueModel::Mapping(pack_entries_model(entries@)),
        decreases reversed@.len(),
    {
        let ghost k = out@.len() as int;
        let (a, b) = reversed.pop().unwrap();
        assert((a, b) == orig[k]);
        assert(pack_entries_model(orig)[k] == (pack_model(a), pack_model(b)));
        proof {
            assert(decreases_to!(m => m->Mapping_0));
            assert(decreases_to!(m->Mapping_0 => m->Mapping_0[k]));
            assert(decreases_to!(m->Mapping_0[k] => m->Mapping_0[k].0));
            assert(decreases_to!(m->Mapping_0[k] => m->Mapping_0[k].1));
            assert(decreases_to!(m => pack_model(a)));
            assert(decreases_to!(m => pack_model(b)));
        }
        let x = value_from_pack(a);
        let y = value_from_pack(b);
        out.push((x, y));
    }
    proof {
        lemma_entries_model(out@);
        assert(entries_model(out@) =~= pack_entries_model(orig));
    }
    out
}

/// Attempts to decode one message from the start of `buffer`.
///
/// When `rmpv` reads a value from the start of the buffer, the result is the
/// message that value frames with the count of bytes it took, or the error that
/// reports why it frames none. When the read runs out of input (as it does on
/// bytes that only start a value), the result is `None`: more bytes are needed.
/// Any other failed read is a value nested too deep: `DepthLimitExceeded`.
///
/// A message read does not depend on the bytes after it: the same bytes followed
/// by any others read as the same value first.
pub fn try_decode_message(buffer: &[u8]) -> (r: Result<Option<(Message, usize)>, RpcError>)
    ensures
        decoded_prefix(buffer@) matches Some((_, n)) ==> n <= buffer@.len() && forall|rest: Seq<u8>|
            #[trigger] decoded_prefix(buffer@.take(n as int) + rest) == decoded_prefix(buffer@),
        cut_short(buffer@) ==> r matches Ok(None),
        match decoded_prefix(buffer@) {
            Some((vm, n)) => match (r, parse_message_model(vm)) {
                (Ok(Some((m, k))), Ok(mm)) => k == n && m@ == mm,
                (Err(e), Err(we)) => reports(e, we),
                _ => false,
            },
            None => if read_runs_out(buffer@) {
                r matches Ok(None)
            } else {
                r == Err::<Option<(Message, usize)>, RpcError>(
                    RpcError::Protocol(ProtocolError::DepthLimitExceeded),
                )
            },
        },
{
    match read_pack_value(buffer) {
        PackRead::Read(packed, consumed) => {
            proof {
                lemma_read_value_not_cut_short(buffer@);
            }
            classify_read(Ok((value_from_pack(packed), consumed)), IoErrorKind::Other)
        },
        PackRead::OutOfInput(e) => classify_read(Err(e), IoErrorKind::UnexpectedEof),
        PackRead::Failed(e) => classify_read(Err(e), IoErrorKind::Other),
    }
}

/// Encodes a value to MessagePack format, appending its bytes to `buffer`.
///
/// The bytes are those `rmpv` writes for the value's `rmpv` form; when the value
/// fits the wire, `rmpv` reads them back, whatever follows, as [`readback`] of
/// that form, taking exactly them.
pub fn encode_value(value: &Value, buffer: &mut Vec<u8>)
    ensures
        final(buffer)@ == old(buffer)@ + encoded_bytes(canonical(value@)),
        wire_fits(canonical(value@), read_depth_limit()) ==> forall|rest: Seq<u8>| #[trigger]
            decoded_prefix(final(buffer)@.skip(old(buffer)@.len() as int) + rest) == Some(
                (readback(canonical(value@)), encoded_bytes(canonical(value@)).len() as usize),
            ),
{
    let packed = value_to_pack(value);
    let _written = write_pack_value(buffer, &packed);
}

/// Decodes one MessagePack value from the start of `bytes`, with the count of
/// bytes it took; the error when `rmpv` reads none.
pub fn decode_value(bytes: &[u8]) -> (r: Result<(Value, usize), DecodeError>)
    ensures
        match r {
            Ok((v, n)) => decoded_prefix(bytes@) == Some((v@, n)) && n <= bytes@.len(),
            Err(_) => decoded_prefix(bytes@) is None,
        },
{
    match read_pack_value(bytes) {
        PackRead::Read(packed, consumed) => Ok((value_from_pack(packed), consumed)),
        PackRead::OutOfInput(e) => Err(e),
        PackRead::Failed(e) => Err(e),
    }
}

/// Bytes from which a value was read, and whose read looked at nothing after
/// the value, do not only start a value.
pub(crate) proof fn lemma_read_value_not_cut_short(bytes: Seq<u8>)
    requires
        decoded_prefix(bytes) matches Some((_, n)) && n <= bytes.len() && forall|rest: Seq<u8>|
            #[trigger] decoded_prefix(bytes.take(n as int) + rest) == decoded_prefix(bytes),
    ensures
        !cut_short(bytes),
{
    let n = decoded_prefix(bytes)->Some_0.1;
    if cut_short(bytes) {
        let more = choose|more: Seq<u8>| #[trigger]
            decoded_prefix(bytes + more) matches Some((_, k)) && k > bytes.len();
        assert(bytes + more =~= bytes.take(n as int) + (bytes.skip(n as int) + more));
        assert(decoded_prefix(bytes.take(n as int) + (bytes.skip(n as int) + more))
            == decoded_prefix(bytes));
    }
}

/// A value split across reads waits for its last byte: bytes that only start a
/// whole value's bytes are cut short, so [`try_decode_message`] answers `None`
/// and the reader asks for more, instead of failing.
pub proof fn lemma_split_value_waits(frame: Seq<u8>, vm: ValueModel, k: int)
    requires
        is_value_frame(frame, vm),
        0 <= k < frame.len(),
    ensures
        cut_short(frame.take(k)),
{
    let more = frame.skip(k);
    assert(frame.take(k) + more =~= frame);
    assert(decoded_prefix(frame.take(k) + more) == Some((vm, frame.len() as usize)));
}

/// The bytes of one whole MessagePack value of content `vm`: read alone they
/// give `vm` and take all of them, and whatever follows them does not change
/// that (as [`try_decode_message`] states of the bytes a value took).
pub open spec fn is_value_frame(bytes: Seq<u8>, vm: ValueModel) -> bool {
    &&& bytes.len() <= usize::MAX
    &&& decoded_prefix(bytes) == Some((vm, bytes.len() as usize))
    &&& forall|more: Seq<u8>| #[trigger] decoded_prefix(bytes + more) == decoded_prefix(bytes)
}

/// Messages come out of a byte stream in the order of their bytes: when the
/// buffer holds whole values one after another, then any tail, reading from the
/// front and dropping the bytes each read took gives the values in their order.
/// After `i` values were read and dropped, the next read gives value `i`, takes
/// exactly its bytes, and leaves the values after it followed by the tail; so
/// [`ReadBuffer::next_action`](crate::connection::ReadBuffer::next_action), whose
/// contract speaks of that read, hands on the messages in this order.
pub proof fn lemma_frames_in_order(
    frames: Seq<Seq<u8>>,
    models: Seq<ValueModel>,
    tail: Seq<u8>,
    i: int,
)
    requires
        frames.len() == models.len(),
        0 <= i < frames.len(),
        forall|j: int| 0 <= j < frames.len() ==> #[trigger] is_value_frame(frames[j], models[j]),
    ensures
        decoded_prefix(frames.skip(i).flatten() + tail) == Some(
            (models[i], frames[i].len() as usize),
        ),
        (frames.skip(i).flatten() + tail).skip(frames[i].len() as int) == frames.skip(i + 1).flatten()
            + tail,
{
    let rest = frames.skip(i);
    let after = frames.skip(i + 1).flatten() + tail;
    assert(rest.drop_first() =~= frames.skip(i + 1));
    assert(rest.flatten() == frames[i] + frames.skip(i + 1).flatten());
    assert(rest.flatten() + tail =~= frames[i] + after);
    assert(is_value_frame(frames[i], models[i]));
    assert(decoded_prefix(frames[i] + after) == decoded_prefix(frames[i]));
    assert((frames[i] + after).skip(frames[i].len() as int) =~= after);
}

/// What `String::from_utf8` makes of a byte string: its text when it is UTF-8.
pub uninterp spec fn utf8_text(bytes: Seq<u8>) -> Option<Seq<char>>;

/// An integer as `rmpv` holds it: a non-negative value is `PosInt`.
pub open spec fn canonical_integer(i: Integer) -> Integer {
    match i {
        Integer::PosInt(n) => Integer::PosInt(n),
        Integer::NegInt(n) => Integer::spec_from_i64(n),
    }
}

/// The content of the `rmpv` value that [`value_to_pack`] builds for a value:
/// the same content, but with non-negative integers as `PosInt`, "invalid"
/// strings that are UTF-8 as text, and invalid strings too long for MessagePack
/// as binary.
pub open spec fn canonical(m: ValueModel) -> ValueModel
    decreases m, 0nat,
{
    match m {
        ValueModel::Integer(i) => ValueModel::Integer(canonical_integer(i)),
        ValueModel::InvalidStr(b) => if b.len() <= u32::MAX {
            match utf8_text(b) {
                Some(t) => ValueModel::Str(t),
                None => ValueModel::InvalidStr(b),
            }
        } else {
            ValueModel::Binary(b)
        },
        ValueModel::Array(items) => ValueModel::Array(canonical_seq(items)),
        ValueModel::Mapping(entries) => ValueModel::Mapping(canonical_entries(entries)),
        _ => m,
    }
}

/// [`canonical`] of each element.
pub open spec fn canonical_seq(items: Seq<ValueModel>) -> Seq<ValueModel>
    decreases items, items.len(),
{
    if items.len() == 0 {
        Seq::empty()
    } else {
        canonical_seq(items.drop_last()).push(canonical(items.last()))
    }
}

/// [`canonical`] of each key and value.
pub open spec fn canonical_entries(entries: Seq<(ValueModel, ValueModel)>) -> Seq<(ValueModel, ValueModel)>
    decreases entries, entries.len(),
{
    if entries.len() == 0 {
        Seq::empty()
    } else {
        canonical_entries(entries.drop_last()).push(
            (canonical(entries.last().0), canonical(entries.last().1)),
        )
    }
}

pub(crate) proof fn lemma_canonical_seq(items: Seq<ValueModel>)
    ensures
        canonical_seq(items).len() == items.len(),
        forall|i: int| 0 <= i < items.len() ==> #[trigger] canonical_seq(items)[i] == canonical(items[i]),
    decreases items.len(),
{
    if items.len() > 0 {
        lemma_canonical_seq(items.drop_last());
    }
}

proof fn lemma_canonical_entries(entries: Seq<(ValueModel, ValueModel)>)
    ensures
        canonical_entries(entries).len() == entries.len(),
        forall|i: int|
            0 <= i < entries.len() ==> #[trigger] canonical_entries(entries)[i] == (
                canonical(entries[i].0),
                canonical(entries[i].1),
            ),
    decreases entries.len(),
{
    if entries.len() > 0 {
        lemma_canonical_entries(entries.drop_last());
    }
}

/// Builds the `rmpv` value for a value with no nested values, no float and no
/// invalid string.
///
/// Moves or copies the fields into the matching `rmpv::Value` variant; integers
/// go through `rmpv::Value::from`, which makes non-negative ones `PosInt`.
#[verifier::external_body]
fn pack_leaf(v: &Value) -> (r: PackValue)
    requires
        !(v is Array || v is Mapping || v is F32 || v is F64),
        !(v matches Value::String(Utf8String::Invalid(_))),
    ensures
        pack_model(r) == canonical(v@),
{
    match v {
        Value::Boolean(b) => PackValue::Boolean(*b),
        Value::Integer(Integer::PosInt(n)) => PackValue::from(*n),
        Value::Integer(Integer::NegInt(n)) => PackValue::from(*n),
        Value::String(Utf8String::Valid(s)) => PackValue::from(s.as_str()),
        Value::Binary(b) => PackValue::Binary(b.clone()),
        Value::Ext(t, d) => PackValue::Ext(*t, d.clone()),
        _ => PackValue::Nil,
    }
}

/// Builds the `rmpv` float 32 with these IEEE-754 bits.
///
/// Wraps `rmpv::decode::read_value` on the MessagePack encoding of the float
/// (marker `0xca`, then the bits big-endian), which `rmpv` reads back bit for bit.
#[verifier::external_body]
fn pack_f32(bits: u32) -> (r: PackValue)
    ensures
        pack_model(r) == ValueModel::F32(bits),
{
    let b = bits.to_be_bytes();
    rmpv::decode::read_value(&mut &[0xca, b[0], b[1], b[2], b[3]][..]).unwrap_or(PackValue::Nil)
}

/// Builds the `rmpv` float 64 with these IEEE-754 bits.
///
/// Wraps `rmpv::decode::read_value` on the MessagePack encoding of the float
/// (marker `0xcb`, then the bits big-endian), which `rmpv` reads back bit for bit.
#[verifier::external_body]
fn pack_f64(bits: u64) -> (r: PackValue)
    ensures
        pack_model(r) == ValueModel::F64(bits),
{
    let b = bits.to_be_bytes();
    let encoded = [0xcb, b[0], b[1], b[2], b[3], b[4], b[5], b[6], b[7]];
    rmpv::decode::read_value(&mut &encoded[..]).unwrap_or(PackValue::Nil)
}

/// Builds the `rmpv` string for these bytes.
///
/// Wraps `rmpv::decode::read_value` on the MessagePack encoding of a string with
/// these bytes (marker `0xdb`, the length as four bytes big-endian, the bytes);
/// `rmpv` keeps the text where the bytes are UTF-8 and the bytes otherwise.
#[verifier::external_body]
fn pack_text_bytes(bytes: &Vec<u8>) -> (r: PackValue)
    requires
        bytes@.len() <= u32::MAX,
    ensures
        pack_model(r) == match utf8_text(bytes@) {
            Some(t) => ValueModel::Str(t),
            None => ValueModel::InvalidStr(bytes@),
        },
{
    let mut encoded = vec![0xdb];
    encoded.extend_from_slice(&(bytes.len() as u32).to_be_bytes());
    encoded.extend_from_slice(bytes);
    rmpv::decode::read_value(&mut &encoded[..]).unwrap_or(PackValue::Nil)
}

/// Builds the `rmpv` array of these values.
#[verifier::external_body]
fn pack_array(items: Vec<PackValue>) -> (r: PackValue)
    ensures
        pack_model(r) == ValueModel::Array(pack_seq_model(items@)),
{
    PackValue::Array(items)
}

/// Builds the `rmpv` map of these entries.
#[verifier::external_body]
fn pack_map(entries: Vec<(PackValue, PackValue)>) -> (r: PackValue)
    ensures
        pack_model(r) == ValueModel::Mapping(pack_entries_model(entries@)),
{
    PackValue::Map(entries)
}

/// The text that `rmpv::Value`'s derived `Debug` writes for a value of this model.
pub uninterp spec fn pack_debug(m: ValueModel) -> Seq<char>;

/// Formats an `rmpv` value with its `Debug` impl.
///
/// Wraps `rmpv::Value`'s derived `Debug` through `format!`. The contract claims
/// only that the text is a function of the value; what it spells out is left to
/// the name `pack_debug`.
#[verifier::external_body]
pub(crate) fn pack_debug_text(v: &PackValue) -> (r: String)
    ensures
        r@ == pack_debug(pack_model(*v)),
{
    format!("{:?}", v)
}

/// Converts this crate's value into an `rmpv` value.
pub fn value_to_pack(v: &Value) -> (r: PackValue)
    ensures
        pack_model(r) == canonical(v@),
    decreases v, 0nat,
{
    match v {
        Value::F32(bits) => pack_f32(*bits),
        Value::F64(bits) => pack_f64(*bits),
        Value::String(Utf8String::Invalid(b)) => if b.len() <= 0xffff_ffff {
            pack_text_bytes(b)
        } else {
            pack_leaf(&Value::Binary(clone_bytes(b)))
        },
        Value::Array(items) => pack_array(packs_of(items)),
        Value::Mapping(entries) => pack_map(pack_entries_of(entries)),
        _ => pack_leaf(v),
    }
}

/// Converts a vector of values into `rmpv` values, in order.
fn packs_of(items: &Vec<Value>) -> (r: Vec<PackValue>)
    ensures
        pack_seq_model(r@) == canonical_seq(seq_model(items@)),
    decreases items, 1nat,
{
    let mut out: Vec<PackValue> = Vec::new();
    let mut i: usize = 0;
    while i < items.len()
        invariant
            i <= items.len(),
            out@.len() == i,
            forall|j: int| 0 <= j < i ==> #[trigger] pack_model(out@[j]) == canonical(items@[j]@),
        decreases items.len() - i,
    {
        let p = value_to_pack(&items[i]);
        out.push(p);
        i = i + 1;
    }
    proof {
        lemma_seq_model(items@);
        lemma_canonical_seq(seq_model(items@));
        assert(pack_seq_model(out@) =~= canonical_seq(seq_model(items@)));
    }
    out
}

/// Converts a vector of key/value entries into `rmpv` entries, in order.
fn pack_entries_of(entries: &Vec<(Value, Value)>) -> (r: Vec<(PackValue, PackValue)>)
    ensures
        pack_entries_model(r@) == canonical_entries(entries_model(entries@)),
    decreases entries, 1nat,
{
    let mut out: Vec<(PackValue, PackValue)> = Vec::new();
    let mut i: usize = 0;
    while i < entries.len()
        invariant
            i <= entries.len(),
            out@.len() == i,
            forall|j: int| 0 <= j < i ==> #[trigger] pack_model(out@[j].0) == canonical(entries@[j].0@)
                && pack_model(out@[j].1) == canonical(entries@[j].1@),
        decreases entries.len() - i,
    {
        let k = value_to_pack(&entries[i].0);
        let v = value_to_pack(&entries[i].1);
        out.push((k, v));
        i = i + 1;
    }
    proof {
        lemma_entries_model(entries@);
        lemma_canonical_entries(entries_model(entries@));
        assert(pack_entries_model(out@) =~= canonical_entries(entries_model(entries@)));
    }
    out
}

} // verus!
