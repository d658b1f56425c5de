//! MessagePack values as the library reads and writes them.

use vstd::prelude::*;
use core::time::Duration;
use rmpv::Value;

verus! {

/// One MessagePack value. An integer is held as the unsigned and as the signed
/// number that it is, if it is one, and a float as its IEEE 754 bits; maps and
/// extension types, which no request or response uses, are `Other`.
#[derive(Debug)]
pub enum WireValue {
    Nil,
    Boolean(bool),
    Integer(Option<u64>, Option<i64>),
    Single(u32),
    Double(u64),
    Text(Vec<u8>),
    Binary(Vec<u8>),
    Array(Vec<WireValue>),
    Other,
}

/// What a [`WireValue`] says.
pub enum WireView {
    Nil,
    Boolean(bool),
    Unsigned(u64),
    Negative(i64),
    Single(u32),
    Double(u64),
    Text(Seq<u8>),
    Binary(Seq<u8>),
    Array(Seq<WireView>),
    Other,
}

impl View for WireValue {
    type V = WireView;

    open spec fn view(&self) -> WireView
        decreases self,
    {
        match self {
            WireValue::Nil => WireView::Nil,
            WireValue::Boolean(value) => WireView::Boolean(*value),
            WireValue::Integer(Some(value), _) => WireView::Unsigned(*value),
            WireValue::Integer(None, Some(value)) => WireView::Negative(*value),
            WireValue::Integer(None, None) => WireView::Other,
            WireValue::Single(bits) => WireView::Single(*bits),
            WireValue::Double(bits) => WireView::Double(*bits),
            WireValue::Text(bytes) => WireView::Text(bytes@),
            WireValue::Binary(bytes) => WireView::Binary(bytes@),
            WireValue::Array(items) => WireView::Array(
                Seq::new(
                    items@.len(),
                    |i: int|
                        if 0 <= i < items@.len() {
                            items@[i].view()
                        } else {
                            WireView::Nil
                        },
                ),
            ),
            WireValue::Other => WireView::Other,
        }
    }
}

/// The value that `rmpv::decode::read_value` reads from the front of `data`;
/// `None` where it reports an error.
pub uninterp spec fn msgpack_decoded(data: Seq<u8>) -> Option<WireView>;

/// The bytes that `rmpv::encode::write_value` writes for `value`.
pub uninterp spec fn msgpack_encoded(value: WireView) -> Seq<u8>;

/// The bytes of a string or binary value.
pub open spec fn slice_of(value: WireView) -> Option<Seq<u8>> {
    match value {
        WireView::Text(bytes) => Some(bytes),
        WireView::Binary(bytes) => Some(bytes),
        _ => None,
    }
}

/// The value of an array of binaries.
pub open spec fn binaries(items: Seq<Seq<u8>>) -> WireView {
    WireView::Array(Seq::new(items.len(), |i: int| WireView::Binary(items[i])))
}

/// Items that fit MessagePack's 32-bit length fields.
pub open spec fn fits_lengths(items: Seq<Seq<u8>>) -> bool {
    items.len() <= u32::MAX && forall|i: int|
        0 <= i < items.len() ==> (#[trigger] items[i]).len() <= u32::MAX
}

/// The byte strings held by `items`.
pub open spec fn byte_views(items: Seq<Vec<u8>>) -> Seq<Seq<u8>> {
    Seq::new(items.len(), |i: int| items[i]@)
}

/// A value that the library writes.
#[derive(Debug)]
pub enum Outgoing {
    Nil,
    Boolean(bool),
    Code(u64),
    /// An array of binaries.
    List(Vec<Vec<u8>>),
    /// A binary followed by an array of binaries.
    Keyed(Vec<u8>, Vec<Vec<u8>>),
    /// A time in milliseconds, written as seconds in a double, followed by an
    /// array of binaries.
    Timed(u64, Vec<Vec<u8>>),
}

/// The IEEE 754 bits of the seconds that `core::time::Duration::as_secs_f64`
/// gives for this many milliseconds.
pub uninterp spec fn seconds_bits(milliseconds: u64) -> u64;

/// The value of messages that were put together at a time.
pub open spec fn timed_wire(time_bits: u64, items: Seq<Seq<u8>>) -> WireView {
    WireView::Array(seq![WireView::Double(time_bits), binaries(items)])
}

impl View for Outgoing {
    type V = WireView;

    open spec fn view(&self) -> WireView {
        match self {
            Outgoing::Nil => WireView::Nil,
            Outgoing::Boolean(value) => WireView::Boolean(*value),
            Outgoing::Code(code) => WireView::Unsigned(*code),
            Outgoing::List(items) => binaries(byte_views(items@)),
            Outgoing::Keyed(key, items) => WireView::Array(
                seq![WireView::Binary(key@), binaries(byte_views(items@))],
            ),
            Outgoing::Timed(milliseconds, items) => timed_wire(
                seconds_bits(*milliseconds),
                byte_views(items@),
            ),
        }
    }
}

impl Outgoing {
    /// All lengths fit MessagePack's length fields.
    pub open spec fn fits(&self) -> bool {
        match self {
            Outgoing::List(items) => fits_lengths(byte_views(items@)),
            Outgoing::Timed(_, items) => fits_lengths(byte_views(items@)),
            Outgoing::Keyed(key, items) => key@.len() <= u32::MAX && fits_lengths(
                byte_views(items@),
            ),
            _ => true,
        }
    }
}

/// The value type of rmpv, opaque here.
#[verifier::external_type_specification]
#[verifier::external_body]
pub struct ExRmpvValue(rmpv::Value);

/// Takes an `rmpv::Value` apart into the library's own value, variant by
/// variant. An integer becomes what `as_u64` and `as_i64` say of it, a float
/// its bits and a string its bytes.
#[verifier::external_body]
fn from_wire(value: Value) -> WireValue {
    match value {
        Value::Nil => WireValue::Nil,
        Value::Boolean(value) => WireValue::Boolean(value),
        Value::Integer(value) => WireValue::Integer(value.as_u64(), value.as_i64()),
        Value::F32(value) => WireValue::Single(value.to_bits()),
        Value::F64(value) => WireValue::Double(value.to_bits()),
        Value::String(text) => WireValue::Text(text.into_bytes()),
        Value::Binary(bytes) => WireValue::Binary(bytes),
        Value::Array(items) => WireValue::Array(items.into_iter().map(from_wire).collect()),
        Value::Map(_) => WireValue::Other,
        Value::Ext(_, _) => WireValue::Other,
    }
}

/// `rmpv::decode::read_value` on a byte slice: the value at the front of
/// `data`, or `None` where rmpv reports an error. The outcome is a function of
/// the bytes alone. Bytes behind the value are not looked at.
#[verifier::external_body]
pub(crate) fn decode_value(data: &[u8]) -> (value: Option<WireValue>)
    ensures
        match value {
            Some(value) => msgpack_decoded(data@) == Some(value@),
            None => msgpack_decoded(data@) is None,
        },
{
    rmpv::decode::read_value(&mut &data[..]).ok().map(from_wire)
}

/// `rmpv::encode::write_value` into a fresh buffer. The bytes are a function of
/// the value alone, and where every length fits its field, reading them back
/// gives the value that was written. A time is turned into seconds by
/// `core::time::Duration::as_secs_f64`.
#[verifier::external_body]
pub(crate) fn encode_value(value: &Outgoing) -> (data: Vec<u8>)
    ensures
        data@ == msgpack_encoded(
            match value {
                Outgoing::Timed(milliseconds, items) => timed_wire(
                    seconds_bits(*milliseconds),
                    byte_views(items@),
                ),
                _ => value@,
            },
        ),
        value.fits() ==> msgpack_decoded(data@) == Some(value@),
{
    let list = |items: &Vec<Vec<u8>>| items.iter().cloned().collect::<Value>();
    let wire = match value {
        Outgoing::Nil => Value::Nil,
        Outgoing::Boolean(value) => Value::Boolean(*value),
        Outgoing::Code(code) => Value::from(*code),
        Outgoing::List(items) => list(items),
        Outgoing::Keyed(key, items) => Value::Array(vec![key.clone().into(), list(items)]),
        Outgoing::Timed(time, items) => {
            let seconds = Duration::from_millis(*time).as_secs_f64();
            Value::Array(vec![seconds.into(), list(items)])
        }
    };
    let mut data = Vec::new();
    let _ = rmpv::encode::write_value(&mut data, &wire);
    data
}

impl WireValue {
    /// Tells whether the value is nil.
    pub fn is_nil(&self) -> (nil: bool)
        ensures
            nil == (self@ is Nil),
    {
        matches!(self, WireValue::Nil)
    }

    /// The items of an array.
    pub fn as_array(&self) -> (items: Option<&Vec<WireValue>>)
        ensures
            match items {
                Some(items) => self@ == WireView::Array(wire_views(items@)),
                None => !(self@ is Array),
            },
    {
        match self {
            WireValue::Array(items) => {
                proof {
                    reveal_with_fuel(<WireValue as View>::view, 2);
                    assert(self@->Array_0 =~= wire_views(items@));
                }
                Some(items)
            },
            _ => None,
        }
    }

    /// The bytes of a string or binary.
    pub fn as_slice(&self) -> (bytes: Option<&[u8]>)
        ensures
            match bytes {
                Some(bytes) => slice_of(self@) == Some(bytes@),
                None => slice_of(self@) is None,
            },
    {
        match self {
            WireValue::Text(bytes) => Some(bytes.as_slice()),
            WireValue::Binary(bytes) => Some(bytes.as_slice()),
            _ => None,
        }
    }
}

/// The values held by `items`.
pub open spec fn wire_views(items: Seq<WireValue>) -> Seq<WireView> {
    Seq::new(items.len(), |i: int| items[i]@)
}

} // verus!
