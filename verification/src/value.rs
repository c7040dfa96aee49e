//! JavaScript values. Every value is a small copyable word: strings and
//! objects are handles into the heap.

use vstd::prelude::*;

verus! {

/// A handle to an object on the heap. Two handles are the same object
/// exactly when they are equal.
#[derive(Clone, Copy, Debug, PartialEq, Eq, Structural)]
pub struct JsObject {
    pub index: usize,
}

/// A handle to an immutable UTF-16 string on the heap.
#[derive(Clone, Copy, Debug, PartialEq, Eq, Structural)]
pub struct JsString {
    pub index: usize,
}

/// A symbol value, identified by a number. The well-known symbols have fixed
/// numbers.
#[derive(Clone, Copy, Debug, PartialEq, Eq, Structural)]
pub struct JsSymbol {
    pub id: u64,
}

impl JsSymbol {
    /// The well-known symbol `@@unscopables`.
    pub open spec fn spec_unscopables() -> JsSymbol {
        JsSymbol { id: 12 }
    }

    /// The well-known symbol `@@unscopables`.
    #[verifier::when_used_as_spec(spec_unscopables)]
    pub fn unscopables() -> (symbol: JsSymbol)
        ensures
            symbol == Self::spec_unscopables(),
    {
        JsSymbol { id: 12 }
    }
}

/// A JavaScript value.
#[derive(Clone, Copy, Debug, PartialEq, Eq, Structural)]
pub enum JsValue {
    /// `null`.
    Null,
    /// `undefined`.
    Undefined,
    /// `true` or `false`.
    Boolean(bool),
    /// A string.
    String(JsString),
    /// A number that is not a small integer, as the bits of an IEEE 754
    /// double.
    Rational(u64),
    /// A number that is a 32-bit integer.
    Integer(i32),
    /// An object.
    Object(JsObject),
    /// A symbol.
    Symbol(JsSymbol),
}

impl JsValue {
    /// The value `undefined`.
    pub fn undefined() -> (value: JsValue)
        ensures
            value == JsValue::Undefined,
    {
        JsValue::Undefined
    }

    /// The value `null`.
    pub fn null() -> (value: JsValue)
        ensures
            value == JsValue::Null,
    {
        JsValue::Null
    }

    /// The number value of an unsigned 32-bit integer: a small integer where
    /// it fits, else the bits of the double with that value.
    pub open spec fn spec_from_u32(n: u32) -> JsValue {
        if n <= 0x7fff_ffffu32 {
            JsValue::Integer(n as i32)
        } else {
            JsValue::Rational((1054u64 << 52u64) | (((n as u64) & 0x7fff_ffffu64) << 21u64))
        }
    }

    /// The number value of an unsigned 32-bit integer.
    pub fn from_u32(n: u32) -> (value: JsValue)
        ensures
            value == Self::spec_from_u32(n),
    {
        if n <= 0x7fff_ffffu32 {
            JsValue::Integer(n as i32)
        } else {
            JsValue::Rational((1054u64 << 52u64) | (((n as u64) & 0x7fff_ffffu64) << 21u64))
        }
    }

    /// Whether the value is `undefined`.
    pub fn is_undefined(&self) -> (b: bool)
        ensures
            b == (*self == JsValue::Undefined),
    {
        matches!(self, JsValue::Undefined)
    }

    /// Whether the value is `null`.
    pub fn is_null(&self) -> (b: bool)
        ensures
            b == (*self == JsValue::Null),
    {
        matches!(self, JsValue::Null)
    }

    /// Whether the value is `null` or `undefined`.
    pub fn is_null_or_undefined(&self) -> (b: bool)
        ensures
            b == (*self == JsValue::Null || *self == JsValue::Undefined),
    {
        matches!(self, JsValue::Null | JsValue::Undefined)
    }

    /// Whether the value is an object.
    pub fn is_object(&self) -> (b: bool)
        ensures
            b == (*self is Object),
    {
        matches!(self, JsValue::Object(_))
    }

    /// The object handle, if the value is an object.
    pub fn as_object(&self) -> (object: Option<JsObject>)
        ensures
            object == self.spec_as_object(),
    {
        match self {
            JsValue::Object(o) => Some(*o),
            _ => None,
        }
    }

    /// The object handle, if the value is an object.
    pub open spec fn spec_as_object(self) -> Option<JsObject> {
        match self {
            JsValue::Object(o) => Some(o),
            _ => None,
        }
    }

    /// The string handle, if the value is a string.
    pub fn as_string(&self) -> (string: Option<JsString>)
        ensures
            string == self.spec_as_string(),
    {
        match self {
            JsValue::String(s) => Some(*s),
            _ => None,
        }
    }

    /// The string handle, if the value is a string.
    pub open spec fn spec_as_string(self) -> Option<JsString> {
        match self {
            JsValue::String(s) => Some(s),
            _ => None,
        }
    }
}

/// The argument at `index`, or `undefined` where the list is shorter.
pub open spec fn spec_get_or_undefined(args: Seq<JsValue>, index: int) -> JsValue {
    if 0 <= index < args.len() {
        args[index]
    } else {
        JsValue::Undefined
    }
}

/// The argument at `index`, or `undefined` where the list is shorter.
pub fn get_or_undefined(args: &[JsValue], index: usize) -> (value: JsValue)
    ensures
        value == spec_get_or_undefined(args@, index as int),
{
    if index < args.len() {
        args[index]
    } else {
        JsValue::Undefined
    }
}

} // verus!
