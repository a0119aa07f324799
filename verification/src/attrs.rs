//! The structurally typed attribute representation handed in by the host
//! instrumentation framework: an ordered sequence of name/value pairs.
use vstd::prelude::*;
use crate::text::chars_of;

verus! {

/// An attribute value as the host framework reports it. Values of any other
/// shape carry no metric information and are represented as `Other`.
pub enum AttrValue {
    /// A string value, as used by the bare directive forms.
    Str(String),
    /// A signed integer value, as used by the dotted directive forms.
    Int(i64),
    /// An unsigned integer value; coerced to signed with wraparound.
    UInt(u64),
    /// Any value shape this router does not interpret.
    Other,
}

/// One attribute: a name and a value. Attribute order within a set is the
/// host framework's insertion order.
pub struct Attr {
    /// The attribute name, by characters.
    pub name: Vec<char>,
    /// The attribute value.
    pub value: AttrValue,
}

impl Attr {
    /// A string-valued attribute.
    pub fn string(name: &str, value: &str) -> (a: Attr)
        ensures
            a.name@ == name@,
            a.value matches AttrValue::Str(s) && s@ == value@,
    {
        Attr { name: chars_of(name), value: AttrValue::Str(value.to_owned()) }
    }

    /// A signed-integer-valued attribute.
    pub fn signed(name: &str, value: i64) -> (a: Attr)
        ensures
            a.name@ == name@,
            a.value == AttrValue::Int(value),
    {
        Attr { name: chars_of(name), value: AttrValue::Int(value) }
    }

    /// An unsigned-integer-valued attribute.
    pub fn unsigned(name: &str, value: u64) -> (a: Attr)
        ensures
            a.name@ == name@,
            a.value == AttrValue::UInt(value),
    {
        Attr { name: chars_of(name), value: AttrValue::UInt(value) }
    }

    /// An attribute whose value shape this router does not interpret.
    pub fn opaque(name: &str) -> (a: Attr)
        ensures
            a.name@ == name@,
            a.value == AttrValue::Other,
    {
        Attr { name: chars_of(name), value: AttrValue::Other }
    }
}

} // verus!
