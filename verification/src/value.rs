//! Values that the interpreter gives variables.
use vstd::prelude::*;

verus! {

/// A value: a string, or a record with named fields.
#[derive(Debug, PartialEq, Eq)]
pub enum Value {
    String { text: String },
    Record { name: String, fields: Vec<(String, PropertyValue)> },
}

/// A field of a record: a value, whether it may change, and its line.
#[derive(Debug, PartialEq, Eq)]
pub enum PropertyValue {
    Value { value: Value, is_mutable: bool, line_number: usize },
}

/// `v` is the string `t`.
pub open spec fn is_text(v: Value, t: Seq<char>) -> bool {
    v matches Value::String { text } && text@ == t
}

/// `p` is the fixed string `t` at line 0.
pub open spec fn is_text_field(p: PropertyValue, t: Seq<char>) -> bool {
    p matches PropertyValue::Value { value, is_mutable, line_number } && is_text(value, t)
        && !is_mutable && line_number == 0
}

/// `v` is an `ftd#image-src` record with the image `light` for light mode and `dark`
/// for dark mode; its fields stand in the order of their names.
pub open spec fn is_image_src(v: Value, light: Seq<char>, dark: Seq<char>) -> bool {
    v matches Value::Record { name, fields } && name@ == "ftd#image-src"@ && fields@.len() == 2
        && fields@[0].0@ == "dark"@ && is_text_field(fields@[0].1, dark) && fields@[1].0@
        == "light"@ && is_text_field(fields@[1].1, light)
}

/// The string value `text`.
pub fn text_value(text: String) -> (r: Value)
    ensures
        is_text(r, text@),
{
    Value::String { text }
}

/// An `ftd#image-src` record with the images `light` and `dark`.
pub fn image_src(light: String, dark: String) -> (r: Value)
    ensures
        is_image_src(r, light@, dark@),
{
    let mut fields: Vec<(String, PropertyValue)> = Vec::new();
    fields.push(
        (
            "dark".to_owned(),
            PropertyValue::Value { value: Value::String { text: dark }, is_mutable: false, line_number: 0 },
        ),
    );
    fields.push(
        (
            "light".to_owned(),
            PropertyValue::Value { value: Value::String { text: light }, is_mutable: false, line_number: 0 },
        ),
    );
    Value::Record { name: "ftd#image-src".to_owned(), fields }
}

} // verus!
