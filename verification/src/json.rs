//! JSON values, as the configuration readers see them.

use vstd::prelude::*;

verus! {

/// A parsed JSON value.
#[verifier::external_type_specification]
#[verifier::external_body]
pub struct ExJsonValue(serde_json::Value);

/// Why text is not JSON.
#[verifier::external_type_specification]
#[verifier::external_body]
pub struct ExJsonError(serde_json::Error);

/// What a JSON value holds.
pub enum JsonView {
    /// Nothing.
    Null,
    /// A truth value.
    Bool(bool),
    /// A number: its value where it is a whole number that is not negative and fits sixty-four
    /// bits, and the bits of its double-precision form.
    Number { unsigned: Option<u64>, double_bits: u64 },
    /// Text.
    Text(Seq<char>),
    /// Values in order.
    Array(Seq<JsonView>),
    /// Values by name.
    Object(Map<Seq<char>, JsonView>),
}

/// What a parsed value holds.
pub uninterp spec fn json_view(value: serde_json::Value) -> JsonView;

/// What the bytes of a JSON text hold, or nothing where they are not a JSON text.
pub uninterp spec fn parsed_json(bytes: Seq<u8>) -> Option<JsonView>;

/// Parses bytes with `serde_json::from_slice` into a `serde_json::Value`: success and contents
/// depend on the bytes alone.
#[verifier::external_body]
pub(crate) fn parse_json(bytes: &[u8]) -> (result: Result<serde_json::Value, serde_json::Error>)
    ensures
        match result {
            Ok(value) => parsed_json(bytes@) == Some(json_view(value)),
            Err(_) => parsed_json(bytes@) is None,
        },
{
    serde_json::from_slice(bytes)
}

/// The value of a name, where there is one.
pub open spec fn field_view(view: JsonView, name: Seq<char>) -> Option<JsonView> {
    match view {
        JsonView::Object(fields) => if fields.dom().contains(name) {
            Some(fields[name])
        } else {
            None
        },
        _ => None,
    }
}

/// Looks a name up with `serde_json::Value::get`: the value of an object under that name, and
/// nothing for any other value or name.
#[verifier::external_body]
pub(crate) fn get_field<'a>(value: &'a serde_json::Value, name: &str) -> (field: Option<
    &'a serde_json::Value,
>)
    ensures
        match field {
            Some(found) => field_view(json_view(*value), name@) == Some(json_view(*found)),
            None => field_view(json_view(*value), name@) is None,
        },
{
    value.get(name)
}

/// Text of a value, where it is text.
pub open spec fn text_view(view: JsonView) -> Option<Seq<char>> {
    match view {
        JsonView::Text(text) => Some(text),
        _ => None,
    }
}

/// Reads text with `serde_json::Value::as_str`: the text of a string, and nothing for any other
/// value.
#[verifier::external_body]
pub(crate) fn as_text(value: &serde_json::Value) -> (text: Option<String>)
    ensures
        match text {
            Some(text) => text_view(json_view(*value)) == Some(text@),
            None => text_view(json_view(*value)) is None,
        },
{
    value.as_str().map(String::from)
}

/// Whole number of a value, where it is one.
pub open spec fn unsigned_view(view: JsonView) -> Option<u64> {
    match view {
        JsonView::Number { unsigned, .. } => unsigned,
        _ => None,
    }
}

/// Reads a whole number with `serde_json::Value::as_u64`: nothing for a number that is negative
/// or written with a fraction, and nothing for any other value.
#[verifier::external_body]
pub(crate) fn as_unsigned(value: &serde_json::Value) -> (number: Option<u64>)
    ensures
        number == unsigned_view(json_view(*value)),
{
    value.as_u64()
}

/// Bits of the double-precision form of a value, where it is a number.
pub open spec fn double_view(view: JsonView) -> Option<u64> {
    match view {
        JsonView::Number { double_bits, .. } => Some(double_bits),
        _ => None,
    }
}

/// Reads a number with `serde_json::Value::as_f64` and takes the bits of what it returns:
/// nothing for any other value.
#[verifier::external_body]
pub(crate) fn as_double_bits(value: &serde_json::Value) -> (bits: Option<u64>)
    ensures
        bits == double_view(json_view(*value)),
{
    value.as_f64().map(|number| number.to_bits())
}

/// Values of an array, where a value is one.
pub open spec fn array_view(view: JsonView) -> Option<Seq<JsonView>> {
    match view {
        JsonView::Array(items) => Some(items),
        _ => None,
    }
}

/// Reads an array with `serde_json::Value::as_array`: its values in order, and nothing for any
/// other value.
#[verifier::external_body]
pub(crate) fn as_items(value: &serde_json::Value) -> (items: Option<&Vec<serde_json::Value>>)
    ensures
        match items {
            Some(items) => array_view(json_view(*value)) == Some(
                items@.map_values(|item: serde_json::Value| json_view(item)),
            ),
            None => array_view(json_view(*value)) is None,
        },
{
    value.as_array()
}

/// Text of a named value.
pub open spec fn field_text(view: JsonView, name: Seq<char>) -> Option<Seq<char>> {
    match field_view(view, name) {
        Some(field) => text_view(field),
        None => None,
    }
}

/// Whole number of a named value that fits the machine.
pub open spec fn field_usize(view: JsonView, name: Seq<char>) -> Option<usize> {
    match field_view(view, name) {
        Some(field) => match unsigned_view(field) {
            Some(number) => if number <= usize::MAX {
                Some(number as usize)
            } else {
                None
            },
            None => None,
        },
        None => None,
    }
}

/// Whether double-precision bits stand for a finite number.
pub open spec fn finite_double(bits: u64) -> bool {
    (bits / 0x10_0000_0000_0000) % 0x800 != 0x7ff
}

/// Bits of a named finite number.
pub open spec fn field_double(view: JsonView, name: Seq<char>) -> Option<u64> {
    match field_view(view, name) {
        Some(field) => match double_view(field) {
            Some(bits) => if finite_double(bits) {
                Some(bits)
            } else {
                None
            },
            None => None,
        },
        None => None,
    }
}

/// Values of a named array.
pub open spec fn field_array(view: JsonView, name: Seq<char>) -> Option<Seq<JsonView>> {
    match field_view(view, name) {
        Some(field) => array_view(field),
        None => None,
    }
}

/// Reads the text of a named value.
pub fn required_str(value: &serde_json::Value, name: &str) -> (text: Option<String>)
    ensures
        match text {
            Some(text) => field_text(json_view(*value), name@) == Some(text@),
            None => field_text(json_view(*value), name@) is None,
        },
{
    match get_field(value, name) {
        Some(field) => as_text(field),
        None => None,
    }
}

/// Reads the whole number of a named value.
pub fn required_usize(value: &serde_json::Value, name: &str) -> (number: Option<usize>)
    ensures
        number == field_usize(json_view(*value), name@),
{
    match get_field(value, name) {
        Some(field) => match as_unsigned(field) {
            Some(number) => {
                if number <= usize::MAX as u64 {
                    Some(number as usize)
                } else {
                    None
                }
            },
            None => None,
        },
        None => None,
    }
}

/// Reads the bits of a named finite number.
pub fn required_f64(value: &serde_json::Value, name: &str) -> (bits: Option<u64>)
    ensures
        bits == field_double(json_view(*value), name@),
{
    match get_field(value, name) {
        Some(field) => match as_double_bits(field) {
            Some(bits) => {
                if (bits / 0x10_0000_0000_0000) % 0x800 != 0x7ff {
                    Some(bits)
                } else {
                    None
                }
            },
            None => None,
        },
        None => None,
    }
}

/// Reads the values of a named array.
pub fn required_array<'a>(value: &'a serde_json::Value, name: &str) -> (items: Option<
    &'a Vec<serde_json::Value>,
>)
    ensures
        match items {
            Some(items) => field_array(json_view(*value), name@) == Some(
                items@.map_values(|item: serde_json::Value| json_view(item)),
            ),
            None => field_array(json_view(*value), name@) is None,
        },
{
    match get_field(value, name) {
        Some(field) => as_items(field),
        None => None,
    }
}

/// Texts of an array. Nothing stands for a value that is no text.
pub open spec fn texts_of(items: Seq<JsonView>) -> Seq<Option<Seq<char>>> {
    items.map_values(|item: JsonView| text_view(item))
}

/// Texts as they are seen.
pub open spec fn text_options(texts: Seq<Option<String>>) -> Seq<Option<Seq<char>>> {
    texts.map_values(
        |text: Option<String>|
            match text {
                Some(text) => Some(text@),
                None => None,
            },
    )
}

/// Reads the texts of an array.
pub fn read_texts(items: &Vec<serde_json::Value>) -> (texts: Vec<Option<String>>)
    ensures
        text_options(texts@) == texts_of(
            items@.map_values(|item: serde_json::Value| json_view(item)),
        ),
{
    let mut texts: Vec<Option<String>> = Vec::new();
    let ghost all = texts_of(items@.map_values(|item: serde_json::Value| json_view(item)));
    let mut i: usize = 0;
    while i < items.len()
        invariant
            i <= items@.len(),
            all == texts_of(items@.map_values(|item: serde_json::Value| json_view(item))),
            all.len() == items@.len(),
            text_options(texts@) == all.take(i as int),
        decreases items@.len() - i,
    {
        let ghost before = texts@;
        let text = as_text(&items[i]);
        texts.push(text);
        assert(all[i as int] == text_view(json_view(items@[i as int])));
        assert(text_options(texts@) =~= text_options(before).push(all[i as int]));
        i += 1;
        assert(text_options(texts@) =~= all.take(i as int));
    }
    assert(all.take(i as int) =~= all);
    texts
}

/// Whole numbers of an array. Nothing stands for a value that is no such number.
pub open spec fn unsigned_of(items: Seq<JsonView>) -> Seq<Option<u64>> {
    items.map_values(|item: JsonView| unsigned_view(item))
}

/// Reads the whole numbers of an array.
pub fn read_unsigned(items: &Vec<serde_json::Value>) -> (numbers: Vec<Option<u64>>)
    ensures
        numbers@ == unsigned_of(items@.map_values(|item: serde_json::Value| json_view(item))),
{
    let mut numbers: Vec<Option<u64>> = Vec::new();
    let ghost all = unsigned_of(items@.map_values(|item: serde_json::Value| json_view(item)));
    let mut i: usize = 0;
    while i < items.len()
        invariant
            i <= items@.len(),
            all == unsigned_of(items@.map_values(|item: serde_json::Value| json_view(item))),
            all.len() == items@.len(),
            numbers@ == all.take(i as int),
        decreases items@.len() - i,
    {
        let number = as_unsigned(&items[i]);
        numbers.push(number);
        assert(all[i as int] == unsigned_view(json_view(items@[i as int])));
        i += 1;
        assert(numbers@ =~= all.take(i as int));
    }
    assert(all.take(i as int) =~= all);
    numbers
}

} // verus!
