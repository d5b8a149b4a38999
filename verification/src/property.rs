//! The value of an X11 window property, from its type, its format and its
//! bytes.

use vstd::prelude::*;
use vstd::string::StringExecFns;
use vstd::utf8::{decode_utf8, valid_utf8};
use crate::number::{decimal_digits, decimal_text};
use crate::text::{append_text, same_text};
use crate::x11::{to_u32s, words};

verus! {

/// How the bytes of a property are read.
#[derive(Clone, Copy, Debug, PartialEq, Eq, Structural)]
pub enum PropertyKind {
    /// As UTF-8 text.
    Text,
    /// As 32-bit numbers that name atoms.
    Atoms,
    /// As 32-bit numbers.
    Numbers,
    /// As bytes.
    Bytes,
}

/// How a property of the type `property_type` and the format `format` is read:
/// `STRING` and `UTF8_STRING` as text, `ATOM` as atoms, `CARDINAL` of the
/// format 32 and `WINDOW` as numbers, and any other as bytes.
pub open spec fn kind_of(property_type: Seq<char>, format: u8) -> PropertyKind {
    if property_type == "UTF8_STRING"@ || property_type == "STRING"@ {
        PropertyKind::Text
    } else if property_type == "ATOM"@ {
        PropertyKind::Atoms
    } else if (property_type == "CARDINAL"@ && format == 32) || property_type == "WINDOW"@ {
        PropertyKind::Numbers
    } else {
        PropertyKind::Bytes
    }
}

/// How a property of the type `property_type` and the format `format` is read.
pub fn property_kind(property_type: &str, format: u8) -> (kind: PropertyKind)
    ensures
        kind == kind_of(property_type@, format),
{
    if same_text(property_type, "UTF8_STRING") || same_text(property_type, "STRING") {
        PropertyKind::Text
    } else if same_text(property_type, "ATOM") {
        PropertyKind::Atoms
    } else if (same_text(property_type, "CARDINAL") && format == 32) || same_text(property_type, "WINDOW") {
        PropertyKind::Numbers
    } else {
        PropertyKind::Bytes
    }
}

/// The label of a property's type: `{type}/{format}`.
pub open spec fn type_label(property_type: Seq<char>, format: u8) -> Seq<char> {
    property_type + "/"@ + decimal_digits(format as nat)
}

/// The label of a property's type.
pub fn property_label(property_type: &str, format: u8) -> (label: String)
    ensures
        label@ == type_label(property_type@, format),
{
    let mut label = append_text(property_type, "/");
    label.append(decimal_text(format).as_str());
    label
}

/// Whether a property holds the id of the process that owns the window: the
/// cardinal `_NET_WM_PID` of the format 32.
pub fn is_pid_property(name: &str, property_type: &str, format: u8) -> (is_pid: bool)
    ensures
        is_pid == (name@ == "_NET_WM_PID"@ && property_type@ == "CARDINAL"@ && format == 32),
{
    same_text(name, "_NET_WM_PID") && same_text(property_type, "CARDINAL") && format == 32
}

/// The lowercase hexadecimal digit for `n`, a number below sixteen.
pub open spec fn hex_digit(n: int) -> char {
    "0123456789abcdef"@[n]
}

/// The bytes as lowercase hexadecimal digits, two for each byte, the high
/// half first.
pub open spec fn hex_text(bytes: Seq<u8>) -> Seq<char> {
    Seq::new(
        2 * bytes.len(),
        |i: int|
            if i % 2 == 0 {
                hex_digit(bytes[i / 2] as int / 16)
            } else {
                hex_digit(bytes[i / 2] as int % 16)
            },
    )
}

/// `hex::encode`: the bytes as lowercase hexadecimal digits, two for each
/// byte.
#[verifier::external_body]
fn hex_of(bytes: &Vec<u8>) -> (text: String)
    ensures
        text@ == hex_text(bytes@),
{
    hex::encode(bytes)
}

/// `String::from_utf8`: the text that the bytes encode, where they are valid
/// UTF-8.
#[verifier::external_body]
fn text_of(bytes: Vec<u8>) -> (text: Option<String>)
    ensures
        match text {
            Some(text) => valid_utf8(bytes@) && text@ == decode_utf8(bytes@),
            None => !valid_utf8(bytes@),
        },
{
    String::from_utf8(bytes).ok()
}

/// The value of a property as its bytes give it. The atoms of an `ATOM`
/// property are numbers still: their names are the server's to give.
#[derive(Clone, Debug, PartialEq, Eq)]
pub enum RawValue {
    Text(String),
    Atoms(Vec<u32>),
    Numbers(Vec<u32>),
    Bytes(String),
}

/// Why the bytes of a property could not be read.
#[derive(Clone, Copy, Debug, PartialEq, Eq, Structural)]
pub enum DecodeError {
    /// A text property whose bytes are not valid UTF-8.
    NotUtf8,
    /// A property of 32-bit numbers whose format is not 32, or whose length
    /// is no multiple of four.
    NotWords,
}

/// Whether bytes of the format `format` are a list of 32-bit numbers.
pub open spec fn are_words(format: u8, value: Seq<u8>) -> bool {
    format == 32 && value.len() % 4 == 0
}

/// What the bytes `value` of a property of the type `property_type` and the
/// format `format` come to.
pub open spec fn decoded(property_type: Seq<char>, format: u8, value: Seq<u8>) -> Result<
    RawView,
    DecodeError,
> {
    match kind_of(property_type, format) {
        PropertyKind::Text => if valid_utf8(value) {
            Ok(RawView::Text(decode_utf8(value)))
        } else {
            Err(DecodeError::NotUtf8)
        },
        PropertyKind::Atoms => if are_words(format, value) {
            Ok(RawView::Atoms(words(value)))
        } else {
            Err(DecodeError::NotWords)
        },
        PropertyKind::Numbers => if are_words(format, value) {
            Ok(RawView::Numbers(words(value)))
        } else {
            Err(DecodeError::NotWords)
        },
        PropertyKind::Bytes => Ok(RawView::Bytes(hex_text(value))),
    }
}

/// The mathematical value of a `RawValue`.
pub enum RawView {
    Text(Seq<char>),
    Atoms(Seq<u32>),
    Numbers(Seq<u32>),
    Bytes(Seq<char>),
}

impl View for RawValue {
    type V = RawView;

    open spec fn view(&self) -> RawView {
        match self {
            RawValue::Text(text) => RawView::Text(text@),
            RawValue::Atoms(atoms) => RawView::Atoms(atoms@),
            RawValue::Numbers(numbers) => RawView::Numbers(numbers@),
            RawValue::Bytes(hex) => RawView::Bytes(hex@),
        }
    }
}

/// Reads the bytes of a property as its type and format say.
pub fn decode_property(property_type: &str, format: u8, value: Vec<u8>) -> (result: Result<
    RawValue,
    DecodeError,
>)
    ensures
        match result {
            Ok(raw) => decoded(property_type@, format, value@) == Ok::<_, DecodeError>(raw@),
            Err(e) => decoded(property_type@, format, value@) == Err::<RawView, _>(e),
        },
{
    match property_kind(property_type, format) {
        PropertyKind::Text => match text_of(value) {
            Some(text) => Ok(RawValue::Text(text)),
            None => Err(DecodeError::NotUtf8),
        },
        PropertyKind::Atoms => {
            if format == 32 && value.len() % 4 == 0 {
                Ok(RawValue::Atoms(to_u32s(&value)))
            } else {
                Err(DecodeError::NotWords)
            }
        },
        PropertyKind::Numbers => {
            if format == 32 && value.len() % 4 == 0 {
                Ok(RawValue::Numbers(to_u32s(&value)))
            } else {
                Err(DecodeError::NotWords)
            }
        },
        PropertyKind::Bytes => Ok(RawValue::Bytes(hex_of(&value))),
    }
}

} // verus!
