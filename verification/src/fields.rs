//! Decoded image metadata fields and the property values they become.

use crate::timestamp::{parsed_timestamp, EXIF_DATE_TIME_FORMAT};
use crate::value::{date_time_or_text, PropertyValue, ValueModel};
use vstd::prelude::*;
use vstd::utf8::{decode_utf8, valid_utf8};

verus! {

/// The group of tags that a tag number belongs to.
#[derive(Copy, Clone, PartialEq, Eq, Structural, Debug)]
pub enum TagContext {
    Tiff,
    Exif,
    Gps,
    Interop,
}

/// The number of the image-file-directory that holds the thumbnail.
pub const THUMBNAIL_IFD: u16 = 1;

/// The decoded value of one field, by its native kind. A kind that can
/// repeat holds all its elements. Floating-point elements are held as
/// their decimal texts, an undefined value as its display form.
#[derive(Clone, Debug, PartialEq, Eq)]
pub enum ExifValue {
    Byte(Vec<u8>),
    Ascii(Vec<Vec<u8>>),
    Short(Vec<u16>),
    Long(Vec<u32>),
    Rational(Vec<(u32, u32)>),
    SByte(Vec<i8>),
    Undefined(String),
    SShort(Vec<i16>),
    SLong(Vec<i32>),
    SRational(Vec<(i32, i32)>),
    Float(Vec<String>),
    Double(Vec<String>),
    Unknown,
}

/// One decoded field: the tag's name, its group and number, the
/// image-file-directory it was found in, and its value.
#[derive(Clone, Debug, PartialEq, Eq)]
pub struct ExifField {
    pub name: String,
    pub context: TagContext,
    pub number: u16,
    pub ifd: u16,
    pub value: ExifValue,
}

/// Whether a tag is one of the three standard date-time tags: the time
/// the file was changed, the time the picture was taken, the time it
/// was digitised.
pub open spec fn is_date_time_tag(context: TagContext, number: u16) -> bool {
    (context == TagContext::Tiff && number == 0x132) || (context == TagContext::Exif && (number
        == 0x9003 || number == 0x9004))
}

/// What a text element becomes: nothing where its bytes are not valid
/// UTF-8; a timestamp where the tag is a date-time tag and the text
/// reads as one; else the text.
pub open spec fn ascii_value(bytes: Seq<u8>, date_time: bool) -> ValueModel {
    if !valid_utf8(bytes) {
        ValueModel::Nothing
    } else if date_time {
        date_time_or_text(
            decode_utf8(bytes),
            parsed_timestamp(decode_utf8(bytes), EXIF_DATE_TIME_FORMAT@),
        )
    } else {
        ValueModel::Text(decode_utf8(bytes))
    }
}

/// The property value of a field. Of a value with several elements the
/// first counts and the rest is dropped; one with none gives `Nothing`.
pub open spec fn field_value(field: &ExifField) -> ValueModel {
    match field.value {
        ExifValue::Byte(v) => if v@.len() > 0 {
            ValueModel::Integer(v@[0] as int)
        } else {
            ValueModel::Nothing
        },
        ExifValue::Ascii(v) => if v@.len() > 0 {
            ascii_value(v@[0]@, is_date_time_tag(field.context, field.number))
        } else {
            ValueModel::Nothing
        },
        ExifValue::Short(v) => if v@.len() > 0 {
            ValueModel::Integer(v@[0] as int)
        } else {
            ValueModel::Nothing
        },
        ExifValue::Long(v) => if v@.len() > 0 {
            ValueModel::Integer(v@[0] as int)
        } else {
            ValueModel::Nothing
        },
        ExifValue::Rational(v) => if v@.len() > 0 {
            ValueModel::Fraction(v@[0].0 as int, v@[0].1 as int)
        } else {
            ValueModel::Nothing
        },
        ExifValue::SByte(v) => if v@.len() > 0 {
            ValueModel::Integer(v@[0] as int)
        } else {
            ValueModel::Nothing
        },
        ExifValue::Undefined(shown) => ValueModel::Text(shown@),
        ExifValue::SShort(v) => if v@.len() > 0 {
            ValueModel::Integer(v@[0] as int)
        } else {
            ValueModel::Nothing
        },
        ExifValue::SLong(v) => if v@.len() > 0 {
            ValueModel::Integer(v@[0] as int)
        } else {
            ValueModel::Nothing
        },
        ExifValue::SRational(v) => if v@.len() > 0 {
            ValueModel::Fraction(v@[0].0 as int, v@[0].1 as int)
        } else {
            ValueModel::Nothing
        },
        ExifValue::Float(v) => if v@.len() > 0 {
            ValueModel::Real(v@[0]@)
        } else {
            ValueModel::Nothing
        },
        ExifValue::Double(v) => if v@.len() > 0 {
            ValueModel::Real(v@[0]@)
        } else {
            ValueModel::Nothing
        },
        ExifValue::Unknown => ValueModel::Nothing,
    }
}

/// The key of a field before sanitising: the tag's name, with `Tn` in
/// front where the field belongs to the thumbnail.
pub open spec fn raw_key(field: &ExifField) -> Seq<char> {
    if field.ifd == THUMBNAIL_IFD {
        "Tn"@ + field.name@
    } else {
        field.name@
    }
}

/// Calls `std::str::from_utf8`. Trusted: it accepts exactly the valid
/// UTF-8 encodings and yields the characters they encode.
#[verifier::external_body]
fn text_of_bytes(bytes: &[u8]) -> (text: Option<String>)
    ensures
        match text {
            Some(t) => valid_utf8(bytes@) && t@ == decode_utf8(bytes@),
            None => !valid_utf8(bytes@),
        },
{
    std::str::from_utf8(bytes).ok().map(String::from)
}

impl ExifField {
    /// Whether the field's tag is one of the three date-time tags.
    pub fn is_date_time(&self) -> (yes: bool)
        ensures
            yes == is_date_time_tag(self.context, self.number),
    {
        (self.context == TagContext::Tiff && self.number == 0x132) || (self.context
            == TagContext::Exif && (self.number == 0x9003 || self.number == 0x9004))
    }

    /// The property value of the field.
    pub fn property_value(&self) -> (value: PropertyValue)
        ensures
            value@ == field_value(self),
    {
        match &self.value {
            ExifValue::Byte(v) => if v.len() > 0 {
                PropertyValue::from_opt_integer(Some(v[0] as i64))
            } else {
                PropertyValue::from_opt_integer(None)
            },
            ExifValue::Ascii(v) => if v.len() > 0 {
                match text_of_bytes(v[0].as_slice()) {
                    Some(word) => if self.is_date_time() {
                        PropertyValue::from_opt_str_datetime(Some(word.as_str()))
                    } else {
                        PropertyValue::from_opt_str(Some(word.as_str()))
                    },
                    None => PropertyValue::from_opt_str(None),
                }
            } else {
                PropertyValue::from_opt_str(None)
            },
            ExifValue::Short(v) => if v.len() > 0 {
                PropertyValue::from_opt_integer(Some(v[0] as i64))
            } else {
                PropertyValue::from_opt_integer(None)
            },
            ExifValue::Long(v) => if v.len() > 0 {
                PropertyValue::from_opt_integer(Some(v[0] as i64))
            } else {
                PropertyValue::from_opt_integer(None)
            },
            ExifValue::Rational(v) => if v.len() > 0 {
                PropertyValue::from_opt_rational(Some((v[0].0 as i64, v[0].1 as i64)))
            } else {
                PropertyValue::from_opt_rational(None)
            },
            ExifValue::SByte(v) => if v.len() > 0 {
                PropertyValue::from_opt_integer(Some(v[0] as i64))
            } else {
                PropertyValue::from_opt_integer(None)
            },
            ExifValue::Undefined(shown) => PropertyValue::Text(shown.clone()),
            ExifValue::SShort(v) => if v.len() > 0 {
                PropertyValue::from_opt_integer(Some(v[0] as i64))
            } else {
                PropertyValue::from_opt_integer(None)
            },
            ExifValue::SLong(v) => if v.len() > 0 {
                PropertyValue::from_opt_integer(Some(v[0] as i64))
            } else {
                PropertyValue::from_opt_integer(None)
            },
            ExifValue::SRational(v) => if v.len() > 0 {
                PropertyValue::from_opt_rational(Some((v[0].0 as i64, v[0].1 as i64)))
            } else {
                PropertyValue::from_opt_rational(None)
            },
            ExifValue::Float(v) => if v.len() > 0 {
                PropertyValue::from_opt_real(Some(v[0].as_str()))
            } else {
                PropertyValue::from_opt_real(None)
            },
            ExifValue::Double(v) => if v.len() > 0 {
                PropertyValue::from_opt_real(Some(v[0].as_str()))
            } else {
                PropertyValue::from_opt_real(None)
            },
            ExifValue::Unknown => PropertyValue::Nothing,
        }
    }
}

} // verus!
