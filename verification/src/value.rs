//! The typed values that extraction yields.

use crate::timestamp::{parsed_timestamp, Timestamp, EXIF_DATE_TIME_FORMAT};
use vstd::prelude::*;

verus! {

/// One extracted datum. Every extraction step yields one of the concrete
/// variants or `Nothing`.
#[derive(Clone, Debug, PartialEq, Eq)]
pub enum PropertyValue {
    /// Free text.
    Text(String),
    /// A filesystem path or a piece of one, in its platform string form.
    Path(String),
    /// A date and time without a time zone.
    Timestamp(Timestamp),
    /// A whole number.
    Integer(i64),
    /// A ratio, kept as read: numerator, then denominator.
    Fraction(i64, i64),
    /// A floating-point reading, held as its decimal text.
    Real(String),
    /// Explicit absence.
    Nothing,
}

/// The mathematical content of a `PropertyValue`.
pub ghost enum ValueModel {
    Text(Seq<char>),
    Path(Seq<char>),
    Timestamp(Timestamp),
    Integer(int),
    Fraction(int, int),
    Real(Seq<char>),
    Nothing,
}

impl View for PropertyValue {
    type V = ValueModel;

    open spec fn view(&self) -> ValueModel {
        match self {
            PropertyValue::Text(t) => ValueModel::Text(t@),
            PropertyValue::Path(p) => ValueModel::Path(p@),
            PropertyValue::Timestamp(at) => ValueModel::Timestamp(*at),
            PropertyValue::Integer(n) => ValueModel::Integer(*n as int),
            PropertyValue::Fraction(n, d) => ValueModel::Fraction(*n as int, *d as int),
            PropertyValue::Real(r) => ValueModel::Real(r@),
            PropertyValue::Nothing => ValueModel::Nothing,
        }
    }
}

/// A span of time since the Unix epoch, as a file's metadata gives it.
#[derive(Copy, Clone, PartialEq, Eq, Structural, Debug)]
pub struct SinceEpoch {
    pub secs: u64,
    pub nanos: u32,
}

/// What a text field that should hold a date-time becomes, given what
/// the parser made of it.
pub open spec fn date_time_or_text(word: Seq<char>, parsed: Option<Timestamp>) -> ValueModel {
    match parsed {
        Some(at) => ValueModel::Timestamp(at),
        None => ValueModel::Text(word),
    }
}

/// What a file time becomes: a timestamp where the calendar can hold
/// it, else nothing.
pub open spec fn file_time_value(from: Option<SinceEpoch>) -> ValueModel {
    match from {
        Some(span) => if span.secs <= i64::MAX && crate::timestamp::epoch_in_range(
            span.secs as i64,
            span.nanos,
        ) {
            ValueModel::Timestamp(Timestamp { secs: span.secs as i64, nanos: span.nanos })
        } else {
            ValueModel::Nothing
        },
        None => ValueModel::Nothing,
    }
}

impl PropertyValue {
    /// A copy of the value.
    pub fn duplicate(&self) -> (copy: PropertyValue)
        ensures
            copy@ == self@,
    {
        match self {
            PropertyValue::Text(t) => PropertyValue::Text(t.clone()),
            PropertyValue::Path(p) => PropertyValue::Path(p.clone()),
            PropertyValue::Timestamp(at) => PropertyValue::Timestamp(*at),
            PropertyValue::Integer(n) => PropertyValue::Integer(*n),
            PropertyValue::Fraction(n, d) => PropertyValue::Fraction(*n, *d),
            PropertyValue::Real(r) => PropertyValue::Real(r.clone()),
            PropertyValue::Nothing => PropertyValue::Nothing,
        }
    }

    /// Text where there is some, else `Nothing`.
    pub fn from_opt_str(from: Option<&str>) -> (value: PropertyValue)
        ensures
            value@ == match from {
                Some(word) => ValueModel::Text(word@),
                None => ValueModel::Nothing,
            },
    {
        match from {
            Some(word) => PropertyValue::Text(word.to_owned()),
            None => PropertyValue::Nothing,
        }
    }

    /// A timestamp where the text reads as `YYYY:MM:DD HH:MM:SS`, the
    /// text itself where it does not, `Nothing` where there is no text.
    pub fn from_opt_str_datetime(from: Option<&str>) -> (value: PropertyValue)
        ensures
            value@ == match from {
                Some(word) => date_time_or_text(
                    word@,
                    parsed_timestamp(word@, EXIF_DATE_TIME_FORMAT@),
                ),
                None => ValueModel::Nothing,
            },
    {
        match from {
            Some(word) => PropertyValue::from_parsed_datetime(word, Timestamp::parse_exif(word)),
            None => PropertyValue::Nothing,
        }
    }

    /// The value for a date-time text, given what the parser made of it:
    /// the timestamp on success, the text unchanged on failure.
    pub fn from_parsed_datetime(word: &str, parsed: Option<Timestamp>) -> (value: PropertyValue)
        ensures
            value@ == date_time_or_text(word@, parsed),
    {
        match parsed {
            Some(at) => PropertyValue::Timestamp(at),
            None => PropertyValue::Text(word.to_owned()),
        }
    }

    /// A path where there is one, else `Nothing`.
    pub fn from_opt_path(from: Option<&str>) -> (value: PropertyValue)
        ensures
            value@ == match from {
                Some(path) => ValueModel::Path(path@),
                None => ValueModel::Nothing,
            },
    {
        match from {
            Some(path) => PropertyValue::Path(path.to_owned()),
            None => PropertyValue::Nothing,
        }
    }

    /// A whole number where there is one, else `Nothing`.
    pub fn from_opt_integer(from: Option<i64>) -> (value: PropertyValue)
        ensures
            value@ == match from {
                Some(n) => ValueModel::Integer(n as int),
                None => ValueModel::Nothing,
            },
    {
        match from {
            Some(n) => PropertyValue::Integer(n),
            None => PropertyValue::Nothing,
        }
    }

    /// A floating-point reading, given as its decimal text, where there
    /// is one, else `Nothing`.
    pub fn from_opt_real(from: Option<&str>) -> (value: PropertyValue)
        ensures
            value@ == match from {
                Some(text) => ValueModel::Real(text@),
                None => ValueModel::Nothing,
            },
    {
        match from {
            Some(text) => PropertyValue::Real(text.to_owned()),
            None => PropertyValue::Nothing,
        }
    }

    /// A ratio, neither reduced nor divided, where there is one, else
    /// `Nothing`.
    pub fn from_opt_rational(from: Option<(i64, i64)>) -> (value: PropertyValue)
        ensures
            value@ == match from {
                Some(pair) => ValueModel::Fraction(pair.0 as int, pair.1 as int),
                None => ValueModel::Nothing,
            },
    {
        match from {
            Some(pair) => PropertyValue::Fraction(pair.0, pair.1),
            None => PropertyValue::Nothing,
        }
    }

    /// The timestamp of a file time. A time that is missing, or that the
    /// calendar cannot hold, gives `Nothing`.
    pub fn from_opt_filetime(from: Option<SinceEpoch>) -> (value: PropertyValue)
        ensures
            value@ == file_time_value(from),
    {
        match from {
            Some(span) => {
                if span.secs > 9223372036854775807u64 {
                    PropertyValue::Nothing
                } else {
                    match Timestamp::from_epoch(span.secs as i64, span.nanos) {
                        Some(at) => PropertyValue::Timestamp(at),
                        None => PropertyValue::Nothing,
                    }
                }
            },
            None => PropertyValue::Nothing,
        }
    }
}

} // verus!
