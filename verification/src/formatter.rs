//! Turning property values into text that is safe to put in a file name.

use crate::pattern::{regex_is_valid, regex_replace_all, Pattern, PatternError};
use crate::text::{decimal_int, i64_to_decimal};
use crate::timestamp::formatted_date_time;
use crate::value::{PropertyValue, ValueModel};
use vstd::prelude::*;
use vstd::string::StringExecFns;

verus! {

/// The pattern whose matches are struck from property keys: every run
/// of characters that are not word characters.
pub open spec fn key_pattern() -> Seq<char> {
    "\\W+"@
}

/// The text of a value before sanitising, given the text of its
/// timestamp where it is one and could be written.
pub open spec fn formatted_with(value: ValueModel, stamp: Option<Seq<char>>) -> Seq<char> {
    match value {
        ValueModel::Text(t) => t,
        ValueModel::Path(p) => p,
        ValueModel::Timestamp(_) => match stamp {
            Some(t) => t,
            None => Seq::<char>::empty(),
        },
        ValueModel::Integer(n) => decimal_int(n),
        ValueModel::Fraction(n, d) => decimal_int(n) + seq!['_'] + decimal_int(d),
        ValueModel::Real(r) => r,
        ValueModel::Nothing => Seq::<char>::empty(),
    }
}

/// The text of a value before sanitising, under a date-time pattern.
pub open spec fn formatted(value: ValueModel, date_time_format: Seq<char>) -> Seq<char> {
    formatted_with(
        value,
        match value {
            ValueModel::Timestamp(at) => formatted_date_time(at.secs, at.nanos, date_time_format),
            _ => None,
        },
    )
}

/// Formats property values and sanitises keys and values.
pub struct ExifAttrFormatter {
    date_time_format: String,
    sanitize_key_pattern: Pattern,
    sanitize_value_pattern: Pattern,
    sanitize_replacement: String,
}

impl ExifAttrFormatter {
    /// The strftime pattern under which timestamps are written.
    pub closed spec fn date_time_format(&self) -> Seq<char> {
        self.date_time_format@
    }

    /// The pattern whose matches are replaced in values.
    pub closed spec fn value_pattern(&self) -> Seq<char> {
        self.sanitize_value_pattern@
    }

    /// What each match in a value is replaced by.
    pub closed spec fn replacement(&self) -> Seq<char> {
        self.sanitize_replacement@
    }

    /// The key sanitiser is always the fixed one.
    #[verifier::type_invariant]
    spec fn key_pattern_is_fixed(self) -> bool {
        self.sanitize_key_pattern@ == key_pattern()
    }

    /// A value with every match of the value pattern replaced.
    pub open spec fn sanitized_value(&self, value: Seq<char>) -> Seq<char> {
        regex_replace_all(self.value_pattern(), value, self.replacement())
    }

    /// A key with every run of non-word characters struck out.
    pub open spec fn sanitized_key(key: Seq<char>) -> Seq<char> {
        regex_replace_all(key_pattern(), key, Seq::<char>::empty())
    }

    /// The text under which a value enters a file name: paths as they
    /// are, everything else formatted and then sanitised.
    pub open spec fn as_string_spec(&self, value: ValueModel) -> Seq<char> {
        match value {
            ValueModel::Path(p) => p,
            _ => self.sanitized_value(formatted(value, self.date_time_format())),
        }
    }

    /// A formatter for the given date-time pattern, value pattern and
    /// replacement. Fails exactly where the key pattern or the value
    /// pattern does not compile, naming the first of the two that does
    /// not.
    pub fn new(date_time_format: String, sanitize_pattern: &str, sanitize_replacement: String) -> (made:
        Result<ExifAttrFormatter, PatternError>)
        ensures
            made.is_ok() == (regex_is_valid(key_pattern()) && regex_is_valid(sanitize_pattern@)),
            made matches Ok(f) ==> {
                &&& f.date_time_format() == date_time_format@
                &&& f.value_pattern() == sanitize_pattern@
                &&& f.replacement() == sanitize_replacement@
            },
            made matches Err(e) ==> e.pattern@ == if regex_is_valid(key_pattern()) {
                sanitize_pattern@
            } else {
                key_pattern()
            },
    {
        let sanitize_key_pattern = match Pattern::new("\\W+") {
            Ok(p) => p,
            Err(e) => {
                return Err(e);
            },
        };
        let sanitize_value_pattern = match Pattern::new(sanitize_pattern) {
            Ok(p) => p,
            Err(e) => {
                return Err(e);
            },
        };
        Ok(
            ExifAttrFormatter {
                date_time_format,
                sanitize_key_pattern,
                sanitize_value_pattern,
                sanitize_replacement,
            },
        )
    }

    /// The text of a value before sanitising, given the text of its
    /// timestamp where it is one and could be written.
    pub fn fmt_with(value: &PropertyValue, stamp: Option<String>) -> (out: String)
        ensures
            out@ == formatted_with(
                value@,
                match stamp {
                    Some(t) => Some(t@),
                    None => None,
                },
            ),
    {
        match value {
            PropertyValue::Text(text) => text.clone(),
            PropertyValue::Path(path) => path.clone(),
            PropertyValue::Timestamp(_) => match stamp {
                Some(t) => t,
                None => String::new(),
            },
            PropertyValue::Integer(n) => i64_to_decimal(*n),
            PropertyValue::Fraction(num, den) => {
                proof {
                    reveal_strlit("_");
                    assert("_"@ =~= seq!['_']);
                }
                let tail = i64_to_decimal(*den);
                i64_to_decimal(*num).concat("_").concat(tail.as_str())
            },
            PropertyValue::Real(text) => text.clone(),
            PropertyValue::Nothing => String::new(),
        }
    }

    /// The text of a value before sanitising. A timestamp that cannot be
    /// written under the date-time pattern gives the empty text.
    pub fn fmt(&self, value: &PropertyValue) -> (out: String)
        ensures
            out@ == formatted(value@, self.date_time_format()),
    {
        let stamp = match value {
            PropertyValue::Timestamp(at) => at.format(self.date_time_format.as_str()),
            _ => None,
        };
        ExifAttrFormatter::fmt_with(value, stamp)
    }

    /// Replaces every match of the value pattern in `value`.
    pub fn sanitize_value(&self, value: &String) -> (out: String)
        ensures
            out@ == self.sanitized_value(value@),
    {
        self.sanitize_value_pattern.replace_all(value.as_str(), self.sanitize_replacement.as_str())
    }

    /// Strikes every run of non-word characters out of `key`.
    pub fn sanitize_key(&self, key: &String) -> (out: String)
        ensures
            out@ == Self::sanitized_key(key@),
    {
        proof {
            use_type_invariant(self);
            reveal_strlit("");
            assert(""@ =~= Seq::<char>::empty());
        }
        self.sanitize_key_pattern.replace_all(key.as_str(), "")
    }

    /// The text under which a value enters a file name. Paths are left
    /// as they are, since they stand for real path segments; every
    /// other value is formatted and then sanitised.
    pub fn as_string(&self, value: &PropertyValue) -> (out: String)
        ensures
            out@ == self.as_string_spec(value@),
    {
        let value_as_string = self.fmt(value);
        match value {
            PropertyValue::Path(_) => value_as_string,
            _ => self.sanitize_value(&value_as_string),
        }
    }
}

} // verus!
