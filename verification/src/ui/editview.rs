//! The screens that edit one number: the text typed in, and the check that
//! it is a number in range.

use vstd::prelude::*;
use vstd::utf8::encode_utf8;
use crate::game_version::{lemma_decimal_parses_back, parse_i32, spec_parse_i32, IntErrorKind};
use crate::text::signed_decimal;
use crate::text::str_bytes;

verus! {

/// Why a typed value was refused.
#[derive(Debug, Clone, Copy, PartialEq, Eq, Structural)]
pub enum BasicItemError {
    /// It is not an `i32`.
    InvalidInt(IntErrorKind),
    /// It is above the largest value allowed, which is given.
    TooLarge(i32),
    /// It is below the smallest value allowed, which is given.
    TooSmall(i32),
}

/// A screen that edits one number of a save.
#[derive(Debug, Clone, Default)]
pub struct BasicItemView<T> {
    pub item: T,
    pub current_value: String,
}

/// What the typed text gives: the number, where it is one between `min` and
/// `max`; a number below `min` is refused before one above `max`.
pub open spec fn typed_value(text: Seq<char>, max: i32, min: i32) -> Result<i32, BasicItemError> {
    match spec_parse_i32(encode_utf8(text)) {
        Err(k) => Err(BasicItemError::InvalidInt(k)),
        Ok(v) => if v < min {
            Err(BasicItemError::TooSmall(min))
        } else if v > max {
            Err(BasicItemError::TooLarge(max))
        } else {
            Ok(v)
        },
    }
}

/// The decimal text of a value in range, as a screen shows it, is read back
/// as that value.
pub proof fn lemma_shown_value_reads_back(v: i32, max: i32, min: i32)
    requires
        min <= v <= max,
    ensures
        typed_value(signed_decimal(v as int), max, min) == Ok::<i32, BasicItemError>(v),
{
    lemma_decimal_parses_back(v);
}

impl<T> BasicItemView<T> {
    /// The number typed in, checked against the bounds.
    pub fn get_value(&self, max: i32, min: i32) -> (res: Result<i32, BasicItemError>)
        ensures
            res == typed_value(self.current_value@, max, min),
    {
        let val = match parse_i32(str_bytes(self.current_value.as_str())) {
            Ok(v) => v,
            Err(k) => {
                return Err(BasicItemError::InvalidInt(k));
            },
        };
        if val < min {
            return Err(BasicItemError::TooSmall(min));
        }
        if val > max {
            return Err(BasicItemError::TooLarge(max));
        }
        Ok(val)
    }
}

/// What the user does on such a screen.
#[derive(Debug, Clone)]
pub enum BasicItemMessage {
    Submit,
    TextInput(String),
    Max,
}

/// The numbers such screens edit.
#[derive(Debug, Copy, Clone, PartialEq, Eq, Structural)]
pub enum BasicItemFeature {
    Catfood,
    Xp,
}

/// The label of a feature.
pub open spec fn feature_label(f: BasicItemFeature) -> Seq<char> {
    match f {
        BasicItemFeature::Catfood => "Catfood"@,
        BasicItemFeature::Xp => "XP"@,
    }
}

impl BasicItemFeature {
    pub fn to_string(&self) -> (s: String)
        ensures
            s@ == feature_label(*self),
    {
        match self {
            BasicItemFeature::Catfood => "Catfood".to_owned(),
            BasicItemFeature::Xp => "XP".to_owned(),
        }
    }
}

} // verus!
