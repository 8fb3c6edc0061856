//! The normalized outcome of a solve operation: text, a number, or nothing.

use vstd::prelude::*;

use crate::decimal::{i64_to_string, spec_i64_string};

verus! {

/// The mathematical value of an outcome.
pub enum OutcomeView {
    Text(Seq<char>),
    Number(int),
    Missing,
}

/// An outcome value a solver returns: text, a 64-bit integer, or absent when
/// a part is not implemented.
#[derive(Debug)]
pub enum AocOption {
    /// A text result.
    Str(String),
    /// A numeric result.
    Int(i64),
    /// No result: the solver does not implement this part.
    Absent,
}

impl View for AocOption {
    type V = OutcomeView;

    open spec fn view(&self) -> OutcomeView {
        match self {
            AocOption::Str(s) => OutcomeView::Text(s@),
            AocOption::Int(n) => OutcomeView::Number(*n as int),
            AocOption::Absent => OutcomeView::Missing,
        }
    }
}

/// How an outcome is shown: its text, its decimal rendering, or `None`.
pub open spec fn spec_outcome_display(v: OutcomeView) -> Seq<char> {
    match v {
        OutcomeView::Text(t) => t,
        OutcomeView::Number(n) => spec_i64_string(n),
        OutcomeView::Missing => "None"@,
    }
}

impl AocOption {
    /// An independent outcome with the same value.
    pub fn duplicate(&self) -> (r: AocOption)
        ensures
            r@ == self@,
    {
        match self {
            AocOption::Str(s) => AocOption::Str(s.clone()),
            AocOption::Int(n) => AocOption::Int(*n),
            AocOption::Absent => AocOption::Absent,
        }
    }

    /// The display text of the outcome.
    pub fn to_display_string(&self) -> (r: String)
        ensures
            r@ == spec_outcome_display(self@),
    {
        match self {
            AocOption::Str(s) => s.clone(),
            AocOption::Int(n) => i64_to_string(*n),
            AocOption::Absent => String::from_str("None"),
        }
    }

    /// Whether the outcome is absent.
    pub fn is_absent(&self) -> (r: bool)
        ensures
            r == (self@ is Missing),
    {
        match self {
            AocOption::Absent => true,
            _ => false,
        }
    }
}

impl From<String> for AocOption {
    fn from(value: String) -> (r: AocOption) {
        AocOption::Str(value)
    }
}

impl vstd::std_specs::convert::FromSpecImpl<String> for AocOption {
    open spec fn obeys_from_spec() -> bool {
        true
    }

    open spec fn from_spec(value: String) -> AocOption {
        AocOption::Str(value)
    }
}

impl From<i64> for AocOption {
    fn from(value: i64) -> (r: AocOption) {
        AocOption::Int(value)
    }
}

impl vstd::std_specs::convert::FromSpecImpl<i64> for AocOption {
    open spec fn obeys_from_spec() -> bool {
        true
    }

    open spec fn from_spec(value: i64) -> AocOption {
        AocOption::Int(value)
    }
}

impl From<i32> for AocOption {
    fn from(value: i32) -> (r: AocOption) {
        AocOption::Int(value as i64)
    }
}

impl vstd::std_specs::convert::FromSpecImpl<i32> for AocOption {
    open spec fn obeys_from_spec() -> bool {
        true
    }

    open spec fn from_spec(value: i32) -> AocOption {
        AocOption::Int(value as i64)
    }
}

impl From<u32> for AocOption {
    fn from(value: u32) -> (r: AocOption) {
        AocOption::Int(value as i64)
    }
}

impl vstd::std_specs::convert::FromSpecImpl<u32> for AocOption {
    open spec fn obeys_from_spec() -> bool {
        true
    }

    open spec fn from_spec(value: u32) -> AocOption {
        AocOption::Int(value as i64)
    }
}

impl From<u8> for AocOption {
    fn from(value: u8) -> (r: AocOption) {
        AocOption::Int(value as i64)
    }
}

impl vstd::std_specs::convert::FromSpecImpl<u8> for AocOption {
    open spec fn obeys_from_spec() -> bool {
        true
    }

    open spec fn from_spec(value: u8) -> AocOption {
        AocOption::Int(value as i64)
    }
}

impl From<u16> for AocOption {
    fn from(value: u16) -> (r: AocOption) {
        AocOption::Int(value as i64)
    }
}

impl vstd::std_specs::convert::FromSpecImpl<u16> for AocOption {
    open spec fn obeys_from_spec() -> bool {
        true
    }

    open spec fn from_spec(value: u16) -> AocOption {
        AocOption::Int(value as i64)
    }
}

impl From<i8> for AocOption {
    fn from(value: i8) -> (r: AocOption) {
        AocOption::Int(value as i64)
    }
}

impl vstd::std_specs::convert::FromSpecImpl<i8> for AocOption {
    open spec fn obeys_from_spec() -> bool {
        true
    }

    open spec fn from_spec(value: i8) -> AocOption {
        AocOption::Int(value as i64)
    }
}

impl From<i16> for AocOption {
    fn from(value: i16) -> (r: AocOption) {
        AocOption::Int(value as i64)
    }
}

impl vstd::std_specs::convert::FromSpecImpl<i16> for AocOption {
    open spec fn obeys_from_spec() -> bool {
        true
    }

    open spec fn from_spec(value: i16) -> AocOption {
        AocOption::Int(value as i64)
    }
}

impl From<isize> for AocOption {
    fn from(value: isize) -> (r: AocOption) {
        AocOption::Int(value as i64)
    }
}

impl vstd::std_specs::convert::FromSpecImpl<isize> for AocOption {
    open spec fn obeys_from_spec() -> bool {
        true
    }

    open spec fn from_spec(value: isize) -> AocOption {
        AocOption::Int(value as i64)
    }
}

impl From<usize> for AocOption {
    /// A number above the signed range wraps, as a plain cast does.
    fn from(value: usize) -> (r: AocOption) {
        AocOption::Int(#[verifier::truncate] (value as i64))
    }
}

impl vstd::std_specs::convert::FromSpecImpl<usize> for AocOption {
    open spec fn obeys_from_spec() -> bool {
        true
    }

    open spec fn from_spec(value: usize) -> AocOption {
        AocOption::Int(#[verifier::truncate] (value as i64))
    }
}

impl<T: Into<AocOption>> From<Option<T>> for AocOption {
    /// An optional source converts to its value's outcome, or to the absent
    /// outcome.
    fn from(value: Option<T>) -> (r: AocOption)
        ensures
            value is None ==> r@ == OutcomeView::Missing,
    {
        match value {
            Some(inner) => inner.into(),
            None => AocOption::Absent,
        }
    }
}

impl<T: Into<AocOption>> vstd::std_specs::convert::FromSpecImpl<Option<T>> for AocOption {
    /// What a generic source converts to is its own impl's business, so
    /// nothing is claimed through `from_spec`; the `From` impl carries the
    /// absent case itself.
    open spec fn obeys_from_spec() -> bool {
        false
    }

    open spec fn from_spec(value: Option<T>) -> AocOption {
        arbitrary()
    }
}

impl TryFrom<u64> for AocOption {
    type Error = core::num::TryFromIntError;

    /// Succeeds exactly when the value fits the signed outcome type.
    fn try_from(value: u64) -> (r: Result<AocOption, core::num::TryFromIntError>)
        ensures
            value <= i64::MAX ==> (r matches Ok(o) && o@ == OutcomeView::Number(value as int)),
            value > i64::MAX ==> r is Err,
    {
        match i64::try_from(value as i128) {
            Ok(n) => Ok(AocOption::Int(n)),
            Err(e) => Err(e),
        }
    }
}

impl vstd::std_specs::convert::TryFromSpecImpl<u64> for AocOption {
    /// The error value is the integer conversion's own and not spec-level
    /// constructible, so the `TryFrom` impl carries its contract itself.
    open spec fn obeys_try_from_spec() -> bool {
        false
    }

    open spec fn try_from_spec(value: u64) -> Result<AocOption, core::num::TryFromIntError> {
        arbitrary()
    }
}

impl TryFrom<i128> for AocOption {
    type Error = core::num::TryFromIntError;

    /// Succeeds exactly when the value fits the signed outcome type.
    fn try_from(value: i128) -> (r: Result<AocOption, core::num::TryFromIntError>)
        ensures
            i64::MIN <= value <= i64::MAX ==> (r matches Ok(o) && o@ == OutcomeView::Number(
                value as int,
            )),
            !(i64::MIN <= value <= i64::MAX) ==> r is Err,
    {
        match i64::try_from(value) {
            Ok(n) => Ok(AocOption::Int(n)),
            Err(e) => Err(e),
        }
    }
}

impl vstd::std_specs::convert::TryFromSpecImpl<i128> for AocOption {
    open spec fn obeys_try_from_spec() -> bool {
        false
    }

    open spec fn try_from_spec(value: i128) -> Result<AocOption, core::num::TryFromIntError> {
        arbitrary()
    }
}

impl TryFrom<u128> for AocOption {
    type Error = core::num::TryFromIntError;

    /// Succeeds exactly when the value fits the signed outcome type.
    fn try_from(value: u128) -> (r: Result<AocOption, core::num::TryFromIntError>)
        ensures
            value <= i64::MAX ==> (r matches Ok(o) && o@ == OutcomeView::Number(value as int)),
            value > i64::MAX ==> r is Err,
    {
        match i64::try_from(value) {
            Ok(n) => Ok(AocOption::Int(n)),
            Err(e) => Err(e),
        }
    }
}

impl vstd::std_specs::convert::TryFromSpecImpl<u128> for AocOption {
    open spec fn obeys_try_from_spec() -> bool {
        false
    }

    open spec fn try_from_spec(value: u128) -> Result<AocOption, core::num::TryFromIntError> {
        arbitrary()
    }
}

impl From<&str> for AocOption {
    fn from(value: &str) -> (r: AocOption)
        ensures
            r@ == OutcomeView::Text(value@),
    {
        AocOption::Str(value.to_owned())
    }
}

impl vstd::std_specs::convert::FromSpecImpl<&str> for AocOption {
    /// An owned copy of borrowed text is not a spec-level function of the
    /// borrow, so nothing is claimed through `from_spec`; the `From` impl
    /// carries its own view-level contract instead.
    open spec fn obeys_from_spec() -> bool {
        false
    }

    open spec fn from_spec(value: &str) -> AocOption {
        arbitrary()
    }
}

} // verus!
