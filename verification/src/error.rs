//! Error model: budget violations and argument validation failures.
use vstd::prelude::*;
use crate::i18n::{
    Locale, complexity_message, complexity_text, depth_message, depth_text, validation_message,
    validation_text,
};

verus! {

/// Primary error type of the library.
#[derive(Debug, Clone, PartialEq, Eq)]
pub enum MoongqlError {
    /// The query's complexity score exceeded the allowed budget.
    ComplexityExceeded {
        /// Calculated complexity score.
        calculated: u32,
        /// Maximum complexity allowed.
        limit: u32,
    },
    /// The query's nesting depth exceeded the allowed ceiling.
    DepthExceeded {
        /// Calculated nesting depth.
        calculated: u32,
        /// Maximum depth allowed.
        limit: u32,
    },
    /// An argument violated one of its declared validation rules; holds the detail message.
    ValidationError(String),
}

/// `Result` specialised to [`MoongqlError`].
pub type MoongqlResult<T> = core::result::Result<T, MoongqlError>;

impl MoongqlError {
    /// The human-readable description of the error in locale `l`.
    pub open spec fn text(&self, l: Locale) -> Seq<char> {
        match self {
            MoongqlError::ComplexityExceeded { calculated, limit } => complexity_text(l, *calculated, *limit),
            MoongqlError::DepthExceeded { calculated, limit } => depth_text(l, *calculated, *limit),
            MoongqlError::ValidationError(detail) => validation_text(l, detail@),
        }
    }

    /// Renders the description of the error in locale `l`.
    pub fn to_string_in(&self, l: Locale) -> (r: String)
        ensures
            r@ == self.text(l),
    {
        match self {
            MoongqlError::ComplexityExceeded { calculated, limit } => complexity_message(l, *calculated, *limit),
            MoongqlError::DepthExceeded { calculated, limit } => depth_message(l, *calculated, *limit),
            MoongqlError::ValidationError(detail) => validation_message(l, detail.as_str()),
        }
    }

    /// Renders the description of the error in the default locale (Russian).
    pub fn to_string(&self) -> (r: String)
        ensures
            r@ == self.text(Locale::Ru),
    {
        self.to_string_in(Locale::Ru)
    }
}

} // verus!
