use vstd::prelude::*;

verus! {

/// The ways a pack call can fail. Every value signals a caller-side
/// template or argument mistake; none is transient or retryable.
#[derive(Debug, Clone, Copy, PartialEq, Eq, Structural)]
pub enum PackError {
    /// The argument sequence is longer than the template.
    LeftArgumentIsMissingForTemplate,
    /// The template is longer than the argument sequence.
    RightArgumentIsMissingForTemplate,
    /// The digit suffix of a token does not parse as a non-negative integer.
    InvalidFormatLengthArgument,
    /// A token with no tag character was produced (defensive case).
    EmptyFormatCharacter,
    /// A tag is not in the catalog, or an argument rejected its descriptor.
    InvalidFormatCharacter,
    /// The template string is empty.
    EmptyTemplate,
}

/// Errors of the decode direction. Decoding is declared but its byte-level
/// semantics are not yet settled, so the only value reports that fact.
#[derive(Debug, Clone, Copy, PartialEq, Eq, Structural)]
pub enum UnpackError {
    /// Decoding a packed buffer is not implemented.
    NotImplemented,
}

impl PackError {
    /// The description text, as a mathematical value.
    pub open spec fn message_spec(self) -> Seq<char> {
        match self {
            PackError::LeftArgumentIsMissingForTemplate => "Template size is less then arguments count"@,
            PackError::RightArgumentIsMissingForTemplate => "Arguments count is less then template size"@,
            PackError::InvalidFormatLengthArgument => "Len for the argument is invalid"@,
            PackError::EmptyFormatCharacter => "Format character is empty"@,
            PackError::InvalidFormatCharacter => "Format character is not supported"@,
            PackError::EmptyTemplate => "Template is empty"@,
        }
    }

    /// A human-readable description of the error.
    pub fn message(&self) -> (r: &'static str)
        ensures
            r@ == self.message_spec(),
    {
        match self {
            PackError::LeftArgumentIsMissingForTemplate => "Template size is less then arguments count",
            PackError::RightArgumentIsMissingForTemplate => "Arguments count is less then template size",
            PackError::InvalidFormatLengthArgument => "Len for the argument is invalid",
            PackError::EmptyFormatCharacter => "Format character is empty",
            PackError::InvalidFormatCharacter => "Format character is not supported",
            PackError::EmptyTemplate => "Template is empty",
        }
    }
}

} // verus!
