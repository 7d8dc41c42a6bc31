//! Error kinds raised while parsing vector files and consuming attributes.

use vstd::prelude::*;

verus! {

/// Everything that can go wrong in a test-vector run.
///
/// The first two kinds are fatal to a whole scan; the middle group is raised
/// by [`crate::case::TestCase`] accessors; the last three classify the
/// outcome of a single case inside the driver loop.
#[derive(Clone, Copy, Debug, PartialEq, Eq, Structural)]
pub enum TestError {
    /// A malformed line or a misplaced section marker; aborts the scan.
    SyntaxError,
    /// The vector file could not be opened or read; aborts the scan.
    IoError,
    /// No attribute with the requested key exists in the case.
    MissingAttribute,
    /// The attribute with the requested key was already read once.
    AlreadyConsumed,
    /// A byte-string value is not an even-length string of hex digits.
    MalformedHex,
    /// A value opens with a double quote but is not a quoted string.
    MalformedQuoted,
    /// An integer value is not a decimal number that fits in `usize`.
    MalformedInteger,
    /// A digest-algorithm name outside the recognized vocabulary.
    UnsupportedAlgorithm,
    /// The callback succeeded but left one or more attributes unread.
    UnconsumedAttributes,
    /// The callback returned a domain error for this case.
    CallbackReturnedError,
    /// The callback terminated abnormally for this case.
    CallbackPanicked,
}

impl TestError {
    /// The one-line description used in per-case failure dumps.
    pub open spec fn spec_message(self) -> Seq<char> {
        match self {
            TestError::SyntaxError => "Syntax error: Expected Key = Value."@,
            TestError::IoError => "I/O error."@,
            TestError::MissingAttribute => "No such attribute."@,
            TestError::AlreadyConsumed => "Attribute was already consumed."@,
            TestError::MalformedHex => "Malformed hex value."@,
            TestError::MalformedQuoted => "Malformed quoted string."@,
            TestError::MalformedInteger => "Malformed integer value."@,
            TestError::UnsupportedAlgorithm => "Unsupported digest algorithm."@,
            TestError::UnconsumedAttributes => "Test didn't consume all attributes."@,
            TestError::CallbackReturnedError => "Test returned Err(Unspecified)."@,
            TestError::CallbackPanicked => "Test panicked."@,
        }
    }

    /// Render this error as the message line of a failure dump.
    pub fn message(&self) -> (r: &'static str)
        ensures
            r@ == self.spec_message(),
    {
        match self {
            TestError::SyntaxError => "Syntax error: Expected Key = Value.",
            TestError::IoError => "I/O error.",
            TestError::MissingAttribute => "No such attribute.",
            TestError::AlreadyConsumed => "Attribute was already consumed.",
            TestError::MalformedHex => "Malformed hex value.",
            TestError::MalformedQuoted => "Malformed quoted string.",
            TestError::MalformedInteger => "Malformed integer value.",
            TestError::UnsupportedAlgorithm => "Unsupported digest algorithm.",
            TestError::UnconsumedAttributes => "Test didn't consume all attributes.",
            TestError::CallbackReturnedError => "Test returned Err(Unspecified).",
            TestError::CallbackPanicked => "Test panicked.",
        }
    }
}

/// The opaque domain-error indicator a callback returns to reject a case.
#[derive(Clone, Copy, Debug, PartialEq, Eq, Structural)]
pub struct Unspecified;

} // verus!
