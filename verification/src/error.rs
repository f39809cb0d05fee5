//! Why a conversion stops.

use vstd::prelude::*;

verus! {

/// The fatal conditions of a conversion. None of them leaves partial output.
#[derive(Clone, Copy, Debug, PartialEq, Eq, Structural)]
pub enum ConvertError {
    /// The stream ends before the data that its own counts and flags announce.
    Truncated,
    /// The stream does not start with the magic number of the supported revision.
    UnsupportedVersion,
    /// A count read from the stream is negative.
    NegativeCount,
    /// A frame lacks data that the output needs: an array is shorter or longer
    /// than its element count asks for, or external numbering is absent.
    Incomplete,
}

impl ConvertError {
    /// What to tell the user.
    pub open spec fn text(self) -> Seq<char> {
        match self {
            ConvertError::Truncated => "Error in reading file"@,
            ConvertError::UnsupportedVersion => "Error in Anim Files version"@,
            ConvertError::NegativeCount => "Error in reading file: negative count"@,
            ConvertError::Incomplete => "Error in Anim Files content: incomplete frame"@,
        }
    }

    /// What to tell the user.
    pub fn message(&self) -> (r: &'static str)
        ensures
            r@ == self.text(),
    {
        match self {
            ConvertError::Truncated => "Error in reading file",
            ConvertError::UnsupportedVersion => "Error in Anim Files version",
            ConvertError::NegativeCount => "Error in reading file: negative count",
            ConvertError::Incomplete => "Error in Anim Files content: incomplete frame",
        }
    }
}

} // verus!
