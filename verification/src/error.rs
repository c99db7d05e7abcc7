//! Domain-specific failures of the library.

use vstd::prelude::*;

verus! {

/// Mathematical model of an [`Error`]: strings as character sequences.
pub enum ErrorV {
    MissingReferenceTarget { reference: Seq<char> },
    ReferenceTypeMismatch { reference: Seq<char>, expected: Seq<char> },
    MalformedDocument { message: Seq<char> },
}

/// Description of all domain-specific errors.
#[derive(Debug)]
pub enum Error {
    /// The reference path does not lead to any value in the document.
    MissingReferenceTarget {
        /// The original reference path string, verbatim.
        reference: String,
    },
    /// The reference path leads to a value that does not have the shape of
    /// the expected component type.
    ReferenceTypeMismatch {
        /// The original reference path string, verbatim.
        reference: String,
        /// Name of the component type the reference expected.
        expected: String,
    },
    /// The document text is not structurally valid.
    MalformedDocument {
        /// A description of what was wrong with the text.
        message: String,
    },
}

impl View for Error {
    type V = ErrorV;

    open spec fn view(&self) -> ErrorV {
        match self {
            Error::MissingReferenceTarget { reference } => (ErrorV::MissingReferenceTarget {
                reference: reference@,
            }),
            Error::ReferenceTypeMismatch { reference, expected } => (
            ErrorV::ReferenceTypeMismatch { reference: reference@, expected: expected@ }),
            Error::MalformedDocument { message } => (ErrorV::MalformedDocument {
                message: message@,
            }),
        }
    }
}

impl DeepView for Error {
    type V = ErrorV;

    open spec fn deep_view(&self) -> ErrorV {
        self.view()
    }
}

} // verus!
