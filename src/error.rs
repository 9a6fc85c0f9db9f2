//! The library's error taxonomy.

use vstd::prelude::*;

verus! {

/// The parser's error, carried unchanged inside [`PdfError::PdfParse`].
#[verifier::external_type_specification]
#[verifier::external_body]
pub struct ExLopdfError(lopdf::Error);

/// An I/O failure reported by the operating system, carried unchanged inside
/// [`PdfError::Io`].
#[verifier::external_type_specification]
#[verifier::external_body]
pub struct ExIoError(std::io::Error);

/// Every way an operation of this library can fail.
#[derive(Debug)]
pub enum PdfError {
    /// A required input file does not exist.
    InputNotFound(String),
    /// The PDF at `path` could not be read or parsed.
    PdfParse { path: String, source: lopdf::Error },
    /// A required external tool could not be located; `hint` says how to
    /// install it or point at it.
    MissingTool { tool: &'static str, hint: String },
    /// An external tool ran and exited unsuccessfully.
    ToolFailed {
        tool: &'static str,
        command: String,
        status: i32,
        stdout: String,
        stderr: String,
    },
    /// A filesystem or process-spawn failure not otherwise classified.
    Io(std::io::Error),
    /// A caller-supplied parameter breaks a precondition.
    InvalidArgument(String),
}

} // verus!
