//! Inspection and manipulation of PDF files.
//!
//! The library reads a PDF's page count and document metadata directly, and
//! prepares invocations of three external tools (a page tool, a text tool and
//! a raster tool): it locates the executable, builds the exact argument list
//! for each operation and classifies what the finished process reported.
//! Spawning the process is left to the caller.

pub mod command;
pub mod error;
pub mod info;
pub mod json;
pub mod laws;
pub mod ops;
pub mod range;
pub mod selection;
pub mod text;
pub mod tool;

pub use command::{ToolCommand, command_line, finish_run, shell_escape};
pub use error::PdfError;
pub use info::{
    PdfInfo, PdfValue, compare_text, document_info, info_of_load, metadata_from_entries, pdf_info,
    value_to_text,
};
pub use json::{json_string, render_info_json};
pub use ops::{
    check_input, compress_command, first_missing, compress_invocation, contains_page_token, extract_invocation,
    extract_text_command, merge_command, merge_invocation, rotate_command, rotate_invocation,
    rotation_arg, split_invocation, split_pages_command, validate_input_file,
};
pub use range::{PageRangeError, RotateDegrees, parse_page_selection, parse_u32_text};
pub use selection::{CompressPreset, PageSelection};
pub use text::{decimal_string, signed_decimal_string, trim_text};
pub use tool::{Tool, find_tool, first_found, override_outcome};
