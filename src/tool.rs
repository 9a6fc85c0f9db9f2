//! The external tools, and how an executable for one is located.

use vstd::prelude::*;
use vstd::string::*;
use crate::error::PdfError;

verus! {

/// An external tool that an operation delegates to.
#[derive(Debug, Clone, Copy, PartialEq, Eq, Structural)]
pub enum Tool {
    /// The page tool (qpdf): merge, split, rotate.
    Qpdf,
    /// The text tool (pdftotext): text extraction.
    Pdftotext,
    /// The raster tool (ghostscript): compression.
    Ghostscript,
}

pub open spec fn tool_name(t: Tool) -> Seq<char> {
    match t {
        Tool::Qpdf => "qpdf"@,
        Tool::Pdftotext => "pdftotext"@,
        Tool::Ghostscript => "ghostscript"@,
    }
}

pub open spec fn tool_env_key(t: Tool) -> Seq<char> {
    match t {
        Tool::Qpdf => "PDFCLI_QPDF"@,
        Tool::Pdftotext => "PDFCLI_PDFTOTEXT"@,
        Tool::Ghostscript => "PDFCLI_GS"@,
    }
}

/// The executable names probed on the search path, in order.
pub open spec fn tool_exe_names(t: Tool) -> Seq<Seq<char>> {
    match t {
        Tool::Qpdf => seq!["qpdf"@],
        Tool::Pdftotext => seq!["pdftotext"@],
        Tool::Ghostscript => seq!["gs"@, "gswin64c"@, "gswin32c"@],
    }
}

pub open spec fn mac_install(t: Tool) -> Seq<char> {
    match t {
        Tool::Ghostscript => "brew install ghostscript"@,
        _ => "brew install "@ + tool_name(t),
    }
}

pub open spec fn ubuntu_install(t: Tool) -> Seq<char> {
    match t {
        Tool::Pdftotext => "sudo apt-get update && sudo apt-get install -y poppler-utils"@,
        Tool::Ghostscript => "sudo apt-get update && sudo apt-get install -y ghostscript"@,
        Tool::Qpdf => "sudo apt-get update && sudo apt-get install -y qpdf"@,
    }
}

pub open spec fn windows_install(t: Tool) -> Seq<char> {
    match t {
        Tool::Ghostscript => "choco install ghostscript OR scoop install ghostscript"@,
        Tool::Pdftotext => "choco install poppler OR scoop install poppler"@,
        Tool::Qpdf => "choco install qpdf OR scoop install qpdf"@,
    }
}

/// Installation instructions for three platforms, after a pointer to the
/// override variable.
pub open spec fn install_hint_text(t: Tool) -> Seq<char> {
    "Set "@ + tool_env_key(t) + " to a full path, or install:\n  macOS: "@ + mac_install(t)
        + "\n  Ubuntu/Debian: "@ + ubuntu_install(t) + "\n  Windows: "@ + windows_install(t)
}

/// The hint given when the override variable names a path that does not exist.
pub open spec fn override_hint_text(t: Tool, path: Seq<char>) -> Seq<char> {
    tool_env_key(t) + " was set to "@ + path + ", but that path does not exist.\n\n"@
        + install_hint_text(t)
}

/// `e` is the missing-tool error for `t` with the given hint.
pub open spec fn is_missing_tool(e: PdfError, t: Tool, hint: Seq<char>) -> bool {
    match e {
        PdfError::MissingTool { tool, hint: h } => tool@ == tool_name(t) && h@ == hint,
        _ => false,
    }
}

impl Tool {
    /// The tool's human name.
    pub fn name(self) -> (r: &'static str)
        ensures
            r@ == tool_name(self),
    {
        match self {
            Tool::Qpdf => "qpdf",
            Tool::Pdftotext => "pdftotext",
            Tool::Ghostscript => "ghostscript",
        }
    }

    /// The environment variable that overrides where the tool is found.
    pub fn env_override(self) -> (r: &'static str)
        ensures
            r@ == tool_env_key(self),
    {
        match self {
            Tool::Qpdf => "PDFCLI_QPDF",
            Tool::Pdftotext => "PDFCLI_PDFTOTEXT",
            Tool::Ghostscript => "PDFCLI_GS",
        }
    }

    /// The executable names to probe on the search path, in order.
    pub fn default_exe_names(self) -> (r: Vec<&'static str>)
        ensures
            r@.len() == tool_exe_names(self).len(),
            forall|i: int| 0 <= i < r@.len() ==> #[trigger] r@[i]@ == tool_exe_names(self)[i],
    {
        match self {
            Tool::Qpdf => vec!["qpdf"],
            Tool::Pdftotext => vec!["pdftotext"],
            Tool::Ghostscript => vec!["gs", "gswin64c", "gswin32c"],
        }
    }

    /// How to install the tool, or point the library at it.
    pub fn install_hint(self) -> (r: String)
        ensures
            r@ == install_hint_text(self),
    {
        let mut out = String::from_str("Set ");
        out.append(self.env_override());
        out.append(" to a full path, or install:\n  macOS: ");
        match self {
            Tool::Ghostscript => out.append("brew install ghostscript"),
            _ => {
                out.append("brew install ");
                out.append(self.name());
            },
        }
        out.append("\n  Ubuntu/Debian: ");
        match self {
            Tool::Pdftotext => out.append(
                "sudo apt-get update && sudo apt-get install -y poppler-utils",
            ),
            Tool::Ghostscript => out.append(
                "sudo apt-get update && sudo apt-get install -y ghostscript",
            ),
            Tool::Qpdf => out.append("sudo apt-get update && sudo apt-get install -y qpdf"),
        }
        out.append("\n  Windows: ");
        match self {
            Tool::Ghostscript => out.append(
                "choco install ghostscript OR scoop install ghostscript",
            ),
            Tool::Pdftotext => out.append("choco install poppler OR scoop install poppler"),
            Tool::Qpdf => out.append("choco install qpdf OR scoop install qpdf"),
        }
        assert(out@ == install_hint_text(self));
        out
    }
}

/// Relies on `std::path::Path::exists`: whether something is at `path` on
/// disk now. Nothing is promised of the answer.
#[verifier::external_body]
pub(crate) fn path_exists(path: &str) -> (r: bool) {
    std::path::Path::new(path).exists()
}

/// Relies on `which::which`: the first executable named `name` on the
/// process search path, if any. Nothing is promised of the answer.
#[verifier::external_body]
fn search_path(name: &str) -> (r: Option<String>) {
    which::which(name).ok().map(|p| p.to_string_lossy().to_string())
}

/// The decision once an override path was given and checked on disk: the
/// path itself when it exists, else the missing-tool error. No default name
/// is ever tried after an override.
pub fn override_outcome(tool: Tool, path: String, exists: bool) -> (r: Result<String, PdfError>)
    ensures
        exists ==> (r matches Ok(p) && p@ == path@),
        !exists ==> (r matches Err(e) && is_missing_tool(e, tool, override_hint_text(tool, path@))),
{
    if exists {
        return Ok(path);
    }
    let mut hint = String::from_str(tool.env_override());
    hint.append(" was set to ");
    hint.append(path.as_str());
    hint.append(", but that path does not exist.\n\n");
    let install = tool.install_hint();
    hint.append(install.as_str());
    Err(PdfError::MissingTool { tool: tool.name(), hint })
}

/// Locates the executable for `tool`. `override_value` is the value of the
/// tool's override variable, if it is set: it is used verbatim and nothing
/// else is tried. Otherwise each default name is probed on the search path,
/// in order, and the first hit is returned.
pub fn find_tool(tool: Tool, override_value: Option<String>) -> (r: Result<String, PdfError>)
    ensures
        override_value matches Some(p) ==> ((r matches Ok(q) && q@ == p@) || (r matches Err(e)
            && is_missing_tool(e, tool, override_hint_text(tool, p@)))),
        override_value is None ==> (r is Ok || (r matches Err(e) && is_missing_tool(
            e,
            tool,
            install_hint_text(tool),
        ))),
{
    match override_value {
        Some(p) => {
            let exists = path_exists(p.as_str());
            override_outcome(tool, p, exists)
        },
        None => probe_default_names(tool),
    }
}

/// `found[i]` is the first hit of a search: a path, with none before it.
pub open spec fn first_hit_at(found: Seq<Option<String>>, i: int) -> bool {
    &&& 0 <= i < found.len()
    &&& found[i] is Some
    &&& forall|j: int| 0 <= j < i ==> #[trigger] found[j] is None
}

/// The decision once the default names were searched, in order: `found[i]`
/// is what the search gave for the `i`-th name. The first hit wins; with no
/// hit at all the tool is missing.
pub fn first_found(tool: Tool, found: &Vec<Option<String>>) -> (r: Result<String, PdfError>)
    ensures
        forall|i: int| #[trigger] first_hit_at(found@, i) ==> (r matches Ok(p) && p@
            == found@[i]->0@),
        (forall|i: int| 0 <= i < found@.len() ==> #[trigger] found@[i] is None) ==> (r matches Err(
            e,
        ) && is_missing_tool(e, tool, install_hint_text(tool))),
{
    let mut i: usize = 0;
    while i < found.len()
        invariant
            i <= found@.len(),
            forall|j: int| 0 <= j < i ==> #[trigger] found@[j] is None,
        decreases found.len() - i,
    {
        if let Some(p) = &found[i] {
            assert(first_hit_at(found@, i as int));
            assert forall|k: int| #[trigger] first_hit_at(found@, k) implies k == i by {
                if k < i {
                    assert(found@[k] is None);
                } else if k > i {
                    assert(found@[i as int] is None);
                }
            }
            return Ok(p.clone());
        }
        i += 1;
    }
    Err(PdfError::MissingTool { tool: tool.name(), hint: tool.install_hint() })
}

/// Searches the default names of `tool` in order, stopping at the first hit,
/// and decides by [`first_found`].
fn probe_default_names(tool: Tool) -> (r: Result<String, PdfError>)
    ensures
        r is Ok || (r matches Err(e) && is_missing_tool(e, tool, install_hint_text(tool))),
{
    let names = tool.default_exe_names();
    let mut found: Vec<Option<String>> = Vec::new();
    let mut i: usize = 0;
    let mut hit = false;
    while i < names.len() && !hit
        invariant
            i <= names@.len(),
            found@.len() == i,
            !hit ==> forall|j: int| 0 <= j < i ==> #[trigger] found@[j] is None,
            hit ==> first_hit_at(found@, i - 1),
        decreases names.len() - i,
    {
        let result = search_path(names[i]);
        hit = result.is_some();
        found.push(result);
        i += 1;
    }
    if hit {
        assert(first_hit_at(found@, i - 1));
    }
    first_found(tool, &found)
}

} // verus!
