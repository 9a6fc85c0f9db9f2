//! Page selections and compression presets, and their renderings.

use vstd::prelude::*;
use vstd::string::*;
use crate::text::{decimal, push_decimal};

verus! {

/// Compression preset for the raster tool.
#[derive(Debug, Clone, Copy, PartialEq, Eq, Structural)]
pub enum CompressPreset {
    /// `/screen`
    Screen,
    /// `/ebook`
    Ebook,
    /// `/printer`
    Printer,
    /// `/prepress`
    Prepress,
    /// `/default`
    Default,
}

/// The raster tool's setting token for each preset.
pub open spec fn gs_setting(p: CompressPreset) -> Seq<char> {
    match p {
        CompressPreset::Screen => "/screen"@,
        CompressPreset::Ebook => "/ebook"@,
        CompressPreset::Printer => "/printer"@,
        CompressPreset::Prepress => "/prepress"@,
        CompressPreset::Default => "/default"@,
    }
}

impl CompressPreset {
    /// The setting token handed to the raster tool.
    pub fn as_gs_setting(self) -> (r: &'static str)
        ensures
            r@ == gs_setting(self),
    {
        match self {
            CompressPreset::Screen => "/screen",
            CompressPreset::Ebook => "/ebook",
            CompressPreset::Printer => "/printer",
            CompressPreset::Prepress => "/prepress",
            CompressPreset::Default => "/default",
        }
    }
}

/// Which pages an operation applies to.
#[derive(Debug, Clone, PartialEq, Eq, Structural)]
pub enum PageSelection {
    /// Apply to all pages.
    All,
    /// Apply to a 1-based inclusive page range.
    Range { start: u32, end: u32 },
}

/// `"<start>-<end>"`.
pub open spec fn range_text(start: nat, end: nat) -> Seq<char> {
    decimal(start) + seq!['-'] + decimal(end)
}

/// The tool-argument rendering: absent for `All`, the range text otherwise.
pub open spec fn qpdf_arg(sel: PageSelection) -> Option<Seq<char>> {
    match sel {
        PageSelection::All => None,
        PageSelection::Range { start, end } => Some(range_text(start as nat, end as nat)),
    }
}

/// The canonical textual rendering: `"all"` or the range text.
pub open spec fn selection_text(sel: PageSelection) -> Seq<char> {
    match sel {
        PageSelection::All => "all"@,
        PageSelection::Range { start, end } => range_text(start as nat, end as nat),
    }
}

fn range_string(start: u32, end: u32) -> (r: String)
    ensures
        r@ == range_text(start as nat, end as nat),
{
    let mut out = String::new();
    push_decimal(&mut out, start as u64);
    proof {
        reveal_strlit("-");
    }
    out.append("-");
    push_decimal(&mut out, end as u64);
    out
}

impl PageSelection {
    /// The argument the page tool takes for this selection, if any.
    pub fn to_qpdf_arg(&self) -> (r: Option<String>)
        ensures
            r matches Some(s) ==> qpdf_arg(*self) == Some(s@),
            r is None <==> qpdf_arg(*self) is None,
    {
        match self {
            PageSelection::All => None,
            PageSelection::Range { start, end } => Some(range_string(*start, *end)),
        }
    }

    /// The canonical text of this selection.
    pub fn to_text(&self) -> (r: String)
        ensures
            r@ == selection_text(*self),
    {
        match self {
            PageSelection::All => String::from_str("all"),
            PageSelection::Range { start, end } => range_string(*start, *end),
        }
    }
}

} // verus!
