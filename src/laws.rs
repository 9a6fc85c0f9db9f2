//! Properties that hold across the library's functions.

use vstd::prelude::*;
use vstd::string::*;
use crate::info::{PdfValue, meta_map, represents};
use crate::ops::compress_args;
use crate::selection::CompressPreset;

verus! {

/// A document whose Info dictionary gives no entries (in particular one
/// whose trailer has no Info at all) has empty metadata: any list that
/// represents what no entries give is empty.
pub proof fn lemma_no_entries_no_metadata(m: Seq<(String, String)>)
    requires
        represents(m, meta_map(Seq::<(Vec<u8>, PdfValue)>::empty())),
    ensures
        m.len() == 0,
{
    if m.len() > 0 {
        assert(meta_map(Seq::<(Vec<u8>, PdfValue)>::empty()).contains_key(m[0].0@));
    }
}

/// The compression command built with the Ebook preset holds the argument
/// `-dPDFSETTINGS=/ebook` verbatim, whatever the input and output.
pub proof fn lemma_ebook_setting_token(input: Seq<char>, output: Seq<char>)
    ensures
        compress_args(input, output, CompressPreset::Ebook).contains("-dPDFSETTINGS=/ebook"@),
{
    reveal_strlit("-dPDFSETTINGS=");
    reveal_strlit("/ebook");
    reveal_strlit("-dPDFSETTINGS=/ebook");
    let args = compress_args(input, output, CompressPreset::Ebook);
    assert(args[2] =~= "-dPDFSETTINGS=/ebook"@);
}

} // verus!
