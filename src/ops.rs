//! The operations that delegate to an external tool: each checks its
//! parameters and inputs, locates the tool and builds the exact invocation.
//! The caller runs it and hands the outcome to
//! [`finish_run`](crate::command::finish_run).

use vstd::prelude::*;
use vstd::string::*;
use crate::command::{ToolCommand, push_arg, views};
use crate::error::PdfError;
use crate::selection::{CompressPreset, PageSelection, gs_setting, qpdf_arg};
use crate::text::{decimal, push_decimal};
use crate::tool::{Tool, find_tool, path_exists, tool_name};

verus! {

/// `e` reports that the input at `path` does not exist.
pub open spec fn is_input_not_found(e: PdfError, path: Seq<char>) -> bool {
    match e {
        PdfError::InputNotFound(p) => p@ == path,
        _ => false,
    }
}

/// `e` reports a caller-supplied parameter that breaks a precondition.
pub open spec fn is_invalid_argument(e: PdfError) -> bool {
    e is InvalidArgument
}

/// `e` reports that `t` could not be located.
pub open spec fn is_missing(e: PdfError, t: Tool) -> bool {
    match e {
        PdfError::MissingTool { tool, .. } => tool@ == tool_name(t),
        _ => false,
    }
}

/// `e` is the invalid-argument error with message `m`.
pub open spec fn is_invalid_with(e: PdfError, m: Seq<char>) -> bool {
    match e {
        PdfError::InvalidArgument(x) => x@ == m,
        _ => false,
    }
}

/// Input `i` is known to exist: an answer was given for it and it is yes.
pub open spec fn present(exist: Seq<bool>, i: int) -> bool {
    0 <= i < exist.len() && exist[i]
}

/// Input `i` is the first of `n` inputs that is not known to exist.
pub open spec fn first_missing_at(exist: Seq<bool>, n: int, i: int) -> bool {
    &&& 0 <= i < n
    &&& !present(exist, i)
    &&& forall|j: int| 0 <= j < i ==> #[trigger] present(exist, j)
}

/// The decision on an input path once its existence is known.
pub fn check_input(path: &str, exists: bool) -> (r: Result<(), PdfError>)
    ensures
        exists <==> r is Ok,
        !exists ==> (r matches Err(e) && is_input_not_found(e, path@)),
{
    if !exists {
        return Err(PdfError::InputNotFound(String::from_str(path)));
    }
    Ok(())
}

/// Checks that something exists at `path`.
pub fn validate_input_file(path: &str) -> (r: Result<(), PdfError>)
    ensures
        r is Ok || (r matches Err(e) && is_input_not_found(e, path@)),
{
    let exists = path_exists(path);
    check_input(path, exists)
}

/// The page tool's arguments for a merge.
pub open spec fn merge_args(inputs: Seq<Seq<char>>, output: Seq<char>) -> Seq<Seq<char>> {
    seq!["--empty"@, "--pages"@] + inputs + seq!["--"@, output]
}

/// The page tool's arguments for a split.
pub open spec fn split_args(input: Seq<char>, pattern: Seq<char>) -> Seq<Seq<char>> {
    seq!["--split-pages"@, input, pattern]
}

/// The text tool's arguments: the input, then the output path or `-`.
pub open spec fn extract_args(input: Seq<char>, output: Option<Seq<char>>) -> Seq<Seq<char>> {
    seq![input, if output is Some { output->0 } else { "-"@ }]
}

/// `+<degrees>`, followed by `:<range>` unless all pages are selected.
pub open spec fn rotation_text(degrees: nat, sel: PageSelection) -> Seq<char> {
    seq!['+'] + decimal(degrees) + match qpdf_arg(sel) {
        Some(r) => seq![':'] + r,
        None => Seq::empty(),
    }
}

/// The page tool's arguments for a rotation.
pub open spec fn rotate_args(
    input: Seq<char>,
    output: Seq<char>,
    degrees: nat,
    sel: PageSelection,
) -> Seq<Seq<char>> {
    seq!["--rotate"@, rotation_text(degrees, sel), input, output]
}

/// The raster tool's arguments for a compression.
pub open spec fn compress_args(
    input: Seq<char>,
    output: Seq<char>,
    preset: CompressPreset,
) -> Seq<Seq<char>> {
    seq![
        "-sDEVICE=pdfwrite"@,
        "-dCompatibilityLevel=1.4"@,
        "-dPDFSETTINGS="@ + gs_setting(preset),
        "-dNOPAUSE"@,
        "-dBATCH"@,
        "-dSAFER"@,
        "-sOutputFile="@ + output,
        input,
    ]
}

/// Rotation by these angles only is accepted.
pub open spec fn valid_degrees(d: u16) -> bool {
    d == 0 || d == 90 || d == 180 || d == 270
}

/// `s` holds the two characters `%d` side by side.
pub open spec fn has_page_token(s: Seq<char>) -> bool {
    exists|i: int| 0 <= i && i + 1 < s.len() && #[trigger] s[i] == '%' && s[i + 1] == 'd'
}

/// `c` is a command of `tool` with the given arguments, run from `program`
/// when an override path was given.
pub open spec fn built(
    c: ToolCommand,
    tool: Tool,
    args: Seq<Seq<char>>,
    capture: bool,
    override_value: Option<String>,
) -> bool {
    &&& c.tool == tool
    &&& views(c.args@) == args
    &&& c.capture == capture
    &&& (override_value matches Some(p) ==> c.program@ == p@)
}

/// The merge invocation of `program`.
pub fn merge_invocation(program: String, inputs: &Vec<String>, output: &str) -> (r: ToolCommand)
    ensures
        r.tool == Tool::Qpdf,
        r.program == program,
        views(r.args@) == merge_args(views(inputs@), output@),
        !r.capture,
{
    let mut args: Vec<String> = Vec::new();
    push_arg(&mut args, "--empty");
    push_arg(&mut args, "--pages");
    let ghost head = seq!["--empty"@, "--pages"@];
    assert(views(args@) =~= head);
    let mut i: usize = 0;
    while i < inputs.len()
        invariant
            i <= inputs@.len(),
            head == seq!["--empty"@, "--pages"@],
            views(args@) == head + views(inputs@).subrange(0, i as int),
        decreases inputs.len() - i,
    {
        push_arg(&mut args, inputs[i].as_str());
        assert(views(args@) =~= head + views(inputs@).subrange(0, i + 1));
        i += 1;
    }
    push_arg(&mut args, "--");
    push_arg(&mut args, output);
    assert(views(inputs@).subrange(0, inputs@.len() as int) =~= views(inputs@));
    assert(views(args@) =~= merge_args(views(inputs@), output@));
    ToolCommand { tool: Tool::Qpdf, program, args, capture: false }
}

/// The first of `inputs` that is not known to exist, reported as missing;
/// `exist[i]` says whether `inputs[i]` exists.
pub fn first_missing(inputs: &Vec<String>, exist: &Vec<bool>) -> (r: Result<(), PdfError>)
    ensures
        r is Ok <==> forall|i: int| 0 <= i < inputs@.len() ==> #[trigger] present(exist@, i),
        forall|i: int| #[trigger] first_missing_at(exist@, inputs@.len() as int, i) ==> (r matches Err(
            e,
        ) && is_input_not_found(e, inputs@[i]@)),
{
    let mut i: usize = 0;
    while i < inputs.len()
        invariant
            i <= inputs@.len(),
            forall|j: int| 0 <= j < i ==> #[trigger] present(exist@, j),
        decreases inputs.len() - i,
    {
        let known = i < exist.len() && exist[i];
        if !known {
            assert(first_missing_at(exist@, inputs@.len() as int, i as int));
            assert forall|k: int| #[trigger]
                first_missing_at(exist@, inputs@.len() as int, k) implies k == i by {
                if k < i {
                    assert(present(exist@, k));
                } else if k > i {
                    assert(present(exist@, i as int));
                }
            }
            return Err(PdfError::InputNotFound(inputs[i].clone()));
        }
        i += 1;
    }
    Ok(())
}

/// Merges the PDFs `inputs`, in order, into `output` with the page tool;
/// `inputs_exist[i]` says whether `inputs[i]` exists. Fails on an empty
/// input list, then on the first input that does not exist, and only then
/// looks the tool up.
pub fn merge_command(
    inputs: &Vec<String>,
    inputs_exist: &Vec<bool>,
    output: &str,
    override_value: Option<String>,
) -> (r: Result<ToolCommand, PdfError>)
    ensures
        inputs@.len() == 0 <==> (r matches Err(e) && is_invalid_argument(e)),
        inputs@.len() == 0 ==> (r matches Err(e) && is_invalid_with(
            e,
            "merge requires at least one input"@,
        )),
        forall|i: int| #[trigger] first_missing_at(inputs_exist@, inputs@.len() as int, i) ==> (r matches Err(
            e,
        ) && is_input_not_found(e, inputs@[i]@)),
        r matches Ok(c) ==> built(c, Tool::Qpdf, merge_args(views(inputs@), output@), false, override_value),
        r matches Err(e) && is_missing(e, Tool::Qpdf) ==> inputs@.len() > 0 && forall|i: int|
            0 <= i < inputs@.len() ==> #[trigger] present(inputs_exist@, i),
        r matches Err(e) ==> is_invalid_argument(e) || is_missing(e, Tool::Qpdf) || exists|i: int|
            #[trigger] first_missing_at(inputs_exist@, inputs@.len() as int, i) && is_input_not_found(e, inputs@[i]@),
{
    if inputs.len() == 0 {
        return Err(PdfError::InvalidArgument(String::from_str("merge requires at least one input")));
    }
    match first_missing(inputs, inputs_exist) {
        Ok(()) => {},
        Err(e) => {
            proof {
                assert(!forall|i: int| 0 <= i < inputs@.len() ==> #[trigger] present(inputs_exist@, i));
                lemma_first_missing_exists(inputs_exist@, inputs@.len() as int);
            }
            return Err(e);
        },
    }
    let program = find_tool(Tool::Qpdf, override_value)?;
    Ok(merge_invocation(program, inputs, output))
}

/// When some input is not known to exist, there is a first such input.
proof fn lemma_first_missing_exists(exist: Seq<bool>, n: int)
    requires
        exists|i: int| 0 <= i < n && !#[trigger] present(exist, i),
    ensures
        exists|i: int| #[trigger] first_missing_at(exist, n, i),
    decreases n,
{
    let k = choose|i: int| 0 <= i < n && !#[trigger] present(exist, i);
    if forall|j: int| 0 <= j < k ==> #[trigger] present(exist, j) {
        assert(first_missing_at(exist, n, k));
    } else {
        let j = choose|j: int| 0 <= j < k && !#[trigger] present(exist, j);
        lemma_first_missing_exists(exist, k);
        let f = choose|i: int| #[trigger] first_missing_at(exist, k, i);
        assert(first_missing_at(exist, n, f));
    }
}

/// Whether `s` holds `%d`.
pub fn contains_page_token(s: &str) -> (r: bool)
    ensures
        r == has_page_token(s@),
{
    let n = s.unicode_len();
    let mut i: usize = 0;
    while i < n
        invariant
            n == s@.len(),
            i <= n,
            forall|j: int| 0 <= j < i && j + 1 < n ==> !(#[trigger] s@[j] == '%' && s@[j + 1] == 'd'),
        decreases n - i,
    {
        if i + 1 < n && s.get_char(i) == '%' && s.get_char(i + 1) == 'd' {
            return true;
        }
        i += 1;
    }
    false
}

/// A path separator on some platform.
pub open spec fn is_separator(c: char) -> bool {
    c == '/' || c == '\\'
}

/// A directory that does not start with two separators: no UNC, device or
/// verbatim prefix (`\\server`, `\\?\`), whose paths std normalizes when
/// something is joined to them.
pub open spec fn plain_dir(dir: Seq<char>) -> bool {
    !(dir.len() >= 2 && is_separator(dir[0]) && is_separator(dir[1]))
}

/// Relies on `std::path::Path::join`: a relative name of one component,
/// which is not made of dots only, is appended to the directory after a
/// separator where one is needed. The result ends with the name; it starts
/// with the directory unless the directory has a prefix that std normalizes.
#[verifier::external_body]
fn join_path(dir: &str, name: &str) -> (r: String)
    requires
        exists|i: int| 0 <= i < name@.len() && #[trigger] name@[i] != '.',
        forall|i: int| 0 <= i < name@.len() ==> !is_separator(#[trigger] name@[i]) && name@[i]
            != ':',
    ensures
        plain_dir(dir@) ==> dir@.is_prefix_of(r@),
        name@.is_suffix_of(r@),
{
    std::path::Path::new(dir).join(name).to_string_lossy().to_string()
}

/// The split invocation of `program`.
pub fn split_invocation(program: String, input: &str, pattern: &str) -> (r: ToolCommand)
    ensures
        r.tool == Tool::Qpdf,
        r.program == program,
        views(r.args@) == split_args(input@, pattern@),
        !r.capture,
{
    let mut args: Vec<String> = Vec::new();
    push_arg(&mut args, "--split-pages");
    push_arg(&mut args, input);
    push_arg(&mut args, pattern);
    assert(views(args@) =~= split_args(input@, pattern@));
    ToolCommand { tool: Tool::Qpdf, program, args, capture: false }
}

/// The name of each page file in the output directory.
pub open spec fn default_page_name() -> Seq<char> {
    "page-%d.pdf"@
}

/// Splits `input` into one PDF per page with the page tool. `pattern` names
/// the outputs and must hold `%d`, the 1-based page number; without one the
/// pages go to `page-%d.pdf` inside `out_dir`. A bad pattern fails first,
/// then a missing input, and only then is the tool looked up.
pub fn split_pages_command(
    input: &str,
    input_exists: bool,
    out_dir: &str,
    pattern: Option<String>,
    override_value: Option<String>,
) -> (r: Result<ToolCommand, PdfError>)
    ensures
        (pattern matches Some(p) && !has_page_token(p@)) <==> (r matches Err(e)
            && is_invalid_argument(e)),
        (pattern matches Some(p) && !has_page_token(p@)) ==> (r matches Err(e) && is_invalid_with(
            e,
            "split_pages pattern must contain %d"@,
        )),
        !(pattern matches Some(p) && !has_page_token(p@)) && !input_exists ==> (r matches Err(e)
            && is_input_not_found(e, input@)),
        r matches Ok(c) ==> {
            &&& c.args@.len() == 3
            &&& built(c, Tool::Qpdf, split_args(input@, c.args@[2]@), false, override_value)
            &&& has_page_token(c.args@[2]@)
            &&& (pattern matches Some(p) ==> c.args@[2]@ == p@)
            &&& (pattern is None ==> default_page_name().is_suffix_of(c.args@[2]@))
            &&& (pattern is None && plain_dir(out_dir@) ==> out_dir@.is_prefix_of(c.args@[2]@))
        },
        r matches Err(e) && is_missing(e, Tool::Qpdf) ==> input_exists,
        r matches Err(e) ==> is_invalid_argument(e) || is_missing(e, Tool::Qpdf)
            || is_input_not_found(e, input@),
{
    if let Some(p) = &pattern {
        if !contains_page_token(p.as_str()) {
            return Err(
                PdfError::InvalidArgument(String::from_str("split_pages pattern must contain %d")),
            );
        }
    }
    check_input(input, input_exists)?;
    let program = find_tool(Tool::Qpdf, override_value)?;
    let chosen = match pattern {
        Some(p) => p,
        None => {
            let name = "page-%d.pdf";
            proof {
                reveal_strlit("page-%d.pdf");
                assert(name@[0] != '.');
            }
            let joined = join_path(out_dir, name);
            proof {
                let n = joined@.len();
                assert(joined@.subrange(n - 11, n as int) == name@);
                assert(joined@[n - 11 + 5] == name@[5]);
                assert(joined@[n - 11 + 6] == name@[6]);
                assert(has_page_token(joined@));
            }
            joined
        },
    };
    let c = split_invocation(program, input, chosen.as_str());
    assert(views(c.args@).len() == 3);
    assert(c.args@.len() == 3);
    assert(views(c.args@)[2] == c.args@[2]@);
    Ok(c)
}

/// The text-extraction invocation of `program`: to `output`, or to stdout,
/// which is then captured, when there is none.
pub fn extract_invocation(program: String, input: &str, output: Option<String>) -> (r: ToolCommand)
    ensures
        r.tool == Tool::Pdftotext,
        r.program == program,
        views(r.args@) == extract_args(input@, if output is Some { Some(output->0@) } else { None }),
        r.capture == output is None,
{
    let mut args: Vec<String> = Vec::new();
    push_arg(&mut args, input);
    let capture = output.is_none();
    match output {
        Some(o) => push_arg(&mut args, o.as_str()),
        None => push_arg(&mut args, "-"),
    }
    assert(views(args@) =~= extract_args(input@, if output is Some { Some(output->0@) } else { None }));
    ToolCommand { tool: Tool::Pdftotext, program, args, capture }
}

/// Extracts the text of `input` with the text tool, into `output`, or onto
/// stdout, which becomes the operation's result, when there is none. A
/// missing input is reported before the tool is looked up.
pub fn extract_text_command(
    input: &str,
    input_exists: bool,
    output: Option<String>,
    override_value: Option<String>,
) -> (r: Result<ToolCommand, PdfError>)
    ensures
        !input_exists ==> (r matches Err(e) && is_input_not_found(e, input@)),
        r matches Ok(c) ==> built(
            c,
            Tool::Pdftotext,
            extract_args(input@, if output is Some { Some(output->0@) } else { None }),
            output is None,
            override_value,
        ),
        r matches Err(e) ==> is_missing(e, Tool::Pdftotext) || is_input_not_found(e, input@),
        r matches Err(e) && is_missing(e, Tool::Pdftotext) ==> input_exists,
{
    check_input(input, input_exists)?;
    let program = find_tool(Tool::Pdftotext, override_value)?;
    Ok(extract_invocation(program, input, output))
}

/// The rotation argument: `+<degrees>`, then `:<range>` for a range.
pub fn rotation_arg(degrees: u16, sel: &PageSelection) -> (r: String)
    ensures
        r@ == rotation_text(degrees as nat, *sel),
{
    proof {
        reveal_strlit("+");
        reveal_strlit(":");
    }
    let mut out = String::from_str("+");
    push_decimal(&mut out, degrees as u64);
    let ghost head = out@;
    match sel.to_qpdf_arg() {
        Some(range) => {
            out.append(":");
            out.append(range.as_str());
            assert(out@ =~= rotation_text(degrees as nat, *sel));
        },
        None => {
            assert(out@ =~= rotation_text(degrees as nat, *sel));
        },
    }
    out
}

/// The rotation invocation of `program`.
pub fn rotate_invocation(
    program: String,
    input: &str,
    output: &str,
    degrees: u16,
    sel: &PageSelection,
) -> (r: ToolCommand)
    ensures
        r.tool == Tool::Qpdf,
        r.program == program,
        views(r.args@) == rotate_args(input@, output@, degrees as nat, *sel),
        !r.capture,
{
    let mut args: Vec<String> = Vec::new();
    push_arg(&mut args, "--rotate");
    let rot = rotation_arg(degrees, sel);
    push_arg(&mut args, rot.as_str());
    push_arg(&mut args, input);
    push_arg(&mut args, output);
    assert(views(args@) =~= rotate_args(input@, output@, degrees as nat, *sel));
    ToolCommand { tool: Tool::Qpdf, program, args, capture: false }
}

/// The selection an absent one stands for: all pages.
pub open spec fn selection_or_all(pages: Option<PageSelection>) -> PageSelection {
    match pages {
        Some(s) => s,
        None => PageSelection::All,
    }
}

/// Rotates the selected pages of `input` (all of them by default) by
/// `degrees` clockwise into `output` with the page tool. Angles other than
/// 0, 90, 180 and 270 fail first, then a missing input, and only then is
/// the tool looked up.
pub fn rotate_command(
    input: &str,
    input_exists: bool,
    output: &str,
    degrees: u16,
    pages: Option<PageSelection>,
    override_value: Option<String>,
) -> (r: Result<ToolCommand, PdfError>)
    ensures
        !valid_degrees(degrees) <==> (r matches Err(e) && is_invalid_argument(e)),
        !valid_degrees(degrees) ==> (r matches Err(e) && is_invalid_with(
            e,
            "degrees must be 0, 90, 180, or 270"@,
        )),
        valid_degrees(degrees) && !input_exists ==> (r matches Err(e) && is_input_not_found(
            e,
            input@,
        )),
        r matches Ok(c) ==> built(
            c,
            Tool::Qpdf,
            rotate_args(input@, output@, degrees as nat, selection_or_all(pages)),
            false,
            override_value,
        ),
        r matches Err(e) && is_missing(e, Tool::Qpdf) ==> input_exists,
        r matches Err(e) ==> is_invalid_argument(e) || is_missing(e, Tool::Qpdf)
            || is_input_not_found(e, input@),
{
    if !(degrees == 0 || degrees == 90 || degrees == 180 || degrees == 270) {
        return Err(
            PdfError::InvalidArgument(String::from_str("degrees must be 0, 90, 180, or 270")),
        );
    }
    check_input(input, input_exists)?;
    let program = find_tool(Tool::Qpdf, override_value)?;
    let sel = match pages {
        Some(s) => s,
        None => PageSelection::All,
    };
    Ok(rotate_invocation(program, input, output, degrees, &sel))
}

/// The compression invocation of `program`.
pub fn compress_invocation(
    program: String,
    input: &str,
    output: &str,
    preset: CompressPreset,
) -> (r: ToolCommand)
    ensures
        r.tool == Tool::Ghostscript,
        r.program == program,
        views(r.args@) == compress_args(input@, output@, preset),
        !r.capture,
{
    let mut args: Vec<String> = Vec::new();
    push_arg(&mut args, "-sDEVICE=pdfwrite");
    push_arg(&mut args, "-dCompatibilityLevel=1.4");
    let mut settings = String::from_str("-dPDFSETTINGS=");
    settings.append(preset.as_gs_setting());
    push_arg(&mut args, settings.as_str());
    push_arg(&mut args, "-dNOPAUSE");
    push_arg(&mut args, "-dBATCH");
    push_arg(&mut args, "-dSAFER");
    let mut target = String::from_str("-sOutputFile=");
    target.append(output);
    push_arg(&mut args, target.as_str());
    push_arg(&mut args, input);
    assert(views(args@) =~= compress_args(input@, output@, preset));
    ToolCommand { tool: Tool::Ghostscript, program, args, capture: false }
}

/// Compresses `input` into `output` with the raster tool and `preset`. A
/// missing input is reported before the tool is looked up.
pub fn compress_command(
    input: &str,
    input_exists: bool,
    output: &str,
    preset: CompressPreset,
    override_value: Option<String>,
) -> (r: Result<ToolCommand, PdfError>)
    ensures
        !input_exists ==> (r matches Err(e) && is_input_not_found(e, input@)),
        r matches Ok(c) ==> built(
            c,
            Tool::Ghostscript,
            compress_args(input@, output@, preset),
            false,
            override_value,
        ),
        r matches Err(e) ==> is_missing(e, Tool::Ghostscript) || is_input_not_found(e, input@),
        r matches Err(e) && is_missing(e, Tool::Ghostscript) ==> input_exists,
{
    check_input(input, input_exists)?;
    let program = find_tool(Tool::Ghostscript, override_value)?;
    Ok(compress_invocation(program, input, output, preset))
}

} // verus!
