//! Argument lists for each operation, the diagnostic command line, and the
//! classification of a finished process.

use vstd::prelude::*;
use vstd::string::*;
use crate::error::PdfError;
use crate::text::{decode_lossy, trim_text, trimmed, utf8_lossy};
use crate::tool::Tool;

verus! {

/// A fully built invocation of an external tool.
#[derive(Debug, Clone)]
pub struct ToolCommand {
    /// Which tool runs.
    pub tool: Tool,
    /// The located executable.
    pub program: String,
    /// The arguments, in order.
    pub args: Vec<String>,
    /// Whether the tool's stdout is the operation's result.
    pub capture: bool,
}

/// The texts of a sequence of strings.
pub open spec fn views(v: Seq<String>) -> Seq<Seq<char>> {
    v.map_values(|s: String| s@)
}

/// Appends `a` to an argument list.
pub(crate) fn push_arg(args: &mut Vec<String>, a: &str)
    ensures
        views(final(args)@) == views(old(args)@).push(a@),
{
    args.push(String::from_str(a));
    assert(views(final(args)@) =~= views(old(args)@).push(a@));
}

/// Whether `s` holds `c`.
pub open spec fn has_char(s: Seq<char>, c: char) -> bool {
    exists|i: int| 0 <= i < s.len() && s[i] == c
}

/// `s` with each `"` preceded by a backslash.
pub open spec fn escape_quotes(s: Seq<char>) -> Seq<char>
    decreases s.len(),
{
    if s.len() == 0 {
        s
    } else {
        let last = s.last();
        escape_quotes(s.drop_last()) + if last == '"' {
            seq!['\\', '"']
        } else {
            seq![last]
        }
    }
}

/// An argument as the diagnostic command line shows it: double-quoted, with
/// inner quotes escaped, when it holds a space; unchanged otherwise.
pub open spec fn shell_escaped(s: Seq<char>) -> Seq<char> {
    if has_char(s, ' ') {
        seq!['"'] + escape_quotes(s) + seq!['"']
    } else {
        s
    }
}

/// The items of `s`, separated by single spaces.
pub open spec fn join_spaced(s: Seq<Seq<char>>) -> Seq<char>
    decreases s.len(),
{
    if s.len() == 0 {
        Seq::empty()
    } else if s.len() == 1 {
        s[0]
    } else {
        join_spaced(s.drop_last()) + seq![' '] + s.last()
    }
}

/// The diagnostic command line: the program, a space, and the escaped
/// arguments separated by spaces, trimmed.
pub open spec fn command_text(program: Seq<char>, args: Seq<Seq<char>>) -> Seq<char> {
    trimmed(program + seq![' '] + join_spaced(args.map_values(|a: Seq<char>| shell_escaped(a))))
}

/// Renders one argument for the diagnostic command line.
pub fn shell_escape(s: &str) -> (r: String)
    ensures
        r@ == shell_escaped(s@),
{
    let n = s.unicode_len();
    let mut i: usize = 0;
    let mut spaced = false;
    while i < n
        invariant
            n == s@.len(),
            i <= n,
            spaced == exists|j: int| 0 <= j < i && s@[j] == ' ',
        decreases n - i,
    {
        if s.get_char(i) == ' ' {
            spaced = true;
        }
        i += 1;
    }
    if !spaced {
        return String::from_str(s);
    }
    proof {
        reveal_strlit("\"");
    }
    let mut out = String::from_str("\"");
    let mut k: usize = 0;
    while k < n
        invariant
            n == s@.len(),
            k <= n,
            out@ == seq!['"'] + escape_quotes(s@.subrange(0, k as int)),
        decreases n - k,
    {
        let c = s.get_char(k);
        let ghost before = out@;
        let ghost sub = s@.subrange(0, k + 1);
        assert(sub.drop_last() =~= s@.subrange(0, k as int));
        assert(sub.last() == c);
        if c == '"' {
            out.append("\\\"");
            proof {
                reveal_strlit("\\\"");
            }
            assert(escape_quotes(sub) == escape_quotes(sub.drop_last()) + seq!['\\', '"']);
            assert(out@ =~= seq!['"'] + escape_quotes(sub));
        } else {
            let one = s.substring_char(k, k + 1);
            assert(one@ =~= seq![c]);
            out.append(one);
            assert(out@ =~= seq!['"'] + escape_quotes(sub));
        }
        k += 1;
    }
    assert(s@.subrange(0, n as int) == s@);
    out.append("\"");
    out
}

/// Renders a built command as one line of text for diagnostics. It is never
/// executed.
pub fn command_line(cmd: &ToolCommand) -> (r: String)
    ensures
        r@ == command_text(cmd.program@, views(cmd.args@)),
{
    let ghost escaped = views(cmd.args@).map_values(|a: Seq<char>| shell_escaped(a));
    let mut line = cmd.program.clone();
    proof {
        reveal_strlit(" ");
    }
    line.append(" ");
    let ghost head = line@;
    let mut i: usize = 0;
    while i < cmd.args.len()
        invariant
            head == cmd.program@ + seq![' '],
            i <= cmd.args@.len(),
            escaped == views(cmd.args@).map_values(|a: Seq<char>| shell_escaped(a)),
            line@ == head + join_spaced(escaped.subrange(0, i as int)),
        decreases cmd.args.len() - i,
    {
        let ghost sub = escaped.subrange(0, i + 1);
        assert(sub.drop_last() =~= escaped.subrange(0, i as int));
        let ghost prev = line@;
        if i > 0 {
            line.append(" ");
        }
        let e = shell_escape(cmd.args[i].as_str());
        line.append(e.as_str());
        assert(e@ == escaped[i as int]);
        assert(sub.last() == escaped[i as int]);
        if i == 0 {
            assert(line@ =~= head + join_spaced(sub));
        } else {
            proof {
                reveal_strlit(" ");
            }
            assert(line@ == prev + seq![' '] + e@);
            assert(join_spaced(sub) == join_spaced(sub.drop_last()) + seq![' '] + sub.last());
            assert(line@ =~= head + join_spaced(sub));
        }
        i += 1;
    }
    assert(escaped.subrange(0, cmd.args@.len() as int) == escaped);
    trim_text(line.as_str())
}

/// The exit status reported for a process: its code, or -1 when it has none
/// (it was ended by a signal).
pub open spec fn status_of(code: Option<i32>) -> i32 {
    match code {
        Some(c) => c,
        None => -1i32,
    }
}

/// `e` is the tool-failure error of `cmd` for the given process output.
pub open spec fn is_tool_failed(
    e: PdfError,
    cmd: ToolCommand,
    code: Option<i32>,
    stdout: Seq<u8>,
    stderr: Seq<u8>,
) -> bool {
    match e {
        PdfError::ToolFailed { tool, command, status, stdout: o, stderr: x } => {
            &&& tool@ == crate::tool::tool_name(cmd.tool)
            &&& command@ == command_text(cmd.program@, views(cmd.args@))
            &&& status == status_of(code)
            &&& o@ == utf8_lossy(stdout)
            &&& x@ == utf8_lossy(stderr)
        },
        _ => false,
    }
}

/// Classifies a finished run of `cmd`. On success the result is the decoded
/// stdout when `cmd` captures it and empty text otherwise; on failure it is
/// the tool-failure error with the full decoded stdout and stderr.
pub fn finish_run(
    cmd: &ToolCommand,
    success: bool,
    code: Option<i32>,
    stdout: &[u8],
    stderr: &[u8],
) -> (r: Result<String, PdfError>)
    ensures
        success && cmd.capture ==> (r matches Ok(s) && s@ == utf8_lossy(stdout@)),
        success && !cmd.capture ==> (r matches Ok(s) && s@.len() == 0),
        !success ==> (r matches Err(e) && is_tool_failed(e, *cmd, code, stdout@, stderr@)),
{
    if success {
        if cmd.capture {
            return Ok(decode_lossy(stdout));
        }
        return Ok(String::new());
    }
    let status: i32 = match code {
        Some(c) => c,
        None => -1,
    };
    Err(
        PdfError::ToolFailed {
            tool: cmd.tool.name(),
            command: command_line(cmd),
            status,
            stdout: decode_lossy(stdout),
            stderr: decode_lossy(stderr),
        },
    )
}

} // verus!
