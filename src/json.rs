//! Machine-readable rendering of [`PdfInfo`].

use vstd::prelude::*;
use vstd::string::*;
use crate::info::PdfInfo;
use crate::text::{decimal, push_decimal};

verus! {

/// Control characters: general category Cc, U+0000 to U+001F and U+007F to
/// U+009F.
pub open spec fn is_control(c: char) -> bool {
    (c as u32) <= 0x1f || (0x7f <= (c as u32) && (c as u32) <= 0x9f)
}

pub open spec fn hex_digit(d: nat) -> char {
    seq!['0', '1', '2', '3', '4', '5', '6', '7', '8', '9', 'a', 'b', 'c', 'd', 'e', 'f'][d as int]
}

/// Four lowercase hex digits of `n`.
pub open spec fn hex4(n: nat) -> Seq<char> {
    seq![
        hex_digit((n / 4096) % 16),
        hex_digit((n / 256) % 16),
        hex_digit((n / 16) % 16),
        hex_digit(n % 16),
    ]
}

/// How one character appears inside a JSON string.
pub open spec fn escape_char(c: char) -> Seq<char> {
    if c == '"' {
        seq!['\\', '"']
    } else if c == '\\' {
        seq!['\\', '\\']
    } else if c == '\n' {
        seq!['\\', 'n']
    } else if c == '\r' {
        seq!['\\', 'r']
    } else if c == '\t' {
        seq!['\\', 't']
    } else if is_control(c) {
        seq!['\\', 'u'] + hex4(c as nat)
    } else {
        seq![c]
    }
}

/// The escaped characters of `s`, without the quotes.
pub open spec fn escape_body(s: Seq<char>) -> Seq<char>
    decreases s.len(),
{
    if s.len() == 0 {
        Seq::empty()
    } else {
        escape_body(s.drop_last()) + escape_char(s.last())
    }
}

/// `s` as a quoted JSON string.
pub open spec fn json_text(s: Seq<char>) -> Seq<char> {
    seq!['"'] + escape_body(s) + seq!['"']
}

fn push_hex4(out: &mut String, n: u32)
    requires
        n < 0x10000,
    ensures
        final(out)@ == old(out)@ + hex4(n as nat),
{
    let digits = "0123456789abcdef";
    proof {
        reveal_strlit("0123456789abcdef");
    }
    assert(digits@ =~= seq![
        '0', '1', '2', '3', '4', '5', '6', '7', '8', '9', 'a', 'b', 'c', 'd', 'e', 'f'
    ]);
    let d0 = ((n / 4096) % 16) as usize;
    let d1 = ((n / 256) % 16) as usize;
    let d2 = ((n / 16) % 16) as usize;
    let d3 = (n % 16) as usize;
    let s0 = digits.substring_char(d0, d0 + 1);
    let s1 = digits.substring_char(d1, d1 + 1);
    let s2 = digits.substring_char(d2, d2 + 1);
    let s3 = digits.substring_char(d3, d3 + 1);
    assert(s0@ =~= seq![hex_digit(d0 as nat)]);
    assert(s1@ =~= seq![hex_digit(d1 as nat)]);
    assert(s2@ =~= seq![hex_digit(d2 as nat)]);
    assert(s3@ =~= seq![hex_digit(d3 as nat)]);
    out.append(s0);
    out.append(s1);
    out.append(s2);
    out.append(s3);
    assert(final(out)@ =~= old(out)@ + hex4(n as nat));
}

/// Appends the JSON form of `c`.
fn push_escaped(out: &mut String, c: char, one: &str)
    requires
        one@ == seq![c],
    ensures
        final(out)@ == old(out)@ + escape_char(c),
{
    proof {
        reveal_strlit("\\\"");
        reveal_strlit("\\\\");
        reveal_strlit("\\n");
        reveal_strlit("\\r");
        reveal_strlit("\\t");
        reveal_strlit("\\u");
    }
    let code = c as u32;
    if c == '"' {
        out.append("\\\"");
    } else if c == '\\' {
        out.append("\\\\");
    } else if c == '\n' {
        out.append("\\n");
    } else if c == '\r' {
        out.append("\\r");
    } else if c == '\t' {
        out.append("\\t");
    } else if code <= 0x1f || (0x7f <= code && code <= 0x9f) {
        out.append("\\u");
        let ghost mid = out@;
        push_hex4(out, code);
        assert(final(out)@ =~= old(out)@ + escape_char(c));
    } else {
        out.append(one);
    }
}

/// `s` as a quoted JSON string: quotes, backslashes and control characters
/// escaped.
pub fn json_string(s: &str) -> (r: String)
    ensures
        r@ == json_text(s@),
{
    proof {
        reveal_strlit("\"");
    }
    let mut out = String::from_str("\"");
    let n = s.unicode_len();
    let mut i: usize = 0;
    while i < n
        invariant
            n == s@.len(),
            i <= n,
            out@ == seq!['"'] + escape_body(s@.subrange(0, i as int)),
        decreases n - i,
    {
        let c = s.get_char(i);
        let one = s.substring_char(i, i + 1);
        assert(one@ =~= seq![c]);
        let ghost sub = s@.subrange(0, i + 1);
        assert(sub.drop_last() =~= s@.subrange(0, i as int));
        push_escaped(&mut out, c, one);
        assert(out@ =~= seq!['"'] + escape_body(sub));
        i += 1;
    }
    assert(s@.subrange(0, n as int) =~= s@);
    proof {
        reveal_strlit("\"");
    }
    out.append("\"");
    out
}

/// One metadata line: four spaces, the key, `": "`, the value.
pub open spec fn json_entry(k: Seq<char>, v: Seq<char>) -> Seq<char> {
    "    "@ + json_text(k) + ": "@ + json_text(v)
}

/// The metadata lines, separated by `",\n"`.
pub open spec fn json_entries(m: Seq<(String, String)>) -> Seq<char>
    decreases m.len(),
{
    if m.len() == 0 {
        Seq::empty()
    } else if m.len() == 1 {
        json_entry(m[0].0@, m[0].1@)
    } else {
        json_entries(m.drop_last()) + ",\n"@ + json_entry(m.last().0@, m.last().1@)
    }
}

/// The JSON document for `info`: the page count, then the metadata object.
pub open spec fn info_json(pages: nat, m: Seq<(String, String)>) -> Seq<char> {
    "{\n"@ + "  \"pages\": "@ + decimal(pages) + ",\n"@ + "  \"metadata\": {"@ + if m.len() == 0 {
        "}\n"@
    } else {
        "\n"@ + json_entries(m) + "\n  }\n"@
    } + "}\n"@
}

/// Renders `info` as a JSON document, with the metadata pairs in the order
/// the list holds them (sorted by key for what `info_of_load` returns).
pub fn render_info_json(info: &PdfInfo) -> (r: String)
    ensures
        r@ == info_json(info.pages as nat, info.metadata@),
{
    let mut out = String::from_str("{\n");
    out.append("  \"pages\": ");
    push_decimal(&mut out, info.pages as u64);
    out.append(",\n");
    out.append("  \"metadata\": {");
    let ghost head = out@;
    let m = &info.metadata;
    if m.len() == 0 {
        out.append("}\n");
    } else {
        out.append("\n");
        let ghost start = out@;
        let mut i: usize = 0;
        while i < m.len()
            invariant
                i <= m@.len(),
                out@ == start + json_entries(m@.subrange(0, i as int)),
            decreases m.len() - i,
        {
            let ghost sub = m@.subrange(0, i + 1);
            assert(sub.drop_last() =~= m@.subrange(0, i as int));
            let ghost prev = out@;
            if i > 0 {
                out.append(",\n");
            }
            out.append("    ");
            let k = json_string(m[i].0.as_str());
            out.append(k.as_str());
            out.append(": ");
            let v = json_string(m[i].1.as_str());
            out.append(v.as_str());
            assert(out@ =~= start + json_entries(sub));
            i += 1;
        }
        assert(m@.subrange(0, m@.len() as int) =~= m@);
        out.append("\n  }\n");
    }
    out.append("}\n");
    assert(out@ =~= info_json(info.pages as nat, info.metadata@));
    out
}

} // verus!
