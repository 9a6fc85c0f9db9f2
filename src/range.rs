//! Reading a page range typed by a user, such as `2-5`.

use vstd::prelude::*;
use vstd::string::*;
use crate::selection::PageSelection;
use crate::text::{decimal, push_decimal, trim_text, trimmed};

verus! {

/// Why a page range could not be read.
#[derive(Debug, Clone, Copy, PartialEq, Eq, Structural)]
pub enum PageRangeError {
    /// There is no `-` between the two page numbers.
    MissingDash,
    /// The text before the `-` is not a page number.
    BadStart,
    /// The text after the `-` is not a page number.
    BadEnd,
    /// A page number is 0; pages count from 1.
    ZeroPage { start: u32, end: u32 },
    /// The range ends before it starts.
    Reversed { start: u32, end: u32 },
}

pub open spec fn is_digit(c: char) -> bool {
    48 <= (c as u32) && (c as u32) <= 57
}

/// The value of a run of decimal digits.
pub open spec fn digits_value(s: Seq<char>) -> nat
    decreases s.len(),
{
    if s.len() == 0 {
        0
    } else {
        digits_value(s.drop_last()) * 10 + ((s.last() as u32) - 48) as nat
    }
}

/// The digits after an optional leading `+`.
pub open spec fn unsigned_body(s: Seq<char>) -> Seq<char> {
    if s.len() > 0 && s[0] == '+' {
        s.drop_first()
    } else {
        s
    }
}

/// How `u32::from_str` reads a text: an optional `+`, then one or more
/// decimal digits whose value fits in `u32`.
pub open spec fn parse_u32(s: Seq<char>) -> Option<nat> {
    let body = unsigned_body(s);
    if body.len() > 0 && (forall|i: int| 0 <= i < body.len() ==> is_digit(#[trigger] body[i]))
        && digits_value(body) <= u32::MAX {
        Some(digits_value(body))
    } else {
        None
    }
}

/// The index of the first `-` in `t`, or -1 when there is none.
pub open spec fn first_dash(t: Seq<char>) -> int
    decreases t.len(),
{
    if t.len() == 0 {
        -1
    } else {
        let p = first_dash(t.drop_last());
        if p >= 0 {
            p
        } else if t.last() == '-' {
            t.len() - 1
        } else {
            -1
        }
    }
}

/// What a typed page range means: the text trimmed, split at its first `-`,
/// each side trimmed and read as a page number; both must be at least 1 and
/// in order.
pub open spec fn range_parse(s: Seq<char>) -> Result<PageSelection, PageRangeError> {
    let t = trimmed(s);
    let d = first_dash(t);
    if d < 0 {
        Err(PageRangeError::MissingDash)
    } else {
        let a = parse_u32(trimmed(t.subrange(0, d)));
        let b = parse_u32(trimmed(t.subrange(d + 1, t.len() as int)));
        if a is None {
            Err(PageRangeError::BadStart)
        } else if b is None {
            Err(PageRangeError::BadEnd)
        } else if a->0 == 0 || b->0 == 0 {
            Err(PageRangeError::ZeroPage { start: a->0 as u32, end: b->0 as u32 })
        } else if a->0 > b->0 {
            Err(PageRangeError::Reversed { start: a->0 as u32, end: b->0 as u32 })
        } else {
            Ok(PageSelection::Range { start: a->0 as u32, end: b->0 as u32 })
        }
    }
}

proof fn lemma_digits_value_grows(s: Seq<char>, i: int)
    requires
        0 <= i <= s.len(),
    ensures
        digits_value(s.subrange(0, i)) <= digits_value(s),
    decreases s.len() - i,
{
    if i < s.len() {
        lemma_digits_value_grows(s, i + 1);
        let p = s.subrange(0, i + 1);
        assert(p.drop_last() =~= s.subrange(0, i));
    } else {
        assert(s.subrange(0, i) =~= s);
    }
}

/// Reads a page number as `u32::from_str` does.
pub fn parse_u32_text(s: &str) -> (r: Option<u32>)
    ensures
        r is None <==> parse_u32(s@) is None,
        r matches Some(v) ==> parse_u32(s@) == Some(v as nat),
{
    let n = s.unicode_len();
    let mut i: usize = 0;
    if n > 0 && s.get_char(0) == '+' {
        i = 1;
    }
    let ghost body = unsigned_body(s@);
    assert(body =~= s@.subrange(i as int, n as int));
    if i == n {
        return None;
    }
    let start = i;
    let mut acc: u64 = 0;
    while i < n
        invariant
            n == s@.len(),
            start <= i <= n,
            body == s@.subrange(start as int, n as int),
            body == unsigned_body(s@),
            forall|j: int| 0 <= j < i - start ==> is_digit(#[trigger] body[j]),
            acc == digits_value(body.subrange(0, i - start)),
            acc <= u32::MAX,
        decreases n - i,
    {
        let c = s.get_char(i);
        let code = c as u32;
        assert(body[i - start] == c);
        if code < 48 || code > 57 {
            assert(!is_digit(body[i - start]));
            assert(!(forall|j: int| 0 <= j < body.len() ==> is_digit(#[trigger] body[j])));
            assert(parse_u32(s@) is None);
            return None;
        }
        let ghost sub = body.subrange(0, i - start + 1);
        assert(sub.drop_last() =~= body.subrange(0, i - start));
        assert(sub.last() == c);
        acc = acc * 10 + (code - 48) as u64;
        if acc > 4294967295 {
            proof {
                lemma_digits_value_grows(body, i - start + 1);
                assert(digits_value(body) > u32::MAX);
                assert(parse_u32(s@) is None);
            }
            return None;
        }
        i += 1;
    }
    assert(body.subrange(0, n - start) =~= body);
    Some(acc as u32)
}

/// Reads a page range `<start>-<end>`, such as `2-5`.
pub fn parse_page_selection(s: &str) -> (r: Result<PageSelection, PageRangeError>)
    ensures
        r == range_parse(s@),
{
    let t = trim_text(s);
    let n = t.as_str().unicode_len();
    let mut d: usize = 0;
    while d < n
        invariant
            n == t@.len(),
            d <= n,
            first_dash(t@.subrange(0, d as int)) == -1,
        ensures
            d <= n,
            first_dash(t@.subrange(0, d as int)) == -1,
            d < n ==> t@[d as int] == '-',
        decreases n - d,
    {
        let ghost sub = t@.subrange(0, d + 1);
        assert(sub.drop_last() =~= t@.subrange(0, d as int));
        if t.as_str().get_char(d) == '-' {
            break;
        }
        d += 1;
    }
    if d == n {
        assert(t@.subrange(0, n as int) =~= t@);
        return Err(PageRangeError::MissingDash);
    }
    proof {
        let sub = t@.subrange(0, d + 1);
        assert(sub.drop_last() =~= t@.subrange(0, d as int));
        assert(first_dash(sub) == d);
        lemma_first_dash_prefix(t@, d + 1);
    }
    let left = trim_text(t.as_str().substring_char(0, d));
    let right = trim_text(t.as_str().substring_char(d + 1, n));
    let a = match parse_u32_text(left.as_str()) {
        Some(v) => v,
        None => return Err(PageRangeError::BadStart),
    };
    let b = match parse_u32_text(right.as_str()) {
        Some(v) => v,
        None => return Err(PageRangeError::BadEnd),
    };
    if a == 0 || b == 0 {
        return Err(PageRangeError::ZeroPage { start: a, end: b });
    }
    if a > b {
        return Err(PageRangeError::Reversed { start: a, end: b });
    }
    Ok(PageSelection::Range { start: a, end: b })
}

/// A dash found in a prefix is the first dash of the whole text.
proof fn lemma_first_dash_prefix(t: Seq<char>, k: int)
    requires
        0 <= k <= t.len(),
        first_dash(t.subrange(0, k)) >= 0,
    ensures
        first_dash(t) == first_dash(t.subrange(0, k)),
    decreases t.len() - k,
{
    if k < t.len() {
        let p = t.subrange(0, k + 1);
        assert(p.drop_last() =~= t.subrange(0, k));
        lemma_first_dash_prefix(t, k + 1);
    } else {
        assert(t.subrange(0, k) =~= t);
    }
}

/// A rotation angle a user may ask for.
#[derive(Debug, Clone, Copy, PartialEq, Eq, Structural)]
pub enum RotateDegrees {
    D90,
    D180,
    D270,
}

impl RotateDegrees {
    /// The angle in degrees.
    pub fn as_u16(self) -> (r: u16)
        ensures
            self == RotateDegrees::D90 ==> r == 90,
            self == RotateDegrees::D180 ==> r == 180,
            self == RotateDegrees::D270 ==> r == 270,
    {
        match self {
            RotateDegrees::D90 => 90,
            RotateDegrees::D180 => 180,
            RotateDegrees::D270 => 270,
        }
    }
}

/// The message shown for each range error.
pub open spec fn range_error_text(e: PageRangeError) -> Seq<char> {
    match e {
        PageRangeError::MissingDash => "expected format <start>-<end> (e.g. 1-3)"@,
        PageRangeError::BadStart => "parsing start page"@,
        PageRangeError::BadEnd => "parsing end page"@,
        PageRangeError::ZeroPage { start, end } => "pages are 1-based; got "@ + decimal(
            start as nat,
        ) + seq!['-'] + decimal(end as nat),
        PageRangeError::Reversed { start, end } => "page range start must be <= end; got "@
            + decimal(start as nat) + seq!['-'] + decimal(end as nat),
    }
}

impl PageRangeError {
    /// A message for the user.
    pub fn message(&self) -> (r: String)
        ensures
            r@ == range_error_text(*self),
    {
        proof {
            reveal_strlit("-");
        }
        match self {
            PageRangeError::MissingDash => String::from_str(
                "expected format <start>-<end> (e.g. 1-3)",
            ),
            PageRangeError::BadStart => String::from_str("parsing start page"),
            PageRangeError::BadEnd => String::from_str("parsing end page"),
            PageRangeError::ZeroPage { start, end } => {
                let mut out = String::from_str("pages are 1-based; got ");
                push_decimal(&mut out, *start as u64);
                out.append("-");
                push_decimal(&mut out, *end as u64);
                out
            },
            PageRangeError::Reversed { start, end } => {
                let mut out = String::from_str("page range start must be <= end; got ");
                push_decimal(&mut out, *start as u64);
                out.append("-");
                push_decimal(&mut out, *end as u64);
                out
            },
        }
    }
}

} // verus!
