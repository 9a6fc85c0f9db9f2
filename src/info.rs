//! Structural inspection of a PDF: page count and document metadata.

use vstd::prelude::*;
use vstd::string::*;
use crate::error::PdfError;
use crate::text::{decode_lossy, signed_decimal, signed_decimal_string, utf8_lossy};

verus! {

/// A metadata value as the document holds it, reduced to what the library
/// reads of it.
#[derive(Debug, Clone)]
pub enum PdfValue {
    /// The bytes of a string or of a name.
    Text(Vec<u8>),
    /// An integer.
    Integer(i64),
    /// A real number, already in its decimal text.
    Real(String),
    /// A boolean.
    Boolean(bool),
    /// Any other kind of object (array, dictionary, stream, null, reference).
    Other,
}

/// The text a metadata value is shown as, if it is of a kind that has one.
pub open spec fn value_text(v: PdfValue) -> Option<Seq<char>> {
    match v {
        PdfValue::Text(b) => Some(utf8_lossy(b@)),
        PdfValue::Integer(i) => Some(signed_decimal(i as int)),
        PdfValue::Real(t) => Some(t@),
        PdfValue::Boolean(b) => Some(if b { "true"@ } else { "false"@ }),
        PdfValue::Other => None,
    }
}

/// The metadata that a list of dictionary entries gives: each entry whose
/// value has a text sets its decoded key to that text, later entries over
/// earlier ones.
pub open spec fn meta_map(entries: Seq<(Vec<u8>, PdfValue)>) -> Map<Seq<char>, Seq<char>>
    decreases entries.len(),
{
    if entries.len() == 0 {
        Map::empty()
    } else {
        let m = meta_map(entries.drop_last());
        let last = entries.last();
        match value_text(last.1) {
            Some(t) => m.insert(utf8_lossy(last.0@), t),
            None => m,
        }
    }
}

/// `a` sorts before `b`, deciding at position `i`: they agree before it, and
/// there `a` ends while `b` goes on, or `a`'s character is the smaller.
pub open spec fn text_lt_at(a: Seq<char>, b: Seq<char>, i: int) -> bool {
    &&& 0 <= i <= a.len()
    &&& i <= b.len()
    &&& a.subrange(0, i) == b.subrange(0, i)
    &&& ((i == a.len() && i < b.len()) || (i < a.len() && i < b.len() && (a[i] as u32) < (
    b[i] as u32)))
}

/// Lexicographic order of texts by code point.
pub open spec fn text_lt(a: Seq<char>, b: Seq<char>) -> bool {
    exists|i: int| text_lt_at(a, b, i)
}

/// Keys strictly increase along the list.
pub open spec fn keys_sorted(m: Seq<(String, String)>) -> bool {
    forall|i: int| 0 <= i && i + 1 < m.len() ==> text_lt(#[trigger] m[i].0@, m[i + 1].0@)
}

/// No key occurs twice.
pub open spec fn keys_distinct(m: Seq<(String, String)>) -> bool {
    forall|i: int, j: int| 0 <= i < m.len() && 0 <= j < m.len() && i != j ==> #[trigger] m[i].0@
        != #[trigger] m[j].0@
}

/// The list holds exactly the pairs of `map`.
pub open spec fn represents(m: Seq<(String, String)>, map: Map<Seq<char>, Seq<char>>) -> bool {
    &&& keys_distinct(m)
    &&& forall|i: int| 0 <= i < m.len() ==> map.contains_key(#[trigger] m[i].0@) && map[m[i].0@]
        == m[i].1@
    &&& forall|k: Seq<char>| #[trigger] map.contains_key(k) ==> exists|i: int| 0 <= i < m.len()
        && #[trigger] m[i].0@ == k
}

/// Basic information about a PDF file.
#[derive(Debug, Clone)]
pub struct PdfInfo {
    /// Total number of pages.
    pub pages: u32,
    /// Document metadata as (key, value) pairs, sorted by key, each key once.
    pub metadata: Vec<(String, String)>,
}

/// Compares two texts by code point: -1, 0 or 1 as `a` sorts before, equal
/// to, or after `b`.
pub fn compare_text(a: &str, b: &str) -> (r: i8)
    ensures
        r == -1 || r == 0 || r == 1,
        r == -1 ==> text_lt(a@, b@),
        r == 0 ==> a@ == b@,
        r == 1 ==> text_lt(b@, a@),
{
    let na = a.unicode_len();
    let nb = b.unicode_len();
    let mut i: usize = 0;
    while i < na && i < nb
        invariant
            na == a@.len(),
            nb == b@.len(),
            i <= na,
            i <= nb,
            a@.subrange(0, i as int) == b@.subrange(0, i as int),
        decreases na - i,
    {
        let ca = a.get_char(i);
        let cb = b.get_char(i);
        if (ca as u32) < (cb as u32) {
            assert(text_lt_at(a@, b@, i as int));
            return -1;
        }
        if (cb as u32) < (ca as u32) {
            assert(text_lt_at(b@, a@, i as int));
            return 1;
        }
        assert(ca == cb) by {
            assert((ca as u32) == (cb as u32));
        }
        assert(a@.subrange(0, i + 1) =~= a@.subrange(0, i as int).push(ca));
        assert(b@.subrange(0, i + 1) =~= b@.subrange(0, i as int).push(cb));
        i += 1;
    }
    if na == nb {
        assert(a@ =~= a@.subrange(0, i as int));
        assert(b@ =~= b@.subrange(0, i as int));
        0
    } else if na < nb {
        assert(text_lt_at(a@, b@, i as int));
        -1
    } else {
        assert(text_lt_at(b@, a@, i as int));
        1
    }
}

/// Sets `key` to `value` in a sorted metadata list, keeping it sorted.
fn insert_entry(m: &mut Vec<(String, String)>, key: String, value: String, map: Ghost<
    Map<Seq<char>, Seq<char>>,
>)
    requires
        keys_sorted(old(m)@),
        represents(old(m)@, map@),
    ensures
        keys_sorted(final(m)@),
        represents(final(m)@, map@.insert(key@, value@)),
{
    let ghost nm = map@.insert(key@, value@);
    let mut f: usize = 0;
    while f < m.len()
        invariant
            m@ == old(m)@,
            keys_sorted(old(m)@),
            represents(old(m)@, map@),
            nm == map@.insert(key@, value@),
            f <= m@.len(),
            forall|j: int| 0 <= j < f ==> #[trigger] m@[j].0@ != key@,
        decreases m.len() - f,
    {
        if compare_text(m[f].0.as_str(), key.as_str()) == 0 {
            let old_pair = m.remove(f);
            let ghost removed = m@;
            m.insert(f, (old_pair.0, value));
            assert(m@ =~= old(m)@.update(f as int, m@[f as int]));
            assert(represents(m@, nm)) by {
                assert forall|k: Seq<char>| #[trigger] nm.contains_key(k) implies exists|i: int|
                    0 <= i < m@.len() && #[trigger] m@[i].0@ == k by {
                    if k != key@ {
                        assert(map@.contains_key(k));
                        let i = choose|i: int| 0 <= i < old(m)@.len() && #[trigger] old(m)@[i].0@ == k;
                        assert(m@[i].0@ == k);
                    } else {
                        assert(m@[f as int].0@ == k);
                    }
                }
            }
            assert forall|i: int| 0 <= i && i + 1 < m@.len() implies text_lt(
                #[trigger] m@[i].0@,
                m@[i + 1].0@,
            ) by {
                assert(old(m)@[i].0@ == m@[i].0@);
                assert(old(m)@[i + 1].0@ == m@[i + 1].0@);
            }
            return;
        }
        f += 1;
    }
    let mut j: usize = 0;
    let mut done = false;
    while j < m.len() && !done
        invariant
            m@ == old(m)@,
            j <= m@.len(),
            forall|t: int| 0 <= t < m@.len() ==> #[trigger] m@[t].0@ != key@,
            j > 0 ==> text_lt(m@[j - 1].0@, key@),
            done ==> j < m@.len() && text_lt(key@, m@[j as int].0@),
        decreases m.len() - j, if done { 0int } else { 1int },
    {
        let c = compare_text(m[j].0.as_str(), key.as_str());
        if c == -1 {
            j += 1;
        } else {
            done = true;
        }
    }
    let ghost before = m@;
    let ghost k = key@;
    m.insert(j, (key, value));
    assert forall|i: int| 0 <= i && i + 1 < m@.len() implies text_lt(
        #[trigger] m@[i].0@,
        m@[i + 1].0@,
    ) by {
        if i + 1 < j {
            assert(m@[i] == before[i] && m@[i + 1] == before[i + 1]);
        } else if i + 1 == j {
            assert(m@[i] == before[i]);
        } else if i == j {
            assert(m@[i + 1] == before[i]);
        } else {
            assert(m@[i] == before[i - 1] && m@[i + 1] == before[i]);
        }
    }
    assert(represents(m@, nm)) by {
        assert forall|k2: Seq<char>| #[trigger] nm.contains_key(k2) implies exists|i: int|
            0 <= i < m@.len() && #[trigger] m@[i].0@ == k2 by {
            if k2 != k {
                assert(map@.contains_key(k2));
                let i = choose|i: int| 0 <= i < before.len() && #[trigger] before[i].0@ == k2;
                if i < j {
                    assert(m@[i].0@ == k2);
                } else {
                    assert(m@[i + 1].0@ == k2);
                }
            } else {
                assert(m@[j as int].0@ == k2);
            }
        }
        assert forall|a: int, b: int|
            0 <= a < m@.len() && 0 <= b < m@.len() && a != b implies #[trigger] m@[a].0@
            != #[trigger] m@[b].0@ by {
            if a != j && b != j {
                let a0 = if a < j { a } else { a - 1 };
                let b0 = if b < j { b } else { b - 1 };
                assert(m@[a] == before[a0] && m@[b] == before[b0]);
            } else if a == j {
                let b0 = if b < j { b } else { b - 1 };
                assert(m@[b] == before[b0]);
            } else {
                let a0 = if a < j { a } else { a - 1 };
                assert(m@[a] == before[a0]);
            }
        }
        assert forall|i: int| 0 <= i < m@.len() implies nm.contains_key(#[trigger] m@[i].0@)
            && nm[m@[i].0@] == m@[i].1@ by {
            if i < j {
                assert(m@[i] == before[i]);
            } else if i > j {
                assert(m@[i] == before[i - 1]);
            }
        }
    }
}

/// The text of a metadata value, for the kinds that have one.
pub fn value_to_text(v: &PdfValue) -> (r: Option<String>)
    ensures
        r is None <==> value_text(*v) is None,
        r matches Some(t) ==> value_text(*v) == Some(t@),
{
    match v {
        PdfValue::Text(b) => Some(decode_lossy(b.as_slice())),
        PdfValue::Integer(i) => Some(signed_decimal_string(*i)),
        PdfValue::Real(t) => Some(t.clone()),
        PdfValue::Boolean(b) => {
            if *b {
                Some(String::from_str("true"))
            } else {
                Some(String::from_str("false"))
            }
        },
        PdfValue::Other => None,
    }
}

/// The sorted metadata that a list of dictionary entries gives.
pub fn metadata_from_entries(entries: &Vec<(Vec<u8>, PdfValue)>) -> (r: Vec<(String, String)>)
    ensures
        keys_sorted(r@),
        represents(r@, meta_map(entries@)),
{
    let mut m: Vec<(String, String)> = Vec::new();
    let mut i: usize = 0;
    while i < entries.len()
        invariant
            i <= entries@.len(),
            keys_sorted(m@),
            represents(m@, meta_map(entries@.subrange(0, i as int))),
        decreases entries.len() - i,
    {
        let ghost prefix = entries@.subrange(0, i + 1);
        assert(prefix.drop_last() =~= entries@.subrange(0, i as int));
        match value_to_text(&entries[i].1) {
            Some(t) => {
                let key = decode_lossy(entries[i].0.as_slice());
                insert_entry(&mut m, key, t, Ghost(meta_map(entries@.subrange(0, i as int))));
            },
            None => {},
        }
        i += 1;
    }
    assert(entries@.subrange(0, entries@.len() as int) =~= entries@);
    m
}

/// `e` reports a page count too large for the result.
pub open spec fn is_page_overflow(e: PdfError) -> bool {
    match e {
        PdfError::InvalidArgument(m) => m@ == "page count overflow"@,
        _ => false,
    }
}

/// The information of a document with `page_total` pages whose Info
/// dictionary holds `entries`. Fails only when the count exceeds `u32`.
pub fn pdf_info(page_total: usize, entries: &Vec<(Vec<u8>, PdfValue)>) -> (r: Result<
    PdfInfo,
    PdfError,
>)
    ensures
        page_total <= u32::MAX <==> r is Ok,
        r matches Ok(i) ==> {
            &&& i.pages == page_total
            &&& keys_sorted(i.metadata@)
            &&& represents(i.metadata@, meta_map(entries@))
        },
        r matches Err(e) ==> is_page_overflow(e),
{
    if page_total > 4294967295 {
        return Err(PdfError::InvalidArgument(String::from_str("page count overflow")));
    }
    let pages = page_total as u32;
    let metadata = metadata_from_entries(entries);
    Ok(PdfInfo { pages, metadata })
}

#[verifier::external_type_specification]
#[verifier::external_body]
pub struct ExDocument(lopdf::Document);

#[verifier::external_type_specification]
#[verifier::external_body]
pub struct ExObject(lopdf::Object);

#[verifier::external_type_specification]
#[verifier::external_body]
pub struct ExDictionary(lopdf::Dictionary);

/// The number of leaf pages that lopdf's walk of the page tree reaches; it
/// depends on the document alone.
pub uninterp spec fn leaf_pages(doc: lopdf::Document) -> usize;

/// Whether the document's trailer has an entry under `key`; it depends on
/// the document alone.
pub uninterp spec fn trailer_has(doc: lopdf::Document, key: Seq<u8>) -> bool;

/// The trailer key of the Info dictionary: the bytes of `Info`.
pub open spec fn info_key() -> Seq<u8> {
    seq![73u8, 110u8, 102u8, 111u8]
}

/// Relies on `lopdf::Document::get_pages`: the leaf pages reached through
/// the page tree, counted.
#[verifier::external_body]
fn page_total(doc: &lopdf::Document) -> (r: usize)
    ensures
        r == leaf_pages(*doc),
{
    doc.get_pages().len()
}

/// Relies on `lopdf::Dictionary::get`, on the trailer: the entry under `key`.
#[verifier::external_body]
fn trailer_entry<'a>(doc: &'a lopdf::Document, key: &[u8]) -> (r: Option<&'a lopdf::Object>)
    ensures
        r is Some <==> trailer_has(*doc, key@),
{
    doc.trailer.get(key).ok()
}

/// Relies on `lopdf::Object::as_reference`: the object id when `obj` is a
/// reference.
#[verifier::external_body]
fn object_reference(obj: &lopdf::Object) -> (r: Option<(u32, u16)>) {
    obj.as_reference().ok()
}

/// Relies on `lopdf::Document::get_object`: the object under `id`, with
/// references followed.
#[verifier::external_body]
fn document_object<'a>(doc: &'a lopdf::Document, id: (u32, u16)) -> (r: Option<&'a lopdf::Object>) {
    doc.get_object(id).ok()
}

/// Relies on `lopdf::Object::as_dict`: the dictionary when `obj` is one.
#[verifier::external_body]
fn object_dictionary(obj: &lopdf::Object) -> (r: Option<&lopdf::Dictionary>) {
    obj.as_dict().ok()
}

/// Tells the kinds of `lopdf::Object` apart and moves out what the library
/// reads; a real is taken in its decimal text (`f32`'s `Display`).
#[verifier::external_body]
fn object_value(obj: &lopdf::Object) -> (r: PdfValue) {
    match obj {
        lopdf::Object::String(bytes, _) => PdfValue::Text(bytes.clone()),
        lopdf::Object::Name(name) => PdfValue::Text(name.clone()),
        lopdf::Object::Integer(i) => PdfValue::Integer(*i),
        lopdf::Object::Real(f) => PdfValue::Real(f.to_string()),
        lopdf::Object::Boolean(b) => PdfValue::Boolean(*b),
        _ => PdfValue::Other,
    }
}

/// Relies on `lopdf::Dictionary::iter`: the entries in the dictionary's
/// order, each value taken by [`object_value`].
#[verifier::external_body]
fn dictionary_entries(dict: &lopdf::Dictionary) -> (r: Vec<(Vec<u8>, PdfValue)>) {
    dict.iter().map(|(k, v)| (k.clone(), object_value(v))).collect()
}

/// The entries of the document's Info dictionary; none when the trailer has
/// no Info reference or it does not lead to a dictionary.
fn info_entries(doc: &lopdf::Document) -> (r: Vec<(Vec<u8>, PdfValue)>)
    ensures
        !trailer_has(*doc, info_key()) ==> r@.len() == 0,
{
    let key: Vec<u8> = vec![73u8, 110u8, 102u8, 111u8];
    assert(key@ =~= info_key());
    let entry = match trailer_entry(doc, key.as_slice()) {
        Some(e) => e,
        None => return Vec::new(),
    };
    let id = match object_reference(entry) {
        Some(id) => id,
        None => return Vec::new(),
    };
    let obj = match document_object(doc, id) {
        Some(o) => o,
        None => return Vec::new(),
    };
    match object_dictionary(obj) {
        Some(dict) => dictionary_entries(dict),
        None => Vec::new(),
    }
}

/// `e` reports that the file at `path` could not be read as a PDF, with the
/// parser's error `source` unchanged.
pub open spec fn is_parse_failure(e: PdfError, path: Seq<char>, source: lopdf::Error) -> bool {
    match e {
        PdfError::PdfParse { path: p, source: s } => p@ == path && s == source,
        _ => false,
    }
}

/// What a document's metadata must be: sorted, each key once, and exactly
/// the pairs that some list of Info entries gives under the coercion rules.
pub open spec fn metadata_of_entries(m: Seq<(String, String)>) -> bool {
    &&& keys_sorted(m)
    &&& exists|es: Seq<(Vec<u8>, PdfValue)>| represents(m, #[trigger] meta_map(es))
}

/// The page count and metadata of a loaded document. A trailer without an
/// Info entry gives empty metadata, never an error.
pub fn document_info(doc: &lopdf::Document) -> (r: Result<PdfInfo, PdfError>)
    ensures
        leaf_pages(*doc) <= u32::MAX <==> r is Ok,
        r matches Ok(i) ==> i.pages == leaf_pages(*doc) && metadata_of_entries(i.metadata@),
        !trailer_has(*doc, info_key()) ==> (r matches Ok(i) ==> i.metadata@.len() == 0),
        r matches Err(e) ==> is_page_overflow(e),
{
    let entries = info_entries(doc);
    let r = pdf_info(page_total(doc), &entries);
    if let Ok(i) = &r {
        assert(represents(i.metadata@, meta_map(entries@)));
        proof {
            if !trailer_has(*doc, info_key()) {
                assert(entries@ =~= Seq::<(Vec<u8>, PdfValue)>::empty());
                crate::laws::lemma_no_entries_no_metadata(i.metadata@);
            }
        }
    }
    r
}

/// The information of the PDF at `path` once the parser has tried to load
/// it: a failed load is reported with the path and the parser's error
/// unchanged.
pub fn info_of_load(path: &str, loaded: Result<lopdf::Document, lopdf::Error>) -> (r: Result<
    PdfInfo,
    PdfError,
>)
    ensures
        loaded matches Err(x) ==> (r matches Err(e) && is_parse_failure(e, path@, x)),
        loaded matches Ok(d) ==> (leaf_pages(d) <= u32::MAX <==> r is Ok),
        loaded matches Ok(d) ==> (r matches Ok(i) ==> i.pages == leaf_pages(d)),
        loaded matches Ok(d) ==> (!trailer_has(d, info_key()) ==> (r matches Ok(i)
            ==> i.metadata@.len() == 0)),
        loaded is Ok ==> (r is Ok || (r matches Err(e) && is_page_overflow(e))),
        r matches Ok(i) ==> metadata_of_entries(i.metadata@),
{
    match loaded {
        Ok(doc) => document_info(&doc),
        Err(source) => Err(PdfError::PdfParse { path: String::from_str(path), source }),
    }
}

} // verus!
