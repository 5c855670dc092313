//! The text of office documents: the text nodes of their XML, with the five
//! predefined entities decoded, and text normalised to its non-blank lines.
use vstd::prelude::*;

use crate::report::join;
use crate::document::{extract_pdf_literal_strings, pdf_literals, pdf_text};
use crate::text::{chars_of, concat, has_sub, push_str, str_contains, string_of, trim, trim_vec};

verus! {

// ---------------------------------------------------------------------------
// Searching and replacing
// ---------------------------------------------------------------------------

/// The first position of `c` in `s`, if any.
pub open spec fn first_index(s: Seq<char>, c: char) -> Option<int>
    decreases s.len(),
{
    if s.len() == 0 {
        None
    } else if s[0] == c {
        Some(0)
    } else {
        match first_index(s.drop_first(), c) {
            Some(i) => Some(i + 1),
            None => None,
        }
    }
}

/// `j` is the first position of `c` (or the end, when there is none).
pub proof fn lemma_first_index(s: Seq<char>, c: char, j: int)
    requires
        0 <= j <= s.len(),
        forall|k: int| 0 <= k < j ==> s[k] != c,
        j < s.len() ==> s[j] == c,
    ensures
        first_index(s, c) == (if j < s.len() {
            Some(j)
        } else {
            None::<int>
        }),
    decreases s.len(),
{
    if s.len() > 0 && s[0] != c {
        assert forall|k: int| 0 <= k < j - 1 implies s.drop_first()[k] != c by {
            assert(s.drop_first()[k] == s[k + 1]);
        }
        lemma_first_index(s.drop_first(), c, j - 1);
    }
}

/// A found position lies inside the text and holds the character.
pub proof fn lemma_first_index_found(s: Seq<char>, c: char)
    ensures
        first_index(s, c) matches Some(i) ==> 0 <= i < s.len() && s[i] == c,
    decreases s.len(),
{
    if s.len() > 0 && s[0] != c {
        lemma_first_index_found(s.drop_first(), c);
    }
}

/// Every occurrence of `p` in `s`, from left to right and without overlap,
/// replaced by `r` (as `str::replace` does).
pub open spec fn replace_all(s: Seq<char>, p: Seq<char>, r: Seq<char>) -> Seq<char>
    decreases s.len(),
{
    if p.len() == 0 || s.len() < p.len() {
        s
    } else if s.take(p.len() as int) == p {
        r + replace_all(s.skip(p.len() as int), p, r)
    } else {
        seq![s[0]] + replace_all(s.skip(1), p, r)
    }
}

/// The position of `c` at or after `start`, if any.
pub(crate) fn find_char_from(v: &Vec<char>, start: usize, c: char) -> (r: Option<usize>)
    requires
        start <= v.len(),
    ensures
        match r {
            Some(j) => start <= j < v.len() && first_index(v@.skip(start as int), c) == Some(
                j - start,
            ),
            None => first_index(v@.skip(start as int), c) is None,
        },
{
    let mut i: usize = start;
    while i < v.len()
        invariant
            start <= i <= v.len(),
            forall|k: int| start <= k < i ==> v@[k] != c,
        decreases v.len() - i,
    {
        if v[i] == c {
            proof {
                assert forall|k: int| 0 <= k < i - start implies v@.skip(start as int)[k] != c by {
                    assert(v@.skip(start as int)[k] == v@[start + k]);
                }
                lemma_first_index(v@.skip(start as int), c, i - start);
            }
            return Some(i);
        }
        i = i + 1;
    }
    proof {
        assert forall|k: int| 0 <= k < v.len() - start implies v@.skip(start as int)[k] != c by {
            assert(v@.skip(start as int)[k] == v@[start + k]);
        }
        lemma_first_index(v@.skip(start as int), c, v.len() - start);
    }
    None
}

/// The characters from `a` up to `b`.
pub(crate) fn slice_chars(v: &Vec<char>, a: usize, b: usize) -> (r: Vec<char>)
    requires
        a <= b <= v.len(),
    ensures
        r@ == v@.subrange(a as int, b as int),
{
    let mut r: Vec<char> = Vec::new();
    let mut i: usize = a;
    while i < b
        invariant
            a <= i <= b <= v.len(),
            r@ == v@.subrange(a as int, i as int),
        decreases b - i,
    {
        r.push(v[i]);
        assert(r@ =~= v@.subrange(a as int, i + 1));
        i = i + 1;
    }
    r
}

/// Whether `p` occurs in `s` at position `i`.
fn matches_at(s: &Vec<char>, p: &Vec<char>, i: usize) -> (r: bool)
    requires
        i + p.len() <= s.len(),
    ensures
        r == (s@.skip(i as int).take(p.len() as int) == p@),
{
    let mut j: usize = 0;
    while j < p.len()
        invariant
            j <= p.len(),
            i + p.len() <= s.len(),
            forall|k: int| 0 <= k < j ==> s@[i + k] == p@[k],
        decreases p.len() - j,
    {
        if s[i + j] != p[j] {
            assert(s@.skip(i as int).take(p.len() as int)[j as int] != p@[j as int]);
            return false;
        }
        j = j + 1;
    }
    assert(s@.skip(i as int).take(p.len() as int) =~= p@);
    true
}

/// Every occurrence of `p` replaced by `r`, from left to right.
pub(crate) fn replace_all_vec(s: &Vec<char>, p: &Vec<char>, r: &Vec<char>) -> (out: Vec<char>)
    requires
        p.len() > 0,
    ensures
        out@ == replace_all(s@, p@, r@),
{
    let mut out: Vec<char> = Vec::new();
    let mut i: usize = 0;
    assert(s@.skip(0) =~= s@);
    assert(out@ + replace_all(s@, p@, r@) =~= replace_all(s@, p@, r@));
    while i < s.len()
        invariant
            p.len() > 0,
            i <= s.len(),
            out@ + replace_all(s@.skip(i as int), p@, r@) == replace_all(s@, p@, r@),
        decreases s.len() - i,
    {
        let ghost rest = s@.skip(i as int);
        if p.len() <= s.len() - i && matches_at(s, p, i) {
            assert(rest.skip(p.len() as int) =~= s@.skip(i + p.len()));
            proof {
                vstd::seq_lib::lemma_concat_associative(out@, r@, replace_all(s@.skip(i + p.len()), p@, r@));
            }
            let mut k: usize = 0;
            let ghost before = out@;
            while k < r.len()
                invariant
                    k <= r.len(),
                    out@ == before + r@.take(k as int),
                decreases r.len() - k,
            {
                out.push(r[k]);
                assert(out@ =~= before + r@.take(k + 1));
                k = k + 1;
            }
            assert(r@.take(r.len() as int) =~= r@);
            i = i + p.len();
        } else {
            assert(rest.skip(1) =~= s@.skip(i + 1));
            assert(rest[0] == s@[i as int]);
            proof {
                vstd::seq_lib::lemma_concat_associative(out@, seq![s@[i as int]], replace_all(s@.skip(i + 1), p@, r@));
            }
            let ghost before = out@;
            out.push(s[i]);
            assert(out@ =~= before + seq![s@[i as int]]);
            i = i + 1;
        }
    }
    assert(replace_all(s@.skip(i as int), p@, r@) =~= Seq::<char>::empty());
    assert(out@ + Seq::<char>::empty() =~= out@);
    out
}

// ---------------------------------------------------------------------------
// XML text
// ---------------------------------------------------------------------------

/// The five predefined XML entities decoded, one after the other.
pub open spec fn decode_entities(s: Seq<char>) -> Seq<char> {
    replace_all(
        replace_all(
            replace_all(replace_all(replace_all(s, "&lt;"@, "<"@), "&gt;"@, ">"@), "&amp;"@, "&"@),
            "&quot;"@,
            "\""@,
        ),
        "&apos;"@,
        "'"@,
    )
}

fn replace_str(s: &Vec<char>, p: &str, r: &str) -> (out: Vec<char>)
    requires
        p@.len() > 0,
    ensures
        out@ == replace_all(s@, p@, r@),
{
    let pv = chars_of(p);
    let rv = chars_of(r);
    replace_all_vec(s, &pv, &rv)
}

fn decode_vec(v: &Vec<char>) -> (r: Vec<char>)
    ensures
        r@ == decode_entities(v@),
{
    proof {
        reveal_strlit("&lt;");
        reveal_strlit("&gt;");
        reveal_strlit("&amp;");
        reveal_strlit("&quot;");
        reveal_strlit("&apos;");
    }
    let a = replace_str(v, "&lt;", "<");
    let b = replace_str(&a, "&gt;", ">");
    let c = replace_str(&b, "&amp;", "&");
    let d = replace_str(&c, "&quot;", "\"");
    replace_str(&d, "&apos;", "'")
}

/// The five predefined XML entities decoded (`&lt;`, `&gt;`, `&amp;`,
/// `&quot;`, `&apos;`, in that order).
pub fn decode_xml_entities(value: &str) -> (r: String)
    ensures
        r@ == decode_entities(value@),
{
    let v = chars_of(value);
    let d = decode_vec(&v);
    string_of(&d)
}

/// The text nodes of XML: each stretch between a `>` and the next `<`,
/// trimmed and decoded, on a line of its own when it is not empty.
pub open spec fn text_nodes(rest: Seq<char>) -> Seq<char>
    decreases rest.len(),
{
    match first_index(rest, '>') {
        None => Seq::empty(),
        Some(a) => {
            let r2 = rest.skip(a + 1);
            match first_index(r2, '<') {
                None => Seq::empty(),
                Some(b) => {
                    proof {
                        lemma_first_index_found(rest, '>');
                        lemma_first_index_found(r2, '<');
                    }
                    let t = decode_entities(trim(r2.take(b)));
                    (if t.len() == 0 {
                        Seq::empty()
                    } else {
                        t.push('\n')
                    }) + text_nodes(r2.skip(b))
                },
            }
        },
    }
}

/// The text nodes of an XML document, one per line.
pub fn extract_xml_text_nodes(xml: &str) -> (r: String)
    ensures
        r@ == text_nodes(xml@),
{
    let v = chars_of(xml);
    let mut out: Vec<char> = Vec::new();
    let mut pos: usize = 0;
    assert(v@.skip(0) =~= v@);
    assert(out@ + text_nodes(v@) =~= text_nodes(v@));
    loop
        invariant_except_break
            pos <= v.len(),
            v@ == xml@,
            out@ + text_nodes(v@.skip(pos as int)) == text_nodes(xml@),
        ensures
            out@ == text_nodes(xml@),
        decreases v.len() - pos,
    {
        let ghost rest = v@.skip(pos as int);
        let a = match find_char_from(&v, pos, '>') {
            Some(a) => a,
            None => {
                assert(text_nodes(rest) =~= Seq::<char>::empty());
                assert(out@ + Seq::<char>::empty() =~= out@);
                break;
            },
        };
        assert(rest.skip(a - pos + 1) =~= v@.skip(a + 1));
        let b = match find_char_from(&v, a + 1, '<') {
            Some(b) => b,
            None => {
                assert(text_nodes(rest) =~= Seq::<char>::empty());
                assert(out@ + Seq::<char>::empty() =~= out@);
                break;
            },
        };
        let ghost r2 = v@.skip(a + 1);
        assert(r2.take(b - a - 1) =~= v@.subrange(a + 1, b as int));
        assert(r2.skip(b - a - 1) =~= v@.skip(b as int));
        let inner = slice_chars(&v, a + 1, b);
        let trimmed = trim_vec(&inner);
        let t = decode_vec(&trimmed);
        let ghost piece = if t@.len() == 0 {
            Seq::<char>::empty()
        } else {
            t@.push('\n')
        };
        proof {
            vstd::seq_lib::lemma_concat_associative(out@, piece, text_nodes(v@.skip(b as int)));
        }
        if t.len() > 0 {
            let ghost before = out@;
            let mut k: usize = 0;
            while k < t.len()
                invariant
                    k <= t.len(),
                    out@ == before + t@.take(k as int),
                decreases t.len() - k,
            {
                out.push(t[k]);
                assert(out@ =~= before + t@.take(k + 1));
                k = k + 1;
            }
            out.push('\n');
            assert(out@ =~= before + piece);
        } else {
            assert(out@ =~= out@ + piece);
        }
        pos = b;
    }
    string_of(&out)
}

/// The text of a word-processing document's XML: its text nodes.
pub fn strip_xml_tags(xml: &str) -> (r: String)
    ensures
        r@ == text_nodes(xml@),
{
    extract_xml_text_nodes(xml)
}

// ---------------------------------------------------------------------------
// Lines
// ---------------------------------------------------------------------------

/// The trimmed line, unless it is blank.
pub open spec fn nonblank(t: Seq<char>) -> Seq<Seq<char>> {
    if t.len() == 0 {
        Seq::empty()
    } else {
        seq![t]
    }
}

/// The lines of a text (split at `\n`), each trimmed, blank ones dropped.
pub open spec fn kept_lines(s: Seq<char>) -> Seq<Seq<char>>
    decreases s.len(),
{
    match first_index(s, '\n') {
        None => nonblank(trim(s)),
        Some(i) => {
            proof {
                lemma_first_index_found(s, '\n');
            }
            nonblank(trim(s.take(i))) + kept_lines(s.skip(i + 1))
        },
    }
}

proof fn lemma_join_push(items: Seq<Seq<char>>, t: Seq<char>, sep: Seq<char>)
    ensures
        join(items.push(t), sep) == (if items.len() == 0 {
            t
        } else {
            join(items, sep) + sep + t
        }),
{
    assert(items.push(t).drop_last() =~= items);
    if items.len() == 0 {
        assert(items.push(t) =~= seq![t]);
    }
}

/// A text as its non-blank lines, each trimmed, joined by newlines.
pub fn normalize_text(value: &str) -> (r: String)
    ensures
        r@ == join(kept_lines(value@), "\n"@),
{
    let v = chars_of(value);
    let mut out = String::new();
    let ghost mut done: Seq<Seq<char>> = Seq::empty();
    let mut pos: usize = 0;
    let mut any = false;
    assert(v@.skip(0) =~= v@);
    assert(done + kept_lines(v@) =~= kept_lines(v@));
    loop
        invariant_except_break
            pos <= v.len(),
            v@ == value@,
            any == (done.len() > 0),
            kept_lines(value@) == done + kept_lines(v@.skip(pos as int)),
            out@ == join(done, "\n"@),
        ensures
            out@ == join(kept_lines(value@), "\n"@),
        decreases v.len() - pos,
    {
        let ghost rest = v@.skip(pos as int);
        let end = match find_char_from(&v, pos, '\n') {
            Some(e) => e,
            None => v.len(),
        };
        assert(rest.take(end - pos) =~= v@.subrange(pos as int, end as int));
        let line = slice_chars(&v, pos, end);
        let t = trim_vec(&line);
        if t.len() > 0 {
            proof {
                lemma_join_push(done, t@, "\n"@);
            }
            if any {
                push_str(&mut out, "\n");
            }
            let ts = string_of(&t);
            push_str(&mut out, ts.as_str());
            any = true;
        }
        let ghost piece = nonblank(t@);
        proof {
            if t@.len() > 0 {
                assert(done + piece =~= done.push(t@));
            } else {
                assert(done + piece =~= done);
            }
        }
        if end == v.len() {
            proof {
                assert(kept_lines(rest) == piece);
                done = done + piece;
                assert(kept_lines(value@) =~= done);
            }
            break;
        }
        assert(rest.skip(end - pos + 1) =~= v@.skip(end + 1));
        proof {
            vstd::seq_lib::lemma_concat_associative(done, piece, kept_lines(v@.skip(end + 1)));
            done = done + piece;
        }
        pos = end + 1;
    }
    out
}

// ---------------------------------------------------------------------------
// Office documents
// ---------------------------------------------------------------------------

/// What reading one entry of a zip archive gave.
pub enum ZipRead {
    /// The bytes are not a zip archive (with the reason).
    NotArchive(String),
    /// The archive has no such entry (with the reason).
    Missing(String),
    /// The entry could not be read as UTF-8 text (with the reason).
    Unreadable(String),
    /// The entry's text.
    Text(String),
}

/// A zip read as plain values: which outcome (0 not an archive, 1 missing,
/// 2 unreadable, 3 text) and its text.
pub open spec fn zip_read_view(r: ZipRead) -> (int, Seq<char>) {
    match r {
        ZipRead::NotArchive(e) => (0, e@),
        ZipRead::Missing(e) => (1, e@),
        ZipRead::Unreadable(e) => (2, e@),
        ZipRead::Text(t) => (3, t@),
    }
}

/// What opening some bytes as a zip archive and reading one named entry as
/// text gives.
pub uninterp spec fn zip_entry_read(bytes: Seq<u8>, name: Seq<char>) -> (int, Seq<char>);

/// What opening some bytes as a zip archive and listing its entry names
/// gives: the reason it is not an archive, or each name (or the reason it
/// could not be decoded) in the archive's order.
pub uninterp spec fn zip_entry_list(bytes: Seq<u8>) -> Result<Seq<Result<Seq<char>, Seq<char>>>, Seq<char>>;

/// Reads one entry of a zip archive held in memory as text
/// (`zip::ZipArchive::new` over a cursor, `ZipArchive::by_name`, then
/// `Read::read_to_string`), each failure with its error's message. The
/// outcome is a function of the bytes and the name.
#[verifier::external_body]
fn zip_read_entry(bytes: &Vec<u8>, name: &str) -> (r: ZipRead)
    ensures
        zip_read_view(r) == zip_entry_read(bytes@, name@),
{
    let mut archive = match zip::ZipArchive::new(std::io::Cursor::new(bytes.clone())) {
        Ok(a) => a,
        Err(e) => return ZipRead::NotArchive(e.to_string()),
    };
    let mut file = match archive.by_name(name) {
        Ok(f) => f,
        Err(e) => return ZipRead::Missing(e.to_string()),
    };
    let mut text = String::new();
    match std::io::Read::read_to_string(&mut file, &mut text) {
        Ok(_) => ZipRead::Text(text),
        Err(e) => ZipRead::Unreadable(e.to_string()),
    }
}

/// The entry names of a zip archive held in memory, in the archive's order
/// (`zip::ZipArchive::new` over a cursor, then `ZipArchive::file_names`),
/// each name that cannot be decoded as its error's message. The outcome is
/// a function of the bytes.
#[verifier::external_body]
fn zip_entry_names(bytes: &Vec<u8>) -> (r: Result<Vec<Result<String, String>>, String>)
    ensures
        match r {
            Ok(names) => zip_entry_list(bytes@) == Ok::<Seq<Result<Seq<char>, Seq<char>>>, Seq<char>>(
                Seq::new(names@.len(), |i: int| match names@[i] {
                    Ok(n) => Ok::<Seq<char>, Seq<char>>(n@),
                    Err(e) => Err::<Seq<char>, Seq<char>>(e@),
                }),
            ),
            Err(e) => zip_entry_list(bytes@) == Err::<Seq<Result<Seq<char>, Seq<char>>>, Seq<char>>(e@),
        },
{
    match zip::ZipArchive::new(std::io::Cursor::new(bytes.clone())) {
        Ok(a) => Ok(a.file_names().map(|n| n.map(|c| c.into_owned()).map_err(|e| e.to_string())).collect()),
        Err(e) => Err(e.to_string()),
    }
}

/// The text of a word-processing document: the text nodes of its
/// `word/document.xml`, normalised; each failure says what went wrong.
pub open spec fn docx_text_spec(bytes: Seq<u8>, path: Seq<char>) -> Result<Seq<char>, Seq<char>> {
    let (kind, text) = zip_entry_read(bytes, "word/document.xml"@);
    if kind == 0 {
        Err("open zip "@ + path + ": "@ + text)
    } else if kind == 1 {
        Err("docx missing word/document.xml in "@ + path + ": "@ + text)
    } else if kind == 2 {
        Err("read docx xml "@ + path + ": "@ + text)
    } else {
        Ok(join(kept_lines(text_nodes(text)), "\n"@))
    }
}

fn message3(a: &str, b: &str, c: &str, d: &str) -> (r: String)
    ensures
        r@ == a@ + b@ + c@ + d@,
{
    let mut m = concat(a, b);
    push_str(&mut m, c);
    push_str(&mut m, d);
    m
}

/// The text of a word-processing document held in memory; `path` names it
/// in error messages.
pub fn extract_docx_text(bytes: &Vec<u8>, path: &str) -> (r: Result<String, String>)
    ensures
        match r {
            Ok(t) => docx_text_spec(bytes@, path@) == Ok::<Seq<char>, Seq<char>>(t@),
            Err(e) => docx_text_spec(bytes@, path@) == Err::<Seq<char>, Seq<char>>(e@),
        },
{
    match zip_read_entry(bytes, "word/document.xml") {
        ZipRead::NotArchive(e) => Err(message3("open zip ", path, ": ", e.as_str())),
        ZipRead::Missing(e) => Err(message3("docx missing word/document.xml in ", path, ": ", e.as_str())),
        ZipRead::Unreadable(e) => Err(message3("read docx xml ", path, ": ", e.as_str())),
        ZipRead::Text(xml) => {
            let nodes = strip_xml_tags(xml.as_str());
            Ok(normalize_text(nodes.as_str()))
        },
    }
}

/// A worksheet entry of a spreadsheet.
pub open spec fn is_worksheet(name: Seq<char>) -> bool {
    name.len() >= "xl/worksheets/"@.len() && name.take("xl/worksheets/"@.len() as int) == "xl/worksheets/"@
        && name.len() >= ".xml"@.len() && name.skip(name.len() - ".xml"@.len()) == ".xml"@
}

/// The text a spreadsheet's worksheets add, in the archive's order: a
/// newline and the text nodes of each; the first worksheet that cannot be
/// read makes it an error, and names that cannot be decoded are passed over.
pub open spec fn sheets_text(
    bytes: Seq<u8>,
    names: Seq<Result<Seq<char>, Seq<char>>>,
    path: Seq<char>,
) -> Result<Seq<char>, Seq<char>>
    decreases names.len(),
{
    if names.len() == 0 {
        Ok(Seq::empty())
    } else {
        match sheets_text(bytes, names.drop_last(), path) {
            Err(e) => Err(e),
            Ok(t) => match names.last() {
                Err(_) => Ok(t),
                Ok(n) => if !is_worksheet(n) {
                    Ok(t)
                } else {
                    let (kind, text) = zip_entry_read(bytes, n);
                    if kind == 0 {
                        Err("open zip "@ + path + ": "@ + text)
                    } else if kind == 3 {
                        Ok(t + "\n"@ + text_nodes(text))
                    } else {
                        Err("read xlsx worksheet "@ + n + ": "@ + text)
                    }
                },
            },
        }
    }
}

/// Once the worksheets fail, the later entries do not change the error.
proof fn lemma_sheets_error_sticks(
    bytes: Seq<u8>,
    names: Seq<Result<Seq<char>, Seq<char>>>,
    path: Seq<char>,
    k: int,
)
    requires
        0 <= k <= names.len(),
        sheets_text(bytes, names.take(k), path) is Err,
    ensures
        sheets_text(bytes, names, path) == sheets_text(bytes, names.take(k), path),
    decreases names.len() - k,
{
    if k < names.len() {
        assert(names.take(k + 1).drop_last() =~= names.take(k));
        lemma_sheets_error_sticks(bytes, names, path, k + 1);
    } else {
        assert(names.take(k) =~= names);
    }
}

/// The text of a spreadsheet: its shared strings' text nodes, then each
/// worksheet's, normalised; each failure says what went wrong.
pub open spec fn xlsx_text_spec(bytes: Seq<u8>, path: Seq<char>) -> Result<Seq<char>, Seq<char>> {
    match zip_entry_list(bytes) {
        Err(e) => Err("open zip "@ + path + ": "@ + e),
        Ok(names) => {
            let (kind, shared) = zip_entry_read(bytes, "xl/sharedStrings.xml"@);
            if kind == 0 {
                Err("open zip "@ + path + ": "@ + shared)
            } else if kind == 2 {
                Err("read xlsx shared strings "@ + path + ": "@ + shared)
            } else {
                let head = if kind == 3 {
                    text_nodes(shared)
                } else {
                    Seq::empty()
                };
                match sheets_text(bytes, names, path) {
                    Err(e) => Err(e),
                    Ok(t) => Ok(join(kept_lines(head + t), "\n"@)),
                }
            }
        },
    }
}

fn is_worksheet_name(name: &str) -> (r: bool)
    ensures
        r == is_worksheet(name@),
{
    proof {
        reveal_strlit("xl/worksheets/");
        reveal_strlit(".xml");
    }
    let v = chars_of(name);
    let p = chars_of("xl/worksheets/");
    let x = chars_of(".xml");
    if v.len() < p.len() || v.len() < x.len() {
        return false;
    }
    let head = slice_chars(&v, 0, p.len());
    let tail = slice_chars(&v, v.len() - x.len(), v.len());
    assert(v@.take(p@.len() as int) =~= v@.subrange(0, p@.len() as int));
    assert(v@.skip(v@.len() - x@.len()) =~= v@.subrange(v@.len() - x@.len(), v@.len() as int));
    crate::text::vec_eq(&head, &p) && crate::text::vec_eq(&tail, &x)
}

/// The text of a spreadsheet held in memory; `path` names it in error
/// messages.
pub fn extract_xlsx_text(bytes: &Vec<u8>, path: &str) -> (r: Result<String, String>)
    ensures
        match r {
            Ok(t) => xlsx_text_spec(bytes@, path@) == Ok::<Seq<char>, Seq<char>>(t@),
            Err(e) => xlsx_text_spec(bytes@, path@) == Err::<Seq<char>, Seq<char>>(e@),
        },
{
    let names = match zip_entry_names(bytes) {
        Ok(n) => n,
        Err(e) => return Err(message3("open zip ", path, ": ", e.as_str())),
    };
    let ghost nv = Seq::new(names@.len(), |i: int| match names@[i] {
        Ok(n) => Ok::<Seq<char>, Seq<char>>(n@),
        Err(e) => Err::<Seq<char>, Seq<char>>(e@),
    });
    let mut out = String::new();
    match zip_read_entry(bytes, "xl/sharedStrings.xml") {
        ZipRead::NotArchive(e) => return Err(message3("open zip ", path, ": ", e.as_str())),
        ZipRead::Missing(_) => {},
        ZipRead::Unreadable(e) => return Err(message3("read xlsx shared strings ", path, ": ", e.as_str())),
        ZipRead::Text(xml) => {
            let nodes = extract_xml_text_nodes(xml.as_str());
            push_str(&mut out, nodes.as_str());
        },
    }
    let ghost head = out@;
    let ghost shared_read = zip_entry_read(bytes@, "xl/sharedStrings.xml"@);
    assert(shared_read.0 != 0 && shared_read.0 != 2);
    assert(head == (if shared_read.0 == 3 {
        text_nodes(shared_read.1)
    } else {
        Seq::<char>::empty()
    }));
    let mut i: usize = 0;
    assert(nv.take(0) =~= Seq::<Result<Seq<char>, Seq<char>>>::empty());
    while i < names.len()
        invariant
            i <= names@.len(),
            nv == Seq::new(names@.len(), |i: int| match names@[i] {
                Ok(n) => Ok::<Seq<char>, Seq<char>>(n@),
                Err(e) => Err::<Seq<char>, Seq<char>>(e@),
            }),
            sheets_text(bytes@, nv.take(i as int), path@) matches Ok(t) && out@ == head + t,
            zip_entry_list(bytes@) == Ok::<Seq<Result<Seq<char>, Seq<char>>>, Seq<char>>(nv),
            shared_read == zip_entry_read(bytes@, "xl/sharedStrings.xml"@),
            shared_read.0 != 0 && shared_read.0 != 2,
            head == (if shared_read.0 == 3 {
                text_nodes(shared_read.1)
            } else {
                Seq::<char>::empty()
            }),
        decreases names.len() - i,
    {
        assert(nv.take(i + 1).drop_last() =~= nv.take(i as int));
        assert(nv.take(i + 1).last() == nv[i as int]);
        let ghost t0 = sheets_text(bytes@, nv.take(i as int), path@)->Ok_0;
        match &names[i] {
            Err(_) => {},
            Ok(n) => {
                if is_worksheet_name(n.as_str()) {
                    match zip_read_entry(bytes, n.as_str()) {
                        ZipRead::NotArchive(e) => {
                            proof {
                                lemma_sheets_error_sticks(bytes@, nv, path@, i + 1);
                            }
                            return Err(message3("open zip ", path, ": ", e.as_str()));
                        },
                        ZipRead::Missing(e) => {
                            proof {
                                lemma_sheets_error_sticks(bytes@, nv, path@, i + 1);
                            }
                            return Err(message3("read xlsx worksheet ", n.as_str(), ": ", e.as_str()));
                        },
                        ZipRead::Unreadable(e) => {
                            proof {
                                lemma_sheets_error_sticks(bytes@, nv, path@, i + 1);
                            }
                            return Err(message3("read xlsx worksheet ", n.as_str(), ": ", e.as_str()));
                        },
                        ZipRead::Text(xml) => {
                            let nodes = extract_xml_text_nodes(xml.as_str());
                            push_str(&mut out, "\n");
                            push_str(&mut out, nodes.as_str());
                            assert(out@ =~= head + (t0 + "\n"@ + text_nodes(xml@)));
                        },
                    }
                }
            },
        }
        i = i + 1;
    }
    assert(nv.take(names.len() as int) =~= nv);
    Ok(normalize_text(out.as_str()))
}

/// The text of a PDF held in memory: its literal strings, normalised.
pub fn extract_pdf_text(bytes: &Vec<u8>) -> (r: String)
    ensures
        r@ == join(kept_lines(pdf_text(pdf_literals(bytes@))), "\n"@),
{
    let text = extract_pdf_literal_strings(bytes.as_slice());
    normalize_text(text.as_str())
}

} // verus!
