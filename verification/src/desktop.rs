//! What the desktop console reads out of text: the lines of a text, report
//! titles, kinds and labelled values, skill front matter and sections,
//! benchmark scores, masked secrets and workspace names.
use vstd::prelude::*;

use crate::document::{file_name, file_name_exec};
use crate::document_text::{find_char_from, first_index, slice_chars};
use crate::report::join;
use crate::text::{
    chars_of, contains_any_text, has_any_folded, has_sub, is_ws, is_ws_exec, lower, lower_vec, owned,
    push_str, string_of, string_views, trim, trim_vec, vec_contains, vec_eq, views,
};

verus! {

// ---------------------------------------------------------------------------
// Lines
// ---------------------------------------------------------------------------

/// A line without the carriage return that ended it.
pub open spec fn strip_cr(l: Seq<char>) -> Seq<char> {
    if l.len() > 0 && l.last() == '\r' {
        l.drop_last()
    } else {
        l
    }
}

/// The lines of a text, as `str::lines` gives them: split after each `\n`
/// (a `\r` before it is dropped), with no empty line after a final `\n`.
pub open spec fn lines_spec(s: Seq<char>) -> Seq<Seq<char>>
    decreases s.len(),
{
    if s.len() == 0 {
        Seq::empty()
    } else {
        match first_index(s, '\n') {
            None => seq![s],
            Some(i) => {
                proof {
                    crate::document_text::lemma_first_index_found(s, '\n');
                }
                seq![strip_cr(s.take(i))] + lines_spec(s.skip(i + 1))
            },
        }
    }
}

/// The lines of a text (`str::lines`).
pub fn text_lines(s: &str) -> (r: Vec<String>)
    ensures
        string_views(r@) == lines_spec(s@),
{
    let v = chars_of(s);
    let mut out: Vec<String> = Vec::new();
    let mut pos: usize = 0;
    assert(v@.skip(0) =~= v@);
    assert(string_views(out@) + lines_spec(v@) =~= lines_spec(v@));
    while pos < v.len()
        invariant
            pos <= v.len(),
            v@ == s@,
            string_views(out@) + lines_spec(v@.skip(pos as int)) == lines_spec(s@),
        decreases v.len() - pos,
    {
        let ghost rest = v@.skip(pos as int);
        let ghost before = string_views(out@);
        match find_char_from(&v, pos, '\n') {
            None => {
                let line = slice_chars(&v, pos, v.len());
                assert(line@ =~= rest);
                out.push(string_of(&line));
                assert(string_views(out@) =~= before + lines_spec(rest));
                pos = v.len();
            },
            Some(e) => {
                assert(rest.take(e - pos) =~= v@.subrange(pos as int, e as int));
                assert(rest.skip(e - pos + 1) =~= v@.skip(e + 1));
                let mut end = e;
                if end > pos && v[end - 1] == '\r' {
                    end = end - 1;
                }
                let line = slice_chars(&v, pos, end);
                assert(line@ =~= strip_cr(rest.take(e - pos)));
                out.push(string_of(&line));
                proof {
                    vstd::seq_lib::lemma_concat_associative(
                        before,
                        seq![strip_cr(rest.take(e - pos))],
                        lines_spec(v@.skip(e + 1)),
                    );
                }
                assert(string_views(out@) =~= before + seq![strip_cr(rest.take(e - pos))]);
                pos = e + 1;
            },
        }
    }
    assert(lines_spec(v@.skip(pos as int)) =~= Seq::<Seq<char>>::empty());
    assert(string_views(out@) + Seq::<Seq<char>>::empty() =~= string_views(out@));
    out
}

// ---------------------------------------------------------------------------
// Small text helpers
// ---------------------------------------------------------------------------

/// `s` begins with `p`.
pub open spec fn starts_with(s: Seq<char>, p: Seq<char>) -> bool {
    s.len() >= p.len() && s.take(p.len() as int) == p
}

pub(crate) fn starts_with_str(s: &str, p: &str) -> (r: bool)
    ensures
        r == starts_with(s@, p@),
{
    let v = chars_of(s);
    let w = chars_of(p);
    if v.len() < w.len() {
        return false;
    }
    let head = slice_chars(&v, 0, w.len());
    assert(v@.take(w@.len() as int) =~= v@.subrange(0, w@.len() as int));
    vec_eq(&head, &w)
}

/// The text after its first `c`, if it has one.
pub open spec fn after_first(s: Seq<char>, c: char) -> Option<Seq<char>> {
    match first_index(s, c) {
        Some(i) => Some(s.skip(i + 1)),
        None => None,
    }
}

fn after_first_exec(v: &Vec<char>, c: char) -> (r: Option<Vec<char>>)
    ensures
        match r {
            Some(w) => after_first(v@, c) == Some(w@),
            None => after_first(v@, c) is None,
        },
{
    assert(v@.skip(0) =~= v@);
    match find_char_from(v, 0, c) {
        Some(i) => {
            let w = slice_chars(v, i + 1, v.len());
            assert(w@ =~= v@.skip(i + 1));
            Some(w)
        },
        None => None,
    }
}

/// Leading stars removed.
pub open spec fn strip_leading(s: Seq<char>, c: char) -> Seq<char>
    decreases s.len(),
{
    if s.len() > 0 && s[0] == c {
        strip_leading(s.drop_first(), c)
    } else {
        s
    }
}

/// Trailing stars removed.
pub open spec fn strip_trailing(s: Seq<char>, c: char) -> Seq<char>
    decreases s.len(),
{
    if s.len() > 0 && s.last() == c {
        strip_trailing(s.drop_last(), c)
    } else {
        s
    }
}

/// Every leading and trailing `c` removed (`str::trim_matches` with a character).
pub open spec fn trim_char(s: Seq<char>, c: char) -> Seq<char> {
    strip_trailing(strip_leading(s, c), c)
}

fn trim_char_vec(v: &Vec<char>, c: char) -> (r: Vec<char>)
    ensures
        r@ == trim_char(v@, c),
{
    let mut a: usize = 0;
    assert(v@.skip(0) =~= v@);
    while a < v.len() && v[a] == c
        invariant
            a <= v.len(),
            strip_leading(v@, c) == strip_leading(v@.skip(a as int), c),
        decreases v.len() - a,
    {
        assert(v@.skip(a as int).drop_first() =~= v@.skip(a + 1));
        a = a + 1;
    }
    let mut b: usize = v.len();
    let ghost lead = v@.skip(a as int);
    assert(lead =~= v@.subrange(a as int, b as int));
    while b > a && v[b - 1] == c
        invariant
            a <= b <= v.len(),
            lead == v@.skip(a as int),
            strip_leading(v@, c) == lead,
            strip_trailing(lead, c) == strip_trailing(v@.subrange(a as int, b as int), c),
        decreases b - a,
    {
        assert(v@.subrange(a as int, b as int).drop_last() =~= v@.subrange(a as int, b - 1));
        b = b - 1;
    }
    slice_chars(v, a, b)
}

// ---------------------------------------------------------------------------
// Markdown reports
// ---------------------------------------------------------------------------

/// The first `# ` heading's text, unless it is blank.
pub open spec fn first_heading(ls: Seq<Seq<char>>) -> Option<Seq<char>>
    decreases ls.len(),
{
    if ls.len() == 0 {
        None
    } else if starts_with(ls[0], "# "@) {
        let t = trim(ls[0].skip(2));
        if t.len() > 0 {
            Some(t)
        } else {
            None
        }
    } else {
        first_heading(ls.drop_first())
    }
}

/// The text of the first top-level heading of Markdown, unless it is blank.
pub fn first_markdown_heading(raw: &str) -> (r: Option<String>)
    ensures
        crate::graph::opt_view(r) == first_heading(lines_spec(raw@)),
{
    proof {
        reveal_strlit("# ");
    }
    let lines = text_lines(raw);
    let ghost ls = string_views(lines@);
    let mut i: usize = 0;
    assert(ls.skip(0) =~= ls);
    while i < lines.len()
        invariant
            i <= lines.len(),
            ls == string_views(lines@),
            ls == lines_spec(raw@),
            first_heading(ls) == first_heading(ls.skip(i as int)),
        decreases lines.len() - i,
    {
        proof {
            reveal_strlit("# ");
        }
        assert(ls.skip(i as int)[0] == lines@[i as int]@);
        if starts_with_str(lines[i].as_str(), "# ") {
            let v = chars_of(lines[i].as_str());
            let rest = slice_chars(&v, 2, v.len());
            assert(rest@ =~= lines@[i as int]@.skip(2));
            let t = trim_vec(&rest);
            if t.len() > 0 {
                return Some(string_of(&t));
            }
            return None;
        }
        assert(ls.skip(i as int).drop_first() =~= ls.skip(i + 1));
        i = i + 1;
    }
    None
}

/// The last position of `c` in `s`, if any.
pub open spec fn last_index(s: Seq<char>, c: char) -> Option<int>
    decreases s.len(),
{
    if s.len() == 0 {
        None
    } else if s.last() == c {
        Some(s.len() - 1)
    } else {
        last_index(s.drop_last(), c)
    }
}

/// The stem of a file name: the part before its last `.`, unless that dot
/// starts the name (as `Path::file_stem` has it).
pub open spec fn stem_of(name: Seq<char>) -> Seq<char> {
    match last_index(name, '.') {
        Some(k) => if k > 0 {
            name.take(k)
        } else {
            name
        },
        None => name,
    }
}

fn stem_exec(name: &Vec<char>) -> (r: Vec<char>)
    ensures
        r@ == stem_of(name@),
{
    let mut n: usize = name.len();
    assert(name@.take(n as int) =~= name@);
    while n > 0 && name[n - 1] != '.'
        invariant
            n <= name.len(),
            last_index(name@, '.') == last_index(name@.take(n as int), '.'),
        decreases n,
    {
        assert(name@.take(n as int).drop_last() =~= name@.take(n - 1));
        n = n - 1;
    }
    if n > 1 {
        let r = slice_chars(name, 0, n - 1);
        assert(r@ =~= name@.take(n - 1));
        r
    } else {
        slice_chars(name, 0, name.len())
    }
}

/// Every `from` replaced by `to`.
pub open spec fn replace_char(s: Seq<char>, from: char, to: char) -> Seq<char> {
    Seq::new(s.len(), |i: int| if s[i] == from {
        to
    } else {
        s[i]
    })
}

/// The title of a report: its first heading, else its file stem with
/// underscores as spaces, else `Untitled report`.
pub open spec fn report_title_of(path: Seq<char>, content: Seq<char>) -> Seq<char> {
    match first_heading(lines_spec(content)) {
        Some(t) => t,
        None => match file_name(path) {
            Some(n) => replace_char(stem_of(n), '_', ' '),
            None => "Untitled report"@,
        },
    }
}

/// The title of a report.
pub fn title_from_markdown(path: &str, content: &str) -> (r: String)
    ensures
        r@ == report_title_of(path@, content@),
{
    if let Some(t) = first_markdown_heading(content) {
        return t;
    }
    let p = chars_of(path);
    match file_name_exec(&p) {
        Some(n) => {
            let stem = stem_exec(&n);
            let mut out: Vec<char> = Vec::new();
            let mut i: usize = 0;
            while i < stem.len()
                invariant
                    i <= stem.len(),
                    out@ == replace_char(stem@, '_', ' ').take(i as int),
                decreases stem.len() - i,
            {
                out.push(if stem[i] == '_' {
                    ' '
                } else {
                    stem[i]
                });
                assert(out@ =~= replace_char(stem@, '_', ' ').take(i + 1));
                i = i + 1;
            }
            assert(replace_char(stem@, '_', ' ').take(stem.len() as int) =~= replace_char(stem@, '_', ' '));
            string_of(&out)
        },
        None => owned("Untitled report"),
    }
}

/// The text a report's kind is read from: its file name and first eight
/// lines, ASCII-lower-cased.
pub open spec fn report_kind_text(path: Seq<char>, content: Seq<char>) -> Seq<char> {
    let name = match file_name(path) {
        Some(n) => n,
        None => Seq::empty(),
    };
    let ls = lines_spec(content);
    lower(name + " "@ + join(ls.take(if ls.len() < 8 {
        ls.len() as int
    } else {
        8
    }), " "@))
}

/// The kind of a report, by the words in its name and first lines.
pub open spec fn report_kind(path: Seq<char>, content: Seq<char>) -> Seq<char> {
    let t = report_kind_text(path, content);
    if has_sub(t, "risk"@) {
        "Risk"@
    } else if has_sub(t, "inspection"@) || has_sub(t, "巡检"@) {
        "Inspection"@
    } else if has_sub(t, "maintenance"@) || has_sub(t, "维护"@) {
        "Maintenance"@
    } else if has_sub(t, "benchmark"@) {
        "Benchmark"@
    } else {
        "Report"@
    }
}

proof fn lemma_join_push(items: Seq<Seq<char>>, t: Seq<char>, sep: Seq<char>)
    ensures
        join(items.push(t), sep) == (if items.len() == 0 {
            t
        } else {
            join(items, sep) + sep + t
        }),
{
    assert(items.push(t).drop_last() =~= items);
    if items.len() == 0 {
        assert(items.push(t) =~= seq![t]);
    }
}

/// The kind of a report.
pub fn report_type_from(path: &str, content: &str) -> (r: String)
    ensures
        r@ == report_kind(path@, content@),
{
    let p = chars_of(path);
    let mut text = match file_name_exec(&p) {
        Some(n) => string_of(&n),
        None => String::new(),
    };
    push_str(&mut text, " ");
    let lines = text_lines(content);
    let ghost ls = string_views(lines@);
    let ghost head = text@;
    let mut i: usize = 0;
    while i < lines.len() && i < 8
        invariant
            i <= lines.len(),
            i <= 8,
            ls == string_views(lines@),
            text@ == head + join(ls.take(i as int), " "@),
        decreases lines.len() - i,
    {
        assert(ls.take(i + 1) =~= ls.take(i as int).push(ls[i as int]));
        proof {
            lemma_join_push(ls.take(i as int), ls[i as int], " "@);
        }
        if i > 0 {
            push_str(&mut text, " ");
        }
        push_str(&mut text, lines[i].as_str());
        i = i + 1;
    }
    assert(i == (if ls.len() < 8 {
        ls.len() as int
    } else {
        8
    }));
    let t = lower_vec(&chars_of(text.as_str()));
    if vec_contains(&t, &chars_of("risk")) {
        owned("Risk")
    } else if vec_contains(&t, &chars_of("inspection")) || vec_contains(&t, &chars_of("巡检")) {
        owned("Inspection")
    } else if vec_contains(&t, &chars_of("maintenance")) || vec_contains(&t, &chars_of("维护")) {
        owned("Maintenance")
    } else if vec_contains(&t, &chars_of("benchmark")) {
        owned("Benchmark")
    } else {
        owned("Report")
    }
}

/// The value after the first `:` (else the first `：`) of a line, trimmed
/// of whitespace and then of stars; none when missing or empty.
pub open spec fn labelled_value(line: Seq<char>) -> Option<Seq<char>> {
    let after = match after_first(line, ':') {
        Some(a) => Some(a),
        None => after_first(line, '：'),
    };
    match after {
        Some(a) => {
            let v = trim_char(trim(a), '*');
            if v.len() > 0 {
                Some(v)
            } else {
                None
            }
        },
        None => None,
    }
}

/// The value of a line that mentions one of the labels (ignoring ASCII case).
pub open spec fn value_after_label_spec(line: Seq<char>, labels: Seq<Seq<char>>) -> Option<Seq<char>> {
    if has_any_folded(line, labels) {
        labelled_value(line)
    } else {
        None
    }
}

fn labelled_value_exec(line: &str) -> (r: Option<String>)
    ensures
        crate::graph::opt_view(r) == labelled_value(line@),
{
    let v = chars_of(line);
    let after = match after_first_exec(&v, ':') {
        Some(a) => Some(a),
        None => after_first_exec(&v, '：'),
    };
    match after {
        Some(a) => {
            let t = trim_vec(&a);
            let w = trim_char_vec(&t, '*');
            if w.len() > 0 {
                Some(string_of(&w))
            } else {
                None
            }
        },
        None => None,
    }
}

/// The value of a line that mentions one of the labels.
pub fn value_after_label(line: &str, labels: &[&str]) -> (r: Option<String>)
    ensures
        crate::graph::opt_view(r) == value_after_label_spec(line@, views(labels@)),
{
    if contains_any_text(line, labels) {
        labelled_value_exec(line)
    } else {
        None
    }
}

/// A report as the console lists it.
pub struct ReportSummary {
    pub title: String,
    pub report_type: String,
    pub modified: String,
    pub file_name: String,
    pub path: String,
}

/// The summary of a report at `path`, modified at `modified`.
pub fn report_summary(path: &str, content: &str, modified: &str) -> (r: ReportSummary)
    ensures
        r.title@ == report_title_of(path@, content@),
        r.report_type@ == report_kind(path@, content@),
        r.modified@ == modified@,
        r.file_name@ == (match file_name(path@) {
            Some(n) => n,
            None => Seq::empty(),
        }),
        r.path@ == path@,
{
    let p = chars_of(path);
    let name = match file_name_exec(&p) {
        Some(n) => string_of(&n),
        None => String::new(),
    };
    ReportSummary {
        title: title_from_markdown(path, content),
        report_type: report_type_from(path, content),
        modified: owned(modified),
        file_name: name,
        path: owned(path),
    }
}

/// A report with the values read from its first lines.
pub struct ReportDetail {
    pub summary: ReportSummary,
    pub markdown: String,
    pub generated_time: String,
    pub risk_level: String,
    pub source_documents: Vec<String>,
    pub confidence: String,
}

/// The labels of the generation time.
pub open spec fn time_labels() -> Seq<Seq<char>> {
    views(["generated time", "generated_at", "time", "生成时间"]@)
}

/// The labels of the risk level.
pub open spec fn risk_labels() -> Seq<Seq<char>> {
    views(["risk level", "risk", "风险等级"]@)
}

/// The labels of the confidence.
pub open spec fn confidence_labels() -> Seq<Seq<char>> {
    views(["confidence", "置信度"]@)
}

/// The labels of the source documents.
pub open spec fn source_labels() -> Seq<Seq<char>> {
    views(["source document", "source documents", "sources", "来源文档"]@)
}

/// The first `n` lines, or all when there are fewer.
pub open spec fn first_lines(ls: Seq<Seq<char>>, n: int) -> Seq<Seq<char>> {
    ls.take(if ls.len() < n {
        ls.len() as int
    } else {
        n
    })
}

/// The value of the last line that has one for the labels, else the default.
pub open spec fn last_value(ls: Seq<Seq<char>>, labels: Seq<Seq<char>>, default: Seq<char>) -> Seq<char>
    decreases ls.len(),
{
    if ls.len() == 0 {
        default
    } else {
        match value_after_label_spec(ls.last(), labels) {
            Some(v) => v,
            None => last_value(ls.drop_last(), labels, default),
        }
    }
}

/// The values of the lines that have one for the labels, in order.
pub open spec fn all_values(ls: Seq<Seq<char>>, labels: Seq<Seq<char>>) -> Seq<Seq<char>>
    decreases ls.len(),
{
    if ls.len() == 0 {
        Seq::empty()
    } else {
        all_values(ls.drop_last(), labels) + match value_after_label_spec(ls.last(), labels) {
            Some(v) => seq![v],
            None => Seq::empty(),
        }
    }
}

/// The detail of a report: its summary and Markdown, and from its first 160
/// lines the last generation time (else the modification time), risk level
/// and confidence (else `N/A`), and every source document.
pub fn report_detail_from(path: &str, markdown: String, modified: &str) -> (r: ReportDetail)
    ensures
        r.summary.title@ == report_title_of(path@, markdown@),
        r.summary.report_type@ == report_kind(path@, markdown@),
        r.summary.modified@ == modified@,
        r.summary.path@ == path@,
        r.markdown == markdown,
        r.generated_time@ == last_value(first_lines(lines_spec(markdown@), 160), time_labels(), modified@),
        r.risk_level@ == last_value(first_lines(lines_spec(markdown@), 160), risk_labels(), "N/A"@),
        r.confidence@ == last_value(first_lines(lines_spec(markdown@), 160), confidence_labels(), "N/A"@),
        string_views(r.source_documents@) == all_values(first_lines(lines_spec(markdown@), 160), source_labels()),
{
    let summary = report_summary(path, markdown.as_str(), modified);
    let lines = text_lines(markdown.as_str());
    let ghost ls = string_views(lines@);
    let mut generated_time = owned(modified);
    let mut risk_level = owned("N/A");
    let mut confidence = owned("N/A");
    let mut source_documents: Vec<String> = Vec::new();
    let time_words = ["generated time", "generated_at", "time", "生成时间"];
    let risk_words = ["risk level", "risk", "风险等级"];
    let confidence_words = ["confidence", "置信度"];
    let source_words = ["source document", "source documents", "sources", "来源文档"];
    let mut i: usize = 0;
    assert(ls.take(0) =~= Seq::<Seq<char>>::empty());
    while i < lines.len() && i < 160
        invariant
            i <= lines.len(),
            i <= 160,
            ls == string_views(lines@),
            generated_time@ == last_value(ls.take(i as int), time_labels(), modified@),
            risk_level@ == last_value(ls.take(i as int), risk_labels(), "N/A"@),
            confidence@ == last_value(ls.take(i as int), confidence_labels(), "N/A"@),
            string_views(source_documents@) == all_values(ls.take(i as int), source_labels()),
            views(time_words@) == time_labels(),
            views(risk_words@) == risk_labels(),
            views(confidence_words@) == confidence_labels(),
            views(source_words@) == source_labels(),
        decreases lines.len() - i,
    {
        assert(ls.take(i + 1).drop_last() =~= ls.take(i as int));
        assert(ls.take(i + 1).last() == lines@[i as int]@);
        let line = lines[i].as_str();
        if let Some(v) = value_after_label(line, &time_words) {
            generated_time = v;
        }
        if let Some(v) = value_after_label(line, &risk_words) {
            risk_level = v;
        }
        if let Some(v) = value_after_label(line, &confidence_words) {
            confidence = v;
        }
        let ghost docs = string_views(source_documents@);
        if let Some(v) = value_after_label(line, &source_words) {
            let ghost vv = v@;
            source_documents.push(v);
            assert(string_views(source_documents@) =~= docs + seq![vv]);
        } else {
            assert(docs + Seq::<Seq<char>>::empty() =~= docs);
        }
        i = i + 1;
    }
    assert(ls.take(i as int) == first_lines(ls, 160));
    ReportDetail { summary, markdown, generated_time, risk_level, source_documents, confidence }
}

// ---------------------------------------------------------------------------
// Skill files
// ---------------------------------------------------------------------------

/// The value of a front-matter key: the text after the first `:` of the
/// first line naming the key, between the opening `---` and the closing
/// one, trimmed of whitespace and then of double quotes.
pub open spec fn front_value(ls: Seq<Seq<char>>, key: Seq<char>) -> Option<Seq<char>>
    decreases ls.len(),
{
    if ls.len() == 0 || ls[0] == "---"@ {
        None
    } else {
        match first_index(ls[0], ':') {
            Some(i) => if trim(ls[0].take(i)) == key {
                Some(trim_char(trim(ls[0].skip(i + 1)), '"'))
            } else {
                front_value(ls.drop_first(), key)
            },
            None => front_value(ls.drop_first(), key),
        }
    }
}

/// The value of a key in the front matter of Markdown that opens with `---`.
pub open spec fn frontmatter_spec(raw: Seq<char>, key: Seq<char>) -> Option<Seq<char>> {
    let ls = lines_spec(raw);
    if ls.len() == 0 || ls[0] != "---"@ {
        None
    } else {
        front_value(ls.drop_first(), key)
    }
}

/// The value of a front-matter key.
pub fn frontmatter_value(raw: &str, key: &str) -> (r: Option<String>)
    ensures
        crate::graph::opt_view(r) == frontmatter_spec(raw@, key@),
{
    proof {
        reveal_strlit("---");
    }
    let lines = text_lines(raw);
    let ghost ls = string_views(lines@);
    if lines.len() == 0 || !crate::text::str_eq(lines[0].as_str(), "---") {
        return None;
    }
    let kv = chars_of(key);
    let mut i: usize = 1;
    assert(ls.skip(1) =~= ls.drop_first());
    while i < lines.len()
        invariant
            1 <= i <= lines.len(),
            ls == string_views(lines@),
            ls == lines_spec(raw@),
            ls.len() > 0 && ls[0] == "---"@,
            kv@ == key@,
            front_value(ls.drop_first(), key@) == front_value(ls.skip(i as int), key@),
        decreases lines.len() - i,
    {
        proof {
            reveal_strlit("---");
        }
        let ghost cur = ls.skip(i as int);
        assert(cur[0] == lines@[i as int]@);
        assert(cur.drop_first() =~= ls.skip(i + 1));
        if crate::text::str_eq(lines[i].as_str(), "---") {
            return None;
        }
        let v = chars_of(lines[i].as_str());
        assert(v@.skip(0) =~= v@);
        match find_char_from(&v, 0, ':') {
            Some(c) => {
                let left = slice_chars(&v, 0, c);
                assert(left@ =~= v@.take(c as int));
                let lt = trim_vec(&left);
                if vec_eq(&lt, &kv) {
                    let right = slice_chars(&v, c + 1, v.len());
                    assert(right@ =~= v@.skip(c + 1));
                    let rt = trim_vec(&right);
                    let val = trim_char_vec(&rt, '"');
                    return Some(string_of(&val));
                }
            },
            None => {},
        }
        i = i + 1;
    }
    assert(ls.skip(i as int) =~= Seq::<Seq<char>>::empty());
    None
}

/// The lines of a `## ` section: from the line whose heading (after `## `,
/// trimmed) is `heading` up to the next `## ` line, each trimmed, without
/// blank lines and code fences.
pub open spec fn section_lines(ls: Seq<Seq<char>>, heading: Seq<char>, in_section: bool) -> Seq<Seq<char>>
    decreases ls.len(),
{
    if ls.len() == 0 {
        Seq::empty()
    } else {
        let t = trim(ls[0]);
        if starts_with(t, "## "@) {
            if in_section {
                Seq::empty()
            } else {
                section_lines(ls.drop_first(), heading, trim(strip_prefixes(t, "## "@)) == heading)
            }
        } else if in_section && t.len() > 0 && !starts_with(t, "```"@) {
            seq![t] + section_lines(ls.drop_first(), heading, in_section)
        } else {
            section_lines(ls.drop_first(), heading, in_section)
        }
    }
}

/// Every leading copy of `p` removed (`str::trim_start_matches` with a text).
pub open spec fn strip_prefixes(s: Seq<char>, p: Seq<char>) -> Seq<char>
    decreases s.len(),
{
    if p.len() > 0 && starts_with(s, p) {
        strip_prefixes(s.skip(p.len() as int), p)
    } else {
        s
    }
}

fn strip_prefixes_exec(s: &Vec<char>, p: &str) -> (r: Vec<char>)
    requires
        p@.len() > 0,
    ensures
        r@ == strip_prefixes(s@, p@),
{
    let pv = chars_of(p);
    let mut a: usize = 0;
    assert(s@.skip(0) =~= s@);
    loop
        invariant
            a <= s.len(),
            pv@ == p@,
            pv@.len() > 0,
            strip_prefixes(s@, p@) == strip_prefixes(s@.skip(a as int), p@),
        decreases s.len() - a,
    {
        let ghost rest = s@.skip(a as int);
        if pv.len() <= s.len() - a {
            let head = slice_chars(s, a, a + pv.len());
            assert(rest.take(pv@.len() as int) =~= s@.subrange(a as int, a + pv.len()));
            if vec_eq(&head, &pv) {
                assert(rest.skip(pv@.len() as int) =~= s@.skip(a + pv.len()));
                a = a + pv.len();
                continue;
            }
        }
        let r = slice_chars(s, a, s.len());
        assert(r@ =~= rest);
        return r;
    }
}

/// The text of a section of Markdown: its lines joined by spaces, none when
/// it is empty or missing.
pub open spec fn section_spec(raw: Seq<char>, heading: Seq<char>) -> Option<Seq<char>> {
    let ls = section_lines(lines_spec(raw), heading, false);
    if ls.len() == 0 {
        None
    } else {
        Some(join(ls, " "@))
    }
}

/// The text of a section of Markdown.
pub fn section_text(raw: &str, heading: &str) -> (r: Option<String>)
    ensures
        crate::graph::opt_view(r) == section_spec(raw@, heading@),
{
    proof {
        reveal_strlit("## ");
        reveal_strlit("```");
    }
    let lines = text_lines(raw);
    let ghost ls = string_views(lines@);
    let hv = chars_of(heading);
    let mut in_section = false;
    let mut out = String::new();
    let ghost mut done: Seq<Seq<char>> = Seq::empty();
    let mut count: usize = 0;
    let mut i: usize = 0;
    assert(ls.skip(0) =~= ls);
    assert(done + section_lines(ls, heading@, false) =~= section_lines(ls, heading@, false));
    while i < lines.len()
        invariant_except_break
            i <= lines.len(),
            ls == string_views(lines@),
            hv@ == heading@,
            count == done.len(),
            count <= i,
            out@ == join(done, " "@),
            section_lines(ls, heading@, false) == done + section_lines(ls.skip(i as int), heading@, in_section),
        ensures
            count == done.len(),
            out@ == join(done, " "@),
            section_lines(ls, heading@, false) == done,
        decreases lines.len() - i,
    {
        proof {
            reveal_strlit("## ");
            reveal_strlit("```");
        }
        let ghost cur = ls.skip(i as int);
        assert(cur[0] == lines@[i as int]@);
        assert(cur.drop_first() =~= ls.skip(i + 1));
        let v = chars_of(lines[i].as_str());
        let t = trim_vec(&v);
        let ts = string_of(&t);
        if starts_with_str(ts.as_str(), "## ") {
            if in_section {
                assert(done + Seq::<Seq<char>>::empty() =~= done);
                break;
            }
            let stripped = strip_prefixes_exec(&t, "## ");
            let st = trim_vec(&stripped);
            in_section = vec_eq(&st, &hv);
        } else if in_section && t.len() > 0 && !starts_with_str(ts.as_str(), "```") {
            proof {
                lemma_join_push(done, t@, " "@);
                vstd::seq_lib::lemma_concat_associative(done, seq![t@], section_lines(ls.skip(i + 1), heading@, in_section));
                assert(done.push(t@) =~= done + seq![t@]);
            }
            if count > 0 {
                push_str(&mut out, " ");
            }
            push_str(&mut out, ts.as_str());
            proof {
                done = done.push(t@);
            }
            count = count + 1;
        }
        i = i + 1;
    }
    if i == lines.len() {
        assert(ls.skip(i as int) =~= Seq::<Seq<char>>::empty());
        assert(done + Seq::<Seq<char>>::empty() =~= done);
    }
    if count == 0 {
        None
    } else {
        Some(out)
    }
}

/// The first line of a skill file that is not blank, a heading, a list item
/// or a code fence, trimmed, and cut to 180 characters; a stock description
/// when there is none.
pub open spec fn description_spec(raw: Seq<char>) -> Seq<char> {
    let ls = lines_spec(raw);
    let found = first_plain(ls);
    match found {
        Some(l) => l.take(if l.len() < 180 {
            l.len() as int
        } else {
            180
        }),
        None => "Local skill prompt"@,
    }
}

/// The first trimmed line that is plain text.
pub open spec fn first_plain(ls: Seq<Seq<char>>) -> Option<Seq<char>>
    decreases ls.len(),
{
    if ls.len() == 0 {
        None
    } else {
        let t = trim(ls[0]);
        if t.len() > 0 && !starts_with(t, "#"@) && !starts_with(t, "-"@) && !starts_with(t, "```"@) {
            Some(t)
        } else {
            first_plain(ls.drop_first())
        }
    }
}

/// The description of a skill file without one of its own.
pub fn fallback_description(raw: &str) -> (r: String)
    ensures
        r@ == description_spec(raw@),
{
    proof {
        reveal_strlit("Local skill prompt");
    }
    let lines = text_lines(raw);
    let ghost ls = string_views(lines@);
    let mut i: usize = 0;
    assert(ls.skip(0) =~= ls);
    while i < lines.len()
        invariant
            i <= lines.len(),
            ls == string_views(lines@),
            ls == lines_spec(raw@),
            first_plain(ls) == first_plain(ls.skip(i as int)),
        decreases lines.len() - i,
    {
        proof {
            reveal_strlit("#");
            reveal_strlit("-");
            reveal_strlit("```");
        }
        let ghost cur = ls.skip(i as int);
        assert(cur[0] == lines@[i as int]@);
        assert(cur.drop_first() =~= ls.skip(i + 1));
        let v = chars_of(lines[i].as_str());
        let t = trim_vec(&v);
        let ts = string_of(&t);
        if t.len() > 0 && !starts_with_str(ts.as_str(), "#") && !starts_with_str(ts.as_str(), "-")
            && !starts_with_str(ts.as_str(), "```") {
            let n = if t.len() < 180 {
                t.len()
            } else {
                180
            };
            let cut = slice_chars(&t, 0, n);
            assert(cut@ =~= t@.take(n as int));
            return string_of(&cut);
        }
        i = i + 1;
    }
    assert(ls.skip(i as int) =~= Seq::<Seq<char>>::empty());
    owned("Local skill prompt")
}

// ---------------------------------------------------------------------------
// Secrets and workspaces
// ---------------------------------------------------------------------------

/// A secret as shown: empty stays empty, an `sk-` key keeps its last four
/// characters, anything else is all stars.
pub open spec fn masked(text: Seq<char>) -> Seq<char> {
    if text.len() == 0 {
        Seq::empty()
    } else if !starts_with(text, "sk-"@) {
        "********"@
    } else {
        "sk-************"@ + text.skip(if text.len() >= 4 {
            text.len() - 4
        } else {
            0
        })
    }
}

/// A secret as shown.
pub fn mask_secret_text(text: &str) -> (r: String)
    ensures
        r@ == masked(text@),
{
    let v = chars_of(text);
    if v.len() == 0 {
        return String::new();
    }
    if !starts_with_str(text, "sk-") {
        return owned("********");
    }
    let from = if v.len() >= 4 {
        v.len() - 4
    } else {
        0
    };
    let tail = slice_chars(&v, from, v.len());
    assert(tail@ =~= v@.skip(from as int));
    let mut r = owned("sk-************");
    let ts = string_of(&tail);
    push_str(&mut r, ts.as_str());
    r
}

/// The name of a workspace: the file name of its path, else `Workspace`.
pub open spec fn workspace_name(path: Seq<char>) -> Seq<char> {
    match file_name(path) {
        Some(n) => n,
        None => "Workspace"@,
    }
}

/// The name of a workspace.
pub fn path_name(path: &str) -> (r: String)
    ensures
        r@ == workspace_name(path@),
{
    let p = chars_of(path);
    match file_name_exec(&p) {
        Some(n) => string_of(&n),
        None => owned("Workspace"),
    }
}

/// A workspace path ends in a name that is not blank.
pub open spec fn valid_workspace_spec(path: Seq<char>) -> bool {
    match file_name(path) {
        Some(n) => trim(n).len() > 0,
        None => false,
    }
}

/// Whether a workspace path ends in a name that is not blank.
pub fn valid_workspace_name(path: &str) -> (r: bool)
    ensures
        r == valid_workspace_spec(path@),
{
    let p = chars_of(path);
    match file_name_exec(&p) {
        Some(n) => trim_vec(&n).len() > 0,
        None => false,
    }
}

/// A character kept in a workspace id.
pub open spec fn id_char(c: char) -> char {
    if ('a' <= c && c <= 'z') || ('A' <= c && c <= 'Z') || ('0' <= c && c <= '9') || c == '-' || c == '_' {
        c
    } else {
        '_'
    }
}

/// The id of a workspace: its name with every character other than ASCII
/// letters, digits, `-` and `_` turned into `_`.
pub open spec fn workspace_id_spec(path: Seq<char>) -> Seq<char> {
    Seq::new(workspace_name(path).len(), |i: int| id_char(workspace_name(path)[i]))
}

/// The id of a workspace.
pub fn workspace_id(path: &str) -> (r: String)
    ensures
        r@ == workspace_id_spec(path@),
{
    let name = path_name(path);
    let v = chars_of(name.as_str());
    let mut out: Vec<char> = Vec::new();
    let mut i: usize = 0;
    while i < v.len()
        invariant
            i <= v.len(),
            v@ == workspace_name(path@),
            out@ == workspace_id_spec(path@).take(i as int),
        decreases v.len() - i,
    {
        let c = v[i];
        let k = if ('a' <= c && c <= 'z') || ('A' <= c && c <= 'Z') || ('0' <= c && c <= '9') || c == '-'
            || c == '_' {
            c
        } else {
            '_'
        };
        out.push(k);
        assert(out@ =~= workspace_id_spec(path@).take(i + 1));
        i = i + 1;
    }
    assert(workspace_id_spec(path@).take(v.len() as int) =~= workspace_id_spec(path@));
    string_of(&out)
}

// ---------------------------------------------------------------------------
// Benchmark scores
// ---------------------------------------------------------------------------

/// The benchmark score names, in the order they are looked for in a line.
pub open spec fn score_keys() -> Seq<Seq<char>> {
    views(
        [
            "overall",
            "risk_assessment",
            "multi_component",
            "scada_derived",
            "advice_consistency",
            "safety_compliance",
            "report_generation",
            "rag_recall",
            "graph_matching",
        ]@,
    )
}

/// The benchmark score names in ascending order.
pub open spec fn sorted_score_keys() -> Seq<Seq<char>> {
    views(
        [
            "advice_consistency",
            "graph_matching",
            "multi_component",
            "overall",
            "rag_recall",
            "report_generation",
            "risk_assessment",
            "safety_compliance",
            "scada_derived",
        ]@,
    )
}

/// The first score name (in order) that the lower-cased line holds.
pub open spec fn first_key(l: Seq<char>, keys: Seq<Seq<char>>) -> Option<Seq<char>>
    decreases keys.len(),
{
    if keys.len() == 0 {
        None
    } else if has_sub(l, keys[0]) {
        Some(keys[0])
    } else {
        first_key(l, keys.drop_first())
    }
}

/// The first whitespace of `s`, if any.
pub open spec fn first_ws(s: Seq<char>) -> Option<int>
    decreases s.len(),
{
    if s.len() == 0 {
        None
    } else if is_ws(s[0]) {
        Some(0)
    } else {
        match first_ws(s.drop_first()) {
            Some(i) => Some(i + 1),
            None => None,
        }
    }
}

pub proof fn lemma_first_ws(s: Seq<char>, j: int)
    requires
        0 <= j <= s.len(),
        forall|k: int| 0 <= k < j ==> !is_ws(s[k]),
        j < s.len() ==> is_ws(s[j]),
    ensures
        first_ws(s) == (if j < s.len() {
            Some(j)
        } else {
            None::<int>
        }),
    decreases s.len(),
{
    if s.len() > 0 && !is_ws(s[0]) {
        assert forall|k: int| 0 <= k < j - 1 implies !is_ws(s.drop_first()[k]) by {
            assert(s.drop_first()[k] == s[k + 1]);
        }
        lemma_first_ws(s.drop_first(), j - 1);
    }
}

pub proof fn lemma_first_ws_found(s: Seq<char>)
    ensures
        first_ws(s) matches Some(i) ==> 0 <= i < s.len(),
    decreases s.len(),
{
    if s.len() > 0 && !is_ws(s[0]) {
        lemma_first_ws_found(s.drop_first());
    }
}

/// The whitespace-separated parts of a text (`str::split_whitespace`).
pub open spec fn ws_parts(s: Seq<char>) -> Seq<Seq<char>>
    decreases s.len(),
{
    match first_ws(s) {
        None => if s.len() > 0 {
            seq![s]
        } else {
            Seq::empty()
        },
        Some(i) => {
            proof {
                lemma_first_ws_found(s);
            }
            (if i > 0 {
                seq![s.take(i)]
            } else {
                Seq::empty()
            }) + ws_parts(s.skip(i + 1))
        },
    }
}

/// The first part that holds a `%`.
pub open spec fn first_percent(parts: Seq<Seq<char>>) -> Option<Seq<char>>
    decreases parts.len(),
{
    if parts.len() == 0 {
        None
    } else if parts[0].contains('%') {
        Some(parts[0])
    } else {
        first_percent(parts.drop_first())
    }
}

/// A character that a score keeps at its ends: a digit, `.` or `%`.
pub open spec fn score_char(c: char) -> bool {
    ('0' <= c && c <= '9') || c == '.' || c == '%'
}

/// Leading characters that are not score characters removed.
pub open spec fn strip_lead_nonscore(s: Seq<char>) -> Seq<char>
    decreases s.len(),
{
    if s.len() > 0 && !score_char(s[0]) {
        strip_lead_nonscore(s.drop_first())
    } else {
        s
    }
}

/// Trailing characters that are not score characters removed.
pub open spec fn strip_trail_nonscore(s: Seq<char>) -> Seq<char>
    decreases s.len(),
{
    if s.len() > 0 && !score_char(s.last()) {
        strip_trail_nonscore(s.drop_last())
    } else {
        s
    }
}

/// The score name and score of a benchmark line: the first score name that
/// the line holds (ignoring ASCII case) and its first whitespace-separated
/// part with a `%`, trimmed to digits, dots and `%`.
pub open spec fn score_line_spec(line: Seq<char>) -> Option<(Seq<char>, Seq<char>)> {
    match first_key(lower(line), score_keys()) {
        None => None,
        Some(k) => match first_percent(ws_parts(line)) {
            None => None,
            Some(p) => Some((k, strip_trail_nonscore(strip_lead_nonscore(p)))),
        },
    }
}

pub(crate) fn find_ws_from(v: &Vec<char>, start: usize) -> (r: Option<usize>)
    requires
        start <= v.len(),
    ensures
        match r {
            Some(j) => start <= j < v.len() && first_ws(v@.skip(start as int)) == Some(j - start),
            None => first_ws(v@.skip(start as int)) is None,
        },
{
    let mut i: usize = start;
    while i < v.len()
        invariant
            start <= i <= v.len(),
            forall|k: int| start <= k < i ==> !is_ws(v@[k]),
        decreases v.len() - i,
    {
        if is_ws_exec(v[i]) {
            proof {
                assert forall|k: int| 0 <= k < i - start implies !is_ws(v@.skip(start as int)[k]) by {
                    assert(v@.skip(start as int)[k] == v@[start + k]);
                }
                lemma_first_ws(v@.skip(start as int), i - start);
            }
            return Some(i);
        }
        i = i + 1;
    }
    proof {
        assert forall|k: int| 0 <= k < v.len() - start implies !is_ws(v@.skip(start as int)[k]) by {
            assert(v@.skip(start as int)[k] == v@[start + k]);
        }
        lemma_first_ws(v@.skip(start as int), v.len() - start);
    }
    None
}

fn has_percent(v: &Vec<char>) -> (r: bool)
    ensures
        r == v@.contains('%'),
{
    let mut i: usize = 0;
    while i < v.len()
        invariant
            i <= v.len(),
            forall|k: int| 0 <= k < i ==> v@[k] != '%',
        decreases v.len() - i,
    {
        if v[i] == '%' {
            assert(v@[i as int] == '%');
            return true;
        }
        i = i + 1;
    }
    false
}

fn first_percent_part(v: &Vec<char>) -> (r: Option<Vec<char>>)
    ensures
        match r {
            Some(p) => first_percent(ws_parts(v@)) == Some(p@),
            None => first_percent(ws_parts(v@)) is None,
        },
{
    let mut pos: usize = 0;
    assert(v@.skip(0) =~= v@);
    while pos < v.len()
        invariant
            pos <= v.len(),
            first_percent(ws_parts(v@)) == first_percent(ws_parts(v@.skip(pos as int))),
        decreases v.len() - pos,
    {
        let ghost rest = v@.skip(pos as int);
        let end = match find_ws_from(v, pos) {
            Some(e) => e,
            None => v.len(),
        };
        let part = slice_chars(v, pos, end);
        assert(rest.take(end - pos) =~= part@);
        if end == v.len() {
            assert(part@ =~= rest);
            if part.len() > 0 && has_percent(&part) {
                return Some(part);
            }
            assert(first_percent(ws_parts(rest)) is None) by {
                assert(first_percent(Seq::<Seq<char>>::empty()) is None);
                if part@.len() > 0 {
                    assert(ws_parts(rest) =~= seq![part@]);
                    assert(ws_parts(rest).drop_first() =~= Seq::<Seq<char>>::empty());
                } else {
                    assert(ws_parts(rest) =~= Seq::<Seq<char>>::empty());
                }
            }
            return None;
        }
        assert(rest.skip(end - pos + 1) =~= v@.skip(end + 1));
        let ghost head = if end > pos {
            seq![part@]
        } else {
            Seq::<Seq<char>>::empty()
        };
        assert(ws_parts(rest) == head + ws_parts(v@.skip(end + 1)));
        if end > pos && has_percent(&part) {
            assert((head + ws_parts(v@.skip(end + 1)))[0] == part@);
            return Some(part);
        }
        if end > pos {
            assert((head + ws_parts(v@.skip(end + 1))).drop_first() =~= ws_parts(v@.skip(end + 1)));
        } else {
            assert(head + ws_parts(v@.skip(end + 1)) =~= ws_parts(v@.skip(end + 1)));
        }
        pos = end + 1;
    }
    assert(ws_parts(v@.skip(pos as int)) =~= Seq::<Seq<char>>::empty());
    None
}

fn trim_nonscore(v: &Vec<char>) -> (r: Vec<char>)
    ensures
        r@ == strip_trail_nonscore(strip_lead_nonscore(v@)),
{
    let mut a: usize = 0;
    assert(v@.skip(0) =~= v@);
    while a < v.len() && !(('0' <= v[a] && v[a] <= '9') || v[a] == '.' || v[a] == '%')
        invariant
            a <= v.len(),
            strip_lead_nonscore(v@) == strip_lead_nonscore(v@.skip(a as int)),
        decreases v.len() - a,
    {
        assert(v@.skip(a as int).drop_first() =~= v@.skip(a + 1));
        a = a + 1;
    }
    let mut b: usize = v.len();
    let ghost lead = v@.skip(a as int);
    assert(lead =~= v@.subrange(a as int, b as int));
    while b > a && !(('0' <= v[b - 1] && v[b - 1] <= '9') || v[b - 1] == '.' || v[b - 1] == '%')
        invariant
            a <= b <= v.len(),
            lead == v@.skip(a as int),
            strip_lead_nonscore(v@) == lead,
            strip_trail_nonscore(lead) == strip_trail_nonscore(v@.subrange(a as int, b as int)),
        decreases b - a,
    {
        assert(v@.subrange(a as int, b as int).drop_last() =~= v@.subrange(a as int, b - 1));
        b = b - 1;
    }
    slice_chars(v, a, b)
}

/// The score name and score of a benchmark line, if it has both.
pub fn parse_score_line(line: &str) -> (r: Option<(String, String)>)
    ensures
        match r {
            Some((k, sc)) => score_line_spec(line@) == Some((k@, sc@)),
            None => score_line_spec(line@) is None,
        },
{
    let keys = [
        "overall",
        "risk_assessment",
        "multi_component",
        "scada_derived",
        "advice_consistency",
        "safety_compliance",
        "report_generation",
        "rag_recall",
        "graph_matching",
    ];
    let v = chars_of(line);
    let lowered = lower_vec(&v);
    let ghost ks = views(keys@);
    let mut i: usize = 0;
    let mut found: Option<&str> = None;
    assert(ks.skip(0) =~= ks);
    while i < 9
        invariant_except_break
            i <= 9,
            found is None,
            first_key(lower(line@), ks) == first_key(lower(line@), ks.skip(i as int)),
        invariant
            keys@.len() == 9,
            ks == views(keys@),
            ks == score_keys(),
            lowered@ == lower(line@),
        ensures
            match found {
                Some(k) => first_key(lower(line@), ks) == Some(k@),
                None => i == 9 && first_key(lower(line@), ks) == first_key(lower(line@), ks.skip(9)),
            },
        decreases 9 - i,
    {
        assert(ks.skip(i as int)[0] == keys@[i as int]@);
        assert(ks.skip(i as int).drop_first() =~= ks.skip(i + 1));
        if vec_contains(&lowered, &chars_of(keys[i])) {
            found = Some(keys[i]);
            break;
        }
        i = i + 1;
    }
    let key = match found {
        Some(k) => k,
        None => {
            assert(ks.skip(9) =~= Seq::<Seq<char>>::empty());
            return None;
        },
    };
    match first_percent_part(&v) {
        Some(p) => {
            let score = trim_nonscore(&p);
            Some((owned(key), string_of(&score)))
        },
        None => None,
    }
}

/// The score of the last line naming a score name, if any.
pub open spec fn last_score(ls: Seq<Seq<char>>, k: Seq<char>) -> Option<Seq<char>>
    decreases ls.len(),
{
    if ls.len() == 0 {
        None
    } else {
        match score_line_spec(ls.last()) {
            Some((k2, sc)) => if k2 == k {
                Some(sc)
            } else {
                last_score(ls.drop_last(), k)
            },
            None => last_score(ls.drop_last(), k),
        }
    }
}

/// The scores found for the names, in the names' order.
pub open spec fn scores_for(ls: Seq<Seq<char>>, keys: Seq<Seq<char>>) -> Seq<(Seq<char>, Seq<char>)>
    decreases keys.len(),
{
    if keys.len() == 0 {
        Seq::empty()
    } else {
        scores_for(ls, keys.drop_last()) + match last_score(ls, keys.last()) {
            Some(sc) => seq![(keys.last(), sc)],
            None => Seq::empty(),
        }
    }
}

/// The benchmark scores of a Markdown report: for each score name, in
/// ascending order, the score of the last line that names it.
pub fn parse_key_scores_from_markdown(markdown: &str) -> (r: Vec<(String, String)>)
    ensures
        Seq::new(r@.len(), |i: int| (r@[i].0@, r@[i].1@)) == scores_for(lines_spec(markdown@), sorted_score_keys()),
{
    let lines = text_lines(markdown);
    let ghost ls = string_views(lines@);
    let mut parsed: Vec<Option<(String, String)>> = Vec::new();
    let mut i: usize = 0;
    while i < lines.len()
        invariant
            i <= lines.len(),
            ls == string_views(lines@),
            parsed@.len() == i,
            forall|j: int| 0 <= j < i ==> match #[trigger] parsed@[j] {
                Some((k, sc)) => score_line_spec(ls[j]) == Some((k@, sc@)),
                None => score_line_spec(ls[j]) is None,
            },
        decreases lines.len() - i,
    {
        parsed.push(parse_score_line(lines[i].as_str()));
        i = i + 1;
    }
    let sorted = [
        "advice_consistency",
        "graph_matching",
        "multi_component",
        "overall",
        "rag_recall",
        "report_generation",
        "risk_assessment",
        "safety_compliance",
        "scada_derived",
    ];
    let mut out: Vec<(String, String)> = Vec::new();
    let mut k: usize = 0;
    assert(views(sorted@).take(0) =~= Seq::<Seq<char>>::empty());
    while k < 9
        invariant
            k <= 9,
            sorted@.len() == 9,
            views(sorted@) == sorted_score_keys(),
            ls == string_views(lines@),
            ls == lines_spec(markdown@),
            parsed@.len() == ls.len(),
            forall|j: int| 0 <= j < ls.len() ==> match #[trigger] parsed@[j] {
                Some((kk, sc)) => score_line_spec(ls[j]) == Some((kk@, sc@)),
                None => score_line_spec(ls[j]) is None,
            },
            Seq::new(out@.len(), |i: int| (out@[i].0@, out@[i].1@)) == scores_for(ls, views(sorted@).take(k as int)),
        decreases 9 - k,
    {
        let key = sorted[k];
        let mut j: usize = parsed.len();
        let mut hit: Option<String> = None;
        assert(ls.take(j as int) =~= ls);
        while j > 0
            invariant_except_break
                hit is None,
                last_score(ls, key@) == last_score(ls.take(j as int), key@),
            invariant
                j <= parsed@.len() == ls.len(),
                forall|m: int| 0 <= m < ls.len() ==> match #[trigger] parsed@[m] {
                    Some((kk, sc)) => score_line_spec(ls[m]) == Some((kk@, sc@)),
                    None => score_line_spec(ls[m]) is None,
                },
            ensures
                match hit {
                    Some(sc) => last_score(ls, key@) == Some(sc@),
                    None => j == 0 && last_score(ls, key@) == last_score(ls.take(0), key@),
                },
            decreases j,
        {
            assert(ls.take(j as int).last() == ls[j - 1]);
            assert(ls.take(j as int).drop_last() =~= ls.take(j - 1));
            match &parsed[j - 1] {
                Some((kk, sc)) => {
                    if crate::text::str_eq(kk.as_str(), key) {
                        hit = Some(sc.clone());
                        break;
                    }
                },
                None => {},
            }
            j = j - 1;
        }
        let ghost before = Seq::new(out@.len(), |i: int| (out@[i].0@, out@[i].1@));
        assert(views(sorted@).take(k + 1).drop_last() =~= views(sorted@).take(k as int));
        assert(views(sorted@).take(k + 1).last() == key@);
        match hit {
            Some(sc) => {
                let ghost scv = sc@;
                out.push((owned(key), sc));
                assert(Seq::new(out@.len(), |i: int| (out@[i].0@, out@[i].1@)) =~= before + seq![(key@, scv)]);
            },
            None => {
                assert(ls.take(0) =~= Seq::<Seq<char>>::empty());
                assert(before + Seq::<(Seq<char>, Seq<char>)>::empty() =~= before);
            },
        }
        k = k + 1;
    }
    assert(views(sorted@).take(9) =~= views(sorted@));
    out
}

} // verus!
