//! The decisions of a knowledge query around the scoring: which indexed
//! chunks pass the filters, the keyword terms of a query, snippets, the
//! query text with its SCADA context, the graph suggestions, and the advice
//! and risk assessment built from what was found.
use vstd::prelude::*;

use crate::advice::InspectionAdvice;
use crate::config::{table_view, WindRulesConfig};
use crate::document_text::nonblank;
use crate::graph::{opt_view, FaultGraph, GraphSuggestion};
use crate::graph_lookup::{
    multi_suggestions, query_suggestions, suggestions_for_multi_component_query, suggestions_for_query,
};
use crate::inspection::{advice_of, generate_wind_inspection_advice, HitEvidence};
use crate::memory::with_note;
use crate::normalize::{opt_as_str, opt_str_view};
use crate::query::{QueryRequest, SearchMode};
use crate::risk::{assessment_of, generate_wind_risk_assessment, RiskAssessment};
use crate::text::{
    all_ws, chars_of, concat, eq_ignore_ascii_case, has_sub, is_ws, is_ws_exec, lower, lower_str, owned,
    push_str, string_of, string_views, trim, trim_str, trim_vec, vec_contains, vec_eq,
};

verus! {

// ---------------------------------------------------------------------------
// Filters
// ---------------------------------------------------------------------------

/// An indexed chunk as the query sees it (its embedding vector stays with
/// the caller, which scores it).
pub struct ChunkRow {
    pub id: i64,
    pub path: String,
    pub text: String,
    pub file_type: Option<String>,
    pub domain: Option<String>,
    pub equipment: Option<String>,
    pub source_type: Option<String>,
    pub original_path: Option<String>,
    pub parser_status: Option<String>,
    pub reserved_media: bool,
}

/// A filter value is met: no filter, or an equal value ignoring ASCII case.
pub open spec fn optional_eq_spec(actual: Option<Seq<char>>, expected: Option<Seq<char>>) -> bool {
    match expected {
        None => true,
        Some(e) => match actual {
            Some(a) => lower(a) == lower(e),
            None => false,
        },
    }
}

/// Whether a filter value is met.
pub fn optional_eq(actual: Option<&str>, expected: Option<&str>) -> (r: bool)
    ensures
        r == optional_eq_spec(opt_str_view(actual), opt_str_view(expected)),
{
    match expected {
        None => true,
        Some(e) => match actual {
            Some(a) => eq_ignore_ascii_case(a, e),
            None => false,
        },
    }
}

/// The chunk meets every filter of the request.
pub open spec fn matches_filters(row: ChunkRow, req: QueryRequest) -> bool {
    &&& optional_eq_spec(opt_view(row.domain), opt_view(req.domain))
    &&& optional_eq_spec(opt_view(row.equipment), opt_view(req.equipment))
    &&& optional_eq_spec(opt_view(row.file_type), opt_view(req.file_type))
    &&& optional_eq_spec(opt_view(row.source_type), opt_view(req.source_type))
    &&& match req.reserved_media {
        Some(m) => row.reserved_media == m,
        None => true,
    }
}

/// Whether the chunk meets every filter of the request.
pub fn row_matches_filters(row: &ChunkRow, req: &QueryRequest) -> (r: bool)
    ensures
        r == matches_filters(*row, *req),
{
    optional_eq(opt_as_str(&row.domain), opt_as_str(&req.domain)) && optional_eq(
        opt_as_str(&row.equipment),
        opt_as_str(&req.equipment),
    ) && optional_eq(opt_as_str(&row.file_type), opt_as_str(&req.file_type)) && optional_eq(
        opt_as_str(&row.source_type),
        opt_as_str(&req.source_type),
    ) && match req.reserved_media {
        Some(m) => row.reserved_media == m,
        None => true,
    }
}

/// One for a filter that is set, else none.
pub open spec fn set_count(f: Option<String>) -> nat {
    if f is Some {
        1
    } else {
        0
    }
}

/// One for a filter that is set and met, else none.
pub open spec fn met_count(actual: Option<String>, f: Option<String>) -> nat {
    if f is Some && optional_eq_spec(opt_view(actual), opt_view(f)) {
        1
    } else {
        0
    }
}

/// How many of the request's metadata filters the chunk meets, and how many
/// are set (their ratio is the chunk's metadata score).
pub fn metadata_match_counts(row: &ChunkRow, req: &QueryRequest) -> (r: (u32, u32))
    ensures
        r.0 == met_count(row.domain, req.domain) + met_count(row.equipment, req.equipment) + met_count(
            row.file_type,
            req.file_type,
        ) + met_count(row.source_type, req.source_type),
        r.1 == set_count(req.domain) + set_count(req.equipment) + set_count(req.file_type) + set_count(
            req.source_type,
        ),
{
    let mut matched: u32 = 0;
    let mut total: u32 = 0;
    if req.domain.is_some() {
        total = total + 1;
        if optional_eq(opt_as_str(&row.domain), opt_as_str(&req.domain)) {
            matched = matched + 1;
        }
    }
    if req.equipment.is_some() {
        total = total + 1;
        if optional_eq(opt_as_str(&row.equipment), opt_as_str(&req.equipment)) {
            matched = matched + 1;
        }
    }
    if req.file_type.is_some() {
        total = total + 1;
        if optional_eq(opt_as_str(&row.file_type), opt_as_str(&req.file_type)) {
            matched = matched + 1;
        }
    }
    if req.source_type.is_some() {
        total = total + 1;
        if optional_eq(opt_as_str(&row.source_type), opt_as_str(&req.source_type)) {
            matched = matched + 1;
        }
    }
    (matched, total)
}

/// Whether the mode scores by embedding similarity.
pub fn uses_vector(mode: SearchMode) -> (r: bool)
    ensures
        r == (mode == SearchMode::Vector || mode == SearchMode::Hybrid),
{
    match mode {
        SearchMode::Vector | SearchMode::Hybrid => true,
        SearchMode::Keyword => false,
    }
}

/// Whether the mode scores by keywords.
pub fn uses_keyword(mode: SearchMode) -> (r: bool)
    ensures
        r == (mode == SearchMode::Keyword || mode == SearchMode::Hybrid),
{
    match mode {
        SearchMode::Keyword | SearchMode::Hybrid => true,
        SearchMode::Vector => false,
    }
}

// ---------------------------------------------------------------------------
// Keyword terms
// ---------------------------------------------------------------------------

/// ASCII punctuation (`char::is_ascii_punctuation`).
pub open spec fn is_ascii_punct(c: char) -> bool {
    ('!' <= c && c <= '/') || (':' <= c && c <= '@') || ('[' <= c && c <= '`') || ('{' <= c && c <= '~')
}

/// A character that separates keyword terms.
pub open spec fn is_term_sep(c: char) -> bool {
    is_ws(c) || is_ascii_punct(c)
}

/// The first separator of `s`, if any.
pub open spec fn first_sep(s: Seq<char>) -> Option<int>
    decreases s.len(),
{
    if s.len() == 0 {
        None
    } else if is_term_sep(s[0]) {
        Some(0)
    } else {
        match first_sep(s.drop_first()) {
            Some(i) => Some(i + 1),
            None => None,
        }
    }
}

pub proof fn lemma_first_sep(s: Seq<char>, j: int)
    requires
        0 <= j <= s.len(),
        forall|k: int| 0 <= k < j ==> !is_term_sep(s[k]),
        j < s.len() ==> is_term_sep(s[j]),
    ensures
        first_sep(s) == (if j < s.len() {
            Some(j)
        } else {
            None::<int>
        }),
    decreases s.len(),
{
    if s.len() > 0 && !is_term_sep(s[0]) {
        assert forall|k: int| 0 <= k < j - 1 implies !is_term_sep(s.drop_first()[k]) by {
            assert(s.drop_first()[k] == s[k + 1]);
        }
        lemma_first_sep(s.drop_first(), j - 1);
    }
}

pub proof fn lemma_first_sep_found(s: Seq<char>)
    ensures
        first_sep(s) matches Some(i) ==> 0 <= i < s.len(),
    decreases s.len(),
{
    if s.len() > 0 && !is_term_sep(s[0]) {
        lemma_first_sep_found(s.drop_first());
    }
}

/// The pieces of a text between separators, trimmed, empty ones dropped.
pub open spec fn term_pieces(s: Seq<char>) -> Seq<Seq<char>>
    decreases s.len(),
{
    match first_sep(s) {
        None => nonblank(trim(s)),
        Some(i) => {
            proof {
                lemma_first_sep_found(s);
            }
            nonblank(trim(s.take(i))) + term_pieces(s.skip(i + 1))
        },
    }
}

/// The domain words added to a single compact term.
pub open spec fn domain_tokens() -> Seq<Seq<char>> {
    seq!["叶片"@, "裂纹"@, "复检"@, "齿轮箱"@, "油温"@, "轴承"@, "功率曲线"@]
}

/// The terms with each of the first `k` domain words that the compact term
/// holds and that is not a term yet.
pub open spec fn with_tokens(terms: Seq<Seq<char>>, compact: Seq<char>, k: int) -> Seq<Seq<char>>
    decreases k,
{
    if k <= 0 {
        terms
    } else {
        let prev = with_tokens(terms, compact, k - 1);
        let t = domain_tokens()[k - 1];
        if has_sub(compact, t) && !prev.contains(t) {
            prev.push(t)
        } else {
            prev
        }
    }
}

/// The keyword terms of a query: its ASCII-lower-cased pieces between
/// whitespace and ASCII punctuation; the whole trimmed query when there are
/// none; and, for a single term, the domain words it contains.
pub open spec fn keyword_terms_spec(query: Seq<char>) -> Seq<Seq<char>> {
    let pieces = term_pieces(lower(query));
    let terms = if pieces.len() == 0 && !all_ws(query) {
        seq![lower(trim(query))]
    } else {
        pieces
    };
    if terms.len() == 1 {
        with_tokens(terms, terms[0], 7)
    } else {
        terms
    }
}

fn is_term_sep_exec(c: char) -> (r: bool)
    ensures
        r == is_term_sep(c),
{
    is_ws_exec(c) || ('!' <= c && c <= '/') || (':' <= c && c <= '@') || ('[' <= c && c <= '`') || (
    '{' <= c && c <= '~')
}

fn find_sep_from(v: &Vec<char>, start: usize) -> (r: Option<usize>)
    requires
        start <= v.len(),
    ensures
        match r {
            Some(j) => start <= j < v.len() && first_sep(v@.skip(start as int)) == Some(j - start),
            None => first_sep(v@.skip(start as int)) is None,
        },
{
    let mut i: usize = start;
    while i < v.len()
        invariant
            start <= i <= v.len(),
            forall|k: int| start <= k < i ==> !is_term_sep(v@[k]),
        decreases v.len() - i,
    {
        if is_term_sep_exec(v[i]) {
            proof {
                assert forall|k: int| 0 <= k < i - start implies !is_term_sep(v@.skip(start as int)[k]) by {
                    assert(v@.skip(start as int)[k] == v@[start + k]);
                }
                lemma_first_sep(v@.skip(start as int), i - start);
            }
            return Some(i);
        }
        i = i + 1;
    }
    proof {
        assert forall|k: int| 0 <= k < v.len() - start implies !is_term_sep(v@.skip(start as int)[k]) by {
            assert(v@.skip(start as int)[k] == v@[start + k]);
        }
        lemma_first_sep(v@.skip(start as int), v.len() - start);
    }
    None
}

fn slice_of(v: &Vec<char>, a: usize, b: usize) -> (r: Vec<char>)
    requires
        a <= b <= v.len(),
    ensures
        r@ == v@.subrange(a as int, b as int),
{
    let mut r: Vec<char> = Vec::new();
    let mut i: usize = a;
    while i < b
        invariant
            a <= i <= b <= v.len(),
            r@ == v@.subrange(a as int, i as int),
        decreases b - i,
    {
        r.push(v[i]);
        assert(r@ =~= v@.subrange(a as int, i + 1));
        i = i + 1;
    }
    r
}

fn pieces_of(v: &Vec<char>) -> (r: Vec<Vec<char>>)
    ensures
        Seq::new(r@.len(), |i: int| r@[i]@) == term_pieces(v@),
{
    let mut out: Vec<Vec<char>> = Vec::new();
    let ghost mut done: Seq<Seq<char>> = Seq::empty();
    let mut pos: usize = 0;
    assert(v@.skip(0) =~= v@);
    assert(done + term_pieces(v@) =~= term_pieces(v@));
    loop
        invariant_except_break
            pos <= v.len(),
            term_pieces(v@) == done + term_pieces(v@.skip(pos as int)),
            Seq::new(out@.len(), |i: int| out@[i]@) == done,
        ensures
            Seq::new(out@.len(), |i: int| out@[i]@) == term_pieces(v@),
        decreases v.len() - pos,
    {
        let ghost rest = v@.skip(pos as int);
        let end = match find_sep_from(v, pos) {
            Some(e) => e,
            None => v.len(),
        };
        assert(rest.take(end - pos) =~= v@.subrange(pos as int, end as int));
        let piece = slice_of(v, pos, end);
        let t = trim_vec(&piece);
        let ghost nb = nonblank(t@);
        if t.len() > 0 {
            let ghost before = Seq::new(out@.len(), |i: int| out@[i]@);
            out.push(t);
            assert(Seq::new(out@.len(), |i: int| out@[i]@) =~= before + nb);
        } else {
            assert(done + nb =~= done);
        }
        if end == v.len() {
            proof {
                assert(term_pieces(rest) == nb);
                done = done + nb;
            }
            break;
        }
        assert(rest.skip(end - pos + 1) =~= v@.skip(end + 1));
        proof {
            vstd::seq_lib::lemma_concat_associative(done, nb, term_pieces(v@.skip(end + 1)));
            done = done + nb;
        }
        pos = end + 1;
    }
    out
}

fn contains_term(terms: &Vec<String>, t: &str) -> (r: bool)
    ensures
        r == string_views(terms@).contains(t@),
{
    let mut i: usize = 0;
    while i < terms.len()
        invariant
            i <= terms.len(),
            forall|j: int| 0 <= j < i ==> terms@[j]@ != t@,
        decreases terms.len() - i,
    {
        if crate::text::str_eq(terms[i].as_str(), t) {
            assert(string_views(terms@)[i as int] == t@);
            return true;
        }
        i = i + 1;
    }
    proof {
        if string_views(terms@).contains(t@) {
            let j = choose|j: int| 0 <= j < string_views(terms@).len() && string_views(terms@)[j] == t@;
            assert(terms@[j]@ == t@);
        }
    }
    false
}

/// The keyword terms of a query.
pub fn keyword_terms(query: &str) -> (r: Vec<String>)
    ensures
        string_views(r@) == keyword_terms_spec(query@),
{
    let lowered = lower_str(query);
    let pieces = pieces_of(&lowered);
    let mut terms: Vec<String> = Vec::new();
    let mut i: usize = 0;
    while i < pieces.len()
        invariant
            i <= pieces.len(),
            string_views(terms@) == Seq::new(pieces@.len(), |j: int| pieces@[j]@).take(i as int),
        decreases pieces.len() - i,
    {
        let ghost before = string_views(terms@);
        let piece = string_of(&pieces[i]);
        assert(piece@ == pieces@[i as int]@);
        terms.push(piece);
        assert(string_views(terms@) =~= before.push(pieces@[i as int]@));
        assert(Seq::new(pieces@.len(), |j: int| pieces@[j]@).take(i + 1) =~= Seq::new(
            pieces@.len(),
            |j: int| pieces@[j]@,
        ).take(i as int).push(pieces@[i as int]@));
        i = i + 1;
    }
    assert(Seq::new(pieces@.len(), |j: int| pieces@[j]@).take(pieces.len() as int) =~= Seq::new(
        pieces@.len(),
        |j: int| pieces@[j]@,
    ));
    if terms.len() == 0 && !crate::text::is_blank(query) {
        let t = trim_str(query);
        let lt = lower_str(t.as_str());
        let ghost before = string_views(terms@);
        terms.push(string_of(&lt));
        assert(string_views(terms@) =~= seq![lower(trim(query@))]);
    }
    let ghost terms1 = string_views(terms@);
    if terms.len() == 1 {
        let compact = chars_of(terms[0].as_str());
        let tokens = ["叶片", "裂纹", "复检", "齿轮箱", "油温", "轴承", "功率曲线"];
        let mut k: usize = 0;
        proof {
            reveal_strlit("叶片");
            reveal_strlit("裂纹");
            reveal_strlit("复检");
            reveal_strlit("齿轮箱");
            reveal_strlit("油温");
            reveal_strlit("轴承");
            reveal_strlit("功率曲线");
        }
        assert(crate::text::views(tokens@) =~= domain_tokens());
        while k < 7
            invariant
                k <= 7,
                tokens@.len() == 7,
                crate::text::views(tokens@) == domain_tokens(),
                terms1.len() == 1,
                compact@ == terms1[0],
                string_views(terms@) == with_tokens(terms1, terms1[0], k as int),
            decreases 7 - k,
        {
            let tok = tokens[k];
            assert(tok@ == domain_tokens()[k as int]);
            let tv = chars_of(tok);
            if vec_contains(&compact, &tv) && !contains_term(&terms, tok) {
                let ghost before = string_views(terms@);
                terms.push(owned(tok));
                assert(string_views(terms@) =~= before.push(tok@));
            }
            k = k + 1;
        }
    }
    terms
}

/// How many of the query's keyword terms the text holds (ignoring ASCII
/// case), and how many terms there are (their ratio is the text's keyword
/// score).
pub fn keyword_match_count(query: &str, text: &str) -> (r: (usize, usize))
    ensures
        r.1 == keyword_terms_spec(query@).len(),
        r.0 == keyword_terms_spec(query@).filter(|t: Seq<char>| has_sub(lower(text@), t)).len(),
{
    let lowered = lower_str(text);
    let terms = keyword_terms(query);
    let ghost ts = string_views(terms@);
    let mut count: usize = 0;
    let mut i: usize = 0;
    proof {
        reveal(Seq::filter);
    }
    while i < terms.len()
        invariant
            i <= terms.len(),
            ts == string_views(terms@),
            lowered@ == lower(text@),
            count == ts.take(i as int).filter(|t: Seq<char>| has_sub(lower(text@), t)).len(),
            count <= i,
        decreases terms.len() - i,
    {
        proof {
            reveal(Seq::filter);
        }
        assert(ts.take(i + 1).drop_last() =~= ts.take(i as int));
        assert(ts.take(i + 1).last() == terms@[i as int]@);
        let tv = chars_of(terms[i].as_str());
        if vec_contains(&lowered, &tv) {
            count = count + 1;
        }
        i = i + 1;
    }
    assert(ts.take(terms.len() as int) =~= ts);
    (count, terms.len())
}

// ---------------------------------------------------------------------------
// Hits
// ---------------------------------------------------------------------------

/// A snippet of at most `max_chars` characters, marked with `...` when cut.
pub open spec fn snippet_spec(s: Seq<char>, max_chars: nat) -> Seq<char> {
    if s.len() <= max_chars {
        s
    } else {
        s.take(max_chars as int) + "..."@
    }
}

/// A snippet of at most `max_chars` characters, marked with `...` when cut.
pub fn truncate_snippet(s: &str, max_chars: usize) -> (r: String)
    ensures
        r@ == snippet_spec(s@, max_chars as nat),
{
    let v = chars_of(s);
    if v.len() <= max_chars {
        return owned(s);
    }
    let head = slice_of(&v, 0, max_chars);
    assert(v@.take(max_chars as int) =~= v@.subrange(0, max_chars as int));
    let mut r = string_of(&head);
    push_str(&mut r, "...");
    r
}

/// The evidence a chunk gives: its text, its path, and the document it came
/// from (its original path, else its path).
pub fn hit_evidence(row: &ChunkRow) -> (r: HitEvidence)
    ensures
        r.chunk_text == row.text,
        r.path == row.path,
        r.source_path == (match row.original_path {
            Some(p) => p,
            None => row.path,
        }),
{
    let source_path = match &row.original_path {
        Some(p) => p.clone(),
        None => row.path.clone(),
    };
    HitEvidence { chunk_text: row.text.clone(), path: row.path.clone(), source_path }
}

// ---------------------------------------------------------------------------
// Query text, graph suggestions and the answer
// ---------------------------------------------------------------------------

/// The query with its SCADA context on a line of its own, when there is a
/// non-blank one.
pub open spec fn contextual_query_spec(req: QueryRequest) -> Seq<char> {
    match req.scada_context {
        Some(c) => if trim(c@).len() > 0 {
            req.query@ + "\nSCADA上下文："@ + trim(c@)
        } else {
            req.query@
        },
        None => req.query@,
    }
}

/// The query with its SCADA context.
pub fn contextual_query(req: &QueryRequest) -> (r: String)
    ensures
        r@ == contextual_query_spec(*req),
{
    if let Some(c) = &req.scada_context {
        let t = trim_str(c.as_str());
        let tv = chars_of(t.as_str());
        if tv.len() > 0 {
            let mut r = concat(req.query.as_str(), "\nSCADA上下文：");
            push_str(&mut r, t.as_str());
            return r;
        }
    }
    req.query.clone()
}

/// The SCADA context note of a request, when it has a non-blank context.
pub open spec fn scada_note(req: QueryRequest) -> Option<Seq<char>> {
    match req.scada_context {
        Some(c) => if trim(c@).len() > 0 {
            Some("SCADA上下文："@ + trim(c@))
        } else {
            None
        },
        None => None,
    }
}

/// The advice with the request's SCADA context note added.
pub open spec fn with_scada_note(before: InspectionAdvice, req: QueryRequest, after: InspectionAdvice) -> bool {
    &&& string_views(after.additional_context@) == (match scada_note(req) {
        Some(n) => with_note(string_views(before.additional_context@), n),
        None => string_views(before.additional_context@),
    })
    &&& after.problem_summary == before.problem_summary
    &&& after.should_inspect == before.should_inspect
    &&& after.risk_level == before.risk_level
    &&& after.inspection_items@ == before.inspection_items@
    &&& after.inspection_methods@ == before.inspection_methods@
    &&& after.recommended_interval == before.recommended_interval
    &&& after.maintenance_actions@ == before.maintenance_actions@
    &&& after.shutdown_evaluation_conditions@ == before.shutdown_evaluation_conditions@
    &&& after.safety_notes@ == before.safety_notes@
    &&& after.evidence_sources@ == before.evidence_sources@
    &&& after.missing_data@ == before.missing_data@
}

/// Adds the request's SCADA context to the advice as a note.
pub fn add_scada_context(advice: &mut InspectionAdvice, req: &QueryRequest)
    ensures
        with_scada_note(*old(advice), *req, *final(advice)),
{
    if let Some(c) = &req.scada_context {
        let t = trim_str(c.as_str());
        let tv = chars_of(t.as_str());
        if tv.len() > 0 {
            let note = concat("SCADA上下文：", t.as_str());
            proof {
                reveal_strlit("SCADA上下文：");
                assert(note@[0] == 'S');
                assert(!all_ws(note@));
            }
            advice.add_additional_context(note);
        }
    }
}

/// The text the fallback graph lookup uses: the contextual query, with the
/// symptom after a space when there is one.
pub open spec fn graph_query_text(req: QueryRequest) -> Seq<char> {
    match req.symptom {
        Some(s) => contextual_query_spec(req) + " "@ + s@,
        None => contextual_query_spec(req),
    }
}

/// The graph suggestions of a request: the multi-component lookup of its
/// contextual query; when that finds nothing, the plain lookup of the query
/// with its symptom, hinted by its domain (else its component) and equipment.
pub open spec fn graph_suggestions_of(entries: Seq<crate::graph::FaultGraphEntry>, req: QueryRequest, r: Seq<GraphSuggestion>) -> bool {
    exists|m: Seq<GraphSuggestion>|
        #[trigger] multi_suggestions(entries, contextual_query_spec(req), m) && (m.len() > 0 ==> r == m) && (m.len()
            == 0 ==> query_suggestions(
            entries,
            graph_query_text(req),
            match opt_view(req.domain) {
                Some(d) => Some(d),
                None => opt_view(req.component),
            },
            opt_view(req.equipment),
            r,
        ))
}

/// The graph suggestions of a request.
pub fn graph_suggestions(graph: &FaultGraph, req: &QueryRequest) -> (r: Vec<GraphSuggestion>)
    ensures
        graph_suggestions_of(graph.entries@, *req, r@),
{
    let query_context = contextual_query(req);
    let multi = suggestions_for_multi_component_query(graph, query_context.as_str());
    if multi.len() > 0 {
        return multi;
    }
    let graph_query = match &req.symptom {
        Some(s) => {
            let mut q = concat(query_context.as_str(), " ");
            push_str(&mut q, s.as_str());
            q
        },
        None => query_context,
    };
    let hint = match &req.domain {
        Some(d) => Some(d.as_str()),
        None => opt_as_str(&req.component),
    };
    let r = suggestions_for_query(graph, graph_query.as_str(), hint, opt_as_str(&req.equipment));
    assert(multi_suggestions(graph.entries@, contextual_query_spec(*req), multi@));
    r
}

/// What a query gives besides its hits: the graph suggestions, the advice
/// (with the SCADA context note) and the risk assessment.
pub struct QueryOutcome {
    pub graph_suggestions: Vec<GraphSuggestion>,
    pub advice: InspectionAdvice,
    pub risk_assessment: RiskAssessment,
}

/// The outcome of a query given its ranked hits; `evidence_reason` is the
/// note on the hits' retrieval scores, when there are hits.
pub fn answer_query(
    req: &QueryRequest,
    graph: &FaultGraph,
    hits: &Vec<HitEvidence>,
    config: &WindRulesConfig,
    evidence_reason: Option<String>,
) -> (r: QueryOutcome)
    ensures
        graph_suggestions_of(graph.entries@, *req, r.graph_suggestions@),
        exists|a: InspectionAdvice|
            #[trigger] advice_of(req.query@, hits@, r.graph_suggestions@, table_view(config.domain_extra_items@), a)
                && with_scada_note(a, *req, r.advice),
        assessment_of(r.advice, *config, opt_view(evidence_reason), r.risk_assessment),
{
    let graph_suggestions = graph_suggestions(graph, req);
    let mut advice = generate_wind_inspection_advice(
        req.query.as_str(),
        hits,
        &graph_suggestions,
        &config.domain_extra_items,
    );
    let ghost a0 = advice;
    add_scada_context(&mut advice, req);
    assert(advice_of(req.query@, hits@, graph_suggestions@, table_view(config.domain_extra_items@), a0));
    let risk_assessment = generate_wind_risk_assessment(&advice, config, evidence_reason);
    QueryOutcome { graph_suggestions, advice, risk_assessment }
}

/// How far a query got: no index database, an index with no matching chunk,
/// or a hybrid ranking of the matching chunks.
pub open spec fn query_phase_spec(db_exists: bool, matching_rows: nat) -> Seq<char> {
    if !db_exists {
        "1-sqlite-no-db"@
    } else if matching_rows == 0 {
        "1-sqlite-empty"@
    } else {
        "3-hybrid"@
    }
}

/// How far a query got, given whether the index database exists and how
/// many indexed chunks pass the request's filters.
pub fn query_phase(db_exists: bool, matching_rows: usize) -> (r: &'static str)
    ensures
        r@ == query_phase_spec(db_exists, matching_rows as nat),
{
    if !db_exists {
        "1-sqlite-no-db"
    } else if matching_rows == 0 {
        "1-sqlite-empty"
    } else {
        "3-hybrid"
    }
}

/// How many ranked hits a query returns: its `top_k`, at most 64.
pub fn hit_cap(top_k: u32) -> (r: usize)
    ensures
        r == (if top_k < 64 {
            top_k as nat
        } else {
            64
        }),
{
    if top_k < 64 {
        top_k as usize
    } else {
        64
    }
}

} // verus!
