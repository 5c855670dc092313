//! Knowledge queries: the request a caller sends, the search mode it asks
//! for, the fault-analysis input and evidence summary, and ingest counts.
use vstd::prelude::*;

use crate::text::{chars_of, concat, lower, lower_vec, string_of};

verus! {

/// How hits are searched for.
#[derive(Clone, Copy, Debug, PartialEq, Eq, Structural)]
pub enum SearchMode {
    Vector,
    Keyword,
    Hybrid,
}

impl Default for SearchMode {
    fn default() -> (r: Self)
        ensures
            r == SearchMode::Hybrid,
    {
        SearchMode::Hybrid
    }
}

/// The search mode a name gives, ignoring ASCII case.
pub open spec fn search_mode_of(name: Seq<char>) -> Option<SearchMode> {
    let l = lower(name);
    if l == "vector"@ {
        Some(SearchMode::Vector)
    } else if l == "keyword"@ {
        Some(SearchMode::Keyword)
    } else if l == "hybrid"@ {
        Some(SearchMode::Hybrid)
    } else {
        None
    }
}

impl SearchMode {
    /// The search mode a name gives, ignoring ASCII case; an error naming the
    /// lower-cased value otherwise.
    pub fn from_str(value: &str) -> (r: Result<SearchMode, String>)
        ensures
            match search_mode_of(value@) {
                Some(m) => r == Ok::<SearchMode, String>(m),
                None => r is Err && r->Err_0@ == "unsupported search mode: "@ + lower(value@),
            },
    {
        let l = lower_vec(&chars_of(value));
        let s = string_of(&l);
        if crate::text::str_eq(s.as_str(), "vector") {
            Ok(SearchMode::Vector)
        } else if crate::text::str_eq(s.as_str(), "keyword") {
            Ok(SearchMode::Keyword)
        } else if crate::text::str_eq(s.as_str(), "hybrid") {
            Ok(SearchMode::Hybrid)
        } else {
            Err(concat("unsupported search mode: ", s.as_str()))
        }
    }
}

/// A knowledge query with its filters.
pub struct QueryRequest {
    pub query: String,
    pub top_k: u32,
    pub turbine_id: Option<String>,
    pub component: Option<String>,
    pub symptom: Option<String>,
    pub scada_context: Option<String>,
    pub domain: Option<String>,
    pub equipment: Option<String>,
    pub file_type: Option<String>,
    pub source_type: Option<String>,
    pub reserved_media: Option<bool>,
    pub search_mode: SearchMode,
}

/// The number of hits a query asks for when it names none.
pub fn default_top_k() -> (r: u32)
    ensures
        r == 8,
{
    8
}

/// The counts of an ingest run.
pub struct IngestStats {
    pub files_indexed: usize,
    pub chunks_total: usize,
    pub embeddings_written: usize,
}

/// A fault to analyse: the problem as told, with an optional component and symptom.
pub struct FaultAnalysisInput {
    pub problem: String,
    pub component: Option<String>,
    pub symptom: Option<String>,
}

/// The evidence behind an analysis.
pub struct EvidenceSummary {
    pub hit_documents: Vec<String>,
    pub graph_nodes: Vec<String>,
    pub risk_level: String,
}

} // verus!
