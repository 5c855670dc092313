use wind_knowledge::query::{default_top_k, SearchMode};

#[test]
fn search_modes_parse_ignoring_case() {
    assert_eq!(SearchMode::from_str("Vector").unwrap(), SearchMode::Vector);
    assert_eq!(SearchMode::from_str("KEYWORD").unwrap(), SearchMode::Keyword);
    assert_eq!(SearchMode::from_str("hybrid").unwrap(), SearchMode::Hybrid);
    assert_eq!(SearchMode::from_str("Fuzzy").unwrap_err(), "unsupported search mode: fuzzy");
    assert_eq!(SearchMode::default(), SearchMode::Hybrid);
    assert_eq!(default_top_k(), 8);
}
