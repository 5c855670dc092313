use wind_knowledge::confidence::{confidence_for_source, EvidenceConfidence, SourceKind};

#[test]
fn scada_and_cmms_are_high_confidence() {
    assert_eq!(confidence_for_source(SourceKind::Scada).confidence, EvidenceConfidence::High);
    assert_eq!(confidence_for_source(SourceKind::Cmms).confidence, EvidenceConfidence::High);
}

#[test]
fn other_sources_have_their_default_confidence() {
    assert_eq!(confidence_for_source(SourceKind::Weather).confidence, EvidenceConfidence::Medium);
    assert_eq!(confidence_for_source(SourceKind::KnowledgeBase).confidence, EvidenceConfidence::Medium);
    assert_eq!(confidence_for_source(SourceKind::FaultGraph).confidence, EvidenceConfidence::Medium);
    assert_eq!(confidence_for_source(SourceKind::HumanInput).confidence, EvidenceConfidence::Variable);
    assert_eq!(
        confidence_for_source(SourceKind::Scada).rule,
        "Scada evidence confidence defaults to High"
    );
}
