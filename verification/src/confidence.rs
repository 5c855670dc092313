//! How far each kind of evidence source is trusted by default.
use vstd::prelude::*;

use crate::text::owned;

verus! {

/// The confidence that a piece of evidence carries.
#[derive(Clone, Copy, Debug, PartialEq, Eq, Structural)]
pub enum EvidenceConfidence {
    Low,
    Medium,
    High,
    Variable,
}

/// Where a piece of evidence comes from.
#[derive(Clone, Copy, Debug, PartialEq, Eq, Structural)]
pub enum SourceKind {
    Scada,
    Cmms,
    Weather,
    HumanInput,
    KnowledgeBase,
    FaultGraph,
}

/// The default confidence of a source and the rule that gives it.
pub struct SourceConfidenceReport {
    pub source: SourceKind,
    pub confidence: EvidenceConfidence,
    pub rule: String,
}

/// The default confidence of a source kind: measured operating and
/// maintenance data are high, weather, the knowledge base and the fault
/// graph are medium, and human input varies.
pub open spec fn default_confidence(source: SourceKind) -> EvidenceConfidence {
    match source {
        SourceKind::Scada | SourceKind::Cmms => EvidenceConfidence::High,
        SourceKind::Weather | SourceKind::KnowledgeBase | SourceKind::FaultGraph => EvidenceConfidence::Medium,
        SourceKind::HumanInput => EvidenceConfidence::Variable,
    }
}

/// The name of a source kind.
pub open spec fn source_name(source: SourceKind) -> Seq<char> {
    match source {
        SourceKind::Scada => "Scada"@,
        SourceKind::Cmms => "Cmms"@,
        SourceKind::Weather => "Weather"@,
        SourceKind::HumanInput => "HumanInput"@,
        SourceKind::KnowledgeBase => "KnowledgeBase"@,
        SourceKind::FaultGraph => "FaultGraph"@,
    }
}

/// The name of a confidence level.
pub open spec fn confidence_name(c: EvidenceConfidence) -> Seq<char> {
    match c {
        EvidenceConfidence::Low => "Low"@,
        EvidenceConfidence::Medium => "Medium"@,
        EvidenceConfidence::High => "High"@,
        EvidenceConfidence::Variable => "Variable"@,
    }
}

/// The default confidence of a source, with the rule stated in words.
pub fn confidence_for_source(source: SourceKind) -> (r: SourceConfidenceReport)
    ensures
        r.source == source,
        r.confidence == default_confidence(source),
        r.rule@ == source_name(source) + " evidence confidence defaults to "@ + confidence_name(
            default_confidence(source),
        ),
{
    let (confidence, rule) = match source {
        SourceKind::Scada => (EvidenceConfidence::High, "Scada evidence confidence defaults to High"),
        SourceKind::Cmms => (EvidenceConfidence::High, "Cmms evidence confidence defaults to High"),
        SourceKind::Weather => (EvidenceConfidence::Medium, "Weather evidence confidence defaults to Medium"),
        SourceKind::HumanInput => (EvidenceConfidence::Variable, "HumanInput evidence confidence defaults to Variable"),
        SourceKind::KnowledgeBase => (EvidenceConfidence::Medium, "KnowledgeBase evidence confidence defaults to Medium"),
        SourceKind::FaultGraph => (EvidenceConfidence::Medium, "FaultGraph evidence confidence defaults to Medium"),
    };
    proof {
        reveal_strlit("Scada");
        reveal_strlit("Cmms");
        reveal_strlit("Weather");
        reveal_strlit("HumanInput");
        reveal_strlit("KnowledgeBase");
        reveal_strlit("FaultGraph");
        reveal_strlit("High");
        reveal_strlit("Medium");
        reveal_strlit("Variable");
        reveal_strlit(" evidence confidence defaults to ");
        reveal_strlit("Scada evidence confidence defaults to High");
        reveal_strlit("Cmms evidence confidence defaults to High");
        reveal_strlit("Weather evidence confidence defaults to Medium");
        reveal_strlit("HumanInput evidence confidence defaults to Variable");
        reveal_strlit("KnowledgeBase evidence confidence defaults to Medium");
        reveal_strlit("FaultGraph evidence confidence defaults to Medium");
    }
    let rule_text = owned(rule);
    assert(rule_text@ =~= source_name(source) + " evidence confidence defaults to "@ + confidence_name(
        default_confidence(source),
    ));
    SourceConfidenceReport { source, confidence, rule: rule_text }
}

} // verus!
