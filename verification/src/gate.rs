//! The coverage gate: classifies a retrieval set by leg agreement into three tiers.
use vstd::prelude::*;

verus! {

/// The coverage tier of a retrieval set: one of three outcomes.
#[derive(Debug, Clone, Copy, PartialEq, Eq, Structural)]
pub enum Coverage {
    /// At least two retrieval legs agreed on the top passage. Answer normally.
    Grounded,
    /// Exactly one leg matched. Answer with the low-confidence signal and hedge.
    LowConfidence,
    /// No passage retrieved. Refuse before the model runs.
    NoCoverage,
}

/// The tier rule: an empty set is never covered; otherwise two or more agreeing legs ground
/// the answer and a single leg is low confidence.
pub open spec fn coverage_tier(passage_count: nat, top_legs_matched: nat) -> Coverage {
    if passage_count == 0 {
        Coverage::NoCoverage
    } else if top_legs_matched >= 2 {
        Coverage::Grounded
    } else {
        Coverage::LowConfidence
    }
}

/// Classifies a retrieval set into a [`Coverage`] tier by leg agreement. Stateless.
#[derive(Debug, Clone, Copy, Default)]
pub struct CoverageGate;

impl CoverageGate {
    pub fn new() -> (g: Self)
        ensures
            g == CoverageGate,
    {
        CoverageGate
    }

    /// Classify by passage count and the leg agreement of the top passage.
    pub fn classify(&self, passage_count: usize, top_legs_matched: u8) -> (c: Coverage)
        ensures
            c == coverage_tier(passage_count as nat, top_legs_matched as nat),
    {
        if passage_count == 0 {
            Coverage::NoCoverage
        } else if top_legs_matched >= 2 {
            Coverage::Grounded
        } else {
            Coverage::LowConfidence
        }
    }
}

/// Refusal happens exactly on an empty retrieval set, whatever the leg count; a non-empty set
/// is grounded exactly when at least two legs agreed.
pub proof fn lemma_gate_refuses_only_empty(passage_count: nat, top_legs_matched: nat)
    ensures
        (coverage_tier(passage_count, top_legs_matched) == Coverage::NoCoverage) <==> passage_count
            == 0,
        passage_count > 0 ==> ((coverage_tier(passage_count, top_legs_matched)
            == Coverage::Grounded) <==> top_legs_matched >= 2),
{
}

/// Adding agreeing legs never lowers the tier: if fewer legs ground an answer, more do too.
pub proof fn lemma_gate_monotone_in_legs(passage_count: nat, legs_a: nat, legs_b: nat)
    requires
        legs_a <= legs_b,
        coverage_tier(passage_count, legs_a) == Coverage::Grounded,
    ensures
        coverage_tier(passage_count, legs_b) == Coverage::Grounded,
{
}

} // verus!
