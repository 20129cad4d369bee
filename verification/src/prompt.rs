//! The fixed system contract and the per-turn context blocks handed to generation.
//!
//! The system prompt is the behavioral contract and stays identical at train and inference
//! time. Everything turn-specific (retrieved passages, their provenance labels, the
//! low-confidence hedge, recalled memories) is injected as context, never into the system
//! prompt.
use vstd::prelude::*;
use crate::text::{join, join_strings};

verus! {

/// The fixed behavioral contract.
pub const SYSTEM_PROMPT: &'static str = "You are a conversational mentor who responds as Jesus of Nazareth would, drawing only from his attested teachings and documented rhetorical methods, in modern English. This is a role, not an identity claim. If asked whether you are Jesus, decline honestly. Refuse requests outside the attested corpus or that would require doctrinal invention. Any passages provided to you are drawn from your own attested teachings for grounding; the person asking has not presented them \u{2014} speak from them directly as their mentor, and never refer to them as something the user gave you.";

/// The provenance-and-handling instruction that opens the retrieved passage block: the
/// passages are the mentor's own recall, and the person asking has not seen them.
pub const CONTEXT_INSTRUCTION: &'static str = "[Draw your answer from these attested passages you have in mind; speak directly to the person as their mentor. They have not seen these references.]";

/// The low-confidence handling addendum, appended to the grounding block when only a single
/// retrieval leg matched.
pub const LOW_CONFIDENCE_ADDENDUM: &'static str = "[These passages only partly touch what is asked. Speak plainly to what they genuinely cover, and where they do not reach the question, say so in your own voice rather than reaching beyond them.]";

/// Opens the principle-bridging addendum of a low-confidence turn whose passages carry
/// principle facets; the principles follow, separated by `"; "`.
pub const PRINCIPLE_ADDENDUM_HEAD: &'static str = "[These passages only partly touch what is asked. The principles they establish are: ";

/// Closes the principle-bridging addendum.
pub const PRINCIPLE_ADDENDUM_TAIL: &'static str = ". Bridge the question to these principles where they genuinely apply, and where they do not reach it, say so in your own voice rather than reaching beyond them.]";

/// Labels the recalled-memory block: facts about the person, never teaching.
pub const MEMORY_INSTRUCTION: &'static str = "[What you remember about this person from earlier conversations \u{2014} facts about them and your relationship, never teaching:]";

/// Labels the Tanakh block: his source material, not his words.
pub const SOURCE_INSTRUCTION: &'static str = "[Source material \u{2014} the Hebrew scriptures he drew on. These are NOT his own words; refer to them as what he read, never speak them as his teaching:]";

/// Labels the Gospel-narrative block: what the record shows he did, not his words.
pub const NARRATIVE_INSTRUCTION: &'static str = "[Narrative context \u{2014} what the Gospel record shows he did. These are deeds, NOT his words; refer to them as his example, never as his teaching:]";

/// The views of a slice of strings.
pub open spec fn views(parts: Seq<String>) -> Seq<Seq<char>> {
    parts.map_values(|p: String| p@)
}

/// A labeled block: empty without lines, else the label, a newline, and the lines.
pub open spec fn labeled_block(label: Seq<char>, lines: Seq<Seq<char>>, sep: Seq<char>) -> Seq<char> {
    if lines.len() == 0 {
        Seq::<char>::empty()
    } else {
        label + "\n"@ + join(lines, sep)
    }
}

/// What [`assemble_context`] returns.
pub open spec fn grounding_block(passages: Seq<Seq<char>>) -> Seq<char> {
    labeled_block(CONTEXT_INSTRUCTION@, passages, "\n\n"@)
}

/// What [`assemble_context_low_confidence`] returns.
pub open spec fn low_confidence_block(passages: Seq<Seq<char>>) -> Seq<char> {
    if passages.len() == 0 {
        Seq::<char>::empty()
    } else {
        grounding_block(passages) + "\n\n"@ + LOW_CONFIDENCE_ADDENDUM@
    }
}

/// What [`assemble_context_principle_tier`] returns.
pub open spec fn principle_tier_block(passages: Seq<Seq<char>>, principles: Seq<Seq<char>>) -> Seq<char> {
    if passages.len() == 0 {
        Seq::<char>::empty()
    } else {
        grounding_block(passages) + "\n\n"@ + PRINCIPLE_ADDENDUM_HEAD@ + join(principles, "; "@)
            + PRINCIPLE_ADDENDUM_TAIL@
    }
}

fn labeled(label: &str, lines: &[String], sep: &str) -> (r: String)
    ensures
        r@ == labeled_block(label@, views(lines@), sep@),
{
    if lines.len() == 0 {
        return String::new();
    }
    let body = join_strings(lines, sep);
    let mut r = String::from_str(label);
    r.append("\n");
    r.append(body.as_str());
    r
}

/// Assemble retrieved passages into the grounding block: the [`CONTEXT_INSTRUCTION`] line
/// followed by the passages separated by blank lines. Empty input yields an empty block.
pub fn assemble_context(passages: &[String]) -> (r: String)
    ensures
        r@ == grounding_block(views(passages@)),
{
    labeled(CONTEXT_INSTRUCTION, passages, "\n\n")
}

/// The grounding block of a low-confidence turn, with [`LOW_CONFIDENCE_ADDENDUM`] appended
/// at the end. Empty passages yield an empty block.
pub fn assemble_context_low_confidence(passages: &[String]) -> (r: String)
    ensures
        r@ == low_confidence_block(views(passages@)),
{
    let base = assemble_context(passages);
    if passages.len() == 0 {
        return String::new();
    }
    let mut r = base;
    r.append("\n\n");
    r.append(LOW_CONFIDENCE_ADDENDUM);
    r
}

/// The grounding block of a low-confidence turn whose passages carry principle facets: the
/// addendum names the principles so the answer bridges to them. Empty passages yield an
/// empty block.
pub fn assemble_context_principle_tier(passages: &[String], principles: &[String]) -> (r: String)
    ensures
        r@ == principle_tier_block(views(passages@), views(principles@)),
{
    let base = assemble_context(passages);
    if passages.len() == 0 {
        return String::new();
    }
    let mut r = base;
    r.append("\n\n");
    r.append(PRINCIPLE_ADDENDUM_HEAD);
    let listed = join_strings(principles, "; ");
    r.append(listed.as_str());
    r.append(PRINCIPLE_ADDENDUM_TAIL);
    r
}

/// The recalled-memory block: [`MEMORY_INSTRUCTION`] and one memory per line, or empty.
pub fn assemble_memory_block(memories: &[String]) -> (r: String)
    ensures
        r@ == labeled_block(MEMORY_INSTRUCTION@, views(memories@), "\n"@),
{
    labeled(MEMORY_INSTRUCTION, memories, "\n")
}

/// The Tanakh source-material block: [`SOURCE_INSTRUCTION`] and one verse per line, or empty.
pub fn assemble_source_block(lines: &[String]) -> (r: String)
    ensures
        r@ == labeled_block(SOURCE_INSTRUCTION@, views(lines@), "\n"@),
{
    labeled(SOURCE_INSTRUCTION, lines, "\n")
}

/// The Gospel-narrative block: [`NARRATIVE_INSTRUCTION`] and one passage per line, or empty.
pub fn assemble_narrative_block(lines: &[String]) -> (r: String)
    ensures
        r@ == labeled_block(NARRATIVE_INSTRUCTION@, views(lines@), "\n"@),
{
    labeled(NARRATIVE_INSTRUCTION, lines, "\n")
}

/// A non-empty grounding block opens with the provenance instruction, and the low-confidence
/// block is that same grounding block with the addendum at its end.
pub proof fn lemma_low_confidence_extends_grounding(passages: Seq<Seq<char>>)
    requires
        passages.len() > 0,
    ensures
        grounding_block(passages).subrange(0, CONTEXT_INSTRUCTION@.len() as int)
            == CONTEXT_INSTRUCTION@,
        low_confidence_block(passages).subrange(0, grounding_block(passages).len() as int)
            == grounding_block(passages),
        low_confidence_block(passages).subrange(
            low_confidence_block(passages).len() - LOW_CONFIDENCE_ADDENDUM@.len(),
            low_confidence_block(passages).len() as int,
        ) == LOW_CONFIDENCE_ADDENDUM@,
{
    let g = grounding_block(passages);
    let rest = "\n"@ + join(passages, "\n\n"@);
    assert(g == CONTEXT_INSTRUCTION@ + rest);
    assert(g.subrange(0, CONTEXT_INSTRUCTION@.len() as int) =~= CONTEXT_INSTRUCTION@);
    let l = low_confidence_block(passages);
    assert(l == g + ("\n\n"@ + LOW_CONFIDENCE_ADDENDUM@));
    assert(l.subrange(0, g.len() as int) =~= g);
    assert(l.subrange(l.len() - LOW_CONFIDENCE_ADDENDUM@.len(), l.len() as int)
        =~= LOW_CONFIDENCE_ADDENDUM@);
}

/// No passages, no block: every context assembler yields the empty string on empty input.
pub proof fn lemma_empty_passages_yield_no_block(principles: Seq<Seq<char>>)
    ensures
        grounding_block(Seq::empty()) == Seq::<char>::empty(),
        low_confidence_block(Seq::empty()) == Seq::<char>::empty(),
        principle_tier_block(Seq::empty(), principles) == Seq::<char>::empty(),
{
}

} // verus!
