use jesus_twin::prompt::{
    assemble_context, assemble_context_low_confidence, assemble_context_principle_tier,
    assemble_memory_block, assemble_narrative_block, assemble_source_block, CONTEXT_INSTRUCTION,
    LOW_CONFIDENCE_ADDENDUM, MEMORY_INSTRUCTION, NARRATIVE_INSTRUCTION, PRINCIPLE_ADDENDUM_HEAD,
    PRINCIPLE_ADDENDUM_TAIL, SOURCE_INSTRUCTION, SYSTEM_PROMPT,
};

#[test]
fn assembled_context_labels_passage_provenance() {
    let block = assemble_context(&["Mark 12:29-31: Hear, Israel...".to_string()]);
    assert!(
        block.starts_with(CONTEXT_INSTRUCTION),
        "passage block must open with the provenance instruction"
    );
    assert!(block.contains("Mark 12:29-31"), "passages must follow the instruction");
    assert!(
        block.contains("have not seen these references"),
        "instruction must state the user has not seen the passages"
    );
}

#[test]
fn empty_passages_yield_no_instruction() {
    assert_eq!(assemble_context(&[]), "");
    assert_eq!(assemble_context_low_confidence(&[]), "");
}

#[test]
fn low_confidence_appends_addendum_after_passages() {
    let p = ["Mark 12:29-31: Hear, Israel...".to_string()];
    let block = assemble_context_low_confidence(&p);
    assert!(block.starts_with(CONTEXT_INSTRUCTION), "keeps the grounding block");
    assert!(block.contains("Mark 12:29-31"), "keeps the passages");
    assert!(
        block.trim_end().ends_with(LOW_CONFIDENCE_ADDENDUM),
        "addendum is appended at the end-of-prompt position"
    );
}

#[test]
fn system_prompt_declares_context_is_not_user_supplied() {
    assert!(
        SYSTEM_PROMPT.contains("the person asking has not presented them"),
        "system contract must declare grounding passages are not a user submission"
    );
}

#[test]
fn grounding_block_is_instruction_newline_then_passages_blank_line_separated() {
    let block = assemble_context(&["A: one".to_string(), "B: two".to_string()]);
    assert_eq!(block, format!("{CONTEXT_INSTRUCTION}\nA: one\n\nB: two"));
}

#[test]
fn low_confidence_block_is_grounding_then_addendum() {
    let p = ["A: one".to_string()];
    assert_eq!(
        assemble_context_low_confidence(&p),
        format!("{}\n\n{LOW_CONFIDENCE_ADDENDUM}", assemble_context(&p))
    );
}

#[test]
fn principle_tier_names_each_principle() {
    let p = ["A: one".to_string()];
    let pr = ["Forgive.".to_string(), "Trust.".to_string()];
    assert_eq!(
        assemble_context_principle_tier(&p, &pr),
        format!("{}\n\n{PRINCIPLE_ADDENDUM_HEAD}Forgive.; Trust.{PRINCIPLE_ADDENDUM_TAIL}", assemble_context(&p))
    );
    assert_eq!(assemble_context_principle_tier(&[], &pr), "");
}

#[test]
fn labeled_blocks_carry_their_provenance_or_vanish() {
    assert_eq!(assemble_memory_block(&[]), "");
    assert_eq!(assemble_source_block(&[]), "");
    assert_eq!(assemble_narrative_block(&[]), "");
    assert_eq!(
        assemble_memory_block(&["Asked: x".to_string(), "Asked: y".to_string()]),
        format!("{MEMORY_INSTRUCTION}\nAsked: x\nAsked: y")
    );
    assert_eq!(
        assemble_source_block(&["Deut 8:3: bread".to_string()]),
        format!("{SOURCE_INSTRUCTION}\nDeut 8:3: bread")
    );
    assert_eq!(
        assemble_narrative_block(&["Mark 1:9: baptized".to_string()]),
        format!("{NARRATIVE_INSTRUCTION}\nMark 1:9: baptized")
    );
}
