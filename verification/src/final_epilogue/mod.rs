//! The final epilogue of the wuxia story: from the end-of-story flags, the
//! result, the main ending, the cards shown and those held back.
pub mod types;
pub mod facts;
pub mod suppress;
pub mod render;
pub mod cards;
pub mod audit;

use vstd::prelude::*;
use crate::scene_page::{block_models, BlockModel, BodyBlock};
use crate::state::GameState;
use audit::{audit_block_spec, state_audit_block};
use cards::{build_candidates, candidates_spec};
use facts::{final_result_spec, main_ending_spec, preconditions_met, FactsModel, FinalFacts};
use render::{card_block, card_block_spec, final_result_text, final_result_text_spec, suppressed_block, suppressed_block_spec};
use suppress::{apply_suppress_rules, suppress_rules_spec};
use types::{card_models, suppressed_models, CardModel, SuppressedModel};

verus! {

pub const FINAL_EPILOGUE_ENDING_ID: &'static str = "wuxia_final_epilogue_renderer_contract";

pub open spec fn contract_error_text() -> Seq<char> {
    "final_epilogue_contract: required preconditions missing; renderer must not recompute cards."@
}

pub open spec fn card_block_fn() -> spec_fn(CardModel) -> BlockModel {
    |c: CardModel| card_block_spec(c)
}

pub open spec fn suppressed_block_fn() -> spec_fn(SuppressedModel) -> BlockModel {
    |c: SuppressedModel| suppressed_block_spec(c)
}

/// Nothing for another ending; an error block when the story did not set
/// up the epilogue; else the result, the state audit, the cards shown and
/// the cards held back.
pub open spec fn epilogue_blocks_spec(f: FactsModel, ending_id: Seq<char>) -> Seq<BlockModel> {
    if ending_id != FINAL_EPILOGUE_ENDING_ID@ {
        Seq::empty()
    } else if !preconditions_met(f) {
        seq![
            BlockModel {
                kind: "epilogue_contract_error"@,
                text: contract_error_text(),
                source_id: Some(FINAL_EPILOGUE_ENDING_ID@),
            },
        ]
    } else {
        let r = final_result_spec(f);
        let m = main_ending_spec(f, r);
        let shown = suppress_rules_spec(f, r, candidates_spec(f, r));
        seq![
            BlockModel {
                kind: "epilogue_result"@,
                text: final_result_text_spec(r, m),
                source_id: Some(FINAL_EPILOGUE_ENDING_ID@),
            },
            audit_block_spec(f, r),
        ] + shown.0.map_values(card_block_fn()) + shown.1.map_values(suppressed_block_fn())
    }
}

pub fn final_epilogue_body_blocks(state: &GameState, ending_id: &str) -> (r: Vec<BodyBlock>)
    ensures
        block_models(r@) == epilogue_blocks_spec(FactsModel { flags: state@.flags, clues: state@.clues }, ending_id@),
{
    let mut blocks: Vec<BodyBlock> = Vec::new();
    if !crate::text::str_eq(ending_id, FINAL_EPILOGUE_ENDING_ID) {
        assert(block_models(blocks@) =~= Seq::<BlockModel>::empty());
        return blocks;
    }
    let facts = FinalFacts::from_state(state);
    if !facts.has_required_preconditions() {
        blocks.push(
            BodyBlock {
                kind: "epilogue_contract_error".to_string(),
                text: "final_epilogue_contract: required preconditions missing; renderer must not recompute cards.".to_string(),
                source_id: Some(FINAL_EPILOGUE_ENDING_ID.to_string()),
            },
        );
        assert(block_models(blocks@) =~= epilogue_blocks_spec(facts@, ending_id@));
        return blocks;
    }
    let final_result = facts.final_result();
    let main_ending_type = facts.main_ending_type(final_result);
    let mut candidates = build_candidates(&facts, final_result);
    let suppressed = apply_suppress_rules(&facts, final_result, &mut candidates);
    blocks.push(
        BodyBlock {
            kind: "epilogue_result".to_string(),
            text: final_result_text(final_result, main_ending_type),
            source_id: Some(FINAL_EPILOGUE_ENDING_ID.to_string()),
        },
    );
    blocks.push(state_audit_block(&facts, final_result));
    let ghost head = block_models(blocks@);
    let ghost cm = card_models(candidates@);
    let n = candidates.len();
    let mut i: usize = 0;
    while i < n
        invariant
            n == candidates@.len(),
            cm == card_models(candidates@),
            i <= n,
            block_models(blocks@) == head + cm.take(i as int).map_values(card_block_fn()),
        decreases n - i,
    {
        let b = card_block(&candidates[i]);
        let ghost before = blocks@;
        blocks.push(b);
        assert(block_models(blocks@) =~= block_models(before).push(b@));
        assert(cm.take(i + 1).map_values(card_block_fn()) =~= cm.take(i as int).map_values(card_block_fn()).push(
            card_block_spec(cm[i as int]),
        ));
        i += 1;
    }
    assert(cm.take(n as int) =~= cm);
    let ghost mid = block_models(blocks@);
    let ghost sm = suppressed_models(suppressed@);
    let m = suppressed.len();
    let mut j: usize = 0;
    while j < m
        invariant
            m == suppressed@.len(),
            sm == suppressed_models(suppressed@),
            j <= m,
            block_models(blocks@) == mid + sm.take(j as int).map_values(suppressed_block_fn()),
        decreases m - j,
    {
        let b = suppressed_block(&suppressed[j]);
        let ghost before = blocks@;
        blocks.push(b);
        assert(block_models(blocks@) =~= block_models(before).push(b@));
        assert(sm.take(j + 1).map_values(suppressed_block_fn()) =~= sm.take(j as int).map_values(
            suppressed_block_fn(),
        ).push(suppressed_block_spec(sm[j as int])));
        j += 1;
    }
    assert(sm.take(m as int) =~= sm);
    assert(block_models(blocks@) =~= epilogue_blocks_spec(facts@, ending_id@));
    blocks
}

} // verus!
