use escape_core::final_epilogue::final_epilogue_body_blocks;
use escape_core::new_game;
use escape_core::state::GameState;

const ENDING: &str = "wuxia_final_epilogue_renderer_contract";

fn ready(extra: &[&str]) -> GameState {
    let mut g = new_game(1);
    for f in [
        "boss_resolution_resolved",
        "mumyeong_resolution_resolved",
        "seoharin_qingliu_resolution_resolved",
        "cheongirok_resolution_resolved",
        "black_serpent_aftermath_resolved",
        "final_result_priority_applied_seeded",
        "final_state_routing_seeded",
    ] {
        g.add_flag_once(f);
    }
    for f in extra {
        g.add_flag_once(f);
    }
    g
}

fn ids(blocks: &[escape_core::scene_page::BodyBlock], kind: &str) -> Vec<String> {
    blocks.iter().filter(|b| b.kind == kind).map(|b| b.source_id.clone().unwrap()).collect()
}

#[test]
fn other_endings_get_no_epilogue() {
    assert!(final_epilogue_body_blocks(&ready(&["final_combat_result_battle_loss_seeded"]), "other").is_empty());
}

#[test]
fn missing_preconditions_give_one_error_block() {
    let blocks = final_epilogue_body_blocks(&new_game(1), ENDING);
    assert_eq!(blocks.len(), 1);
    assert_eq!(blocks[0].kind, "epilogue_contract_error");
    assert_eq!(blocks[0].source_id.as_deref(), Some(ENDING));
}

#[test]
fn battle_loss_shows_loss_cards_and_derives_the_boss_route() {
    let blocks = final_epilogue_body_blocks(&ready(&["final_combat_result_battle_loss_seeded"]), ENDING);
    assert_eq!(blocks[0].kind, "epilogue_result");
    assert!(blocks[0].text.starts_with("final_result_key: battle_loss\nresult_title: 패배 결산\nmain_ending_type: battle_loss\n"));
    assert_eq!(blocks[1].kind, "epilogue_state_audit");
    assert!(blocks[1].text.contains("\ncanonical_state: boss_resolution_route\nvalue: not_reached_battle_loss\nstatus: derived_by_final_result_priority\nconsumed_flags: final_combat_result_battle_loss_seeded\ncandidate_values: not_reached_battle_loss"));
    assert!(blocks[1].text.contains("\ncanonical_state: combat_result\nvalue: battle_loss\nstatus: resolved\n"));
    let cards = ids(&blocks, "epilogue_card");
    assert_eq!(
        cards,
        vec![
            "epilogue_boss_black_serpent_banner",
            "epilogue_wuxia_southern_market_rumor",
            "epilogue_mumyeong_black_serpent_new_scale",
            "epilogue_seoharin_closed_gate",
            "epilogue_tianjilu_last_page",
        ]
    );
    let banner = blocks.iter().find(|b| b.source_id.as_deref() == Some("epilogue_boss_black_serpent_banner")).unwrap();
    assert!(banner.text.starts_with("card_id: epilogue_boss_black_serpent_banner\nvariant: battle_loss_residue\ngroup: boss_black_serpent\nconsumed_seeds: final_combat_result_battle_loss_seeded\n"));
}

#[test]
fn true_route_holds_back_the_closed_gate_and_the_banner() {
    let blocks = final_epilogue_body_blocks(
        &ready(&[
            "final_combat_result_battle_victory_seeded",
            "final_boss_resolution_true_route_confirmed_seeded",
            "final_black_serpent_banner_candidate_seeded",
            "final_seoharin_closed_gate_candidate_seeded",
        ]),
        ENDING,
    );
    assert!(blocks[0].text.contains("main_ending_type: cheongryu_divine_sword"));
    let cards = ids(&blocks, "epilogue_card");
    assert!(cards.contains(&"epilogue_seoharin_open_gate".to_string()));
    assert!(!cards.contains(&"epilogue_seoharin_closed_gate".to_string()));
    assert!(!cards.contains(&"epilogue_boss_black_serpent_banner".to_string()));
    let suppressed: Vec<&str> =
        blocks.iter().filter(|b| b.kind == "epilogue_suppressed").map(|b| b.text.as_str()).collect();
    assert!(suppressed.iter().any(|t| t.starts_with("card_id: epilogue_boss_black_serpent_banner\nsuppressed_by: true_route_victory")));
}

#[test]
fn corrupted_victory_needs_corruption_and_a_calculating_method() {
    let only_corruption = final_epilogue_body_blocks(
        &ready(&["final_combat_result_battle_victory_seeded", "final_epilogue_candidates_corrupted_seeded"]),
        ENDING,
    );
    assert!(only_corruption[0].text.starts_with("final_result_key: basic_victory"));
    let both = final_epilogue_body_blocks(
        &ready(&[
            "final_combat_result_battle_victory_seeded",
            "final_epilogue_candidates_corrupted_seeded",
            "final_mumyeong_player_method_tool_use_seeded",
        ]),
        ENDING,
    );
    assert!(both[0].text.starts_with("final_result_key: corrupted_victory"));
    assert!(both[0].text.contains("main_ending_type: debtor_of_all_under_heaven"));
}

#[test]
fn honest_return_is_the_returnee_ending() {
    let blocks = final_epilogue_body_blocks(
        &ready(&["final_combat_result_battle_victory_seeded", "final_return_intent_honest_seeded"]),
        ENDING,
    );
    assert!(blocks[0].text.contains("main_ending_type: returnee\nmain_ending_label: 귀환자"));
    assert!(ids(&blocks, "epilogue_card").contains(&"epilogue_wuxia_returned_commute".to_string()));
}

#[test]
fn evasion_suppresses_return_and_settlement_cards() {
    let blocks = final_epilogue_body_blocks(
        &ready(&[
            "final_combat_result_battle_victory_seeded",
            "final_return_intent_honest_seeded",
            "final_return_settlement_evasion_seeded",
        ]),
        ENDING,
    );
    let cards = ids(&blocks, "epilogue_card");
    assert!(cards.contains(&"epilogue_wuxia_closed_gate_risk".to_string()));
    assert!(!cards.contains(&"epilogue_wuxia_returned_commute".to_string()));
    assert!(blocks.iter().any(|b| b.kind == "epilogue_suppressed"
        && b.text.starts_with("card_id: epilogue_wuxia_returned_commute\nsuppressed_by: return_settlement_evasion")));
}
