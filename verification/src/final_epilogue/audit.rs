//! The audit of the canonical final states: for each state, which rule
//! the set flags select, and whether several rules competed.
use vstd::prelude::*;
use crate::effects::texts;
use crate::order::{sort_seq, sort_strings, str_ord};
use crate::text::str_eq;
use crate::scene_page::{BlockModel, BodyBlock};
use super::render::{join, join_strings};
use super::types::result_key;
use super::facts::{FactsModel, consumed, fact_flag, FinalFacts};
use super::types::FinalResult;

verus! {

/// A candidate value for a canonical state, selected by any of its flags.
pub struct StateRule {
    pub value: &'static str,
    pub flags: Vec<&'static str>,
}

pub open spec fn rule_models(s: Seq<StateRule>) -> Seq<(Seq<char>, Seq<&'static str>)> {
    s.map_values(|r: StateRule| (r.value@, r.flags@))
}

fn state_rule(value: &'static str, flags: &[&'static str]) -> (r: StateRule)
    ensures
        r.value@ == value@,
        r.flags@ == flags@,
{
    let mut v: Vec<&'static str> = Vec::new();
    let n = flags.len();
    let mut i: usize = 0;
    while i < n
        invariant
            n == flags@.len(),
            i <= n,
            v@ == flags@.take(i as int),
        decreases n - i,
    {
        v.push(flags[i]);
        assert(v@ =~= flags@.take(i + 1));
        i += 1;
    }
    assert(flags@.take(n as int) =~= flags@);
    StateRule { value, flags: v }
}

fn one_flag(flag: &'static str) -> (r: [&'static str; 1])
    ensures
        r@ == seq![flag],
{
    let r = [flag];
    assert(r@ =~= seq![flag]);
    r
}

pub open spec fn combat_result_rules_spec() -> Seq<(Seq<char>, Seq<&'static str>)> {
    seq![
        ("battle_loss"@, seq!["final_combat_result_battle_loss_seeded"]),
        ("battle_victory"@, seq!["final_combat_result_battle_victory_seeded"]),
    ]
}

pub open spec fn boss_resolution_route_rules_spec() -> Seq<(Seq<char>, Seq<&'static str>)> {
    seq![
        ("corrupted_victory"@, seq!["final_boss_resolution_corrupted_candidate_seeded", "final_boss_resolution_corrupted_victory_seeded", "final_epilogue_candidates_corrupted_seeded"]),
        ("true_route_victory"@, seq!["final_boss_resolution_true_route_candidate_seeded", "final_boss_resolution_true_route_confirmed_seeded", "final_epilogue_candidates_true_route_seeded"]),
        ("mumyeong_unsaved_victory"@, seq!["final_boss_resolution_mumyeong_unsaved_victory_seeded", "final_epilogue_candidates_mumyeong_unsaved_seeded"]),
        ("meaningful_victory"@, seq!["final_boss_resolution_true_or_meaningful_candidate_seeded", "final_boss_resolution_meaningful_candidate_seeded", "final_boss_resolution_meaningful_or_true_candidate_seeded", "final_boss_resolution_meaningful_victory_seeded", "final_epilogue_candidates_meaningful_seeded"]),
        ("incomplete_victory"@, seq!["final_boss_resolution_incomplete_victory_seeded", "final_epilogue_candidates_incomplete_seeded"]),
    ]
}

pub open spec fn evidence_state_rules_spec() -> Seq<(Seq<char>, Seq<&'static str>)> {
    seq![
        ("strong"@, seq!["final_evidence_strong_seeded", "final_evidence_strong_support_seeded", "final_evidence_strong_confirmed_seeded", "final_alliance_silence_strong_evidence_variant_seeded"]),
        ("partial_or_strong"@, seq!["final_evidence_partial_or_strong_seeded"]),
        ("partial"@, seq!["final_evidence_partial_seeded", "final_alliance_silence_partial_evidence_variant_seeded"]),
        ("none_or_low"@, seq!["final_evidence_none_or_low_seeded"]),
    ]
}

pub open spec fn network_handling_rules_spec() -> Seq<(Seq<char>, Seq<&'static str>)> {
    seq![
        ("core_cut"@, seq!["final_network_core_cut_seeded", "final_network_core_network_cut_seeded"]),
        ("accountability"@, seq!["final_network_ledger_secured_seeded", "final_network_accountability_seeded"]),
        ("partially_destroyed"@, seq!["final_network_partially_destroyed_seeded"]),
        ("residue_possible"@, seq!["final_network_residue_possible_seeded"]),
        ("ignored"@, seq!["final_network_ignored_seeded"]),
    ]
}

pub open spec fn pressure_state_rules_spec() -> Seq<(Seq<char>, Seq<&'static str>)> {
    seq![
        ("eased"@, seq!["final_pressure_eased_seeded", "final_pressure_state_eased_confirmed_seeded"]),
        ("partially_eased"@, seq!["final_pressure_partially_eased_seeded"]),
        ("unresolved"@, seq!["final_pressure_unresolved_seeded", "final_black_serpent_pressure_unresolved_variant_seeded"]),
    ]
}

pub open spec fn seoharin_axis_rules_spec() -> Seq<(Seq<char>, Seq<&'static str>)> {
    seq![
        ("open_gate"@, seq!["final_seoharin_open_gate_candidate_seeded", "final_epilogue_seoharin_open_gate_candidate_seeded", "final_epilogue_seoharin_open_gate_candidate_reinforced_seeded", "final_epilogue_seoharin_open_gate_reinforced_seeded"]),
        ("empty_place"@, seq!["final_seoharin_qingliu_resolution_empty_place_seeded", "final_epilogue_seoharin_empty_place_candidate_seeded", "final_epilogue_seoharin_empty_place_candidate_reinforced_seeded"]),
        ("high_preserved"@, seq!["final_seoharin_axis_high_preserved_seeded", "final_seoharin_axis_high_seeded", "final_epilogue_seoharin_future_candidate_seeded"]),
        ("closed_gate"@, seq!["final_seoharin_closed_gate_candidate_seeded", "final_epilogue_seoharin_closed_gate_candidate_seeded", "final_return_settlement_evasion_seeded", "final_epilogue_closed_gate_risk_seeded"]),
        ("last_bowl"@, seq!["last_bowl_epilogue_seeded", "final_epilogue_seoharin_last_bowl_conditional_seeded"]),
    ]
}

pub open spec fn qingliu_rebuild_rules_spec() -> Seq<(Seq<char>, Seq<&'static str>)> {
    seq![
        ("high"@, seq!["final_qingliu_rebuild_high_candidate_seeded", "final_qingliu_future_high_candidate_seeded", "final_epilogue_qingliu_future_high_candidate_seeded", "final_epilogue_qingliu_restored_martial_art_candidate_seeded", "final_epilogue_qingliu_restored_martial_art_conditional_seeded"]),
        ("partial"@, seq!["final_qingliu_rebuild_partial_seeded", "final_epilogue_qingliu_future_candidate_seeded"]),
        ("weakened"@, seq!["final_epilogue_qingliu_future_weakened_variant_seeded", "final_epilogue_qingliu_future_dark_variant_seeded"]),
    ]
}

pub open spec fn mumyeong_salvation_rules_spec() -> Seq<(Seq<char>, Seq<&'static str>)> {
    seq![
        ("own_flow_salvation"@, seq!["final_mumyeong_resolution_own_flow_salvation_seeded", "final_epilogue_mumyeong_stolen_forms_stopped_candidate_seeded"]),
        ("relational_salvation"@, seq!["final_mumyeong_resolution_relational_salvation_seeded", "final_epilogue_mumyeong_unsent_apology_candidate_seeded"]),
        ("substantial_candidate"@, seq!["final_mumyeong_salvation_substantial_candidate_seeded"]),
        ("partial"@, seq!["final_mumyeong_salvation_partial_seeded"]),
        ("incomplete"@, seq!["final_mumyeong_resolution_incomplete_salvation_seeded", "final_epilogue_mumyeong_second_wooden_sword_conditional_seeded"]),
        ("end_of_stolen_forms"@, seq!["final_mumyeong_resolution_end_of_stolen_forms_seeded", "final_epilogue_mumyeong_end_of_stolen_forms_candidate_seeded"]),
        ("black_serpent_successor"@, seq!["final_mumyeong_resolution_black_serpent_successor_seeded", "final_epilogue_mumyeong_black_serpent_new_scale_candidate_seeded"]),
        ("corrupted_unsaved"@, seq!["final_mumyeong_resolution_corrupted_unsaved_seeded", "final_mumyeong_player_method_tool_use_seeded"]),
    ]
}

pub open spec fn successor_route_rules_spec() -> Seq<(Seq<char>, Seq<&'static str>)> {
    seq![
        ("active_risk"@, seq!["final_successor_route_active_risk_seeded", "final_mumyeong_successor_route_active_seeded", "final_black_serpent_new_scale_candidate_seeded", "final_epilogue_mumyeong_black_serpent_new_scale_candidate_seeded"]),
        ("weakened"@, seq!["final_mumyeong_successor_route_weakened_seeded"]),
        ("suppressed"@, seq!["final_successor_route_suppressed_seeded", "final_successor_route_suppressed_confirmed_seeded", "final_mumyeong_successor_route_suppressed_seeded"]),
    ]
}

pub open spec fn own_flow_choice_rules_spec() -> Seq<(Seq<char>, Seq<&'static str>)> {
    seq![
        ("chosen"@, seq!["final_own_flow_choice_chosen_seeded", "final_mumyeong_own_flow_choice_confirmed_seeded", "final_mumyeong_resolution_own_flow_salvation_seeded"]),
        ("opened"@, seq!["final_own_flow_choice_opened_seeded"]),
        ("not_opened"@, seq!["final_mumyeong_own_flow_not_opened_seeded"]),
    ]
}

pub open spec fn truth_state_rules_spec() -> Seq<(Seq<char>, Seq<&'static str>)> {
    seq![
        ("not_forced"@, seq!["final_mumyeong_truth_state_not_forced_seeded", "truth_delivery_still_unopened"]),
        ("partial"@, seq!["final_mumyeong_truth_state_partial_seeded"]),
        ("sealed_summary_prepared"@, seq!["sealed_departure_truth_summary_prepared"]),
    ]
}

pub open spec fn cheongirok_state_rules_spec() -> Seq<(Seq<char>, Seq<&'static str>)> {
    seq![
        ("corruption_high"@, seq!["final_cheongirok_state_corruption_high_seeded", "final_cheongirok_state_corruption_high_confirmed_seeded", "final_cheongirok_resolution_corruption_variant_seeded", "final_epilogue_tianjilu_last_page_corruption_variant_seeded"]),
        ("safe_high_use"@, seq!["final_cheongirok_state_high_use_seeded", "final_cheongirok_state_high_use_not_corruption_seeded", "final_cheongirok_resolution_safe_high_use_seeded", "final_epilogue_tianjilu_safe_high_use_variant_seeded"]),
        ("blank_true_route_place"@, seq!["final_cheongirok_resolution_blank_place_seeded", "final_epilogue_tianjilu_true_route_variant_seeded"]),
        ("low_use_silence"@, seq!["final_cheongirok_resolution_low_use_silence_seeded"]),
        ("method_reflection"@, seq!["final_cheongirok_resolution_method_reflection_seeded", "final_player_method_reflected_not_judged_seeded"]),
        ("corruption_risk"@, seq!["final_cheongirok_corruption_risk_seeded"]),
    ]
}

pub open spec fn player_method_rules_spec() -> Seq<(Seq<char>, Seq<&'static str>)> {
    seq![
        ("sado_style_calculation"@, seq!["final_player_method_sado_style_calculation_seeded", "final_player_method_sado_style_calculation_echo_seeded"]),
        ("tool_use"@, seq!["final_player_method_used_as_tool_risk_seeded", "final_mumyeong_player_method_tool_use_seeded"]),
        ("outside_calculation"@, seq!["final_player_method_outside_calculation_seeded", "final_player_method_outside_calculation_confirmed_seeded"]),
        ("protected_as_person"@, seq!["final_player_method_protected_as_person_seeded", "final_player_method_protected_as_person_confirmed_seeded"]),
        ("direct_boss_focus"@, seq!["final_player_method_direct_boss_focus_seeded"]),
        ("reflected_not_judged"@, seq!["final_player_method_reflected_not_judged_seeded"]),
    ]
}

pub open spec fn item_log_rules_spec() -> Seq<(Seq<char>, Seq<&'static str>)> {
    seq![
        ("blackscale_ledger"@, seq!["final_item_logs_blackscale_ledger_seeded"]),
        ("blank_ledger"@, seq!["final_item_logs_blank_ledger_seen_seeded"]),
        ("unpriced_wooden_sword_condition"@, seq!["final_unpriced_wooden_sword_condition_raised_seeded", "final_unpriced_wooden_sword_condition_preserved_seeded"]),
    ]
}

pub fn combat_result_rules() -> (r: Vec<StateRule>)
    ensures
        rule_models(r@) == combat_result_rules_spec(),
{
    let mut r: Vec<StateRule> = Vec::new();
    r.push(state_rule("battle_loss", &one_flag("final_combat_result_battle_loss_seeded")));
    r.push(state_rule("battle_victory", &one_flag("final_combat_result_battle_victory_seeded")));
    assert(rule_models(r@) =~= combat_result_rules_spec());
    r
}

pub fn boss_resolution_route_rules() -> (r: Vec<StateRule>)
    ensures
        rule_models(r@) == boss_resolution_route_rules_spec(),
{
    let mut r: Vec<StateRule> = Vec::new();
    r.push(state_rule("corrupted_victory", &["final_boss_resolution_corrupted_candidate_seeded", "final_boss_resolution_corrupted_victory_seeded", "final_epilogue_candidates_corrupted_seeded"]));
    r.push(state_rule("true_route_victory", &["final_boss_resolution_true_route_candidate_seeded", "final_boss_resolution_true_route_confirmed_seeded", "final_epilogue_candidates_true_route_seeded"]));
    r.push(state_rule("mumyeong_unsaved_victory", &["final_boss_resolution_mumyeong_unsaved_victory_seeded", "final_epilogue_candidates_mumyeong_unsaved_seeded"]));
    r.push(state_rule("meaningful_victory", &["final_boss_resolution_true_or_meaningful_candidate_seeded", "final_boss_resolution_meaningful_candidate_seeded", "final_boss_resolution_meaningful_or_true_candidate_seeded", "final_boss_resolution_meaningful_victory_seeded", "final_epilogue_candidates_meaningful_seeded"]));
    r.push(state_rule("incomplete_victory", &["final_boss_resolution_incomplete_victory_seeded", "final_epilogue_candidates_incomplete_seeded"]));
    assert(rule_models(r@) =~= boss_resolution_route_rules_spec());
    r
}

pub fn evidence_state_rules() -> (r: Vec<StateRule>)
    ensures
        rule_models(r@) == evidence_state_rules_spec(),
{
    let mut r: Vec<StateRule> = Vec::new();
    r.push(state_rule("strong", &["final_evidence_strong_seeded", "final_evidence_strong_support_seeded", "final_evidence_strong_confirmed_seeded", "final_alliance_silence_strong_evidence_variant_seeded"]));
    r.push(state_rule("partial_or_strong", &one_flag("final_evidence_partial_or_strong_seeded")));
    r.push(state_rule("partial", &["final_evidence_partial_seeded", "final_alliance_silence_partial_evidence_variant_seeded"]));
    r.push(state_rule("none_or_low", &one_flag("final_evidence_none_or_low_seeded")));
    assert(rule_models(r@) =~= evidence_state_rules_spec());
    r
}

pub fn network_handling_rules() -> (r: Vec<StateRule>)
    ensures
        rule_models(r@) == network_handling_rules_spec(),
{
    let mut r: Vec<StateRule> = Vec::new();
    r.push(state_rule("core_cut", &["final_network_core_cut_seeded", "final_network_core_network_cut_seeded"]));
    r.push(state_rule("accountability", &["final_network_ledger_secured_seeded", "final_network_accountability_seeded"]));
    r.push(state_rule("partially_destroyed", &one_flag("final_network_partially_destroyed_seeded")));
    r.push(state_rule("residue_possible", &one_flag("final_network_residue_possible_seeded")));
    r.push(state_rule("ignored", &one_flag("final_network_ignored_seeded")));
    assert(rule_models(r@) =~= network_handling_rules_spec());
    r
}

pub fn pressure_state_rules() -> (r: Vec<StateRule>)
    ensures
        rule_models(r@) == pressure_state_rules_spec(),
{
    let mut r: Vec<StateRule> = Vec::new();
    r.push(state_rule("eased", &["final_pressure_eased_seeded", "final_pressure_state_eased_confirmed_seeded"]));
    r.push(state_rule("partially_eased", &one_flag("final_pressure_partially_eased_seeded")));
    r.push(state_rule("unresolved", &["final_pressure_unresolved_seeded", "final_black_serpent_pressure_unresolved_variant_seeded"]));
    assert(rule_models(r@) =~= pressure_state_rules_spec());
    r
}

pub fn seoharin_axis_rules() -> (r: Vec<StateRule>)
    ensures
        rule_models(r@) == seoharin_axis_rules_spec(),
{
    let mut r: Vec<StateRule> = Vec::new();
    r.push(state_rule("open_gate", &["final_seoharin_open_gate_candidate_seeded", "final_epilogue_seoharin_open_gate_candidate_seeded", "final_epilogue_seoharin_open_gate_candidate_reinforced_seeded", "final_epilogue_seoharin_open_gate_reinforced_seeded"]));
    r.push(state_rule("empty_place", &["final_seoharin_qingliu_resolution_empty_place_seeded", "final_epilogue_seoharin_empty_place_candidate_seeded", "final_epilogue_seoharin_empty_place_candidate_reinforced_seeded"]));
    r.push(state_rule("high_preserved", &["final_seoharin_axis_high_preserved_seeded", "final_seoharin_axis_high_seeded", "final_epilogue_seoharin_future_candidate_seeded"]));
    r.push(state_rule("closed_gate", &["final_seoharin_closed_gate_candidate_seeded", "final_epilogue_seoharin_closed_gate_candidate_seeded", "final_return_settlement_evasion_seeded", "final_epilogue_closed_gate_risk_seeded"]));
    r.push(state_rule("last_bowl", &["last_bowl_epilogue_seeded", "final_epilogue_seoharin_last_bowl_conditional_seeded"]));
    assert(rule_models(r@) =~= seoharin_axis_rules_spec());
    r
}

pub fn qingliu_rebuild_rules() -> (r: Vec<StateRule>)
    ensures
        rule_models(r@) == qingliu_rebuild_rules_spec(),
{
    let mut r: Vec<StateRule> = Vec::new();
    r.push(state_rule("high", &["final_qingliu_rebuild_high_candidate_seeded", "final_qingliu_future_high_candidate_seeded", "final_epilogue_qingliu_future_high_candidate_seeded", "final_epilogue_qingliu_restored_martial_art_candidate_seeded", "final_epilogue_qingliu_restored_martial_art_conditional_seeded"]));
    r.push(state_rule("partial", &["final_qingliu_rebuild_partial_seeded", "final_epilogue_qingliu_future_candidate_seeded"]));
    r.push(state_rule("weakened", &["final_epilogue_qingliu_future_weakened_variant_seeded", "final_epilogue_qingliu_future_dark_variant_seeded"]));
    assert(rule_models(r@) =~= qingliu_rebuild_rules_spec());
    r
}

pub fn mumyeong_salvation_rules() -> (r: Vec<StateRule>)
    ensures
        rule_models(r@) == mumyeong_salvation_rules_spec(),
{
    let mut r: Vec<StateRule> = Vec::new();
    r.push(state_rule("own_flow_salvation", &["final_mumyeong_resolution_own_flow_salvation_seeded", "final_epilogue_mumyeong_stolen_forms_stopped_candidate_seeded"]));
    r.push(state_rule("relational_salvation", &["final_mumyeong_resolution_relational_salvation_seeded", "final_epilogue_mumyeong_unsent_apology_candidate_seeded"]));
    r.push(state_rule("substantial_candidate", &one_flag("final_mumyeong_salvation_substantial_candidate_seeded")));
    r.push(state_rule("partial", &one_flag("final_mumyeong_salvation_partial_seeded")));
    r.push(state_rule("incomplete", &["final_mumyeong_resolution_incomplete_salvation_seeded", "final_epilogue_mumyeong_second_wooden_sword_conditional_seeded"]));
    r.push(state_rule("end_of_stolen_forms", &["final_mumyeong_resolution_end_of_stolen_forms_seeded", "final_epilogue_mumyeong_end_of_stolen_forms_candidate_seeded"]));
    r.push(state_rule("black_serpent_successor", &["final_mumyeong_resolution_black_serpent_successor_seeded", "final_epilogue_mumyeong_black_serpent_new_scale_candidate_seeded"]));
    r.push(state_rule("corrupted_unsaved", &["final_mumyeong_resolution_corrupted_unsaved_seeded", "final_mumyeong_player_method_tool_use_seeded"]));
    assert(rule_models(r@) =~= mumyeong_salvation_rules_spec());
    r
}

pub fn successor_route_rules() -> (r: Vec<StateRule>)
    ensures
        rule_models(r@) == successor_route_rules_spec(),
{
    let mut r: Vec<StateRule> = Vec::new();
    r.push(state_rule("active_risk", &["final_successor_route_active_risk_seeded", "final_mumyeong_successor_route_active_seeded", "final_black_serpent_new_scale_candidate_seeded", "final_epilogue_mumyeong_black_serpent_new_scale_candidate_seeded"]));
    r.push(state_rule("weakened", &one_flag("final_mumyeong_successor_route_weakened_seeded")));
    r.push(state_rule("suppressed", &["final_successor_route_suppressed_seeded", "final_successor_route_suppressed_confirmed_seeded", "final_mumyeong_successor_route_suppressed_seeded"]));
    assert(rule_models(r@) =~= successor_route_rules_spec());
    r
}

pub fn own_flow_choice_rules() -> (r: Vec<StateRule>)
    ensures
        rule_models(r@) == own_flow_choice_rules_spec(),
{
    let mut r: Vec<StateRule> = Vec::new();
    r.push(state_rule("chosen", &["final_own_flow_choice_chosen_seeded", "final_mumyeong_own_flow_choice_confirmed_seeded", "final_mumyeong_resolution_own_flow_salvation_seeded"]));
    r.push(state_rule("opened", &one_flag("final_own_flow_choice_opened_seeded")));
    r.push(state_rule("not_opened", &one_flag("final_mumyeong_own_flow_not_opened_seeded")));
    assert(rule_models(r@) =~= own_flow_choice_rules_spec());
    r
}

pub fn truth_state_rules() -> (r: Vec<StateRule>)
    ensures
        rule_models(r@) == truth_state_rules_spec(),
{
    let mut r: Vec<StateRule> = Vec::new();
    r.push(state_rule("not_forced", &["final_mumyeong_truth_state_not_forced_seeded", "truth_delivery_still_unopened"]));
    r.push(state_rule("partial", &one_flag("final_mumyeong_truth_state_partial_seeded")));
    r.push(state_rule("sealed_summary_prepared", &one_flag("sealed_departure_truth_summary_prepared")));
    assert(rule_models(r@) =~= truth_state_rules_spec());
    r
}

pub fn cheongirok_state_rules() -> (r: Vec<StateRule>)
    ensures
        rule_models(r@) == cheongirok_state_rules_spec(),
{
    let mut r: Vec<StateRule> = Vec::new();
    r.push(state_rule("corruption_high", &["final_cheongirok_state_corruption_high_seeded", "final_cheongirok_state_corruption_high_confirmed_seeded", "final_cheongirok_resolution_corruption_variant_seeded", "final_epilogue_tianjilu_last_page_corruption_variant_seeded"]));
    r.push(state_rule("safe_high_use", &["final_cheongirok_state_high_use_seeded", "final_cheongirok_state_high_use_not_corruption_seeded", "final_cheongirok_resolution_safe_high_use_seeded", "final_epilogue_tianjilu_safe_high_use_variant_seeded"]));
    r.push(state_rule("blank_true_route_place", &["final_cheongirok_resolution_blank_place_seeded", "final_epilogue_tianjilu_true_route_variant_seeded"]));
    r.push(state_rule("low_use_silence", &one_flag("final_cheongirok_resolution_low_use_silence_seeded")));
    r.push(state_rule("method_reflection", &["final_cheongirok_resolution_method_reflection_seeded", "final_player_method_reflected_not_judged_seeded"]));
    r.push(state_rule("corruption_risk", &one_flag("final_cheongirok_corruption_risk_seeded")));
    assert(rule_models(r@) =~= cheongirok_state_rules_spec());
    r
}

pub fn player_method_rules() -> (r: Vec<StateRule>)
    ensures
        rule_models(r@) == player_method_rules_spec(),
{
    let mut r: Vec<StateRule> = Vec::new();
    r.push(state_rule("sado_style_calculation", &["final_player_method_sado_style_calculation_seeded", "final_player_method_sado_style_calculation_echo_seeded"]));
    r.push(state_rule("tool_use", &["final_player_method_used_as_tool_risk_seeded", "final_mumyeong_player_method_tool_use_seeded"]));
    r.push(state_rule("outside_calculation", &["final_player_method_outside_calculation_seeded", "final_player_method_outside_calculation_confirmed_seeded"]));
    r.push(state_rule("protected_as_person", &["final_player_method_protected_as_person_seeded", "final_player_method_protected_as_person_confirmed_seeded"]));
    r.push(state_rule("direct_boss_focus", &one_flag("final_player_method_direct_boss_focus_seeded")));
    r.push(state_rule("reflected_not_judged", &one_flag("final_player_method_reflected_not_judged_seeded")));
    assert(rule_models(r@) =~= player_method_rules_spec());
    r
}

pub fn item_log_rules() -> (r: Vec<StateRule>)
    ensures
        rule_models(r@) == item_log_rules_spec(),
{
    let mut r: Vec<StateRule> = Vec::new();
    r.push(state_rule("blackscale_ledger", &one_flag("final_item_logs_blackscale_ledger_seeded")));
    r.push(state_rule("blank_ledger", &one_flag("final_item_logs_blank_ledger_seen_seeded")));
    r.push(state_rule("unpriced_wooden_sword_condition", &["final_unpriced_wooden_sword_condition_raised_seeded", "final_unpriced_wooden_sword_condition_preserved_seeded"]));
    assert(rule_models(r@) =~= item_log_rules_spec());
    r
}

/// One line of the audit: a state, its value and status, the flags that
/// decided it and every value its rules offered.
#[derive(Debug)]
pub struct AuditEntry {
    pub key: &'static str,
    pub value: &'static str,
    pub status: &'static str,
    pub consumed_flags: Vec<String>,
    pub candidate_values: Vec<&'static str>,
}

pub struct AuditModel {
    pub key: Seq<char>,
    pub value: Seq<char>,
    pub status: Seq<char>,
    pub consumed: Seq<Seq<char>>,
    pub candidates: Seq<Seq<char>>,
}

pub open spec fn str_texts(s: Seq<&'static str>) -> Seq<Seq<char>> {
    s.map_values(|x: &'static str| x@)
}

impl View for AuditEntry {
    type V = AuditModel;

    open spec fn view(&self) -> AuditModel {
        AuditModel {
            key: self.key@,
            value: self.value@,
            status: self.status@,
            consumed: texts(self.consumed_flags@),
            candidates: str_texts(self.candidate_values@),
        }
    }
}

pub open spec fn audit_models(s: Seq<AuditEntry>) -> Seq<AuditModel> {
    s.map_values(|e: AuditEntry| e@)
}

/// The values of the rules that have a set flag, in rule order.
pub open spec fn hits(f: FactsModel, rules: Seq<(Seq<char>, Seq<&'static str>)>) -> Seq<Seq<char>>
    decreases rules.len(),
{
    if rules.len() == 0 {
        Seq::empty()
    } else if consumed(f, rules.last().1).len() > 0 {
        hits(f, rules.drop_last()).push(rules.last().0)
    } else {
        hits(f, rules.drop_last())
    }
}

/// Every set flag of every rule, rule by rule.
pub open spec fn all_consumed(f: FactsModel, rules: Seq<(Seq<char>, Seq<&'static str>)>) -> Seq<Seq<char>>
    decreases rules.len(),
{
    if rules.len() == 0 {
        Seq::empty()
    } else {
        all_consumed(f, rules.drop_last()) + consumed(f, rules.last().1)
    }
}

/// `s` with each entry kept where it first occurs.
pub open spec fn first_seen(s: Seq<Seq<char>>) -> Seq<Seq<char>>
    decreases s.len(),
{
    if s.len() == 0 {
        s
    } else if first_seen(s.drop_last()).contains(s.last()) {
        first_seen(s.drop_last())
    } else {
        first_seen(s.drop_last()).push(s.last())
    }
}

pub open spec fn text_order() -> spec_fn(Seq<char>, Seq<char>) -> int {
    |a: Seq<char>, b: Seq<char>| str_ord(a, b)
}

pub open spec fn string_order() -> spec_fn(String, String) -> int {
    |a: String, b: String| str_ord(a@, b@)
}

/// The first value offered wins; when the offers disagree, the priority
/// was applied to an ambiguity. The decisive flags are listed in text order.
pub open spec fn resolve_spec(key: Seq<char>, f: FactsModel, rules: Seq<(Seq<char>, Seq<&'static str>)>) -> AuditModel {
    let vals = hits(f, rules);
    if vals.len() == 0 {
        AuditModel { key, value: "missing"@, status: "missing"@, consumed: Seq::empty(), candidates: Seq::empty() }
    } else {
        AuditModel {
            key,
            value: vals[0],
            status: if exists|i: int| 0 <= i < vals.len() && #[trigger] vals[i] != vals[0] {
                "ambiguous_priority_applied"@
            } else {
                "resolved"@
            },
            consumed: sort_seq(first_seen(all_consumed(f, rules)), text_order()),
            candidates: vals,
        }
    }
}

pub fn text_listed(v: &Vec<String>, x: &str) -> (r: bool)
    ensures
        r == texts(v@).contains(x@),
{
    let n = v.len();
    let mut i: usize = 0;
    while i < n
        invariant
            n == v@.len(),
            i <= n,
            forall|k: int| 0 <= k < i ==> #[trigger] v@[k]@ != x@,
        decreases n - i,
    {
        if str_eq(v[i].as_str(), x) {
            assert(texts(v@)[i as int] == x@);
            return true;
        }
        i += 1;
    }
    assert forall|k: int| 0 <= k < texts(v@).len() implies texts(v@)[k] != x@ by {
        assert(texts(v@)[k] == v@[k]@);
    };
    false
}

pub fn resolve_state(key: &'static str, facts: &FinalFacts, rules: &Vec<StateRule>) -> (r: AuditEntry)
    ensures
        r@ == resolve_spec(key@, facts@, rule_models(rules@)),
{
    let ghost rm = rule_models(rules@);
    let mut seen: Vec<String> = Vec::new();
    let mut candidate_values: Vec<&'static str> = Vec::new();
    let n = rules.len();
    let mut i: usize = 0;
    while i < n
        invariant
            n == rules@.len(),
            rm == rule_models(rules@),
            i <= n,
            texts(seen@) == first_seen(all_consumed(facts@, rm.take(i as int))),
            str_texts(candidate_values@) == hits(facts@, rm.take(i as int)),
        decreases n - i,
    {
        let ghost pre = rm.take(i + 1);
        assert(pre.drop_last() =~= rm.take(i as int));
        assert(pre.last() == (rules@[i as int].value@, rules@[i as int].flags@));
        let rule_flags = facts.consumed_flags(rules[i].flags.as_slice());
        if rule_flags.len() > 0 {
            let ghost before = candidate_values@;
            candidate_values.push(rules[i].value);
            assert(str_texts(candidate_values@) =~= str_texts(before).push(rules@[i as int].value@));
        }
        let ghost prefix = all_consumed(facts@, rm.take(i as int));
        assert(prefix + texts(rule_flags@).take(0) =~= prefix);
        let m = rule_flags.len();
        let mut j: usize = 0;
        while j < m
            invariant
                m == rule_flags@.len(),
                j <= m,
                texts(seen@) == first_seen(prefix + texts(rule_flags@).take(j as int)),
            decreases m - j,
        {
            let ghost pre2 = prefix + texts(rule_flags@).take(j + 1);
            assert(pre2.drop_last() =~= prefix + texts(rule_flags@).take(j as int));
            assert(pre2.last() == rule_flags@[j as int]@);
            if !text_listed(&seen, rule_flags[j].as_str()) {
                let ghost b2 = seen@;
                seen.push(rule_flags[j].clone());
                assert(texts(seen@) =~= texts(b2).push(rule_flags@[j as int]@));
            }
            j += 1;
        }
        assert(texts(rule_flags@).take(m as int) =~= texts(rule_flags@));
        assert(all_consumed(facts@, pre) =~= prefix + texts(rule_flags@));
        i += 1;
    }
    assert(rm.take(n as int) =~= rm);
    if candidate_values.len() == 0 {
        let none: Vec<String> = Vec::new();
        assert(texts(none@) =~= Seq::<Seq<char>>::empty());
        assert(str_texts(candidate_values@) =~= Seq::<Seq<char>>::empty());
        return AuditEntry { key, value: "missing", status: "missing", consumed_flags: none, candidate_values };
    }
    let value = candidate_values[0];
    let mut differs = false;
    let c = candidate_values.len();
    let mut k: usize = 0;
    while k < c
        invariant
            c == candidate_values@.len(),
            k <= c,
            c > 0,
            value == candidate_values@[0],
            differs == exists|t: int| 0 <= t < k && #[trigger] str_texts(candidate_values@)[t] != value@,
        decreases c - k,
    {
        let d = !str_eq(candidate_values[k], value);
        proof {
            assert(str_texts(candidate_values@)[k as int] == candidate_values@[k as int]@);
        }
        differs = differs || d;
        k += 1;
    }
    let status = if differs { "ambiguous_priority_applied" } else { "resolved" };
    let sorted = sort_strings(seen);
    proof {
        crate::order::lemma_sort_seq_map(seen@, string_order(), text_order(), |s: String| s@);
    }
    AuditEntry { key, value, status, consumed_flags: sorted, candidate_values }
}

/// The loss flag derives the boss route when no rule of its own set it.
pub open spec fn loss_route_entry(f: FactsModel) -> AuditModel {
    AuditModel {
        key: "boss_resolution_route"@,
        value: "not_reached_battle_loss"@,
        status: "derived_by_final_result_priority"@,
        consumed: consumed(f, seq!["final_combat_result_battle_loss_seeded"]),
        candidates: seq!["not_reached_battle_loss"@],
    }
}

/// Every canonical state resolved by its rules, in a fixed order; after a
/// lost battle, a boss route no rule set is derived from the loss.
pub open spec fn audit_entries(f: FactsModel) -> Seq<AuditModel> {
    seq![
        resolve_spec("combat_result"@, f, combat_result_rules_spec()),
        resolve_spec("boss_resolution_route"@, f, boss_resolution_route_rules_spec()),
        resolve_spec("evidence_state"@, f, evidence_state_rules_spec()),
        resolve_spec("network_handling"@, f, network_handling_rules_spec()),
        resolve_spec("pressure_state"@, f, pressure_state_rules_spec()),
        resolve_spec("seoharin_axis"@, f, seoharin_axis_rules_spec()),
        resolve_spec("qingliu_rebuild"@, f, qingliu_rebuild_rules_spec()),
        resolve_spec("mumyeong_salvation"@, f, mumyeong_salvation_rules_spec()),
        resolve_spec("successor_route"@, f, successor_route_rules_spec()),
        resolve_spec("own_flow_choice"@, f, own_flow_choice_rules_spec()),
        resolve_spec("truth_state"@, f, truth_state_rules_spec()),
        resolve_spec("cheongirok_state"@, f, cheongirok_state_rules_spec()),
        resolve_spec("player_method"@, f, player_method_rules_spec()),
        resolve_spec("item_logs"@, f, item_log_rules_spec()),
    ]
}

pub open spec fn audit_spec(f: FactsModel, r: FinalResult) -> Seq<AuditModel> {
    let entries = audit_entries(f);
    if r == FinalResult::BattleLoss && fact_flag(f, "final_combat_result_battle_loss_seeded"@) && entries[1].status
        == "missing"@ {
        entries.update(1, loss_route_entry(f))
    } else {
        entries
    }
}

pub fn canonical_state_audit(facts: &FinalFacts, final_result: FinalResult) -> (r: Vec<AuditEntry>)
    ensures
        audit_models(r@) == audit_spec(facts@, final_result),
{
    let mut entries: Vec<AuditEntry> = Vec::new();
    entries.push(resolve_state("combat_result", facts, &combat_result_rules()));
    entries.push(resolve_state("boss_resolution_route", facts, &boss_resolution_route_rules()));
    entries.push(resolve_state("evidence_state", facts, &evidence_state_rules()));
    entries.push(resolve_state("network_handling", facts, &network_handling_rules()));
    entries.push(resolve_state("pressure_state", facts, &pressure_state_rules()));
    entries.push(resolve_state("seoharin_axis", facts, &seoharin_axis_rules()));
    entries.push(resolve_state("qingliu_rebuild", facts, &qingliu_rebuild_rules()));
    entries.push(resolve_state("mumyeong_salvation", facts, &mumyeong_salvation_rules()));
    entries.push(resolve_state("successor_route", facts, &successor_route_rules()));
    entries.push(resolve_state("own_flow_choice", facts, &own_flow_choice_rules()));
    entries.push(resolve_state("truth_state", facts, &truth_state_rules()));
    entries.push(resolve_state("cheongirok_state", facts, &cheongirok_state_rules()));
    entries.push(resolve_state("player_method", facts, &player_method_rules()));
    entries.push(resolve_state("item_logs", facts, &item_log_rules()));
    assert(audit_models(entries@) =~= audit_entries(facts@));
    if final_result == FinalResult::BattleLoss && facts.has_flag("final_combat_result_battle_loss_seeded") && str_eq(
        entries[1].status,
        "missing",
    ) {
        let mut values: Vec<&'static str> = Vec::new();
        values.push("not_reached_battle_loss");
        let derived = AuditEntry {
            key: "boss_resolution_route",
            value: "not_reached_battle_loss",
            status: "derived_by_final_result_priority",
            consumed_flags: facts.consumed_flags(&one_flag("final_combat_result_battle_loss_seeded")),
            candidate_values: values,
        };
        assert(str_texts(derived.candidate_values@) =~= seq!["not_reached_battle_loss"@]);
        let ghost before = entries@;
        entries.set(1, derived);
        assert(audit_models(entries@) =~= audit_models(before).update(1, loss_route_entry(facts@)));
    }
    entries
}

pub open spec fn list_or_none(s: Seq<Seq<char>>) -> Seq<char> {
    if s.len() == 0 {
        "none"@
    } else {
        join(s, ", "@)
    }
}

pub open spec fn entry_text(e: AuditModel) -> Seq<char> {
    "\ncanonical_state: "@ + e.key + "\nvalue: "@ + e.value + "\nstatus: "@ + e.status + "\nconsumed_flags: "@
        + list_or_none(e.consumed) + "\ncandidate_values: "@ + list_or_none(e.candidates)
}

pub open spec fn entries_text(s: Seq<AuditModel>) -> Seq<char>
    decreases s.len(),
{
    if s.len() == 0 {
        Seq::empty()
    } else {
        entries_text(s.drop_last()) + entry_text(s.last())
    }
}

pub open spec fn audit_header(r: FinalResult) -> Seq<char> {
    "audit_id: final_state_canonical_collapse\nowned_by: Rust GameCore\nsource_contract: wuxia_final_state_canonical_collapse_contract\nfinal_result_key: "@
        + result_key(r)
        + "\nrouting_note: local final_*_seeded flags were collapsed before renderer display; renderer must not infer canonical final states."@
}

pub open spec fn audit_block_spec(f: FactsModel, r: FinalResult) -> BlockModel {
    BlockModel {
        kind: "epilogue_state_audit"@,
        text: audit_header(r) + entries_text(audit_spec(f, r)),
        source_id: Some("wuxia_final_state_canonical_collapse_contract"@),
    }
}

fn join_strs(v: &Vec<&'static str>, sep: &str) -> (r: String)
    ensures
        r@ == join(str_texts(v@), sep@),
{
    let mut out = String::new();
    let n = v.len();
    let mut i: usize = 0;
    while i < n
        invariant
            n == v@.len(),
            i <= n,
            out@ == join(str_texts(v@.take(i as int)), sep@),
        decreases n - i,
    {
        let ghost pre = str_texts(v@.take(i + 1));
        assert(pre.drop_last() =~= str_texts(v@.take(i as int)));
        assert(pre.last() == v@[i as int]@);
        if i > 0 {
            out.append(sep);
        }
        out.append(v[i]);
        proof {
            if i == 0 {
                assert(out@ =~= pre[0]);
            } else {
                assert(out@ =~= join(pre.drop_last(), sep@) + sep@ + pre.last());
            }
        }
        i += 1;
    }
    assert(v@.take(n as int) =~= v@);
    out
}

fn entry_line(e: &AuditEntry) -> (r: String)
    ensures
        r@ == entry_text(e@),
{
    let mut text = String::new();
    text.append("\ncanonical_state: ");
    text.append(e.key);
    text.append("\nvalue: ");
    text.append(e.value);
    text.append("\nstatus: ");
    text.append(e.status);
    text.append("\nconsumed_flags: ");
    if e.consumed_flags.len() == 0 {
        text.append("none");
    } else {
        let s = join_strings(&e.consumed_flags, ", ");
        text.append(s.as_str());
    }
    text.append("\ncandidate_values: ");
    if e.candidate_values.len() == 0 {
        text.append("none");
    } else {
        let s = join_strs(&e.candidate_values, ", ");
        text.append(s.as_str());
    }
    assert(text@ =~= entry_text(e@));
    text
}

pub fn state_audit_block(facts: &FinalFacts, final_result: FinalResult) -> (b: BodyBlock)
    ensures
        b@ == audit_block_spec(facts@, final_result),
{
    let mut text = String::new();
    text.append(
        "audit_id: final_state_canonical_collapse\nowned_by: Rust GameCore\nsource_contract: wuxia_final_state_canonical_collapse_contract\nfinal_result_key: ",
    );
    text.append(final_result.key());
    text.append(
        "\nrouting_note: local final_*_seeded flags were collapsed before renderer display; renderer must not infer canonical final states.",
    );
    assert(text@ =~= audit_header(final_result));
    let entries = canonical_state_audit(facts, final_result);
    let ghost ms = audit_models(entries@);
    let n = entries.len();
    let mut i: usize = 0;
    while i < n
        invariant
            n == entries@.len(),
            ms == audit_models(entries@),
            i <= n,
            text@ == audit_header(final_result) + entries_text(ms.take(i as int)),
        decreases n - i,
    {
        let ghost pre = ms.take(i + 1);
        assert(pre.drop_last() =~= ms.take(i as int));
        assert(pre.last() == entries@[i as int]@);
        let line = entry_line(&entries[i]);
        text.append(line.as_str());
        assert(text@ =~= audit_header(final_result) + entries_text(pre));
        i += 1;
    }
    assert(ms.take(n as int) =~= ms);
    BodyBlock {
        kind: "epilogue_state_audit".to_string(),
        text,
        source_id: Some("wuxia_final_state_canonical_collapse_contract".to_string()),
    }
}

} // verus!
