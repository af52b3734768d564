use escape_core::save::{load_state, save_state, SaveError, SAVE_SCHEMA_VERSION};
use escape_core::state::{default_abilities, GameState};
use escape_core::turn::{ability_label, fnv1a_32, resolve_ability_check, roll_2d6, ActionError};
use escape_core::effects::EffectCue;
use escape_core::{apply_action, new_game, turn_view};

#[test]
fn new_game_starts_at_the_printer() {
    let g = new_game(7);
    assert_eq!(g.seed, 7);
    assert_eq!(g.turn, 0);
    assert_eq!(g.location_id, "printer_area");
    assert_eq!(g.disaster_type, "unknown_isolation");
    assert_eq!((g.player.health, g.player.sanity, g.player.battery), (92, 67, 41));
    assert_eq!(g.player.abilities.len(), 6);
    assert!(g.flags.is_empty() && g.clues.is_empty() && g.history.is_empty());
}

#[test]
fn default_abilities_are_two_each_in_id_order() {
    let ids: Vec<String> = default_abilities().into_iter().map(|(k, v)| {
        assert_eq!(v, 2);
        k
    }).collect();
    assert_eq!(ids, vec!["composure", "empathy", "interface", "logic", "physical", "volition"]);
}

#[test]
fn printer_view_offers_three_choices() {
    let v = turn_view(&new_game(1));
    assert_eq!(v.encounter_id.as_deref(), Some("printer_prints_alone"));
    assert_eq!(v.actions.len(), 3);
    assert_eq!(v.actions[0].id, "choice:wait_for_output");
    assert_eq!(v.actions[0].cost_summary.as_deref(), Some("정신력 -2"));
    assert!(v.blocked_actions.is_empty());
    match &v.effect_cues[0] {
        EffectCue::GlyphAnomaly(g) => {
            assert_eq!(g.intensity, 72);
            assert_eq!(g.stable_terms, vec!["비상계단", "토너", "접힌 방향"]);
        }
    }
    assert_eq!(v.effect_cues[0].kind_label(), "EffectCue::GlyphAnomaly");
}

#[test]
fn waiting_costs_sanity_and_leaves_a_clue_once() {
    let g = new_game(1);
    let r = apply_action(&g, "choice:wait_for_output").unwrap();
    assert_eq!(r.state.turn, 1);
    assert_eq!(r.state.player.sanity, 65);
    assert_eq!(r.state.flags, vec!["printer_secret_started"]);
    assert_eq!(r.state.clues, vec!["copier_stable_terms"]);
    let r2 = apply_action(&r.state, "choice:wait_for_output").unwrap();
    assert_eq!(r2.state.flags, vec!["printer_secret_started"]);
    assert_eq!(r2.state.clues.len(), 1);
    assert_eq!(r2.state.turn, 2);
}

#[test]
fn waiting_never_drops_sanity_below_zero() {
    let mut g = new_game(1);
    g.player.sanity = 1;
    let r = apply_action(&g, "choice:wait_for_output").unwrap();
    assert_eq!(r.state.player.sanity, 0);
}

#[test]
fn inspecting_only_starts_the_secret() {
    let r = apply_action(&new_game(3), "choice:inspect_toner").unwrap();
    assert_eq!(r.state.player.sanity, 67);
    assert!(r.state.clues.is_empty());
    assert_eq!(r.logs, vec!["복합기는 아직 같은 문장을 반복해서 밀어내고 있다."]);
}

#[test]
fn unknown_printer_action_is_refused() {
    assert_eq!(
        apply_action(&new_game(3), "choice:leave").unwrap_err(),
        ActionError::UnknownAction("choice:leave".into())
    );
}

#[test]
fn save_then_load_gives_the_state_back() {
    let g = apply_action(&new_game(9), "choice:wait_for_output").unwrap().state;
    let env = save_state(&g);
    assert_eq!(env.schema_version, SAVE_SCHEMA_VERSION);
    assert!(env.combat_checkpoint.is_none());
    assert_eq!(load_state(&env).unwrap(), g);
}

#[test]
fn load_refuses_another_schema() {
    let mut env = save_state(&new_game(9));
    env.schema_version = 2;
    assert_eq!(load_state(&env), Err(SaveError::UnsupportedSchemaVersion(2)));
}

#[test]
fn fnv32_matches_known_values() {
    assert_eq!(fnv1a_32(b""), 2166136261);
    assert_eq!(fnv1a_32(b"a"), 0xe40c292c);
}

#[test]
fn dice_come_from_the_seed_text() {
    let h = fnv1a_32(b"7:0:logic:9");
    assert_eq!(roll_2d6(b"7:0:logic:9"), ((h % 6 + 1) as i32, ((h / 6) % 6 + 1) as i32));
}

#[test]
fn ability_check_adds_dice_and_score() {
    let g = new_game(7);
    let c = resolve_ability_check(&g, "logic", 9);
    assert_eq!(c.dice, roll_2d6(b"7:0:logic:9"));
    assert_eq!(c.ability_value, 2);
    assert_eq!(c.insight_bonus, 0);
    assert_eq!(c.total, c.dice.0 + c.dice.1 + 2);
    assert_eq!(c.success, c.total >= 9);
    assert_eq!(c.ability_label, "논리");
    let c = resolve_ability_check(&g, "luck", -3);
    assert_eq!(c.ability_value, 0);
    assert_eq!(c.dice, roll_2d6(b"7:0:luck:-3"));
    assert!(c.success);
    assert_eq!(c.ability_label, "luck");
}

#[test]
fn ability_labels() {
    assert_eq!(ability_label("empathy"), "공감");
    assert_eq!(ability_label("physical"), "신체");
    assert_eq!(ability_label("other"), "other");
}

#[test]
fn state_helpers_keep_lists_unique() {
    let mut g: GameState = new_game(1);
    g.add_inventory_once("key");
    g.add_inventory_once("key");
    g.add_inventory_once("map");
    assert_eq!(g.inventory, vec!["key", "map"]);
    g.remove_inventory_item("key");
    assert_eq!(g.inventory, vec!["map"]);
    g.add_flag_once("a");
    g.add_flag_once("b");
    g.remove_flag("a");
    assert_eq!(g.flags, vec!["b"]);
    assert!(g.add_unlocked_achievement_once("first"));
    assert!(!g.add_unlocked_achievement_once("first"));
    g.add_history_entry("log", "text", Some("src"));
    assert_eq!(g.history[0].source_id.as_deref(), Some("src"));
}

#[test]
fn save_state_carries_no_checkpoint_and_loads_back() {
    let mut g = new_game(7);
    g.add_flag_once("seen");
    let envelope = save_state(&g);
    assert!(envelope.combat_checkpoint.is_none());
    assert_eq!(envelope.schema_version, SAVE_SCHEMA_VERSION);
    assert_eq!(load_state(&envelope).unwrap(), g);
}
