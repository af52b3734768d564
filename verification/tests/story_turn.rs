use escape_core::content::{
    index_content_bundle, AchievementDef, ChoiceDef, ContentConditions, ContentIndex, EncounterDef, EndingDef,
    ItemDef, LocationDef, OutcomeDef, ParsedContent,
};
use escape_core::scene_page::{scene_page_from_content, SceneMode};
use escape_core::state::PlayerState;
use escape_core::story_rules::{
    advance_turn, apply_player_resource_delta, cost_unavailable_reasons, format_cost_summary,
};
use escape_core::turn::{ContentActionError, ContentTurnError};
use escape_core::{apply_action_from_content, new_game_from_content, turn_view_from_content};

fn no_conditions() -> ContentConditions {
    ContentConditions {
        locations: vec![],
        disaster_types: vec![],
        required_items: vec![],
        required_flags: vec![],
        forbidden_flags: vec![],
        required_clues: vec![],
        min_resources: vec![],
        max_resources: vec![],
        min_abilities: vec![],
    }
}

fn outcome() -> OutcomeDef {
    OutcomeDef {
        log: None,
        add_flags: vec![],
        remove_flags: vec![],
        add_clues: vec![],
        add_items: vec![],
        remove_items: vec![],
        destination_id: None,
        danger: 0,
        resources: vec![],
    }
}

fn place(id: &str, to: &str) -> LocationDef {
    LocationDef {
        id: id.into(),
        name: id.to_uppercase(),
        description: format!("at {id}"),
        connections: vec![to.into()],
        tags: vec![],
        danger: 0,
    }
}

fn story() -> ContentIndex {
    let mut look = outcome();
    look.log = Some("You look.".into());
    look.add_flags = vec!["looked".into()];
    look.danger = 1;
    let mut at_desk = no_conditions();
    at_desk.locations = vec!["dev_desk".into()];
    let mut keyed = no_conditions();
    keyed.required_flags = vec!["key".into()];
    let encounter = EncounterDef {
        id: "e1".into(),
        title: "Desk".into(),
        body: "A desk.".into(),
        presentation: None,
        conditions: at_desk,
        choices: vec![
            ChoiceDef {
                id: "c1".into(),
                label: "Look".into(),
                conditions: no_conditions(),
                cost: vec![("sanity".into(), 5)],
                outcome: look,
                check: None,
            },
            ChoiceDef {
                id: "c2".into(),
                label: "Unlock".into(),
                conditions: keyed,
                cost: vec![],
                outcome: outcome(),
                check: None,
            },
        ],
        repeatable: false,
        weight: 1,
    };
    let water = ItemDef {
        id: "water".into(),
        name: "Water".into(),
        description: String::new(),
        item_type: "drink".into(),
        tags: vec![],
        usable: true,
        use_effects: vec![("thirst".into(), -30)],
        use_log: None,
    };
    let mut looked = no_conditions();
    looked.required_flags = vec!["looked".into()];
    let achievement =
        AchievementDef { id: "a1".into(), name: "Looker".into(), description: String::new(), conditions: looked, hidden: false };
    let parsed = ParsedContent {
        locations: vec![Ok(place("dev_desk", "hall")), Ok(place("hall", "dev_desk"))],
        items: vec![Ok(water)],
        encounters: vec![Ok(encounter)],
        endings: vec![],
        achievements: vec![Ok(achievement)],
        secrets: vec![],
    };
    index_content_bundle(parsed).unwrap()
}

#[test]
fn cost_summary_and_shortfalls() {
    let cost = vec![("hunger".to_string(), 3), ("health".to_string(), 0), ("battery".to_string(), 2)];
    assert_eq!(format_cost_summary(&cost), Some("허기 +3, 배터리 -2".to_string()));
    assert_eq!(format_cost_summary(&vec![("health".to_string(), 0)]), None);
    let player = PlayerState { health: 100, sanity: 10, battery: 1, hunger: 0, thirst: 0, abilities: vec![] };
    let cost = vec![("health".to_string(), 150), ("hunger".to_string(), 500), ("battery".to_string(), 1)];
    assert_eq!(cost_unavailable_reasons(&cost, &player), vec!["체력 부족: 100/150".to_string()]);
}

#[test]
fn resources_clamp_and_turns_press() {
    let mut player = PlayerState { health: 95, sanity: 10, battery: 1, hunger: 0, thirst: 0, abilities: vec![] };
    apply_player_resource_delta(&mut player, "health", 20);
    apply_player_resource_delta(&mut player, "battery", -5);
    apply_player_resource_delta(&mut player, "mana", 5);
    assert_eq!((player.health, player.battery), (100, 0));
    let ix = story();
    let mut state = new_game_from_content(1, &ix).unwrap();
    state.player.thirst = 59;
    state.player.sanity = 30;
    let logs = advance_turn(&mut state);
    assert_eq!(state.turn, 1);
    assert_eq!((state.player.hunger, state.player.thirst), (1, 61));
    assert_eq!(logs.len(), 2);
    assert!(state.flags.contains(&"pressure_thirst_warning_seen".to_string()));
    assert!(state.flags.contains(&"pressure_low_sanity_warning_seen".to_string()));
    assert!(advance_turn(&mut state).is_empty());
    state.player.thirst = 100;
    state.player.hunger = 99;
    advance_turn(&mut state);
    assert_eq!((state.player.health, state.player.sanity), (94, 28));
}

#[test]
fn an_encounter_offers_open_choices_and_shows_closed_ones() {
    let ix = story();
    let mut state = new_game_from_content(7, &ix).unwrap();
    state.inventory.push("water".into());
    let view = turn_view_from_content(&state, &ix).unwrap();
    assert_eq!(view.encounter_id, Some("e1".to_string()));
    assert_eq!(view.title, "Desk");
    let ids: Vec<&str> = view.actions.iter().map(|a| a.id.as_str()).collect();
    assert_eq!(ids, vec!["choice:c1", "use:water"]);
    assert_eq!(view.actions[0].cost_summary, Some("정신력 -5".to_string()));
    assert_eq!(view.blocked_actions.len(), 1);
    assert_eq!(view.blocked_actions[0].id, "choice:c2");
    assert_eq!(view.blocked_actions[0].reasons, vec!["필요 플래그 없음: key".to_string()]);
    let page = scene_page_from_content(&state, &ix).unwrap();
    assert_eq!(page.mode, SceneMode::Encounter);
    assert_eq!(page.visual.id, "encounter:e1");
    assert_eq!(page.actions[1].kind, "use");
}

#[test]
fn taking_a_choice_pays_applies_and_unlocks() {
    let ix = story();
    let mut state = new_game_from_content(7, &ix).unwrap();
    state.inventory.push("water".into());
    let res = apply_action_from_content(&state, &ix, "choice:c1").unwrap();
    assert_eq!(res.encounter_id, "e1");
    assert_eq!(res.logs, vec!["You look.".to_string()]);
    assert_eq!(res.newly_unlocked_achievements, vec!["a1".to_string()]);
    let s = res.state;
    assert_eq!((s.player.sanity, s.danger, s.turn), (95, 1, 1));
    assert_eq!((s.player.hunger, s.player.thirst), (1, 2));
    assert_eq!(s.seen_encounters, vec!["e1".to_string()]);
    assert_eq!(s.history.last().unwrap().text, "You look.");
    assert_eq!(s.history.last().unwrap().source_id, Some("e1".to_string()));
    assert_eq!(
        apply_action_from_content(&s, &ix, "choice:c2").unwrap_err(),
        ContentActionError::UnknownAction("choice:c2".into())
    );

    let view = turn_view_from_content(&s, &ix).unwrap();
    assert_eq!(view.encounter_id, None);
    assert_eq!(view.title, "DEV_DESK");
    let ids: Vec<&str> = view.actions.iter().map(|a| a.id.as_str()).collect();
    assert_eq!(ids, vec!["move:hall", "use:water"]);
    assert_eq!(view.actions[0].label, "HALL");

    let used = apply_action_from_content(&s, &ix, "use:water").unwrap();
    assert_eq!(used.encounter_id, "item");
    assert_eq!(used.logs, vec!["Water을 사용했다.".to_string()]);
    assert_eq!(used.state.player.thirst, 2);
    assert!(used.state.inventory.is_empty());

    let moved = apply_action_from_content(&used.state, &ix, "move:hall").unwrap();
    assert_eq!(moved.encounter_id, "movement");
    assert_eq!(moved.state.location_id, "hall");
    assert_eq!(moved.logs, vec!["HALL로 이동했다.".to_string()]);
    assert_eq!(moved.state.turn, 3);
    assert_eq!(
        apply_action_from_content(&used.state, &ix, "move:roof").unwrap_err(),
        ContentActionError::UnknownAction("move:roof".into())
    );
    assert_eq!(
        apply_action_from_content(&used.state, &ix, "train:logic").unwrap_err(),
        ContentActionError::UnknownAction("train:logic".into())
    );
}

#[test]
fn endings_win_and_unknown_places_are_refused() {
    let mut looked = no_conditions();
    looked.required_flags = vec!["looked".into()];
    let mut p = ParsedContent {
        locations: vec![Ok(place("dev_desk", "hall")), Ok(place("hall", "dev_desk"))],
        items: vec![],
        encounters: vec![],
        endings: vec![],
        achievements: vec![],
        secrets: vec![],
    };
    let ending = |id: &str, priority: i32| EndingDef {
        id: id.into(),
        name: id.to_uppercase(),
        kind: "normal".into(),
        priority,
        conditions: looked.clone(),
        local_hint_id: None,
        text: format!("{id} text"),
    };
    p.endings = vec![Ok(ending("a_end", 2)), Ok(ending("b_end", 2)), Ok(ending("c_end", 1))];
    let ix = index_content_bundle(p).unwrap();
    let mut state = new_game_from_content(1, &ix).unwrap();
    assert_eq!(turn_view_from_content(&state, &ix).unwrap().ending_id, None);
    state.flags.push("looked".into());
    let view = turn_view_from_content(&state, &ix).unwrap();
    assert_eq!(view.ending_id, Some("b_end".to_string()));
    assert_eq!(view.body, "b_end text");
    assert!(view.actions.is_empty());
    assert_eq!(
        apply_action_from_content(&state, &ix, "move:hall").unwrap_err(),
        ContentActionError::UnknownAction("move:hall".into())
    );
    state.location_id = "roof".into();
    assert_eq!(
        turn_view_from_content(&state, &ix).unwrap_err(),
        ContentTurnError::UnknownStateLocation("roof".into())
    );
    assert_eq!(
        apply_action_from_content(&state, &ix, "move:hall").unwrap_err(),
        ContentActionError::UnknownStateLocation("roof".into())
    );
}
