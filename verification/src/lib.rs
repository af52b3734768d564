//! Deterministic game core: hex geometry, combat pipeline and story state.
pub mod text;
pub mod json;
pub mod order;
pub mod combat_contract;
pub mod combat_hex;
pub mod combat_state;
pub mod combat_simulation;
pub mod combat_execution;
pub mod combat_resolution;
pub mod combat_conclusion;
pub mod combat_opportunity;
pub mod combat_runtime;
pub mod combat_intervention;
pub mod combat_spectator;
pub mod effects;
pub mod state;
pub mod turn;
pub mod story_rules;
pub mod story_turn;
pub mod save;
pub mod content;
pub mod scene_page;
pub mod final_epilogue;

pub use combat_conclusion::side_all_defeated;
pub use combat_conclusion::conclude as conclude_combat;
pub use combat_spectator::spectate as spectate_combat;
pub use combat_execution::execute as execute_combat;
pub use combat_resolution::resolve as resolve_combat;

use vstd::prelude::*;
use state::{printer_scene_start, GameState};
use turn::{printer_action_known, printer_encounter_id, printer_log, printer_next_state, printer_view_ok, wait_action};
use turn::{ActionError, ActionResult, ContentActionError, ContentTurnError, TurnView};
use story_turn::{content_action, content_action_fits, content_turn, fault_of, outcome_is, turn_costs_showable, view_is};
use effects::printer_glyph_model;
use content::{find_key, ContentIndex};
use state::{content_start, NewGameError, DEFAULT_START_LOCATION_ID};

verus! {

/// A new game at the printer scene.
pub fn new_game(seed: u64) -> (r: GameState)
    ensures
        r@ == printer_scene_start(seed),
{
    GameState::new_printer_scene(seed)
}

/// A new game from content, at the default start location.
pub fn new_game_from_content(seed: u64, content: &ContentIndex) -> (r: Result<GameState, NewGameError>)
    ensures
        find_key(content@.locations, DEFAULT_START_LOCATION_ID@) is None ==> (r matches Err(
            NewGameError::UnknownStartLocation(s),
        ) && s@ == DEFAULT_START_LOCATION_ID@),
        find_key(content@.locations, DEFAULT_START_LOCATION_ID@) is Some ==> (r matches Ok(g) && g@ == content_start(
            seed,
            DEFAULT_START_LOCATION_ID@,
        )),
{
    GameState::new_from_content(seed, content)
}

/// A new game from content, at the given start location.
pub fn new_game_from_content_at(seed: u64, content: &ContentIndex, start_location_id: &str) -> (r: Result<
    GameState,
    NewGameError,
>)
    ensures
        find_key(content@.locations, start_location_id@) is None ==> (r matches Err(
            NewGameError::UnknownStartLocation(s),
        ) && s@ == start_location_id@),
        find_key(content@.locations, start_location_id@) is Some ==> (r matches Ok(g) && g@ == content_start(
            seed,
            start_location_id@,
        )),
{
    GameState::new_from_content_at(seed, content, start_location_id)
}

/// What the printer scene shows for `state`.
pub fn turn_view(state: &GameState) -> (v: TurnView)
    ensures
        printer_view_ok(v, *state),
{
    turn::printer_turn_view(state)
}

/// What the turn the state stands at shows, by the content.
pub fn turn_view_from_content(state: &GameState, content: &ContentIndex) -> (r: Result<TurnView, ContentTurnError>)
    requires
        turn_costs_showable(state@, content@),
    ensures
        match content_turn(state@, content@) {
            Ok(m) => r matches Ok(v) && view_is(v, m),
            Err(id) => r matches Err(ContentTurnError::UnknownStateLocation(x)) && x@ == id,
        },
{
    story_turn::content_turn_view(state, content)
}

/// Takes an action at the turn the state stands at, by the content.
pub fn apply_action_from_content(state: &GameState, content: &ContentIndex, action_id: &str) -> (r: Result<
    ActionResult,
    ContentActionError,
>)
    requires
        content_action_fits(state@, content@, action_id@),
    ensures
        match content_action(state@, content@, action_id@) {
            Ok(o) => r matches Ok(res) && outcome_is(res, action_id@, o),
            Err(f) => r matches Err(e) && fault_of(e) == f,
        },
{
    story_turn::apply_content_action(state, content, action_id)
}

/// Takes a printer-scene action.
pub fn apply_action(state: &GameState, action_id: &str) -> (r: Result<ActionResult, ActionError>)
    requires
        printer_action_known(action_id@) ==> state.turn < u32::MAX,
        action_id@ == wait_action() ==> state.player.sanity >= i32::MIN + 2,
    ensures
        !printer_action_known(action_id@) ==> (r matches Err(ActionError::UnknownAction(s)) && s@ == action_id@),
        printer_action_known(action_id@) ==> r is Ok,
        r matches Ok(res) ==> res.encounter_id@ == printer_encounter_id() && res.action_id@ == action_id@,
        r matches Ok(res) ==> res.state@ == printer_next_state(state@, action_id@),
        r matches Ok(res) ==> res.logs@.len() == 1 && res.logs@[0]@ == printer_log(action_id@),
        r matches Ok(res) ==> res.effect_cues@.len() == 1 && res.effect_cues@[0]@ == printer_glyph_model(),
        r matches Ok(res) ==> res.newly_unlocked_achievements@.len() == 0,
{
    turn::apply_printer_action(state, action_id)
}

} // verus!
