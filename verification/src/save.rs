//! Save envelopes: the game state under a schema version, with room for a
//! paused battle.
use vstd::prelude::*;
use crate::combat_runtime::CombatRuntimeCheckpoint;
use crate::state::{GameState, GameStateModel};

verus! {

pub const SAVE_SCHEMA_VERSION: u32 = 1;

pub struct SaveEnvelope {
    pub schema_version: u32,
    pub state: GameState,
    pub combat_checkpoint: Option<CombatRuntimeCheckpoint>,
}

#[derive(Clone, Debug, PartialEq, Eq)]
pub enum SaveError {
    UnsupportedSchemaVersion(u32),
}

/// What a save holds: its version, the state, and whether a battle is paused in it.
pub struct SaveModel {
    pub schema_version: u32,
    pub state: GameStateModel,
    pub has_checkpoint: bool,
}

impl View for SaveEnvelope {
    type V = SaveModel;

    open spec fn view(&self) -> SaveModel {
        SaveModel {
            schema_version: self.schema_version,
            state: self.state@,
            has_checkpoint: self.combat_checkpoint is Some,
        }
    }
}

/// A fresh save of `s`: the current version, no paused battle.
pub open spec fn save_model(s: GameStateModel) -> SaveModel {
    SaveModel { schema_version: SAVE_SCHEMA_VERSION, state: s, has_checkpoint: false }
}

/// Loading accepts the current version only.
pub open spec fn load_model(m: SaveModel) -> Result<GameStateModel, SaveError> {
    if m.schema_version != SAVE_SCHEMA_VERSION {
        Err(SaveError::UnsupportedSchemaVersion(m.schema_version))
    } else {
        Ok(m.state)
    }
}

/// Loading a fresh save gives back the state that was saved.
pub proof fn lemma_load_after_save(s: GameStateModel)
    ensures
        load_model(save_model(s)) == Ok::<GameStateModel, SaveError>(s),
{
}

pub fn save_state(state: &GameState) -> (r: SaveEnvelope)
    ensures
        r@ == save_model(state@),
{
    SaveEnvelope { schema_version: SAVE_SCHEMA_VERSION, state: state.clone(), combat_checkpoint: None }
}

pub fn load_state(envelope: &SaveEnvelope) -> (r: Result<GameState, SaveError>)
    ensures
        match r {
            Ok(s) => load_model(envelope@) == Ok::<GameStateModel, SaveError>(s@),
            Err(e) => load_model(envelope@) == Err::<GameStateModel, SaveError>(e),
        },
{
    if envelope.schema_version != SAVE_SCHEMA_VERSION {
        return Err(SaveError::UnsupportedSchemaVersion(envelope.schema_version));
    }
    Ok(envelope.state.clone())
}


impl SaveError {
    /// The error as a sentence.
    pub fn message(&self) -> (r: String)
        ensures
            match self {
                SaveError::UnsupportedSchemaVersion(v) => r@ == "unsupported save schema version: "@
                    + crate::text::dec_text(*v as nat),
            },
    {
        let mut t = String::new();
        match self {
            SaveError::UnsupportedSchemaVersion(v) => {
                t.append("unsupported save schema version: ");
                crate::text::append_u64(&mut t, *v as u64);
            },
        }
        t
    }
}

} // verus!
