//! The story-side game state: where the player is, what they carry and
//! know, their resources and abilities, and what has happened so far.
use vstd::prelude::*;
use crate::effects::texts;
use crate::order::str_ord;
use crate::content::{find_key, ContentIndex};
use crate::text::str_eq;

verus! {

pub const DEFAULT_START_LOCATION_ID: &'static str = "dev_desk";

pub const DEFAULT_DISASTER_TYPE: &'static str = "unknown_isolation";

#[derive(Clone, Debug, PartialEq, Eq)]
pub enum NewGameError {
    UnknownStartLocation(String),
}

#[derive(Debug, PartialEq, Eq)]
pub struct PlayerState {
    pub health: i32,
    pub sanity: i32,
    pub battery: i32,
    pub hunger: i32,
    pub thirst: i32,
    /// Ability scores by ability id, ids ascending and each once.
    pub abilities: Vec<(String, i32)>,
}

#[derive(Debug, PartialEq, Eq)]
pub struct GameHistoryEntry {
    pub kind: String,
    pub text: String,
    pub source_id: Option<String>,
}

#[derive(Debug, PartialEq, Eq)]
pub struct GameState {
    pub seed: u64,
    pub turn: u32,
    pub location_id: String,
    pub disaster_type: String,
    pub danger: i32,
    pub player: PlayerState,
    pub inventory: Vec<String>,
    pub flags: Vec<String>,
    pub clues: Vec<String>,
    pub seen_encounters: Vec<String>,
    pub unlocked_achievements: Vec<String>,
    pub history: Vec<GameHistoryEntry>,
}

pub struct PlayerModel {
    pub health: i32,
    pub sanity: i32,
    pub battery: i32,
    pub hunger: i32,
    pub thirst: i32,
    pub abilities: Seq<(Seq<char>, i32)>,
}

pub struct HistoryModel {
    pub kind: Seq<char>,
    pub text: Seq<char>,
    pub source_id: Option<Seq<char>>,
}

pub struct GameStateModel {
    pub seed: u64,
    pub turn: u32,
    pub location_id: Seq<char>,
    pub disaster_type: Seq<char>,
    pub danger: i32,
    pub player: PlayerModel,
    pub inventory: Seq<Seq<char>>,
    pub flags: Seq<Seq<char>>,
    pub clues: Seq<Seq<char>>,
    pub seen_encounters: Seq<Seq<char>>,
    pub unlocked_achievements: Seq<Seq<char>>,
    pub history: Seq<HistoryModel>,
}

pub open spec fn opt_text(o: Option<String>) -> Option<Seq<char>> {
    match o {
        Some(s) => Some(s@),
        None => None,
    }
}

pub open spec fn ability_entries(a: Seq<(String, i32)>) -> Seq<(Seq<char>, i32)> {
    a.map_values(|e: (String, i32)| (e.0@, e.1))
}

impl View for PlayerState {
    type V = PlayerModel;

    open spec fn view(&self) -> PlayerModel {
        PlayerModel {
            health: self.health,
            sanity: self.sanity,
            battery: self.battery,
            hunger: self.hunger,
            thirst: self.thirst,
            abilities: ability_entries(self.abilities@),
        }
    }
}

impl View for GameHistoryEntry {
    type V = HistoryModel;

    open spec fn view(&self) -> HistoryModel {
        HistoryModel { kind: self.kind@, text: self.text@, source_id: opt_text(self.source_id) }
    }
}

pub open spec fn history_models(h: Seq<GameHistoryEntry>) -> Seq<HistoryModel> {
    h.map_values(|e: GameHistoryEntry| e@)
}

impl View for GameState {
    type V = GameStateModel;

    open spec fn view(&self) -> GameStateModel {
        GameStateModel {
            seed: self.seed,
            turn: self.turn,
            location_id: self.location_id@,
            disaster_type: self.disaster_type@,
            danger: self.danger,
            player: self.player@,
            inventory: texts(self.inventory@),
            flags: texts(self.flags@),
            clues: texts(self.clues@),
            seen_encounters: texts(self.seen_encounters@),
            unlocked_achievements: texts(self.unlocked_achievements@),
            history: history_models(self.history@),
        }
    }
}

pub fn copy_strings(v: &Vec<String>) -> (r: Vec<String>)
    ensures
        r@ == v@,
{
    let r = v.clone();
    assert(r@ =~= v@);
    r
}

fn copy_abilities(v: &Vec<(String, i32)>) -> (r: Vec<(String, i32)>)
    ensures
        r@ == v@,
{
    let mut out: Vec<(String, i32)> = Vec::new();
    let n = v.len();
    let mut i: usize = 0;
    while i < n
        invariant
            n == v@.len(),
            i <= n,
            out@ == v@.take(i as int),
        decreases n - i,
    {
        out.push((v[i].0.clone(), v[i].1));
        assert(out@ =~= v@.take(i + 1));
        i += 1;
    }
    assert(v@.take(n as int) =~= v@);
    out
}

impl Clone for PlayerState {
    fn clone(&self) -> (r: Self)
        ensures
            r@ == self@,
    {
        PlayerState {
            health: self.health,
            sanity: self.sanity,
            battery: self.battery,
            hunger: self.hunger,
            thirst: self.thirst,
            abilities: copy_abilities(&self.abilities),
        }
    }
}

impl Clone for GameHistoryEntry {
    fn clone(&self) -> (r: Self)
        ensures
            r == *self,
    {
        GameHistoryEntry { kind: self.kind.clone(), text: self.text.clone(), source_id: self.source_id.clone() }
    }
}

fn copy_history(v: &Vec<GameHistoryEntry>) -> (r: Vec<GameHistoryEntry>)
    ensures
        r@ == v@,
{
    let mut out: Vec<GameHistoryEntry> = Vec::new();
    let n = v.len();
    let mut i: usize = 0;
    while i < n
        invariant
            n == v@.len(),
            i <= n,
            out@ == v@.take(i as int),
        decreases n - i,
    {
        out.push(v[i].clone());
        assert(out@ =~= v@.take(i + 1));
        i += 1;
    }
    assert(v@.take(n as int) =~= v@);
    out
}

impl Clone for GameState {
    fn clone(&self) -> (r: Self)
        ensures
            r@ == self@,
    {
        GameState {
            seed: self.seed,
            turn: self.turn,
            location_id: self.location_id.clone(),
            disaster_type: self.disaster_type.clone(),
            danger: self.danger,
            player: self.player.clone(),
            inventory: copy_strings(&self.inventory),
            flags: copy_strings(&self.flags),
            clues: copy_strings(&self.clues),
            seen_encounters: copy_strings(&self.seen_encounters),
            unlocked_achievements: copy_strings(&self.unlocked_achievements),
            history: copy_history(&self.history),
        }
    }
}

/// Every ability starts at two; ids in ascending order.
pub open spec fn default_ability_entries() -> Seq<(Seq<char>, i32)> {
    seq![
        ("composure"@, 2i32),
        ("empathy"@, 2i32),
        ("interface"@, 2i32),
        ("logic"@, 2i32),
        ("physical"@, 2i32),
        ("volition"@, 2i32),
    ]
}

pub fn default_abilities() -> (r: Vec<(String, i32)>)
    ensures
        ability_entries(r@) == default_ability_entries(),
{
    let mut v: Vec<(String, i32)> = Vec::new();
    v.push(("composure".to_string(), 2));
    v.push(("empathy".to_string(), 2));
    v.push(("interface".to_string(), 2));
    v.push(("logic".to_string(), 2));
    v.push(("physical".to_string(), 2));
    v.push(("volition".to_string(), 2));
    assert(ability_entries(v@) =~= default_ability_entries());
    v
}

/// The state a printer-scene game starts in.
pub open spec fn printer_scene_start(seed: u64) -> GameStateModel {
    GameStateModel {
        seed,
        turn: 0,
        location_id: "printer_area"@,
        disaster_type: DEFAULT_DISASTER_TYPE@,
        danger: 0,
        player: PlayerModel {
            health: 92,
            sanity: 67,
            battery: 41,
            hunger: 0,
            thirst: 0,
            abilities: default_ability_entries(),
        },
        inventory: Seq::empty(),
        flags: Seq::empty(),
        clues: Seq::empty(),
        seen_encounters: Seq::empty(),
        unlocked_achievements: Seq::empty(),
        history: Seq::empty(),
    }
}

/// `s` with `x` appended unless it is already there.
pub open spec fn with_once(s: Seq<Seq<char>>, x: Seq<char>) -> Seq<Seq<char>> {
    if s.contains(x) {
        s
    } else {
        s.push(x)
    }
}

/// `s` without any entry equal to `x`, the rest in order.
pub open spec fn without(s: Seq<Seq<char>>, x: Seq<char>) -> Seq<Seq<char>>
    decreases s.len(),
{
    if s.len() == 0 {
        s
    } else if s.last() == x {
        without(s.drop_last(), x)
    } else {
        without(s.drop_last(), x).push(s.last())
    }
}

/// Where `x` first occurs in `s` (the length of `s` when it does not).
pub open spec fn first_pos(s: Seq<Seq<char>>, x: Seq<char>) -> int
    decreases s.len(),
{
    if s.len() == 0 {
        0
    } else if s[0] == x {
        0
    } else {
        1 + first_pos(s.drop_first(), x)
    }
}

pub proof fn lemma_first_pos(s: Seq<Seq<char>>, x: Seq<char>, i: int)
    requires
        0 <= i < s.len(),
        s[i] == x,
        forall|k: int| 0 <= k < i ==> s[k] != x,
    ensures
        first_pos(s, x) == i,
    decreases i,
{
    if i > 0 {
        lemma_first_pos(s.drop_first(), x, i - 1);
    }
}

/// Where a present entry first occurs, it is there.
pub proof fn lemma_first_pos_found(s: Seq<Seq<char>>, x: Seq<char>)
    requires
        s.contains(x),
    ensures
        0 <= first_pos(s, x) < s.len(),
        s[first_pos(s, x)] == x,
    decreases s.len(),
{
    if s[0] != x {
        let k = choose|k: int| 0 <= k < s.len() && s[k] == x;
        assert(s.drop_first()[k - 1] == x);
        lemma_first_pos_found(s.drop_first(), x);
    }
}

/// Taking out the first `x` takes exactly one `x` out of the entries'
/// multiset, when there is one.
pub proof fn lemma_without_first_multiset(s: Seq<Seq<char>>, x: Seq<char>)
    ensures
        without_first(s, x).to_multiset() =~= (if s.contains(x) {
            s.to_multiset().remove(x)
        } else {
            s.to_multiset()
        }),
{
    if s.contains(x) {
        lemma_first_pos_found(s, x);
        vstd::seq_lib::to_multiset_remove(s, first_pos(s, x));
    }
}

/// `s` without its first entry equal to `x`, if any.
pub open spec fn without_first(s: Seq<Seq<char>>, x: Seq<char>) -> Seq<Seq<char>> {
    if s.contains(x) {
        s.remove(first_pos(s, x))
    } else {
        s
    }
}

pub(crate) fn contains_str(v: &Vec<String>, x: &str) -> (r: Option<usize>)
    ensures
        match r {
            Some(i) => i < v@.len() && v@[i as int]@ == x@ && texts(v@).contains(x@) && first_pos(texts(v@), x@) == i,
            None => !texts(v@).contains(x@),
        },
{
    let n = v.len();
    let mut i: usize = 0;
    while i < n
        invariant
            n == v@.len(),
            i <= n,
            forall|k: int| 0 <= k < i ==> #[trigger] v@[k]@ != x@,
        decreases n - i,
    {
        if str_eq(v[i].as_str(), x) {
            proof {
                assert(texts(v@)[i as int] == x@);
                assert forall|k: int| 0 <= k < i implies texts(v@)[k] != x@ by {
                    assert(texts(v@)[k] == v@[k]@);
                };
                assert(texts(v@).contains(x@));
                lemma_first_pos(texts(v@), x@, i as int);
            }
            return Some(i);
        }
        i += 1;
    }
    proof {
        assert forall|k: int| 0 <= k < texts(v@).len() implies texts(v@)[k] != x@ by {
            assert(texts(v@)[k] == v@[k]@);
        };
    }
    None
}

fn push_once(v: &mut Vec<String>, x: &str)
    ensures
        texts(final(v)@) == with_once(texts(old(v)@), x@),
{
    if contains_str(v, x).is_none() {
        v.push(x.to_string());
        assert(texts(v@) =~= texts(old(v)@).push(x@));
    }
}

impl GameState {
    pub fn new_printer_scene(seed: u64) -> (r: Self)
        ensures
            r@ == printer_scene_start(seed),
    {
        let r = GameState {
            seed,
            turn: 0,
            location_id: "printer_area".to_string(),
            disaster_type: DEFAULT_DISASTER_TYPE.to_string(),
            danger: 0,
            player: PlayerState { health: 92, sanity: 67, battery: 41, hunger: 0, thirst: 0, abilities: default_abilities() },
            inventory: Vec::new(),
            flags: Vec::new(),
            clues: Vec::new(),
            seen_encounters: Vec::new(),
            unlocked_achievements: Vec::new(),
            history: Vec::new(),
        };
        assert(texts(r.inventory@) =~= Seq::<Seq<char>>::empty());
        assert(texts(r.flags@) =~= Seq::<Seq<char>>::empty());
        assert(texts(r.clues@) =~= Seq::<Seq<char>>::empty());
        assert(texts(r.seen_encounters@) =~= Seq::<Seq<char>>::empty());
        assert(texts(r.unlocked_achievements@) =~= Seq::<Seq<char>>::empty());
        assert(history_models(r.history@) =~= Seq::<HistoryModel>::empty());
        r
    }

    pub fn add_flag_once(&mut self, flag: &str)
        ensures
            final(self)@ == (GameStateModel { flags: with_once(old(self)@.flags, flag@), ..old(self)@ }),
    {
        push_once(&mut self.flags, flag);
    }

    pub fn remove_flag(&mut self, flag: &str)
        ensures
            final(self)@ == (GameStateModel { flags: without(old(self)@.flags, flag@), ..old(self)@ }),
    {
        let mut kept: Vec<String> = Vec::new();
        let n = self.flags.len();
        let mut i: usize = 0;
        while i < n
            invariant
                n == self.flags@.len(),
                self@ == old(self)@,
                i <= n,
                texts(kept@) == without(texts(self.flags@.take(i as int)), flag@),
            decreases n - i,
        {
            let ghost pre = texts(self.flags@.take(i + 1));
            assert(pre.drop_last() =~= texts(self.flags@.take(i as int)));
            assert(pre.last() == self.flags@[i as int]@);
            if !str_eq(self.flags[i].as_str(), flag) {
                kept.push(self.flags[i].clone());
                assert(texts(kept@) =~= without(texts(self.flags@.take(i as int)), flag@).push(self.flags@[i as int]@));
            }
            i += 1;
        }
        assert(self.flags@.take(n as int) =~= self.flags@);
        self.flags = kept;
    }

    pub fn add_clue_once(&mut self, clue: &str)
        ensures
            final(self)@ == (GameStateModel { clues: with_once(old(self)@.clues, clue@), ..old(self)@ }),
    {
        push_once(&mut self.clues, clue);
    }

    pub fn add_inventory_once(&mut self, item: &str)
        ensures
            final(self)@ == (GameStateModel { inventory: with_once(old(self)@.inventory, item@), ..old(self)@ }),
    {
        push_once(&mut self.inventory, item);
    }

    pub fn remove_inventory_item(&mut self, item: &str)
        ensures
            final(self)@ == (GameStateModel { inventory: without_first(old(self)@.inventory, item@), ..old(self)@ }),
    {
        match contains_str(&self.inventory, item) {
            Some(i) => {
                let ghost before = self.inventory@;
                self.inventory.remove(i);
                assert(texts(self.inventory@) =~= texts(before).remove(i as int));
            },
            None => {},
        }
    }

    pub fn add_seen_encounter_once(&mut self, encounter_id: &str)
        ensures
            final(self)@ == (GameStateModel {
                seen_encounters: with_once(old(self)@.seen_encounters, encounter_id@),
                ..old(self)@
            }),
    {
        push_once(&mut self.seen_encounters, encounter_id);
    }

    /// Whether the achievement was newly unlocked.
    pub fn add_unlocked_achievement_once(&mut self, achievement_id: &str) -> (r: bool)
        ensures
            r == !old(self)@.unlocked_achievements.contains(achievement_id@),
            final(self)@ == (GameStateModel {
                unlocked_achievements: with_once(old(self)@.unlocked_achievements, achievement_id@),
                ..old(self)@
            }),
    {
        let fresh = contains_str(&self.unlocked_achievements, achievement_id).is_none();
        push_once(&mut self.unlocked_achievements, achievement_id);
        fresh
    }

    pub fn add_history_entry(&mut self, kind: &str, text: &str, source_id: Option<&str>)
        ensures
            final(self)@ == (GameStateModel {
                history: old(self)@.history.push(
                    HistoryModel {
                        kind: kind@,
                        text: text@,
                        source_id: match source_id {
                            Some(s) => Some(s@),
                            None => None,
                        },
                    },
                ),
                ..old(self)@
            }),
    {
        let src = match source_id {
            Some(s) => Some(s.to_string()),
            None => None,
        };
        let ghost before = self.history@;
        self.history.push(GameHistoryEntry { kind: kind.to_string(), text: text.to_string(), source_id: src });
        assert(history_models(self.history@) =~= history_models(before).push(self.history@.last()@));
    }
}

/// The state a content-driven game starts in at `location`.
pub open spec fn content_start(seed: u64, location: Seq<char>) -> GameStateModel {
    GameStateModel {
        seed,
        turn: 0,
        location_id: location,
        disaster_type: DEFAULT_DISASTER_TYPE@,
        danger: 0,
        player: PlayerModel {
            health: 100,
            sanity: 100,
            battery: 100,
            hunger: 0,
            thirst: 0,
            abilities: default_ability_entries(),
        },
        inventory: Seq::empty(),
        flags: Seq::empty(),
        clues: Seq::empty(),
        seen_encounters: Seq::empty(),
        unlocked_achievements: Seq::empty(),
        history: Seq::empty(),
    }
}

impl GameState {
    /// A new game at `start_location_id`, which the content must define.
    pub fn new_from_content_at(seed: u64, content: &ContentIndex, start_location_id: &str) -> (r: Result<Self, NewGameError>)
        ensures
            find_key(content@.locations, start_location_id@) is None ==> (r matches Err(
                NewGameError::UnknownStartLocation(s),
            ) && s@ == start_location_id@),
            find_key(content@.locations, start_location_id@) is Some ==> (r matches Ok(g) && g@ == content_start(
                seed,
                start_location_id@,
            )),
    {
        if content.location(start_location_id).is_none() {
            return Err(NewGameError::UnknownStartLocation(start_location_id.to_string()));
        }
        let r = GameState {
            seed,
            turn: 0,
            location_id: start_location_id.to_string(),
            disaster_type: DEFAULT_DISASTER_TYPE.to_string(),
            danger: 0,
            player: PlayerState { health: 100, sanity: 100, battery: 100, hunger: 0, thirst: 0, abilities: default_abilities() },
            inventory: Vec::new(),
            flags: Vec::new(),
            clues: Vec::new(),
            seen_encounters: Vec::new(),
            unlocked_achievements: Vec::new(),
            history: Vec::new(),
        };
        assert(texts(r.inventory@) =~= Seq::<Seq<char>>::empty());
        assert(texts(r.flags@) =~= Seq::<Seq<char>>::empty());
        assert(texts(r.clues@) =~= Seq::<Seq<char>>::empty());
        assert(texts(r.seen_encounters@) =~= Seq::<Seq<char>>::empty());
        assert(texts(r.unlocked_achievements@) =~= Seq::<Seq<char>>::empty());
        assert(history_models(r.history@) =~= Seq::<HistoryModel>::empty());
        Ok(r)
    }

    /// A new game at the default start location.
    pub fn new_from_content(seed: u64, content: &ContentIndex) -> (r: Result<Self, NewGameError>)
        ensures
            find_key(content@.locations, DEFAULT_START_LOCATION_ID@) is None ==> (r matches Err(
                NewGameError::UnknownStartLocation(s),
            ) && s@ == DEFAULT_START_LOCATION_ID@),
            find_key(content@.locations, DEFAULT_START_LOCATION_ID@) is Some ==> (r matches Ok(g) && g@
                == content_start(seed, DEFAULT_START_LOCATION_ID@)),
    {
        Self::new_from_content_at(seed, content, DEFAULT_START_LOCATION_ID)
    }
}


impl NewGameError {
    /// The error as a sentence.
    pub fn message(&self) -> (r: String)
        ensures
            match self {
                NewGameError::UnknownStartLocation(l) => r@ == "unknown start location: "@ + l@,
            },
    {
        let mut t = String::new();
        match self {
            NewGameError::UnknownStartLocation(l) => {
                t.append("unknown start location: ");
                t.append(l.as_str());
            },
        }
        t
    }
}

} // verus!
