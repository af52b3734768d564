//! Results, ending types and cards of the final epilogue.
use vstd::prelude::*;
use crate::effects::texts;
use crate::state::copy_strings;

verus! {

#[derive(Clone, Copy, Debug, PartialEq, Eq, Structural)]
pub enum FinalResult {
    BattleLoss,
    CorruptedVictory,
    TrueRouteVictory,
    MumyeongUnsavedVictory,
    MeaningfulVictory,
    IncompleteVictory,
    BasicVictory,
}

pub open spec fn result_key(r: FinalResult) -> Seq<char> {
    match r {
        FinalResult::BattleLoss => "battle_loss"@,
        FinalResult::CorruptedVictory => "corrupted_victory"@,
        FinalResult::TrueRouteVictory => "true_route_victory"@,
        FinalResult::MumyeongUnsavedVictory => "mumyeong_unsaved_victory"@,
        FinalResult::MeaningfulVictory => "meaningful_victory"@,
        FinalResult::IncompleteVictory => "incomplete_victory"@,
        FinalResult::BasicVictory => "basic_victory"@,
    }
}

pub open spec fn result_title(r: FinalResult) -> Seq<char> {
    match r {
        FinalResult::BattleLoss => "패배 결산"@,
        FinalResult::CorruptedVictory => "침식 승리 결산"@,
        FinalResult::TrueRouteVictory => "계산식 밖의 승리"@,
        FinalResult::MumyeongUnsavedVictory => "무명 비구원 승리"@,
        FinalResult::MeaningfulVictory => "의미 있는 승리"@,
        FinalResult::IncompleteVictory => "불완전한 승리"@,
        FinalResult::BasicVictory => "기본 승리"@,
    }
}

impl FinalResult {
    pub fn key(self) -> (s: &'static str)
        ensures
            s@ == result_key(self),
    {
        match self {
            FinalResult::BattleLoss => "battle_loss",
            FinalResult::CorruptedVictory => "corrupted_victory",
            FinalResult::TrueRouteVictory => "true_route_victory",
            FinalResult::MumyeongUnsavedVictory => "mumyeong_unsaved_victory",
            FinalResult::MeaningfulVictory => "meaningful_victory",
            FinalResult::IncompleteVictory => "incomplete_victory",
            FinalResult::BasicVictory => "basic_victory",
        }
    }

    pub fn title(self) -> (s: &'static str)
        ensures
            s@ == result_title(self),
    {
        match self {
            FinalResult::BattleLoss => "패배 결산",
            FinalResult::CorruptedVictory => "침식 승리 결산",
            FinalResult::TrueRouteVictory => "계산식 밖의 승리",
            FinalResult::MumyeongUnsavedVictory => "무명 비구원 승리",
            FinalResult::MeaningfulVictory => "의미 있는 승리",
            FinalResult::IncompleteVictory => "불완전한 승리",
            FinalResult::BasicVictory => "기본 승리",
        }
    }
}

#[derive(Clone, Copy, Debug, PartialEq, Eq, Structural)]
pub enum MainEndingType {
    BattleLoss,
    Returnee,
    MurimOutsider,
    CheongryuDivineSword,
    WhitePathPrison,
    BlackNightGentleman,
    DebtorOfAllUnderHeaven,
}

pub open spec fn ending_key(e: MainEndingType) -> Seq<char> {
    match e {
        MainEndingType::BattleLoss => "battle_loss"@,
        MainEndingType::Returnee => "returnee"@,
        MainEndingType::MurimOutsider => "murim_outsider"@,
        MainEndingType::CheongryuDivineSword => "cheongryu_divine_sword"@,
        MainEndingType::WhitePathPrison => "white_path_prison"@,
        MainEndingType::BlackNightGentleman => "black_night_gentleman"@,
        MainEndingType::DebtorOfAllUnderHeaven => "debtor_of_all_under_heaven"@,
    }
}

pub open spec fn ending_label(e: MainEndingType) -> Seq<char> {
    match e {
        MainEndingType::BattleLoss => "패배 결산"@,
        MainEndingType::Returnee => "귀환자"@,
        MainEndingType::MurimOutsider => "무림 외지인"@,
        MainEndingType::CheongryuDivineSword => "청류 신검"@,
        MainEndingType::WhitePathPrison => "백도의 굴레"@,
        MainEndingType::BlackNightGentleman => "흑야의 협객"@,
        MainEndingType::DebtorOfAllUnderHeaven => "천하의 채무자"@,
    }
}

impl MainEndingType {
    pub fn key(self) -> (s: &'static str)
        ensures
            s@ == ending_key(self),
    {
        match self {
            MainEndingType::BattleLoss => "battle_loss",
            MainEndingType::Returnee => "returnee",
            MainEndingType::MurimOutsider => "murim_outsider",
            MainEndingType::CheongryuDivineSword => "cheongryu_divine_sword",
            MainEndingType::WhitePathPrison => "white_path_prison",
            MainEndingType::BlackNightGentleman => "black_night_gentleman",
            MainEndingType::DebtorOfAllUnderHeaven => "debtor_of_all_under_heaven",
        }
    }

    pub fn label(self) -> (s: &'static str)
        ensures
            s@ == ending_label(self),
    {
        match self {
            MainEndingType::BattleLoss => "패배 결산",
            MainEndingType::Returnee => "귀환자",
            MainEndingType::MurimOutsider => "무림 외지인",
            MainEndingType::CheongryuDivineSword => "청류 신검",
            MainEndingType::WhitePathPrison => "백도의 굴레",
            MainEndingType::BlackNightGentleman => "흑야의 협객",
            MainEndingType::DebtorOfAllUnderHeaven => "천하의 채무자",
        }
    }
}

/// An epilogue card offered to the renderer, with the seeds it consumed.
#[derive(Debug)]
pub struct CardCandidate {
    pub id: &'static str,
    pub variant: &'static str,
    pub group: &'static str,
    pub consumed_seeds: Vec<String>,
    pub body: &'static str,
}

/// A card held back, the rule that held it back, and its seeds.
#[derive(Debug)]
pub struct SuppressedCard {
    pub id: &'static str,
    pub suppressed_by: &'static str,
    pub consumed_seeds: Vec<String>,
}

pub struct CardModel {
    pub id: Seq<char>,
    pub variant: Seq<char>,
    pub group: Seq<char>,
    pub seeds: Seq<Seq<char>>,
    pub body: Seq<char>,
}

pub struct SuppressedModel {
    pub id: Seq<char>,
    pub suppressed_by: Seq<char>,
    pub seeds: Seq<Seq<char>>,
}

impl View for CardCandidate {
    type V = CardModel;

    open spec fn view(&self) -> CardModel {
        CardModel {
            id: self.id@,
            variant: self.variant@,
            group: self.group@,
            seeds: texts(self.consumed_seeds@),
            body: self.body@,
        }
    }
}

impl View for SuppressedCard {
    type V = SuppressedModel;

    open spec fn view(&self) -> SuppressedModel {
        SuppressedModel { id: self.id@, suppressed_by: self.suppressed_by@, seeds: texts(self.consumed_seeds@) }
    }
}

impl Clone for CardCandidate {
    fn clone(&self) -> (r: Self)
        ensures
            r@ == self@,
    {
        CardCandidate {
            id: self.id,
            variant: self.variant,
            group: self.group,
            consumed_seeds: copy_strings(&self.consumed_seeds),
            body: self.body,
        }
    }
}

pub open spec fn card_models(s: Seq<CardCandidate>) -> Seq<CardModel> {
    s.map_values(|c: CardCandidate| c@)
}

pub open spec fn suppressed_models(s: Seq<SuppressedCard>) -> Seq<SuppressedModel> {
    s.map_values(|c: SuppressedCard| c@)
}

} // verus!
