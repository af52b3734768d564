use escape_core::combat_contract::{
    ensure_supported_simulation_version, CombatContractError, CombatManifest, CombatRngNamespace,
    CombatSimulationVersion, CURRENT_SIMULATION_VERSION,
};
use escape_core::combat_hex::{range, ring, HexCoord, HexError, HexOccupancy, HexShape};
use escape_core::combat_opportunity::{
    CombatDetectionLevel, CombatDetectionThresholds, CombatInterventionBudget, CombatOpportunityError,
};

fn c(q: i32, r: i32) -> HexCoord {
    HexCoord { q, r }
}

#[test]
fn hex_distance_and_adjacency() {
    assert_eq!(c(0, 0).distance(c(2, -1)), 2);
    assert_eq!(c(0, 0).distance(c(3, 3)), 6);
    assert!(c(0, 0).is_adjacent(c(1, -1)));
    assert!(!c(0, 0).is_adjacent(c(0, 0)));
    assert!(!c(0, 0).is_adjacent(c(2, 0)));
    let n = c(5, 5).neighbors().unwrap();
    assert!(n.iter().all(|x| x.distance(c(5, 5)) == 1));
}

#[test]
fn rings_and_ranges_count_their_tiles() {
    assert_eq!(ring(c(0, 0), 0).unwrap(), vec![c(0, 0)]);
    assert_eq!(ring(c(0, 0), 1).unwrap().len(), 6);
    assert_eq!(ring(c(0, 0), 3).unwrap().len(), 18);
    assert_eq!(range(c(0, 0), 2).unwrap().len(), 19);
    assert!(range(c(1, 1), 2).unwrap().iter().all(|x| x.distance(c(1, 1)) <= 2));
    assert_eq!(ring(c(0, 0), -1), Err(HexError::NegativeRadius));
    assert_eq!(range(c(0, 0), -2), Err(HexError::NegativeRadius));
}

#[test]
fn lines_walk_from_start_to_end() {
    let l = escape_core::combat_hex::line(c(0, 0), c(3, 0)).unwrap();
    assert_eq!(l.first(), Some(&c(0, 0)));
    assert_eq!(l.last(), Some(&c(3, 0)));
    assert_eq!(l.len(), 4);
}

#[test]
fn shapes_and_occupancy() {
    assert_eq!(HexShape::new(vec![]).unwrap_err(), HexError::EmptyShape);
    assert_eq!(HexShape::new(vec![c(0, 0), c(0, 0)]).unwrap_err(), HexError::DuplicateOffset(c(0, 0)));
    let shape = HexShape::new(vec![c(0, 0), c(1, 0)]).unwrap();
    let tiles = shape.tiles_at(c(2, 2)).unwrap();
    assert_eq!(tiles.len(), 2);
    let mut occ = HexOccupancy::new();
    occ.try_occupy(&tiles, "a").unwrap();
    assert_eq!(occ.occupant_at(c(2, 2)), Some("a"));
    assert_eq!(occ.try_occupy(&[c(3, 2)], "b"), Err(HexError::TileOccupied(c(3, 2))));
    occ.vacate("a");
    assert!(occ.is_free(c(2, 2)));
    assert!(occ.iter().is_empty());
}

#[test]
fn simulation_versions() {
    assert_eq!(CombatSimulationVersion::new(" "), Err(CombatContractError::EmptySimulationVersion));
    let v = CombatSimulationVersion::new(CURRENT_SIMULATION_VERSION).unwrap();
    assert_eq!(v.as_str(), "v3");
    assert_eq!(ensure_supported_simulation_version(&v), Ok(()));
    let old = CombatSimulationVersion::new("v2").unwrap();
    assert_eq!(
        ensure_supported_simulation_version(&old),
        Err(CombatContractError::UnsupportedSimulationVersion("v2".into()))
    );
}

fn manifest() -> CombatManifest {
    CombatManifest {
        simulation_version: CombatSimulationVersion::new(CURRENT_SIMULATION_VERSION).unwrap(),
        actual_seed: 7,
        world_state_fingerprint: "w".into(),
        applied_effects: vec![],
        suppressed_effects: vec![],
        combatant_ids: vec!["b".into(), "a".into()],
        placement_ids: vec![],
        environment_ids: vec![],
        team_ids: vec![],
        rule_ids: vec![],
        public_info_ids: vec![],
    }
}

#[test]
fn manifest_fingerprint_ignores_id_order_and_namespaces_separate_seeds() {
    let m = manifest();
    let mut m2 = manifest();
    m2.combatant_ids = vec!["a".into(), "b".into()];
    let f = m.fingerprint().unwrap();
    assert_eq!(f.len(), 16);
    assert_eq!(f, m2.fingerprint().unwrap());
    let s1 = m.derived_seed(CombatRngNamespace::ActualCombat).unwrap();
    let s2 = m.derived_seed(CombatRngNamespace::ForecastEnsemble).unwrap();
    assert_ne!(s1, s2);
    assert_eq!(s1, m.derived_seed(CombatRngNamespace::ActualCombat).unwrap());
    let mut bad = manifest();
    bad.world_state_fingerprint = "".into();
    assert_eq!(bad.validate(), Err(CombatContractError::EmptyWorldStateFingerprint));
}

#[test]
fn detection_levels_follow_thresholds() {
    let t = CombatDetectionThresholds { detected: 10, interpreted: 20, insightful: 30 };
    assert_eq!(t.level_for_score(9), Ok(CombatDetectionLevel::Undetected));
    assert_eq!(t.level_for_score(10), Ok(CombatDetectionLevel::Detected));
    assert_eq!(t.level_for_score(25), Ok(CombatDetectionLevel::Interpreted));
    assert_eq!(t.level_for_score(30), Ok(CombatDetectionLevel::Insightful));
    let bad = CombatDetectionThresholds { detected: 10, interpreted: 5, insightful: 30 };
    assert_eq!(bad.level_for_score(0), Err(CombatOpportunityError::InvalidThresholds));
}

#[test]
fn budgets_count_down() {
    let mut b = CombatInterventionBudget { maximum: 2, consumed: 0 };
    assert_eq!(b.remaining(), Ok(2));
    b.present().unwrap();
    b.present().unwrap();
    assert_eq!(b.present(), Err(CombatOpportunityError::BudgetExhausted));
    assert_eq!(b.remaining(), Ok(0));
    assert_eq!(CombatInterventionBudget { maximum: 4, consumed: 0 }.validate(), Err(CombatOpportunityError::InvalidBudget));
}
